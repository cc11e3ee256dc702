use vstd::prelude::*;

use crate::Error;
use crate::Theme;
use crate::action::Action;
use crate::action::any_holds_error;
use crate::action::group_nonempty;
use crate::action::lemma_groups_nonempty_iff;
use crate::action::lemma_holds_error_iff;
use crate::action::groups_nonempty;
use crate::render::action_lines;
use crate::render::framed;
use crate::render::frame_line;
use crate::render::immediate_line;
use crate::render::lines_from;
use crate::render::push_line;
use crate::render::render_lines;
use crate::render::separator_lines;
use crate::render::top_lines;
use crate::render::width_v;
use crate::render::width_usable;
use crate::render::usable_width;
use crate::render::lemma_framed_add;

verus! {

/// The width available inside the frame, from the terminal's column
/// count: four columns go to the border and its padding. A frame
/// narrower than the three columns the truncation marker needs cannot
/// be rendered, so such a terminal gets plain output instead.
pub open spec fn frame_width(terminal_width: Option<usize>) -> Option<usize> {
    match terminal_width {
        None => None,
        Some(c) => if c >= 7 {
            Some((c - 4) as usize)
        } else {
            None
        },
    }
}

/// One execution context's recording state: the innermost open scope's
/// action buffer, the active flag telling leaf calls to buffer rather
/// than print, and the line sink with its reported width and theme.
pub struct Context {
    /// Actions recorded by the innermost open scope.
    pub actions: Vec<Action>,
    /// True exactly while some root scope is open.
    pub active: bool,
    /// The line sink: every emitted line, in emission order.
    pub output: Vec<String>,
    /// The frame width the sink reports, or none for plain output.
    pub width: Option<usize>,
    /// The glyph set for borders and connectors.
    pub theme: Theme,
}

impl Context {
    /// A fresh idle context for a sink with the given terminal width.
    pub fn new(terminal_width: Option<usize>, theme: Theme) -> (ctx: Context)
        ensures
            ctx.actions@ == Seq::<Action>::empty(),
            !ctx.active,
            ctx.output@ == Seq::<String>::empty(),
            ctx.width == frame_width(terminal_width),
            ctx.theme == theme,
    {
        let width = match terminal_width {
            None => None,
            Some(c) => if c >= 7 {
                Some(c - 4)
            } else {
                None
            },
        };
        Context { actions: Vec::new(), active: false, output: Vec::new(), width, theme }
    }

    /// Re-reads the sink's width: the terminal may have been resized
    /// since the context was made, and each root close renders at the
    /// width current then.
    pub fn set_terminal_width(&mut self, terminal_width: Option<usize>)
        ensures
            final(self).width == frame_width(terminal_width),
            final(self).actions == old(self).actions,
            final(self).active == old(self).active,
            final(self).output == old(self).output,
            final(self).theme == old(self).theme,
    {
        self.width = match terminal_width {
            None => None,
            Some(c) => if c >= 7 {
                Some(c - 4)
            } else {
                None
            },
        };
    }

    /// Hands the emitted lines out and leaves the sink empty.
    pub fn take_output(&mut self) -> (lines: Vec<String>)
        ensures
            lines == old(self).output,
            final(self).output@ == Seq::<String>::empty(),
            final(self).actions == old(self).actions,
            final(self).active == old(self).active,
            final(self).width == old(self).width,
            final(self).theme == old(self).theme,
    {
        let mut lines: Vec<String> = Vec::new();
        core::mem::swap(&mut lines, &mut self.output);
        lines
    }
}

/// What a closing nested scope leaves in its parent's buffer: the parent
/// buffer untouched when the scope recorded nothing, else the parent
/// buffer with one group holding exactly what the scope recorded.
pub open spec fn folded(saved: Seq<Action>, message: String, recorded: Vec<Action>) -> Seq<
    Action,
> {
    if recorded@.len() == 0 {
        saved
    } else {
        saved.push(Action::Report { message, actions: recorded })
    }
}

/// An open recording scope: the buffer and active flag it parked at
/// creation, its title, and whether it renders (root) or folds into its
/// parent (nested) at close.
pub struct Report {
    message: String,
    actions: Vec<Action>,
    active: bool,
    log: bool,
    closed: bool,
}

impl Report {
    /// The title this scope renders or folds under.
    pub closed spec fn title(&self) -> String {
        self.message
    }

    /// The buffer parked from the enclosing scope at creation.
    pub closed spec fn saved(&self) -> Vec<Action> {
        self.actions
    }

    /// The active flag to restore at close.
    pub closed spec fn prior_active(&self) -> bool {
        self.active
    }

    /// Whether the scope renders at close rather than folding.
    pub closed spec fn is_root(&self) -> bool {
        self.log
    }

    /// Whether the scope has already closed.
    pub closed spec fn is_closed(&self) -> bool {
        self.closed
    }

    /// Opens a root scope: parks the context's buffer, starts a fresh
    /// one, and turns buffering on. Its close renders one report.
    pub fn log(ctx: &mut Context, message: String) -> (r: Report)
        ensures
            r.title() == message,
            r.saved() == old(ctx).actions,
            r.prior_active() == old(ctx).active,
            r.is_root(),
            !r.is_closed(),
            final(ctx).actions@ == Seq::<Action>::empty(),
            final(ctx).active,
            final(ctx).output == old(ctx).output,
            final(ctx).width == old(ctx).width,
            final(ctx).theme == old(ctx).theme,
    {
        let mut parked: Vec<Action> = Vec::new();
        core::mem::swap(&mut parked, &mut ctx.actions);
        let active = ctx.active;
        ctx.active = true;
        Report { message, actions: parked, active, log: true, closed: false }
    }

    /// Opens a nested scope: parks the context's buffer and starts a
    /// fresh one. The active flag is untouched. Its close folds what was
    /// recorded into the parent's buffer.
    pub fn rec(ctx: &mut Context, message: String) -> (r: Report)
        ensures
            r.title() == message,
            r.saved() == old(ctx).actions,
            r.prior_active() == old(ctx).active,
            !r.is_root(),
            !r.is_closed(),
            final(ctx).actions@ == Seq::<Action>::empty(),
            final(ctx).active == old(ctx).active,
            final(ctx).output == old(ctx).output,
            final(ctx).width == old(ctx).width,
            final(ctx).theme == old(ctx).theme,
    {
        let mut parked: Vec<Action> = Vec::new();
        core::mem::swap(&mut parked, &mut ctx.actions);
        let active = ctx.active;
        Report { message, actions: parked, active, log: false, closed: false }
    }

    /// Renders one finished root report to the sink: borders and a
    /// padded title when a width is known, then the framed action tree.
    #[verifier::loop_isolation(false)]
    pub fn print(
        message: &str,
        actions: &Vec<Action>,
        width: Option<usize>,
        theme: Theme,
        out: &mut Vec<String>,
    )
        requires
            width_usable(width),
        ensures
            final(out).deep_view() == old(out).deep_view() + render_lines(
                message@,
                actions@,
                width_v(width),
                theme,
            ),
    {
        let ghost pre = out.deep_view();
        let ghost wv = width_v(width);
        Action::open_frame(width, theme, out);
        let mut title = String::from_str(" ");
        title.append(message);
        proof {
            reveal_strlit(" ");
            assert(title@ =~= seq![' '] + message@);
        }
        Action::add_frame(width, theme, title, out);
        let ghost after_title = pre + top_lines(wv, theme) + seq![
            frame_line(seq![' '] + message@, wv, theme),
        ];
        proof {
            assert(out.deep_view() =~= after_title);
        }
        if actions.len() > 0 {
            Action::seperator(width, theme, out);
            let n: usize = actions.len();
            let mut i: usize = 0;
            while i < n
                invariant
                    n == actions@.len(),
                    i <= n,
                    out.deep_view() + framed(lines_from(actions@, i as int, seq![' '], theme), wv, theme)
                        =~= after_title + separator_lines(wv, theme) + framed(
                        lines_from(actions@, 0, seq![' '], theme),
                        wv,
                        theme,
                    ),
                decreases n - i,
            {
                let ghost before = out.deep_view();
                actions[i].print(" ", width, theme, i == n - 1, out);
                proof {
                    reveal_strlit(" ");
                    assert(" "@ =~= seq![' ']);
                    let s = actions@;
                    let ii = i as int;
                    assert((i == n - 1) == (ii == s.len() - 1));
                    let al = action_lines(s[ii], seq![' '], ii == s.len() - 1, theme);
                    assert(out.deep_view() == before + framed(al, wv, theme));
                    assert(lines_from(s, ii, seq![' '], theme) == al + lines_from(
                        s,
                        ii + 1,
                        seq![' '],
                        theme,
                    ));
                    lemma_framed_add(al, lines_from(s, ii + 1, seq![' '], theme), wv, theme);
                    assert(out.deep_view() + framed(lines_from(s, ii + 1, seq![' '], theme), wv, theme)
                        =~= after_title + separator_lines(wv, theme) + framed(
                        lines_from(s, 0, seq![' '], theme),
                        wv,
                        theme,
                    ));
                }
                i = i + 1;
            }
            proof {
                assert(framed(lines_from(actions@, n as int, seq![' '], theme), wv, theme)
                    =~= Seq::<Seq<char>>::empty());
                assert(out.deep_view() =~= after_title + separator_lines(wv, theme) + framed(
                    lines_from(actions@, 0, seq![' '], theme),
                    wv,
                    theme,
                ));
            }
        }
        Action::close_frame(width, theme, out);
        proof {
            assert(out.deep_view() =~= pre + render_lines(message@, actions@, wv, theme));
        }
    }

    /// Closes the scope. A second close is a no-op. A root close renders
    /// exactly one report from what was recorded, restores the parked
    /// buffer and active flag, and leaves the sink extended by exactly
    /// that report; a width too narrow for a frame renders plain. A
    /// nested close restores the parked buffer and active flag and folds
    /// what was recorded into the parent's buffer — contributing nothing
    /// when nothing was recorded.
    pub fn close(&mut self, ctx: &mut Context)
        ensures
            old(self).is_closed() ==> *final(self) == *old(self) && *final(ctx) == *old(ctx),
            !old(self).is_closed() ==> {
                &&& final(self).is_closed()
                &&& final(self).title() == old(self).title()
                &&& final(self).is_root() == old(self).is_root()
                &&& final(ctx).active == old(self).prior_active()
                &&& final(ctx).width == old(ctx).width
                &&& final(ctx).theme == old(ctx).theme
            },
            !old(self).is_closed() && old(self).is_root() ==> {
                &&& final(ctx).actions == old(self).saved()
                &&& final(ctx).output.deep_view() == old(ctx).output.deep_view() + render_lines(
                    old(self).title()@,
                    old(ctx).actions@,
                    width_v(usable_width(old(ctx).width)),
                    old(ctx).theme,
                )
            },
            !old(self).is_closed() && !old(self).is_root() ==> {
                &&& final(ctx).actions@ == folded(
                    old(self).saved()@,
                    old(self).title(),
                    old(ctx).actions,
                )
                &&& final(ctx).output == old(ctx).output
            },
    {
        if self.closed {
            return ;
        }
        self.closed = true;
        let mut recorded: Vec<Action> = Vec::new();
        core::mem::swap(&mut recorded, &mut ctx.actions);
        ctx.active = self.active;
        core::mem::swap(&mut ctx.actions, &mut self.actions);
        if self.log {
            let width: Option<usize> = match ctx.width {
                None => None,
                Some(w) => if w >= 3 {
                    Some(w)
                } else {
                    None
                },
            };
            Report::print(self.message.as_str(), &recorded, width, ctx.theme, &mut ctx.output);
        } else {
            if recorded.len() > 0 {
                ctx.actions.push(Action::Report { message: self.message.clone(), actions: recorded });
            }
        }
    }

    /// Records an informational message, or prints it at once while no
    /// root scope is open.
    pub fn info(ctx: &mut Context, message: String)
        ensures
            final(ctx).active == old(ctx).active,
            final(ctx).width == old(ctx).width,
            final(ctx).theme == old(ctx).theme,
            old(ctx).active ==> final(ctx).actions@ == old(ctx).actions@.push(
                Action::Info(message),
            ) && final(ctx).output == old(ctx).output,
            !old(ctx).active ==> final(ctx).actions == old(ctx).actions && final(ctx).output.deep_view() == old(ctx).output.deep_view().push(
                immediate_line("info: "@, message@),
            ),
    {
        if !ctx.active {
            let mut line = String::from_str("info: ");
            line.append(message.as_str());
            push_line(&mut ctx.output, line);
        } else {
            ctx.actions.push(Action::Info(message));
        }
    }

    /// Records a warning, or prints it at once while no root scope is
    /// open.
    pub fn warn(ctx: &mut Context, message: String)
        ensures
            final(ctx).active == old(ctx).active,
            final(ctx).width == old(ctx).width,
            final(ctx).theme == old(ctx).theme,
            old(ctx).active ==> final(ctx).actions@ == old(ctx).actions@.push(
                Action::Warn(message),
            ) && final(ctx).output == old(ctx).output,
            !old(ctx).active ==> final(ctx).actions == old(ctx).actions && final(ctx).output.deep_view() == old(ctx).output.deep_view().push(
                immediate_line("warning: "@, message@),
            ),
    {
        if !ctx.active {
            let mut line = String::from_str("warning: ");
            line.append(message.as_str());
            push_line(&mut ctx.output, line);
        } else {
            ctx.actions.push(Action::Warn(message));
        }
    }

    /// Records an error, or prints it at once while no root scope is
    /// open.
    pub fn error(ctx: &mut Context, message: String)
        ensures
            final(ctx).active == old(ctx).active,
            final(ctx).width == old(ctx).width,
            final(ctx).theme == old(ctx).theme,
            old(ctx).active ==> final(ctx).actions@ == old(ctx).actions@.push(
                Action::Error(message),
            ) && final(ctx).output == old(ctx).output,
            !old(ctx).active ==> final(ctx).actions == old(ctx).actions && final(ctx).output.deep_view() == old(ctx).output.deep_view().push(
                immediate_line("error: "@, message@),
            ),
    {
        if !ctx.active {
            let mut line = String::from_str("error: ");
            line.append(message.as_str());
            push_line(&mut ctx.output, line);
        } else {
            ctx.actions.push(Action::Error(message));
        }
    }

    /// Records an error and hands back the payload-free failure marker:
    /// the boundary between "recorded" and "propagated". An external
    /// failure is absorbed the same way, by passing its description.
    pub fn fail(ctx: &mut Context, message: String) -> (e: Error)
        ensures
            final(ctx).active == old(ctx).active,
            final(ctx).width == old(ctx).width,
            final(ctx).theme == old(ctx).theme,
            old(ctx).active ==> final(ctx).actions@ == old(ctx).actions@.push(
                Action::Error(message),
            ) && final(ctx).output == old(ctx).output,
            !old(ctx).active ==> final(ctx).actions == old(ctx).actions && final(ctx).output.deep_view() == old(ctx).output.deep_view().push(
                immediate_line("error: "@, message@),
            ),
    {
        Report::error(ctx, message);
        Error
    }
}

/// Law: a nested scope that recorded nothing contributes nothing to its
/// parent, and folding a non-empty record adds one non-empty group — so
/// a buffer whose groups are all non-empty at every depth stays that way
/// through every fold, and no rendered report ever holds an empty group.
pub proof fn lemma_folded_groups_nonempty(saved: Seq<Action>, message: String, recorded: Vec<Action>)
    requires
        groups_nonempty(saved),
        groups_nonempty(recorded@),
    ensures
        groups_nonempty(folded(saved, message, recorded)),
{
    let f = folded(saved, message, recorded);
    lemma_groups_nonempty_iff(saved, 0);
    lemma_groups_nonempty_iff(f, 0);
    if recorded@.len() > 0 {
        let g = Action::Report { message, actions: recorded };
        assert(g->Report_actions == recorded);
        assert(group_nonempty(g));
        assert forall|j: int| 0 <= j < f.len() implies group_nonempty(#[trigger] f[j]) by {
            if j < saved.len() {
                assert(f[j] == saved[j]);
            } else {
                assert(f[j] == g);
            }
        }
    }
}

/// Law: an abrupt exit loses nothing: folding a scope's partial content
/// into its parent keeps every prior parent action in place, adds at
/// most one group, and an error recorded anywhere in the scope is still
/// present after the fold.
pub proof fn lemma_folded_keeps_content(saved: Seq<Action>, message: String, recorded: Vec<Action>)
    ensures
        folded(saved, message, recorded).take(saved.len() as int) == saved,
        recorded@.len() == 0 ==> folded(saved, message, recorded) == saved,
        recorded@.len() > 0 ==> folded(saved, message, recorded).len() == saved.len() + 1,
        any_holds_error(recorded@) ==> any_holds_error(folded(saved, message, recorded)),
{
    let f = folded(saved, message, recorded);
    assert(f.take(saved.len() as int) =~= saved);
    if any_holds_error(recorded@) {
        let g = Action::Report { message, actions: recorded };
        assert(g->Report_actions == recorded);
        assert(crate::action::holds_error(g));
        lemma_holds_error_iff(f, 0);
        assert(f[saved.len() as int] == g);
        assert(any_holds_error(f));
    }
}

/// Law: rendering is deterministic: the rendered lines are a function of
/// the title, the recorded actions, the frame width and the theme alone,
/// so equal inputs render byte-for-byte equal reports.
pub proof fn lemma_render_deterministic(
    t1: Seq<char>,
    a1: Seq<Action>,
    t2: Seq<char>,
    a2: Seq<Action>,
    width: Option<int>,
    theme: Theme,
)
    requires
        t1 == t2,
        a1 == a2,
    ensures
        render_lines(t1, a1, width, theme) == render_lines(t2, a2, width, theme),
{
}

} // verus!
