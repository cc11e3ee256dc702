use vstd::prelude::*;

use crate::Theme;
use crate::action::Action;

verus! {

/// What `console::pad_str` returns for a line and a frame width, with
/// left alignment and the `"..."` truncation marker: the result depends
/// on the characters and the width alone.
pub uninterp spec fn padded_of(line: Seq<char>, width: int) -> Seq<char>;

/// Relies on `console::pad_str`: pads the line with spaces (or truncates
/// it, ending in the `"..."` marker) to the given display width. The
/// result is a function of the line and the width alone. Its truncation
/// path subtracts the marker's display width, three columns, from the
/// frame width without a guard, so a narrower width is excluded here.
#[verifier::external_body]
fn pad_line(data: &str, width: usize) -> (r: String)
    requires
        width >= 3,
    ensures
        r@ == padded_of(data@, width as int),
{
    console::pad_str(data, width, console::Alignment::Left, Some("...")).into_owned()
}

/// The glyph repeated `n` times.
pub open spec fn repeated(glyph: Seq<char>, n: nat) -> Seq<char>
    decreases n,
{
    if n == 0 {
        Seq::empty()
    } else {
        repeated(glyph, (n - 1) as nat) + glyph
    }
}

pub open spec fn width_v(width: Option<usize>) -> Option<int> {
    match width {
        None => None,
        Some(w) => Some(w as int),
    }
}

/// A frame width the renderer can work with: at least the three columns
/// the truncation marker needs, or none at all.
pub open spec fn width_usable(width: Option<usize>) -> bool {
    match width {
        None => true,
        Some(w) => w >= 3,
    }
}

/// The width the renderer actually frames at: a width too narrow for
/// the truncation marker falls back to plain output.
pub open spec fn usable_width(width: Option<usize>) -> Option<usize> {
    match width {
        None => None,
        Some(w) => if w >= 3 {
            Some(w)
        } else {
            None
        },
    }
}

/// The connector in front of an action's first line, telling a last
/// sibling from a mid one.
pub open spec fn connection(theme: Theme, last: bool) -> Seq<char> {
    match theme {
        Theme::Unicode => if last { "╰── "@ } else { "├── "@ },
        Theme::Ascii => if last { "\\-- "@ } else { "|-- "@ },
    }
}

/// The continuation added to the prefix of a group's children, keeping
/// the branch line of a mid sibling visually connected.
pub open spec fn indent(theme: Theme, last: bool) -> Seq<char> {
    match theme {
        Theme::Unicode => if last { "    "@ } else { "│   "@ },
        Theme::Ascii => if last { "    "@ } else { "|   "@ },
    }
}

pub open spec fn vertical(theme: Theme) -> Seq<char> {
    match theme {
        Theme::Unicode => "│"@,
        Theme::Ascii => "|"@,
    }
}

pub open spec fn horizontal(theme: Theme) -> Seq<char> {
    match theme {
        Theme::Unicode => "─"@,
        Theme::Ascii => "-"@,
    }
}

pub open spec fn top_border(w: int, theme: Theme) -> Seq<char> {
    match theme {
        Theme::Unicode => "╭"@ + repeated("─"@, w as nat) + "╮"@,
        Theme::Ascii => "+"@ + repeated("-"@, w as nat) + "+"@,
    }
}

pub open spec fn bottom_border(w: int, theme: Theme) -> Seq<char> {
    match theme {
        Theme::Unicode => "╰"@ + repeated("─"@, w as nat) + "╯"@,
        Theme::Ascii => "+"@ + repeated("-"@, w as nat) + "+"@,
    }
}

/// The line between the title and the action tree.
pub open spec fn separator_line(w: int, theme: Theme) -> Seq<char> {
    match theme {
        Theme::Unicode => "├─┬"@ + repeated("─"@, if w >= 2 { (w - 2) as nat } else { 0 }) + "┤"@,
        Theme::Ascii => "+"@ + repeated("-"@, w as nat) + "+"@,
    }
}

/// One emitted line: bordered and padded when a width is known, the raw
/// line otherwise.
pub open spec fn frame_line(line: Seq<char>, width: Option<int>, theme: Theme) -> Seq<char> {
    match width {
        None => line,
        Some(w) => vertical(theme) + padded_of(line, w) + vertical(theme),
    }
}

pub open spec fn framed(lines: Seq<Seq<char>>, width: Option<int>, theme: Theme) -> Seq<Seq<char>> {
    Seq::new(lines.len(), |i: int| frame_line(lines[i], width, theme))
}

pub open spec fn top_lines(width: Option<int>, theme: Theme) -> Seq<Seq<char>> {
    match width {
        None => Seq::empty(),
        Some(w) => seq![top_border(w, theme)],
    }
}

pub open spec fn bottom_lines(width: Option<int>, theme: Theme) -> Seq<Seq<char>> {
    match width {
        None => Seq::empty(),
        Some(w) => seq![bottom_border(w, theme)],
    }
}

pub open spec fn separator_lines(width: Option<int>, theme: Theme) -> Seq<Seq<char>> {
    match width {
        None => Seq::empty(),
        Some(w) => seq![separator_line(w, theme)],
    }
}

/// The unframed text lines of one action subtree, rendered depth-first
/// under the given ancestor prefix.
pub open spec fn action_lines(a: Action, prefix: Seq<char>, last: bool, theme: Theme) -> Seq<
    Seq<char>,
>
    decreases a, 1int,
{
    match a {
        Action::Info(m) => seq![prefix + connection(theme, last) + "info: "@ + m@],
        Action::Warn(m) => seq![prefix + connection(theme, last) + "warning: "@ + m@],
        Action::Error(m) => seq![prefix + connection(theme, last) + "error: "@ + m@],
        Action::Report { message, actions } => seq![prefix + connection(theme, last) + message@]
            + lines_from(actions@, 0, prefix + indent(theme, last), theme),
    }
}

/// The unframed lines of the actions from index `i` on, each told apart
/// as last or mid sibling of the whole sequence.
pub open spec fn lines_from(s: Seq<Action>, i: int, prefix: Seq<char>, theme: Theme) -> Seq<
    Seq<char>,
>
    decreases s, 0int, s.len() - i,
{
    if i < 0 || i >= s.len() {
        Seq::empty()
    } else {
        action_lines(s[i], prefix, i == s.len() - 1, theme) + lines_from(s, i + 1, prefix, theme)
    }
}

/// Every line of a finished root report: borders and separator when a
/// width is known, the padded title, then the framed action tree.
pub open spec fn render_lines(
    title: Seq<char>,
    actions: Seq<Action>,
    width: Option<int>,
    theme: Theme,
) -> Seq<Seq<char>> {
    top_lines(width, theme) + seq![frame_line(seq![' '] + title, width, theme)] + (if actions.len()
        == 0 {
        Seq::<Seq<char>>::empty()
    } else {
        separator_lines(width, theme) + framed(lines_from(actions, 0, seq![' '], theme), width, theme)
    }) + bottom_lines(width, theme)
}

/// The line a leaf call prints when no root scope is open.
pub open spec fn immediate_line(prefix: Seq<char>, message: Seq<char>) -> Seq<char> {
    prefix + message
}

/// Appends one line to the sink buffer.
pub(crate) fn push_line(out: &mut Vec<String>, line: String)
    ensures
        final(out).deep_view() == old(out).deep_view().push(line@),
{
    let ghost pre = out.deep_view();
    out.push(line);
    proof {
        assert(out.deep_view() =~= pre.push(line@));
    }
}

fn vertical_str(theme: Theme) -> (r: &'static str)
    ensures
        r@ == vertical(theme),
{
    match theme {
        Theme::Unicode => "│",
        Theme::Ascii => "|",
    }
}

fn horizontal_str(theme: Theme) -> (r: &'static str)
    ensures
        r@ == horizontal(theme),
{
    match theme {
        Theme::Unicode => "─",
        Theme::Ascii => "-",
    }
}

/// The glyph repeated `n` times, as an owned string.
fn repeat_glyph(glyph: &str, n: usize) -> (r: String)
    ensures
        r@ == repeated(glyph@, n as nat),
{
    let mut r = String::new();
    let mut i: usize = 0;
    while i < n
        invariant
            i <= n,
            r@ == repeated(glyph@, i as nat),
        decreases n - i,
    {
        r.append(glyph);
        i = i + 1;
    }
    r
}

impl Action {
    /// The connector glyphs for a last or a mid sibling.
    pub fn get_connection(theme: Theme, last: bool) -> (r: &'static str)
        ensures
            r@ == connection(theme, last),
    {
        match theme {
            Theme::Unicode => if last { "╰── " } else { "├── " },
            Theme::Ascii => if last { "\\-- " } else { "|-- " },
        }
    }

    /// The prefix continuation under a last or a mid sibling.
    pub fn get_indent(theme: Theme, last: bool) -> (r: &'static str)
        ensures
            r@ == indent(theme, last),
    {
        match theme {
            Theme::Unicode => if last { "    " } else { "│   " },
            Theme::Ascii => if last { "    " } else { "|   " },
        }
    }

    /// Emits one content line, bordered and padded when a width is known.
    pub(crate) fn add_frame(width: Option<usize>, theme: Theme, data: String, out: &mut Vec<String>)
        requires
            width_usable(width),
        ensures
            final(out).deep_view() == old(out).deep_view().push(
                frame_line(data@, width_v(width), theme),
            ),
    {
        match width {
            None => push_line(out, data),
            Some(w) => {
                let padded = pad_line(data.as_str(), w);
                let mut line = String::from_str(vertical_str(theme));
                line.append(padded.as_str());
                line.append(vertical_str(theme));
                push_line(out, line);
            },
        }
    }

    /// Emits the top border, when a width is known.
    pub(crate) fn open_frame(width: Option<usize>, theme: Theme, out: &mut Vec<String>)
        ensures
            final(out).deep_view() == old(out).deep_view() + top_lines(width_v(width), theme),
    {
        let ghost pre = out.deep_view();
        match width {
            None => {
                proof {
                    assert(pre + top_lines(width_v(width), theme) =~= pre);
                }
            },
            Some(w) => {
                let left = match theme {
                    Theme::Unicode => "╭",
                    Theme::Ascii => "+",
                };
                let right = match theme {
                    Theme::Unicode => "╮",
                    Theme::Ascii => "+",
                };
                let mut line = String::from_str(left);
                line.append(repeat_glyph(horizontal_str(theme), w).as_str());
                line.append(right);
                push_line(out, line);
                proof {
                    assert(pre + top_lines(width_v(width), theme) =~= pre.push(
                        top_border(w as int, theme),
                    ));
                }
            },
        }
    }

    /// Emits the bottom border, when a width is known.
    pub(crate) fn close_frame(width: Option<usize>, theme: Theme, out: &mut Vec<String>)
        ensures
            final(out).deep_view() == old(out).deep_view() + bottom_lines(width_v(width), theme),
    {
        let ghost pre = out.deep_view();
        match width {
            None => {
                proof {
                    assert(pre + bottom_lines(width_v(width), theme) =~= pre);
                }
            },
            Some(w) => {
                let left = match theme {
                    Theme::Unicode => "╰",
                    Theme::Ascii => "+",
                };
                let right = match theme {
                    Theme::Unicode => "╯",
                    Theme::Ascii => "+",
                };
                let mut line = String::from_str(left);
                line.append(repeat_glyph(horizontal_str(theme), w).as_str());
                line.append(right);
                push_line(out, line);
                proof {
                    assert(pre + bottom_lines(width_v(width), theme) =~= pre.push(
                        bottom_border(w as int, theme),
                    ));
                }
            },
        }
    }

    /// Emits the line between the title and the action tree, when a
    /// width is known.
    pub(crate) fn seperator(width: Option<usize>, theme: Theme, out: &mut Vec<String>)
        ensures
            final(out).deep_view() == old(out).deep_view() + separator_lines(width_v(width), theme),
    {
        let ghost pre = out.deep_view();
        match width {
            None => {
                proof {
                    assert(pre + separator_lines(width_v(width), theme) =~= pre);
                }
            },
            Some(w) => {
                let mut line;
                match theme {
                    Theme::Unicode => {
                        line = String::from_str("├─┬");
                        let n: usize = if w >= 2 { w - 2 } else { 0 };
                        line.append(repeat_glyph("─", n).as_str());
                        line.append("┤");
                    },
                    Theme::Ascii => {
                        line = String::from_str("+");
                        line.append(repeat_glyph("-", w).as_str());
                        line.append("+");
                    },
                }
                push_line(out, line);
                proof {
                    assert(pre + separator_lines(width_v(width), theme) =~= pre.push(
                        separator_line(w as int, theme),
                    ));
                }
            },
        }
    }
}

/// `framed` maps each line alone, so it distributes over concatenation.
pub(crate) proof fn lemma_framed_add(a: Seq<Seq<char>>, b: Seq<Seq<char>>, width: Option<int>, theme: Theme)
    ensures
        framed(a + b, width, theme) == framed(a, width, theme) + framed(b, width, theme),
{
    assert(framed(a + b, width, theme) =~= framed(a, width, theme) + framed(b, width, theme));
}

impl Action {
    /// Emits this action's subtree, framed, under the given ancestor
    /// prefix, depth-first and in recording order.
    #[verifier::loop_isolation(false)]
    pub fn print(&self, prefix: &str, width: Option<usize>, theme: Theme, last: bool, out: &mut Vec<String>)
        requires
            width_usable(width),
        ensures
            final(out).deep_view() == old(out).deep_view() + framed(
                action_lines(*self, prefix@, last, theme),
                width_v(width),
                theme,
            ),
        decreases *self,
    {
        let ghost pre = out.deep_view();
        let ghost wv = width_v(width);
        let conn = Action::get_connection(theme, last);
        match self {
            Action::Info(message) => {
                let mut data = String::from_str(prefix);
                data.append(conn);
                data.append("info: ");
                data.append(message.as_str());
                Action::add_frame(width, theme, data, out);
                proof {
                    assert(pre + framed(action_lines(*self, prefix@, last, theme), wv, theme)
                        =~= pre.push(frame_line(prefix@ + connection(theme, last) + "info: "@ + message@, wv, theme)));
                }
            },
            Action::Warn(message) => {
                let mut data = String::from_str(prefix);
                data.append(conn);
                data.append("warning: ");
                data.append(message.as_str());
                Action::add_frame(width, theme, data, out);
                proof {
                    assert(pre + framed(action_lines(*self, prefix@, last, theme), wv, theme)
                        =~= pre.push(frame_line(prefix@ + connection(theme, last) + "warning: "@ + message@, wv, theme)));
                }
            },
            Action::Error(message) => {
                let mut data = String::from_str(prefix);
                data.append(conn);
                data.append("error: ");
                data.append(message.as_str());
                Action::add_frame(width, theme, data, out);
                proof {
                    assert(pre + framed(action_lines(*self, prefix@, last, theme), wv, theme)
                        =~= pre.push(frame_line(prefix@ + connection(theme, last) + "error: "@ + message@, wv, theme)));
                }
            },
            Action::Report { message, actions } => {
                let mut data = String::from_str(prefix);
                data.append(conn);
                data.append(message.as_str());
                Action::add_frame(width, theme, data, out);
                let mut child_prefix = String::from_str(prefix);
                child_prefix.append(Action::get_indent(theme, last));
                let ghost cp = child_prefix@;
                let ghost header = pre.push(
                    frame_line(prefix@ + connection(theme, last) + message@, wv, theme),
                );
                let n: usize = actions.len();
                let mut i: usize = 0;
                while i < n
                    invariant
                        n == actions@.len(),
                        i <= n,
                        cp == child_prefix@,
                        out.deep_view() + framed(lines_from(actions@, i as int, cp, theme), wv, theme)
                            =~= header + framed(lines_from(actions@, 0, cp, theme), wv, theme),
                    decreases n - i,
                {
                    let ghost before = out.deep_view();
                    proof {
                        broadcast use vstd::seq::axiom_seq_index_decreases;
                        broadcast use vstd::std_specs::vec::axiom_vec_decreases_to_view;

                        assert((*self)->Report_actions == *actions);
                        assert(decreases_to!(*self => (*self)->Report_actions));
                        assert(decreases_to!(*actions => actions@));
                        assert(decreases_to!(actions@ => actions@[i as int]));
                    }
                    actions[i].print(child_prefix.as_str(), width, theme, i == n - 1, out);
                    proof {
                        let s = actions@;
                        let ii = i as int;
                        assert((i == n - 1) == (ii == s.len() - 1));
                        let al = action_lines(s[ii], cp, ii == s.len() - 1, theme);
                        assert(out.deep_view() == before + framed(al, wv, theme));
                        assert(lines_from(s, ii, cp, theme) == al + lines_from(s, ii + 1, cp, theme));
                        lemma_framed_add(al, lines_from(s, ii + 1, cp, theme), wv, theme);
                        assert(out.deep_view() + framed(lines_from(s, ii + 1, cp, theme), wv, theme)
                            =~= header + framed(lines_from(s, 0, cp, theme), wv, theme));
                    }
                    i = i + 1;
                }
                proof {
                    assert(framed(lines_from(actions@, n as int, cp, theme), wv, theme)
                        =~= Seq::<Seq<char>>::empty());
                    assert(out.deep_view() =~= header + framed(lines_from(actions@, 0, cp, theme), wv, theme));
                    lemma_framed_add(
                        seq![prefix@ + connection(theme, last) + message@],
                        lines_from(actions@, 0, cp, theme),
                        wv,
                        theme,
                    );
                    assert(pre + framed(action_lines(*self, prefix@, last, theme), wv, theme)
                        =~= header + framed(lines_from(actions@, 0, cp, theme), wv, theme));
                }
            },
        }
    }
}

} // verus!

