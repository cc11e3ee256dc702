use vstd::prelude::*;

verus! {

/// A single argument token of an annotation.
pub enum Token {
    /// A string literal token.
    Lit(String),
    /// Any other token fragment: a positional argument.
    Arg(String),
}

/// One attribute as found on a statement, expression or match arm.
pub struct Attr {
    /// The attribute's raw source text, kept so an attribute that is
    /// not consumed can be re-emitted as it stood.
    pub text: String,
    /// True when the attribute's path is the scope-annotation name.
    pub marker: bool,
    /// True when the attribute was written as a list, with parentheses.
    pub has_list: bool,
    /// The argument tokens inside the list.
    pub tokens: Vec<Token>,
    /// An identifier for the attribute's source location.
    pub site: u64,
}

/// A validated title template: a literal format text and its positional
/// argument fragments, in order.
pub struct Template {
    pub text: String,
    pub args: Vec<String>,
}

/// What a build-time diagnostic complains about.
#[derive(Clone, Copy, PartialEq, Eq, Structural, Debug)]
pub enum DiagKind {
    /// A scope annotation written without an argument list.
    NotAList,
    /// A scope annotation whose list does not start with a literal
    /// template.
    MissingTemplate,
    /// The body-level traversal annotation takes no arguments.
    UnexpectedArgs,
}

/// A build-time diagnostic, attached to the offending annotation's
/// source location.
#[derive(Clone, Copy, PartialEq, Eq, Structural, Debug)]
pub struct Diag {
    pub site: u64,
    pub kind: DiagKind,
}

/// A marker annotation is well-formed when it carries a parenthesised
/// list whose first token is a literal template.
pub open spec fn attr_valid(a: Attr) -> bool {
    a.has_list && a.tokens@.len() > 0 && a.tokens@[0] is Lit
}

/// The diagnostic an ill-formed marker annotation earns.
pub open spec fn attr_diag(a: Attr) -> Diag {
    Diag {
        site: a.site,
        kind: if !a.has_list {
            DiagKind::NotAList
        } else {
            DiagKind::MissingTemplate
        },
    }
}

/// The text a token carries.
pub open spec fn token_text(t: Token) -> String {
    match t {
        Token::Lit(s) => s,
        Token::Arg(s) => s,
    }
}

/// Holds when `t` is exactly the template the token list describes: the
/// leading literal, then one argument fragment per remaining token.
pub open spec fn is_template_of(tokens: Seq<Token>, t: Template) -> bool {
    &&& tokens.len() > 0
    &&& tokens[0] is Lit
    &&& t.text == token_text(tokens[0])
    &&& t.args@.len() == tokens.len() - 1
    &&& forall|i: int| 0 <= i < t.args@.len() ==> t.args@[i] == token_text(#[trigger] tokens[i + 1])
}

/// The marker annotations among the first `k` attributes, in order.
pub open spec fn markers_upto(s: Seq<Attr>, k: int) -> Seq<Attr>
    decreases k,
{
    if k <= 0 || k > s.len() {
        Seq::empty()
    } else {
        markers_upto(s, k - 1) + (if s[k - 1].marker {
            seq![s[k - 1]]
        } else {
            Seq::empty()
        })
    }
}

/// The marker annotations of the attribute list, in order.
pub open spec fn markers_of(s: Seq<Attr>) -> Seq<Attr> {
    markers_upto(s, s.len() as int)
}

/// The attributes that are not marker annotations, in order: they stay
/// in place when the markers are consumed.
pub open spec fn kept_upto(s: Seq<Attr>, k: int) -> Seq<Attr>
    decreases k,
{
    if k <= 0 || k > s.len() {
        Seq::empty()
    } else {
        kept_upto(s, k - 1) + (if s[k - 1].marker {
            Seq::empty()
        } else {
            seq![s[k - 1]]
        })
    }
}

/// The attributes that are not marker annotations, in order.
pub open spec fn kept_of(s: Seq<Attr>) -> Seq<Attr> {
    kept_upto(s, s.len() as int)
}

/// The well-formed markers among the first `k`, in order.
pub open spec fn valids_upto(s: Seq<Attr>, k: int) -> Seq<Attr>
    decreases k,
{
    if k <= 0 || k > s.len() {
        Seq::empty()
    } else {
        valids_upto(s, k - 1) + (if attr_valid(s[k - 1]) {
            seq![s[k - 1]]
        } else {
            Seq::empty()
        })
    }
}

/// The well-formed markers of the list, in order.
pub open spec fn valids_of(s: Seq<Attr>) -> Seq<Attr> {
    valids_upto(s, s.len() as int)
}

/// The diagnostics the first `k` markers earn, in order.
pub open spec fn marker_diags_upto(s: Seq<Attr>, k: int) -> Seq<Diag>
    decreases k,
{
    if k <= 0 || k > s.len() {
        Seq::empty()
    } else {
        marker_diags_upto(s, k - 1) + (if attr_valid(s[k - 1]) {
            Seq::empty()
        } else {
            seq![attr_diag(s[k - 1])]
        })
    }
}

/// The diagnostics a marker list earns, in order.
pub open spec fn marker_diags(s: Seq<Attr>) -> Seq<Diag> {
    marker_diags_upto(s, s.len() as int)
}

/// Splits an attribute list into its marker annotations and the
/// attributes that stay, both in order.
fn split_attrs(attrs: Vec<Attr>) -> (r: (Vec<Attr>, Vec<Attr>))
    ensures
        r.0@ == markers_of(attrs@),
        r.1@ == kept_of(attrs@),
{
    let ghost orig = attrs@;
    let mut rest = attrs;
    let mut markers: Vec<Attr> = Vec::new();
    let mut kept: Vec<Attr> = Vec::new();
    let ghost mut k: int = 0;
    while rest.len() > 0
        invariant
            0 <= k <= orig.len(),
            rest@ == orig.subrange(k, orig.len() as int),
            markers@ == markers_upto(orig, k),
            kept@ == kept_upto(orig, k),
        decreases rest@.len(),
    {
        let a = rest.remove(0);
        proof {
            assert(a == orig[k]);
            assert(rest@ =~= orig.subrange(k + 1, orig.len() as int));
        }
        if a.marker {
            markers.push(a);
        } else {
            kept.push(a);
        }
        proof {
            k = k + 1;
            assert(markers@ =~= markers_upto(orig, k));
            assert(kept@ =~= kept_upto(orig, k));
        }
    }
    (markers, kept)
}

/// Checks each marker in order: earns ill-formed ones their diagnostic
/// and keeps the well-formed ones.
fn validate_markers(ms: Vec<Attr>, diags: &mut Vec<Diag>) -> (vs: Vec<Attr>)
    ensures
        vs@ == valids_of(ms@),
        final(diags)@ == old(diags)@ + marker_diags(ms@),
{
    let ghost orig = ms@;
    let ghost pre = diags@;
    let mut rest = ms;
    let mut vs: Vec<Attr> = Vec::new();
    let ghost mut k: int = 0;
    while rest.len() > 0
        invariant
            0 <= k <= orig.len(),
            rest@ == orig.subrange(k, orig.len() as int),
            vs@ == valids_upto(orig, k),
            diags@ == pre + marker_diags_upto(orig, k),
        decreases rest@.len(),
    {
        let a = rest.remove(0);
        proof {
            assert(a == orig[k]);
            assert(rest@ =~= orig.subrange(k + 1, orig.len() as int));
        }
        let ok = a.has_list && a.tokens.len() > 0 && matches!(a.tokens[0], Token::Lit(_));
        if ok {
            vs.push(a);
        } else {
            let d = Diag {
                site: a.site,
                kind: if !a.has_list {
                    DiagKind::NotAList
                } else {
                    DiagKind::MissingTemplate
                },
            };
            diags.push(d);
        }
        proof {
            k = k + 1;
            assert(vs@ =~= valids_upto(orig, k));
            assert(diags@ =~= pre + marker_diags_upto(orig, k));
        }
    }
    vs
}


/// One node of the statement/expression grammar the resolver walks,
/// with the attributes attached to it.
pub struct Expr {
    pub attrs: Vec<Attr>,
    pub kind: ExprKind,
}

/// A struct-literal field: a member name and its value expression.
pub struct FieldValue {
    pub member: String,
    pub expr: Expr,
}

/// One arm of a match: its attributes, its pattern (with any guard) as
/// raw text, and its body.
pub struct Arm {
    pub attrs: Vec<Attr>,
    pub pat: String,
    pub body: Box<Expr>,
}

/// A block: a sequence of statements.
pub struct Block {
    pub stmts: Vec<Stmt>,
}

/// A statement of a block.
pub enum Stmt {
    /// A let binding, with an optional initializer and an optional
    /// let-else diverge block.
    Local { attrs: Vec<Attr>, pat: String, init: Option<Box<Expr>>, diverge: Option<Box<Expr>> },
    /// An expression statement, with or without a trailing semicolon.
    Expr { expr: Expr, semi: bool },
    /// A macro invocation statement.
    Macro { attrs: Vec<Attr>, text: String, semi: bool },
    /// A nested item: a traversal leaf.
    Item { text: String },
    /// The statement a root annotation prepends: opens a root scope for
    /// the rest of the block, untitled when no template was given.
    OpenRoot { title: Option<Template> },
}

/// The kinds of expression node. Positions that cannot syntactically
/// hold an annotated descendant carry their source as raw text.
#[allow(inconsistent_fields)]
pub enum ExprKind {
    Lit { text: String },
    Path { text: String },
    Infer,
    Continue { label: String },
    Macro { text: String },
    Verbatim { text: String },
    Paren { inner: Box<Expr> },
    Ref { is_mut: bool, inner: Box<Expr> },
    Field { base: Box<Expr>, member: String },
    Cast { inner: Box<Expr>, ty: String },
    Unary { op: String, inner: Box<Expr> },
    Closure { header: String, body: Box<Expr> },
    Let { pat: String, init: Box<Expr> },
    Try { inner: Box<Expr> },
    Break { label: String, value: Option<Box<Expr>> },
    Return { value: Option<Box<Expr>> },
    Assign { left: Box<Expr>, right: Box<Expr> },
    Index { base: Box<Expr>, index: Box<Expr> },
    Repeat { elem: Box<Expr>, len: Box<Expr> },
    Binary { op: String, left: Box<Expr>, right: Box<Expr> },
    Range { limits: String, start: Option<Box<Expr>>, end: Option<Box<Expr>> },
    Call { func: Box<Expr>, args: Vec<Expr> },
    MethodCall { receiver: Box<Expr>, method: String, args: Vec<Expr> },
    Tuple { elems: Vec<Expr> },
    Array { elems: Vec<Expr> },
    Struct { path: String, fields: Vec<FieldValue>, rest: String },
    Block { block: Block },
    Loop { label: String, body: Block },
    ForLoop { label: String, pat: String, iter: Box<Expr>, body: Block },
    While { label: String, cond: Box<Expr>, body: Block },
    If { cond: Box<Expr>, then_branch: Block, else_branch: Option<Box<Expr>> },
    Match { scrutinee: Box<Expr>, arms: Vec<Arm> },
    /// The wrapper the resolver emits: the annotated node, wrapped in a
    /// nested recording scope titled by the annotation's template.
    Scoped { title: Template, body: Box<Expr> },
}

// === the rewriting relation ===
//
// `out` is the resolved form of the input: every marker annotation on a
// node (statement-level markers first, then the node's own, so the
// first-written annotation becomes the outermost scope) is consumed and
// turned into one `Scoped` wrapping layer, children are resolved in
// every position that can hold an annotated descendant, and everything
// else is kept as it stands.

/// The resolved form of one expression reached without statement-level
/// attributes.
pub open spec fn rewrites0(e: Expr, out: Expr) -> bool
    decreases e, 2int, 0int,
{
    wrapped_v(valids_of(markers_of(e.attrs@)), kept_of(e.attrs@), e.kind, out)
}

/// The resolved form of one expression reached with statement-level
/// attributes `local`; their non-marker rest is `kept`.
pub open spec fn rewrites(e: Expr, local: Seq<Attr>, out: Expr, kept: Seq<Attr>) -> bool
    decreases e, 2int, 1int,
{
    &&& kept == kept_of(local)
    &&& wrapped_v(
        valids_of(markers_of(local) + markers_of(e.attrs@)),
        kept_of(e.attrs@),
        e.kind,
        out,
    )
}

/// `out` is `vs` worth of `Scoped` layers, outermost first, around a
/// node that keeps attributes `ka` and whose kind resolves from `k`.
pub open spec fn wrapped_v(vs: Seq<Attr>, ka: Seq<Attr>, k: ExprKind, out: Expr) -> bool
    decreases k, 2int, vs.len(),
{
    if vs.len() == 0 {
        out.attrs@ == ka && kind_rewrites(k, out.kind)
    } else {
        &&& out.attrs@.len() == 0
        &&& out.kind matches ExprKind::Scoped { title, body } && is_template_of(
            vs[0].tokens@,
            title,
        ) && wrapped_v(vs.skip(1), ka, k, *body)
    }
}

/// As `wrapped_v`, for a node whose kind is a traversal leaf kept as it
/// stands.
pub open spec fn wrapped_leaf(vs: Seq<Attr>, ka: Seq<Attr>, k: ExprKind, out: Expr) -> bool
    decreases vs.len(),
{
    if vs.len() == 0 {
        out.attrs@ == ka && out.kind == k
    } else {
        &&& out.attrs@.len() == 0
        &&& out.kind matches ExprKind::Scoped { title, body } && is_template_of(
            vs[0].tokens@,
            title,
        ) && wrapped_leaf(vs.skip(1), ka, k, *body)
    }
}

/// `out` is `vs` worth of `Scoped` layers, outermost first, around
/// exactly `inner`.
pub open spec fn chain(vs: Seq<Attr>, inner: Expr, out: Expr) -> bool
    decreases vs.len(),
{
    if vs.len() == 0 {
        out == inner
    } else {
        &&& out.attrs@.len() == 0
        &&& out.kind matches ExprKind::Scoped { title, body } && is_template_of(
            vs[0].tokens@,
            title,
        ) && chain(vs.skip(1), inner, *body)
    }
}

/// The resolved form of an expression whose own attributes are not
/// consumed: only its children are resolved.
pub open spec fn childonly_rewrites(e: Expr, out: Expr) -> bool
    decreases e, 2int, 2int,
{
    out.attrs == e.attrs && kind_rewrites(e.kind, out.kind)
}

/// Children resolved in each optional-expression position.
pub open spec fn opt_rewrites(o: Option<Box<Expr>>, out: Option<Box<Expr>>) -> bool
    decreases o, 1int, 0int,
{
    match o {
        None => out is None,
        Some(b) => out matches Some(ob) && rewrites0(*b, *ob),
    }
}

/// Each expression of the sequence from `i` on resolved in place.
pub open spec fn exprs_rewrite_from(s: Seq<Expr>, out: Seq<Expr>, i: int) -> bool
    decreases s, 1int, s.len() - i,
{
    &&& s.len() == out.len()
    &&& if i < 0 || i >= s.len() {
        true
    } else {
        rewrites0(s[i], out[i]) && exprs_rewrite_from(s, out, i + 1)
    }
}

/// Each struct-literal field value resolved in place.
pub open spec fn fields_rewrite_from(s: Seq<FieldValue>, out: Seq<FieldValue>, i: int) -> bool
    decreases s, 1int, s.len() - i,
{
    &&& s.len() == out.len()
    &&& if i < 0 || i >= s.len() {
        true
    } else {
        &&& out[i].member == s[i].member
        &&& rewrites0(s[i].expr, out[i].expr)
        &&& fields_rewrite_from(s, out, i + 1)
    }
}

/// Each match arm resolved: the arm own marker annotations are hoisted
/// onto its body, the rest stay on the arm.
pub open spec fn arms_rewrite_from(s: Seq<Arm>, out: Seq<Arm>, i: int) -> bool
    decreases s, 1int, s.len() - i,
{
    &&& s.len() == out.len()
    &&& if i < 0 || i >= s.len() {
        true
    } else {
        &&& out[i].pat == s[i].pat
        &&& rewrites(*s[i].body, s[i].attrs@, *out[i].body, out[i].attrs@)
        &&& arms_rewrite_from(s, out, i + 1)
    }
}

/// Each statement of the block resolved in place.
pub open spec fn block_rewrites(b: Block, out: Block) -> bool
    decreases b, 1int, 0int,
{
    stmts_rewrite_from(b.stmts@, out.stmts@, 0)
}

pub open spec fn stmts_rewrite_from(s: Seq<Stmt>, out: Seq<Stmt>, i: int) -> bool
    decreases s, 1int, s.len() - i,
{
    &&& s.len() == out.len()
    &&& if i < 0 || i >= s.len() {
        true
    } else {
        stmt_rewrites(s[i], out[i]) && stmts_rewrite_from(s, out, i + 1)
    }
}

/// One statement resolved. A let binding marker annotations are hoisted
/// onto its initializer; a marked macro statement becomes an expression
/// statement so the wrapping scope can enclose it; anything else
/// resolves its children in place.
pub open spec fn stmt_rewrites(st: Stmt, out: Stmt) -> bool
    decreases st, 2int, 0int,
{
    match st {
        Stmt::Local { attrs, pat, init, diverge } => {
            match init {
                Some(e) => {
                    &&& out matches Stmt::Local {
                        attrs: oa,
                        pat: op,
                        init: Some(oe),
                        diverge: od,
                    }
                    &&& op == pat
                    &&& rewrites(*e, attrs@, *oe, oa@)
                    &&& opt_childonly_rewrites(diverge, od)
                },
                None => out == st,
            }
        },
        Stmt::Expr { expr, semi } => {
            &&& out matches Stmt::Expr { expr: oe, semi: os }
            &&& os == semi
            &&& rewrites0(expr, oe)
        },
        Stmt::Macro { attrs, text, semi } => {
            if markers_of(attrs@).len() == 0 {
                out == st
            } else {
                &&& out matches Stmt::Expr { expr: oe, semi: os }
                &&& os == semi
                &&& wrapped_leaf(
                    valids_of(markers_of(attrs@)),
                    kept_of(attrs@),
                    ExprKind::Macro { text },
                    oe,
                )
            }
        },
        Stmt::Item { text } => out == st,
        Stmt::OpenRoot { title } => out == st,
    }
}

/// Children resolved, attributes kept, in each optional diverge
/// position.
pub open spec fn opt_childonly_rewrites(o: Option<Box<Expr>>, out: Option<Box<Expr>>) -> bool
    decreases o, 1int, 1int,
{
    match o {
        None => out is None,
        Some(b) => out matches Some(ob) && childonly_rewrites(*b, *ob),
    }
}

/// How each kind of node resolves: children in every position that can
/// hold an annotated descendant, raw text kept as it stands.
pub open spec fn kind_rewrites(k: ExprKind, out: ExprKind) -> bool
    decreases k, 1int, 0int,
{
    match k {
        ExprKind::Lit { .. } => out == k,
        ExprKind::Path { .. } => out == k,
        ExprKind::Infer => out == k,
        ExprKind::Continue { .. } => out == k,
        ExprKind::Macro { .. } => out == k,
        ExprKind::Verbatim { .. } => out == k,
        ExprKind::Scoped { .. } => out == k,
        ExprKind::Paren { inner } => out matches ExprKind::Paren { inner: oi } && rewrites0(
            *inner,
            *oi,
        ),
        ExprKind::Ref { is_mut, inner } => out matches ExprKind::Ref { is_mut: om, inner: oi }
            && om == is_mut && rewrites0(*inner, *oi),
        ExprKind::Field { base, member } => out matches ExprKind::Field { base: ob, member: omem }
            && omem == member && rewrites0(*base, *ob),
        ExprKind::Cast { inner, ty } => out matches ExprKind::Cast { inner: oi, ty: oty } && oty
            == ty && rewrites0(*inner, *oi),
        ExprKind::Unary { op, inner } => out matches ExprKind::Unary { op: oop, inner: oi } && oop
            == op && rewrites0(*inner, *oi),
        ExprKind::Closure { header, body } => out matches ExprKind::Closure {
            header: oh,
            body: ob,
        } && oh == header && rewrites0(*body, *ob),
        ExprKind::Let { pat, init } => out matches ExprKind::Let { pat: op, init: oi } && op == pat
            && rewrites0(*init, *oi),
        ExprKind::Try { inner } => out matches ExprKind::Try { inner: oi } && rewrites0(
            *inner,
            *oi,
        ),
        ExprKind::Break { label, value } => out matches ExprKind::Break { label: ol, value: ov }
            && ol == label && opt_rewrites(value, ov),
        ExprKind::Return { value } => out matches ExprKind::Return { value: ov } && opt_rewrites(
            value,
            ov,
        ),
        ExprKind::Assign { left, right } => out matches ExprKind::Assign { left: ol, right: or }
            && rewrites0(*left, *ol) && rewrites0(*right, *or),
        ExprKind::Index { base, index } => out matches ExprKind::Index { base: ob, index: oi }
            && rewrites0(*base, *ob) && rewrites0(*index, *oi),
        ExprKind::Repeat { elem, len } => out matches ExprKind::Repeat { elem: oe, len: ol }
            && rewrites0(*elem, *oe) && rewrites0(*len, *ol),
        ExprKind::Binary { op, left, right } => out matches ExprKind::Binary {
            op: oop,
            left: ol,
            right: or,
        } && oop == op && rewrites0(*left, *ol) && rewrites0(*right, *or),
        ExprKind::Range { limits, start, end } => out matches ExprKind::Range {
            limits: olim,
            start: os,
            end: oe,
        } && olim == limits && opt_rewrites(start, os) && opt_rewrites(end, oe),
        ExprKind::Call { func, args } => out matches ExprKind::Call { func: of, args: oa }
            && rewrites0(*func, *of) && exprs_rewrite_from(args@, oa@, 0),
        ExprKind::MethodCall { receiver, method, args } => out matches ExprKind::MethodCall {
            receiver: orc,
            method: om,
            args: oa,
        } && om == method && rewrites0(*receiver, *orc) && exprs_rewrite_from(args@, oa@, 0),
        ExprKind::Tuple { elems } => out matches ExprKind::Tuple { elems: oe }
            && exprs_rewrite_from(elems@, oe@, 0),
        ExprKind::Array { elems } => out matches ExprKind::Array { elems: oe }
            && exprs_rewrite_from(elems@, oe@, 0),
        ExprKind::Struct { path, fields, rest } => out matches ExprKind::Struct {
            path: op,
            fields: ofs,
            rest: orst,
        } && op == path && orst == rest && fields_rewrite_from(fields@, ofs@, 0),
        ExprKind::Block { block } => out matches ExprKind::Block { block: ob } && block_rewrites(
            block,
            ob,
        ),
        ExprKind::Loop { label, body } => out matches ExprKind::Loop { label: ol, body: ob } && ol
            == label && block_rewrites(body, ob),
        ExprKind::ForLoop { label, pat, iter, body } => out matches ExprKind::ForLoop {
            label: ol,
            pat: op,
            iter: oi,
            body: ob,
        } && ol == label && op == pat && rewrites0(*iter, *oi) && block_rewrites(body, ob),
        ExprKind::While { label, cond, body } => out matches ExprKind::While {
            label: ol,
            cond: oc,
            body: ob,
        } && ol == label && rewrites0(*cond, *oc) && block_rewrites(body, ob),
        ExprKind::If { cond, then_branch, else_branch } => out matches ExprKind::If {
            cond: oc,
            then_branch: ot,
            else_branch: oe,
        } && rewrites0(*cond, *oc) && block_rewrites(then_branch, ot) && opt_rewrites(
            else_branch,
            oe,
        ),
        ExprKind::Match { scrutinee, arms } => out matches ExprKind::Match {
            scrutinee: osc,
            arms: oa,
        } && rewrites0(*scrutinee, *osc) && arms_rewrite_from(arms@, oa@, 0),
    }
}

// === diagnostics ===
//
// The diagnostics a tree earns, in traversal order: each node's
// children first, then the node's own ill-formed markers, statement
// markers before the expression's own.

pub open spec fn expr_diags0(e: Expr) -> Seq<Diag>
    decreases e, 2int, 0int,
{
    kind_diags(e.kind) + marker_diags(markers_of(e.attrs@))
}

pub open spec fn expr_diags(e: Expr, local: Seq<Attr>) -> Seq<Diag>
    decreases e, 2int, 1int,
{
    kind_diags(e.kind) + marker_diags(markers_of(local) + markers_of(e.attrs@))
}

pub open spec fn childonly_diags(e: Expr) -> Seq<Diag>
    decreases e, 2int, 2int,
{
    kind_diags(e.kind)
}

pub open spec fn opt_diags(o: Option<Box<Expr>>) -> Seq<Diag>
    decreases o, 1int, 0int,
{
    match o {
        None => Seq::empty(),
        Some(b) => expr_diags0(*b),
    }
}

pub open spec fn opt_childonly_diags(o: Option<Box<Expr>>) -> Seq<Diag>
    decreases o, 1int, 1int,
{
    match o {
        None => Seq::empty(),
        Some(b) => childonly_diags(*b),
    }
}

pub open spec fn exprs_diags_from(s: Seq<Expr>, i: int) -> Seq<Diag>
    decreases s, 1int, s.len() - i,
{
    if i < 0 || i >= s.len() {
        Seq::empty()
    } else {
        expr_diags0(s[i]) + exprs_diags_from(s, i + 1)
    }
}

pub open spec fn fields_diags_from(s: Seq<FieldValue>, i: int) -> Seq<Diag>
    decreases s, 1int, s.len() - i,
{
    if i < 0 || i >= s.len() {
        Seq::empty()
    } else {
        expr_diags0(s[i].expr) + fields_diags_from(s, i + 1)
    }
}

pub open spec fn arms_diags_from(s: Seq<Arm>, i: int) -> Seq<Diag>
    decreases s, 1int, s.len() - i,
{
    if i < 0 || i >= s.len() {
        Seq::empty()
    } else {
        expr_diags(*s[i].body, s[i].attrs@) + arms_diags_from(s, i + 1)
    }
}

pub open spec fn block_diags(b: Block) -> Seq<Diag>
    decreases b, 1int, 0int,
{
    stmts_diags_from(b.stmts@, 0)
}

pub open spec fn stmts_diags_from(s: Seq<Stmt>, i: int) -> Seq<Diag>
    decreases s, 1int, s.len() - i,
{
    if i < 0 || i >= s.len() {
        Seq::empty()
    } else {
        stmt_diags(s[i]) + stmts_diags_from(s, i + 1)
    }
}

pub open spec fn stmt_diags(st: Stmt) -> Seq<Diag>
    decreases st, 2int, 0int,
{
    match st {
        Stmt::Local { attrs, pat, init, diverge } => {
            match init {
                Some(e) => expr_diags(*e, attrs@) + opt_childonly_diags(diverge),
                None => Seq::empty(),
            }
        },
        Stmt::Expr { expr, semi } => expr_diags0(expr),
        Stmt::Macro { attrs, text, semi } => marker_diags(markers_of(attrs@)),
        Stmt::Item { text } => Seq::empty(),
        Stmt::OpenRoot { title } => Seq::empty(),
    }
}

pub open spec fn kind_diags(k: ExprKind) -> Seq<Diag>
    decreases k, 1int, 0int,
{
    match k {
        ExprKind::Lit { .. } => Seq::empty(),
        ExprKind::Path { .. } => Seq::empty(),
        ExprKind::Infer => Seq::empty(),
        ExprKind::Continue { .. } => Seq::empty(),
        ExprKind::Macro { .. } => Seq::empty(),
        ExprKind::Verbatim { .. } => Seq::empty(),
        ExprKind::Scoped { .. } => Seq::empty(),
        ExprKind::Paren { inner } => expr_diags0(*inner),
        ExprKind::Ref { is_mut, inner } => expr_diags0(*inner),
        ExprKind::Field { base, member } => expr_diags0(*base),
        ExprKind::Cast { inner, ty } => expr_diags0(*inner),
        ExprKind::Unary { op, inner } => expr_diags0(*inner),
        ExprKind::Closure { header, body } => expr_diags0(*body),
        ExprKind::Let { pat, init } => expr_diags0(*init),
        ExprKind::Try { inner } => expr_diags0(*inner),
        ExprKind::Break { label, value } => opt_diags(value),
        ExprKind::Return { value } => opt_diags(value),
        ExprKind::Assign { left, right } => expr_diags0(*left) + expr_diags0(*right),
        ExprKind::Index { base, index } => expr_diags0(*base) + expr_diags0(*index),
        ExprKind::Repeat { elem, len } => expr_diags0(*elem) + expr_diags0(*len),
        ExprKind::Binary { op, left, right } => expr_diags0(*left) + expr_diags0(*right),
        ExprKind::Range { limits, start, end } => opt_diags(start) + opt_diags(end),
        ExprKind::Call { func, args } => expr_diags0(*func) + exprs_diags_from(args@, 0),
        ExprKind::MethodCall { receiver, method, args } => expr_diags0(*receiver)
            + exprs_diags_from(args@, 0),
        ExprKind::Tuple { elems } => exprs_diags_from(elems@, 0),
        ExprKind::Array { elems } => exprs_diags_from(elems@, 0),
        ExprKind::Struct { path, fields, rest } => fields_diags_from(fields@, 0),
        ExprKind::Block { block } => block_diags(block),
        ExprKind::Loop { label, body } => block_diags(body),
        ExprKind::ForLoop { label, pat, iter, body } => expr_diags0(*iter) + block_diags(body),
        ExprKind::While { label, cond, body } => expr_diags0(*cond) + block_diags(body),
        ExprKind::If { cond, then_branch, else_branch } => expr_diags0(*cond) + block_diags(
            then_branch,
        ) + opt_diags(else_branch),
        ExprKind::Match { scrutinee, arms } => expr_diags0(*scrutinee) + arms_diags_from(arms@, 0),
    }
}

// === bridge lemmas ===

/// Every attribute a validation pass keeps is well-formed.
proof fn lemma_valids_valid(s: Seq<Attr>, k: int)
    ensures
        forall|i: int| 0 <= i < valids_upto(s, k).len() ==> attr_valid(#[trigger] valids_upto(s, k)[i]),
    decreases k,
{
    if 0 < k <= s.len() {
        lemma_valids_valid(s, k - 1);
        let prev = valids_upto(s, k - 1);
        let cur = valids_upto(s, k);
        assert forall|i: int| 0 <= i < cur.len() implies attr_valid(#[trigger] cur[i]) by {
            if i < prev.len() {
                assert(cur[i] == prev[i]);
            } else {
                assert(attr_valid(s[k - 1]));
                assert(cur[i] == s[k - 1]);
            }
        }
    }
}

/// Scope layers around a node whose kept attributes and resolved kind
/// are known satisfy the wrapping relation.
proof fn lemma_chain_wrapped_v(vs: Seq<Attr>, ka: Seq<Attr>, k: ExprKind, inner: Expr, out: Expr)
    requires
        chain(vs, inner, out),
        inner.attrs@ == ka,
        kind_rewrites(k, inner.kind),
    ensures
        wrapped_v(vs, ka, k, out),
    decreases vs.len(),
{
    if vs.len() > 0 {
        lemma_chain_wrapped_v(vs.skip(1), ka, k, inner, *out.kind->Scoped_body);
    }
}

/// Scope layers around a node kept as it stands satisfy the leaf
/// wrapping relation.
proof fn lemma_chain_wrapped_leaf(vs: Seq<Attr>, ka: Seq<Attr>, k: ExprKind, inner: Expr, out: Expr)
    requires
        chain(vs, inner, out),
        inner.attrs@ == ka,
        inner.kind == k,
    ensures
        wrapped_leaf(vs, ka, k, out),
    decreases vs.len(),
{
    if vs.len() > 0 {
        lemma_chain_wrapped_leaf(vs.skip(1), ka, k, inner, *out.kind->Scoped_body);
    }
}

proof fn lemma_exprs_rewrite_intro(s: Seq<Expr>, out: Seq<Expr>, i: int)
    requires
        0 <= i <= s.len(),
        s.len() == out.len(),
        forall|j: int| i <= j < s.len() ==> rewrites0(#[trigger] s[j], out[j]),
    ensures
        exprs_rewrite_from(s, out, i),
    decreases s.len() - i,
{
    if i < s.len() {
        lemma_exprs_rewrite_intro(s, out, i + 1);
    }
}

proof fn lemma_fields_rewrite_intro(s: Seq<FieldValue>, out: Seq<FieldValue>, i: int)
    requires
        0 <= i <= s.len(),
        s.len() == out.len(),
        forall|j: int| #![trigger s[j]]
            i <= j < s.len() ==> out[j].member == s[j].member && rewrites0(
                s[j].expr,
                out[j].expr,
            ),
    ensures
        fields_rewrite_from(s, out, i),
    decreases s.len() - i,
{
    if i < s.len() {
        lemma_fields_rewrite_intro(s, out, i + 1);
    }
}

proof fn lemma_arms_rewrite_intro(s: Seq<Arm>, out: Seq<Arm>, i: int)
    requires
        0 <= i <= s.len(),
        s.len() == out.len(),
        forall|j: int| #![trigger s[j]]
            i <= j < s.len() ==> out[j].pat == s[j].pat && rewrites(
                *s[j].body,
                s[j].attrs@,
                *out[j].body,
                out[j].attrs@,
            ),
    ensures
        arms_rewrite_from(s, out, i),
    decreases s.len() - i,
{
    if i < s.len() {
        lemma_arms_rewrite_intro(s, out, i + 1);
    }
}

proof fn lemma_stmts_rewrite_intro(s: Seq<Stmt>, out: Seq<Stmt>, i: int)
    requires
        0 <= i <= s.len(),
        s.len() == out.len(),
        forall|j: int| i <= j < s.len() ==> stmt_rewrites(#[trigger] s[j], out[j]),
    ensures
        stmts_rewrite_from(s, out, i),
    decreases s.len() - i,
{
    if i < s.len() {
        lemma_stmts_rewrite_intro(s, out, i + 1);
    }
}

/// Marker presence grows with the prefix length.
proof fn lemma_markers_upto_grow(s: Seq<Attr>, k1: int, k2: int)
    requires
        0 <= k1 <= k2 <= s.len(),
    ensures
        markers_upto(s, k1).len() <= markers_upto(s, k2).len(),
    decreases k2 - k1,
{
    if k1 < k2 {
        lemma_markers_upto_grow(s, k1, k2 - 1);
    }
}

// === the resolver ===

/// A `Vec` reaches each of its elements in the decreases order.
proof fn lemma_vec_elem_decreases<T>(v: Vec<T>, i: int)
    requires
        0 <= i < v@.len(),
    ensures
        decreases_to!(v => v@[i]),
{
    broadcast use vstd::seq::axiom_seq_index_decreases;
    broadcast use vstd::std_specs::vec::axiom_vec_decreases_to_view;

    assert(decreases_to!(v => v@));
    assert(decreases_to!(v@ => v@[i]));
}

/// Whether any attribute of the list is a marker annotation.
#[verifier::loop_isolation(false)]
fn has_marker(attrs: &Vec<Attr>) -> (r: bool)
    ensures
        r == (markers_of(attrs@).len() > 0),
{
    let ghost orig = attrs@;
    let n: usize = attrs.len();
    let mut i: usize = 0;
    while i < n
        invariant
            n == orig.len(),
            i <= n,
            markers_upto(orig, i as int).len() == 0,
        decreases n - i,
    {
        if attrs[i].marker {
            proof {
                assert(markers_upto(orig, i as int + 1).len() > 0);
                lemma_markers_upto_grow(orig, i as int + 1, orig.len() as int);
            }
            return true;
        }
        proof {
            assert(markers_upto(orig, i as int + 1) =~= markers_upto(orig, i as int));
        }
        i = i + 1;
    }
    false
}

/// Builds the title template a well-formed token list describes,
/// consuming the tokens.
#[verifier::loop_isolation(false)]
fn template_from_tokens(tokens: Vec<Token>) -> (t: Template)
    requires
        tokens@.len() > 0,
        tokens@[0] is Lit,
    ensures
        is_template_of(tokens@, t),
{
    let ghost toks = tokens@;
    let mut rest = tokens;
    let first = rest.remove(0);
    let text = match first {
        Token::Lit(s) => s,
        Token::Arg(s) => s,
    };
    let mut args: Vec<String> = Vec::new();
    let ghost mut k: int = 0;
    while rest.len() > 0
        invariant
            0 <= k <= toks.len() - 1,
            rest@ == toks.subrange(k + 1, toks.len() as int),
            args@.len() == k,
            forall|i: int| 0 <= i < k ==> args@[i] == token_text(#[trigger] toks[i + 1]),
        decreases rest@.len(),
    {
        let tok = rest.remove(0);
        proof {
            assert(tok == toks[k + 1]);
            assert(rest@ =~= toks.subrange(k + 2, toks.len() as int));
        }
        let s = match tok {
            Token::Lit(s) => s,
            Token::Arg(s) => s,
        };
        args.push(s);
        proof {
            k = k + 1;
        }
    }
    Template { text, args }
}

/// Wraps `inner` in one `Scoped` layer per validated marker, the first
/// marker outermost.
#[verifier::loop_isolation(false)]
fn wrap_valids(vs: Vec<Attr>, inner: Expr) -> (out: Expr)
    requires
        forall|i: int| 0 <= i < vs@.len() ==> attr_valid(#[trigger] vs@[i]),
    ensures
        chain(vs@, inner, out),
{
    let ghost orig = vs@;
    let ghost whole = inner;
    let mut vs = vs;
    let mut out = inner;
    let ghost mut m: int = orig.len() as int;
    proof {
        assert(orig.skip(m) =~= Seq::<Attr>::empty());
    }
    while vs.len() > 0
        invariant
            0 <= m <= orig.len(),
            m == vs@.len(),
            vs@ == orig.subrange(0, m),
            chain(orig.skip(m), whole, out),
        decreases vs@.len(),
    {
        let idx: usize = vs.len() - 1;
        let a = vs.remove(idx);
        proof {
            assert(a == orig[m - 1]);
            assert(vs@ =~= orig.subrange(0, m - 1));
        }
        let title = template_from_tokens(a.tokens);
        out = Expr {
            attrs: Vec::new(),
            kind: ExprKind::Scoped { title, body: Box::new(out) },
        };
        proof {
            m = m - 1;
            assert(orig.skip(m)[0] == orig[m]);
            assert(orig.skip(m).skip(1) =~= orig.skip(m + 1));
            assert(chain(orig.skip(m), whole, out));
        }
    }
    proof {
        assert(orig.skip(0) =~= orig);
    }
    out
}

/// Resolves one expression reached without statement-level attributes:
/// children first, then its own marker annotations become `Scoped`
/// layers.
pub fn process_expr(e: Expr, diags: &mut Vec<Diag>) -> (out: Expr)
    ensures
        rewrites0(e, out),
        final(diags)@ == old(diags)@ + expr_diags0(e),
    decreases e, 2int, 0int,
{
    let ghost pre = diags@;
    let Expr { attrs, kind } = e;
    let kind2 = iter_expr(kind, diags);
    let (ms, kept) = split_attrs(attrs);
    let vs = validate_markers(ms, diags);
    let inner = Expr { attrs: kept, kind: kind2 };
    proof {
        lemma_valids_valid(markers_of(e.attrs@), markers_of(e.attrs@).len() as int);
    }
    let out = wrap_valids(vs, inner);
    proof {
        lemma_chain_wrapped_v(vs@, kept_of(e.attrs@), e.kind, inner, out);
        assert(diags@ =~= pre + expr_diags0(e));
    }
    out
}

/// Resolves one expression together with the marker annotations hoisted
/// off its statement; the statement's other attributes are handed back.
fn process_expr_with(e: Expr, local: Vec<Attr>, diags: &mut Vec<Diag>) -> (r: (Expr, Vec<Attr>))
    ensures
        rewrites(e, local@, r.0, r.1@),
        final(diags)@ == old(diags)@ + expr_diags(e, local@),
    decreases e, 2int, 1int,
{
    let ghost pre = diags@;
    let Expr { attrs, kind } = e;
    let kind2 = iter_expr(kind, diags);
    let (mut ms, kl) = split_attrs(local);
    let (mut me, ke) = split_attrs(attrs);
    ms.append(&mut me);
    let ghost allm = markers_of(local@) + markers_of(e.attrs@);
    let vs = validate_markers(ms, diags);
    let inner = Expr { attrs: ke, kind: kind2 };
    proof {
        lemma_valids_valid(allm, allm.len() as int);
    }
    let out = wrap_valids(vs, inner);
    proof {
        lemma_chain_wrapped_v(vs@, kept_of(e.attrs@), e.kind, inner, out);
        assert(diags@ =~= pre + expr_diags(e, local@));
    }
    (out, kl)
}

/// Resolves the expression behind a box.
fn process_boxed(b: Box<Expr>, diags: &mut Vec<Diag>) -> (r: Box<Expr>)
    ensures
        rewrites0(*b, *r),
        final(diags)@ == old(diags)@ + expr_diags0(*b),
    decreases b, 3int, 0int,
{
    Box::new(process_expr(*b, diags))
}

/// Resolves an optional expression position.
fn process_opt(o: Option<Box<Expr>>, diags: &mut Vec<Diag>) -> (r: Option<Box<Expr>>)
    ensures
        opt_rewrites(o, r),
        final(diags)@ == old(diags)@ + opt_diags(o),
    decreases o, 3int, 0int,
{
    match o {
        None => None,
        Some(b) => Some(process_boxed(b, diags)),
    }
}

/// Resolves the children of an expression whose own attributes stay.
fn process_childonly(e: Expr, diags: &mut Vec<Diag>) -> (out: Expr)
    ensures
        childonly_rewrites(e, out),
        final(diags)@ == old(diags)@ + childonly_diags(e),
    decreases e, 2int, 2int,
{
    let Expr { attrs, kind } = e;
    let kind2 = iter_expr(kind, diags);
    Expr { attrs, kind: kind2 }
}

/// Resolves an optional diverge position, whose own attributes stay.
fn process_opt_childonly(o: Option<Box<Expr>>, diags: &mut Vec<Diag>) -> (r: Option<Box<Expr>>)
    ensures
        opt_childonly_rewrites(o, r),
        final(diags)@ == old(diags)@ + opt_childonly_diags(o),
    decreases o, 3int, 1int,
{
    match o {
        None => None,
        Some(b) => Some(Box::new(process_childonly(*b, diags))),
    }
}

/// Resolves each expression of a sequence in place.
#[verifier::loop_isolation(false)]
fn process_exprs(v: Vec<Expr>, diags: &mut Vec<Diag>) -> (out: Vec<Expr>)
    ensures
        exprs_rewrite_from(v@, out@, 0),
        final(diags)@ == old(diags)@ + exprs_diags_from(v@, 0),
    decreases v, 1int, 0int,
{
    let ghost vsnap = v;
    let ghost orig = v@;
    let ghost pre = diags@;
    let mut rest = v;
    let mut out: Vec<Expr> = Vec::new();
    let ghost mut k: int = 0;
    while rest.len() > 0
        invariant
            0 <= k <= orig.len(),
            rest@ == orig.subrange(k, orig.len() as int),
            out@.len() == k,
            forall|j: int| 0 <= j < k ==> rewrites0(#[trigger] orig[j], out@[j]),
            diags@ + exprs_diags_from(orig, k) == pre + exprs_diags_from(orig, 0),
        decreases rest@.len(),
    {
        let ghost dpre = diags@;
        let e = rest.remove(0);
        proof {
            assert(e == orig[k]);
            assert(rest@ =~= orig.subrange(k + 1, orig.len() as int));
            lemma_vec_elem_decreases(vsnap, k);
        }
        let oe = process_expr(e, diags);
        out.push(oe);
        proof {
            k = k + 1;
            assert(diags@ + exprs_diags_from(orig, k) =~= pre + exprs_diags_from(orig, 0));
        }
    }
    proof {
        lemma_exprs_rewrite_intro(orig, out@, 0);
        assert(diags@ =~= pre + exprs_diags_from(orig, 0));
    }
    out
}

/// Resolves each struct-literal field value in place.
#[verifier::loop_isolation(false)]
fn process_fields(v: Vec<FieldValue>, diags: &mut Vec<Diag>) -> (out: Vec<FieldValue>)
    ensures
        fields_rewrite_from(v@, out@, 0),
        final(diags)@ == old(diags)@ + fields_diags_from(v@, 0),
    decreases v, 1int, 0int,
{
    let ghost vsnap = v;
    let ghost orig = v@;
    let ghost pre = diags@;
    let mut rest = v;
    let mut out: Vec<FieldValue> = Vec::new();
    let ghost mut k: int = 0;
    while rest.len() > 0
        invariant
            0 <= k <= orig.len(),
            rest@ == orig.subrange(k, orig.len() as int),
            out@.len() == k,
            forall|j: int| #![trigger orig[j]]
                0 <= j < k ==> out@[j].member == orig[j].member && rewrites0(
                    orig[j].expr,
                    out@[j].expr,
                ),
            diags@ + fields_diags_from(orig, k) == pre + fields_diags_from(orig, 0),
        decreases rest@.len(),
    {
        let fv = rest.remove(0);
        proof {
            assert(fv == orig[k]);
            assert(rest@ =~= orig.subrange(k + 1, orig.len() as int));
            lemma_vec_elem_decreases(vsnap, k);
            assert(decreases_to!(orig[k] => orig[k].expr));
        }
        let FieldValue { member, expr } = fv;
        let oe = process_expr(expr, diags);
        out.push(FieldValue { member, expr: oe });
        proof {
            k = k + 1;
            assert(diags@ + fields_diags_from(orig, k) =~= pre + fields_diags_from(orig, 0));
        }
    }
    proof {
        lemma_fields_rewrite_intro(orig, out@, 0);
        assert(diags@ =~= pre + fields_diags_from(orig, 0));
    }
    out
}

/// Resolves each match arm in place: its marker annotations are hoisted
/// onto its body.
#[verifier::loop_isolation(false)]
fn process_arms(v: Vec<Arm>, diags: &mut Vec<Diag>) -> (out: Vec<Arm>)
    ensures
        arms_rewrite_from(v@, out@, 0),
        final(diags)@ == old(diags)@ + arms_diags_from(v@, 0),
    decreases v, 1int, 0int,
{
    let ghost vsnap = v;
    let ghost orig = v@;
    let ghost pre = diags@;
    let mut rest = v;
    let mut out: Vec<Arm> = Vec::new();
    let ghost mut k: int = 0;
    while rest.len() > 0
        invariant
            0 <= k <= orig.len(),
            rest@ == orig.subrange(k, orig.len() as int),
            out@.len() == k,
            forall|j: int| #![trigger orig[j]]
                0 <= j < k ==> out@[j].pat == orig[j].pat && rewrites(
                    *orig[j].body,
                    orig[j].attrs@,
                    *out@[j].body,
                    out@[j].attrs@,
                ),
            diags@ + arms_diags_from(orig, k) == pre + arms_diags_from(orig, 0),
        decreases rest@.len(),
    {
        let arm = rest.remove(0);
        proof {
            assert(arm == orig[k]);
            assert(rest@ =~= orig.subrange(k + 1, orig.len() as int));
            lemma_vec_elem_decreases(vsnap, k);
            assert(decreases_to!(orig[k] => orig[k].body));
        }
        let Arm { attrs, pat, body } = arm;
        let (obody, oattrs) = process_expr_with(*body, attrs, diags);
        out.push(Arm { attrs: oattrs, pat, body: Box::new(obody) });
        proof {
            k = k + 1;
            assert(diags@ + arms_diags_from(orig, k) =~= pre + arms_diags_from(orig, 0));
        }
    }
    proof {
        lemma_arms_rewrite_intro(orig, out@, 0);
        assert(diags@ =~= pre + arms_diags_from(orig, 0));
    }
    out
}

/// Resolves one statement.
fn process_stmt(st: Stmt, diags: &mut Vec<Diag>) -> (out: Stmt)
    ensures
        stmt_rewrites(st, out),
        final(diags)@ == old(diags)@ + stmt_diags(st),
    decreases st, 2int, 0int,
{
    let ghost pre = diags@;
    match st {
        Stmt::Local { attrs, pat, init, diverge } => {
            match init {
                Some(b) => {
                    let (oe, oa) = process_expr_with(*b, attrs, diags);
                    let od = process_opt_childonly(diverge, diags);
                    let out = Stmt::Local {
                        attrs: oa,
                        pat,
                        init: Some(Box::new(oe)),
                        diverge: od,
                    };
                    proof {
                        assert(diags@ =~= pre + stmt_diags(st));
                    }
                    out
                },
                None => Stmt::Local { attrs, pat, init: None, diverge },
            }
        },
        Stmt::Expr { expr, semi } => Stmt::Expr { expr: process_expr(expr, diags), semi },
        Stmt::Macro { attrs, text, semi } => {
            if !has_marker(&attrs) {
                proof {
                    assert(marker_diags(markers_of(attrs@)) =~= Seq::<Diag>::empty());
                    assert(diags@ =~= pre + stmt_diags(st));
                }
                Stmt::Macro { attrs, text, semi }
            } else {
                let ghost katt = attrs@;
                let (ms, kept) = split_attrs(attrs);
                let vs = validate_markers(ms, diags);
                let inner = Expr { attrs: kept, kind: ExprKind::Macro { text } };
                proof {
                    lemma_valids_valid(markers_of(katt), markers_of(katt).len() as int);
                }
                let out_e = wrap_valids(vs, inner);
                proof {
                    lemma_chain_wrapped_leaf(vs@, kept_of(katt), inner.kind, inner, out_e);
                    assert(diags@ =~= pre + stmt_diags(st));
                }
                Stmt::Expr { expr: out_e, semi }
            }
        },
        Stmt::Item { text } => Stmt::Item { text },
        Stmt::OpenRoot { title } => Stmt::OpenRoot { title },
    }
}

/// Resolves each statement of a sequence in place.
#[verifier::loop_isolation(false)]
fn process_stmts(v: Vec<Stmt>, diags: &mut Vec<Diag>) -> (out: Vec<Stmt>)
    ensures
        stmts_rewrite_from(v@, out@, 0),
        final(diags)@ == old(diags)@ + stmts_diags_from(v@, 0),
    decreases v, 1int, 0int,
{
    let ghost vsnap = v;
    let ghost orig = v@;
    let ghost pre = diags@;
    let mut rest = v;
    let mut out: Vec<Stmt> = Vec::new();
    let ghost mut k: int = 0;
    while rest.len() > 0
        invariant
            0 <= k <= orig.len(),
            rest@ == orig.subrange(k, orig.len() as int),
            out@.len() == k,
            forall|j: int| 0 <= j < k ==> stmt_rewrites(#[trigger] orig[j], out@[j]),
            diags@ + stmts_diags_from(orig, k) == pre + stmts_diags_from(orig, 0),
        decreases rest@.len(),
    {
        let st = rest.remove(0);
        proof {
            assert(st == orig[k]);
            assert(rest@ =~= orig.subrange(k + 1, orig.len() as int));
            lemma_vec_elem_decreases(vsnap, k);
        }
        let ost = process_stmt(st, diags);
        out.push(ost);
        proof {
            k = k + 1;
            assert(diags@ + stmts_diags_from(orig, k) =~= pre + stmts_diags_from(orig, 0));
        }
    }
    proof {
        lemma_stmts_rewrite_intro(orig, out@, 0);
        assert(diags@ =~= pre + stmts_diags_from(orig, 0));
    }
    out
}

/// Resolves every statement of a block.
pub fn iter_block(b: Block, diags: &mut Vec<Diag>) -> (out: Block)
    ensures
        block_rewrites(b, out),
        final(diags)@ == old(diags)@ + block_diags(b),
    decreases b, 1int, 0int,
{
    let Block { stmts } = b;
    Block { stmts: process_stmts(stmts, diags) }
}

/// Resolves the children of one node, in every position that can hold
/// an annotated descendant.
fn iter_expr(k: ExprKind, diags: &mut Vec<Diag>) -> (out: ExprKind)
    ensures
        kind_rewrites(k, out),
        final(diags)@ == old(diags)@ + kind_diags(k),
    decreases k, 1int, 0int,
{
    let ghost pre = diags@;
    match k {
        ExprKind::Lit { text } => ExprKind::Lit { text },
        ExprKind::Path { text } => ExprKind::Path { text },
        ExprKind::Infer => ExprKind::Infer,
        ExprKind::Continue { label } => ExprKind::Continue { label },
        ExprKind::Macro { text } => ExprKind::Macro { text },
        ExprKind::Verbatim { text } => ExprKind::Verbatim { text },
        ExprKind::Scoped { title, body } => ExprKind::Scoped { title, body },
        ExprKind::Paren { inner } => ExprKind::Paren { inner: process_boxed(inner, diags) },
        ExprKind::Ref { is_mut, inner } => ExprKind::Ref {
            is_mut,
            inner: process_boxed(inner, diags),
        },
        ExprKind::Field { base, member } => ExprKind::Field {
            base: process_boxed(base, diags),
            member,
        },
        ExprKind::Cast { inner, ty } => ExprKind::Cast { inner: process_boxed(inner, diags), ty },
        ExprKind::Unary { op, inner } => ExprKind::Unary {
            op,
            inner: process_boxed(inner, diags),
        },
        ExprKind::Closure { header, body } => ExprKind::Closure {
            header,
            body: process_boxed(body, diags),
        },
        ExprKind::Let { pat, init } => ExprKind::Let { pat, init: process_boxed(init, diags) },
        ExprKind::Try { inner } => ExprKind::Try { inner: process_boxed(inner, diags) },
        ExprKind::Break { label, value } => ExprKind::Break {
            label,
            value: process_opt(value, diags),
        },
        ExprKind::Return { value } => ExprKind::Return { value: process_opt(value, diags) },
        ExprKind::Assign { left, right } => {
            let ol = process_boxed(left, diags);
            let or = process_boxed(right, diags);
            let out = ExprKind::Assign { left: ol, right: or };
            proof {
                assert(diags@ =~= pre + kind_diags(k));
            }
            out
        },
        ExprKind::Index { base, index } => {
            let ob = process_boxed(base, diags);
            let oi = process_boxed(index, diags);
            let out = ExprKind::Index { base: ob, index: oi };
            proof {
                assert(diags@ =~= pre + kind_diags(k));
            }
            out
        },
        ExprKind::Repeat { elem, len } => {
            let oe = process_boxed(elem, diags);
            let ol = process_boxed(len, diags);
            let out = ExprKind::Repeat { elem: oe, len: ol };
            proof {
                assert(diags@ =~= pre + kind_diags(k));
            }
            out
        },
        ExprKind::Binary { op, left, right } => {
            let ol = process_boxed(left, diags);
            let or = process_boxed(right, diags);
            let out = ExprKind::Binary { op, left: ol, right: or };
            proof {
                assert(diags@ =~= pre + kind_diags(k));
            }
            out
        },
        ExprKind::Range { limits, start, end } => {
            let os = process_opt(start, diags);
            let oe = process_opt(end, diags);
            let out = ExprKind::Range { limits, start: os, end: oe };
            proof {
                assert(diags@ =~= pre + kind_diags(k));
            }
            out
        },
        ExprKind::Call { func, args } => {
            let of = process_boxed(func, diags);
            let oa = process_exprs(args, diags);
            let out = ExprKind::Call { func: of, args: oa };
            proof {
                assert(diags@ =~= pre + kind_diags(k));
            }
            out
        },
        ExprKind::MethodCall { receiver, method, args } => {
            let orc = process_boxed(receiver, diags);
            let oa = process_exprs(args, diags);
            let out = ExprKind::MethodCall { receiver: orc, method, args: oa };
            proof {
                assert(diags@ =~= pre + kind_diags(k));
            }
            out
        },
        ExprKind::Tuple { elems } => ExprKind::Tuple { elems: process_exprs(elems, diags) },
        ExprKind::Array { elems } => ExprKind::Array { elems: process_exprs(elems, diags) },
        ExprKind::Struct { path, fields, rest } => ExprKind::Struct {
            path,
            fields: process_fields(fields, diags),
            rest,
        },
        ExprKind::Block { block } => ExprKind::Block { block: iter_block(block, diags) },
        ExprKind::Loop { label, body } => ExprKind::Loop {
            label,
            body: iter_block(body, diags),
        },
        ExprKind::ForLoop { label, pat, iter, body } => {
            let oi = process_boxed(iter, diags);
            let ob = iter_block(body, diags);
            let out = ExprKind::ForLoop { label, pat, iter: oi, body: ob };
            proof {
                assert(diags@ =~= pre + kind_diags(k));
            }
            out
        },
        ExprKind::While { label, cond, body } => {
            let oc = process_boxed(cond, diags);
            let ob = iter_block(body, diags);
            let out = ExprKind::While { label, cond: oc, body: ob };
            proof {
                assert(diags@ =~= pre + kind_diags(k));
            }
            out
        },
        ExprKind::If { cond, then_branch, else_branch } => {
            let oc = process_boxed(cond, diags);
            let ot = iter_block(then_branch, diags);
            let oe = process_opt(else_branch, diags);
            let out = ExprKind::If { cond: oc, then_branch: ot, else_branch: oe };
            proof {
                assert(diags@ =~= pre + kind_diags(k));
            }
            out
        },
        ExprKind::Match { scrutinee, arms } => {
            let osc = process_boxed(scrutinee, diags);
            let oa = process_arms(arms, diags);
            let out = ExprKind::Match { scrutinee: osc, arms: oa };
            proof {
                assert(diags@ =~= pre + kind_diags(k));
            }
            out
        },
    }
}

/// The body-level annotation: takes no arguments; resolves every marker
/// annotation inside the block. With arguments it earns a diagnostic
/// and leaves the block as it stands, so the rest still compiles.
pub fn report(body: Block, args: Vec<Token>, site: u64, diags: &mut Vec<Diag>) -> (out: Block)
    ensures
        args@.len() > 0 ==> out == body && final(diags)@ == old(diags)@ + seq![
            Diag { site, kind: DiagKind::UnexpectedArgs },
        ],
        args@.len() == 0 ==> block_rewrites(body, out) && final(diags)@ == old(diags)@
            + block_diags(body),
{
    if args.len() > 0 {
        let ghost pre = diags@;
        diags.push(Diag { site, kind: DiagKind::UnexpectedArgs });
        proof {
            assert(diags@ =~= pre + seq![Diag { site, kind: DiagKind::UnexpectedArgs }]);
        }
        return body;
    }
    iter_block(body, diags)
}

/// The function-level annotation: prepends one statement that opens a
/// root scope around the whole body. A bare use opens an untitled root;
/// a literal template with positional arguments titles it; any other
/// argument shape earns a diagnostic and leaves the body as it stands.
pub fn log(body: Block, args: Vec<Token>, site: u64, diags: &mut Vec<Diag>) -> (out: Block)
    ensures
        final(diags)@ == old(diags)@ + root_diags(args@, site),
        args@.len() == 0 ==> out.stmts@ == seq![Stmt::OpenRoot { title: None }] + body.stmts@,
        args@.len() > 0 && args@[0] is Lit ==> {
            &&& out.stmts@.len() == body.stmts@.len() + 1
            &&& out.stmts@[0] matches Stmt::OpenRoot { title: Some(t) } && is_template_of(
                args@,
                t,
            )
            &&& out.stmts@.skip(1) == body.stmts@
        },
        args@.len() > 0 && !(args@[0] is Lit) ==> out == body,
{
    let ghost pre = diags@;
    if args.len() == 0 {
        let ghost orig_stmts = body.stmts@;
        let Block { mut stmts } = body;
        stmts.insert(0, Stmt::OpenRoot { title: None });
        proof {
            assert(stmts@ =~= seq![Stmt::OpenRoot { title: None }] + orig_stmts);
            assert(diags@ =~= pre + root_diags(args@, site));
        }
        Block { stmts }
    } else if matches!(args[0], Token::Lit(_)) {
        let ghost orig_stmts = body.stmts@;
        let title = template_from_tokens(args);
        let Block { mut stmts } = body;
        stmts.insert(0, Stmt::OpenRoot { title: Some(title) });
        proof {
            assert(stmts@.skip(1) =~= orig_stmts);
            assert(diags@ =~= pre + root_diags(args@, site));
        }
        Block { stmts }
    } else {
        diags.push(Diag { site, kind: DiagKind::MissingTemplate });
        proof {
            assert(diags@ =~= pre + root_diags(args@, site));
        }
        body
    }
}

/// The diagnostics the function-level annotation's arguments earn.
pub open spec fn root_diags(args: Seq<Token>, site: u64) -> Seq<Diag> {
    if args.len() == 0 || args[0] is Lit {
        Seq::empty()
    } else {
        seq![Diag { site, kind: DiagKind::MissingTemplate }]
    }
}

} // verus!
