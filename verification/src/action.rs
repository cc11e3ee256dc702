use vstd::prelude::*;

verus! {

/// One recorded diagnostic: a severity-tagged leaf, or a titled group
/// holding the diagnostics recorded while its scope was open, in
/// recording order.
pub enum Action {
    Info(String),
    Warn(String),
    Error(String),
    Report { message: String, actions: Vec<Action> },
}

/// Holds when no group anywhere inside `a` is empty: every group that
/// was folded into the tree recorded at least one action.
pub open spec fn group_nonempty(a: Action) -> bool
    decreases a, 1int,
{
    match a {
        Action::Report { message, actions } => actions@.len() > 0 && groups_nonempty_from(
            actions@,
            0,
        ),
        _ => true,
    }
}

/// Holds when every action of the sequence from index `i` on satisfies
/// `group_nonempty`.
pub open spec fn groups_nonempty_from(s: Seq<Action>, i: int) -> bool
    decreases s, 0int, s.len() - i,
{
    if i < 0 || i >= s.len() {
        true
    } else {
        group_nonempty(s[i]) && groups_nonempty_from(s, i + 1)
    }
}

/// Holds when every group in the sequence, at any depth, is non-empty.
pub open spec fn groups_nonempty(s: Seq<Action>) -> bool {
    groups_nonempty_from(s, 0)
}

/// Holds when the tree under `a` contains an error leaf at some depth.
pub open spec fn holds_error(a: Action) -> bool
    decreases a, 1int,
{
    match a {
        Action::Error(m) => true,
        Action::Report { message, actions } => holds_error_from(actions@, 0),
        _ => false,
    }
}

/// Holds when some action of the sequence from index `i` on contains an
/// error leaf.
pub open spec fn holds_error_from(s: Seq<Action>, i: int) -> bool
    decreases s, 0int, s.len() - i,
{
    0 <= i < s.len() && (holds_error(s[i]) || holds_error_from(s, i + 1))
}

/// Holds when some action of the sequence contains an error leaf.
pub open spec fn any_holds_error(s: Seq<Action>) -> bool {
    holds_error_from(s, 0)
}

/// `groups_nonempty_from` says exactly that each action from `i` on is
/// free of empty groups.
pub proof fn lemma_groups_nonempty_iff(s: Seq<Action>, i: int)
    requires
        0 <= i,
    ensures
        groups_nonempty_from(s, i) <==> (forall|j: int|
            i <= j < s.len() ==> group_nonempty(#[trigger] s[j])),
    decreases s.len() - i,
{
    if i < s.len() {
        lemma_groups_nonempty_iff(s, i + 1);
    }
}

/// Law: recording a leaf never creates a group, so a buffer whose
/// groups are all non-empty stays that way when a leaf is appended.
pub proof fn lemma_leaf_keeps_groups_nonempty(s: Seq<Action>, a: Action)
    requires
        groups_nonempty(s),
        !(a is Report),
    ensures
        groups_nonempty(s.push(a)),
{
    lemma_groups_nonempty_iff(s, 0);
    lemma_groups_nonempty_iff(s.push(a), 0);
    assert forall|j: int| 0 <= j < s.push(a).len() implies group_nonempty(
        #[trigger] s.push(a)[j],
    ) by {
        if j < s.len() {
            assert(s.push(a)[j] == s[j]);
        } else {
            assert(s.push(a)[j] == a);
        }
    }
}

/// `holds_error_from` says exactly that some action from `i` on holds
/// an error leaf.
pub proof fn lemma_holds_error_iff(s: Seq<Action>, i: int)
    requires
        0 <= i,
    ensures
        holds_error_from(s, i) <==> (exists|j: int|
            i <= j < s.len() && holds_error(#[trigger] s[j])),
    decreases s.len() - i,
{
    if i < s.len() {
        lemma_holds_error_iff(s, i + 1);
    }
}

} // verus!
