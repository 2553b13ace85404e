//! Laws of the walk: what holds of every tree, every working set and every answer of
//! the store.

use crate::action::{effect_of, EffectView};
use crate::bodies::{body_matches, body_split, FetchedBody};
use crate::configuration::{Action, CheckerTree, CountCheck, DateEmpty, Filter, MatchEmpty};
use crate::dates::cutoff_of;
use crate::evaluator::{count_branch, count_child, step_of, Agenda, CountBranch, Job, StepView};
use crate::mail::{Mail, MailDate};
use crate::partition::{
    among,
    by_filters,
    date_sides,
    filter_sides,
    hit_sides,
    lemma_split_total_disjoint,
    older_than,
    sides,
};
use crate::walk::{
    lemma_walk_sides_unfolds,
    split_report,
    walk,
    walk_both,
    walk_side,
    walk_sides,
    Answers,
    Used,
    Walk,
};
use vstd::prelude::*;

verus! {

/// Whether the two sides hold every item of `whole` exactly as often as `whole` does,
/// and no item lies on both sides.
pub open spec fn is_partition<A>(whole: Seq<A>, parts: (Seq<A>, Seq<A>)) -> bool {
    &&& whole.to_multiset() =~= parts.0.to_multiset().add(parts.1.to_multiset())
    &&& parts.0.len() + parts.1.len() == whole.len()
    &&& forall|a: A| !(parts.0.contains(a) && parts.1.contains(a))
}

/// A split by any predicate is total and disjoint.
pub proof fn split_is_a_partition<A>(whole: Seq<A>, pred: spec_fn(A) -> bool)
    ensures
        is_partition(whole, sides(whole, pred)),
{
    lemma_split_total_disjoint(whole, pred);
}

/// Every node that splits its working set splits it totally and disjointly: each mail
/// that reached the node lies on exactly one of the two sides. This holds of a split
/// by filters, by date, by the hits of a body search and by a regular expression on
/// the fetched bodies, whatever the filters, the cutoff, the hits and the bodies are.
pub proof fn every_split_is_a_partition<'a>(
    mails: Seq<&'a Mail>,
    filters: Seq<Filter>,
    cutoff: MailDate,
    hits: Set<u32>,
    source: Seq<char>,
    bodies: Seq<FetchedBody>,
)
    ensures
        is_partition(mails, filter_sides(filters, mails)),
        is_partition(mails, date_sides(cutoff, mails)),
        is_partition(mails, hit_sides(hits, mails)),
        body_split(source, bodies, mails) is Ok ==> is_partition(
            mails,
            body_split(source, bodies, mails)->Ok_0,
        ),
{
    split_is_a_partition(mails, by_filters(filters));
    split_is_a_partition(mails, older_than(cutoff));
    split_is_a_partition(mails, among(hits));
    split_is_a_partition(mails, body_matches(source, bodies));
}

/// A count check never splits: the walk goes on in the one child that the size of the
/// working set selects, with the whole working set, also when the set is empty; and
/// the machine puts exactly that job in the place of the count check.
pub proof fn count_check_never_splits<'a>(
    check: CountCheck,
    mails: Seq<&'a Mail>,
    noop: bool,
    answers: Answers,
    used: Used,
    rest: Seq<Job<'a>>,
    now: Option<MailDate>,
)
    ensures
        walk(CheckerTree::CountCheck(check), mails, noop, answers, used) == walk(
            count_child(check, mails.len()),
            mails,
            noop,
            answers,
            used,
        ).after(
            StepView::Counted {
                branch: count_branch(mails.len(), check.count),
                size: mails.len(),
            },
        ),
        step_of(
            Agenda { noop, pending: rest.push(Job { tree: CheckerTree::CountCheck(check), mails }) },
            now,
        ).0.pending == rest.push(Job { tree: count_child(check, mails.len()), mails }),
{
    let pending = rest.push(Job { tree: CheckerTree::CountCheck(check), mails });
    assert(pending.drop_last() =~= rest);
}

/// An action fires on every working set that reaches it, also on an empty one: its
/// walk is the one report of its effect. On an empty set a success records no mail,
/// an alert reports no mail and a deletion has nothing to do.
pub proof fn action_fires_on_any_set<'a>(
    action: Action,
    mails: Seq<&'a Mail>,
    noop: bool,
    answers: Answers,
    used: Used,
)
    ensures
        walk(CheckerTree::Action(action), mails, noop, answers, used) == Walk::single(
            StepView::Act(effect_of(action, mails, noop)),
            used,
        ),
        mails.len() == 0 ==> effect_of(action, mails, noop) == match action {
            Action::Nothing => EffectView::Nothing,
            Action::Success => EffectView::Passed { count: 0 },
            Action::Alert => if noop {
                EffectView::AlertWithheld { count: 0 }
            } else {
                EffectView::Alert { count: 0, details: Seq::empty() }
            },
            Action::Delete => EffectView::Nothing,
        },
{
    if mails.len() == 0 {
        assert(mails =~= Seq::empty());
    }
}

/// The first child of a splitting node and whether the node forces its visit.
pub open spec fn first_side(tree: CheckerTree) -> (bool, CheckerTree) {
    match tree {
        CheckerTree::MatchCheck(check) => (check.empty_ok == MatchEmpty::Matched, *check.matched),
        CheckerTree::DateCheck(check) => (
            check.empty_ok == DateEmpty::OlderThan,
            *check.older_than,
        ),
        CheckerTree::BodyCheckAny(check) => (check.empty_ok == MatchEmpty::Matched, *check.matched),
        CheckerTree::BodyCheckAll(check) => (check.empty_ok == MatchEmpty::Matched, *check.matched),
        CheckerTree::BodyCheckRegex(check) => (
            check.empty_ok == MatchEmpty::Matched,
            *check.matched,
        ),
        _ => (false, CheckerTree::Empty),
    }
}

/// The second child of a splitting node and whether the node forces its visit.
pub open spec fn second_side(tree: CheckerTree) -> (bool, CheckerTree) {
    match tree {
        CheckerTree::MatchCheck(check) => (
            check.empty_ok == MatchEmpty::NotMatched,
            *check.not_matched,
        ),
        CheckerTree::DateCheck(check) => (
            check.empty_ok == DateEmpty::YoungerThan,
            *check.younger_than,
        ),
        CheckerTree::BodyCheckAny(check) => (
            check.empty_ok == MatchEmpty::NotMatched,
            *check.not_matched,
        ),
        CheckerTree::BodyCheckAll(check) => (
            check.empty_ok == MatchEmpty::NotMatched,
            *check.not_matched,
        ),
        CheckerTree::BodyCheckRegex(check) => (
            check.empty_ok == MatchEmpty::NotMatched,
            *check.not_matched,
        ),
        _ => (false, CheckerTree::Empty),
    }
}

/// Whether the node splits its working set between two children.
pub open spec fn splits(tree: CheckerTree) -> bool {
    tree is MatchCheck || tree is DateCheck || tree is BodyCheckAny || tree is BodyCheckAll
        || tree is BodyCheckRegex
}

/// After a split, the walk reports the sizes of the sides, walks the first child over
/// the first side and then, unless that failed, the second child over the second side,
/// where a side is walked only if it is not empty or the node forces it.
pub proof fn split_walks_first_side_first<'a>(
    tree: CheckerTree,
    parts: (Seq<&'a Mail>, Seq<&'a Mail>),
    noop: bool,
    answers: Answers,
    used: Used,
)
    requires
        splits(tree),
    ensures
        walk_sides(tree, parts, noop, answers, used) == walk_both(
            first_side(tree).0,
            first_side(tree).1,
            second_side(tree).0,
            second_side(tree).1,
            parts,
            noop,
            answers,
            used,
        ).after(split_report(parts)),
{
    lemma_walk_sides_unfolds(tree, parts, noop, answers, used);
}

/// Where a node forces no side, an empty side is never walked: no step is taken in
/// its child, so no action below it fires. With the first side empty, the walk after
/// the split is the walk of the second side alone; with the second side empty, it is
/// the walk of the first side alone; with both empty, the split is all there is.
pub proof fn empty_side_is_not_walked<'a>(
    tree: CheckerTree,
    parts: (Seq<&'a Mail>, Seq<&'a Mail>),
    noop: bool,
    answers: Answers,
    used: Used,
)
    requires
        splits(tree),
        !first_side(tree).0,
        !second_side(tree).0,
    ensures
        parts.0.len() == 0 ==> walk_sides(tree, parts, noop, answers, used) == walk_side(
            false,
            second_side(tree).1,
            parts.1,
            noop,
            answers,
            used,
        ).after(split_report(parts)),
        parts.1.len() == 0 && parts.0.len() > 0 ==> walk_sides(tree, parts, noop, answers, used)
            == walk(first_side(tree).1, parts.0, noop, answers, used).after(split_report(parts)),
        parts.0.len() == 0 && parts.1.len() == 0 ==> walk_sides(tree, parts, noop, answers, used)
            == Walk::single(split_report(parts), used),
{
    split_walks_first_side_first(tree, parts, noop, answers, used);
    let first = walk_side(false, first_side(tree).1, parts.0, noop, answers, used);
    let second = walk_side(false, second_side(tree).1, parts.1, noop, answers, first.used);
    let both = first.followed_by(second);
    let all = walk_sides(tree, parts, noop, answers, used);
    if parts.0.len() == 0 {
        assert(both.reports =~= second.reports);
        if parts.1.len() == 0 {
            assert(all.reports =~= seq![split_report(parts)]);
        }
    } else if parts.1.len() == 0 {
        assert(both.reports =~= first.reports);
    }
}

/// The walk of the first side of a split, as the node forces it or not.
pub open spec fn first_walk<'a>(
    tree: CheckerTree,
    parts: (Seq<&'a Mail>, Seq<&'a Mail>),
    noop: bool,
    answers: Answers,
    used: Used,
) -> Walk<'a> {
    walk_side(first_side(tree).0, first_side(tree).1, parts.0, noop, answers, used)
}

/// The walk of the second side of a split, as the node forces it or not.
pub open spec fn second_walk<'a>(
    tree: CheckerTree,
    parts: (Seq<&'a Mail>, Seq<&'a Mail>),
    noop: bool,
    answers: Answers,
    used: Used,
) -> Walk<'a> {
    walk_side(second_side(tree).0, second_side(tree).1, parts.1, noop, answers, used)
}

/// Where a node forces a side, the child of that side is walked whatever the side
/// holds: also when the side is empty the child is walked, over the empty set. What
/// an action that the walk reaches there does with the empty set is stated by
/// [`action_fires_on_any_set`]: an alert or a success fires with a count of zero.
pub proof fn forced_empty_side_is_walked<'a>(
    tree: CheckerTree,
    parts: (Seq<&'a Mail>, Seq<&'a Mail>),
    noop: bool,
    answers: Answers,
    used: Used,
)
    requires
        splits(tree),
    ensures
        walk_sides(tree, parts, noop, answers, used) == first_walk(
            tree,
            parts,
            noop,
            answers,
            used,
        ).followed_by(
            second_walk(
                tree,
                parts,
                noop,
                answers,
                first_walk(tree, parts, noop, answers, used).used,
            ),
        ).after(split_report(parts)),
        first_side(tree).0 ==> first_walk(tree, parts, noop, answers, used) == walk(
            first_side(tree).1,
            parts.0,
            noop,
            answers,
            used,
        ),
        second_side(tree).0 ==> second_walk(tree, parts, noop, answers, used) == walk(
            second_side(tree).1,
            parts.1,
            noop,
            answers,
            used,
        ),
{
    split_walks_first_side_first(tree, parts, noop, answers, used);
}

/// Whether a report asks for a change of the store.
pub open spec fn asks_to_mutate<'a>(report: StepView<'a>) -> bool {
    match report {
        StepView::Act(effect) => effect.mutates_store(),
        _ => false,
    }
}

/// Whether no report of the walk asks for a change of the store.
pub open spec fn is_harmless<'a>(w: Walk<'a>) -> bool {
    forall|i: int| 0 <= i < w.reports.len() ==> !asks_to_mutate(#[trigger] w.reports[i])
}

/// In a dry run no step of a walk asks for a change of the store, whatever the tree,
/// the mails and the answers are.
pub proof fn dry_run_walk_never_mutates<'a>(
    tree: CheckerTree,
    mails: Seq<&'a Mail>,
    answers: Answers,
    used: Used,
)
    ensures
        is_harmless(walk(tree, mails, true, answers, used)),
    decreases tree, 1nat,
{
    match tree {
        CheckerTree::Empty => {},
        CheckerTree::Action(action) => {},
        CheckerTree::CountCheck(check) => {
            match count_branch(mails.len(), check.count) {
                CountBranch::Greater => dry_run_walk_never_mutates(
                    *check.greater_than,
                    mails,
                    answers,
                    used,
                ),
                CountBranch::Less => dry_run_walk_never_mutates(
                    *check.less_than,
                    mails,
                    answers,
                    used,
                ),
                CountBranch::Equal => dry_run_walk_never_mutates(
                    *check.equal,
                    mails,
                    answers,
                    used,
                ),
            }
        },
        CheckerTree::MatchCheck(check) => {
            dry_run_sides_never_mutate(
                tree,
                filter_sides(check.matchers@, mails),
                answers,
                used,
            );
        },
        CheckerTree::DateCheck(check) => {
            if mails.len() == 0 {
                dry_run_sides_never_mutate(tree, (mails, mails), answers, used);
            } else {
                let read = Used { clock: used.clock + 1, ..used };
                match cutoff_of((answers.clock)(used.clock), check.days) {
                    Err(e) => {},
                    Ok(cut) => {
                        dry_run_sides_never_mutate(tree, date_sides(cut, mails), answers, read);
                    },
                }
            }
        },
        CheckerTree::BodyCheckAny(check) => {
            if mails.len() == 0 {
                dry_run_sides_never_mutate(tree, (mails, mails), answers, used);
            } else if check.strings.len() > 0 {
                dry_run_sides_never_mutate(
                    tree,
                    hit_sides((answers.hits)(used.hits), mails),
                    answers,
                    Used { hits: used.hits + 1, ..used },
                );
            }
        },
        CheckerTree::BodyCheckAll(check) => {
            if mails.len() == 0 {
                dry_run_sides_never_mutate(tree, (mails, mails), answers, used);
            } else if check.strings.len() > 0 {
                dry_run_sides_never_mutate(
                    tree,
                    hit_sides((answers.hits)(used.hits), mails),
                    answers,
                    Used { hits: used.hits + 1, ..used },
                );
            }
        },
        CheckerTree::BodyCheckRegex(check) => {
            if mails.len() == 0 {
                dry_run_sides_never_mutate(tree, (mails, mails), answers, used);
            } else {
                let fetched = Used { bodies: used.bodies + 1, ..used };
                match body_split(check.regex@, (answers.bodies)(used.bodies), mails) {
                    Err(e) => {},
                    Ok(parts) => {
                        dry_run_sides_never_mutate(tree, parts, answers, fetched);
                    },
                }
            }
        },
    }
}

/// In a dry run no step of the walk of the two sides of a split asks for a change of
/// the store.
pub proof fn dry_run_sides_never_mutate<'a>(
    tree: CheckerTree,
    parts: (Seq<&'a Mail>, Seq<&'a Mail>),
    answers: Answers,
    used: Used,
)
    ensures
        is_harmless(walk_sides(tree, parts, true, answers, used)),
    decreases tree, 0nat,
{
    if splits(tree) {
        split_walks_first_side_first(tree, parts, true, answers, used);
        let (first_forced, first_tree) = first_side(tree);
        let (second_forced, second_tree) = second_side(tree);
        let first = walk_side(first_forced, first_tree, parts.0, true, answers, used);
        if parts.0.len() > 0 || first_forced {
            dry_run_walk_never_mutates(first_tree, parts.0, answers, used);
        }
        if parts.1.len() > 0 || second_forced {
            dry_run_walk_never_mutates(second_tree, parts.1, answers, first.used);
        }
    }
}

/// Whether two records of answers hold the same answers.
pub open spec fn same_answers(a: Answers, b: Answers) -> bool {
    &&& forall|n: nat| #[trigger] (a.clock)(n) == (b.clock)(n)
    &&& forall|n: nat| #[trigger] (a.hits)(n) == (b.hits)(n)
    &&& forall|n: nat| #[trigger] (a.bodies)(n) == (b.bodies)(n)
}

/// Two walks of the same tree over the same mails that get the same answers from the
/// clock and the store are the same walk: every node is visited in the same order and
/// reports the same sizes both times.
pub proof fn same_answers_same_walk<'a>(
    tree: CheckerTree,
    mails: Seq<&'a Mail>,
    noop: bool,
    a: Answers,
    b: Answers,
    used: Used,
)
    requires
        same_answers(a, b),
    ensures
        walk(tree, mails, noop, a, used) == walk(tree, mails, noop, b, used),
    decreases tree, 1nat,
{
    match tree {
        CheckerTree::Empty => {},
        CheckerTree::Action(action) => {},
        CheckerTree::CountCheck(check) => {
            match count_branch(mails.len(), check.count) {
                CountBranch::Greater => same_answers_same_walk(
                    *check.greater_than,
                    mails,
                    noop,
                    a,
                    b,
                    used,
                ),
                CountBranch::Less => same_answers_same_walk(
                    *check.less_than,
                    mails,
                    noop,
                    a,
                    b,
                    used,
                ),
                CountBranch::Equal => same_answers_same_walk(
                    *check.equal,
                    mails,
                    noop,
                    a,
                    b,
                    used,
                ),
            }
        },
        CheckerTree::MatchCheck(check) => {
            same_answers_same_sides(tree, filter_sides(check.matchers@, mails), noop, a, b, used);
        },
        CheckerTree::DateCheck(check) => {
            if mails.len() == 0 {
                same_answers_same_sides(tree, (mails, mails), noop, a, b, used);
            } else {
                let read = Used { clock: used.clock + 1, ..used };
                assert((a.clock)(used.clock) == (b.clock)(used.clock));
                match cutoff_of((a.clock)(used.clock), check.days) {
                    Err(e) => {},
                    Ok(cut) => {
                        same_answers_same_sides(tree, date_sides(cut, mails), noop, a, b, read);
                    },
                }
            }
        },
        CheckerTree::BodyCheckAny(check) => {
            if mails.len() == 0 {
                same_answers_same_sides(tree, (mails, mails), noop, a, b, used);
            } else if check.strings.len() > 0 {
                assert((a.hits)(used.hits) == (b.hits)(used.hits));
                same_answers_same_sides(
                    tree,
                    hit_sides((a.hits)(used.hits), mails),
                    noop,
                    a,
                    b,
                    Used { hits: used.hits + 1, ..used },
                );
            }
        },
        CheckerTree::BodyCheckAll(check) => {
            if mails.len() == 0 {
                same_answers_same_sides(tree, (mails, mails), noop, a, b, used);
            } else if check.strings.len() > 0 {
                assert((a.hits)(used.hits) == (b.hits)(used.hits));
                same_answers_same_sides(
                    tree,
                    hit_sides((a.hits)(used.hits), mails),
                    noop,
                    a,
                    b,
                    Used { hits: used.hits + 1, ..used },
                );
            }
        },
        CheckerTree::BodyCheckRegex(check) => {
            if mails.len() == 0 {
                same_answers_same_sides(tree, (mails, mails), noop, a, b, used);
            } else {
                let fetched = Used { bodies: used.bodies + 1, ..used };
                assert((a.bodies)(used.bodies) == (b.bodies)(used.bodies));
                match body_split(check.regex@, (a.bodies)(used.bodies), mails) {
                    Err(e) => {},
                    Ok(parts) => {
                        same_answers_same_sides(tree, parts, noop, a, b, fetched);
                    },
                }
            }
        },
    }
}

/// Two walks of the sides of a split that get the same answers are the same walk.
pub proof fn same_answers_same_sides<'a>(
    tree: CheckerTree,
    parts: (Seq<&'a Mail>, Seq<&'a Mail>),
    noop: bool,
    a: Answers,
    b: Answers,
    used: Used,
)
    requires
        same_answers(a, b),
    ensures
        walk_sides(tree, parts, noop, a, used) == walk_sides(tree, parts, noop, b, used),
    decreases tree, 0nat,
{
    if splits(tree) {
        split_walks_first_side_first(tree, parts, noop, a, used);
        split_walks_first_side_first(tree, parts, noop, b, used);
        let (first_forced, first_tree) = first_side(tree);
        let (second_forced, second_tree) = second_side(tree);
        let first = walk_side(first_forced, first_tree, parts.0, noop, a, used);
        if parts.0.len() > 0 || first_forced {
            same_answers_same_walk(first_tree, parts.0, noop, a, b, used);
        }
        if parts.1.len() > 0 || second_forced {
            same_answers_same_walk(second_tree, parts.1, noop, a, b, first.used);
        }
    }
}

} // verus!
