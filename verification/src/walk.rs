//! What a whole walk of a checker tree does, given what the store and the clock answer.
//!
//! [`walk`] describes the walk by recursion over the tree. The machine of the
//! evaluator module makes the same walk one step at a time.

use crate::action::effect_of;
use crate::bodies::{body_split, FetchedBody};
use crate::configuration::{CheckerTree, DateEmpty, MatchEmpty};
use crate::dates::cutoff_of;
use crate::error::CheckError;
use crate::evaluator::{count_branch, BodyFetchView, BodySearchView, CountBranch, StepView};
use crate::mail::{Mail, MailDate};
use crate::partition::{date_sides, filter_sides, hit_sides};
use crate::query::{all_query, any_query, joined, scoped, uids_of};
use vstd::prelude::*;

verus! {

/// What the world answers during a walk: each reading of the clock, each body search
/// and each body fetch, numbered in the order in which the walk asks.
pub ghost struct Answers {
    pub clock: spec_fn(nat) -> Option<MailDate>,
    pub hits: spec_fn(nat) -> Set<u32>,
    pub bodies: spec_fn(nat) -> Seq<FetchedBody>,
}

/// How many answers of each kind a walk has used so far.
pub ghost struct Used {
    pub clock: nat,
    pub hits: nat,
    pub bodies: nat,
}

/// A walk, or a part of one: what its steps reported, in order; the answers it used;
/// whether it ended in a failure.
pub ghost struct Walk<'a> {
    pub reports: Seq<StepView<'a>>,
    pub used: Used,
    pub failed: bool,
}

impl<'a> Walk<'a> {
    /// The walk that visits nothing.
    pub open spec fn idle(used: Used) -> Walk<'a> {
        Walk { reports: Seq::empty(), used, failed: false }
    }

    /// The walk of one step.
    pub open spec fn single(report: StepView<'a>, used: Used) -> Walk<'a> {
        Walk { reports: seq![report], used, failed: false }
    }

    /// The walk that fails at once.
    pub open spec fn failure(e: CheckError, used: Used) -> Walk<'a> {
        Walk { reports: seq![StepView::Failed(e)], used, failed: true }
    }

    /// This walk after one more report in front.
    pub open spec fn after(self, report: StepView<'a>) -> Walk<'a> {
        Walk { reports: seq![report] + self.reports, used: self.used, failed: self.failed }
    }

    /// This walk followed by `next`, which started from where this one ended; a walk
    /// that failed is not followed by anything.
    pub open spec fn followed_by(self, next: Walk<'a>) -> Walk<'a> {
        if self.failed {
            self
        } else {
            Walk { reports: self.reports + next.reports, used: next.used, failed: next.failed }
        }
    }
}

/// The walk of `tree` over `mails`, from the answers not yet used.
///
/// An `Empty` node is skipped. An action fires on the whole working set, also on an
/// empty one. A count check hands the whole set to one child. Every other node splits
/// the set and walks its children, see [`walk_sides`]; a date check reads the clock
/// first and a body check asks the store first, unless the set is empty.
pub open spec fn walk<'a>(
    tree: CheckerTree,
    mails: Seq<&'a Mail>,
    noop: bool,
    answers: Answers,
    used: Used,
) -> Walk<'a>
    decreases tree, 1nat,
{
    match tree {
        CheckerTree::Empty => Walk::single(StepView::Skipped, used),
        CheckerTree::Action(action) => Walk::single(
            StepView::Act(effect_of(action, mails, noop)),
            used,
        ),
        CheckerTree::CountCheck(check) => {
            let branch = count_branch(mails.len(), check.count);
            let below = match branch {
                CountBranch::Greater => walk(*check.greater_than, mails, noop, answers, used),
                CountBranch::Less => walk(*check.less_than, mails, noop, answers, used),
                CountBranch::Equal => walk(*check.equal, mails, noop, answers, used),
            };
            below.after(StepView::Counted { branch, size: mails.len() })
        },
        CheckerTree::MatchCheck(check) => walk_sides(
            tree,
            filter_sides(check.matchers@, mails),
            noop,
            answers,
            used,
        ),
        CheckerTree::DateCheck(check) => {
            if mails.len() == 0 {
                walk_sides(tree, (mails, mails), noop, answers, used)
            } else {
                let read = Used { clock: used.clock + 1, ..used };
                match cutoff_of((answers.clock)(used.clock), check.days) {
                    Err(e) => Walk::failure(e, read),
                    Ok(cut) => walk_sides(tree, date_sides(cut, mails), noop, answers, read),
                }
            }
        },
        CheckerTree::BodyCheckAny(check) => {
            if mails.len() == 0 {
                walk_sides(tree, (mails, mails), noop, answers, used)
            } else if check.strings.len() == 0 {
                Walk::single(StepView::NoStrings, used)
            } else {
                let hits = (answers.hits)(used.hits);
                walk_sides(
                    tree,
                    hit_sides(hits, mails),
                    noop,
                    answers,
                    Used { hits: used.hits + 1, ..used },
                ).after(
                    StepView::Search(
                        BodySearchView {
                            query: scoped(uids_of(mails), any_query(check.strings@)),
                            check,
                            mails,
                        },
                    ),
                )
            }
        },
        CheckerTree::BodyCheckAll(check) => {
            if mails.len() == 0 {
                walk_sides(tree, (mails, mails), noop, answers, used)
            } else if check.strings.len() == 0 {
                Walk::single(StepView::NoStrings, used)
            } else {
                let hits = (answers.hits)(used.hits);
                walk_sides(
                    tree,
                    hit_sides(hits, mails),
                    noop,
                    answers,
                    Used { hits: used.hits + 1, ..used },
                ).after(
                    StepView::Search(
                        BodySearchView {
                            query: scoped(uids_of(mails), all_query(check.strings@)),
                            check,
                            mails,
                        },
                    ),
                )
            }
        },
        CheckerTree::BodyCheckRegex(check) => {
            if mails.len() == 0 {
                walk_sides(tree, (mails, mails), noop, answers, used)
            } else {
                let fetched = Used { bodies: used.bodies + 1, ..used };
                let below = match body_split(check.regex@, (answers.bodies)(used.bodies), mails) {
                    Err(e) => Walk::failure(e, fetched),
                    Ok(sides) => walk_sides(tree, sides, noop, answers, fetched),
                };
                below.after(
                    StepView::Fetch(
                        BodyFetchView { uids: joined(uids_of(mails)), check, mails },
                    ),
                )
            }
        },
    }
}

/// The walk of the two children of a splitting node, after the split: the sizes of
/// the sides are reported, then the first side is walked, then the second. A side
/// that is empty is walked only where the node forces it.
pub open spec fn walk_sides<'a>(
    tree: CheckerTree,
    sides: (Seq<&'a Mail>, Seq<&'a Mail>),
    noop: bool,
    answers: Answers,
    used: Used,
) -> Walk<'a>
    decreases tree, 0nat,
{
    let report = StepView::Split { first: sides.0.len(), second: sides.1.len() };
    match tree {
        CheckerTree::MatchCheck(check) => {
            let first = if sides.0.len() > 0 || check.empty_ok == MatchEmpty::Matched {
                walk(*check.matched, sides.0, noop, answers, used)
            } else {
                Walk::idle(used)
            };
            let second = if sides.1.len() > 0 || check.empty_ok == MatchEmpty::NotMatched {
                walk(*check.not_matched, sides.1, noop, answers, first.used)
            } else {
                Walk::idle(first.used)
            };
            first.followed_by(second).after(report)
        },
        CheckerTree::DateCheck(check) => {
            let first = if sides.0.len() > 0 || check.empty_ok == DateEmpty::OlderThan {
                walk(*check.older_than, sides.0, noop, answers, used)
            } else {
                Walk::idle(used)
            };
            let second = if sides.1.len() > 0 || check.empty_ok == DateEmpty::YoungerThan {
                walk(*check.younger_than, sides.1, noop, answers, first.used)
            } else {
                Walk::idle(first.used)
            };
            first.followed_by(second).after(report)
        },
        CheckerTree::BodyCheckAny(check) => {
            let first = if sides.0.len() > 0 || check.empty_ok == MatchEmpty::Matched {
                walk(*check.matched, sides.0, noop, answers, used)
            } else {
                Walk::idle(used)
            };
            let second = if sides.1.len() > 0 || check.empty_ok == MatchEmpty::NotMatched {
                walk(*check.not_matched, sides.1, noop, answers, first.used)
            } else {
                Walk::idle(first.used)
            };
            first.followed_by(second).after(report)
        },
        CheckerTree::BodyCheckAll(check) => {
            let first = if sides.0.len() > 0 || check.empty_ok == MatchEmpty::Matched {
                walk(*check.matched, sides.0, noop, answers, used)
            } else {
                Walk::idle(used)
            };
            let second = if sides.1.len() > 0 || check.empty_ok == MatchEmpty::NotMatched {
                walk(*check.not_matched, sides.1, noop, answers, first.used)
            } else {
                Walk::idle(first.used)
            };
            first.followed_by(second).after(report)
        },
        CheckerTree::BodyCheckRegex(check) => {
            let first = if sides.0.len() > 0 || check.empty_ok == MatchEmpty::Matched {
                walk(*check.matched, sides.0, noop, answers, used)
            } else {
                Walk::idle(used)
            };
            let second = if sides.1.len() > 0 || check.empty_ok == MatchEmpty::NotMatched {
                walk(*check.not_matched, sides.1, noop, answers, first.used)
            } else {
                Walk::idle(first.used)
            };
            first.followed_by(second).after(report)
        },
        _ => Walk::idle(used),
    }
}

/// The report of a split into the given sides.
pub open spec fn split_report<'a>(sides: (Seq<&'a Mail>, Seq<&'a Mail>)) -> StepView<'a> {
    StepView::Split { first: sides.0.len(), second: sides.1.len() }
}

/// The walk of one side of a split: nothing, where the side is empty and not forced.
pub open spec fn walk_side<'a>(
    forced: bool,
    tree: CheckerTree,
    mails: Seq<&'a Mail>,
    noop: bool,
    answers: Answers,
    used: Used,
) -> Walk<'a> {
    if mails.len() > 0 || forced {
        walk(tree, mails, noop, answers, used)
    } else {
        Walk::idle(used)
    }
}

/// The walk of the two sides of a split, first side first.
pub open spec fn walk_both<'a>(
    first_forced: bool,
    first_tree: CheckerTree,
    second_forced: bool,
    second_tree: CheckerTree,
    sides: (Seq<&'a Mail>, Seq<&'a Mail>),
    noop: bool,
    answers: Answers,
    used: Used,
) -> Walk<'a> {
    let first = walk_side(first_forced, first_tree, sides.0, noop, answers, used);
    first.followed_by(walk_side(second_forced, second_tree, sides.1, noop, answers, first.used))
}

/// The walk of the sides of a splitting node is the report of the split, then the walk
/// of both children.
pub proof fn lemma_walk_sides_unfolds<'a>(
    tree: CheckerTree,
    sides: (Seq<&'a Mail>, Seq<&'a Mail>),
    noop: bool,
    answers: Answers,
    used: Used,
)
    ensures
        match tree {
            CheckerTree::MatchCheck(check) => walk_sides(tree, sides, noop, answers, used)
                == walk_both(
                check.empty_ok == MatchEmpty::Matched,
                *check.matched,
                check.empty_ok == MatchEmpty::NotMatched,
                *check.not_matched,
                sides,
                noop,
                answers,
                used,
            ).after(split_report(sides)),
            CheckerTree::DateCheck(check) => walk_sides(tree, sides, noop, answers, used)
                == walk_both(
                check.empty_ok == DateEmpty::OlderThan,
                *check.older_than,
                check.empty_ok == DateEmpty::YoungerThan,
                *check.younger_than,
                sides,
                noop,
                answers,
                used,
            ).after(split_report(sides)),
            CheckerTree::BodyCheckAny(check) => walk_sides(tree, sides, noop, answers, used)
                == walk_both(
                check.empty_ok == MatchEmpty::Matched,
                *check.matched,
                check.empty_ok == MatchEmpty::NotMatched,
                *check.not_matched,
                sides,
                noop,
                answers,
                used,
            ).after(split_report(sides)),
            CheckerTree::BodyCheckAll(check) => walk_sides(tree, sides, noop, answers, used)
                == walk_both(
                check.empty_ok == MatchEmpty::Matched,
                *check.matched,
                check.empty_ok == MatchEmpty::NotMatched,
                *check.not_matched,
                sides,
                noop,
                answers,
                used,
            ).after(split_report(sides)),
            CheckerTree::BodyCheckRegex(check) => walk_sides(tree, sides, noop, answers, used)
                == walk_both(
                check.empty_ok == MatchEmpty::Matched,
                *check.matched,
                check.empty_ok == MatchEmpty::NotMatched,
                *check.not_matched,
                sides,
                noop,
                answers,
                used,
            ).after(split_report(sides)),
            _ => true,
        },
{
}

} // verus!
