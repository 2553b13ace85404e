//! The machine of the evaluator module makes the walk that the walk module describes:
//! step by step ([`lemma_step_follows_walk`]) and, run to its end, as a whole
//! ([`machine_makes_the_walk`]).

use crate::bodies::{body_split, FetchedBody};
use crate::configuration::{CheckerTree, DateEmpty, MatchEmpty};
use crate::dates::cutoff_of;
use crate::evaluator::{
    match_jobs,
    reads_clock,
    BodyFetchView,
    fetch_step_of,
    search_step_of,
    side_job,
    split_jobs,
    step_of,
    Agenda,
    Job,
    StepView,
};
use crate::mail::{Mail, MailDate};
use crate::query::{joined, uids_of};
use crate::partition::{date_sides, filter_sides, hit_sides};
use crate::walk::{
    lemma_walk_sides_unfolds,
    split_report,
    walk,
    walk_both,
    walk_side,
    walk_sides,
    Answers,
    Used,
    Walk,
};
use vstd::prelude::*;

verus! {

/// The walk of the jobs still to do, the last job first; a failure ends it.
pub open spec fn walk_pending<'a>(
    pending: Seq<Job<'a>>,
    noop: bool,
    answers: Answers,
    used: Used,
) -> Walk<'a>
    decreases pending.len(),
{
    if pending.len() == 0 {
        Walk::idle(used)
    } else {
        let job = pending.last();
        let first = walk(job.tree, job.mails, noop, answers, used);
        first.followed_by(walk_pending(pending.drop_last(), noop, answers, first.used))
    }
}

/// The walk that a step opens: the step's report, then the walk of what is left;
/// after a report of failure nothing is left and the walk has failed.
pub open spec fn resumed<'a>(report: StepView<'a>, rest: Walk<'a>) -> Walk<'a> {
    if report is Failed {
        Walk { reports: seq![report], used: rest.used, failed: true }
    } else {
        rest.after(report)
    }
}

/// Walking a single job is walking its tree.
pub proof fn lemma_walk_pending_single<'a>(
    tree: CheckerTree,
    mails: Seq<&'a Mail>,
    noop: bool,
    answers: Answers,
    used: Used,
)
    ensures
        walk_pending(seq![Job { tree, mails }], noop, answers, used) == walk(
            tree,
            mails,
            noop,
            answers,
            used,
        ),
{
    let pending = seq![Job { tree, mails }];
    let first = walk(tree, mails, noop, answers, used);
    assert(pending.last() == Job { tree, mails });
    assert(pending.drop_last() =~= Seq::<Job<'a>>::empty());
    let all = walk_pending(pending, noop, answers, used);
    assert(walk_pending(pending.drop_last(), noop, answers, first.used) == Walk::<'a>::idle(
        first.used,
    ));
    assert(all.reports =~= first.reports);
}

/// With the job of a side on top, the pending jobs are walked side first.
proof fn lemma_walk_pending_side<'a>(
    rest: Seq<Job<'a>>,
    forced: bool,
    tree: CheckerTree,
    mails: Seq<&'a Mail>,
    noop: bool,
    answers: Answers,
    used: Used,
)
    ensures
        walk_pending(rest + side_job(forced, tree, mails), noop, answers, used) == {
            let first = walk_side(forced, tree, mails, noop, answers, used);
            first.followed_by(walk_pending(rest, noop, answers, first.used))
        },
{
    let first = walk_side(forced, tree, mails, noop, answers, used);
    let below = walk_pending(rest, noop, answers, first.used);
    if mails.len() > 0 || forced {
        let job = Job { tree, mails };
        let pending = rest + seq![job];
        assert(pending.last() == job);
        assert(pending.drop_last() =~= rest);
    } else {
        assert(rest + Seq::<Job<'a>>::empty() =~= rest);
        assert(first.followed_by(below).reports =~= below.reports);
    }
}

/// With the jobs of a split on top, the pending jobs are walked first side first,
/// then second side, then the rest.
proof fn lemma_walk_pending_split<'a>(
    rest: Seq<Job<'a>>,
    first_forced: bool,
    first_tree: CheckerTree,
    second_forced: bool,
    second_tree: CheckerTree,
    sides: (Seq<&'a Mail>, Seq<&'a Mail>),
    noop: bool,
    answers: Answers,
    used: Used,
    both: Walk<'a>,
)
    requires
        both == walk_both(
            first_forced,
            first_tree,
            second_forced,
            second_tree,
            sides,
            noop,
            answers,
            used,
        ),
    ensures
        walk_pending(
            rest + split_jobs(first_forced, first_tree, second_forced, second_tree, sides),
            noop,
            answers,
            used,
        ) == both.followed_by(walk_pending(rest, noop, answers, both.used)),
{
    let below = side_job(second_forced, second_tree, sides.1);
    let above = side_job(first_forced, first_tree, sides.0);
    assert(rest + (below + above) =~= (rest + below) + above);
    lemma_walk_pending_side(rest + below, first_forced, first_tree, sides.0, noop, answers, used);
    let first = walk_side(first_forced, first_tree, sides.0, noop, answers, used);
    lemma_walk_pending_side(rest, second_forced, second_tree, sides.1, noop, answers, first.used);
    let second = walk_side(second_forced, second_tree, sides.1, noop, answers, first.used);
    let tail = walk_pending(rest, noop, answers, second.used);
    let lhs = first.followed_by(second.followed_by(tail));
    let rhs = both.followed_by(walk_pending(rest, noop, answers, both.used));
    assert(lhs.reports =~= rhs.reports);
}

/// A report in front of a walk stays in front when the walk goes on.
proof fn lemma_after_followed_by<'a>(w: Walk<'a>, report: StepView<'a>, next: Walk<'a>)
    ensures
        w.after(report).followed_by(next) == w.followed_by(next).after(report),
{
    assert(w.after(report).followed_by(next).reports =~= w.followed_by(next).after(
        report,
    ).reports);
}

/// The answers used once the next step of the agenda has read the clock, if it does.
pub open spec fn after_clock<'a>(agenda: Agenda<'a>, used: Used) -> Used {
    if reads_clock(agenda) {
        Used { clock: used.clock + 1, ..used }
    } else {
        used
    }
}

/// The walk that the machine makes from an agenda: its next step, resumed with the
/// store's answer where the step asks for one, then the walk of what is pending after
/// that.
pub open spec fn walk_by_step<'a>(agenda: Agenda<'a>, answers: Answers, used: Used) -> Walk<'a> {
    let (next, report) = step_of(agenda, (answers.clock)(used.clock));
    match report {
        StepView::Search(search) => {
            let (after, split) = search_step_of(next, search, (answers.hits)(used.hits));
            resumed(
                split,
                walk_pending(
                    after.pending,
                    agenda.noop,
                    answers,
                    Used { hits: used.hits + 1, ..used },
                ),
            ).after(report)
        },
        StepView::Fetch(fetch) => {
            let (after, split) = fetch_step_of(next, fetch, (answers.bodies)(used.bodies));
            resumed(
                split,
                walk_pending(
                    after.pending,
                    agenda.noop,
                    answers,
                    Used { bodies: used.bodies + 1, ..used },
                ),
            ).after(report)
        },
        _ => resumed(
            report,
            walk_pending(next.pending, agenda.noop, answers, after_clock(agenda, used)),
        ),
    }
}

/// The walk of a splitting node and of what is pending below it is the report of the
/// split, then the walk of what is pending once the jobs of the sides are on top.
proof fn lemma_split_step<'a>(
    rest: Seq<Job<'a>>,
    node: Walk<'a>,
    first_forced: bool,
    first_tree: CheckerTree,
    second_forced: bool,
    second_tree: CheckerTree,
    sides: (Seq<&'a Mail>, Seq<&'a Mail>),
    noop: bool,
    answers: Answers,
    used: Used,
)
    requires
        node == walk_both(
            first_forced,
            first_tree,
            second_forced,
            second_tree,
            sides,
            noop,
            answers,
            used,
        ).after(split_report(sides)),
    ensures
        node.followed_by(walk_pending(rest, noop, answers, node.used)) == resumed(
            split_report(sides),
            walk_pending(
                rest + split_jobs(first_forced, first_tree, second_forced, second_tree, sides),
                noop,
                answers,
                used,
            ),
        ),
{
    let both = walk_both(
        first_forced,
        first_tree,
        second_forced,
        second_tree,
        sides,
        noop,
        answers,
        used,
    );
    lemma_walk_pending_split(
        rest,
        first_forced,
        first_tree,
        second_forced,
        second_tree,
        sides,
        noop,
        answers,
        used,
        both,
    );
    lemma_after_followed_by(
        both,
        split_report(sides),
        walk_pending(rest, noop, answers, both.used),
    );
}

/// The machine follows the walk: from any agenda with a job pending, the walk of the
/// pending jobs is the machine's next step followed by the walk of what is pending
/// after it.
pub proof fn lemma_step_follows_walk<'a>(agenda: Agenda<'a>, answers: Answers, used: Used)
    requires
        agenda.pending.len() > 0,
    ensures
        walk_pending(agenda.pending, agenda.noop, answers, used) == walk_by_step(
            agenda,
            answers,
            used,
        ),
{
    let noop = agenda.noop;
    let job = agenda.pending.last();
    let rest = agenda.pending.drop_last();
    let mails = job.mails;
    let node = walk(job.tree, mails, noop, answers, used);
    let whole = walk_pending(agenda.pending, noop, answers, used);
    let by_step = walk_by_step(agenda, answers, used);
    assert(whole == node.followed_by(walk_pending(rest, noop, answers, node.used)));
    match job.tree {
        CheckerTree::Empty => {
            assert(whole.reports =~= by_step.reports);
        },
        CheckerTree::Action(action) => {
            assert(whole.reports =~= by_step.reports);
        },
        CheckerTree::CountCheck(check) => {
            lemma_count_step(agenda, answers, used);
        },
        CheckerTree::MatchCheck(check) => {
            let sides = filter_sides(check.matchers@, mails);
            lemma_walk_sides_unfolds(job.tree, sides, noop, answers, used);
            assert(node == walk_sides(job.tree, sides, noop, answers, used));
            lemma_split_step(
                rest,
                node,
                check.empty_ok == MatchEmpty::Matched,
                *check.matched,
                check.empty_ok == MatchEmpty::NotMatched,
                *check.not_matched,
                sides,
                noop,
                answers,
                used,
            );
        },
        CheckerTree::DateCheck(check) => {
            lemma_date_step(agenda, answers, used);
        },
        CheckerTree::BodyCheckAny(check) => {
            lemma_body_strings_step(agenda, answers, used);
        },
        CheckerTree::BodyCheckAll(check) => {
            lemma_body_strings_step(agenda, answers, used);
        },
        CheckerTree::BodyCheckRegex(check) => {
            lemma_body_regex_step(agenda, answers, used);
        },
    }
}

/// The machine follows the walk at a count check.
proof fn lemma_count_step<'a>(agenda: Agenda<'a>, answers: Answers, used: Used)
    requires
        agenda.pending.len() > 0,
        agenda.pending.last().tree is CountCheck,
    ensures
        walk_pending(agenda.pending, agenda.noop, answers, used) == walk_by_step(
            agenda,
            answers,
            used,
        ),
{
    let noop = agenda.noop;
    let job = agenda.pending.last();
    let rest = agenda.pending.drop_last();
    let mails = job.mails;
    let check = job.tree->CountCheck_0;
    let node = walk(job.tree, mails, noop, answers, used);
    let next = step_of(agenda, (answers.clock)(used.clock)).0;
    let report = step_of(agenda, (answers.clock)(used.clock)).1;
    let child = next.pending.last();
    assert(next.pending.drop_last() =~= rest);
    let below = walk(child.tree, mails, noop, answers, used);
    assert(node == below.after(report));
    lemma_after_followed_by(below, report, walk_pending(rest, noop, answers, below.used));
}

/// The machine follows the walk at a date check.
proof fn lemma_date_step<'a>(agenda: Agenda<'a>, answers: Answers, used: Used)
    requires
        agenda.pending.len() > 0,
        agenda.pending.last().tree is DateCheck,
    ensures
        walk_pending(agenda.pending, agenda.noop, answers, used) == walk_by_step(
            agenda,
            answers,
            used,
        ),
{
    let noop = agenda.noop;
    let job = agenda.pending.last();
    let rest = agenda.pending.drop_last();
    let mails = job.mails;
    let check = job.tree->DateCheck_0;
    let node = walk(job.tree, mails, noop, answers, used);
    let whole = walk_pending(agenda.pending, noop, answers, used);
    let by_step = walk_by_step(agenda, answers, used);
    if mails.len() == 0 {
        lemma_walk_sides_unfolds(job.tree, (mails, mails), noop, answers, used);
        assert(node == walk_sides(job.tree, (mails, mails), noop, answers, used));
        lemma_split_step(
            rest,
            node,
            check.empty_ok == DateEmpty::OlderThan,
            *check.older_than,
            check.empty_ok == DateEmpty::YoungerThan,
            *check.younger_than,
            (mails, mails),
            noop,
            answers,
            used,
        );
    } else {
        let read = Used { clock: used.clock + 1, ..used };
        match cutoff_of((answers.clock)(used.clock), check.days) {
            Err(e) => {
                assert(whole.reports =~= by_step.reports);
            },
            Ok(cut) => {
                let sides = date_sides(cut, mails);
                lemma_walk_sides_unfolds(job.tree, sides, noop, answers, read);
                assert(node == walk_sides(job.tree, sides, noop, answers, read));
                lemma_split_step(
                    rest,
                    node,
                    check.empty_ok == DateEmpty::OlderThan,
                    *check.older_than,
                    check.empty_ok == DateEmpty::YoungerThan,
                    *check.younger_than,
                    sides,
                    noop,
                    answers,
                    read,
                );
            },
        }
    }
}

/// The machine follows the walk at a body check on strings.
proof fn lemma_body_strings_step<'a>(agenda: Agenda<'a>, answers: Answers, used: Used)
    requires
        agenda.pending.len() > 0,
        agenda.pending.last().tree is BodyCheckAny || agenda.pending.last().tree is BodyCheckAll,
    ensures
        walk_pending(agenda.pending, agenda.noop, answers, used) == walk_by_step(
            agenda,
            answers,
            used,
        ),
{
    let noop = agenda.noop;
    let job = agenda.pending.last();
    let rest = agenda.pending.drop_last();
    let mails = job.mails;
    let check = match job.tree {
        CheckerTree::BodyCheckAny(check) => check,
        CheckerTree::BodyCheckAll(check) => check,
        _ => arbitrary(),
    };
    let node = walk(job.tree, mails, noop, answers, used);
    let whole = walk_pending(agenda.pending, noop, answers, used);
    let by_step = walk_by_step(agenda, answers, used);
    let report = step_of(agenda, (answers.clock)(used.clock)).1;
    if mails.len() == 0 {
        lemma_walk_sides_unfolds(job.tree, (mails, mails), noop, answers, used);
        assert(node == walk_sides(job.tree, (mails, mails), noop, answers, used));
        lemma_split_step(
            rest,
            node,
            check.empty_ok == MatchEmpty::Matched,
            *check.matched,
            check.empty_ok == MatchEmpty::NotMatched,
            *check.not_matched,
            (mails, mails),
            noop,
            answers,
            used,
        );
    } else if check.strings.len() == 0 {
        assert(whole.reports =~= by_step.reports);
    } else {
        let hits = (answers.hits)(used.hits);
        let asked = Used { hits: used.hits + 1, ..used };
        let sides = hit_sides(hits, mails);
        let below = walk_sides(job.tree, sides, noop, answers, asked);
        lemma_walk_sides_unfolds(job.tree, sides, noop, answers, asked);
        assert(node == below.after(report));
        lemma_split_step(
            rest,
            below,
            check.empty_ok == MatchEmpty::Matched,
            *check.matched,
            check.empty_ok == MatchEmpty::NotMatched,
            *check.not_matched,
            sides,
            noop,
            answers,
            asked,
        );
        lemma_after_followed_by(below, report, walk_pending(rest, noop, answers, below.used));
    }
}

/// The machine follows the walk at a body check on a regular expression.
proof fn lemma_body_regex_step<'a>(agenda: Agenda<'a>, answers: Answers, used: Used)
    requires
        agenda.pending.len() > 0,
        agenda.pending.last().tree is BodyCheckRegex,
    ensures
        walk_pending(agenda.pending, agenda.noop, answers, used) == walk_by_step(
            agenda,
            answers,
            used,
        ),
{
    let noop = agenda.noop;
    let job = agenda.pending.last();
    let rest = agenda.pending.drop_last();
    let mails = job.mails;
    let check = job.tree->BodyCheckRegex_0;
    let node = walk(job.tree, mails, noop, answers, used);
    let whole = walk_pending(agenda.pending, noop, answers, used);
    let by_step = walk_by_step(agenda, answers, used);
    let report = step_of(agenda, (answers.clock)(used.clock)).1;
    if mails.len() == 0 {
        lemma_walk_sides_unfolds(job.tree, (mails, mails), noop, answers, used);
        assert(node == walk_sides(job.tree, (mails, mails), noop, answers, used));
        lemma_split_step(
            rest,
            node,
            check.empty_ok == MatchEmpty::Matched,
            *check.matched,
            check.empty_ok == MatchEmpty::NotMatched,
            *check.not_matched,
            (mails, mails),
            noop,
            answers,
            used,
        );
    } else {
        let fetched = Used { bodies: used.bodies + 1, ..used };
        match body_split(check.regex@, (answers.bodies)(used.bodies), mails) {
            Err(e) => {
                let below = Walk::<'a>::failure(e, fetched);
                assert(node == below.after(report));
                assert(whole.reports =~= by_step.reports);
            },
            Ok(sides) => {
                let below = walk_sides(job.tree, sides, noop, answers, fetched);
                lemma_walk_sides_unfolds(job.tree, sides, noop, answers, fetched);
                assert(node == below.after(report));
                lemma_split_step(
                    rest,
                    below,
                    check.empty_ok == MatchEmpty::Matched,
                    *check.matched,
                    check.empty_ok == MatchEmpty::NotMatched,
                    *check.not_matched,
                    sides,
                    noop,
                    answers,
                    fetched,
                );
                lemma_after_followed_by(
                    below,
                    report,
                    walk_pending(rest, noop, answers, below.used),
                );
            },
        }
    }
}

/// The number of nodes of a tree.
pub open spec fn size(tree: CheckerTree) -> nat
    decreases tree,
{
    match tree {
        CheckerTree::Empty => 1,
        CheckerTree::Action(_) => 1,
        CheckerTree::MatchCheck(check) => 1 + size(*check.matched) + size(*check.not_matched),
        CheckerTree::DateCheck(check) => 1 + size(*check.older_than) + size(
            *check.younger_than,
        ),
        CheckerTree::CountCheck(check) => 1 + size(*check.greater_than) + size(*check.less_than)
            + size(*check.equal),
        CheckerTree::BodyCheckAny(check) => 1 + size(*check.matched) + size(*check.not_matched),
        CheckerTree::BodyCheckAll(check) => 1 + size(*check.matched) + size(*check.not_matched),
        CheckerTree::BodyCheckRegex(check) => 1 + size(*check.matched) + size(
            *check.not_matched,
        ),
    }
}

/// The number of nodes that the pending jobs can still visit at most.
pub open spec fn weight<'a>(pending: Seq<Job<'a>>) -> nat
    decreases pending.len(),
{
    if pending.len() == 0 {
        0
    } else {
        weight(pending.drop_last()) + size(pending.last().tree)
    }
}

/// One more job adds the size of its tree.
proof fn lemma_weight_push<'a>(rest: Seq<Job<'a>>, job: Job<'a>)
    ensures
        weight(rest.push(job)) == weight(rest) + size(job.tree),
{
    assert(rest.push(job).drop_last() =~= rest);
}

/// The job of a side adds at most the size of its tree.
proof fn lemma_weight_side<'a>(
    rest: Seq<Job<'a>>,
    forced: bool,
    tree: CheckerTree,
    mails: Seq<&'a Mail>,
)
    ensures
        weight(rest + side_job(forced, tree, mails)) <= weight(rest) + size(tree),
{
    if mails.len() > 0 || forced {
        let job = Job { tree, mails };
        assert(rest + seq![job] =~= rest.push(job));
        lemma_weight_push(rest, job);
    } else {
        assert(rest + Seq::<Job<'a>>::empty() =~= rest);
    }
}

/// The jobs of a split add at most the sizes of the two children.
proof fn lemma_weight_split<'a>(
    rest: Seq<Job<'a>>,
    first_forced: bool,
    first_tree: CheckerTree,
    second_forced: bool,
    second_tree: CheckerTree,
    sides: (Seq<&'a Mail>, Seq<&'a Mail>),
)
    ensures
        weight(
            rest + split_jobs(first_forced, first_tree, second_forced, second_tree, sides),
        ) <= weight(rest) + size(first_tree) + size(second_tree),
{
    let below = side_job(second_forced, second_tree, sides.1);
    let above = side_job(first_forced, first_tree, sides.0);
    assert(rest + (below + above) =~= (rest + below) + above);
    lemma_weight_side(rest, second_forced, second_tree, sides.1);
    lemma_weight_side(rest + below, first_forced, first_tree, sides.0);
}

/// Every step takes at least one node off what is left to visit: a step that needs no
/// answer of the store does so at once, a step that asks the store does so together
/// with its resumption, whatever the store answers. So every walk ends.
pub proof fn lemma_step_decreases<'a>(agenda: Agenda<'a>, now: Option<MailDate>)
    requires
        agenda.pending.len() > 0,
    ensures
        match step_of(agenda, now).1 {
            StepView::Search(search) => forall|hits: Set<u32>|
                weight(#[trigger] search_step_of(step_of(agenda, now).0, search, hits).0.pending)
                    < weight(agenda.pending),
            StepView::Fetch(fetch) => forall|bodies: Seq<FetchedBody>|
                weight(#[trigger] fetch_step_of(step_of(agenda, now).0, fetch, bodies).0.pending)
                    < weight(agenda.pending),
            _ => weight(step_of(agenda, now).0.pending) < weight(agenda.pending),
        },
{
    let job = agenda.pending.last();
    let rest = agenda.pending.drop_last();
    let mails = job.mails;
    let next = step_of(agenda, now).0;
    assert(weight(agenda.pending) == weight(rest) + size(job.tree));
    assert(weight(Seq::<Job<'a>>::empty()) == 0);
    match job.tree {
        CheckerTree::Empty => {},
        CheckerTree::Action(_) => {},
        CheckerTree::CountCheck(check) => {
            lemma_weight_push(rest, next.pending.last());
            assert(next.pending =~= rest.push(next.pending.last()));
        },
        CheckerTree::MatchCheck(check) => {
            lemma_weight_split(
                rest,
                check.empty_ok == MatchEmpty::Matched,
                *check.matched,
                check.empty_ok == MatchEmpty::NotMatched,
                *check.not_matched,
                filter_sides(check.matchers@, mails),
            );
        },
        CheckerTree::DateCheck(check) => {
            if mails.len() == 0 {
                lemma_weight_split(
                    rest,
                    check.empty_ok == DateEmpty::OlderThan,
                    *check.older_than,
                    check.empty_ok == DateEmpty::YoungerThan,
                    *check.younger_than,
                    (mails, mails),
                );
            } else {
                match cutoff_of(now, check.days) {
                    Err(e) => {},
                    Ok(cut) => {
                        lemma_weight_split(
                            rest,
                            check.empty_ok == DateEmpty::OlderThan,
                            *check.older_than,
                            check.empty_ok == DateEmpty::YoungerThan,
                            *check.younger_than,
                            date_sides(cut, mails),
                        );
                    },
                }
            }
        },
        CheckerTree::BodyCheckAny(check) => {
            lemma_weight_split(
                rest,
                check.empty_ok == MatchEmpty::Matched,
                *check.matched,
                check.empty_ok == MatchEmpty::NotMatched,
                *check.not_matched,
                (mails, mails),
            );
            assert forall|hits: Set<u32>|
                weight(
                    rest + match_jobs(
                        check.empty_ok,
                        *check.matched,
                        *check.not_matched,
                        #[trigger] hit_sides(hits, mails),
                    ),
                ) < weight(agenda.pending) by {
                lemma_weight_split(
                    rest,
                    check.empty_ok == MatchEmpty::Matched,
                    *check.matched,
                    check.empty_ok == MatchEmpty::NotMatched,
                    *check.not_matched,
                    hit_sides(hits, mails),
                );
            }
        },
        CheckerTree::BodyCheckAll(check) => {
            lemma_weight_split(
                rest,
                check.empty_ok == MatchEmpty::Matched,
                *check.matched,
                check.empty_ok == MatchEmpty::NotMatched,
                *check.not_matched,
                (mails, mails),
            );
            assert forall|hits: Set<u32>|
                weight(
                    rest + match_jobs(
                        check.empty_ok,
                        *check.matched,
                        *check.not_matched,
                        #[trigger] hit_sides(hits, mails),
                    ),
                ) < weight(agenda.pending) by {
                lemma_weight_split(
                    rest,
                    check.empty_ok == MatchEmpty::Matched,
                    *check.matched,
                    check.empty_ok == MatchEmpty::NotMatched,
                    *check.not_matched,
                    hit_sides(hits, mails),
                );
            }
        },
        CheckerTree::BodyCheckRegex(check) => {
            lemma_weight_split(
                rest,
                check.empty_ok == MatchEmpty::Matched,
                *check.matched,
                check.empty_ok == MatchEmpty::NotMatched,
                *check.not_matched,
                (mails, mails),
            );
            assert forall|bodies: Seq<FetchedBody>|
                weight(
                    #[trigger] fetch_step_of(
                        Agenda { noop: agenda.noop, pending: rest },
                        BodyFetchView { uids: joined(uids_of(mails)), check, mails },
                        bodies,
                    ).0.pending,
                ) < weight(agenda.pending) by {
                match body_split(check.regex@, bodies, mails) {
                    Err(e) => {},
                    Ok(sides) => {
                        lemma_weight_split(
                            rest,
                            check.empty_ok == MatchEmpty::Matched,
                            *check.matched,
                            check.empty_ok == MatchEmpty::NotMatched,
                            *check.not_matched,
                            sides,
                        );
                    },
                }
            }
        },
    }
}

/// The walk that the machine makes when it is run to its end: step after step, each
/// question to the store answered from `answers`, until nothing is pending.
pub open spec fn machine_walk<'a>(agenda: Agenda<'a>, answers: Answers, used: Used) -> Walk<'a>
    decreases weight(agenda.pending),
    via machine_walk_ends
{
    if agenda.pending.len() == 0 {
        Walk::idle(used)
    } else {
        let (next, report) = step_of(agenda, (answers.clock)(used.clock));
        match report {
            StepView::Search(search) => {
                let (after, split) = search_step_of(next, search, (answers.hits)(used.hits));
                resumed(
                    split,
                    machine_walk(after, answers, Used { hits: used.hits + 1, ..used }),
                ).after(report)
            },
            StepView::Fetch(fetch) => {
                let (after, split) = fetch_step_of(next, fetch, (answers.bodies)(used.bodies));
                resumed(
                    split,
                    machine_walk(after, answers, Used { bodies: used.bodies + 1, ..used }),
                ).after(report)
            },
            _ => resumed(report, machine_walk(next, answers, after_clock(agenda, used))),
        }
    }
}

#[via_fn]
proof fn machine_walk_ends<'a>(agenda: Agenda<'a>, answers: Answers, used: Used) {
    if agenda.pending.len() > 0 {
        lemma_step_decreases(agenda, (answers.clock)(used.clock));
    }
}

/// Run to its end, the machine makes exactly the walk of its pending jobs, whatever
/// the trees, the mails and the answers of the clock and the store are.
pub proof fn machine_makes_the_walk<'a>(agenda: Agenda<'a>, answers: Answers, used: Used)
    ensures
        machine_walk(agenda, answers, used) == walk_pending(
            agenda.pending,
            agenda.noop,
            answers,
            used,
        ),
    decreases weight(agenda.pending),
{
    if agenda.pending.len() > 0 {
        let now = (answers.clock)(used.clock);
        lemma_step_decreases(agenda, now);
        lemma_step_follows_walk(agenda, answers, used);
        let (next, report) = step_of(agenda, now);
        assert(next.noop == agenda.noop);
        match report {
            StepView::Search(search) => {
                let after = search_step_of(next, search, (answers.hits)(used.hits)).0;
                assert(after.noop == agenda.noop);
                machine_makes_the_walk(after, answers, Used { hits: used.hits + 1, ..used });
            },
            StepView::Fetch(fetch) => {
                let after = fetch_step_of(next, fetch, (answers.bodies)(used.bodies)).0;
                assert(after.noop == agenda.noop);
                machine_makes_the_walk(after, answers, Used { bodies: used.bodies + 1, ..used });
            },
            _ => {
                machine_makes_the_walk(next, answers, after_clock(agenda, used));
            },
        }
    }
}

/// A machine started on a tree and a working set makes, run to its end, exactly the
/// walk of that tree over that set.
pub proof fn started_machine_makes_the_walk<'a>(
    tree: CheckerTree,
    mails: Seq<&'a Mail>,
    noop: bool,
    answers: Answers,
    used: Used,
)
    ensures
        machine_walk(Agenda { noop, pending: seq![Job { tree, mails }] }, answers, used) == walk(
            tree,
            mails,
            noop,
            answers,
            used,
        ),
{
    machine_makes_the_walk(Agenda { noop, pending: seq![Job { tree, mails }] }, answers, used);
    lemma_walk_pending_single(tree, mails, noop, answers, used);
}

} // verus!
