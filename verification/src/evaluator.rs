//! The walk of a checker tree over a working set of mails.
//!
//! The walk needs the store for body searches, body fetches and deletions, so it is
//! written as a machine: the evaluator keeps the nodes that are still to visit, each
//! with the mails that reached it, and [`Evaluator::step`] visits one node and says
//! what happened. Where a node needs the store, the step hands out a question; the
//! caller asks the store and resumes the walk with the answer.

use crate::action::{effect_of, execute, Effect, EffectView};
use crate::bodies::{body_split, split_by_body_regex, FetchedBody};
use crate::configuration::{
    BodyCheck,
    BodyCheckRegex,
    CheckerTree,
    CountCheck,
    DateCheck,
    DateEmpty,
    MatchEmpty,
};
use crate::dates::{cutoff, cutoff_of, now_local};
use crate::error::CheckError;
use crate::mail::{Mail, MailDate};
use crate::partition::{
    date_sides,
    filter_sides,
    hit_sides,
    split_by_date,
    split_by_filters,
    split_by_hits,
};
use crate::query::{all_of, all_query, any_of, any_query, joined, scoped, scoped_search, uid_list, uids_of};
use std::collections::HashSet;
use vstd::prelude::*;

verus! {

/// A node still to visit, with the working set that reached it.
#[derive(Debug)]
pub struct Frame<'a> {
    pub tree: &'a CheckerTree,
    pub mails: Vec<&'a Mail>,
}

/// The mathematical content of a [`Frame`].
pub ghost struct Job<'a> {
    pub tree: CheckerTree,
    pub mails: Seq<&'a Mail>,
}

impl<'a> View for Frame<'a> {
    type V = Job<'a>;

    open spec fn view(&self) -> Job<'a> {
        Job { tree: *self.tree, mails: self.mails@ }
    }
}

/// The branch a count check takes.
#[derive(Clone, Copy, Debug, PartialEq, Eq, Structural)]
pub enum CountBranch {
    Greater,
    Less,
    Equal,
}

/// A question to the store: which of these mails satisfy the body condition?
#[derive(Debug)]
pub struct BodySearch<'a> {
    /// The search command to send.
    pub query: String,
    /// The node that asked.
    pub check: &'a BodyCheck,
    /// The working set at that node.
    pub mails: Vec<&'a Mail>,
}

/// A question to the store: what are the bodies of these mails?
#[derive(Debug)]
pub struct BodyFetch<'a> {
    /// The identifiers to fetch, as a comma-separated list.
    pub uids: String,
    /// The node that asked.
    pub check: &'a BodyCheckRegex,
    /// The working set at that node.
    pub mails: Vec<&'a Mail>,
}

/// The mathematical content of a [`BodySearch`].
pub ghost struct BodySearchView<'a> {
    pub query: Seq<char>,
    pub check: BodyCheck,
    pub mails: Seq<&'a Mail>,
}

/// The mathematical content of a [`BodyFetch`].
pub ghost struct BodyFetchView<'a> {
    pub uids: Seq<char>,
    pub check: BodyCheckRegex,
    pub mails: Seq<&'a Mail>,
}

impl<'a> View for BodySearch<'a> {
    type V = BodySearchView<'a>;

    open spec fn view(&self) -> BodySearchView<'a> {
        BodySearchView { query: self.query@, check: *self.check, mails: self.mails@ }
    }
}

impl<'a> View for BodyFetch<'a> {
    type V = BodyFetchView<'a>;

    open spec fn view(&self) -> BodyFetchView<'a> {
        BodyFetchView { uids: self.uids@, check: *self.check, mails: self.mails@ }
    }
}

/// What one step of the walk did.
#[derive(Debug)]
pub enum Step<'a> {
    /// No node was left to visit.
    Finished,
    /// An `Empty` node was visited.
    Skipped,
    /// An action node was visited; the effect is the caller's to perform.
    Act(Effect<'a>),
    /// A node split its working set in two sides of these sizes.
    Split { first: usize, second: usize },
    /// A count check handed its whole working set to one branch.
    Counted { branch: CountBranch, size: usize },
    /// A body check without strings was visited; its subtree was dropped.
    NoStrings,
    /// A body check needs a search; resume with [`Evaluator::resume_search`].
    Search(BodySearch<'a>),
    /// A body check needs the bodies; resume with [`Evaluator::resume_fetch`].
    Fetch(BodyFetch<'a>),
    /// The walk failed and was abandoned.
    Failed(CheckError),
}

/// The mathematical content of a [`Step`].
pub ghost enum StepView<'a> {
    Finished,
    Skipped,
    Act(EffectView<'a>),
    Split { first: nat, second: nat },
    Counted { branch: CountBranch, size: nat },
    NoStrings,
    Search(BodySearchView<'a>),
    Fetch(BodyFetchView<'a>),
    Failed(CheckError),
}

impl<'a> View for Step<'a> {
    type V = StepView<'a>;

    open spec fn view(&self) -> StepView<'a> {
        match self {
            Step::Finished => StepView::Finished,
            Step::Skipped => StepView::Skipped,
            Step::Act(effect) => StepView::Act(effect@),
            Step::Split { first, second } => StepView::Split {
                first: *first as nat,
                second: *second as nat,
            },
            Step::Counted { branch, size } => StepView::Counted {
                branch: *branch,
                size: *size as nat,
            },
            Step::NoStrings => StepView::NoStrings,
            Step::Search(search) => StepView::Search(search@),
            Step::Fetch(fetch) => StepView::Fetch(fetch@),
            Step::Failed(e) => StepView::Failed(*e),
        }
    }
}

/// The state of a walk: the dry-run flag and the jobs still to do. The last job of
/// `pending` is the next to be done.
pub ghost struct Agenda<'a> {
    pub noop: bool,
    pub pending: Seq<Job<'a>>,
}

/// The job for one side of a split: none when the side is empty, unless the node
/// forces the visit.
pub open spec fn side_job<'a>(forced: bool, tree: CheckerTree, mails: Seq<&'a Mail>) -> Seq<
    Job<'a>,
> {
    if mails.len() > 0 || forced {
        seq![Job { tree, mails }]
    } else {
        Seq::empty()
    }
}

/// The jobs that a split leaves: the second side below, the first side on top, so
/// that the first side is walked first.
pub open spec fn split_jobs<'a>(
    first_forced: bool,
    first_tree: CheckerTree,
    second_forced: bool,
    second_tree: CheckerTree,
    sides: (Seq<&'a Mail>, Seq<&'a Mail>),
) -> Seq<Job<'a>> {
    side_job(second_forced, second_tree, sides.1) + side_job(first_forced, first_tree, sides.0)
}

/// The jobs that a split on matched and unmatched mails leaves.
pub open spec fn match_jobs<'a>(
    empty_ok: MatchEmpty,
    matched: CheckerTree,
    not_matched: CheckerTree,
    sides: (Seq<&'a Mail>, Seq<&'a Mail>),
) -> Seq<Job<'a>> {
    split_jobs(
        empty_ok == MatchEmpty::Matched,
        matched,
        empty_ok == MatchEmpty::NotMatched,
        not_matched,
        sides,
    )
}

/// The jobs that a split on older and younger mails leaves.
pub open spec fn date_jobs<'a>(check: DateCheck, sides: (Seq<&'a Mail>, Seq<&'a Mail>)) -> Seq<
    Job<'a>,
> {
    split_jobs(
        check.empty_ok == DateEmpty::OlderThan,
        *check.older_than,
        check.empty_ok == DateEmpty::YoungerThan,
        *check.younger_than,
        sides,
    )
}

/// How the size of a working set compares with the count of a check.
pub open spec fn count_branch(size: nat, count: u8) -> CountBranch {
    if size > count {
        CountBranch::Greater
    } else if size < count {
        CountBranch::Less
    } else {
        CountBranch::Equal
    }
}

/// The child of a count check that a working set of this size goes to.
pub open spec fn count_child(check: CountCheck, size: nat) -> CheckerTree {
    match count_branch(size, check.count) {
        CountBranch::Greater => *check.greater_than,
        CountBranch::Less => *check.less_than,
        CountBranch::Equal => *check.equal,
    }
}

/// The step that a split into `sides` makes: the jobs for the sides go on top of
/// `rest`, and the sizes are reported.
pub open spec fn after_split<'a>(
    noop: bool,
    rest: Seq<Job<'a>>,
    jobs: Seq<Job<'a>>,
    sides: (Seq<&'a Mail>, Seq<&'a Mail>),
) -> (Agenda<'a>, StepView<'a>) {
    (
        Agenda { noop, pending: rest + jobs },
        StepView::Split { first: sides.0.len(), second: sides.1.len() },
    )
}

/// The step that a failure makes: nothing is left to do.
pub open spec fn after_failure<'a>(noop: bool, e: CheckError) -> (Agenda<'a>, StepView<'a>) {
    (Agenda { noop, pending: Seq::empty() }, StepView::Failed(e))
}

/// The step of a body check on strings: an empty working set is split at once, into
/// two empty sides; no strings drop the subtree; otherwise the store is asked.
pub open spec fn body_strings_step<'a>(
    noop: bool,
    rest: Seq<Job<'a>>,
    check: BodyCheck,
    mails: Seq<&'a Mail>,
    condition: Seq<char>,
) -> (Agenda<'a>, StepView<'a>) {
    if mails.len() == 0 {
        after_split(
            noop,
            rest,
            match_jobs(check.empty_ok, *check.matched, *check.not_matched, (mails, mails)),
            (mails, mails),
        )
    } else if check.strings.len() == 0 {
        (Agenda { noop, pending: rest }, StepView::NoStrings)
    } else {
        (
            Agenda { noop, pending: rest },
            StepView::Search(
                BodySearchView { query: scoped(uids_of(mails), condition), check, mails },
            ),
        )
    }
}

/// Whether the next step of the agenda reads the clock: it visits a date check with
/// a working set that is not empty.
pub open spec fn reads_clock<'a>(agenda: Agenda<'a>) -> bool {
    agenda.pending.len() > 0 && agenda.pending.last().tree is DateCheck
        && agenda.pending.last().mails.len() > 0
}

/// One step of the walk: what visiting the next job does to the agenda, and what is
/// reported. `now` is the current time, read only by a date check on a working set
/// that is not empty.
pub open spec fn step_of<'a>(agenda: Agenda<'a>, now: Option<MailDate>) -> (
    Agenda<'a>,
    StepView<'a>,
) {
    if agenda.pending.len() == 0 {
        (agenda, StepView::Finished)
    } else {
        let job = agenda.pending.last();
        let rest = agenda.pending.drop_last();
        let noop = agenda.noop;
        match job.tree {
            CheckerTree::Empty => (Agenda { noop, pending: rest }, StepView::Skipped),
            CheckerTree::Action(action) => (
                Agenda { noop, pending: rest },
                StepView::Act(effect_of(action, job.mails, noop)),
            ),
            CheckerTree::MatchCheck(check) => {
                let sides = filter_sides(check.matchers@, job.mails);
                after_split(
                    noop,
                    rest,
                    match_jobs(check.empty_ok, *check.matched, *check.not_matched, sides),
                    sides,
                )
            },
            CheckerTree::DateCheck(check) => {
                if job.mails.len() == 0 {
                    after_split(
                        noop,
                        rest,
                        date_jobs(check, (job.mails, job.mails)),
                        (job.mails, job.mails),
                    )
                } else {
                    match cutoff_of(now, check.days) {
                        Err(e) => after_failure(noop, e),
                        Ok(cut) => {
                            let sides = date_sides(cut, job.mails);
                            after_split(noop, rest, date_jobs(check, sides), sides)
                        },
                    }
                }
            },
            CheckerTree::CountCheck(check) => (
                Agenda {
                    noop,
                    pending: rest.push(
                        Job { tree: count_child(check, job.mails.len()), mails: job.mails },
                    ),
                },
                StepView::Counted {
                    branch: count_branch(job.mails.len(), check.count),
                    size: job.mails.len(),
                },
            ),
            CheckerTree::BodyCheckAny(check) => body_strings_step(
                noop,
                rest,
                check,
                job.mails,
                any_query(check.strings@),
            ),
            CheckerTree::BodyCheckAll(check) => body_strings_step(
                noop,
                rest,
                check,
                job.mails,
                all_query(check.strings@),
            ),
            CheckerTree::BodyCheckRegex(check) => {
                if job.mails.len() == 0 {
                    after_split(
                        noop,
                        rest,
                        match_jobs(
                            check.empty_ok,
                            *check.matched,
                            *check.not_matched,
                            (job.mails, job.mails),
                        ),
                        (job.mails, job.mails),
                    )
                } else {
                    (
                        Agenda { noop, pending: rest },
                        StepView::Fetch(
                            BodyFetchView {
                                uids: joined(uids_of(job.mails)),
                                check,
                                mails: job.mails,
                            },
                        ),
                    )
                }
            },
        }
    }
}

/// The step that the answer to a body search makes: the mails are split into those
/// among the hits and the rest.
pub open spec fn search_step_of<'a>(
    agenda: Agenda<'a>,
    search: BodySearchView<'a>,
    hits: Set<u32>,
) -> (Agenda<'a>, StepView<'a>) {
    let sides = hit_sides(hits, search.mails);
    after_split(
        agenda.noop,
        agenda.pending,
        match_jobs(search.check.empty_ok, *search.check.matched, *search.check.not_matched, sides),
        sides,
    )
}

/// The step that the answer to a body fetch makes: the walk fails where the bodies
/// cannot be read, else the mails are split by the regular expression.
pub open spec fn fetch_step_of<'a>(
    agenda: Agenda<'a>,
    fetch: BodyFetchView<'a>,
    bodies: Seq<FetchedBody>,
) -> (Agenda<'a>, StepView<'a>) {
    match body_split(fetch.check.regex@, bodies, fetch.mails) {
        Err(e) => after_failure(agenda.noop, e),
        Ok(sides) => after_split(
            agenda.noop,
            agenda.pending,
            match_jobs(
                fetch.check.empty_ok,
                *fetch.check.matched,
                *fetch.check.not_matched,
                sides,
            ),
            sides,
        ),
    }
}

/// The views of the frames, in order.
pub open spec fn jobs_of<'a>(frames: Seq<Frame<'a>>) -> Seq<Job<'a>> {
    frames.map_values(|f: Frame<'a>| f@)
}

/// A walk of a checker tree in progress.
#[derive(Debug)]
pub struct Evaluator<'a> {
    noop: bool,
    pending: Vec<Frame<'a>>,
}

impl<'a> View for Evaluator<'a> {
    type V = Agenda<'a>;

    closed spec fn view(&self) -> Agenda<'a> {
        Agenda { noop: self.noop, pending: jobs_of(self.pending@) }
    }
}

impl<'a> Evaluator<'a> {
    /// Starts a walk of `tree` over `mails`. In a dry run (`noop`) no step asks for a
    /// change of the store.
    pub fn new(noop: bool, tree: &'a CheckerTree, mails: Vec<&'a Mail>) -> (r: Evaluator<'a>)
        ensures
            r@ == (Agenda { noop, pending: seq![Job { tree: *tree, mails: mails@ }] }),
    {
        let mut pending: Vec<Frame<'a>> = Vec::new();
        pending.push(Frame { tree, mails });
        let r = Evaluator { noop, pending };
        assert(r@.pending =~= seq![Job { tree: *tree, mails: mails@ }]);
        r
    }

    /// Whether no node is left to visit.
    pub fn is_finished(&self) -> (r: bool)
        ensures
            r == (self@.pending.len() == 0),
    {
        self.pending.len() == 0
    }

    /// Gives up the walk: nothing is left to visit.
    fn abandon(&mut self)
        ensures
            final(self)@ == (Agenda { noop: old(self)@.noop, pending: Seq::empty() }),
    {
        self.pending = Vec::new();
        assert(self@.pending =~= Seq::empty());
    }

    /// Puts the job for one side of a split on top, unless the side is empty and not
    /// forced.
    fn push_side(&mut self, forced: bool, tree: &'a CheckerTree, mails: Vec<&'a Mail>)
        ensures
            final(self)@ == (Agenda {
                noop: old(self)@.noop,
                pending: old(self)@.pending + side_job(forced, *tree, mails@),
            }),
    {
        if mails.len() > 0 || forced {
            let ghost job = Job { tree: *tree, mails: mails@ };
            self.pending.push(Frame { tree, mails });
            assert(self@.pending =~= old(self)@.pending + seq![job]);
        } else {
            assert(self@.pending =~= old(self)@.pending + Seq::<Job<'a>>::empty());
        }
    }

    /// Puts the jobs for the two sides of a split on top and reports their sizes.
    fn push_sides(
        &mut self,
        first_forced: bool,
        first_tree: &'a CheckerTree,
        second_forced: bool,
        second_tree: &'a CheckerTree,
        sides: (Vec<&'a Mail>, Vec<&'a Mail>),
    ) -> (r: Step<'a>)
        ensures
            (final(self)@, r@) == after_split(
                old(self)@.noop,
                old(self)@.pending,
                split_jobs(
                    first_forced,
                    *first_tree,
                    second_forced,
                    *second_tree,
                    (sides.0@, sides.1@),
                ),
                (sides.0@, sides.1@),
            ),
    {
        let first = sides.0.len();
        let second = sides.1.len();
        let ghost below = side_job(second_forced, *second_tree, sides.1@);
        let ghost above = side_job(first_forced, *first_tree, sides.0@);
        self.push_side(second_forced, second_tree, sides.1);
        self.push_side(first_forced, first_tree, sides.0);
        assert((old(self)@.pending + below) + above =~= old(self)@.pending + (below + above));
        Step::Split { first, second }
    }

    /// Whether the next step reads the clock: it visits a date check with a working
    /// set that is not empty. A step that does not read the clock is the same step
    /// whatever the time is.
    fn needs_clock(&self) -> (r: bool)
        ensures
            r == reads_clock(self@),
            !r ==> forall|a: Option<MailDate>, b: Option<MailDate>|
                step_of(self@, a) == step_of(self@, b),
    {
        let n = self.pending.len();
        if n == 0 {
            false
        } else {
            let frame = &self.pending[n - 1];
            assert(self@.pending.last() == frame@);
            match frame.tree {
                CheckerTree::DateCheck(_) => frame.mails.len() > 0,
                _ => false,
            }
        }
    }

    /// Visits the next node, reading the clock where the node is a date check.
    ///
    /// Whatever the clock says, the step is the one that [`step_of`] describes for
    /// that time.
    pub fn step(&mut self) -> (r: Step<'a>)
        ensures
            exists|now: Option<MailDate>| (final(self)@, r@) == step_of(old(self)@, now),
    {
        let now = if self.needs_clock() {
            now_local()
        } else {
            None
        };
        self.step_at(now)
    }

    /// Visits the next node, with `now` as the current time.
    pub fn step_at(&mut self, now: Option<MailDate>) -> (r: Step<'a>)
        ensures
            (final(self)@, r@) == step_of(old(self)@, now),
    {
        let ghost before = self@;
        let frame = match self.pending.pop() {
            None => {
                return Step::Finished;
            },
            Some(frame) => frame,
        };
        proof {
            assert(before.pending.last() == frame@);
            assert(self@.pending =~= before.pending.drop_last());
        }
        let Frame { tree, mails } = frame;
        match tree {
            CheckerTree::Empty => Step::Skipped,
            CheckerTree::Action(action) => Step::Act(execute(action, &mails, self.noop)),
            CheckerTree::MatchCheck(check) => {
                let sides = split_by_filters(&check.matchers, &mails);
                self.push_sides(
                    matches!(check.empty_ok, MatchEmpty::Matched),
                    &check.matched,
                    matches!(check.empty_ok, MatchEmpty::NotMatched),
                    &check.not_matched,
                    sides,
                )
            },
            CheckerTree::DateCheck(check) => {
                if mails.len() == 0 {
                    assert(mails@ =~= Seq::empty());
                    self.push_sides(
                        matches!(check.empty_ok, DateEmpty::OlderThan),
                        &check.older_than,
                        matches!(check.empty_ok, DateEmpty::YoungerThan),
                        &check.younger_than,
                        (Vec::new(), Vec::new()),
                    )
                } else {
                    match cutoff(now, check.days) {
                        Err(e) => {
                            self.abandon();
                            Step::Failed(e)
                        },
                        Ok(cut) => {
                            let sides = split_by_date(&cut, &mails);
                            self.push_sides(
                                matches!(check.empty_ok, DateEmpty::OlderThan),
                                &check.older_than,
                                matches!(check.empty_ok, DateEmpty::YoungerThan),
                                &check.younger_than,
                                sides,
                            )
                        },
                    }
                }
            },
            CheckerTree::CountCheck(check) => {
                let size = mails.len();
                let count: usize = check.count as usize;
                let (branch, child): (CountBranch, &'a CheckerTree) = if size > count {
                    (CountBranch::Greater, &check.greater_than)
                } else if size < count {
                    (CountBranch::Less, &check.less_than)
                } else {
                    (CountBranch::Equal, &check.equal)
                };
                let ghost job = Job { tree: *child, mails: mails@ };
                self.pending.push(Frame { tree: child, mails });
                assert(self@.pending =~= before.pending.drop_last().push(job));
                Step::Counted { branch, size }
            },
            CheckerTree::BodyCheckAny(check) => {
                let condition = any_of(&check.strings);
                self.body_strings_step(check, mails, condition, Ghost(any_query(check.strings@)))
            },
            CheckerTree::BodyCheckAll(check) => {
                let condition = all_of(&check.strings);
                self.body_strings_step(check, mails, condition, Ghost(all_query(check.strings@)))
            },
            CheckerTree::BodyCheckRegex(check) => {
                if mails.len() == 0 {
                    assert(mails@ =~= Seq::empty());
                    self.push_sides(
                        matches!(check.empty_ok, MatchEmpty::Matched),
                        &check.matched,
                        matches!(check.empty_ok, MatchEmpty::NotMatched),
                        &check.not_matched,
                        (Vec::new(), Vec::new()),
                    )
                } else {
                    let uids = uid_list(&mails);
                    Step::Fetch(BodyFetch { uids, check, mails })
                }
            },
        }
    }

    /// The step of a body check on strings, given its condition if it has one.
    fn body_strings_step(
        &mut self,
        check: &'a BodyCheck,
        mails: Vec<&'a Mail>,
        condition: Option<String>,
        Ghost(wanted): Ghost<Seq<char>>,
    ) -> (r: Step<'a>)
        requires
            condition is Some <==> check.strings.len() > 0,
            condition is Some ==> condition.unwrap()@ == wanted,
        ensures
            (final(self)@, r@) == body_strings_step(
                old(self)@.noop,
                old(self)@.pending,
                *check,
                mails@,
                wanted,
            ),
    {
        if mails.len() == 0 {
            assert(mails@ =~= Seq::empty());
            self.push_sides(
                matches!(check.empty_ok, MatchEmpty::Matched),
                &check.matched,
                matches!(check.empty_ok, MatchEmpty::NotMatched),
                &check.not_matched,
                (Vec::new(), Vec::new()),
            )
        } else {
            match condition {
                None => Step::NoStrings,
                Some(condition) => {
                    let query = scoped_search(&mails, condition.as_str());
                    Step::Search(BodySearch { query, check, mails })
                },
            }
        }
    }

    /// Resumes the walk with the identifiers that a body search returned.
    pub fn resume_search(&mut self, search: BodySearch<'a>, hits: &HashSet<u32>) -> (r: Step<'a>)
        ensures
            (final(self)@, r@) == search_step_of(old(self)@, search@, hits@),
    {
        let BodySearch { query: _, check, mails } = search;
        let sides = split_by_hits(hits, &mails);
        self.push_sides(
            matches!(check.empty_ok, MatchEmpty::Matched),
            &check.matched,
            matches!(check.empty_ok, MatchEmpty::NotMatched),
            &check.not_matched,
            sides,
        )
    }

    /// Resumes the walk with the bodies that a body fetch returned.
    pub fn resume_fetch(&mut self, fetch: BodyFetch<'a>, bodies: &Vec<FetchedBody>) -> (r: Step<
        'a,
    >)
        ensures
            (final(self)@, r@) == fetch_step_of(old(self)@, fetch@, bodies@),
    {
        let BodyFetch { uids: _, check, mails } = fetch;
        match split_by_body_regex(&check.regex, bodies, &mails) {
            Err(e) => {
                self.abandon();
                Step::Failed(e)
            },
            Ok(sides) => self.push_sides(
                matches!(check.empty_ok, MatchEmpty::Matched),
                &check.matched,
                matches!(check.empty_ok, MatchEmpty::NotMatched),
                &check.not_matched,
                sides,
            ),
        }
    }
}

} // verus!
