//! The two passes over the store: moving the mails that a handler claims into
//! storage, and checking the stored mails of each handler.

use crate::configuration::{CheckerTree, Environment, Handler};
use crate::dates::{cutoff, cutoff_of, format_date, formatted_date, now_local};
use crate::error::CheckError;
use crate::evaluator::{Agenda, Evaluator, Job};
use crate::mail::{Mail, MailDate};
use crate::matching::{filters_hold, match_mail};
use crate::partition::{chosen, filter_sides, lemma_filter_next, split_by_filters};
use crate::query::{joined, uid_list, uids_of};
use vstd::prelude::*;
use vstd::string::*;

verus! {

/// How many days back the move pass looks for mails.
pub const DAYS_BACK: u8 = 60;

/// The search of the move pass: everything since a fixed day in the test environment,
/// else everything since [`DAYS_BACK`] days before `now`.
pub open spec fn selection_query_of(environment: Environment, now: Option<MailDate>) -> Result<
    Seq<char>,
    CheckError,
> {
    match environment {
        Environment::Test => Ok("SINCE 01-Jan-2000"@),
        Environment::Prod => match cutoff_of(now, DAYS_BACK) {
            Err(e) => Err(e),
            Ok(since) => match formatted_date(
                since.unix_nanos as int,
                since.offset_seconds as int,
                "SINCE [day]-[month repr:short]-[year]"@,
            ) {
                None => Err(CheckError::DateFormatting),
                Some(text) => Ok(text),
            },
        },
    }
}

/// The text of a query, or its failure.
pub open spec fn query_view(r: Result<String, CheckError>) -> Result<Seq<char>, CheckError> {
    match r {
        Ok(s) => Ok(s@),
        Err(e) => Err(e),
    }
}

/// Writes the search of the move pass, with `now` as the current time.
pub fn selection_query_at(environment: &Environment, now: Option<MailDate>) -> (r: Result<
    String,
    CheckError,
>)
    ensures
        query_view(r) == selection_query_of(*environment, now),
{
    match environment {
        Environment::Test => Ok(String::from_str("SINCE 01-Jan-2000")),
        Environment::Prod => match cutoff(now, DAYS_BACK) {
            Err(e) => Err(e),
            Ok(since) => match format_date(&since, "SINCE [day]-[month repr:short]-[year]") {
                None => Err(CheckError::DateFormatting),
                Some(text) => Ok(text),
            },
        },
    }
}

/// Writes the search of the move pass, reading the clock outside the test
/// environment. Whatever the clock says, the result is the one that
/// [`selection_query_of`] describes for that time.
pub fn selection_query(environment: &Environment) -> (r: Result<String, CheckError>)
    ensures
        exists|now: Option<MailDate>| query_view(r) == selection_query_of(*environment, now),
{
    let now = match environment {
        Environment::Test => None,
        Environment::Prod => now_local(),
    };
    selection_query_at(environment, now)
}

/// Whether the handler claims the mail for storage: it has filters, and all of them
/// accept the mail. A handler without filters claims nothing in the move pass, though
/// in the check pass it accepts every mail.
pub open spec fn claims(handler: Handler, mail: Mail) -> bool {
    handler.filters@.len() > 0 && filters_hold(handler.filters@, mail)
}

/// Whether some handler claims the mail for storage.
pub open spec fn wanted_by(handlers: Seq<Handler>, mail: Mail) -> bool {
    exists|i: int| 0 <= i < handlers.len() && claims(#[trigger] handlers[i], mail)
}

/// The mails that some handler claims for storage.
pub open spec fn to_store<'a>(handlers: Seq<Handler>) -> spec_fn(&'a Mail) -> bool {
    |m: &'a Mail| wanted_by(handlers, *m)
}

/// Tests whether some handler claims the mail, stopping at the first that does.
pub fn is_wanted(handlers: &Vec<Handler>, mail: &Mail) -> (r: bool)
    ensures
        r == wanted_by(handlers@, *mail),
{
    let mut i: usize = 0;
    while i < handlers.len()
        invariant
            i <= handlers.len(),
            forall|j: int| 0 <= j < i ==> !claims(#[trigger] handlers@[j], *mail),
        decreases handlers.len() - i,
    {
        let handler = &handlers[i];
        if handler.filters.len() > 0 && match_mail(&handler.filters, mail) {
            assert(claims(handlers@[i as int], *mail));
            return true;
        }
        i += 1;
    }
    false
}

/// The mails to move to storage: those that some handler claims, in their order.
pub fn storables<'a>(handlers: &Vec<Handler>, mails: &Vec<&'a Mail>) -> (r: Vec<&'a Mail>)
    ensures
        r@ == chosen(mails@, to_store(handlers@)),
{
    let mut out: Vec<&'a Mail> = Vec::new();
    let ghost pred = to_store(handlers@);
    let mut i: usize = 0;
    proof {
        reveal(Seq::filter);
        assert(mails@.take(0) =~= Seq::empty());
    }
    while i < mails.len()
        invariant
            i <= mails.len(),
            pred == to_store::<'a>(handlers@),
            out@ == mails@.take(i as int).filter(pred),
        decreases mails.len() - i,
    {
        let mail = mails[i];
        proof {
            lemma_filter_next(mails@, pred, i as int);
        }
        if is_wanted(handlers, mail) {
            out.push(mail);
        }
        i += 1;
    }
    assert(mails@.take(i as int) =~= mails@);
    out
}

/// What the move pass has to do.
#[derive(Debug)]
pub enum MovePlan {
    /// No mail is claimed: nothing to move.
    Nothing,
    /// Dry run: this many mails would have been moved.
    Withheld { count: usize },
    /// Move the mails with these identifiers to storage, in one command.
    Move { count: usize, uids: String },
}

/// The mathematical content of a [`MovePlan`].
pub ghost enum MovePlanView {
    Nothing,
    Withheld { count: nat },
    Move { count: nat, uids: Seq<char> },
}

impl View for MovePlan {
    type V = MovePlanView;

    open spec fn view(&self) -> MovePlanView {
        match self {
            MovePlan::Nothing => MovePlanView::Nothing,
            MovePlan::Withheld { count } => MovePlanView::Withheld { count: *count as nat },
            MovePlan::Move { count, uids } => MovePlanView::Move {
                count: *count as nat,
                uids: uids@,
            },
        }
    }
}

/// The plan of the move pass for the fetched mails: nothing where no mail is claimed;
/// in a dry run only the number of claimed mails; else the move of all claimed mails.
pub open spec fn move_plan_of<'a>(handlers: Seq<Handler>, mails: Seq<&'a Mail>, noop: bool) -> MovePlanView {
    let claimed = chosen(mails, to_store(handlers));
    if claimed.len() == 0 {
        MovePlanView::Nothing
    } else if noop {
        MovePlanView::Withheld { count: claimed.len() }
    } else {
        MovePlanView::Move { count: claimed.len(), uids: joined(uids_of(claimed)) }
    }
}

/// Plans the move pass for the fetched mails.
pub fn move_to_storage<'a>(handlers: &Vec<Handler>, mails: &Vec<&'a Mail>, noop: bool) -> (r:
    MovePlan)
    ensures
        r@ == move_plan_of(handlers@, mails@, noop),
{
    let claimed = storables(handlers, mails);
    if claimed.len() == 0 {
        MovePlan::Nothing
    } else if noop {
        MovePlan::Withheld { count: claimed.len() }
    } else {
        MovePlan::Move { count: claimed.len(), uids: uid_list(&claimed) }
    }
}

/// Starts the check pass of one handler over the stored mails: no walk for a handler
/// without a checker tree; else a walk of its tree over the mails that its filters
/// accept, which are all mails where it has no filter.
pub fn check_storage<'a>(noop: bool, handler: &'a Handler, mails: &Vec<&'a Mail>) -> (r: Option<
    Evaluator<'a>,
>)
    ensures
        r is None <==> handler.checker_tree is Empty,
        r is Some ==> r.unwrap()@ == (Agenda {
            noop,
            pending: seq![
                Job {
                    tree: handler.checker_tree,
                    mails: filter_sides(handler.filters@, mails@).0,
                },
            ],
        }),
{
    match &handler.checker_tree {
        CheckerTree::Empty => None,
        tree => {
            let checkables = split_by_filters(&handler.filters, mails).0;
            Some(Evaluator::new(noop, tree, checkables))
        },
    }
}

} // verus!
