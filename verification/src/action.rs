//! What an action does with the mails that reach it.

use crate::configuration::Action;
use crate::mail::Mail;
use crate::query::{joined, uid_list, uids_of};
use vstd::prelude::*;

verus! {

/// An alert names at most this many mails; the count it reports is never capped.
pub const ALERT_DETAILS: usize = 9;

/// What the caller has to do for an action. Only `Delete` changes the store.
#[derive(Debug)]
pub enum Effect<'a> {
    /// Nothing to do: the action was `Nothing`, or a `Delete` met no mail.
    Nothing,
    /// Record that the check passed with this many mails.
    Passed { count: usize },
    /// Dry run: say that an alert for this many mails was held back.
    AlertWithheld { count: usize },
    /// Warn that the check failed for `count` mails, and name the mails in `details`.
    Alert { count: usize, details: Vec<&'a Mail> },
    /// Dry run: say that the mails with these identifiers were not deleted.
    DeleteWithheld { uids: String },
    /// Mark the mails with these identifiers as deleted and expunge them, as one batch.
    Delete { uids: String },
}

/// The mathematical content of an [`Effect`].
pub ghost enum EffectView<'a> {
    Nothing,
    Passed { count: nat },
    AlertWithheld { count: nat },
    Alert { count: nat, details: Seq<&'a Mail> },
    DeleteWithheld { uids: Seq<char> },
    Delete { uids: Seq<char> },
}

impl<'a> View for Effect<'a> {
    type V = EffectView<'a>;

    open spec fn view(&self) -> EffectView<'a> {
        match self {
            Effect::Nothing => EffectView::Nothing,
            Effect::Passed { count } => EffectView::Passed { count: *count as nat },
            Effect::AlertWithheld { count } => EffectView::AlertWithheld { count: *count as nat },
            Effect::Alert { count, details } => EffectView::Alert {
                count: *count as nat,
                details: details@,
            },
            Effect::DeleteWithheld { uids } => EffectView::DeleteWithheld { uids: uids@ },
            Effect::Delete { uids } => EffectView::Delete { uids: uids@ },
        }
    }
}

impl<'a> EffectView<'a> {
    /// Whether performing the effect changes the store.
    pub open spec fn mutates_store(self) -> bool {
        self is Delete
    }
}

/// The effect of an action on a working set.
///
/// `Nothing` has none. `Success` records the size of the set. `Alert` reports the size
/// and names the first mails, at most [`ALERT_DETAILS`]; in a dry run it is held back.
/// `Delete` has no effect on an empty set; otherwise it removes every mail of the set,
/// or, in a dry run, only says which.
pub open spec fn effect_of<'a>(action: Action, mails: Seq<&'a Mail>, noop: bool) -> EffectView<
    'a,
> {
    match action {
        Action::Nothing => EffectView::Nothing,
        Action::Success => EffectView::Passed { count: mails.len() },
        Action::Alert => if noop {
            EffectView::AlertWithheld { count: mails.len() }
        } else {
            EffectView::Alert {
                count: mails.len(),
                details: if mails.len() <= ALERT_DETAILS {
                    mails
                } else {
                    mails.take(ALERT_DETAILS as int)
                },
            }
        },
        Action::Delete => if mails.len() == 0 {
            EffectView::Nothing
        } else if noop {
            EffectView::DeleteWithheld { uids: joined(uids_of(mails)) }
        } else {
            EffectView::Delete { uids: joined(uids_of(mails)) }
        },
    }
}

/// The first mails of the set, at most `limit` of them.
pub fn head<'a>(mails: &Vec<&'a Mail>, limit: usize) -> (r: Vec<&'a Mail>)
    ensures
        r@ == if mails.len() <= limit {
            mails@
        } else {
            mails@.take(limit as int)
        },
{
    let mut out: Vec<&'a Mail> = Vec::new();
    let mut i: usize = 0;
    while i < mails.len() && i < limit
        invariant
            i <= mails.len(),
            i <= limit,
            out@ == mails@.take(i as int),
        decreases mails.len() - i,
    {
        out.push(mails[i]);
        assert(mails@.take(i as int + 1) =~= mails@.take(i as int).push(mails@[i as int]));
        i += 1;
    }
    assert(mails@.take(mails@.len() as int) =~= mails@);
    out
}

/// Works out what an action does with the mails that reached it.
pub fn execute<'a>(action: &Action, mails: &Vec<&'a Mail>, noop: bool) -> (r: Effect<'a>)
    ensures
        r@ == effect_of(*action, mails@, noop),
        noop ==> !r@.mutates_store(),
{
    match action {
        Action::Nothing => Effect::Nothing,
        Action::Success => Effect::Passed { count: mails.len() },
        Action::Alert => {
            if noop {
                Effect::AlertWithheld { count: mails.len() }
            } else {
                Effect::Alert { count: mails.len(), details: head(mails, ALERT_DETAILS) }
            }
        },
        Action::Delete => {
            if mails.len() == 0 {
                Effect::Nothing
            } else {
                let uids = uid_list(mails);
                if noop {
                    Effect::DeleteWithheld { uids }
                } else {
                    Effect::Delete { uids }
                }
            }
        },
    }
}

/// In a dry run no action changes the store, whatever the action and the mails.
pub proof fn dry_run_never_mutates<'a>(action: Action, mails: Seq<&'a Mail>)
    ensures
        !effect_of(action, mails, true).mutates_store(),
{
}

/// Only a `Delete` that meets at least one mail outside a dry run changes the store.
pub proof fn only_delete_mutates<'a>(action: Action, mails: Seq<&'a Mail>, noop: bool)
    ensures
        effect_of(action, mails, noop).mutates_store() <==> (action == Action::Delete
            && mails.len() > 0 && !noop),
{
}

} // verus!
