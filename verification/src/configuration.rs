//! The rules a run is configured with: handlers, their filters and their checker trees.

use crate::pattern::Pattern;
use crate::text::{decimal, decimal_string};
use vstd::prelude::*;
use vstd::string::*;

pub use crate::environment::Environment;

verus! {

/// A named rule set: the filters select the mails it cares about, the checker tree
/// says what to do with the selection.
#[derive(Clone, Debug)]
pub struct Handler {
    pub name: String,
    pub filters: Vec<Filter>,
    pub checker_tree: CheckerTree,
}

/// A decision tree over a working set of mails.
#[derive(Debug)]
pub enum CheckerTree {
    /// Nothing to do.
    Empty,
    /// Perform an action on the whole working set, also when it is empty.
    Action(Action),
    /// Split by filters on the cached headers.
    MatchCheck(MatchCheck),
    /// Split by age.
    DateCheck(DateCheck),
    /// Choose one branch by the size of the working set, which is handed on whole.
    CountCheck(CountCheck),
    /// Split by whether the body holds at least one of the strings.
    BodyCheckAny(BodyCheck),
    /// Split by whether the body holds every one of the strings.
    BodyCheckAll(BodyCheck),
    /// Split by a regular expression on the body text.
    BodyCheckRegex(BodyCheckRegex),
}

/// Which side of a match is still visited when no mail fell on it.
#[derive(Clone, Copy, Debug, PartialEq, Eq, Structural)]
pub enum MatchEmpty {
    /// An empty side is never visited.
    Neither,
    /// The matched side is visited even when empty.
    Matched,
    /// The unmatched side is visited even when empty.
    NotMatched,
}

/// Which side of a date split is still visited when no mail fell on it.
#[derive(Clone, Copy, Debug, PartialEq, Eq, Structural)]
pub enum DateEmpty {
    /// An empty side is never visited.
    Neither,
    /// The older side is visited even when empty.
    OlderThan,
    /// The younger side is visited even when empty.
    YoungerThan,
}

#[derive(Clone, Debug)]
pub struct MatchCheck {
    pub matchers: Vec<Filter>,
    pub empty_ok: MatchEmpty,
    pub matched: Box<CheckerTree>,
    pub not_matched: Box<CheckerTree>,
}

#[derive(Clone, Debug)]
pub struct DateCheck {
    pub days: u8,
    pub empty_ok: DateEmpty,
    pub older_than: Box<CheckerTree>,
    pub younger_than: Box<CheckerTree>,
}

#[derive(Clone, Debug)]
pub struct CountCheck {
    pub count: u8,
    pub greater_than: Box<CheckerTree>,
    pub less_than: Box<CheckerTree>,
    pub equal: Box<CheckerTree>,
}

#[derive(Clone, Debug)]
pub struct BodyCheck {
    pub strings: Vec<String>,
    pub empty_ok: MatchEmpty,
    pub matched: Box<CheckerTree>,
    pub not_matched: Box<CheckerTree>,
}

#[derive(Clone, Debug)]
pub struct BodyCheckRegex {
    pub regex: Pattern,
    pub empty_ok: MatchEmpty,
    pub matched: Box<CheckerTree>,
    pub not_matched: Box<CheckerTree>,
}

/// What to do with the mails that reach the end of a branch.
#[derive(Clone, Copy, Debug, PartialEq, Eq, Structural)]
pub enum Action {
    Alert,
    Delete,
    Success,
    Nothing,
}

/// One condition on a mail: the part must match, or must not.
#[derive(Clone, Debug)]
pub enum Filter {
    Match(MatcherPart),
    UnMatch(MatcherPart),
}

/// A regular expression applied to one header of a mail.
#[derive(Clone, Debug)]
pub enum MatcherPart {
    Subject(Pattern),
    From(Pattern),
}

/// The name of an action.
pub open spec fn action_name(action: Action) -> Seq<char> {
    match action {
        Action::Alert => "Alert"@,
        Action::Delete => "Delete"@,
        Action::Success => "Success"@,
        Action::Nothing => "Nothing"@,
    }
}

/// A short description of the root of a tree: the kind of the node and, where it has
/// one, the action, the number or the regular expression it is made with.
pub open spec fn head_of(tree: CheckerTree) -> Seq<char> {
    match tree {
        CheckerTree::Empty => "Empty"@,
        CheckerTree::Action(action) => "Action "@ + action_name(action),
        CheckerTree::MatchCheck(_) => "MatchCheck"@,
        CheckerTree::DateCheck(check) => "DateCheck "@ + decimal(check.days as nat),
        CheckerTree::CountCheck(check) => "CountCheck "@ + decimal(check.count as nat),
        CheckerTree::BodyCheckAny(_) => "BodyCheckAny"@,
        CheckerTree::BodyCheckAll(_) => "BodyCheckAll"@,
        CheckerTree::BodyCheckRegex(check) => "BodyCheckRegex "@ + check.regex@,
    }
}

impl Action {
    /// The name of the action.
    pub fn name(&self) -> (r: &'static str)
        ensures
            r@ == action_name(*self),
    {
        match self {
            Action::Alert => "Alert",
            Action::Delete => "Delete",
            Action::Success => "Success",
            Action::Nothing => "Nothing",
        }
    }
}

/// Describes the root of a tree in a few words.
pub fn print_head_of(tree: &CheckerTree) -> (r: String)
    ensures
        r@ == head_of(*tree),
{
    match tree {
        CheckerTree::Empty => String::from_str("Empty"),
        CheckerTree::Action(x) => String::from_str("Action ").concat(x.name()),
        CheckerTree::MatchCheck(_) => String::from_str("MatchCheck"),
        CheckerTree::DateCheck(x) => String::from_str("DateCheck ").concat(
            decimal_string(x.days as u32).as_str(),
        ),
        CheckerTree::CountCheck(x) => String::from_str("CountCheck ").concat(
            decimal_string(x.count as u32).as_str(),
        ),
        CheckerTree::BodyCheckAny(_) => String::from_str("BodyCheckAny"),
        CheckerTree::BodyCheckAll(_) => String::from_str("BodyCheckAll"),
        CheckerTree::BodyCheckRegex(x) => String::from_str("BodyCheckRegex ").concat(
            x.regex.as_str(),
        ),
    }
}

/// The copy of a tree is written out by hand, node by node: the tree holds itself
/// through its checks, which a derived copy cannot follow. As of the derived copies of
/// the other rule types, nothing is stated of the result.
impl Clone for CheckerTree {
    fn clone(&self) -> (r: CheckerTree)
        decreases self,
    {
        match self {
            CheckerTree::Empty => CheckerTree::Empty,
            CheckerTree::Action(action) => CheckerTree::Action(*action),
            CheckerTree::MatchCheck(check) => CheckerTree::MatchCheck(
                MatchCheck {
                    matchers: check.matchers.clone(),
                    empty_ok: check.empty_ok,
                    matched: Box::new((&*check.matched).clone()),
                    not_matched: Box::new((&*check.not_matched).clone()),
                },
            ),
            CheckerTree::DateCheck(check) => CheckerTree::DateCheck(
                DateCheck {
                    days: check.days,
                    empty_ok: check.empty_ok,
                    older_than: Box::new((&*check.older_than).clone()),
                    younger_than: Box::new((&*check.younger_than).clone()),
                },
            ),
            CheckerTree::CountCheck(check) => CheckerTree::CountCheck(
                CountCheck {
                    count: check.count,
                    greater_than: Box::new((&*check.greater_than).clone()),
                    less_than: Box::new((&*check.less_than).clone()),
                    equal: Box::new((&*check.equal).clone()),
                },
            ),
            CheckerTree::BodyCheckAny(check) => CheckerTree::BodyCheckAny(
                BodyCheck {
                    strings: check.strings.clone(),
                    empty_ok: check.empty_ok,
                    matched: Box::new((&*check.matched).clone()),
                    not_matched: Box::new((&*check.not_matched).clone()),
                },
            ),
            CheckerTree::BodyCheckAll(check) => CheckerTree::BodyCheckAll(
                BodyCheck {
                    strings: check.strings.clone(),
                    empty_ok: check.empty_ok,
                    matched: Box::new((&*check.matched).clone()),
                    not_matched: Box::new((&*check.not_matched).clone()),
                },
            ),
            CheckerTree::BodyCheckRegex(check) => CheckerTree::BodyCheckRegex(
                BodyCheckRegex {
                    regex: check.regex.clone(),
                    empty_ok: check.empty_ok,
                    matched: Box::new((&*check.matched).clone()),
                    not_matched: Box::new((&*check.not_matched).clone()),
                },
            ),
        }
    }
}

} // verus!
