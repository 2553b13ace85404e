//! Filters on the headers of a mail.

use crate::configuration::{Filter, MatcherPart};
use crate::mail::Mail;
use crate::pattern::regex_is_match;
use vstd::prelude::*;

verus! {

/// Whether the part's regular expression matches the header it is written for.
pub open spec fn part_matches(mp: MatcherPart, mail: Mail) -> bool {
    match mp {
        MatcherPart::From(re) => regex_is_match(re@, mail.from_addr@),
        MatcherPart::Subject(re) => regex_is_match(re@, mail.subject@),
    }
}

/// Whether one filter accepts the mail: a `Match` wants its part to match, an `UnMatch`
/// wants it not to.
pub open spec fn filter_holds(filter: Filter, mail: Mail) -> bool {
    match filter {
        Filter::Match(mp) => part_matches(mp, mail),
        Filter::UnMatch(mp) => !part_matches(mp, mail),
    }
}

/// Whether every filter of the list accepts the mail. The empty list accepts every mail.
pub open spec fn filters_hold(filters: Seq<Filter>, mail: Mail) -> bool {
    forall|i: int| 0 <= i < filters.len() ==> filter_holds(#[trigger] filters[i], mail)
}

/// Tests one regular expression against the header it is written for.
pub fn check_matcher_part(mp: &MatcherPart, mail: &Mail) -> (r: bool)
    ensures
        r == part_matches(*mp, *mail),
{
    match mp {
        MatcherPart::From(regex) => regex.is_match(mail.from_addr.as_str()),
        MatcherPart::Subject(regex) => regex.is_match(mail.subject.as_str()),
    }
}

/// Tests the filters in order and stops at the first that rejects the mail.
pub fn match_mail(matchers: &Vec<Filter>, mail: &Mail) -> (r: bool)
    ensures
        r == filters_hold(matchers@, *mail),
{
    let mut i: usize = 0;
    while i < matchers.len()
        invariant
            i <= matchers.len(),
            forall|j: int| 0 <= j < i ==> filter_holds(#[trigger] matchers@[j], *mail),
        decreases matchers.len() - i,
    {
        let accepted = match &matchers[i] {
            Filter::Match(match_part) => check_matcher_part(match_part, mail),
            Filter::UnMatch(match_part) => !check_matcher_part(match_part, mail),
        };
        if !accepted {
            assert(!filter_holds(matchers@[i as int], *mail));
            return false;
        }
        i += 1;
    }
    true
}

} // verus!
