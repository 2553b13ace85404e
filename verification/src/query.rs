//! The search commands sent to the store: identifier lists and body conditions.

use crate::mail::Mail;
use crate::my_imap_wrapper::Uid;
use crate::text::{decimal, decimal_string};
use vstd::prelude::*;
use vstd::string::*;

verus! {

/// The numerals of the numbers, separated by commas.
pub open spec fn joined(numbers: Seq<u32>) -> Seq<char>
    decreases numbers.len(),
{
    if numbers.len() == 0 {
        Seq::empty()
    } else if numbers.len() == 1 {
        decimal(numbers[0] as nat)
    } else {
        joined(numbers.drop_last()) + ","@ + decimal(numbers.last() as nat)
    }
}

/// The identifiers of the mails, in order.
pub open spec fn uids_of<'a>(mails: Seq<&'a Mail>) -> Seq<u32> {
    Seq::new(mails.len(), |i: int| mails[i].uid.0)
}

/// The numbers behind the identifiers, in order.
pub open spec fn numbers_of(uids: Seq<Uid>) -> Seq<u32> {
    Seq::new(uids.len(), |i: int| uids[i].0)
}

/// The condition that a body holds `s`.
pub open spec fn body_term(s: Seq<char>) -> Seq<char> {
    "BODY \""@ + s + "\""@
}

/// The condition that a body holds at least one of the strings. Each further string
/// is put in front: `OR (BODY "last") (the condition for the strings before it)`.
/// No strings give no condition, written as the empty text.
pub open spec fn any_query(strings: Seq<String>) -> Seq<char>
    decreases strings.len(),
{
    if strings.len() == 0 {
        Seq::empty()
    } else if strings.len() == 1 {
        body_term(strings[0]@)
    } else {
        "OR (BODY \""@ + strings.last()@ + "\") ("@ + any_query(strings.drop_last()) + ")"@
    }
}

/// The condition that a body holds every one of the strings. Each further string is
/// put in front: `BODY "last" (the condition for the strings before it)`.
/// No strings give no condition, written as the empty text.
pub open spec fn all_query(strings: Seq<String>) -> Seq<char>
    decreases strings.len(),
{
    if strings.len() == 0 {
        Seq::empty()
    } else if strings.len() == 1 {
        body_term(strings[0]@)
    } else {
        "BODY \""@ + strings.last()@ + "\" "@ + all_query(strings.drop_last())
    }
}

/// A search for `condition` among the mails with the given identifiers.
pub open spec fn scoped(numbers: Seq<u32>, condition: Seq<char>) -> Seq<char> {
    "UID "@ + joined(numbers) + " "@ + condition
}

/// Writes the identifiers of the mails as a comma-separated list.
pub fn uid_list<'a>(mails: &Vec<&'a Mail>) -> (r: String)
    ensures
        r@ == joined(uids_of(mails@)),
{
    let mut out = String::new();
    let mut i: usize = 0;
    let ghost all = uids_of(mails@);
    assert(joined(all.take(0)) == Seq::<char>::empty());
    while i < mails.len()
        invariant
            i <= mails.len(),
            all == uids_of(mails@),
            out@ == joined(all.take(i as int)),
        decreases mails.len() - i,
    {
        proof {
            assert(all.take(i as int + 1).drop_last() =~= all.take(i as int));
            assert(all.take(i as int + 1).last() == mails@[i as int].uid.0);
        }
        if i > 0 {
            out.append(",");
        }
        let numeral = decimal_string(mails[i].uid.0);
        out.append(numeral.as_str());
        proof {
            if i == 0 {
                assert(out@ =~= decimal(mails@[0].uid.0 as nat));
                assert(all.take(1)[0] == mails@[0].uid.0);
            }
        }
        i += 1;
    }
    assert(all.take(i as int) =~= all);
    out
}

/// Writes the identifiers as a comma-separated list.
pub fn uid_list_of(uids: &Vec<Uid>) -> (r: String)
    ensures
        r@ == joined(numbers_of(uids@)),
{
    let mut out = String::new();
    let mut i: usize = 0;
    let ghost all = numbers_of(uids@);
    assert(joined(all.take(0)) == Seq::<char>::empty());
    while i < uids.len()
        invariant
            i <= uids.len(),
            all == numbers_of(uids@),
            out@ == joined(all.take(i as int)),
        decreases uids.len() - i,
    {
        proof {
            assert(all.take(i as int + 1).drop_last() =~= all.take(i as int));
            assert(all.take(i as int + 1).last() == uids@[i as int].0);
        }
        if i > 0 {
            out.append(",");
        }
        let numeral = decimal_string(uids[i].0);
        out.append(numeral.as_str());
        proof {
            if i == 0 {
                assert(out@ =~= decimal(uids@[0].0 as nat));
                assert(all.take(1)[0] == uids@[0].0);
            }
        }
        i += 1;
    }
    assert(all.take(i as int) =~= all);
    out
}

/// Writes the condition that a body holds at least one of the strings; `None` when
/// there is no string to look for.
pub fn any_of(strings: &Vec<String>) -> (r: Option<String>)
    ensures
        r is Some <==> strings.len() > 0,
        r is Some ==> r.unwrap()@ == any_query(strings@),
{
    if strings.len() == 0 {
        return None;
    }
    let mut acc = String::from_str("BODY \"");
    acc.append(strings[0].as_str());
    acc.append("\"");
    assert(strings@.take(1).len() == 1);
    assert(strings@.take(1)[0] == strings@[0]);
    let mut i: usize = 1;
    while i < strings.len()
        invariant
            1 <= i <= strings.len(),
            acc@ == any_query(strings@.take(i as int)),
        decreases strings.len() - i,
    {
        proof {
            assert(strings@.take(i as int + 1).drop_last() =~= strings@.take(i as int));
            assert(strings@.take(i as int + 1).last() == strings@[i as int]);
        }
        let mut next = String::from_str("OR (BODY \"");
        next.append(strings[i].as_str());
        next.append("\") (");
        next.append(acc.as_str());
        next.append(")");
        acc = next;
        i += 1;
    }
    assert(strings@.take(i as int) =~= strings@);
    Some(acc)
}

/// Writes the condition that a body holds every one of the strings; `None` when there
/// is no string to look for.
pub fn all_of(strings: &Vec<String>) -> (r: Option<String>)
    ensures
        r is Some <==> strings.len() > 0,
        r is Some ==> r.unwrap()@ == all_query(strings@),
{
    if strings.len() == 0 {
        return None;
    }
    let mut acc = String::from_str("BODY \"");
    acc.append(strings[0].as_str());
    acc.append("\"");
    assert(strings@.take(1).len() == 1);
    assert(strings@.take(1)[0] == strings@[0]);
    let mut i: usize = 1;
    while i < strings.len()
        invariant
            1 <= i <= strings.len(),
            acc@ == all_query(strings@.take(i as int)),
        decreases strings.len() - i,
    {
        proof {
            assert(strings@.take(i as int + 1).drop_last() =~= strings@.take(i as int));
            assert(strings@.take(i as int + 1).last() == strings@[i as int]);
        }
        let mut next = String::from_str("BODY \"");
        next.append(strings[i].as_str());
        next.append("\" ");
        next.append(acc.as_str());
        acc = next;
        i += 1;
    }
    assert(strings@.take(i as int) =~= strings@);
    Some(acc)
}

/// Writes a search for `condition` among the given mails.
pub fn scoped_search<'a>(mails: &Vec<&'a Mail>, condition: &str) -> (r: String)
    ensures
        r@ == scoped(uids_of(mails@), condition@),
{
    let mut out = String::from_str("UID ");
    let list = uid_list(mails);
    out.append(list.as_str());
    out.append(" ");
    out.append(condition);
    out
}

} // verus!
