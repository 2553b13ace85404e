//! Splitting a working set in two by a predicate, keeping the order of the mails.

use crate::configuration::Filter;
use crate::mail::{Mail, MailDate};
use crate::matching::{filters_hold, match_mail};
use std::collections::HashSet;
use vstd::prelude::*;

verus! {

/// The items of `s` that satisfy `pred`, in their order in `s`.
pub open spec fn chosen<A>(s: Seq<A>, pred: spec_fn(A) -> bool) -> Seq<A> {
    s.filter(pred)
}

/// The items of `s` that do not satisfy `pred`, in their order in `s`.
pub open spec fn others<A>(s: Seq<A>, pred: spec_fn(A) -> bool) -> Seq<A> {
    s.filter(|a: A| !pred(a))
}

/// Taking one more item of `s` adds it to the filtered prefix exactly when it satisfies
/// `pred`.
pub proof fn lemma_filter_next<A>(s: Seq<A>, pred: spec_fn(A) -> bool, i: int)
    requires
        0 <= i < s.len(),
    ensures
        s.take(i + 1).filter(pred) == if pred(s[i]) {
            s.take(i).filter(pred).push(s[i])
        } else {
            s.take(i).filter(pred)
        },
{
    reveal(Seq::filter);
    assert(s.take(i + 1).drop_last() =~= s.take(i));
}

/// A split loses nothing, adds nothing and puts no item on both sides: the two sides
/// together hold every item of `s` as often as `s` does, the chosen side only items
/// that satisfy `pred`, the other side only items that do not.
pub proof fn lemma_split_total_disjoint<A>(s: Seq<A>, pred: spec_fn(A) -> bool)
    ensures
        chosen(s, pred).len() + others(s, pred).len() == s.len(),
        s.to_multiset() =~= chosen(s, pred).to_multiset().add(others(s, pred).to_multiset()),
        forall|a: A| #[trigger] chosen(s, pred).contains(a) ==> pred(a) && s.contains(a),
        forall|a: A| #[trigger] others(s, pred).contains(a) ==> !pred(a) && s.contains(a),
        forall|a: A| s.contains(a) ==> (#[trigger] chosen(s, pred).contains(a) <==> !others(
            s,
            pred,
        ).contains(a)),
    decreases s.len(),
{
    broadcast use vstd::seq_lib::group_to_multiset_ensures;

    reveal(Seq::filter);
    let neg = |a: A| !pred(a);
    if s.len() == 0 {
        assert(chosen(s, pred) =~= Seq::<A>::empty());
        assert(others(s, pred) =~= Seq::<A>::empty());
    } else {
        let front = s.drop_last();
        let last = s.last();
        lemma_split_total_disjoint(front, pred);
        assert(s =~= front.push(last));
        assert(front.filter(neg) == others(front, pred));
        if pred(last) {
            assert(chosen(s, pred) == chosen(front, pred).push(last));
            assert(others(s, pred) == others(front, pred));
        } else {
            assert(chosen(s, pred) == chosen(front, pred));
            assert(others(s, pred) == others(front, pred).push(last));
        }
        assert forall|a: A| #[trigger] chosen(s, pred).contains(a) implies pred(a) && s.contains(
            a,
        ) by {
            let i = choose|i: int| 0 <= i < chosen(s, pred).len() && chosen(s, pred)[i] == a;
            if i < chosen(front, pred).len() {
                assert(chosen(front, pred).contains(a));
                let j = choose|j: int| 0 <= j < front.len() && front[j] == a;
                assert(s[j] == a);
            } else {
                assert(s[s.len() - 1] == a);
            }
        }
        assert forall|a: A| #[trigger] others(s, pred).contains(a) implies !pred(a) && s.contains(
            a,
        ) by {
            let i = choose|i: int| 0 <= i < others(s, pred).len() && others(s, pred)[i] == a;
            if i < others(front, pred).len() {
                assert(others(front, pred).contains(a));
                let j = choose|j: int| 0 <= j < front.len() && front[j] == a;
                assert(s[j] == a);
            } else {
                assert(s[s.len() - 1] == a);
            }
        }
        assert forall|a: A| s.contains(a) implies (#[trigger] chosen(s, pred).contains(a)
            <==> !others(s, pred).contains(a)) by {
            let j = choose|j: int| 0 <= j < s.len() && s[j] == a;
            if j < front.len() {
                assert(front.contains(a));
                if chosen(front, pred).contains(a) {
                    let i = choose|i: int|
                        0 <= i < chosen(front, pred).len() && chosen(front, pred)[i] == a;
                    assert(chosen(s, pred)[i] == a);
                } else {
                    let i = choose|i: int|
                        0 <= i < others(front, pred).len() && others(front, pred)[i] == a;
                    assert(others(s, pred)[i] == a);
                }
            } else {
                if pred(a) {
                    assert(chosen(s, pred)[chosen(s, pred).len() - 1] == a);
                } else {
                    assert(others(s, pred)[others(s, pred).len() - 1] == a);
                }
            }
        }
    }
}

/// The mails that every filter of the list accepts.
pub open spec fn by_filters<'a>(filters: Seq<Filter>) -> spec_fn(&'a Mail) -> bool {
    |m: &'a Mail| filters_hold(filters, *m)
}

/// The mails dated strictly before the cutoff.
pub open spec fn older_than<'a>(cutoff: MailDate) -> spec_fn(&'a Mail) -> bool {
    |m: &'a Mail| m.date.unix_nanos < cutoff.unix_nanos
}

/// The mails whose identifier is among the hits of a search.
pub open spec fn among<'a>(hits: Set<u32>) -> spec_fn(&'a Mail) -> bool {
    |m: &'a Mail| hits.contains(m.uid.0)
}

/// Both sides of a split by `pred`: the chosen items first.
pub open spec fn sides<A>(s: Seq<A>, pred: spec_fn(A) -> bool) -> (Seq<A>, Seq<A>) {
    (chosen(s, pred), others(s, pred))
}

/// The sides of a split by filters: the mails that every filter accepts, and the rest.
pub open spec fn filter_sides<'a>(filters: Seq<Filter>, mails: Seq<&'a Mail>) -> (
    Seq<&'a Mail>,
    Seq<&'a Mail>,
) {
    sides(mails, by_filters(filters))
}

/// The sides of a split by date: the mails dated strictly before the cutoff, and the
/// rest.
pub open spec fn date_sides<'a>(cutoff: MailDate, mails: Seq<&'a Mail>) -> (
    Seq<&'a Mail>,
    Seq<&'a Mail>,
) {
    sides(mails, older_than(cutoff))
}

/// The sides of a split by a search: the mails among the hits, and the rest.
pub open spec fn hit_sides<'a>(hits: Set<u32>, mails: Seq<&'a Mail>) -> (
    Seq<&'a Mail>,
    Seq<&'a Mail>,
) {
    sides(mails, among(hits))
}

/// Splits the mails into those that the filters accept and the rest.
pub fn split_by_filters<'a>(matchers: &Vec<Filter>, mails: &Vec<&'a Mail>) -> (r: (
    Vec<&'a Mail>,
    Vec<&'a Mail>,
))
    ensures
        (r.0@, r.1@) == filter_sides(matchers@, mails@),
{
    let mut matched: Vec<&'a Mail> = Vec::new();
    let mut not_matched: Vec<&'a Mail> = Vec::new();
    let ghost pred = by_filters(matchers@);
    let ghost neg = |m: &'a Mail| !pred(m);
    let mut i: usize = 0;
    proof {
        reveal(Seq::filter);
        assert(mails@.take(0) =~= Seq::empty());
    }
    while i < mails.len()
        invariant
            i <= mails.len(),
            pred == by_filters::<'a>(matchers@),
            neg == |m: &'a Mail| !pred(m),
            matched@ == mails@.take(i as int).filter(pred),
            not_matched@ == mails@.take(i as int).filter(neg),
        decreases mails.len() - i,
    {
        let mail = mails[i];
        proof {
            lemma_filter_next(mails@, pred, i as int);
            lemma_filter_next(mails@, neg, i as int);
        }
        if match_mail(matchers, mail) {
            matched.push(mail);
        } else {
            not_matched.push(mail);
        }
        i += 1;
    }
    assert(mails@.take(i as int) =~= mails@);
    (matched, not_matched)
}

/// Splits the mails into those dated strictly before the cutoff and the rest: a mail
/// dated exactly at the cutoff counts as younger.
pub fn split_by_date<'a>(cutoff: &MailDate, mails: &Vec<&'a Mail>) -> (r: (
    Vec<&'a Mail>,
    Vec<&'a Mail>,
))
    ensures
        (r.0@, r.1@) == date_sides(*cutoff, mails@),
{
    let mut older: Vec<&'a Mail> = Vec::new();
    let mut younger: Vec<&'a Mail> = Vec::new();
    let ghost pred = older_than(*cutoff);
    let ghost neg = |m: &'a Mail| !pred(m);
    let mut i: usize = 0;
    proof {
        reveal(Seq::filter);
        assert(mails@.take(0) =~= Seq::empty());
    }
    while i < mails.len()
        invariant
            i <= mails.len(),
            pred == older_than::<'a>(*cutoff),
            neg == |m: &'a Mail| !pred(m),
            older@ == mails@.take(i as int).filter(pred),
            younger@ == mails@.take(i as int).filter(neg),
        decreases mails.len() - i,
    {
        let mail = mails[i];
        proof {
            lemma_filter_next(mails@, pred, i as int);
            lemma_filter_next(mails@, neg, i as int);
        }
        if mail.date.is_before(cutoff) {
            older.push(mail);
        } else {
            younger.push(mail);
        }
        i += 1;
    }
    assert(mails@.take(i as int) =~= mails@);
    (older, younger)
}

/// Splits the mails into those whose identifier a search returned and the rest.
pub fn split_by_hits<'a>(hits: &HashSet<u32>, mails: &Vec<&'a Mail>) -> (r: (
    Vec<&'a Mail>,
    Vec<&'a Mail>,
))
    ensures
        (r.0@, r.1@) == hit_sides(hits@, mails@),
{
    broadcast use vstd::std_specs::hash::group_hash_axioms;

    let mut matched: Vec<&'a Mail> = Vec::new();
    let mut not_matched: Vec<&'a Mail> = Vec::new();
    let ghost pred = among(hits@);
    let ghost neg = |m: &'a Mail| !pred(m);
    let mut i: usize = 0;
    proof {
        reveal(Seq::filter);
        assert(mails@.take(0) =~= Seq::empty());
    }
    while i < mails.len()
        invariant
            i <= mails.len(),
            pred == among::<'a>(hits@),
            neg == |m: &'a Mail| !pred(m),
            matched@ == mails@.take(i as int).filter(pred),
            not_matched@ == mails@.take(i as int).filter(neg),
        decreases mails.len() - i,
    {
        let mail = mails[i];
        proof {
            lemma_filter_next(mails@, pred, i as int);
            lemma_filter_next(mails@, neg, i as int);
        }
        let id: u32 = mail.uid.0;
        if hits.contains(&id) {
            matched.push(mail);
        } else {
            not_matched.push(mail);
        }
        i += 1;
    }
    assert(mails@.take(i as int) =~= mails@);
    (matched, not_matched)
}

} // verus!
