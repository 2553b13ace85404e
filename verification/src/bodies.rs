//! Bodies fetched from the store, and the split of a working set by a regular
//! expression on the body text.

use crate::error::CheckError;
use crate::mail::Mail;
use crate::my_imap_wrapper::Uid;
use crate::partition::{lemma_filter_next, sides};
use crate::pattern::{regex_is_match, Pattern};
use crate::text::decode_text;
use vstd::prelude::*;
use vstd::utf8::{decode_utf8, valid_utf8};

verus! {

/// One entry of a body fetch, as the store returned it.
#[derive(Clone, Debug)]
pub struct FetchedBody {
    /// The identifier the entry is for, if the store named one.
    pub uid: Option<Uid>,
    /// The raw text part, if the store sent one.
    pub text: Option<Vec<u8>>,
}

/// The first entry for `uid`.
pub open spec fn body_entry(bodies: Seq<FetchedBody>, uid: Uid) -> Option<FetchedBody>
    decreases bodies.len(),
{
    if bodies.len() == 0 {
        None
    } else if bodies[0].uid == Some(uid) {
        Some(bodies[0])
    } else {
        body_entry(bodies.drop_first(), uid)
    }
}

/// The body text of the mail `uid`, or why there is none.
pub open spec fn body_text(bodies: Seq<FetchedBody>, uid: Uid) -> Result<Seq<char>, CheckError> {
    match body_entry(bodies, uid) {
        None => Err(CheckError::BodyMissing(uid)),
        Some(entry) => match entry.text {
            None => Err(CheckError::BodyAbsent(uid)),
            Some(bytes) => if valid_utf8(bytes@) {
                Ok(decode_utf8(bytes@))
            } else {
                Err(CheckError::BodyNotText(uid))
            },
        },
    }
}

/// The first failure to read a body among the first `n` mails, in their order.
pub open spec fn first_body_error<'a>(
    bodies: Seq<FetchedBody>,
    mails: Seq<&'a Mail>,
    n: nat,
) -> Option<CheckError>
    decreases n,
{
    if n == 0 {
        None
    } else {
        match first_body_error(bodies, mails, (n - 1) as nat) {
            Some(e) => Some(e),
            None => match body_text(bodies, mails[n - 1].uid) {
                Err(e) => Some(e),
                Ok(_) => None,
            },
        }
    }
}

/// The mails whose body text the regular expression matches.
pub open spec fn body_matches<'a>(source: Seq<char>, bodies: Seq<FetchedBody>) -> spec_fn(
    &'a Mail,
) -> bool {
    |m: &'a Mail|
        match body_text(bodies, m.uid) {
            Ok(text) => regex_is_match(source, text),
            Err(_) => false,
        }
}

/// The outcome of a split by body text: a count that differs from the number of mails
/// fails; so does the first mail, in order, whose body cannot be read; otherwise the
/// mails are split by the regular expression.
pub open spec fn body_split<'a>(
    source: Seq<char>,
    bodies: Seq<FetchedBody>,
    mails: Seq<&'a Mail>,
) -> Result<(Seq<&'a Mail>, Seq<&'a Mail>), CheckError> {
    if bodies.len() != mails.len() {
        Err(CheckError::BodyCount { retrieved: bodies.len() as usize, requested: mails.len() as usize })
    } else {
        match first_body_error(bodies, mails, mails.len()) {
            Some(e) => Err(e),
            None => Ok(sides(mails, body_matches(source, bodies))),
        }
    }
}

/// Finds the first entry for `uid`.
pub fn find_body<'b>(bodies: &'b Vec<FetchedBody>, uid: Uid) -> (r: Option<&'b FetchedBody>)
    ensures
        match r {
            Some(entry) => body_entry(bodies@, uid) == Some(*entry),
            None => body_entry(bodies@, uid) is None,
        },
{
    let mut i: usize = 0;
    assert(bodies@.skip(0) =~= bodies@);
    while i < bodies.len()
        invariant
            i <= bodies.len(),
            body_entry(bodies@, uid) == body_entry(bodies@.skip(i as int), uid),
        decreases bodies.len() - i,
    {
        let entry = &bodies[i];
        assert(bodies@.skip(i as int).drop_first() =~= bodies@.skip(i as int + 1));
        assert(bodies@.skip(i as int)[0] == bodies@[i as int]);
        let found = match entry.uid {
            Some(id) => id.0 == uid.0,
            None => false,
        };
        if found {
            return Some(entry);
        }
        i += 1;
    }
    None
}

/// Reads the body text of one mail out of the fetched entries.
pub fn read_body<'b>(bodies: &'b Vec<FetchedBody>, uid: Uid) -> (r: Result<&'b str, CheckError>)
    ensures
        match r {
            Ok(text) => body_text(bodies@, uid) == Ok::<Seq<char>, CheckError>(text@),
            Err(e) => body_text(bodies@, uid) == Err::<Seq<char>, CheckError>(e),
        },
{
    match find_body(bodies, uid) {
        None => Err(CheckError::BodyMissing(uid)),
        Some(entry) => match &entry.text {
            None => Err(CheckError::BodyAbsent(uid)),
            Some(bytes) => match decode_text(bytes.as_slice()) {
                Some(text) => Ok(text),
                None => Err(CheckError::BodyNotText(uid)),
            },
        },
    }
}

/// Splits the mails by a regular expression on their body text, taken from the entries
/// of one fetch for the whole working set.
pub fn split_by_body_regex<'a>(
    regex: &Pattern,
    bodies: &Vec<FetchedBody>,
    mails: &Vec<&'a Mail>,
) -> (r: Result<(Vec<&'a Mail>, Vec<&'a Mail>), CheckError>)
    ensures
        match r {
            Ok(sides) => body_split(regex@, bodies@, mails@) == Ok::<
                (Seq<&'a Mail>, Seq<&'a Mail>),
                CheckError,
            >((sides.0@, sides.1@)),
            Err(e) => body_split(regex@, bodies@, mails@) == Err::<
                (Seq<&'a Mail>, Seq<&'a Mail>),
                CheckError,
            >(e),
        },
{
    if bodies.len() != mails.len() {
        return Err(CheckError::BodyCount { retrieved: bodies.len(), requested: mails.len() });
    }
    let mut matched: Vec<&'a Mail> = Vec::new();
    let mut not_matched: Vec<&'a Mail> = Vec::new();
    let ghost pred = body_matches(regex@, bodies@);
    let ghost neg = |m: &'a Mail| !pred(m);
    let mut i: usize = 0;
    proof {
        reveal(Seq::filter);
        assert(mails@.take(0) =~= Seq::empty());
    }
    while i < mails.len()
        invariant
            i <= mails.len(),
            bodies.len() == mails.len(),
            pred == body_matches::<'a>(regex@, bodies@),
            neg == |m: &'a Mail| !pred(m),
            first_body_error(bodies@, mails@, i as nat) is None,
            matched@ == mails@.take(i as int).filter(pred),
            not_matched@ == mails@.take(i as int).filter(neg),
        decreases mails.len() - i,
    {
        let mail = mails[i];
        proof {
            lemma_filter_next(mails@, pred, i as int);
            lemma_filter_next(mails@, neg, i as int);
        }
        match read_body(bodies, mail.uid) {
            Err(e) => {
                proof {
                    lemma_first_body_error_stays(bodies@, mails@, (i + 1) as nat, mails@.len());
                }
                return Err(e);
            },
            Ok(text) => {
                if regex.is_match(text) {
                    matched.push(mail);
                } else {
                    not_matched.push(mail);
                }
            },
        }
        i += 1;
    }
    assert(mails@.take(i as int) =~= mails@);
    Ok((matched, not_matched))
}

/// A failure found among the first `n` mails is the failure found among any more.
pub proof fn lemma_first_body_error_stays<'a>(
    bodies: Seq<FetchedBody>,
    mails: Seq<&'a Mail>,
    n: nat,
    m: nat,
)
    requires
        n <= m,
        first_body_error(bodies, mails, n) is Some,
    ensures
        first_body_error(bodies, mails, m) == first_body_error(bodies, mails, n),
    decreases m,
{
    if n < m {
        lemma_first_body_error_stays(bodies, mails, n, (m - 1) as nat);
    }
}

} // verus!
