//! From the raw metadata of a fetched mail to a [`Mail`], or to the reasons why the
//! mail cannot be used.

use crate::dates::{parse_rfc2822, rfc2822_date};
use crate::mail::{Mail, MailDate, MailView};
use crate::my_imap_wrapper::Uid;
use crate::text::decode_text;
use vstd::prelude::*;
use vstd::string::*;
use vstd::utf8::{decode_utf8, valid_utf8};

verus! {

/// One address of an envelope, as the store sent it.
#[derive(Clone, Debug)]
pub struct RawAddress {
    pub name: Option<Vec<u8>>,
    pub mailbox: Option<Vec<u8>>,
    pub host: Option<Vec<u8>>,
}

/// The envelope of one fetched mail, as the store sent it.
#[derive(Clone, Debug)]
pub struct RawEnvelope {
    pub uid: Uid,
    pub from: Option<Vec<RawAddress>>,
    pub subject: Option<Vec<u8>>,
    pub date: Option<Vec<u8>>,
}

/// Why a part of an envelope cannot be used.
#[derive(Clone, Copy, Debug, PartialEq, Eq, Structural)]
pub enum MailProblem {
    NoAddresses,
    NameNotText,
    LocalPartMissing,
    LocalPartNotText,
    HostMissing,
    HostNotText,
    NoSubject,
    SubjectNotText,
    NoDate,
    DateNotText,
    DateFormatting,
}

impl MailProblem {
    /// The problem in words.
    pub fn message(&self) -> (r: &'static str)
        ensures
            r@ == match self {
                MailProblem::NoAddresses => "No addresses found"@,
                MailProblem::NameNotText => "Couldn't convert a name in an Address to UTF-8"@,
                MailProblem::LocalPartMissing => "Address Local Part Missing"@,
                MailProblem::LocalPartNotText
                    => "Couldn't convert a local part ('mailbox') in an Address to UTF-8"@,
                MailProblem::HostMissing => "Address Host Missing"@,
                MailProblem::HostNotText => "Couldn't convert a host in an Address to UTF-8"@,
                MailProblem::NoSubject => "No Subject found"@,
                MailProblem::SubjectNotText => "Mail Subject was not valid utf-8"@,
                MailProblem::NoDate => "No Date found"@,
                MailProblem::DateNotText => "Mail Date was not valid utf-8"@,
                MailProblem::DateFormatting => "Date formatting error"@,
            },
    {
        match self {
            MailProblem::NoAddresses => "No addresses found",
            MailProblem::NameNotText => "Couldn't convert a name in an Address to UTF-8",
            MailProblem::LocalPartMissing => "Address Local Part Missing",
            MailProblem::LocalPartNotText
                => "Couldn't convert a local part ('mailbox') in an Address to UTF-8",
            MailProblem::HostMissing => "Address Host Missing",
            MailProblem::HostNotText => "Couldn't convert a host in an Address to UTF-8",
            MailProblem::NoSubject => "No Subject found",
            MailProblem::SubjectNotText => "Mail Subject was not valid utf-8",
            MailProblem::NoDate => "No Date found",
            MailProblem::DateNotText => "Mail Date was not valid utf-8",
            MailProblem::DateFormatting => "Date formatting error",
        }
    }
}

/// A mail that cannot be used: its identifier and, for each part, what could be
/// salvaged or why not.
#[derive(Debug)]
pub struct BadMail {
    pub uid: Uid,
    pub from_addr: Result<String, MailProblem>,
    pub subject: Result<String, MailProblem>,
    pub date: Result<MailDate, MailProblem>,
}

/// The mathematical content of a [`BadMail`].
pub ghost struct BadMailView {
    pub uid: Uid,
    pub from_addr: Result<Seq<char>, MailProblem>,
    pub subject: Result<Seq<char>, MailProblem>,
    pub date: Result<MailDate, MailProblem>,
}

/// The text of a part, or its problem.
pub open spec fn text_view(part: Result<String, MailProblem>) -> Result<Seq<char>, MailProblem> {
    match part {
        Ok(s) => Ok(s@),
        Err(e) => Err(e),
    }
}

impl View for BadMail {
    type V = BadMailView;

    open spec fn view(&self) -> BadMailView {
        BadMailView {
            uid: self.uid,
            from_addr: text_view(self.from_addr),
            subject: text_view(self.subject),
            date: self.date,
        }
    }
}

/// The text of a field that must be there and must be UTF-8.
pub open spec fn required_text(
    field: Option<Vec<u8>>,
    missing: MailProblem,
    not_text: MailProblem,
) -> Result<Seq<char>, MailProblem> {
    match field {
        None => Err(missing),
        Some(bytes) => if valid_utf8(bytes@) {
            Ok(decode_utf8(bytes@))
        } else {
            Err(not_text)
        },
    }
}

/// The display form of one address: `"name" <mailbox@host>`, with an empty name where
/// the address has none. The name is read first, then the mailbox, then the host; the
/// first part that is missing or not UTF-8 decides the problem.
pub open spec fn address_text(address: RawAddress) -> Result<Seq<char>, MailProblem> {
    let name = match address.name {
        None => Ok(Seq::empty()),
        Some(bytes) => required_text(Some(bytes), MailProblem::NameNotText, MailProblem::NameNotText),
    };
    let mailbox = required_text(
        address.mailbox,
        MailProblem::LocalPartMissing,
        MailProblem::LocalPartNotText,
    );
    let host = required_text(address.host, MailProblem::HostMissing, MailProblem::HostNotText);
    match name {
        Err(e) => Err(e),
        Ok(n) => match mailbox {
            Err(e) => Err(e),
            Ok(m) => match host {
                Err(e) => Err(e),
                Ok(h) => Ok("\""@ + n + "\" <"@ + m + "@"@ + h + ">"@),
            },
        },
    }
}

/// The display forms of the addresses, separated by a comma and a space; the problem
/// of the first address that has one.
pub open spec fn joined_addresses(addresses: Seq<RawAddress>) -> Result<Seq<char>, MailProblem>
    decreases addresses.len(),
{
    if addresses.len() == 0 {
        Ok(Seq::empty())
    } else {
        match joined_addresses(addresses.drop_last()) {
            Err(e) => Err(e),
            Ok(front) => match address_text(addresses.last()) {
                Err(e) => Err(e),
                Ok(text) => Ok(
                    if addresses.len() == 1 {
                        text
                    } else {
                        front + ", "@ + text
                    },
                ),
            },
        }
    }
}

/// The sender of an envelope: the display form of its address list, which must be
/// there and must not be empty.
pub open spec fn sender_text(from: Option<Vec<RawAddress>>) -> Result<Seq<char>, MailProblem> {
    match from {
        None => Err(MailProblem::NoAddresses),
        Some(list) => if list@.len() == 0 {
            Err(MailProblem::NoAddresses)
        } else {
            joined_addresses(list@)
        },
    }
}

/// The date of an envelope: its date header, which must be there, must be UTF-8 and
/// must be a date as RFC 2822 writes it.
pub open spec fn date_value(field: Option<Vec<u8>>) -> Result<MailDate, MailProblem> {
    match required_text(field, MailProblem::NoDate, MailProblem::DateNotText) {
        Err(e) => Err(e),
        Ok(text) => match rfc2822_date(text) {
            None => Err(MailProblem::DateFormatting),
            Some((nanos, offset)) => Ok(
                MailDate { unix_nanos: nanos as i128, offset_seconds: offset as i32 },
            ),
        },
    }
}

/// What an envelope yields: the mail, where sender, subject and date can all be read;
/// otherwise the three parts as far as they can be.
pub open spec fn mail_of(raw: RawEnvelope) -> Result<MailView, BadMailView> {
    let from_addr = sender_text(raw.from);
    let subject = required_text(raw.subject, MailProblem::NoSubject, MailProblem::SubjectNotText);
    let date = date_value(raw.date);
    if from_addr is Ok && subject is Ok && date is Ok {
        Ok(
            MailView {
                uid: raw.uid,
                subject: subject->Ok_0,
                from_addr: from_addr->Ok_0,
                date: date->Ok_0,
            },
        )
    } else {
        Err(BadMailView { uid: raw.uid, from_addr, subject, date })
    }
}

/// Reads a field that must be there and must be UTF-8.
pub fn read_required(field: &Option<Vec<u8>>, missing: MailProblem, not_text: MailProblem) -> (r:
    Result<String, MailProblem>)
    ensures
        text_view(r) == required_text(*field, missing, not_text),
{
    match field {
        None => Err(missing),
        Some(bytes) => match decode_text(bytes.as_slice()) {
            Some(text) => Ok(String::from_str(text)),
            None => Err(not_text),
        },
    }
}

/// Writes one address in its display form.
pub fn address_to_string(address: &RawAddress) -> (r: Result<String, MailProblem>)
    ensures
        text_view(r) == address_text(*address),
{
    let name = match &address.name {
        None => String::new(),
        Some(bytes) => match decode_text(bytes.as_slice()) {
            Some(text) => String::from_str(text),
            None => {
                return Err(MailProblem::NameNotText);
            },
        },
    };
    let localpart = match read_required(
        &address.mailbox,
        MailProblem::LocalPartMissing,
        MailProblem::LocalPartNotText,
    ) {
        Ok(text) => text,
        Err(e) => {
            return Err(e);
        },
    };
    let host = match read_required(
        &address.host,
        MailProblem::HostMissing,
        MailProblem::HostNotText,
    ) {
        Ok(text) => text,
        Err(e) => {
            return Err(e);
        },
    };
    let mut out = String::from_str("\"");
    out.append(name.as_str());
    out.append("\" <");
    out.append(localpart.as_str());
    out.append("@");
    out.append(host.as_str());
    out.append(">");
    Ok(out)
}

/// Writes the sender of an envelope from its address list.
pub fn addresses_to_string(addresses: &Option<Vec<RawAddress>>) -> (r: Result<
    String,
    MailProblem,
>)
    ensures
        text_view(r) == sender_text(*addresses),
{
    let list = match addresses {
        None => {
            return Err(MailProblem::NoAddresses);
        },
        Some(list) => list,
    };
    if list.len() == 0 {
        return Err(MailProblem::NoAddresses);
    }
    let mut out = String::new();
    let mut i: usize = 0;
    assert(list@.take(0) =~= Seq::empty());
    while i < list.len()
        invariant
            i <= list.len(),
            list.len() > 0,
            *addresses == Some(*list),
            joined_addresses(list@.take(i as int)) == Ok::<Seq<char>, MailProblem>(out@),
        decreases list.len() - i,
    {
        proof {
            assert(list@.take(i as int + 1).drop_last() =~= list@.take(i as int));
            assert(list@.take(i as int + 1).last() == list@[i as int]);
        }
        match address_to_string(&list[i]) {
            Err(e) => {
                proof {
                    assert(address_text(list@[i as int]) == Err::<Seq<char>, MailProblem>(e));
                    assert(joined_addresses(list@.take(i as int + 1)) == Err::<
                        Seq<char>,
                        MailProblem,
                    >(e));
                    lemma_joined_addresses_fails(list@, i as int + 1);
                }
                return Err(e);
            },
            Ok(text) => {
                if i > 0 {
                    out.append(", ");
                }
                out.append(text.as_str());
                proof {
                    if i == 0 {
                        assert(out@ =~= text@);
                    }
                }
            },
        }
        i += 1;
    }
    assert(list@.take(i as int) =~= list@);
    Ok(out)
}

/// A problem among the first `n` addresses is the problem of the whole list.
pub proof fn lemma_joined_addresses_fails(addresses: Seq<RawAddress>, n: int)
    requires
        0 <= n <= addresses.len(),
        joined_addresses(addresses.take(n)) is Err,
    ensures
        joined_addresses(addresses) == joined_addresses(addresses.take(n)),
    decreases addresses.len() - n,
{
    if n < addresses.len() {
        assert(addresses.take(n + 1).drop_last() =~= addresses.take(n));
        lemma_joined_addresses_fails(addresses, n + 1);
    } else {
        assert(addresses.take(n) =~= addresses);
    }
}

/// Reads the date header of an envelope.
pub fn read_date(field: &Option<Vec<u8>>) -> (r: Result<MailDate, MailProblem>)
    ensures
        r == date_value(*field),
{
    match read_required(field, MailProblem::NoDate, MailProblem::DateNotText) {
        Err(e) => Err(e),
        Ok(text) => match parse_rfc2822(text.as_str()) {
            None => Err(MailProblem::DateFormatting),
            Some(date) => Ok(date),
        },
    }
}

/// The view of what was read from an envelope.
pub open spec fn outcome_view(r: Result<Mail, BadMail>) -> Result<MailView, BadMailView> {
    match r {
        Ok(mail) => Ok(mail@),
        Err(bad) => Err(bad@),
    }
}

/// Reads the envelope of a fetched mail: the mail, or what to report of a mail that
/// is dropped.
pub fn get_match_data(raw: &RawEnvelope) -> (r: Result<Mail, BadMail>)
    ensures
        outcome_view(r) == mail_of(*raw),
{
    let from_addr_temp = addresses_to_string(&raw.from);
    let subject_temp = read_required(
        &raw.subject,
        MailProblem::NoSubject,
        MailProblem::SubjectNotText,
    );
    let date_temp = read_date(&raw.date);
    match (from_addr_temp, subject_temp, date_temp) {
        (Ok(from_addr), Ok(subject), Ok(date)) => Ok(
            Mail { uid: raw.uid, subject, from_addr, date },
        ),
        (from_addr, subject, date) => Err(BadMail { uid: raw.uid, from_addr, subject, date }),
    }
}

/// The mails that a list of envelopes yields, in order.
pub open spec fn usable_mails(raws: Seq<RawEnvelope>) -> Seq<MailView>
    decreases raws.len(),
{
    if raws.len() == 0 {
        Seq::empty()
    } else {
        match mail_of(raws.last()) {
            Ok(mail) => usable_mails(raws.drop_last()).push(mail),
            Err(_) => usable_mails(raws.drop_last()),
        }
    }
}

/// The mails that a list of envelopes drops, in order.
pub open spec fn dropped_mails(raws: Seq<RawEnvelope>) -> Seq<BadMailView>
    decreases raws.len(),
{
    if raws.len() == 0 {
        Seq::empty()
    } else {
        match mail_of(raws.last()) {
            Ok(_) => dropped_mails(raws.drop_last()),
            Err(bad) => dropped_mails(raws.drop_last()).push(bad),
        }
    }
}

/// The views of the mails, in order.
pub open spec fn mail_views(mails: Seq<Mail>) -> Seq<MailView> {
    mails.map_values(|m: Mail| m@)
}

/// The views of the dropped mails, in order.
pub open spec fn bad_mail_views(mails: Seq<BadMail>) -> Seq<BadMailView> {
    mails.map_values(|m: BadMail| m@)
}

/// Reads the envelopes of a fetch: the mails that can be used, and those to report
/// and drop. Each list keeps the order of the fetch.
pub fn get_mails(raws: &Vec<RawEnvelope>) -> (r: (Vec<Mail>, Vec<BadMail>))
    ensures
        mail_views(r.0@) == usable_mails(raws@),
        bad_mail_views(r.1@) == dropped_mails(raws@),
{
    let mut mails: Vec<Mail> = Vec::new();
    let mut dropped: Vec<BadMail> = Vec::new();
    let mut i: usize = 0;
    assert(raws@.take(0) =~= Seq::empty());
    assert(mail_views(mails@) =~= Seq::empty());
    assert(bad_mail_views(dropped@) =~= Seq::empty());
    while i < raws.len()
        invariant
            i <= raws.len(),
            mail_views(mails@) == usable_mails(raws@.take(i as int)),
            bad_mail_views(dropped@) == dropped_mails(raws@.take(i as int)),
        decreases raws.len() - i,
    {
        proof {
            assert(raws@.take(i as int + 1).drop_last() =~= raws@.take(i as int));
            assert(raws@.take(i as int + 1).last() == raws@[i as int]);
        }
        let ghost mails_before = mails@;
        let ghost dropped_before = dropped@;
        match get_match_data(&raws[i]) {
            Ok(mail) => {
                mails.push(mail);
                assert(mail_views(mails@) =~= mail_views(mails_before).push(mail@));
            },
            Err(bad) => {
                dropped.push(bad);
                assert(bad_mail_views(dropped@) =~= bad_mail_views(dropped_before).push(bad@));
            },
        }
        i += 1;
    }
    assert(raws@.take(i as int) =~= raws@);
    (mails, dropped)
}

} // verus!
