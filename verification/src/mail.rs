//! A mail as the checks see it: identifier, sender, subject and date.

use crate::my_imap_wrapper::Uid;
use vstd::prelude::*;

verus! {

/// A point in time with the offset from UTC it was written with.
///
/// `unix_nanos` counts nanoseconds since the Unix epoch and alone decides which of two
/// dates is earlier; `offset_seconds` only says how the date is displayed.
#[derive(Clone, Copy, Debug, PartialEq, Eq, Structural)]
pub struct MailDate {
    pub unix_nanos: i128,
    pub offset_seconds: i32,
}

impl MailDate {
    /// Whether this date is strictly earlier than `other`.
    pub fn is_before(&self, other: &MailDate) -> (r: bool)
        ensures
            r == (self.unix_nanos < other.unix_nanos),
    {
        self.unix_nanos < other.unix_nanos
    }
}

/// One mail of the store, reduced to what the filters and checks read.
#[derive(Clone, Debug)]
pub struct Mail {
    pub uid: Uid,
    pub subject: String,
    pub from_addr: String,
    pub date: MailDate,
}

/// The mathematical content of a [`Mail`].
pub ghost struct MailView {
    pub uid: Uid,
    pub subject: Seq<char>,
    pub from_addr: Seq<char>,
    pub date: MailDate,
}

impl View for Mail {
    type V = MailView;

    open spec fn view(&self) -> MailView {
        MailView {
            uid: self.uid,
            subject: self.subject@,
            from_addr: self.from_addr@,
            date: self.date,
        }
    }
}

} // verus!
