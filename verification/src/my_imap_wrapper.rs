//! Typed identifiers for the two numberings of an IMAP mailbox, so that a message
//! sequence number is never taken for a unique identifier or the other way round.

use crate::text::{decimal, decimal_string};
use vstd::prelude::*;
use vstd::std_specs::convert::FromSpecImpl;

verus! {

/// A message sequence number: the position of a mail in the selected mailbox.
#[derive(Clone, Debug, Hash, PartialEq, Eq, PartialOrd, Ord, Copy, Structural)]
pub struct SeqNum(pub u32);

/// A unique identifier: stable for a mail as long as the mailbox is not rebuilt.
#[derive(Clone, Debug, Hash, PartialEq, Eq, PartialOrd, Ord, Copy, Structural)]
pub struct Uid(pub u32);

impl SeqNum {
    /// The number as a decimal numeral, as it is written in a command.
    pub fn to_string(&self) -> (r: String)
        ensures
            r@ == decimal(self.0 as nat),
    {
        decimal_string(self.0)
    }
}

impl Uid {
    /// The identifier as a decimal numeral, as it is written in a command.
    pub fn to_string(&self) -> (r: String)
        ensures
            r@ == decimal(self.0 as nat),
    {
        decimal_string(self.0)
    }
}

impl From<SeqNum> for u32 {
    fn from(item: SeqNum) -> (r: u32) {
        item.0
    }
}

impl FromSpecImpl<SeqNum> for u32 {
    open spec fn obeys_from_spec() -> bool {
        true
    }

    open spec fn from_spec(item: SeqNum) -> u32 {
        item.0
    }
}

impl From<Uid> for u32 {
    fn from(item: Uid) -> (r: u32) {
        item.0
    }
}

impl FromSpecImpl<Uid> for u32 {
    open spec fn obeys_from_spec() -> bool {
        true
    }

    open spec fn from_spec(item: Uid) -> u32 {
        item.0
    }
}

impl From<u32> for SeqNum {
    fn from(item: u32) -> (r: SeqNum) {
        SeqNum(item)
    }
}

impl FromSpecImpl<u32> for SeqNum {
    open spec fn obeys_from_spec() -> bool {
        true
    }

    open spec fn from_spec(item: u32) -> SeqNum {
        SeqNum(item)
    }
}

impl From<u32> for Uid {
    fn from(item: u32) -> (r: Uid) {
        Uid(item)
    }
}

impl FromSpecImpl<u32> for Uid {
    open spec fn obeys_from_spec() -> bool {
        true
    }

    open spec fn from_spec(item: u32) -> Uid {
        Uid(item)
    }
}

} // verus!
