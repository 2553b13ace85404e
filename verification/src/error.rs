//! The failures that end the evaluation of a handler.

use crate::my_imap_wrapper::Uid;
use vstd::prelude::*;

verus! {

/// A failure that aborts the evaluation of a checker tree.
#[derive(Clone, Copy, Debug, PartialEq, Eq, Structural)]
pub enum CheckError {
    /// The current local time could not be determined.
    DateFormatting,
    /// This many days could not be subtracted from the current time.
    DateSubtraction(i64),
    /// The store returned another number of bodies than it was asked for.
    BodyCount { retrieved: usize, requested: usize },
    /// The store returned no body for this mail.
    BodyMissing(Uid),
    /// The store returned an entry without text for this mail.
    BodyAbsent(Uid),
    /// The body of this mail is not valid UTF-8.
    BodyNotText(Uid),
}

} // verus!
