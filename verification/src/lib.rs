//! Triage of a mail store: select mails by filters, then walk a decision tree
//! that partitions the selection and ends in an action for each group.
//!
//! The rules are a list of handlers (`configuration`): each has filters, which say
//! what mails it cares about (`matching`), and a checker tree, which says what to do
//! with them. A run has two passes (`storage`). The move pass puts the mails that a
//! handler claims into storage. The check pass walks the checker tree of each handler
//! over its stored mails.
//!
//! A walk (`walk`) splits the working set at each node (`partition`, `bodies`) and
//! ends in actions (`action`). Some nodes need the store: a body search (`query`) or
//! a body fetch. The library never talks to the store itself. The walk is made by a
//! machine (`evaluator`) that visits one node per step and hands out a question where
//! a node needs an answer; the caller asks the store and resumes the machine. That the
//! machine makes exactly the walk is proved in `conformance`; what holds of every walk
//! is stated in `laws`.
//!
//! The mails come from the envelopes that the store returns (`envelope`, `mail`).
//! Regular expressions are those of the `regex` crate (`pattern`), dates those of the
//! `time` crate (`dates`); what these crates compute is taken on trust, under names
//! that the contracts use.

pub mod action;
pub mod bodies;
pub mod configuration;
pub mod conformance;
pub mod dates;
pub mod envelope;
pub mod environment;
pub mod error;
pub mod evaluator;
pub mod laws;
pub mod mail;
pub mod matching;
pub mod my_imap_wrapper;
pub mod partition;
pub mod pattern;
pub mod query;
pub mod storage;
pub mod text;
pub mod walk;
