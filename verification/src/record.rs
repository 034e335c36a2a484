//! The timestamped change record that peers will exchange.

use vstd::prelude::*;

verus! {

/// A set of changes, stamped with the time at which it was made.
///
/// Only the timestamp is ever set here; every other field stays at the
/// default of its type until a protocol layer fills it in.
#[derive(Clone, Debug, PartialEq, Eq)]
pub struct ChangeRecord {
    /// When the changes were made.
    pub timestamp: u64,
    /// Timestamp of the first record of the chain this one belongs to.
    pub chain_start: u64,
    /// Identifies the writer of the chain.
    pub medallion: u64,
    /// Timestamp of the record before this one in its chain.
    pub previous_timestamp: u64,
    /// Free-form note on the changes.
    pub comment: String,
}

/// A change record as contracts see it: the numbers as they are, the note as
/// a sequence of characters.
pub struct ChangeRecordView {
    pub timestamp: u64,
    pub chain_start: u64,
    pub medallion: u64,
    pub previous_timestamp: u64,
    pub comment: Seq<char>,
}

impl ChangeRecordView {
    /// The record that carries `timestamp` and nothing else: every other
    /// number is zero and the note is empty.
    pub open spec fn stamped(timestamp: u64) -> ChangeRecordView {
        ChangeRecordView {
            timestamp,
            chain_start: 0,
            medallion: 0,
            previous_timestamp: 0,
            comment: Seq::empty(),
        }
    }
}

impl View for ChangeRecord {
    type V = ChangeRecordView;

    open spec fn view(&self) -> ChangeRecordView {
        ChangeRecordView {
            timestamp: self.timestamp,
            chain_start: self.chain_start,
            medallion: self.medallion,
            previous_timestamp: self.previous_timestamp,
            comment: self.comment@,
        }
    }
}

impl ChangeRecord {
    /// A record with the given timestamp and every other field at its
    /// default. Any timestamp is accepted.
    pub fn with_timestamp(timestamp: u64) -> (record: ChangeRecord)
        ensures
            record@ == ChangeRecordView::stamped(timestamp),
    {
        ChangeRecord {
            timestamp,
            chain_start: 0,
            medallion: 0,
            previous_timestamp: 0,
            comment: String::new(),
        }
    }
}

impl Default for ChangeRecord {
    /// The record with every field at its default, the timestamp included.
    fn default() -> (record: ChangeRecord)
        ensures
            record@ == ChangeRecordView::stamped(0),
    {
        ChangeRecord::with_timestamp(0)
    }
}

} // verus!
