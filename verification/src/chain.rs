//! What the service knows of the chain: the last irreversible block, the
//! head block and the head block's time, as the upstream's
//! `get_dynamic_global_properties` answers report them.

use vstd::prelude::*;

use crate::json::{JsonModel, JsonValue};

verus! {

/// An instant, as seconds and nanoseconds since 1970-01-01T00:00:00Z.
#[derive(Debug, Clone, Copy, PartialEq, Eq, Structural)]
pub struct BlockTime {
    pub secs: i64,
    pub nanos: u32,
}

/// The instant that an RFC 3339 date and time denotes, as seconds and
/// nanoseconds since the epoch, where the text is one.
pub uninterp spec fn rfc3339_instant(text: Seq<char>) -> Option<(i64, u32)>;

pub open spec fn block_time_of(instant: Option<(i64, u32)>) -> Option<BlockTime> {
    match instant {
        Some(p) => Some(BlockTime { secs: p.0, nanos: p.1 }),
        None => None,
    }
}

/// `chrono::DateTime::parse_from_rfc3339`, the parsed date and time taken
/// as its `timestamp()` and `timestamp_subsec_nanos()`. The result is a
/// function of the text alone; which texts parse and to what instant is
/// not stated here.
#[verifier::external_body]
fn parse_rfc3339(text: &str) -> (r: Option<BlockTime>)
    ensures
        r == block_time_of(rfc3339_instant(text@)),
{
    match chrono::DateTime::parse_from_rfc3339(text) {
        Ok(d) => Some(BlockTime { secs: d.timestamp(), nanos: d.timestamp_subsec_nanos() }),
        Err(_) => None,
    }
}

/// What is known of the chain.
#[derive(Debug, Clone, Copy, PartialEq, Eq, Structural)]
pub struct BlockchainState {
    pub last_irreversible_block_number: u32,
    pub head_block_number: u32,
    pub head_block_time: BlockTime,
}

/// The numbers and time that a `get_dynamic_global_properties` result
/// reports, where it reports all three.
pub open spec fn reported_properties(result: JsonModel) -> Option<(u32, u32, Seq<char>)> {
    match (
        result.index("last_irreversible_block_num"@).as_u64(),
        result.index("head_block_number"@).as_u64(),
        result.index("time"@).as_str(),
    ) {
        (Some(lib), Some(head), Some(time)) => Some((lib as u32, head as u32, time)),
        _ => None,
    }
}

/// The head block time changes: the report is newer than the last
/// irreversible block and names another head block.
pub open spec fn head_changes(s: BlockchainState, new_lib: u32, new_head: u32) -> bool {
    (new_lib > s.last_irreversible_block_number || new_head > s.last_irreversible_block_number)
        && new_head != s.head_block_number
}

/// The state after a report of `new_lib`, `new_head` and `head_time`.
pub open spec fn after_report(s: BlockchainState, new_lib: u32, new_head: u32, head_time: BlockTime) -> BlockchainState {
    if new_lib > s.last_irreversible_block_number || new_head > s.last_irreversible_block_number {
        if new_head != s.head_block_number {
            BlockchainState {
                last_irreversible_block_number: new_lib,
                head_block_number: new_head,
                head_block_time: head_time,
            }
        } else {
            BlockchainState { last_irreversible_block_number: new_lib, ..s }
        }
    } else {
        s
    }
}

/// A report moves the last irreversible block only when it names a newer
/// irreversible block or a head block past it, and moves the head block
/// (and its time) only then too.
pub proof fn lemma_report_moves_forward(s: BlockchainState, new_lib: u32, new_head: u32, head_time: BlockTime)
    ensures
        !(new_lib > s.last_irreversible_block_number || new_head > s.last_irreversible_block_number)
            ==> after_report(s, new_lib, new_head, head_time) == s,
        (new_lib > s.last_irreversible_block_number || new_head > s.last_irreversible_block_number)
            ==> after_report(s, new_lib, new_head, head_time).last_irreversible_block_number
            == new_lib && after_report(s, new_lib, new_head, head_time).head_block_number
            == new_head,
{
}

/// The text of a reported time with the UTC designator appended.
pub open spec fn utc_text(time: Seq<char>) -> Seq<char> {
    time + "Z"@
}

/// What becomes of a report in a `get_dynamic_global_properties` result.
#[derive(Debug, Clone, Copy, PartialEq, Eq, Structural)]
pub enum PropertiesOutcome {
    /// The result lacks one of the three fields; nothing changed.
    Ignored,
    /// The state took the report in.
    Recorded,
    /// The head time was needed and does not parse; nothing changed.
    TimeUnparsable,
}

/// The state after a `get_dynamic_global_properties` result, where the
/// report can be taken in.
pub open spec fn after_properties(s: BlockchainState, result: JsonModel) -> BlockchainState {
    match reported_properties(result) {
        Some((lib, head, time)) => if head_changes(s, lib, head) {
            after_report(s, lib, head, block_time_of(rfc3339_instant(utc_text(time)))->0)
        } else {
            after_report(s, lib, head, s.head_block_time)
        },
        None => s,
    }
}

/// The report can be taken in: where the head time changes, it parses.
pub open spec fn properties_acceptable(s: BlockchainState, result: JsonModel) -> bool {
    match reported_properties(result) {
        Some((lib, head, time)) => head_changes(s, lib, head) ==> rfc3339_instant(utc_text(time))
            is Some,
        None => true,
    }
}

impl BlockchainState {
    /// Whether the report in a `get_dynamic_global_properties` result can be
    /// taken in.
    pub fn properties_are_acceptable(&self, result: &JsonValue) -> (r: bool)
        ensures
            r == properties_acceptable(*self, result@),
    {
        let lib = match result.get("last_irreversible_block_num") {
            Some(v) => v.as_u64(),
            None => None,
        };
        let head = match result.get("head_block_number") {
            Some(v) => v.as_u64(),
            None => None,
        };
        let time = match result.get("time") {
            Some(v) => v.as_str(),
            None => None,
        };
        match (lib, head, time) {
            (Some(lib), Some(head), Some(time)) => {
                let new_lib = lib as u32;
                let new_head = head as u32;
                if (new_lib > self.last_irreversible_block_number || new_head
                    > self.last_irreversible_block_number) && new_head != self.head_block_number {
                    let text = time.to_owned().concat("Z");
                    parse_rfc3339(text.as_str()).is_some()
                } else {
                    true
                }
            },
            _ => true,
        }
    }

    /// Nothing known yet: block numbers 0, head time at the epoch.
    pub fn new() -> (s: BlockchainState)
        ensures
            s.last_irreversible_block_number == 0,
            s.head_block_number == 0,
            s.head_block_time == (BlockTime { secs: 0, nanos: 0 }),
    {
        BlockchainState {
            last_irreversible_block_number: 0,
            head_block_number: 0,
            head_block_time: BlockTime { secs: 0, nanos: 0 },
        }
    }

    /// Takes in a report of the last irreversible block, the head block and
    /// its time. A report that names neither a newer irreversible block nor
    /// a head block past the last irreversible one changes nothing.
    pub fn apply_global_properties(&mut self, new_lib: u32, new_head: u32, new_time: &str)
        requires
            head_changes(*old(self), new_lib, new_head) ==> rfc3339_instant(utc_text(new_time@)) is Some,
        ensures
            *final(self) == after_report(
                *old(self),
                new_lib,
                new_head,
                if head_changes(*old(self), new_lib, new_head) {
                    block_time_of(rfc3339_instant(utc_text(new_time@)))->0
                } else {
                    old(self).head_block_time
                },
            ),
    {
        if new_lib > self.last_irreversible_block_number || new_head
            > self.last_irreversible_block_number {
            self.last_irreversible_block_number = new_lib;
            if new_head != self.head_block_number {
                self.head_block_number = new_head;
                let text = new_time.to_owned().concat("Z");
                let parsed = parse_rfc3339(text.as_str());
                match parsed {
                    Some(t) => {
                        self.head_block_time = t;
                    },
                    None => {},
                }
            }
        }
    }

    /// Takes in the report of a `get_dynamic_global_properties` result.
    /// Where the result lacks a field, or the head time is needed and does
    /// not parse, nothing changes and the outcome says so.
    pub fn observe_global_properties(&mut self, result: &JsonValue) -> (outcome: PropertiesOutcome)
        ensures
            outcome is Ignored <==> reported_properties(result@) is None,
            outcome is TimeUnparsable <==> !properties_acceptable(*old(self), result@),
            outcome is Recorded ==> *final(self) == after_properties(*old(self), result@),
            !(outcome is Recorded) ==> *final(self) == *old(self),
    {
        let lib = match result.get("last_irreversible_block_num") {
            Some(v) => v.as_u64(),
            None => None,
        };
        let head = match result.get("head_block_number") {
            Some(v) => v.as_u64(),
            None => None,
        };
        let time = match result.get("time") {
            Some(v) => v.as_str(),
            None => None,
        };
        match (lib, head, time) {
            (Some(lib), Some(head), Some(time)) => {
                let new_lib = lib as u32;
                let new_head = head as u32;
                if (new_lib > self.last_irreversible_block_number || new_head
                    > self.last_irreversible_block_number) && new_head != self.head_block_number {
                    let text = time.to_owned().concat("Z");
                    if parse_rfc3339(text.as_str()).is_none() {
                        return PropertiesOutcome::TimeUnparsable;
                    }
                }
                self.apply_global_properties(new_lib, new_head, time);
                PropertiesOutcome::Recorded
            },
            _ => PropertiesOutcome::Ignored,
        }
    }
}

} // verus!
