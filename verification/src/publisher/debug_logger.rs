//! Publishing of events to the log: what is written, and counts of it.
use crate::counters;
use crate::protocol::wire;
use vstd::prelude::*;

verus! {

/// An error of the `serde_json` crate. Nothing is known of what it holds.
#[verifier::external_type_specification]
#[verifier::external_body]
pub struct ExJsonError(serde_json::Error);

/// What `serde_json::to_string` makes of a batch; nothing where it fails.
pub uninterp spec fn batch_json(events: Seq<scry_protocol::QueryEvent>) -> Option<Seq<char>>;

/// `serde_json::to_string` writes a batch as JSON, or fails, as it does on an
/// event from before the Unix epoch. What it does depends on the events alone.
#[verifier::external_body]
fn json_of(events: &Vec<scry_protocol::QueryEvent>) -> (r: Result<String, serde_json::Error>)
    ensures
        r is Ok <==> batch_json(events@) is Some,
        r matches Ok(json) ==> batch_json(events@) == Some(json@),
{
    serde_json::to_string(events)
}

/// Why a batch could not be published.
#[derive(Debug)]
pub enum DebugLoggerError {
    /// It cannot be written as JSON.
    Json(serde_json::Error),
}

/// Counts of published events.
pub struct Counts {
    pub events: u64,
    pub batches: u64,
    pub bytes: u64,
}

impl Counts {
    /// The counts after a batch of `events` events in `bytes` bytes. An empty
    /// batch does not count.
    pub open spec fn after(self, events: u64, bytes: u64) -> Counts {
        if events == 0 {
            self
        } else {
            Counts {
                events: counters::advanced64(self.events, events),
                batches: counters::next64(self.batches),
                bytes: counters::advanced64(self.bytes, bytes),
            }
        }
    }
}

/// Publishes events to the log.
#[derive(Debug)]
pub struct DebugLoggerPublisher {
    total_events: u64,
    total_batches: u64,
    total_bytes: u64,
}

impl DebugLoggerPublisher {
    /// What has been published.
    pub closed spec fn view(&self) -> Counts {
        Counts {
            events: self.total_events,
            batches: self.total_batches,
            bytes: self.total_bytes,
        }
    }

    /// Nothing has been published.
    pub fn new() -> (r: Self)
        ensures
            r@ == (Counts { events: 0, batches: 0, bytes: 0 }),
    {
        DebugLoggerPublisher { total_events: 0, total_batches: 0, total_bytes: 0 }
    }

    /// What has been published: events, batches and bytes.
    pub fn get_metrics(&self) -> (r: (u64, u64, u64))
        ensures
            r == (self@.events, self@.batches, self@.bytes),
    {
        (self.total_events, self.total_batches, self.total_bytes)
    }

    /// Take in a batch. Returns its JSON, which is to be logged; nothing for an
    /// empty batch.
    pub fn publish_batch(&mut self, events: &Vec<scry_protocol::QueryEvent>) -> (r: Result<
        Option<String>,
        DebugLoggerError,
    >)
        ensures
            if events@.len() == 0 {
                r == Ok::<Option<String>, DebugLoggerError>(None) && final(self)@ == old(self)@
            } else {
                match batch_json(events@) {
                    Some(text) => {
                        &&& r matches Ok(Some(json))
                        &&& json@ == text
                        &&& final(self)@ == old(self)@.after(
                            events@.len() as u64,
                            wire::utf8(text).len() as u64,
                        )
                    },
                    None => r is Err && final(self)@ == old(self)@,
                }
            },
    {
        if events.len() == 0 {
            return Ok(None);
        }
        match json_of(events) {
            Ok(json) => {
                let byte_size = json.as_str().as_bytes().len() as u64;
                let _ = self.count_batch(events.len() as u64, byte_size);
                Ok(Some(json))
            },
            Err(e) => Err(DebugLoggerError::Json(e)),
        }
    }

    /// Count a batch of `events` events in `byte_size` bytes. Returns whether it
    /// counts: unless it is empty.
    pub fn count_batch(&mut self, events: u64, byte_size: u64) -> (r: bool)
        ensures
            final(self)@ == old(self)@.after(events, byte_size),
            r == (events > 0),
    {
        if events == 0 {
            return false;
        }
        self.total_events = self.total_events.wrapping_add(events);
        self.total_batches = self.total_batches.wrapping_add(1);
        self.total_bytes = self.total_bytes.wrapping_add(byte_size);
        true
    }
}

impl Default for DebugLoggerPublisher {
    fn default() -> (r: Self)
        ensures
            r@ == (Counts { events: 0, batches: 0, bytes: 0 }),
    {
        DebugLoggerPublisher::new()
    }
}

/// A batch with events counts as one with its events and bytes; an empty batch
/// does not count.
pub proof fn law_batches_are_counted(c: Counts, events: u64, bytes: u64)
    requires
        c.events + events <= u64::MAX,
        c.bytes + bytes <= u64::MAX,
        c.batches < u64::MAX,
    ensures
        c.after(0, bytes) == c,
        events > 0 ==> {
            &&& c.after(events, bytes).events == c.events + events
            &&& c.after(events, bytes).bytes == c.bytes + bytes
            &&& c.after(events, bytes).batches == c.batches + 1
        },
{
}

} // verus!
