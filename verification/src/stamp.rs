//! Instants and identifiers: what the clock and the identifier generator hand
//! to the engine.
use vstd::prelude::*;

verus! {

/// An instant: nanoseconds since the Unix epoch, and the offset from UTC, in
/// seconds, that the instant is written with.
#[derive(Clone, Copy, Debug, PartialEq, Eq)]
pub struct Timestamp {
    pub unix_nanos: i128,
    pub offset_seconds: i32,
}

impl Timestamp {
    /// An instant is not before another when it has at least as many
    /// nanoseconds since the epoch; the offset does not count.
    pub open spec fn spec_not_before(self, other: Timestamp) -> bool {
        self.unix_nanos >= other.unix_nanos
    }

    #[verifier::when_used_as_spec(spec_not_before)]
    pub fn not_before(self, other: Timestamp) -> (r: bool)
        ensures
            r == self.spec_not_before(other),
    {
        self.unix_nanos >= other.unix_nanos
    }

    /// The later of two instants; the first where neither is later.
    pub fn latest(self, other: Timestamp) -> (r: Timestamp)
        ensures
            r == (if self.not_before(other) {
                self
            } else {
                other
            }),
            r.not_before(self),
            r.not_before(other),
    {
        if self.not_before(other) {
            self
        } else {
            other
        }
    }
}

/// `time::OffsetDateTime::now_utc`: the wall clock's instant, with the offset
/// of UTC. Nothing is known of the instant itself.
#[verifier::external_body]
fn clock_now() -> (t: Timestamp)
    ensures
        t.offset_seconds == 0,
{
    let now = time::OffsetDateTime::now_utc();
    Timestamp { unix_nanos: now.unix_timestamp_nanos(), offset_seconds: now.offset().whole_seconds() }
}

/// `sonyflake::Sonyflake::new`, then `next_id` on the generator it made: an
/// identifier, or nothing where either reports an error. The generator derives
/// its machine number from a private network address of the host, and reports
/// an error on a host without one.
#[verifier::external_body]
fn generate_id() -> (r: Option<u64>) {
    match sonyflake::Sonyflake::new() {
        Ok(generator) => generator.next_id().ok(),
        Err(_) => None,
    }
}

/// The current instant, in UTC.
pub fn now() -> (t: Timestamp)
    ensures
        t.offset_seconds == 0,
{
    clock_now()
}

/// The identifier that stands for a generated one: the generated identifier,
/// and 0 where the generator had none to give.
pub open spec fn identifier_of(generated: Option<u64>) -> u64 {
    match generated {
        Some(id) => id,
        None => 0,
    }
}

/// Settles on an identifier, given what the generator handed back.
pub fn settle_id(generated: Option<u64>) -> (id: u64)
    ensures
        id == identifier_of(generated),
{
    match generated {
        Some(id) => id,
        None => 0,
    }
}

/// A fresh identifier: time-ordered and unique where the generator works, 0
/// where it cannot give one.
pub fn fresh_id() -> (id: u64) {
    settle_id(generate_id())
}

} // verus!
