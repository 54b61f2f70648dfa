//! Batch identity: each dispatch run is named by its millisecond timestamp
//! and namespaced under the UTC date of the same instant, and every object
//! key and the readiness marker key of the run derive from that pair.

use vstd::prelude::*;

use chrono::Datelike;

use crate::text::{spec_decimal, spec_pad2, u64_to_decimal, u64_to_decimal_pad2};

verus! {

/// The last millisecond of year 9999: the instants this library stamps
/// batches with stay below it.
pub const MAX_DATE_MILLIS: u64 = 253402300799999;

/// The UTC civil date `(year, month, day)` of a Unix timestamp in
/// milliseconds: a function of the milliseconds alone, left uninterpreted
/// because the calendar takes a specification of its own to state.
pub uninterp spec fn civil_of(ms: u64) -> (int, int, int);

/// Relies on chrono's `DateTime::<Utc>::from_timestamp_millis` and its
/// `Datelike` accessors: the civil date depends on the milliseconds alone;
/// any count up to the end of year 9999 is within chrono's documented
/// range, the month ranges over 1..=12, the day over 1..=31, and the year
/// runs from 1970 at timestamp zero to 9999 at that bound.
#[verifier::external_body]
fn civil_from_millis(ms: u64) -> (r: (u32, u32, u32))
    requires
        ms <= MAX_DATE_MILLIS,
    ensures
        (r.0 as int, r.1 as int, r.2 as int) == civil_of(ms),
        1970 <= r.0 <= 9999,
        1 <= r.1 <= 12,
        1 <= r.2 <= 31,
{
    match chrono::DateTime::<chrono::Utc>::from_timestamp_millis(ms as i64) {
        Some(dt) => (dt.year() as u32, dt.month(), dt.day()),
        None => (0, 0, 0),
    }
}

/// Identity of one dispatch run: created once per invocation, immutable,
/// and the namespace of every object the run writes.
pub struct BatchInfo {
    /// The decimal millisecond timestamp of the run's start.
    pub batch_id: String,
    /// The `YYYY/MM/DD` rendering of the same instant's UTC date.
    pub date_prefix: String,
    /// The instant itself, in milliseconds since the Unix epoch.
    pub created_at_millis: u64,
}

/// The `YYYY/MM/DD` date prefix of a civil date.
pub open spec fn spec_date_prefix(y: int, m: int, d: int) -> Seq<char> {
    spec_decimal(y as nat) + seq!['/'] + spec_pad2(m as nat) + seq!['/'] + spec_pad2(d as nat)
}

/// Whether a batch identity is the one derived from the given instant.
pub open spec fn batch_info_of(b: BatchInfo, ms: u64) -> bool {
    &&& b.batch_id@ == spec_decimal(ms as nat)
    &&& b.date_prefix@ == spec_date_prefix(civil_of(ms).0, civil_of(ms).1, civil_of(ms).2)
    &&& b.created_at_millis == ms
}

impl BatchInfo {
    /// Derives the batch identity from one instant: the batch id is the
    /// decimal millisecond timestamp and the date prefix is the UTC date of
    /// the same instant. Fails exactly on instants past year 9999.
    pub fn from_millis(ms: u64) -> (r: Option<BatchInfo>)
        ensures
            match r {
                Some(b) => ms <= MAX_DATE_MILLIS && batch_info_of(b, ms),
                None => ms > MAX_DATE_MILLIS,
            },
    {
        if ms > MAX_DATE_MILLIS {
            return None;
        }
        let (y, m, d) = civil_from_millis(ms);
        let mut prefix = u64_to_decimal(y as u64);
        prefix.append("/");
        let month = u64_to_decimal_pad2(m as u64);
        prefix.append(month.as_str());
        prefix.append("/");
        let day = u64_to_decimal_pad2(d as u64);
        prefix.append(day.as_str());
        let batch_id = u64_to_decimal(ms);
        proof {
            reveal_strlit("/");
            assert("/"@ =~= seq!['/']);
            assert(prefix@ =~= spec_date_prefix(civil_of(ms).0, civil_of(ms).1, civil_of(ms).2));
        }
        Some(BatchInfo { batch_id, date_prefix: prefix, created_at_millis: ms })
    }
}

/// The key one item's object is written under:
/// `batches/{date_prefix}/{batch_id}/{name}`.
pub open spec fn spec_object_key(b: BatchInfo, name: Seq<char>) -> Seq<char> {
    "batches/"@ + b.date_prefix@ + seq!['/'] + b.batch_id@ + seq!['/'] + name
}

/// The key of the batch's readiness sentinel:
/// `batches/{date_prefix}/{batch_id}_READY`.
pub open spec fn spec_marker_key(b: BatchInfo) -> Seq<char> {
    "batches/"@ + b.date_prefix@ + seq!['/'] + b.batch_id@ + "_READY"@
}

/// Builds the object key of one named item of a batch.
pub fn object_key(b: &BatchInfo, name: &str) -> (r: String)
    ensures
        r@ == spec_object_key(*b, name@),
{
    let mut r = String::from_str("batches/");
    r.append(b.date_prefix.as_str());
    r.append("/");
    r.append(b.batch_id.as_str());
    r.append("/");
    r.append(name);
    proof {
        reveal_strlit("/");
        assert("/"@ =~= seq!['/']);
        assert(r@ =~= spec_object_key(*b, name@));
    }
    r
}

/// Builds the readiness marker key of a batch.
pub fn ready_marker_key(b: &BatchInfo) -> (r: String)
    ensures
        r@ == spec_marker_key(*b),
{
    let mut r = String::from_str("batches/");
    r.append(b.date_prefix.as_str());
    r.append("/");
    r.append(b.batch_id.as_str());
    r.append("_READY");
    proof {
        reveal_strlit("/");
        assert("/"@ =~= seq!['/']);
        assert(r@ =~= spec_marker_key(*b));
    }
    r
}

/// Law: the readiness marker key of a batch is never an object key of the
/// same batch — at the first position after the shared prefix an object
/// key holds `'/'` where the marker holds `'_'` — so writing data objects
/// can never create the sentinel by accident.
pub proof fn lemma_marker_key_is_no_object_key(b: BatchInfo, name: Seq<char>)
    ensures
        spec_object_key(b, name) != spec_marker_key(b),
{
    reveal_strlit("_READY");
    let p = "batches/"@ + b.date_prefix@ + seq!['/'] + b.batch_id@;
    assert(spec_object_key(b, name) == p + seq!['/'] + name);
    assert(spec_marker_key(b) == p + "_READY"@);
    assert("_READY"@.len() == 6);
    assert(spec_object_key(b, name)[p.len() as int] == '/');
    assert(spec_marker_key(b)[p.len() as int] == '_');
}

} // verus!
