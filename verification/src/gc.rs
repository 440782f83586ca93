//! The version garbage collector of the RocksDB backend: the history
//! watermark it advances every minute.

use vstd::prelude::*;
use vstd::bytes::{spec_u64_to_le_bytes, spec_u64_to_le_bytes_open, spec_u64_to_le_bytes_to_open};

verus! {

/// Nanoseconds per millisecond.
pub const NANOS_PER_MILLI: u64 = 1_000_000u64;

/// The retention period in milliseconds.
pub open spec fn retention_millis(retention_ns: u64) -> u64 {
    (retention_ns / NANOS_PER_MILLI) as u64
}

/// The GC threshold as a hybrid-logical-clock timestamp: the wall-clock
/// milliseconds `now - retention` (not below zero) in the upper 48 bits, a
/// zero logical counter in the lower 16.
pub open spec fn gc_threshold(now_millis: u64, retention_ns: u64) -> u64 {
    let r = retention_millis(retention_ns);
    let t = if now_millis >= r { (now_millis - r) as u64 } else { 0u64 };
    t << 16u64
}

/// Computes the threshold timestamp below which old versions may be dropped.
pub fn gc_threshold_ts(now_millis: u64, retention_ns: u64) -> (r: u64)
    ensures
        r == gc_threshold(now_millis, retention_ns),
{
    let retention = retention_ns / NANOS_PER_MILLI;
    let threshold_millis = now_millis.saturating_sub(retention);
    threshold_millis << 16u64
}

/// The threshold as the little-endian bytes handed to RocksDB's
/// `increase_full_history_ts_low`.
pub fn gc_watermark(now_millis: u64, retention_ns: u64) -> (r: [u8; 8])
    ensures
        r@ == spec_u64_to_le_bytes(gc_threshold(now_millis, retention_ns)),
{
    let ts = gc_threshold_ts(now_millis, retention_ns);
    let r: [u8; 8] = [
        (ts & 0xff) as u8,
        ((ts >> 8u64) & 0xff) as u8,
        ((ts >> 16u64) & 0xff) as u8,
        ((ts >> 24u64) & 0xff) as u8,
        ((ts >> 32u64) & 0xff) as u8,
        ((ts >> 40u64) & 0xff) as u8,
        ((ts >> 48u64) & 0xff) as u8,
        ((ts >> 56u64) & 0xff) as u8,
    ];
    proof {
        spec_u64_to_le_bytes_to_open(ts);
        assert(r@ =~= spec_u64_to_le_bytes_open(ts));
    }
    r
}

/// For wall-clock readings below 2^48 ms (about the year 10889), a later
/// reading never gives a lower threshold: the watermark only moves forward.
pub proof fn lemma_gc_threshold_monotonic(now1: u64, now2: u64, retention_ns: u64)
    requires
        now1 <= now2,
        now2 < 0x1_0000_0000_0000u64,
    ensures
        gc_threshold(now1, retention_ns) <= gc_threshold(now2, retention_ns),
{
    let r = retention_millis(retention_ns);
    let t1: u64 = if now1 >= r { (now1 - r) as u64 } else { 0u64 };
    let t2: u64 = if now2 >= r { (now2 - r) as u64 } else { 0u64 };
    assert(t1 <= t2 && t2 < 0x1_0000_0000_0000u64);
    assert(t1 << 16u64 <= t2 << 16u64) by (bit_vector)
        requires
            t1 <= t2,
            t2 < 0x1_0000_0000_0000u64,
    ;
}

} // verus!

verus! {

/// What the collector does when it wakes up.
pub enum GcAction {
    /// Shutdown was requested: stop the loop.
    Stop,
    /// Advance the history watermark to these bytes.
    Advance([u8; 8]),
}

/// One wake-up of the collector: stop when shutdown was requested,
/// otherwise advance the watermark for the current time.
pub fn gc_tick(shutdown_requested: bool, now_millis: u64, retention_ns: u64) -> (r: GcAction)
    ensures
        shutdown_requested ==> r is Stop,
        !shutdown_requested ==> (r matches GcAction::Advance(b) && b@ == spec_u64_to_le_bytes(gc_threshold(now_millis, retention_ns))),
{
    if shutdown_requested {
        GcAction::Stop
    } else {
        GcAction::Advance(gc_watermark(now_millis, retention_ns))
    }
}

} // verus!
