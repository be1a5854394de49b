use vstd::prelude::*;
use vstd::layout::size_of;
use crate::error::ChannelError;
use crate::layout::{RingLayout, layout_outcome, layout_fits};
use crate::ring::{HeaderSnapshot, queued_len, spec_queued};

verus! {

/// Parameters for creating a shared-memory channel.
#[derive(Debug, Clone, Copy)]
pub struct ChannelConfig {
    pub capacity: usize,
    pub allow_overwrite: bool,
}

impl ChannelConfig {
    /// A configuration for `capacity` slots that refuses to overwrite unread items.
    pub fn new(capacity: usize) -> (c: Self)
        ensures
            c.capacity == capacity,
            !c.allow_overwrite,
    {
        Self { capacity, allow_overwrite: false }
    }

    /// The same configuration with the overwrite policy set to `allow`.
    pub fn with_overwrite(self, allow: bool) -> (c: Self)
        ensures
            c.capacity == self.capacity,
            c.allow_overwrite == allow,
    {
        Self { capacity: self.capacity, allow_overwrite: allow }
    }
}

/// Where a receiver starts reading when it attaches.
#[derive(Debug, Clone, Copy, PartialEq, Eq, Structural)]
pub enum ReaderStart {
    FromBeginning,
    FromLatest,
}

impl Default for ReaderStart {
    fn default() -> (r: Self)
        ensures
            r == ReaderStart::FromBeginning,
    {
        ReaderStart::FromBeginning
    }
}

/// The state of one shared-memory ring, as `list_shm` reports it.
#[derive(Debug, Clone)]
pub struct ShmInfo {
    pub name: String,
    /// Bytes mapped in all, header and slots.
    pub total_bytes: usize,
    /// How many items the ring holds at most.
    pub capacity: usize,
    /// Bytes of one item.
    pub item_size: usize,
    pub allow_overwrite: bool,
    pub write_pos: u64,
    pub read_pos: u64,
    /// Items queued now.
    pub queued: usize,
    /// Bytes queued now.
    pub used_bytes: usize,
}

/// How long an opener waits for a creator to mark the ring ready, in nanoseconds.
pub const READY_WAIT_TIMEOUT_NANOS: u128 = 5_000_000_000;

/// How many times a blocked sender or receiver spins before it starts sleeping.
pub const SPIN_LIMIT: usize = 10_000;

/// The layout of an existing ring whose header announces `capacity` slots of
/// `item_size` bytes, for items of type `U`: the item sizes must agree.
pub fn layout_from_header<U>(capacity: u64, item_size: u64) -> (r: Result<RingLayout, ChannelError>)
    ensures
        size_of::<U>() != item_size as usize ==> (r matches Err(ChannelError::TypeMismatch {
            expected,
            found,
        }) && expected == size_of::<U>() && found == item_size as usize),
        size_of::<U>() == item_size as usize ==> layout_outcome::<U>(capacity as usize, r),
{
    let capacity = capacity as usize;
    let expected = core::mem::size_of::<U>();
    let found = item_size as usize;
    if expected != found {
        return Err(ChannelError::TypeMismatch { expected, found });
    }
    RingLayout::new::<U>(capacity)
}

/// An existing ring must have the capacity its opener expects.
pub fn check_capacity(expected: usize, found: usize) -> (r: Result<(), ChannelError>)
    ensures
        expected == found ==> r matches Ok(()),
        expected != found ==> (r matches Err(ChannelError::CapacityMismatch { expected: e, found: f })
            && e == expected && f == found),
{
    if found != expected {
        return Err(ChannelError::CapacityMismatch { expected, found });
    }
    Ok(())
}

/// An existing ring must have the overwrite policy its opener asks for.
pub fn check_overwrite(expected: bool, found: bool) -> (r: Result<(), ChannelError>)
    ensures
        expected == found ==> r matches Ok(()),
        expected != found ==> (r matches Err(ChannelError::OverwriteMismatch { expected: e, found: f })
            && e == expected && f == found),
{
    if found != expected {
        return Err(ChannelError::OverwriteMismatch { expected, found });
    }
    Ok(())
}

/// What an opener does while it waits for the ring to become ready.
#[derive(Debug, Clone, Copy, PartialEq, Eq, Structural)]
pub enum ReadyPoll {
    Ready,
    Wait,
    TimedOut,
}

/// One poll of the ready flag after `elapsed_nanos` of waiting.
pub fn ready_poll(ready: bool, elapsed_nanos: u128) -> (p: ReadyPoll)
    ensures
        ready ==> p == ReadyPoll::Ready,
        !ready && elapsed_nanos > READY_WAIT_TIMEOUT_NANOS ==> p == ReadyPoll::TimedOut,
        !ready && elapsed_nanos <= READY_WAIT_TIMEOUT_NANOS ==> p == ReadyPoll::Wait,
{
    if ready {
        ReadyPoll::Ready
    } else if elapsed_nanos > READY_WAIT_TIMEOUT_NANOS {
        ReadyPoll::TimedOut
    } else {
        ReadyPoll::Wait
    }
}

/// What a blocked sender or receiver does while its condition does not hold.
#[derive(Debug, Clone, Copy, PartialEq, Eq, Structural)]
pub enum Backoff {
    /// Spin once more; the spin count becomes `spins`.
    Spin { spins: usize },
    /// Sleep briefly; the spin count stays.
    Sleep,
}

/// Spin up to `SPIN_LIMIT` times, then sleep between checks.
pub fn backoff(spins: usize) -> (b: Backoff)
    ensures
        spins < SPIN_LIMIT ==> b == (Backoff::Spin { spins: (spins + 1) as usize }),
        spins >= SPIN_LIMIT ==> b == Backoff::Sleep,
{
    if spins < SPIN_LIMIT { Backoff::Spin { spins: spins + 1 } } else { Backoff::Sleep }
}

/// `a * b`, or `usize::MAX` when it does not fit.
pub open spec fn spec_saturating_mul(a: usize, b: usize) -> int {
    if a * b > usize::MAX { usize::MAX as int } else { a * b }
}

/// The report for ring `name`, mapped over `total_bytes`, from its header.
/// A ring not yet marked ready, or with a zero capacity or item size, is refused.
pub fn shm_info_from_header(name: String, total_bytes: usize, header: &HeaderSnapshot) -> (r: Result<
    ShmInfo,
    ChannelError,
>)
    ensures
        !header.ready ==> r matches Err(ChannelError::NotInitialized),
        header.ready && (header.capacity as usize == 0 || header.item_size as usize == 0)
            ==> r matches Err(ChannelError::InvalidCapacity),
        header.ready && header.capacity as usize != 0 && header.item_size as usize != 0 ==> match r {
            Ok(info) => {
                let cap = header.capacity as usize;
                let q = spec_queued(header.write, header.read, cap);
                &&& info.name == name
                &&& info.total_bytes == total_bytes
                &&& info.capacity == cap
                &&& info.item_size == header.item_size as usize
                &&& info.allow_overwrite == header.overwrite
                &&& info.write_pos == header.write
                &&& info.read_pos == header.read
                &&& info.queued == q
                &&& info.used_bytes == spec_saturating_mul(q as usize, header.item_size as usize)
            },
            Err(_) => false,
        },
{
    if !header.ready {
        return Err(ChannelError::NotInitialized);
    }
    let capacity = header.capacity as usize;
    let item_size = header.item_size as usize;
    if capacity == 0 || item_size == 0 {
        return Err(ChannelError::InvalidCapacity);
    }
    let queued = queued_len(header.write, header.read, capacity);
    let used_bytes = match queued.checked_mul(item_size) {
        Some(b) => b,
        None => usize::MAX,
    };
    Ok(ShmInfo {
        name,
        total_bytes,
        capacity,
        item_size,
        allow_overwrite: header.overwrite,
        write_pos: header.write,
        read_pos: header.read,
        queued,
        used_bytes,
    })
}

/// Checks an existing ring, from its header, before attaching to it, in this order:
/// the item size must be that of `U` and the ring must have a layout; then, when an
/// expected capacity is given, the capacity must match; then, when an expected overwrite
/// policy is given, the policy must match. The first failing check gives the error.
pub fn attach_checks<U>(
    header: &HeaderSnapshot,
    expected_capacity: Option<usize>,
    expected_overwrite: Option<bool>,
) -> (r: Result<RingLayout, ChannelError>)
    ensures
        ({
            let cap = header.capacity as usize;
            let size_ok = size_of::<U>() == header.item_size as usize;
            let cap_ok = match expected_capacity { Some(c) => c == cap, None => true };
            let ow_ok = match expected_overwrite { Some(o) => o == header.overwrite, None => true };
            &&& !size_ok ==> (match r {
                Err(ChannelError::TypeMismatch { expected, found }) => expected == size_of::<U>()
                    && found == header.item_size as usize,
                _ => false,
            })
            &&& size_ok && !layout_fits::<U>(cap) ==> layout_outcome::<U>(cap, r) && r is Err
            &&& size_ok && layout_fits::<U>(cap) && !cap_ok ==> (match (r, expected_capacity) {
                (Err(ChannelError::CapacityMismatch { expected, found }), Some(c)) => expected == c
                    && found == cap,
                _ => false,
            })
            &&& size_ok && layout_fits::<U>(cap) && cap_ok && !ow_ok ==> (match (r, expected_overwrite) {
                (Err(ChannelError::OverwriteMismatch { expected, found }), Some(o)) => expected == o
                    && found == header.overwrite,
                _ => false,
            })
            &&& size_ok && layout_fits::<U>(cap) && cap_ok && ow_ok ==> r is Ok && layout_outcome::<U>(cap, r)
        }),
{
    let layout = layout_from_header::<U>(header.capacity, header.item_size)?;
    if let Some(c) = expected_capacity {
        check_capacity(c, layout.capacity)?;
    }
    if let Some(o) = expected_overwrite {
        check_overwrite(o, header.overwrite)?;
    }
    Ok(layout)
}

} // verus!
