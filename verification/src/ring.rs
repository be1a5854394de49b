use vstd::prelude::*;
use crate::error::ChannelError;
use crate::layout::RingLayout;
use crate::shm_chan::ReaderStart;

verus! {

/// The shared header's fields as read at one moment: the logical write and read
/// cursors, the ring's shape, and its flags.
#[derive(Debug, Clone, Copy)]
pub struct HeaderSnapshot {
    pub write: u64,
    pub read: u64,
    pub capacity: u64,
    pub item_size: u64,
    pub overwrite: bool,
    pub ready: bool,
}

/// How many items sit between the cursors, never more than the capacity.
pub open spec fn spec_queued(write: u64, read: u64, capacity: usize) -> int {
    let diff = write.wrapping_sub(read) as int;
    if diff < capacity as int { diff } else { capacity as int }
}

/// Slots a producer may fill without touching an unread item.
pub open spec fn spec_free(write: u64, read: u64, capacity: usize) -> int {
    capacity - spec_queued(write, read, capacity)
}

/// The physical slot of a logical position.
pub open spec fn spec_slot(pos: int, capacity: int) -> int {
    pos % capacity
}

/// The writable run that starts at the write cursor's slot: up to the end of the
/// buffer, cut at the free space unless the ring is full (then the whole run to the
/// end, which only an overwriting ring may use).
pub open spec fn spec_send_contiguous(write: u64, read: u64, capacity: usize) -> int {
    let tail = capacity - spec_slot(write as int, capacity as int);
    let free = spec_free(write, read, capacity);
    if free == 0 { tail } else if tail < free { tail } else { free }
}

/// Where the read cursor stands after `written` items were published at the write
/// cursor: an overwriting ring drops the oldest items beyond its capacity.
pub open spec fn spec_read_after_send(
    write: u64,
    read: u64,
    capacity: usize,
    overwrite: bool,
    written: int,
) -> int {
    let new_write = write + written;
    let stored = if new_write - read < 0 { 0 } else { new_write - read };
    if overwrite && stored > capacity {
        let r = read + (stored - capacity);
        if r > u64::MAX { u64::MAX as int } else { r }
    } else {
        read as int
    }
}

/// The readable run that starts at the read cursor's slot.
pub open spec fn spec_recv_contiguous(write: u64, read: u64, capacity: usize) -> int {
    let tail = capacity - spec_slot(read as int, capacity as int);
    let avail = spec_queued(write, read, capacity);
    if tail < avail { tail } else { avail }
}

/// Number of items queued between the cursors (at most `capacity`).
pub fn queued_len(write: u64, read: u64, capacity: usize) -> (n: usize)
    ensures
        n == spec_queued(write, read, capacity),
        n <= capacity,
{
    let diff = write.wrapping_sub(read);
    let cap = capacity as u64;
    if diff < cap { diff as usize } else { capacity }
}

/// Number of slots a producer can fill before the ring is full.
pub fn free_slots(write: u64, read: u64, capacity: usize) -> (n: usize)
    ensures
        n == spec_free(write, read, capacity),
{
    capacity - queued_len(write, read, capacity)
}

/// A ring is full for its producer when it may not overwrite and holds `capacity` items.
pub fn ring_is_full(overwrite: bool, len: usize, capacity: usize) -> (b: bool)
    ensures
        b == (!overwrite && len >= capacity),
{
    !overwrite && len >= capacity
}

/// The run of slots a producer may fill next.
#[derive(Debug, Clone, Copy)]
pub struct SendWindow {
    pub start: usize,
    pub contiguous: usize,
}

/// What the producer publishes after filling `written` slots.
#[derive(Debug, Clone, Copy)]
pub struct SendCommit {
    pub new_write: u64,
    pub new_read: u64,
    /// Whether the read cursor must be stored (oldest items were dropped).
    pub read_moved: bool,
}

/// Chooses the slots a send may fill, from the cursors it read.
/// A full ring refuses unless it may overwrite.
pub fn plan_send(write: u64, read: u64, capacity: usize, overwrite: bool) -> (r: Result<
    SendWindow,
    ChannelError,
>)
    requires
        capacity > 0,
    ensures
        match r {
            Ok(w) => {
                &&& (overwrite || spec_free(write, read, capacity) > 0)
                &&& w.start == spec_slot(write as int, capacity as int)
                &&& w.contiguous == spec_send_contiguous(write, read, capacity)
                &&& 0 < w.contiguous
                &&& w.start + w.contiguous <= capacity
                &&& w.start as int == (write as int) % (capacity as int)
                &&& (!overwrite ==> w.contiguous + (write.wrapping_sub(read) as int) <= capacity)
                &&& (w.start + w.contiguous == capacity
                    || w.contiguous + (write.wrapping_sub(read) as int) == capacity)
            },
            Err(ChannelError::Full) => !overwrite && spec_free(write, read, capacity) == 0
                && write.wrapping_sub(read) as int >= capacity,
            _ => false,
        },
{
    let used = queued_len(write, read, capacity);
    let available = capacity - used;
    let start = (write % (capacity as u64)) as usize;
    let tail_space = capacity - start;
    let contiguous = if available == 0 {
        if overwrite {
            tail_space
        } else {
            return Err(ChannelError::Full);
        }
    } else if tail_space < available {
        tail_space
    } else {
        available
    };
    Ok(SendWindow { start, contiguous })
}

/// Turns the number of slots a producer filled into the new cursors.
/// Claiming more than the window held is an error.
pub fn commit_send(
    write: u64,
    read: u64,
    capacity: usize,
    overwrite: bool,
    contiguous: usize,
    written: usize,
) -> (r: Result<SendCommit, ChannelError>)
    requires
        written <= contiguous ==> write + written <= u64::MAX,
    ensures
        match r {
            Ok(c) => {
                &&& written <= contiguous
                &&& c.new_write == write + written
                &&& c.new_read == spec_read_after_send(write, read, capacity, overwrite, written as int)
                &&& c.read_moved == (c.new_read != read)
                &&& (!overwrite ==> c.new_read == read)
            },
            Err(ChannelError::WriteOverflow { requested, available }) => {
                &&& written > contiguous
                &&& requested == written
                &&& available == contiguous
            },
            _ => false,
        },
{
    if written > contiguous {
        return Err(ChannelError::WriteOverflow { requested: written, available: contiguous });
    }
    let new_write = write + written as u64;
    let mut new_read = read;
    if overwrite {
        let stored = new_write.saturating_sub(new_read);
        let max_keep = capacity as u64;
        if stored > max_keep {
            let dropped = stored - max_keep;
            new_read = new_read.saturating_add(dropped);
        }
    }
    Ok(SendCommit { new_write, new_read, read_moved: overwrite && new_read != read })
}

/// How many items a single-item send fills in a window of `contiguous` slots.
pub fn single_item_count(contiguous: usize) -> (n: usize)
    ensures
        n == (if contiguous == 0 { 0usize } else { 1usize }),
{
    if contiguous == 0 { 0 } else { 1 }
}

/// The outcome of a single-item send from the outcome of the slot-level send.
pub fn single_send_outcome(outcome: Result<usize, ChannelError>) -> (r: Result<(), ChannelError>)
    ensures
        match outcome {
            Ok(0) => r matches Err(ChannelError::Full),
            Ok(_) => r matches Ok(()),
            Err(e) => r == Err::<(), ChannelError>(e),
        },
{
    match outcome {
        Ok(0) => Err(ChannelError::Full),
        Ok(_) => Ok(()),
        Err(e) => Err(e),
    }
}

/// The run of slots a receive may read next.
#[derive(Debug, Clone, Copy)]
pub struct RecvWindow {
    pub start: usize,
    pub contiguous: usize,
}

/// Chooses the slots a receive may read, from the cursors it read.
/// Equal cursors mean an empty ring.
pub fn plan_recv(write: u64, read: u64, capacity: usize) -> (r: Result<RecvWindow, ChannelError>)
    requires
        capacity > 0,
    ensures
        match r {
            Ok(w) => {
                &&& write != read
                &&& w.start == spec_slot(read as int, capacity as int)
                &&& w.contiguous == spec_recv_contiguous(write, read, capacity)
                &&& 0 < w.contiguous
                &&& w.start + w.contiguous <= capacity
                &&& w.start as int == (read as int) % (capacity as int)
                &&& w.contiguous <= write.wrapping_sub(read)
                &&& (w.start + w.contiguous == capacity || w.contiguous == write.wrapping_sub(read))
            },
            Err(ChannelError::Empty) => write == read,
            _ => false,
        },
{
    if write == read {
        return Err(ChannelError::Empty);
    }
    let available = queued_len(write, read, capacity);
    let start = (read % (capacity as u64)) as usize;
    let tail = capacity - start;
    let contiguous = if tail < available { tail } else { available };
    Ok(RecvWindow { start, contiguous })
}

/// How many items a receive consumes when its reader asked for `requested`
/// out of a window of `contiguous`, and where the read cursor then goes.
pub fn recv_consumption(read: u64, contiguous: usize, requested: usize) -> (r: (usize, u64))
    requires
        read + (if requested < contiguous { requested } else { contiguous }) <= u64::MAX,
    ensures
        r.0 == (if requested < contiguous { requested } else { contiguous }),
        r.1 == read + r.0,
{
    let consumed = if requested < contiguous { requested } else { contiguous };
    (consumed, read + consumed as u64)
}

/// The outcome of a cursor claim: a lost race means another consumer moved first.
pub fn claim_outcome(swapped: bool, consumed: usize) -> (r: Result<usize, ChannelError>)
    ensures
        swapped ==> r == Ok::<usize, ChannelError>(consumed),
        !swapped ==> r matches Err(ChannelError::StaleCursor),
{
    if swapped { Ok(consumed) } else { Err(ChannelError::StaleCursor) }
}

/// The outcome of a single-item receive: the item if one was taken; a lost race
/// or nothing taken reads as an empty ring.
pub fn single_recv_outcome<T>(value: Option<T>, outcome: Result<usize, ChannelError>) -> (r: Result<
    T,
    ChannelError,
>)
    ensures
        match outcome {
            Ok(_) => match value {
                Some(v) => r == Ok::<T, ChannelError>(v),
                None => r matches Err(ChannelError::Empty),
            },
            Err(ChannelError::StaleCursor) => r matches Err(ChannelError::Empty),
            Err(e) => r == Err::<T, ChannelError>(e),
        },
{
    match outcome {
        Ok(_) => match value {
            Some(v) => Ok(v),
            None => Err(ChannelError::Empty),
        },
        Err(ChannelError::StaleCursor) => Err(ChannelError::Empty),
        Err(e) => Err(e),
    }
}

/// The step a peeking reader takes on its private cursor: it moves past the item at
/// `max(local, committed)` when that item exists, and reports an empty ring otherwise.
pub fn next_claim(local: u64, committed: u64, write: u64) -> (r: Option<u64>)
    ensures
        ({
            let current = if local < committed { committed } else { local };
            &&& current >= write ==> r.is_none()
            &&& current < write ==> r == Some((current + 1) as u64)
        }),
{
    let current = if local < committed { committed } else { local };
    if current >= write { None } else { Some(current + 1) }
}

/// What a peek does after claiming a position.
#[derive(Debug, Clone, Copy, PartialEq, Eq, Structural)]
pub enum NextStep {
    /// The claimed item vanished (overwritten or already consumed): look again.
    Retry,
    /// Read the item at logical position `cursor`, stored in slot `slot`.
    Deliver { cursor: u64, slot: usize },
}

/// Decides, with the cursors read again after the claim, whether the claimed
/// position still holds a live item.
pub fn next_step(prev: u64, committed: u64, committed_now: u64, write_now: u64, capacity: usize) -> (r:
    NextStep)
    requires
        capacity > 0,
    ensures
        ({
            let target = if prev < committed { committed } else { prev };
            &&& (target >= write_now || committed_now > target) ==> r == NextStep::Retry
            &&& (target < write_now && committed_now <= target) ==> r == (NextStep::Deliver {
                cursor: target,
                slot: spec_slot(target as int, capacity as int) as usize,
            })
        }),
{
    let target = if prev < committed { committed } else { prev };
    if target >= write_now {
        return NextStep::Retry;
    }
    if committed_now > target {
        return NextStep::Retry;
    }
    NextStep::Deliver { cursor: target, slot: (target % (capacity as u64)) as usize }
}

/// The cursor swap a pop attempts: from the peeked position to the next one,
/// provided a peek is pending.
pub fn pop_plan(had_pending: bool, cursor: u64) -> (r: Result<(u64, u64), ChannelError>)
    requires
        had_pending ==> cursor < u64::MAX,
    ensures
        had_pending ==> r == Ok::<(u64, u64), ChannelError>((cursor, (cursor + 1) as u64)),
        !had_pending ==> r matches Err(ChannelError::NoPending),
{
    if had_pending { Ok((cursor, cursor + 1)) } else { Err(ChannelError::NoPending) }
}

/// Where a newly attached receiver starts.
#[derive(Debug, Clone, Copy)]
pub struct StartPlan {
    /// The position its private cursors start at.
    pub cursor: u64,
    /// Whether the shared read cursor is moved there too (skipping what is queued).
    pub publish_read: bool,
}

/// From the beginning: at the committed read cursor. From the latest: at the write
/// cursor, discarding what is queued.
pub fn start_plan(mode: ReaderStart, committed: u64, write: u64) -> (p: StartPlan)
    ensures
        mode == ReaderStart::FromBeginning ==> p.cursor == committed && !p.publish_read,
        mode == ReaderStart::FromLatest ==> p.cursor == write && p.publish_read,
{
    match mode {
        ReaderStart::FromBeginning => StartPlan { cursor: committed, publish_read: false },
        ReaderStart::FromLatest => StartPlan { cursor: write, publish_read: true },
    }
}

/// The header a freshly created ring is given.
pub fn initial_header(layout: &RingLayout, overwrite: bool) -> (h: HeaderSnapshot)
    ensures
        h.write == 0,
        h.read == 0,
        h.capacity == layout.capacity as u64,
        h.item_size == layout.item_size as u64,
        h.overwrite == overwrite,
        h.ready,
{
    HeaderSnapshot {
        write: 0,
        read: 0,
        capacity: layout.capacity as u64,
        item_size: layout.item_size as u64,
        overwrite,
        ready: true,
    }
}

} // verus!
