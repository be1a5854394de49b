use vstd::prelude::*;
use vstd::arithmetic::div_mod::{lemma_fundamental_div_mod, lemma_fundamental_div_mod_converse};
use crate::error::ChannelError;
use crate::ring::{
    SendWindow, SendCommit, RecvWindow,
    spec_queued, spec_free, spec_slot, spec_send_contiguous, spec_read_after_send,
    spec_recv_contiguous,
};

verus! {

/// Cursors of a ring holding at most `capacity` items between them.
pub open spec fn ring_wf(write: u64, read: u64, capacity: usize) -> bool {
    &&& capacity > 0
    &&& read <= write
    &&& write - read <= capacity
}

/// The queue a ring holds: the items at logical positions `read .. write`, oldest first,
/// each stored in slot `position % capacity`.
pub open spec fn ring_items<T>(slots: Seq<T>, read: int, write: int, capacity: int) -> Seq<T> {
    Seq::new((write - read) as nat, |i: int| slots[spec_slot(read + i, capacity)])
}

/// The slots after `vals` were stored from slot `start` on.
pub open spec fn store_run<T>(slots: Seq<T>, start: int, vals: Seq<T>) -> Seq<T> {
    Seq::new(
        slots.len(),
        |i: int| if start <= i < start + vals.len() { vals[i - start] } else { slots[i] },
    )
}

/// Within one lap, positions past a slot's position map to the following slots.
proof fn lemma_slot_shift(pos: int, j: int, capacity: int)
    requires
        capacity > 0,
        pos >= 0,
        0 <= j,
        spec_slot(pos, capacity) + j < capacity,
    ensures
        spec_slot(pos + j, capacity) == spec_slot(pos, capacity) + j,
{
    lemma_fundamental_div_mod(pos, capacity);
    let q = pos / capacity;
    let r = pos % capacity;
    assert(pos + j == q * capacity + (r + j)) by (nonlinear_arith)
        requires pos == capacity * q + r;
    lemma_fundamental_div_mod_converse(pos + j, capacity, q, r + j);
}

/// Two positions less than a lap apart sit in different slots.
proof fn lemma_slots_distinct(a: int, b: int, capacity: int)
    requires
        capacity > 0,
        0 <= a < b,
        b - a < capacity,
    ensures
        spec_slot(a, capacity) != spec_slot(b, capacity),
{
    lemma_fundamental_div_mod(a, capacity);
    lemma_fundamental_div_mod(b, capacity);
    let qa = a / capacity;
    let qb = b / capacity;
    if a % capacity == b % capacity {
        assert(b - a == capacity * (qb - qa)) by (nonlinear_arith)
            requires a == capacity * qa + a % capacity, b == capacity * qb + b % capacity,
                a % capacity == b % capacity;
        assert(false) by (nonlinear_arith)
            requires b - a == capacity * (qb - qa), 0 < b - a < capacity, capacity > 0;
    }
}

/// A slot index is inside the buffer.
proof fn lemma_slot_range(pos: int, capacity: int)
    requires
        capacity > 0,
    ensures
        0 <= spec_slot(pos, capacity) < capacity,
{
}

/// Under well-formed cursors the queue length is the distance between them.
pub proof fn law_queued_is_distance(write: u64, read: u64, capacity: usize)
    requires
        ring_wf(write, read, capacity),
    ensures
        spec_queued(write, read, capacity) == write - read,
        spec_free(write, read, capacity) == capacity - (write - read),
{
}

/// Sending appends: once `vals` (no more than the window `plan_send` chose) are stored
/// from the window's first slot and the cursors are moved as `commit_send` says, the
/// ring holds the old queue followed by `vals`, less the oldest items an overwriting
/// ring dropped to stay within its capacity. A ring that may not overwrite drops nothing.
/// The cursors stay well formed.
pub proof fn law_send_appends<T>(
    slots: Seq<T>,
    write: u64,
    read: u64,
    capacity: usize,
    overwrite: bool,
    vals: Seq<T>,
)
    requires
        ring_wf(write, read, capacity),
        slots.len() == capacity,
        overwrite || spec_free(write, read, capacity) > 0,
        vals.len() <= spec_send_contiguous(write, read, capacity),
        write + vals.len() <= u64::MAX,
    ensures
        ({
            let new_write = write + vals.len();
            let new_read = spec_read_after_send(write, read, capacity, overwrite, vals.len() as int);
            let start = spec_slot(write as int, capacity as int);
            let old_items = ring_items(slots, read as int, write as int, capacity as int);
            let dropped = new_read - read;
            &&& new_read <= u64::MAX
            &&& ring_wf(new_write as u64, new_read as u64, capacity)
            &&& dropped == (if (write - read) + vals.len() > capacity {
                (write - read) + vals.len() - capacity
            } else {
                0
            })
            &&& (!overwrite ==> dropped == 0)
            &&& ring_items(store_run(slots, start, vals), new_read, new_write, capacity as int)
                =~= (old_items + vals).subrange(dropped, (old_items.len() + vals.len()) as int)
        }),
{
    let cap = capacity as int;
    let w = write as int;
    let r = read as int;
    let k = vals.len() as int;
    let new_write = w + k;
    let new_read = spec_read_after_send(write, read, capacity, overwrite, k);
    let start = spec_slot(w, cap);
    lemma_slot_range(w, cap);
    let old_items = ring_items(slots, r, w, cap);
    let new_slots = store_run(slots, start, vals);
    assert(start + k <= cap);
    assert(new_read == (if (w - r) + k > cap { w + k - cap } else { r }));
    let lhs = ring_items(new_slots, new_read, new_write, cap);
    let rhs = (old_items + vals).subrange(new_read - r, (old_items.len() + vals.len()) as int);
    assert forall|i: int| 0 <= i < lhs.len() implies lhs[i] == rhs[i] by {
        let pos = new_read + i;
        if pos < w {
            // an old item that was kept: its slot is not among the ones just stored
            lemma_slot_range(pos, cap);
            assert(new_slots[spec_slot(pos, cap)] == slots[spec_slot(pos, cap)]) by {
                if start <= spec_slot(pos, cap) < start + k {
                    let j = spec_slot(pos, cap) - start;
                    lemma_slot_shift(w, j, cap);
                    lemma_slots_distinct(pos, w + j, cap);
                }
            }
            assert(old_items[pos - r] == slots[spec_slot(r + (pos - r), cap)]);
        } else {
            let j = pos - w;
            lemma_slot_shift(w, j, cap);
        }
    }
}

/// Receiving takes from the front: the window `plan_recv` chose holds the oldest
/// queued items in order, and moving the read cursor past `k` of them leaves the
/// rest of the queue.
pub proof fn law_recv_takes_front<T>(
    slots: Seq<T>,
    write: u64,
    read: u64,
    capacity: usize,
    k: int,
)
    requires
        ring_wf(write, read, capacity),
        slots.len() == capacity,
        write != read,
        0 <= k <= spec_recv_contiguous(write, read, capacity),
    ensures
        ({
            let start = spec_slot(read as int, capacity as int);
            let items = ring_items(slots, read as int, write as int, capacity as int);
            &&& 0 < spec_recv_contiguous(write, read, capacity)
            &&& start + spec_recv_contiguous(write, read, capacity) <= capacity
            &&& slots.subrange(start, start + k) =~= items.subrange(0, k)
            &&& ring_wf(write, (read + k) as u64, capacity)
            &&& ring_items(slots, read + k, write as int, capacity as int) =~= items.subrange(k, items.len() as int)
        }),
{
    let cap = capacity as int;
    let r = read as int;
    let start = spec_slot(r, cap);
    lemma_slot_range(r, cap);
    let items = ring_items(slots, r, write as int, cap);
    assert forall|j: int| 0 <= j < k implies slots.subrange(start, start + k)[j] == items[j] by {
        lemma_slot_shift(r, j, cap);
    }
}

/// Peeking reads the item at its position: a cursor between the read and write
/// cursors addresses the queue item that many places from the front.
pub proof fn law_peek_reads_item<T>(
    slots: Seq<T>,
    write: u64,
    read: u64,
    capacity: usize,
    cursor: u64,
)
    requires
        ring_wf(write, read, capacity),
        slots.len() == capacity,
        read <= cursor < write,
    ensures
        0 <= spec_slot(cursor as int, capacity as int) < capacity,
        slots[spec_slot(cursor as int, capacity as int)]
            == ring_items(slots, read as int, write as int, capacity as int)[cursor - read],
{
    lemma_slot_range(cursor as int, capacity as int);
}

/// What a receive gives back of a send: after `vals` were sent into a ring that may
/// not overwrite, the next receive reads the items that were queued before, then `vals`,
/// in order, as far as its window reaches.
pub proof fn law_recv_returns_sent<T>(
    slots: Seq<T>,
    write: u64,
    read: u64,
    capacity: usize,
    vals: Seq<T>,
    k: int,
)
    requires
        ring_wf(write, read, capacity),
        slots.len() == capacity,
        spec_free(write, read, capacity) > 0,
        vals.len() <= spec_send_contiguous(write, read, capacity),
        write + vals.len() <= u64::MAX,
        write - read + vals.len() > 0,
        0 <= k <= spec_recv_contiguous((write + vals.len()) as u64, read, capacity),
    ensures
        ({
            let new_slots = store_run(slots, spec_slot(write as int, capacity as int), vals);
            let start = spec_slot(read as int, capacity as int);
            let old_items = ring_items(slots, read as int, write as int, capacity as int);
            new_slots.subrange(start, start + k) =~= (old_items + vals).subrange(0, k)
        }),
{
    law_send_appends(slots, write, read, capacity, false, vals);
    let new_write = (write + vals.len()) as u64;
    let new_slots = store_run(slots, spec_slot(write as int, capacity as int), vals);
    law_recv_takes_front(new_slots, new_write, read, capacity, k);
    let old_items = ring_items(slots, read as int, write as int, capacity as int);
    assert((old_items + vals).subrange(0, (old_items.len() + vals.len()) as int) =~= old_items + vals);
}

/// One single-item send on a ring that may not overwrite, as `plan_send`,
/// `single_item_count` and `commit_send` decide it: refused when the ring is full, else
/// the value goes to the write cursor's slot and the write cursor moves by one.
/// The result is the slots and the write and read cursors afterwards.
pub open spec fn model_try_send<T>(slots: Seq<T>, write: u64, read: u64, capacity: usize, v: T) -> Option<
    (Seq<T>, u64, u64),
> {
    if spec_free(write, read, capacity) == 0 {
        None
    } else {
        Some(
            (
                store_run(slots, spec_slot(write as int, capacity as int), seq![v]),
                (write + 1) as u64,
                spec_read_after_send(write, read, capacity, false, 1) as u64,
            ),
        )
    }
}

/// One single-item receive, as `plan_recv`, `single_item_count` and `recv_consumption`
/// decide it when no other receiver races it: refused when the ring is empty, else the
/// value in the read cursor's slot, and the read cursor moved by one.
pub open spec fn model_try_recv<T>(slots: Seq<T>, write: u64, read: u64, capacity: usize) -> Option<
    (T, u64),
> {
    if write == read {
        None
    } else {
        Some((slots[spec_slot(read as int, capacity as int)], (read + 1) as u64))
    }
}

/// Single-item sends of `vals`, in order; `None` as soon as one is refused.
pub open spec fn model_send_all<T>(slots: Seq<T>, write: u64, read: u64, capacity: usize, vals: Seq<T>) -> Option<
    (Seq<T>, u64, u64),
>
    decreases vals.len(),
{
    if vals.len() == 0 {
        Some((slots, write, read))
    } else {
        match model_send_all(slots, write, read, capacity, vals.drop_last()) {
            None => None,
            Some((s, w, r)) => model_try_send(s, w, r, capacity, vals.last()),
        }
    }
}

/// `n` single-item receives in a row: the values received, in order, and the read
/// cursor afterwards; `None` as soon as one is refused.
pub open spec fn model_recv_n<T>(slots: Seq<T>, write: u64, read: u64, capacity: usize, n: nat) -> Option<
    (Seq<T>, u64),
>
    decreases n,
{
    if n == 0 {
        Some((Seq::empty(), read))
    } else {
        match model_recv_n(slots, write, read, capacity, (n - 1) as nat) {
            None => None,
            Some((got, r)) => match model_try_recv(slots, write, r, capacity) {
                None => None,
                Some((v, r2)) => Some((got.push(v), r2)),
            },
        }
    }
}

/// Sends into an empty ring, one by one, are all accepted while they fit, and the
/// ring then holds exactly the values sent, in order.
proof fn lemma_sends_queue_in_order<T>(slots: Seq<T>, write: u64, capacity: usize, vals: Seq<T>)
    requires
        capacity > 0,
        slots.len() == capacity,
        vals.len() <= capacity,
        write + vals.len() <= u64::MAX,
    ensures
        match model_send_all(slots, write, write, capacity, vals) {
            Some((s, w, r)) => {
                &&& s.len() == capacity
                &&& r == write
                &&& w == write + vals.len()
                &&& ring_wf(w, r, capacity)
                &&& ring_items(s, r as int, w as int, capacity as int) =~= vals
            },
            None => false,
        },
    decreases vals.len(),
{
    if vals.len() > 0 {
        let prefix = vals.drop_last();
        lemma_sends_queue_in_order(slots, write, capacity, prefix);
        let (s, w, r) = model_send_all(slots, write, write, capacity, prefix).unwrap();
        let v = vals.last();
        lemma_slot_range(w as int, capacity as int);
        assert(spec_free(w, r, capacity) > 0);
        assert(spec_send_contiguous(w, r, capacity) >= 1);
        law_send_appends(s, w, r, capacity, false, seq![v]);
        let old_items = ring_items(s, r as int, w as int, capacity as int);
        assert((old_items + seq![v]).subrange(0, (old_items.len() + 1) as int) =~= vals);
    }
}

/// Receiving `n` items one by one from a well-formed ring gives its first `n` items,
/// in order.
proof fn lemma_recvs_take_front<T>(slots: Seq<T>, write: u64, read: u64, capacity: usize, n: nat)
    requires
        ring_wf(write, read, capacity),
        slots.len() == capacity,
        n <= write - read,
    ensures
        model_recv_n(slots, write, read, capacity, n) == Some(
            (ring_items(slots, read as int, write as int, capacity as int).subrange(0, n as int), (read + n) as u64),
        ),
    decreases n,
{
    if n > 0 {
        lemma_recvs_take_front(slots, write, read, capacity, (n - 1) as nat);
        let items = ring_items(slots, read as int, write as int, capacity as int);
        let cursor = (read + n - 1) as u64;
        law_peek_reads_item(slots, write, read, capacity, cursor);
        assert(items.subrange(0, n - 1).push(items[n - 1]) =~= items.subrange(0, n as int));
    }
}

/// What receives give back of sends: on a ring that may not overwrite and starts empty,
/// `n <= capacity` single-item sends of `v1 .. vn` are all accepted, the next `n`
/// single-item receives return `v1 .. vn` in that order, and the receive after them
/// finds the ring empty.
pub proof fn law_sends_then_recvs<T>(slots: Seq<T>, start: u64, capacity: usize, vals: Seq<T>)
    requires
        capacity > 0,
        slots.len() == capacity,
        vals.len() <= capacity,
        start + vals.len() <= u64::MAX,
    ensures
        match model_send_all(slots, start, start, capacity, vals) {
            Some((s, w, r)) => {
                &&& model_recv_n(s, w, r, capacity, vals.len()) == Some((vals, w))
                &&& model_try_recv(s, w, w, capacity) is None
            },
            None => false,
        },
{
    lemma_sends_queue_in_order(slots, start, capacity, vals);
    let (s, w, r) = model_send_all(slots, start, start, capacity, vals).unwrap();
    lemma_recvs_take_front(s, w, r, capacity, vals.len());
    let items = ring_items(s, r as int, w as int, capacity as int);
    assert(items.subrange(0, vals.len() as int) =~= vals);
}

/// A compare-and-swap on the shared read cursor: whether it swapped, and the cursor after it.
pub open spec fn cursor_swap(current: u64, expected: u64, new: u64) -> (bool, u64) {
    if current == expected { (true, new) } else { (false, current) }
}

/// A peeked position is consumed once: when two receivers pop the same pending position
/// (each swapping the read cursor from it to the next, as `pop_plan` says), exactly one
/// swap succeeds if the position is the front of the queue, and neither if it is stale;
/// the read cursor ends one past the position, or where it was.
pub proof fn law_pop_claims_once(read: u64, cursor: u64)
    requires
        cursor < u64::MAX,
    ensures
        ({
            let (first_ok, after_first) = cursor_swap(read, cursor, (cursor + 1) as u64);
            let (second_ok, after_second) = cursor_swap(after_first, cursor, (cursor + 1) as u64);
            &&& read == cursor ==> first_ok && !second_ok && after_second == cursor + 1
            &&& read != cursor ==> !first_ok && !second_ok && after_second == read
        }),
{
}

/// Sending keeps the cursors sound: from well-formed cursors, whatever a send that
/// `plan_send` and `commit_send` accept publishes leaves them well formed (at most
/// `capacity` items queued), neither cursor moves back, and a ring that may not
/// overwrite never moves its read cursor, so no unread item is overwritten.
pub proof fn law_send_keeps_cursors(
    write: u64,
    read: u64,
    capacity: usize,
    overwrite: bool,
    written: usize,
)
    requires
        ring_wf(write, read, capacity),
        overwrite || spec_free(write, read, capacity) > 0,
        written <= spec_send_contiguous(write, read, capacity),
        write + written <= u64::MAX,
    ensures
        ({
            let new_write = write + written;
            let new_read = spec_read_after_send(write, read, capacity, overwrite, written as int);
            &&& ring_wf(new_write as u64, new_read as u64, capacity)
            &&& new_write >= write
            &&& new_read >= read
            &&& !overwrite ==> new_read == read
        }),
{
    lemma_slot_range(write as int, capacity as int);
}

/// One single-item send as the contracts of `plan_send`, `single_item_count` and
/// `commit_send` decide it, on a ring that may not overwrite, is one step of
/// `model_try_send`: refused exactly when the model refuses, and otherwise the value
/// lands in the window's first slot and the cursors move as the model says.
pub proof fn law_single_send_is_model_step<T>(
    slots: Seq<T>,
    write: u64,
    read: u64,
    capacity: usize,
    v: T,
    plan: Result<SendWindow, ChannelError>,
    n: usize,
    commit: Result<SendCommit, ChannelError>,
)
    requires
        ring_wf(write, read, capacity),
        slots.len() == capacity,
        write < u64::MAX,
        match plan {
            Ok(w) => {
                &&& spec_free(write, read, capacity) > 0
                &&& w.start == spec_slot(write as int, capacity as int)
                &&& w.contiguous == spec_send_contiguous(write, read, capacity)
                &&& n == (if w.contiguous == 0 { 0usize } else { 1usize })
                &&& match commit {
                    Ok(c) => {
                        &&& n <= w.contiguous
                        &&& c.new_write == write + n
                        &&& c.new_read == spec_read_after_send(write, read, capacity, false, n as int)
                    },
                    Err(ChannelError::WriteOverflow { requested, available }) => n > w.contiguous,
                    _ => false,
                }
            },
            Err(ChannelError::Full) => spec_free(write, read, capacity) == 0,
            _ => false,
        },
    ensures
        plan is Err <==> model_try_send(slots, write, read, capacity, v) is None,
        match plan {
            Ok(w) => n == 1 && match commit {
                Ok(c) => model_try_send(slots, write, read, capacity, v) == Some(
                    (store_run(slots, w.start as int, seq![v]), c.new_write, c.new_read),
                ),
                Err(_) => false,
            },
            Err(_) => true,
        },
{
    lemma_slot_range(write as int, capacity as int);
}

/// One single-item receive as the contracts of `plan_recv`, `single_item_count` and
/// `recv_consumption` decide it, when its cursor claim succeeds, is one step of
/// `model_try_recv`: refused exactly when the model refuses, and otherwise the value
/// read from the window's first slot and the new read cursor are the model's.
pub proof fn law_single_recv_is_model_step<T>(
    slots: Seq<T>,
    write: u64,
    read: u64,
    capacity: usize,
    plan: Result<RecvWindow, ChannelError>,
    n: usize,
    consumed: usize,
    new_read: u64,
)
    requires
        ring_wf(write, read, capacity),
        slots.len() == capacity,
        match plan {
            Ok(w) => {
                &&& write != read
                &&& w.start == spec_slot(read as int, capacity as int)
                &&& w.contiguous == spec_recv_contiguous(write, read, capacity)
                &&& n == (if w.contiguous == 0 { 0usize } else { 1usize })
                &&& consumed == (if n < w.contiguous { n } else { w.contiguous })
                &&& new_read == read + consumed
            },
            Err(ChannelError::Empty) => write == read,
            _ => false,
        },
    ensures
        plan is Err <==> model_try_recv(slots, write, read, capacity) is None,
        match plan {
            Ok(w) => {
                &&& n == 1
                &&& consumed == 1
                &&& 0 <= w.start < capacity
                &&& model_try_recv(slots, write, read, capacity) == Some((slots[w.start as int], new_read))
            },
            Err(_) => true,
        },
{
    lemma_slot_range(read as int, capacity as int);
}

/// A run that reaches the end of the buffer ends a lap: the position after it sits at slot 0.
proof fn lemma_run_to_end(pos: int, c: int, capacity: int)
    requires
        capacity > 0,
        pos >= 0,
        spec_slot(pos, capacity) + c == capacity,
    ensures
        (pos + c) % capacity == 0,
{
    lemma_fundamental_div_mod(pos, capacity);
    let q = pos / capacity;
    assert(pos + c == (q + 1) * capacity + 0) by (nonlinear_arith)
        requires pos == capacity * q + pos % capacity, pos % capacity + c == capacity;
    lemma_fundamental_div_mod_converse(pos + c, capacity, q + 1, 0);
}

/// The receive window is the whole readable run: it starts at the read cursor's slot,
/// holds at least one item of a non-empty ring and never more than are queued, and
/// after consuming all of it the ring is empty or the read cursor is back at slot 0.
pub proof fn law_recv_window_whole_run(write: u64, read: u64, capacity: usize)
    requires
        ring_wf(write, read, capacity),
        write != read,
    ensures
        ({
            let c = spec_recv_contiguous(write, read, capacity);
            &&& 0 < c
            &&& read + c <= write
            &&& (read as int) % (capacity as int) + c <= capacity
            &&& (read + c == write || (read + c) % (capacity as int) == 0)
        }),
{
    let c = spec_recv_contiguous(write, read, capacity);
    lemma_slot_range(read as int, capacity as int);
    if read + c != write {
        lemma_run_to_end(read as int, c, capacity as int);
    }
}

/// The send window of a ring with free slots is the whole free run: it starts at the
/// write cursor's slot, never reaches an unread item, and after filling all of it the
/// ring is full or the write cursor is back at slot 0.
pub proof fn law_send_window_whole_run(write: u64, read: u64, capacity: usize)
    requires
        ring_wf(write, read, capacity),
        write - read < capacity,
    ensures
        ({
            let c = spec_send_contiguous(write, read, capacity);
            &&& 0 < c
            &&& write + c <= read + capacity
            &&& (write as int) % (capacity as int) + c <= capacity
            &&& (write + c == read + capacity || (write + c) % (capacity as int) == 0)
        }),
{
    let c = spec_send_contiguous(write, read, capacity);
    lemma_slot_range(write as int, capacity as int);
    if write + c != read + capacity {
        lemma_run_to_end(write as int, c, capacity as int);
    }
}

} // verus!
