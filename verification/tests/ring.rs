use cex_core::error::ChannelError;
use cex_core::layout::{align_up, RingLayout, HEADER_SIZE};
use cex_core::ring::{
    claim_outcome, commit_send, free_slots, initial_header, next_claim, next_step, plan_recv,
    plan_send, pop_plan, queued_len, recv_consumption, ring_is_full, single_item_count,
    single_recv_outcome, single_send_outcome, start_plan, NextStep,
};
use cex_core::ReaderStart;

/// A ring simulated in process memory with the library's decisions.
struct SimRing {
    slots: Vec<u32>,
    write: u64,
    read: u64,
    overwrite: bool,
}

impl SimRing {
    fn new(capacity: usize, overwrite: bool) -> Self {
        SimRing { slots: vec![0; capacity], write: 0, read: 0, overwrite }
    }

    fn send(&mut self, vals: &[u32]) -> Result<usize, ChannelError> {
        let cap = self.slots.len();
        let w = plan_send(self.write, self.read, cap, self.overwrite)?;
        let n = vals.len().min(w.contiguous);
        for i in 0..n {
            self.slots[w.start + i] = vals[i];
        }
        let c = commit_send(self.write, self.read, cap, self.overwrite, w.contiguous, n)?;
        self.write = c.new_write;
        if c.read_moved {
            self.read = c.new_read;
        }
        Ok(n)
    }

    fn recv(&mut self, want: usize) -> Result<Vec<u32>, ChannelError> {
        let cap = self.slots.len();
        let w = plan_recv(self.write, self.read, cap)?;
        let (k, new_read) = recv_consumption(self.read, w.contiguous, want);
        let out = self.slots[w.start..w.start + k].to_vec();
        self.read = new_read;
        Ok(out)
    }

    fn drain(&mut self) -> Vec<u32> {
        let mut all = Vec::new();
        while let Ok(mut part) = self.recv(usize::MAX) {
            all.append(&mut part);
        }
        all
    }
}

#[test]
fn align_up_rounds_to_multiples() {
    assert_eq!(align_up(64, 64), 64);
    assert_eq!(align_up(65, 64), 128);
    assert_eq!(align_up(64, 128), 128);
    assert_eq!(align_up(0, 8), 0);
    assert_eq!(align_up(1, 1), 1);
}

#[test]
fn layout_for_u64_items() {
    let l = RingLayout::new::<u64>(10).unwrap();
    assert_eq!(l.capacity, 10);
    assert_eq!(l.item_size, 8);
    assert_eq!(l.data_offset, HEADER_SIZE);
    assert_eq!(l.total_size, 64 + 80);
}

#[test]
fn layout_for_large_items() {
    let l = RingLayout::new::<[u8; 100]>(3).unwrap();
    assert_eq!(l.data_offset, 64);
    assert_eq!(l.total_size, 364);
}

#[test]
fn layout_refuses_zero_capacity() {
    assert!(matches!(RingLayout::new::<u64>(0), Err(ChannelError::InvalidCapacity)));
}

#[test]
fn layout_refuses_zero_sized_items() {
    assert!(matches!(
        RingLayout::new::<()>(4),
        Err(ChannelError::TypeMismatch { expected: 1, found: 0 })
    ));
}

#[test]
fn layout_refuses_overflowing_size() {
    assert!(matches!(RingLayout::new::<u64>(usize::MAX), Err(ChannelError::InvalidCapacity)));
    assert!(matches!(
        RingLayout::new::<u8>(usize::MAX - 10),
        Err(ChannelError::InvalidCapacity)
    ));
}

#[test]
fn queued_len_is_capped_distance() {
    assert_eq!(queued_len(10, 4, 8), 6);
    assert_eq!(queued_len(20, 4, 8), 8);
    assert_eq!(queued_len(0, 1, 8), 8);
    assert_eq!(queued_len(5, 5, 8), 0);
    assert_eq!(free_slots(10, 4, 8), 2);
    assert_eq!(free_slots(20, 4, 8), 0);
}

#[test]
fn is_full_only_without_overwrite() {
    assert!(ring_is_full(false, 8, 8));
    assert!(!ring_is_full(true, 8, 8));
    assert!(!ring_is_full(false, 7, 8));
}

#[test]
fn plan_send_windows() {
    let w = plan_send(0, 0, 4, false).unwrap();
    assert_eq!((w.start, w.contiguous), (0, 4));
    let w = plan_send(6, 3, 4, false).unwrap();
    assert_eq!((w.start, w.contiguous), (2, 1));
    let w = plan_send(5, 4, 4, false).unwrap();
    assert_eq!((w.start, w.contiguous), (1, 3));
    let w = plan_send(7, 4, 4, false).unwrap();
    assert_eq!((w.start, w.contiguous), (3, 1));
}

#[test]
fn plan_send_full_ring() {
    assert!(matches!(plan_send(4, 0, 4, false), Err(ChannelError::Full)));
    let w = plan_send(4, 0, 4, true).unwrap();
    assert_eq!((w.start, w.contiguous), (0, 4));
    let w = plan_send(6, 2, 4, true).unwrap();
    assert_eq!((w.start, w.contiguous), (2, 2));
}

#[test]
fn commit_send_moves_cursors() {
    let c = commit_send(2, 0, 4, false, 2, 2).unwrap();
    assert_eq!((c.new_write, c.new_read, c.read_moved), (4, 0, false));
    let c = commit_send(4, 0, 4, true, 4, 3).unwrap();
    assert_eq!((c.new_write, c.new_read, c.read_moved), (7, 3, true));
    let c = commit_send(2, 0, 4, true, 2, 1).unwrap();
    assert_eq!((c.new_write, c.new_read, c.read_moved), (3, 0, false));
}

#[test]
fn commit_send_refuses_overflowing_writer() {
    assert!(matches!(
        commit_send(0, 0, 4, false, 2, 3),
        Err(ChannelError::WriteOverflow { requested: 3, available: 2 })
    ));
}

#[test]
fn plan_recv_windows() {
    assert!(matches!(plan_recv(3, 3, 4), Err(ChannelError::Empty)));
    let w = plan_recv(5, 2, 4).unwrap();
    assert_eq!((w.start, w.contiguous), (2, 2));
    let w = plan_recv(6, 4, 4).unwrap();
    assert_eq!((w.start, w.contiguous), (0, 2));
}

#[test]
fn recv_consumption_is_capped() {
    assert_eq!(recv_consumption(10, 3, 5), (3, 13));
    assert_eq!(recv_consumption(10, 3, 1), (1, 11));
    assert_eq!(recv_consumption(10, 3, 0), (0, 10));
}

#[test]
fn claim_outcomes() {
    assert_eq!(claim_outcome(true, 3).unwrap(), 3);
    assert!(matches!(claim_outcome(false, 3), Err(ChannelError::StaleCursor)));
}

#[test]
fn single_item_outcomes() {
    assert_eq!(single_item_count(0), 0);
    assert_eq!(single_item_count(7), 1);
    assert!(single_send_outcome(Ok(1)).is_ok());
    assert!(matches!(single_send_outcome(Ok(0)), Err(ChannelError::Full)));
    assert!(matches!(single_send_outcome(Err(ChannelError::Full)), Err(ChannelError::Full)));
    assert_eq!(single_recv_outcome(Some(9u32), Ok(1)).unwrap(), 9);
    assert!(matches!(single_recv_outcome::<u32>(None, Ok(0)), Err(ChannelError::Empty)));
    assert!(matches!(
        single_recv_outcome::<u32>(None, Err(ChannelError::StaleCursor)),
        Err(ChannelError::Empty)
    ));
    assert!(matches!(
        single_recv_outcome::<u32>(None, Err(ChannelError::NotInitialized)),
        Err(ChannelError::NotInitialized)
    ));
}

#[test]
fn next_claims_and_steps() {
    assert_eq!(next_claim(0, 0, 0), None);
    assert_eq!(next_claim(0, 0, 3), Some(1));
    assert_eq!(next_claim(5, 2, 6), Some(6));
    assert_eq!(next_claim(1, 4, 6), Some(5));
    assert_eq!(next_claim(6, 2, 6), None);
    assert_eq!(next_step(2, 2, 2, 5, 4), NextStep::Deliver { cursor: 2, slot: 2 });
    assert_eq!(next_step(5, 2, 2, 7, 4), NextStep::Deliver { cursor: 5, slot: 1 });
    assert_eq!(next_step(2, 2, 3, 5, 4), NextStep::Retry);
    assert_eq!(next_step(5, 2, 2, 5, 4), NextStep::Retry);
}

#[test]
fn pop_plans() {
    assert_eq!(pop_plan(true, 7).unwrap(), (7, 8));
    assert!(matches!(pop_plan(false, 7), Err(ChannelError::NoPending)));
}

#[test]
fn start_plans() {
    let p = start_plan(ReaderStart::FromBeginning, 3, 9);
    assert_eq!((p.cursor, p.publish_read), (3, false));
    let p = start_plan(ReaderStart::FromLatest, 3, 9);
    assert_eq!((p.cursor, p.publish_read), (9, true));
}

#[test]
fn fresh_header() {
    let l = RingLayout::new::<u32>(16).unwrap();
    let h = initial_header(&l, true);
    assert_eq!((h.write, h.read, h.capacity, h.item_size), (0, 0, 16, 4));
    assert!(h.overwrite && h.ready);
}

#[test]
fn fifo_without_overwrite() {
    let mut r = SimRing::new(4, false);
    assert_eq!(r.send(&[1, 2, 3]).unwrap(), 3);
    assert_eq!(r.recv(2).unwrap(), vec![1, 2]);
    assert_eq!(r.send(&[4, 5, 6]).unwrap(), 1);
    assert_eq!(r.send(&[5, 6]).unwrap(), 2);
    assert!(matches!(r.send(&[7]), Err(ChannelError::Full)));
    assert_eq!(r.drain(), vec![3, 4, 5, 6]);
    assert!(matches!(r.recv(1), Err(ChannelError::Empty)));
}

#[test]
fn overwrite_keeps_newest() {
    let mut r = SimRing::new(4, true);
    let mut next = 1u32;
    for _ in 0..10 {
        r.send(&[next]).unwrap();
        next += 1;
    }
    assert_eq!(queued_len(r.write, r.read, 4), 4);
    assert_eq!(r.drain(), vec![7, 8, 9, 10]);
}

#[test]
fn peek_then_pop_consumes_front() {
    let mut r = SimRing::new(4, false);
    r.send(&[10, 20, 30]).unwrap();
    let prev = next_claim(r.read, r.read, r.write).unwrap() - 1;
    match next_step(prev, r.read, r.read, r.write, 4) {
        NextStep::Deliver { cursor, slot } => {
            assert_eq!(r.slots[slot], 10);
            let (from, to) = pop_plan(true, cursor).unwrap();
            assert_eq!(from, r.read);
            r.read = to;
        }
        NextStep::Retry => panic!("live item reported as gone"),
    }
    assert_eq!(r.drain(), vec![20, 30]);
}

#[test]
fn single_sends_then_single_recvs_in_order() {
    let cap = 5usize;
    let mut slots = vec![0u32; cap];
    let (mut write, mut read) = (7u64, 7u64);
    for v in 1..=5u32 {
        let w = plan_send(write, read, cap, false).unwrap();
        let n = single_item_count(w.contiguous);
        slots[w.start] = v;
        let c = commit_send(write, read, cap, false, w.contiguous, n).unwrap();
        write = c.new_write;
        read = c.new_read;
    }
    assert!(matches!(plan_send(write, read, cap, false), Err(ChannelError::Full)));
    let mut got = Vec::new();
    for _ in 0..5 {
        let w = plan_recv(write, read, cap).unwrap();
        let n = single_item_count(w.contiguous);
        let value = Some(slots[w.start]);
        let (k, new_read) = recv_consumption(read, w.contiguous, n);
        read = new_read;
        got.push(single_recv_outcome(value, claim_outcome(true, k)).unwrap());
    }
    assert_eq!(got, vec![1, 2, 3, 4, 5]);
    assert!(matches!(plan_recv(write, read, cap), Err(ChannelError::Empty)));
}

#[test]
fn second_pop_of_same_position_is_stale() {
    let read = 4u64;
    let (from, to) = pop_plan(true, 4).unwrap();
    let first = from == read;
    let read = if first { to } else { read };
    let second = from == read;
    assert!(claim_outcome(first, 1).is_ok());
    assert!(matches!(claim_outcome(second, 1), Err(ChannelError::StaleCursor)));
}
