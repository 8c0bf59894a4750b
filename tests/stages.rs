use std::collections::{HashMap, VecDeque};

use stage_throttle::gate::{Gate, Lease};
use stage_throttle::semaphores::{
    file_load_weight, Semaphores, StageCapacities, StageGates, BYTES_PER_MB,
    MAX_SIMULTANEOUS_CREATE_CHUNK, MAX_SIMULTANEOUS_CREATE_CHUNK_CALLS,
    MAX_SIMULTANEOUS_CREATE_CHUNK_WAITS, MAX_SIMULTANEOUS_LOADED_MB,
};

#[test]
fn standard_capacities() {
    let c = StageCapacities::standard();
    assert_eq!(c.file_load_mb, 50);
    assert_eq!(c.create_chunk, 50);
    assert_eq!(c.create_chunk_call, 25);
    assert_eq!(c.create_chunk_wait, 25);
    assert_eq!(MAX_SIMULTANEOUS_LOADED_MB, 50);
    assert_eq!(MAX_SIMULTANEOUS_CREATE_CHUNK, 50);
    assert_eq!(MAX_SIMULTANEOUS_CREATE_CHUNK_CALLS, 25);
    assert_eq!(MAX_SIMULTANEOUS_CREATE_CHUNK_WAITS, 25);
}

#[test]
fn semaphores_start_with_their_capacity() {
    let s = Semaphores::new();
    assert_eq!(s.capacities, StageCapacities::standard());
    assert_eq!(s.file.semaphore.permits(), 50);
    assert_eq!(s.create_chunk.semaphore.permits(), 50);
    assert_eq!(s.create_chunk_call.semaphore.permits(), 25);
    assert_eq!(s.create_chunk_wait.semaphore.permits(), 25);
    let all = s.file.semaphore.try_acquire(50);
    assert!(all.is_some());
    assert!(s.file.semaphore.try_acquire(1).is_none());
    drop(all);
    assert_eq!(s.file.semaphore.permits(), 50);
}

#[test]
fn sessions_have_isolated_semaphores() {
    let caps = StageCapacities {
        file_load_mb: 7,
        create_chunk: 4,
        create_chunk_call: 2,
        create_chunk_wait: 3,
    };
    let a = Semaphores::with_capacities(caps);
    let b = Semaphores::with_capacities(caps);
    assert_eq!(a.capacities, caps);
    let _held = a.create_chunk_call.semaphore.try_acquire(2).unwrap();
    assert_eq!(a.create_chunk_call.semaphore.permits(), 0);
    assert_eq!(b.create_chunk_call.semaphore.permits(), 2);
    assert_eq!(a.file.semaphore.permits(), 7);
    assert_eq!(a.create_chunk.semaphore.permits(), 4);
    assert_eq!(a.create_chunk_wait.semaphore.permits(), 3);
}

#[test]
fn file_weight_rounds_megabytes_up() {
    assert_eq!(BYTES_PER_MB, 1_000_000);
    assert_eq!(file_load_weight(0, 50), 1);
    assert_eq!(file_load_weight(1, 50), 1);
    assert_eq!(file_load_weight(1_000_000, 50), 1);
    assert_eq!(file_load_weight(1_000_001, 50), 2);
    assert_eq!(file_load_weight(10_000_000, 50), 10);
    assert_eq!(file_load_weight(49_999_999, 50), 50);
}

#[test]
fn file_larger_than_budget_takes_the_whole_budget() {
    assert_eq!(file_load_weight(75_000_000, 50), 50);
    assert_eq!(file_load_weight(usize::MAX, 50), 50);
}

#[test]
fn stage_gates_start_empty() {
    let g = StageGates::new(StageCapacities::standard());
    assert_eq!(g.file.capacity(), 50);
    assert_eq!(g.create_chunk.capacity(), 50);
    assert_eq!(g.create_chunk_call.capacity(), 25);
    assert_eq!(g.create_chunk_wait.capacity(), 25);
    assert_eq!(g.file.outstanding(), 0);
    assert_eq!(g.create_chunk_wait.waiting_count(), 0);
}

#[test]
fn memory_bound_scenario() {
    let mut g = StageGates::new(StageCapacities::standard());
    let mut held: Vec<Lease> = Vec::new();
    let mut sixth = 0;
    for i in 0..6 {
        let w = file_load_weight(10 * BYTES_PER_MB, g.file.capacity());
        assert_eq!(w, 10);
        let a = g.file.request(w).unwrap();
        if i < 5 {
            assert_eq!(a.granted.len(), 1);
        } else {
            assert!(a.granted.is_empty());
            sixth = a.ticket;
        }
        held.extend(a.granted);
        assert!(g.file.outstanding() <= 50);
    }
    assert_eq!(g.file.outstanding(), 50);
    assert_eq!(g.file.held_count(), 5);
    assert_eq!(g.file.waiting_count(), 1);
    let granted = g.file.release(held.remove(0)).ok().unwrap();
    assert_eq!(granted.len(), 1);
    assert_eq!(granted[0].ticket(), sixth);
    assert_eq!(g.file.outstanding(), 50);
}

fn check_bounds(g: &StageGates, max_chunks: &mut usize, max_calls: &mut usize) {
    assert!(g.create_chunk.outstanding() <= 50);
    assert!(g.create_chunk_call.outstanding() <= 25);
    assert!(g.create_chunk_wait.outstanding() <= 25);
    *max_chunks = (*max_chunks).max(g.create_chunk.outstanding());
    *max_calls = (*max_calls).max(g.create_chunk_call.outstanding());
}

fn request_one(gate: &mut Gate, owner: &mut HashMap<u64, usize>, chunk: usize, ready: &mut VecDeque<Lease>) {
    let a = gate.request(1).unwrap();
    owner.insert(a.ticket, chunk);
    ready.extend(a.granted);
}

#[test]
fn retry_amplification_scenario() {
    let chunks = 200;
    let attempts_needed = 3;
    let mut g = StageGates::new(StageCapacities::standard());
    let mut chunk_owner: HashMap<u64, usize> = HashMap::new();
    let mut call_owner: HashMap<u64, usize> = HashMap::new();
    let mut wait_owner: HashMap<u64, usize> = HashMap::new();
    let mut chunk_lease: HashMap<usize, Lease> = HashMap::new();
    let mut attempts = vec![0u32; chunks];
    let mut ready_chunks: VecDeque<Lease> = VecDeque::new();
    let mut ready_calls: VecDeque<Lease> = VecDeque::new();
    let mut ready_waits: VecDeque<Lease> = VecDeque::new();
    let (mut max_chunks, mut max_calls) = (0usize, 0usize);
    let mut done = 0;

    for c in 0..chunks {
        request_one(&mut g.create_chunk, &mut chunk_owner, c, &mut ready_chunks);
        check_bounds(&g, &mut max_chunks, &mut max_calls);
    }
    while done < chunks {
        if let Some(l) = ready_chunks.pop_front() {
            let c = chunk_owner[&l.ticket()];
            chunk_lease.insert(c, l);
            request_one(&mut g.create_chunk_call, &mut call_owner, c, &mut ready_calls);
        } else if let Some(l) = ready_calls.pop_front() {
            // The call has been sent: its slot frees, and the wait for its result begins.
            let c = call_owner[&l.ticket()];
            ready_calls.extend(g.create_chunk_call.release(l).ok().unwrap());
            check_bounds(&g, &mut max_chunks, &mut max_calls);
            request_one(&mut g.create_chunk_wait, &mut wait_owner, c, &mut ready_waits);
        } else if let Some(l) = ready_waits.pop_front() {
            let c = wait_owner[&l.ticket()];
            ready_waits.extend(g.create_chunk_wait.release(l).ok().unwrap());
            attempts[c] += 1;
            if attempts[c] == attempts_needed {
                let lease = chunk_lease.remove(&c).unwrap();
                ready_chunks.extend(g.create_chunk.release(lease).ok().unwrap());
                done += 1;
            } else {
                request_one(&mut g.create_chunk_call, &mut call_owner, c, &mut ready_calls);
            }
        } else {
            panic!("no progress");
        }
        check_bounds(&g, &mut max_chunks, &mut max_calls);
    }
    assert_eq!(max_chunks, 50);
    assert_eq!(max_calls, 25);
    assert!(attempts.iter().all(|a| *a == 3));
    assert_eq!(g.create_chunk.outstanding(), 0);
    assert_eq!(g.create_chunk_call.outstanding(), 0);
    assert_eq!(g.create_chunk_wait.outstanding(), 0);
}

struct NoWake;

impl std::task::Wake for NoWake {
    fn wake(self: std::sync::Arc<Self>) {}
}

fn poll_once<F: std::future::Future + Unpin>(f: &mut F) -> std::task::Poll<F::Output> {
    let waker = std::task::Waker::from(std::sync::Arc::new(NoWake));
    let mut cx = std::task::Context::from_waker(&waker);
    std::pin::Pin::new(f).poll(&mut cx)
}

#[test]
fn memory_bound_scenario_on_session_semaphores() {
    let s = Semaphores::new();
    let file = &s.file.semaphore;
    let w = file_load_weight(10 * BYTES_PER_MB, s.capacities.file_load_mb);
    let mut held = Vec::new();
    for _ in 0..5 {
        held.push(file.try_acquire(w).unwrap());
    }
    assert_eq!(file.permits(), 0);
    assert!(file.try_acquire(w).is_none());
    let mut sixth = Box::pin(file.acquire(w));
    assert!(poll_once(&mut sixth).is_pending());
    // A later, smaller request may not pass the waiting one.
    assert!(file.try_acquire(1).is_none());
    drop(held.remove(0));
    let lease = match poll_once(&mut sixth) {
        std::task::Poll::Ready(l) => l,
        std::task::Poll::Pending => panic!("the sixth file should load after a release"),
    };
    assert_eq!(file.permits(), 0);
    drop(lease);
    assert_eq!(file.permits(), 10);
}

#[test]
fn retry_amplification_bounds_on_session_semaphores() {
    let s = Semaphores::new();
    let mut chunks = Vec::new();
    for _ in 0..200 {
        if let Some(l) = s.create_chunk.semaphore.try_acquire(1) {
            chunks.push(l);
        }
    }
    assert_eq!(chunks.len(), 50);
    for attempt in 0..3 {
        let mut calls = Vec::new();
        for _ in 0..chunks.len() {
            if let Some(l) = s.create_chunk_call.semaphore.try_acquire(1) {
                calls.push(l);
            }
        }
        assert_eq!(calls.len(), 25, "attempt {}", attempt);
        assert_eq!(s.create_chunk_call.semaphore.permits(), 0);
        let mut waits = Vec::new();
        for _ in 0..chunks.len() {
            if let Some(l) = s.create_chunk_wait.semaphore.try_acquire(1) {
                waits.push(l);
            }
        }
        assert_eq!(waits.len(), 25);
        drop(calls);
        drop(waits);
        assert_eq!(s.create_chunk_call.semaphore.permits(), 25);
        assert_eq!(s.create_chunk_wait.semaphore.permits(), 25);
        assert_eq!(s.create_chunk.semaphore.permits(), 0);
    }
    drop(chunks);
    assert_eq!(s.create_chunk.semaphore.permits(), 50);
}
