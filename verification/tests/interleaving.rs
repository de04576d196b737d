use lockfree_queue::{Interleaving, Turn};
use std::collections::HashSet;

/// A producer or consumer as one thread would run it: one operation at a time.
struct Worker {
    current: Option<usize>,
    next_item: i32,
    last_item: i32,
}

#[test]
fn fresh_interleaving_is_empty() {
    let mut system: Interleaving<i32> = Interleaving::new();
    assert_eq!(system.pushes.len(), 0);
    assert_eq!(system.pops.len(), 0);
    assert_eq!(system.queue.len(), 0);
    assert!(!system.step(Turn::Push(0)));
    assert!(!system.step(Turn::Pop(0)));
    assert_eq!(system.queue.pop(), None);
}

#[test]
fn operations_are_numbered_in_the_order_they_start() {
    let mut system = Interleaving::new();
    assert_eq!(system.start_push('x'), 0);
    assert_eq!(system.start_push('y'), 1);
    assert_eq!(system.start_pop(), 0);
    assert_eq!(system.start_push('z'), 2);
    assert_eq!(system.start_pop(), 1);
    assert_eq!(system.pushes.len(), 3);
    assert_eq!(system.pops.len(), 2);
    assert_eq!(system.queue.len(), 0);
}

#[test]
fn step_reports_whether_a_step_was_taken() {
    let mut system = Interleaving::new();
    let push = system.start_push(1);
    let pop = system.start_pop();
    assert!(!system.step(Turn::Push(push + 1)));
    assert!(!system.step(Turn::Pop(pop + 1)));
    for _ in 0..5 {
        assert!(system.step(Turn::Push(push)));
    }
    assert!(!system.step(Turn::Push(push)));
    assert_eq!(system.queue.len(), 1);
    for _ in 0..5 {
        assert!(system.step(Turn::Pop(pop)));
    }
    assert!(!system.step(Turn::Pop(pop)));
    assert_eq!(system.queue.len(), 0);
    let taken = system.pops.remove(pop).into_result();
    assert_eq!(taken, Some(1));
}

#[test]
fn alternating_steps_of_two_insertions_keep_both_values() {
    let mut system = Interleaving::new();
    let a = system.start_push("a");
    let b = system.start_push("b");
    let mut guard = 0;
    while !(system.pushes[a].is_done() && system.pushes[b].is_done()) {
        system.step(Turn::Push(a));
        system.step(Turn::Push(b));
        guard += 1;
        assert!(guard < 100);
    }
    assert_eq!(system.queue.len(), 2);
    assert_eq!(system.queue.pop(), Some("a"));
    assert_eq!(system.queue.pop(), Some("b"));
    assert_eq!(system.queue.pop(), None);
}

#[test]
fn alternating_steps_of_two_removals_take_each_value_once() {
    let mut system = Interleaving::new();
    system.queue.push(1);
    system.queue.push(2);
    system.queue.push(3);
    let a = system.start_pop();
    let b = system.start_pop();
    let mut guard = 0;
    while !(system.pops[a].is_done() && system.pops[b].is_done()) {
        system.step(Turn::Pop(a));
        system.step(Turn::Pop(b));
        guard += 1;
        assert!(guard < 100);
    }
    let second = system.pops.remove(b).into_result();
    let first = system.pops.remove(a).into_result();
    assert_eq!(first, Some(1));
    assert_eq!(second, Some(2));
    assert_eq!(system.queue.len(), 1);
    assert_eq!(system.queue.pop(), Some(3));
}

#[test]
fn four_producers_and_two_consumers_in_round_robin() {
    let mut system: Interleaving<i32> = Interleaving::new();
    let mut producers: Vec<Worker> = (0..4)
        .map(|i| Worker { current: None, next_item: i * 1000, last_item: i * 1000 + 1000 })
        .collect();
    let mut consumers: Vec<Option<usize>> = vec![None, None];
    let mut tickets = 2000;
    let mut consumed: Vec<i32> = Vec::new();
    let mut finished_pops: Vec<usize> = Vec::new();

    let mut rounds = 0u64;
    loop {
        let mut active = false;
        for producer in producers.iter_mut() {
            if producer.current.is_none() && producer.next_item < producer.last_item {
                producer.current = Some(system.start_push(producer.next_item));
                producer.next_item += 1;
            }
            if let Some(op) = producer.current {
                active = true;
                system.step(Turn::Push(op));
                if system.pushes[op].is_done() {
                    producer.current = None;
                }
            }
        }
        for consumer in consumers.iter_mut() {
            if consumer.is_none() && tickets > 0 {
                tickets -= 1;
                *consumer = Some(system.start_pop());
            }
            if let Some(op) = *consumer {
                active = true;
                system.step(Turn::Pop(op));
                if system.pops[op].is_done() {
                    finished_pops.push(op);
                    *consumer = None;
                }
            }
        }
        if !active {
            break;
        }
        rounds += 1;
        assert!(rounds < 1_000_000);
    }

    let mut results: Vec<Option<i32>> = Vec::new();
    for op in system.pops.drain(..) {
        results.push(op.into_result());
    }
    for op in finished_pops {
        match results[op] {
            Some(value) => consumed.push(value),
            None => tickets += 1,
        }
    }
    let missed = tickets;
    assert_eq!(consumed.len() + missed, 2000);
    for _ in 0..missed {
        consumed.push(system.queue.pop().expect("a value was still owed"));
    }

    assert_eq!(consumed.len(), 2000);
    assert_eq!(system.queue.len(), 2000);
    let distinct: HashSet<i32> = consumed.iter().copied().collect();
    assert_eq!(distinct.len(), 2000);
    assert!(consumed.iter().all(|v| (0..4000).contains(v)));

    let mut rest = Vec::new();
    while let Some(value) = system.queue.pop() {
        rest.push(value);
    }
    assert_eq!(rest.len(), 2000);
    assert_eq!(system.queue.len(), 0);
    let mut all: Vec<i32> = consumed.iter().copied().chain(rest.iter().copied()).collect();
    all.sort();
    assert_eq!(all, (0..4000).collect::<Vec<i32>>());
}

#[test]
fn each_producer_sees_its_values_leave_in_order() {
    let mut system: Interleaving<u32> = Interleaving::new();
    let mut current: Vec<Option<usize>> = vec![None, None, None];
    let mut next: Vec<u32> = vec![0, 0, 0];
    let mut seed: u64 = 0x2545_f491_4f6c_dd1d;
    let mut guard = 0u64;
    while next.iter().any(|n| *n < 200) || current.iter().any(|c| c.is_some()) {
        seed = seed.wrapping_mul(6364136223846793005).wrapping_add(1442695040888963407);
        let who = ((seed >> 33) % 3) as usize;
        if current[who].is_none() && next[who] < 200 {
            current[who] = Some(system.start_push(who as u32 * 1000 + next[who]));
            next[who] += 1;
        }
        if let Some(op) = current[who] {
            system.step(Turn::Push(op));
            if system.pushes[op].is_done() {
                current[who] = None;
            }
        }
        guard += 1;
        assert!(guard < 1_000_000);
    }
    assert_eq!(system.queue.len(), 600);
    let mut expected: Vec<u32> = vec![0, 0, 0];
    while let Some(value) = system.queue.pop() {
        let who = (value / 1000) as usize;
        assert_eq!(value % 1000, expected[who]);
        expected[who] += 1;
    }
    assert_eq!(expected, vec![200, 200, 200]);
}

#[test]
fn random_schedule_neither_loses_nor_repeats_a_value() {
    for trial in 0..20u64 {
        let mut system: Interleaving<u64> = Interleaving::new();
        for value in 0..40u64 {
            system.start_push(value);
        }
        for _ in 0..30 {
            system.start_pop();
        }
        let mut seed: u64 = 0x9e37_79b9_7f4a_7c15 ^ (trial * 7919);
        let mut steps = 0u64;
        loop {
            let pushes_done = system.pushes.iter().all(|op| op.is_done());
            let pops_done = system.pops.iter().all(|op| op.is_done());
            if pushes_done && pops_done {
                break;
            }
            seed = seed.wrapping_mul(6364136223846793005).wrapping_add(1442695040888963407);
            let pick = (seed >> 33) % 70;
            let turn = if pick < 40 {
                Turn::Push(pick as usize)
            } else {
                Turn::Pop((pick - 40) as usize)
            };
            system.step(turn);
            steps += 1;
            assert!(steps < 10_000_000);
        }

        let mut taken: Vec<u64> = Vec::new();
        for op in system.pops.drain(..) {
            if let Some(value) = op.into_result() {
                taken.push(value);
            }
        }
        assert_eq!(system.queue.len(), 40 - taken.len());
        let distinct: HashSet<u64> = taken.iter().copied().collect();
        assert_eq!(distinct.len(), taken.len());
        let mut all = taken.clone();
        while let Some(value) = system.queue.pop() {
            all.push(value);
        }
        assert_eq!(system.queue.len(), 0);
        all.sort();
        assert_eq!(all, (0..40).collect::<Vec<u64>>());
    }
}

#[test]
fn values_leave_in_the_order_they_were_linked() {
    let mut system: Interleaving<u32> = Interleaving::new();
    for value in 0..30u32 {
        system.start_push(value);
    }
    let mut linked: Vec<u32> = Vec::new();
    let mut seed: u64 = 42;
    let mut guard = 0u64;
    while !system.pushes.iter().all(|op| op.is_done()) {
        seed = seed.wrapping_mul(6364136223846793005).wrapping_add(1442695040888963407);
        let pick = ((seed >> 33) % 30) as usize;
        let was_linking = system.pushes[pick].is_linking();
        system.step(Turn::Push(pick));
        if was_linking && !system.pushes[pick].is_pausing() {
            linked.push(pick as u32);
        }
        guard += 1;
        assert!(guard < 1_000_000);
    }
    assert_eq!(linked.len(), 30);
    let mut left: Vec<u32> = Vec::new();
    while let Some(value) = system.queue.pop() {
        left.push(value);
    }
    assert_eq!(left, linked);
}
