use vilya::future::{CompletionState, PollStep};
use vilya::owned::{KernelHeap, KernelOwned};
use vilya::reactor::{
    answerable_count, process_round, process_uring, take_answer, Completion, Reactor, NR_CPU,
};
use vilya::read::{
    process_uring_counted, set_result_counted, Checker, CheckerCount, CompletionRef, Fut, Read,
};
use vilya::sqe::Sqe;

/// Puts an object on the heap that waits for an answer on behalf of `waker`.
fn in_progress(reactor: &mut Reactor<u8>, waker: u64) -> (KernelOwned<u8>, u64) {
    let owned = KernelOwned::new(&mut reactor.heap, waker as u8);
    let user_data = owned.place_in_kernel(&mut reactor.heap);
    *owned.state_mut(&mut reactor.heap) = CompletionState::InProgress { waker };
    (owned, user_data)
}

#[test]
fn answers_are_recorded_and_their_wakers_come_first() {
    let mut reactor = Reactor::new();
    let (one, one_data) = in_progress(&mut reactor, 101);
    let (two, two_data) = in_progress(&mut reactor, 102);
    let (three, _) = in_progress(&mut reactor, 103);
    two.release(&mut reactor.heap);
    reactor.waiting.push(7);
    reactor.waiting.push(8);

    let completions = vec![
        Completion { user_data: two_data, result: -5 },
        Completion { user_data: one_data, result: 10 },
    ];
    assert_eq!(answerable_count(&reactor.heap, &completions), 2);
    assert_eq!(process_uring(&mut reactor, &completions), vec![102, 101, 7, 8]);

    let object = one.object(&reactor.heap).unwrap();
    assert_eq!(object.header.state, CompletionState::Completed { result: 10 });
    assert_eq!(object.header.ref_count, 1);
    assert!(reactor.heap.get(two_data).is_none());
    assert_eq!(*three.state(&reactor.heap), CompletionState::InProgress { waker: 103 });
    assert_eq!(reactor.rounds, 1);
    assert_eq!(reactor.completed, 2);
    assert_eq!(reactor.waiting.pop(), None);
}

#[test]
fn a_round_wakes_a_bounded_number_of_waiting_tasks() {
    let mut reactor: Reactor<u8> = Reactor::new();
    for waker in 0..300u64 {
        reactor.waiting.push(waker);
    }
    let woken = process_uring(&mut reactor, &Vec::new());
    assert_eq!(woken, (0..256u64).collect::<Vec<u64>>());
    assert_eq!(woken.len(), NR_CPU * NR_CPU);
    let woken = process_uring(&mut reactor, &Vec::new());
    assert_eq!(woken, (256..300u64).collect::<Vec<u64>>());
    assert_eq!(process_uring(&mut reactor, &Vec::new()), Vec::<u64>::new());
    assert_eq!(reactor.rounds, 3);
    assert_eq!(reactor.completed, 0);
}

#[test]
fn counters_wrap_around() {
    let mut reactor: Reactor<u8> = Reactor::new();
    reactor.rounds = usize::MAX;
    reactor.completed = usize::MAX;
    let (_, user_data) = in_progress(&mut reactor, 1);
    process_uring(&mut reactor, &vec![Completion { user_data, result: 0 }]);
    assert_eq!(reactor.rounds, 0);
    assert_eq!(reactor.completed, 0);
}

#[test]
fn batches_can_be_split() {
    let mut whole = Reactor::new();
    let mut split = Reactor::new();
    let mut completions = Vec::new();
    for waker in 1..=6u64 {
        let (_, user_data) = in_progress(&mut whole, waker);
        assert_eq!(in_progress(&mut split, waker).1, user_data);
        completions.push(Completion { user_data, result: waker as i32 });
    }
    let together = process_uring(&mut whole, &completions);
    let mut parts = process_uring(&mut split, &completions[..2].to_vec());
    parts.extend(process_uring(&mut split, &completions[2..].to_vec()));
    assert_eq!(together, parts);
    assert_eq!(together, vec![1, 2, 3, 4, 5, 6]);
    for completion in &completions {
        let left = whole.heap.get(completion.user_data).unwrap();
        let right = split.heap.get(completion.user_data).unwrap();
        assert_eq!(left.header.state, right.header.state);
        assert_eq!(left.header.ref_count, right.header.ref_count);
    }
}

#[test]
fn only_pending_operations_are_answerable() {
    let mut reactor = Reactor::new();
    let (_, user_data) = in_progress(&mut reactor, 1);
    let idle = KernelOwned::new(&mut reactor.heap, 0u8);
    let idle_data = idle.place_in_kernel(&mut reactor.heap);
    let answer = Completion { user_data, result: 0 };
    let stray = Completion { user_data: 99, result: 0 };
    assert_eq!(answerable_count(&reactor.heap, &vec![]), 0);
    assert_eq!(answerable_count(&reactor.heap, &vec![answer]), 1);
    assert_eq!(answerable_count(&reactor.heap, &vec![answer, answer]), 1);
    assert_eq!(
        answerable_count(
            &reactor.heap,
            &vec![answer, Completion { user_data: idle_data, result: 0 }]
        ),
        1
    );
    assert_eq!(answerable_count(&reactor.heap, &vec![answer, stray, answer]), 1);
    assert_eq!(answerable_count(&reactor.heap, &vec![stray, answer]), 0);
    process_uring(&mut reactor, &vec![answer]);
    assert_eq!(answerable_count(&reactor.heap, &vec![answer]), 0);
}

#[test]
fn borrowed_reads_build_their_entry() {
    let mut buf = [0u8; 100];
    let addr = buf.as_ptr() as u64;
    let read = Read::new(9, &mut buf, 4096);
    let expected = Sqe {
        opcode: 22,
        fd: 9,
        off: 4096,
        addr,
        len: 100,
        user_data: 55,
        ..Sqe::zeroed()
    };
    assert_eq!(read.build(55), expected);
    assert_eq!(read.build_at(1, 55), Sqe { addr: 1, ..expected });
}

#[test]
fn many_reads_complete_and_nothing_is_left() {
    let mut reactor = Reactor::new();
    let mut checkers = CheckerCount::new();
    let stress = 20_000usize;
    let batch = 100usize;
    for round in 0..stress / batch {
        let mut bufs = vec![[0u8; 100]; batch];
        let mut futures = Vec::new();
        let mut completions = Vec::new();
        for (i, buf) in bufs.iter_mut().enumerate() {
            let read = Read::new(3, &mut buf[..], i as u64);
            let future = Fut::counted(&mut reactor.heap, read, &mut checkers);
            match future.poll(&mut reactor.heap, &mut reactor.waiting, false, i as u64) {
                PollStep::Submit { entry } => {
                    assert_eq!(entry.off, i as u64);
                    assert_eq!(entry.len, 100);
                    completions.push(Completion { user_data: entry.user_data, result: 100 });
                }
                _ => panic!("not submitted"),
            }
            futures.push(future);
        }
        assert_eq!(checkers.get(), batch);
        let woken = process_uring_counted(&mut reactor, &completions, &mut checkers);
        assert_eq!(checkers.get(), batch);
        assert_eq!(woken, (0..batch as u64).collect::<Vec<u64>>());
        for future in futures {
            match future.poll(&mut reactor.heap, &mut reactor.waiting, false, 0) {
                PollStep::Ready { output } => assert_eq!(output, Ok(100)),
                _ => panic!("not ready"),
            }
            let object = future.object(&reactor.heap).unwrap();
            assert_eq!(object.header.ref_count, 1);
            assert_eq!(object.data.as_ref().unwrap().0, vec![0u8]);
            future.release_counted(&mut reactor.heap, &mut checkers);
        }
        assert_eq!(checkers.get(), 0);
        for completion in completions {
            assert!(reactor.heap.get(completion.user_data).is_none());
        }
        assert_eq!(reactor.rounds, round + 1);
    }
    assert_eq!(stress - reactor.completed, 0);
    assert_eq!(checkers.get(), 0);
}

#[test]
fn lmao_test() {
    let file = b"[package]\nname = \"vilya\"\nedition = \"2021\"\n";
    let mut reactor = Reactor::new();
    let mut bufs = vec![[0u8; 1]; file.len()];
    let mut futures = Vec::new();
    let mut completions = Vec::new();
    for (i, buf) in bufs.iter_mut().enumerate() {
        let addr = buf.as_ptr() as u64;
        let future = Fut::new(&mut reactor.heap, Read::new(5, buf, i as u64), ());
        match future.poll(&mut reactor.heap, &mut reactor.waiting, false, 1_000 + i as u64) {
            PollStep::Submit { entry } => {
                let user_data = entry.user_data;
                let expected = Sqe {
                    opcode: 22,
                    fd: 5,
                    off: i as u64,
                    addr,
                    len: 1,
                    user_data,
                    ..Sqe::zeroed()
                };
                assert_eq!(entry, expected);
                completions.push(Completion { user_data, result: 1 });
            }
            _ => panic!("not submitted"),
        }
        futures.push(future);
    }
    let woken = process_uring(&mut reactor, &completions);
    assert_eq!(woken, (0..file.len() as u64).map(|i| 1_000 + i).collect::<Vec<u64>>());
    for future in futures {
        match future.poll(&mut reactor.heap, &mut reactor.waiting, false, 0) {
            PollStep::Ready { output } => assert_eq!(output, Ok(1)),
            _ => panic!("not ready"),
        }
        future.release(&mut reactor.heap);
    }
    assert_eq!(reactor.completed, file.len());
}

#[test]
fn reads_make_their_own_checker() {
    let mut heap = KernelHeap::new();
    let mut count = CheckerCount::new();
    let mut buf = [0u8; 4];
    let _completion = CompletionRef::counted(&mut heap, &mut count);
    assert_eq!(count.get(), 1);
    let future = Fut::counted(&mut heap, Read::new(1, &mut buf, 0), &mut count);
    assert_eq!(count.get(), 2);
    let data = future.object(&heap).unwrap().data.as_ref().unwrap();
    assert_eq!(data.0, vec![0u8]);
    future.release_counted(&mut heap, &mut count);
    assert_eq!(count.get(), 1);
}

/// Submits `future` for the waker `waker` and returns its user data.
fn submit(
    reactor: &mut Reactor<(Vec<u8>, Checker)>,
    future: &Fut<'_, Checker>,
    waker: u64,
) -> u64 {
    match future.poll(&mut reactor.heap, &mut reactor.waiting, false, waker) {
        PollStep::Submit { entry } => entry.user_data,
        _ => panic!("not submitted"),
    }
}

#[test]
fn the_last_handle_takes_the_checker_along() {
    let mut reactor = Reactor::new();
    let mut count = CheckerCount::new();
    let (mut one, mut two, mut three) = ([0u8; 4], [0u8; 4], [0u8; 4]);
    let first = Fut::counted(&mut reactor.heap, Read::new(1, &mut one, 0), &mut count);
    let second = Fut::counted(&mut reactor.heap, Read::new(1, &mut two, 0), &mut count);
    let third = Fut::counted(&mut reactor.heap, Read::new(1, &mut three, 0), &mut count);
    let names = [
        submit(&mut reactor, &first, 1),
        submit(&mut reactor, &second, 2),
        submit(&mut reactor, &third, 3),
    ];
    // The future ends before the kernel answers: the answer takes the checker along.
    first.release_counted(&mut reactor.heap, &mut count);
    second.release_counted(&mut reactor.heap, &mut count);
    assert_eq!(count.get(), 3);
    assert_eq!(set_result_counted(&mut reactor.heap, names[0], 4, &mut count), 1);
    assert_eq!(count.get(), 2);
    let completions = vec![
        Completion { user_data: names[2], result: 4 },
        Completion { user_data: names[1], result: 4 },
    ];
    assert_eq!(process_uring_counted(&mut reactor, &completions, &mut count), vec![3, 2]);
    assert_eq!(count.get(), 1);
    // The kernel answers before the future ends: the future takes the checker along.
    third.release_counted(&mut reactor.heap, &mut count);
    assert_eq!(count.get(), 0);
    for name in names {
        assert!(reactor.heap.get(name).is_none());
    }
}

#[test]
fn the_kernels_last_handle_hands_the_object_out() {
    let mut reactor = Reactor::new();
    let (kept, kept_name) = in_progress(&mut reactor, 1);
    let (ended, ended_name) = in_progress(&mut reactor, 2);
    ended.release(&mut reactor.heap);
    let (waker, freed) =
        take_answer(&mut reactor.heap, Completion { user_data: kept_name, result: 5 });
    assert_eq!(waker, 1);
    assert!(freed.is_none());
    let (waker, freed) =
        take_answer(&mut reactor.heap, Completion { user_data: ended_name, result: 6 });
    assert_eq!(waker, 2);
    let freed = freed.unwrap();
    assert_eq!(freed.header.state, CompletionState::Completed { result: 6 });
    assert_eq!(freed.header.ref_count, 1);
    assert!(freed.data.is_some());
    assert!(reactor.heap.get(ended_name).is_none());
    assert!(kept.reclaim(&mut reactor.heap).is_some());
}

#[test]
fn a_round_without_strays_is_a_processed_ring() {
    let mut reactor = Reactor::new();
    let (ended, user_data) = in_progress(&mut reactor, 1);
    ended.release(&mut reactor.heap);
    reactor.waiting.push(70);
    let round = process_round(&mut reactor, &vec![Completion { user_data, result: 0 }]);
    assert_eq!(round.answered, 1);
    assert_eq!(round.woken, vec![1, 70]);
    assert_eq!(round.freed.len(), 1);
    assert_eq!((reactor.rounds, reactor.completed), (1, 1));
    assert!(reactor.heap.get(user_data).is_none());
}

#[test]
fn a_round_stops_at_a_stray_answer() {
    let mut reactor = Reactor::new();
    let (_one, first) = in_progress(&mut reactor, 1);
    let (_two, second) = in_progress(&mut reactor, 2);
    reactor.waiting.push(70);
    let completions = vec![
        Completion { user_data: first, result: 10 },
        Completion { user_data: first, result: 11 },
        Completion { user_data: second, result: 12 },
    ];
    let round = process_round(&mut reactor, &completions);
    assert_eq!(round.answered, 1);
    assert_eq!(round.woken, vec![1]);
    // The second answer is recorded, and takes the last handle along.
    assert_eq!(round.freed.len(), 1);
    assert_eq!(round.freed[0].header.state, CompletionState::Completed { result: 11 });
    assert!(reactor.heap.get(first).is_none());
    let untouched = reactor.heap.get(second).unwrap();
    assert_eq!(untouched.header.state, CompletionState::InProgress { waker: 2 });
    assert_eq!((reactor.rounds, reactor.completed), (1, 2));

    let round = process_round(&mut reactor, &vec![Completion { user_data: 99, result: 0 }]);
    assert_eq!(round.answered, 0);
    assert_eq!(round.woken, Vec::<u64>::new());
    assert!(round.freed.is_empty());
    assert_eq!((reactor.rounds, reactor.completed), (2, 3));
    assert_eq!(process_uring(&mut reactor, &Vec::new()), vec![70]);
}

#[test]
fn checkers_are_counted() {
    let mut count = CheckerCount::new();
    let one = Checker::new(&mut count);
    let two = Checker::new(&mut count);
    assert_eq!(count.get(), 2);
    one.release(&mut count);
    two.release(&mut count);
    assert_eq!(count.get(), 0);
}

#[test]
fn a_failed_read_reports_its_error() {
    let mut reactor: Reactor<(Vec<u8>, ())> = Reactor::new();
    let mut buf = [0u8; 8];
    let future = Fut::new(&mut reactor.heap, Read::new(3, &mut buf, 0), ());
    assert!(matches!(
        future.poll(&mut reactor.heap, &mut reactor.waiting, true, 31),
        PollStep::Parked
    ));
    let woken = process_uring(&mut reactor, &Vec::new());
    assert_eq!(woken, vec![31]);
    let user_data = match future.poll(&mut reactor.heap, &mut reactor.waiting, false, 32) {
        PollStep::Submit { entry } => entry.user_data,
        _ => panic!("not submitted"),
    };
    let woken = process_uring(&mut reactor, &vec![Completion { user_data, result: -11 }]);
    assert_eq!(woken, vec![32]);
    match future.poll(&mut reactor.heap, &mut reactor.waiting, false, 32) {
        PollStep::Ready { output } => assert_eq!(output.unwrap_err().code, 11),
        _ => panic!("not ready"),
    }
    future.release(&mut reactor.heap);
    assert!(reactor.heap.get(user_data).is_none());
}
