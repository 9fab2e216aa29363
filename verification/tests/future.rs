use vilya::future::{Advance, CompletionRef, CompletionState, PollStep, UringFuture, UringOp};
use vilya::owned::KernelHeap;
use vilya::reactor::set_result;
use vilya::sqe::{Sqe, IORING_OP_READ};
use vilya::sys::OsError;
use vilya::waker_queue::WakerQueue;

struct Read<Buf> {
    fd: i32,
    buf: Option<Buf>,
    offset: u64,
}

impl<Buf> Read<Buf> {
    fn new(fd: i32, buf: Buf, offset: u64) -> Self {
        Self { fd, buf: Some(buf), offset }
    }
}

impl UringOp for Read<Vec<u8>> {
    type Storage = (i32, Vec<u8>);
    type Output = (Vec<u8>, usize);

    fn to_storage(&mut self) -> Self::Storage {
        (self.fd, self.buf.take().unwrap())
    }

    fn build_entry(&self, entry: &mut Sqe, storage: &Self::Storage, user_data: u64) {
        entry.opcode = IORING_OP_READ;
        entry.fd = self.fd;
        entry.addr = storage.1.as_ptr() as u64;
        entry.len = storage.1.len() as u32;
        entry.off = self.offset;
        entry.user_data = user_data;
    }

    fn to_output(&self, storage: Self::Storage, result: i32) -> Self::Output {
        (storage.1, result as usize)
    }
}

fn entry_of<O>(step: PollStep<O>) -> Sqe {
    match step {
        PollStep::Submit { entry } => entry,
        _ => panic!("not submitted"),
    }
}

#[test]
fn a_read_is_submitted_answered_and_yields_its_buffer() {
    let mut heap = KernelHeap::new();
    let mut waiting = WakerQueue::new();
    let future = UringFuture::new(&mut heap, Read::new(4, vec![1u8, 2, 3], 77));
    let buf_addr = future.object(&heap).unwrap().data.as_ref().unwrap().1.as_ptr() as u64;

    let entry = entry_of(future.poll(&mut heap, &mut waiting, false, 11));
    let user_data = entry.user_data;
    assert_eq!(
        entry,
        Sqe {
            opcode: 22,
            fd: 4,
            addr: buf_addr,
            len: 3,
            off: 77,
            user_data,
            ..Sqe::zeroed()
        }
    );
    let object = future.object(&heap).unwrap();
    assert_eq!(object.header.state, CompletionState::InProgress { waker: 11 });
    assert_eq!(object.header.ref_count, 2);

    assert_eq!(set_result(&mut heap, user_data, 3), 11);
    assert_eq!(future.object(&heap).unwrap().header.ref_count, 1);

    match future.poll(&mut heap, &mut waiting, false, 11) {
        PollStep::Ready { output } => assert_eq!(output.unwrap(), (vec![1, 2, 3], 3)),
        _ => panic!("not ready"),
    }
    assert!(future.object(&heap).unwrap().data.is_none());
    assert_eq!(waiting.pop(), None);
    future.release(&mut heap);
    assert!(heap.get(user_data).is_none());
}

#[test]
fn a_full_ring_parks_the_task() {
    let mut heap = KernelHeap::new();
    let mut waiting = WakerQueue::new();
    let future = UringFuture::new(&mut heap, Read::new(4, vec![0u8], 0));
    for waker in 20..23u64 {
        assert!(matches!(
            future.poll(&mut heap, &mut waiting, true, waker),
            PollStep::Parked
        ));
    }
    let object = future.object(&heap).unwrap();
    assert_eq!(object.header.state, CompletionState::Unsubmitted);
    assert_eq!(object.header.ref_count, 1);
    assert_eq!(waiting.pop(), Some(20));
    assert_eq!(waiting.pop(), Some(21));
    assert_eq!(waiting.pop(), Some(22));
    assert_eq!(waiting.pop(), None);
}

#[test]
fn a_negative_answer_is_an_error_and_keeps_the_data() {
    let mut heap = KernelHeap::new();
    let mut waiting = WakerQueue::new();
    let future = UringFuture::new(&mut heap, Read::new(4, vec![5u8], 0));
    let user_data = entry_of(future.poll(&mut heap, &mut waiting, false, 1)).user_data;
    set_result(&mut heap, user_data, -9);
    match future.poll(&mut heap, &mut waiting, true, 1) {
        PollStep::Ready { output } => assert_eq!(output.unwrap_err(), OsError { code: 9 }),
        _ => panic!("not ready"),
    }
    assert!(future.object(&heap).unwrap().data.is_some());
}

#[test]
fn the_state_outlives_a_dropped_future() {
    let mut heap = KernelHeap::new();
    let mut waiting = WakerQueue::new();
    let future = UringFuture::new(&mut heap, Read::new(4, vec![5u8], 0));
    let user_data = entry_of(future.poll(&mut heap, &mut waiting, false, 1)).user_data;
    future.release(&mut heap);
    assert_eq!(heap.get(user_data).unwrap().header.ref_count, 1);
    assert_eq!(heap.get(user_data).unwrap().data, Some((4, vec![5u8])));
    assert_eq!(set_result(&mut heap, user_data, 1), 1);
    assert!(heap.get(user_data).is_none());
}

#[test]
fn completion_refs_lock_and_move_data() {
    let mut heap = KernelHeap::new();
    let completion = CompletionRef::new(&mut heap, 'x');
    assert_eq!(*completion.data_ref(&heap), 'x');
    let user_data = completion.place_clone_in_kernel(&mut heap);
    let kernel_side = CompletionRef::from_user_data(user_data);
    *kernel_side.lock(&mut heap) = CompletionState::Completed { result: 1 };
    assert_eq!(
        *completion.try_lock(&mut heap).unwrap(),
        CompletionState::Completed { result: 1 }
    );
    kernel_side.release(&mut heap);
    assert_eq!(completion.data(&mut heap), 'x');
    assert!(completion.object(&heap).unwrap().data.is_none());
    completion.release(&mut heap);
    assert!(heap.get(user_data).is_none());
}

/// An operation whose storage holds what the kernel writes to, with no memory of its own.
struct Inline;

impl UringOp for Inline {
    type Storage = [u8; 8];
    type Output = [u8; 8];

    fn to_storage(&mut self) -> [u8; 8] {
        [7; 8]
    }

    fn build_entry(&self, entry: &mut Sqe, storage: &[u8; 8], user_data: u64) {
        entry.addr = storage.as_ptr() as u64;
        entry.len = 8;
        entry.user_data = user_data;
    }

    fn to_output(&self, storage: [u8; 8], _result: i32) -> [u8; 8] {
        storage
    }
}

#[test]
fn storage_stays_where_it_is() {
    let mut heap = KernelHeap::new();
    let mut waiting = WakerQueue::new();
    let future = UringFuture::new(&mut heap, Inline);
    let entry = entry_of(future.poll(&mut heap, &mut waiting, false, 1));
    let mut others = Vec::new();
    for _ in 0..1_000 {
        others.push(UringFuture::new(&mut heap, Inline));
    }
    let storage = future.object(&heap).unwrap().data.as_ref().unwrap();
    assert_eq!(entry.addr, storage.as_ptr() as u64);
    for other in others {
        other.release(&mut heap);
    }
    assert_eq!(set_result(&mut heap, entry.user_data, 8), 1);
    let storage = future.object(&heap).unwrap().data.as_ref().unwrap();
    assert_eq!(entry.addr, storage.as_ptr() as u64);
    match future.poll(&mut heap, &mut waiting, false, 1) {
        PollStep::Ready { output } => assert_eq!(output.unwrap(), [7; 8]),
        _ => panic!("not ready"),
    }
}

#[test]
fn an_operation_is_submitted_once() {
    let mut heap = KernelHeap::new();
    let mut waiting = WakerQueue::new();
    let future = UringFuture::new(&mut heap, Inline);
    let mut submissions = 0;
    for (waker, full) in [(1u64, true), (2, true), (3, false)] {
        if let PollStep::Submit { entry } = future.poll(&mut heap, &mut waiting, full, waker) {
            submissions += 1;
            assert_eq!(set_result(&mut heap, entry.user_data, -4), waker);
        }
    }
    for (waker, full) in [(4u64, false), (5, true)] {
        assert!(matches!(
            future.poll(&mut heap, &mut waiting, full, waker),
            PollStep::Ready { .. }
        ));
    }
    assert_eq!(submissions, 1);
}

/// What operations of two kinds work on.
#[derive(Debug, PartialEq)]
enum Data {
    Read((i32, Vec<u8>)),
    Other(u8),
}

#[test]
fn operations_of_two_kinds_share_a_heap() {
    let mut heap: KernelHeap<Data> = KernelHeap::new();
    let mut waiting = WakerQueue::new();
    let other = CompletionRef::new(&mut heap, Data::Other(3));
    let mut op = Read::new(4, vec![1u8, 2, 3], 77);
    let storage = op.to_storage();
    let future = UringFuture::with_data(&mut heap, op, Data::Read(storage));
    assert!(matches!(future.advance(&mut heap, &mut waiting, true, 5), Advance::Parked));
    assert_eq!(waiting.pop(), Some(5));
    let user_data = match future.advance(&mut heap, &mut waiting, false, 6) {
        Advance::Submitted { user_data } => user_data,
        _ => panic!("not submitted"),
    };
    let object = future.object(&heap).unwrap();
    assert_eq!(object.header.state, CompletionState::InProgress { waker: 6 });
    assert_eq!(object.header.ref_count, 2);
    let storage = match object.data.as_ref().unwrap() {
        Data::Read(storage) => storage,
        Data::Other(_) => panic!("not a read"),
    };
    let expected = Sqe {
        opcode: 22,
        fd: 4,
        addr: storage.1.as_ptr() as u64,
        len: 3,
        off: 77,
        user_data,
        ..Sqe::zeroed()
    };
    assert_eq!(future.entry(storage, user_data), expected);
    assert_eq!(set_result(&mut heap, user_data, 2), 6);
    match future.advance(&mut heap, &mut waiting, false, 0) {
        Advance::Answered { answer: Ok((Data::Read(storage), result)) } => {
            assert_eq!(future.output(storage, result), (vec![1, 2, 3], 2));
        }
        _ => panic!("not answered"),
    }
    let (op, object) = future.reclaim(&mut heap);
    assert_eq!((op.fd, op.offset), (4, 77));
    assert!(object.unwrap().data.is_none());
    assert_eq!(other.reclaim(&mut heap).unwrap().data, Some(Data::Other(3)));
}

#[test]
fn an_error_leaves_the_data_to_whoever_ends_the_future() {
    let mut heap: KernelHeap<u8> = KernelHeap::new();
    let mut waiting = WakerQueue::new();
    let future = UringFuture::with_data(&mut heap, Read::new(4, vec![1u8], 0), 9);
    let user_data = match future.advance(&mut heap, &mut waiting, false, 6) {
        Advance::Submitted { user_data } => user_data,
        _ => panic!("not submitted"),
    };
    assert_eq!(set_result(&mut heap, user_data, -5), 6);
    match future.advance(&mut heap, &mut waiting, false, 0) {
        Advance::Answered { answer } => assert_eq!(answer, Err(OsError { code: 5 })),
        _ => panic!("not answered"),
    }
    assert_eq!(future.reclaim(&mut heap).1.unwrap().data, Some(9));
}
