//! What callers can rely on of rings: how they come into being, and the calls, entries and mappings
//! that they are worked with.

use vstd::prelude::*;

use crate::casket::Casket;
use crate::mmap::Mmap;
use crate::runtime::{Initializer, Runtime};
use crate::sqe::Sqe;
use crate::sys;
use crate::sys::{OsError, Syscall};

verus! {

/// An entry starts out with every field at zero.
pub proof fn law_entry_starts_out_at_zero(entry: Sqe)
    requires
        call_ensures(Sqe::zeroed, (), entry),
    ensures
        entry.opcode == 0,
        entry.flags == 0,
        entry.ioprio == 0,
        entry.fd == 0,
        entry.off == 0,
        entry.addr == 0,
        entry.len == 0,
        entry.op_flags == 0,
        entry.user_data == 0,
        entry.buf_index == 0,
        entry.personality == 0,
        entry.splice_fd_in == 0,
        entry.addr3 == 0,
        entry.pad == 0,
{
}

/// An answer that is not negative is a result, and is that very number; a negative one is the error
/// whose number is its absolute value.
pub proof fn law_answers_are_told_from_errors(ret: i32, result: Result<i32, OsError>)
    requires
        ret != i32::MIN,
    ensures
        call_requires(sys::resultify, (ret,)),
        call_ensures(sys::resultify, (ret,), result) ==> {
            &&& result is Ok <==> ret >= 0
            &&& ret >= 0 ==> result->Ok_0 == ret
            &&& ret < 0 ==> result->Err_0.code == -ret
        },
{
}

/// A word that a call returned is read by its low 32 bits: they are the C `int` that the call
/// answered with, which is told from an error as such.
pub proof fn law_words_are_read_as_ints(
    ret: usize,
    answer: i32,
    result: Result<i32, OsError>,
    unmapped: Result<(), OsError>,
)
    requires
        answer != i32::MIN,
        answer >= 0 ==> ret as int % 0x1_0000_0000 == answer,
        answer < 0 ==> ret as int % 0x1_0000_0000 == answer + 0x1_0000_0000,
    ensures
        call_requires(sys::syscall_result, (ret,)),
        call_requires(sys::munmap_result, (ret,)),
        call_ensures(sys::syscall_result, (ret,), result) ==> {
            &&& result is Ok <==> answer >= 0
            &&& answer >= 0 ==> result->Ok_0 == answer
            &&& answer < 0 ==> result->Err_0.code == -answer
        },
        call_ensures(sys::munmap_result, (ret,), unmapped) ==> {
            &&& unmapped is Ok <==> answer >= 0
            &&& answer < 0 ==> unmapped->Err_0.code == -answer
        },
{
}

/// A mapping's address is what the call returned, unless every bit of that is set; the error is then
/// the one that was recorded.
pub proof fn law_mapping_is_where_the_call_says(
    ret: usize,
    last_os_error: i32,
    result: Result<usize, OsError>,
)
    requires
        call_ensures(sys::mmap_result, (ret, last_os_error), result),
    ensures
        result is Err <==> ret == usize::MAX,
        result is Ok ==> result->Ok_0 == ret,
        result is Err ==> result->Err_0.code == last_os_error,
{
}

/// The call that sets up a ring asks for exactly the given room.
pub proof fn law_setup_call(entries: u32, params: usize, call: Syscall)
    requires
        call_ensures(sys::io_uring_setup, (entries, params), call),
    ensures
        call == (Syscall::Two { number: 425, a1: entries as usize, a2: params }),
{
}

/// The call that submits carries its six arguments, each in its place; a negative file is the word
/// with the same bits.
pub proof fn law_enter_call(
    fd: i32,
    to_submit: u32,
    min_complete: u32,
    flags: u32,
    arg: usize,
    size: usize,
    call: Syscall,
)
    requires
        call_ensures(
            sys::io_uring_enter,
            (fd, to_submit, min_complete, flags, arg, size),
            call,
        ),
    ensures
        call is Six,
        call->Six_number == 426,
        fd >= 0 ==> call->Six_a1 == fd,
        fd < 0 ==> call->Six_a1 == fd + usize::MAX + 1,
        call->Six_a2 == to_submit,
        call->Six_a3 == min_complete,
        call->Six_a4 == flags,
        call->a5 == arg,
        call->a6 == size,
{
}

/// The call that registers resources carries its four arguments, each in its place.
pub proof fn law_register_call(fd: i32, opcode: u32, arg: usize, nr_args: u32, call: Syscall)
    requires
        call_ensures(sys::io_uring_register, (fd, opcode, arg, nr_args), call),
    ensures
        call is Four,
        call->Four_number == 427,
        fd >= 0 ==> call->Four_a1 == fd,
        fd < 0 ==> call->Four_a1 == fd + usize::MAX + 1,
        call->Four_a2 == opcode,
        call->Four_a3 == arg,
        call->Four_a4 == nr_args,
{
}

/// The call that maps a file carries its six arguments, each in its place; negative ones are the
/// words with the same bits.
pub proof fn law_mmap_call(
    addr: usize,
    len: usize,
    prot: i32,
    flags: i32,
    fd: i32,
    offset: isize,
    call: Syscall,
)
    requires
        call_ensures(sys::mmap, (addr, len, prot, flags, fd, offset), call),
    ensures
        call is Six,
        call->Six_number == 9,
        call->Six_a1 == addr,
        call->Six_a2 == len,
        prot >= 0 ==> call->Six_a3 == prot,
        prot < 0 ==> call->Six_a3 == prot + usize::MAX + 1,
        flags >= 0 ==> call->Six_a4 == flags,
        flags < 0 ==> call->Six_a4 == flags + usize::MAX + 1,
        fd >= 0 ==> call->a5 == fd,
        fd < 0 ==> call->a5 == fd + usize::MAX + 1,
        offset >= 0 ==> call->a6 == offset,
        offset < 0 ==> call->a6 == offset + usize::MAX + 1,
{
}

/// A file is mapped from the given offset on, for the given length: readable and writable, shared,
/// present from the start, wherever there is room.
pub proof fn law_file_is_mapped_as_asked(fd: i32, len: usize, offset: isize, call: Syscall)
    requires
        call_ensures(Mmap::map_file, (fd, len, offset), call),
    ensures
        call is Six,
        call->Six_number == 9,
        call->Six_a1 == 0,
        call->Six_a2 == len,
        call->Six_a3 == 0x1 + 0x2,
        call->Six_a4 == 0x1 + 0x8000,
        fd >= 0 ==> call->a5 == fd,
        fd < 0 ==> call->a5 == fd + usize::MAX + 1,
        offset >= 0 ==> call->a6 == offset,
        offset < 0 ==> call->a6 == offset + usize::MAX + 1,
{
}

/// What is taken down is what was mapped: the call names the address that the mapping call returned
/// and the length that was asked for. There is a mapping unless every bit of the returned word is
/// set; the error is then the one that was recorded.
pub proof fn law_what_was_mapped_is_unmapped(
    ret: usize,
    last_os_error: i32,
    len: usize,
    result: Result<Mmap, OsError>,
    call: Syscall,
    direct: Syscall,
)
    requires
        call_ensures(Mmap::mapped, (ret, last_os_error, len), result),
    ensures
        result is Err <==> ret == usize::MAX,
        result is Err ==> result->Err_0.code == last_os_error,
        result is Ok && call_ensures(Mmap::unmap, (&result->Ok_0,), call) ==> call == (
        Syscall::Two { number: 11, a1: ret, a2: len }),
        call_ensures(sys::munmap, (ret, len), direct) ==> direct == (Syscall::Two {
            number: 11,
            a1: ret,
            a2: len,
        }),
{
}

/// A value that has to be dropped comes out of its casket, one that has not just ends; until then it
/// can be looked at and changed in place.
pub proof fn law_casket_gives_back_what_was_put_in<T>(
    drop: bool,
    data: T,
    casket: Casket<T>,
    plain: Casket<T>,
    dropped: Option<T>,
)
    ensures
        call_ensures(Casket::<T>::with_drop, (drop, data), casket) && call_ensures(
            Casket::<T>::into_dropped,
            (casket,),
            dropped,
        ) ==> {
            &&& dropped is Some <==> drop
            &&& drop ==> dropped->0 == data
        },
        call_ensures(Casket::<T>::with_drop, (drop, data), casket) ==> casket@ == data,
        call_ensures(Casket::<T>::new, (data,), plain) && call_ensures(
            Casket::<T>::into_dropped,
            (plain,),
            dropped,
        ) && dropped is Some ==> dropped->0 == data,
        call_ensures(Casket::<T>::new, (data,), plain) ==> plain@ == data,
        forall|casket: &mut Casket<T>, inside: &mut T| #[trigger]
            call_ensures(Casket::<T>::deref_mut, (casket,), inside) ==> {
                &&& *inside == casket@
                &&& final(casket)@ == *final(inside)
                &&& final(casket).has_drop() == casket.has_drop()
            },
{
}

/// Rings are counted one by one from zero on, and the custom initializer stays what it is. A custom
/// one can be set as long as no ring was counted, and is then the one that builds the ring; without
/// one, the default does.
pub proof fn law_rings_are_built_as_decided<F: Fn(B) -> U, D: Fn(B) -> U, B, U>(
    start: Initializer<F>,
    unused: bool,
    room: bool,
    init: F,
    def_init: D,
    builder: B,
    ring: U,
)
    ensures
        call_ensures(Initializer::<F>::new, (), start) ==> start.call_count() == 0
            && start.custom() is None,
        call_ensures(Initializer::<F>::is_unused, (&start,), unused) ==> (unused
            <==> start.call_count() == 0),
        call_ensures(Initializer::<F>::has_room, (&start,), room) ==> (room <==> start.call_count()
            < u32::MAX),
        forall|initializer: &mut Initializer<F>| #[trigger]
            call_ensures(Initializer::<F>::set_init, (initializer, init), ()) ==> final(
                initializer
            ).call_count() == 0 && final(initializer).custom() == Some(init),
        forall|initializer: &mut Initializer<F>| #[trigger]
            call_ensures(
                Initializer::<F>::initialize::<B, U, D>,
                (initializer, def_init, builder),
                ring,
            ) ==> {
                &&& final(initializer).call_count() == initializer.call_count() + 1
                &&& final(initializer).custom() == initializer.custom()
                &&& initializer.custom() == Some(init) ==> call_ensures(init, (builder,), ring)
                &&& initializer.custom() is None ==> call_ensures(def_init, (builder,), ring)
            },
{
}

/// A runtime has the ring that its initializer built, and counts it.
pub proof fn law_runtime_has_the_ring<F: Fn(B) -> U, D: Fn(B) -> U, B, U>(
    init: F,
    def_init: D,
    builder: B,
    runtime: Runtime<U>,
)
    ensures
        forall|initializer: &mut Initializer<F>| #[trigger]
            call_ensures(
                Runtime::<U>::new::<B, F, D>,
                (initializer, def_init, builder),
                runtime,
            ) ==> {
                &&& final(initializer).call_count() == initializer.call_count() + 1
                &&& final(initializer).custom() == initializer.custom()
                &&& initializer.custom() == Some(init) ==> call_ensures(
                    init,
                    (builder,),
                    runtime.uring(),
                )
                &&& initializer.custom() is None ==> call_ensures(
                    def_init,
                    (builder,),
                    runtime.uring(),
                )
            },
        forall|initializer: &mut Initializer<F>| #[trigger]
            call_ensures(Runtime::<U>::set_init::<F>, (initializer, init), ()) ==> final(
                initializer
            ).call_count() == 0 && final(initializer).custom() == Some(init),
        forall|runtime: &mut Runtime<U>, uring: &mut U| #[trigger]
            call_ensures(Runtime::<U>::uring_mut, (runtime,), uring) ==> *uring == runtime.uring()
                && final(runtime).uring() == *final(uring),
{
}

} // verus!
