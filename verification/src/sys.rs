//! The system calls behind a ring: what is passed to the kernel, and what its answer means.
//!
//! Each request function returns the call to be made; the result functions read what the call
//! returned.
//!
//! Numbers and flags are those of Linux on x86-64; on other machines Linux has other numbers for
//! some of these calls.

use vstd::prelude::*;

verus! {

pub const NR_MMAP: usize = 9;

pub const NR_MUNMAP: usize = 11;

pub const NR_IO_URING_SETUP: usize = 425;

pub const NR_IO_URING_ENTER: usize = 426;

pub const NR_IO_URING_REGISTER: usize = 427;

pub const PROT_READ: u32 = 1;

pub const PROT_WRITE: u32 = 2;

pub const MAP_SHARED: u32 = 1;

pub const MAP_POPULATE: u32 = 0x8000;

/// An error number of the operating system.
#[derive(Clone, Copy, Debug, PartialEq, Eq, Structural)]
pub struct OsError {
    pub code: i32,
}

/// A system call: its number and its arguments, as machine words.
#[derive(Clone, Copy, Debug, PartialEq, Eq, Structural)]
pub enum Syscall {
    Two { number: usize, a1: usize, a2: usize },
    Four { number: usize, a1: usize, a2: usize, a3: usize, a4: usize },
    Six { number: usize, a1: usize, a2: usize, a3: usize, a4: usize, a5: usize, a6: usize },
}

/// A signed number as the machine word with the same bits.
pub open spec fn word_of(value: int) -> int {
    if value >= 0 {
        value
    } else {
        value + usize::MAX + 1
    }
}

/// The low 32 bits of a machine word, read as a signed number.
pub open spec fn low_int(word: usize) -> int {
    if word as int % 0x1_0000_0000 < 0x8000_0000 {
        word as int % 0x1_0000_0000
    } else {
        word as int % 0x1_0000_0000 - 0x1_0000_0000
    }
}

/// What a call that answers with a C `int` reports: the answer itself, or, where it is negative,
/// the error whose number is its absolute value.
pub open spec fn int_outcome(ret: int) -> Result<i32, OsError> {
    if ret >= 0 {
        Ok(ret as i32)
    } else {
        Err(OsError { code: (-ret) as i32 })
    }
}

/// The machine word with the bits of a signed number.
fn signed_word(value: isize) -> (word: usize)
    ensures
        word == word_of(value as int),
{
    proof {
        assert(value >= 0 ==> (value as usize) as int == value) by (bit_vector);
        assert(value < 0 && usize::BITS == 32 ==> (value as usize) as int == value + 0x1_0000_0000)
            by (bit_vector);
        assert(value < 0 && usize::BITS == 64 ==> (value as usize) as int == value
            + 0x1_0000_0000_0000_0000) by (bit_vector);
    }
    value as usize
}

/// Tells an answer from an error.
pub fn resultify(ret: i32) -> (result: Result<i32, OsError>)
    requires
        ret != i32::MIN,
    ensures
        result == int_outcome(ret as int),
{
    if ret >= 0 {
        Ok(ret)
    } else {
        Err(OsError { code: -ret })
    }
}

/// What the word that a call returned reports, read as a C `int`.
pub fn syscall_result(ret: usize) -> (result: Result<i32, OsError>)
    requires
        low_int(ret) != i32::MIN,
    ensures
        result == int_outcome(low_int(ret)),
{
    proof {
        let low = ret as u64 % 0x1_0000_0000u64;
        assert(low < 0x8000_0000 ==> (ret as i32) as int == low) by (bit_vector)
            requires
                low == ret as u64 % 0x1_0000_0000u64,
        ;
        assert(low >= 0x8000_0000 ==> (ret as i32) as int == low - 0x1_0000_0000) by (bit_vector)
            requires
                low == ret as u64 % 0x1_0000_0000u64,
        ;
    }
    resultify(ret as i32)
}

/// The call that registers resources with the ring `fd`.
pub fn io_uring_register(fd: i32, opcode: u32, arg: usize, nr_args: u32) -> (call: Syscall)
    ensures
        call == (Syscall::Four {
            number: NR_IO_URING_REGISTER,
            a1: word_of(fd as int) as usize,
            a2: opcode as usize,
            a3: arg,
            a4: nr_args as usize,
        }),
{
    Syscall::Four {
        number: NR_IO_URING_REGISTER,
        a1: signed_word(fd as isize),
        a2: opcode as usize,
        a3: arg,
        a4: nr_args as usize,
    }
}

/// The call that sets up a ring with room for `entries` submissions. The parameters are in memory
/// at `params`.
pub fn io_uring_setup(entries: u32, params: usize) -> (call: Syscall)
    ensures
        call == (Syscall::Two { number: NR_IO_URING_SETUP, a1: entries as usize, a2: params }),
{
    Syscall::Two { number: NR_IO_URING_SETUP, a1: entries as usize, a2: params }
}

/// The call that submits entries to the ring `fd` and waits for completions.
pub fn io_uring_enter(
    fd: i32,
    to_submit: u32,
    min_complete: u32,
    flags: u32,
    arg: usize,
    size: usize,
) -> (call: Syscall)
    ensures
        call == (Syscall::Six {
            number: NR_IO_URING_ENTER,
            a1: word_of(fd as int) as usize,
            a2: to_submit as usize,
            a3: min_complete as usize,
            a4: flags as usize,
            a5: arg,
            a6: size,
        }),
{
    Syscall::Six {
        number: NR_IO_URING_ENTER,
        a1: signed_word(fd as isize),
        a2: to_submit as usize,
        a3: min_complete as usize,
        a4: flags as usize,
        a5: arg,
        a6: size,
    }
}

/// The call that maps `len` bytes of the file `fd` from `offset` on into memory.
pub fn mmap(addr: usize, len: usize, prot: i32, flags: i32, fd: i32, offset: isize) -> (call:
    Syscall)
    ensures
        call == (Syscall::Six {
            number: NR_MMAP,
            a1: addr,
            a2: len,
            a3: word_of(prot as int) as usize,
            a4: word_of(flags as int) as usize,
            a5: word_of(fd as int) as usize,
            a6: word_of(offset as int) as usize,
        }),
{
    Syscall::Six {
        number: NR_MMAP,
        a1: addr,
        a2: len,
        a3: signed_word(prot as isize),
        a4: signed_word(flags as isize),
        a5: signed_word(fd as isize),
        a6: signed_word(offset),
    }
}

/// What the word that [`mmap`] returned reports: the address of the mapping, unless every bit is
/// set. The error is then the last one that the operating system recorded.
pub fn mmap_result(ret: usize, last_os_error: i32) -> (result: Result<usize, OsError>)
    ensures
        result == (if ret == usize::MAX {
            Err::<usize, OsError>(OsError { code: last_os_error })
        } else {
            Ok(ret)
        }),
{
    if ret == usize::MAX {
        Err(OsError { code: last_os_error })
    } else {
        Ok(ret)
    }
}

/// The call that takes down the mapping of `len` bytes at `addr`.
pub fn munmap(addr: usize, len: usize) -> (call: Syscall)
    ensures
        call == (Syscall::Two { number: NR_MUNMAP, a1: addr, a2: len }),
{
    Syscall::Two { number: NR_MUNMAP, a1: addr, a2: len }
}

/// What the word that [`munmap`] returned reports, read as a C `int`.
pub fn munmap_result(ret: usize) -> (result: Result<(), OsError>)
    requires
        low_int(ret) != i32::MIN,
    ensures
        low_int(ret) >= 0 ==> result == Ok::<(), OsError>(()),
        low_int(ret) < 0 ==> result == Err::<(), OsError>(OsError { code: (-low_int(ret)) as i32 }),
{
    match syscall_result(ret) {
        Ok(_) => Ok(()),
        Err(error) => Err(error),
    }
}

/// A word that carries an error number, as the kernel returns one, is reported as that error.
pub proof fn law_error_word_reports_its_number(code: int)
    requires
        0 < code <= i32::MAX,
    ensures
        int_outcome(low_int(word_of(-code) as usize)) == Err::<i32, OsError>(
            OsError { code: code as i32 },
        ),
{
    let word = word_of(-code);
    assert(usize::MAX == 0xffff_ffff || usize::MAX == 0xffff_ffff_ffff_ffff);
    assert(word % 0x1_0000_0000 == 0x1_0000_0000 - code) by {
        if usize::MAX == 0xffff_ffff {
            vstd::arithmetic::div_mod::lemma_small_mod(word as nat, 0x1_0000_0000);
        } else {
            vstd::arithmetic::div_mod::lemma_fundamental_div_mod_converse(
                word,
                0x1_0000_0000,
                0xffff_ffff,
                0x1_0000_0000 - code,
            );
        }
    }
    assert(low_int(word as usize) == -code);
}

/// A word that carries a C `int` that is not negative is reported as that number.
pub proof fn law_answer_word_reports_itself(answer: int)
    requires
        0 <= answer <= i32::MAX,
    ensures
        int_outcome(low_int(word_of(answer) as usize)) == Ok::<i32, OsError>(answer as i32),
{
}

} // verus!
