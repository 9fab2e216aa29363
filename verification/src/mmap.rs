//! Memory that is shared with the kernel.

use vstd::prelude::*;

use crate::sys;
use crate::sys::{OsError, Syscall};

verus! {

/// A mapping of `len` bytes at `addr`.
#[derive(Debug)]
pub struct Mmap {
    addr: usize,
    len: usize,
}

impl Mmap {
    pub closed spec fn addr(self) -> usize {
        self.addr
    }

    pub closed spec fn len(self) -> usize {
        self.len
    }

    /// The call that maps `len` bytes of the file `fd` from `offset` on: readable and writable,
    /// shared with everyone who maps the file, present from the start, wherever there is room.
    pub fn map_file(fd: i32, len: usize, offset: isize) -> (call: Syscall)
        ensures
            call == (Syscall::Six {
                number: sys::NR_MMAP,
                a1: 0,
                a2: len,
                a3: 0x3,
                a4: 0x8001,
                a5: sys::word_of(fd as int) as usize,
                a6: sys::word_of(offset as int) as usize,
            }),
    {
        proof {
            assert(1u32 | 2u32 == 0x3u32) by (bit_vector);
            assert(1u32 | 0x8000u32 == 0x8001u32) by (bit_vector);
        }
        sys::mmap(
            0,
            len,
            (sys::PROT_READ | sys::PROT_WRITE) as i32,
            (sys::MAP_SHARED | sys::MAP_POPULATE) as i32,
            fd,
            offset,
        )
    }

    /// The mapping of `len` bytes for which the call of [`Mmap::map_file`] returned `ret`, or the
    /// error that it reported.
    pub fn mapped(ret: usize, last_os_error: i32, len: usize) -> (result: Result<Mmap, OsError>)
        ensures
            match result {
                Ok(mmap) => ret != usize::MAX && mmap.addr() == ret && mmap.len() == len,
                Err(error) => ret == usize::MAX && error.code == last_os_error,
            },
    {
        match sys::mmap_result(ret, last_os_error) {
            Ok(addr) => Ok(Mmap { addr, len }),
            Err(error) => Err(error),
        }
    }

    /// The call that takes the mapping down.
    pub fn unmap(&self) -> (call: Syscall)
        ensures
            call == (Syscall::Two { number: sys::NR_MUNMAP, a1: self.addr(), a2: self.len() }),
    {
        sys::munmap(self.addr, self.len)
    }
}

} // verus!
