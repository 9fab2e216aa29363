//! Submission queue entries.

use vstd::prelude::*;

verus! {

/// The operation code of a read at an offset.
pub const IORING_OP_READ: u8 = 22;

/// A submission queue entry, field by field as the kernel reads it.
#[derive(Clone, Copy, Debug, PartialEq, Eq, Structural)]
pub struct Sqe {
    pub opcode: u8,
    pub flags: u8,
    pub ioprio: u16,
    pub fd: i32,
    pub off: u64,
    pub addr: u64,
    pub len: u32,
    pub op_flags: u32,
    pub user_data: u64,
    pub buf_index: u16,
    pub personality: u16,
    pub splice_fd_in: i32,
    pub addr3: u64,
    pub pad: u64,
}

impl Sqe {
    /// The entry in which every field is zero.
    pub open spec fn zero() -> Self {
        Sqe {
            opcode: 0,
            flags: 0,
            ioprio: 0,
            fd: 0,
            off: 0,
            addr: 0,
            len: 0,
            op_flags: 0,
            user_data: 0,
            buf_index: 0,
            personality: 0,
            splice_fd_in: 0,
            addr3: 0,
            pad: 0,
        }
    }

    /// The entry in which every field is zero.
    pub fn zeroed() -> (entry: Self)
        ensures
            entry == Self::zero(),
    {
        Sqe {
            opcode: 0,
            flags: 0,
            ioprio: 0,
            fd: 0,
            off: 0,
            addr: 0,
            len: 0,
            op_flags: 0,
            user_data: 0,
            buf_index: 0,
            personality: 0,
            splice_fd_in: 0,
            addr3: 0,
            pad: 0,
        }
    }
}

} // verus!
