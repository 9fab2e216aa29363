use vilya::mmap::Mmap;
use vilya::sqe::IORING_OP_READ;
use vilya::sys;
use vilya::sys::{OsError, Syscall};

fn error_word(code: isize) -> usize {
    (-code) as usize
}

#[test]
fn answers_and_errors_are_told_apart() {
    assert_eq!(sys::resultify(0), Ok(0));
    assert_eq!(sys::resultify(17), Ok(17));
    assert_eq!(sys::resultify(i32::MAX), Ok(i32::MAX));
    assert_eq!(sys::resultify(-22), Err(OsError { code: 22 }));
    assert_eq!(sys::resultify(-i32::MAX), Err(OsError { code: i32::MAX }));
}

#[test]
fn result_words_are_read_as_ints() {
    assert_eq!(sys::syscall_result(3), Ok(3));
    assert_eq!(sys::syscall_result(error_word(38)), Err(OsError { code: 38 }));
    assert_eq!(sys::syscall_result(0x1_0000_0005), Ok(5));
    assert_eq!(sys::munmap_result(0), Ok(()));
    assert_eq!(sys::munmap_result(error_word(22)), Err(OsError { code: 22 }));
}

#[test]
fn the_requests_carry_their_arguments() {
    assert_eq!(
        sys::io_uring_register(-1, 2, 0x1000, 4),
        Syscall::Four { number: 427, a1: usize::MAX, a2: 2, a3: 0x1000, a4: 4 }
    );
    assert_eq!(
        sys::io_uring_setup(0x400, 0x2000),
        Syscall::Two { number: 425, a1: 0x400, a2: 0x2000 }
    );
    assert_eq!(
        sys::io_uring_enter(5, 6, 7, 8, 9, 10),
        Syscall::Six { number: 426, a1: 5, a2: 6, a3: 7, a4: 8, a5: 9, a6: 10 }
    );
    assert_eq!(
        sys::mmap(1, 2, 3, 4, -5, -6),
        Syscall::Six {
            number: 9,
            a1: 1,
            a2: 2,
            a3: 3,
            a4: 4,
            a5: usize::MAX - 4,
            a6: usize::MAX - 5,
        }
    );
    assert_eq!(sys::munmap(0x3000, 0x1000), Syscall::Two { number: 11, a1: 0x3000, a2: 0x1000 });
}

#[test]
fn the_call_numbers_are_the_platforms() {
    assert_eq!(sys::NR_MMAP, sc::nr::MMAP);
    assert_eq!(sys::NR_MUNMAP, sc::nr::MUNMAP);
    assert_eq!(sys::NR_IO_URING_SETUP, sc::nr::IO_URING_SETUP);
    assert_eq!(sys::NR_IO_URING_ENTER, sc::nr::IO_URING_ENTER);
    assert_eq!(sys::NR_IO_URING_REGISTER, sc::nr::IO_URING_REGISTER);
}

#[test]
fn the_read_opcode_is_the_kernels() {
    assert_eq!(IORING_OP_READ, io_uring::opcode::Read::CODE);
}

#[test]
fn a_mapping_fails_only_with_all_bits_set() {
    assert_eq!(sys::mmap_result(usize::MAX, 12), Err(OsError { code: 12 }));
    assert_eq!(sys::mmap_result(usize::MAX - 1, 12), Ok(usize::MAX - 1));
    assert_eq!(sys::mmap_result(0, 12), Ok(0));
}

#[test]
fn files_are_mapped_shared_and_populated() {
    assert_eq!(
        Mmap::map_file(3, 8192, 0x1000_0000),
        Syscall::Six { number: 9, a1: 0, a2: 8192, a3: 3, a4: 0x8001, a5: 3, a6: 0x1000_0000 }
    );
    let mapping = Mmap::mapped(0x7000, 0, 8192).unwrap();
    assert_eq!(mapping.unmap(), Syscall::Two { number: 11, a1: 0x7000, a2: 8192 });
    assert_eq!(Mmap::mapped(usize::MAX, 13, 8192).unwrap_err(), OsError { code: 13 });
}
