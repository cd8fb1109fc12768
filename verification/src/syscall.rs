//! Decoder and boundary checks for the system-call fuzz surface.
//!
//! Input layout: `[number: u64 LE][arg1 .. arg6: u64 LE]`, where any
//! argument whose eight bytes are missing from the buffer is zero. The
//! dispatcher applies, per call number, the checks a kernel entry point
//! must apply before trusting the arguments; a rejected request has no
//! effect.

use vstd::prelude::*;

use crate::bytes::le64_at;
use crate::bytes::read_le64;

verus! {

/// Lowest address (inclusive) that a user-space call may not touch.
pub const USER_SPACE_END: u64 = 0x0000_8000_0000_0000;

/// Largest byte count a read, write, or mmap request may carry.
pub const MAX_IO_COUNT: u64 = 0x7FFF_F000;

/// A system-call request decoded from one fuzz input buffer: the call
/// number and its six arguments.
pub struct SyscallRequest {
    pub number: u64,
    pub args: [u64; 6],
}

/// The argument, read as its low 32 bits, is a negative signed value:
/// how the dispatcher interprets a file-descriptor argument.
pub open spec fn fd_negative(arg: u64) -> bool {
    arg & 0x8000_0000 != 0
}

/// Boundary checks of `read` and `write`: the file descriptor must not be
/// negative, the buffer must lie in user space, and the count is capped.
pub open spec fn read_write_accepted(args: Seq<u64>) -> bool
    recommends
        args.len() == 6,
{
    &&& !fd_negative(args[0])
    &&& args[1] < USER_SPACE_END
    &&& args[2] <= MAX_IO_COUNT
}

/// Boundary check of `open`: the path address must be a non-null
/// user-space address.
pub open spec fn open_accepted(args: Seq<u64>) -> bool
    recommends
        args.len() == 6,
{
    &&& args[0] != 0
    &&& args[0] < USER_SPACE_END
}

/// Boundary checks of `mmap`: the length must be non-zero and capped, and
/// a non-zero address must be page-aligned.
pub open spec fn mmap_accepted(args: Seq<u64>) -> bool
    recommends
        args.len() == 6,
{
    &&& args[1] != 0
    &&& args[1] <= MAX_IO_COUNT
    &&& (args[0] == 0 || args[0] & 0xFFF == 0)
}

/// Whether the dispatcher passes a request on to its handler: `read` (0),
/// `write` (1), `open` (2) and `mmap` (9) each apply their own boundary
/// predicate; every other call number is an accepted pass-through.
pub open spec fn syscall_accepted(number: u64, args: Seq<u64>) -> bool
    recommends
        args.len() == 6,
{
    if number == 0 || number == 1 {
        read_write_accepted(args)
    } else if number == 2 {
        open_accepted(args)
    } else if number == 9 {
        mmap_accepted(args)
    } else {
        true
    }
}

/// The `k`-th argument encoded in `data`: the little-endian 64-bit field
/// at offset `8 + 8k`, or zero when its bytes run past the buffer.
pub open spec fn syscall_arg_at(data: Seq<u8>, k: int) -> u64 {
    if 8 + 8 * k + 8 <= data.len() {
        le64_at(data, 8 + 8 * k) as u64
    } else {
        0
    }
}

/// All six arguments encoded in `data`.
pub open spec fn syscall_args_of(data: Seq<u8>) -> Seq<u64> {
    Seq::new(6, |k: int| syscall_arg_at(data, k))
}

fn read_arg(data: &[u8], k: usize) -> (x: u64)
    requires
        k < 6,
    ensures
        x == syscall_arg_at(data@, k as int),
{
    let off: usize = 8 + 8 * k;
    if off + 8 <= data.len() {
        read_le64(data, off)
    } else {
        0
    }
}

/// Decodes the syscall fuzz layout. Declines (returns `None`) exactly when
/// the buffer cannot hold the call number; missing argument bytes read as
/// zero.
pub fn decode_syscall(data: &[u8]) -> (r: Option<SyscallRequest>)
    ensures
        match r {
            Some(req) => {
                &&& data@.len() >= 8
                &&& req.number == le64_at(data@, 0)
                &&& req.args@ == syscall_args_of(data@)
            },
            None => data@.len() < 8,
        },
{
    if data.len() < 8 {
        return None;
    }
    let number = read_le64(data, 0);
    let args: [u64; 6] = [
        read_arg(data, 0),
        read_arg(data, 1),
        read_arg(data, 2),
        read_arg(data, 3),
        read_arg(data, 4),
        read_arg(data, 5),
    ];
    proof {
        assert(args@ =~= syscall_args_of(data@));
    }
    Some(SyscallRequest { number, args })
}

/// Applies the dispatcher's boundary checks to one decoded request and
/// says whether it would be passed on to its handler. A rejected request
/// is dropped without any further use of its arguments.
pub fn fuzz_syscall_dispatcher(number: u64, args: &[u64; 6]) -> (accepted: bool)
    ensures
        accepted == syscall_accepted(number, args@),
{
    if number == 0 || number == 1 {
        // read(fd, buf, count) / write(fd, buf, count)
        let fd = args[0];
        let buf_addr = args[1];
        let count = args[2];
        if fd & 0x8000_0000 != 0 {
            return false;
        }
        if buf_addr >= USER_SPACE_END {
            return false;
        }
        if count > MAX_IO_COUNT {
            return false;
        }
        true
    } else if number == 2 {
        // open(path, flags, mode)
        let path_addr = args[0];
        !(path_addr == 0 || path_addr >= USER_SPACE_END)
    } else if number == 9 {
        // mmap(addr, length, prot, flags, fd, offset)
        let addr = args[0];
        let length = args[1];
        if length == 0 || length > MAX_IO_COUNT {
            return false;
        }
        if addr != 0 && addr & 0xFFF != 0 {
            return false;
        }
        true
    } else {
        // Unknown numbers are accepted as a pass-through.
        true
    }
}

/// Fuzz entry for the syscall surface: decodes the buffer and, when a
/// request could be decoded, applies the dispatcher's boundary checks.
/// Total: a buffer too short for the call number decodes to nothing, and
/// no input causes any other effect.
pub fn fuzz_syscall(data: &[u8]) -> (r: Option<bool>)
    ensures
        match r {
            Some(accepted) => {
                &&& data@.len() >= 8
                &&& accepted == syscall_accepted(le64_at(data@, 0) as u64, syscall_args_of(data@))
            },
            None => data@.len() < 8,
        },
{
    match decode_syscall(data) {
        None => None,
        Some(req) => Some(fuzz_syscall_dispatcher(req.number, &req.args)),
    }
}

} // verus!
