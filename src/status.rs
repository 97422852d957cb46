//! The process exit status that a container's exit code stands for.

use vstd::prelude::*;

verus! {

/// The POSIX wait-status word of a process that exited normally with `code`:
/// the code shifted into the second byte, the low byte (signal and core-dump
/// flags) clear.
pub open spec fn posix_status_of(code: i64) -> i32 {
    ((code as u32) << 8u32) as i32
}

/// What `WEXITSTATUS` reads back from a wait-status word.
pub open spec fn posix_exit_code_of(status: i32) -> i32 {
    (status >> 8i32) & 0xffi32
}

/// Encodes an exit code as a POSIX wait-status word (`code << 8`).
pub fn posix_status(code: i64) -> (r: i32)
    ensures
        r == posix_status_of(code),
{
    ((code as u32) << 8u32) as i32
}

/// Decodes the exit code from a POSIX wait-status word, as `WEXITSTATUS` does.
pub fn posix_exit_code(status: i32) -> (r: i32)
    ensures
        r == posix_exit_code_of(status),
{
    (status >> 8i32) & 0xffi32
}

/// Encodes an exit code as the raw status value of a Windows process: the
/// code itself, as an unsigned 32-bit word.
pub fn windows_status(code: i64) -> (r: u32)
    ensures
        r == code as u32,
{
    code as u32
}

/// Decoding the wait-status word of an exit code gives back the low byte of
/// the code, which is the code itself for every code from 0 to 255.
pub proof fn lemma_posix_status_round_trip(code: i64)
    ensures
        posix_exit_code_of(posix_status_of(code)) == (code as u8) as i32,
        0 <= code <= 255 ==> posix_exit_code_of(posix_status_of(code)) == code,
        posix_status_of(code) & 0xffi32 == 0,
{
    assert(((((code as u32) << 8u32) as i32) >> 8i32) & 0xffi32 == (code as u8) as i32)
        by (bit_vector);
    assert(0 <= code <= 255 ==> (code as u8) as i32 == code) by (bit_vector);
    assert((((code as u32) << 8u32) as i32) & 0xffi32 == 0) by (bit_vector);
}

/// On Windows the raw status of an exit code is the code itself, for every
/// code that fits in an unsigned 32-bit word.
pub proof fn lemma_windows_status_is_code(code: i64)
    requires
        0 <= code <= u32::MAX,
    ensures
        code as u32 == code,
{
}

} // verus!
