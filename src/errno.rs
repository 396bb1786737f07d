//! Symbolic names for the native error numbers a system call may report.
use vstd::prelude::*;

verus! {

/// Relies on the error constants of `libc` (Linux): `ENOENT`, `EACCES`,
/// `EPERM` and `EAI_BADFLAGS`, in that order.
#[verifier::external_body]
fn native_errnos() -> (r: [i32; 4])
    ensures
        r@ == errno_values(),
{
    [libc::ENOENT, libc::EACCES, libc::EPERM, libc::EAI_BADFLAGS]
}

/// The native numbers of the recognised errors, in table order.
pub open spec fn errno_values() -> Seq<i32> {
    seq![2i32, 13, 1, -1i32]
}

/// The native number of "no such file or directory".
pub open spec fn enoent() -> i32 {
    errno_values()[0]
}

/// The symbolic name of a native error number; anything outside the table
/// is `UNKNOWN`.
pub open spec fn errno_name_of(e: i32) -> Seq<char> {
    let v = errno_values();
    if e == v[0] {
        "ENOENT"@
    } else if e == v[1] {
        "EACCES"@
    } else if e == v[2] {
        "EPERM"@
    } else if e == v[3] {
        "EAI_BADFLAGS"@
    } else {
        "UNKNOWN"@
    }
}

/// Maps a native error number to its symbolic name. Total: never fails.
pub fn errno_name(e: i32) -> (r: String)
    ensures
        r@ == errno_name_of(e),
{
    let v = native_errnos();
    if e == v[0] {
        String::from_str("ENOENT")
    } else if e == v[1] {
        String::from_str("EACCES")
    } else if e == v[2] {
        String::from_str("EPERM")
    } else if e == v[3] {
        String::from_str("EAI_BADFLAGS")
    } else {
        String::from_str("UNKNOWN")
    }
}

} // verus!
