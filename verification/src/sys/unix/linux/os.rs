use vstd::prelude::*;

verus! {

/// `std::io::Error`, carried through the library without being looked into.
#[verifier::external_type_specification]
#[verifier::external_body]
pub struct ExIoError(std::io::Error);

/// Calls `std::io::Error::last_os_error`: the error that the last failed
/// system call of this thread left in `errno`. What it holds depends on
/// the machine's state, so nothing is stated of it.
#[verifier::external_body]
pub(crate) fn last_os_error() -> (e: std::io::Error) {
    std::io::Error::last_os_error()
}

/// Turns the return code of a C call into a result: `-1` means the call
/// failed and `errno` tells why; every other code means success.
pub fn handle_c_ret(code: i32) -> (r: Result<(), std::io::Error>)
    ensures
        r is Ok <==> code != -1,
{
    if code == -1 {
        Err(last_os_error())
    } else {
        Ok(())
    }
}

/// The number of bytes one `read` or `write` call may move for a buffer
/// of `len` bytes: all of them, unless they exceed what `ssize_t` can count.
pub fn io_limit(len: usize) -> (r: usize)
    ensures
        r == if len < isize::MAX as usize { len } else { isize::MAX as usize },
        r <= len,
        r <= isize::MAX,
{
    if len < isize::MAX as usize {
        len
    } else {
        isize::MAX as usize
    }
}

/// Turns what `read` or `write` returned into a result: `-1` is a failure
/// described by `errno`, anything else the number of bytes moved.
pub fn io_outcome(ret: isize) -> (r: Result<usize, std::io::Error>)
    ensures
        r is Err <==> ret == -1,
        r matches Ok(n) ==> n == ret as usize,
{
    if ret == -1 {
        Err(last_os_error())
    } else {
        Ok(ret as usize)
    }
}

} // verus!
