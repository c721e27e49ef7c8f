use subterminal::sys::unix::linux::handle_c_ret;
use subterminal::sys::unix::linux::{io_limit, io_outcome};

#[test]
fn test_c_error_handler() {
    assert_eq!(handle_c_ret(-1).is_ok(), false);
    assert_eq!(handle_c_ret(0).is_ok(), true);
    assert_eq!(handle_c_ret(27).is_ok(), true);
}

#[test]
fn c_error_handler_other_negative_codes_succeed() {
    assert!(handle_c_ret(-2).is_ok());
    assert!(handle_c_ret(i32::MIN).is_ok());
}

#[test]
fn io_limit_keeps_small_lengths() {
    assert_eq!(io_limit(0), 0);
    assert_eq!(io_limit(4096), 4096);
    assert_eq!(io_limit(isize::MAX as usize - 1), isize::MAX as usize - 1);
}

#[test]
fn io_limit_caps_at_ssize_max() {
    assert_eq!(io_limit(isize::MAX as usize), isize::MAX as usize);
    assert_eq!(io_limit(usize::MAX), isize::MAX as usize);
    assert_eq!(io_limit(usize::MAX) as isize, libc::ssize_t::MAX);
}

#[test]
fn io_outcome_counts_bytes() {
    assert_eq!(io_outcome(0).unwrap(), 0);
    assert_eq!(io_outcome(17).unwrap(), 17);
    assert!(io_outcome(-1).is_err());
}
