use subterminal::sys::unix::linux::termios::{make_raw, TerminalConstants, TermiosFlags};
use subterminal::{Pty, Spawn};

fn constants() -> TerminalConstants {
    TerminalConstants {
        echo: libc::ECHO,
        icanon: libc::ICANON,
        igncr: libc::IGNCR,
        tcsanow: libc::TCSANOW,
    }
}

fn words(argv: &[Vec<char>]) -> Vec<String> {
    argv.iter().map(|w| w.iter().collect()).collect()
}

#[test]
fn spawn_child_runs_the_default_shell() {
    match Pty::spawn_shell("echo hello", Some("/bin/bash"), 0, 7) {
        Spawn::Child(plan) => {
            assert_eq!(words(&plan.argv), vec!["/bin/bash", "-c", "echo hello"]);
            assert_eq!(plan.login_tty, None);
            assert_eq!(plan.ids, None);
        }
        _ => panic!("the child must run the shell"),
    }
}

#[test]
fn spawn_without_a_named_shell_uses_bin_sh() {
    for named in [None, Some("")] {
        match Pty::spawn_shell("echo  hello", named, 0, 7) {
            Spawn::Child(plan) => {
                assert_eq!(words(&plan.argv), vec!["/bin/sh", "-c", "echo  hello"]);
            }
            _ => panic!("the child must run the shell"),
        }
    }
}

#[test]
fn spawn_parent_keeps_the_terminal() {
    match Pty::spawn_shell("echo hello", None, 4321, 7) {
        Spawn::Parent(p) => {
            assert_eq!(p.inner().manager(), 7);
            assert_eq!(p.inner().child_pid(), 4321);
            assert_eq!(p.input.fd(), 7);
            assert_eq!(p.output.fd(), 7);
            assert_eq!(p.shutdown(), 4321);
        }
        _ => panic!("the parent must get the terminal"),
    }
}

#[test]
fn spawn_failed_fork() {
    assert!(matches!(Pty::spawn_shell("echo hello", None, -1, -1), Spawn::Failed(_)));
}

#[test]
fn spawn_as_user_child_takes_ids() {
    match subterminal::sys::Pty::spawn_as_user("id -u", 1000, 100, 0, 3) {
        Spawn::Child(plan) => {
            assert_eq!(plan.ids, Some((1000, 100)));
            assert_eq!(words(&plan.argv), vec!["id", "-u"]);
        }
        _ => panic!("the child must run the command"),
    }
}

#[test]
fn from_raw_pty_child_logs_in_on_slave() {
    match Pty::from_raw_pty(5, 6, "sh", 0) {
        Spawn::Child(plan) => {
            assert_eq!(plan.login_tty, Some(6));
            assert_eq!(words(&plan.argv), vec!["sh"]);
        }
        _ => panic!("the child must run the command"),
    }
    match Pty::from_raw_pty(5, 6, "sh", 99) {
        Spawn::Parent(p) => {
            assert_eq!(p.inner().manager(), 5);
            assert_eq!(p.inner().child_pid(), 99);
        }
        _ => panic!("the parent must get the terminal"),
    }
}

#[test]
fn exec_returned_outcomes() {
    assert!(Pty::exec_returned(3, -1).is_err());
    let p = Pty::exec_returned(3, 0).ok().unwrap();
    assert_eq!(p.inner().manager(), 3);
    assert_eq!(p.inner().child_pid(), -1);
}

#[test]
fn get_io_shares_the_manager() {
    let p = subterminal::sys::Pty::new(9, 10);
    let (i, o) = p.get_io();
    assert_eq!(i.fd(), 9);
    assert_eq!(o.fd(), 9);
}

#[test]
fn enable_raw_clears_three_modes() {
    let k = constants();
    let current = TermiosFlags {
        c_iflag: libc::IGNCR | libc::ICRNL,
        c_oflag: libc::OPOST,
        c_cflag: libc::CS8,
        c_lflag: libc::ECHO | libc::ICANON | libc::ISIG,
    };
    let p = Pty::from_inner(subterminal::sys::Pty::new(4, 44));
    let call = p.enable_raw(current, k);
    assert_eq!(call.fd, 4);
    assert_eq!(call.action, libc::TCSANOW);
    assert_eq!(call.flags.c_iflag, libc::ICRNL);
    assert_eq!(call.flags.c_oflag, libc::OPOST);
    assert_eq!(call.flags.c_cflag, libc::CS8);
    assert_eq!(call.flags.c_lflag, libc::ISIG);
}

#[test]
fn enable_raw_twice_is_enable_raw_once() {
    let k = constants();
    let t = TermiosFlags { c_iflag: 0xFFFF, c_oflag: 1, c_cflag: 2, c_lflag: 0xFFFF };
    assert_eq!(make_raw(make_raw(t, k), k), make_raw(t, k));
}
