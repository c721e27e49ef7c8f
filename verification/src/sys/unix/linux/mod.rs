pub mod command;
pub mod os;
pub mod passwd;
pub mod termios;

pub use os::{handle_c_ret, io_limit, io_outcome};
pub use termios::{SetAttr, TermiosFlags, TerminalConstants};

use command::{split_command, split_words, words_view};
use termios::{make_raw, raw_flags};

use vstd::prelude::*;

verus! {

/// The manager side of a pseudoterminal, read from by the program.
pub struct PtyOut {
    file: i32,
}

/// The manager side of a pseudoterminal, written to by the program.
pub struct PtyIn {
    file: i32,
}

/// A pseudoterminal: the descriptor of its manager side and the
/// process id of the child attached to its subsidiary side.
pub struct Pty {
    manager: i32,
    child_pid: i32,
}

/// What a freshly forked child does before it runs the command.
pub struct ExecPlan {
    /// Make this descriptor the child's controlling terminal first.
    pub login_tty: Option<i32>,
    /// Take on these ids, `(uid, gid)`: the group id first, then the user id.
    pub ids: Option<(u32, u32)>,
    /// The program, followed by its arguments.
    pub argv: Vec<Vec<char>>,
}

/// Where a spawn stands once the process has forked.
pub enum Spawn<P> {
    /// The fork failed; the error is the one the system reported.
    Failed(std::io::Error),
    /// This is the child: it carries out the plan.
    Child(ExecPlan),
    /// This is the parent: the pseudoterminal is ready.
    Parent(P),
}

/// The plan of a child that runs the program `argv[0]` with the arguments
/// `argv`, with the given terminal and ids.
pub open spec fn runs_command(plan: ExecPlan, argv: Seq<Seq<char>>, login_tty: Option<i32>, ids: Option<(u32, u32)>) -> bool {
    &&& plan.login_tty == login_tty
    &&& plan.ids == ids
    &&& words_view(plan.argv@) == argv
}

/// What a spawn that forked with result `pid` does: `-1` is a failed
/// fork, `0` the child, which runs `argv` with the given terminal and
/// ids, and any other value the parent, which holds `pty` for the child.
pub open spec fn spawned<P>(r: Spawn<P>, pid: i32, argv: Seq<Seq<char>>, login_tty: Option<i32>, ids: Option<(u32, u32)>, pty: spec_fn(P) -> bool) -> bool {
    if pid == -1 {
        r is Failed
    } else if pid == 0 {
        r matches Spawn::Child(plan) && runs_command(plan, argv, login_tty, ids)
    } else {
        r matches Spawn::Parent(p) && pty(p)
    }
}

/// The text `/bin/sh`: the shell of users who name none.
pub open spec fn fallback_shell() -> Seq<char> {
    seq!['/', 'b', 'i', 'n', '/', 's', 'h']
}

pub open spec fn str_view(s: Option<&str>) -> Option<Seq<char>> {
    match s {
        Some(t) => Some(t@),
        None => None,
    }
}

/// The user's default shell: the one the user names (in `SHELL`), unless
/// that is missing or empty, in which case `/bin/sh`.
pub open spec fn default_shell(named: Option<Seq<char>>) -> Seq<char> {
    if named is Some && named->0.len() > 0 {
        named->0
    } else {
        fallback_shell()
    }
}

/// The command line of a shell that is given `cmd` to run: `shell -c cmd`.
pub open spec fn shell_argv(shell: Seq<char>, cmd: Seq<char>) -> Seq<Seq<char>> {
    seq![shell, seq!['-', 'c'], cmd]
}

/// The child runs exactly the shell the user names, whatever it is, with
/// `-c` and the command as its two arguments; only where no shell (or an
/// empty one) is named does it run `/bin/sh`.
pub proof fn lemma_shell_command(n: Seq<char>, cmd: Seq<char>)
    ensures
        shell_argv(default_shell(Some(n)), cmd).len() == 3,
        n.len() > 0 ==> shell_argv(default_shell(Some(n)), cmd)[0] == n,
        shell_argv(default_shell(Some(n)), cmd)[1] == seq!['-', 'c'],
        shell_argv(default_shell(Some(n)), cmd)[2] == cmd,
        shell_argv(default_shell(Some(Seq::<char>::empty())), cmd)[0] == seq!['/', 'b', 'i', 'n', '/', 's', 'h'],
        shell_argv(default_shell(None), cmd)[0] == seq!['/', 'b', 'i', 'n', '/', 's', 'h'],
        shell_argv(default_shell(None), cmd).len() == 3,
{
}

/// The characters of `s`.
pub fn chars_of(s: &str) -> (r: Vec<char>)
    ensures
        r@ == s@,
{
    broadcast use vstd::string::axiom_spec_iter;
    let mut r: Vec<char> = Vec::new();
    for c in it: s.chars()
        invariant
            it.seq() == s@,
            r@ == s@.take(it.index()),
    {
        r.push(c);
        assert(r@ =~= s@.take(it.index() + 1));
    }
    assert(r@ =~= s@);
    r
}

/// The command line that runs `cmd` in the user's default shell, where
/// `named` is the shell the user names, if any.
pub fn shell_command(named: Option<&str>, cmd: &str) -> (argv: Vec<Vec<char>>)
    ensures
        words_view(argv@) == shell_argv(default_shell(str_view(named)), cmd@),
{
    let shell: Vec<char> = match named {
        Some(s) => {
            let v = chars_of(s);
            if v.len() > 0 {
                v
            } else {
                vec!['/', 'b', 'i', 'n', '/', 's', 'h']
            }
        },
        None => vec!['/', 'b', 'i', 'n', '/', 's', 'h'],
    };
    let dash_c: Vec<char> = vec!['-', 'c'];
    let mut argv: Vec<Vec<char>> = Vec::new();
    argv.push(shell);
    argv.push(dash_c);
    argv.push(chars_of(cmd));
    assert(words_view(argv@) =~= shell_argv(default_shell(str_view(named)), cmd@));
    argv
}

/// Decides what a process does after a fork that returned `pid`: the
/// child runs `argv`, which is built only in the child.
fn fork_outcome(cmd: &str, shell: Option<Option<&str>>, pid: i32, login_tty: Option<i32>, ids: Option<(u32, u32)>, pty: Pty) -> (r: Spawn<Pty>)
    ensures
        spawned(r, pid, match shell {
            Some(named) => shell_argv(default_shell(str_view(named)), cmd@),
            None => split_words(cmd@),
        }, login_tty, ids, |p: Pty| p == pty),
{
    if pid == -1 {
        Spawn::Failed(os::last_os_error())
    } else if pid == 0 {
        let argv = match shell {
            Some(named) => shell_command(named, cmd),
            None => split_command(cmd),
        };
        Spawn::Child(ExecPlan { login_tty, ids, argv })
    } else {
        Spawn::Parent(pty)
    }
}

impl PtyOut {
    pub closed spec fn spec_fd(&self) -> i32 {
        self.file
    }

    /// The descriptor that reads go to.
    pub fn fd(&self) -> (r: i32)
        ensures
            r == self.spec_fd(),
    {
        self.file
    }
}

impl PtyIn {
    pub closed spec fn spec_fd(&self) -> i32 {
        self.file
    }

    /// The descriptor that writes go to.
    pub fn fd(&self) -> (r: i32)
        ensures
            r == self.spec_fd(),
    {
        self.file
    }

    /// Flushing does nothing: the terminal keeps no buffer on this side.
    pub fn flush(&mut self) -> (r: Result<(), std::io::Error>)
        ensures
            r is Ok,
            *final(self) == *old(self),
    {
        Ok(())
    }
}

impl Pty {
    pub closed spec fn spec_manager(&self) -> i32 {
        self.manager
    }

    pub closed spec fn spec_child_pid(&self) -> i32 {
        self.child_pid
    }

    /// A pseudoterminal with the given manager descriptor and child process.
    pub fn new(manager: i32, child_pid: i32) -> (r: Pty)
        ensures
            r.spec_manager() == manager,
            r.spec_child_pid() == child_pid,
    {
        Pty { manager, child_pid }
    }

    /// The descriptor of the manager side.
    pub fn manager(&self) -> (r: i32)
        ensures
            r == self.spec_manager(),
    {
        self.manager
    }

    /// The process id of the child.
    pub fn child_pid(&self) -> (r: i32)
        ensures
            r == self.spec_child_pid(),
    {
        self.child_pid
    }

    /// The two ends the program talks through: both are the manager side.
    pub fn get_io(&self) -> (r: (PtyIn, PtyOut))
        ensures
            r.0.spec_fd() == self.spec_manager(),
            r.1.spec_fd() == self.spec_manager(),
    {
        (PtyIn { file: self.manager }, PtyOut { file: self.manager })
    }

    /// Spawns a child process connected to a new pseudoterminal, which
    /// executes the user's default shell and gives it `cmd` to run:
    /// `shell` is the shell the user names, if any, `forkpty` returned
    /// `pid` and stored the manager descriptor in `manager`.
    pub fn spawn(cmd: &str, shell: Option<&str>, pid: i32, manager: i32) -> (r: Spawn<Pty>)
        ensures
            spawned(r, pid, shell_argv(default_shell(str_view(shell)), cmd@), None, None,
                |p: Pty| p.spec_manager() == manager && p.spec_child_pid() == pid),
    {
        fork_outcome(cmd, Some(shell), pid, None, None, Pty { manager, child_pid: pid })
    }

    /// Spawns `cmd` on a new pseudoterminal as the user with ids `uid` and
    /// `gid`: `forkpty` returned `pid` and stored the manager in `manager`.
    pub fn spawn_as_user(cmd: &str, uid: u32, gid: u32, pid: i32, manager: i32) -> (r: Spawn<Pty>)
        ensures
            spawned(r, pid, split_words(cmd@), None, Some((uid, gid)), |p: Pty| p.spec_manager() == manager && p.spec_child_pid() == pid),
    {
        fork_outcome(cmd, None, pid, None, Some((uid, gid)), Pty { manager, child_pid: pid })
    }

    /// Spawns `cmd` on an existing pseudoterminal whose sides are `master`
    /// and `slave`: `fork` returned `pid`. The child makes `slave` its
    /// controlling terminal; the parent keeps `master`.
    pub fn from_raw_pty(master: i32, slave: i32, cmd: &str, pid: i32) -> (r: Spawn<Pty>)
        ensures
            spawned(r, pid, split_words(cmd@), Some(slave), None, |p: Pty| p.spec_manager() == master && p.spec_child_pid() == pid),
    {
        fork_outcome(cmd, None, pid, Some(slave), None, Pty { manager: master, child_pid: pid })
    }

    /// What the child is left with when `execvp` returned `ret`: the
    /// failure it reports, or, for any return but `-1`, a pseudoterminal
    /// on `manager` that has no child of its own.
    pub fn exec_returned(manager: i32, ret: i32) -> (r: Result<Pty, std::io::Error>)
        ensures
            r is Err <==> ret == -1,
            r matches Ok(p) ==> p.spec_manager() == manager && p.spec_child_pid() == -1,
    {
        match handle_c_ret(ret) {
            Ok(()) => Ok(Pty { manager, child_pid: -1 }),
            Err(e) => Err(e),
        }
    }

    /// Puts the terminal in raw mode: given its current flags, the
    /// `tcsetattr` call to make, at once, on the manager side.
    pub fn enable_raw(&self, current: TermiosFlags, k: TerminalConstants) -> (r: SetAttr)
        ensures
            r.fd == self.spec_manager(),
            r.action == k.tcsanow,
            r.flags == raw_flags(current, k),
    {
        SetAttr { fd: self.manager, action: k.tcsanow, flags: make_raw(current, k) }
    }

    /// The process that a shutdown sends the hangup signal to: the child.
    pub fn shutdown(&self) -> (pid: i32)
        ensures
            pid == self.spec_child_pid(),
    {
        self.child_pid
    }
}

} // verus!
