pub mod echo;
pub mod sys;

pub use echo::{Echo, EchoAll, EchoError, EchoReply, EchoStep};
pub use sys::unix::linux::{handle_c_ret, io_limit, io_outcome, ExecPlan, SetAttr, Spawn, TerminalConstants, TermiosFlags};

use vstd::prelude::*;

use sys::unix::linux::command::split_words;
use sys::unix::linux::{default_shell, shell_argv, spawned, str_view};
use sys::unix::linux::termios::raw_flags;

verus! {

/// The side of a pseudoterminal that the program writes to.
pub struct PtyIn {
    inner: sys::PtyIn,
}

/// The side of a pseudoterminal that the program reads from.
pub struct PtyOut {
    inner: sys::PtyOut,
}

/// A child process attached to a pseudoterminal, with the two ends the
/// program talks to it through.
pub struct Pty {
    inner: sys::Pty,
    pub input: PtyIn,
    pub output: PtyOut,
}

impl PtyIn {
    pub closed spec fn spec_fd(&self) -> i32 {
        self.inner.spec_fd()
    }

    /// The end of the system layer this side writes through.
    pub fn inner(&self) -> (r: &sys::PtyIn)
        ensures
            r.spec_fd() == self.spec_fd(),
    {
        &self.inner
    }

    /// The descriptor that writes go to.
    pub fn fd(&self) -> (r: i32)
        ensures
            r == self.spec_fd(),
    {
        self.inner.fd()
    }

    /// Flushing does nothing: the terminal keeps no buffer on this side.
    pub fn flush(&mut self) -> (r: Result<(), std::io::Error>)
        ensures
            r is Ok,
            *final(self) == *old(self),
    {
        self.inner.flush()
    }
}

impl PtyOut {
    pub closed spec fn spec_fd(&self) -> i32 {
        self.inner.spec_fd()
    }

    /// The end of the system layer this side reads through.
    pub fn inner(&self) -> (r: &sys::PtyOut)
        ensures
            r.spec_fd() == self.spec_fd(),
    {
        &self.inner
    }

    /// The descriptor that reads go to.
    pub fn fd(&self) -> (r: i32)
        ensures
            r == self.spec_fd(),
    {
        self.inner.fd()
    }
}

impl Pty {
    pub closed spec fn spec_inner(&self) -> sys::Pty {
        self.inner
    }

    pub closed spec fn spec_input_fd(&self) -> i32 {
        self.input.spec_fd()
    }

    pub closed spec fn spec_output_fd(&self) -> i32 {
        self.output.spec_fd()
    }

    /// Both ends talk to the manager side of the terminal.
    pub open spec fn wf(&self) -> bool {
        &&& self.spec_input_fd() == self.spec_inner().spec_manager()
        &&& self.spec_output_fd() == self.spec_inner().spec_manager()
    }

    /// The pseudoterminal of the system layer, with its two ends.
    pub fn from_inner(inner: sys::Pty) -> (r: Pty)
        ensures
            r.wf(),
            r.spec_inner() == inner,
    {
        let (input, output) = inner.get_io();
        Pty { inner, input: PtyIn { inner: input }, output: PtyOut { inner: output } }
    }

    /// Takes the pseudoterminal apart into the system layer's terminal and
    /// the two ends.
    pub fn into_parts(self) -> (r: (sys::Pty, PtyIn, PtyOut))
        ensures
            r.0 == self.spec_inner(),
            r.1.spec_fd() == self.spec_input_fd(),
            r.2.spec_fd() == self.spec_output_fd(),
    {
        (self.inner, self.input, self.output)
    }

    /// The pseudoterminal of the system layer.
    pub fn inner(&self) -> (r: &sys::Pty)
        ensures
            *r == self.spec_inner(),
    {
        &self.inner
    }

    /// Spawns a child process connected to a new pseudoterminal, which
    /// executes the user's default shell and gives it `cmd` to run:
    /// `shell` is the shell the user names, if any, `forkpty` returned
    /// `pid` and stored the manager side in `manager`. The parent gets the
    /// terminal with both its ends.
    pub fn spawn_shell(cmd: &str, shell: Option<&str>, pid: i32, manager: i32) -> (r: Spawn<Pty>)
        ensures
            spawned(r, pid, shell_argv(default_shell(str_view(shell)), cmd@), None, None,
                |p: Pty| p.wf() && p.spec_inner().spec_manager() == manager
                && p.spec_inner().spec_child_pid() == pid),
    {
        match sys::Pty::spawn(cmd, shell, pid, manager) {
            Spawn::Failed(e) => Spawn::Failed(e),
            Spawn::Child(plan) => Spawn::Child(plan),
            Spawn::Parent(inner) => Spawn::Parent(Pty::from_inner(inner)),
        }
    }

    /// Spawns a child process that runs `cmd` on the existing terminal
    /// whose sides are `master` and `slave`: `fork` returned `pid`.
    pub fn from_raw_pty(master: i32, slave: i32, cmd: &str, pid: i32) -> (r: Spawn<Pty>)
        ensures
            spawned(r, pid, split_words(cmd@), Some(slave), None, |p: Pty| p.wf() && p.spec_inner().spec_manager() == master
                && p.spec_inner().spec_child_pid() == pid),
    {
        match sys::Pty::from_raw_pty(master, slave, cmd, pid) {
            Spawn::Failed(e) => Spawn::Failed(e),
            Spawn::Child(plan) => Spawn::Child(plan),
            Spawn::Parent(inner) => Spawn::Parent(Pty::from_inner(inner)),
        }
    }

    /// What the child is left with when `execvp` returned `ret`.
    pub fn exec_returned(manager: i32, ret: i32) -> (r: Result<Pty, std::io::Error>)
        ensures
            r is Err <==> ret == -1,
            r matches Ok(p) ==> p.wf() && p.spec_inner().spec_manager() == manager
                && p.spec_inner().spec_child_pid() == -1,
    {
        match sys::Pty::exec_returned(manager, ret) {
            Ok(inner) => Ok(Pty::from_inner(inner)),
            Err(e) => Err(e),
        }
    }

    /// The process that a shutdown sends the hangup signal to: the child.
    pub fn shutdown(&self) -> (pid: i32)
        ensures
            pid == self.spec_inner().spec_child_pid(),
    {
        self.inner.shutdown()
    }

    /// Puts the terminal in raw mode: given its current flags, the
    /// `tcsetattr` call to make, at once, on the manager side.
    pub fn enable_raw(&self, current: TermiosFlags, k: TerminalConstants) -> (r: SetAttr)
        ensures
            r.fd == self.spec_inner().spec_manager(),
            r.action == k.tcsanow,
            r.flags == raw_flags(current, k),
    {
        self.inner.enable_raw(current, k)
    }
}

/// A terminal that a spawn hands to the parent belongs to a real child:
/// when the fork answered as `fork` and `forkpty` do (`-1`, `0`, or the
/// child's process id, which is positive), the terminal's child pid is
/// positive. No method changes a `Pty`, so `shutdown` then signals that
/// child alone, never a process group (`0`) or every process (`-1`).
pub proof fn lemma_parent_has_real_child(
    r: Spawn<Pty>,
    pid: i32,
    argv: Seq<Seq<char>>,
    login_tty: Option<i32>,
    ids: Option<(u32, u32)>,
    manager: i32,
)
    requires
        pid >= -1,
        spawned(r, pid, argv, login_tty, ids, |p: Pty| p.wf() && p.spec_inner().spec_manager() == manager
            && p.spec_inner().spec_child_pid() == pid),
    ensures
        r matches Spawn::Parent(p) ==> p.spec_inner().spec_child_pid() > 0,
{
}

} // verus!
