use vstd::prelude::*;

use crate::sys::unix::linux::passwd::bytes_equal;

verus! {

/// A writer whose terminal echoes what it is given, possibly in another
/// form (as some ANSI escape sequences are).
pub trait Echo {
    /// Writes a buffer into the underlying writer. Returns the number of
    /// bytes written, and `Some(output)` where the echo differs from what
    /// was written, `None` where it is the same. Errors of the underlying
    /// `write` are passed on.
    fn echo(&mut self, buf: &[u8]) -> Result<(usize, Option<Vec<u8>>), std::io::Error>;
}

/// What one call of `Echo::echo` answered.
pub enum EchoReply {
    /// This many bytes were written, echoed as they were (`None`) or as
    /// the given bytes.
    Echoed(usize, Option<Vec<u8>>),
    /// The call was interrupted before it did anything.
    Interrupted,
    /// The call failed with this error.
    Failed(std::io::Error),
}

/// Why echoing a whole buffer stopped.
pub enum EchoError {
    /// The writer accepted nothing: its descriptor is closed.
    WriteZero,
    /// The writer failed with this error.
    Io(std::io::Error),
}

/// What to do next while echoing a whole buffer.
pub enum EchoStep {
    /// Echo the buffer from this offset on.
    Echo(usize),
    /// All of it is written: `None` where the echo equals the buffer,
    /// the echo itself where it differs.
    Done(Option<Vec<u8>>),
    /// Stop with this error.
    Fail(EchoError),
}

/// The progress of echoing a whole buffer: how much of it is written and
/// what has been echoed so far.
pub struct EchoAll {
    buf: Vec<u8>,
    pos: usize,
    out: Vec<u8>,
}

impl EchoAll {
    pub closed spec fn spec_buf(&self) -> Seq<u8> {
        self.buf@
    }

    pub closed spec fn spec_pos(&self) -> int {
        self.pos as int
    }

    pub closed spec fn spec_out(&self) -> Seq<u8> {
        self.out@
    }

    pub open spec fn wf(&self) -> bool {
        0 <= self.spec_pos() <= self.spec_buf().len()
    }

    /// `after` is `before` with `n` more bytes written and `echoed` added
    /// to the echo.
    pub open spec fn advanced(before: EchoAll, after: EchoAll, n: int, echoed: Seq<u8>) -> bool {
        &&& after.spec_buf() == before.spec_buf()
        &&& after.spec_pos() == before.spec_pos() + n
        &&& after.spec_out() == before.spec_out() + echoed
    }

    /// The step that follows state `s`: the rest of the buffer while some
    /// is left, else the end, with the echo where it differs from the buffer.
    pub open spec fn next_step(s: EchoAll, r: EchoStep) -> bool {
        if s.spec_pos() < s.spec_buf().len() {
            r matches EchoStep::Echo(p) && p == s.spec_pos()
        } else {
            r matches EchoStep::Done(o) && if s.spec_out() == s.spec_buf() {
                o is None
            } else {
                o matches Some(v) && v@ == s.spec_out()
            }
        }
    }

    /// Starts echoing `buf`: nothing written, nothing echoed.
    pub fn new(buf: &[u8]) -> (r: (EchoAll, EchoStep))
        ensures
            r.0.wf(),
            r.0.spec_buf() == buf@,
            r.0.spec_pos() == 0,
            r.0.spec_out() == Seq::<u8>::empty(),
            Self::next_step(r.0, r.1),
    {
        let mut copy: Vec<u8> = Vec::new();
        copy.extend_from_slice(buf);
        assert(copy@ =~= buf@);
        let s = EchoAll { buf: copy, pos: 0, out: Vec::new() };
        let step = s.next();
        (s, step)
    }

    /// The step that follows the present state.
    fn next(&self) -> (r: EchoStep)
        requires
            self.wf(),
        ensures
            Self::next_step(*self, r),
    {
        if self.pos < self.buf.len() {
            EchoStep::Echo(self.pos)
        } else if bytes_equal(self.out.as_slice(), self.buf.as_slice()) {
            EchoStep::Done(None)
        } else {
            EchoStep::Done(Some(self.out.clone()))
        }
    }

    /// Takes in what echoing the rest of the buffer answered. A write of
    /// nothing with no echo means the writer is closed; an interruption
    /// changes nothing and the rest is echoed again; an error stops all.
    pub fn step(&mut self, reply: EchoReply) -> (r: EchoStep)
        requires
            old(self).wf(),
            old(self).spec_pos() < old(self).spec_buf().len(),
            match reply {
                EchoReply::Echoed(n, _) => n <= old(self).spec_buf().len() - old(self).spec_pos(),
                _ => true,
            },
        ensures
            final(self).wf(),
            match reply {
                EchoReply::Echoed(n, None) => if n == 0 {
                    *final(self) == *old(self) && (r matches EchoStep::Fail(EchoError::WriteZero))
                } else {
                    Self::advanced(*old(self), *final(self), n as int,
                        old(self).spec_buf().subrange(old(self).spec_pos(), old(self).spec_pos() + n))
                    && Self::next_step(*final(self), r)
                },
                EchoReply::Echoed(n, Some(v)) => Self::advanced(*old(self), *final(self), n as int, v@)
                    && Self::next_step(*final(self), r),
                EchoReply::Interrupted => *final(self) == *old(self)
                    && (r matches EchoStep::Echo(p) && p == old(self).spec_pos()),
                EchoReply::Failed(e) => *final(self) == *old(self)
                    && (r matches EchoStep::Fail(EchoError::Io(f)) && f == e),
            },
    {
        let len = self.buf.len();
        assert(self.spec_buf().len() == len);
        match reply {
            EchoReply::Echoed(n, None) => {
                if n == 0 {
                    return EchoStep::Fail(EchoError::WriteZero);
                }
                let ghost before = self.out@;
                let mut i: usize = self.pos;
                let end: usize = self.pos + n;
                while i < end
                    invariant
                        self.pos <= i <= end <= self.buf.len(),
                        self.buf@ == old(self).buf@,
                        self.pos == old(self).pos,
                        end == self.pos + n,
                        before == old(self).out@,
                        self.out@ == before + self.buf@.subrange(self.pos as int, i as int),
                    decreases end - i,
                {
                    let b = self.buf[i];
                    self.out.push(b);
                    assert(self.buf@.subrange(self.pos as int, i + 1) =~= self.buf@.subrange(
                        self.pos as int,
                        i as int,
                    ).push(b));
                    i = i + 1;
                }
                self.pos = end;
                self.next()
            },
            EchoReply::Echoed(n, Some(v)) => {
                let mut v = v;
                self.out.append(&mut v);
                self.pos = self.pos + n;
                self.next()
            },
            EchoReply::Interrupted => EchoStep::Echo(self.pos),
            EchoReply::Failed(e) => EchoStep::Fail(EchoError::Io(e)),
        }
    }
}

/// Echoing that is never answered with other bytes has nothing to report
/// at the end: while every reply is a plain write of `n > 0` bytes, the
/// echo is exactly the part of the buffer written so far, so once all of
/// it is written the echo equals the buffer.
pub proof fn lemma_plain_echo(before: EchoAll, after: EchoAll, n: int)
    requires
        before.wf(),
        before.spec_out() == before.spec_buf().take(before.spec_pos()),
        0 < n <= before.spec_buf().len() - before.spec_pos(),
        EchoAll::advanced(
            before,
            after,
            n,
            before.spec_buf().subrange(before.spec_pos(), before.spec_pos() + n),
        ),
    ensures
        after.wf(),
        after.spec_out() == after.spec_buf().take(after.spec_pos()),
        after.spec_pos() == after.spec_buf().len() ==> after.spec_out() == after.spec_buf(),
{
    let b = before.spec_buf();
    assert(b.take(before.spec_pos()) + b.subrange(before.spec_pos(), before.spec_pos() + n)
        =~= b.take(before.spec_pos() + n));
    assert(b.take(b.len() as int) =~= b);
}

} // verus!
