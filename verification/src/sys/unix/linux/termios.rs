use vstd::prelude::*;

verus! {

/// The four flag words of a `termios` structure.
#[derive(Clone, Copy, Debug, PartialEq, Eq)]
pub struct TermiosFlags {
    pub c_iflag: u32,
    pub c_oflag: u32,
    pub c_cflag: u32,
    pub c_lflag: u32,
}

/// The platform's values of the terminal constants that raw mode uses,
/// as the C library defines them: the `ECHO` and `ICANON` local modes,
/// the `IGNCR` input mode and the `TCSANOW` action.
#[derive(Clone, Copy, Debug, PartialEq, Eq)]
pub struct TerminalConstants {
    pub echo: u32,
    pub icanon: u32,
    pub igncr: u32,
    pub tcsanow: i32,
}

/// A `tcsetattr` call to make: on descriptor `fd`, with action `action`,
/// setting these flags.
#[derive(Clone, Copy, Debug, PartialEq, Eq)]
pub struct SetAttr {
    pub fd: i32,
    pub action: i32,
    pub flags: TermiosFlags,
}

/// The flags of raw mode: echo and canonical line editing are off, and
/// carriage returns are no longer ignored on input; all else is kept.
pub open spec fn raw_flags(t: TermiosFlags, k: TerminalConstants) -> TermiosFlags {
    TermiosFlags {
        c_iflag: t.c_iflag & !k.igncr,
        c_oflag: t.c_oflag,
        c_cflag: t.c_cflag,
        c_lflag: t.c_lflag & !k.echo & !k.icanon,
    }
}

/// Switches the flags to raw mode.
pub fn make_raw(t: TermiosFlags, k: TerminalConstants) -> (r: TermiosFlags)
    ensures
        r == raw_flags(t, k),
{
    let mut r = t;
    r.c_lflag = r.c_lflag & !k.echo;
    r.c_lflag = r.c_lflag & !k.icanon;
    r.c_iflag = r.c_iflag & !k.igncr;
    r
}

/// Raw mode turns the three modes off and keeps every other bit; setting
/// it on flags that are already raw changes nothing.
pub proof fn lemma_raw_flags(t: TermiosFlags, k: TerminalConstants)
    ensures
        raw_flags(t, k).c_lflag & k.echo == 0,
        raw_flags(t, k).c_lflag & k.icanon == 0,
        raw_flags(t, k).c_iflag & k.igncr == 0,
        raw_flags(t, k).c_lflag | k.echo | k.icanon == t.c_lflag | k.echo | k.icanon,
        raw_flags(t, k).c_iflag | k.igncr == t.c_iflag | k.igncr,
        raw_flags(raw_flags(t, k), k) == raw_flags(t, k),
        raw_flags(t, k).c_cflag == t.c_cflag,
        raw_flags(t, k).c_oflag == t.c_oflag,
{
    let l = t.c_lflag;
    let i = t.c_iflag;
    let e = k.echo;
    let c = k.icanon;
    let g = k.igncr;
    assert(l & !e & !c & e == 0) by (bit_vector);
    assert(l & !e & !c & c == 0) by (bit_vector);
    assert(i & !g & g == 0) by (bit_vector);
    assert((l & !e & !c) | e | c == l | e | c) by (bit_vector);
    assert((i & !g) | g == i | g) by (bit_vector);
    assert(l & !e & !c & !e & !c == l & !e & !c) by (bit_vector);
    assert(i & !g & !g == i & !g) by (bit_vector);
}

} // verus!
