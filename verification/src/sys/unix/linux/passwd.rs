use vstd::prelude::*;

verus! {

/// The fields of a line, split at every occurrence of `sep`: `n`
/// separators give `n + 1` fields, some of them possibly empty, as
/// `str::split` with a character pattern yields them.
pub open spec fn split_at_byte(s: Seq<u8>, sep: u8) -> Seq<Seq<u8>>
    decreases s.len(),
{
    if s.len() == 0 {
        seq![Seq::<u8>::empty()]
    } else {
        let w = split_at_byte(s.drop_last(), sep);
        if s.last() == sep {
            w.push(Seq::<u8>::empty())
        } else {
            w.update(w.len() - 1, w.last().push(s.last()))
        }
    }
}

pub proof fn lemma_split_at_byte_nonempty(s: Seq<u8>, sep: u8)
    ensures
        split_at_byte(s, sep).len() >= 1,
    decreases s.len(),
{
    if s.len() > 0 {
        lemma_split_at_byte_nonempty(s.drop_last(), sep);
    }
}

pub open spec fn vecs_view(v: Seq<Vec<u8>>) -> Seq<Seq<u8>> {
    v.map_values(|w: Vec<u8>| w@)
}

/// Splits `s` at every occurrence of `sep`.
pub fn split_fields(s: &[u8], sep: u8) -> (fields: Vec<Vec<u8>>)
    ensures
        vecs_view(fields@) == split_at_byte(s@, sep),
{
    let mut fields: Vec<Vec<u8>> = Vec::new();
    let mut cur: Vec<u8> = Vec::new();
    let mut i: usize = 0;
    while i < s.len()
        invariant
            i <= s.len(),
            vecs_view(fields@).push(cur@) == split_at_byte(s@.take(i as int), sep),
        decreases s.len() - i,
    {
        let b = s[i];
        let ghost pre = s@.take(i as int);
        let ghost post = s@.take(i + 1);
        assert(post.drop_last() =~= pre);
        proof {
            lemma_split_at_byte_nonempty(pre, sep);
        }
        if b == sep {
            fields.push(cur);
            cur = Vec::new();
            assert(vecs_view(fields@).push(cur@) =~= split_at_byte(post, sep));
        } else {
            cur.push(b);
            assert(vecs_view(fields@).push(cur@) =~= split_at_byte(post, sep));
        }
        i = i + 1;
    }
    fields.push(cur);
    assert(s@.take(s@.len() as int) =~= s@);
    assert(vecs_view(fields@) =~= split_at_byte(s@, sep));
    fields
}

pub open spec fn is_ascii_digit(b: u8) -> bool {
    0x30 <= b <= 0x39
}

pub open spec fn all_digits(d: Seq<u8>) -> bool {
    forall|i: int| 0 <= i < d.len() ==> is_ascii_digit(#[trigger] d[i])
}

/// The number that a string of decimal digits writes.
pub open spec fn decimal_value(d: Seq<u8>) -> nat
    decreases d.len(),
{
    if d.len() == 0 {
        0
    } else {
        decimal_value(d.drop_last()) * 10 + (d.last() - 0x30) as nat
    }
}

/// The digits of a number written with an optional leading `+`.
pub open spec fn unsigned_digits(s: Seq<u8>) -> Seq<u8> {
    if s.len() > 0 && s[0] == 0x2B {
        s.drop_first()
    } else {
        s
    }
}

/// What `<u32 as FromStr>::from_str` gives for the text `s`: an optional
/// `+` followed by at least one decimal digit, naming a number that fits
/// in a `u32`; anything else is refused.
pub open spec fn parse_u32_spec(s: Seq<u8>) -> Option<u32> {
    let d = unsigned_digits(s);
    if d.len() > 0 && all_digits(d) && decimal_value(d) <= u32::MAX {
        Some(decimal_value(d) as u32)
    } else {
        None
    }
}

/// Each digit stands for its own value, and a number written as `d`
/// followed by `e` is `d` shifted by as many places as `e` has digits,
/// plus `e`: the place-value reading of decimal numerals.
pub proof fn lemma_decimal_value_place(d: Seq<u8>, e: Seq<u8>)
    requires
        all_digits(d),
        all_digits(e),
    ensures
        decimal_value(d + e) == decimal_value(d) * vstd::arithmetic::power::pow(10, e.len())
            + decimal_value(e),
    decreases e.len(),
{
    reveal(vstd::arithmetic::power::pow);
    if e.len() == 0 {
        assert(d + e =~= d);
    } else {
        let e2 = e.drop_last();
        assert(all_digits(e2));
        lemma_decimal_value_place(d, e2);
        assert((d + e).drop_last() =~= d + e2);
        assert((d + e).last() == e.last());
        let a = decimal_value(d) as int;
        let p = vstd::arithmetic::power::pow(10, e2.len());
        let v = decimal_value(e2) as int;
        assert(vstd::arithmetic::power::pow(10, e.len()) == 10 * p);
        assert((a * p + v) * 10 == a * (10 * p) + v * 10) by (nonlinear_arith);
    }
}

/// A single digit writes its own value, `0` to `9`.
pub proof fn lemma_decimal_value_digit(b: u8)
    requires
        is_ascii_digit(b),
    ensures
        decimal_value(seq![b]) == b - 0x30,
        0 <= decimal_value(seq![b]) <= 9,
{
    let s = seq![b];
    assert(s.drop_last() =~= Seq::<u8>::empty());
    assert(decimal_value(s.drop_last()) == 0);
    assert(s.last() == b);
    assert(decimal_value(s) == decimal_value(s.drop_last()) * 10 + (s.last() - 0x30) as nat);
}

/// A prefix of a string of digits never writes a larger number.
pub proof fn lemma_decimal_value_prefix(d: Seq<u8>, i: int)
    requires
        all_digits(d),
        0 <= i <= d.len(),
    ensures
        decimal_value(d.take(i)) <= decimal_value(d),
    decreases d.len(),
{
    if i < d.len() {
        let p = d.drop_last();
        assert(d.take(i) =~= p.take(i));
        lemma_decimal_value_prefix(p, i);
    } else {
        assert(d.take(i) =~= d);
    }
}

/// Reads a `u32` written in decimal, as `str::parse::<u32>` does.
pub fn parse_u32(s: &[u8]) -> (r: Option<u32>)
    ensures
        r == parse_u32_spec(s@),
{
    let start: usize = if s.len() > 0 && s[0] == 0x2B {
        1
    } else {
        0
    };
    let ghost d = unsigned_digits(s@);
    assert(d =~= s@.subrange(start as int, s@.len() as int));
    if start >= s.len() {
        return None;
    }
    let mut acc: u64 = 0;
    let mut i: usize = start;
    while i < s.len()
        invariant
            start <= i <= s.len(),
            start < s.len(),
            d =~= s@.subrange(start as int, s@.len() as int),
            d == unsigned_digits(s@),
            all_digits(d.take(i - start)),
            acc == decimal_value(d.take(i - start)),
            acc <= u32::MAX,
        decreases s.len() - i,
    {
        let b = s[i];
        if b < 0x30 || b > 0x39 {
            assert(d[i - start] == b);
            assert(!is_ascii_digit(d[i - start]));
            return None;
        }
        let ghost k: int = i - start;
        assert(d.take(k + 1).drop_last() =~= d.take(k));
        acc = acc * 10 + (b - 0x30) as u64;
        assert(d[k] == b);
        assert(acc == decimal_value(d.take(k + 1)));
        if acc > u32::MAX as u64 {
            proof {
                if all_digits(d) {
                    lemma_decimal_value_prefix(d, k + 1);
                }
            }
            return None;
        }
        i = i + 1;
        assert(all_digits(d.take(i - start)));
    }
    assert(d.take(i - start) =~= d);
    Some(acc as u32)
}

/// The text `root`.
pub open spec fn root_name() -> Seq<u8> {
    seq![0x72u8, 0x6Fu8, 0x6Fu8, 0x74u8]
}

/// What a line of the password database says of the user `uname`.
#[derive(Clone, Copy, Debug, PartialEq, Eq)]
pub enum PasswdLine {
    /// The line describes another user.
    OtherUser,
    /// The line describes the user, whose ids are these.
    User { uid: u32, gid: u32 },
    /// The line names the user but lacks a readable user or group id.
    Malformed,
}

/// A line `name:password:uid:gid:...` read for the user `uname`: it is
/// the user's when its first field is `uname`, and then its third and
/// fourth fields must be the numeric user and group ids.
pub open spec fn passwd_line_spec(line: Seq<u8>, uname: Seq<u8>) -> PasswdLine {
    let f = split_at_byte(line, 0x3A);
    if f[0] != uname {
        PasswdLine::OtherUser
    } else if f.len() >= 4 && parse_u32_spec(f[2]) is Some && parse_u32_spec(f[3]) is Some {
        PasswdLine::User { uid: parse_u32_spec(f[2])->0, gid: parse_u32_spec(f[3])->0 }
    } else {
        PasswdLine::Malformed
    }
}

/// The first field of a line is the part before its first separator (all
/// of it where there is none).
pub proof fn lemma_first_field(s: Seq<u8>, sep: u8)
    ensures
        split_at_byte(s, sep).len() >= 1,
        split_at_byte(s, sep)[0].len() <= s.len(),
        split_at_byte(s, sep)[0] == s.take(split_at_byte(s, sep)[0].len() as int),
        !split_at_byte(s, sep)[0].contains(sep),
        split_at_byte(s, sep).len() == 1 ==> split_at_byte(s, sep)[0] == s,
        split_at_byte(s, sep).len() > 1 ==> split_at_byte(s, sep)[0].len() < s.len(),
        split_at_byte(s, sep).len() > 1 ==> s[split_at_byte(s, sep)[0].len() as int] == sep,
    decreases s.len(),
{
    if s.len() == 0 {
        assert(s.take(0) =~= s);
    } else {
        let p = s.drop_last();
        lemma_first_field(p, sep);
        let w = split_at_byte(p, sep);
        let f = w[0];
        if s.last() == sep {
            assert(split_at_byte(s, sep)[0] == f);
            assert(s.take(f.len() as int) =~= p.take(f.len() as int));
            if w.len() == 1 {
                assert(s[f.len() as int] == s.last());
            } else {
                assert(s[f.len() as int] == p[f.len() as int]);
            }
        } else if w.len() == 1 {
            let g = split_at_byte(s, sep)[0];
            assert(g =~= p.push(s.last()));
            assert(g =~= s);
            assert(s.take(s.len() as int) =~= s);
            assert forall|i: int| 0 <= i < g.len() implies g[i] != sep by {
                if i < p.len() {
                    assert(g[i] == p[i]);
                    assert(p[i] == f[i]);
                }
            }
        } else {
            assert(split_at_byte(s, sep)[0] == f);
            assert(s.take(f.len() as int) =~= p.take(f.len() as int));
            assert(s[f.len() as int] == p[f.len() as int]);
        }
    }
}

/// A line of the password database concerns the user `uname` exactly when
/// it starts with `uname` followed by a `:` (or the end of the line), and
/// `uname` holds no `:`: the first field must equal the name, a field
/// that merely starts or ends like it belongs to another user.
pub proof fn lemma_passwd_line_owner(line: Seq<u8>, uname: Seq<u8>)
    ensures
        passwd_line_spec(line, uname) != PasswdLine::OtherUser <==> {
            &&& !uname.contains(0x3Au8)
            &&& uname.len() <= line.len()
            &&& line.take(uname.len() as int) == uname
            &&& (uname.len() == line.len() || line[uname.len() as int] == 0x3Au8)
        },
{
    lemma_first_field(line, 0x3A);
    let w = split_at_byte(line, 0x3A);
    let f = w[0];
    if !uname.contains(0x3Au8) && uname.len() <= line.len() && line.take(uname.len() as int) == uname
        && (uname.len() == line.len() || line[uname.len() as int] == 0x3Au8) {
        // the first field is no longer than the name: it stops at the first `:`
        if f.len() > uname.len() {
            assert(f[uname.len() as int] == line[uname.len() as int]);
            assert(f.contains(0x3Au8));
        }
        // nor shorter: the name holds no `:`
        if f.len() < uname.len() {
            if w.len() == 1 {
                assert(f.len() == line.len());
            } else {
                assert(line[f.len() as int] == 0x3Au8);
                assert(uname[f.len() as int] == line.take(uname.len() as int)[f.len() as int]);
                assert(uname.contains(0x3Au8));
            }
        }
        assert(f =~= uname);
    }
    if f == uname {
        assert(uname.len() <= line.len());
        if uname.len() < line.len() {
            assert(w.len() > 1);
        }
    }
}

/// Whether two byte strings are equal.
pub fn bytes_equal(a: &[u8], b: &[u8]) -> (r: bool)
    ensures
        r == (a@ == b@),
{
    if a.len() != b.len() {
        return false;
    }
    let mut i: usize = 0;
    while i < a.len()
        invariant
            a.len() == b.len(),
            i <= a.len(),
            a@.take(i as int) == b@.take(i as int),
        decreases a.len() - i,
    {
        if a[i] != b[i] {
            assert(a@[i as int] != b@[i as int]);
            return false;
        }
        assert(a@.take(i + 1) =~= a@.take(i as int).push(a@[i as int]));
        assert(b@.take(i + 1) =~= b@.take(i as int).push(b@[i as int]));
        i = i + 1;
    }
    assert(a@ =~= a@.take(i as int));
    assert(b@ =~= b@.take(i as int));
    true
}

/// Reads one line of the password database for the user `uname`.
pub fn passwd_line(line: &[u8], uname: &[u8]) -> (r: PasswdLine)
    ensures
        r == passwd_line_spec(line@, uname@),
{
    let fields = split_fields(line, 0x3A);
    proof {
        lemma_split_at_byte_nonempty(line@, 0x3A);
    }
    assert(fields@[0]@ == split_at_byte(line@, 0x3A)[0]);
    if !bytes_equal(fields[0].as_slice(), uname) {
        return PasswdLine::OtherUser;
    }
    if fields.len() < 4 {
        return PasswdLine::Malformed;
    }
    assert(fields@[2]@ == split_at_byte(line@, 0x3A)[2]);
    assert(fields@[3]@ == split_at_byte(line@, 0x3A)[3]);
    let uid = parse_u32(fields[2].as_slice());
    let gid = parse_u32(fields[3].as_slice());
    match (uid, gid) {
        (Some(uid), Some(gid)) => PasswdLine::User { uid, gid },
        _ => PasswdLine::Malformed,
    }
}

/// The outcome of one step of the search for a user in the password
/// database, which reads it line by line.
#[derive(Clone, Copy, Debug, PartialEq, Eq)]
pub enum UserLookup {
    /// Read the next line.
    NextLine,
    /// The user has these ids; the search is over.
    Found { uid: u32, gid: u32 },
    /// The database ended without naming the user.
    NoSuchUser,
    /// The user's line is unreadable.
    Malformed,
}

/// One step of the search for `uname`: `line` is the next line of the
/// database, or `None` where the database has ended.
pub fn lookup_user_step(line: Option<&[u8]>, uname: &[u8]) -> (r: UserLookup)
    ensures
        match line {
            None => r == UserLookup::NoSuchUser,
            Some(l) => r == match passwd_line_spec(l@, uname@) {
                PasswdLine::OtherUser => UserLookup::NextLine,
                PasswdLine::User { uid, gid } => UserLookup::Found { uid, gid },
                PasswdLine::Malformed => UserLookup::Malformed,
            },
        },
{
    match line {
        None => UserLookup::NoSuchUser,
        Some(l) => match passwd_line(l, uname) {
            PasswdLine::OtherUser => UserLookup::NextLine,
            PasswdLine::User { uid, gid } => UserLookup::Found { uid, gid },
            PasswdLine::Malformed => UserLookup::Malformed,
        },
    }
}

/// Whether the ids found for `uname` can be trusted: both ids zero belong
/// to `root` alone, so for any other name they mean the search went wrong.
pub fn user_ids_plausible(uid: u32, gid: u32, uname: &[u8]) -> (r: bool)
    ensures
        r == !(uid == 0 && gid == 0 && uname@ != root_name()),
{
    let root: [u8; 4] = [0x72, 0x6F, 0x6F, 0x74];
    assert(root@ =~= root_name());
    !(uid == 0 && gid == 0 && !bytes_equal(uname, root.as_slice()))
}

} // verus!
