use vstd::prelude::*;

verus! {

/// The White_Space property of Unicode, which `char::is_whitespace`
/// tests: U+0009 to U+000D, U+0020, U+0085, U+00A0, U+1680,
/// U+2000 to U+200A, U+2028, U+2029, U+202F, U+205F and U+3000.
pub open spec fn is_white_space(c: char) -> bool {
    let u = c as u32;
    ||| 0x09 <= u <= 0x0D
    ||| u == 0x20
    ||| u == 0x85
    ||| u == 0xA0
    ||| u == 0x1680
    ||| 0x2000 <= u <= 0x200A
    ||| u == 0x2028
    ||| u == 0x2029
    ||| u == 0x202F
    ||| u == 0x205F
    ||| u == 0x3000
}

/// The pieces that splitting `s` at every white-space character gives,
/// as `str::split(char::is_whitespace)` yields them: each separator ends
/// a piece, so `n` separators give `n + 1` pieces, some of them empty.
pub open spec fn split_words(s: Seq<char>) -> Seq<Seq<char>>
    decreases s.len(),
{
    if s.len() == 0 {
        seq![Seq::<char>::empty()]
    } else {
        let w = split_words(s.drop_last());
        if is_white_space(s.last()) {
            w.push(Seq::<char>::empty())
        } else {
            w.update(w.len() - 1, w.last().push(s.last()))
        }
    }
}

/// Splitting always gives at least one piece.
pub proof fn lemma_split_words_nonempty(s: Seq<char>)
    ensures
        split_words(s).len() >= 1,
    decreases s.len(),
{
    if s.len() > 0 {
        lemma_split_words_nonempty(s.drop_last());
    }
}

pub open spec fn white_space_chars(s: Seq<char>) -> Seq<char> {
    s.filter(|c: char| is_white_space(c))
}

pub open spec fn other_chars(s: Seq<char>) -> Seq<char> {
    s.filter(|c: char| !is_white_space(c))
}

/// Splitting a command line loses nothing but the separators: there is
/// one piece more than there are white-space characters, no piece holds
/// white space, and the pieces put end to end give back every other
/// character of the line, in order.
pub proof fn lemma_split_words_laws(s: Seq<char>)
    ensures
        split_words(s).len() == white_space_chars(s).len() + 1,
        forall|i: int, j: int|
            0 <= i < split_words(s).len() && 0 <= j < split_words(s)[i].len()
                ==> !is_white_space(#[trigger] split_words(s)[i][j]),
        split_words(s).flatten() == other_chars(s),
    decreases s.len(),
{
    reveal_with_fuel(Seq::filter, 1);
    if s.len() == 0 {
        assert(split_words(s).flatten() =~= Seq::<char>::empty()) by {
            Seq::<Seq<char>>::empty().lemma_flatten_push(Seq::<char>::empty());
            assert(split_words(s) =~= Seq::<Seq<char>>::empty().push(Seq::<char>::empty()));
        }
    } else {
        let p = s.drop_last();
        let c = s.last();
        let w = split_words(p);
        lemma_split_words_laws(p);
        lemma_split_words_nonempty(p);
        assert(s.filter(|c: char| is_white_space(c)) == if is_white_space(c) {
            p.filter(|c: char| is_white_space(c)).push(c)
        } else {
            p.filter(|c: char| is_white_space(c))
        });
        assert(s.filter(|c: char| !is_white_space(c)) == if !is_white_space(c) {
            p.filter(|c: char| !is_white_space(c)).push(c)
        } else {
            p.filter(|c: char| !is_white_space(c))
        });
        if is_white_space(c) {
            w.lemma_flatten_push(Seq::<char>::empty());
            assert(w.flatten() + Seq::<char>::empty() =~= w.flatten());
        } else {
            let front = w.drop_last();
            assert(w =~= front.push(w.last()));
            front.lemma_flatten_push(w.last());
            front.lemma_flatten_push(w.last().push(c));
            assert(split_words(s) =~= front.push(w.last().push(c)));
            assert(front.flatten() + w.last().push(c) =~= (front.flatten() + w.last()).push(c));
            assert forall|i: int, j: int|
                0 <= i < split_words(s).len() && 0 <= j < split_words(s)[i].len()
                implies !is_white_space(#[trigger] split_words(s)[i][j]) by {
                if i == w.len() - 1 && j == w.last().len() {
                } else {
                    assert(split_words(s)[i][j] == w[i][j]);
                }
            }
        }
    }
}

/// The pieces put back together with the separators between them: the
/// first piece, then each separator followed by the next piece.
pub open spec fn join_with(words: Seq<Seq<char>>, seps: Seq<char>) -> Seq<char>
    decreases words.len(),
{
    if words.len() == 0 {
        Seq::<char>::empty()
    } else if words.len() == 1 {
        words[0]
    } else {
        join_with(words.drop_last(), seps.drop_last()) + seq![seps.last()] + words.last()
    }
}

/// Splitting cuts a command line at its white-space characters and nowhere
/// else: putting the pieces back together, with the white-space characters
/// of the line between them in their order, gives back the line. Since no
/// piece holds white space, each piece is exactly the run of characters
/// between two consecutive separators.
pub proof fn lemma_split_words_rejoin(s: Seq<char>)
    ensures
        join_with(split_words(s), white_space_chars(s)) == s,
    decreases s.len(),
{
    reveal_with_fuel(Seq::filter, 1);
    if s.len() == 0 {
        assert(split_words(s) =~= seq![Seq::<char>::empty()]);
        assert(join_with(split_words(s), white_space_chars(s)) =~= s);
    } else {
        let p = s.drop_last();
        let c = s.last();
        let w = split_words(p);
        let seps = white_space_chars(p);
        lemma_split_words_rejoin(p);
        lemma_split_words_laws(p);
        assert(s.filter(|c: char| is_white_space(c)) == if is_white_space(c) {
            p.filter(|c: char| is_white_space(c)).push(c)
        } else {
            p.filter(|c: char| is_white_space(c))
        });
        if is_white_space(c) {
            let w2 = w.push(Seq::<char>::empty());
            let seps2 = seps.push(c);
            assert(w2.drop_last() =~= w);
            assert(seps2.drop_last() =~= seps);
            assert(join_with(w2, seps2) =~= p + seq![c] + Seq::<char>::empty());
            assert(p + seq![c] + Seq::<char>::empty() =~= s);
        } else {
            let w2 = w.update(w.len() - 1, w.last().push(c));
            if w.len() == 1 {
                assert(join_with(w2, seps) == w2[0]);
                assert(w2[0] =~= p.push(c));
                assert(p.push(c) =~= s);
            } else {
                assert(w2.drop_last() =~= w.drop_last());
                assert(join_with(w2, seps) == join_with(w.drop_last(), seps.drop_last())
                    + seq![seps.last()] + w.last().push(c));
                assert(join_with(w2, seps) =~= join_with(w, seps).push(c));
                assert(p.push(c) =~= s);
            }
        }
    }
}

/// Whether `c` is white space in the sense of `char::is_whitespace`.
pub fn is_whitespace(c: char) -> (r: bool)
    ensures
        r == is_white_space(c),
{
    let u = c as u32;
    (0x09 <= u && u <= 0x0D) || u == 0x20 || u == 0x85 || u == 0xA0 || u == 0x1680 || (0x2000
        <= u && u <= 0x200A) || u == 0x2028 || u == 0x2029 || u == 0x202F || u == 0x205F || u
        == 0x3000
}

pub open spec fn words_view(words: Seq<Vec<char>>) -> Seq<Seq<char>> {
    words.map_values(|w: Vec<char>| w@)
}

/// Splits a command line at white space: the first piece names the
/// program, the pieces after it are its arguments.
pub fn split_command(cmd: &str) -> (words: Vec<Vec<char>>)
    ensures
        words_view(words@) == split_words(cmd@),
{
    broadcast use vstd::string::axiom_spec_iter;
    let mut words: Vec<Vec<char>> = Vec::new();
    let mut cur: Vec<char> = Vec::new();
    let ghost mut seen: Seq<char> = Seq::empty();
    for c in it: cmd.chars()
        invariant
            it.seq() == cmd@,
            seen == cmd@.take(it.index()),
            words_view(words@).push(cur@) == split_words(seen),
    {
        let ghost pre = seen;
        let ghost post = seen.push(c);
        assert(post.drop_last() == pre);
        proof {
            lemma_split_words_nonempty(pre);
        }
        if is_whitespace(c) {
            words.push(cur);
            cur = Vec::new();
            assert(words_view(words@).push(cur@) =~= split_words(post));
        } else {
            cur.push(c);
            assert(words_view(words@).push(cur@) =~= split_words(post));
        }
        proof {
            seen = post;
            assert(seen =~= cmd@.take(it.index() + 1));
        }
    }
    words.push(cur);
    assert(seen =~= cmd@);
    assert(words_view(words@) =~= split_words(cmd@));
    words
}

} // verus!
