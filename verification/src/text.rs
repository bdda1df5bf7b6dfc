//! Text as sequences of characters: splitting at a separator, and the few
//! conversions between `str`, `String` and `Vec<char>` that the rest of the
//! library builds on.

use vstd::prelude::*;

verus! {

/// `String::push` appends the given character to the end of the string and
/// leaves what was there before as it is. Verus takes this on trust.
pub assume_specification[ String::push ](s: &mut String, c: char)
    ensures
        final(s)@ == old(s)@.push(c),
;

/// The pieces of `s` between the occurrences of `sep`, in order. There is
/// always at least one piece: a separator ends one piece and starts the
/// next, which may be empty.
pub open spec fn split(s: Seq<char>, sep: char) -> Seq<Seq<char>>
    decreases s.len(),
{
    if s.len() == 0 {
        seq![Seq::empty()]
    } else {
        let before = split(s.drop_last(), sep);
        if s.last() == sep {
            before.push(Seq::empty())
        } else {
            before.drop_last().push(before.last().push(s.last()))
        }
    }
}

/// The pieces put together again, with one `sep` between neighbours.
pub open spec fn join(parts: Seq<Seq<char>>, sep: char) -> Seq<char>
    decreases parts.len(),
{
    if parts.len() == 0 {
        Seq::empty()
    } else if parts.len() == 1 {
        parts[0]
    } else {
        join(parts.drop_last(), sep).push(sep) + parts.last()
    }
}

/// Splitting loses nothing: there is at least one piece, no piece holds the
/// separator, and joining the pieces gives the text back.
pub proof fn split_is_exact(s: Seq<char>, sep: char)
    ensures
        split(s, sep).len() >= 1,
        forall|i: int| 0 <= i < split(s, sep).len() ==> !(#[trigger] split(s, sep)[i]).contains(sep),
        join(split(s, sep), sep) == s,
    decreases s.len(),
{
    if s.len() == 0 {
        assert(join(split(s, sep), sep) == s);
    } else {
        let t = s.drop_last();
        let c = s.last();
        let before = split(t, sep);
        split_is_exact(t, sep);
        assert(s == t.push(c));
        if c == sep {
            let parts = before.push(Seq::empty());
            assert(parts.drop_last() == before);
            assert(join(parts, sep) == t.push(sep) + Seq::<char>::empty());
            assert(join(parts, sep) == s);
        } else {
            let grown = before.last().push(c);
            let parts = before.drop_last().push(grown);
            assert(forall|i: int| 0 <= i < parts.len() ==> !(#[trigger] parts[i]).contains(sep)) by {
                assert forall|i: int| 0 <= i < parts.len() implies !(#[trigger] parts[i]).contains(
                    sep,
                ) by {
                    if i < parts.len() - 1 {
                        assert(parts[i] == before[i]);
                    } else {
                        assert(!before.last().contains(sep));
                        if grown.contains(sep) {
                            let k = choose|k: int| 0 <= k < grown.len() && grown[k] == sep;
                            if k < before.last().len() {
                                assert(before.last()[k] == sep);
                            }
                        }
                    }
                }
            }
            if before.len() == 1 {
                assert(join(before, sep) == before[0]);
                assert(join(parts, sep) == grown);
            } else {
                assert(parts.drop_last() == before.drop_last());
                let stem = join(before.drop_last(), sep).push(sep);
                assert(join(before, sep) == stem + before.last());
                assert(join(parts, sep) == stem + grown);
                assert(stem + grown == (stem + before.last()).push(c));
            }
            assert(join(parts, sep) == s);
        }
    }
}

/// The characters of a string, one by one.
pub fn chars_of(s: &str) -> (chars: Vec<char>)
    ensures
        chars@ == s@,
{
    let mut chars: Vec<char> = Vec::new();
    for c in it: s.chars()
        invariant
            it.seq() == s@,
            chars@ == s@.take(it.index() as int),
    {
        chars.push(c);
        assert(s@.take(it.index() + 1) == s@.take(it.index() as int).push(s@[it.index() as int]));
    }
    assert(s@.take(s@.len() as int) == s@);
    chars
}

/// The characters as a string.
pub fn text_of(chars: &Vec<char>) -> (text: String)
    ensures
        text@ == chars@,
{
    let text = start_of(chars, chars.len());
    assert(chars@.take(chars.len() as int) == chars@);
    text
}

/// The first `len` characters of `chars` as a string.
pub(crate) fn start_of(chars: &Vec<char>, len: usize) -> (text: String)
    requires
        len <= chars.len(),
    ensures
        text@ == chars@.take(len as int),
{
    let mut text = String::new();
    let mut i: usize = 0;
    while i < len
        invariant
            i <= len <= chars.len(),
            text@ == chars@.take(i as int),
        decreases len - i,
    {
        text.push(chars[i]);
        assert(chars@.take(i + 1) == chars@.take(i as int).push(chars@[i as int]));
        i += 1;
    }
    text
}

/// Splits `chars` at every `sep`.
pub fn split_chars(chars: &Vec<char>, sep: char) -> (parts: Vec<Vec<char>>)
    ensures
        parts.deep_view() == split(chars@, sep),
{
    let mut done: Vec<Vec<char>> = Vec::new();
    let mut piece: Vec<char> = Vec::new();
    let mut i: usize = 0;
    assert(chars@.take(0) == Seq::<char>::empty());
    while i < chars.len()
        invariant
            i <= chars.len(),
            done.deep_view().push(piece@) == split(chars@.take(i as int), sep),
        decreases chars.len() - i,
    {
        let c = chars[i];
        let ghost before = done.deep_view().push(piece@);
        assert(chars@.take(i + 1).drop_last() == chars@.take(i as int));
        assert(before.drop_last() == done.deep_view());
        if c == sep {
            assert(piece.deep_view() =~= piece@);
            done.push(piece);
            piece = Vec::new();
            assert(done.deep_view() =~= before);
        } else {
            piece.push(c);
        }
        i += 1;
    }
    assert(chars@.take(chars.len() as int) == chars@);
    let ghost whole = done.deep_view().push(piece@);
    assert(piece.deep_view() =~= piece@);
    done.push(piece);
    assert(done.deep_view() =~= whole);
    done
}

} // verus!
