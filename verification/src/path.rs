//! Paths as text. A path is split at `/`; where in the output directory a
//! source is put, and how the archive of an output directory is named, are
//! decided here, on the characters alone and without a look at the disk.

use crate::text::{chars_of, split, split_chars, start_of, text_of};
use vstd::prelude::*;

verus! {

/// Whether a piece of a path names an entry of its own. An empty piece
/// (from a doubled or trailing separator), `.` and `..` do not.
pub open spec fn is_name(piece: Seq<char>) -> bool {
    piece.len() > 0 && piece != seq!['.'] && piece != seq!['.', '.']
}

/// The test that keeps the names among the pieces of a path.
pub open spec fn keeps_names() -> spec_fn(Seq<char>) -> bool {
    |piece: Seq<char>| is_name(piece)
}

/// The names along a path, in order.
pub open spec fn names(path: Seq<char>) -> Seq<Seq<char>> {
    split(path, '/').filter(keeps_names())
}

/// The directories that a path leads through: its names without the last
/// one, which is the entry itself.
pub open spec fn folders(path: Seq<char>) -> Seq<Seq<char>> {
    let all = names(path);
    if all.len() == 0 {
        all
    } else {
        all.drop_last()
    }
}

/// The path of the entry `name` inside the directory `base`. No separator
/// is added where `base` is empty or ends in one.
pub open spec fn child(base: Seq<char>, name: Seq<char>) -> Seq<char> {
    if base.len() == 0 {
        name
    } else if base.last() == '/' {
        base + name
    } else {
        base.push('/') + name
    }
}

/// The directory reached from `base` by going down through `steps`.
pub open spec fn descend(base: Seq<char>, steps: Seq<Seq<char>>) -> Seq<char>
    decreases steps.len(),
{
    if steps.len() == 0 {
        base
    } else {
        child(descend(base, steps.drop_last()), steps.last())
    }
}

/// The directory into which `source` is copied: the output directory for a
/// bare name, and below it the directories that `source` leads through.
pub open spec fn destination_of(out: Seq<char>, source: Seq<char>) -> Seq<char> {
    descend(out, folders(source))
}

/// The name that an entry keeps in its copy: the last name along its path.
/// A path without a name has none.
pub open spec fn base_name(path: Seq<char>) -> Seq<char> {
    let all = names(path);
    if all.len() == 0 {
        Seq::empty()
    } else {
        all.last()
    }
}

/// The path of the copy of `source`: the one reached from the output
/// directory by going down the names along `source`. It lies in the
/// directory `destination_of(out, source)` and bears the base name of
/// `source`.
pub open spec fn landing_of(out: Seq<char>, source: Seq<char>) -> Seq<char> {
    descend(out, names(source))
}

/// `path` without the separators at its end.
pub open spec fn trimmed(path: Seq<char>) -> Seq<char>
    decreases path.len(),
{
    if path.len() > 0 && path.last() == '/' {
        trimmed(path.drop_last())
    } else {
        path
    }
}

/// How many characters of `path` come before its last piece: the length of
/// `path` up to and with its last separator, 0 where it has none.
pub open spec fn stem_len(path: Seq<char>) -> nat
    decreases path.len(),
{
    if path.len() == 0 || path.last() == '/' {
        path.len()
    } else {
        stem_len(path.drop_last())
    }
}

/// The ending of an archive's name.
pub open spec fn archive_suffix() -> Seq<char> {
    seq!['.', 't', 'a', 'r', '.', 'x', 'z']
}

/// The archive of the output directory `out` stands beside it: its name is
/// that of the directory, without separators at the end, and `.tar.xz`.
pub open spec fn archive_name_of(out: Seq<char>) -> Seq<char> {
    trimmed(out) + archive_suffix()
}

/// The directory that holds the output directory `out`; `.` where `out` is
/// a bare name.
pub open spec fn archive_root_of(out: Seq<char>) -> Seq<char> {
    let dir = trimmed(out);
    if stem_len(dir) == 0 {
        seq!['.']
    } else {
        dir.take(stem_len(dir) as int)
    }
}

/// The output directory's own name, under which its content is archived.
pub open spec fn archive_member_of(out: Seq<char>) -> Seq<char> {
    let dir = trimmed(out);
    dir.skip(stem_len(dir) as int)
}

/// Going down never leaves the directory one started from: every
/// destination begins with the path of the output directory.
pub proof fn descend_stays_below(base: Seq<char>, steps: Seq<Seq<char>>)
    requires
        forall|i: int| 0 <= i < steps.len() ==> is_name(#[trigger] steps[i]),
    ensures
        base.is_prefix_of(descend(base, steps)),
        steps.len() > 0 ==> descend(base, steps).len() > base.len(),
    decreases steps.len(),
{
    if steps.len() > 0 {
        descend_stays_below(base, steps.drop_last());
        let above = descend(base, steps.drop_last());
        let below = child(above, steps.last());
        assert(above.is_prefix_of(below)) by {
            assert(below.subrange(0, above.len() as int) == above);
        }
        assert(base.is_prefix_of(below)) by {
            assert(below.subrange(0, base.len() as int) == above.subrange(0, base.len() as int));
        }
    }
}

/// The names along a path are names, whatever the path.
pub proof fn names_are_names(path: Seq<char>)
    ensures
        forall|i: int| 0 <= i < names(path).len() ==> is_name(#[trigger] names(path)[i]),
        forall|i: int| 0 <= i < folders(path).len() ==> is_name(#[trigger] folders(path)[i]),
{
    let pieces = split(path, '/');
    assert forall|i: int| 0 <= i < names(path).len() implies is_name(
        #[trigger] names(path)[i],
    ) by {
        pieces.lemma_filter_pred(keeps_names(), i);
    }
}

/// A source is copied to a place in or below the output directory, and to
/// the output directory itself exactly when it is a bare name.
pub proof fn destination_is_below_output(out: Seq<char>, source: Seq<char>)
    ensures
        out.is_prefix_of(destination_of(out, source)),
        folders(source).len() == 0 <==> destination_of(out, source) == out,
{
    names_are_names(source);
    descend_stays_below(out, folders(source));
}

/// The copy of a source lies in or below the output directory, in the
/// directory that is made for it, and under the source's own base name: the
/// last piece of the copy's path is that name, character for character.
pub proof fn landing_keeps_the_name(out: Seq<char>, source: Seq<char>)
    ensures
        out.is_prefix_of(landing_of(out, source)),
        names(source).len() > 0 ==> {
            &&& landing_of(out, source) == child(destination_of(out, source), base_name(source))
            &&& base_name(source).is_suffix_of(landing_of(out, source))
            &&& is_name(base_name(source))
        },
        names(source).len() == 0 ==> landing_of(out, source) == out,
{
    names_are_names(source);
    descend_stays_below(out, names(source));
    if names(source).len() > 0 {
        let dir = destination_of(out, source);
        let name = base_name(source);
        let copy = child(dir, name);
        assert(copy.subrange(copy.len() - name.len(), copy.len() as int) == name);
    }
}

/// The archive's root and member are the two halves of the output
/// directory's path, and the member holds no separator.
pub proof fn archive_parts_fit(out: Seq<char>)
    ensures
        !archive_member_of(out).contains('/'),
        stem_len(trimmed(out)) > 0 ==> archive_root_of(out) + archive_member_of(out) == trimmed(out),
        stem_len(trimmed(out)) == 0 ==> archive_member_of(out) == trimmed(out),
{
    let dir = trimmed(out);
    stem_bounds(dir);
    assert(dir.take(stem_len(dir) as int) + dir.skip(stem_len(dir) as int) == dir);
}

/// The archive stands beside the output directory and not in it: its name
/// is the directory's, which does not end in a separator, with `.tar.xz`
/// behind it. So the directory can be removed and the archive stays.
pub proof fn archive_stands_beside(out: Seq<char>)
    ensures
        archive_name_of(out) == trimmed(out) + ".tar.xz"@,
        trimmed(out).len() > 0 ==> trimmed(out).last() != '/',
        trimmed(out).is_prefix_of(out),
        archive_name_of(out)[trimmed(out).len() as int] == '.',
    decreases out.len(),
{
    reveal_strlit(".tar.xz");
    assert(".tar.xz"@ == archive_suffix());
    if out.len() > 0 && out.last() == '/' {
        archive_stands_beside(out.drop_last());
        assert(trimmed(out).is_prefix_of(out)) by {
            let dir = trimmed(out);
            assert(out.subrange(0, dir.len() as int) == out.drop_last().subrange(
                0,
                dir.len() as int,
            ));
        }
    } else {
        assert(out.subrange(0, out.len() as int) == out);
    }
}

proof fn stem_bounds(path: Seq<char>)
    ensures
        stem_len(path) <= path.len(),
        !path.skip(stem_len(path) as int).contains('/'),
    decreases path.len(),
{
    if path.len() == 0 || path.last() == '/' {
        assert(path.skip(path.len() as int).len() == 0);
    } else {
        let front = path.drop_last();
        stem_bounds(front);
        let k = stem_len(front) as int;
        let tail = path.skip(k);
        assert(tail.drop_last() == front.skip(k));
        if tail.contains('/') {
            let j = choose|j: int| 0 <= j < tail.len() && tail[j] == '/';
            assert(j < tail.len() - 1);
            assert(front.skip(k)[j] == '/');
        }
    }
}

fn piece_is_name(piece: &Vec<char>) -> (b: bool)
    ensures
        b == is_name(piece@),
{
    let n: usize = piece.len();
    if n == 0 {
        false
    } else if n == 1 {
        proof {
            if piece@[0] == '.' {
                assert(piece@ == seq!['.']);
            } else {
                assert(seq!['.'][0] == '.');
            }
        }
        piece[0] != '.'
    } else if n == 2 {
        proof {
            if piece@[0] == '.' && piece@[1] == '.' {
                assert(piece@ == seq!['.', '.']);
            } else {
                assert(seq!['.', '.'][0] == '.' && seq!['.', '.'][1] == '.');
            }
        }
        !(piece[0] == '.' && piece[1] == '.')
    } else {
        true
    }
}

fn copy_of(chars: &Vec<char>) -> (copy: Vec<char>)
    ensures
        copy@ == chars@,
{
    let mut copy: Vec<char> = Vec::new();
    let mut i: usize = 0;
    while i < chars.len()
        invariant
            i <= chars.len(),
            copy@ == chars@.take(i as int),
        decreases chars.len() - i,
    {
        copy.push(chars[i]);
        assert(chars@.take(i + 1) == chars@.take(i as int).push(chars@[i as int]));
        i += 1;
    }
    assert(chars@.take(chars.len() as int) == chars@);
    copy
}

fn name_pieces(path: &Vec<char>) -> (kept: Vec<Vec<char>>)
    ensures
        kept.deep_view() == names(path@),
{
    let pieces = split_chars(path, '/');
    let mut kept: Vec<Vec<char>> = Vec::new();
    let mut i: usize = 0;
    proof {
        assert(pieces.deep_view().take(0) == Seq::<Seq<char>>::empty());
        reveal(Seq::filter);
    }
    while i < pieces.len()
        invariant
            i <= pieces.len(),
            kept.deep_view() == pieces.deep_view().take(i as int).filter(keeps_names()),
        decreases pieces.len() - i,
    {
        let ghost seen = pieces.deep_view().take(i as int);
        let ghost next = pieces.deep_view().take(i + 1);
        assert(next.drop_last() == seen);
        assert(pieces[i as int].deep_view() == pieces[i as int]@);
        assert(next.last() == pieces[i as int]@);
        proof {
            assert(next == seen.push(next.last()));
            seen.lemma_filter_push(next.last(), keeps_names());
        }
        if piece_is_name(&pieces[i]) {
            let ghost before = kept.deep_view();
            let piece = copy_of(&pieces[i]);
            assert(piece.deep_view() == piece@);
            kept.push(piece);
            assert(kept.deep_view() == before.push(pieces[i as int]@));
        }
        i += 1;
    }
    assert(pieces.deep_view().take(pieces.len() as int) == pieces.deep_view());
    kept
}

fn step_into(dir: &mut Vec<char>, name: &Vec<char>)
    ensures
        final(dir)@ == child(old(dir)@, name@),
{
    let n: usize = dir.len();
    if n > 0 && dir[n - 1] != '/' {
        dir.push('/');
    }
    let ghost start = dir@;
    let mut i: usize = 0;
    while i < name.len()
        invariant
            i <= name.len(),
            dir@ == start + name@.take(i as int),
        decreases name.len() - i,
    {
        dir.push(name[i]);
        assert(name@.take(i + 1) == name@.take(i as int).push(name@[i as int]));
        i += 1;
    }
    assert(name@.take(name.len() as int) == name@);
}

fn go_down(out: &str, steps: &Vec<Vec<char>>, count: usize) -> (path: String)
    requires
        count <= steps.len(),
    ensures
        path@ == descend(out@, steps.deep_view().take(count as int)),
{
    let mut dir = chars_of(out);
    let mut i: usize = 0;
    assert(steps.deep_view().take(count as int).take(0) == Seq::<Seq<char>>::empty());
    while i < count
        invariant
            i <= count <= steps.len(),
            dir@ == descend(out@, steps.deep_view().take(count as int).take(i as int)),
        decreases count - i,
    {
        proof {
            let all = steps.deep_view().take(count as int);
            assert(all.take(i + 1).drop_last() == all.take(i as int));
            assert(steps[i as int].deep_view() == steps[i as int]@);
            assert(all.take(i + 1).last() == steps[i as int]@);
        }
        step_into(&mut dir, &steps[i]);
        i += 1;
    }
    proof {
        let all = steps.deep_view().take(count as int);
        assert(all.take(count as int) == all);
    }
    text_of(&dir)
}

/// The directory into which `source` is to be copied when the output
/// directory is `out`.
pub fn destination(out: &str, source: &str) -> (dir: String)
    ensures
        dir@ == destination_of(out@, source@),
{
    let steps = name_pieces(&chars_of(source));
    if steps.len() == 0 {
        go_down(out, &steps, 0)
    } else {
        assert(steps.deep_view().take(steps.len() - 1) == steps.deep_view().drop_last());
        go_down(out, &steps, steps.len() - 1)
    }
}

/// The path at which the copy of `source` is to lie when the output
/// directory is `out`.
pub fn landing(out: &str, source: &str) -> (path: String)
    ensures
        path@ == landing_of(out@, source@),
{
    let steps = name_pieces(&chars_of(source));
    assert(steps.deep_view().take(steps.len() as int) == steps.deep_view());
    go_down(out, &steps, steps.len())
}

/// Whether `source` leads through directories of its own, so that its copy
/// goes below the output directory and not straight into it.
pub fn is_nested(source: &str) -> (b: bool)
    ensures
        b == (folders(source@).len() > 0),
{
    let steps = name_pieces(&chars_of(source));
    steps.len() > 1
}

fn trim(path: &Vec<char>) -> (len: usize)
    ensures
        len <= path.len(),
        path@.take(len as int) == trimmed(path@),
{
    let mut len: usize = path.len();
    assert(path@.take(len as int) == path@);
    while len > 0 && path[len - 1] == '/'
        invariant
            len <= path.len(),
            trimmed(path@.take(len as int)) == trimmed(path@),
        decreases len,
    {
        assert(path@.take(len as int).drop_last() == path@.take(len - 1));
        len -= 1;
    }
    len
}

fn stem(path: &Vec<char>, len: usize) -> (at: usize)
    requires
        len <= path.len(),
    ensures
        at == stem_len(path@.take(len as int)),
        at <= len,
{
    let mut at = len;
    while at > 0 && path[at - 1] != '/'
        invariant
            at <= len <= path.len(),
            stem_len(path@.take(at as int)) == stem_len(path@.take(len as int)),
        decreases at,
    {
        assert(path@.take(at as int).drop_last() == path@.take(at - 1));
        at -= 1;
    }
    at
}

/// The name of the archive made of the output directory `out`.
pub fn archive_name(out: &str) -> (name: String)
    ensures
        name@ == archive_name_of(out@),
{
    let chars = chars_of(out);
    let len: usize = trim(&chars);
    let mut name = start_of(&chars, len);
    name.push('.');
    name.push('t');
    name.push('a');
    name.push('r');
    name.push('.');
    name.push('x');
    name.push('z');
    assert(name@ == trimmed(out@) + archive_suffix());
    name
}

/// The directory in which the archive of `out` is made, so that the
/// members of the archive begin with the output directory's own name.
pub fn archive_root(out: &str) -> (root: String)
    ensures
        root@ == archive_root_of(out@),
{
    let chars = chars_of(out);
    let len: usize = trim(&chars);
    let at: usize = stem(&chars, len);
    if at == 0 {
        let mut root = String::new();
        root.push('.');
        assert(root@ == seq!['.']);
        root
    } else {
        assert(chars@.take(len as int).take(at as int) == chars@.take(at as int));
        start_of(&chars, at)
    }
}

/// The name under which the output directory `out` goes into its archive.
pub fn archive_member(out: &str) -> (member: String)
    ensures
        member@ == archive_member_of(out@),
{
    let chars = chars_of(out);
    let len: usize = trim(&chars);
    let at: usize = stem(&chars, len);
    let mut member = String::new();
    let mut i: usize = at;
    while i < len
        invariant
            at <= i <= len <= chars.len(),
            member@ == chars@.subrange(at as int, i as int),
        decreases len - i,
    {
        member.push(chars[i]);
        assert(chars@.subrange(at as int, i + 1) == chars@.subrange(at as int, i as int).push(
            chars@[i as int],
        ));
        i += 1;
    }
    assert(chars@.take(len as int).skip(at as int) == chars@.subrange(at as int, len as int));
    member
}

} // verus!
