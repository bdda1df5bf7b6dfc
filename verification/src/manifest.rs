//! The manifest: a text that lists, one per line, the paths to back up.

use crate::text::{chars_of, split, split_chars, start_of};
use vstd::prelude::*;

verus! {

/// What came of reading the manifest.
#[derive(Debug, Clone, PartialEq, Eq)]
pub enum Manifest {
    /// There is no such file.
    Missing,
    /// The file is there and could not be read; with the cause.
    Unreadable(String),
    /// The text of the file.
    Text(String),
}

/// A `Manifest` as contracts see it.
pub enum ManifestView {
    Missing,
    Unreadable(Seq<char>),
    Text(Seq<char>),
}

impl View for Manifest {
    type V = ManifestView;

    open spec fn view(&self) -> ManifestView {
        match self {
            Manifest::Missing => ManifestView::Missing,
            Manifest::Unreadable(cause) => ManifestView::Unreadable(cause@),
            Manifest::Text(text) => ManifestView::Text(text@),
        }
    }
}

/// A line as it was written, without the carriage return that a line ending
/// of two characters leaves at its end.
pub open spec fn without_return(line: Seq<char>) -> Seq<char> {
    if line.len() > 0 && line.last() == '\r' {
        line.drop_last()
    } else {
        line
    }
}

/// The lines of a text. A line feed ends a line; what follows the last line
/// feed is a line too, taken as it stands.
pub open spec fn lines_of(text: Seq<char>) -> Seq<Seq<char>> {
    let pieces = split(text, '\n');
    Seq::new(
        pieces.len(),
        |i: int|
            if i + 1 < pieces.len() {
                without_return(pieces[i])
            } else {
                pieces[i]
            },
    )
}

/// The test that keeps the lines on which something is written.
pub open spec fn is_written() -> spec_fn(Seq<char>) -> bool {
    |line: Seq<char>| line.len() > 0
}

/// The paths that a manifest names: its lines, in order, without the empty
/// ones.
pub open spec fn entries_of(text: Seq<char>) -> Seq<Seq<char>> {
    lines_of(text).filter(is_written())
}

/// No entry of a manifest is empty or holds a line feed, and every entry is
/// one of its lines.
pub proof fn entries_are_lines(text: Seq<char>)
    ensures
        forall|i: int|
            0 <= i < entries_of(text).len() ==> {
                &&& (#[trigger] entries_of(text)[i]).len() > 0
                &&& !entries_of(text)[i].contains('\n')
                &&& lines_of(text).contains(entries_of(text)[i])
            },
{
    let lines = lines_of(text);
    let pieces = split(text, '\n');
    crate::text::split_is_exact(text, '\n');
    assert forall|i: int| 0 <= i < entries_of(text).len() implies {
        &&& (#[trigger] entries_of(text)[i]).len() > 0
        &&& !entries_of(text)[i].contains('\n')
        &&& lines_of(text).contains(entries_of(text)[i])
    } by {
        let entry = entries_of(text)[i];
        lines.lemma_filter_pred(is_written(), i);
        assert(entries_of(text).contains(entry));
        lines.lemma_filter_contains_rev(is_written(), entry);
        let k = choose|k: int| 0 <= k < lines.len() && lines[k] == entry;
        assert(!pieces[k].contains('\n'));
        if entry.contains('\n') {
            let j = choose|j: int| 0 <= j < entry.len() && entry[j] == '\n';
            assert(pieces[k][j] == '\n');
        }
    }
}

/// Reads a manifest: the paths it names, in the order of its lines.
pub fn entries(text: &str) -> (paths: Vec<String>)
    ensures
        paths.deep_view() == entries_of(text@),
{
    let pieces = split_chars(&chars_of(text), '\n');
    let mut paths: Vec<String> = Vec::new();
    let mut i: usize = 0;
    proof {
        assert(lines_of(text@).take(0) == Seq::<Seq<char>>::empty());
        reveal(Seq::filter);
    }
    while i < pieces.len()
        invariant
            i <= pieces.len(),
            pieces.deep_view() == split(text@, '\n'),
            paths.deep_view() == lines_of(text@).take(i as int).filter(is_written()),
        decreases pieces.len() - i,
    {
        let piece = &pieces[i];
        let mut len: usize = piece.len();
        if i + 1 < pieces.len() && len > 0 && piece[len - 1] == '\r' {
            len -= 1;
        }
        proof {
            let seen = lines_of(text@).take(i as int);
            let next = lines_of(text@).take(i + 1);
            assert(pieces.deep_view()[i as int] == piece@);
            assert(piece@.take(len as int) == lines_of(text@)[i as int]) by {
                if len == piece.len() {
                    assert(piece@.take(len as int) == piece@);
                }
            }
            assert(next == seen.push(lines_of(text@)[i as int]));
            seen.lemma_filter_push(lines_of(text@)[i as int], is_written());
        }
        if len > 0 {
            let ghost before = paths.deep_view();
            let line = start_of(piece, len);
            paths.push(line);
            assert(paths.deep_view() == before.push(piece@.take(len as int)));
        }
        i += 1;
    }
    assert(lines_of(text@).take(pieces.len() as int) == lines_of(text@));
    paths
}

} // verus!
