//! Splitting a sentence into clauses at commas and at runs of whitespace.

use crate::space::{is_space, is_whitespace};
use vstd::prelude::*;

verus! {

/// The comma of ASCII.
pub const ASCII_COMMA: char = ',';

/// The full-width comma of CJK text.
pub const FULLWIDTH_COMMA: char = '\u{ff0c}';

/// The pieces of `s` between the occurrences of `d`, in order. There is one piece more than
/// there are occurrences: two occurrences side by side, or one at either end, leave an empty
/// piece.
pub open spec fn split_at_char(s: Seq<char>, d: char) -> Seq<Seq<char>>
    decreases s.len(),
{
    if s.len() == 0 {
        seq![Seq::empty()]
    } else {
        let before = split_at_char(s.drop_last(), d);
        if s.last() == d {
            before.push(Seq::empty())
        } else {
            before.drop_last().push(before.last().push(s.last()))
        }
    }
}

/// The pieces of `s` between its maximal runs of whitespace, in order. A run counts as one
/// delimiter; a run at either end leaves an empty piece there.
pub open spec fn split_at_spaces(s: Seq<char>) -> Seq<Seq<char>>
    decreases s.len(),
{
    if s.len() == 0 {
        seq![Seq::empty()]
    } else {
        let before = split_at_spaces(s.drop_last());
        if !is_space(s.last()) {
            before.drop_last().push(before.last().push(s.last()))
        } else if s.len() >= 2 && is_space(s[s.len() - 2]) {
            before
        } else {
            before.push(Seq::empty())
        }
    }
}

/// Every piece of `parts` split at `d`, the results laid end to end.
pub open spec fn each_at_char(parts: Seq<Seq<char>>, d: char) -> Seq<Seq<char>>
    decreases parts.len(),
{
    if parts.len() == 0 {
        Seq::empty()
    } else {
        each_at_char(parts.drop_last(), d) + split_at_char(parts.last(), d)
    }
}

/// Every piece of `parts` split at its runs of whitespace, the results laid end to end.
pub open spec fn each_at_spaces(parts: Seq<Seq<char>>) -> Seq<Seq<char>>
    decreases parts.len(),
{
    if parts.len() == 0 {
        Seq::empty()
    } else {
        each_at_spaces(parts.drop_last()) + split_at_spaces(parts.last())
    }
}

/// The clauses of a sentence: the sentence is split at the ASCII comma, every piece of that
/// at the full-width comma, and every piece of that at its runs of whitespace.
pub open spec fn clauses(sentence: Seq<char>) -> Seq<Seq<char>> {
    each_at_spaces(each_at_char(split_at_char(sentence, ASCII_COMMA), FULLWIDTH_COMMA))
}

/// Splits `s` at every occurrence of `d`.
pub fn split_char<'a>(s: &'a str, d: char) -> (pieces: Vec<&'a str>)
    ensures
        pieces.deep_view() == split_at_char(s@, d),
{
    let n: usize = s.unicode_len();
    let mut pieces: Vec<&'a str> = Vec::new();
    let mut start: usize = 0;
    let mut i: usize = 0;
    assert(s@.subrange(0, 0) =~= Seq::<char>::empty());
    assert(pieces.deep_view().push(s@.subrange(0, 0)) =~= split_at_char(s@.take(0), d));
    while i < n
        invariant
            n == s@.len(),
            start <= i <= n,
            pieces.deep_view().push(s@.subrange(start as int, i as int)) == split_at_char(
                s@.take(i as int),
                d,
            ),
        decreases n - i,
    {
        let ghost done = pieces.deep_view();
        let ghost before = split_at_char(s@.take(i as int), d);
        assert(s@.take(i + 1).drop_last() == s@.take(i as int));
        assert(s@.take(i + 1).last() == s@[i as int]);
        if s.get_char(i) == d {
            let piece = s.substring_char(start, i);
            pieces.push(piece);
            start = i + 1;
            assert(pieces.deep_view() =~= done.push(piece@));
            assert(s@.subrange(start as int, i + 1) =~= Seq::<char>::empty());
        } else {
            assert(before.drop_last() =~= done);
            assert(s@.subrange(start as int, i + 1) =~= before.last().push(s@[i as int]));
        }
        i += 1;
    }
    let ghost done = pieces.deep_view();
    let piece = s.substring_char(start, n);
    pieces.push(piece);
    assert(pieces.deep_view() =~= done.push(piece@));
    assert(s@.take(n as int) == s@);
    pieces
}

/// Splits `s` at every maximal run of whitespace.
pub fn split_spaces<'a>(s: &'a str) -> (pieces: Vec<&'a str>)
    ensures
        pieces.deep_view() == split_at_spaces(s@),
{
    let n: usize = s.unicode_len();
    let mut pieces: Vec<&'a str> = Vec::new();
    let mut start: usize = 0;
    let mut i: usize = 0;
    let mut in_run: bool = false;
    assert(s@.subrange(0, 0) =~= Seq::<char>::empty());
    assert(pieces.deep_view().push(s@.subrange(0, 0)) =~= split_at_spaces(s@.take(0)));
    while i < n
        invariant
            n == s@.len(),
            start <= i <= n,
            in_run <==> (i > 0 && is_space(s@[i - 1])),
            in_run ==> start == i,
            pieces.deep_view().push(s@.subrange(start as int, i as int)) == split_at_spaces(
                s@.take(i as int),
            ),
        decreases n - i,
    {
        let ghost done = pieces.deep_view();
        let ghost before = split_at_spaces(s@.take(i as int));
        assert(s@.take(i + 1).drop_last() == s@.take(i as int));
        assert(s@.take(i + 1).last() == s@[i as int]);
        if i > 0 {
            assert(s@.take(i + 1)[i - 1] == s@[i - 1]);
        }
        if !is_whitespace(s.get_char(i)) {
            assert(before.drop_last() =~= done);
            assert(s@.subrange(start as int, i + 1) =~= before.last().push(s@[i as int]));
            in_run = false;
        } else if in_run {
            assert(start == i);
            start = i + 1;
            assert(s@.subrange(start as int, i + 1) =~= s@.subrange(i as int, i as int));
        } else {
            let piece = s.substring_char(start, i);
            pieces.push(piece);
            start = i + 1;
            in_run = true;
            assert(pieces.deep_view() =~= done.push(piece@));
            assert(s@.subrange(start as int, i + 1) =~= Seq::<char>::empty());
        }
        i += 1;
    }
    let ghost done = pieces.deep_view();
    let piece = s.substring_char(start, n);
    pieces.push(piece);
    assert(pieces.deep_view() =~= done.push(piece@));
    assert(s@.take(n as int) == s@);
    pieces
}

/// Splits every piece of `parts` at `d` and lays the results end to end.
pub fn split_each_char<'a>(parts: &Vec<&'a str>, d: char) -> (pieces: Vec<&'a str>)
    ensures
        pieces.deep_view() == each_at_char(parts.deep_view(), d),
{
    let mut pieces: Vec<&'a str> = Vec::new();
    let mut i: usize = 0;
    assert(pieces.deep_view() =~= each_at_char(parts.deep_view().take(0), d));
    while i < parts.len()
        invariant
            i <= parts.len(),
            pieces.deep_view() == each_at_char(parts.deep_view().take(i as int), d),
        decreases parts.len() - i,
    {
        let ghost done = pieces.deep_view();
        let mut found = split_char(parts[i], d);
        let ghost added = found.deep_view();
        pieces.append(&mut found);
        proof {
            assert(pieces.deep_view() =~= done + added);
            assert(parts.deep_view().take(i + 1).drop_last() == parts.deep_view().take(i as int));
            assert(parts.deep_view().take(i + 1).last() == parts[i as int]@);
        }
        i += 1;
    }
    assert(parts.deep_view().take(parts.len() as int) == parts.deep_view());
    pieces
}

/// Splits every piece of `parts` at its runs of whitespace and lays the results end to end.
pub fn split_each_spaces<'a>(parts: &Vec<&'a str>) -> (pieces: Vec<&'a str>)
    ensures
        pieces.deep_view() == each_at_spaces(parts.deep_view()),
{
    let mut pieces: Vec<&'a str> = Vec::new();
    let mut i: usize = 0;
    assert(pieces.deep_view() =~= each_at_spaces(parts.deep_view().take(0)));
    while i < parts.len()
        invariant
            i <= parts.len(),
            pieces.deep_view() == each_at_spaces(parts.deep_view().take(i as int)),
        decreases parts.len() - i,
    {
        let ghost done = pieces.deep_view();
        let mut found = split_spaces(parts[i]);
        let ghost added = found.deep_view();
        pieces.append(&mut found);
        proof {
            assert(pieces.deep_view() =~= done + added);
            assert(parts.deep_view().take(i + 1).drop_last() == parts.deep_view().take(i as int));
            assert(parts.deep_view().take(i + 1).last() == parts[i as int]@);
        }
        i += 1;
    }
    assert(parts.deep_view().take(parts.len() as int) == parts.deep_view());
    pieces
}

/// Splits a sentence into its clauses: at the ASCII comma first, then at the full-width
/// comma, then at runs of whitespace. Empty clauses are kept.
pub fn split_on_comma_etc<'a>(sentence: &'a str) -> (found: Vec<&'a str>)
    ensures
        found.deep_view() == clauses(sentence@),
{
    let at_comma = split_char(sentence, ASCII_COMMA);
    let at_wide_comma = split_each_char(&at_comma, FULLWIDTH_COMMA);
    split_each_spaces(&at_wide_comma)
}

} // verus!
