//! The delimiters that a split takes out, and the proof that the clauses of a sentence with
//! those delimiters put back between them are the sentence.

use crate::space::{is_blank, is_space};
use crate::split::{
    clauses, each_at_char, each_at_spaces, split_at_char, split_at_spaces, ASCII_COMMA,
    FULLWIDTH_COMMA,
};
use vstd::prelude::*;

verus! {

/// The occurrences of `d` in `s`, each as a string of its own, in order.
pub open spec fn gaps_at_char(s: Seq<char>, d: char) -> Seq<Seq<char>>
    decreases s.len(),
{
    if s.len() == 0 {
        Seq::empty()
    } else {
        let before = gaps_at_char(s.drop_last(), d);
        if s.last() == d {
            before.push(seq![d])
        } else {
            before
        }
    }
}

/// The maximal runs of whitespace in `s`, in order.
pub open spec fn gaps_at_spaces(s: Seq<char>) -> Seq<Seq<char>>
    decreases s.len(),
{
    if s.len() == 0 {
        Seq::empty()
    } else {
        let before = gaps_at_spaces(s.drop_last());
        if !is_space(s.last()) {
            before
        } else if s.len() >= 2 && is_space(s[s.len() - 2]) {
            before.drop_last().push(before.last().push(s.last()))
        } else {
            before.push(seq![s.last()])
        }
    }
}

/// The delimiters between the pieces of `each_at_char(parts, d)`, where `outer` holds the
/// delimiters between the pieces of `parts`.
pub open spec fn each_gaps_at_char(parts: Seq<Seq<char>>, outer: Seq<Seq<char>>, d: char) -> Seq<
    Seq<char>,
>
    decreases parts.len(),
{
    if parts.len() == 0 {
        Seq::empty()
    } else if parts.len() == 1 {
        gaps_at_char(parts[0], d)
    } else {
        each_gaps_at_char(parts.drop_last(), outer.drop_last(), d).push(outer.last())
            + gaps_at_char(parts.last(), d)
    }
}

/// The delimiters between the pieces of `each_at_spaces(parts)`, where `outer` holds the
/// delimiters between the pieces of `parts`.
pub open spec fn each_gaps_at_spaces(parts: Seq<Seq<char>>, outer: Seq<Seq<char>>) -> Seq<
    Seq<char>,
>
    decreases parts.len(),
{
    if parts.len() == 0 {
        Seq::empty()
    } else if parts.len() == 1 {
        gaps_at_spaces(parts[0])
    } else {
        each_gaps_at_spaces(parts.drop_last(), outer.drop_last()).push(outer.last())
            + gaps_at_spaces(parts.last())
    }
}

/// The delimiters that the split of a sentence into clauses takes out, in order: the one
/// at index `i` stood between the clauses at `i` and `i + 1`.
pub open spec fn delimiters(sentence: Seq<char>) -> Seq<Seq<char>> {
    let at_comma = split_at_char(sentence, ASCII_COMMA);
    let comma_gaps = gaps_at_char(sentence, ASCII_COMMA);
    each_gaps_at_spaces(
        each_at_char(at_comma, FULLWIDTH_COMMA),
        each_gaps_at_char(at_comma, comma_gaps, FULLWIDTH_COMMA),
    )
}

/// The pieces laid end to end with the gaps between them: piece, gap, piece, and so on.
pub open spec fn weave(pieces: Seq<Seq<char>>, gaps: Seq<Seq<char>>) -> Seq<char>
    recommends
        pieces.len() == gaps.len() + 1,
    decreases pieces.len(),
{
    if pieces.len() == 0 {
        Seq::empty()
    } else if pieces.len() == 1 {
        pieces[0]
    } else {
        weave(pieces.drop_last(), gaps.drop_last()) + gaps.last() + pieces.last()
    }
}

/// Weaving is the same when the last piece grows by a character as when the whole does.
proof fn lemma_weave_grow_last(pieces: Seq<Seq<char>>, gaps: Seq<Seq<char>>, c: char)
    requires
        pieces.len() == gaps.len() + 1,
    ensures
        weave(pieces.drop_last().push(pieces.last().push(c)), gaps) == weave(pieces, gaps).push(c),
{
    let grown = pieces.drop_last().push(pieces.last().push(c));
    if pieces.len() == 1 {
        assert(grown[0] == pieces[0].push(c));
    } else {
        assert(grown.drop_last() == pieces.drop_last());
        assert(weave(grown, gaps) =~= weave(pieces, gaps).push(c));
    }
}

/// Weaving with one more gap and an empty piece after it appends the gap.
proof fn lemma_weave_new_gap(pieces: Seq<Seq<char>>, gaps: Seq<Seq<char>>, gap: Seq<char>)
    requires
        pieces.len() == gaps.len() + 1,
    ensures
        weave(pieces.push(Seq::empty()), gaps.push(gap)) == weave(pieces, gaps) + gap,
{
    assert(pieces.push(Seq::empty()).drop_last() == pieces);
    assert(gaps.push(gap).drop_last() == gaps);
    assert(weave(pieces, gaps) + gap + Seq::<char>::empty() =~= weave(pieces, gaps) + gap);
}

/// A split at `d` yields one piece more than it takes out delimiters, and the pieces with
/// the delimiters between them are the string.
pub proof fn lemma_split_at_char_rebuilds(s: Seq<char>, d: char)
    ensures
        split_at_char(s, d).len() == gaps_at_char(s, d).len() + 1,
        weave(split_at_char(s, d), gaps_at_char(s, d)) == s,
    decreases s.len(),
{
    if s.len() > 0 {
        let pieces = split_at_char(s.drop_last(), d);
        let gaps = gaps_at_char(s.drop_last(), d);
        lemma_split_at_char_rebuilds(s.drop_last(), d);
        if s.last() == d {
            lemma_weave_new_gap(pieces, gaps, seq![d]);
            assert(s.drop_last() + seq![d] =~= s);
        } else {
            lemma_weave_grow_last(pieces, gaps, s.last());
            assert(s.drop_last().push(s.last()) =~= s);
        }
    }
}

/// A split at whitespace yields one piece more than it takes out runs, and the pieces with
/// the runs between them are the string. After whitespace the last piece is empty.
pub proof fn lemma_split_at_spaces_rebuilds(s: Seq<char>)
    ensures
        split_at_spaces(s).len() == gaps_at_spaces(s).len() + 1,
        weave(split_at_spaces(s), gaps_at_spaces(s)) == s,
        s.len() > 0 && is_space(s.last()) ==> split_at_spaces(s).len() >= 2 && split_at_spaces(
            s,
        ).last().len() == 0,
    decreases s.len(),
{
    if s.len() > 0 {
        let pieces = split_at_spaces(s.drop_last());
        let gaps = gaps_at_spaces(s.drop_last());
        lemma_split_at_spaces_rebuilds(s.drop_last());
        assert(s.drop_last().push(s.last()) =~= s);
        if !is_space(s.last()) {
            lemma_weave_grow_last(pieces, gaps, s.last());
        } else if s.len() >= 2 && is_space(s[s.len() - 2]) {
            assert(s.drop_last().last() == s[s.len() - 2]);
            let grown = gaps.drop_last().push(gaps.last().push(s.last()));
            assert(grown.drop_last() == gaps.drop_last());
            assert(pieces.last() =~= Seq::<char>::empty());
            assert(weave(pieces, grown) =~= weave(pieces, gaps).push(s.last()));
        } else {
            lemma_weave_new_gap(pieces, gaps, seq![s.last()]);
            assert(s.drop_last() + seq![s.last()] =~= s);
        }
    }
}

/// Weaving two woven halves with a gap between them.
proof fn lemma_weave_join(
    left: Seq<Seq<char>>,
    left_gaps: Seq<Seq<char>>,
    gap: Seq<char>,
    right: Seq<Seq<char>>,
    right_gaps: Seq<Seq<char>>,
)
    requires
        left.len() == left_gaps.len() + 1,
        right.len() == right_gaps.len() + 1,
    ensures
        weave(left + right, left_gaps.push(gap) + right_gaps) == weave(left, left_gaps) + gap
            + weave(right, right_gaps),
    decreases right.len(),
{
    let pieces = left + right;
    let gaps = left_gaps.push(gap) + right_gaps;
    if right.len() == 1 {
        assert(pieces.drop_last() =~= left);
        assert(gaps.drop_last() =~= left_gaps);
        assert(gaps.last() == gap);
    } else {
        lemma_weave_join(left, left_gaps, gap, right.drop_last(), right_gaps.drop_last());
        assert(pieces.drop_last() =~= left + right.drop_last());
        assert(gaps.drop_last() =~= left_gaps.push(gap) + right_gaps.drop_last());
        assert(gaps.last() == right_gaps.last());
        assert(pieces.last() == right.last());
        assert(weave(pieces, gaps) =~= weave(left, left_gaps) + gap + weave(right, right_gaps));
    }
}

/// Splitting every piece at `d` changes nothing in what the pieces weave to.
pub proof fn lemma_each_at_char_rebuilds(parts: Seq<Seq<char>>, outer: Seq<Seq<char>>, d: char)
    requires
        parts.len() == outer.len() + 1,
    ensures
        each_at_char(parts, d).len() == each_gaps_at_char(parts, outer, d).len() + 1,
        weave(each_at_char(parts, d), each_gaps_at_char(parts, outer, d)) == weave(parts, outer),
    decreases parts.len(),
{
    lemma_split_at_char_rebuilds(parts.last(), d);
    if parts.len() == 1 {
        assert(parts.drop_last().len() == 0);
        reveal_with_fuel(each_at_char, 2);
        assert(each_at_char(parts, d) =~= split_at_char(parts[0], d));
    } else {
        lemma_each_at_char_rebuilds(parts.drop_last(), outer.drop_last(), d);
        lemma_weave_join(
            each_at_char(parts.drop_last(), d),
            each_gaps_at_char(parts.drop_last(), outer.drop_last(), d),
            outer.last(),
            split_at_char(parts.last(), d),
            gaps_at_char(parts.last(), d),
        );
    }
}

/// Splitting every piece at its whitespace changes nothing in what the pieces weave to.
pub proof fn lemma_each_at_spaces_rebuilds(parts: Seq<Seq<char>>, outer: Seq<Seq<char>>)
    requires
        parts.len() == outer.len() + 1,
    ensures
        each_at_spaces(parts).len() == each_gaps_at_spaces(parts, outer).len() + 1,
        weave(each_at_spaces(parts), each_gaps_at_spaces(parts, outer)) == weave(parts, outer),
    decreases parts.len(),
{
    lemma_split_at_spaces_rebuilds(parts.last());
    if parts.len() == 1 {
        assert(parts.drop_last().len() == 0);
        reveal_with_fuel(each_at_spaces, 2);
        assert(each_at_spaces(parts) =~= split_at_spaces(parts[0]));
    } else {
        lemma_each_at_spaces_rebuilds(parts.drop_last(), outer.drop_last());
        lemma_weave_join(
            each_at_spaces(parts.drop_last()),
            each_gaps_at_spaces(parts.drop_last(), outer.drop_last()),
            outer.last(),
            split_at_spaces(parts.last()),
            gaps_at_spaces(parts.last()),
        );
    }
}

/// A sentence has one clause more than it has delimiters, and its clauses, in order, with
/// the delimiters put back between them, are the sentence.
pub proof fn lemma_clauses_rebuild_sentence(sentence: Seq<char>)
    ensures
        clauses(sentence).len() == delimiters(sentence).len() + 1,
        weave(clauses(sentence), delimiters(sentence)) == sentence,
{
    let at_comma = split_at_char(sentence, ASCII_COMMA);
    let comma_gaps = gaps_at_char(sentence, ASCII_COMMA);
    lemma_split_at_char_rebuilds(sentence, ASCII_COMMA);
    lemma_each_at_char_rebuilds(at_comma, comma_gaps, FULLWIDTH_COMMA);
    lemma_each_at_spaces_rebuilds(
        each_at_char(at_comma, FULLWIDTH_COMMA),
        each_gaps_at_char(at_comma, comma_gaps, FULLWIDTH_COMMA),
    );
}

/// What a split takes out in one place: one of the two commas, or a run of whitespace.
pub open spec fn is_delimiter(gap: Seq<char>) -> bool {
    gap == seq![ASCII_COMMA] || gap == seq![FULLWIDTH_COMMA] || (gap.len() > 0 && is_blank(gap))
}

/// Whether every one of `gaps` is a delimiter.
pub open spec fn all_delimiters(gaps: Seq<Seq<char>>) -> bool {
    forall|i: int| 0 <= i < gaps.len() ==> is_delimiter(#[trigger] gaps[i])
}

/// What a split at a comma takes out is that comma.
proof fn lemma_gaps_at_char_are_delimiters(s: Seq<char>, d: char)
    requires
        d == ASCII_COMMA || d == FULLWIDTH_COMMA,
    ensures
        all_delimiters(gaps_at_char(s, d)),
    decreases s.len(),
{
    if s.len() > 0 {
        lemma_gaps_at_char_are_delimiters(s.drop_last(), d);
    }
}

/// What a split at whitespace takes out are runs of whitespace, none of them empty.
proof fn lemma_gaps_at_spaces_are_delimiters(s: Seq<char>)
    ensures
        all_delimiters(gaps_at_spaces(s)),
    decreases s.len(),
{
    if s.len() > 0 {
        let before = gaps_at_spaces(s.drop_last());
        lemma_gaps_at_spaces_are_delimiters(s.drop_last());
        lemma_split_at_spaces_rebuilds(s.drop_last());
        if !is_space(s.last()) {
        } else if s.len() >= 2 && is_space(s[s.len() - 2]) {
            assert(s.drop_last().last() == s[s.len() - 2]);
            let run = before.last().push(s.last());
            assert(is_delimiter(before.last()));
            assert(is_blank(before.last()));
            assert forall|j: int| 0 <= j < run.len() implies is_space(#[trigger] run[j]) by {
                if j < before.last().len() {
                    assert(run[j] == before.last()[j]);
                }
            }
            assert(is_delimiter(run));
        } else {
            let run = seq![s.last()];
            assert(is_blank(run));
            assert(is_delimiter(run));
        }
    }
}

/// Splitting every piece at a comma takes out delimiters only, where the pieces had
/// delimiters between them.
proof fn lemma_each_gaps_at_char_are_delimiters(
    parts: Seq<Seq<char>>,
    outer: Seq<Seq<char>>,
    d: char,
)
    requires
        parts.len() == outer.len() + 1,
        all_delimiters(outer),
        d == ASCII_COMMA || d == FULLWIDTH_COMMA,
    ensures
        all_delimiters(each_gaps_at_char(parts, outer, d)),
    decreases parts.len(),
{
    lemma_gaps_at_char_are_delimiters(parts.last(), d);
    if parts.len() > 1 {
        lemma_each_gaps_at_char_are_delimiters(parts.drop_last(), outer.drop_last(), d);
        assert(is_delimiter(outer.last()));
    }
}

/// Splitting every piece at its whitespace takes out delimiters only, where the pieces had
/// delimiters between them.
proof fn lemma_each_gaps_at_spaces_are_delimiters(parts: Seq<Seq<char>>, outer: Seq<Seq<char>>)
    requires
        parts.len() == outer.len() + 1,
        all_delimiters(outer),
    ensures
        all_delimiters(each_gaps_at_spaces(parts, outer)),
    decreases parts.len(),
{
    lemma_gaps_at_spaces_are_delimiters(parts.last());
    if parts.len() > 1 {
        lemma_each_gaps_at_spaces_are_delimiters(parts.drop_last(), outer.drop_last());
        assert(is_delimiter(outer.last()));
    }
}

/// What the split of a sentence into clauses takes out: each time one comma or one run of
/// whitespace that is not empty.
pub proof fn lemma_delimiters_are_commas_or_spaces(sentence: Seq<char>)
    ensures
        all_delimiters(delimiters(sentence)),
{
    let at_comma = split_at_char(sentence, ASCII_COMMA);
    let comma_gaps = gaps_at_char(sentence, ASCII_COMMA);
    lemma_split_at_char_rebuilds(sentence, ASCII_COMMA);
    lemma_gaps_at_char_are_delimiters(sentence, ASCII_COMMA);
    lemma_each_at_char_rebuilds(at_comma, comma_gaps, FULLWIDTH_COMMA);
    lemma_each_gaps_at_char_are_delimiters(at_comma, comma_gaps, FULLWIDTH_COMMA);
    lemma_each_gaps_at_spaces_are_delimiters(
        each_at_char(at_comma, FULLWIDTH_COMMA),
        each_gaps_at_char(at_comma, comma_gaps, FULLWIDTH_COMMA),
    );
}

/// Whether `ok` holds of every character of every piece.
pub open spec fn every_char(pieces: Seq<Seq<char>>, ok: spec_fn(char) -> bool) -> bool {
    forall|k: int, j: int|
        0 <= k < pieces.len() && 0 <= j < pieces[k].len() ==> ok(#[trigger] pieces[k][j])
}

/// Whether a character is one at which a sentence is split.
pub open spec fn is_delimiter_char(c: char) -> bool {
    c == ASCII_COMMA || c == FULLWIDTH_COMMA || is_space(c)
}

/// The pieces of a split at `d` hold characters of the string only, and never `d`.
proof fn lemma_split_at_char_chars(s: Seq<char>, d: char, ok: spec_fn(char) -> bool)
    requires
        forall|i: int| 0 <= i < s.len() ==> ok(#[trigger] s[i]),
    ensures
        every_char(split_at_char(s, d), |c: char| ok(c) && c != d),
    decreases s.len(),
{
    if s.len() > 0 {
        let before = split_at_char(s.drop_last(), d);
        let now = split_at_char(s, d);
        assert forall|i: int| 0 <= i < s.drop_last().len() implies ok(
            #[trigger] s.drop_last()[i],
        ) by {
            assert(s.drop_last()[i] == s[i]);
        }
        lemma_split_at_char_chars(s.drop_last(), d, ok);
        lemma_split_at_char_rebuilds(s.drop_last(), d);
        assert forall|k: int, j: int| 0 <= k < now.len() && 0 <= j < now[k].len() implies ok(
            #[trigger] now[k][j],
        ) && now[k][j] != d by {
            if k < before.len() - 1 {
                assert(now[k][j] == before[k][j]);
            } else if s.last() == d {
                assert(k == before.len() - 1);
                assert(now[k][j] == before[k][j]);
            } else if j < before.last().len() {
                assert(now[k][j] == before[k][j]);
            } else {
                assert(now[k][j] == s[s.len() - 1]);
            }
        }
    }
}

/// The pieces of a split at whitespace hold characters of the string only, and no
/// whitespace.
proof fn lemma_split_at_spaces_chars(s: Seq<char>, ok: spec_fn(char) -> bool)
    requires
        forall|i: int| 0 <= i < s.len() ==> ok(#[trigger] s[i]),
    ensures
        every_char(split_at_spaces(s), |c: char| ok(c) && !is_space(c)),
    decreases s.len(),
{
    if s.len() > 0 {
        let before = split_at_spaces(s.drop_last());
        let now = split_at_spaces(s);
        assert forall|i: int| 0 <= i < s.drop_last().len() implies ok(
            #[trigger] s.drop_last()[i],
        ) by {
            assert(s.drop_last()[i] == s[i]);
        }
        lemma_split_at_spaces_chars(s.drop_last(), ok);
        lemma_split_at_spaces_rebuilds(s.drop_last());
        assert forall|k: int, j: int| 0 <= k < now.len() && 0 <= j < now[k].len() implies ok(
            #[trigger] now[k][j],
        ) && !is_space(now[k][j]) by {
            if k < before.len() - 1 {
                assert(now[k][j] == before[k][j]);
            } else if is_space(s.last()) {
                assert(k == before.len() - 1);
                assert(now[k][j] == before[k][j]);
            } else if j < before.last().len() {
                assert(now[k][j] == before[k][j]);
            } else {
                assert(now[k][j] == s[s.len() - 1]);
            }
        }
    }
}

/// Splitting every piece at `d` leaves characters of the pieces only, and never `d`.
proof fn lemma_each_at_char_chars(parts: Seq<Seq<char>>, d: char, ok: spec_fn(char) -> bool)
    requires
        every_char(parts, ok),
    ensures
        every_char(each_at_char(parts, d), |c: char| ok(c) && c != d),
    decreases parts.len(),
{
    if parts.len() > 0 {
        let before = each_at_char(parts.drop_last(), d);
        let added = split_at_char(parts.last(), d);
        let now = each_at_char(parts, d);
        assert forall|k: int, j: int|
            0 <= k < parts.drop_last().len() && 0 <= j < parts.drop_last()[k].len() implies ok(
            #[trigger] parts.drop_last()[k][j],
        ) by {
            assert(parts.drop_last()[k][j] == parts[k][j]);
        }
        lemma_each_at_char_chars(parts.drop_last(), d, ok);
        assert forall|i: int| 0 <= i < parts.last().len() implies ok(#[trigger] parts.last()[i]) by {
            assert(parts.last()[i] == parts[parts.len() - 1][i]);
        }
        lemma_split_at_char_chars(parts.last(), d, ok);
        assert forall|k: int, j: int| 0 <= k < now.len() && 0 <= j < now[k].len() implies ok(
            #[trigger] now[k][j],
        ) && now[k][j] != d by {
            if k < before.len() {
                assert(now[k][j] == before[k][j]);
            } else {
                assert(now[k][j] == added[k - before.len()][j]);
            }
        }
    }
}

/// Splitting every piece at its whitespace leaves characters of the pieces only, and no
/// whitespace.
proof fn lemma_each_at_spaces_chars(parts: Seq<Seq<char>>, ok: spec_fn(char) -> bool)
    requires
        every_char(parts, ok),
    ensures
        every_char(each_at_spaces(parts), |c: char| ok(c) && !is_space(c)),
    decreases parts.len(),
{
    if parts.len() > 0 {
        let before = each_at_spaces(parts.drop_last());
        let added = split_at_spaces(parts.last());
        let now = each_at_spaces(parts);
        assert forall|k: int, j: int|
            0 <= k < parts.drop_last().len() && 0 <= j < parts.drop_last()[k].len() implies ok(
            #[trigger] parts.drop_last()[k][j],
        ) by {
            assert(parts.drop_last()[k][j] == parts[k][j]);
        }
        lemma_each_at_spaces_chars(parts.drop_last(), ok);
        assert forall|i: int| 0 <= i < parts.last().len() implies ok(#[trigger] parts.last()[i]) by {
            assert(parts.last()[i] == parts[parts.len() - 1][i]);
        }
        lemma_split_at_spaces_chars(parts.last(), ok);
        assert forall|k: int, j: int| 0 <= k < now.len() && 0 <= j < now[k].len() implies ok(
            #[trigger] now[k][j],
        ) && !is_space(now[k][j]) by {
            if k < before.len() {
                assert(now[k][j] == before[k][j]);
            } else {
                assert(now[k][j] == added[k - before.len()][j]);
            }
        }
    }
}

/// No clause holds a character at which sentences are split: neither comma and no
/// whitespace.
pub proof fn lemma_clauses_hold_no_delimiter(sentence: Seq<char>)
    ensures
        every_char(clauses(sentence), |c: char| !is_delimiter_char(c)),
{
    let any = |c: char| true;
    let no_comma = |c: char| any(c) && c != ASCII_COMMA;
    let no_commas = |c: char| no_comma(c) && c != FULLWIDTH_COMMA;
    let at_comma = split_at_char(sentence, ASCII_COMMA);
    let at_commas = each_at_char(at_comma, FULLWIDTH_COMMA);
    lemma_split_at_char_chars(sentence, ASCII_COMMA, any);
    assert(every_char(at_comma, no_comma));
    lemma_each_at_char_chars(at_comma, FULLWIDTH_COMMA, no_comma);
    assert(every_char(at_commas, no_commas));
    lemma_each_at_spaces_chars(at_commas, no_commas);
}

} // verus!
