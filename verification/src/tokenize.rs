//! Cutting a clause into words: the dictionary segmenter does the cutting, and the units
//! that hold nothing but whitespace are left out.

use crate::space::{is_blank, is_blank_str};
use jieba_rs::Jieba;
use vstd::prelude::*;

verus! {

#[verifier::external_type_specification]
#[verifier::external_body]
pub struct ExJieba(Jieba);

/// The units into which the segmenter cuts a clause with its embedded dictionary, in the
/// order of the clause: words, and what stands between them, whitespace too. With `model`
/// set, stretches that the dictionary does not cover are cut by the hidden Markov model,
/// which finds words that the dictionary lacks.
pub uninterp spec fn dictionary_cut(clause: Seq<char>, model: bool) -> Seq<Seq<char>>;

/// The segmenter with its embedded dictionary, loaded once and never changed afterwards.
pub struct Tokenizer {
    jieba: Jieba,
}

/// Calls `Jieba::new`, which loads the dictionary that is embedded in the segmenter.
/// Nothing is claimed of the value.
#[verifier::external_body]
fn load_embedded_dictionary() -> (jieba: Jieba) {
    Jieba::new()
}

/// Calls `Jieba::cut` and hands out the text of each token. Claimed, not proved: on a
/// segmenter that holds the embedded dictionary, which is the only one that a `Tokenizer`
/// can hold, the units depend on the clause and on `model` alone, so that they can be given
/// the name `dictionary_cut`; and an empty clause has no units, since the segmenter finds
/// no stretch to cut in it.
#[verifier::external_body]
fn cut<'a>(tokenizer: &Tokenizer, clause: &'a str, model: bool) -> (units: Vec<&'a str>)
    ensures
        units.deep_view() == dictionary_cut(clause@, model),
        clause@.len() == 0 ==> units.deep_view().len() == 0,
{
    tokenizer.jieba.cut(clause, model).into_iter().map(|token| token.word).collect()
}

/// The words of a clause: the units of its cut, unknown words detected, that are not blank.
pub open spec fn words_of_clause(clause: Seq<char>) -> Seq<Seq<char>> {
    words_of(dictionary_cut(clause, true))
}

/// The units that are kept as words: those that are not blank, in their order and unchanged.
pub open spec fn words_of(units: Seq<Seq<char>>) -> Seq<Seq<char>> {
    units.filter(|unit: Seq<char>| !is_blank(unit))
}

/// Every word is one of the units and is not blank, and every unit that is not blank is
/// one of the words.
pub proof fn lemma_words_are_the_units_with_text(units: Seq<Seq<char>>)
    ensures
        forall|i: int|
            0 <= i < words_of(units).len() ==> !is_blank(#[trigger] words_of(units)[i])
                && units.contains(words_of(units)[i]),
        forall|j: int|
            0 <= j < units.len() && !is_blank(#[trigger] units[j]) ==> words_of(units).contains(
                units[j],
            ),
    decreases units.len(),
{
    reveal(Seq::filter);
    if units.len() > 0 {
        let before = units.drop_last();
        let words = words_of(units);
        lemma_words_are_the_units_with_text(before);
        assert forall|i: int| 0 <= i < words.len() implies !is_blank(#[trigger] words[i])
            && units.contains(words[i]) by {
            if i < words_of(before).len() {
                assert(words[i] == words_of(before)[i]);
                let j = choose|j: int| 0 <= j < before.len() && before[j] == words[i];
                assert(units[j] == words[i]);
            } else {
                assert(words[i] == units[units.len() - 1]);
            }
        }
        assert forall|j: int|
            0 <= j < units.len() && !is_blank(#[trigger] units[j]) implies words.contains(
            units[j],
        ) by {
            if j < before.len() {
                assert(before[j] == units[j]);
                let kept = words_of(before);
                let i = choose|i: int| 0 <= i < kept.len() && kept[i] == units[j];
                assert(words[i] == units[j]);
            } else {
                assert(words[words.len() - 1] == units[j]);
            }
        }
    }
}

/// Units that are all blank leave no word.
pub proof fn lemma_blank_units_leave_no_word(units: Seq<Seq<char>>)
    requires
        forall|j: int| 0 <= j < units.len() ==> is_blank(#[trigger] units[j]),
    ensures
        words_of(units).len() == 0,
{
    lemma_words_are_the_units_with_text(units);
    if words_of(units).len() > 0 {
        let word = words_of(units)[0];
        let j = choose|j: int| 0 <= j < units.len() && units[j] == word;
        assert(is_blank(units[j]));
    }
}

impl Tokenizer {
    /// Loads the embedded dictionary.
    pub fn new() -> Tokenizer {
        Tokenizer { jieba: load_embedded_dictionary() }
    }
}

/// Leaves out the units that hold nothing but whitespace. What stays keeps its order and
/// its text, surrounding whitespace included.
pub fn retain_words<'a>(units: &Vec<&'a str>) -> (words: Vec<&'a str>)
    ensures
        words.deep_view() == words_of(units.deep_view()),
        forall|i: int| 0 <= i < words.len() ==> !is_blank(#[trigger] words[i]@),
{
    proof {
        lemma_words_are_the_units_with_text(units.deep_view());
    }
    let mut words: Vec<&'a str> = Vec::new();
    let mut i: usize = 0;
    proof {
        reveal(Seq::filter);
        assert(words.deep_view() =~= words_of(units.deep_view().take(0)));
    }
    while i < units.len()
        invariant
            i <= units.len(),
            words.deep_view() == words_of(units.deep_view().take(i as int)),
        decreases units.len() - i,
    {
        let ghost kept = words.deep_view();
        let unit = units[i];
        proof {
            reveal(Seq::filter);
            assert(units.deep_view().take(i + 1).drop_last() == units.deep_view().take(i as int));
            assert(units.deep_view().take(i + 1).last() == unit@);
        }
        if !is_blank_str(unit) {
            words.push(unit);
            assert(words.deep_view() =~= kept.push(unit@));
        }
        i += 1;
    }
    assert(units.deep_view().take(units.len() as int) == units.deep_view());
    assert forall|i: int| 0 <= i < words.len() implies !is_blank(#[trigger] words[i]@) by {
        assert(words[i]@ == words.deep_view()[i]);
    }
    words
}

/// Cuts a clause into its words. The segmenter runs with the detection of unknown words
/// switched on. An empty clause has no words.
pub fn tokenize<'a>(tokenizer: &Tokenizer, clause: &'a str) -> (words: Vec<&'a str>)
    ensures
        words.deep_view() == words_of_clause(clause@),
        forall|i: int| 0 <= i < words.len() ==> !is_blank(#[trigger] words[i]@),
        clause@.len() == 0 ==> words.len() == 0,
{
    let units = cut(tokenizer, clause, true);
    proof {
        units.deep_view().lemma_filter_len(|unit: Seq<char>| !is_blank(unit));
    }
    retain_words(&units)
}

} // verus!
