//! From a text to its records: sentence by sentence, clause by clause, in the order of the
//! text.

use crate::error::PipelineError;
use crate::record::{emit_all, lines_of, Record, RecordView};
use crate::rebuild::{delimiters, lemma_clauses_rebuild_sentence, weave};
use crate::space::{trim, trimmed};
use crate::split::{clauses, split_on_comma_etc};
use crate::tokenize::{tokenize, words_of_clause, Tokenizer};
use unicode_segmentation::UnicodeSegmentation;
use vstd::prelude::*;

verus! {

/// The sentences of a text by the sentence boundaries of Unicode's text segmentation, in
/// order, without the spans that hold neither a letter nor a digit.
pub uninterp spec fn sentence_spans(text: Seq<char>) -> Seq<Seq<char>>;

/// Calls `UnicodeSegmentation::unicode_sentences` and collects what it yields. Claimed, not
/// proved: the sentences depend on the text alone.
#[verifier::external_body]
fn unicode_sentences<'a>(text: &'a str) -> (spans: Vec<&'a str>)
    ensures
        spans.deep_view() == sentence_spans(text@),
{
    UnicodeSegmentation::unicode_sentences(text).collect()
}

/// The record of a clause: the clause and its words.
pub open spec fn record_of(clause: Seq<char>) -> RecordView {
    RecordView { clause, words: words_of_clause(clause) }
}

/// The records of a sentence: one for each clause of the trimmed sentence, empty clauses
/// included.
pub open spec fn records_of_sentence(sentence: Seq<char>) -> Seq<RecordView> {
    clauses(trimmed(sentence)).map_values(|clause: Seq<char>| record_of(clause))
}

/// The records of the sentences, laid end to end.
pub open spec fn records_of_sentences(sentences: Seq<Seq<char>>) -> Seq<RecordView>
    decreases sentences.len(),
{
    if sentences.len() == 0 {
        Seq::empty()
    } else {
        records_of_sentences(sentences.drop_last()) + records_of_sentence(sentences.last())
    }
}

/// The records of a text.
pub open spec fn records_of_text(text: Seq<char>) -> Seq<RecordView> {
    records_of_sentences(sentence_spans(text))
}

/// What a run over `text` ends in: the lines of its records, one for each and in the
/// order of the text. A run never ends in an error.
pub open spec fn run_outcome(text: Seq<char>, r: Result<Vec<String>, PipelineError>) -> bool {
    r matches Ok(lines) && lines.deep_view() == lines_of(records_of_text(text))
}

/// Two runs over the same text both succeed and give the same lines.
pub proof fn lemma_runs_agree(
    text: Seq<char>,
    first: Result<Vec<String>, PipelineError>,
    second: Result<Vec<String>, PipelineError>,
)
    requires
        run_outcome(text, first),
        run_outcome(text, second),
    ensures
        first is Ok,
        second is Ok,
        first->Ok_0.deep_view() == second->Ok_0.deep_view(),
{
}

/// The clauses of the records of a sentence are the clauses of the trimmed sentence, and
/// with the delimiters of the trimmed sentence put back between them they are the trimmed
/// sentence.
pub proof fn lemma_records_rebuild_sentence(sentence: Seq<char>)
    ensures
        records_of_sentence(sentence).map_values(|r: RecordView| r.clause) == clauses(
            trimmed(sentence),
        ),
        weave(
            records_of_sentence(sentence).map_values(|r: RecordView| r.clause),
            delimiters(trimmed(sentence)),
        ) == trimmed(sentence),
{
    lemma_clauses_rebuild_sentence(trimmed(sentence));
    assert(records_of_sentence(sentence).map_values(|r: RecordView| r.clause) =~= clauses(
        trimmed(sentence),
    ));
}

/// Whether every record of an empty clause is without words.
pub open spec fn empty_clauses_lack_words(records: Seq<RecordView>) -> bool {
    forall|i: int|
        0 <= i < records.len() && (#[trigger] records[i]).clause.len() == 0
            ==> records[i].words.len() == 0
}

/// The records of one sentence: the sentence is trimmed and split into clauses, and each
/// clause is cut into words. An empty clause has its record, without words.
pub fn sentence_records<'a>(tokenizer: &Tokenizer, sentence: &'a str) -> (found: Vec<Record<'a>>)
    ensures
        found.deep_view() == records_of_sentence(sentence@),
        empty_clauses_lack_words(found.deep_view()),
{
    let parts = split_on_comma_etc(trim(sentence));
    let mut found: Vec<Record<'a>> = Vec::new();
    let mut i: usize = 0;
    while i < parts.len()
        invariant
            i <= parts.len(),
            parts.deep_view() == clauses(trimmed(sentence@)),
            found.deep_view() == parts.deep_view().take(i as int).map_values(
                |clause: Seq<char>| record_of(clause),
            ),
            empty_clauses_lack_words(found.deep_view()),
        decreases parts.len() - i,
    {
        let ghost done = found.deep_view();
        let clause = parts[i];
        let record = Record { clause, words: tokenize(tokenizer, clause) };
        found.push(record);
        assert(found.deep_view() =~= done.push(record@));
        assert(found.deep_view() =~= parts.deep_view().take(i + 1).map_values(
            |clause: Seq<char>| record_of(clause),
        ));
        i += 1;
    }
    assert(parts.deep_view().take(parts.len() as int) == parts.deep_view());
    found
}

/// The records of the given sentences, in their order.
pub fn sentences_records<'a>(tokenizer: &Tokenizer, sentences: &Vec<&'a str>) -> (found: Vec<
    Record<'a>,
>)
    ensures
        found.deep_view() == records_of_sentences(sentences.deep_view()),
        empty_clauses_lack_words(found.deep_view()),
{
    let mut found: Vec<Record<'a>> = Vec::new();
    let mut i: usize = 0;
    assert(found.deep_view() =~= records_of_sentences(sentences.deep_view().take(0)));
    while i < sentences.len()
        invariant
            i <= sentences.len(),
            found.deep_view() == records_of_sentences(sentences.deep_view().take(i as int)),
            empty_clauses_lack_words(found.deep_view()),
        decreases sentences.len() - i,
    {
        let ghost done = found.deep_view();
        let mut next = sentence_records(tokenizer, sentences[i]);
        let ghost added = next.deep_view();
        found.append(&mut next);
        proof {
            assert(found.deep_view() =~= done + added);
            assert(sentences.deep_view().take(i + 1).drop_last() == sentences.deep_view().take(
                i as int,
            ));
            assert(sentences.deep_view().take(i + 1).last() == sentences[i as int]@);
        }
        i += 1;
    }
    assert(sentences.deep_view().take(sentences.len() as int) == sentences.deep_view());
    found
}

/// The records of a text, in the order of the text.
pub fn records<'a>(tokenizer: &Tokenizer, text: &'a str) -> (found: Vec<Record<'a>>)
    ensures
        found.deep_view() == records_of_text(text@),
        empty_clauses_lack_words(found.deep_view()),
{
    let sentences = unicode_sentences(text);
    sentences_records(tokenizer, &sentences)
}

/// The output lines of a text: one for each record, in the order of the text.
pub fn run(tokenizer: &Tokenizer, text: &str) -> (r: Result<Vec<String>, PipelineError>)
    ensures
        run_outcome(text@, r),
{
    let found = records(tokenizer, text);
    emit_all(&found)
}

} // verus!
