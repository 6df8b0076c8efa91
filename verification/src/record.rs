//! A clause with its words, and the line that it is written as.

use crate::error::PipelineError;
use vstd::prelude::*;

verus! {

#[verifier::external_type_specification]
#[verifier::external_body]
pub struct ExJsonError(serde_json::Error);

/// The compact JSON text of the pair of a string and a list of strings: an array of two
/// elements, the string first.
pub uninterp spec fn json_pair(clause: Seq<char>, words: Seq<Seq<char>>) -> Seq<char>;

/// A clause and the words it was cut into.
pub struct Record<'a> {
    pub clause: &'a str,
    pub words: Vec<&'a str>,
}

/// What a record holds, as plain text.
pub ghost struct RecordView {
    pub clause: Seq<char>,
    pub words: Seq<Seq<char>>,
}

impl<'a> View for Record<'a> {
    type V = RecordView;

    open spec fn view(&self) -> RecordView {
        RecordView { clause: self.clause@, words: self.words.deep_view() }
    }
}

impl<'a> DeepView for Record<'a> {
    type V = RecordView;

    open spec fn deep_view(&self) -> RecordView {
        self@
    }
}

/// The line of each record, in order.
pub open spec fn lines_of(records: Seq<RecordView>) -> Seq<Seq<char>> {
    records.map_values(|r: RecordView| json_pair(r.clause, r.words))
}

/// Calls `serde_json::to_string` on the pair of the clause and its words. Claimed, not
/// proved: the call succeeds on every such pair, and the text depends on the two values
/// alone. It succeeds because strings, sequences and tuples are serialised without any
/// failure but that of the writer, and the writer is a vector of bytes, which takes every
/// write.
#[verifier::external_body]
fn pair_to_json(clause: &str, words: &Vec<&str>) -> (r: Result<String, serde_json::Error>)
    ensures
        r is Ok,
        r matches Ok(line) ==> line@ == json_pair(clause@, words.deep_view()),
{
    serde_json::to_string(&(clause, words))
}

/// What becomes of the serialiser's answer: its text is the line, and any failure of it is
/// `PipelineError::Serialization`.
pub fn line_or_error(answer: Result<String, serde_json::Error>) -> (r: Result<
    String,
    PipelineError,
>)
    ensures
        match answer {
            Ok(line) => r == Ok::<String, PipelineError>(line),
            Err(_) => r == Err::<String, PipelineError>(PipelineError::Serialization),
        },
{
    match answer {
        Ok(line) => Ok(line),
        Err(_) => Err(PipelineError::Serialization),
    }
}

/// The line of one record: the JSON array of its clause and the array of its words. A
/// record without words has a line like any other. Every record has a line: the result is
/// never an error.
pub fn emit_record(record: &Record) -> (r: Result<String, PipelineError>)
    ensures
        r matches Ok(line) && line@ == json_pair(record@.clause, record@.words),
{
    line_or_error(pair_to_json(record.clause, &record.words))
}

/// The lines of the records, one for each and in their order. The result is never an
/// error.
pub fn emit_all(records: &Vec<Record>) -> (r: Result<Vec<String>, PipelineError>)
    ensures
        r matches Ok(lines) && lines.len() == records.len() && lines.deep_view() == lines_of(
            records.deep_view(),
        ),
{
    let mut lines: Vec<String> = Vec::new();
    let mut i: usize = 0;
    while i < records.len()
        invariant
            i <= records.len(),
            lines.deep_view() == lines_of(records.deep_view().take(i as int)),
        decreases records.len() - i,
    {
        let ghost done = lines.deep_view();
        match emit_record(&records[i]) {
            Ok(line) => {
                lines.push(line);
                assert(lines.deep_view() =~= done.push(line@));
                assert(lines.deep_view() =~= lines_of(records.deep_view().take(i + 1)));
            },
            Err(e) => {
                return Err(e);
            },
        }
        i += 1;
    }
    assert(records.deep_view().take(records.len() as int) == records.deep_view());
    Ok(lines)
}

} // verus!
