//! The output of a code cell: which of the records that the run left behind
//! is shown, and as what text.
//!
//! A record of the kind `execute_result` that carries a `text/plain` entry
//! outranks every `stream` record, wherever the two stand in the list.

use crate::error::{text_result, J2TError, J2TErrorView};
use crate::json::{expect_array, fragments, fragments_text, member, require_array, Json, JsonView};
use vstd::prelude::*;
use vstd::string::StringExecFns;

verus! {

/// The two kinds of output record that can be shown, in the order of their
/// rank.
#[derive(Clone, Copy, Debug, PartialEq, Eq)]
pub enum OutputKind {
    ExecuteResult,
    Stream,
}

/// The value of `output_type` that marks a record of the given kind.
pub open spec fn kind_tag(kind: OutputKind) -> Seq<char> {
    match kind {
        OutputKind::ExecuteResult => "execute_result"@,
        OutputKind::Stream => "stream"@,
    }
}

/// The entry of a record that holds the text of the given kind: for an
/// `execute_result`, the `text/plain` entry of its `data` mapping; for a
/// `stream`, its `text`.
pub open spec fn text_entry(kind: OutputKind, record: JsonView) -> Option<JsonView> {
    match kind {
        OutputKind::ExecuteResult => match member(record, "data"@) {
            Some(data) => member(data, "text/plain"@),
            None => None,
        },
        OutputKind::Stream => member(record, "text"@),
    }
}

/// The text that `record` offers as a record of the given kind: the joined
/// fragments of its text entry. `None` where the record is of another kind,
/// has no such entry, or the entry is no list of fragments.
pub open spec fn offered_text(kind: OutputKind, record: JsonView) -> Option<Seq<char>> {
    if member(record, "output_type"@) == Some(JsonView::Str(kind_tag(kind))) {
        match text_entry(kind, record) {
            Some(entry) => fragments_text(entry),
            None => None,
        }
    } else {
        None
    }
}

/// The text of the first record, in the order of the list, that offers one
/// as a record of the given kind.
pub open spec fn first_offered(kind: OutputKind, records: Seq<JsonView>) -> Option<Seq<char>>
    decreases records.len(),
{
    if records.len() == 0 {
        None
    } else {
        match offered_text(kind, records.first()) {
            Some(text) => Some(text),
            None => first_offered(kind, records.drop_first()),
        }
    }
}

/// A text without its terminal control sequences. Nothing is taken out as
/// yet: the text is handed on as it is.
pub open spec fn stripped(text: Seq<char>) -> Seq<char> {
    text
}

/// The text shown for a list of output records: that of the first
/// `execute_result` that offers one; failing that, that of the first
/// `stream` that offers one; failing that, nothing.
pub open spec fn selected_output(records: Seq<JsonView>) -> Seq<char> {
    match first_offered(OutputKind::ExecuteResult, records) {
        Some(text) => stripped(text),
        None => match first_offered(OutputKind::Stream, records) {
            Some(text) => stripped(text),
            None => Seq::<char>::empty(),
        },
    }
}

/// The text shown for the outputs of a code cell, whose `outputs` must be
/// an array.
pub open spec fn cell_result(cell: JsonView) -> Result<Seq<char>, J2TErrorView> {
    match expect_array("outputs"@, member(cell, "outputs"@)) {
        Ok(records) => Ok(selected_output(records)),
        Err(e) => Err(e),
    }
}

/// The first record that offers a text of the given kind decides, whatever
/// follows it.
pub proof fn lemma_first_offered(kind: OutputKind, records: Seq<JsonView>, i: int)
    requires
        0 <= i < records.len(),
        offered_text(kind, records[i]) is Some,
        forall|j: int| 0 <= j < i ==> offered_text(kind, records[j]) is None,
    ensures
        first_offered(kind, records) == offered_text(kind, records[i]),
    decreases i,
{
    if i > 0 {
        let rest = records.drop_first();
        assert forall|j: int| 0 <= j < i - 1 implies offered_text(kind, rest[j]) is None by {
            assert(rest[j] == records[j + 1]);
        }
        assert(rest[i - 1] == records[i]);
        lemma_first_offered(kind, rest, i - 1);
    }
}

/// Where no record offers a text of the given kind, none is found.
pub proof fn lemma_none_offered(kind: OutputKind, records: Seq<JsonView>)
    requires
        forall|j: int| 0 <= j < records.len() ==> offered_text(kind, records[j]) is None,
    ensures
        first_offered(kind, records) is None,
    decreases records.len(),
{
    if records.len() > 0 {
        let rest = records.drop_first();
        assert forall|j: int| 0 <= j < rest.len() implies offered_text(kind, rest[j]) is None by {
            assert(rest[j] == records[j + 1]);
        }
        lemma_none_offered(kind, rest);
    }
}

/// Precedence: where some `execute_result` record offers a text, the text
/// shown is that of the first such record, whatever `stream` records the
/// list holds and wherever they stand.
pub proof fn lemma_execute_result_outranks_stream(records: Seq<JsonView>, i: int)
    requires
        0 <= i < records.len(),
        offered_text(OutputKind::ExecuteResult, records[i]) is Some,
        forall|j: int| 0 <= j < i ==> offered_text(OutputKind::ExecuteResult, records[j]) is None,
    ensures
        selected_output(records) == stripped(
            offered_text(OutputKind::ExecuteResult, records[i])->Some_0,
        ),
{
    lemma_first_offered(OutputKind::ExecuteResult, records, i);
}

/// Fallback: where no `execute_result` record offers a text and some
/// `stream` record does, the text shown is that of the first such `stream`
/// record.
pub proof fn lemma_stream_fallback(records: Seq<JsonView>, i: int)
    requires
        0 <= i < records.len(),
        forall|j: int|
            0 <= j < records.len() ==> offered_text(OutputKind::ExecuteResult, records[j]) is None,
        offered_text(OutputKind::Stream, records[i]) is Some,
        forall|j: int| 0 <= j < i ==> offered_text(OutputKind::Stream, records[j]) is None,
    ensures
        selected_output(records) == stripped(offered_text(OutputKind::Stream, records[i])->Some_0),
{
    lemma_none_offered(OutputKind::ExecuteResult, records);
    lemma_first_offered(OutputKind::Stream, records, i);
}

/// Default: where no record offers a text of either kind, and so for an
/// empty list, nothing is shown.
pub proof fn lemma_no_output_default(records: Seq<JsonView>)
    requires
        forall|j: int|
            0 <= j < records.len() ==> offered_text(OutputKind::ExecuteResult, records[j]) is None
                && offered_text(OutputKind::Stream, records[j]) is None,
    ensures
        selected_output(records) == Seq::<char>::empty(),
{
    lemma_none_offered(OutputKind::ExecuteResult, records);
    lemma_none_offered(OutputKind::Stream, records);
}

impl OutputKind {
    /// The value of `output_type` that marks a record of this kind.
    pub fn tag(self) -> (r: &'static str)
        ensures
            r@ == kind_tag(self),
    {
        match self {
            OutputKind::ExecuteResult => "execute_result",
            OutputKind::Stream => "stream",
        }
    }
}

/// Takes the terminal control sequences out of a text. Nothing is taken out
/// as yet: the text comes back as it went in.
pub fn strip_ansi_codes(s: String) -> (r: String)
    ensures
        r@ == stripped(s@),
{
    s
}

/// The text that `record` offers as a record of the given kind, if any.
pub fn output_text(kind: OutputKind, record: &Json) -> (r: Option<String>)
    ensures
        match offered_text(kind, record@) {
            Some(text) => r matches Some(found) && found@ == text,
            None => r is None,
        },
{
    match record.get("output_type") {
        Some(Json::Str(tag)) => {
            let wanted = String::from_str(kind.tag());
            if *tag == wanted {
                let entry = match kind {
                    OutputKind::ExecuteResult => match record.get("data") {
                        Some(data) => data.get("text/plain"),
                        None => None,
                    },
                    OutputKind::Stream => record.get("text"),
                };
                match entry {
                    Some(lines) => fragments(lines),
                    None => None,
                }
            } else {
                None
            }
        },
        _ => None,
    }
}

/// The text of the first record of `outputs` that offers one as a record
/// of the given kind.
pub fn first_output(kind: OutputKind, outputs: &Vec<Json>) -> (r: Option<String>)
    ensures
        match first_offered(kind, Json::items_view(outputs@)) {
            Some(text) => r matches Some(found) && found@ == text,
            None => r is None,
        },
{
    let ghost records = Json::items_view(outputs@);
    let mut i: usize = 0;
    assert(records.skip(0) == records);
    while i < outputs.len()
        invariant
            i <= outputs.len(),
            records == Json::items_view(outputs@),
            first_offered(kind, records) == first_offered(kind, records.skip(i as int)),
        decreases outputs.len() - i,
    {
        assert(records.skip(i as int).first() == outputs@[i as int]@);
        assert(records.skip(i as int).drop_first() == records.skip(i + 1));
        match output_text(kind, &outputs[i]) {
            Some(text) => {
                return Some(text);
            },
            None => {},
        }
        i += 1;
    }
    None
}

/// Selects the text shown for a list of output records: that of the first
/// `execute_result` record that carries a `text/plain` entry; failing that,
/// that of the first `stream` record that carries a `text`; failing that,
/// the empty text.
pub fn select_output(outputs: &Vec<Json>) -> (r: String)
    ensures
        r@ == selected_output(Json::items_view(outputs@)),
{
    match first_output(OutputKind::ExecuteResult, outputs) {
        Some(text) => strip_ansi_codes(text),
        None => match first_output(OutputKind::Stream, outputs) {
            Some(text) => strip_ansi_codes(text),
            None => String::new(),
        },
    }
}

/// The text shown for the outputs of the code cell `cell`. Fails where the
/// cell has no `outputs`, or where `outputs` is no array.
pub fn format_cell_result(cell: &Json) -> (r: Result<String, J2TError>)
    ensures
        text_result(r) == cell_result(cell@),
{
    match require_array("outputs", cell.get("outputs")) {
        Ok(outputs) => Ok(select_output(outputs)),
        Err(e) => Err(e),
    }
}

} // verus!
