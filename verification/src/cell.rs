//! One cell of a notebook: telling its type, and the markup of a code cell.

use crate::error::{
    failure, text_result, J2TError, J2TErrorKind, J2TErrorKindView, J2TErrorView, JsonShape,
};
use crate::json::{
    expect_number, expect_object, expect_str, expect_text, join_json_lines_array, member,
    require_number, require_object, require_str, Json, JsonView,
};
use crate::mdast::{convert_markdown_to_typst, typst_of_markdown};
use crate::output::{cell_result, format_cell_result, lemma_no_output_default};
use vstd::prelude::*;
use vstd::string::StringExecFns;

verus! {

/// What holds for the whole notebook while its cells are formatted.
#[derive(Clone, Debug, PartialEq, Eq)]
pub struct Context {
    /// Whether the overview of the notebook is to be shown.
    pub verbose: bool,
    /// The language of the notebook's kernel.
    pub lang: String,
}

/// Opens the markup of a code cell; the execution count follows.
pub const CODE_CELL_COUNT: &'static str = "\n#move(align(right, box(text([[";

/// Closes the badge with the execution count; the language follows.
pub const CODE_CELL_LANG: &'static str =
    "]], fill: blue), fill: red, inset: 0pt, height: 0pt)), dx: -25pt, dy: 10pt)\n#codeblock(lang: \"";

/// Closes the language; the source follows, between backticks.
pub const CODE_CELL_SOURCE: &'static str = "\", `";

/// Closes the source; the result follows, between backticks.
pub const CODE_CELL_RESULT: &'static str = "`.text)\n#resultblock(`";

/// Closes the result and the cell.
pub const CODE_CELL_END: &'static str = "`.text)\n\n";

/// Whether a text holds a backtick.
pub open spec fn has_backtick(text: Seq<char>) -> bool {
    text.contains('`')
}

/// The markup of a code cell: a badge with the execution count, moved to
/// the right margin; the source in a code block tagged with the language;
/// the result in a result block.
pub open spec fn code_cell_markup(
    lang: Seq<char>,
    count: Seq<char>,
    source: Seq<char>,
    result: Seq<char>,
) -> Seq<char> {
    CODE_CELL_COUNT@ + count + CODE_CELL_LANG@ + lang + CODE_CELL_SOURCE@ + source
        + CODE_CELL_RESULT@ + result + CODE_CELL_END@
}

/// What a code cell becomes. Its `execution_count` must be a number and
/// its `source` a list of fragments without a backtick; its `outputs` must
/// be an array.
pub open spec fn code_cell(lang: Seq<char>, cell: JsonView) -> Result<Seq<char>, J2TErrorView> {
    match expect_number("execution_count"@, member(cell, "execution_count"@)) {
        Err(e) => Err(e),
        Ok(count) => match expect_text("source"@, member(cell, "source"@)) {
            Err(e) => Err(e),
            Ok(source) => if has_backtick(source) {
                Err(failure(J2TErrorKindView::Backtick))
            } else {
                match cell_result(cell) {
                    Err(e) => Err(e),
                    Ok(result) => Ok(code_cell_markup(lang, count, source, result)),
                }
            },
        },
    }
}

/// What a Markdown cell becomes: the translation of its `source`, which
/// must be a list of fragments.
pub open spec fn markdown_cell(cell: JsonView) -> Result<Seq<char>, J2TErrorView> {
    match expect_text("source"@, member(cell, "source"@)) {
        Err(e) => Err(e),
        Ok(source) => typst_of_markdown(source),
    }
}

/// What a cell becomes. The cell must be an object whose `cell_type` is a
/// string; a cell that is neither `markdown` nor `code` becomes the empty
/// text.
pub open spec fn formatted_cell(lang: Seq<char>, cell: JsonView) -> Result<
    Seq<char>,
    J2TErrorView,
> {
    match expect_object("cell"@, Some(cell)) {
        Err(e) => Err(e),
        Ok(_) => match expect_str("cell_type"@, member(cell, "cell_type"@)) {
            Err(e) => Err(e),
            Ok(cell_type) => if cell_type == "markdown"@ {
                markdown_cell(cell)
            } else if cell_type == "code"@ {
                code_cell(lang, cell)
            } else {
                Ok(Seq::<char>::empty())
            },
        },
    }
}

/// The two cell types that become markup are told apart by their names.
pub proof fn lemma_code_is_not_markdown()
    ensures
        "code"@ != "markdown"@,
{
    reveal_strlit("markdown");
    reveal_strlit("code");
    assert("code"@.len() != "markdown"@.len());
}

/// Totality of the dispatch: a cell whose type is neither `markdown` nor
/// `code` becomes the empty text; no cell becomes anything but a text or a
/// failure.
pub proof fn lemma_other_cell_types_are_empty(lang: Seq<char>, cell: JsonView)
    requires
        member(cell, "cell_type"@) matches Some(JsonView::Str(cell_type)) && cell_type
            != "markdown"@ && cell_type != "code"@,
    ensures
        formatted_cell(lang, cell) == Ok::<Seq<char>, J2TErrorView>(Seq::<char>::empty()),
{
}

/// The fence: a code cell whose source holds a backtick fails, whatever
/// else it holds.
pub proof fn lemma_backtick_is_rejected(lang: Seq<char>, cell: JsonView)
    requires
        member(cell, "cell_type"@) == Some(JsonView::Str("code"@)),
        expect_text("source"@, member(cell, "source"@)) matches Ok(source) && has_backtick(source),
    ensures
        formatted_cell(lang, cell) is Err,
        member(cell, "execution_count"@) matches Some(JsonView::Number(_)) ==> formatted_cell(
            lang,
            cell,
        ) == Err::<Seq<char>, J2TErrorView>(failure(J2TErrorKindView::Backtick)),
{
    lemma_code_is_not_markdown();
}

/// A code cell without outputs shows the empty text as its result, and
/// its markup still holds the badge and the source block.
pub proof fn lemma_code_cell_without_outputs(lang: Seq<char>, cell: JsonView)
    requires
        member(cell, "cell_type"@) == Some(JsonView::Str("code"@)),
        member(cell, "execution_count"@) matches Some(JsonView::Number(_)),
        expect_text("source"@, member(cell, "source"@)) matches Ok(source) && !has_backtick(source),
        member(cell, "outputs"@) == Some(JsonView::Array(Seq::<JsonView>::empty())),
    ensures
        cell_result(cell) == Ok::<Seq<char>, J2TErrorView>(Seq::<char>::empty()),
        formatted_cell(lang, cell) == Ok::<Seq<char>, J2TErrorView>(
            code_cell_markup(
                lang,
                member(cell, "execution_count"@)->Some_0->Number_0,
                expect_text("source"@, member(cell, "source"@))->Ok_0,
                Seq::<char>::empty(),
            ),
        ),
{
    lemma_code_is_not_markdown();
    lemma_no_output_default(Seq::<JsonView>::empty());
}

/// Whether a text holds a backtick.
pub fn contains_backtick(text: &str) -> (r: bool)
    ensures
        r == has_backtick(text@),
{
    let mut found = false;
    for c in it: text.chars()
        invariant
            it.seq() == text@,
            found == exists|j: int| 0 <= j < it.index() && text@[j] == '`',
    {
        if c == '`' {
            found = true;
        }
    }
    found
}

/// Writes the markup of a code cell: a badge with the execution count, the
/// source in a code block tagged with the language of `ctx`, and `result`
/// in a result block. The source goes between backticks and so must hold
/// none.
pub fn format_code_cell(
    ctx: &Context,
    execution_count: &str,
    source: &str,
    result: &str,
) -> (r: String)
    requires
        !has_backtick(source@),
    ensures
        r@ == code_cell_markup(ctx.lang@, execution_count@, source@, result@),
{
    let mut r = String::from_str(CODE_CELL_COUNT);
    r.append(execution_count);
    r.append(CODE_CELL_LANG);
    r.append(ctx.lang.as_str());
    r.append(CODE_CELL_SOURCE);
    r.append(source);
    r.append(CODE_CELL_RESULT);
    r.append(result);
    r.append(CODE_CELL_END);
    r
}

/// Formats one cell of a notebook. A `markdown` cell becomes the
/// translation of its source, a `code` cell the markup of its source and
/// of its output, and a cell of any other type the empty text. Fails where
/// a field that the cell's type requires is absent or has the wrong shape,
/// where the Markdown parser rejects the source, and where the source of a
/// code cell holds a backtick.
pub fn format_cell(ctx: &Context, cell: &Json) -> (r: Result<String, J2TError>)
    ensures
        text_result(r) == formatted_cell(ctx.lang@, cell@),
{
    let cell = match require_object("cell", Some(cell)) {
        Ok(cell) => cell,
        Err(e) => {
            return Err(e);
        },
    };
    let cell_type = match require_str("cell_type", cell.get("cell_type")) {
        Ok(cell_type) => cell_type,
        Err(e) => {
            return Err(e);
        },
    };
    let markdown = String::from_str("markdown");
    let code = String::from_str("code");
    if *cell_type == markdown {
        let source = match text_field("source", cell) {
            Ok(source) => source,
            Err(e) => {
                return Err(e);
            },
        };
        convert_markdown_to_typst(source.as_str())
    } else if *cell_type == code {
        let count = match require_number("execution_count", cell.get("execution_count")) {
            Ok(count) => count,
            Err(e) => {
                return Err(e);
            },
        };
        let source = match text_field("source", cell) {
            Ok(source) => source,
            Err(e) => {
                return Err(e);
            },
        };
        if contains_backtick(source.as_str()) {
            return Err(J2TError::of_kind(J2TErrorKind::Backtick));
        }
        let result = match format_cell_result(cell) {
            Ok(result) => result,
            Err(e) => {
                return Err(e);
            },
        };
        Ok(format_code_cell(ctx, count.as_str(), source.as_str(), result.as_str()))
    } else {
        Ok(String::new())
    }
}

/// The text of the field `field` of `cell`, which must be a list of
/// fragments.
fn text_field(field: &str, cell: &Json) -> (r: Result<String, J2TError>)
    ensures
        text_result(r) == expect_text(field@, member(cell@, field@)),
{
    match cell.get(field) {
        Some(lines) => join_json_lines_array(field, lines),
        None => Err(J2TError::unexpected(field, JsonShape::Array, None)),
    }
}

} // verus!
