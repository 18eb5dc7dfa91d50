use jupyter2typst::cell::Context;
use jupyter2typst::error::{J2TErrorKind, JsonShape, UnexpectedValue};
use jupyter2typst::json::{parse_notebook, Json};
use jupyter2typst::notebook::{
    assemble, convert_notebook, format_cells, kernel_language, list_keys, list_names,
    notebook_context, notebook_overview, CellSelection, DOCUMENT_ROOT,
};

fn s(value: &str) -> Json {
    Json::Str(value.to_string())
}

fn n(text: &str) -> Json {
    Json::Number(text.to_string())
}

fn lines(values: &[&str]) -> Json {
    Json::Array(values.iter().map(|v| s(v)).collect())
}

fn object(members: Vec<(&str, Json)>) -> Json {
    Json::Object(members.into_iter().map(|(k, v)| (k.to_string(), v)).collect())
}

fn python() -> Context {
    Context { verbose: false, lang: "python".to_string() }
}

fn markdown_cell(source: &str) -> Json {
    object(vec![("cell_type", s("markdown")), ("source", lines(&[source]))])
}

fn raw_cell() -> Json {
    object(vec![("cell_type", s("raw")), ("source", lines(&["raw"]))])
}

fn unexpected(expected: JsonShape, found: Option<JsonShape>) -> J2TErrorKind {
    J2TErrorKind::Json(UnexpectedValue { expected, found })
}

const NOTEBOOK: &str = r##"{
  "nbformat": 4,
  "nbformat_minor": 5,
  "metadata": {"kernelspec": {"display_name": "Python 3", "language": "python", "name": "python3"}},
  "cells": [
    {"cell_type": "markdown", "metadata": {}, "source": ["# Title"]},
    {"cell_type": "code", "execution_count": 1, "metadata": {}, "source": ["print(1)"],
     "outputs": [{"output_type": "execute_result", "execution_count": 1, "metadata": {},
                  "data": {"text/plain": ["1"]}}]}
  ]
}"##;

const CODE_BLOCK: &str = "\n#move(align(right, box(text([[1]], fill: blue), fill: red, inset: 0pt, height: 0pt)), dx: -25pt, dy: 10pt)\n#codeblock(lang: \"python\", `print(1)`.text)\n#resultblock(`1`.text)\n\n";

#[test]
fn notebook_with_a_title_and_a_code_cell() {
    let notebook = parse_notebook(NOTEBOOK).unwrap();
    let ctx = notebook_context(&notebook, false).unwrap();
    assert_eq!(ctx, python());
    let document = convert_notebook(&ctx, &notebook, DOCUMENT_ROOT).unwrap();
    assert_eq!(document, format!("{}= Title\n\n{}", DOCUMENT_ROOT, CODE_BLOCK));
}

#[test]
fn notebook_built_by_hand_gives_the_same_document() {
    let output = object(vec![
        ("output_type", s("execute_result")),
        ("data", object(vec![("text/plain", lines(&["1"]))])),
    ]);
    let code = object(vec![
        ("cell_type", s("code")),
        ("source", lines(&["print(1)"])),
        ("execution_count", n("1")),
        ("outputs", Json::Array(vec![output])),
    ]);
    let notebook = object(vec![("cells", Json::Array(vec![markdown_cell("# Title"), code]))]);
    assert_eq!(
        convert_notebook(&python(), &notebook, "PREAMBLE\n"),
        Ok(format!("PREAMBLE\n= Title\n\n{}", CODE_BLOCK))
    );
}

#[test]
fn document_root_defines_the_blocks_that_cells_use() {
    assert!(DOCUMENT_ROOT.starts_with("\n#let input_notebook = "));
    assert!(DOCUMENT_ROOT.contains("#let codeblock("));
    assert!(DOCUMENT_ROOT.contains("#let resultblock("));
    assert!(DOCUMENT_ROOT.ends_with("raw(content))\n]\n\n\n"));
    assert_eq!(DOCUMENT_ROOT.lines().count(), 26);
}

#[test]
fn cells_keep_the_order_of_the_notebook() {
    let cells = vec![
        markdown_cell("# one"),
        raw_cell(),
        markdown_cell("two"),
        markdown_cell("## three"),
    ];
    let blocks = format_cells(&python(), &cells, &CellSelection::All).unwrap();
    assert_eq!(blocks, vec!["= one\n\n", "", "two\n", "== three\n\n"]);
    let document = assemble("P", &blocks);
    assert_eq!(document, "P= one\n\ntwo\n== three\n\n");
    let one = document.find("= one").unwrap();
    let two = document.find("two").unwrap();
    let three = document.find("== three").unwrap();
    assert!(one < two && two < three);
}

#[test]
fn empty_notebook_is_the_preamble_alone() {
    let notebook = object(vec![("cells", Json::Array(vec![]))]);
    assert_eq!(convert_notebook(&python(), &notebook, "P"), Ok("P".to_string()));
    assert_eq!(format_cells(&python(), &vec![], &CellSelection::All), Ok(vec![]));
}

#[test]
fn assemble_concatenates_without_separator() {
    assert_eq!(assemble("", &vec![]), "");
    assert_eq!(assemble("pre", &vec!["a".to_string(), String::new(), "b\n".to_string()]), "preab\n");
}

#[test]
fn selection_takes_the_named_cells_in_the_given_order() {
    let cells = vec![markdown_cell("a"), markdown_cell("b"), markdown_cell("c")];
    let selection = CellSelection::Indices(vec![2, 0, 2]);
    assert!(selection.fits(cells.len()));
    assert_eq!(
        format_cells(&python(), &cells, &selection),
        Ok(vec!["c\n".to_string(), "a\n".to_string(), "c\n".to_string()])
    );
    assert_eq!(format_cells(&python(), &cells, &CellSelection::Indices(vec![])), Ok(vec![]));
}

#[test]
fn selection_fits_only_where_every_place_exists() {
    assert!(CellSelection::All.fits(0));
    assert!(CellSelection::All.fits(3));
    assert!(CellSelection::Indices(vec![]).fits(0));
    assert!(CellSelection::Indices(vec![0, 1, 2]).fits(3));
    assert!(!CellSelection::Indices(vec![0, 3]).fits(3));
    assert!(!CellSelection::Indices(vec![0]).fits(0));
}

#[test]
fn first_failing_cell_ends_the_run() {
    let cells = vec![
        markdown_cell("fine"),
        object(vec![("cell_type", s("code"))]),
        object(vec![("source", lines(&[]))]),
    ];
    let e = format_cells(&python(), &cells, &CellSelection::All).unwrap_err();
    assert_eq!(e.msg, Some("execution_count".to_string()));
    let notebook = object(vec![("cells", Json::Array(cells))]);
    let e = convert_notebook(&python(), &notebook, DOCUMENT_ROOT).unwrap_err();
    assert_eq!(e.kind, unexpected(JsonShape::Number, None));
}

#[test]
fn failing_cell_that_is_not_selected_does_no_harm() {
    let cells = vec![markdown_cell("fine"), Json::Null];
    assert_eq!(
        format_cells(&python(), &cells, &CellSelection::Indices(vec![0])),
        Ok(vec!["fine\n".to_string()])
    );
}

#[test]
fn notebook_without_cells_fails() {
    let e = convert_notebook(&python(), &object(vec![]), "").unwrap_err();
    assert_eq!(e.kind, unexpected(JsonShape::Array, None));
    assert_eq!(e.msg, Some("cells".to_string()));
    let e = convert_notebook(&python(), &Json::Array(vec![]), "").unwrap_err();
    assert_eq!(e.kind, unexpected(JsonShape::Array, None));
    let e = convert_notebook(&python(), &object(vec![("cells", object(vec![]))]), "").unwrap_err();
    assert_eq!(e.kind, unexpected(JsonShape::Array, Some(JsonShape::Object)));
}

#[test]
fn kernel_language_is_read_from_the_metadata() {
    let notebook = object(vec![(
        "metadata",
        object(vec![("kernelspec", object(vec![("language", s("R"))]))]),
    )]);
    assert_eq!(kernel_language(&notebook), Ok("R".to_string()));
}

#[test]
fn kernel_language_fails_on_each_missing_step() {
    let e = kernel_language(&Json::Null).unwrap_err();
    assert_eq!(e.kind, unexpected(JsonShape::Object, Some(JsonShape::Null)));
    assert_eq!(e.msg, Some("notebook".to_string()));
    let e = kernel_language(&object(vec![])).unwrap_err();
    assert_eq!(e.kind, unexpected(JsonShape::Object, None));
    assert_eq!(e.msg, Some("metadata".to_string()));
    let e = kernel_language(&object(vec![("metadata", object(vec![]))])).unwrap_err();
    assert_eq!(e.msg, Some("kernelspec".to_string()));
    let e = kernel_language(&object(vec![(
        "metadata",
        object(vec![("kernelspec", object(vec![("language", n("3"))]))]),
    )]))
    .unwrap_err();
    assert_eq!(e.kind, unexpected(JsonShape::Str, Some(JsonShape::Number)));
    assert_eq!(e.msg, Some("language".to_string()));
}

#[test]
fn overview_of_a_notebook_in_verbose_mode() {
    let notebook = object(vec![
        ("cells", Json::Array(vec![])),
        ("metadata", object(vec![])),
        ("nbformat", n("4")),
        ("nbformat_minor", n("5")),
    ]);
    let ctx = Context { verbose: true, lang: "python".to_string() };
    assert_eq!(
        notebook_overview(&ctx, &notebook),
        Ok(vec![
            "Notebook with keys [\"cells\", \"metadata\", \"nbformat\", \"nbformat_minor\"]"
                .to_string(),
            "Version: 4.5".to_string(),
            "=> Well-formed!".to_string(),
            "Language: python".to_string(),
        ])
    );
}

#[test]
fn overview_is_silent_unless_verbose() {
    assert_eq!(notebook_overview(&python(), &object(vec![])), Ok(vec![]));
}

#[test]
fn overview_reports_a_value_that_is_no_notebook() {
    let expected = Ok(vec!["Unknown notebook format!".to_string()]);
    assert_eq!(notebook_overview(&python(), &Json::Array(vec![])), expected);
    let verbose = Context { verbose: true, lang: String::new() };
    assert_eq!(notebook_overview(&verbose, &Json::Null), expected);
}

#[test]
fn overview_needs_the_format_version() {
    let verbose = Context { verbose: true, lang: "python".to_string() };
    let e = notebook_overview(&verbose, &object(vec![("nbformat_minor", n("5"))])).unwrap_err();
    assert_eq!(e.kind, unexpected(JsonShape::Number, None));
    assert_eq!(e.msg, Some("nbformat".to_string()));
    let e = notebook_overview(&verbose, &object(vec![("nbformat", n("4")), ("nbformat_minor", s("5"))]))
        .unwrap_err();
    assert_eq!(e.kind, unexpected(JsonShape::Number, Some(JsonShape::Str)));
    assert_eq!(e.msg, Some("nbformat_minor".to_string()));
}

#[test]
fn overview_of_a_parsed_notebook_names_every_key() {
    let notebook = parse_notebook(NOTEBOOK).unwrap();
    let ctx = Context { verbose: true, lang: kernel_language(&notebook).unwrap() };
    let found = notebook_overview(&ctx, &notebook).unwrap();
    assert_eq!(found.len(), 4);
    assert!(found[0].starts_with("Notebook with keys [\""), "{}", found[0]);
    assert!(found[0].ends_with("\"]"), "{}", found[0]);
    for key in ["\"cells\"", "\"metadata\"", "\"nbformat\"", "\"nbformat_minor\""] {
        assert!(found[0].contains(key), "{}", found[0]);
    }
    assert_eq!(found[1], "Version: 4.5");
    assert_eq!(found[3], "Language: python");
}

#[test]
fn keys_are_listed_in_their_order() {
    assert_eq!(list_keys(&object(vec![])), "");
    assert_eq!(list_keys(&object(vec![("only", Json::Null)])), "\"only\"");
    assert_eq!(
        list_keys(&object(vec![("b", Json::Null), ("a", Json::Null), ("b", Json::Null)])),
        "\"b\", \"a\", \"b\""
    );
    assert_eq!(list_keys(&s("x")), "");
}

#[test]
fn keys_are_listed_as_debug_prints_a_list() {
    let keys = vec!["plain", "text/plain", "with \"quote\"", "line\nbreak", ""];
    let notebook = object(keys.iter().map(|k| (*k, Json::Null)).collect());
    assert_eq!(format!("[{}]", list_keys(&notebook)), format!("{:?}", keys));
}

#[test]
fn names_are_listed_with_comma_and_space() {
    assert_eq!(list_names(&vec![]), "");
    assert_eq!(list_names(&vec!["a".to_string()]), "a");
    assert_eq!(list_names(&vec!["a".to_string(), String::new(), "c".to_string()]), "a, , c");
}

fn head(nbformat: Json, nbformat_minor: Json, language: Json) -> Json {
    object(vec![
        ("nbformat", nbformat),
        ("nbformat_minor", nbformat_minor),
        ("metadata", object(vec![("kernelspec", object(vec![("language", language)]))])),
    ])
}

#[test]
fn context_of_a_well_formed_notebook() {
    let notebook = head(n("4"), n("2"), s("julia"));
    assert_eq!(
        notebook_context(&notebook, true),
        Ok(Context { verbose: true, lang: "julia".to_string() })
    );
    assert_eq!(
        notebook_context(&notebook, false),
        Ok(Context { verbose: false, lang: "julia".to_string() })
    );
}

#[test]
fn context_needs_the_format_version_and_the_language() {
    let e = notebook_context(&s("notebook"), false).unwrap_err();
    assert_eq!(e.kind, unexpected(JsonShape::Object, Some(JsonShape::Str)));
    assert_eq!(e.msg, Some("notebook".to_string()));
    let e = notebook_context(&object(vec![]), false).unwrap_err();
    assert_eq!(e.kind, unexpected(JsonShape::Number, None));
    assert_eq!(e.msg, Some("nbformat".to_string()));
    let e = notebook_context(&head(n("4"), Json::Null, s("python")), false).unwrap_err();
    assert_eq!(e.kind, unexpected(JsonShape::Number, Some(JsonShape::Null)));
    assert_eq!(e.msg, Some("nbformat_minor".to_string()));
    let e = notebook_context(&head(n("4"), n("5"), Json::Bool(true)), false).unwrap_err();
    assert_eq!(e.kind, unexpected(JsonShape::Str, Some(JsonShape::Bool)));
    assert_eq!(e.msg, Some("language".to_string()));
    let bare = object(vec![("nbformat", n("4")), ("nbformat_minor", n("5"))]);
    let e = notebook_context(&bare, false).unwrap_err();
    assert_eq!(e.kind, unexpected(JsonShape::Object, None));
    assert_eq!(e.msg, Some("metadata".to_string()));
}

const ANALYSIS: &str = r###"{
 "cells": [
  {"cell_type": "markdown", "metadata": {}, "source": ["## Loading the data\n", "\n", "We read `data.csv` first."]},
  {"cell_type": "code", "execution_count": 3, "metadata": {},
   "outputs": [
    {"name": "stderr", "output_type": "stream", "text": ["warning: slow\n"]},
    {"output_type": "display_data", "metadata": {}, "data": {"image/png": "iVBORw0KGgo=", "text/plain": ["<Figure>"]}},
    {"output_type": "execute_result", "execution_count": 3, "metadata": {},
     "data": {"text/html": ["<b>3</b>"], "text/plain": ["   a  b\n", "0  1  2"]}}
   ],
   "source": ["import pandas as pd\n", "df = pd.read_csv('data.csv')\n", "df"]},
  {"cell_type": "raw", "metadata": {}, "source": ["not shown"]},
  {"cell_type": "code", "execution_count": 4, "metadata": {},
   "outputs": [{"name": "stdout", "output_type": "stream", "text": ["\u00e9t\u00e9\n"]}],
   "source": ["print('\u00e9t\u00e9')"]},
  {"cell_type": "code", "execution_count": 5, "metadata": {}, "outputs": [], "source": []}
 ],
 "metadata": {"kernelspec": {"display_name": "Python 3", "language": "python", "name": "python3"},
              "language_info": {"name": "python", "version": "3.11.2"}},
 "nbformat": 4,
 "nbformat_minor": 5
}"###;

fn badge(count: &str) -> String {
    format!(
        "\n#move(align(right, box(text([[{}]], fill: blue), fill: red, inset: 0pt, height: 0pt)), dx: -25pt, dy: 10pt)\n",
        count
    )
}

#[test]
fn notebook_with_several_kinds_of_cells_and_outputs() {
    let notebook = parse_notebook(ANALYSIS).unwrap();
    let ctx = notebook_context(&notebook, false).unwrap();
    let document = convert_notebook(&ctx, &notebook, DOCUMENT_ROOT).unwrap();
    let expected = [
        DOCUMENT_ROOT.to_string(),
        "== Loading the data\n\nWe read `data.csv` first.\n".to_string(),
        badge("3"),
        "#codeblock(lang: \"python\", `import pandas as pd\ndf = pd.read_csv('data.csv')\ndf`.text)\n".to_string(),
        "#resultblock(`   a  b\n0  1  2`.text)\n\n".to_string(),
        badge("4"),
        "#codeblock(lang: \"python\", `print('\u{e9}t\u{e9}')`.text)\n".to_string(),
        "#resultblock(`\u{e9}t\u{e9}\n`.text)\n\n".to_string(),
        badge("5"),
        "#codeblock(lang: \"python\", ``.text)\n".to_string(),
        "#resultblock(``.text)\n\n".to_string(),
    ]
    .concat();
    assert_eq!(document, expected);
}
