use jupyter2typst::error::{J2TError, J2TErrorKind};
use jupyter2typst::mdast::{
    convert_markdown_to_typst, markdown_to_typst, typst_of_parsed, MdNode,
};

fn text(value: &str) -> MdNode {
    MdNode::Text { value: value.to_string() }
}

fn translated(node: &MdNode) -> String {
    let mut out = String::new();
    markdown_to_typst(node, &mut out);
    out
}

#[test]
fn heading_of_depth_three_has_three_markers() {
    let node = MdNode::Heading { depth: 3, children: vec![text("Results")] };
    assert_eq!(translated(&node), "=== Results\n\n");
}

#[test]
fn heading_of_depth_one_and_six() {
    let one = MdNode::Heading { depth: 1, children: vec![text("a")] };
    let six = MdNode::Heading { depth: 6, children: vec![text("b"), text("c")] };
    assert_eq!(translated(&one), "= a\n\n");
    assert_eq!(translated(&six), "====== bc\n\n");
}

#[test]
fn heading_of_depth_zero_has_no_marker() {
    let node = MdNode::Heading { depth: 0, children: vec![] };
    assert_eq!(translated(&node), " \n\n");
}

#[test]
fn paragraph_ends_with_one_newline() {
    let node = MdNode::Paragraph { children: vec![text("one "), text("two")] };
    assert_eq!(translated(&node), "one two\n");
}

#[test]
fn text_is_written_verbatim() {
    assert_eq!(translated(&text("#let x = [*a*] $ \\")), "#let x = [*a*] $ \\");
}

#[test]
fn inline_code_is_wrapped_in_backticks() {
    let node = MdNode::InlineCode { value: "x + 1".to_string() };
    assert_eq!(translated(&node), "`x + 1`");
}

#[test]
fn code_block_with_language() {
    let node = MdNode::Code { lang: Some("rust".to_string()), value: "fn main() {}".to_string() };
    assert_eq!(translated(&node), "```rust\nfn main() {}```\n");
}

#[test]
fn code_block_without_language() {
    let node = MdNode::Code { lang: None, value: "a\nb".to_string() };
    assert_eq!(translated(&node), "```\na\nb```\n");
}

#[test]
fn unsupported_node_translates_into_nothing() {
    assert_eq!(translated(&MdNode::Unsupported), "");
    let node = MdNode::Paragraph { children: vec![text("a"), MdNode::Unsupported, text("b")] };
    assert_eq!(translated(&node), "ab\n");
}

#[test]
fn root_joins_children_without_separator() {
    let node = MdNode::Root {
        children: vec![
            MdNode::Heading { depth: 2, children: vec![text("T")] },
            MdNode::Paragraph { children: vec![text("p")] },
            MdNode::Paragraph { children: vec![text("q")] },
        ],
    };
    assert_eq!(translated(&node), "== T\n\np\nq\n");
}

#[test]
fn empty_root_translates_into_nothing() {
    assert_eq!(translated(&MdNode::Root { children: vec![] }), "");
}

#[test]
fn translation_is_appended_to_what_is_there() {
    let mut out = String::from("before|");
    markdown_to_typst(&text("after"), &mut out);
    assert_eq!(out, "before|after");
}

#[test]
fn nested_tree_is_walked_in_order() {
    let node = MdNode::Root {
        children: vec![MdNode::Root {
            children: vec![
                MdNode::Paragraph {
                    children: vec![text("see "), MdNode::InlineCode { value: "f".to_string() }],
                },
                MdNode::Code { lang: None, value: "x".to_string() },
            ],
        }],
    };
    assert_eq!(translated(&node), "see `f`\n```\nx```\n");
}

#[test]
fn markdown_heading_is_parsed_and_translated() {
    assert_eq!(convert_markdown_to_typst("# Title"), Ok("= Title\n\n".to_string()));
    assert_eq!(convert_markdown_to_typst("### Deep"), Ok("=== Deep\n\n".to_string()));
}

#[test]
fn markdown_paragraph_with_inline_code() {
    assert_eq!(
        convert_markdown_to_typst("Call `run()` now"),
        Ok("Call `run()` now\n".to_string())
    );
}

#[test]
fn markdown_fenced_code_keeps_its_language() {
    assert_eq!(
        convert_markdown_to_typst("```python\nprint(1)\n```"),
        Ok("```python\nprint(1)```\n".to_string())
    );
}

#[test]
fn markdown_heading_then_paragraph() {
    assert_eq!(
        convert_markdown_to_typst("## Intro\n\nSome text."),
        Ok("== Intro\n\nSome text.\n".to_string())
    );
}

#[test]
fn markdown_emphasis_is_dropped() {
    assert_eq!(convert_markdown_to_typst("*loud*"), Ok("\n".to_string()));
}

#[test]
fn markdown_list_is_dropped() {
    assert_eq!(convert_markdown_to_typst("- one\n- two"), Ok(String::new()));
}

#[test]
fn empty_markdown_is_empty_markup() {
    assert_eq!(convert_markdown_to_typst(""), Ok(String::new()));
}

#[test]
fn parser_message_becomes_md_failure() {
    let e = J2TError::from("1:1: unexpected".to_string());
    assert_eq!(e.kind, J2TErrorKind::Md("1:1: unexpected".to_string()));
    assert_eq!(e.msg, None);
}

#[test]
fn parsed_tree_is_translated() {
    let tree = MdNode::Root { children: vec![MdNode::Heading { depth: 1, children: vec![text("T")] }] };
    assert_eq!(typst_of_parsed(Ok(tree)), Ok("= T\n\n".to_string()));
}

#[test]
fn parser_failure_ends_the_translation() {
    let e = typst_of_parsed(Err("2:1: Unexpected end of file".to_string())).unwrap_err();
    assert_eq!(e.kind, J2TErrorKind::Md("2:1: Unexpected end of file".to_string()));
    assert_eq!(e.msg, None);
    assert_eq!(e.message(), " (Md(\"2:1: Unexpected end of file\"))");
}
