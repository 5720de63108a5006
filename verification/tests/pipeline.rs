use rustdown::blocks::read_to_blocks;
use rustdown::convert::convert;
use rustdown::convert::parse_block;
use rustdown::convert::render_document;
use rustdown::html::ToHtml;
use rustdown::lines::read_to_lines;
use rustdown::preprocessor::replace_tabs;
use rustdown::structure::MarkdownStructure;

fn strings(lines: &[&str]) -> Vec<String> {
    lines.iter().map(|s| s.to_string()).collect()
}

fn html_of(lines: &[&str]) -> String {
    let blocks = read_to_blocks(&strings(lines));
    let markdown = convert(blocks);
    render_document(&markdown)
}

#[test]
fn scenario_pound_heading() {
    assert_eq!(html_of(&["# Hello, world"]), "<h1>Hello, world</h1>".to_string());
}

#[test]
fn scenario_underline_heading() {
    assert_eq!(html_of(&["Hello", "====="]), "<h1>Hello</h1>".to_string());
}

#[test]
fn scenario_bullet_list() {
    assert_eq!(html_of(&["- One", "- Two"]), "<ul><li>One</li><li>Two</li></ul>".to_string());
}

#[test]
fn scenario_paragraph() {
    assert_eq!(html_of(&["Hello, World"]), "<p>Hello, World</p>".to_string());
}

#[test]
fn scenario_multiline_paragraph() {
    assert_eq!(html_of(&["Hello,", "World"]), "<p>Hello,\nWorld</p>".to_string());
}

#[test]
fn scenario_mixed_markers_fall_through() {
    assert_eq!(html_of(&["- One", "* Two"]), "<p>- One\n* Two</p>".to_string());
}

#[test]
fn empty_documents_render_empty_paragraphs() {
    assert_eq!(html_of(&[]), "<p></p>".to_string());
    assert_eq!(html_of(&["", "x"]), "<p></p><p>x</p>".to_string());
    assert_eq!(html_of(&["x", ""]), "<p>x</p><p></p>".to_string());
}

#[test]
fn documents_concatenate_without_separators() {
    assert_eq!(
        html_of(&["# Title", "", "body text", "", "- a", "- b"]),
        "<h1>Title</h1><p>body text</p><ul><li>a</li><li>b</li></ul>".to_string()
    );
}

#[test]
fn classification_is_total_on_every_block() {
    let cases: Vec<Vec<String>> = vec![
        strings(&[]),
        strings(&["# h"]),
        strings(&["t", "==="]),
        strings(&["- a"]),
        strings(&["plain"]),
        strings(&["- a", "* b"]),
    ];
    for lines in cases {
        let block = rustdown::block::Block::new(lines);
        let element = parse_block(&block);
        let html = element.to_html();
        assert!(!html.to_string().is_empty());
    }
}

#[test]
fn heading_priority_over_bullets() {
    assert_eq!(html_of(&["- item", "-----"]), "<h2>- item</h2>".to_string());
}

#[test]
fn classifier_output_variants() {
    let heading = parse_block(&rustdown::block::Block::new(strings(&["# h"])));
    assert!(matches!(heading, MarkdownStructure::MDH(_)));
    let bullets = parse_block(&rustdown::block::Block::new(strings(&["- a"])));
    assert!(matches!(bullets, MarkdownStructure::MDB(_)));
    let paragraph = parse_block(&rustdown::block::Block::new(strings(&[])));
    assert!(matches!(paragraph, MarkdownStructure::MDP(_)));
}

#[test]
fn full_pipeline_from_raw_text() {
    let text = "# Title\n\n\tindented paragraph\n\n- one\n- two\n";
    let lines = replace_tabs(&read_to_lines(text));
    let blocks = read_to_blocks(&lines);
    let markdown = convert(blocks);
    assert_eq!(
        render_document(&markdown),
        "<h1>Title</h1><p>indented paragraph</p><ul><li>one</li><li>two</li></ul>".to_string()
    );
}
