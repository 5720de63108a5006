use rustdown::html::ToHtml;
use rustdown::paragraph::Paragraph;
use rustdown::paragraph::parse_paragraph;

fn strings(lines: &[&str]) -> Vec<String> {
    lines.iter().map(|s| s.to_string()).collect()
}

fn paragraph_equals(input: &str, result: &str) {
    assert_eq!(Paragraph::new(input.to_string()).to_html().to_string(), result.to_string());
}

#[test]
fn test_making_paragraphs() {
    paragraph_equals("Hello, World", "<p>Hello, World</p>");
    paragraph_equals("Hello,\nWorld", "<p>Hello,\nWorld</p>");
}

#[test]
fn paragraph_text_is_escaped_once() {
    paragraph_equals("<h2>x</h2>", "<p>&lt;h2&gt;x&lt;/h2&gt;</p>");
    paragraph_equals("&<>\"'", "<p>&amp;&lt;&gt;&quot;&#39;</p>");
}

#[test]
fn parsing_joins_lines_and_trims() {
    assert_eq!(parse_paragraph(&strings(&["  a ", "b  "])).contents, "a \nb".to_string());
    assert_eq!(parse_paragraph(&strings(&["one"])).contents, "one".to_string());
    assert_eq!(parse_paragraph(&strings(&[])).contents, "".to_string());
}
