use rustdown::heading::Heading;
use rustdown::heading::line_heading;
use rustdown::heading::parse_heading;
use rustdown::heading::pound_heading;
use rustdown::html::ToHtml;

fn strings(lines: &[&str]) -> Vec<String> {
    lines.iter().map(|s| s.to_string()).collect()
}

fn pound_heading_equals(input: &str, result: &str) {
    let block = strings(&[input]);
    match pound_heading(&block) {
        Some(heading) => {
            assert_eq!(heading.to_html().to_string(), result.to_string());
        }
        None => {
            panic!("Didn't count as a heading")
        }
    }
}

#[test]
fn test_pound_heads() {
    assert_eq!(
        pound_heading(&strings(&["# Hello, world"])),
        Some(Heading::new("Hello, world".to_string(), 1))
    );
    assert_eq!(
        pound_heading(&strings(&["## Hello again, world!"])),
        Some(Heading::new("Hello again, world!".to_string(), 2))
    );
}

#[test]
fn test_pound_heads_fmt() {
    pound_heading_equals("# Hello, world", "<h1>Hello, world</h1>");
    pound_heading_equals("## Hello again, world!", "<h2>Hello again, world!</h2>");
    pound_heading_equals(
        "## <h2>Hello again, world!</h2>",
        "<h2>&lt;h2&gt;Hello again, world!&lt;/h2&gt;</h2>",
    );
}

#[test]
fn test_non_pound_heads() {
    assert_eq!(pound_heading(&strings(&["Hello, world"])), None);
    assert_eq!(pound_heading(&strings(&[" ## Hello, world"])), None);
}

#[test]
fn pound_heading_edges() {
    assert_eq!(pound_heading(&strings(&["#"])), Some(Heading::new("".to_string(), 1)));
    assert_eq!(pound_heading(&strings(&["###x"])), Some(Heading::new("x".to_string(), 3)));
    assert_eq!(
        pound_heading(&strings(&["# a # b"])),
        Some(Heading::new("a # b".to_string(), 1))
    );
    assert_eq!(pound_heading(&strings(&["# two", "# lines"])), None);
}

#[test]
fn underline_heads() {
    assert_eq!(
        line_heading(&strings(&["Hello", "====="])),
        Some(Heading::new("Hello".to_string(), 1))
    );
    assert_eq!(
        line_heading(&strings(&["Hello", "-----"])),
        Some(Heading::new("Hello".to_string(), 2))
    );
    assert_eq!(line_heading(&strings(&["Hello", "="])), Some(Heading::new("Hello".to_string(), 1)));
}

#[test]
fn underline_heads_that_do_not_match() {
    assert_eq!(line_heading(&strings(&["Hello", " ====="])), None);
    assert_eq!(line_heading(&strings(&["Hello", "===-="])), None);
    assert_eq!(line_heading(&strings(&["Hello", ""])), None);
    assert_eq!(line_heading(&strings(&["Hello"])), None);
    assert_eq!(line_heading(&strings(&["a", "b", "====="])), None);
}

#[test]
fn parse_heading_tries_pound_first() {
    assert_eq!(
        parse_heading(&strings(&["## Title"])),
        Some(Heading::new("Title".to_string(), 2))
    );
    assert_eq!(
        parse_heading(&strings(&["Title", "===="])),
        Some(Heading::new("Title".to_string(), 1))
    );
    assert_eq!(parse_heading(&strings(&["just text"])), None);
}

#[test]
fn deep_heading_levels_render() {
    let heading = Heading::new("deep".to_string(), 12);
    assert_eq!(heading.to_html().to_string(), "<h12>deep</h12>".to_string());
}
