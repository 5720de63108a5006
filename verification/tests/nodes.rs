use rustdown::html::Html;
use rustdown::html::HtmlAttribute;
use rustdown::html::HtmlContents;

#[test]
fn empty_tag_is_self_closing() {
    let html = Html::new_empty("br".to_string());
    assert_eq!(html.to_string(), "<br />".to_string());
}

#[test]
fn adding_strings_and_tags() {
    let mut html = Html::new_empty("p".to_string());
    html.add_string("Hi ".to_string());
    html.add_tag(Html::new_simple("em".to_string(), "there".to_string()));
    assert_eq!(html.to_string(), "<p>Hi <em>there</em></p>".to_string());
}

#[test]
fn attributes_are_written_space_separated_and_escaped() {
    let attrs = vec![HtmlAttribute { name: "href".to_string(), contents: "a&b".to_string() }];
    let contents = vec![HtmlContents::Bare("link".to_string())];
    let html = Html::new("a".to_string(), Some(contents), attrs);
    assert_eq!(html.to_string(), "<a href=a&amp;b>link</a>".to_string());
}

#[test]
fn slicing_contents() {
    let html = Html::new_simple("p".to_string(), "text".to_string());
    assert_eq!(html.slice_contents().unwrap().len(), 1);
    let empty = Html::new_empty("br".to_string());
    assert!(empty.slice_contents().is_none());
}

#[test]
fn new_simple_escapes_only_at_serialization() {
    let html = Html::new_simple("p".to_string(), "a < b".to_string());
    match html.slice_contents().unwrap() {
        [HtmlContents::Bare(s)] => assert_eq!(s, "a < b"),
        _ => panic!("expected one bare content"),
    }
    assert_eq!(html.to_string(), "<p>a &lt; b</p>".to_string());
}
