use rustdown::bulletlist::Bullet;
use rustdown::bulletlist::BulletElement;
use rustdown::bulletlist::BulletList;
use rustdown::bulletlist::parse_bulletlist;
use rustdown::html::ToHtml;

fn strings(lines: &[&str]) -> Vec<String> {
    lines.iter().map(|s| s.to_string()).collect()
}

#[test]
fn test_bullet_fmt() {
    let bullet = Bullet::new("Hello, world".to_string());
    assert_eq!(bullet.to_html().to_string(), "<li>Hello, world</li>".to_string());
}

#[test]
fn test_nested_bullets() {
    let mut bullets = BulletList::new_unordered();
    bullets.push(BulletElement::Lone(Bullet::new("Hello".to_string())));
    bullets.push(BulletElement::Lone(Bullet::new("World".to_string())));
    assert_eq!(bullets.to_html().to_string(), "<ul><li>Hello</li><li>World</li></ul>".to_string());
}

#[test]
fn test_parse_bullet_list() {
    let s = strings(&["- One", "- Two"]);
    let parsed = parse_bulletlist(&s);
    let mut bullets = BulletList::new_unordered();
    bullets.push(BulletElement::Lone(Bullet::new("One".to_string())));
    bullets.push(BulletElement::Lone(Bullet::new("Two".to_string())));
    assert_eq!(parsed.unwrap(), bullets);
}

#[test]
fn mixed_markers_fail() {
    assert_eq!(parse_bulletlist(&strings(&["- One", "* Two"])), None);
    assert_eq!(parse_bulletlist(&strings(&["* One", "- Two"])), None);
}

#[test]
fn star_markers_parse() {
    let parsed = parse_bulletlist(&strings(&["* One", "* Two"]));
    let mut bullets = BulletList::new_unordered();
    bullets.push(BulletElement::Lone(Bullet::new("One".to_string())));
    bullets.push(BulletElement::Lone(Bullet::new("Two".to_string())));
    assert_eq!(parsed.unwrap(), bullets);
}

#[test]
fn indented_bullets_parse() {
    let parsed = parse_bulletlist(&strings(&["  - One", "\t-   Two"]));
    let mut bullets = BulletList::new_unordered();
    bullets.push(BulletElement::Lone(Bullet::new("One".to_string())));
    bullets.push(BulletElement::Lone(Bullet::new("Two".to_string())));
    assert_eq!(parsed.unwrap(), bullets);
}

#[test]
fn non_bullet_blocks_fail() {
    assert_eq!(parse_bulletlist(&strings(&[])), None);
    assert_eq!(parse_bulletlist(&strings(&["plain text"])), None);
    assert_eq!(parse_bulletlist(&strings(&["- One", "no marker"])), None);
    assert_eq!(parse_bulletlist(&strings(&["- One", "  "])), None);
}

#[test]
fn numeric_bullet_indentation() {
    assert_eq!(
        BulletList::is_numeric_bullet("    - item".to_string()),
        Some(("- item".to_string(), 4))
    );
    assert_eq!(BulletList::is_numeric_bullet("   - item".to_string()), None);
    assert_eq!(BulletList::is_numeric_bullet("- item".to_string()), None);
}

#[test]
fn nested_sublists_render() {
    let mut inner = BulletList::new_unordered();
    inner.push(BulletElement::Lone(Bullet::new("inner".to_string())));
    let mut outer = BulletList::new_unordered();
    outer.push(BulletElement::Lone(Bullet::new("outer".to_string())));
    outer.push(BulletElement::Nested(inner));
    assert_eq!(
        outer.to_html().to_string(),
        "<ul><li>outer</li><ul><li>inner</li></ul></ul>".to_string()
    );
}

#[test]
fn empty_list_renders_self_closing() {
    let bullets = BulletList::new_unordered();
    assert_eq!(bullets.to_html().to_string(), "<ul />".to_string());
}

#[test]
fn bullet_text_is_escaped_on_render() {
    let mut bullets = BulletList::new_unordered();
    bullets.push_string("a & b".to_string());
    assert_eq!(bullets.to_html().to_string(), "<ul><li>a &amp; b</li></ul>".to_string());
}
