use rustdown::block::Block;
use rustdown::blocks::is_block_separator;
use rustdown::blocks::read_to_blocks;
use rustdown::lines::read_to_lines;

fn strings(lines: &[&str]) -> Vec<String> {
    lines.iter().map(|s| s.to_string()).collect()
}

#[test]
fn block_test_determining_block_separators() {
    assert!(is_block_separator(""));
    assert!(is_block_separator("    "));
    assert!(is_block_separator("\t"));
    assert!(!is_block_separator(" ## t"));
}

#[test]
fn blocks_test_determining_block_separators() {
    assert!(is_block_separator(""));
    assert!(is_block_separator("    "));
    assert!(is_block_separator("\t"));
    assert!(!is_block_separator(" ## t"));
}

#[test]
fn separators_with_terminators_and_mixes() {
    assert!(is_block_separator("\n"));
    assert!(is_block_separator("  \t \t\n"));
    assert!(!is_block_separator("a\n"));
    assert!(!is_block_separator(" \na"));
}

#[test]
fn segmenting_splits_on_blank_lines() {
    let blocks = read_to_blocks(&strings(&["a", "b", "", "c"]));
    assert_eq!(blocks.len(), 2);
    assert_eq!(blocks.iter()[0].iter(), &strings(&["a", "b"]));
    assert_eq!(blocks.iter()[1].iter(), &strings(&["c"]));
}

#[test]
fn segmenting_counts_separators_plus_one() {
    assert_eq!(read_to_blocks(&strings(&[])).len(), 1);
    assert_eq!(read_to_blocks(&strings(&["", ""])).len(), 3);
    assert_eq!(read_to_blocks(&strings(&["a", "", "b", "", "c"])).len(), 3);
    assert_eq!(read_to_blocks(&strings(&["", "a", ""])).len(), 3);
}

#[test]
fn segmenting_strips_trailing_newlines() {
    let blocks = read_to_blocks(&strings(&["a\n", "b\n"]));
    assert_eq!(blocks.len(), 1);
    assert_eq!(blocks.iter()[0].iter(), &strings(&["a", "b"]));
}

#[test]
fn block_constructors() {
    let block = Block::new(strings(&["a", "b"]));
    assert_eq!(block.len(), 2);
    let one = Block::new_oneline("only".to_string());
    assert_eq!(one.len(), 1);
    assert_eq!(one.iter(), &strings(&["only"]));
}

#[test]
fn splitting_text_into_lines() {
    assert_eq!(read_to_lines("a\nb"), strings(&["a", "b"]));
    assert_eq!(read_to_lines("a\nb\n"), strings(&["a", "b"]));
    assert_eq!(read_to_lines("a\r\nb\r\n"), strings(&["a", "b"]));
    assert_eq!(read_to_lines(""), strings(&[]));
    assert_eq!(read_to_lines("\n"), strings(&[""]));
    assert_eq!(read_to_lines("\n\n"), strings(&["", ""]));
}
