use openrust_core::width::{build_table, textarea_display_col, ColumnAlign, TablePart, TableSpan};

fn lines_of(v: &[&str]) -> Vec<String> {
    v.iter().map(|s| s.to_string()).collect()
}

fn grid_of(rows: &[&[&str]]) -> Vec<Vec<String>> {
    rows.iter().map(|r| r.iter().map(|c| c.to_string()).collect()).collect()
}

fn texts(line: &[TableSpan]) -> Vec<String> {
    line.iter().map(|s| s.text.clone()).collect()
}

#[test]
fn display_col_counts_ascii_columns() {
    let lines = lines_of(&["hello", "world"]);
    assert_eq!(textarea_display_col(&lines, 0, 3), 3);
    assert_eq!(textarea_display_col(&lines, 1, 5), 5);
}

#[test]
fn display_col_counts_wide_characters_twice() {
    let lines = lines_of(&["日本語x"]);
    assert_eq!(textarea_display_col(&lines, 0, 2), 4);
    assert_eq!(textarea_display_col(&lines, 0, 4), 7);
}

#[test]
fn display_col_past_end_of_line_stops_at_line_width() {
    let lines = lines_of(&["ab"]);
    assert_eq!(textarea_display_col(&lines, 0, 10), 2);
}

#[test]
fn display_col_counts_control_characters_as_one() {
    let lines = lines_of(&["a\tb"]);
    assert_eq!(textarea_display_col(&lines, 0, 3), 3);
}

#[test]
fn display_col_without_row_is_the_column() {
    let lines = lines_of(&["abc"]);
    assert_eq!(textarea_display_col(&lines, 4, 7), 7);
    assert_eq!(textarea_display_col(&Vec::new(), 0, 2), 2);
}

#[test]
fn table_pads_columns_and_rules_header() {
    let grid = grid_of(&[&["A", "B"], &["10", "2"]]);
    let lines = build_table(&grid, &vec![ColumnAlign::Unset, ColumnAlign::Unset]);
    assert_eq!(lines.len(), 3);
    assert_eq!(texts(&lines[0]), vec!["A ", " │ ", "B"]);
    assert!(matches!(lines[0][0].part, TablePart::Header));
    assert!(matches!(lines[0][1].part, TablePart::Rule));
    assert_eq!(texts(&lines[1]), vec!["───┼──"]);
    assert!(matches!(lines[1][0].part, TablePart::Rule));
    assert_eq!(texts(&lines[2]), vec!["10", " │ ", "2"]);
    assert!(matches!(lines[2][2].part, TablePart::Body));
}

#[test]
fn table_aligns_right_and_center() {
    let grid = grid_of(&[&["head", "mid"], &["x", "y"]]);
    let lines = build_table(&grid, &vec![ColumnAlign::Right, ColumnAlign::Center]);
    assert_eq!(texts(&lines[2]), vec!["   x", " │ ", " y "]);
    let grid = grid_of(&[&["abcd"], &["x"]]);
    let lines = build_table(&grid, &vec![ColumnAlign::Center]);
    assert_eq!(texts(&lines[2]), vec![" x  "]);
}

#[test]
fn table_fills_short_rows_with_empty_cells() {
    let grid = grid_of(&[&["a", "b", "c"], &["1"]]);
    let lines = build_table(&grid, &Vec::new());
    assert_eq!(texts(&lines[2]), vec!["1", " │ ", " ", " │ ", " "]);
}

#[test]
fn table_uses_display_width_of_wide_cells() {
    let grid = grid_of(&[&["名前"], &["a"]]);
    let lines = build_table(&grid, &vec![ColumnAlign::Left]);
    assert_eq!(texts(&lines[1]), vec!["────"]);
    assert_eq!(texts(&lines[2]), vec!["a   "]);
}

#[test]
fn empty_table_has_no_lines() {
    assert!(build_table(&Vec::new(), &vec![ColumnAlign::Left]).is_empty());
    let grid: Vec<Vec<String>> = vec![Vec::new()];
    assert!(build_table(&grid, &Vec::new()).is_empty());
}
