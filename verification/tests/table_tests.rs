use bevy_benchy::table::{print_markdown, rotate_table};

fn grid(rows: &[&[&str]]) -> Vec<Vec<String>> {
    rows.iter()
        .map(|row| row.iter().map(|cell| cell.to_string()).collect())
        .collect()
}

#[test]
fn table_rotation() {
    let table = vec![
        vec!["h1".to_string(), "h2".to_string(), "h3".to_string()],
        vec!["d1".to_string(), "d2".to_string(), "d3".to_string()],
    ];
    let rotated = rotate_table(&table);
    assert_eq!(
        rotated,
        vec![
            vec!["h1".to_string(), "d1".to_string()],
            vec!["h2".to_string(), "d2".to_string()],
            vec!["h3".to_string(), "d3".to_string()],
        ]
    )
}

#[test]
fn empty_table_rotation() {
    let table: Vec<Vec<String>> = vec![];
    let rotated = rotate_table(&table);
    assert_eq!(rotated, table);
}

#[test]
fn rotating_twice_gives_the_table_back() {
    let table = grid(&[&["a", "b", "c"], &["d", "e", "f"]]);
    let once = rotate_table(&table);
    assert_eq!(once.len(), 3);
    assert!(once.iter().all(|row| row.len() == 2));
    let twice = rotate_table(&once);
    assert_eq!(twice, table);
}

#[test]
fn rotating_rows_without_columns_gives_no_rows() {
    let table: Vec<Vec<String>> = vec![vec![], vec![]];
    let once = rotate_table(&table);
    assert!(once.is_empty());
    assert!(rotate_table(&once).is_empty());
}

#[test]
fn a_short_row_is_filled_with_empty_cells() {
    let table = grid(&[&["a", "b"], &["c"]]);
    assert_eq!(rotate_table(&table), grid(&[&["a", "c"], &["b", ""]]));
}

#[test]
fn empty_table_renders_nothing() {
    let table: Vec<Vec<String>> = vec![];
    assert_eq!(print_markdown(&table).len(), 0);
}

#[test]
fn header_is_followed_by_a_separator() {
    let table = grid(&[&["h1", "h2", "h3"], &["d1", "d2", "d3"], &["e1", "e2", "e3"]]);
    assert_eq!(
        print_markdown(&table),
        vec![
            "|h1|h2|h3|".to_string(),
            "|-|-|-|".to_string(),
            "|d1|d2|d3|".to_string(),
            "|e1|e2|e3|".to_string(),
        ]
    );
}

#[test]
fn a_header_alone_still_gets_its_separator() {
    let table = grid(&[&["only"]]);
    assert_eq!(print_markdown(&table), vec!["|only|".to_string(), "|-|".to_string()]);
}

#[test]
fn a_header_without_cells_renders_as_bars() {
    let table: Vec<Vec<String>> = vec![vec![]];
    assert_eq!(print_markdown(&table), vec!["||".to_string(), "||".to_string()]);
}
