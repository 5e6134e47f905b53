use deploy_pipeline::table::{history_table, TableRow, TABLE_ROWS};

fn row(left_number: &str, left_name: &str, right_number: &str, right_name: &str) -> TableRow {
    TableRow {
        left_number: left_number.to_string(),
        left_name: left_name.to_string(),
        right_number: right_number.to_string(),
        right_name: right_name.to_string(),
    }
}

#[test]
fn empty_history_gives_ten_blank_rows() {
    let rows = history_table(&[]);
    assert_eq!(rows.len(), TABLE_ROWS);
    assert!(rows.iter().all(|r| *r == row("", "", "", "")));
}

#[test]
fn short_history_fills_the_first_column() {
    let history = vec!["v1.0.0.zip".to_string(), "v1.0.1.zip".to_string()];
    let rows = history_table(&history);
    assert_eq!(rows.len(), 10);
    assert_eq!(rows[0], row("1", "v1.0.0.zip", "", ""));
    assert_eq!(rows[1], row("2", "v1.0.1.zip", "", ""));
    assert_eq!(rows[2], row("", "", "", ""));
    assert_eq!(rows[9], row("", "", "", ""));
}

#[test]
fn long_history_fills_both_columns_and_stops_at_twenty() {
    let history: Vec<String> = (0..25).map(|i| format!("v1.0.{}.zip", i)).collect();
    let rows = history_table(&history);
    assert_eq!(rows.len(), 10);
    assert_eq!(rows[0], row("1", "v1.0.0.zip", "11", "v1.0.10.zip"));
    assert_eq!(rows[4], row("5", "v1.0.4.zip", "15", "v1.0.14.zip"));
    assert_eq!(rows[9], row("10", "v1.0.9.zip", "20", "v1.0.19.zip"));
}

#[test]
fn second_column_ends_where_the_history_ends() {
    let history: Vec<String> = (0..12).map(|i| format!("e{}", i)).collect();
    let rows = history_table(&history);
    assert_eq!(rows[1], row("2", "e1", "12", "e11"));
    assert_eq!(rows[2], row("3", "e2", "", ""));
}
