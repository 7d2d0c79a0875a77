use asg::csv::read_csv_file;

#[test]
fn rows_and_cells_parse() {
    let rows = read_csv_file("a,b\nc,d");
    assert_eq!(rows.len(), 2);
    assert_eq!(rows[0], vec!["a", "b"]);
    assert_eq!(rows[1], vec!["c", "d"]);
}

#[test]
fn empty_cells_and_rows_are_dropped() {
    let rows = read_csv_file("a,,b\n\n,\nc\n");
    assert_eq!(rows.len(), 2);
    assert_eq!(rows[0], vec!["a", "b"]);
    assert_eq!(rows[1], vec!["c"]);
}

#[test]
fn empty_content_has_no_rows() {
    let rows = read_csv_file("");
    assert_eq!(rows.len(), 0);
}

#[test]
fn windows_line_endings_are_handled() {
    let rows = read_csv_file("a,b\r\nc\r\n");
    assert_eq!(rows.len(), 2);
    assert_eq!(rows[0], vec!["a", "b"]);
    assert_eq!(rows[1], vec!["c"]);
}
