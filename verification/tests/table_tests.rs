use gcli::app::App;
use gcli::sheets::SheetMeta;
use gcli::table::Highlight;

fn app(rows: Vec<Vec<&str>>) -> App {
    let mut a = App::new(vec![SheetMeta { id: 0, title: "T".to_string() }]);
    a.load_current_sheet(rows.into_iter().map(|r| r.into_iter().map(|s| s.to_string()).collect()).collect());
    a
}

#[test]
fn no_table_without_data() {
    let a = app(vec![]);
    assert!(a.table_renderable());
    assert!(a.table_layout().is_none());
}

#[test]
fn first_page_skips_the_header_row() {
    let mut a = app(vec![vec!["H1", "H2"], vec!["a", "b"], vec!["c"]]);
    a.selected_row = Some(1);
    a.selected_col = Some(2);
    assert!(a.table_renderable());
    let t = a.table_layout().unwrap();
    assert_eq!(t.title, "T");
    assert_eq!(t.header, vec!["(A) H1", "(B) H2"]);
    assert_eq!(t.rows.len(), 2);
    assert_eq!(t.rows[0].index, 1);
    assert_eq!(t.rows[0].label, "1");
    assert_eq!(t.rows[0].cells[0].text, "a");
    assert_eq!(t.rows[0].cells[0].highlight, Highlight::Row);
    assert_eq!(t.rows[0].cells[1].highlight, Highlight::Cell);
    assert_eq!(t.rows[1].cells[1].text, "");
    assert_eq!(t.rows[1].cells[1].highlight, Highlight::Plain);
}

#[test]
fn paging_windows() {
    let mut a = app(vec![vec!["a", "b", "c"], vec!["1", "2", "3"], vec!["4", "5", "6"], vec!["7", "8", "9"]]);
    a.page_size_rows = 2;
    a.page_size_cols = 2;
    a.row_page = 2;
    a.col_page = 2;
    let t = a.table_layout().unwrap();
    assert_eq!(t.header, vec!["(C) c"]);
    assert_eq!(t.rows.len(), 2);
    assert_eq!(t.rows[0].index, 2);
    assert_eq!(t.rows[0].cells[0].text, "6");
    assert_eq!(t.start_col, 2);
    assert_eq!(t.end_col, 3);
}

#[test]
fn long_cells_are_shortened() {
    let long = "abcdefghijklmnopqrstuvwxyz0123456789";
    let a = app(vec![vec!["h"], vec![long]]);
    let t = a.table_layout().unwrap();
    assert_eq!(t.rows[0].cells[0].text, "abcdefghijklmnopqrstuvwxyz0...");
    let exact = "abcdefghijklmnopqrstuvwxyz0123";
    let a = app(vec![vec!["h"], vec![exact]]);
    assert_eq!(a.table_layout().unwrap().rows[0].cells[0].text, exact);
}

#[test]
fn unshortenable_cells_and_bad_pages_are_refused() {
    let bad = "abcdefghijklmnopqrstuvwxyzé0123456";
    let a = app(vec![vec!["h"], vec![bad]]);
    assert!(!a.table_renderable());
    let mut b = app(vec![vec!["h"], vec!["x"]]);
    b.row_page = 0;
    assert!(!b.table_renderable());
}

#[test]
fn shown_cells_fit_in_thirty_bytes() {
    let wide = format!("a{}", "é".repeat(20));
    let a = app(vec![vec!["h"], vec![wide.as_str()], vec!["short"]]);
    assert!(a.table_renderable());
    let t = a.table_layout().unwrap();
    assert_eq!(t.rows[0].cells[0].text, format!("a{}...", "é".repeat(13)));
    for row in &t.rows {
        for cell in &row.cells {
            assert!(cell.text.len() <= 30);
        }
    }
}

#[test]
fn every_row_is_on_exactly_one_page() {
    let rows: Vec<Vec<&str>> = vec![vec!["h"], vec!["1"], vec!["2"], vec!["3"], vec!["4"], vec!["5"], vec!["6"]];
    let mut a = app(rows);
    a.page_size_rows = 2;
    let mut seen: Vec<usize> = Vec::new();
    for page in 1..=5 {
        a.row_page = page;
        assert!(a.table_renderable());
        for row in a.table_layout().unwrap().rows {
            assert_eq!(page, row.index / 2 + 1);
            seen.push(row.index);
        }
    }
    assert_eq!(seen, vec![1, 2, 3, 4, 5, 6]);
}
