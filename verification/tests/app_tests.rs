use gcli::app::{confirms, formula_value, App, CellAction, DEFAULT_PAGE_COLS, DEFAULT_PAGE_ROWS};
use gcli::json::JsonValue;
use gcli::sheets::SheetMeta;

fn sheets() -> Vec<SheetMeta> {
    vec![
        SheetMeta { id: 0, title: "Main".to_string() },
        SheetMeta { id: 7, title: "Other".to_string() },
    ]
}

fn app_with_data() -> App {
    let mut app = App::new(sheets());
    app.load_current_sheet(vec![
        vec!["Name".to_string(), "Age".to_string()],
        vec!["Ann".to_string(), "30".to_string()],
    ]);
    app
}

#[test]
fn a_new_app_starts_on_the_first_sheet() {
    let app = App::new(sheets());
    assert_eq!(app.current_sheet_idx, 0);
    assert!(app.data.is_empty());
    assert!(app.undo_stack.is_empty() && app.redo_stack.is_empty());
    assert_eq!(app.row_page, 1);
    assert_eq!(app.page_size_rows, DEFAULT_PAGE_ROWS);
    assert_eq!(app.current_title(), "Main");
}

#[test]
fn cell_values_from_the_cache() {
    let app = app_with_data();
    assert_eq!(app.get_cell_value(1, 1), "Name");
    assert_eq!(app.get_cell_value(2, 2), "30");
    assert_eq!(app.get_cell_value(0, 1), "");
    assert_eq!(app.get_cell_value(3, 1), "");
    assert_eq!(app.get_cell_value(2, 3), "");
}

#[test]
fn change_then_undo_then_redo() {
    let mut app = app_with_data();
    let w = app.prepare_change(1, 2, "31".to_string());
    assert_eq!(w.range, "Main!B2");
    assert_eq!(w.value, "31");
    assert_eq!(w.action.old_value, "30");
    // Row 2 of the data is sheet row 3, past the cached rows: it held nothing.
    assert_eq!(app.prepare_change(2, 2, "x".to_string()).action.old_value, "");
    assert_eq!(app.prepare_change(0, 1, "x".to_string()).action.old_value, "Name");
    app.apply_change(w.action, true);
    assert_eq!(app.undo_stack.len(), 1);
    assert!(app.redo_stack.is_empty());

    let u = app.undo().expect("something to undo");
    assert_eq!(u.range, "Main!B2");
    assert_eq!(u.value, "30");
    app.finish_undo(u.action);
    assert!(app.undo_stack.is_empty());
    assert_eq!(app.redo_stack.len(), 1);

    let r = app.redo().expect("something to redo");
    assert_eq!(r.range, "Main!B2");
    assert_eq!(r.value, "31");
    app.finish_redo(r.action);
    assert_eq!(app.undo_stack.len(), 1);
    assert!(app.redo_stack.is_empty());
}

#[test]
fn undo_goes_back_to_the_sheet_of_the_change() {
    let mut app = app_with_data();
    app.undo_stack.push(CellAction {
        sheet_idx: 1,
        row: 0,
        col: 1,
        old_value: "x".to_string(),
        new_value: "y".to_string(),
    });
    let u = app.undo().unwrap();
    assert_eq!(app.current_sheet_idx, 1);
    assert_eq!(u.range, "Other!A1");
}

#[test]
fn recording_clears_redo_and_unrecorded_changes_are_not_kept() {
    let mut app = app_with_data();
    let w = app.prepare_change(1, 1, "a".to_string());
    app.apply_change(w.action, true);
    let u = app.undo().unwrap();
    app.finish_undo(u.action);
    assert_eq!(app.redo_stack.len(), 1);
    let w2 = app.prepare_change(1, 1, "b".to_string());
    app.apply_change(w2.action, true);
    assert!(app.redo_stack.is_empty());
    let w3 = app.prepare_change(1, 1, "c".to_string());
    app.apply_change(w3.action, false);
    assert_eq!(app.undo_stack.len(), 1);
}

#[test]
fn nothing_to_undo_or_redo() {
    let mut app = app_with_data();
    assert!(app.undo().is_none());
    assert!(app.redo().is_none());
}

#[test]
fn formulas_use_the_prefix() {
    assert_eq!(formula_value("&?SUM(A1:A3)".to_string()), "=SUM(A1:A3)");
    assert_eq!(formula_value("plain &? text".to_string()), "plain &? text");
    assert_eq!(formula_value("&?".to_string()), "=");
}

#[test]
fn sheet_selection_and_options() {
    let mut app = app_with_data();
    assert!(app.select_sheet(2));
    assert_eq!(app.current_sheet_idx, 1);
    assert!(!app.select_sheet(0));
    assert!(!app.select_sheet(3));
    assert_eq!(app.current_sheet_idx, 1);
    app.cell_options = vec!["x".to_string(), "y".to_string()];
    assert_eq!(app.option_value(2).as_deref(), Some("y"));
    assert_eq!(app.option_value(0), None);
    assert_eq!(app.option_value(3), None);
}

#[test]
fn add_fills_from_the_left_and_from_the_right() {
    let mut app = app_with_data();
    app.selected_row = Some(4);
    let vals = vec!["a".to_string(), "&?1+1".to_string(), "c".to_string()];
    let w = app.add_targets(vals.clone(), false);
    let got: Vec<(usize, usize, String)> = w.into_iter().map(|c| (c.row, c.col, c.value)).collect();
    assert_eq!(got, vec![(4, 1, "a".to_string()), (4, 2, "=1+1".to_string())]);
    let w = app.add_targets(vals, true);
    let got: Vec<(usize, usize, String)> = w.into_iter().map(|c| (c.row, c.col, c.value)).collect();
    assert_eq!(got, vec![(4, 2, "a".to_string()), (4, 1, "=1+1".to_string())]);
    app.selected_row = None;
    let empty = App::new(sheets());
    let w = empty.add_targets(vec!["q".to_string()], false);
    assert_eq!((w[0].row, w[0].col), (1, 1));
}

#[test]
fn new_row_plan_copies_the_last_row() {
    let app = app_with_data();
    let p = app.new_row_plan();
    assert_eq!(p.title, "Main");
    assert_eq!(p.sheet_id, 0);
    assert_eq!(p.cols, 2);
    assert_eq!(p.copy_rows, Some((2, 3)));
    let empty = App::new(sheets());
    let p = empty.new_row_plan();
    assert_eq!(p.cols, 0);
    assert_eq!(p.copy_rows, None);
}

#[test]
fn adding_a_sheet_selects_it() {
    let mut app = app_with_data();
    let mut s = sheets();
    s.push(SheetMeta { id: 9, title: "New".to_string() });
    app.adopt_added_sheet(s, &"Other".to_string());
    assert_eq!(app.current_sheet_idx, 1);
    app.adopt_added_sheet(sheets(), &"Missing".to_string());
    assert_eq!(app.current_sheet_idx, 1);
    assert!(app.can_remove_sheet());
    let single = App::new(vec![SheetMeta { id: 0, title: "Only".to_string() }]);
    assert!(!single.can_remove_sheet());
}

fn obj(entries: Vec<(&str, JsonValue)>) -> JsonValue {
    JsonValue::Object(entries.into_iter().map(|(k, v)| (k.to_string(), v)).collect())
}

fn grid_reply(condition: JsonValue) -> JsonValue {
    let cell = obj(vec![("dataValidation", obj(vec![("condition", condition)]))]);
    let row = obj(vec![("values", JsonValue::Array(vec![cell]))]);
    let grid = obj(vec![("rowData", JsonValue::Array(vec![row]))]);
    let sheet = obj(vec![("data", JsonValue::Array(vec![grid]))]);
    obj(vec![("sheets", JsonValue::Array(vec![sheet]))])
}

fn uev(s: &str) -> JsonValue {
    obj(vec![("userEnteredValue", JsonValue::Str(s.to_string()))])
}

#[test]
fn dropdown_options_from_a_list_rule() {
    let mut app = app_with_data();
    app.selected_row = Some(1);
    app.selected_col = Some(2);
    let range = app.begin_fetch_options().unwrap();
    assert_eq!(range, "'Main'!B2");
    let reply = grid_reply(obj(vec![
        ("type", JsonValue::Str("ONE_OF_LIST".to_string())),
        ("values", JsonValue::Array(vec![uev("yes"), obj(vec![]), uev("no")])),
    ]));
    assert!(gcli::sheets::rule_is_readable(&reply));
    assert_eq!(app.apply_validation(&reply), None);
    assert_eq!(app.cell_options, vec!["yes", "no"]);
}

#[test]
fn dropdown_options_from_a_range_rule() {
    let mut app = app_with_data();
    app.selected_row = Some(1);
    app.selected_col = Some(1);
    app.begin_fetch_options().unwrap();
    let reply = grid_reply(obj(vec![
        ("type", JsonValue::Str("ONE_OF_RANGE".to_string())),
        ("values", JsonValue::Array(vec![uev("=Lists!A1:A3")])),
    ]));
    assert_eq!(app.apply_validation(&reply).as_deref(), Some("=Lists!A1:A3"));
    app.set_range_options(vec![vec!["a".to_string(), "z".to_string()], vec![], vec!["b".to_string()]]);
    assert_eq!(app.cell_options, vec!["a", "b"]);
}

#[test]
fn no_options_without_a_selection_or_rule() {
    let mut app = app_with_data();
    app.cell_options = vec!["old".to_string()];
    assert!(app.begin_fetch_options().is_none());
    assert!(app.cell_options.is_empty());
    app.selected_row = Some(0);
    app.selected_col = Some(1);
    assert!(app.begin_fetch_options().is_none());
    assert_eq!(app.apply_validation(&obj(vec![])), None);
    assert!(app.cell_options.is_empty());
    let broken = {
        let cell = obj(vec![("dataValidation", obj(vec![]))]);
        let row = obj(vec![("values", JsonValue::Array(vec![cell]))]);
        let grid = obj(vec![("rowData", JsonValue::Array(vec![row]))]);
        let sheet = obj(vec![("data", JsonValue::Array(vec![grid]))]);
        obj(vec![("sheets", JsonValue::Array(vec![sheet]))])
    };
    assert!(!gcli::sheets::rule_is_readable(&broken));
}

#[test]
fn the_prompt_counts_sheets_from_one() {
    let mut app = App::new(sheets());
    assert_eq!(app.prompt(), "(Sheet 1/2) > ");
    assert!(app.select_sheet(2));
    assert_eq!(app.prompt(), "(Sheet 2/2) > ");
}

#[test]
fn deletion_is_confirmed_by_y_only() {
    assert!(confirms("y"));
    assert!(confirms("  Y \n"));
    assert!(!confirms("yes"));
    assert!(!confirms("n"));
    assert!(!confirms(""));
}

#[test]
fn pages_start_at_one() {
    let mut app = app_with_data();
    assert_eq!(app.page_size_cols, DEFAULT_PAGE_COLS);
    assert!(app.set_row_page(3));
    assert_eq!(app.row_page, 3);
    assert!(!app.set_row_page(0));
    assert_eq!(app.row_page, 3);
    assert!(app.set_col_page(2));
    assert_eq!(app.col_page, 2);
    assert!(!app.set_col_page(0));
    assert_eq!(app.col_page, 2);
    assert_eq!(app.row_page, 3);
}
