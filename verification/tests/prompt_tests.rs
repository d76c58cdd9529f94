use gcli::app::App;
use gcli::commands::{parse_command, Command};
use gcli::config::{AppConfig, NamedList};
use gcli::prompt::{Effect, ListUse};
use gcli::sheets::SheetMeta;
use std::collections::HashSet;

fn app() -> App {
    let mut app = App::new(vec![
        SheetMeta { id: 0, title: "Main".to_string() },
        SheetMeta { id: 9, title: "Other".to_string() },
    ]);
    app.load_current_sheet(vec![
        vec!["Name".to_string(), "Age".to_string(), "City".to_string()],
        vec!["Ann".to_string(), "30".to_string(), "Oslo".to_string()],
    ]);
    app
}

fn writes(e: Effect) -> (Vec<(usize, usize, String)>, bool) {
    match e {
        Effect::Write(ws, reload) => (ws.into_iter().map(|w| (w.row, w.col, w.value)).collect(), reload),
        other => panic!("expected writes, got {:?}", other),
    }
}

#[test]
fn leaving_and_switching_sheets() {
    let mut a = app();
    assert!(matches!(a.handle_command(Command::Menu), Effect::Leave(true)));
    assert!(matches!(a.handle_command(Command::Exit), Effect::Leave(false)));
    assert!(matches!(a.handle_command(Command::Sheet(2)), Effect::Reload));
    assert_eq!(a.current_sheet_idx, 1);
    assert!(matches!(a.handle_command(Command::Sheet(3)), Effect::Nothing));
    assert!(matches!(a.handle_command(Command::Sheet(0)), Effect::Nothing));
    assert_eq!(a.current_sheet_idx, 1);
}

#[test]
fn edits_need_a_selected_cell() {
    let mut a = app();
    assert!(matches!(a.handle_command(Command::Edit("x".to_string())), Effect::Nothing));
    for cmd in parse_command("l1 sB") {
        assert!(matches!(a.handle_command(cmd), Effect::Nothing));
    }
    assert_eq!((a.selected_row, a.selected_col), (Some(1), Some(2)));
    assert_eq!(writes(a.handle_command(Command::Edit("&?SUM(A1)".to_string()))), (vec![(1, 2, "=SUM(A1)".to_string())], false));
    assert_eq!(writes(a.handle_command(Command::Delete)), (vec![(1, 2, String::new())], false));
}

#[test]
fn dropdown_values_by_number() {
    let mut a = app();
    a.selected_row = Some(1);
    a.selected_col = Some(3);
    a.cell_options = vec!["Oslo".to_string(), "Rome".to_string()];
    assert_eq!(writes(a.handle_command(Command::Val(2))), (vec![(1, 3, "Rome".to_string())], false));
    assert!(matches!(a.handle_command(Command::Val(3)), Effect::Nothing));
    assert!(matches!(a.handle_command(Command::Val(0)), Effect::Nothing));
}

#[test]
fn add_fills_the_row_and_reloads() {
    let mut a = app();
    a.selected_row = Some(1);
    let (ws, reload) = writes(a.handle_command(Command::Add(vec!["a".to_string(), "b".to_string()], true, HashSet::new())));
    assert!(reload);
    assert_eq!(ws, vec![(1, 3, "a".to_string()), (1, 2, "b".to_string())]);
    let four: Vec<String> = ["a", "b", "c", "d"].iter().map(|v| v.to_string()).collect();
    let (ws, _) = writes(a.handle_command(Command::Add(four, true, HashSet::new())));
    assert_eq!(ws, vec![(1, 3, "a".to_string()), (1, 2, "b".to_string()), (1, 1, "c".to_string())]);
}

#[test]
fn appending_and_removing_sheets() {
    let mut a = app();
    match a.handle_command(Command::New) {
        Effect::AppendRow(p) => {
            assert_eq!(p.title, "Main");
            assert_eq!(p.cols, 3);
            assert_eq!(p.copy_rows, Some((2, 3)));
        }
        other => panic!("unexpected {:?}", other),
    }
    match a.handle_command(Command::Remove) {
        Effect::ConfirmRemove(t, id) => assert_eq!((t.as_str(), id), ("Main", 0)),
        other => panic!("unexpected {:?}", other),
    }
    a.sheets.truncate(1);
    assert!(matches!(a.handle_command(Command::Remove), Effect::RefuseRemove));
    match a.handle_command(Command::NewSheet("Q1".to_string())) {
        Effect::AddSheet(t) => assert_eq!(t, "Q1"),
        other => panic!("unexpected {:?}", other),
    }
}

#[test]
fn lists_history_help_and_pages() {
    let mut a = app();
    assert!(matches!(a.handle_command(Command::Undo), Effect::Undo));
    assert!(matches!(a.handle_command(Command::Redo), Effect::Redo));
    assert!(matches!(a.handle_command(Command::Help), Effect::ShowHelp));
    assert!(matches!(a.handle_command(Command::ListLists), Effect::ShowLists));
    match a.handle_command(Command::NewList(vec!["x".to_string()], "7".to_string())) {
        Effect::NewList(v, id) => assert_eq!((v, id), (vec!["x".to_string()], "7".to_string())),
        other => panic!("unexpected {:?}", other),
    }
    assert!(matches!(a.handle_command(Command::RemoveList("7".to_string())), Effect::RemoveList(ref s) if s == "7"));
    assert!(matches!(a.handle_command(Command::EditList("7".to_string())), Effect::UseList(ref s) if s == "7"));
    assert!(matches!(a.handle_command(Command::RowPage(4)), Effect::Nothing));
    assert!(matches!(a.handle_command(Command::ColPage(0)), Effect::Nothing));
    assert_eq!((a.row_page, a.col_page), (4, 1));
}

#[test]
fn giving_a_cell_a_list() {
    let mut a = app();
    let mut c = AppConfig::default();
    c.lists.push(NamedList { id: "7".to_string(), elements: vec!["x".to_string(), "y".to_string()] });
    assert!(matches!(a.plan_list_use(&c, "7"), ListUse::NoCell));
    a.selected_row = Some(1);
    a.selected_col = Some(0);
    assert!(matches!(a.plan_list_use(&c, "7"), ListUse::NoCell));
    a.selected_col = Some(2);
    assert!(matches!(a.plan_list_use(&c, "8"), ListUse::NoList));
    a.current_sheet_idx = 1;
    match a.plan_list_use(&c, "7") {
        ListUse::Apply { sheet_id, row, col, elements } => {
            assert_eq!((sheet_id, row, col), (9, 1, 2));
            assert_eq!(elements, vec!["x", "y"]);
        }
        other => panic!("unexpected {:?}", other),
    }
}

#[test]
fn after_a_deletion_the_first_sheet_is_current() {
    let mut a = app();
    a.current_sheet_idx = 1;
    a.selected_row = Some(1);
    a.adopt_remaining_sheets(vec![SheetMeta { id: 9, title: "Other".to_string() }]);
    assert_eq!(a.current_sheet_idx, 0);
    assert_eq!(a.sheets.len(), 1);
    assert_eq!(a.selected_row, Some(1));
}
