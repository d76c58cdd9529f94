use gcli::commands::{parse_command, try_parse_command, Command};

fn one(input: &str) -> Command {
    let mut v = parse_command(input);
    assert_eq!(v.len(), 1, "input {:?} gave {:?}", input, v);
    v.remove(0)
}

#[test]
fn sheet_numbers_switch_worksheets() {
    assert!(matches!(one("1"), Command::Sheet(1)));
    assert!(matches!(one("+12"), Command::Sheet(12)));
}

#[test]
fn row_and_column_selection() {
    assert!(matches!(one("l5"), Command::Row(Some(5))));
    assert!(matches!(one("L7"), Command::Row(Some(7))));
    assert!(matches!(one("s3"), Command::Col(Some(3))));
    assert!(matches!(one("sA"), Command::Col(Some(1))));
    assert!(matches!(one("sZ"), Command::Col(Some(26))));
    assert!(matches!(one("sAB"), Command::Col(Some(28))));
    assert!(matches!(one("sab"), Command::Col(Some(28))));
}

#[test]
fn edit_takes_the_rest_of_the_line() {
    match one("ed hello   big world") {
        Command::Edit(v) => assert_eq!(v, "hello big world"),
        other => panic!("{:?}", other),
    }
    match one("ED") {
        Command::Edit(v) => assert_eq!(v, ""),
        other => panic!("{:?}", other),
    }
}

#[test]
fn value_selection() {
    assert!(matches!(one("v 3"), Command::Val(3)));
    assert!(matches!(one("v2"), Command::Val(2)));
    let v = parse_command("v x");
    assert!(v.is_empty());
}

#[test]
fn simple_keywords() {
    assert!(matches!(one("del"), Command::Delete));
    assert!(matches!(one("new"), Command::New));
    assert!(matches!(one("cz"), Command::Undo));
    assert!(matches!(one("csz"), Command::Redo));
    assert!(matches!(one("h"), Command::Help));
    assert!(matches!(one("rm"), Command::Remove));
    assert!(matches!(one("menu"), Command::Menu));
    assert!(matches!(one("eq"), Command::Menu));
    assert!(matches!(one("exit"), Command::Exit));
    assert!(matches!(one("QUIT"), Command::Exit));
    assert!(matches!(one("list"), Command::ListLists));
    assert!(matches!(one("rr2"), Command::RowPage(2)));
    assert!(matches!(one("cc4"), Command::ColPage(4)));
}

#[test]
fn several_commands_on_one_line() {
    let v = parse_command("2 l3 sB");
    assert_eq!(v.len(), 3);
    assert!(matches!(v[0], Command::Sheet(2)));
    assert!(matches!(v[1], Command::Row(Some(3))));
    assert!(matches!(v[2], Command::Col(Some(2))));
}

#[test]
fn unknown_words_are_skipped() {
    let v = parse_command("foo 3 bar");
    assert_eq!(v.len(), 1);
    assert!(matches!(v[0], Command::Sheet(3)));
    assert!(parse_command("").is_empty());
    assert!(parse_command("   \t ").is_empty());
}

#[test]
fn add_left_to_right() {
    match one("add <a; b ;&?SUM(A1)>") {
        Command::Add(vals, rev, skip) => {
            assert_eq!(vals, vec!["a", "b", "&?SUM(A1)"]);
            assert!(!rev);
            assert!(skip.is_empty());
        }
        other => panic!("{:?}", other),
    }
}

#[test]
fn add_right_to_left_with_skips() {
    match one("add <x;y (-1)> [2, 4-6]") {
        Command::Add(vals, rev, skip) => {
            assert_eq!(vals, vec!["x", "y"]);
            assert!(rev);
            let mut cols: Vec<usize> = skip.into_iter().collect();
            cols.sort();
            assert_eq!(cols, vec![2, 4, 5, 6]);
        }
        other => panic!("{:?}", other),
    }
}

#[test]
fn add_without_brackets_ends_the_line() {
    assert!(parse_command("add x 3").is_empty());
}

#[test]
fn new_list_with_and_without_id() {
    match one("nl <red; green;blue> (colors)") {
        Command::NewList(els, id) => {
            assert_eq!(els, vec!["red", "green", "blue"]);
            assert_eq!(id, "colors");
        }
        other => panic!("{:?}", other),
    }
    match one("nl <a>") {
        Command::NewList(els, id) => {
            assert_eq!(els, vec!["a"]);
            assert_eq!(id, "");
        }
        other => panic!("{:?}", other),
    }
    // Without brackets the word is skipped and reading goes on.
    let v = parse_command("nl 2");
    assert_eq!(v.len(), 1);
    assert!(matches!(v[0], Command::Sheet(2)));
}

#[test]
fn remove_and_edit_list_ids() {
    let v = parse_command("rl abc");
    assert_eq!(v.len(), 1);
    match &v[0] {
        Command::RemoveList(id) => assert_eq!(id, "abc"),
        other => panic!("{:?}", other),
    }
    match one("RLx1") {
        Command::RemoveList(id) => assert_eq!(id, "x1"),
        other => panic!("{:?}", other),
    }
    match one("EDLMine") {
        Command::EditList(id) => assert_eq!(id, "Mine"),
        other => panic!("{:?}", other),
    }
    match one("edl") {
        Command::EditList(id) => assert_eq!(id, ""),
        other => panic!("{:?}", other),
    }
}

#[test]
fn new_sheet_title() {
    match one("ns My Tab") {
        Command::NewSheet(t) => assert_eq!(t, "My Tab"),
        other => panic!("{:?}", other),
    }
}

#[test]
fn panicking_lines_are_refused() {
    // brackets that close before they open
    assert!(try_parse_command("nl > <").is_none());
    assert!(try_parse_command("add <a> ] [").is_none());
    // column letters too large for usize
    assert!(try_parse_command("szzzzzzzzzzzzzzzzzz").is_none());
    // fine lines are read
    assert!(try_parse_command("sz").is_some());
}

#[test]
fn overflowing_numbers_are_not_numbers() {
    assert!(parse_command("99999999999999999999999").is_empty());
    assert!(matches!(one("l0"), Command::Row(Some(0))));
}

#[test]
fn column_words_with_non_letters_are_skipped() {
    let v = try_parse_command("s- s1a sb2 s9").expect("these words read without fault");
    assert_eq!(v.len(), 1);
    assert!(matches!(v[0], Command::Col(Some(9))));
    assert!(try_parse_command("l1 sB v 2 del").unwrap().len() <= 5);
}

#[test]
fn column_letters_read_back_through_the_parser() {
    for n in [1usize, 2, 26, 27, 28, 52, 53, 702, 703, 16384] {
        let letters = gcli::address::get_column_letter(n);
        for word in [format!("s{}", letters), format!("s{}", letters.to_lowercase())] {
            let v = parse_command(&word);
            assert_eq!(v.len(), 1);
            match v[0] {
                Command::Col(Some(c)) => assert_eq!(c, n, "word {}", word),
                ref other => panic!("{} read as {:?}", word, other),
            }
        }
    }
}
