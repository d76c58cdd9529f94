use gcli::menu::{menu_step, new_spreadsheet_entry, MenuAction, MenuKey};

#[test]
fn moving_in_the_menu() {
    assert_eq!(menu_step(0, 2, MenuKey::Up), (0, MenuAction::Redraw));
    assert_eq!(menu_step(1, 2, MenuKey::Up), (0, MenuAction::Redraw));
    assert_eq!(menu_step(1, 2, MenuKey::Down), (2, MenuAction::Redraw));
    assert_eq!(menu_step(2, 2, MenuKey::Down), (2, MenuAction::Redraw));
    assert_eq!(menu_step(1, 2, MenuKey::Other), (1, MenuAction::Redraw));
}

#[test]
fn choosing_in_the_menu() {
    assert_eq!(menu_step(1, 2, MenuKey::Enter), (1, MenuAction::Open(1)));
    assert_eq!(menu_step(2, 2, MenuKey::Enter), (2, MenuAction::AddNew));
    assert_eq!(menu_step(0, 0, MenuKey::Enter), (0, MenuAction::AddNew));
    assert_eq!(menu_step(1, 2, MenuKey::Quit), (1, MenuAction::Quit));
}

#[test]
fn deleting_in_the_menu() {
    assert_eq!(menu_step(1, 2, MenuKey::Delete), (0, MenuAction::Remove(1)));
    assert_eq!(menu_step(0, 2, MenuKey::Delete), (0, MenuAction::Remove(0)));
    assert_eq!(menu_step(0, 1, MenuKey::Delete), (0, MenuAction::Remove(0)));
    assert_eq!(menu_step(2, 2, MenuKey::Delete), (2, MenuAction::Redraw));
}

#[test]
fn new_entries_need_a_url() {
    let e = new_spreadsheet_entry("  Budget \n", " https://x/d/1 \n").unwrap();
    assert_eq!(e.name, "Budget");
    assert_eq!(e.url, "https://x/d/1");
    assert!(new_spreadsheet_entry("Name", "   \n").is_none());
}
