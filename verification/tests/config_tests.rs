use gcli::config::{format_list_line, AppConfig, NamedList};

#[test]
fn add_and_remove_spreadsheets() {
    let mut c = AppConfig::default();
    c.add("One".to_string(), "u1".to_string());
    c.add("Two".to_string(), "u2".to_string());
    assert_eq!(c.spreadsheets.len(), 2);
    assert_eq!(c.spreadsheets[1].name, "Two");
    assert!(c.remove(0));
    assert_eq!(c.spreadsheets[0].url, "u2");
    assert!(!c.remove(5));
    assert_eq!(c.spreadsheets.len(), 1);
}

#[test]
fn cell_keys() {
    assert_eq!(AppConfig::cell_key(123, 4, 5), "123:4:5");
    assert_eq!(AppConfig::cell_key(-1, 0, 0), "-1:0:0");
}

fn list(id: &str, els: &[&str]) -> NamedList {
    NamedList { id: id.to_string(), elements: els.iter().map(|s| s.to_string()).collect() }
}

#[test]
fn cells_get_lists() {
    let mut c = AppConfig::default();
    c.lists.push(list("colors", &["red", "blue"]));
    c.lists.push(list("sizes", &["S", "M"]));
    assert!(c.get_cell_list(1, 2, 3).is_none());
    c.assign_list_to_cell(1, 2, 3, "colors".to_string());
    assert_eq!(c.get_cell_list(1, 2, 3).unwrap().id, "colors");
    c.assign_list_to_cell(1, 2, 3, "sizes".to_string());
    assert_eq!(c.get_cell_list(1, 2, 3).unwrap().id, "sizes");
    assert_eq!(c.cell_list_map.len(), 1);
    c.assign_list_to_cell(1, 2, 4, "gone".to_string());
    assert!(c.get_cell_list(1, 2, 4).is_none());
}

#[test]
fn lists_found_by_elements() {
    let mut c = AppConfig::default();
    c.lists.push(list("a", &["x", "y"]));
    c.lists.push(list("b", &["x"]));
    let want = vec!["x".to_string()];
    assert_eq!(c.find_list_by_elements(&want).as_deref(), Some("b"));
    let none = vec!["z".to_string()];
    assert_eq!(c.find_list_by_elements(&none), None);
}

#[test]
fn named_lists_get_ids() {
    let mut c = AppConfig::default();
    let id = c.add_named_list(vec!["a".to_string()], "mine".to_string());
    assert_eq!(id, "mine");
    let id2 = c.add_named_list(vec!["b".to_string()], "mine".to_string());
    assert_eq!(id2.len(), 5);
    let n: u32 = id2.parse().unwrap();
    assert!((10000..100000).contains(&n));
    let id3 = c.add_named_list(vec![], String::new());
    assert_eq!(id3.len(), 5);
    assert_ne!(id3, id2);
    assert_eq!(c.lists.len(), 3);
    assert_eq!(c.lists[2].id, id3);
    assert!(c.free_number_available());
}

#[test]
fn removing_a_list_drops_its_cells() {
    let mut c = AppConfig::default();
    c.lists.push(list("a", &["x"]));
    c.lists.push(list("b", &["y"]));
    c.assign_list_to_cell(0, 1, 1, "a".to_string());
    c.assign_list_to_cell(0, 1, 2, "b".to_string());
    assert!(c.remove_named_list("a"));
    assert_eq!(c.lists.len(), 1);
    assert_eq!(c.lists[0].id, "b");
    assert_eq!(c.cell_list_map.len(), 1);
    assert!(c.get_cell_list(0, 1, 2).is_some());
    assert!(!c.remove_named_list("a"));
}

#[test]
fn list_lines() {
    assert_eq!(format_list_line("abc", 2, "x, y"), "ID: abc | 2 element(s): x, y");
    let mut c = AppConfig::default();
    c.lists.push(list("colors", &["red", "blue"]));
    let lines = c.list_named_lists();
    assert_eq!(lines.len(), 1);
    assert!(lines[0].starts_with("ID: "));
    assert!(lines[0].contains("colors"));
    assert!(lines[0].contains(" | 2 element(s): "));
    assert!(lines[0].contains("red, blue"));
}

#[test]
fn lists_found_by_id() {
    let mut c = AppConfig::default();
    c.lists.push(list("a", &["1"]));
    c.lists.push(list("b", &["2", "3"]));
    c.lists.push(list("b", &["4"]));
    assert_eq!(c.list_by_id("b").unwrap().elements, vec!["2", "3"]);
    assert_eq!(c.list_by_id("a").unwrap().elements, vec!["1"]);
    assert!(c.list_by_id("c").is_none());
    assert!(c.list_by_id("").is_none());
}

#[test]
fn different_cells_keep_their_own_lists() {
    let mut c = AppConfig::default();
    c.lists.push(list("a", &["1"]));
    c.lists.push(list("b", &["2"]));
    c.assign_list_to_cell(1, 12, 3, "a".to_string());
    c.assign_list_to_cell(11, 2, 3, "b".to_string());
    c.assign_list_to_cell(1, 1, 23, "b".to_string());
    assert_ne!(AppConfig::cell_key(1, 12, 3), AppConfig::cell_key(11, 2, 3));
    assert_ne!(AppConfig::cell_key(1, 12, 3), AppConfig::cell_key(1, 1, 23));
    assert_eq!(c.get_cell_list(1, 12, 3).unwrap().id, "a");
    assert_eq!(c.get_cell_list(11, 2, 3).unwrap().id, "b");
    assert_eq!(c.get_cell_list(1, 1, 23).unwrap().id, "b");
    assert!(c.get_cell_list(-1, 12, 3).is_none());
}

#[test]
fn lists_are_reused_or_added() {
    let mut c = AppConfig::default();
    c.lists.push(list("a", &["x", "y"]));
    assert_eq!(c.list_for(vec!["x".to_string(), "y".to_string()], "b".to_string()), "a");
    assert_eq!(c.lists.len(), 1);
    assert_eq!(c.list_for(vec!["z".to_string()], "b".to_string()), "b");
    assert_eq!(c.lists.len(), 2);
    assert_eq!(c.find_list_by_elements(&["z".to_string()]), Some("b".to_string()));
    let drawn = c.list_for(vec!["w".to_string()], "a".to_string());
    assert_eq!(drawn.len(), 5);
    assert!(drawn.chars().all(|ch| ch.is_ascii_digit()));
    assert_ne!(drawn, "a");
    assert!(c.remove_named_list(&drawn));
    assert_eq!(c.lists.len(), 2);
}
