use gcli::address::{extract_id, get_column_letter, gspread_addr};
use gcli::commands::{parse_command, Command};

#[test]
fn column_letters() {
    assert_eq!(get_column_letter(0), "");
    assert_eq!(get_column_letter(1), "A");
    assert_eq!(get_column_letter(26), "Z");
    assert_eq!(get_column_letter(27), "AA");
    assert_eq!(get_column_letter(28), "AB");
    assert_eq!(get_column_letter(52), "AZ");
    assert_eq!(get_column_letter(53), "BA");
    assert_eq!(get_column_letter(702), "ZZ");
    assert_eq!(get_column_letter(703), "AAA");
}

#[test]
fn cell_addresses_show_the_row_one_higher() {
    assert_eq!(gspread_addr(0, 1), "A1");
    assert_eq!(gspread_addr(2, 3), "C3");
    assert_eq!(gspread_addr(9, 28), "AB10");
}

#[test]
fn column_letters_read_back_as_the_same_column() {
    for n in [1usize, 2, 25, 26, 27, 52, 700, 703, 18278] {
        let word = format!("s{}", get_column_letter(n));
        let v = parse_command(&word);
        assert_eq!(v.len(), 1);
        match v[0] {
            Command::Col(Some(c)) => assert_eq!(c, n),
            ref other => panic!("{:?}", other),
        }
    }
}

#[test]
fn spreadsheet_ids_from_urls() {
    assert_eq!(
        extract_id("https://docs.google.com/spreadsheets/d/1AbC-xyz/edit#gid=0").as_deref(),
        Some("1AbC-xyz")
    );
    assert_eq!(extract_id("https://x/d/abc").as_deref(), Some("abc"));
    assert_eq!(extract_id("/d/").as_deref(), Some(""));
    assert_eq!(extract_id("https://example.com/sheet"), None);
    assert_eq!(extract_id("a/d/b/d/c").as_deref(), Some("b"));
}
