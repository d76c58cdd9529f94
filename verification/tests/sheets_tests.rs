use gcli::auth::Token;
use gcli::json::JsonValue;
use gcli::sheets::{
    read_value_rows, Method, SheetContainer, SheetProperties, SheetsClient, SpreadsheetMetadata,
};

fn client() -> SheetsClient {
    SheetsClient::new(Token("tok".to_string()), "SID".to_string())
}

fn s(x: &str) -> JsonValue {
    JsonValue::Str(x.to_string())
}

fn n(x: &str) -> JsonValue {
    JsonValue::Number(x.to_string())
}

fn obj(entries: Vec<(&str, JsonValue)>) -> JsonValue {
    JsonValue::Object(entries.into_iter().map(|(k, v)| (k.to_string(), v)).collect())
}

fn text(v: &JsonValue) -> String {
    format!("{:?}", v)
}

const BASE: &str = "https://sheets.googleapis.com/v4/spreadsheets/";

#[test]
fn metadata_and_values_requests() {
    let c = client();
    assert_eq!(c.auth_header(), "Bearer tok");
    let r = c.fetch_metadata();
    assert_eq!(r.method, Method::Get);
    assert_eq!(r.url, format!("{}SID", BASE));
    assert_eq!(r.authorization, "Bearer tok");
    assert!(r.body.is_none() && r.check_status);
    let r = c.get_values("Sheet1!A1:Z100");
    assert_eq!(r.url, format!("{}SID/values/Sheet1!A1:Z100", BASE));
    let r = c.get_cell_metadata("'T'!B2");
    assert_eq!(r.url, format!("{}SID?includeGridData=true&ranges='T'!B2", BASE));
    let r = c.get_sheet_full("T");
    assert_eq!(r.url, format!("{}SID?ranges='T'&includeGridData=true", BASE));
    assert!(!r.check_status);
}

#[test]
fn update_and_append_requests() {
    let c = client();
    let r = c.update_cell("T!A1", "=1+1");
    assert_eq!(r.method, Method::Put);
    assert_eq!(r.url, format!("{}SID/values/T!A1?valueInputOption=USER_ENTERED", BASE));
    let want = obj(vec![("values", JsonValue::Array(vec![JsonValue::Array(vec![s("=1+1")])]))]);
    assert_eq!(text(r.body.as_ref().unwrap()), text(&want));
    let r = c.append_row("T", vec!["".to_string(), "x".to_string()]);
    assert_eq!(r.method, Method::Post);
    assert_eq!(r.url, format!("{}SID/values/T!A1:append?valueInputOption=USER_ENTERED", BASE));
    let want = obj(vec![("values", JsonValue::Array(vec![JsonValue::Array(vec![s(""), s("x")])]))]);
    assert_eq!(text(r.body.as_ref().unwrap()), text(&want));
}

fn range(id: &str, r0: &str, r1: &str, c0: &str, c1: &str) -> JsonValue {
    obj(vec![
        ("sheetId", n(id)),
        ("startRowIndex", n(r0)),
        ("endRowIndex", n(r1)),
        ("startColumnIndex", n(c0)),
        ("endColumnIndex", n(c1)),
    ])
}

#[test]
fn batch_update_requests() {
    let c = client();
    let r = c.copy_row_validation(-5, 3, 4, 2);
    assert_eq!(r.url, format!("{}SID:batchUpdate", BASE));
    let want = obj(vec![(
        "requests",
        JsonValue::Array(vec![obj(vec![(
            "copyPaste",
            obj(vec![
                ("source", range("-5", "2", "3", "0", "2")),
                ("destination", range("-5", "3", "4", "0", "2")),
                ("pasteType", s("PASTE_DATA_VALIDATION")),
            ]),
        )])]),
    )]);
    assert_eq!(text(r.body.as_ref().unwrap()), text(&want));

    let r = c.delete_sheet(42);
    let want = obj(vec![(
        "requests",
        JsonValue::Array(vec![obj(vec![("deleteSheet", obj(vec![("sheetId", n("42"))]))])]),
    )]);
    assert_eq!(text(r.body.as_ref().unwrap()), text(&want));

    let r = c.add_sheet("New");
    let want = obj(vec![(
        "requests",
        JsonValue::Array(vec![obj(vec![(
            "addSheet",
            obj(vec![("properties", obj(vec![("title", s("New"))]))]),
        )])]),
    )]);
    assert_eq!(text(r.body.as_ref().unwrap()), text(&want));

    let r = c.set_data_validation(7, 2, 3, vec!["a".to_string(), "b".to_string()]);
    let want = obj(vec![(
        "requests",
        JsonValue::Array(vec![obj(vec![(
            "setDataValidation",
            obj(vec![
                ("range", range("7", "2", "3", "2", "3")),
                (
                    "rule",
                    obj(vec![
                        (
                            "condition",
                            obj(vec![
                                ("type", s("ONE_OF_LIST")),
                                (
                                    "values",
                                    JsonValue::Array(vec![
                                        obj(vec![("userEnteredValue", s("a"))]),
                                        obj(vec![("userEnteredValue", s("b"))]),
                                    ]),
                                ),
                            ]),
                        ),
                        ("showCustomUi", JsonValue::Bool(true)),
                        ("strict", JsonValue::Bool(true)),
                    ]),
                ),
            ]),
        )])]),
    )]);
    assert_eq!(text(r.body.as_ref().unwrap()), text(&want));
}

#[test]
fn value_replies_become_rows() {
    let reply = obj(vec![
        ("range", s("T!A1:B2")),
        (
            "values",
            JsonValue::Array(vec![
                JsonValue::Array(vec![s("a"), n("3"), s("b")]),
                s("not a row"),
                JsonValue::Array(vec![]),
            ]),
        ),
    ]);
    let rows = read_value_rows(&reply);
    assert_eq!(rows, vec![vec!["a".to_string(), "".to_string(), "b".to_string()], vec![], vec![]]);
    assert!(read_value_rows(&obj(vec![])).is_empty());
    assert!(read_value_rows(&JsonValue::Null).is_empty());
}

#[test]
fn metadata_replies_become_sheet_lists() {
    let meta = SpreadsheetMetadata {
        sheets: vec![
            SheetContainer { properties: SheetProperties { sheet_id: 0, title: "A".to_string() } },
            SheetContainer { properties: SheetProperties { sheet_id: 99, title: "B".to_string() } },
        ],
    };
    let m = meta.sheet_metas();
    assert_eq!(m.len(), 2);
    assert_eq!((m[1].id, m[1].title.as_str()), (99, "B"));
}
