//! The Google Sheets API v4: worksheet metadata, the requests the client
//! sends and what it reads from the replies.
use vstd::prelude::*;
use crate::auth::Token;
use crate::json::{
    array1, array_of, as_array, as_object, as_str, bool_value, entries_are, entry, field, first,
    get_field, int_value, json_is, obj_get, object1, object_from, object_of, push_entry,
    str_array, str_of, str_value, uint_value, JsonValue, JsonView,
};
use crate::text::{append_str, chars_of, decimal, signed_decimal, string_of};

verus! {

/// A worksheet (tab) of a spreadsheet: its numeric id and its title.
#[derive(Debug)]
pub struct SheetMeta {
    pub id: i64,
    pub title: String,
}

impl Clone for SheetMeta {
    fn clone(&self) -> (r: Self)
        ensures
            r.id == self.id,
            r.title@ == self.title@,
    {
        SheetMeta { id: self.id, title: self.title.clone() }
    }
}


/// The first element of the array in field `key` of `v`.
pub open spec fn first_in(v: JsonValue, key: Seq<char>) -> Option<JsonValue> {
    match as_array(field(v, key)) {
        Some(a) => first(a),
        None => None,
    }
}

/// The `dataValidation` object of the first cell that a grid-data reply holds
/// (`sheets[0].data[0].rowData[0].values[0].dataValidation`).
pub open spec fn validation_rule(resp: JsonValue) -> Option<Seq<(String, JsonValue)>> {
    match first_in(resp, "sheets"@) {
        Some(sheet) => match first_in(sheet, "data"@) {
            Some(grid) => match first_in(grid, "rowData"@) {
                Some(row) => match first_in(row, "values"@) {
                    Some(cell) => as_object(field(cell, "dataValidation"@)),
                    None => None,
                },
                None => None,
            },
            None => None,
        },
        None => None,
    }
}

/// Whether a validation rule, where the reply has one, has a `condition`
/// entry (reading it panics otherwise).
pub open spec fn rule_readable(resp: JsonValue) -> bool {
    match validation_rule(resp) {
        Some(rule) => obj_get(rule, "condition"@) is Some,
        None => true,
    }
}

/// The `condition` object of the validation rule in a reply.
pub open spec fn validation_condition(resp: JsonValue) -> Option<Seq<(String, JsonValue)>> {
    match validation_rule(resp) {
        Some(rule) => match obj_get(rule, "condition"@) {
            Some(c) => as_object(c),
            None => None,
        },
        None => None,
    }
}

/// The `type` of a condition, or the empty string.
pub open spec fn condition_type(cond: Seq<(String, JsonValue)>) -> Seq<char> {
    match obj_get(cond, "type"@) {
        Some(t) => match as_str(t) {
            Some(s) => s,
            None => seq![],
        },
        None => seq![],
    }
}

/// The `userEnteredValue` strings of the condition values, in order.
pub open spec fn user_values(vals: Seq<JsonValue>) -> Seq<Seq<char>>
    decreases vals.len(),
{
    if vals.len() == 0 {
        seq![]
    } else {
        user_values(vals.drop_last()) + match as_str(field(vals.last(), "userEnteredValue"@)) {
            Some(s) => seq![s],
            None => seq![],
        }
    }
}

/// The values of a condition: its `values` array read as [`user_values`].
pub open spec fn condition_values(cond: Seq<(String, JsonValue)>) -> Seq<Seq<char>> {
    match obj_get(cond, "values"@) {
        Some(v) => match as_array(v) {
            Some(a) => user_values(a),
            None => seq![],
        },
        None => seq![],
    }
}

/// The first element of the array in field `key` of `v`.
pub fn first_in_exec<'a>(v: &'a JsonValue, key: &str) -> (r: Option<&'a JsonValue>)
    ensures
        r matches Some(x) ==> first_in(*v, key@) == Some(*x),
        r is None ==> first_in(*v, key@) is None,
{
    match array_of(get_field(v, key)) {
        Some(a) => {
            if a.len() > 0 {
                Some(&a[0])
            } else {
                None
            }
        },
        None => None,
    }
}

/// The validation rule of the first cell in a grid-data reply.
pub fn validation_rule_of<'a>(resp: &'a JsonValue) -> (r: Option<&'a Vec<(String, JsonValue)>>)
    ensures
        r matches Some(es) ==> validation_rule(*resp) == Some(es@),
        r is None ==> validation_rule(*resp) is None,
{
    let sheet = match first_in_exec(resp, "sheets") {
        Some(x) => x,
        None => return None,
    };
    let grid = match first_in_exec(sheet, "data") {
        Some(x) => x,
        None => return None,
    };
    let row = match first_in_exec(grid, "rowData") {
        Some(x) => x,
        None => return None,
    };
    let cell = match first_in_exec(row, "values") {
        Some(x) => x,
        None => return None,
    };
    let f = get_field(cell, "dataValidation");
    proof {
        if f is None {
            assert(as_object(JsonValue::Null) is None);
        }
    }
    object_of(f)
}

/// Whether reading the validation rule of a reply would find its `condition`.
pub fn rule_is_readable(resp: &JsonValue) -> (b: bool)
    ensures
        b == rule_readable(*resp),
{
    match validation_rule_of(resp) {
        Some(rule) => entry(rule, "condition").is_some(),
        None => true,
    }
}

/// The `userEnteredValue` strings of condition values.
pub fn user_values_of(vals: &Vec<JsonValue>) -> (r: Vec<String>)
    ensures
        crate::commands::strs(r@) == user_values(vals@),
{
    let mut r: Vec<String> = Vec::new();
    let mut i: usize = 0;
    while i < vals.len()
        invariant
            i <= vals@.len(),
            crate::commands::strs(r@) == user_values(vals@.take(i as int)),
        decreases vals@.len() - i,
    {
        assert(vals@.take(i + 1).drop_last() == vals@.take(i as int));
        let ghost before = crate::commands::strs(r@);
        let f = get_field(&vals[i], "userEnteredValue");
        proof {
            if f is None {
                assert(as_str(JsonValue::Null) is None);
            }
        }
        match str_of(f) {
            Some(s) => {
                r.push(s.clone());
                assert(crate::commands::strs(r@) =~= before + seq![s@]);
            },
            None => {
                assert(crate::commands::strs(r@) =~= before + Seq::<Seq<char>>::empty());
            },
        }
        i += 1;
    }
    assert(vals@.take(vals@.len() as int) == vals@);
    r
}

/// What a grid-data reply says of the validation of its first cell: the type
/// of its condition and the condition's values; `None` where it has no
/// validation condition.
pub fn read_validation(resp: &JsonValue) -> (r: Option<(String, Vec<String>)>)
    requires
        rule_readable(*resp),
    ensures
        r matches Some((t, vals)) ==> validation_condition(*resp) matches Some(cond) && t@
            == condition_type(cond) && crate::commands::strs(vals@) == condition_values(cond),
        r is None ==> validation_condition(*resp) is None,
{
    let rule = match validation_rule_of(resp) {
        Some(rule) => rule,
        None => return None,
    };
    let cond = match object_of(entry(rule, "condition")) {
        Some(c) => c,
        None => return None,
    };
    let t = match str_of(entry(cond, "type")) {
        Some(s) => s.clone(),
        None => String::new(),
    };
    let vals = match array_of(entry(cond, "values")) {
        Some(a) => user_values_of(a),
        None => Vec::new(),
    };
    proof {
        if obj_get(cond@, "values"@) is None || as_array(obj_get(cond@, "values"@)->0) is None {
            assert(crate::commands::strs(vals@) =~= Seq::<Seq<char>>::empty());
        }
    }
    Some((t, vals))
}


/// The properties of a worksheet in a metadata reply.
#[derive(Debug)]
pub struct SheetProperties {
    pub sheet_id: i64,
    pub title: String,
}

/// One worksheet entry of a metadata reply.
#[derive(Debug)]
pub struct SheetContainer {
    pub properties: SheetProperties,
}

/// The metadata reply for a spreadsheet: its worksheets.
#[derive(Debug)]
pub struct SpreadsheetMetadata {
    pub sheets: Vec<SheetContainer>,
}

impl SpreadsheetMetadata {
    /// The id and title of each worksheet, in order.
    pub fn sheet_metas(self) -> (r: Vec<SheetMeta>)
        ensures
            r@.len() == self.sheets@.len(),
            forall|i: int|
                0 <= i < r@.len() ==> #[trigger] r@[i].id == self.sheets@[i].properties.sheet_id
                    && r@[i].title@ == self.sheets@[i].properties.title@,
    {
        let mut r: Vec<SheetMeta> = Vec::new();
        let mut i: usize = 0;
        while i < self.sheets.len()
            invariant
                i <= self.sheets@.len(),
                r@.len() == i,
                forall|k: int|
                    0 <= k < i ==> #[trigger] r@[k].id == self.sheets@[k].properties.sheet_id
                        && r@[k].title@ == self.sheets@[k].properties.title@,
            decreases self.sheets@.len() - i,
        {
            let p = &self.sheets[i].properties;
            r.push(SheetMeta { id: p.sheet_id, title: p.title.clone() });
            i += 1;
        }
        r
    }
}

/// The text of each cell of a values reply: one row per element of its
/// `values` array, a cell's text when it is a string and empty otherwise.
pub open spec fn value_rows(resp: JsonValue) -> Seq<Seq<Seq<char>>> {
    match as_array(field(resp, "values"@)) {
        Some(rows) => Seq::new(rows.len(), |i: int| row_texts(rows[i])),
        None => seq![],
    }
}

/// The texts of the cells of one row of a values reply.
pub open spec fn row_texts(row: JsonValue) -> Seq<Seq<char>> {
    match as_array(row) {
        Some(cells) => Seq::new(
            cells.len(),
            |j: int|
                match as_str(cells[j]) {
                    Some(t) => t,
                    None => seq![],
                },
        ),
        None => seq![],
    }
}

/// The texts of a table of strings.
pub open spec fn table_texts(rows: Seq<Vec<String>>) -> Seq<Seq<Seq<char>>> {
    Seq::new(rows.len(), |i: int| crate::commands::strs(rows[i]@))
}

/// The rows of cell texts in a values reply.
pub fn read_value_rows(resp: &JsonValue) -> (rows: Vec<Vec<String>>)
    ensures
        table_texts(rows@) == value_rows(*resp),
{
    let f = get_field(resp, "values");
    proof {
        if f is None {
            assert(as_array(JsonValue::Null) is None);
        }
    }
    let arr = match array_of(f) {
        Some(a) => a,
        None => {
            let empty: Vec<Vec<String>> = Vec::new();
            assert(table_texts(empty@) =~= Seq::<Seq<Seq<char>>>::empty());
            return empty;
        },
    };
    let mut out: Vec<Vec<String>> = Vec::new();
    let mut i: usize = 0;
    while i < arr.len()
        invariant
            i <= arr@.len(),
            out@.len() == i,
            forall|k: int| 0 <= k < i ==> crate::commands::strs(#[trigger] out@[k]@) == row_texts(arr@[k]),
        decreases arr@.len() - i,
    {
        let mut cells_out: Vec<String> = Vec::new();
        match &arr[i] {
            JsonValue::Array(cells) => {
                let mut j: usize = 0;
                while j < cells.len()
                    invariant
                        j <= cells@.len(),
                        cells_out@.len() == j,
                        forall|k: int|
                            0 <= k < j ==> (#[trigger] cells_out@[k])@ == match as_str(cells@[k]) {
                                Some(t) => t,
                                None => seq![],
                            },
                    decreases cells@.len() - j,
                {
                    let t = match &cells[j] {
                        JsonValue::Str(s) => s.clone(),
                        _ => String::new(),
                    };
                    cells_out.push(t);
                    j += 1;
                }
                assert(crate::commands::strs(cells_out@) =~= row_texts(arr@[i as int]));
            },
            _ => {
                assert(crate::commands::strs(cells_out@) =~= row_texts(arr@[i as int]));
            },
        }
        out.push(cells_out);
        i += 1;
    }
    assert(table_texts(out@) =~= value_rows(*resp));
    out
}

/// The HTTP method of a request.
#[derive(Debug, Clone, Copy, PartialEq, Eq, Structural)]
pub enum Method {
    Get,
    Put,
    Post,
}

/// An API request: the method, the URL, the `Authorization` header, the JSON
/// body if any, and whether an error status of the reply is an error.
#[derive(Debug)]
pub struct Request {
    pub method: Method,
    pub url: String,
    pub authorization: String,
    pub body: Option<JsonValue>,
    pub check_status: bool,
}

/// The address of the spreadsheets resource.
pub open spec fn api_base() -> Seq<char> {
    "https://sheets.googleapis.com/v4/spreadsheets/"@
}

/// The URL of the values of `range`.
pub open spec fn values_url(id: Seq<char>, range: Seq<char>) -> Seq<char> {
    api_base() + id + "/values/"@ + range
}

/// The URL that writes `range` as if typed by a user.
pub open spec fn update_url(id: Seq<char>, range: Seq<char>) -> Seq<char> {
    values_url(id, range) + "?valueInputOption=USER_ENTERED"@
}

/// The URL that appends a row to the worksheet `title`.
pub open spec fn append_url(id: Seq<char>, title: Seq<char>) -> Seq<char> {
    values_url(id, title) + "!A1:append?valueInputOption=USER_ENTERED"@
}

/// The URL of batch updates.
pub open spec fn batch_url(id: Seq<char>) -> Seq<char> {
    api_base() + id + ":batchUpdate"@
}

/// The URL of the grid data (values and metadata) of `range`.
pub open spec fn grid_url(id: Seq<char>, range: Seq<char>) -> Seq<char> {
    api_base() + id + "?includeGridData=true&ranges="@ + range
}

/// The URL of the whole grid data of the worksheet `title`.
pub open spec fn full_sheet_url(id: Seq<char>, title: Seq<char>) -> Seq<char> {
    api_base() + id + "?ranges='"@ + title + "'&includeGridData=true"@
}

/// A JSON number with the value `n`.
pub open spec fn num(n: nat) -> JsonView {
    JsonView::Number(decimal(n))
}

/// The body that writes `value` to one cell.
pub open spec fn update_body(value: Seq<char>) -> JsonView {
    JsonView::Object(
        seq![("values"@, JsonView::Array(seq![JsonView::Array(seq![JsonView::Str(value)])]))],
    )
}

/// The body that appends one row of `values`.
pub open spec fn append_body(values: Seq<Seq<char>>) -> JsonView {
    JsonView::Object(
        seq![
            ("values"@, JsonView::Array(
                seq![JsonView::Array(Seq::new(values.len(), |i: int| JsonView::Str(values[i])))],
            )),
        ],
    )
}

/// A grid range of worksheet `sheet_id`: rows `r0..r1`, columns `c0..c1` (0-based, end excluded).
pub open spec fn grid_range(sheet_id: i64, r0: nat, r1: nat, c0: nat, c1: nat) -> JsonView {
    JsonView::Object(
        seq![
            ("sheetId"@, JsonView::Number(signed_decimal(sheet_id as int))),
            ("startRowIndex"@, num(r0)),
            ("endRowIndex"@, num(r1)),
            ("startColumnIndex"@, num(c0)),
            ("endColumnIndex"@, num(c1)),
        ],
    )
}

/// A batch update of the one request `req`.
pub open spec fn batch_body(req: JsonView) -> JsonView {
    JsonView::Object(seq![("requests"@, JsonView::Array(seq![req]))])
}

/// The body that copies the data validation of 1-based row `from_row` to
/// row `to_row`, over the first `cols` columns.
pub open spec fn copy_validation_body(sheet_id: i64, from_row: nat, to_row: nat, cols: nat) -> JsonView {
    batch_body(
        JsonView::Object(
            seq![
                ("copyPaste"@, JsonView::Object(
                    seq![
                        ("source"@, grid_range(sheet_id, (from_row - 1) as nat, from_row, 0, cols)),
                        ("destination"@, grid_range(sheet_id, (to_row - 1) as nat, to_row, 0, cols)),
                        ("pasteType"@, JsonView::Str("PASTE_DATA_VALIDATION"@)),
                    ],
                )),
            ],
        ),
    )
}

/// The body that deletes the worksheet `sheet_id`.
pub open spec fn delete_sheet_body(sheet_id: i64) -> JsonView {
    batch_body(
        JsonView::Object(
            seq![
                ("deleteSheet"@, JsonView::Object(
                    seq![("sheetId"@, JsonView::Number(signed_decimal(sheet_id as int)))],
                )),
            ],
        ),
    )
}

/// The body that adds a worksheet titled `title`.
pub open spec fn add_sheet_body(title: Seq<char>) -> JsonView {
    batch_body(
        JsonView::Object(
            seq![
                ("addSheet"@, JsonView::Object(
                    seq![("properties"@, JsonView::Object(seq![("title"@, JsonView::Str(title))]))],
                )),
            ],
        ),
    )
}

/// The body that gives the cell at 0-based `row` and 1-based `col` a strict
/// dropdown of `values`.
pub open spec fn validation_body(sheet_id: i64, row: nat, col: nat, values: Seq<Seq<char>>) -> JsonView {
    batch_body(
        JsonView::Object(
            seq![
                ("setDataValidation"@, JsonView::Object(
                    seq![
                        ("range"@, grid_range(sheet_id, row, row + 1, (col - 1) as nat, col)),
                        ("rule"@, JsonView::Object(
                            seq![
                                ("condition"@, JsonView::Object(
                                    seq![
                                        ("type"@, JsonView::Str("ONE_OF_LIST"@)),
                                        ("values"@, JsonView::Array(
                                            Seq::new(
                                                values.len(),
                                                |i: int| JsonView::Object(
                                                    seq![("userEnteredValue"@, JsonView::Str(values[i]))],
                                                ),
                                            ),
                                        )),
                                    ],
                                )),
                                ("showCustomUi"@, JsonView::Bool(true)),
                                ("strict"@, JsonView::Bool(true)),
                            ],
                        )),
                    ],
                )),
            ],
        ),
    )
}

fn grid_range_value(sheet_id: i64, r0: usize, r1: usize, c0: usize, c1: usize) -> (v: JsonValue)
    ensures
        json_is(v, grid_range(sheet_id, r0 as nat, r1 as nat, c0 as nat, c1 as nat)),
{
    let mut es: Vec<(String, JsonValue)> = Vec::new();
    let ghost k0: Seq<(Seq<char>, JsonView)> = seq![];
    push_entry(&mut es, "sheetId", int_value(sheet_id), Ghost(k0), Ghost(JsonView::Number(signed_decimal(sheet_id as int))));
    let ghost k1 = k0.push(("sheetId"@, JsonView::Number(signed_decimal(sheet_id as int))));
    push_entry(&mut es, "startRowIndex", uint_value(r0), Ghost(k1), Ghost(num(r0 as nat)));
    let ghost k2 = k1.push(("startRowIndex"@, num(r0 as nat)));
    push_entry(&mut es, "endRowIndex", uint_value(r1), Ghost(k2), Ghost(num(r1 as nat)));
    let ghost k3 = k2.push(("endRowIndex"@, num(r1 as nat)));
    push_entry(&mut es, "startColumnIndex", uint_value(c0), Ghost(k3), Ghost(num(c0 as nat)));
    let ghost k4 = k3.push(("startColumnIndex"@, num(c0 as nat)));
    push_entry(&mut es, "endColumnIndex", uint_value(c1), Ghost(k4), Ghost(num(c1 as nat)));
    let ghost k5 = k4.push(("endColumnIndex"@, num(c1 as nat)));
    let ghost g = grid_range(sheet_id, r0 as nat, r1 as nat, c0 as nat, c1 as nat);
    assert(g == JsonView::Object(k5)) by {
        assert(k5 =~= seq![
            ("sheetId"@, JsonView::Number(signed_decimal(sheet_id as int))),
            ("startRowIndex"@, num(r0 as nat)),
            ("endRowIndex"@, num(r1 as nat)),
            ("startColumnIndex"@, num(c0 as nat)),
            ("endColumnIndex"@, num(c1 as nat)),
        ]);
    }
    object_from(es, Ghost(k5))
}

fn batch_value(req: JsonValue, Ghost(w): Ghost<JsonView>) -> (v: JsonValue)
    requires
        json_is(req, w),
    ensures
        json_is(v, batch_body(w)),
{
    let a = array1(req, Ghost(w));
    object1("requests", a, Ghost(JsonView::Array(seq![w])))
}

/// A client for one spreadsheet: what it sends, given the access token and
/// the spreadsheet id.
pub struct SheetsClient {
    token: Token,
    spreadsheet_id: String,
}

impl SheetsClient {
    /// The id of the spreadsheet.
    pub closed spec fn spreadsheet(&self) -> Seq<char> {
        self.spreadsheet_id@
    }

    /// The access token.
    pub closed spec fn token_text(&self) -> Seq<char> {
        self.token.0@
    }

    /// A client for the spreadsheet `spreadsheet_id`, authorized by `token`.
    pub fn new(token: Token, spreadsheet_id: String) -> (c: SheetsClient)
        ensures
            c.spreadsheet() == spreadsheet_id@,
            c.token_text() == token.0@,
    {
        SheetsClient { token, spreadsheet_id }
    }

    /// The `Authorization` header: `Bearer <token>`.
    pub fn auth_header(&self) -> (h: String)
        ensures
            h@ == "Bearer "@ + self.token_text(),
    {
        let mut v = chars_of("Bearer ");
        append_str(&mut v, self.token.0.as_str());
        string_of(v.as_slice())
    }

    fn base_with_id(&self) -> (v: Vec<char>)
        ensures
            v@ == api_base() + self.spreadsheet(),
    {
        let mut v = chars_of("https://sheets.googleapis.com/v4/spreadsheets/");
        append_str(&mut v, self.spreadsheet_id.as_str());
        v
    }

    fn request(&self, method: Method, url: Vec<char>, body: Option<JsonValue>, check_status: bool) -> (r: Request)
        ensures
            r.method == method,
            r.url@ == url@,
            r.authorization@ == "Bearer "@ + self.token_text(),
            r.body == body,
            r.check_status == check_status,
    {
        Request {
            method,
            url: string_of(url.as_slice()),
            authorization: self.auth_header(),
            body,
            check_status,
        }
    }

    /// The request for the list of worksheets and their properties.
    pub fn fetch_metadata(&self) -> (r: Request)
        ensures
            r.method == Method::Get,
            r.url@ == api_base() + self.spreadsheet(),
            r.authorization@ == "Bearer "@ + self.token_text(),
            r.body is None,
            r.check_status,
    {
        let url = self.base_with_id();
        self.request(Method::Get, url, None, true)
    }

    /// The request for the values of `range` (such as `Sheet1!A1:Z100`).
    pub fn get_values(&self, range: &str) -> (r: Request)
        ensures
            r.method == Method::Get,
            r.url@ == values_url(self.spreadsheet(), range@),
            r.authorization@ == "Bearer "@ + self.token_text(),
            r.body is None,
            r.check_status,
    {
        let mut url = self.base_with_id();
        append_str(&mut url, "/values/");
        append_str(&mut url, range);
        self.request(Method::Get, url, None, true)
    }

    /// The request that writes `value` to the cell `range`, read as typed by
    /// a user (so that formulas are evaluated).
    pub fn update_cell(&self, range: &str, value: &str) -> (r: Request)
        ensures
            r.method == Method::Put,
            r.url@ == update_url(self.spreadsheet(), range@),
            r.authorization@ == "Bearer "@ + self.token_text(),
            r.body matches Some(b) && json_is(b, update_body(value@)),
            r.check_status,
    {
        let mut url = self.base_with_id();
        append_str(&mut url, "/values/");
        append_str(&mut url, range);
        append_str(&mut url, "?valueInputOption=USER_ENTERED");
        let inner = array1(str_value(value), Ghost(JsonView::Str(value@)));
        let rows = array1(inner, Ghost(JsonView::Array(seq![JsonView::Str(value@)])));
        let body = object1(
            "values",
            rows,
            Ghost(JsonView::Array(seq![JsonView::Array(seq![JsonView::Str(value@)])])),
        );
        self.request(Method::Put, url, Some(body), true)
    }

    /// The request that appends the row `values` at the end of the worksheet `sheet_title`.
    pub fn append_row(&self, sheet_title: &str, values: Vec<String>) -> (r: Request)
        ensures
            r.method == Method::Post,
            r.url@ == append_url(self.spreadsheet(), sheet_title@),
            r.authorization@ == "Bearer "@ + self.token_text(),
            r.body matches Some(b) && json_is(b, append_body(crate::commands::strs(values@))),
            r.check_status,
    {
        let mut url = self.base_with_id();
        append_str(&mut url, "/values/");
        append_str(&mut url, sheet_title);
        append_str(&mut url, "!A1:append?valueInputOption=USER_ENTERED");
        let ghost vs = crate::commands::strs(values@);
        let ghost row = JsonView::Array(Seq::new(vs.len(), |i: int| JsonView::Str(vs[i])));
        let arr = str_array(&values);
        assert(JsonView::Array(Seq::new(values@.len(), |i: int| JsonView::Str(values@[i]@))) == row) by {
            assert(Seq::new(values@.len(), |i: int| JsonView::Str(values@[i]@)) =~= Seq::new(
                vs.len(),
                |i: int| JsonView::Str(vs[i]),
            ));
        }
        let rows = array1(arr, Ghost(row));
        let body = object1("values", rows, Ghost(JsonView::Array(seq![row])));
        self.request(Method::Post, url, Some(body), true)
    }

    /// The request that copies the data validation (dropdowns) of row
    /// `from_row` to row `to_row` (both 1-based) over the first `cols` columns.
    pub fn copy_row_validation(&self, sheet_id: i64, from_row: usize, to_row: usize, cols: usize) -> (r: Request)
        requires
            from_row >= 1,
            to_row >= 1,
        ensures
            r.method == Method::Post,
            r.url@ == batch_url(self.spreadsheet()),
            r.authorization@ == "Bearer "@ + self.token_text(),
            r.body matches Some(b) && json_is(
                b,
                copy_validation_body(sheet_id, from_row as nat, to_row as nat, cols as nat),
            ),
            r.check_status,
    {
        let mut url = self.base_with_id();
        append_str(&mut url, ":batchUpdate");
        let ghost src = grid_range(sheet_id, (from_row - 1) as nat, from_row as nat, 0, cols as nat);
        let ghost dst = grid_range(sheet_id, (to_row - 1) as nat, to_row as nat, 0, cols as nat);
        let ghost ptype = JsonView::Str("PASTE_DATA_VALIDATION"@);
        let mut es: Vec<(String, JsonValue)> = Vec::new();
        push_entry(&mut es, "source", grid_range_value(sheet_id, from_row - 1, from_row, 0, cols), Ghost(Seq::<(Seq<char>, JsonView)>::empty()), Ghost(src));
        let ghost k1 = Seq::<(Seq<char>, JsonView)>::empty().push(("source"@, src));
        push_entry(&mut es, "destination", grid_range_value(sheet_id, to_row - 1, to_row, 0, cols), Ghost(k1), Ghost(dst));
        let ghost k2 = k1.push(("destination"@, dst));
        push_entry(&mut es, "pasteType", str_value("PASTE_DATA_VALIDATION"), Ghost(k2), Ghost(ptype));
        let ghost k3 = k2.push(("pasteType"@, ptype));
        assert(k3 =~= seq![("source"@, src), ("destination"@, dst), ("pasteType"@, ptype)]);
        let copy = object_from(es, Ghost(k3));
        let req = object1("copyPaste", copy, Ghost(JsonView::Object(k3)));
        let body = batch_value(req, Ghost(JsonView::Object(seq![("copyPaste"@, JsonView::Object(k3))])));
        self.request(Method::Post, url, Some(body), true)
    }

    /// The request for the grid data of `range`, which holds its validation rules.
    pub fn get_cell_metadata(&self, range: &str) -> (r: Request)
        ensures
            r.method == Method::Get,
            r.url@ == grid_url(self.spreadsheet(), range@),
            r.authorization@ == "Bearer "@ + self.token_text(),
            r.body is None,
            r.check_status,
    {
        let mut url = self.base_with_id();
        append_str(&mut url, "?includeGridData=true&ranges=");
        append_str(&mut url, range);
        self.request(Method::Get, url, None, true)
    }

    /// The request that deletes the worksheet `sheet_id`.
    pub fn delete_sheet(&self, sheet_id: i64) -> (r: Request)
        ensures
            r.method == Method::Post,
            r.url@ == batch_url(self.spreadsheet()),
            r.authorization@ == "Bearer "@ + self.token_text(),
            r.body matches Some(b) && json_is(b, delete_sheet_body(sheet_id)),
            r.check_status,
    {
        let mut url = self.base_with_id();
        append_str(&mut url, ":batchUpdate");
        let ghost n = JsonView::Number(signed_decimal(sheet_id as int));
        let inner = object1("sheetId", int_value(sheet_id), Ghost(n));
        let req = object1("deleteSheet", inner, Ghost(JsonView::Object(seq![("sheetId"@, n)])));
        let body = batch_value(
            req,
            Ghost(JsonView::Object(seq![("deleteSheet"@, JsonView::Object(seq![("sheetId"@, n)]))])),
        );
        self.request(Method::Post, url, Some(body), true)
    }

    /// The request that adds an empty worksheet titled `title`.
    pub fn add_sheet(&self, title: &str) -> (r: Request)
        ensures
            r.method == Method::Post,
            r.url@ == batch_url(self.spreadsheet()),
            r.authorization@ == "Bearer "@ + self.token_text(),
            r.body matches Some(b) && json_is(b, add_sheet_body(title@)),
            r.check_status,
    {
        let mut url = self.base_with_id();
        append_str(&mut url, ":batchUpdate");
        let ghost t = JsonView::Object(seq![("title"@, JsonView::Str(title@))]);
        let props = object1("title", str_value(title), Ghost(JsonView::Str(title@)));
        let add = object1("properties", props, Ghost(t));
        let ghost a = JsonView::Object(seq![("properties"@, t)]);
        let req = object1("addSheet", add, Ghost(a));
        let body = batch_value(req, Ghost(JsonView::Object(seq![("addSheet"@, a)])));
        self.request(Method::Post, url, Some(body), true)
    }

    /// The request for the whole grid data of the worksheet `sheet_title`
    /// (values and metadata); an error status of its reply is not checked.
    pub fn get_sheet_full(&self, sheet_title: &str) -> (r: Request)
        ensures
            r.method == Method::Get,
            r.url@ == full_sheet_url(self.spreadsheet(), sheet_title@),
            r.authorization@ == "Bearer "@ + self.token_text(),
            r.body is None,
            !r.check_status,
    {
        let mut url = self.base_with_id();
        append_str(&mut url, "?ranges='");
        append_str(&mut url, sheet_title);
        append_str(&mut url, "'&includeGridData=true");
        self.request(Method::Get, url, None, false)
    }

    /// The request that gives the cell at 0-based `row` and 1-based `col` of
    /// worksheet `sheet_id` a strict dropdown list of `values`.
    pub fn set_data_validation(&self, sheet_id: i64, row: usize, col: usize, values: Vec<String>) -> (r: Request)
        requires
            col >= 1,
            row < usize::MAX,
        ensures
            r.method == Method::Post,
            r.url@ == batch_url(self.spreadsheet()),
            r.authorization@ == "Bearer "@ + self.token_text(),
            r.body matches Some(b) && json_is(
                b,
                validation_body(sheet_id, row as nat, col as nat, crate::commands::strs(values@)),
            ),
            r.check_status,
    {
        let mut url = self.base_with_id();
        append_str(&mut url, ":batchUpdate");
        let ghost vs = crate::commands::strs(values@);
        let ghost items = Seq::new(
            vs.len(),
            |i: int| JsonView::Object(seq![("userEnteredValue"@, JsonView::Str(vs[i]))]),
        );
        let mut cv: Vec<JsonValue> = Vec::new();
        let mut i: usize = 0;
        while i < values.len()
            invariant
                i <= values@.len(),
                vs == crate::commands::strs(values@),
                items == Seq::new(
                    vs.len(),
                    |i: int| JsonView::Object(seq![("userEnteredValue"@, JsonView::Str(vs[i]))]),
                ),
                cv@.len() == i,
                forall|k: int| 0 <= k < i ==> json_is(#[trigger] cv@[k], items[k]),
            decreases values@.len() - i,
        {
            let v = object1(
                "userEnteredValue",
                str_value(values[i].as_str()),
                Ghost(JsonView::Str(values@[i as int]@)),
            );
            cv.push(v);
            i += 1;
        }
        let values_json = JsonValue::Array(cv);
        assert(json_is(values_json, JsonView::Array(items)));
        let ghost ty = JsonView::Str("ONE_OF_LIST"@);
        let mut ce: Vec<(String, JsonValue)> = Vec::new();
        push_entry(&mut ce, "type", str_value("ONE_OF_LIST"), Ghost(Seq::<(Seq<char>, JsonView)>::empty()), Ghost(ty));
        let ghost c1 = Seq::<(Seq<char>, JsonView)>::empty().push(("type"@, ty));
        push_entry(&mut ce, "values", values_json, Ghost(c1), Ghost(JsonView::Array(items)));
        let ghost c2 = c1.push(("values"@, JsonView::Array(items)));
        let condition = object_from(ce, Ghost(c2));
        let mut re: Vec<(String, JsonValue)> = Vec::new();
        push_entry(&mut re, "condition", condition, Ghost(Seq::<(Seq<char>, JsonView)>::empty()), Ghost(JsonView::Object(c2)));
        let ghost r1 = Seq::<(Seq<char>, JsonView)>::empty().push(("condition"@, JsonView::Object(c2)));
        push_entry(&mut re, "showCustomUi", bool_value(true), Ghost(r1), Ghost(JsonView::Bool(true)));
        let ghost r2 = r1.push(("showCustomUi"@, JsonView::Bool(true)));
        push_entry(&mut re, "strict", bool_value(true), Ghost(r2), Ghost(JsonView::Bool(true)));
        let ghost r3 = r2.push(("strict"@, JsonView::Bool(true)));
        let rule = object_from(re, Ghost(r3));
        let ghost range = grid_range(sheet_id, row as nat, (row + 1) as nat, (col - 1) as nat, col as nat);
        let mut se: Vec<(String, JsonValue)> = Vec::new();
        push_entry(&mut se, "range", grid_range_value(sheet_id, row, row + 1, col - 1, col), Ghost(Seq::<(Seq<char>, JsonView)>::empty()), Ghost(range));
        let ghost s1 = Seq::<(Seq<char>, JsonView)>::empty().push(("range"@, range));
        push_entry(&mut se, "rule", rule, Ghost(s1), Ghost(JsonView::Object(r3)));
        let ghost s2 = s1.push(("rule"@, JsonView::Object(r3)));
        let set = object_from(se, Ghost(s2));
        let req = object1("setDataValidation", set, Ghost(JsonView::Object(s2)));
        let ghost reqv = JsonView::Object(seq![("setDataValidation"@, JsonView::Object(s2))]);
        let body = batch_value(req, Ghost(reqv));
        assert(batch_body(reqv) == validation_body(sheet_id, row as nat, col as nat, vs)) by {
            assert(c2 =~= seq![("type"@, ty), ("values"@, JsonView::Array(items))]);
            assert(r3 =~= seq![
                ("condition"@, JsonView::Object(c2)),
                ("showCustomUi"@, JsonView::Bool(true)),
                ("strict"@, JsonView::Bool(true)),
            ]);
            assert(s2 =~= seq![("range"@, range), ("rule"@, JsonView::Object(r3))]);
        }
        self.request(Method::Post, url, Some(body), true)
    }
}

} // verus!
