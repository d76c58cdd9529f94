//! What the table of the current worksheet shows: the window of rows and
//! columns of the current page, the column headers, and each visible cell,
//! shortened when long and marked when selected.
use vstd::prelude::*;
use crate::address::{column_letters, column_letters_chars};
use crate::app::App;
use crate::text::{append_str, chars_of, decimal, decimal_chars, extend_chars, string_of, utf8_len};

verus! {

/// How a cell of the table is marked.
#[derive(Debug, Clone, Copy, PartialEq, Eq, Structural)]
pub enum Highlight {
    /// The selected cell.
    Cell,
    /// Another cell of the selected row.
    Row,
    Plain,
}

/// A cell of the table: its text and its marking.
#[derive(Debug)]
pub struct TableCell {
    pub text: String,
    pub highlight: Highlight,
}

/// A row of the table: its index in the data (row 0 is the header row) and its cells.
#[derive(Debug)]
pub struct TableRow {
    pub index: usize,
    pub label: String,
    pub cells: Vec<TableCell>,
}

/// The table of the current page.
#[derive(Debug)]
pub struct TableLayout {
    pub title: String,
    /// The headers of the shown columns: `(<letters>) <text of row 0>`.
    pub header: Vec<String>,
    pub rows: Vec<TableRow>,
    pub num_rows: usize,
    pub num_cols: usize,
    /// The first and past-the-last shown column (0-based).
    pub start_col: usize,
    pub end_col: usize,
}

/// The number of UTF-8 bytes of `s`.
pub open spec fn byte_len(s: Seq<char>) -> nat
    decreases s.len(),
{
    if s.len() == 0 {
        0
    } else {
        byte_len(s.drop_last()) + utf8_len(s.last())
    }
}

/// The characters of the first `n` UTF-8 bytes of `s` (`&s[..n]`), or `None`
/// where byte `n` is not the start of a character or lies past the end.
pub open spec fn take_bytes(s: Seq<char>, n: nat) -> Option<Seq<char>>
    decreases s.len(),
{
    if n == 0 {
        Some(seq![])
    } else if s.len() == 0 {
        None
    } else if utf8_len(s[0]) <= n {
        match take_bytes(s.drop_first(), (n - utf8_len(s[0])) as nat) {
            Some(p) => Some(seq![s[0]] + p),
            None => None,
        }
    } else {
        None
    }
}

/// The text shown for a cell: longer than 30 bytes, its first 27 bytes and
/// `...`; `None` where byte 27 is inside a character (cutting there panics).
pub open spec fn shown_text(s: Seq<char>) -> Option<Seq<char>> {
    if byte_len(s) > 30 {
        match take_bytes(s, 27) {
            Some(p) => Some(p + seq!['.', '.', '.']),
            None => None,
        }
    } else {
        Some(s)
    }
}

/// The text of cell `c` of row `r` of the data, empty where there is none.
pub open spec fn cell_text(data: Seq<Vec<String>>, r: int, c: int) -> Seq<char> {
    if 0 <= r < data.len() && 0 <= c < data[r]@.len() {
        data[r]@[c]@
    } else {
        seq![]
    }
}

/// The marking of cell `c` (0-based) of row `r` for the selected row and column.
pub open spec fn highlight_of(sel_row: Option<usize>, sel_col: Option<usize>, r: int, c: int) -> Highlight {
    if sel_row == Some(r as usize) && sel_col == Some((c + 1) as usize) {
        Highlight::Cell
    } else if sel_row == Some(r as usize) {
        Highlight::Row
    } else {
        Highlight::Plain
    }
}

/// The first row of page `page` (1-based) of pages of `size` rows.
pub open spec fn page_start(page: int, size: int) -> int {
    (page - 1) * size
}

/// The smaller of `a` and `b`.
pub open spec fn min(a: int, b: int) -> int {
    if a <= b {
        a
    } else {
        b
    }
}

/// Whether the page numbers and sizes of `app` can be used without an
/// arithmetic fault: pages count from 1, and a page ends within `usize`.
pub open spec fn paging_ok(app: &App) -> bool {
    &&& app.row_page >= 1
    &&& app.col_page >= 1
    &&& page_start(app.row_page as int, app.page_size_rows as int) + app.page_size_rows <= usize::MAX
    &&& page_start(app.col_page as int, app.page_size_cols as int) + app.page_size_cols <= usize::MAX
}

/// The number of columns: the width of the first row.
pub open spec fn num_cols_of(app: &App) -> int {
    if app.data@.len() > 0 {
        app.data@[0]@.len() as int
    } else {
        0
    }
}

/// The first shown row: row 1 on the first page (row 0 is the header), else the page start.
pub open spec fn first_row(app: &App) -> int {
    if app.row_page == 1 {
        1
    } else {
        page_start(app.row_page as int, app.page_size_rows as int)
    }
}

/// Past the last shown row.
pub open spec fn end_row(app: &App) -> int {
    min(
        page_start(app.row_page as int, app.page_size_rows as int) + app.page_size_rows,
        app.data@.len() as int,
    )
}

/// The first shown column.
pub open spec fn start_col(app: &App) -> int {
    page_start(app.col_page as int, app.page_size_cols as int)
}

/// Past the last shown column.
pub open spec fn end_col(app: &App) -> int {
    min(start_col(app) + app.page_size_cols, num_cols_of(app))
}

/// Whether the table of `app` can be drawn: with data, the current worksheet
/// exists, the paging is sound and every shown cell can be shortened.
pub open spec fn table_ok(app: &App) -> bool {
    app.data@.len() > 0 ==> {
        &&& app.current_sheet_idx < app.sheets@.len()
        &&& paging_ok(app)
        &&& forall|r: int, c: int|
            first_row(app) <= r < end_row(app) && start_col(app) <= c < end_col(app)
                ==> #[trigger] shown_text(cell_text(app.data@, r, c)) is Some
    }
}

/// The header of column `c` (0-based): `(<letters>) <text of row 0>`.
pub open spec fn header_text(data: Seq<Vec<String>>, c: int) -> Seq<char> {
    seq!['('] + column_letters((c + 1) as nat) + seq![')', ' '] + cell_text(data, 0, c)
}

/// Whether `cells` are the cells shown for row `r` of `app`.
pub open spec fn row_shown(app: &App, r: int, cells: Seq<TableCell>) -> bool {
    &&& cells.len() == if end_col(app) > start_col(app) {
        end_col(app) - start_col(app)
    } else {
        0
    }
    &&& forall|j: int| 0 <= j < cells.len() ==> cell_shown(app, r, start_col(app) + j, #[trigger] cells[j])
}

/// Whether `cell` is what the table shows for cell `c` (0-based) of row `r`.
pub open spec fn cell_shown(app: &App, r: int, c: int, cell: TableCell) -> bool {
    &&& Some(cell.text@) == shown_text(cell_text(app.data@, r, c))
    &&& cell.highlight == highlight_of(app.selected_row, app.selected_col, r, c)
}

proof fn lemma_byte_len_concat(a: Seq<char>, b: Seq<char>)
    ensures
        byte_len(a + b) == byte_len(a) + byte_len(b),
    decreases b.len(),
{
    if b.len() == 0 {
        assert(a + b =~= a);
    } else {
        lemma_byte_len_concat(a, b.drop_last());
        assert((a + b).drop_last() =~= a + b.drop_last());
    }
}

proof fn lemma_take_bytes_len(s: Seq<char>, n: nat)
    ensures
        take_bytes(s, n) matches Some(p) ==> byte_len(p) == n,
    decreases s.len(),
{
    if n > 0 && s.len() > 0 && utf8_len(s[0]) <= n {
        let w = utf8_len(s[0]);
        lemma_take_bytes_len(s.drop_first(), (n - w) as nat);
        if let Some(p) = take_bytes(s.drop_first(), (n - w) as nat) {
            lemma_byte_len_concat(seq![s[0]], p);
            assert(seq![s[0]].drop_last() =~= Seq::<char>::empty());
            assert(byte_len(Seq::<char>::empty()) == 0);
            assert(byte_len(seq![s[0]]) == w);
            assert(take_bytes(s, n) == Some(seq![s[0]] + p));
        }
    } else if n == 0 {
        assert(byte_len(Seq::<char>::empty()) == 0);
    }
}

/// A cell never shows more than 30 bytes: longer text is cut to 27 bytes and
/// `...`.
pub proof fn lemma_shown_text_fits(s: Seq<char>)
    ensures
        shown_text(s) matches Some(t) ==> byte_len(t) <= 30,
        byte_len(s) <= 30 ==> shown_text(s) == Some(s),
{
    if byte_len(s) > 30 {
        lemma_take_bytes_len(s, 27);
        if let Some(p) = take_bytes(s, 27) {
            lemma_byte_len_concat(p, seq!['.', '.', '.']);
            let d = seq!['.', '.', '.'];
            let d1 = seq!['.'];
            let d2 = seq!['.', '.'];
            assert(d1.drop_last() =~= Seq::<char>::empty());
            assert(d2.drop_last() =~= d1);
            assert(d.drop_last() =~= d2);
            assert(utf8_len('.') == 1);
            assert(byte_len(Seq::<char>::empty()) == 0);
            assert(byte_len(d1) == 1);
            assert(byte_len(d2) == 2);
            assert(byte_len(d) == 3);
        }
    }
}

/// Each data row below the header is shown on exactly one page of rows: row
/// `r` on page `r / size + 1`, for pages of `size > 0` rows.
pub proof fn lemma_each_row_on_one_page(app: &App, r: int)
    requires
        app.page_size_rows > 0,
        app.row_page >= 1,
        1 <= r < app.data@.len(),
    ensures
        first_row(app) <= r < end_row(app) <==> app.row_page == r / (app.page_size_rows as int) + 1,
{
    let s = app.page_size_rows as int;
    let p = app.row_page as int;
    let q = r / s;
    assert(q * s <= r < q * s + s) by (nonlinear_arith)
        requires
            s > 0,
            q == r / s,
    ;
    assert(q >= 0) by (nonlinear_arith)
        requires
            s > 0,
            r >= 0,
            q == r / s,
    ;
    if p - 1 < q {
        assert((p - 1) * s + s <= q * s) by (nonlinear_arith)
            requires
                p - 1 < q,
                s > 0,
        ;
    } else if p - 1 > q {
        assert(q * s + s <= (p - 1) * s) by (nonlinear_arith)
            requires
                p - 1 > q,
                s > 0,
        ;
    }
    if p == 1 {
        assert(page_start(p, s) == 0);
    }
}

/// The number of UTF-8 bytes of `s` is more than `n`.
fn bytes_exceed(s: &[char], n: usize) -> (b: bool)
    ensures
        b == (byte_len(s@) > n),
{
    let mut total: usize = 0;
    let mut i: usize = 0;
    while i < s.len()
        invariant
            i <= s@.len(),
            total == byte_len(s@.take(i as int)),
            total <= n,
        decreases s@.len() - i,
    {
        assert(s@.take(i + 1).drop_last() =~= s@.take(i as int));
        let c = s[i];
        let u = c as u32;
        let w: usize = if u < 0x80 {
            1
        } else if u < 0x800 {
            2
        } else if u < 0x10000 {
            3
        } else {
            4
        };
        if w > n - total {
            proof {
                lemma_byte_len_prefix(s@, i + 1);
            }
            return true;
        }
        total = total + w;
        i += 1;
    }
    assert(s@.take(s@.len() as int) =~= s@);
    false
}

proof fn lemma_byte_len_prefix(s: Seq<char>, j: int)
    requires
        0 <= j <= s.len(),
    ensures
        byte_len(s.take(j)) <= byte_len(s),
    decreases s.len() - j,
{
    if j < s.len() {
        lemma_byte_len_prefix(s.drop_last(), j);
        assert(s.drop_last().take(j) =~= s.take(j));
    } else {
        assert(s.take(j) =~= s);
    }
}

/// `&s[..n]` on the UTF-8 form of `s`, where that slice exists.
fn take_bytes_chars(s: &[char], n: usize) -> (r: Option<Vec<char>>)
    ensures
        r matches Some(v) ==> take_bytes(s@, n as nat) == Some(v@),
        r is None ==> take_bytes(s@, n as nat) is None,
{
    let mut i: usize = 0;
    let mut left: usize = n;
    let mut out: Vec<char> = Vec::new();
    assert(s@.skip(0) =~= s@);
    while left > 0
        invariant
            i <= s@.len(),
            out@ == s@.take(i as int),
            take_bytes(s@, n as nat) == match take_bytes(s@.skip(i as int), left as nat) {
                Some(p) => Some(out@ + p),
                None => None,
            },
        decreases left,
    {
        if i >= s.len() {
            return None;
        }
        let c = s[i];
        let u = c as u32;
        let w: usize = if u < 0x80 {
            1
        } else if u < 0x800 {
            2
        } else if u < 0x10000 {
            3
        } else {
            4
        };
        let ghost rest = s@.skip(i as int);
        assert(rest[0] == c);
        assert(rest.drop_first() =~= s@.skip(i + 1));
        if w > left {
            return None;
        }
        proof {
            match take_bytes(s@.skip(i + 1), (left - w) as nat) {
                Some(p) => {
                    assert(out@ + (seq![c] + p) =~= out@.push(c) + p);
                },
                None => {},
            }
        }
        out.push(c);
        assert(s@.take(i + 1) =~= s@.take(i as int).push(c));
        left -= w;
        i += 1;
    }
    assert(out@ + Seq::<char>::empty() =~= out@);
    Some(out)
}

/// The text shown for a cell, where it can be made.
pub fn shown_text_of(s: &String) -> (r: Option<String>)
    ensures
        r matches Some(t) ==> shown_text(s@) == Some(t@),
        r is None ==> shown_text(s@) is None,
{
    let cs = chars_of(s.as_str());
    if bytes_exceed(cs.as_slice(), 30) {
        match take_bytes_chars(cs.as_slice(), 27) {
            Some(mut p) => {
                append_str(&mut p, "...");
                proof {
                    reveal_strlit("...");
                }
                Some(string_of(p.as_slice()))
            },
            None => None,
        }
    } else {
        Some(s.clone())
    }
}

/// The text of cell `c` of row `r`, empty where there is none.
fn cell_text_of(data: &Vec<Vec<String>>, r: usize, c: usize) -> (t: String)
    ensures
        t@ == cell_text(data@, r as int, c as int),
{
    if r < data.len() && c < data[r].len() {
        data[r][c].clone()
    } else {
        String::new()
    }
}

/// The header of column `c`: `(<letters>) <text of row 0>`.
fn header_text_of(data: &Vec<Vec<String>>, c: usize) -> (t: String)
    requires
        c < usize::MAX,
    ensures
        t@ == header_text(data@, c as int),
{
    let mut v: Vec<char> = Vec::new();
    v.push('(');
    let letters = column_letters_chars(c + 1);
    extend_chars(&mut v, letters.as_slice());
    v.push(')');
    v.push(' ');
    let t0 = cell_text_of(data, 0, c);
    append_str(&mut v, t0.as_str());
    assert(v@ =~= header_text(data@, c as int));
    string_of(v.as_slice())
}

/// The marking of cell `c` (0-based) of row `r`.
fn highlight_for(sel_row: Option<usize>, sel_col: Option<usize>, r: usize, c: usize) -> (h: Highlight)
    requires
        c < usize::MAX,
    ensures
        h == highlight_of(sel_row, sel_col, r as int, c as int),
{
    let row_hit = match sel_row {
        Some(x) => x == r,
        None => false,
    };
    let col_hit = match sel_col {
        Some(x) => x == c + 1,
        None => false,
    };
    if row_hit && col_hit {
        Highlight::Cell
    } else if row_hit {
        Highlight::Row
    } else {
        Highlight::Plain
    }
}

impl App {
    /// Whether the table of the current page can be drawn (see [`table_ok`]).
    pub fn table_renderable(&self) -> (b: bool)
        ensures
            b == table_ok(self),
    {
        if self.data.len() == 0 {
            return true;
        }
        if self.current_sheet_idx >= self.sheets.len() || self.row_page == 0 || self.col_page == 0 {
            return false;
        }
        let rs = match (self.row_page - 1).checked_mul(self.page_size_rows) {
            Some(x) => x,
            None => return false,
        };
        let re = match rs.checked_add(self.page_size_rows) {
            Some(x) => x,
            None => return false,
        };
        let cs = match (self.col_page - 1).checked_mul(self.page_size_cols) {
            Some(x) => x,
            None => return false,
        };
        let ce = match cs.checked_add(self.page_size_cols) {
            Some(x) => x,
            None => return false,
        };
        assert(paging_ok(self));
        let first: usize = if self.row_page == 1 {
            1
        } else {
            rs
        };
        let last: usize = if re < self.data.len() {
            re
        } else {
            self.data.len()
        };
        let ncols = self.data[0].len();
        let cend: usize = if ce < ncols {
            ce
        } else {
            ncols
        };
        assert(first == first_row(self) && last == end_row(self) && cs == start_col(self) && cend
            == end_col(self));
        let mut r = first;
        while r < last
            invariant
                first <= r,
                r <= last || r == first,
                first == first_row(self),
                last == end_row(self),
                cs == start_col(self),
                cend == end_col(self),
                forall|rr: int, cc: int|
                    first <= rr < r && cs <= cc < cend ==> #[trigger] shown_text(
                        cell_text(self.data@, rr, cc),
                    ) is Some,
            decreases last - r,
        {
            let mut c = cs;
            while c < cend
                invariant
                    first <= r < last,
                    cs <= c,
                    c <= cend || c == cs,
                    first == first_row(self),
                    last == end_row(self),
                    cs == start_col(self),
                    cend == end_col(self),
                    self.data@.len() > 0,
                    forall|rr: int, cc: int|
                        first <= rr < r && cs <= cc < cend ==> #[trigger] shown_text(
                            cell_text(self.data@, rr, cc),
                        ) is Some,
                    forall|cc: int|
                        cs <= cc < c ==> #[trigger] shown_text(cell_text(self.data@, r as int, cc))
                            is Some,
                decreases cend - c,
            {
                let t = cell_text_of(&self.data, r, c);
                if shown_text_of(&t).is_none() {
                    return false;
                }
                c += 1;
            }
            r += 1;
        }
        true
    }

    /// The cells shown for row `r`, between the shown columns `start_c..end_c`.
    fn row_cells(&self, r: usize, start_c: usize, end_c: usize) -> (cells: Vec<TableCell>)
        requires
            table_ok(self),
            self.data@.len() > 0,
            first_row(self) <= r < end_row(self),
            start_c == start_col(self),
            end_c == end_col(self),
        ensures
            row_shown(self, r as int, cells@),
    {
        let mut cells: Vec<TableCell> = Vec::new();
        let mut c = start_c;
        while c < end_c
            invariant
                first_row(self) <= r < end_row(self),
                start_c <= c,
                c <= end_c || c == start_c,
                start_c == start_col(self),
                end_c == end_col(self),
                table_ok(self),
                self.data@.len() > 0,
                cells@.len() == c - start_c,
                forall|j: int|
                    0 <= j < cells@.len() ==> cell_shown(self, r as int, start_c + j, #[trigger] cells@[j]),
            decreases end_c - c,
        {
            let t = cell_text_of(&self.data, r, c);
            assert(shown_text(cell_text(self.data@, r as int, c as int)) is Some);
            let text = match shown_text_of(&t) {
                Some(x) => x,
                None => String::new(),
            };
            let h = highlight_for(self.selected_row, self.selected_col, r, c);
            let ghost before = cells@;
            let ghost tv = text@;
            cells.push(TableCell { text, highlight: h });
            assert(forall|j: int| 0 <= j < before.len() ==> cells@[j] == before[j]);
            assert(cell_shown(self, r as int, c as int, cells@[cells@.len() - 1]));
            c += 1;
        }
        cells
    }

    /// The table of the current page; `None` when no data is loaded.
    pub fn table_layout(&self) -> (t: Option<TableLayout>)
        requires
            table_ok(self),
        ensures
            t is None <==> self.data@.len() == 0,
            t matches Some(l) ==> {
                &&& l.title@ == self.sheets@[self.current_sheet_idx as int].title@
                &&& l.num_rows == self.data@.len()
                &&& l.num_cols == num_cols_of(self)
                &&& l.start_col == start_col(self)
                &&& l.end_col == end_col(self)
                &&& l.header@.len() == if end_col(self) > start_col(self) {
                    end_col(self) - start_col(self)
                } else {
                    0
                }
                &&& forall|j: int|
                    0 <= j < l.header@.len() ==> #[trigger] l.header@[j]@ == header_text(
                        self.data@,
                        start_col(self) + j,
                    )
                &&& l.rows@.len() == if end_row(self) > first_row(self) {
                    end_row(self) - first_row(self)
                } else {
                    0
                }
                &&& forall|k: int|
                    0 <= k < l.rows@.len() ==> {
                        &&& #[trigger] l.rows@[k].index == first_row(self) + k
                        &&& l.rows@[k].label@ == decimal((first_row(self) + k) as nat)
                        &&& row_shown(self, first_row(self) + k, l.rows@[k].cells@)
                    }
            },
    {
        if self.data.len() == 0 {
            return None;
        }
        let num_rows = self.data.len();
        let num_cols = self.data[0].len();
        let start_row = (self.row_page - 1) * self.page_size_rows;
        let first: usize = if self.row_page == 1 {
            1
        } else {
            start_row
        };
        let last: usize = if start_row + self.page_size_rows < num_rows {
            start_row + self.page_size_rows
        } else {
            num_rows
        };
        let start_c = (self.col_page - 1) * self.page_size_cols;
        let end_c: usize = if start_c + self.page_size_cols < num_cols {
            start_c + self.page_size_cols
        } else {
            num_cols
        };
        let mut header: Vec<String> = Vec::new();
        let mut c = start_c;
        while c < end_c
            invariant
                start_c <= c,
                c <= end_c || c == start_c,
                start_c == start_col(self),
                end_c == end_col(self),
                end_c <= num_cols_of(self),
                header@.len() == c - start_c,
                forall|j: int|
                    0 <= j < header@.len() ==> #[trigger] header@[j]@ == header_text(
                        self.data@,
                        start_c + j,
                    ),
            decreases end_c - c,
        {
            header.push(header_text_of(&self.data, c));
            c += 1;
        }
        let mut rows: Vec<TableRow> = Vec::new();
        let mut r = first;
        while r < last
            invariant
                first <= r,
                r <= last || r == first,
                first == first_row(self),
                last == end_row(self),
                start_c == start_col(self),
                end_c == end_col(self),
                table_ok(self),
                self.data@.len() > 0,
                num_rows == self.data@.len(),
                num_cols == num_cols_of(self),
                header@.len() == if end_c > start_c {
                    end_c - start_c
                } else {
                    0
                },
                forall|j: int|
                    0 <= j < header@.len() ==> #[trigger] header@[j]@ == header_text(
                        self.data@,
                        start_c + j,
                    ),
                rows@.len() == r - first,
                forall|k: int|
                    0 <= k < rows@.len() ==> {
                        &&& #[trigger] rows@[k].index == first + k
                        &&& rows@[k].label@ == decimal((first + k) as nat)
                        &&& row_shown(self, first + k, rows@[k].cells@)
                    },
            decreases last - r,
        {
            let cells = self.row_cells(r, start_c, end_c);
            let d = decimal_chars(r as u64);
            let ghost before = rows@;
            assert(row_shown(self, r as int, cells@));
            rows.push(TableRow { index: r, label: string_of(d.as_slice()), cells });
            assert(forall|k: int| 0 <= k < before.len() ==> rows@[k] == before[k]);
            r += 1;
        }
        let ghost rv = rows@;
        let ghost hv = header@;
        let layout = TableLayout {
            title: self.sheets[self.current_sheet_idx].title.clone(),
            header,
            rows,
            num_rows,
            num_cols,
            start_col: start_c,
            end_col: end_c,
        };
        assert(layout.rows@ == rv && layout.header@ == hv);
        assert(forall|k: int|
            0 <= k < layout.rows@.len() ==> {
                &&& #[trigger] layout.rows@[k].index == first_row(self) + k
                &&& layout.rows@[k].label@ == decimal((first_row(self) + k) as nat)
                &&& row_shown(self, first_row(self) + k, layout.rows@[k].cells@)
            });
        Some(layout)
    }
}

} // verus!
