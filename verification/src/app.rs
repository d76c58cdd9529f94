//! The state of an open spreadsheet: its worksheets, the cached values of the
//! current one, the selected cell, its dropdown options, and the undo/redo
//! history of cell changes.
use vstd::prelude::*;
use crate::address::{cell_address, cell_address_chars};
use crate::commands::strs;
use crate::json::JsonValue;
use crate::sheets::{
    condition_type, condition_values, read_validation, rule_readable, validation_condition,
    SheetMeta,
};
use crate::text::{
    chars_of, decimal, decimal_chars, eq_str, extend_chars, lower_chars, lower_text, slice_chars,
    starts_with, starts_with_str, string_of, trim, trim_chars,
};

verus! {

/// One change made to a cell, kept for undo and redo.
#[derive(Debug)]
pub struct CellAction {
    pub sheet_idx: usize,
    pub row: usize,
    pub col: usize,
    pub old_value: String,
    pub new_value: String,
}

/// The mathematical form of a [`CellAction`].
pub struct ActionView {
    pub sheet_idx: usize,
    pub row: usize,
    pub col: usize,
    pub old_value: Seq<char>,
    pub new_value: Seq<char>,
}

impl View for CellAction {
    type V = ActionView;

    open spec fn view(&self) -> ActionView {
        ActionView {
            sheet_idx: self.sheet_idx,
            row: self.row,
            col: self.col,
            old_value: self.old_value@,
            new_value: self.new_value@,
        }
    }
}

impl Clone for CellAction {
    fn clone(&self) -> (r: Self)
        ensures
            r@ == self@,
    {
        CellAction {
            sheet_idx: self.sheet_idx,
            row: self.row,
            col: self.col,
            old_value: self.old_value.clone(),
            new_value: self.new_value.clone(),
        }
    }
}

/// The actions of a stack, in their mathematical form.
pub open spec fn actions(v: Seq<CellAction>) -> Seq<ActionView> {
    Seq::new(v.len(), |i: int| v[i]@)
}

/// A value to write to a range, and the action that the write belongs to.
#[derive(Debug)]
pub struct PendingWrite {
    pub range: String,
    pub value: String,
    pub action: CellAction,
}

/// The state of the application for one open spreadsheet.
pub struct App {
    pub sheets: Vec<SheetMeta>,
    pub current_sheet_idx: usize,
    pub data: Vec<Vec<String>>,
    pub selected_row: Option<usize>,
    pub selected_col: Option<usize>,
    /// Options of the data validation (dropdown) of the selected cell.
    pub cell_options: Vec<String>,
    pub undo_stack: Vec<CellAction>,
    pub redo_stack: Vec<CellAction>,
    /// The 1-based page of rows and of columns that the table shows.
    pub row_page: usize,
    pub col_page: usize,
    pub page_size_rows: usize,
    pub page_size_cols: usize,
}

/// Rows shown on one page of the table, when the app starts.
pub const DEFAULT_PAGE_ROWS: usize = 20;

/// Columns shown on one page of the table, when the app starts.
pub const DEFAULT_PAGE_COLS: usize = 8;

/// The cached value of the cell at 1-based `row` and `col`; empty outside the data.
pub open spec fn cell_value(data: Seq<Vec<String>>, row: int, col: int) -> Seq<char> {
    if 0 < row <= data.len() && 0 < col <= data[row - 1]@.len() {
        data[row - 1]@[col - 1]@
    } else {
        seq![]
    }
}

/// The range `title!A1` of one cell.
pub open spec fn sheet_range(title: Seq<char>, row: nat, col: nat) -> Seq<char> {
    title + seq!['!'] + cell_address(row, col)
}

/// The range `'title'!A1` of one cell, with the title quoted.
pub open spec fn quoted_range(title: Seq<char>, row: nat, col: nat) -> Seq<char> {
    seq!['\''] + title + seq!['\'', '!'] + cell_address(row, col)
}

/// The stacks after a change `a` is recorded: it goes on the undo stack and
/// the redo stack is emptied.
pub open spec fn after_record(u: Seq<ActionView>, r: Seq<ActionView>, a: ActionView) -> (
    Seq<ActionView>,
    Seq<ActionView>,
) {
    (u.push(a), seq![])
}

/// The stacks after an undo: the last change moves from the undo stack to the redo stack.
pub open spec fn after_undo(u: Seq<ActionView>, r: Seq<ActionView>) -> (
    Seq<ActionView>,
    Seq<ActionView>,
) {
    if u.len() == 0 {
        (u, r)
    } else {
        (u.drop_last(), r.push(u.last()))
    }
}

/// The stacks after a redo: the last undone change moves back to the undo stack.
pub open spec fn after_redo(u: Seq<ActionView>, r: Seq<ActionView>) -> (
    Seq<ActionView>,
    Seq<ActionView>,
) {
    if r.len() == 0 {
        (u, r)
    } else {
        (u.push(r.last()), r.drop_last())
    }
}

/// The cell and value that an undo writes: the old value of the last change.
pub open spec fn undo_write(u: Seq<ActionView>) -> Option<(usize, usize, usize, Seq<char>)> {
    if u.len() == 0 {
        None
    } else {
        Some((u.last().sheet_idx, u.last().row, u.last().col, u.last().old_value))
    }
}

/// The cell and value that a redo writes: the new value of the last undone change.
pub open spec fn redo_write(r: Seq<ActionView>) -> Option<(usize, usize, usize, Seq<char>)> {
    if r.len() == 0 {
        None
    } else {
        Some((r.last().sheet_idx, r.last().row, r.last().col, r.last().new_value))
    }
}

/// The range `title!A1` for `title`, `row` and `col`.
fn range_string(title: &String, row: usize, col: usize) -> (s: String)
    requires
        row < usize::MAX,
    ensures
        s@ == sheet_range(title@, row as nat, col as nat),
{
    let mut v = chars_of(title.as_str());
    v.push('!');
    let a = cell_address_chars(row, col);
    extend_chars(&mut v, a.as_slice());
    string_of(v.as_slice())
}

/// The range `'title'!A1` for `title`, `row` and `col`.
fn quoted_range_string(title: &String, row: usize, col: usize) -> (s: String)
    requires
        row < usize::MAX,
    ensures
        s@ == quoted_range(title@, row as nat, col as nat),
{
    let mut v: Vec<char> = Vec::new();
    v.push('\'');
    let t = chars_of(title.as_str());
    extend_chars(&mut v, t.as_slice());
    v.push('\'');
    v.push('!');
    let a = cell_address_chars(row, col);
    extend_chars(&mut v, a.as_slice());
    assert(v@ =~= quoted_range(title@, row as nat, col as nat));
    string_of(v.as_slice())
}

impl App {
    /// The state right after the worksheets of a spreadsheet were fetched:
    /// the first worksheet is current, nothing is loaded or selected.
    pub fn new(sheets: Vec<SheetMeta>) -> (app: App)
        ensures
            app.sheets@ == sheets@,
            app.current_sheet_idx == 0,
            app.data@.len() == 0,
            app.selected_row is None,
            app.selected_col is None,
            app.cell_options@.len() == 0,
            app.undo_stack@.len() == 0,
            app.redo_stack@.len() == 0,
            app.row_page == 1,
            app.col_page == 1,
            app.page_size_rows == DEFAULT_PAGE_ROWS,
            app.page_size_cols == DEFAULT_PAGE_COLS,
    {
        App {
            sheets,
            current_sheet_idx: 0,
            data: Vec::new(),
            selected_row: None,
            selected_col: None,
            cell_options: Vec::new(),
            undo_stack: Vec::new(),
            redo_stack: Vec::new(),
            row_page: 1,
            col_page: 1,
            page_size_rows: DEFAULT_PAGE_ROWS,
            page_size_cols: DEFAULT_PAGE_COLS,
        }
    }

    /// The title of the current worksheet: the range that loading it reads.
    pub fn current_title(&self) -> (t: String)
        requires
            self.current_sheet_idx < self.sheets@.len(),
        ensures
            t@ == self.sheets@[self.current_sheet_idx as int].title@,
    {
        self.sheets[self.current_sheet_idx].title.clone()
    }

    /// Stores the rows read for the current worksheet.
    pub fn load_current_sheet(&mut self, rows: Vec<Vec<String>>)
        ensures
            *final(self) == (App { data: rows, ..*old(self) }),
    {
        self.data = rows;
    }

    /// The cached value of the cell at 1-based `row` and `col`, or `""` outside the data.
    pub fn get_cell_value(&self, row: usize, col: usize) -> (v: &str)
        ensures
            v@ == cell_value(self.data@, row as int, col as int),
    {
        if row > 0 && row <= self.data.len() {
            let row_data = &self.data[row - 1];
            if col > 0 && col <= row_data.len() {
                return row_data[col - 1].as_str();
            }
        }
        proof {
            reveal_strlit("");
        }
        ""
    }

    /// What changing the cell at `row`, `col` of the current worksheet to
    /// `new_value` writes, and the action that records it with the value the
    /// cell holds now. `row` counts from 0 as the rows of `data` do (sheet row
    /// `row + 1`, as its address shows) and `col` from 1.
    pub fn prepare_change(&self, row: usize, col: usize, new_value: String) -> (w: PendingWrite)
        requires
            self.current_sheet_idx < self.sheets@.len(),
            row < usize::MAX,
        ensures
            w.range@ == sheet_range(
                self.sheets@[self.current_sheet_idx as int].title@,
                row as nat,
                col as nat,
            ),
            w.value@ == new_value@,
            w.action@ == (ActionView {
                sheet_idx: self.current_sheet_idx,
                row,
                col,
                old_value: cell_value(self.data@, row + 1, col as int),
                new_value: new_value@,
            }),
    {
        let range = range_string(&self.sheets[self.current_sheet_idx].title, row, col);
        let old_value = String::from_str(self.get_cell_value(row + 1, col));
        let value = new_value.clone();
        PendingWrite {
            range,
            value,
            action: CellAction {
                sheet_idx: self.current_sheet_idx,
                row,
                col,
                old_value,
                new_value,
            },
        }
    }

    /// After a change was written: records it for undo when `record` is set,
    /// which empties the redo stack.
    pub fn apply_change(&mut self, action: CellAction, record: bool)
        ensures
            record ==> (actions(final(self).undo_stack@), actions(final(self).redo_stack@))
                == after_record(actions(old(self).undo_stack@), actions(old(self).redo_stack@), action@),
            !record ==> *final(self) == *old(self),
            *final(self) == (App {
                undo_stack: final(self).undo_stack,
                redo_stack: final(self).redo_stack,
                ..*old(self)
            }),
    {
        if record {
            let ghost a = action@;
            self.undo_stack.push(action);
            self.redo_stack.clear();
            assert(actions(self.undo_stack@) =~= actions(old(self).undo_stack@).push(a));
            assert(actions(self.redo_stack@) =~= Seq::<ActionView>::empty());
        }
    }

    /// Starts undoing the last recorded change: takes it off the undo stack,
    /// makes its worksheet current and gives the write of its old value.
    /// `None`, with nothing changed, when there is nothing to undo.
    pub fn undo(&mut self) -> (w: Option<PendingWrite>)
        requires
            old(self).undo_stack@.len() > 0 ==> old(self).undo_stack@.last().sheet_idx < old(self).sheets@.len() && old(self).undo_stack@.last().row < usize::MAX,
        ensures
            w is None ==> old(self).undo_stack@.len() == 0 && *final(self) == *old(self),
            w matches Some(w) ==> {
                &&& undo_write(actions(old(self).undo_stack@)) == Some(
                    (w.action.sheet_idx, w.action.row, w.action.col, w.value@),
                )
                &&& w.action@ == actions(old(self).undo_stack@).last()
                &&& actions(final(self).undo_stack@) == after_undo(
                    actions(old(self).undo_stack@),
                    actions(old(self).redo_stack@),
                ).0
                &&& final(self).current_sheet_idx == w.action.sheet_idx
                &&& w.range@ == sheet_range(
                    old(self).sheets@[w.action.sheet_idx as int].title@,
                    w.action.row as nat,
                    w.action.col as nat,
                )
                &&& *final(self) == (App {
                    undo_stack: final(self).undo_stack,
                    current_sheet_idx: final(self).current_sheet_idx,
                    ..*old(self)
                })
            },
    {
        if self.undo_stack.len() == 0 {
            return None;
        }
        let ghost before = actions(self.undo_stack@);
        match self.undo_stack.pop() {
            Some(action) => {
                assert(actions(self.undo_stack@) =~= before.drop_last());
                self.current_sheet_idx = action.sheet_idx;
                let range = range_string(
                    &self.sheets[self.current_sheet_idx].title,
                    action.row,
                    action.col,
                );
                let value = action.old_value.clone();
                Some(PendingWrite { range, value, action })
            },
            None => None,
        }
    }

    /// Finishes an undo whose write succeeded: the change goes on the redo stack.
    pub fn finish_undo(&mut self, action: CellAction)
        ensures
            actions(final(self).redo_stack@) == actions(old(self).redo_stack@).push(action@),
            *final(self) == (App { redo_stack: final(self).redo_stack, ..*old(self) }),
    {
        let ghost a = action@;
        self.redo_stack.push(action);
        assert(actions(self.redo_stack@) =~= actions(old(self).redo_stack@).push(a));
    }

    /// Starts redoing the last undone change: takes it off the redo stack,
    /// makes its worksheet current and gives the write of its new value.
    /// `None`, with nothing changed, when there is nothing to redo.
    pub fn redo(&mut self) -> (w: Option<PendingWrite>)
        requires
            old(self).redo_stack@.len() > 0 ==> old(self).redo_stack@.last().sheet_idx < old(self).sheets@.len() && old(self).redo_stack@.last().row < usize::MAX,
        ensures
            w is None ==> old(self).redo_stack@.len() == 0 && *final(self) == *old(self),
            w matches Some(w) ==> {
                &&& redo_write(actions(old(self).redo_stack@)) == Some(
                    (w.action.sheet_idx, w.action.row, w.action.col, w.value@),
                )
                &&& w.action@ == actions(old(self).redo_stack@).last()
                &&& actions(final(self).redo_stack@) == after_redo(
                    actions(old(self).undo_stack@),
                    actions(old(self).redo_stack@),
                ).1
                &&& final(self).current_sheet_idx == w.action.sheet_idx
                &&& w.range@ == sheet_range(
                    old(self).sheets@[w.action.sheet_idx as int].title@,
                    w.action.row as nat,
                    w.action.col as nat,
                )
                &&& *final(self) == (App {
                    redo_stack: final(self).redo_stack,
                    current_sheet_idx: final(self).current_sheet_idx,
                    ..*old(self)
                })
            },
    {
        if self.redo_stack.len() == 0 {
            return None;
        }
        let ghost before = actions(self.redo_stack@);
        match self.redo_stack.pop() {
            Some(action) => {
                assert(actions(self.redo_stack@) =~= before.drop_last());
                self.current_sheet_idx = action.sheet_idx;
                let range = range_string(
                    &self.sheets[self.current_sheet_idx].title,
                    action.row,
                    action.col,
                );
                let value = action.new_value.clone();
                Some(PendingWrite { range, value, action })
            },
            None => None,
        }
    }

    /// Finishes a redo whose write succeeded: the change goes back on the undo stack.
    pub fn finish_redo(&mut self, action: CellAction)
        ensures
            actions(final(self).undo_stack@) == actions(old(self).undo_stack@).push(action@),
            *final(self) == (App { undo_stack: final(self).undo_stack, ..*old(self) }),
    {
        let ghost a = action@;
        self.undo_stack.push(action);
        assert(actions(self.undo_stack@) =~= actions(old(self).undo_stack@).push(a));
    }
}

/// The first cell of each row that has one, in order.
pub open spec fn first_cells(rows: Seq<Vec<String>>) -> Seq<Seq<char>>
    decreases rows.len(),
{
    if rows.len() == 0 {
        seq![]
    } else {
        first_cells(rows.drop_last()) + if rows.last()@.len() > 0 {
            seq![rows.last()@[0]@]
        } else {
            seq![]
        }
    }
}

/// A value typed for a cell, with a leading `&?` turned into `=` so that the
/// sheet reads it as a formula.
pub open spec fn formula_value_spec(v: Seq<char>) -> Seq<char> {
    if starts_with(v, seq!['&', '?']) {
        seq!['='] + v.skip(2)
    } else {
        v
    }
}

/// A value to write to a cell of the current worksheet.
#[derive(Debug)]
pub struct CellWrite {
    pub row: usize,
    pub col: usize,
    pub value: String,
}

/// The column that the `i`-th value of an `add` fills: from the left, or from
/// column `max_cols` leftwards when `reverse` is set (none, `0`, once past
/// column 1, so that values beyond the row are dropped in both directions).
pub open spec fn add_column(i: int, max_cols: int, reverse: bool) -> int {
    if reverse {
        if max_cols > i {
            max_cols - i
        } else {
            0
        }
    } else {
        i + 1
    }
}

/// The cells that an `add` of `values` on `row` writes, in order: each value
/// goes to its [`add_column`] when that column lies in `1..=max_cols`.
pub open spec fn add_plan(values: Seq<Seq<char>>, row: usize, max_cols: int, reverse: bool) -> Seq<
    (usize, int, Seq<char>),
>
    decreases values.len(),
{
    if values.len() == 0 {
        seq![]
    } else {
        let i = values.len() - 1;
        let col = add_column(i, max_cols, reverse);
        add_plan(values.drop_last(), row, max_cols, reverse) + if 0 < col <= max_cols {
            seq![(row, col, formula_value_spec(values.last()))]
        } else {
            seq![]
        }
    }
}

/// The cell writes in their mathematical form.
pub open spec fn writes_view(v: Seq<CellWrite>) -> Seq<(usize, int, Seq<char>)> {
    Seq::new(v.len(), |i: int| (v[i].row, v[i].col as int, v[i].value@))
}

/// What appending a row to the current worksheet needs: its title and id, the
/// number of columns, and the rows to copy validation from and to.
#[derive(Debug)]
pub struct NewRowPlan {
    pub title: String,
    pub sheet_id: i64,
    pub cols: usize,
    pub copy_rows: Option<(usize, usize)>,
}

/// Whether `p` is what appending a row to the current worksheet of `app`
/// needs: its title and id, the width of the first row, and, when a row
/// exists, the last row to copy validation from and the new row below it.
pub open spec fn row_plan_is(app: App, p: NewRowPlan) -> bool {
    &&& p.title@ == app.sheets@[app.current_sheet_idx as int].title@
    &&& p.sheet_id == app.sheets@[app.current_sheet_idx as int].id
    &&& p.cols == if app.data@.len() == 0 {
        0
    } else {
        app.data@[0]@.len()
    }
    &&& p.copy_rows == if app.data@.len() >= 1 {
        Some((app.data@.len() as usize, (app.data@.len() + 1) as usize))
    } else {
        None
    }
}

/// Turns a leading `&?` into `=`, the formula prefix of the sheet.
pub fn formula_value(val: String) -> (r: String)
    ensures
        r@ == formula_value_spec(val@),
{
    let cs = chars_of(val.as_str());
    proof {
        reveal_strlit("&?");
        assert("&?"@ =~= seq!['&', '?']);
    }
    if starts_with_str(cs.as_slice(), "&?") {
        let mut v: Vec<char> = Vec::new();
        v.push('=');
        let rest = slice_chars(cs.as_slice(), 2, cs.len());
        extend_chars(&mut v, rest.as_slice());
        assert(v@ =~= seq!['='] + val@.skip(2));
        string_of(v.as_slice())
    } else {
        val
    }
}

impl App {
    /// Starts fetching the dropdown options of the selected cell: clears them
    /// and gives the range to read, `'title'!A1`; `None` when no cell with a
    /// non-zero row and column is selected.
    pub fn begin_fetch_options(&mut self) -> (r: Option<String>)
        requires
            match (old(self).selected_row, old(self).selected_col) {
                (Some(row), Some(col)) => row != 0 && col != 0 ==> (old(self).current_sheet_idx
                    < old(self).sheets@.len() && row < usize::MAX),
                _ => true,
            },
        ensures
            final(self).cell_options@.len() == 0,
            r matches Some(s) ==> match (old(self).selected_row, old(self).selected_col) {
                (Some(row), Some(col)) => row != 0 && col != 0 && s@ == quoted_range(
                    old(self).sheets@[old(self).current_sheet_idx as int].title@,
                    row as nat,
                    col as nat,
                ),
                _ => false,
            },
            r is None ==> match (old(self).selected_row, old(self).selected_col) {
                (Some(row), Some(col)) => row == 0 || col == 0,
                _ => true,
            },
            *final(self) == (App { cell_options: final(self).cell_options, ..*old(self) }),
    {
        self.cell_options.clear();
        match (self.selected_row, self.selected_col) {
            (Some(r), Some(c)) => {
                if r == 0 || c == 0 {
                    return None;
                }
                Some(quoted_range_string(&self.sheets[self.current_sheet_idx].title, r, c))
            },
            _ => None,
        }
    }

    /// Adds the options that a grid-data reply gives for the selected cell;
    /// gives the range to read the options from when the rule is
    /// `ONE_OF_RANGE` (its first value).
    pub fn apply_validation(&mut self, resp: &JsonValue) -> (r: Option<String>)
        requires
            rule_readable(*resp),
        ensures
            validation_condition(*resp) is None ==> r is None && final(self).cell_options
                == old(self).cell_options,
            validation_condition(*resp) matches Some(cond) ==> {
                &&& strs(final(self).cell_options@) == strs(old(self).cell_options@)
                    + condition_values(cond)
                &&& (r is Some <==> condition_type(cond) == "ONE_OF_RANGE"@ && final(self).cell_options@.len() > 0)
                &&& r matches Some(s) ==> s@ == final(self).cell_options@[0]@
            },
            *final(self) == (App { cell_options: final(self).cell_options, ..*old(self) }),
    {
        match read_validation(resp) {
            Some((t, vals)) => {
                let mut opts: Vec<String> = Vec::new();
                std::mem::swap(&mut opts, &mut self.cell_options);
                let ghost before = strs(opts@);
                let mut i: usize = 0;
                while i < vals.len()
                    invariant
                        i <= vals@.len(),
                        strs(opts@) == before + strs(vals@).take(i as int),
                    decreases vals@.len() - i,
                {
                    let ghost prev = strs(opts@);
                    opts.push(vals[i].clone());
                    assert(strs(vals@).take(i + 1) =~= strs(vals@).take(i as int).push(vals@[i as int]@));
                    assert(strs(opts@) =~= prev.push(vals@[i as int]@));
                    i += 1;
                }
                assert(strs(vals@).take(vals@.len() as int) =~= strs(vals@));
                self.cell_options = opts;
                let is_range = crate::text::eq_str(chars_of(t.as_str()).as_slice(), "ONE_OF_RANGE");
                if is_range && self.cell_options.len() > 0 {
                    Some(self.cell_options[0].clone())
                } else {
                    None
                }
            },
            None => None,
        }
    }

    /// Replaces the options with the first cell of each row read from the
    /// range of a `ONE_OF_RANGE` rule.
    pub fn set_range_options(&mut self, rows: Vec<Vec<String>>)
        ensures
            strs(final(self).cell_options@) == first_cells(rows@),
            *final(self) == (App { cell_options: final(self).cell_options, ..*old(self) }),
    {
        let mut opts: Vec<String> = Vec::new();
        let mut i: usize = 0;
        while i < rows.len()
            invariant
                i <= rows@.len(),
                strs(opts@) == first_cells(rows@.take(i as int)),
            decreases rows@.len() - i,
        {
            assert(rows@.take(i + 1).drop_last() =~= rows@.take(i as int));
            let ghost before = strs(opts@);
            if rows[i].len() > 0 {
                opts.push(rows[i][0].clone());
                assert(strs(opts@) =~= before + seq![rows@[i as int]@[0]@]);
            } else {
                assert(strs(opts@) =~= before + Seq::<Seq<char>>::empty());
            }
            i += 1;
        }
        assert(rows@.take(rows@.len() as int) =~= rows@);
        self.cell_options = opts;
    }

    /// Makes worksheet `n` (1-based) current; `false`, with nothing changed,
    /// when there is no such worksheet.
    pub fn select_sheet(&mut self, n: usize) -> (b: bool)
        ensures
            b == (0 < n <= old(self).sheets@.len()),
            b ==> *final(self) == (App { current_sheet_idx: (n - 1) as usize, ..*old(self) }),
            !b ==> *final(self) == *old(self),
    {
        if n > 0 && n <= self.sheets.len() {
            self.current_sheet_idx = n - 1;
            true
        } else {
            false
        }
    }

    /// Dropdown option `n` (1-based) of the selected cell, if there is one.
    pub fn option_value(&self, n: usize) -> (r: Option<String>)
        ensures
            r matches Some(s) ==> 0 < n <= self.cell_options@.len() && s@
                == self.cell_options@[n - 1]@,
            r is None ==> !(0 < n <= self.cell_options@.len()),
    {
        if n > 0 && n <= self.cell_options.len() {
            Some(self.cell_options[n - 1].clone())
        } else {
            None
        }
    }

    /// The number of columns that an `add` may fill: those of the first row,
    /// or 26 when nothing is loaded.
    pub open spec fn add_max_cols(&self) -> int {
        if self.data@.len() > 0 {
            self.data@[0]@.len() as int
        } else {
            26
        }
    }

    /// The cells that `add` writes with `values`: on the selected row (row 1
    /// when none is), filling columns from the left, or from the last column
    /// leftwards when `reverse` is set; each value with `&?` made `=`. Values
    /// beyond the row's columns are dropped.
    pub fn add_targets(&self, values: Vec<String>, reverse: bool) -> (w: Vec<CellWrite>)
        ensures
            writes_view(w@) == add_plan(
                strs(values@),
                match self.selected_row {
                    Some(r) => r,
                    None => 1,
                },
                self.add_max_cols(),
                reverse,
            ),
    {
        let row = match self.selected_row {
            Some(r) => r,
            None => 1,
        };
        let max_cols: usize = if self.data.len() > 0 {
            self.data[0].len()
        } else {
            26
        };
        let ghost vs = strs(values@);
        let mut out: Vec<CellWrite> = Vec::new();
        let mut i: usize = 0;
        while i < values.len()
            invariant
                i <= values@.len(),
                vs == strs(values@),
                max_cols as int == self.add_max_cols(),
                writes_view(out@) == add_plan(vs.take(i as int), row, max_cols as int, reverse),
            decreases values@.len() - i,
        {
            assert(vs.take(i + 1).drop_last() =~= vs.take(i as int));
            assert(vs.take(i + 1).len() - 1 == i);
            let col: usize = if reverse {
                if max_cols > i {
                    max_cols - i
                } else {
                    0
                }
            } else {
                i + 1
            };
            let ghost before = writes_view(out@);
            if col > 0 && col <= max_cols {
                let v = formula_value(values[i].clone());
                out.push(CellWrite { row, col, value: v });
                assert(writes_view(out@) =~= before + seq![
                    (row, col as int, formula_value_spec(vs.take(i + 1).last())),
                ]);
            } else {
                assert(writes_view(out@) =~= before + Seq::<(usize, int, Seq<char>)>::empty());
            }
            i += 1;
        }
        assert(vs.take(values@.len() as int) =~= vs);
        out
    }

    /// What appending a row to the current worksheet needs: its title and id,
    /// the width of the first row, and, when a row exists, the last row to
    /// copy validation from and the new row below it.
    pub fn new_row_plan(&self) -> (p: NewRowPlan)
        requires
            self.current_sheet_idx < self.sheets@.len(),
            self.data@.len() < usize::MAX,
        ensures
            row_plan_is(*self, p),
    {
        let sheet = &self.sheets[self.current_sheet_idx];
        let cols = if self.data.len() == 0 {
            0
        } else {
            self.data[0].len()
        };
        let from_row = self.data.len();
        let copy_rows = if from_row >= 1 {
            Some((from_row, from_row + 1))
        } else {
            None
        };
        NewRowPlan { title: sheet.title.clone(), sheet_id: sheet.id, cols, copy_rows }
    }

    /// Whether the current worksheet may be deleted: not when it is the only one.
    pub fn can_remove_sheet(&self) -> (b: bool)
        ensures
            b == (self.sheets@.len() > 1),
    {
        self.sheets.len() > 1
    }

    /// Takes the worksheets fetched after the current one was deleted, and
    /// makes the first one current.
    pub fn adopt_remaining_sheets(&mut self, sheets: Vec<SheetMeta>)
        ensures
            *final(self) == (App { sheets: sheets, current_sheet_idx: 0, ..*old(self) }),
    {
        self.sheets = sheets;
        self.current_sheet_idx = 0;
    }

    /// Takes the worksheets fetched after one titled `title` was added, and
    /// makes the first one with that title current (the last one when none has it).
    pub fn adopt_added_sheet(&mut self, sheets: Vec<SheetMeta>, title: &String)
        requires
            sheets@.len() > 0,
        ensures
            final(self).sheets@ == sheets@,
            final(self).current_sheet_idx < sheets@.len(),
            (exists|k: int| 0 <= k < sheets@.len() && sheets@[k].title@ == title@) ==> {
                &&& sheets@[final(self).current_sheet_idx as int].title@ == title@
                &&& forall|k: int|
                    0 <= k < final(self).current_sheet_idx ==> sheets@[k].title@ != title@
            },
            !(exists|k: int| 0 <= k < sheets@.len() && sheets@[k].title@ == title@)
                ==> final(self).current_sheet_idx == sheets@.len() - 1,
            *final(self) == (App {
                sheets: final(self).sheets,
                current_sheet_idx: final(self).current_sheet_idx,
                ..*old(self)
            }),
    {
        let mut pos: Option<usize> = None;
        let mut i: usize = 0;
        while i < sheets.len()
            invariant
                i <= sheets@.len(),
                pos is None ==> forall|k: int| 0 <= k < i ==> sheets@[k].title@ != title@,
                pos matches Some(p) ==> p < sheets@.len() && sheets@[p as int].title@ == title@
                    && forall|k: int| 0 <= k < p ==> sheets@[k].title@ != title@,
            decreases sheets@.len() - i,
        {
            if pos.is_none() && sheets[i].title == *title {
                pos = Some(i);
            }
            i += 1;
        }
        let idx = match pos {
            Some(p) => p,
            None => sheets.len() - 1,
        };
        self.sheets = sheets;
        self.current_sheet_idx = idx;
    }
}

/// Whether an answer to "confirm deletion? (y/n)" confirms: trimmed and in
/// lowercase it is `y`.
pub fn confirms(answer: &str) -> (b: bool)
    ensures
        b == (lower_text(trim(answer@)) == seq!['y']),
{
    let t = trim_chars(chars_of(answer).as_slice());
    let l = lower_chars(t.as_slice());
    proof {
        reveal_strlit("y");
        assert("y"@ =~= seq!['y']);
    }
    eq_str(l.as_slice(), "y")
}

/// The prompt: `(Sheet <current>/<count>) > `, counting from 1.
pub open spec fn prompt_text(current: nat, count: nat) -> Seq<char> {
    "(Sheet "@ + decimal(current + 1) + seq!['/'] + decimal(count) + ") > "@
}

impl App {
    /// The prompt that shows which worksheet is current.
    pub fn prompt(&self) -> (s: String)
        requires
            self.current_sheet_idx < usize::MAX,
        ensures
            s@ == prompt_text(self.current_sheet_idx as nat, self.sheets@.len()),
    {
        let mut v = chars_of("(Sheet ");
        let a = decimal_chars((self.current_sheet_idx + 1) as u64);
        extend_chars(&mut v, a.as_slice());
        v.push('/');
        let b = decimal_chars(self.sheets.len() as u64);
        extend_chars(&mut v, b.as_slice());
        crate::text::append_str(&mut v, ") > ");
        string_of(v.as_slice())
    }

    /// Shows page `n` of the rows; `false`, with nothing changed, for page 0,
    /// which does not exist.
    pub fn set_row_page(&mut self, n: usize) -> (b: bool)
        ensures
            b == (n >= 1),
            b ==> *final(self) == (App { row_page: n, ..*old(self) }),
            !b ==> *final(self) == *old(self),
    {
        if n >= 1 {
            self.row_page = n;
            true
        } else {
            false
        }
    }

    /// Shows page `n` of the columns; `false`, with nothing changed, for page 0.
    pub fn set_col_page(&mut self, n: usize) -> (b: bool)
        ensures
            b == (n >= 1),
            b ==> *final(self) == (App { col_page: n, ..*old(self) }),
            !b ==> *final(self) == *old(self),
    {
        if n >= 1 {
            self.col_page = n;
            true
        } else {
            false
        }
    }
}

/// `add` writes one cell per value for as many values as the row has
/// columns: from the left the `k`-th value goes to column `k + 1`, from the
/// right to column `max_cols - k`; every write is on `row` and carries its
/// value with `&?` made `=`, and no column is written twice.
pub proof fn lemma_add_fills_distinct_columns(
    values: Seq<Seq<char>>,
    row: usize,
    max_cols: int,
    reverse: bool,
)
    requires
        max_cols >= 0,
    ensures
        ({
            let w = add_plan(values, row, max_cols, reverse);
            let m = if values.len() < max_cols {
                values.len() as int
            } else {
                max_cols
            };
            &&& w.len() == m
            &&& forall|k: int|
                0 <= k < m ==> #[trigger] w[k] == (
                    row,
                    if reverse {
                        max_cols - k
                    } else {
                        k + 1
                    },
                    formula_value_spec(values[k]),
                )
            &&& forall|j: int, k: int| 0 <= j < k < w.len() ==> #[trigger] w[j].1 != #[trigger] w[k].1
        }),
    decreases values.len(),
{
    if values.len() > 0 {
        let d = values.drop_last();
        lemma_add_fills_distinct_columns(d, row, max_cols, reverse);
        let prev = add_plan(d, row, max_cols, reverse);
        let w = add_plan(values, row, max_cols, reverse);
        let i = values.len() - 1;
        let m = if values.len() < max_cols {
            values.len() as int
        } else {
            max_cols
        };
        assert forall|k: int| 0 <= k < prev.len() implies #[trigger] w[k] == prev[k] && d[k] == values[k] by {}
        assert forall|k: int|
            0 <= k < m implies #[trigger] w[k] == (
                row,
                if reverse {
                    max_cols - k
                } else {
                    k + 1
                },
                formula_value_spec(values[k]),
            ) by {
            if k < prev.len() {
                assert(w[k] == prev[k]);
            }
        }
        assert forall|j: int, k: int| 0 <= j < k < w.len() implies #[trigger] w[j].1 != #[trigger] w[k].1 by {
            assert(w[j].1 == (if reverse { max_cols - j } else { j + 1 }));
            assert(w[k].1 == (if reverse { max_cols - k } else { k + 1 }));
        }
    }
}

/// Undo after a recorded change `a` writes `a`'s old value back to `a`'s
/// cell (for a change made by [`App::prepare_change`], the value the cached
/// data held for the very cell it writes); redo after that undo writes the
/// new value again; and undo followed by redo leaves both stacks as the
/// change left them.
pub proof fn lemma_undo_redo_restore(u: Seq<ActionView>, r: Seq<ActionView>, a: ActionView)
    ensures
        ({
            let (u1, r1) = after_record(u, r, a);
            let (u2, r2) = after_undo(u1, r1);
            &&& undo_write(u1) == Some((a.sheet_idx, a.row, a.col, a.old_value))
            &&& redo_write(r2) == Some((a.sheet_idx, a.row, a.col, a.new_value))
            &&& after_redo(u2, r2) == (u1, r1)
        }),
{
    let (u1, r1) = after_record(u, r, a);
    let (u2, r2) = after_undo(u1, r1);
    assert(u2 =~= u);
    assert(r2 =~= seq![a]);
    assert(u2.push(r2.last()) =~= u1);
    assert(r2.drop_last() =~= r1);
}

/// Undo then redo, on a non-empty undo stack, gives back both stacks; so does
/// redo then undo on a non-empty redo stack.
pub proof fn lemma_undo_redo_inverse(u: Seq<ActionView>, r: Seq<ActionView>)
    ensures
        u.len() > 0 ==> ({
            let (u2, r2) = after_undo(u, r);
            after_redo(u2, r2) == (u, r)
        }),
        r.len() > 0 ==> ({
            let (u2, r2) = after_redo(u, r);
            after_undo(u2, r2) == (u, r)
        }),
{
    if u.len() > 0 {
        let (u2, r2) = after_undo(u, r);
        assert(u2.push(r2.last()) =~= u);
        assert(r2.drop_last() =~= r);
    }
    if r.len() > 0 {
        let (u2, r2) = after_redo(u, r);
        assert(u2.drop_last() =~= u);
        assert(r2.push(u2.last()) =~= r);
    }
}

/// Recording a change empties the redo stack: nothing is left to redo.
pub proof fn lemma_record_clears_redo(u: Seq<ActionView>, r: Seq<ActionView>, a: ActionView)
    ensures
        redo_write(after_record(u, r, a).1) is None,
        after_record(u, r, a).0.len() == u.len() + 1,
{
}

} // verus!
