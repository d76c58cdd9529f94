//! What one command of the prompt does to the open spreadsheet: the state
//! changes that need no request are made at once, and what is left to send,
//! ask or show is given back as an [`Effect`].
use vstd::prelude::*;
use crate::app::{
    add_plan, formula_value, formula_value_spec, row_plan_is, writes_view, App, CellWrite,
    NewRowPlan,
};
use crate::commands::{strs, Command, CommandView};
use crate::config::{clone_strings, id_taken, AppConfig};

verus! {

/// What is left to do for a command once the state is updated.
#[derive(Debug)]
pub enum Effect {
    /// Nothing to send or show.
    Nothing,
    /// Leave the spreadsheet: back to the menu when set, else out of the program.
    Leave(bool),
    /// Read the current worksheet again.
    Reload,
    /// Write each value to its cell of the current worksheet, recording each
    /// change for undo, and read the worksheet again after the last one when
    /// the flag is set. A failed write stops the rest and is reported; the
    /// session goes on.
    Write(Vec<CellWrite>, bool),
    /// Undo the last recorded change.
    Undo,
    /// Redo the last undone change.
    Redo,
    /// Append an empty row to the current worksheet as planned.
    AppendRow(NewRowPlan),
    /// Add a worksheet with this title.
    AddSheet(String),
    /// Ask whether to delete the current worksheet, which has this title and id.
    ConfirmRemove(String, i64),
    /// Say that the only worksheet cannot be deleted.
    RefuseRemove,
    /// Show the command reference.
    ShowHelp,
    /// Show the named lists.
    ShowLists,
    /// Create a named list with these elements and this id.
    NewList(Vec<String>, String),
    /// Remove the named list with this id.
    RemoveList(String),
    /// Give the selected cell the dropdown of the named list with this id.
    UseList(String),
}

/// The selected cell, when both a row and a column are selected.
pub open spec fn selected_cell(app: App) -> Option<(usize, usize)> {
    match (app.selected_row, app.selected_col) {
        (Some(r), Some(c)) => Some((r, c)),
        _ => None,
    }
}

/// The write of `value` to the selected cell, or nothing when no cell is selected.
pub open spec fn write_selected(app: App, value: Seq<char>, e: Effect) -> bool {
    match selected_cell(app) {
        Some((r, c)) => e matches Effect::Write(ws, reload) && !reload && writes_view(ws@) == seq![
            (r, c as int, value),
        ],
        None => e == Effect::Nothing,
    }
}

/// Whether `cmd` can be handled in `app`: appending a row needs the current
/// worksheet and room for one more row; deleting one needs the current
/// worksheet when there is more than one.
pub open spec fn command_allowed(app: App, cmd: CommandView) -> bool {
    match cmd {
        CommandView::New => app.current_sheet_idx < app.sheets@.len() && app.data@.len()
            < usize::MAX,
        CommandView::Remove => app.sheets@.len() > 1 ==> app.current_sheet_idx
            < app.sheets@.len(),
        _ => true,
    }
}

/// Whether `after` and `e` are the state and the effect that `cmd` gives in `before`.
pub open spec fn command_done(before: App, after: App, cmd: CommandView, e: Effect) -> bool {
    match cmd {
        CommandView::Menu => after == before && e == Effect::Leave(true),
        CommandView::Exit => after == before && e == Effect::Leave(false),
        CommandView::Sheet(n) => if 0 < n <= before.sheets@.len() {
            after == (App { current_sheet_idx: (n - 1) as usize, ..before }) && e == Effect::Reload
        } else {
            after == before && e == Effect::Nothing
        },
        CommandView::Row(n) => after == (App { selected_row: n, ..before }) && e == Effect::Nothing,
        CommandView::Col(n) => after == (App { selected_col: n, ..before }) && e == Effect::Nothing,
        CommandView::Edit(v) => after == before && write_selected(before, formula_value_spec(v), e),
        CommandView::Val(n) => after == before && if 0 < n <= before.cell_options@.len() {
            write_selected(before, before.cell_options@[n - 1]@, e)
        } else {
            e == Effect::Nothing
        },
        CommandView::Delete => after == before && write_selected(before, seq![], e),
        CommandView::New => {
            &&& after == before
            &&& e matches Effect::AppendRow(p) && row_plan_is(before, p)
        },
        CommandView::Add(values, reverse, _skip) => {
            &&& after == before
            &&& e matches Effect::Write(ws, reload) && reload && writes_view(ws@) == add_plan(
                values,
                match before.selected_row {
                    Some(r) => r,
                    None => 1,
                },
                before.add_max_cols(),
                reverse,
            )
        },
        CommandView::Undo => after == before && e == Effect::Undo,
        CommandView::Redo => after == before && e == Effect::Redo,
        CommandView::Help => after == before && e == Effect::ShowHelp,
        CommandView::NewSheet(t) => {
            &&& after == before
            &&& e matches Effect::AddSheet(s) && s@ == t
        },
        CommandView::Remove => after == before && if before.sheets@.len() > 1 {
            e matches Effect::ConfirmRemove(s, id) && s@ == before.sheets@[before.current_sheet_idx as int].title@
                && id == before.sheets@[before.current_sheet_idx as int].id
        } else {
            e == Effect::RefuseRemove
        },
        CommandView::ListLists => after == before && e == Effect::ShowLists,
        CommandView::NewList(v, id) => {
            &&& after == before
            &&& e matches Effect::NewList(w, s) && strs(w@) == v && s@ == id
        },
        CommandView::RemoveList(id) => {
            &&& after == before
            &&& e matches Effect::RemoveList(s) && s@ == id
        },
        CommandView::EditList(id) => {
            &&& after == before
            &&& e matches Effect::UseList(s) && s@ == id
        },
        CommandView::RowPage(n) => e == Effect::Nothing && if n >= 1 {
            after == (App { row_page: n, ..before })
        } else {
            after == before
        },
        CommandView::ColPage(n) => e == Effect::Nothing && if n >= 1 {
            after == (App { col_page: n, ..before })
        } else {
            after == before
        },
    }
}

/// Whether `a` and `b` hold the same worksheets, current worksheet, data,
/// dropdown options, undo/redo history and page sizes.
pub open spec fn same_content(a: App, b: App) -> bool {
    &&& a.sheets == b.sheets
    &&& a.current_sheet_idx == b.current_sheet_idx
    &&& a.data == b.data
    &&& a.cell_options == b.cell_options
    &&& a.undo_stack == b.undo_stack
    &&& a.redo_stack == b.redo_stack
    &&& a.page_size_rows == b.page_size_rows
    &&& a.page_size_cols == b.page_size_cols
}

/// The page and selection commands change only what they name and need no
/// request: `cc<n>` shows column page `n` (page 0 is refused) and keeps the
/// row page; `rr<n>` shows row page `n` and keeps the column page; `l<n>`
/// selects the row and `s<n>` the column, keeping the other and the pages.
pub proof fn lemma_page_and_selection_commands(before: App, after: App, cmd: CommandView, e: Effect)
    requires
        command_done(before, after, cmd, e),
    ensures
        cmd matches CommandView::ColPage(n) ==> {
            &&& e == Effect::Nothing
            &&& after.col_page == if n >= 1 {
                n
            } else {
                before.col_page
            }
            &&& after.row_page == before.row_page
            &&& after.selected_row == before.selected_row
            &&& after.selected_col == before.selected_col
            &&& same_content(after, before)
        },
        cmd matches CommandView::RowPage(n) ==> {
            &&& e == Effect::Nothing
            &&& after.row_page == if n >= 1 {
                n
            } else {
                before.row_page
            }
            &&& after.col_page == before.col_page
            &&& after.selected_row == before.selected_row
            &&& after.selected_col == before.selected_col
            &&& same_content(after, before)
        },
        cmd matches CommandView::Row(n) ==> {
            &&& e == Effect::Nothing
            &&& after.selected_row == n
            &&& after.selected_col == before.selected_col
            &&& after.row_page == before.row_page
            &&& after.col_page == before.col_page
            &&& same_content(after, before)
        },
        cmd matches CommandView::Col(n) ==> {
            &&& e == Effect::Nothing
            &&& after.selected_col == n
            &&& after.selected_row == before.selected_row
            &&& after.row_page == before.row_page
            &&& after.col_page == before.col_page
            &&& same_content(after, before)
        },
{
}

/// Switching worksheets: `<n>` makes worksheet `n` (counted from 1) current
/// and reloads when it exists; otherwise nothing changes. Nothing else moves.
pub proof fn lemma_sheet_command(before: App, after: App, n: usize, e: Effect)
    requires
        command_done(before, after, CommandView::Sheet(n), e),
    ensures
        1 <= n <= before.sheets@.len() ==> after.current_sheet_idx + 1 == n && e == Effect::Reload,
        !(1 <= n <= before.sheets@.len()) ==> after == before && e == Effect::Nothing,
        after.sheets == before.sheets,
        after.data == before.data,
        after.selected_row == before.selected_row,
        after.selected_col == before.selected_col,
        after.row_page == before.row_page,
        after.col_page == before.col_page,
{
}

/// Whether `e` writes exactly one cell, the one at `row` and `col`, with no
/// reload after it.
pub open spec fn one_write_at(e: Effect, row: usize, col: usize) -> bool {
    match e {
        Effect::Write(ws, reload) => ws@.len() == 1 && ws@[0].row == row && ws@[0].col == col
            && !reload,
        _ => false,
    }
}

/// The value of the one write of `e`, when it writes exactly one cell.
pub open spec fn one_write_value(e: Effect) -> Option<Seq<char>> {
    match e {
        Effect::Write(ws, _) => if ws@.len() == 1 {
            Some(ws@[0].value@)
        } else {
            None
        },
        _ => None,
    }
}

/// The cell commands change no state and write at most the selected cell:
/// with a row and a column selected, `ed`, `del` and `v <n>` (for an option
/// that exists) write exactly one value, to that cell, without a reload
/// after; with no cell selected they do nothing. `menu` leaves to the menu,
/// `exit` out of the program, and `rm` on the only worksheet is refused.
pub proof fn lemma_cell_and_leave_commands(before: App, after: App, cmd: CommandView, e: Effect)
    requires
        command_done(before, after, cmd, e),
    ensures
        (cmd is Edit || cmd is Delete || cmd is Val) ==> after == before,
        (cmd is Edit || cmd is Delete || cmd is Val) && selected_cell(before) is None ==> e
            == Effect::Nothing,
        (cmd is Edit || cmd is Delete || cmd is Val) && selected_cell(before) is Some ==> (e
            == Effect::Nothing || one_write_at(
            e,
            before.selected_row->0,
            before.selected_col->0,
        )),
        (cmd is Edit || cmd is Delete) && selected_cell(before) is Some ==> one_write_at(
            e,
            before.selected_row->0,
            before.selected_col->0,
        ),
        cmd is Edit && selected_cell(before) is Some ==> one_write_value(e) == Some(
            formula_value_spec(cmd->Edit_0),
        ),
        cmd is Delete && selected_cell(before) is Some ==> one_write_value(e) == Some(
            Seq::<char>::empty(),
        ),
        cmd is Val && selected_cell(before) is Some && 1 <= cmd->Val_0
            <= before.cell_options@.len() ==> one_write_at(
            e,
            before.selected_row->0,
            before.selected_col->0,
        ) && one_write_value(e) == Some(before.cell_options@[cmd->Val_0 - 1]@),
        cmd is Val && !(1 <= cmd->Val_0 <= before.cell_options@.len()) ==> e == Effect::Nothing,
        cmd is Menu ==> after == before && e == Effect::Leave(true),
        cmd is Exit ==> after == before && e == Effect::Leave(false),
        cmd is Remove && before.sheets@.len() <= 1 ==> after == before && e
            == Effect::RefuseRemove,
{
    if let Effect::Write(ws, reload) = e {
        assert(writes_view(ws@).len() == ws@.len());
        if ws@.len() == 1 {
            assert(writes_view(ws@)[0] == (ws@[0].row, ws@[0].col as int, ws@[0].value@));
        }
    }
}

/// One write of `value` to the selected cell, if one is selected.
fn write_to_selected(app: &App, value: String) -> (e: Effect)
    ensures
        write_selected(*app, value@, e),
{
    match (app.selected_row, app.selected_col) {
        (Some(r), Some(c)) => {
            let mut ws: Vec<CellWrite> = Vec::new();
            ws.push(CellWrite { row: r, col: c, value });
            assert(writes_view(ws@) =~= seq![(r, c as int, value@)]);
            Effect::Write(ws, false)
        },
        _ => Effect::Nothing,
    }
}

impl App {
    /// Handles one command of the prompt: makes the state changes that need
    /// no request and gives what is left to send, ask or show.
    pub fn handle_command(&mut self, cmd: Command) -> (e: Effect)
        requires
            command_allowed(*old(self), cmd@),
        ensures
            command_done(*old(self), *final(self), cmd@, e),
    {
        match cmd {
            Command::Menu => Effect::Leave(true),
            Command::Exit => Effect::Leave(false),
            Command::Sheet(n) => {
                if n > 0 && n <= self.sheets.len() {
                    self.current_sheet_idx = n - 1;
                    Effect::Reload
                } else {
                    Effect::Nothing
                }
            },
            Command::Row(n) => {
                self.selected_row = n;
                Effect::Nothing
            },
            Command::Col(n) => {
                self.selected_col = n;
                Effect::Nothing
            },
            Command::Edit(v) => {
                let value = formula_value(v);
                write_to_selected(self, value)
            },
            Command::Val(n) => {
                match self.option_value(n) {
                    Some(value) => write_to_selected(self, value),
                    None => Effect::Nothing,
                }
            },
            Command::Delete => {
                let empty = String::new();
                assert(empty@ =~= Seq::<char>::empty());
                write_to_selected(self, empty)
            },
            Command::New => Effect::AppendRow(self.new_row_plan()),
            Command::Add(values, reverse, _skip) => Effect::Write(self.add_targets(values, reverse), true),
            Command::Undo => Effect::Undo,
            Command::Redo => Effect::Redo,
            Command::Help => Effect::ShowHelp,
            Command::NewSheet(title) => Effect::AddSheet(title),
            Command::Remove => {
                if self.sheets.len() > 1 {
                    Effect::ConfirmRemove(self.current_title(), self.sheets[self.current_sheet_idx].id)
                } else {
                    Effect::RefuseRemove
                }
            },
            Command::ListLists => Effect::ShowLists,
            Command::NewList(elements, id) => Effect::NewList(elements, id),
            Command::RemoveList(id) => Effect::RemoveList(id),
            Command::EditList(id) => Effect::UseList(id),
            Command::RowPage(n) => {
                if n >= 1 {
                    self.row_page = n;
                }
                Effect::Nothing
            },
            Command::ColPage(n) => {
                if n >= 1 {
                    self.col_page = n;
                }
                Effect::Nothing
            },
        }
    }
}

/// What giving the selected cell the dropdown of a named list comes to.
#[derive(Debug)]
pub enum ListUse {
    /// No cell with an address (a row below `usize::MAX`, a column from 1) is selected.
    NoCell,
    /// No list has the id.
    NoList,
    /// Give the cell at 0-based `row` and 1-based `col` of the worksheet
    /// `sheet_id` a dropdown of `elements`, and assign it the list.
    Apply { sheet_id: i64, row: usize, col: usize, elements: Vec<String> },
}

/// The selected cell, when it has an address.
pub open spec fn addressable_cell(app: App) -> Option<(usize, usize)> {
    match selected_cell(app) {
        Some((r, c)) => if r < usize::MAX && c >= 1 {
            Some((r, c))
        } else {
            None
        },
        None => None,
    }
}

/// Whether the list `id` can be given to the selected cell: where a cell
/// with an address is selected and the list exists, the current worksheet does.
pub open spec fn list_use_allowed(app: App, config: AppConfig, id: Seq<char>) -> bool {
    addressable_cell(app) is Some && id_taken(config.lists@, id) ==> app.current_sheet_idx
        < app.sheets@.len()
}

/// Whether `u` is what giving the selected cell of `app` the list `id` of
/// `config` comes to: the first list with that id, on the current worksheet.
pub open spec fn list_use_is(app: App, config: AppConfig, id: Seq<char>, u: ListUse) -> bool {
    match addressable_cell(app) {
        Some((r, c)) => if id_taken(config.lists@, id) {
            u matches ListUse::Apply { sheet_id, row, col, elements } && sheet_id
                == app.sheets@[app.current_sheet_idx as int].id && row == r && col == c
                && exists|p: int|
                0 <= p < config.lists@.len() && config.lists@[p].id@ == id && (forall|j: int|
                    0 <= j < p ==> config.lists@[j].id@ != id) && strs(elements@) == strs(
                    #[trigger] config.lists@[p].elements@,
                )
        } else {
            u == ListUse::NoList
        },
        None => u == ListUse::NoCell,
    }
}

impl App {
    /// What giving the selected cell the dropdown of the named list `id` comes to.
    pub fn plan_list_use(&self, config: &AppConfig, id: &str) -> (u: ListUse)
        requires
            list_use_allowed(*self, *config, id@),
        ensures
            list_use_is(*self, *config, id@, u),
    {
        let (row, col) = match (self.selected_row, self.selected_col) {
            (Some(r), Some(c)) => {
                if r < usize::MAX && c >= 1 {
                    (r, c)
                } else {
                    return ListUse::NoCell;
                }
            },
            _ => return ListUse::NoCell,
        };
        match config.list_by_id(id) {
            Some(l) => {
                let elements = clone_strings(&l.elements);
                ListUse::Apply { sheet_id: self.sheets[self.current_sheet_idx].id, row, col, elements }
            },
            None => ListUse::NoList,
        }
    }
}

} // verus!
