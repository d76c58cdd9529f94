//! The menu that picks a saved spreadsheet: the highlighted line moves over
//! the saved spreadsheets and a last "add new" line.
use vstd::prelude::*;
use crate::config::SpreadsheetConfig;
use crate::text::{chars_of, string_of, trim, trim_chars};

verus! {

/// A key pressed in the menu.
#[derive(Debug, Clone, Copy, PartialEq, Eq, Structural)]
pub enum MenuKey {
    Up,
    Down,
    /// `Delete` or `Backspace`.
    Delete,
    Enter,
    /// The `q` key.
    Quit,
    Other,
}

/// What the menu does after a key.
#[derive(Debug, Clone, Copy, PartialEq, Eq, Structural)]
pub enum MenuAction {
    /// Draw the menu again.
    Redraw,
    /// Remove the saved spreadsheet at this position, then draw again.
    Remove(usize),
    /// Ask for the name and URL of a new spreadsheet, then draw again.
    AddNew,
    /// Open the saved spreadsheet at this position.
    Open(usize),
    /// Leave the menu.
    Quit,
}

/// One key in the menu with `count` saved spreadsheets and line `selected`
/// highlighted (line `count` is "add new"): the line highlighted next and
/// what to do.
pub open spec fn menu_next(selected: nat, count: nat, key: MenuKey) -> (nat, MenuAction) {
    match key {
        MenuKey::Up => if selected > 0 {
            ((selected - 1) as nat, MenuAction::Redraw)
        } else {
            (selected, MenuAction::Redraw)
        },
        MenuKey::Down => if selected < count {
            (selected + 1, MenuAction::Redraw)
        } else {
            (selected, MenuAction::Redraw)
        },
        MenuKey::Delete => if selected < count {
            (
                if selected >= count - 1 && selected > 0 {
                    (selected - 1) as nat
                } else {
                    selected
                },
                MenuAction::Remove(selected as usize),
            )
        } else {
            (selected, MenuAction::Redraw)
        },
        MenuKey::Enter => if selected == count {
            (selected, MenuAction::AddNew)
        } else {
            (selected, MenuAction::Open(selected as usize))
        },
        MenuKey::Quit => (selected, MenuAction::Quit),
        MenuKey::Other => (selected, MenuAction::Redraw),
    }
}

/// The number of saved spreadsheets after `action`.
pub open spec fn count_after(count: nat, action: MenuAction) -> nat {
    match action {
        MenuAction::Remove(_) => (count - 1) as nat,
        _ => count,
    }
}

/// One key in the menu: the line highlighted next and what to do.
pub fn menu_step(selected: usize, count: usize, key: MenuKey) -> (r: (usize, MenuAction))
    requires
        selected <= count,
    ensures
        (r.0 as nat, r.1) == menu_next(selected as nat, count as nat, key),
{
    match key {
        MenuKey::Up => {
            if selected > 0 {
                (selected - 1, MenuAction::Redraw)
            } else {
                (selected, MenuAction::Redraw)
            }
        },
        MenuKey::Down => {
            if selected < count {
                (selected + 1, MenuAction::Redraw)
            } else {
                (selected, MenuAction::Redraw)
            }
        },
        MenuKey::Delete => {
            if selected < count {
                let next = if selected >= count - 1 && selected > 0 {
                    selected - 1
                } else {
                    selected
                };
                (next, MenuAction::Remove(selected))
            } else {
                (selected, MenuAction::Redraw)
            }
        },
        MenuKey::Enter => {
            if selected == count {
                (selected, MenuAction::AddNew)
            } else {
                (selected, MenuAction::Open(selected))
            }
        },
        MenuKey::Quit => (selected, MenuAction::Quit),
        MenuKey::Other => (selected, MenuAction::Redraw),
    }
}

/// The highlighted line stays on a saved spreadsheet or on "add new" after
/// every key, and what is opened or removed is a saved spreadsheet.
pub proof fn lemma_menu_selection_in_range(selected: nat, count: nat, key: MenuKey)
    requires
        selected <= count,
    ensures
        ({
            let (next, action) = menu_next(selected, count, key);
            &&& next <= count_after(count, action)
            &&& action matches MenuAction::Open(i) ==> i < count
            &&& action matches MenuAction::Remove(i) ==> i < count
        }),
{
}

/// Enter opens the highlighted saved spreadsheet; only on the "add new" line
/// after the last one does it ask for a new spreadsheet. The arrows move the
/// highlight one line, stopping at the first and the last line; Delete
/// removes the highlighted saved spreadsheet; `q` leaves; the highlight never
/// leaves the lines that exist.
pub proof fn lemma_menu_keys(selected: nat, count: nat)
    requires
        selected <= count,
    ensures
        selected < count ==> menu_next(selected, count, MenuKey::Enter) == (
            selected,
            MenuAction::Open(selected as usize),
        ),
        selected == count ==> menu_next(selected, count, MenuKey::Enter) == (
            selected,
            MenuAction::AddNew,
        ),
        menu_next(selected, count, MenuKey::Up).0 == if selected == 0 {
            0
        } else {
            selected - 1
        },
        menu_next(selected, count, MenuKey::Down).0 == if selected == count {
            count
        } else {
            selected + 1
        },
        menu_next(selected, count, MenuKey::Up).1 == MenuAction::Redraw,
        menu_next(selected, count, MenuKey::Down).1 == MenuAction::Redraw,
        selected < count ==> menu_next(selected, count, MenuKey::Delete).1 == MenuAction::Remove(
            selected as usize,
        ),
        selected == count ==> menu_next(selected, count, MenuKey::Delete) == (
            selected,
            MenuAction::Redraw,
        ),
        menu_next(selected, count, MenuKey::Quit).1 == MenuAction::Quit,
{
}

/// The spreadsheet to add from the typed name and URL, trimmed; none when the
/// URL is empty.
pub fn new_spreadsheet_entry(name: &str, url: &str) -> (r: Option<SpreadsheetConfig>)
    ensures
        r is None <==> trim(url@).len() == 0,
        r matches Some(c) ==> c.name@ == trim(name@) && c.url@ == trim(url@),
{
    let n = trim_chars(chars_of(name).as_slice());
    let u = trim_chars(chars_of(url).as_slice());
    if u.len() == 0 {
        None
    } else {
        Some(SpreadsheetConfig { name: string_of(n.as_slice()), url: string_of(u.as_slice()) })
    }
}

} // verus!
