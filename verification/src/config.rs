//! The saved configuration: the spreadsheets the user keeps, the named lists
//! used as dropdowns, and which list each cell was given.
use colored::Colorize;
use rand::Rng;
use vstd::prelude::*;
use crate::commands::strs;
use crate::text::{
    append_str, chars_of, decimal, decimal_chars, eq_str, extend_chars, has_char, is_digit,
    join_strings, lemma_decimal_injective, lemma_decimal_reads_back, lemma_signed_decimal_injective,
    join_with, signed_decimal, signed_decimal_chars, string_of,
};

verus! {

/// A spreadsheet the user keeps: a name and its URL.
#[derive(Debug)]
pub struct SpreadsheetConfig {
    pub name: String,
    pub url: String,
}

impl Clone for SpreadsheetConfig {
    fn clone(&self) -> (r: Self)
        ensures
            r.name@ == self.name@,
            r.url@ == self.url@,
    {
        SpreadsheetConfig { name: self.name.clone(), url: self.url.clone() }
    }
}

/// A named list of values, offered as a dropdown.
#[derive(Debug)]
pub struct NamedList {
    pub id: String,
    pub elements: Vec<String>,
}

/// Copies of the strings `v`.
pub(crate) fn clone_strings(v: &Vec<String>) -> (r: Vec<String>)
    ensures
        strs(r@) == strs(v@),
{
    let mut r: Vec<String> = Vec::new();
    let mut i: usize = 0;
    while i < v.len()
        invariant
            i <= v@.len(),
            strs(r@) == strs(v@).take(i as int),
        decreases v@.len() - i,
    {
        let ghost prev = strs(r@);
        r.push(v[i].clone());
        assert(strs(r@) =~= prev.push(v@[i as int]@));
        assert(strs(v@).take(i + 1) =~= strs(v@).take(i as int).push(v@[i as int]@));
        i += 1;
    }
    assert(strs(v@).take(v@.len() as int) =~= strs(v@));
    r
}

impl Clone for NamedList {
    fn clone(&self) -> (r: Self)
        ensures
            r.id@ == self.id@,
            strs(r.elements@) == strs(self.elements@),
    {
        NamedList { id: self.id.clone(), elements: clone_strings(&self.elements) }
    }
}

/// The saved configuration. `cell_list_map` holds, for the key
/// `sheetId:row:col` of a cell, the id of the list assigned to it; a later
/// entry for a key overrides an earlier one.
#[derive(Debug)]
pub struct AppConfig {
    pub spreadsheets: Vec<SpreadsheetConfig>,
    pub lists: Vec<NamedList>,
    pub cell_list_map: Vec<(String, String)>,
}

/// The value that the entries `m` give to `key`: that of its last entry.
pub open spec fn map_lookup(m: Seq<(String, String)>, key: Seq<char>) -> Option<Seq<char>>
    decreases m.len(),
{
    if m.len() == 0 {
        None
    } else if m.last().0@ == key {
        Some(m.last().1@)
    } else {
        map_lookup(m.drop_last(), key)
    }
}

/// The key of a cell in the assignment map: `sheetId:row:col`.
pub open spec fn cell_key_spec(sheet_id: i64, row: usize, col: usize) -> Seq<char> {
    signed_decimal(sheet_id as int) + seq![':'] + decimal(row as nat) + seq![':'] + decimal(col as nat)
}

/// Whether some list has the id `id`.
pub open spec fn id_taken(lists: Seq<NamedList>, id: Seq<char>) -> bool {
    exists|i: int| 0 <= i < lists.len() && lists[i].id@ == id
}

/// Whether a 5-digit number not yet used as a list id exists.
pub open spec fn free_number_exists(lists: Seq<NamedList>) -> bool {
    exists|n: nat| 10000 <= n < 100000 && !id_taken(lists, #[trigger] decimal(n))
}

/// Whether adding a list with `id` makes up a new id: `id` is empty or taken.
pub open spec fn needs_new_id(lists: Seq<NamedList>, id: Seq<char>) -> bool {
    id.len() == 0 || id_taken(lists, id)
}

/// The entries of `m` whose value is not `v`, in order.
pub open spec fn without_value(m: Seq<(String, String)>, v: Seq<char>) -> Seq<(String, String)>
    decreases m.len(),
{
    if m.len() == 0 {
        seq![]
    } else if m.last().1@ == v {
        without_value(m.drop_last(), v)
    } else {
        without_value(m.drop_last(), v).push(m.last())
    }
}

/// The entries of `m` whose key is not `k`, in order.
pub open spec fn without_key(m: Seq<(String, String)>, k: Seq<char>) -> Seq<(String, String)>
    decreases m.len(),
{
    if m.len() == 0 {
        seq![]
    } else if m.last().0@ == k {
        without_key(m.drop_last(), k)
    } else {
        without_key(m.drop_last(), k).push(m.last())
    }
}

proof fn lemma_without_key_lookup(m: Seq<(String, String)>, k: Seq<char>, q: Seq<char>)
    ensures
        map_lookup(without_key(m, k), q) == if q == k {
            None
        } else {
            map_lookup(m, q)
        },
    decreases m.len(),
{
    if m.len() > 0 {
        lemma_without_key_lookup(m.drop_last(), k, q);
        if m.last().0@ != k {
            let w = without_key(m.drop_last(), k).push(m.last());
            assert(w.drop_last() =~= without_key(m.drop_last(), k));
        }
    }
}

/// Green and bold, as `colored` writes it when it colors.
pub open spec fn green_bold_prefix() -> Seq<char> {
    seq!['\u{1b}', '[', '1', ';', '3', '2', 'm']
}

/// Yellow, as `colored` writes it when it colors.
pub open spec fn yellow_prefix() -> Seq<char> {
    seq!['\u{1b}', '[', '3', '3', 'm']
}

/// The reset that `colored` writes after colored text.
pub open spec fn reset_suffix() -> Seq<char> {
    seq!['\u{1b}', '[', '0', 'm']
}

/// Whether `out` is `s` as `colored` shows it with the style `prefix`: plain
/// when coloring is off, wrapped in the style and a reset when it is on.
pub open spec fn painted(s: Seq<char>, prefix: Seq<char>, out: Seq<char>) -> bool {
    out == s || out == prefix + s + reset_suffix()
}

/// `s.green().bold()` of `colored`, as a `String`. Whether it colors depends
/// on the environment (`CLICOLOR`, `NO_COLOR`, `CLICOLOR_FORCE`) and on
/// whether standard output is a terminal; either way the text is `s`, plain
/// or between the style and a reset, for text without an escape character.
#[verifier::external_body]
fn paint_green_bold(s: &str) -> (r: String)
    ensures
        !has_char(s@, '\u{1b}') ==> painted(s@, green_bold_prefix(), r@),
{
    s.green().bold().to_string()
}

/// `s.yellow()` of `colored`, as a `String`; see [`paint_green_bold`].
#[verifier::external_body]
fn paint_yellow(s: &str) -> (r: String)
    ensures
        !has_char(s@, '\u{1b}') ==> painted(s@, yellow_prefix(), r@),
{
    s.yellow().to_string()
}

/// `rand::thread_rng().gen_range(lo..hi)` (rand 0.8): a number drawn
/// uniformly from `lo..hi` by the thread-local generator. `gen_range` panics
/// on an empty range, which `lo < hi` leaves out. Which number comes out is
/// chance and is not stated.
#[verifier::external_body]
fn random_in(lo: u32, hi: u32) -> (n: u32)
    requires
        lo < hi,
    ensures
        lo <= n < hi,
{
    rand::thread_rng().gen_range(lo..hi)
}

/// The line that shows one named list.
pub open spec fn list_line(painted_id: Seq<char>, count: nat, painted_elements: Seq<char>) -> Seq<char> {
    "ID: "@ + painted_id + " | "@ + decimal(count) + " element(s): "@ + painted_elements
}

/// Whether `line` shows the list `l`: its id painted green and bold, the
/// number of its elements, and its elements joined by `, ` painted yellow
/// (for ids and elements without escape characters).
pub open spec fn shows_list(line: Seq<char>, l: NamedList) -> bool {
    let joined = join_with(strs(l.elements@), ", "@);
    !has_char(l.id@, '\u{1b}') && !has_char(joined, '\u{1b}') ==> exists|p: Seq<char>, q: Seq<char>|
        painted(l.id@, green_bold_prefix(), p) && painted(joined, yellow_prefix(), q) && line
            == #[trigger] list_line(p, l.elements@.len(), q)
}

/// The line that shows a named list: `ID: <id> | <n> element(s): <elements>`.
pub fn format_list_line(painted_id: &str, count: usize, painted_elements: &str) -> (s: String)
    ensures
        s@ == list_line(painted_id@, count as nat, painted_elements@),
{
    let mut v = chars_of("ID: ");
    append_str(&mut v, painted_id);
    append_str(&mut v, " | ");
    let d = decimal_chars(count as u64);
    extend_chars(&mut v, d.as_slice());
    append_str(&mut v, " element(s): ");
    append_str(&mut v, painted_elements);
    string_of(v.as_slice())
}

impl Default for AppConfig {
    fn default() -> (c: Self)
        ensures
            c.spreadsheets@.len() == 0,
            c.lists@.len() == 0,
            c.cell_list_map@.len() == 0,
    {
        AppConfig { spreadsheets: Vec::new(), lists: Vec::new(), cell_list_map: Vec::new() }
    }
}

impl AppConfig {
    /// Adds a spreadsheet at the end of the list.
    pub fn add(&mut self, name: String, url: String)
        ensures
            final(self).spreadsheets@.len() == old(self).spreadsheets@.len() + 1,
            final(self).spreadsheets@.drop_last() == old(self).spreadsheets@,
            final(self).spreadsheets@.last().name == name,
            final(self).spreadsheets@.last().url == url,
            final(self).lists == old(self).lists,
            final(self).cell_list_map == old(self).cell_list_map,
    {
        self.spreadsheets.push(SpreadsheetConfig { name, url });
        assert(self.spreadsheets@.drop_last() =~= old(self).spreadsheets@);
    }

    /// Removes the spreadsheet at `index`; `false`, with nothing changed, when
    /// there is none.
    pub fn remove(&mut self, index: usize) -> (b: bool)
        ensures
            b == (index < old(self).spreadsheets@.len()),
            b ==> final(self).spreadsheets@ == old(self).spreadsheets@.remove(index as int),
            !b ==> final(self).spreadsheets == old(self).spreadsheets,
            final(self).lists == old(self).lists,
            final(self).cell_list_map == old(self).cell_list_map,
    {
        if index < self.spreadsheets.len() {
            self.spreadsheets.remove(index);
            true
        } else {
            false
        }
    }

    /// The key of a cell in the assignment map: `sheetId:row:col`.
    pub fn cell_key(sheet_id: i64, row: usize, col: usize) -> (s: String)
        ensures
            s@ == cell_key_spec(sheet_id, row, col),
    {
        let mut v = signed_decimal_chars(sheet_id);
        v.push(':');
        let r = decimal_chars(row as u64);
        extend_chars(&mut v, r.as_slice());
        v.push(':');
        let c = decimal_chars(col as u64);
        extend_chars(&mut v, c.as_slice());
        string_of(v.as_slice())
    }

    /// Assigns the list `list_id` to a cell, replacing what it had.
    pub fn assign_list_to_cell(&mut self, sheet_id: i64, row: usize, col: usize, list_id: String)
        ensures
            forall|q: Seq<char>|
                #[trigger] map_lookup(final(self).cell_list_map@, q) == if q == cell_key_spec(
                    sheet_id,
                    row,
                    col,
                ) {
                    Some(list_id@)
                } else {
                    map_lookup(old(self).cell_list_map@, q)
                },
            final(self).spreadsheets == old(self).spreadsheets,
            final(self).lists == old(self).lists,
    {
        let key = Self::cell_key(sheet_id, row, col);
        let kc = chars_of(key.as_str());
        let mut kept: Vec<(String, String)> = Vec::new();
        let mut i: usize = 0;
        while i < self.cell_list_map.len()
            invariant
                i <= self.cell_list_map@.len(),
                kept@ == without_key(self.cell_list_map@.take(i as int), key@),
                kc@ == key@,
            decreases self.cell_list_map@.len() - i,
        {
            assert(self.cell_list_map@.take(i + 1).drop_last() =~= self.cell_list_map@.take(i as int));
            let e = &self.cell_list_map[i];
            if !eq_str(kc.as_slice(), e.0.as_str()) {
                kept.push((e.0.clone(), e.1.clone()));
            }
            i += 1;
        }
        assert(self.cell_list_map@.take(self.cell_list_map@.len() as int) =~= self.cell_list_map@);
        let ghost kept_v = kept@;
        kept.push((key, list_id));
        proof {
            assert forall|q: Seq<char>|
                #[trigger] map_lookup(kept@, q) == if q == cell_key_spec(sheet_id, row, col) {
                    Some(list_id@)
                } else {
                    map_lookup(old(self).cell_list_map@, q)
                } by {
                assert(kept@.drop_last() =~= kept_v);
                lemma_without_key_lookup(old(self).cell_list_map@, key@, q);
            }
        }
        self.cell_list_map = kept;
    }

    /// The list assigned to a cell, if the cell has one and a list with that id exists.
    pub fn get_cell_list(&self, sheet_id: i64, row: usize, col: usize) -> (r: Option<&NamedList>)
        ensures
            map_lookup(self.cell_list_map@, cell_key_spec(sheet_id, row, col)) is None ==> r is None,
            map_lookup(self.cell_list_map@, cell_key_spec(sheet_id, row, col)) matches Some(lid)
                ==> match r {
                Some(l) => exists|i: int|
                    0 <= i < self.lists@.len() && *l == self.lists@[i] && l.id@ == lid && forall|
                        j: int,
                    |
                        0 <= j < i ==> self.lists@[j].id@ != lid,
                None => !id_taken(self.lists@, lid),
            },
    {
        let key = Self::cell_key(sheet_id, row, col);
        let kc = chars_of(key.as_str());
        let list_id = match self.lookup(kc.as_slice()) {
            Some(s) => s,
            None => return None,
        };
        let lc = chars_of(list_id.as_str());
        match self.list_position(lc.as_slice()) {
            Some(p) => Some(&self.lists[p]),
            None => None,
        }
    }

    /// The value of the last assignment entry whose key is `key`.
    fn lookup(&self, key: &[char]) -> (r: Option<&String>)
        ensures
            r matches Some(s) ==> map_lookup(self.cell_list_map@, key@) == Some(s@),
            r is None ==> map_lookup(self.cell_list_map@, key@) is None,
    {
        let mut i: usize = self.cell_list_map.len();
        assert(self.cell_list_map@.take(i as int) =~= self.cell_list_map@);
        while i > 0
            invariant
                i <= self.cell_list_map@.len(),
                map_lookup(self.cell_list_map@, key@) == map_lookup(
                    self.cell_list_map@.take(i as int),
                    key@,
                ),
            decreases i,
        {
            assert(self.cell_list_map@.take(i as int).drop_last() =~= self.cell_list_map@.take(i - 1));
            if eq_str(key, self.cell_list_map[i - 1].0.as_str()) {
                return Some(&self.cell_list_map[i - 1].1);
            }
            i -= 1;
        }
        None
    }

    /// The position of the first list with the id `id`.
    fn list_position(&self, id: &[char]) -> (r: Option<usize>)
        ensures
            r matches Some(p) ==> p < self.lists@.len() && self.lists@[p as int].id@ == id@
                && forall|j: int| 0 <= j < p ==> self.lists@[j].id@ != id@,
            r is None ==> !id_taken(self.lists@, id@),
    {
        let mut i: usize = 0;
        while i < self.lists.len()
            invariant
                i <= self.lists@.len(),
                forall|j: int| 0 <= j < i ==> self.lists@[j].id@ != id@,
            decreases self.lists@.len() - i,
        {
            if eq_str(id, self.lists[i].id.as_str()) {
                return Some(i);
            }
            i += 1;
        }
        None
    }

    /// The id of the first list whose elements are exactly `elements`, if any;
    /// it avoids keeping the same list twice.
    pub fn find_list_by_elements(&self, elements: &[String]) -> (r: Option<String>)
        ensures
            r matches Some(id) ==> first_with_elements(self.lists@, strs(elements@), id@),
            r is None ==> !has_elements(self.lists@, strs(elements@)),
    {
        let mut i: usize = 0;
        while i < self.lists.len()
            invariant
                i <= self.lists@.len(),
                forall|j: int|
                    0 <= j < i ==> strs(self.lists@[j].elements@) != strs(elements@),
            decreases self.lists@.len() - i,
        {
            if same_strings(&self.lists[i].elements, elements) {
                return Some(self.lists[i].id.clone());
            }
            i += 1;
        }
        None
    }

    /// The id of the list with exactly `elements`: that of the first such
    /// list when one exists (nothing changes then), else the id that
    /// [`AppConfig::add_named_list`] gives a new list of them with `id`.
    pub fn list_for(&mut self, elements: Vec<String>, id: String) -> (r: String)
        requires
            !has_elements(old(self).lists@, strs(elements@)) && needs_new_id(old(self).lists@, id@)
                ==> free_number_exists(old(self).lists@),
        ensures
            has_elements(old(self).lists@, strs(elements@)) ==> *final(self) == *old(self)
                && first_with_elements(old(self).lists@, strs(elements@), r@),
            !has_elements(old(self).lists@, strs(elements@)) ==> {
                &&& !needs_new_id(old(self).lists@, id@) ==> r@ == id@
                &&& !id_taken(old(self).lists@, r@)
                &&& needs_new_id(old(self).lists@, id@) ==> exists|n: nat|
                    10000 <= n < 100000 && r@ == decimal(n)
                &&& final(self).lists@ == old(self).lists@.push(final(self).lists@.last())
                &&& final(self).lists@.last().id@ == r@
                &&& final(self).lists@.last().elements == elements
                &&& final(self).spreadsheets == old(self).spreadsheets
                &&& final(self).cell_list_map == old(self).cell_list_map
            },
    {
        match self.find_list_by_elements(elements.as_slice()) {
            Some(existing) => existing,
            None => {
                let ghost before = self.lists@;
                let r = self.add_named_list(elements, id);
                assert(self.lists@ =~= before.push(self.lists@.last()));
                r
            },
        }
    }

    /// Whether some list has the id `id`.
    fn has_id(&self, id: &[char]) -> (b: bool)
        ensures
            b == id_taken(self.lists@, id@),
    {
        match self.list_position(id) {
            Some(p) => true,
            None => false,
        }
    }

    /// The first list with the id `id`, if any.
    pub fn list_by_id(&self, id: &str) -> (r: Option<&NamedList>)
        ensures
            r matches Some(l) ==> exists|p: int|
                0 <= p < self.lists@.len() && *l == self.lists@[p] && l.id@ == id@ && forall|
                    j: int,
                | 0 <= j < p ==> self.lists@[j].id@ != id@,
            r is None ==> !id_taken(self.lists@, id@),
    {
        let idc = chars_of(id);
        match self.list_position(idc.as_slice()) {
            Some(p) => Some(&self.lists[p]),
            None => None,
        }
    }

    /// Whether a 5-digit number not yet used as a list id exists.
    pub fn free_number_available(&self) -> (b: bool)
        ensures
            b == free_number_exists(self.lists@),
    {
        let mut n: u64 = 10000;
        while n < 100000
            invariant
                10000 <= n <= 100000,
                forall|m: nat| 10000 <= m < n ==> id_taken(self.lists@, #[trigger] decimal(m)),
            decreases 100000 - n,
        {
            let d = decimal_chars(n);
            if !self.has_id(d.as_slice()) {
                return true;
            }
            n += 1;
        }
        false
    }

    /// Shows all named lists: one line each with the id in green and bold,
    /// the number of elements, and the elements joined by `, ` in yellow
    /// (plain where the terminal is not colored).
    pub fn list_named_lists(&self) -> (r: Vec<String>)
        ensures
            r@.len() == self.lists@.len(),
            forall|i: int| 0 <= i < r@.len() ==> shows_list(#[trigger] r@[i]@, self.lists@[i]),
    {
        let mut r: Vec<String> = Vec::new();
        let mut i: usize = 0;
        while i < self.lists.len()
            invariant
                i <= self.lists@.len(),
                r@.len() == i,
                forall|k: int| 0 <= k < i ==> shows_list(#[trigger] r@[k]@, self.lists@[k]),
            decreases self.lists@.len() - i,
        {
            let l = &self.lists[i];
            let id = paint_green_bold(l.id.as_str());
            let joined = join_strings(&l.elements, ", ");
            let js = string_of(joined.as_slice());
            let els = paint_yellow(js.as_str());
            assert(Seq::new(l.elements@.len(), |k: int| l.elements@[k]@) =~= strs(l.elements@));
            let line = format_list_line(id.as_str(), l.elements.len(), els.as_str());
            assert(shows_list(line@, *l)) by {
                assert(line@ == list_line(id@, l.elements@.len(), els@));
            }
            r.push(line);
            i += 1;
        }
        r
    }

    /// Adds a named list and gives its id: `id` itself, or, when `id` is empty
    /// or already taken, a new 5-digit number not taken by any list, drawn at
    /// random.
    pub fn add_named_list(&mut self, elements: Vec<String>, id: String) -> (r: String)
        requires
            needs_new_id(old(self).lists@, id@) ==> free_number_exists(old(self).lists@),
        ensures
            !needs_new_id(old(self).lists@, id@) ==> r@ == id@,
            !id_taken(old(self).lists@, r@),
            needs_new_id(old(self).lists@, id@) ==> exists|n: nat|
                10000 <= n < 100000 && r@ == decimal(n) && !id_taken(old(self).lists@, r@),
            final(self).lists@.len() == old(self).lists@.len() + 1,
            final(self).lists@.drop_last() == old(self).lists@,
            final(self).lists@.last().id@ == r@,
            final(self).lists@.last().elements == elements,
            final(self).spreadsheets == old(self).spreadsheets,
            final(self).cell_list_map == old(self).cell_list_map,
    {
        let idc = chars_of(id.as_str());
        let new_id: String = if idc.len() == 0 || self.has_id(idc.as_slice()) {
            self.draw_free_id()
        } else {
            id
        };
        let ghost before = self.lists@;
        let result = new_id.clone();
        self.lists.push(NamedList { id: new_id, elements });
        assert(self.lists@.drop_last() =~= before);
        result
    }

    /// A 5-digit number not taken as a list id, drawn at random. The draws
    /// are counted so that the search provably ends: after `u64::MAX` draws
    /// the numbers are tried in order, which finds a free one as one exists.
    fn draw_free_id(&self) -> (r: String)
        requires
            free_number_exists(self.lists@),
        ensures
            exists|n: nat| 10000 <= n < 100000 && r@ == decimal(n) && !id_taken(self.lists@, r@),
    {
        let mut tries: u64 = 0;
        while tries < u64::MAX
            invariant
                free_number_exists(self.lists@),
            decreases u64::MAX - tries,
        {
            let n = random_in(10000, 100000);
            let d = decimal_chars(n as u64);
            if !self.has_id(d.as_slice()) {
                return string_of(d.as_slice());
            }
            tries += 1;
        }
        let mut n: u64 = 10000;
        while n < 100000
            invariant
                10000 <= n <= 100000,
                free_number_exists(self.lists@),
                forall|m: nat| 10000 <= m < n ==> id_taken(self.lists@, #[trigger] decimal(m)),
            decreases 100000 - n,
        {
            let d = decimal_chars(n);
            if !self.has_id(d.as_slice()) {
                return string_of(d.as_slice());
            }
            n += 1;
        }
        proof {
            let m = choose|m: nat| 10000 <= m < 100000 && !id_taken(self.lists@, #[trigger] decimal(m));
            assert(id_taken(self.lists@, decimal(m)));
        }
        String::new()
    }

    /// Removes the first list with the id `id` and every cell assignment to
    /// that id; `false`, with nothing changed, when no list has it.
    pub fn remove_named_list(&mut self, id: &str) -> (b: bool)
        ensures
            b == id_taken(old(self).lists@, id@),
            b ==> exists|p: int|
                0 <= p < old(self).lists@.len() && old(self).lists@[p].id@ == id@ && (forall|
                    j: int,
                |
                    0 <= j < p ==> old(self).lists@[j].id@ != id@) && final(self).lists@ == old(
                    self,
                ).lists@.remove(p),
            b ==> final(self).cell_list_map@ == without_value(old(self).cell_list_map@, id@),
            !b ==> final(self).lists == old(self).lists && final(self).cell_list_map == old(
                self,
            ).cell_list_map,
            final(self).spreadsheets == old(self).spreadsheets,
    {
        let idc = chars_of(id);
        match self.list_position(idc.as_slice()) {
            Some(p) => {
                self.lists.remove(p);
                let mut kept: Vec<(String, String)> = Vec::new();
                let mut i: usize = 0;
                while i < self.cell_list_map.len()
                    invariant
                        i <= self.cell_list_map@.len(),
                        kept@ == without_value(self.cell_list_map@.take(i as int), id@),
                        idc@ == id@,
                    decreases self.cell_list_map@.len() - i,
                {
                    assert(self.cell_list_map@.take(i + 1).drop_last() =~= self.cell_list_map@.take(i as int));
                    let e = &self.cell_list_map[i];
                    if !eq_str(idc.as_slice(), e.1.as_str()) {
                        kept.push((e.0.clone(), e.1.clone()));
                    }
                    i += 1;
                }
                assert(self.cell_list_map@.take(self.cell_list_map@.len() as int) =~= self.cell_list_map@);
                self.cell_list_map = kept;
                true
            },
            None => false,
        }
    }
}

/// Whether some list holds exactly the elements `es`.
pub open spec fn has_elements(lists: Seq<NamedList>, es: Seq<Seq<char>>) -> bool {
    exists|i: int| 0 <= i < lists.len() && #[trigger] strs(lists[i].elements@) == es
}

/// Whether `id` is the id of the first list that holds exactly the elements `es`.
pub open spec fn first_with_elements(lists: Seq<NamedList>, es: Seq<Seq<char>>, id: Seq<char>) -> bool {
    exists|i: int|
        0 <= i < lists.len() && lists[i].id@ == id && #[trigger] strs(lists[i].elements@) == es
            && forall|j: int| 0 <= j < i ==> #[trigger] strs(lists[j].elements@) != es
}

/// Whether no two lists share an id.
pub open spec fn ids_unique(lists: Seq<NamedList>) -> bool {
    forall|i: int, j: int|
        0 <= i < j < lists.len() ==> #[trigger] lists[i].id@ != #[trigger] lists[j].id@
}

/// Adding a spreadsheet and then removing the last one gives back the list
/// of spreadsheets as it was.
pub proof fn lemma_add_then_remove(s: Seq<SpreadsheetConfig>, x: SpreadsheetConfig)
    ensures
        s.push(x).remove(s.len() as int) == s,
{
    assert(s.push(x).remove(s.len() as int) =~= s);
}

/// A list added with the id that `add_named_list` gives keeps the ids of the
/// lists distinct: that id is never one that a list already has.
pub proof fn lemma_added_list_keeps_ids_unique(lists: Seq<NamedList>, l: NamedList)
    requires
        ids_unique(lists),
        !id_taken(lists, l.id@),
    ensures
        ids_unique(lists.push(l)),
{
    let n = lists.push(l);
    assert forall|i: int, j: int| 0 <= i < j < n.len() implies #[trigger] n[i].id@
        != #[trigger] n[j].id@ by {
        if j == lists.len() {
            assert(n[i] == lists[i]);
        } else {
            assert(n[i] == lists[i] && n[j] == lists[j]);
        }
    }
}

/// A list added when no list held its elements is the one that a search by
/// those elements then finds: the search finds a list, and the id it gives is
/// the added list's.
pub proof fn lemma_added_list_found_by_elements(lists: Seq<NamedList>, l: NamedList, id: Seq<char>)
    requires
        !has_elements(lists, strs(l.elements@)),
    ensures
        has_elements(lists.push(l), strs(l.elements@)),
        first_with_elements(lists.push(l), strs(l.elements@), id) <==> id == l.id@,
{
    let n = lists.push(l);
    let es = strs(l.elements@);
    assert(n[lists.len() as int] == l);
    assert(strs(n[lists.len() as int].elements@) == es);
    if first_with_elements(n, es, id) {
        let i = choose|i: int|
            0 <= i < n.len() && n[i].id@ == id && #[trigger] strs(n[i].elements@) == es
                && forall|j: int| 0 <= j < i ==> #[trigger] strs(n[j].elements@) != es;
        if i < lists.len() {
            assert(n[i] == lists[i]);
            assert(strs(lists[i].elements@) == es);
        }
    }
    if id == l.id@ {
        assert forall|j: int| 0 <= j < lists.len() implies #[trigger] strs(n[j].elements@) != es by {
            assert(n[j] == lists[j]);
        }
    }
}

/// Removing the list just added, under an id no list had, finds that list
/// and gives back the lists as they were before it was added.
pub proof fn lemma_remove_after_add(lists: Seq<NamedList>, l: NamedList)
    requires
        !id_taken(lists, l.id@),
    ensures
        id_taken(lists.push(l), l.id@),
        forall|p: int|
            0 <= p < lists.len() + 1 && lists.push(l)[p].id@ == l.id@ && (forall|j: int|
                0 <= j < p ==> lists.push(l)[j].id@ != l.id@) ==> #[trigger] lists.push(l).remove(p)
                == lists,
{
    let n = lists.push(l);
    assert(n[lists.len() as int] == l);
    assert forall|p: int|
        0 <= p < lists.len() + 1 && n[p].id@ == l.id@ && (forall|j: int|
            0 <= j < p ==> n[j].id@ != l.id@) implies #[trigger] n.remove(p) == lists by {
        if p < lists.len() {
            assert(n[p] == lists[p]);
        }
        assert(n.remove(p) =~= lists);
    }
}

/// After a list is removed no cell is assigned to it any more: no key of the
/// cleaned map gives its id.
pub proof fn lemma_removed_list_unassigned(m: Seq<(String, String)>, id: Seq<char>, q: Seq<char>)
    ensures
        map_lookup(without_value(m, id), q) != Some(id),
        match map_lookup(m, q) {
            Some(v) => v != id ==> map_lookup(without_value(m, id), q) == Some(v),
            None => true,
        },
    decreases m.len(),
{
    if m.len() > 0 {
        lemma_removed_list_unassigned(m.drop_last(), id, q);
        if m.last().1@ != id {
            let w = without_value(m.drop_last(), id).push(m.last());
            assert(w.drop_last() =~= without_value(m.drop_last(), id));
        }
    }
}

/// Two texts joined by `:` around parts without `:` are equal only part by part.
proof fn lemma_split_at_colon(a1: Seq<char>, b1: Seq<char>, a2: Seq<char>, b2: Seq<char>)
    requires
        !has_char(a1, ':'),
        !has_char(a2, ':'),
        a1 + seq![':'] + b1 == a2 + seq![':'] + b2,
    ensures
        a1 == a2,
        b1 == b2,
{
    let s = a1 + seq![':'] + b1;
    if a1.len() < a2.len() {
        assert(s[a1.len() as int] == ':');
        assert((a2 + seq![':'] + b2)[a1.len() as int] == a2[a1.len() as int]);
    } else if a2.len() < a1.len() {
        assert((a2 + seq![':'] + b2)[a2.len() as int] == ':');
        assert(s[a2.len() as int] == a1[a2.len() as int]);
    }
    assert(a1 =~= s.take(a1.len() as int));
    assert(a2 =~= (a2 + seq![':'] + b2).take(a2.len() as int));
    assert(b1 =~= s.skip(a1.len() as int + 1));
    assert(b2 =~= (a2 + seq![':'] + b2).skip(a2.len() as int + 1));
}

/// Different cells have different keys in the assignment map, so assigning
/// a list to one cell leaves the list of every other cell as it was.
pub proof fn lemma_cell_keys_distinct(s1: i64, r1: usize, c1: usize, s2: i64, r2: usize, c2: usize)
    ensures
        cell_key_spec(s1, r1, c1) == cell_key_spec(s2, r2, c2) <==> (s1 == s2 && r1 == r2 && c1
            == c2),
{
    if cell_key_spec(s1, r1, c1) == cell_key_spec(s2, r2, c2) {
        let a1 = signed_decimal(s1 as int);
        let a2 = signed_decimal(s2 as int);
        let b1 = decimal(r1 as nat);
        let b2 = decimal(r2 as nat);
        let d1 = decimal(c1 as nat);
        let d2 = decimal(c2 as nat);
        lemma_signed_decimal_injective(s1 as int, s2 as int);
        lemma_signed_decimal_injective(s2 as int, s1 as int);
        lemma_decimal_reads_back(r1 as nat);
        lemma_decimal_reads_back(r2 as nat);
        lemma_decimal_injective(r1 as nat, r2 as nat);
        lemma_decimal_injective(c1 as nat, c2 as nat);
        assert(!has_char(a1, ':')) by {
            if has_char(a1, ':') {
                let k = choose|k: int| 0 <= k < a1.len() && a1[k] == ':';
                assert(is_digit(a1[k]) || a1[k] == '-');
            }
        }
        assert(!has_char(a2, ':')) by {
            if has_char(a2, ':') {
                let k = choose|k: int| 0 <= k < a2.len() && a2[k] == ':';
                assert(is_digit(a2[k]) || a2[k] == '-');
            }
        }
        assert(!has_char(b1, ':')) by {
            if has_char(b1, ':') {
                let k = choose|k: int| 0 <= k < b1.len() && b1[k] == ':';
                assert(is_digit(b1[k]));
            }
        }
        assert(!has_char(b2, ':')) by {
            if has_char(b2, ':') {
                let k = choose|k: int| 0 <= k < b2.len() && b2[k] == ':';
                assert(is_digit(b2[k]));
            }
        }
        assert(cell_key_spec(s1, r1, c1) =~= a1 + seq![':'] + (b1 + seq![':'] + d1));
        assert(cell_key_spec(s2, r2, c2) =~= a2 + seq![':'] + (b2 + seq![':'] + d2));
        lemma_split_at_colon(a1, b1 + seq![':'] + d1, a2, b2 + seq![':'] + d2);
        lemma_split_at_colon(b1, d1, b2, d2);
    }
}

/// Whether the strings `a` and `b` are equal, one by one.
fn same_strings(a: &Vec<String>, b: &[String]) -> (r: bool)
    ensures
        r == (strs(a@) == strs(b@)),
{
    if a.len() != b.len() {
        assert(strs(a@).len() != strs(b@).len());
        return false;
    }
    let mut i: usize = 0;
    while i < a.len()
        invariant
            i <= a@.len(),
            a@.len() == b@.len(),
            forall|k: int| 0 <= k < i ==> a@[k]@ == b@[k]@,
        decreases a@.len() - i,
    {
        if a[i] != b[i] {
            assert(strs(a@)[i as int] != strs(b@)[i as int]);
            return false;
        }
        i += 1;
    }
    assert(strs(a@) =~= strs(b@));
    true
}

} // verus!
