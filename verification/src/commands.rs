//! The command language typed at the prompt: a line is split into words and
//! read left to right into a list of commands.
use std::collections::HashSet;
use vstd::prelude::*;
use crate::text::{
    chars_of, contains_char, ends_with, ends_with_str, eq_str, find, find_char,
    has_char, is_alphabetic, join_from, join_space, lower_chars, lower_text, is_letter, parse_usize,
    parse_usize_chars, rfind, rfind_char, seqs, skip_bytes, skip_bytes_chars, slice_chars,
    split_char, split_on, split_whitespace, starts_with, starts_with_str, string_of, trim,
    trim_chars, ws_split,
};

verus! {

broadcast use vstd::std_specs::hash::group_hash_axioms;

/// One command of the prompt.
#[derive(Debug)]
pub enum Command {
    Sheet(usize),
    Row(Option<usize>),
    Col(Option<usize>),
    Edit(String),
    Val(usize),
    Delete,
    New,
    /// Values, whether they fill from the right, and the columns to skip.
    Add(Vec<String>, bool, HashSet<usize>),
    Undo,
    Redo,
    Help,
    Remove,
    Menu,
    NewSheet(String),
    Exit,
    ListLists,
    NewList(Vec<String>, String),
    RemoveList(String),
    EditList(String),
    RowPage(usize),
    ColPage(usize),
}

/// The mathematical form of a [`Command`].
pub enum CommandView {
    Sheet(usize),
    Row(Option<usize>),
    Col(Option<usize>),
    Edit(Seq<char>),
    Val(usize),
    Delete,
    New,
    Add(Seq<Seq<char>>, bool, Set<usize>),
    Undo,
    Redo,
    Help,
    Remove,
    Menu,
    NewSheet(Seq<char>),
    Exit,
    ListLists,
    NewList(Seq<Seq<char>>, Seq<char>),
    RemoveList(Seq<char>),
    EditList(Seq<char>),
    RowPage(usize),
    ColPage(usize),
}

/// The character sequences held by a sequence of strings.
pub open spec fn strs(v: Seq<String>) -> Seq<Seq<char>> {
    Seq::new(v.len(), |i: int| v[i]@)
}

impl View for Command {
    type V = CommandView;

    open spec fn view(&self) -> CommandView {
        match self {
            Command::Sheet(n) => CommandView::Sheet(*n),
            Command::Row(n) => CommandView::Row(*n),
            Command::Col(n) => CommandView::Col(*n),
            Command::Edit(s) => CommandView::Edit(s@),
            Command::Val(n) => CommandView::Val(*n),
            Command::Delete => CommandView::Delete,
            Command::New => CommandView::New,
            Command::Add(v, r, k) => CommandView::Add(strs(v@), *r, k@),
            Command::Undo => CommandView::Undo,
            Command::Redo => CommandView::Redo,
            Command::Help => CommandView::Help,
            Command::Remove => CommandView::Remove,
            Command::Menu => CommandView::Menu,
            Command::NewSheet(s) => CommandView::NewSheet(s@),
            Command::Exit => CommandView::Exit,
            Command::ListLists => CommandView::ListLists,
            Command::NewList(v, id) => CommandView::NewList(strs(v@), id@),
            Command::RemoveList(s) => CommandView::RemoveList(s@),
            Command::EditList(s) => CommandView::EditList(s@),
            Command::RowPage(n) => CommandView::RowPage(*n),
            Command::ColPage(n) => CommandView::ColPage(*n),
        }
    }
}

/// What reading one word does: emit at most one command and go on (skipping
/// the next word when the flag is set), emit at most one command and stop, or
/// fail where the reading would panic.
pub enum Step {
    Next(Option<CommandView>, bool),
    Stop(Option<CommandView>),
    Abort,
}

/// The value of the column letters `cs` (`a` = 1, ..., `z` = 26, `aa` = 27, ...).
pub open spec fn letters_value(cs: Seq<char>) -> int
    decreases cs.len(),
{
    if cs.len() == 0 {
        0
    } else {
        letters_value(cs.drop_last()) * 26 + (cs.last() as int - 'a' as int + 1)
    }
}

/// Whether the column letters `cs` can be read without an arithmetic fault.
pub open spec fn letters_defined(cs: Seq<char>) -> bool {
    &&& forall|k: int| 0 <= k < cs.len() ==> 'a' <= #[trigger] cs[k]
    &&& letters_value(cs) <= usize::MAX
}

/// Whether every character of `cs` is alphabetic (see [`is_letter`]).
pub open spec fn all_alphabetic(cs: Seq<char>) -> bool {
    forall|k: int| 0 <= k < cs.len() ==> is_letter(#[trigger] cs[k])
}

/// The columns that one item of a skip list names: `n` or `a-b` (inclusive).
pub open spec fn item_columns(item: Seq<char>) -> Set<usize> {
    if has_char(item, '-') {
        let r = split_on(item, '-');
        if r.len() == 2 {
            match (parse_usize(trim(r[0])), parse_usize(trim(r[1]))) {
                (Some(a), Some(b)) => Set::new(|c: usize| a <= c && c <= b),
                _ => Set::empty(),
            }
        } else {
            Set::empty()
        }
    } else {
        match parse_usize(trim(item)) {
            Some(c) => Set::empty().insert(c),
            None => Set::empty(),
        }
    }
}

/// The union of the columns that the items name.
pub open spec fn columns_union(items: Seq<Seq<char>>) -> Set<usize>
    decreases items.len(),
{
    if items.len() == 0 {
        Set::empty()
    } else {
        columns_union(items.drop_last()).union(item_columns(items.last()))
    }
}

/// The columns that a comma-separated skip list names.
pub open spec fn skip_columns(part: Seq<char>) -> Set<usize> {
    columns_union(split_on(part, ','))
}

/// Each piece trimmed.
pub open spec fn trim_all(pieces: Seq<Seq<char>>) -> Seq<Seq<char>> {
    Seq::new(pieces.len(), |i: int| trim(pieces[i]))
}

/// Reading the `nl <a; b; ...> (id)` form from word `i` on.
pub open spec fn new_list_step(parts: Seq<Seq<char>>, i: int) -> Step {
    let full = join_space(parts.skip(i));
    match (find(full, '<'), rfind(full, '>')) {
        (Some(bs), Some(be)) => if bs + 1 > be {
            Step::Abort
        } else {
            let elements = trim_all(split_on(full.subrange(bs + 1, be), ';'));
            match (find(full, '('), rfind(full, ')')) {
                (Some(ps), Some(pe)) => if ps + 1 > pe {
                    Step::Abort
                } else {
                    Step::Stop(
                        Some(CommandView::NewList(elements, trim(full.subrange(ps + 1, pe)))),
                    )
                },
                _ => Step::Stop(Some(CommandView::NewList(elements, seq![]))),
            }
        },
        _ => Step::Next(None, false),
    }
}

/// Reading the `add <a; b; ...> [skip]` form from word `i` on.
pub open spec fn add_step(parts: Seq<Seq<char>>, i: int) -> Step {
    let full = join_space(parts.skip(i));
    match (find(full, '<'), rfind(full, '>')) {
        (Some(st), Some(en)) => if st + 1 > en {
            Step::Abort
        } else {
            let inner0 = trim(full.subrange(st + 1, en));
            let reverse = ends_with(inner0, "(-1)"@);
            let inner = if reverse {
                trim(inner0.take(inner0.len() - 4))
            } else {
                inner0
            };
            let values = trim_all(split_on(inner, ';'));
            match (find(full, '['), find(full, ']')) {
                (Some(ss), Some(se)) => if ss + 1 > se {
                    Step::Abort
                } else {
                    Step::Stop(
                        Some(
                            CommandView::Add(
                                values,
                                reverse,
                                skip_columns(full.subrange(ss + 1, se)),
                            ),
                        ),
                    )
                },
                _ => Step::Stop(Some(CommandView::Add(values, reverse, Set::empty()))),
            }
        },
        _ => Step::Stop(None),
    }
}

/// The word after word `i`, or the empty word.
pub open spec fn next_word(parts: Seq<Seq<char>>, i: int) -> Seq<char> {
    if i + 1 < parts.len() {
        parts[i + 1]
    } else {
        seq![]
    }
}

/// Reading word `i` of `parts`.
pub open spec fn step(parts: Seq<Seq<char>>, i: int) -> Step {
    let raw = parts[i];
    let p = lower_text(raw);
    if p == "list"@ {
        Step::Next(Some(CommandView::ListLists), false)
    } else if starts_with(p, "rr"@) && parse_usize(p.skip(2)) is Some {
        Step::Next(Some(CommandView::RowPage(parse_usize(p.skip(2))->0)), false)
    } else if starts_with(p, "cc"@) && parse_usize(p.skip(2)) is Some {
        Step::Next(Some(CommandView::ColPage(parse_usize(p.skip(2))->0)), false)
    } else if starts_with(p, "nl"@) {
        new_list_step(parts, i)
    } else if starts_with(p, "rl"@) {
        Step::Next(
            Some(
                CommandView::RemoveList(
                    if p == "rl"@ {
                        next_word(parts, i)
                    } else {
                        p.skip(2)
                    },
                ),
            ),
            false,
        )
    } else if starts_with(p, "edl"@) {
        if p == "edl"@ {
            Step::Next(Some(CommandView::EditList(next_word(parts, i))), false)
        } else {
            match skip_bytes(raw, 3) {
                Some(id) => Step::Next(Some(CommandView::EditList(id)), false),
                None => Step::Abort,
            }
        }
    } else if starts_with(p, "l"@) && parse_usize(p.skip(1)) is Some {
        Step::Next(Some(CommandView::Row(parse_usize(p.skip(1)))), false)
    } else if starts_with(p, "s"@) && parse_usize(p.skip(1)) is Some {
        Step::Next(Some(CommandView::Col(parse_usize(p.skip(1)))), false)
    } else if starts_with(p, "s"@) && p.len() > 1 && all_alphabetic(p.skip(1)) {
        if letters_defined(p.skip(1)) {
            Step::Next(Some(CommandView::Col(Some(letters_value(p.skip(1)) as usize))), false)
        } else {
            Step::Abort
        }
    } else if p == "v"@ {
        if i + 1 < parts.len() && parse_usize(parts[i + 1]) is Some {
            Step::Next(Some(CommandView::Val(parse_usize(parts[i + 1])->0)), true)
        } else {
            Step::Next(None, false)
        }
    } else if starts_with(p, "v"@) && parse_usize(p.skip(1)) is Some {
        Step::Next(Some(CommandView::Val(parse_usize(p.skip(1))->0)), false)
    } else if p == "ed"@ {
        Step::Stop(Some(CommandView::Edit(join_space(parts.skip(i + 1)))))
    } else if p == "del"@ {
        Step::Next(Some(CommandView::Delete), false)
    } else if p == "new"@ {
        Step::Next(Some(CommandView::New), false)
    } else if p == "add"@ {
        add_step(parts, i)
    } else if p == "ns"@ {
        Step::Stop(Some(CommandView::NewSheet(join_space(parts.skip(i + 1)))))
    } else if p == "menu"@ || p == "eq"@ {
        Step::Next(Some(CommandView::Menu), false)
    } else if p == "rm"@ {
        Step::Next(Some(CommandView::Remove), false)
    } else if p == "cz"@ {
        Step::Next(Some(CommandView::Undo), false)
    } else if p == "csz"@ {
        Step::Next(Some(CommandView::Redo), false)
    } else if p == "h"@ {
        Step::Next(Some(CommandView::Help), false)
    } else if p == "exit"@ || p == "quit"@ {
        Step::Next(Some(CommandView::Exit), false)
    } else if parse_usize(p) is Some {
        Step::Next(Some(CommandView::Sheet(parse_usize(p)->0)), false)
    } else {
        Step::Next(None, false)
    }
}

/// The command, if any, as a sequence.
pub open spec fn opt_seq(c: Option<CommandView>) -> Seq<CommandView> {
    match c {
        Some(c) => seq![c],
        None => seq![],
    }
}

/// Reading the words of `parts` from word `i` on; `None` where the reading panics.
pub open spec fn parse_from(parts: Seq<Seq<char>>, i: int) -> Option<Seq<CommandView>>
    decreases parts.len() - i,
{
    if i < 0 || i >= parts.len() {
        Some(seq![])
    } else {
        match step(parts, i) {
            Step::Next(c, skip) => {
                let j = if skip {
                    i + 2
                } else {
                    i + 1
                };
                match parse_from(parts, j) {
                    Some(rest) => Some(opt_seq(c) + rest),
                    None => None,
                }
            },
            Step::Stop(c) => Some(opt_seq(c)),
            Step::Abort => None,
        }
    }
}

/// Reading from word `i` on gives at most one command per word left.
proof fn lemma_parse_from_len(parts: Seq<Seq<char>>, i: int)
    ensures
        parse_from(parts, i) matches Some(cs) ==> cs.len() == 0 || cs.len() <= parts.len() - i,
    decreases parts.len() - i,
{
    if 0 <= i < parts.len() {
        match step(parts, i) {
            Step::Next(c, skip) => {
                let j = if skip {
                    i + 2
                } else {
                    i + 1
                };
                lemma_parse_from_len(parts, j);
            },
            _ => {},
        }
    }
}

/// The commands that the line `input` reads as; `None` where reading it panics.
pub open spec fn parse_spec(input: Seq<char>) -> Option<Seq<CommandView>> {
    parse_from(ws_split(input), 0)
}


/// A line never gives more commands than it has words.
pub proof fn lemma_at_most_one_command_per_word(input: Seq<char>)
    ensures
        parse_spec(input) matches Some(cs) ==> cs.len() <= ws_split(input).len(),
{
    lemma_parse_from_len(ws_split(input), 0);
}

/// Reading word `i` looks only at word `i` and the words after it.
proof fn lemma_step_shift(parts: Seq<Seq<char>>, d: int, i: int)
    requires
        0 <= d <= i < parts.len(),
    ensures
        step(parts, i) == step(parts.skip(d), i - d),
{
    let q = parts.skip(d);
    let k = i - d;
    assert(q[k] == parts[i]);
    assert(q.skip(k) =~= parts.skip(i));
    assert(q.skip(k + 1) =~= parts.skip(i + 1));
    if i + 1 < parts.len() {
        assert(q[k + 1] == parts[i + 1]);
    }
    assert(next_word(q, k) == next_word(parts, i));
    assert(new_list_step(q, k) == new_list_step(parts, i));
    assert(add_step(q, k) == add_step(parts, i));
}

/// Reading from word `i` on does not depend on the words before it.
proof fn lemma_parse_from_shift(parts: Seq<Seq<char>>, d: int, i: int)
    requires
        0 <= d <= i,
        d <= parts.len(),
    ensures
        parse_from(parts, i) == parse_from(parts.skip(d), i - d),
    decreases parts.len() - i,
{
    if i < parts.len() {
        lemma_step_shift(parts, d, i);
        match step(parts, i) {
            Step::Next(c, skip) => {
                let j = if skip {
                    i + 2
                } else {
                    i + 1
                };
                lemma_parse_from_shift(parts, d, j);
            },
            _ => {},
        }
    }
}

/// `v N` takes exactly one word after it: a line whose words are `v`, a
/// number `N` and then the words of `rest` reads as `Val(N)` followed by
/// exactly what `rest` reads as on its own (and fails where `rest` fails).
pub proof fn lemma_v_takes_one_number(line: Seq<char>, rest: Seq<char>)
    requires
        ws_split(line).len() >= 2,
        lower_text(ws_split(line)[0]) == "v"@,
        parse_usize(ws_split(line)[1]) is Some,
        ws_split(line).skip(2) == ws_split(rest),
    ensures
        parse_spec(line) == match parse_spec(rest) {
            Some(r) => Some(seq![CommandView::Val(parse_usize(ws_split(line)[1])->0)] + r),
            None => None,
        },
{
    let parts = ws_split(line);
    let p = lower_text(parts[0]);
    reveal_strlit("v");
    reveal_strlit("list");
    reveal_strlit("rr");
    reveal_strlit("cc");
    reveal_strlit("nl");
    reveal_strlit("rl");
    reveal_strlit("edl");
    reveal_strlit("l");
    reveal_strlit("s");
    assert(p.len() == 1 && p[0] == 'v');
    assert(p != "list"@);
    assert(!starts_with(p, "l"@)) by {
        assert(p.take(1)[0] == 'v');
    }
    assert(!starts_with(p, "s"@)) by {
        assert(p.take(1)[0] == 'v');
    }
    assert(step(parts, 0) == Step::Next(
        Some(CommandView::Val(parse_usize(parts[1])->0)),
        true,
    ));
    lemma_parse_from_shift(parts, 2, 2);
    match parse_spec(rest) {
        Some(r) => {
            assert(opt_seq(Some(CommandView::Val(parse_usize(parts[1])->0))) == seq![
                CommandView::Val(parse_usize(parts[1])->0),
            ]);
        },
        None => {},
    }
}

/// The commands as their mathematical forms.
pub open spec fn views(v: Seq<Command>) -> Seq<CommandView> {
    Seq::new(v.len(), |i: int| v[i]@)
}

/// The result of reading one word (see [`Step`]).
pub enum Outcome {
    Next(Option<Command>, bool),
    Stop(Option<Command>),
    Abort,
}

/// The command, if any, in its mathematical form.
pub open spec fn opt_view(c: Option<Command>) -> Option<CommandView> {
    match c {
        Some(c) => Some(c@),
        None => None,
    }
}

impl View for Outcome {
    type V = Step;

    open spec fn view(&self) -> Step {
        match self {
            Outcome::Next(c, skip) => Step::Next(opt_view(*c), *skip),
            Outcome::Stop(c) => Step::Stop(opt_view(*c)),
            Outcome::Abort => Step::Abort,
        }
    }
}

/// Each piece trimmed, as strings.
fn trimmed_strings(pieces: &Vec<Vec<char>>) -> (r: Vec<String>)
    ensures
        strs(r@) == trim_all(seqs(pieces@)),
{
    let mut r: Vec<String> = Vec::new();
    let mut i: usize = 0;
    while i < pieces.len()
        invariant
            i <= pieces@.len(),
            strs(r@) == trim_all(seqs(pieces@)).take(i as int),
        decreases pieces@.len() - i,
    {
        let t = trim_chars(pieces[i].as_slice());
        let ghost old_r = r@;
        r.push(string_of(t.as_slice()));
        assert(strs(r@) =~= strs(old_r).push(trim(pieces@[i as int]@)));
        assert(trim_all(seqs(pieces@)).take(i + 1) =~= trim_all(seqs(pieces@)).take(i as int).push(
            trim(pieces@[i as int]@),
        ));
        i += 1;
    }
    assert(trim_all(seqs(pieces@)).take(pieces@.len() as int) =~= trim_all(seqs(pieces@)));
    r
}

/// Adds the columns that one skip-list item names to `set`.
fn add_item_columns(item: &Vec<char>, set: &mut HashSet<usize>)
    ensures
        final(set)@ == old(set)@.union(item_columns(item@)),
{
    if contains_char(item.as_slice(), '-') {
        let r = split_char(item.as_slice(), '-');
        if r.len() == 2 {
            let a = parse_usize_chars(trim_chars(r[0].as_slice()).as_slice());
            let b = parse_usize_chars(trim_chars(r[1].as_slice()).as_slice());
            assert(seqs(r@)[0] == r@[0]@ && seqs(r@)[1] == r@[1]@);
            match (a, b) {
                (Some(a), Some(b)) => {
                    let ghost base = set@;
                    if a <= b {
                        let mut c = a;
                        loop
                            invariant_except_break
                                a <= c <= b,
                                set@ == base.union(Set::new(|x: usize| a <= x && x < c)),
                            ensures
                                set@ == base.union(Set::new(|x: usize| a <= x && x <= b)),
                            decreases b - c,
                        {
                            let ghost before = set@;
                            set.insert(c);
                            if c == b {
                                assert(set@ =~= base.union(Set::new(|x: usize| a <= x && x <= b)));
                                break;
                            }
                            c += 1;
                            assert(set@ =~= base.union(Set::new(|x: usize| a <= x && x < c)));
                        }
                    } else {
                        assert(Set::new(|x: usize| a <= x && x <= b) =~= Set::<usize>::empty());
                        assert(set@ =~= base.union(Set::new(|x: usize| a <= x && x <= b)));
                    }
                },
                _ => {
                    assert(set@ =~= set@.union(Set::<usize>::empty()));
                },
            }
        } else {
            assert(set@ =~= set@.union(Set::<usize>::empty()));
        }
    } else {
        let t = trim_chars(item.as_slice());
        match parse_usize_chars(t.as_slice()) {
            Some(c) => {
                set.insert(c);
                assert(final(set)@ =~= old(set)@.union(Set::empty().insert(c)));
            },
            None => {
                assert(set@ =~= set@.union(Set::<usize>::empty()));
            },
        }
    }
}

/// The columns that a comma-separated skip list names.
fn skip_columns_of(part: &[char]) -> (r: HashSet<usize>)
    ensures
        r@ == skip_columns(part@),
{
    let items = split_char(part, ',');
    let mut set: HashSet<usize> = HashSet::new();
    let mut i: usize = 0;
    while i < items.len()
        invariant
            i <= items@.len(),
            set@ == columns_union(seqs(items@).take(i as int)),
        decreases items@.len() - i,
    {
        add_item_columns(&items[i], &mut set);
        assert(seqs(items@).take(i + 1).drop_last() == seqs(items@).take(i as int));
        i += 1;
    }
    assert(seqs(items@).take(items@.len() as int) == seqs(items@));
    set
}

proof fn lemma_letters_monotone(cs: Seq<char>, j: int)
    requires
        0 <= j <= cs.len(),
        forall|k: int| 0 <= k < cs.len() ==> 'a' <= #[trigger] cs[k],
    ensures
        letters_value(cs.take(j)) <= letters_value(cs),
        0 <= letters_value(cs.take(j)),
    decreases cs.len() - j,
{
    if j < cs.len() {
        assert(cs.take(cs.len() - 1) == cs.drop_last());
        lemma_letters_monotone(cs.drop_last(), j);
        assert(cs.drop_last().take(j) == cs.take(j));
        assert('a' <= cs[cs.len() - 1]);
    } else {
        assert(cs.take(j) == cs);
        lemma_letters_nonneg(cs);
    }
}

proof fn lemma_letters_nonneg(cs: Seq<char>)
    requires
        forall|k: int| 0 <= k < cs.len() ==> 'a' <= #[trigger] cs[k],
    ensures
        0 <= letters_value(cs),
    decreases cs.len(),
{
    if cs.len() > 0 {
        lemma_letters_nonneg(cs.drop_last());
        assert('a' <= cs[cs.len() - 1]);
    }
}

/// The position of `c` counted from `a` = 1, for `c` at or after `a`.
fn letter_number(c: char) -> (r: Option<u32>)
    ensures
        r matches Some(d) ==> 'a' <= c && d as int == c as int - 'a' as int + 1,
        r is None ==> !('a' <= c),
{
    let u = c as u32;
    if u < 97 {
        None
    } else {
        Some(u - 96)
    }
}

/// The value of the column letters `cs`, where it can be computed.
fn letters_value_of(cs: &[char]) -> (r: Option<usize>)
    ensures
        r matches Some(v) ==> letters_defined(cs@) && v == letters_value(cs@),
        r is None ==> !letters_defined(cs@),
{
    let mut col: usize = 0;
    let mut i: usize = 0;
    while i < cs.len()
        invariant
            i <= cs@.len(),
            forall|k: int| 0 <= k < i ==> 'a' <= #[trigger] cs@[k],
            col == letters_value(cs@.take(i as int)),
        decreases cs@.len() - i,
    {
        let c = cs[i];
        let d: u32 = match letter_number(c) {
            Some(d) => d,
            None => {
                assert(!letters_defined(cs@)) by {
                    assert(!('a' <= cs@[i as int]));
                }
                return None;
            },
        };
        let next: u128 = (col as u128) * 26 + (d as u128);
        assert(cs@.take(i + 1).drop_last() == cs@.take(i as int));
        assert(next == letters_value(cs@.take(i + 1)));
        if next > usize::MAX as u128 {
            proof {
                if forall|k: int| 0 <= k < cs@.len() ==> 'a' <= #[trigger] cs@[k] {
                    lemma_letters_monotone(cs@, i + 1);
                }
            }
            return None;
        }
        col = next as usize;
        i += 1;
    }
    assert(cs@.take(cs@.len() as int) == cs@);
    Some(col)
}

/// Whether every character of `cs` is alphabetic (see [`is_letter`]).
fn all_alphabetic_chars(cs: &[char]) -> (b: bool)
    ensures
        b == all_alphabetic(cs@),
{
    let mut i: usize = 0;
    while i < cs.len()
        invariant
            i <= cs@.len(),
            forall|k: int| 0 <= k < i ==> is_letter(#[trigger] cs@[k]),
        decreases cs@.len() - i,
    {
        if !is_alphabetic(cs[i]) {
            return false;
        }
        i += 1;
    }
    true
}

/// Reading the `nl <...> (id)` form from word `i` on.
fn new_list_outcome(parts: &Vec<Vec<char>>, i: usize) -> (r: Outcome)
    requires
        i < parts.len(),
    ensures
        r@ == new_list_step(seqs(parts@), i as int),
{
    let full = join_from(parts, i);
    match (find_char(full.as_slice(), '<'), rfind_char(full.as_slice(), '>')) {
        (Some(bs), Some(be)) => {
            assert(bs < full.len());
            if bs + 1 > be {
                return Outcome::Abort;
            }
            let inner = slice_chars(full.as_slice(), bs + 1, be);
            let pieces = split_char(inner.as_slice(), ';');
            let elements = trimmed_strings(&pieces);
            match (find_char(full.as_slice(), '('), rfind_char(full.as_slice(), ')')) {
                (Some(ps), Some(pe)) => {
                    if ps + 1 > pe {
                        return Outcome::Abort;
                    }
                    let idv = trim_chars(slice_chars(full.as_slice(), ps + 1, pe).as_slice());
                    Outcome::Stop(Some(Command::NewList(elements, string_of(idv.as_slice()))))
                },
                _ => {
                    let id = String::new();
                    Outcome::Stop(Some(Command::NewList(elements, id)))
                },
            }
        },
        _ => Outcome::Next(None, false),
    }
}

/// Reading the `add <...> [skip]` form from word `i` on.
fn add_outcome(parts: &Vec<Vec<char>>, i: usize) -> (r: Outcome)
    requires
        i < parts.len(),
    ensures
        r@ == add_step(seqs(parts@), i as int),
{
    let full = join_from(parts, i);
    match (find_char(full.as_slice(), '<'), rfind_char(full.as_slice(), '>')) {
        (Some(st), Some(en)) => {
            assert(st < full.len());
            if st + 1 > en {
                return Outcome::Abort;
            }
            let inner0 = trim_chars(slice_chars(full.as_slice(), st + 1, en).as_slice());
            let reverse = ends_with_str(inner0.as_slice(), "(-1)");
            proof {
                reveal_strlit("(-1)");
            }
            assert(reverse ==> inner0@.len() >= 4);
            let inner = if reverse {
                trim_chars(slice_chars(inner0.as_slice(), 0, inner0.len() - 4).as_slice())
            } else {
                inner0
            };
            assert(reverse ==> inner0@.subrange(0, inner0@.len() - 4) == inner0@.take(inner0@.len() - 4));
            let pieces = split_char(inner.as_slice(), ';');
            let values = trimmed_strings(&pieces);
            match (find_char(full.as_slice(), '['), find_char(full.as_slice(), ']')) {
                (Some(ss), Some(se)) => {
                    if ss + 1 > se {
                        return Outcome::Abort;
                    }
                    let part = slice_chars(full.as_slice(), ss + 1, se);
                    let skip = skip_columns_of(part.as_slice());
                    Outcome::Stop(Some(Command::Add(values, reverse, skip)))
                },
                _ => {
                    let skip: HashSet<usize> = HashSet::new();
                    Outcome::Stop(Some(Command::Add(values, reverse, skip)))
                },
            }
        },
        _ => Outcome::Stop(None),
    }
}

/// The word after word `i`, or the empty word.
fn next_word_string(parts: &Vec<Vec<char>>, i: usize) -> (s: String)
    requires
        i < parts.len(),
    ensures
        s@ == next_word(seqs(parts@), i as int),
{
    if i + 1 < parts.len() {
        string_of(parts[i + 1].as_slice())
    } else {
        String::new()
    }
}

/// Reading word `i` of `parts`.
fn step_outcome(parts: &Vec<Vec<char>>, i: usize) -> (r: Outcome)
    requires
        i < parts.len(),
    ensures
        r@ == step(seqs(parts@), i as int),
{
    let raw = &parts[i];
    assert(seqs(parts@)[i as int] == raw@);
    let p = lower_chars(raw.as_slice());
    let ps = p.as_slice();
    let n = p.len();
    proof {
        reveal_strlit("rr");
        reveal_strlit("cc");
        reveal_strlit("l");
        reveal_strlit("s");
        reveal_strlit("v");
    }
    if eq_str(ps, "list") {
        return Outcome::Next(Some(Command::ListLists), false);
    }
    if starts_with_str(ps, "rr") {
        if let Some(k) = parse_usize_chars(slice_chars(ps, 2, n).as_slice()) {
            assert(p@.subrange(2, n as int) == p@.skip(2));
            return Outcome::Next(Some(Command::RowPage(k)), false);
        }
        assert(p@.subrange(2, n as int) == p@.skip(2));
    }
    if starts_with_str(ps, "cc") {
        if let Some(k) = parse_usize_chars(slice_chars(ps, 2, n).as_slice()) {
            assert(p@.subrange(2, n as int) == p@.skip(2));
            return Outcome::Next(Some(Command::ColPage(k)), false);
        }
        assert(p@.subrange(2, n as int) == p@.skip(2));
    }
    if starts_with_str(ps, "nl") {
        return new_list_outcome(parts, i);
    }
    if starts_with_str(ps, "rl") {
        proof {
            reveal_strlit("rl");
        }
        let id = if eq_str(ps, "rl") {
            next_word_string(parts, i)
        } else {
            assert(p@.subrange(2, n as int) == p@.skip(2));
            string_of(slice_chars(ps, 2, n).as_slice())
        };
        return Outcome::Next(Some(Command::RemoveList(id)), false);
    }
    if starts_with_str(ps, "edl") {
        if eq_str(ps, "edl") {
            return Outcome::Next(Some(Command::EditList(next_word_string(parts, i))), false);
        }
        return match skip_bytes_chars(raw.as_slice(), 3) {
            Some(id) => Outcome::Next(Some(Command::EditList(string_of(id.as_slice()))), false),
            None => Outcome::Abort,
        };
    }
    let tail = if n >= 1 {
        slice_chars(ps, 1, n)
    } else {
        Vec::new()
    };
    assert(n >= 1 ==> tail@ == p@.skip(1));
    if starts_with_str(ps, "l") {
        if let Some(k) = parse_usize_chars(tail.as_slice()) {
            return Outcome::Next(Some(Command::Row(Some(k))), false);
        }
    }
    if starts_with_str(ps, "s") {
        if let Some(k) = parse_usize_chars(tail.as_slice()) {
            return Outcome::Next(Some(Command::Col(Some(k))), false);
        }
        if n > 1 && all_alphabetic_chars(tail.as_slice()) {
            return match letters_value_of(tail.as_slice()) {
                Some(col) => Outcome::Next(Some(Command::Col(Some(col))), false),
                None => Outcome::Abort,
            };
        }
    }
    if eq_str(ps, "v") {
        if i + 1 < parts.len() {
            assert(seqs(parts@)[i + 1] == parts@[i + 1]@);
            if let Some(k) = parse_usize_chars(parts[i + 1].as_slice()) {
                return Outcome::Next(Some(Command::Val(k)), true);
            }
        }
        return Outcome::Next(None, false);
    }
    if starts_with_str(ps, "v") {
        if let Some(k) = parse_usize_chars(tail.as_slice()) {
            return Outcome::Next(Some(Command::Val(k)), false);
        }
    }
    if eq_str(ps, "ed") {
        let v = join_from(parts, i + 1);
        return Outcome::Stop(Some(Command::Edit(string_of(v.as_slice()))));
    }
    if eq_str(ps, "del") {
        return Outcome::Next(Some(Command::Delete), false);
    }
    if eq_str(ps, "new") {
        return Outcome::Next(Some(Command::New), false);
    }
    if eq_str(ps, "add") {
        return add_outcome(parts, i);
    }
    if eq_str(ps, "ns") {
        let v = join_from(parts, i + 1);
        return Outcome::Stop(Some(Command::NewSheet(string_of(v.as_slice()))));
    }
    if eq_str(ps, "menu") || eq_str(ps, "eq") {
        return Outcome::Next(Some(Command::Menu), false);
    }
    if eq_str(ps, "rm") {
        return Outcome::Next(Some(Command::Remove), false);
    }
    if eq_str(ps, "cz") {
        return Outcome::Next(Some(Command::Undo), false);
    }
    if eq_str(ps, "csz") {
        return Outcome::Next(Some(Command::Redo), false);
    }
    if eq_str(ps, "h") {
        return Outcome::Next(Some(Command::Help), false);
    }
    if eq_str(ps, "exit") || eq_str(ps, "quit") {
        return Outcome::Next(Some(Command::Exit), false);
    }
    if let Some(k) = parse_usize_chars(ps) {
        return Outcome::Next(Some(Command::Sheet(k)), false);
    }
    Outcome::Next(None, false)
}

/// `Some(prefix + rest)` where `o` is `Some(rest)`.
pub open spec fn prepend(prefix: Seq<CommandView>, o: Option<Seq<CommandView>>) -> Option<Seq<CommandView>> {
    match o {
        Some(rest) => Some(prefix + rest),
        None => None,
    }
}

/// Reads the words `parts` into commands; `None` where the reading would panic.
fn read_words(parts: &Vec<Vec<char>>) -> (r: Option<Vec<Command>>)
    ensures
        r matches Some(v) ==> parse_from(seqs(parts@), 0) == Some(views(v@)),
        r is None ==> parse_from(seqs(parts@), 0) is None,
{
    let ghost ps = seqs(parts@);
    let mut acc: Vec<Command> = Vec::new();
    let mut i: usize = 0;
    proof {
        assert(views(acc@) =~= Seq::<CommandView>::empty());
        match parse_from(ps, 0) {
            Some(rest) => {
                assert(Seq::<CommandView>::empty() + rest =~= rest);
            },
            None => {},
        }
    }
    while i < parts.len()
        invariant
            ps == seqs(parts@),
            i <= parts@.len(),
            parse_from(ps, 0) == prepend(views(acc@), parse_from(ps, i as int)),
        decreases parts@.len() - i,
    {
        let o = step_outcome(parts, i);
        let ghost before = views(acc@);
        match o {
            Outcome::Next(c, skip) => {
                let ghost cv = opt_view(c);
                match c {
                    Some(c) => {
                        acc.push(c);
                    },
                    None => {},
                }
                assert(views(acc@) =~= before + opt_seq(cv));
                let ghost j: int = if skip {
                    i + 2
                } else {
                    i + 1
                };
                proof {
                    match parse_from(ps, j) {
                        Some(rest) => {
                            assert(before + (opt_seq(cv) + rest) =~= (before + opt_seq(cv)) + rest);
                        },
                        None => {},
                    }
                }
                if skip {
                    if i + 2 > parts.len() {
                        i = parts.len();
                    } else {
                        i = i + 2;
                    }
                } else {
                    i = i + 1;
                }
                assert(parse_from(ps, j) == parse_from(ps, i as int));
            },
            Outcome::Stop(c) => {
                let ghost cv = opt_view(c);
                match c {
                    Some(c) => {
                        acc.push(c);
                    },
                    None => {},
                }
                assert(views(acc@) =~= before + opt_seq(cv));
                return Some(acc);
            },
            Outcome::Abort => {
                return None;
            },
        }
    }
    assert(views(acc@) + seq![] =~= views(acc@));
    Some(acc)
}

/// Reads a command line into commands, or `None` where reading it would panic
/// (a word that reads as column letters too large for `usize`, an `edl` word
/// whose third byte does not end a character, or brackets that close before
/// they open).
pub fn try_parse_command(input: &str) -> (r: Option<Vec<Command>>)
    ensures
        r matches Some(v) ==> parse_spec(input@) == Some(views(v@)) && v@.len() <= ws_split(
            input@,
        ).len(),
        r is None ==> parse_spec(input@) is None,
{
    proof {
        lemma_at_most_one_command_per_word(input@);
    }
    let cs = chars_of(input);
    let parts = split_whitespace(cs.as_slice());
    read_words(&parts)
}

/// Reads a command line into commands.
pub fn parse_command(input: &str) -> (cmds: Vec<Command>)
    requires
        parse_spec(input@) is Some,
    ensures
        parse_spec(input@) == Some(views(cmds@)),
        cmds@.len() <= ws_split(input@).len(),
{
    match try_parse_command(input) {
        Some(v) => v,
        None => Vec::new(),
    }
}

} // verus!
