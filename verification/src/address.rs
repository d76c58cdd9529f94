//! Spreadsheet addresses: column letters (`A`, ..., `Z`, `AA`, ...), cell
//! addresses such as `B3`, and the spreadsheet id inside a sheet URL.
use vstd::prelude::*;
use crate::commands::{
    all_alphabetic, letters_defined, letters_value, parse_from, parse_spec, step, CommandView, Step,
};
use crate::text::{
    all_ascii, all_digits, ascii_lower, ascii_lower_char, decimal, decimal_chars, is_letter, is_ws,
    lower_text, parse_usize, starts_with, string_of, unsigned_digits, ws_split, ws_state,
};

verus! {

/// The capital letter for `m < 26` (`0` is `A`).
pub open spec fn letter_char(m: nat) -> char {
    ((m + 65) as u8) as char
}

/// The column letters of the 1-based column `n` (`1` is `A`, `27` is `AA`);
/// empty for `0`.
pub open spec fn column_letters(n: nat) -> Seq<char>
    decreases n,
{
    if n == 0 {
        seq![]
    } else {
        column_letters(((n - 1) / 26) as nat).push(letter_char(((n - 1) % 26) as nat))
    }
}

/// The A1-style address of the cell at 0-based `row` and 1-based `col`.
pub open spec fn cell_address(row: nat, col: nat) -> Seq<char> {
    column_letters(col) + decimal(row + 1)
}

fn letter(m: usize) -> (c: char)
    requires
        m < 26,
    ensures
        c == letter_char(m as nat),
{
    ((m as u8) + 65u8) as char
}

/// The column letters of `n`, as characters.
pub fn column_letters_chars(n: usize) -> (v: Vec<char>)
    ensures
        v@ == column_letters(n as nat),
    decreases n,
{
    if n == 0 {
        Vec::new()
    } else {
        let mut v = column_letters_chars((n - 1) / 26);
        v.push(letter((n - 1) % 26));
        v
    }
}

/// Converts a 1-based column number to its letters (`1` is `A`, `28` is `AB`).
pub fn get_column_letter(n: usize) -> (s: String)
    ensures
        s@ == column_letters(n as nat),
{
    let v = column_letters_chars(n);
    string_of(v.as_slice())
}

/// The characters of the address of the cell at 0-based `row` and 1-based `col`.
pub fn cell_address_chars(row: usize, col: usize) -> (v: Vec<char>)
    requires
        row < usize::MAX,
    ensures
        v@ == cell_address(row as nat, col as nat),
{
    let mut v = column_letters_chars(col);
    let d = decimal_chars((row + 1) as u64);
    let ghost base = v@;
    let mut k: usize = 0;
    while k < d.len()
        invariant
            k <= d@.len(),
            v@ == base + d@.take(k as int),
        decreases d@.len() - k,
    {
        v.push(d[k]);
        assert(d@.take(k + 1) == d@.take(k as int).push(d@[k as int]));
        k += 1;
    }
    assert(d@.take(d@.len() as int) == d@);
    v
}

/// Converts a row and column into a Google Sheets address: the row is shown
/// one higher (`gspread_addr(2, 3)` is `C3`).
pub fn gspread_addr(row: usize, col: usize) -> (s: String)
    requires
        row < usize::MAX,
    ensures
        s@ == cell_address(row as nat, col as nat),
{
    let v = cell_address_chars(row, col);
    string_of(v.as_slice())
}

/// The column letters that the table shows for column `n` read back, in
/// lowercase as a `s<letters>` command is read, as the same column `n`.
pub proof fn lemma_column_letters_read_back(n: nat)
    requires
        1 <= n <= usize::MAX,
    ensures
        letters_defined(ascii_lower(column_letters(n))),
        letters_value(ascii_lower(column_letters(n))) == n,
    decreases n,
{
    lemma_letters_round_trip(n);
}

/// A word without whitespace is the one word of its line.
proof fn lemma_one_word(w: Seq<char>)
    requires
        w.len() > 0,
        forall|k: int| 0 <= k < w.len() ==> !is_ws(#[trigger] w[k]),
    ensures
        ws_split(w) == seq![w],
{
    lemma_ws_state_no_ws(w);
}

proof fn lemma_ws_state_no_ws(w: Seq<char>)
    requires
        forall|k: int| 0 <= k < w.len() ==> !is_ws(#[trigger] w[k]),
    ensures
        ws_state(w) == (Seq::<Seq<char>>::empty(), w),
    decreases w.len(),
{
    if w.len() > 0 {
        let d = w.drop_last();
        assert forall|k: int| 0 <= k < d.len() implies !is_ws(#[trigger] d[k]) by {
            assert(d[k] == w[k]);
        }
        lemma_ws_state_no_ws(d);
        assert(!is_ws(w[w.len() - 1]));
        assert(d.push(w.last()) =~= w);
    }
}

/// The line `s<letters>`, with the letters of column `n` in capitals or in
/// lowercase, reads as the one command that selects column `n`.
pub proof fn lemma_column_word_reads_as_column(n: usize)
    requires
        n >= 1,
    ensures
        parse_spec(seq!['s'] + column_letters(n as nat)) == Some(seq![CommandView::Col(Some(n))]),
        parse_spec(seq!['s'] + ascii_lower(column_letters(n as nat))) == Some(
            seq![CommandView::Col(Some(n))],
        ),
{
    lemma_letters_round_trip(n as nat);
    lemma_column_letters_read_back(n as nat);
    let up = column_letters(n as nat);
    let low = ascii_lower(up);
    assert(up.len() > 0);
    lemma_column_letters_upper(n as nat);
    lemma_column_word(n, seq!['s'] + up, low);
    lemma_column_word(n, seq!['s'] + low, low);
}

/// Column letters are capitals.
proof fn lemma_column_letters_upper(n: nat)
    ensures
        forall|k: int|
            0 <= k < column_letters(n).len() ==> 'A' <= #[trigger] column_letters(n)[k]
                && column_letters(n)[k] <= 'Z',
    decreases n,
{
    if n > 0 {
        let q = ((n - 1) / 26) as nat;
        let m = ((n - 1) % 26) as nat;
        lemma_column_letters_upper(q);
        let c = letter_char(m);
        assert(c as int == m + 65);
        assert forall|k: int|
            0 <= k < column_letters(n).len() implies 'A' <= #[trigger] column_letters(n)[k]
                && column_letters(n)[k] <= 'Z' by {
            if k < column_letters(q).len() {
                assert(column_letters(n)[k] == column_letters(q)[k]);
            }
        }
    }
}

/// One case of [`lemma_column_word_reads_as_column`]: the word `w` is `s`
/// followed by ASCII letters that lower to `low`, the letters of column `n`.
proof fn lemma_column_word(n: usize, w: Seq<char>, low: Seq<char>)
    requires
        n >= 1,
        low == ascii_lower(column_letters(n as nat)),
        low.len() > 0,
        w.len() == low.len() + 1,
        w[0] == 's',
        forall|k: int| 0 <= k < low.len() ==> 'a' <= #[trigger] low[k] && low[k] <= 'z',
        forall|k: int|
            0 <= k < low.len() ==> ascii_lower_char(#[trigger] w[k + 1]) == low[k] && (('A'
                <= w[k + 1] && w[k + 1] <= 'Z') || ('a' <= w[k + 1] && w[k + 1] <= 'z')),
        letters_defined(low),
        letters_value(low) == n,
    ensures
        parse_spec(w) == Some(seq![CommandView::Col(Some(n))]),
{
    assert forall|k: int| 0 <= k < w.len() implies !is_ws(#[trigger] w[k]) && (w[k] as u32)
        < 0x80 by {
        if k > 0 {
            assert(low[k - 1] == low[(k - 1)]);
            assert(('A' <= w[(k - 1) + 1] && w[(k - 1) + 1] <= 'Z') || ('a' <= w[(k - 1) + 1]
                && w[(k - 1) + 1] <= 'z'));
        }
    }
    lemma_one_word(w);
    let parts = seq![w];
    assert(all_ascii(w));
    let p = lower_text(w);
    assert(p == ascii_lower(w));
    assert(p =~= seq!['s'] + low) by {
        assert forall|k: int| 0 <= k < p.len() implies p[k] == (seq!['s'] + low)[k] by {
            if k > 0 {
                assert(ascii_lower_char(w[(k - 1) + 1]) == low[k - 1]);
            }
        }
    }
    reveal_strlit("list");
    reveal_strlit("rr");
    reveal_strlit("cc");
    reveal_strlit("nl");
    reveal_strlit("rl");
    reveal_strlit("edl");
    reveal_strlit("l");
    reveal_strlit("s");
    assert(p[0] == 's');
    assert(!starts_with(p, "rr"@)) by { assert(p.take(2)[0] == 's'); }
    assert(!starts_with(p, "cc"@)) by { assert(p.take(2)[0] == 's'); }
    assert(!starts_with(p, "nl"@)) by { assert(p.take(2)[0] == 's'); }
    assert(!starts_with(p, "rl"@)) by { assert(p.take(2)[0] == 's'); }
    assert(!starts_with(p, "edl"@)) by {
        if 3 <= p.len() {
            assert(p.take(3)[0] == 's');
        }
    }
    assert(!starts_with(p, "l"@)) by { assert(p.take(1)[0] == 's'); }
    assert(p != "list"@) by { assert("list"@[0] == 'l'); }
    assert(starts_with(p, "s"@)) by {
        assert("s"@ =~= seq!['s']);
        assert(p.take(1) =~= seq!['s']);
    }
    assert(p.skip(1) =~= low);
    assert(unsigned_digits(low) == low);
    assert(!all_digits(low)) by { assert('a' <= low[0]); }
    assert(parse_usize(p.skip(1)) is None);
    assert(all_alphabetic(low)) by {
        assert forall|k: int| 0 <= k < low.len() implies is_letter(#[trigger] low[k]) by {
            assert('a' <= low[k] && low[k] <= 'z');
        }
    }
    assert(step(parts, 0) == Step::Next(Some(CommandView::Col(Some(n))), false));
    assert(parse_from(parts, 1) == Some(Seq::<CommandView>::empty()));
    assert(seq![CommandView::Col(Some(n))] + Seq::<CommandView>::empty() =~= seq![CommandView::Col(Some(n))]);
}

proof fn lemma_letters_round_trip(n: nat)
    ensures
        letters_value(ascii_lower(column_letters(n))) == n,
        forall|k: int|
            0 <= k < column_letters(n).len() ==> 'a' <= #[trigger] ascii_lower(column_letters(n))[k]
                && ascii_lower(column_letters(n))[k] <= 'z',
    decreases n,
{
    if n > 0 {
        let q = ((n - 1) / 26) as nat;
        let r = ((n - 1) % 26) as nat;
        lemma_letters_round_trip(q);
        let prev = column_letters(q);
        let lc = letter_char(r);
        assert(column_letters(n) == prev.push(lc));
        assert(ascii_lower(prev.push(lc)) =~= ascii_lower(prev).push(ascii_lower_char(lc)));
        assert(ascii_lower(prev.push(lc)).drop_last() =~= ascii_lower(prev));
        assert(ascii_lower_char(lc) as int == r + 97);
    }
}

/// Whether `pat` occurs in `s` at position `i`.
pub open spec fn occurs_at(s: Seq<char>, pat: Seq<char>, i: int) -> bool {
    0 <= i && i + pat.len() <= s.len() && s.subrange(i, i + pat.len()) == pat
}

/// The position of the first occurrence of `pat` in `s`.
#[verifier::opaque]
pub open spec fn find_seq(s: Seq<char>, pat: Seq<char>) -> Option<int> {
    if exists|i: int| occurs_at(s, pat, i) {
        Some(
            choose|i: int|
                occurs_at(s, pat, i) && forall|j: int| 0 <= j < i ==> !occurs_at(s, pat, j),
        )
    } else {
        None
    }
}

/// The spreadsheet id in a sheet URL: what follows the first `/d/`, up to the
/// next `/`.
pub open spec fn spreadsheet_id_of(url: Seq<char>) -> Option<Seq<char>> {
    match find_seq(url, seq!['/', 'd', '/']) {
        Some(pos) => {
            let rest = url.skip(pos + 3);
            match crate::text::find(rest, '/') {
                Some(end) => Some(rest.take(end)),
                None => Some(rest),
            }
        },
        None => None,
    }
}

/// Extracts the spreadsheet id from a sheet URL such as
/// `https://docs.google.com/spreadsheets/d/<id>/edit`.
pub fn extract_id(url: &str) -> (r: Option<String>)
    ensures
        r matches Some(s) ==> spreadsheet_id_of(url@) == Some(s@),
        r is None ==> spreadsheet_id_of(url@) is None,
{
    let cs = crate::text::chars_of(url);
    let ghost pat: Seq<char> = seq!['/', 'd', '/'];
    let mut i: usize = 0;
    while i < cs.len() && cs.len() - i >= 3
        invariant
            cs@ == url@,
            i <= cs@.len(),
            pat == seq!['/', 'd', '/'],
            forall|j: int| 0 <= j < i ==> !occurs_at(cs@, pat, j),
        decreases cs@.len() - i,
    {
        let hit = cs[i] == '/' && cs[i + 1] == 'd' && cs[i + 2] == '/';
        assert(hit <==> occurs_at(cs@, pat, i as int)) by {
            let t = cs@.subrange(i as int, i + 3);
            if hit {
                assert(t =~= pat);
            }
            if t == pat {
                assert(t[0] == cs@[i as int] && t[1] == cs@[i + 1] && t[2] == cs@[i + 2]);
            }
        }
        if hit {
            proof {
                reveal(find_seq);
                let w = choose|k: int|
                    occurs_at(cs@, pat, k) && forall|j: int| 0 <= j < k ==> !occurs_at(cs@, pat, j);
                if w < i {
                } else if w > i {
                }
            }
            let rest = crate::text::slice_chars(cs.as_slice(), i + 3, cs.len());
            assert(rest@ == cs@.skip(i + 3));
            return match crate::text::find_char(rest.as_slice(), '/') {
                Some(end) => {
                    let id = crate::text::slice_chars(rest.as_slice(), 0, end);
                    assert(id@ == rest@.take(end as int));
                    Some(string_of(id.as_slice()))
                },
                None => Some(string_of(rest.as_slice())),
            };
        }
        i += 1;
    }
    proof {
        reveal(find_seq);
        if exists|k: int| occurs_at(cs@, pat, k) {
            let k = choose|k: int| occurs_at(cs@, pat, k);
            assert(!occurs_at(cs@, pat, k));
        }
    }
    None
}

} // verus!
