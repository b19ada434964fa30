//! Character-level text primitives shared by the Noir heuristics, the
//! suppression parser and the report renderers.
//!
//! All scanning works on the source's characters (`Seq<char>`, the view of a
//! `str`). Every pattern the heuristics look for is ASCII, and a UTF-8
//! multi-byte character never contains an ASCII byte, so searching the
//! character sequence finds exactly the occurrences a byte-level search
//! would, and every line number and extracted snippet is the same.

use vstd::prelude::*;

verus! {

// ---------------------------------------------------------------------------
// Specifications
// ---------------------------------------------------------------------------

/// `p` occurs in `s` starting at index `i`.
pub open spec fn matches_at(s: Seq<char>, p: Seq<char>, i: int) -> bool {
    &&& 0 <= i
    &&& i + p.len() <= s.len()
    &&& forall|k: int| 0 <= k < p.len() ==> s[i + k] == #[trigger] p[k]
}

/// Index of the first occurrence of `p` in `s` at or after `from`.
pub open spec fn find_from(s: Seq<char>, p: Seq<char>, from: int) -> Option<int>
    decreases s.len() - from,
{
    if from < 0 || from + p.len() > s.len() {
        None
    } else if matches_at(s, p, from) {
        Some(from)
    } else {
        find_from(s, p, from + 1)
    }
}

/// `p` occurs somewhere in `s` (`str::contains`).
pub open spec fn contains(s: Seq<char>, p: Seq<char>) -> bool {
    find_from(s, p, 0) is Some
}

/// Number of occurrences of `c` among the first `hi` characters of `s`.
pub open spec fn count_char(s: Seq<char>, c: char, hi: int) -> nat
    decreases hi,
{
    if hi <= 0 {
        0
    } else {
        count_char(s, c, hi - 1) + (if s[hi - 1] == c { 1nat } else { 0nat })
    }
}

/// 1-based line number of the character at index `idx` (newlines strictly
/// before `idx`, plus one), reduced to `u32` as the reports carry it.
pub open spec fn line_at(s: Seq<char>, idx: int) -> u32 {
    (1 + count_char(s, '\n', idx)) as u32
}

/// ASCII letter or digit.
pub open spec fn is_ascii_alnum(c: char) -> bool {
    ('a' <= c && c <= 'z') || ('A' <= c && c <= 'Z') || ('0' <= c && c <= '9')
}

/// A character that can continue an identifier: ASCII letter, digit or `_`.
pub open spec fn is_ident_char(c: char) -> bool {
    is_ascii_alnum(c) || c == '_'
}

/// Unicode `White_Space` property, which is what `char::is_whitespace`
/// tests (25 code points).
pub open spec fn is_ws(c: char) -> bool {
    ||| ('\u{9}' <= c && c <= '\u{d}')
    ||| c == ' '
    ||| c == '\u{85}'
    ||| c == '\u{a0}'
    ||| c == '\u{1680}'
    ||| ('\u{2000}' <= c && c <= '\u{200a}')
    ||| c == '\u{2028}'
    ||| c == '\u{2029}'
    ||| c == '\u{202f}'
    ||| c == '\u{205f}'
    ||| c == '\u{3000}'
}

/// Index of the first non-whitespace character at or after `i` (or `s.len()`).
pub open spec fn skip_ws(s: Seq<char>, i: int) -> int
    decreases s.len() - i,
{
    if i < 0 || i >= s.len() {
        i
    } else if is_ws(s[i]) {
        skip_ws(s, i + 1)
    } else {
        i
    }
}

/// One past the last non-whitespace character before `j` (or `lo`).
pub open spec fn skip_ws_back(s: Seq<char>, lo: int, j: int) -> int
    decreases j - lo,
{
    if j <= lo {
        j
    } else if is_ws(s[j - 1]) {
        skip_ws_back(s, lo, j - 1)
    } else {
        j
    }
}

/// `str::trim_start`.
pub open spec fn trim_start(s: Seq<char>) -> Seq<char> {
    s.subrange(skip_ws(s, 0), s.len() as int)
}

/// `str::trim_end`.
pub open spec fn trim_end(s: Seq<char>) -> Seq<char> {
    s.subrange(0, skip_ws_back(s, 0, s.len() as int))
}

/// `str::trim`.
pub open spec fn trim(s: Seq<char>) -> Seq<char> {
    trim_end(trim_start(s))
}

/// Every character is whitespace (`s.trim().is_empty()`).
pub open spec fn is_blank(s: Seq<char>) -> bool {
    forall|i: int| 0 <= i < s.len() ==> is_ws(#[trigger] s[i])
}

/// `s` starts with `p`.
pub open spec fn starts_with(s: Seq<char>, p: Seq<char>) -> bool {
    matches_at(s, p, 0)
}

/// `str::trim_start_matches(p)` for a non-empty `p`: removes every leading
/// repetition of `p`.
pub open spec fn strip_all_prefix(s: Seq<char>, p: Seq<char>) -> Seq<char>
    decreases s.len(),
{
    if p.len() > 0 && starts_with(s, p) {
        strip_all_prefix(s.subrange(p.len() as int, s.len() as int), p)
    } else {
        s
    }
}

/// The part of `s` before the first `c` (`s.split(c).next()`).
pub open spec fn before_char(s: Seq<char>, c: char) -> Seq<char> {
    match find_from(s, seq![c], 0) {
        Some(k) => s.subrange(0, k),
        None => s,
    }
}

/// Scans `s` from `i` with bracket depth `depth`; returns the index of the
/// `close` character that brings the depth back to zero.
pub open spec fn close_scan(s: Seq<char>, open: char, close: char, i: int, depth: int) -> Option<int>
    decreases s.len() - i,
{
    if i < 0 || i >= s.len() {
        None
    } else if s[i] == open {
        close_scan(s, open, close, i + 1, depth + 1)
    } else if s[i] == close {
        if depth - 1 == 0 {
            Some(i)
        } else {
            close_scan(s, open, close, i + 1, depth - 1)
        }
    } else {
        close_scan(s, open, close, i + 1, depth)
    }
}

/// Index of the bracket matching the opening bracket at `open_idx`.
pub open spec fn matching_close(s: Seq<char>, open: char, close: char, open_idx: int) -> Option<int> {
    close_scan(s, open, close, open_idx, 0)
}

/// `str::lines`: lines split at `\n`, a `\r` directly before the `\n`
/// dropped, no empty line after a final line ending.
pub open spec fn lines_of(s: Seq<char>) -> Seq<Seq<char>>
    decreases s.len(),
{
    if s.len() == 0 {
        seq![]
    } else {
        match find_from(s, seq!['\n'], 0) {
            None => seq![s],
            Some(k) => {
                proof {
                    lemma_find_from(s, seq!['\n'], 0);
                }
                seq![strip_cr(s.subrange(0, k))] + lines_of(s.subrange(k + 1, s.len() as int))
            },
        }
    }
}

/// Drops one trailing `\r`.
pub open spec fn strip_cr(s: Seq<char>) -> Seq<char> {
    if s.len() > 0 && s.last() == '\r' {
        s.drop_last()
    } else {
        s
    }
}

/// Identifier `id` occurs in `s` at `idx` with no identifier character
/// directly before or after it.
pub open spec fn token_at(s: Seq<char>, id: Seq<char>, idx: int) -> bool {
    &&& matches_at(s, id, idx)
    &&& (idx == 0 || !is_ident_char(s[idx - 1]))
    &&& (idx + id.len() >= s.len() || !is_ident_char(s[idx + id.len()]))
}

/// `id` occurs in `s` as a standalone token.
pub open spec fn contains_token(s: Seq<char>, id: Seq<char>) -> bool {
    exists|idx: int| token_at(s, id, idx)
}

// ---------------------------------------------------------------------------
// Lemmas
// ---------------------------------------------------------------------------

/// `find_from` returns the least matching index at or after `from`.
pub proof fn lemma_find_from(s: Seq<char>, p: Seq<char>, from: int)
    requires
        0 <= from,
    ensures
        match find_from(s, p, from) {
            Some(k) => from <= k && matches_at(s, p, k) && forall|j: int|
                from <= j < k ==> !matches_at(s, p, j),
            None => forall|j: int| from <= j ==> !matches_at(s, p, j),
        },
    decreases s.len() - from,
{
    if from + p.len() > s.len() {
    } else if matches_at(s, p, from) {
    } else {
        lemma_find_from(s, p, from + 1);
    }
}

pub proof fn lemma_count_char_bounds(s: Seq<char>, c: char, hi: int)
    requires
        0 <= hi,
    ensures
        count_char(s, c, hi) <= hi,
    decreases hi,
{
    if hi > 0 {
        lemma_count_char_bounds(s, c, hi - 1);
    }
}

pub proof fn lemma_count_char_mono(s: Seq<char>, c: char, a: int, b: int)
    requires
        0 <= a <= b,
    ensures
        count_char(s, c, a) <= count_char(s, c, b),
    decreases b - a,
{
    if a < b {
        lemma_count_char_mono(s, c, a, b - 1);
    }
}

// ---------------------------------------------------------------------------
// Executable counterparts
// ---------------------------------------------------------------------------

/// Appends one character to a `String` (`String::push`).
#[verifier::external_body]
pub(crate) fn push_char(s: &mut String, c: char)
    ensures
        final(s)@ == old(s)@.push(c),
{
    s.push(c);
}

/// The characters of `s`.
pub fn chars_of(s: &str) -> (v: Vec<char>)
    ensures
        v@ == s@,
{
    let mut v: Vec<char> = Vec::new();
    for c in it: s.chars()
        invariant
            it.seq() == s@,
            v@ == it.seq().take(it.index() as int),
    {
        v.push(c);
    }
    v
}

/// A `String` holding `cs[lo..hi]`.
pub fn string_of_range(cs: &Vec<char>, lo: usize, hi: usize) -> (r: String)
    requires
        lo <= hi <= cs@.len(),
    ensures
        r@ == cs@.subrange(lo as int, hi as int),
{
    let mut r = String::new();
    let mut i = lo;
    while i < hi
        invariant
            lo <= i <= hi <= cs@.len(),
            r@ == cs@.subrange(lo as int, i as int),
        decreases hi - i,
    {
        push_char(&mut r, cs[i]);
        assert(cs@.subrange(lo as int, i + 1) =~= cs@.subrange(lo as int, i as int).push(cs@[i as int]));
        i += 1;
    }
    r
}

/// A `String` holding all of `cs`.
pub fn string_of(cs: &Vec<char>) -> (r: String)
    ensures
        r@ == cs@,
{
    let r = string_of_range(cs, 0, cs.len());
    assert(cs@.subrange(0, cs@.len() as int) =~= cs@);
    r
}

/// Executable [`is_ident_char`].
pub fn ident_char(c: char) -> (r: bool)
    ensures
        r == is_ident_char(c),
{
    ('a' <= c && c <= 'z') || ('A' <= c && c <= 'Z') || ('0' <= c && c <= '9') || c == '_'
}

/// Executable [`is_ws`] (`char::is_whitespace`).
pub fn ws_char(c: char) -> (r: bool)
    ensures
        r == is_ws(c),
{
    ('\u{9}' <= c && c <= '\u{d}') || c == ' ' || c == '\u{85}' || c == '\u{a0}' || c
        == '\u{1680}' || ('\u{2000}' <= c && c <= '\u{200a}') || c == '\u{2028}' || c
        == '\u{2029}' || c == '\u{202f}' || c == '\u{205f}' || c == '\u{3000}'
}

/// Executable [`matches_at`].
pub fn matches_at_exec(s: &Vec<char>, p: &Vec<char>, i: usize) -> (r: bool)
    ensures
        r == matches_at(s@, p@, i as int),
{
    if i > s.len() || p.len() > s.len() - i {
        return false;
    }
    let mut k: usize = 0;
    while k < p.len()
        invariant
            0 <= k <= p@.len(),
            i + p@.len() <= s@.len(),
            p@.len() == p.len(),
            s@.len() == s.len(),
            forall|j: int| 0 <= j < k ==> s@[i + j] == #[trigger] p@[j],
        decreases p@.len() - k,
    {
        if s[i + k] != p[k] {
            return false;
        }
        k += 1;
    }
    true
}

/// Executable [`find_from`].
pub fn find_from_exec(s: &Vec<char>, p: &Vec<char>, from: usize) -> (r: Option<usize>)
    ensures
        r matches Some(k) ==> find_from(s@, p@, from as int) == Some(k as int),
        r is None ==> find_from(s@, p@, from as int) is None,
{
    let mut i = from;
    while i <= s.len() && p.len() <= s.len() - i
        invariant
            from <= i,
            find_from(s@, p@, from as int) == find_from(s@, p@, i as int),
        decreases s@.len() - i,
    {
        if matches_at_exec(s, p, i) {
            return Some(i);
        }
        i += 1;
    }
    None
}

/// Executable [`count_char`] over `s[..hi]`.
pub fn count_char_exec(s: &Vec<char>, c: char, hi: usize) -> (r: usize)
    requires
        hi <= s@.len(),
    ensures
        r == count_char(s@, c, hi as int),
        r <= hi,
{
    let mut n: usize = 0;
    let mut i: usize = 0;
    while i < hi
        invariant
            i <= hi <= s@.len(),
            n == count_char(s@, c, i as int),
            n <= i,
        decreases hi - i,
    {
        if s[i] == c {
            n += 1;
        }
        i += 1;
    }
    n
}

/// Executable [`line_at`].
pub fn line_at_exec(s: &Vec<char>, idx: usize) -> (r: u32)
    requires
        idx <= s@.len(),
    ensures
        r == line_at(s@, idx as int),
{
    let n = count_char_exec(s, '\n', idx);
    let wide: u128 = 1 + n as u128;
    #[verifier::truncate]
    (wide as u32)
}


/// The characters `cs[lo..hi]`.
pub fn slice_of(cs: &Vec<char>, lo: usize, hi: usize) -> (r: Vec<char>)
    requires
        lo <= hi <= cs@.len(),
    ensures
        r@ == cs@.subrange(lo as int, hi as int),
{
    let mut r: Vec<char> = Vec::new();
    let mut i = lo;
    while i < hi
        invariant
            lo <= i <= hi <= cs@.len(),
            r@ == cs@.subrange(lo as int, i as int),
        decreases hi - i,
    {
        r.push(cs[i]);
        assert(cs@.subrange(lo as int, i + 1) =~= cs@.subrange(lo as int, i as int).push(cs@[i as int]));
        i += 1;
    }
    r
}

/// Executable [`skip_ws`].
pub fn skip_ws_exec(s: &Vec<char>, i: usize) -> (r: usize)
    ensures
        r as int == skip_ws(s@, i as int),
        i <= r,
        i <= s@.len() ==> r <= s@.len(),
{
    let mut k = i;
    while k < s.len() && ws_char(s[k])
        invariant
            i <= k,
            i <= s@.len() ==> k <= s@.len(),
            skip_ws(s@, i as int) == skip_ws(s@, k as int),
        decreases s@.len() - k,
    {
        k += 1;
    }
    k
}

/// Executable [`skip_ws_back`].
pub fn skip_ws_back_exec(s: &Vec<char>, lo: usize, j: usize) -> (r: usize)
    requires
        lo <= j <= s@.len(),
    ensures
        r as int == skip_ws_back(s@, lo as int, j as int),
        lo <= r <= j,
{
    let mut k = j;
    while k > lo && ws_char(s[k - 1])
        invariant
            lo <= k <= j <= s@.len(),
            skip_ws_back(s@, lo as int, j as int) == skip_ws_back(s@, lo as int, k as int),
        decreases k - lo,
    {
        k -= 1;
    }
    k
}

pub proof fn lemma_skip_ws_bounds(s: Seq<char>, i: int)
    requires
        0 <= i <= s.len(),
    ensures
        i <= skip_ws(s, i) <= s.len(),
        forall|k: int| i <= k < skip_ws(s, i) ==> is_ws(#[trigger] s[k]),
        skip_ws(s, i) < s.len() ==> !is_ws(s[skip_ws(s, i)]),
    decreases s.len() - i,
{
    if i < s.len() && is_ws(s[i]) {
        lemma_skip_ws_bounds(s, i + 1);
    }
}

pub proof fn lemma_skip_ws_back_bounds(s: Seq<char>, lo: int, j: int)
    requires
        0 <= lo <= j <= s.len(),
    ensures
        lo <= skip_ws_back(s, lo, j) <= j,
        forall|k: int| skip_ws_back(s, lo, j) <= k < j ==> is_ws(#[trigger] s[k]),
        skip_ws_back(s, lo, j) > lo ==> !is_ws(s[skip_ws_back(s, lo, j) - 1]),
    decreases j - lo,
{
    if j > lo && is_ws(s[j - 1]) {
        lemma_skip_ws_back_bounds(s, lo, j - 1);
    }
}

/// Executable [`trim`].
pub fn trim_exec(s: &Vec<char>) -> (r: Vec<char>)
    ensures
        r@ == trim(s@),
{
    let a = skip_ws_exec(s, 0);
    let t = slice_of(s, a, s.len());
    let b = skip_ws_back_exec(&t, 0, t.len());
    slice_of(&t, 0, b)
}

/// Executable [`trim_start`].
pub fn trim_start_exec(s: &Vec<char>) -> (r: Vec<char>)
    ensures
        r@ == trim_start(s@),
{
    let a = skip_ws_exec(s, 0);
    slice_of(s, a, s.len())
}

/// Executable [`strip_all_prefix`].
pub fn strip_all_prefix_exec(s: &Vec<char>, p: &Vec<char>) -> (r: Vec<char>)
    requires
        p@.len() > 0,
    ensures
        r@ == strip_all_prefix(s@, p@),
{
    let mut cur = slice_of(s, 0, s.len());
    assert(s@.subrange(0, s@.len() as int) =~= s@);
    while matches_at_exec(&cur, p, 0)
        invariant
            p@.len() > 0,
            strip_all_prefix(s@, p@) == strip_all_prefix(cur@, p@),
        decreases cur@.len(),
    {
        cur = slice_of(&cur, p.len(), cur.len());
    }
    cur
}

/// Executable [`before_char`].
pub fn before_char_exec(s: &Vec<char>, c: char) -> (r: Vec<char>)
    ensures
        r@ == before_char(s@, c),
{
    let pat = vec![c];
    assert(pat@ =~= seq![c]);
    match find_from_exec(s, &pat, 0) {
        Some(k) => {
            proof {
                lemma_find_from(s@, seq![c], 0);
            }
            slice_of(s, 0, k)
        },
        None => slice_of(s, 0, s.len()),
    }
}

/// Executable [`close_scan`].
pub fn close_scan_exec(s: &Vec<char>, open: char, close: char, i: usize, depth: i8) -> (r: Option<usize>)
    requires
        0 <= depth <= 1,
    ensures
        r matches Some(k) ==> close_scan(s@, open, close, i as int, depth as int) == Some(k as int),
        r is None ==> close_scan(s@, open, close, i as int, depth as int) is None,
{
    let mut k = i;
    let mut d: i128 = depth as i128;
    while k < s.len()
        invariant
            i <= k,
            -(k as int) - 1 <= d <= k as int + 1,
            close_scan(s@, open, close, i as int, depth as int) == close_scan(s@, open, close, k as int, d as int),
        decreases s@.len() - k,
    {
        let c = s[k];
        if c == open {
            d = d + 1;
        } else if c == close {
            if d - 1 == 0 {
                return Some(k);
            }
            d = d - 1;
        }
        k += 1;
    }
    None
}

pub proof fn lemma_close_scan_bounds(s: Seq<char>, open: char, close: char, i: int, depth: int)
    requires
        0 <= i,
    ensures
        close_scan(s, open, close, i, depth) matches Some(k) ==> i <= k < s.len() && s[k] == close,
    decreases s.len() - i,
{
    if i < s.len() {
        if s[i] == open {
            lemma_close_scan_bounds(s, open, close, i + 1, depth + 1);
        } else if s[i] == close {
            if depth - 1 != 0 {
                lemma_close_scan_bounds(s, open, close, i + 1, depth - 1);
            }
        } else {
            lemma_close_scan_bounds(s, open, close, i + 1, depth);
        }
    }
}

/// Executable [`contains_token`].
pub fn contains_token_exec(s: &Vec<char>, id: &Vec<char>) -> (r: bool)
    requires
        id@.len() > 0,
    ensures
        r == contains_token(s@, id@),
{
    let mut start: usize = 0;
    loop
        invariant
            id@.len() > 0,
            forall|j: int| 0 <= j < start ==> !token_at(s@, id@, j),
        decreases s@.len() + 1 - start,
    {
        match find_from_exec(s, id, start) {
            None => {
                proof {
                    lemma_find_from(s@, id@, start as int);
                    assert forall|j: int| !token_at(s@, id@, j) by {
                        if j >= start as int {
                            assert(!matches_at(s@, id@, j));
                        }
                    }
                }
                return false;
            },
            Some(idx) => {
                proof {
                    lemma_find_from(s@, id@, start as int);
                    assert(matches_at(s@, id@, idx as int));
                }
                assert(idx + id@.len() <= s.len());
                let before_ok = idx == 0 || !ident_char(s[idx - 1]);
                let end = idx + id.len();
                let after_ok = end >= s.len() || !ident_char(s[end]);
                if before_ok && after_ok {
                    assert(token_at(s@, id@, idx as int));
                    return true;
                }
                proof {
                    assert forall|j: int| 0 <= j < idx + 1 implies !token_at(s@, id@, j) by {
                        if j >= start && j < idx {
                            assert(!matches_at(s@, id@, j));
                        }
                    }
                }
                start = idx + 1;
            },
        }
    }
}

/// Executable [`lines_of`]: every line of `s`.
pub fn lines_exec(s: &Vec<char>) -> (r: Vec<Vec<char>>)
    ensures
        r@.map_values(|l: Vec<char>| l@) == lines_of(s@),
{
    let mut out: Vec<Vec<char>> = Vec::new();
    let mut rest = slice_of(s, 0, s.len());
    assert(s@.subrange(0, s@.len() as int) =~= s@);
    let nl = vec!['\n'];
    assert(nl@ =~= seq!['\n']);
    while rest.len() > 0
        invariant
            nl@ == seq!['\n'],
            out@.map_values(|l: Vec<char>| l@) + lines_of(rest@) == lines_of(s@),
        decreases rest@.len(),
    {
        match find_from_exec(&rest, &nl, 0) {
            None => {
                let ghost before = out@.map_values(|l: Vec<char>| l@);
                let ghost last = rest@;
                let line = slice_of(&rest, 0, rest.len());
                assert(rest@.subrange(0, rest@.len() as int) =~= rest@);
                assert(lines_of(last) == seq![last]);
                out.push(line);
                assert(out@.map_values(|l: Vec<char>| l@) =~= before + seq![last]);
                rest = Vec::new();
                assert(lines_of(rest@) =~= Seq::<Seq<char>>::empty());
            },
            Some(k) => {
                proof {
                    lemma_find_from(rest@, seq!['\n'], 0);
                }
                let ghost before = out@.map_values(|l: Vec<char>| l@);
                let ghost old_rest = rest@;
                let line_end = if k > 0 && rest[k - 1] == '\r' { k - 1 } else { k };
                let line = slice_of(&rest, 0, line_end);
                assert(line@ =~= strip_cr(old_rest.subrange(0, k as int)));
                out.push(line);
                assert(out@.map_values(|l: Vec<char>| l@) =~= before.push(line@));
                rest = slice_of(&rest, k + 1, rest.len());
                assert(lines_of(old_rest) == seq![line@] + lines_of(rest@));
                assert(before.push(line@) + lines_of(rest@) =~= before + (seq![line@] + lines_of(rest@)));
            },
        }
    }
    assert(lines_of(rest@) =~= Seq::<Seq<char>>::empty());
    assert(out@.map_values(|l: Vec<char>| l@) + lines_of(rest@) =~= out@.map_values(|l: Vec<char>| l@));
    out
}

// ---------------------------------------------------------------------------
// Decimal numbers
// ---------------------------------------------------------------------------

/// The character of the decimal digit `d` (for `d < 10`).
pub open spec fn digit_char(d: nat) -> char {
    seq!['0', '1', '2', '3', '4', '5', '6', '7', '8', '9'][d as int]
}

/// The decimal representation of `n`, without leading zeros.
pub open spec fn decimal(n: nat) -> Seq<char>
    decreases n,
{
    if n < 10 {
        seq![digit_char(n)]
    } else {
        decimal(n / 10).push(digit_char(n % 10))
    }
}

fn digit_exec(d: u64) -> (c: char)
    requires
        d < 10,
    ensures
        c == digit_char(d as nat),
{
    let table = vec!['0', '1', '2', '3', '4', '5', '6', '7', '8', '9'];
    assert(table@ =~= seq!['0', '1', '2', '3', '4', '5', '6', '7', '8', '9']);
    table[d as usize]
}

/// The characters of [`decimal`]`(n)`.
pub fn decimal_chars(n: u64) -> (r: Vec<char>)
    ensures
        r@ == decimal(n as nat),
    decreases n,
{
    if n < 10 {
        let r = vec![digit_exec(n)];
        assert(r@ =~= seq![digit_char(n as nat)]);
        r
    } else {
        let mut r = decimal_chars(n / 10);
        r.push(digit_exec(n % 10));
        r
    }
}

/// Appends the characters of `cs` to `s`.
pub fn push_chars(s: &mut String, cs: &Vec<char>)
    ensures
        final(s)@ == old(s)@ + cs@,
{
    let mut k: usize = 0;
    while k < cs.len()
        invariant
            k <= cs@.len(),
            s@ == old(s)@ + cs@.subrange(0, k as int),
        decreases cs@.len() - k,
    {
        push_char(s, cs[k]);
        assert(cs@.subrange(0, k + 1) =~= cs@.subrange(0, k as int).push(cs@[k as int]));
        assert(old(s)@ + cs@.subrange(0, k + 1) =~= (old(s)@ + cs@.subrange(0, k as int)).push(cs@[k as int]));
        k += 1;
    }
    assert(cs@.subrange(0, cs@.len() as int) =~= cs@);
}

/// Appends the text `t` to `s`.
pub fn push_text(s: &mut String, t: &str)
    ensures
        final(s)@ == old(s)@ + t@,
{
    let cs = chars_of(t);
    push_chars(s, &cs);
}

/// Appends the decimal representation of `n` to `s`.
pub fn push_decimal(s: &mut String, n: u64)
    ensures
        final(s)@ == old(s)@ + decimal(n as nat),
{
    let cs = decimal_chars(n);
    push_chars(s, &cs);
}

} // verus!
