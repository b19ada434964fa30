//! Site detectors for the rules beyond public-input usage: boolean `let`
//! bindings, range-sensitive expressions and their range checks, hash
//! commitment calls and nullifier-like bindings.
//!
//! Like the entry-point heuristics these are textual scans over the
//! characters of a function body or a whole source file, not a parser.
//! Every detector is specified site by site: a `*_at(s, i)` spec function
//! says which site (if any) starts at index `i`, and the detector returns
//! the sites of all indices in increasing order.

use vstd::prelude::*;

use crate::heuristics::{
    binding_name, binding_name_exec, boundary_before, call_args, has_bound_op, kw_use_exec,
    kw_use_from, let_pat, let_stmt_end, let_vec, single, split_segments,
    split_top_level_commas,
};
use crate::text::{
    chars_of, close_scan, close_scan_exec, contains, contains_token, contains_token_exec,
    find_from, find_from_exec, ident_char, is_ident_char, lemma_close_scan_bounds,
    lemma_find_from, lemma_skip_ws_back_bounds, lemma_skip_ws_bounds, line_at, line_at_exec,
    matches_at, matches_at_exec, skip_ws, skip_ws_back, skip_ws_back_exec, skip_ws_exec,
    slice_of, string_of, string_of_range, trim, trim_exec, is_ws, ws_char,
};

verus! {

// ---------------------------------------------------------------------------
// Shared character helpers
// ---------------------------------------------------------------------------

pub open spec fn is_ascii_digit(c: char) -> bool {
    '0' <= c && c <= '9'
}

/// A non-empty run of identifier characters that does not start with a digit.
pub open spec fn is_plain_ident(s: Seq<char>) -> bool {
    &&& s.len() > 0
    &&& !is_ascii_digit(s[0])
    &&& forall|k: int| 0 <= k < s.len() ==> is_ident_char(#[trigger] s[k])
}

/// Start of the identifier-character run that ends just before `j`
/// (scanning no further back than `lo`).
pub open spec fn run_start(s: Seq<char>, lo: int, j: int) -> int
    decreases j - lo,
{
    if j <= lo || j > s.len() {
        j
    } else if is_ident_char(s[j - 1]) {
        run_start(s, lo, j - 1)
    } else {
        j
    }
}

/// End of the identifier-character run that starts at `j`.
pub open spec fn run_end(s: Seq<char>, j: int) -> int
    decreases s.len() - j,
{
    if j < 0 || j >= s.len() {
        j
    } else if is_ident_char(s[j]) {
        run_end(s, j + 1)
    } else {
        j
    }
}

pub proof fn lemma_run_start(s: Seq<char>, lo: int, j: int)
    requires
        0 <= lo <= j <= s.len(),
    ensures
        lo <= run_start(s, lo, j) <= j,
        forall|k: int| run_start(s, lo, j) <= k < j ==> is_ident_char(#[trigger] s[k]),
    decreases j - lo,
{
    if j > lo && is_ident_char(s[j - 1]) {
        lemma_run_start(s, lo, j - 1);
    }
}

pub proof fn lemma_run_end(s: Seq<char>, j: int)
    requires
        0 <= j <= s.len(),
    ensures
        j <= run_end(s, j) <= s.len(),
        forall|k: int| j <= k < run_end(s, j) ==> is_ident_char(#[trigger] s[k]),
    decreases s.len() - j,
{
    if j < s.len() && is_ident_char(s[j]) {
        lemma_run_end(s, j + 1);
    }
}

/// Executable [`run_start`].
fn run_start_exec(s: &Vec<char>, lo: usize, j: usize) -> (r: usize)
    requires
        lo <= j <= s@.len(),
    ensures
        r as int == run_start(s@, lo as int, j as int),
        lo <= r <= j,
{
    proof {
        lemma_run_start(s@, lo as int, j as int);
    }
    let mut k = j;
    while k > lo && ident_char(s[k - 1])
        invariant
            lo <= k <= j <= s@.len(),
            run_start(s@, lo as int, j as int) == run_start(s@, lo as int, k as int),
        decreases k - lo,
    {
        k -= 1;
    }
    k
}

/// Executable [`run_end`].
fn run_end_exec(s: &Vec<char>, j: usize) -> (r: usize)
    requires
        j <= s@.len(),
    ensures
        r as int == run_end(s@, j as int),
        j <= r <= s@.len(),
{
    proof {
        lemma_run_end(s@, j as int);
    }
    let mut k = j;
    while k < s.len() && ident_char(s[k])
        invariant
            j <= k <= s@.len(),
            run_end(s@, j as int) == run_end(s@, k as int),
        decreases s@.len() - k,
    {
        k += 1;
    }
    k
}

/// Executable [`is_plain_ident`].
fn plain_ident_exec(s: &Vec<char>) -> (r: bool)
    ensures
        r == is_plain_ident(s@),
{
    if s.len() == 0 || ('0' <= s[0] && s[0] <= '9') {
        return false;
    }
    let mut k: usize = 0;
    while k < s.len()
        invariant
            k <= s@.len(),
            forall|j: int| 0 <= j < k ==> is_ident_char(#[trigger] s@[j]),
        decreases s@.len() - k,
    {
        if !ident_char(s[k]) {
            return false;
        }
        k += 1;
    }
    true
}

/// `a` and `b` hold the same characters.
pub fn same_chars(a: &Vec<char>, b: &Vec<char>) -> (r: bool)
    ensures
        r == (a@ == b@),
{
    if a.len() != b.len() {
        return false;
    }
    let mut k: usize = 0;
    while k < a.len()
        invariant
            k <= a@.len(),
            a@.len() == b@.len(),
            forall|j: int| 0 <= j < k ==> a@[j] == b@[j],
        decreases a@.len() - k,
    {
        if a[k] != b[k] {
            return false;
        }
        k += 1;
    }
    assert(a@ =~= b@);
    true
}

/// `p` occurs in `s` (executable [`contains`]).
fn contains_exec(s: &Vec<char>, p: &Vec<char>) -> (r: bool)
    ensures
        r == contains(s@, p@),
{
    find_from_exec(s, p, 0).is_some()
}

// ---------------------------------------------------------------------------
// Boolean `let` bindings
// ---------------------------------------------------------------------------

/// The mathematical content of a [`BooleanLetBinding`].
pub ghost struct BoolLetSpec {
    pub name: Seq<char>,
    pub line: u32,
    pub statement_text: Seq<char>,
}

/// A `let <name> = <comparison>;` statement found in a function body.
#[derive(Debug, Clone, PartialEq)]
pub struct BooleanLetBinding {
    /// The bound name.
    pub name: String,
    /// 1-based line of the `let`, counted within the scanned text.
    pub line: u32,
    /// The statement from `let` through its `;`.
    pub statement_text: String,
}

impl View for BooleanLetBinding {
    type V = BoolLetSpec;

    open spec fn view(&self) -> BoolLetSpec {
        BoolLetSpec { name: self.name@, line: self.line, statement_text: self.statement_text@ }
    }
}

/// The text holds a comparison operator: `==`, `!=`, `<` or `>` (so also
/// `<=` and `>=`).
pub open spec fn has_comparison(s: Seq<char>) -> bool {
    ||| contains(s, seq!['=', '='])
    ||| contains(s, seq!['!', '='])
    ||| contains(s, seq!['<'])
    ||| contains(s, seq!['>'])
}

/// Index one past the statement that starts with `let ` at `i`: through the
/// next `;`, or to the end of `b` when no `;` follows.
pub open spec fn let_text_end(b: Seq<char>, i: int) -> int {
    let end = let_stmt_end(b, i + 4);
    if end < b.len() {
        end + 1
    } else {
        end
    }
}

/// A `let` statement starts at `i`: `let ` with no identifier character
/// before it.
pub open spec fn let_starts_at(b: Seq<char>, i: int) -> bool {
    matches_at(b, let_pat(), i) && boundary_before(b, i)
}

/// The statement text after `let ` (up to its `;`).
pub open spec fn let_stmt(b: Seq<char>, i: int) -> Seq<char> {
    b.subrange(i + 4, let_stmt_end(b, i + 4))
}

/// The boolean binding (if any) whose `let` starts at `i`: the statement's
/// first `=` separates a non-empty bound name from a right-hand side that
/// holds a comparison.
pub open spec fn bool_let_at(b: Seq<char>, i: int) -> Seq<BoolLetSpec> {
    if let_starts_at(b, i) {
        let stmt = let_stmt(b, i);
        match find_from(stmt, seq!['='], 0) {
            None => seq![],
            Some(eq) => {
                let name = binding_name(trim(stmt.subrange(0, eq)));
                if name.len() > 0 && has_comparison(stmt.subrange(eq + 1, stmt.len() as int)) {
                    seq![
                        BoolLetSpec {
                            name,
                            line: line_at(b, i),
                            statement_text: b.subrange(i, let_text_end(b, i)),
                        },
                    ]
                } else {
                    seq![]
                }
            },
        }
    } else {
        seq![]
    }
}

/// Boolean bindings whose `let` starts before index `n`, in order.
pub open spec fn bool_lets_upto(b: Seq<char>, n: int) -> Seq<BoolLetSpec>
    decreases n,
{
    if n <= 0 {
        seq![]
    } else {
        bool_lets_upto(b, n - 1) + bool_let_at(b, n - 1)
    }
}

/// Facts about the statement that starts at `i`, for the executable code.
pub proof fn lemma_let_stmt_bounds(b: Seq<char>, i: int)
    requires
        0 <= i,
        matches_at(b, let_pat(), i),
    ensures
        i + 4 <= let_stmt_end(b, i + 4) <= b.len(),
        let_stmt_end(b, i + 4) < b.len() ==> let_text_end(b, i) == let_stmt_end(b, i + 4) + 1,
        let_text_end(b, i) <= b.len(),
{
    lemma_find_from(b, seq![';'], i + 4);
}

/// Executable [`has_comparison`].
fn has_comparison_exec(s: &Vec<char>) -> (r: bool)
    ensures
        r == has_comparison(s@),
{
    let eqeq = vec!['=', '='];
    assert(eqeq@ =~= seq!['=', '=']);
    let ne = vec!['!', '='];
    assert(ne@ =~= seq!['!', '=']);
    let lt = single('<');
    let gt = single('>');
    contains_exec(s, &eqeq) || contains_exec(s, &ne) || contains_exec(s, &lt) || contains_exec(s, &gt)
}

/// Executable [`let_starts_at`].
fn let_starts_at_exec(b: &Vec<char>, i: usize) -> (r: bool)
    ensures
        r == let_starts_at(b@, i as int),
{
    let lp = let_vec();
    matches_at_exec(b, &lp, i) && (i == 0 || !ident_char(b[i - 1]))
}

/// Executable statement end: `let_stmt_end(b, i + 4)`.
fn let_stmt_end_exec(b: &Vec<char>, i: usize) -> (r: usize)
    requires
        matches_at(b@, let_pat(), i as int),
    ensures
        r as int == let_stmt_end(b@, i + 4),
        i + 4 <= r <= b@.len(),
{
    proof {
        lemma_let_stmt_bounds(b@, i as int);
    }
    assert(i + 4 <= b.len());
    let semi = single(';');
    match find_from_exec(b, &semi, i + 4) {
        Some(k) => k,
        None => b.len(),
    }
}

/// Executable [`bool_let_at`].
fn bool_let_at_exec(b: &Vec<char>, i: usize) -> (r: Vec<BooleanLetBinding>)
    requires
        i < b@.len(),
    ensures
        r@.map_values(|x: BooleanLetBinding| x@) == bool_let_at(b@, i as int),
{
    let mut out: Vec<BooleanLetBinding> = Vec::new();
    if !let_starts_at_exec(b, i) {
        assert(out@.map_values(|x: BooleanLetBinding| x@) =~= Seq::<BoolLetSpec>::empty());
        return out;
    }
    proof {
        lemma_let_stmt_bounds(b@, i as int);
    }
    let end = let_stmt_end_exec(b, i);
    let stmt = slice_of(b, i + 4, end);
    let eqv = single('=');
    let eq = match find_from_exec(&stmt, &eqv, 0) {
        None => {
            assert(out@.map_values(|x: BooleanLetBinding| x@) =~= Seq::<BoolLetSpec>::empty());
            return out;
        },
        Some(eq) => eq,
    };
    proof {
        lemma_find_from(stmt@, seq!['='], 0);
        assert(matches_at(stmt@, seq!['='], eq as int));
    }
    let head = slice_of(&stmt, 0, eq);
    let name_part = trim_exec(&head);
    let name = binding_name_exec(&name_part);
    let rhs = slice_of(&stmt, eq + 1, stmt.len());
    if name.len() > 0 && has_comparison_exec(&rhs) {
        let text_end = if end < b.len() { end + 1 } else { end };
        let binding = BooleanLetBinding {
            name: string_of(&name),
            line: line_at_exec(b, i),
            statement_text: string_of_range(b, i, text_end),
        };
        out.push(binding);
    }
    assert(out@.map_values(|x: BooleanLetBinding| x@) =~= bool_let_at(b@, i as int));
    out
}

/// Finds every `let <name> = <expr>;` in `body` whose `<expr>` holds a
/// comparison operator (`==`, `!=`, `<`, `<=`, `>`, `>=`), with the line of
/// its `let` counted within `body` (the body's first line is line 1).
pub fn find_boolean_let_bindings(body: &str) -> (r: Vec<BooleanLetBinding>)
    ensures
        r@.map_values(|x: BooleanLetBinding| x@) == bool_lets_upto(body@, body@.len() as int),
{
    let b = chars_of(body);
    let mut out: Vec<BooleanLetBinding> = Vec::new();
    let mut i: usize = 0;
    assert(out@.map_values(|x: BooleanLetBinding| x@) =~= bool_lets_upto(b@, 0));
    while i < b.len()
        invariant
            i <= b@.len(),
            b@ == body@,
            out@.map_values(|x: BooleanLetBinding| x@) == bool_lets_upto(b@, i as int),
        decreases b@.len() - i,
    {
        let ghost prev = out@.map_values(|x: BooleanLetBinding| x@);
        let mut here = bool_let_at_exec(&b, i);
        let ghost hv = here@.map_values(|x: BooleanLetBinding| x@);
        out.append(&mut here);
        assert(out@.map_values(|x: BooleanLetBinding| x@) =~= prev + hv);
        i += 1;
    }
    out
}

// ---------------------------------------------------------------------------
// Range-sensitive sites
// ---------------------------------------------------------------------------

/// What makes a site range-sensitive.
#[derive(Debug, Clone, Copy, PartialEq, Eq, Structural)]
pub enum RangeSiteKind {
    /// `array[ident]`: indexing by a non-constant identifier that is not a
    /// `for` loop counter.
    Index,
    /// `ident as uN` / `ident as iN`: a cast to a fixed-width integer.
    NarrowingCast,
    /// `a - b`: a subtraction whose left operand is an identifier.
    Subtraction,
}

/// The mathematical content of a [`RangeSensitiveSite`].
pub ghost struct RangeSiteSpec {
    pub kind: RangeSiteKind,
    pub identifier: Seq<char>,
    pub line: u32,
    pub evidence: Seq<char>,
}

/// A value used where its range matters.
#[derive(Debug, Clone, PartialEq)]
pub struct RangeSensitiveSite {
    pub kind: RangeSiteKind,
    /// The identifier whose range matters (the index, the cast operand, the
    /// subtraction's left operand).
    pub identifier: String,
    /// 1-based line of the site, counted within the scanned text.
    pub line: u32,
    /// The matched text, e.g. `items[i]`, `index as u32`, `balance - amount`.
    pub evidence: String,
}

impl View for RangeSensitiveSite {
    type V = RangeSiteSpec;

    open spec fn view(&self) -> RangeSiteSpec {
        RangeSiteSpec {
            kind: self.kind,
            identifier: self.identifier@,
            line: self.line,
            evidence: self.evidence@,
        }
    }
}

pub open spec fn for_pat() -> Seq<char> {
    seq!['f', 'o', 'r', ' ']
}

pub open spec fn in_pat() -> Seq<char> {
    seq![' ', 'i', 'n', ' ']
}

pub open spec fn as_pat() -> Seq<char> {
    seq![' ', 'a', 's', ' ']
}

/// `id` is the counter of some `for <id> in` loop in `b`.
pub open spec fn is_loop_counter(b: Seq<char>, id: Seq<char>) -> bool {
    contains(b, for_pat() + id + in_pat())
}

/// `uN` or `iN` for a non-empty run of digits `N`.
pub open spec fn is_int_type(t: Seq<char>) -> bool {
    &&& t.len() >= 2
    &&& (t[0] == 'u' || t[0] == 'i')
    &&& forall|k: int| 1 <= k < t.len() ==> is_ascii_digit(#[trigger] t[k])
}

/// An indexing site whose `[` is at `i`.
pub open spec fn index_site_at(b: Seq<char>, i: int) -> Seq<RangeSiteSpec> {
    if 0 < i < b.len() && b[i] == '[' && is_ident_char(b[i - 1]) {
        match close_scan(b, '[', ']', i, 0) {
            Some(c) => {
                let content = trim(b.subrange(i + 1, c));
                if is_plain_ident(content) && !is_loop_counter(b, content) {
                    seq![
                        RangeSiteSpec {
                            kind: RangeSiteKind::Index,
                            identifier: content,
                            line: line_at(b, i),
                            evidence: b.subrange(run_start(b, 0, i), c + 1),
                        },
                    ]
                } else {
                    seq![]
                }
            },
            None => seq![],
        }
    } else {
        seq![]
    }
}

/// A cast site whose ` as ` starts at `i`.
pub open spec fn cast_site_at(b: Seq<char>, i: int) -> Seq<RangeSiteSpec> {
    if i > 0 && matches_at(b, as_pat(), i) {
        let ls = run_start(b, 0, i);
        let te = run_end(b, i + 4);
        let id = b.subrange(ls, i);
        if is_plain_ident(id) && is_int_type(b.subrange(i + 4, te)) {
            seq![
                RangeSiteSpec {
                    kind: RangeSiteKind::NarrowingCast,
                    identifier: id,
                    line: line_at(b, i),
                    evidence: b.subrange(ls, te),
                },
            ]
        } else {
            seq![]
        }
    } else {
        seq![]
    }
}

/// A subtraction site whose `-` is at `i`, written as a binary operator
/// with whitespace on both sides (so neither `->`, `-=`, a negative literal
/// nor a hyphen inside a word such as a rule ID in a comment).
pub open spec fn sub_site_at(b: Seq<char>, i: int) -> Seq<RangeSiteSpec> {
    if 0 < i && i + 1 < b.len() && b[i] == '-' && is_ws(b[i - 1]) && is_ws(b[i + 1]) {
        let le = skip_ws_back(b, 0, i);
        let ls = run_start(b, 0, le);
        let rs = skip_ws(b, i + 1);
        let re = run_end(b, rs);
        let left = b.subrange(ls, le);
        if is_plain_ident(left) && re > rs {
            seq![
                RangeSiteSpec {
                    kind: RangeSiteKind::Subtraction,
                    identifier: left,
                    line: line_at(b, i),
                    evidence: b.subrange(ls, re),
                },
            ]
        } else {
            seq![]
        }
    } else {
        seq![]
    }
}

/// Every site at index `i`.
pub open spec fn range_sites_at(b: Seq<char>, i: int) -> Seq<RangeSiteSpec> {
    index_site_at(b, i) + cast_site_at(b, i) + sub_site_at(b, i)
}

/// Every site at an index before `n`, in order.
pub open spec fn range_sites_upto(b: Seq<char>, n: int) -> Seq<RangeSiteSpec>
    decreases n,
{
    if n <= 0 {
        seq![]
    } else {
        range_sites_upto(b, n - 1) + range_sites_at(b, n - 1)
    }
}

fn as_vec() -> (r: Vec<char>)
    ensures
        r@ == as_pat(),
{
    let r = vec![' ', 'a', 's', ' '];
    assert(r@ =~= as_pat());
    r
}

/// `for_pat() + id + in_pat()` as a vector.
fn loop_header_vec(id: &Vec<char>) -> (r: Vec<char>)
    ensures
        r@ == for_pat() + id@ + in_pat(),
{
    let mut r = vec!['f', 'o', 'r', ' '];
    assert(r@ =~= for_pat());
    let mut k: usize = 0;
    while k < id.len()
        invariant
            k <= id@.len(),
            r@ == for_pat() + id@.subrange(0, k as int),
        decreases id@.len() - k,
    {
        r.push(id[k]);
        assert(id@.subrange(0, k + 1) =~= id@.subrange(0, k as int).push(id@[k as int]));
        assert(for_pat() + id@.subrange(0, k + 1) =~= (for_pat() + id@.subrange(0, k as int)).push(id@[k as int]));
        k += 1;
    }
    assert(id@.subrange(0, id@.len() as int) =~= id@);
    let tail = vec![' ', 'i', 'n', ' '];
    assert(tail@ =~= in_pat());
    let ghost before = r@;
    let mut t = tail;
    r.append(&mut t);
    assert(r@ =~= before + in_pat());
    r
}

/// Executable [`is_int_type`].
fn int_type_exec(t: &Vec<char>) -> (r: bool)
    ensures
        r == is_int_type(t@),
{
    if t.len() < 2 || (t[0] != 'u' && t[0] != 'i') {
        return false;
    }
    let mut k: usize = 1;
    while k < t.len()
        invariant
            1 <= k <= t@.len(),
            forall|j: int| 1 <= j < k ==> is_ascii_digit(#[trigger] t@[j]),
        decreases t@.len() - k,
    {
        if !('0' <= t[k] && t[k] <= '9') {
            return false;
        }
        k += 1;
    }
    true
}

fn kind_site(kind: RangeSiteKind, b: &Vec<char>, id: &Vec<char>, at: usize, lo: usize, hi: usize) -> (r: RangeSensitiveSite)
    requires
        at <= b@.len(),
        lo <= hi <= b@.len(),
    ensures
        r@ == (RangeSiteSpec {
            kind,
            identifier: id@,
            line: line_at(b@, at as int),
            evidence: b@.subrange(lo as int, hi as int),
        }),
{
    RangeSensitiveSite {
        kind,
        identifier: string_of(id),
        line: line_at_exec(b, at),
        evidence: string_of_range(b, lo, hi),
    }
}

/// Executable [`index_site_at`].
fn index_site_exec(b: &Vec<char>, i: usize) -> (r: Vec<RangeSensitiveSite>)
    ensures
        r@.map_values(|x: RangeSensitiveSite| x@) == index_site_at(b@, i as int),
{
    let mut out: Vec<RangeSensitiveSite> = Vec::new();
    if i > 0 && i < b.len() && b[i] == '[' && ident_char(b[i - 1]) {
        proof {
            lemma_close_scan_bounds(b@, '[', ']', i as int, 0);
        }
        match close_scan_exec(b, '[', ']', i, 0) {
            Some(c) => {
                assert(b@[i as int] == '[' && b@[c as int] == ']');
                assert(i < c);
                let raw = slice_of(b, i + 1, c);
                let content = trim_exec(&raw);
                if plain_ident_exec(&content) {
                    let header = loop_header_vec(&content);
                    if !contains_exec(b, &header) {
                        let ls = run_start_exec(b, 0, i);
                        out.push(kind_site(RangeSiteKind::Index, b, &content, i, ls, c + 1));
                    }
                }
            },
            None => {},
        }
    }
    assert(out@.map_values(|x: RangeSensitiveSite| x@) =~= index_site_at(b@, i as int));
    out
}

/// Executable [`cast_site_at`].
fn cast_site_exec(b: &Vec<char>, i: usize) -> (r: Vec<RangeSensitiveSite>)
    ensures
        r@.map_values(|x: RangeSensitiveSite| x@) == cast_site_at(b@, i as int),
{
    let mut out: Vec<RangeSensitiveSite> = Vec::new();
    let pat = as_vec();
    if i > 0 && matches_at_exec(b, &pat, i) {
        assert(i + 4 <= b.len());
        let ls = run_start_exec(b, 0, i);
        let te = run_end_exec(b, i + 4);
        let id = slice_of(b, ls, i);
        let ty = slice_of(b, i + 4, te);
        if plain_ident_exec(&id) && int_type_exec(&ty) {
            out.push(kind_site(RangeSiteKind::NarrowingCast, b, &id, i, ls, te));
        }
    }
    assert(out@.map_values(|x: RangeSensitiveSite| x@) =~= cast_site_at(b@, i as int));
    out
}

/// Executable [`sub_site_at`].
fn sub_site_exec(b: &Vec<char>, i: usize) -> (r: Vec<RangeSensitiveSite>)
    ensures
        r@.map_values(|x: RangeSensitiveSite| x@) == sub_site_at(b@, i as int),
{
    let mut out: Vec<RangeSensitiveSite> = Vec::new();
    if i > 0 && i < b.len() && i + 1 < b.len() && b[i] == '-' && ws_char(b[i - 1]) && ws_char(b[i + 1]) {
        let le = skip_ws_back_exec(b, 0, i);
        let ls = run_start_exec(b, 0, le);
        let rs = skip_ws_exec(b, i + 1);
        let re = run_end_exec(b, rs);
        let left = slice_of(b, ls, le);
        if plain_ident_exec(&left) && re > rs {
            out.push(kind_site(RangeSiteKind::Subtraction, b, &left, i, ls, re));
        }
    }
    assert(out@.map_values(|x: RangeSensitiveSite| x@) =~= sub_site_at(b@, i as int));
    out
}

/// Finds the range-sensitive sites of `body`, in the order of their
/// positions (at one position: indexing, then cast, then subtraction):
/// indexing `a[i]` by a plain identifier that is not a `for` loop counter,
/// casts `x as uN`/`x as iN`, and subtractions `a - b` (spaced) with an
/// identifier on the left. Lines are counted within `body`.
pub fn find_range_sensitive_sites(body: &str) -> (r: Vec<RangeSensitiveSite>)
    ensures
        r@.map_values(|x: RangeSensitiveSite| x@) == range_sites_upto(body@, body@.len() as int),
{
    let b = chars_of(body);
    let mut out: Vec<RangeSensitiveSite> = Vec::new();
    let mut i: usize = 0;
    assert(out@.map_values(|x: RangeSensitiveSite| x@) =~= range_sites_upto(b@, 0));
    while i < b.len()
        invariant
            i <= b@.len(),
            b@ == body@,
            out@.map_values(|x: RangeSensitiveSite| x@) == range_sites_upto(b@, i as int),
        decreases b@.len() - i,
    {
        let ghost prev = out@.map_values(|x: RangeSensitiveSite| x@);
        let mut a = index_site_exec(&b, i);
        let mut c = cast_site_exec(&b, i);
        let mut d = sub_site_exec(&b, i);
        let ghost av = a@.map_values(|x: RangeSensitiveSite| x@);
        let ghost cv = c@.map_values(|x: RangeSensitiveSite| x@);
        let ghost dv = d@.map_values(|x: RangeSensitiveSite| x@);
        out.append(&mut a);
        out.append(&mut c);
        out.append(&mut d);
        assert(out@.map_values(|x: RangeSensitiveSite| x@) =~= prev + (av + cv + dv));
        i += 1;
    }
    out
}

// ---------------------------------------------------------------------------
// Range checks
// ---------------------------------------------------------------------------

pub open spec fn assert_pat() -> Seq<char> {
    seq!['a', 's', 's', 'e', 'r', 't']
}

/// Names of the range-check helpers, in the order they are searched.
pub open spec fn range_helper_names() -> Seq<Seq<char>> {
    seq![
        seq!['r', 'a', 'n', 'g', 'e', '_', 'c', 'h', 'e', 'c', 'k'],
        seq!['a', 's', 's', 'e', 'r', 't', '_', 'm', 'a', 'x', '_', 'b', 'i', 't', 's'],
        seq!['l', 't', 'e'],
        seq!['l', 't'],
    ]
}

/// `.assert_max_bits`, the method form of the bit-width check.
pub open spec fn max_bits_method() -> Seq<char> {
    seq!['.', 'a', 's', 's', 'e', 'r', 't', '_', 'm', 'a', 'x', '_', 'b', 'i', 't', 's']
}

/// A range-check idiom in `b` names `id` itself: an `assert(...)` whose
/// arguments hold `id` and a `<` or `>`, a call of `range_check`,
/// `assert_max_bits`, `lte` or `lt` whose arguments hold `id`, or
/// `id.assert_max_bits`.
pub open spec fn direct_range_check(b: Seq<char>, id: Seq<char>) -> bool {
    ||| kw_use_from(b, assert_pat(), id, true, 0)
    ||| exists|k: int| 0 <= k < 4 && kw_use_from(b, #[trigger] range_helper_names()[k], id, false, 0)
    ||| contains_token(b, id + max_bits_method())
}

/// An identifier token (not starting with a digit) starts at `j`.
pub open spec fn token_starts_at(b: Seq<char>, j: int) -> bool {
    &&& 0 <= j < b.len()
    &&& is_ident_char(b[j])
    &&& !is_ascii_digit(b[j])
    &&& boundary_before(b, j)
}

/// The `let` at `i` binds `id` from a right-hand side in which some
/// identifier token is itself range-checked (one `let` hop).
pub open spec fn derived_checked_at(b: Seq<char>, id: Seq<char>, i: int) -> bool {
    &&& let_starts_at(b, i)
    &&& match find_from(let_stmt(b, i), seq!['='], 0) {
        None => false,
        Some(eq) => {
            &&& binding_name(trim(let_stmt(b, i).subrange(0, eq))) == id
            &&& exists|j: int|
                i + 4 + eq + 1 <= j < let_stmt_end(b, i + 4) && #[trigger] token_starts_at(b, j)
                    && direct_range_check(b, b.subrange(j, run_end(b, j)))
        },
    }
}

/// `id` is range-checked in `b`, directly or through one `let` binding.
pub open spec fn range_checked(b: Seq<char>, id: Seq<char>) -> bool {
    &&& id.len() > 0
    &&& {
        ||| direct_range_check(b, id)
        ||| exists|i: int| 0 <= i < b.len() && #[trigger] derived_checked_at(b, id, i)
    }
}

fn range_helper_vec(k: usize) -> (r: Vec<char>)
    requires
        k < 4,
    ensures
        r@ == range_helper_names()[k as int],
{
    let r = if k == 0 {
        vec!['r', 'a', 'n', 'g', 'e', '_', 'c', 'h', 'e', 'c', 'k']
    } else if k == 1 {
        vec!['a', 's', 's', 'e', 'r', 't', '_', 'm', 'a', 'x', '_', 'b', 'i', 't', 's']
    } else if k == 2 {
        vec!['l', 't', 'e']
    } else {
        vec!['l', 't']
    };
    assert(r@ =~= range_helper_names()[k as int]);
    r
}

/// `id + max_bits_method()` as a vector.
fn max_bits_call_vec(id: &Vec<char>) -> (r: Vec<char>)
    ensures
        r@ == id@ + max_bits_method(),
{
    let mut r = slice_of(id, 0, id.len());
    assert(id@.subrange(0, id@.len() as int) =~= id@);
    let mut m = vec!['.', 'a', 's', 's', 'e', 'r', 't', '_', 'm', 'a', 'x', '_', 'b', 'i', 't', 's'];
    assert(m@ =~= max_bits_method());
    let ghost before = r@;
    r.append(&mut m);
    assert(r@ =~= before + max_bits_method());
    r
}

/// Executable [`direct_range_check`].
fn direct_range_check_exec(b: &Vec<char>, id: &Vec<char>) -> (r: bool)
    requires
        id@.len() > 0,
    ensures
        r == direct_range_check(b@, id@),
{
    let a = vec!['a', 's', 's', 'e', 'r', 't'];
    assert(a@ =~= assert_pat());
    if kw_use_exec(b, &a, id, true) {
        return true;
    }
    let mut k: usize = 0;
    while k < 4
        invariant
            k <= 4,
            id@.len() > 0,
            forall|j: int| 0 <= j < k ==> !kw_use_from(b@, #[trigger] range_helper_names()[j], id@, false, 0),
        decreases 4 - k,
    {
        let name = range_helper_vec(k);
        if kw_use_exec(b, &name, id, false) {
            return true;
        }
        k += 1;
    }
    let call = max_bits_call_vec(id);
    contains_token_exec(b, &call)
}

/// Executable [`token_starts_at`].
fn token_starts_exec(b: &Vec<char>, j: usize) -> (r: bool)
    ensures
        r == token_starts_at(b@, j as int),
{
    j < b.len() && ident_char(b[j]) && !('0' <= b[j] && b[j] <= '9') && (j == 0 || !ident_char(b[j - 1]))
}

/// Executable [`derived_checked_at`].
fn derived_checked_exec(b: &Vec<char>, id: &Vec<char>, i: usize) -> (r: bool)
    ensures
        r == derived_checked_at(b@, id@, i as int),
{
    if !let_starts_at_exec(b, i) {
        return false;
    }
    proof {
        lemma_let_stmt_bounds(b@, i as int);
    }
    let end = let_stmt_end_exec(b, i);
    let stmt = slice_of(b, i + 4, end);
    assert(stmt@ == let_stmt(b@, i as int));
    let eqv = single('=');
    let eq = match find_from_exec(&stmt, &eqv, 0) {
        None => return false,
        Some(eq) => eq,
    };
    proof {
        lemma_find_from(stmt@, seq!['='], 0);
        assert(matches_at(stmt@, seq!['='], eq as int));
    }
    let head = slice_of(&stmt, 0, eq);
    let name_part = trim_exec(&head);
    let name = binding_name_exec(&name_part);
    if !same_chars(&name, id) {
        return false;
    }
    let lo = i + 4 + eq + 1;
    let mut j = lo;
    assert(name_part@ == trim(let_stmt(b@, i as int).subrange(0, eq as int)));
    while j < end
        invariant
            lo <= j,
            lo == i + 4 + eq + 1,
            let_starts_at(b@, i as int),
            find_from(let_stmt(b@, i as int), seq!['='], 0) == Some(eq as int),
            binding_name(trim(let_stmt(b@, i as int).subrange(0, eq as int))) == id@,
            end <= b@.len(),
            end as int == let_stmt_end(b@, i + 4),
            forall|t: int|
                lo <= t < j ==> !(#[trigger] token_starts_at(b@, t) && direct_range_check(
                    b@,
                    b@.subrange(t, run_end(b@, t)),
                )),
        decreases end - j,
    {
        if token_starts_exec(b, j) {
            let te = run_end_exec(b, j);
            proof {
                assert(run_end(b@, j as int) == run_end(b@, j + 1));
                lemma_run_end(b@, j + 1);
            }
            let tok = slice_of(b, j, te);
            if direct_range_check_exec(b, &tok) {
                assert(token_starts_at(b@, j as int) && direct_range_check(
                    b@,
                    b@.subrange(j as int, run_end(b@, j as int)),
                ));
                return true;
            }
        }
        j += 1;
    }
    false
}

/// Whether `identifier` is range-checked in `body`: named directly by a
/// range-check idiom (an `assert` with a `<`/`>` bound, a `range_check`,
/// `assert_max_bits`, `lt` or `lte` call, or `identifier.assert_max_bits`),
/// or bound by a `let` whose right-hand side holds an identifier that is.
/// An empty identifier is never range-checked.
pub fn has_range_check_for_identifier(body: &str, identifier: &str) -> (r: bool)
    ensures
        r == range_checked(body@, identifier@),
{
    let b = chars_of(body);
    let id = chars_of(identifier);
    if id.len() == 0 {
        return false;
    }
    if direct_range_check_exec(&b, &id) {
        return true;
    }
    let mut i: usize = 0;
    while i < b.len()
        invariant
            i <= b@.len(),
            b@ == body@,
            id@ == identifier@,
            id@.len() > 0,
            forall|t: int| 0 <= t < i ==> !#[trigger] derived_checked_at(b@, id@, t),
        decreases b@.len() - i,
    {
        if derived_checked_exec(&b, &id, i) {
            assert(derived_checked_at(b@, id@, i as int));
            return true;
        }
        i += 1;
    }
    false
}

// ---------------------------------------------------------------------------
// Hash commitment calls
// ---------------------------------------------------------------------------

/// The mathematical content of a [`HashCallSite`].
pub ghost struct HashCallSpec {
    pub callee: Seq<char>,
    pub arguments: Seq<Seq<char>>,
    pub line: u32,
    pub evidence: Seq<char>,
}

/// A call of a hash/commitment function on an inline array literal.
#[derive(Debug, Clone, PartialEq)]
pub struct HashCallSite {
    /// The callee path, e.g. `poseidon::bn254::hash_2`.
    pub callee: String,
    /// The array literal's elements, trimmed, empty ones dropped.
    pub arguments: Vec<String>,
    /// 1-based line of the callee, counted within the scanned text.
    pub line: u32,
    /// The call text from the callee through its closing `)`.
    pub evidence: String,
}

impl View for HashCallSite {
    type V = HashCallSpec;

    open spec fn view(&self) -> HashCallSpec {
        HashCallSpec {
            callee: self.callee@,
            arguments: self.arguments@.map_values(|a: String| a@),
            line: self.line,
            evidence: self.evidence@,
        }
    }
}

/// An identifier character or `:` (path separator).
pub open spec fn is_path_char(c: char) -> bool {
    is_ident_char(c) || c == ':'
}

/// End of the path-character run that starts at `j`.
pub open spec fn path_end(s: Seq<char>, j: int) -> int
    decreases s.len() - j,
{
    if j < 0 || j >= s.len() {
        j
    } else if is_path_char(s[j]) {
        path_end(s, j + 1)
    } else {
        j
    }
}

/// Callee names that mark a hash/commitment call.
pub open spec fn hash_markers() -> Seq<Seq<char>> {
    seq![
        seq!['h', 'a', 's', 'h'],
        seq!['s', 'h', 'a', '2', '5', '6'],
        seq!['p', 'e', 'd', 'e', 'r', 's', 'e', 'n'],
    ]
}

/// The callee path names a hash: it contains `hash`, `sha256` or `pedersen`.
pub open spec fn is_hash_callee(p: Seq<char>) -> bool {
    exists|k: int| 0 <= k < 3 && contains(p, #[trigger] hash_markers()[k])
}

/// A domain tag: an `UPPER_SNAKE_CASE` constant name.
pub open spec fn is_domain_tag(a: Seq<char>) -> bool {
    &&& a.len() > 0
    &&& 'A' <= a[0] && a[0] <= 'Z'
    &&& forall|k: int|
        0 <= k < a.len() ==> (('A' <= #[trigger] a[k] && a[k] <= 'Z') || is_ascii_digit(a[k])
            || a[k] == '_')
}

/// No argument is a domain tag.
pub open spec fn lacks_tag(h: HashCallSpec) -> bool {
    forall|k: int| 0 <= k < h.arguments.len() ==> !is_domain_tag(#[trigger] h.arguments[k])
}

/// The trimmed text of one segment, if it is not blank.
pub open spec fn element_of(s: Seq<char>, seg: (int, int)) -> Seq<Seq<char>> {
    let t = trim(s.subrange(seg.0, seg.1));
    if t.len() > 0 {
        seq![t]
    } else {
        seq![]
    }
}

/// The non-blank trimmed segments, in order.
pub open spec fn elements_of(s: Seq<char>, segs: Seq<(int, int)>) -> Seq<Seq<char>>
    decreases segs.len(),
{
    if segs.len() == 0 {
        seq![]
    } else {
        elements_of(s, segs.drop_last()) + element_of(s, segs.last())
    }
}

/// The hash call (if any) whose callee path starts at `i`: a path that
/// names a hash, then `(`, then an inline array literal `[...]`, with
/// optional whitespace between.
pub open spec fn hash_call_at(s: Seq<char>, i: int) -> Seq<HashCallSpec> {
    if 0 <= i < s.len() && is_ident_char(s[i]) && (i == 0 || !is_path_char(s[i - 1])) {
        let pe = path_end(s, i);
        let p = skip_ws(s, pe);
        if is_hash_callee(s.subrange(i, pe)) && p < s.len() && s[p] == '(' {
            let q = skip_ws(s, p + 1);
            if q < s.len() && s[q] == '[' {
                match close_scan(s, '[', ']', q, 0) {
                    None => seq![],
                    Some(rb) => {
                        let ev_end = match close_scan(s, '(', ')', p, 0) {
                            Some(c) => c + 1,
                            None => rb + 1,
                        };
                        seq![
                            HashCallSpec {
                                callee: s.subrange(i, pe),
                                arguments: elements_of(s, split_segments(s, q + 1, rb)),
                                line: line_at(s, i),
                                evidence: s.subrange(i, ev_end),
                            },
                        ]
                    },
                }
            } else {
                seq![]
            }
        } else {
            seq![]
        }
    } else {
        seq![]
    }
}

/// Every hash call whose callee starts before index `n`, in order.
pub open spec fn hash_calls_upto(s: Seq<char>, n: int) -> Seq<HashCallSpec>
    decreases n,
{
    if n <= 0 {
        seq![]
    } else {
        hash_calls_upto(s, n - 1) + hash_call_at(s, n - 1)
    }
}

pub proof fn lemma_path_end(s: Seq<char>, j: int)
    requires
        0 <= j <= s.len(),
    ensures
        j <= path_end(s, j) <= s.len(),
    decreases s.len() - j,
{
    if j < s.len() && is_path_char(s[j]) {
        lemma_path_end(s, j + 1);
    }
}

/// Executable [`path_end`].
fn path_end_exec(s: &Vec<char>, j: usize) -> (r: usize)
    requires
        j <= s@.len(),
    ensures
        r as int == path_end(s@, j as int),
        j <= r <= s@.len(),
{
    proof {
        lemma_path_end(s@, j as int);
    }
    let mut k = j;
    while k < s.len() && (ident_char(s[k]) || s[k] == ':')
        invariant
            j <= k <= s@.len(),
            path_end(s@, j as int) == path_end(s@, k as int),
        decreases s@.len() - k,
    {
        k += 1;
    }
    k
}

fn hash_marker_vec(k: usize) -> (r: Vec<char>)
    requires
        k < 3,
    ensures
        r@ == hash_markers()[k as int],
{
    let r = if k == 0 {
        vec!['h', 'a', 's', 'h']
    } else if k == 1 {
        vec!['s', 'h', 'a', '2', '5', '6']
    } else {
        vec!['p', 'e', 'd', 'e', 'r', 's', 'e', 'n']
    };
    assert(r@ =~= hash_markers()[k as int]);
    r
}

/// Executable [`is_hash_callee`].
fn hash_callee_exec(p: &Vec<char>) -> (r: bool)
    ensures
        r == is_hash_callee(p@),
{
    let mut k: usize = 0;
    while k < 3
        invariant
            k <= 3,
            forall|j: int| 0 <= j < k ==> !contains(p@, #[trigger] hash_markers()[j]),
        decreases 3 - k,
    {
        let m = hash_marker_vec(k);
        if contains_exec(p, &m) {
            return true;
        }
        k += 1;
    }
    false
}

/// Executable [`is_domain_tag`].
fn domain_tag_exec(a: &Vec<char>) -> (r: bool)
    ensures
        r == is_domain_tag(a@),
{
    if a.len() == 0 || !('A' <= a[0] && a[0] <= 'Z') {
        return false;
    }
    let mut k: usize = 0;
    while k < a.len()
        invariant
            k <= a@.len(),
            forall|j: int|
                0 <= j < k ==> (('A' <= #[trigger] a@[j] && a@[j] <= 'Z') || is_ascii_digit(a@[j])
                    || a@[j] == '_'),
        decreases a@.len() - k,
    {
        let c = a[k];
        if !(('A' <= c && c <= 'Z') || ('0' <= c && c <= '9') || c == '_') {
            return false;
        }
        k += 1;
    }
    true
}

/// Executable [`elements_of`] over the top-level comma segments of
/// `s[lo..hi]`.
fn array_elements(s: &Vec<char>, lo: usize, hi: usize) -> (r: Vec<String>)
    requires
        lo <= hi <= s@.len(),
    ensures
        r@.map_values(|a: String| a@) == elements_of(s@, split_segments(s@, lo as int, hi as int)),
{
    let segs = split_top_level_commas(s, lo, hi);
    let ghost all = segs@.map_values(|p: (usize, usize)| (p.0 as int, p.1 as int));
    let mut out: Vec<String> = Vec::new();
    let mut k: usize = 0;
    assert(all.take(0) =~= Seq::<(int, int)>::empty());
    assert(out@.map_values(|a: String| a@) =~= elements_of(s@, all.take(0)));
    while k < segs.len()
        invariant
            k <= segs@.len(),
            all == segs@.map_values(|p: (usize, usize)| (p.0 as int, p.1 as int)),
            forall|j: int| 0 <= j < segs@.len() ==> lo <= (#[trigger] segs@[j]).0 <= segs@[j].1 <= hi,
            hi <= s@.len(),
            out@.map_values(|a: String| a@) == elements_of(s@, all.take(k as int)),
        decreases segs@.len() - k,
    {
        let (a, b) = segs[k];
        let raw = slice_of(s, a, b);
        let t = trim_exec(&raw);
        let ghost prev = out@.map_values(|a: String| a@);
        assert(all.take(k + 1).drop_last() =~= all.take(k as int));
        assert(all.take(k + 1).last() == (a as int, b as int));
        if t.len() > 0 {
            out.push(string_of(&t));
            assert(out@.map_values(|a: String| a@) =~= prev + seq![t@]);
        } else {
            assert(prev + Seq::<Seq<char>>::empty() =~= prev);
        }
        k += 1;
    }
    assert(all.take(segs@.len() as int) =~= all);
    out
}

/// Executable [`hash_call_at`].
fn hash_call_exec(s: &Vec<char>, i: usize) -> (r: Vec<HashCallSite>)
    ensures
        r@.map_values(|x: HashCallSite| x@) == hash_call_at(s@, i as int),
{
    let mut out: Vec<HashCallSite> = Vec::new();
    if i < s.len() && ident_char(s[i]) && (i == 0 || !(ident_char(s[i - 1]) || s[i - 1] == ':')) {
        let pe = path_end_exec(s, i);
        let p = skip_ws_exec(s, pe);
        let callee = slice_of(s, i, pe);
        if hash_callee_exec(&callee) && p < s.len() && s[p] == '(' {
            let q = skip_ws_exec(s, p + 1);
            if q < s.len() && s[q] == '[' {
                proof {
                    lemma_close_scan_bounds(s@, '[', ']', q as int, 0);
                    lemma_close_scan_bounds(s@, '(', ')', p as int, 0);
                }
                match close_scan_exec(s, '[', ']', q, 0) {
                    None => {},
                    Some(rb) => {
                        assert(s@[q as int] == '[' && s@[rb as int] == ']');
                        let ev_end = match close_scan_exec(s, '(', ')', p, 0) {
                            Some(c) => c + 1,
                            None => rb + 1,
                        };
                        let arguments = array_elements(s, q + 1, rb);
                        let site = HashCallSite {
                            callee: string_of(&callee),
                            arguments,
                            line: line_at_exec(s, i),
                            evidence: string_of_range(s, i, ev_end),
                        };
                        out.push(site);
                    },
                }
            }
        }
    }
    assert(out@.map_values(|x: HashCallSite| x@) =~= hash_call_at(s@, i as int));
    out
}

impl HashCallSite {
    /// Number of (non-blank) array elements hashed.
    pub fn arity(&self) -> (r: usize)
        ensures
            r == self@.arguments.len(),
    {
        self.arguments.len()
    }

    /// No element of the hashed array looks like a domain tag (an
    /// `UPPER_SNAKE_CASE` constant).
    pub fn lacks_apparent_domain_tag(&self) -> (r: bool)
        ensures
            r == lacks_tag(self@),
    {
        let mut k: usize = 0;
        while k < self.arguments.len()
            invariant
                k <= self@.arguments.len(),
                forall|j: int| 0 <= j < k ==> !is_domain_tag(#[trigger] self@.arguments[j]),
            decreases self@.arguments.len() - k,
        {
            let a = chars_of(self.arguments[k].as_str());
            assert(self@.arguments[k as int] == self.arguments@[k as int]@);
            if domain_tag_exec(&a) {
                return false;
            }
            k += 1;
        }
        true
    }
}

/// Finds every call of a hash/commitment function (callee path containing
/// `hash`, `sha256` or `pedersen`) whose argument is an inline array
/// literal, in source order, with lines counted within `source`.
pub fn find_hash_calls(source: &str) -> (r: Vec<HashCallSite>)
    ensures
        r@.map_values(|x: HashCallSite| x@) == hash_calls_upto(source@, source@.len() as int),
{
    let s = chars_of(source);
    let mut out: Vec<HashCallSite> = Vec::new();
    let mut i: usize = 0;
    assert(out@.map_values(|x: HashCallSite| x@) =~= hash_calls_upto(s@, 0));
    while i < s.len()
        invariant
            i <= s@.len(),
            s@ == source@,
            out@.map_values(|x: HashCallSite| x@) == hash_calls_upto(s@, i as int),
        decreases s@.len() - i,
    {
        let ghost prev = out@.map_values(|x: HashCallSite| x@);
        let mut here = hash_call_exec(&s, i);
        let ghost hv = here@.map_values(|x: HashCallSite| x@);
        out.append(&mut here);
        assert(out@.map_values(|x: HashCallSite| x@) =~= prev + hv);
        i += 1;
    }
    out
}

/// The hash call that `expression` starts with, if it starts with one.
pub fn as_hash_call(expression: &str) -> (r: Option<HashCallSite>)
    ensures
        match r {
            Some(h) => hash_call_at(expression@, 0) == seq![h@],
            None => hash_call_at(expression@, 0) == Seq::<HashCallSpec>::empty(),
        },
{
    let s = chars_of(expression);
    let mut found = hash_call_exec(&s, 0);
    if found.len() == 0 {
        assert(hash_call_at(s@, 0) =~= Seq::<HashCallSpec>::empty());
        None
    } else {
        let ghost fv = found@.map_values(|x: HashCallSite| x@);
        assert(fv.len() == 1);
        let h = found.pop();
        match h {
            Some(h) => {
                assert(fv =~= seq![h@]);
                Some(h)
            },
            None => None,
        }
    }
}

// ---------------------------------------------------------------------------
// Nullifier-like bindings
// ---------------------------------------------------------------------------

/// The mathematical content of a [`NullifierLikeSite`].
pub ghost struct NullifierSpec {
    pub name: Seq<char>,
    pub line: u32,
    pub expression_text: Seq<char>,
}

/// A `let` binding or single-expression function whose name follows a
/// nullifier naming convention.
#[derive(Debug, Clone, PartialEq)]
pub struct NullifierLikeSite {
    /// The bound or declared name.
    pub name: String,
    /// 1-based line of the `let` or `fn`, counted within the scanned text.
    pub line: u32,
    /// The computed expression, trimmed.
    pub expression_text: String,
}

impl View for NullifierLikeSite {
    type V = NullifierSpec;

    open spec fn view(&self) -> NullifierSpec {
        NullifierSpec { name: self.name@, line: self.line, expression_text: self.expression_text@ }
    }
}

/// Name fragments of the nullifier naming convention.
pub open spec fn nullifier_markers() -> Seq<Seq<char>> {
    seq![
        seq!['n', 'u', 'l', 'l', 'i', 'f', 'i', 'e', 'r'],
        seq!['n', 'u', 'l', 'l', '_', 'h', 'a', 's', 'h'],
        seq!['s', 'p', 'e', 'n', 't', '_', 't', 'a', 'g'],
    ]
}

/// The name contains `nullifier`, `null_hash` or `spent_tag`.
pub open spec fn is_nullifier_name(n: Seq<char>) -> bool {
    exists|k: int| 0 <= k < 3 && contains(n, #[trigger] nullifier_markers()[k])
}

pub open spec fn fn_kw_pat() -> Seq<char> {
    seq!['f', 'n', ' ']
}

/// A `let <name> = <expr>;` at `i` with a nullifier-like name.
pub open spec fn let_nullifier_at(s: Seq<char>, i: int) -> Seq<NullifierSpec> {
    if let_starts_at(s, i) {
        let stmt = let_stmt(s, i);
        match find_from(stmt, seq!['='], 0) {
            None => seq![],
            Some(eq) => {
                let name = binding_name(trim(stmt.subrange(0, eq)));
                if is_nullifier_name(name) {
                    seq![
                        NullifierSpec {
                            name,
                            line: line_at(s, i),
                            expression_text: trim(stmt.subrange(eq + 1, stmt.len() as int)),
                        },
                    ]
                } else {
                    seq![]
                }
            },
        }
    } else {
        seq![]
    }
}

/// A `fn <name>(...) ... { <expr> }` at `i` with a nullifier-like name whose
/// body is one non-empty expression (no `;`).
pub open spec fn fn_nullifier_at(s: Seq<char>, i: int) -> Seq<NullifierSpec> {
    if matches_at(s, fn_kw_pat(), i) && boundary_before(s, i) {
        let ns = skip_ws(s, i + 3);
        let ne = run_end(s, ns);
        let name = s.subrange(ns, ne);
        if is_nullifier_name(name) {
            match find_from(s, seq!['{'], ne) {
                None => seq![],
                Some(open) => match close_scan(s, '{', '}', open, 0) {
                    None => seq![],
                    Some(close) => {
                        let expr = trim(s.subrange(open + 1, close));
                        if expr.len() > 0 && !contains(expr, seq![';']) {
                            seq![NullifierSpec { name, line: line_at(s, i), expression_text: expr }]
                        } else {
                            seq![]
                        }
                    },
                },
            }
        } else {
            seq![]
        }
    } else {
        seq![]
    }
}

/// Every nullifier-like site at index `i`.
pub open spec fn nullifier_sites_at(s: Seq<char>, i: int) -> Seq<NullifierSpec> {
    let_nullifier_at(s, i) + fn_nullifier_at(s, i)
}

/// Every nullifier-like site at an index before `n`, in order.
pub open spec fn nullifier_sites_upto(s: Seq<char>, n: int) -> Seq<NullifierSpec>
    decreases n,
{
    if n <= 0 {
        seq![]
    } else {
        nullifier_sites_upto(s, n - 1) + nullifier_sites_at(s, n - 1)
    }
}

fn nullifier_marker_vec(k: usize) -> (r: Vec<char>)
    requires
        k < 3,
    ensures
        r@ == nullifier_markers()[k as int],
{
    let r = if k == 0 {
        vec!['n', 'u', 'l', 'l', 'i', 'f', 'i', 'e', 'r']
    } else if k == 1 {
        vec!['n', 'u', 'l', 'l', '_', 'h', 'a', 's', 'h']
    } else {
        vec!['s', 'p', 'e', 'n', 't', '_', 't', 'a', 'g']
    };
    assert(r@ =~= nullifier_markers()[k as int]);
    r
}

/// Executable [`is_nullifier_name`].
fn nullifier_name_exec(n: &Vec<char>) -> (r: bool)
    ensures
        r == is_nullifier_name(n@),
{
    let mut k: usize = 0;
    while k < 3
        invariant
            k <= 3,
            forall|j: int| 0 <= j < k ==> !contains(n@, #[trigger] nullifier_markers()[j]),
        decreases 3 - k,
    {
        let m = nullifier_marker_vec(k);
        if contains_exec(n, &m) {
            return true;
        }
        k += 1;
    }
    false
}

/// Executable [`let_nullifier_at`].
fn let_nullifier_exec(s: &Vec<char>, i: usize) -> (r: Vec<NullifierLikeSite>)
    ensures
        r@.map_values(|x: NullifierLikeSite| x@) == let_nullifier_at(s@, i as int),
{
    let mut out: Vec<NullifierLikeSite> = Vec::new();
    if let_starts_at_exec(s, i) {
        proof {
            lemma_let_stmt_bounds(s@, i as int);
        }
        let end = let_stmt_end_exec(s, i);
        let stmt = slice_of(s, i + 4, end);
        let eqv = single('=');
        match find_from_exec(&stmt, &eqv, 0) {
            None => {},
            Some(eq) => {
                proof {
                    lemma_find_from(stmt@, seq!['='], 0);
                    assert(matches_at(stmt@, seq!['='], eq as int));
                }
                let head = slice_of(&stmt, 0, eq);
                let name_part = trim_exec(&head);
                let name = binding_name_exec(&name_part);
                if nullifier_name_exec(&name) {
                    let rhs = slice_of(&stmt, eq + 1, stmt.len());
                    let expr = trim_exec(&rhs);
                    out.push(
                        NullifierLikeSite {
                            name: string_of(&name),
                            line: line_at_exec(s, i),
                            expression_text: string_of(&expr),
                        },
                    );
                }
            },
        }
    }
    assert(out@.map_values(|x: NullifierLikeSite| x@) =~= let_nullifier_at(s@, i as int));
    out
}

/// Executable [`fn_nullifier_at`].
fn fn_nullifier_exec(s: &Vec<char>, i: usize) -> (r: Vec<NullifierLikeSite>)
    ensures
        r@.map_values(|x: NullifierLikeSite| x@) == fn_nullifier_at(s@, i as int),
{
    let mut out: Vec<NullifierLikeSite> = Vec::new();
    let kw = vec!['f', 'n', ' '];
    assert(kw@ =~= fn_kw_pat());
    if matches_at_exec(s, &kw, i) && (i == 0 || !ident_char(s[i - 1])) {
        assert(i + 3 <= s.len());
        let ns = skip_ws_exec(s, i + 3);
        let ne = run_end_exec(s, ns);
        let name = slice_of(s, ns, ne);
        if nullifier_name_exec(&name) {
            let lb = single('{');
            match find_from_exec(s, &lb, ne) {
                None => {},
                Some(open) => {
                    proof {
                        lemma_find_from(s@, seq!['{'], ne as int);
                        lemma_close_scan_bounds(s@, '{', '}', open as int, 0);
                        assert(matches_at(s@, seq!['{'], open as int));
                        assert(s@[open as int] == seq!['{'][0]);
                    }
                    match close_scan_exec(s, '{', '}', open, 0) {
                        None => {},
                        Some(close) => {
                            assert(s@[open as int] == '{' && s@[close as int] == '}');
                            let raw = slice_of(s, open + 1, close);
                            let expr = trim_exec(&raw);
                            let semi = single(';');
                            if expr.len() > 0 && !contains_exec(&expr, &semi) {
                                out.push(
                                    NullifierLikeSite {
                                        name: string_of(&name),
                                        line: line_at_exec(s, i),
                                        expression_text: string_of(&expr),
                                    },
                                );
                            }
                        },
                    }
                },
            }
        }
    }
    assert(out@.map_values(|x: NullifierLikeSite| x@) =~= fn_nullifier_at(s@, i as int));
    out
}

/// Finds every nullifier-like site of `source` in source order: each
/// `let <name> = <expr>;` and each single-expression `fn <name>` whose name
/// contains `nullifier`, `null_hash` or `spent_tag`, with the computed
/// expression and the line of the `let`/`fn`.
pub fn find_nullifier_like_sites(source: &str) -> (r: Vec<NullifierLikeSite>)
    ensures
        r@.map_values(|x: NullifierLikeSite| x@) == nullifier_sites_upto(source@, source@.len() as int),
{
    let s = chars_of(source);
    let mut out: Vec<NullifierLikeSite> = Vec::new();
    let mut i: usize = 0;
    assert(out@.map_values(|x: NullifierLikeSite| x@) =~= nullifier_sites_upto(s@, 0));
    while i < s.len()
        invariant
            i <= s@.len(),
            s@ == source@,
            out@.map_values(|x: NullifierLikeSite| x@) == nullifier_sites_upto(s@, i as int),
        decreases s@.len() - i,
    {
        let ghost prev = out@.map_values(|x: NullifierLikeSite| x@);
        let mut a = let_nullifier_exec(&s, i);
        let mut b = fn_nullifier_exec(&s, i);
        let ghost av = a@.map_values(|x: NullifierLikeSite| x@);
        let ghost bv = b@.map_values(|x: NullifierLikeSite| x@);
        out.append(&mut a);
        out.append(&mut b);
        assert(out@.map_values(|x: NullifierLikeSite| x@) =~= prev + (av + bv));
        i += 1;
    }
    out
}

} // verus!
