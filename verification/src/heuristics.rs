//! Lightweight, text-level Noir heuristics shared by the rules.
//!
//! This is deliberately not a Noir parser: it finds `fn main` entry points
//! by brace matching, extracts their `pub` parameters, and answers "does
//! this identifier reach a constraint keyword" by textual co-occurrence
//! (directly, or through one intermediate `let`). A `fn main` inside a `//`
//! comment is not an entry point; braces inside comments and string
//! literals are still counted as braces.

use vstd::prelude::*;

use crate::text::{
    before_char, before_char_exec, chars_of, close_scan, close_scan_exec, contains, contains_token,
    contains_token_exec, count_char, count_char_exec,
    find_from, find_from_exec, ident_char, is_ident_char, lemma_close_scan_bounds,
    lemma_find_from, lemma_skip_ws_bounds, line_at, line_at_exec, matches_at, matches_at_exec,
    matching_close, skip_ws, skip_ws_exec, slice_of, starts_with, string_of, string_of_range,
    strip_all_prefix, strip_all_prefix_exec, trim, trim_exec, trim_start, trim_start_exec,
};

verus! {

// ---------------------------------------------------------------------------
// Patterns
// ---------------------------------------------------------------------------

pub open spec fn fn_main_pat() -> Seq<char> {
    seq!['f', 'n', ' ', 'm', 'a', 'i', 'n']
}

pub open spec fn pub_space_pat() -> Seq<char> {
    seq!['p', 'u', 'b', ' ']
}

pub open spec fn pub_tab_pat() -> Seq<char> {
    seq!['p', 'u', 'b', '\t']
}

pub open spec fn mut_pat() -> Seq<char> {
    seq!['m', 'u', 't', ' ']
}

pub open spec fn let_pat() -> Seq<char> {
    seq!['l', 'e', 't', ' ']
}

/// `assert_eq`, `assert` and `constrain`, in the order they are searched.
pub open spec fn constraint_keywords() -> Seq<Seq<char>> {
    seq![
        seq!['a', 's', 's', 'e', 'r', 't', '_', 'e', 'q'],
        seq!['a', 's', 's', 'e', 'r', 't'],
        seq!['c', 'o', 'n', 's', 't', 'r', 'a', 'i', 'n'],
    ]
}

pub(crate) fn fn_main_vec() -> (r: Vec<char>)
    ensures
        r@ == fn_main_pat(),
{
    let r = vec!['f', 'n', ' ', 'm', 'a', 'i', 'n'];
    assert(r@ =~= fn_main_pat());
    r
}

pub(crate) fn pub_space_vec() -> (r: Vec<char>)
    ensures
        r@ == pub_space_pat(),
{
    let r = vec!['p', 'u', 'b', ' '];
    assert(r@ =~= pub_space_pat());
    r
}

pub(crate) fn pub_tab_vec() -> (r: Vec<char>)
    ensures
        r@ == pub_tab_pat(),
{
    let r = vec!['p', 'u', 'b', '\t'];
    assert(r@ =~= pub_tab_pat());
    r
}

pub(crate) fn mut_vec() -> (r: Vec<char>)
    ensures
        r@ == mut_pat(),
{
    let r = vec!['m', 'u', 't', ' '];
    assert(r@ =~= mut_pat());
    r
}

pub(crate) fn let_vec() -> (r: Vec<char>)
    ensures
        r@ == let_pat(),
{
    let r = vec!['l', 'e', 't', ' '];
    assert(r@ =~= let_pat());
    r
}

pub(crate) fn single(c: char) -> (r: Vec<char>)
    ensures
        r@ == seq![c],
{
    let r = vec![c];
    assert(r@ =~= seq![c]);
    r
}

// ---------------------------------------------------------------------------
// Models
// ---------------------------------------------------------------------------

/// The mathematical content of a [`PublicParam`].
pub ghost struct ParamSpec {
    pub name: Seq<char>,
    pub line: u32,
    pub declaration_text: Seq<char>,
}

/// The mathematical content of a [`FnEntryPoint`].
pub ghost struct EntrySpec {
    pub signature_line: u32,
    pub signature_text: Seq<char>,
    pub body: Seq<char>,
    pub body_start_line: u32,
    pub public_params: Seq<ParamSpec>,
}

/// One `fn main` entry point: its signature, its body and its `pub`
/// parameters.
#[derive(Debug, Clone, PartialEq)]
pub struct FnEntryPoint {
    /// 1-based line on which the `fn` keyword starts.
    pub signature_line: u32,
    /// The signature text from `fn` up to (excluding) the body's `{`.
    pub signature_text: String,
    /// The body text between the `{` and its matching `}`.
    pub body: String,
    /// 1-based line of the body's opening `{`.
    pub body_start_line: u32,
    /// Public parameters declared in the signature.
    pub public_params: Vec<PublicParam>,
}

/// One `pub` parameter of an entry point's signature.
#[derive(Debug, Clone, PartialEq)]
pub struct PublicParam {
    /// The parameter identifier, e.g. `claimed_total`.
    pub name: String,
    /// 1-based line on which this parameter declaration appears.
    pub line: u32,
    /// The declaration text, e.g. `pub claimed_total: Field`.
    pub declaration_text: String,
}

impl View for PublicParam {
    type V = ParamSpec;

    open spec fn view(&self) -> ParamSpec {
        ParamSpec { name: self.name@, line: self.line, declaration_text: self.declaration_text@ }
    }
}

impl View for FnEntryPoint {
    type V = EntrySpec;

    open spec fn view(&self) -> EntrySpec {
        EntrySpec {
            signature_line: self.signature_line,
            signature_text: self.signature_text@,
            body: self.body@,
            body_start_line: self.body_start_line,
            public_params: self.public_params@.map_values(|p: PublicParam| p@),
        }
    }
}

// ---------------------------------------------------------------------------
// Specification of entry-point extraction
// ---------------------------------------------------------------------------

/// No identifier character directly before index `idx`.
pub open spec fn boundary_before(s: Seq<char>, idx: int) -> bool {
    idx == 0 || !is_ident_char(s[idx - 1])
}

/// No identifier character at index `end` (directly after a match that
/// ends there).
pub open spec fn boundary_after(s: Seq<char>, end: int) -> bool {
    end >= s.len() || !is_ident_char(s[end])
}

/// Start of the line that holds index `i`: one past the last `\n` before
/// `i`, or 0.
pub open spec fn line_start(s: Seq<char>, i: int) -> int
    decreases i,
{
    if i <= 0 {
        0
    } else if s[i - 1] == '\n' {
        i
    } else {
        line_start(s, i - 1)
    }
}

pub proof fn lemma_line_start(s: Seq<char>, i: int)
    requires
        0 <= i <= s.len(),
    ensures
        0 <= line_start(s, i) <= i,
    decreases i,
{
    if i > 0 && s[i - 1] != '\n' {
        lemma_line_start(s, i - 1);
    }
}

/// Index `i` comes after a `//` on its line: it is inside a line comment.
pub open spec fn in_line_comment(s: Seq<char>, i: int) -> bool {
    contains(s.subrange(line_start(s, i), i), seq!['/', '/'])
}

/// A `fn main` at `idx` declares the entry point: it is the literal
/// `fn main` (no identifier character right before it or right after
/// `main`) and it is not inside a `//` comment.
pub open spec fn main_decl_at(s: Seq<char>, idx: int) -> bool {
    &&& boundary_before(s, idx)
    &&& boundary_after(s, idx + 7)
    &&& !in_line_comment(s, idx)
}

/// The declared name in a `name: Type` / `mut name` fragment: the text
/// before the first `:`, trimmed, with leading `mut ` repetitions removed,
/// trimmed again.
pub open spec fn binding_name(x: Seq<char>) -> Seq<char> {
    trim(strip_all_prefix(trim(before_char(x, ':')), mut_pat()))
}

pub open spec fn is_open_bracket(c: char) -> bool {
    c == '(' || c == '[' || c == '{' || c == '<'
}

pub open spec fn is_close_bracket(c: char) -> bool {
    c == ')' || c == ']' || c == '}' || c == '>'
}

/// Splits `s[start..hi]` (scanning from `i` at nesting `depth`) at commas
/// outside `()`, `[]`, `{}` and `<>`; segments are index ranges into `s`.
pub open spec fn split_scan(s: Seq<char>, hi: int, i: int, depth: int, start: int) -> Seq<(int, int)>
    decreases hi - i,
{
    if i >= hi {
        seq![(start, hi)]
    } else if is_open_bracket(s[i]) {
        split_scan(s, hi, i + 1, depth + 1, start)
    } else if is_close_bracket(s[i]) {
        split_scan(s, hi, i + 1, depth - 1, start)
    } else if s[i] == ',' && depth == 0 {
        seq![(start, i)] + split_scan(s, hi, i + 1, depth, i + 1)
    } else {
        split_scan(s, hi, i + 1, depth, start)
    }
}

/// Top-level comma segments of `s[lo..hi]`.
pub open spec fn split_segments(s: Seq<char>, lo: int, hi: int) -> Seq<(int, int)> {
    split_scan(s, hi, lo, 0, lo)
}

/// The `pub` parameter (if any) declared by the segment `sig[lo..hi]`.
pub open spec fn param_of(sig: Seq<char>, lo: int, hi: int, line0: u32) -> Seq<ParamSpec> {
    let raw = sig.subrange(lo, hi);
    let t = trim(raw);
    let tstart = lo + skip_ws(raw, 0);
    if t.len() == 0 {
        seq![]
    } else if starts_with(t, pub_space_pat()) || starts_with(t, pub_tab_pat()) {
        let name = binding_name(trim_start(t.subrange(4, t.len() as int)));
        if name.len() > 0 {
            seq![
                ParamSpec {
                    name,
                    line: (line0 + count_char(sig, '\n', tstart)) as u32,
                    declaration_text: t,
                },
            ]
        } else {
            seq![]
        }
    } else {
        seq![]
    }
}

/// The `pub` parameters declared by the given segments, in order.
pub open spec fn params_of_segments(sig: Seq<char>, segs: Seq<(int, int)>, line0: u32) -> Seq<
    ParamSpec,
>
    decreases segs.len(),
{
    if segs.len() == 0 {
        seq![]
    } else {
        param_of(sig, segs[0].0, segs[0].1, line0) + params_of_segments(
            sig,
            segs.drop_first(),
            line0,
        )
    }
}

/// The `pub` parameters of a signature whose `fn` is on line `line0`: the
/// comma-separated parameters inside its first parenthesis group that start
/// with `pub ` (or `pub` and a tab).
pub open spec fn public_params_spec(sig: Seq<char>, line0: u32) -> Seq<ParamSpec> {
    match find_from(sig, seq!['('], 0) {
        None => seq![],
        Some(op) => match matching_close(sig, '(', ')', op) {
            None => seq![],
            Some(cp) => params_of_segments(sig, split_segments(sig, op + 1, cp), line0),
        },
    }
}

/// The entry point whose `fn main` starts at `fn_idx`, whose body opens at
/// `open` and closes at `close`.
pub open spec fn entry_at(s: Seq<char>, fn_idx: int, open: int, close: int) -> EntrySpec {
    EntrySpec {
        signature_line: line_at(s, fn_idx),
        signature_text: s.subrange(fn_idx, open),
        body: s.subrange(open + 1, close),
        body_start_line: line_at(s, open),
        public_params: public_params_spec(s.subrange(fn_idx, open), line_at(s, fn_idx)),
    }
}

/// Entry points found scanning `s` from `from`: each `fn main` that
/// declares the entry point ([`main_decl_at`]: the literal `fn main`, not
/// `fn main_helper`, and not inside a `//` comment), up to its first `{`,
/// and that brace's matching `}`. Scanning stops at the first such
/// `fn main` with no `{` after it or with unbalanced braces.
pub open spec fn entries_from(s: Seq<char>, from: int) -> Seq<EntrySpec>
    decreases s.len() - from,
{
    if from < 0 {
        seq![]
    } else {
        match find_from(s, fn_main_pat(), from) {
            None => seq![],
            Some(fn_idx) => {
                proof {
                    lemma_find_from(s, fn_main_pat(), from);
                }
                if !main_decl_at(s, fn_idx) {
                    entries_from(s, fn_idx + 7)
                } else {
                    match find_from(s, seq!['{'], fn_idx) {
                        None => seq![],
                        Some(open) => {
                            proof {
                                lemma_find_from(s, seq!['{'], fn_idx);
                                lemma_close_scan_bounds(s, '{', '}', open, 0);
                            }
                            match matching_close(s, '{', '}', open) {
                                None => seq![],
                                Some(close) => seq![entry_at(s, fn_idx, open, close)]
                                    + entries_from(s, close + 1),
                            }
                        },
                    }
                }
            },
        }
    }
}

/// All `fn main` entry points of `s`.
pub open spec fn entry_points_spec(s: Seq<char>) -> Seq<EntrySpec> {
    entries_from(s, 0)
}

// ---------------------------------------------------------------------------
// Executable entry-point extraction
// ---------------------------------------------------------------------------

/// Executable [`split_segments`].
pub(crate) fn split_top_level_commas(s: &Vec<char>, lo: usize, hi: usize) -> (r: Vec<(usize, usize)>)
    requires
        lo <= hi <= s@.len(),
    ensures
        r@.map_values(|p: (usize, usize)| (p.0 as int, p.1 as int)) == split_segments(
            s@,
            lo as int,
            hi as int,
        ),
        forall|k: int| 0 <= k < r@.len() ==> lo <= (#[trigger] r@[k]).0 <= r@[k].1 <= hi,
{
    let mut out: Vec<(usize, usize)> = Vec::new();
    let mut depth: i128 = 0;
    let mut start = lo;
    let mut i = lo;
    while i < hi
        invariant
            lo <= start <= i <= hi <= s@.len(),
            -(i as int) <= depth <= i as int,
            out@.map_values(|p: (usize, usize)| (p.0 as int, p.1 as int)) + split_scan(
                s@,
                hi as int,
                i as int,
                depth as int,
                start as int,
            ) == split_segments(s@, lo as int, hi as int),
            forall|k: int| 0 <= k < out@.len() ==> lo <= (#[trigger] out@[k]).0 <= out@[k].1 <= hi,
        decreases hi - i,
    {
        let c = s[i];
        if c == '(' || c == '[' || c == '{' || c == '<' {
            depth = depth + 1;
        } else if c == ')' || c == ']' || c == '}' || c == '>' {
            depth = depth - 1;
        } else if c == ',' && depth == 0 {
            let ghost before = out@.map_values(|p: (usize, usize)| (p.0 as int, p.1 as int));
            out.push((start, i));
            assert(out@.map_values(|p: (usize, usize)| (p.0 as int, p.1 as int)) =~= before.push(
                (start as int, i as int),
            ));
            assert(before.push((start as int, i as int)) + split_scan(
                s@,
                hi as int,
                i + 1,
                depth as int,
                i + 1,
            ) =~= before + (seq![(start as int, i as int)] + split_scan(
                s@,
                hi as int,
                i + 1,
                depth as int,
                i + 1,
            )));
            start = i + 1;
        }
        i += 1;
    }
    let ghost before = out@.map_values(|p: (usize, usize)| (p.0 as int, p.1 as int));
    out.push((start, hi));
    assert(out@.map_values(|p: (usize, usize)| (p.0 as int, p.1 as int)) =~= before.push(
        (start as int, hi as int),
    ));
    assert(before + seq![(start as int, hi as int)] =~= before.push((start as int, hi as int)));
    out
}

/// Executable [`binding_name`].
pub(crate) fn binding_name_exec(x: &Vec<char>) -> (r: Vec<char>)
    ensures
        r@ == binding_name(x@),
{
    let a = before_char_exec(x, ':');
    let b = trim_exec(&a);
    let m = mut_vec();
    let c = strip_all_prefix_exec(&b, &m);
    trim_exec(&c)
}

/// Executable [`param_of`].
fn param_of_exec(sig: &Vec<char>, lo: usize, hi: usize, line0: u32) -> (r: Vec<PublicParam>)
    requires
        lo <= hi <= sig@.len(),
    ensures
        r@.map_values(|p: PublicParam| p@) == param_of(sig@, lo as int, hi as int, line0),
{
    let raw = slice_of(sig, lo, hi);
    let t = trim_exec(&raw);
    let off = skip_ws_exec(&raw, 0);
    proof {
        lemma_skip_ws_bounds(raw@, 0);
    }
    let tstart = lo + off;
    let mut out: Vec<PublicParam> = Vec::new();
    if t.len() == 0 {
        assert(out@.map_values(|p: PublicParam| p@) =~= Seq::<ParamSpec>::empty());
        return out;
    }
    let ps = pub_space_vec();
    let pt = pub_tab_vec();
    if matches_at_exec(&t, &ps, 0) || matches_at_exec(&t, &pt, 0) {
        let after = slice_of(&t, 4, t.len());
        let rest = trim_start_exec(&after);
        let name = binding_name_exec(&rest);
        if name.len() > 0 {
            let n = count_char_exec(sig, '\n', tstart);
            let wide: u128 = line0 as u128 + n as u128;
            #[verifier::truncate]
            let line = wide as u32;
            let p = PublicParam {
                name: string_of(&name),
                line,
                declaration_text: string_of(&t),
            };
            out.push(p);
            assert(out@.map_values(|p: PublicParam| p@) =~= param_of(
                sig@,
                lo as int,
                hi as int,
                line0,
            ));
            return out;
        }
    }
    assert(out@.map_values(|p: PublicParam| p@) =~= Seq::<ParamSpec>::empty());
    out
}

/// Executable [`public_params_spec`].
fn extract_public_params(sig: &Vec<char>, line0: u32) -> (r: Vec<PublicParam>)
    ensures
        r@.map_values(|p: PublicParam| p@) == public_params_spec(sig@, line0),
{
    let mut out: Vec<PublicParam> = Vec::new();
    let lp = single('(');
    let op = match find_from_exec(sig, &lp, 0) {
        Some(op) => op,
        None => {
            assert(out@.map_values(|p: PublicParam| p@) =~= Seq::<ParamSpec>::empty());
            return out;
        },
    };
    proof {
        lemma_find_from(sig@, seq!['('], 0);
        assert(sig@[op as int] == seq!['('][0]);
        lemma_close_scan_bounds(sig@, '(', ')', op + 1, 1);
    }
    let cp = match close_scan_exec(sig, '(', ')', op, 0) {
        Some(cp) => cp,
        None => {
            assert(out@.map_values(|p: PublicParam| p@) =~= Seq::<ParamSpec>::empty());
            return out;
        },
    };
    let segs = split_top_level_commas(sig, op + 1, cp);
    let ghost all = segs@.map_values(|p: (usize, usize)| (p.0 as int, p.1 as int));
    assert(all.skip(0) =~= all);
    assert(out@.map_values(|p: PublicParam| p@) =~= Seq::<ParamSpec>::empty());
    assert(Seq::<ParamSpec>::empty() + params_of_segments(sig@, all, line0) =~= params_of_segments(sig@, all, line0));
    let mut k: usize = 0;
    while k < segs.len()
        invariant
            k <= segs@.len(),
            all == segs@.map_values(|p: (usize, usize)| (p.0 as int, p.1 as int)),
            forall|j: int| 0 <= j < segs@.len() ==> 0 <= (#[trigger] segs@[j]).0 <= segs@[j].1 <= sig@.len(),
            out@.map_values(|p: PublicParam| p@) + params_of_segments(sig@, all.skip(k as int), line0)
                == params_of_segments(sig@, all, line0),
        decreases segs@.len() - k,
    {
        let (lo, hi) = segs[k];
        let mut one = param_of_exec(sig, lo, hi, line0);
        let ghost before = out@.map_values(|p: PublicParam| p@);
        let ghost one_v = one@.map_values(|p: PublicParam| p@);
        out.append(&mut one);
        assert(out@.map_values(|p: PublicParam| p@) =~= before + one_v);
        assert(all.skip(k as int).drop_first() =~= all.skip(k + 1));
        assert(all.skip(k as int)[0] == (lo as int, hi as int));
        assert(before + one_v + params_of_segments(sig@, all.skip(k + 1), line0) =~= before + (one_v
            + params_of_segments(sig@, all.skip(k + 1), line0)));
        k += 1;
    }
    assert(all.skip(segs@.len() as int) =~= Seq::<(int, int)>::empty());
    assert(out@.map_values(|p: PublicParam| p@) + Seq::<ParamSpec>::empty() =~= out@.map_values(
        |p: PublicParam| p@,
    ));
    assert(all.skip(0) =~= all);
    out
}

/// Executable [`line_start`].
fn line_start_exec(s: &Vec<char>, i: usize) -> (r: usize)
    requires
        i <= s@.len(),
    ensures
        r as int == line_start(s@, i as int),
        r <= i,
{
    let mut j = i;
    while j > 0 && s[j - 1] != '\n'
        invariant
            j <= i <= s@.len(),
            line_start(s@, i as int) == line_start(s@, j as int),
        decreases j,
    {
        j -= 1;
    }
    j
}

/// Executable [`main_decl_at`].
fn main_decl_exec(s: &Vec<char>, idx: usize) -> (r: bool)
    requires
        idx + 7 <= s@.len(),
    ensures
        r == main_decl_at(s@, idx as int),
{
    if idx > 0 && ident_char(s[idx - 1]) {
        return false;
    }
    if idx < s.len() - 7 && ident_char(s[idx + 7]) {
        return false;
    }
    let ls = line_start_exec(s, idx);
    let before = slice_of(s, ls, idx);
    let cm = vec!['/', '/'];
    assert(cm@ =~= seq!['/', '/']);
    find_from_exec(&before, &cm, 0).is_none()
}

/// Scans `source` for `fn main(...)` entry points and extracts their `pub`
/// parameters and body text.
///
/// A brace-matching scan, not an expression parser: `fn main` counts only
/// as the literal name (not `fn main_helper`) outside `//` comments, while
/// braces inside comments or string literals are still counted. Scanning
/// stops at the first `fn main` with no `{` after it or with unbalanced
/// braces.
pub fn find_fn_entry_points(source: &str) -> (r: Vec<FnEntryPoint>)
    ensures
        r@.map_values(|e: FnEntryPoint| e@) == entry_points_spec(source@),
{
    let s = chars_of(source);
    let pat = fn_main_vec();
    let lb = single('{');
    let mut out: Vec<FnEntryPoint> = Vec::new();
    let mut search_from: usize = 0;
    loop
        invariant
            pat@ == fn_main_pat(),
            lb@ == seq!['{'],
            s@ == source@,
            search_from <= s@.len(),
            out@.map_values(|e: FnEntryPoint| e@) + entries_from(s@, search_from as int)
                == entries_from(s@, 0),
        decreases s@.len() - search_from,
    {
        let ghost prev = out@.map_values(|e: FnEntryPoint| e@);
        let fn_idx = match find_from_exec(&s, &pat, search_from) {
            None => {
                assert(entries_from(s@, search_from as int) =~= Seq::<EntrySpec>::empty());
                assert(prev + Seq::<EntrySpec>::empty() =~= prev);
                return out;
            },
            Some(k) => k,
        };
        proof {
            lemma_find_from(s@, fn_main_pat(), search_from as int);
        }
        if !main_decl_exec(&s, fn_idx) {
            search_from = fn_idx + 7;
            continue;
        }
        let open = match find_from_exec(&s, &lb, fn_idx) {
            None => {
                assert(prev + Seq::<EntrySpec>::empty() =~= prev);
                return out;
            },
            Some(k) => k,
        };
        proof {
            lemma_find_from(s@, seq!['{'], fn_idx as int);
            lemma_close_scan_bounds(s@, '{', '}', open as int, 0);
        }
        let close = match close_scan_exec(&s, '{', '}', open, 0) {
            None => {
                assert(prev + Seq::<EntrySpec>::empty() =~= prev);
                return out;
            },
            Some(k) => k,
        };
        let sig = slice_of(&s, fn_idx, open);
        let signature_line = line_at_exec(&s, fn_idx);
        let body_start_line = line_at_exec(&s, open);
        let public_params = extract_public_params(&sig, signature_line);
        let entry = FnEntryPoint {
            signature_line,
            signature_text: string_of(&sig),
            body: string_of_range(&s, open + 1, close),
            body_start_line,
            public_params,
        };
        assert(entry@ == entry_at(s@, fn_idx as int, open as int, close as int));
        out.push(entry);
        assert(out@.map_values(|e: FnEntryPoint| e@) =~= prev.push(
            entry_at(s@, fn_idx as int, open as int, close as int),
        ));
        assert(prev.push(entry_at(s@, fn_idx as int, open as int, close as int)) + entries_from(
            s@,
            close + 1,
        ) =~= prev + (seq![entry_at(s@, fn_idx as int, open as int, close as int)] + entries_from(
            s@,
            close + 1,
        )));
        search_from = close + 1;
    }
}


// ---------------------------------------------------------------------------
// Constraint usage
// ---------------------------------------------------------------------------

/// The argument text of a call whose name ends at `after`: optional
/// whitespace, `(`, and everything up to the matching `)`.
pub open spec fn call_args(b: Seq<char>, after: int) -> Option<Seq<char>> {
    let p = skip_ws(b, after);
    if 0 <= p < b.len() && b[p] == '(' {
        match close_scan(b, '(', ')', p + 1, 1) {
            Some(c) => Some(b.subrange(p + 1, c)),
            None => None,
        }
    } else {
        None
    }
}

/// The argument text contains a `<` or a `>`.
pub open spec fn has_bound_op(args: Seq<char>) -> bool {
    contains(args, seq!['<']) || contains(args, seq!['>'])
}

/// After index `after` comes a call whose arguments contain `id` as a token
/// (and, when `need_bound`, a `<` or `>`).
pub open spec fn call_args_contain(b: Seq<char>, after: int, id: Seq<char>, need_bound: bool) -> bool {
    match call_args(b, after) {
        Some(args) => contains_token(args, id) && (!need_bound || has_bound_op(args)),
        None => false,
    }
}

/// Some occurrence of keyword `kw` at or after `from`, with no identifier
/// character before it, is a call whose arguments contain `id` as a token
/// (and, when `need_bound`, a comparison).
pub open spec fn kw_use_from(b: Seq<char>, kw: Seq<char>, id: Seq<char>, need_bound: bool, from: int) -> bool
    decreases b.len() - from,
{
    if from < 0 || kw.len() == 0 {
        false
    } else {
        match find_from(b, kw, from) {
            None => false,
            Some(idx) => {
                proof {
                    lemma_find_from(b, kw, from);
                }
                (boundary_before(b, idx) && call_args_contain(b, idx + kw.len(), id, need_bound))
                    || kw_use_from(b, kw, id, need_bound, idx + kw.len())
            },
        }
    }
}

/// `id` appears as a token inside the argument list of a call to
/// `assert_eq`, `assert` or `constrain` somewhere in `b`.
pub open spec fn direct_use_spec(b: Seq<char>, id: Seq<char>) -> bool {
    exists|k: int| 0 <= k < 3 && kw_use_from(b, #[trigger] constraint_keywords()[k], id, false, 0)
}

/// End of the `let` statement whose text starts at `after`: the next `;`,
/// or the end of `b`.
pub open spec fn let_stmt_end(b: Seq<char>, after: int) -> int {
    match find_from(b, seq![';'], after) {
        Some(k) => k,
        None => b.len() as int,
    }
}

/// The name bound by the `let` statement text `stmt` (text after `let `,
/// before `;`), if its right-hand side mentions `id` as a token.
pub open spec fn let_binding_refs(stmt: Seq<char>, id: Seq<char>) -> Seq<Seq<char>> {
    match find_from(stmt, seq!['='], 0) {
        None => seq![],
        Some(eq) => {
            let name = binding_name(trim(stmt.subrange(0, eq)));
            if name.len() > 0 && contains_token(stmt.subrange(eq + 1, stmt.len() as int), id) {
                seq![name]
            } else {
                seq![]
            }
        },
    }
}

/// Names bound by `let` statements (scanning from `from`) whose right-hand
/// side mentions `id` as a token, in order.
pub open spec fn lets_from(b: Seq<char>, id: Seq<char>, from: int) -> Seq<Seq<char>>
    decreases b.len() - from,
{
    if from < 0 {
        seq![]
    } else {
        match find_from(b, let_pat(), from) {
            None => seq![],
            Some(idx) => {
                proof {
                    lemma_find_from(b, let_pat(), from);
                    lemma_find_from(b, seq![';'], idx + 4);
                }
                if !boundary_before(b, idx) {
                    lets_from(b, id, idx + 4)
                } else {
                    let end = let_stmt_end(b, idx + 4);
                    let_binding_refs(b.subrange(idx + 4, end), id) + lets_from(b, id, end)
                }
            },
        }
    }
}

/// `id` reaches a constraint keyword's arguments in `b`, directly or
/// through one `let` binding whose right-hand side mentions it.
pub open spec fn ident_in_constraint(b: Seq<char>, id: Seq<char>) -> bool {
    &&& id.len() > 0
    &&& {
        ||| direct_use_spec(b, id)
        ||| exists|k: int| 0 <= k < lets_from(b, id, 0).len() && direct_use_spec(b, #[trigger] lets_from(b, id, 0)[k])
    }
}

pub(crate) fn keyword_vec(k: usize) -> (r: Vec<char>)
    requires
        k < 3,
    ensures
        r@ == constraint_keywords()[k as int],
{
    let r = if k == 0 {
        vec!['a', 's', 's', 'e', 'r', 't', '_', 'e', 'q']
    } else if k == 1 {
        vec!['a', 's', 's', 'e', 'r', 't']
    } else {
        vec!['c', 'o', 'n', 's', 't', 'r', 'a', 'i', 'n']
    };
    assert(r@ =~= constraint_keywords()[k as int]);
    r
}

/// Executable [`call_args_contain`].
pub(crate) fn call_args_contain_exec(b: &Vec<char>, after: usize, id: &Vec<char>, need_bound: bool) -> (r: bool)
    requires
        id@.len() > 0,
    ensures
        r == call_args_contain(b@, after as int, id@, need_bound),
{
    let p = skip_ws_exec(b, after);
    if p >= b.len() || b[p] != '(' {
        return false;
    }
    match close_scan_exec(b, '(', ')', p + 1, 1) {
        None => false,
        Some(c) => {
            proof {
                lemma_close_scan_bounds(b@, '(', ')', p + 1, 1);
            }
            let args = slice_of(b, p + 1, c);
            if !contains_token_exec(&args, id) {
                return false;
            }
            if !need_bound {
                return true;
            }
            let lt = single('<');
            let gt = single('>');
            find_from_exec(&args, &lt, 0).is_some() || find_from_exec(&args, &gt, 0).is_some()
        },
    }
}

/// Executable [`kw_use_from`] from index 0.
pub(crate) fn kw_use_exec(b: &Vec<char>, kw: &Vec<char>, id: &Vec<char>, need_bound: bool) -> (r: bool)
    requires
        id@.len() > 0,
        kw@.len() > 0,
    ensures
        r == kw_use_from(b@, kw@, id@, need_bound, 0),
{
    let mut search_from: usize = 0;
    loop
        invariant
            id@.len() > 0,
            kw@.len() > 0,
            kw_use_from(b@, kw@, id@, need_bound, 0) == kw_use_from(b@, kw@, id@, need_bound, search_from as int),
        decreases b@.len() + 1 - search_from,
    {
        match find_from_exec(b, kw, search_from) {
            None => return false,
            Some(idx) => {
                proof {
                    lemma_find_from(b@, kw@, search_from as int);
                    assert(matches_at(b@, kw@, idx as int));
                    assert(idx + kw@.len() <= b.len());
                }
                let after_kw = idx + kw.len();
                let boundary_ok = idx == 0 || !ident_char(b[idx - 1]);
                if boundary_ok && call_args_contain_exec(b, after_kw, id, need_bound) {
                    return true;
                }
                search_from = after_kw;
            },
        }
    }
}

/// Executable [`direct_use_spec`].
pub(crate) fn direct_use_in_constraint(b: &Vec<char>, id: &Vec<char>) -> (r: bool)
    requires
        id@.len() > 0,
    ensures
        r == direct_use_spec(b@, id@),
{
    let mut k: usize = 0;
    while k < 3
        invariant
            k <= 3,
            id@.len() > 0,
            forall|j: int| 0 <= j < k ==> !kw_use_from(b@, #[trigger] constraint_keywords()[j], id@, false, 0),
        decreases 3 - k,
    {
        let kw = keyword_vec(k);
        if kw_use_exec(b, &kw, id, false) {
            return true;
        }
        k += 1;
    }
    false
}

/// Executable [`let_binding_refs`].
fn let_binding_refs_exec(stmt: &Vec<char>, id: &Vec<char>) -> (r: Vec<Vec<char>>)
    requires
        id@.len() > 0,
    ensures
        r@.map_values(|v: Vec<char>| v@) == let_binding_refs(stmt@, id@),
{
    let mut out: Vec<Vec<char>> = Vec::new();
    let eqv = single('=');
    match find_from_exec(stmt, &eqv, 0) {
        None => {
            assert(out@.map_values(|v: Vec<char>| v@) =~= Seq::<Seq<char>>::empty());
            out
        },
        Some(eq) => {
            proof {
                lemma_find_from(stmt@, seq!['='], 0);
                assert(matches_at(stmt@, seq!['='], eq as int));
                assert(eq + 1 <= stmt.len());
            }
            let head = slice_of(stmt, 0, eq);
            let name_part = trim_exec(&head);
            let name = binding_name_exec(&name_part);
            let rhs = slice_of(stmt, eq + 1, stmt.len());
            if name.len() > 0 && contains_token_exec(&rhs, id) {
                let ghost nv = name@;
                out.push(name);
                assert(out@.map_values(|v: Vec<char>| v@) =~= seq![nv]);
            } else {
                assert(out@.map_values(|v: Vec<char>| v@) =~= Seq::<Seq<char>>::empty());
            }
            out
        },
    }
}

/// Executable [`lets_from`] from index 0.
fn lets_referencing(b: &Vec<char>, id: &Vec<char>) -> (r: Vec<Vec<char>>)
    requires
        id@.len() > 0,
    ensures
        r@.map_values(|v: Vec<char>| v@) == lets_from(b@, id@, 0),
{
    let lp = let_vec();
    let semi = single(';');
    let mut out: Vec<Vec<char>> = Vec::new();
    let mut search_from: usize = 0;
    assert(out@.map_values(|v: Vec<char>| v@) =~= Seq::<Seq<char>>::empty());
    assert(Seq::<Seq<char>>::empty() + lets_from(b@, id@, 0) =~= lets_from(b@, id@, 0));
    loop
        invariant
            id@.len() > 0,
            lp@ == let_pat(),
            semi@ == seq![';'],
            search_from <= b@.len(),
            out@.map_values(|v: Vec<char>| v@) + lets_from(b@, id@, search_from as int) == lets_from(b@, id@, 0),
        decreases b@.len() - search_from,
    {
        let ghost prev = out@.map_values(|v: Vec<char>| v@);
        let idx = match find_from_exec(b, &lp, search_from) {
            None => {
                assert(prev + Seq::<Seq<char>>::empty() =~= prev);
                return out;
            },
            Some(idx) => idx,
        };
        proof {
            lemma_find_from(b@, let_pat(), search_from as int);
            assert(matches_at(b@, let_pat(), idx as int));
            assert(idx + 4 <= b.len());
            lemma_find_from(b@, seq![';'], idx + 4);
        }
        let boundary_ok = idx == 0 || !ident_char(b[idx - 1]);
        if !boundary_ok {
            search_from = idx + 4;
            continue;
        }
        let end = match find_from_exec(b, &semi, idx + 4) {
            Some(k) => k,
            None => b.len(),
        };
        let stmt = slice_of(b, idx + 4, end);
        let mut refs = let_binding_refs_exec(&stmt, id);
        let ghost rv = refs@.map_values(|v: Vec<char>| v@);
        out.append(&mut refs);
        assert(out@.map_values(|v: Vec<char>| v@) =~= prev + rv);
        assert(prev + rv + lets_from(b@, id@, end as int) =~= prev + (rv + lets_from(b@, id@, end as int)));
        search_from = end;
    }
}

/// Executable [`ident_in_constraint`] over character sequences.
pub fn ident_in_constraint_chars(b: &Vec<char>, id: &Vec<char>) -> (r: bool)
    ensures
        r == ident_in_constraint(b@, id@),
{
    if id.len() == 0 {
        return false;
    }
    if direct_use_in_constraint(b, id) {
        return true;
    }
    let names = lets_referencing(b, id);
    let ghost nv = names@.map_values(|v: Vec<char>| v@);
    proof {
        lemma_lets_from_nonempty(b@, id@, 0);
    }
    let mut k: usize = 0;
    while k < names.len()
        invariant
            k <= names@.len(),
            id@.len() > 0,
            nv == names@.map_values(|v: Vec<char>| v@),
            nv == lets_from(b@, id@, 0),
            forall|j: int| 0 <= j < nv.len() ==> (#[trigger] nv[j]).len() > 0,
            forall|j: int| 0 <= j < k ==> !direct_use_spec(b@, #[trigger] nv[j]),
        decreases names@.len() - k,
    {
        assert(nv[k as int] == names@[k as int]@);
        if direct_use_in_constraint(b, &names[k]) {
            assert(direct_use_spec(b@, lets_from(b@, id@, 0)[k as int]));
            return true;
        }
        k += 1;
    }
    false
}

/// Every name `lets_from` reports is non-empty.
pub proof fn lemma_lets_from_nonempty(b: Seq<char>, id: Seq<char>, from: int)
    ensures
        forall|k: int| 0 <= k < lets_from(b, id, from).len() ==> (#[trigger] lets_from(b, id, from)[k]).len() > 0,
    decreases b.len() - from,
{
    if from >= 0 {
        match find_from(b, let_pat(), from) {
            None => {},
            Some(idx) => {
                lemma_find_from(b, let_pat(), from);
                lemma_find_from(b, seq![';'], idx + 4);
                if !boundary_before(b, idx) {
                    lemma_lets_from_nonempty(b, id, idx + 4);
                    assert(lets_from(b, id, from) == lets_from(b, id, idx + 4));
                } else {
                    let end = let_stmt_end(b, idx + 4);
                    lemma_lets_from_nonempty(b, id, end);
                    let head = let_binding_refs(b.subrange(idx + 4, end), id);
                    let tail = lets_from(b, id, end);
                    assert(lets_from(b, id, from) == head + tail);
                    assert(forall|k: int| 0 <= k < head.len() ==> (#[trigger] head[k]).len() > 0);
                    assert forall|k: int| 0 <= k < (head + tail).len() implies (#[trigger] (head + tail)[k]).len() > 0 by {
                        if k >= head.len() {
                            assert((head + tail)[k] == tail[k - head.len()]);
                        }
                    }
                    assert forall|k: int| 0 <= k < lets_from(b, id, from).len() implies (#[trigger] lets_from(b, id, from)[k]).len() > 0 by {
                        assert(lets_from(b, id, from)[k] == (head + tail)[k]);
                    }
                }
            },
        }
    }
}

/// Whether `identifier` appears in a constraint-relevant expression in
/// `body`: as a token inside the arguments of `assert`, `assert_eq` or
/// `constrain`, or as a token on the right-hand side of a
/// `let <other> = ...;` whose `<other>` then appears that way. A textual
/// co-occurrence check, not dataflow; an empty identifier never appears.
pub fn identifier_appears_in_constraint(body: &str, identifier: &str) -> (r: bool)
    ensures
        r == ident_in_constraint(body@, identifier@),
{
    let b = chars_of(body);
    let id = chars_of(identifier);
    ident_in_constraint_chars(&b, &id)
}

/// The file line of line `rel` of an entry point's body, whose first line
/// is the file's line `body_start_line` (wrapping past `u32::MAX`).
pub open spec fn absolute_line(body_start_line: u32, rel: u32) -> u32 {
    (body_start_line + if rel >= 1 {
        rel - 1
    } else {
        0
    }) as u32
}

/// Executable [`absolute_line`].
pub fn body_line_to_file_line(body_start_line: u32, rel: u32) -> (r: u32)
    ensures
        r == absolute_line(body_start_line, rel),
{
    let wide: u64 = body_start_line as u64 + if rel >= 1 {
        rel as u64 - 1
    } else {
        0
    };
    #[verifier::truncate]
    (wide as u32)
}

} // verus!
