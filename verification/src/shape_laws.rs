//! The rules on the shapes they document: for every identifier, the
//! vulnerable shape of `NOIR-PUBLIC-001` and of `NOIR-CONSTRAINT-001` is
//! flagged exactly once and the safe shape is not flagged.

use vstd::prelude::*;

use crate::finding::FindingView;
use crate::finding_laws::lemma_count_char_none;
use crate::heuristics::{
    binding_name, boundary_before, call_args, call_args_contain, constraint_keywords,
    direct_use_spec, entries_from, entry_at, entry_points_spec, fn_main_pat, ident_in_constraint,
    is_close_bracket, is_open_bracket, kw_use_from, let_pat, mut_pat, param_of,
    params_of_segments, pub_space_pat, public_params_spec, split_scan, split_segments, EntrySpec,
    ParamSpec,
};
use crate::patterns::{bool_let_at, bool_lets_upto, has_comparison, let_starts_at, let_stmt, let_text_end, BoolLetSpec};
use crate::rules::noir_constraint_001;
use crate::rules::noir_public_001::{entries_findings, entry_findings, param_finding, public_findings};
use crate::text::{
    before_char, close_scan, contains, contains_token, count_char, find_from, is_ws, line_at,
    matches_at, matching_close, skip_ws, skip_ws_back, starts_with, strip_all_prefix, token_at,
    trim, trim_end, trim_start,
};

verus! {

// ---------------------------------------------------------------------------
// Scanning over stretches that hold nothing the scan stops at
// ---------------------------------------------------------------------------

/// The first match at or after `from` is at `k`.
pub proof fn lemma_find_first(s: Seq<char>, p: Seq<char>, from: int, k: int)
    requires
        0 <= from <= k,
        matches_at(s, p, k),
        forall|i: int| from <= i < k ==> !matches_at(s, p, i),
    ensures
        find_from(s, p, from) == Some(k),
    decreases k - from,
{
    if from < k {
        assert(!matches_at(s, p, from));
        lemma_find_first(s, p, from + 1, k);
    }
}

/// No match at or after `from`.
pub proof fn lemma_find_none(s: Seq<char>, p: Seq<char>, from: int)
    requires
        0 <= from,
        forall|i: int| from <= i ==> !#[trigger] matches_at(s, p, i),
    ensures
        find_from(s, p, from) is None,
    decreases s.len() - from,
{
    if from + p.len() <= s.len() {
        assert(!matches_at(s, p, from));
        lemma_find_none(s, p, from + 1);
    }
}

/// A single-character pattern matches exactly where that character is.
pub proof fn lemma_matches_char(s: Seq<char>, c: char, i: int)
    ensures
        matches_at(s, seq![c], i) <==> (0 <= i < s.len() && s[i] == c),
{
    if 0 <= i < s.len() && s[i] == c {
        assert forall|k: int| 0 <= k < 1 implies s[i + k] == #[trigger] seq![c][k] by {}
    }
    if matches_at(s, seq![c], i) {
        assert(s[i + 0] == seq![c][0]);
    }
}

/// The first `c` at or after `from` is at `k`.
pub proof fn lemma_find_char(s: Seq<char>, c: char, from: int, k: int)
    requires
        0 <= from <= k < s.len(),
        s[k] == c,
        forall|i: int| from <= i < k ==> s[i] != c,
    ensures
        find_from(s, seq![c], from) == Some(k),
{
    lemma_matches_char(s, c, k);
    assert forall|i: int| from <= i < k implies !matches_at(s, seq![c], i) by {
        lemma_matches_char(s, c, i);
    }
    lemma_find_first(s, seq![c], from, k);
}

/// Bracket scanning passes over a stretch with neither bracket.
pub proof fn lemma_close_scan_skip(s: Seq<char>, open: char, close: char, a: int, b: int, depth: int)
    requires
        0 <= a <= b <= s.len(),
        forall|i: int| a <= i < b ==> s[i] != open && s[i] != close,
    ensures
        close_scan(s, open, close, a, depth) == close_scan(s, open, close, b, depth),
    decreases b - a,
{
    if a < b {
        lemma_close_scan_skip(s, open, close, a + 1, b, depth);
    }
}

/// Comma splitting passes over a stretch with no bracket and no comma.
pub proof fn lemma_split_scan_skip(s: Seq<char>, hi: int, a: int, b: int, depth: int, start: int)
    requires
        0 <= a <= b <= hi <= s.len(),
        forall|i: int| a <= i < b ==> !is_open_bracket(s[i]) && !is_close_bracket(s[i]) && s[i] != ',',
    ensures
        split_scan(s, hi, a, depth, start) == split_scan(s, hi, b, depth, start),
    decreases b - a,
{
    if a < b {
        lemma_split_scan_skip(s, hi, a + 1, b, depth, start);
    }
}

/// Trimming leaves alone a text that starts and ends with non-whitespace.
pub proof fn lemma_trim_same(s: Seq<char>)
    requires
        s.len() > 0,
        !is_ws(s[0]),
        !is_ws(s[s.len() - 1]),
    ensures
        trim(s) == s,
        trim_start(s) == s,
{
    assert(skip_ws(s, 0) == 0);
    assert(trim_start(s) =~= s);
    assert(skip_ws_back(s, 0, s.len() as int) == s.len());
    assert(trim_end(s) =~= s);
}

// ---------------------------------------------------------------------------
// Identifiers
// ---------------------------------------------------------------------------

pub open spec fn is_lower_ident_char(c: char) -> bool {
    ('a' <= c && c <= 'z') || ('0' <= c && c <= '9') || c == '_'
}

/// A lower-case identifier: a letter `a`-`z`, then letters `a`-`z`,
/// digits and `_`.
pub open spec fn is_lower_ident(n: Seq<char>) -> bool {
    &&& n.len() > 0
    &&& 'a' <= n[0] && n[0] <= 'z'
    &&& forall|k: int| 0 <= k < n.len() ==> is_lower_ident_char(#[trigger] n[k])
}

/// The name of a `name: Type` fragment whose name is an identifier.
proof fn lemma_binding_name_ident(n: Seq<char>, rest: Seq<char>)
    requires
        is_lower_ident(n),
        rest.len() > 0,
        rest[0] == ':',
    ensures
        binding_name(n + rest) == n,
{
    let u = n + rest;
    assert(u[n.len() as int] == ':');
    lemma_find_char(u, ':', 0, n.len() as int);
    assert(before_char(u, ':') =~= n);
    lemma_trim_same(n);
    assert(!starts_with(n, mut_pat())) by {
        if starts_with(n, mut_pat()) {
            assert(n[3] == mut_pat()[3]);
        }
    }
    assert(strip_all_prefix(n, mut_pat()) == n);
}

// ---------------------------------------------------------------------------
// NOIR-PUBLIC-001 shapes
// ---------------------------------------------------------------------------

/// `fn main(secret: Field, pub <n>: Field) {<body>}` and a final newline.
pub open spec fn public_shape(n: Seq<char>, body: Seq<char>) -> Seq<char> {
    "fn main(secret: Field, pub "@ + n + ": Field) {"@ + body + "}\n"@
}

/// The only entry point of a [`public_shape`] whose body holds no brace.
proof fn lemma_public_shape_entry(n: Seq<char>, body: Seq<char>)
    requires
        is_lower_ident(n),
        forall|i: int| 0 <= i < body.len() ==> body[i] != '{' && body[i] != '}',
    ensures
        entry_points_spec(public_shape(n, body)) == seq![
            EntrySpec {
                signature_line: 1,
                signature_text: "fn main(secret: Field, pub "@ + n + ": Field) "@,
                body,
                body_start_line: 1,
                public_params: seq![
                    ParamSpec { name: n, line: 1, declaration_text: "pub "@ + n + ": Field"@ },
                ],
            },
        ],
{
    reveal_strlit("fn main(secret: Field, pub ");
    reveal_strlit(": Field) {");
    reveal_strlit("}\n");
    reveal_strlit(": Field) ");
    reveal_strlit("pub ");
    reveal_strlit(": Field");
    let h = "fn main(secret: Field, pub "@;
    let m = ": Field) {"@;
    let s = public_shape(n, body);
    let l = n.len() as int;
    assert(h.len() == 27);
    assert(m.len() == 10);
    let o = 27 + l + 9;
    let c = 27 + l + 10 + body.len();
    assert(s.len() == c + 2);
    assert(forall|i: int| 0 <= i < 27 ==> s[i] == h[i]);
    assert(forall|i: int| 0 <= i < l ==> s[27 + i] == n[i]);
    assert(forall|i: int| 0 <= i < 10 ==> s[27 + l + i] == m[i]);
    assert(forall|i: int| 0 <= i < body.len() ==> s[27 + l + 10 + i] == body[i]);
    assert(s[c] == '}');
    // `fn main` at the start.
    assert(matches_at(s, fn_main_pat(), 0));
    assert(find_from(s, fn_main_pat(), 0) == Some(0int));
    assert(boundary_before(s, 0));
    // Its body opens at `o` and closes at `c`.
    assert forall|i: int| 0 <= i < o implies s[i] != '{' by {
        if i < 27 {
        } else if i < 27 + l {
            assert(s[i] == n[i - 27]);
        } else {
            assert(s[i] == m[i - 27 - l]);
        }
    }
    lemma_find_char(s, '{', 0, o);
    assert forall|i: int| o + 1 <= i < c implies s[i] != '{' && s[i] != '}' by {
        assert(s[i] == body[i - 27 - l - 10]);
    }
    lemma_close_scan_skip(s, '{', '}', o + 1, c, 1);
    assert(matching_close(s, '{', '}', o) == Some(c));
    assert(find_from(s, fn_main_pat(), c + 1) is None);
    assert(entries_from(s, c + 1) == Seq::<EntrySpec>::empty());
    assert(entries_from(s, 0) == seq![entry_at(s, 0, o, c)]);
    // The entry point's lines and texts.
    lemma_count_char_none(s, '\n', o);
    assert(count_char(s, '\n', 0) == 0);
    assert(line_at(s, 0) == 1);
    assert(line_at(s, o) == 1);
    assert(s.subrange(o + 1, c) =~= body);
    let sig = s.subrange(0, o);
    assert(sig =~= "fn main(secret: Field, pub "@ + n + ": Field) "@);
    // The parameter list.
    let cp = 27 + l + 7;
    assert(sig[7] == '(');
    lemma_find_char(sig, '(', 0, 7);
    assert forall|i: int| 8 <= i < cp implies sig[i] != '(' && sig[i] != ')' by {
        if i >= 27 && i < 27 + l {
            assert(sig[i] == n[i - 27]);
        }
    }
    lemma_close_scan_skip(sig, '(', ')', 8, cp, 1);
    assert(sig[cp] == ')');
    assert(matching_close(sig, '(', ')', 7) == Some(cp));
    assert forall|i: int| 8 <= i < 21 implies !is_open_bracket(sig[i]) && !is_close_bracket(sig[i]) && sig[i] != ',' by {}
    lemma_split_scan_skip(sig, cp, 8, 21, 0, 8);
    assert forall|i: int| 22 <= i < cp implies !is_open_bracket(sig[i]) && !is_close_bracket(sig[i]) && sig[i] != ',' by {
        if i >= 27 && i < 27 + l {
            assert(sig[i] == n[i - 27]);
        }
    }
    lemma_split_scan_skip(sig, cp, 22, cp, 0, 22);
    assert(split_segments(sig, 8, cp) == seq![(8int, 21int), (22int, cp)]);
    // `secret: Field` is not public.
    let raw1 = sig.subrange(8, 21);
    lemma_trim_same(raw1);
    assert(!starts_with(raw1, pub_space_pat()));
    assert(!starts_with(raw1, crate::heuristics::pub_tab_pat()));
    assert(param_of(sig, 8, 21, 1) == Seq::<ParamSpec>::empty());
    // ` pub <n>: Field` is.
    let raw2 = sig.subrange(22, cp);
    let t = "pub "@ + n + ": Field"@;
    assert(raw2 =~= seq![' '] + t);
    assert(skip_ws(raw2, 1) == 1);
    assert(skip_ws(raw2, 0) == 1);
    lemma_trim_same(t);
    assert(trim_start(raw2) =~= t);
    assert(trim(raw2) == t);
    assert(starts_with(t, pub_space_pat()));
    let u = t.subrange(4, t.len() as int);
    assert(u =~= n + ": Field"@);
    lemma_trim_same(u);
    lemma_binding_name_ident(n, ": Field"@);
    assert(binding_name(trim_start(u)) == n);
    lemma_count_char_none(sig, '\n', 23);
    assert(param_of(sig, 22, cp, 1) == seq![ParamSpec { name: n, line: 1, declaration_text: t }]);
    let segs = seq![(8int, 21int), (22int, cp)];
    assert(segs.drop_first().drop_first() =~= Seq::<(int, int)>::empty());
    assert(params_of_segments(sig, segs.drop_first().drop_first(), 1) == Seq::<ParamSpec>::empty());
    assert(segs.drop_first() =~= seq![(22int, cp)]);
    assert(segs.drop_first()[0] == (22int, cp));
    assert(params_of_segments(sig, segs.drop_first(), 1) == param_of(sig, 22, cp, 1) + params_of_segments(
        sig,
        segs.drop_first().drop_first(),
        1,
    ));
    assert(params_of_segments(sig, segs, 1) == param_of(sig, 8, 21, 1) + params_of_segments(sig, segs.drop_first(), 1));
    assert(params_of_segments(sig, segs, 1) =~= seq![ParamSpec { name: n, line: 1, declaration_text: t }]);
    assert(public_params_spec(sig, 1) == seq![ParamSpec { name: n, line: 1, declaration_text: t }]);
}

/// The body of the safe shape: `assert(<n> == secret);`.
pub open spec fn public_safe_body(n: Seq<char>) -> Seq<char> {
    "\n    assert("@ + n + " == secret);\n"@
}

/// The body of the vulnerable shape: the public parameter is not used.
pub open spec fn public_unused_body() -> Seq<char> {
    "\n    let unused = secret * 2;\n"@
}

/// An `assert` whose arguments start with `n` constrains `n`.
proof fn lemma_safe_body_constrains(n: Seq<char>)
    requires
        is_lower_ident(n),
    ensures
        ident_in_constraint(public_safe_body(n), n),
        forall|i: int| 0 <= i < public_safe_body(n).len() ==> public_safe_body(n)[i] != '{'
            && public_safe_body(n)[i] != '}',
{
    reveal_strlit("\n    assert(");
    reveal_strlit(" == secret);\n");
    let b = public_safe_body(n);
    let e = "\n    assert("@;
    let f = " == secret);\n"@;
    let l = n.len() as int;
    assert(e.len() == 12);
    assert(f.len() == 13);
    assert(forall|i: int| 0 <= i < 12 ==> b[i] == e[i]);
    assert(forall|i: int| 0 <= i < l ==> b[12 + i] == n[i]);
    assert(forall|i: int| 0 <= i < 13 ==> b[12 + l + i] == f[i]);
    assert forall|i: int| 0 <= i < b.len() implies b[i] != '{' && b[i] != '}' by {
        if 12 <= i < 12 + l {
            assert(b[i] == n[i - 12]);
        }
    }
    let kw = constraint_keywords()[1];
    assert(kw =~= seq!['a', 's', 's', 'e', 'r', 't']);
    assert(matches_at(b, kw, 5));
    assert forall|i: int| 0 <= i < 5 implies !matches_at(b, kw, i) by {
        assert(b[i] != kw[0]);
    }
    lemma_find_first(b, kw, 0, 5);
    assert(boundary_before(b, 5));
    assert(skip_ws(b, 11) == 11);
    assert forall|i: int| 12 <= i < 22 + l implies b[i] != '(' && b[i] != ')' by {
        if i < 12 + l {
            assert(b[i] == n[i - 12]);
        }
    }
    lemma_close_scan_skip(b, '(', ')', 12, 22 + l, 1);
    assert(b[22 + l] == ')');
    assert(call_args(b, 11) == Some(b.subrange(12, 22 + l)));
    let args = b.subrange(12, 22 + l);
    assert(args[l] == ' ');
    assert(token_at(args, n, 0));
    assert(contains_token(args, n));
    assert(kw_use_from(b, kw, n, false, 0));
    assert(direct_use_spec(b, n));
}

/// No constraint keyword occurs in the unused body, so nothing reaches one.
proof fn lemma_unused_body_constrains_nothing(n: Seq<char>)
    ensures
        !ident_in_constraint(public_unused_body(), n),
        forall|i: int| 0 <= i < public_unused_body().len() ==> public_unused_body()[i] != '{'
            && public_unused_body()[i] != '}',
{
    reveal_strlit("\n    let unused = secret * 2;\n");
    let b = public_unused_body();
    assert(forall|i: int| 0 <= i < b.len() ==> b[i] != 'a' && b[i] != 'o' && b[i] != '{' && b[i] != '}');
    assert forall|k: int| 0 <= k < 3 implies find_from(b, #[trigger] constraint_keywords()[k], 0) is None by {
        let kw = constraint_keywords()[k];
        assert forall|i: int| 0 <= i implies !#[trigger] matches_at(b, kw, i) by {
            if matches_at(b, kw, i) {
                if k == 2 {
                    assert(b[i + 1] == kw[1]);
                } else {
                    assert(b[i + 0] == kw[0]);
                }
            }
        }
        lemma_find_none(b, kw, 0);
    }
    assert forall|x: Seq<char>| !direct_use_spec(b, x) by {
        assert forall|k: int| 0 <= k < 3 implies !kw_use_from(b, #[trigger] constraint_keywords()[k], x, false, 0) by {
            assert(find_from(b, constraint_keywords()[k], 0) is None);
        }
    }
}

/// `NOIR-PUBLIC-001` on the shapes it documents: for every identifier
/// `n`, a `pub n` parameter of `fn main` that an `assert` uses is not
/// flagged, and one that nothing uses is flagged exactly once, on line 1,
/// with its declaration as evidence.
pub proof fn law_public_shapes(path: Seq<char>, n: Seq<char>)
    requires
        is_lower_ident(n),
    ensures
        public_findings(path, public_shape(n, public_safe_body(n))) == Seq::<FindingView>::empty(),
        public_findings(path, public_shape(n, public_unused_body())) == seq![
            param_finding(path, ParamSpec { name: n, line: 1, declaration_text: "pub "@ + n + ": Field"@ }),
        ],
{
    let p = ParamSpec { name: n, line: 1, declaration_text: "pub "@ + n + ": Field"@ };
    lemma_safe_body_constrains(n);
    lemma_public_shape_entry(n, public_safe_body(n));
    let es = entry_points_spec(public_shape(n, public_safe_body(n)));
    assert(es[0].public_params[0] == p);
    assert(es[0].body == public_safe_body(n));
    assert(ident_in_constraint(es[0].body, es[0].public_params[0].name));
    assert(entry_findings(path, es[0], 0) =~= Seq::<FindingView>::empty());
    assert(entry_findings(path, es[0], 1) =~= Seq::<FindingView>::empty());
    assert(es[0].public_params.len() == 1);
    assert(entries_findings(path, es, 0) =~= Seq::<FindingView>::empty());
    assert(entries_findings(path, es, 1) =~= Seq::<FindingView>::empty());
    assert(es.len() == 1);
    lemma_unused_body_constrains_nothing(n);
    lemma_public_shape_entry(n, public_unused_body());
    let vs = entry_points_spec(public_shape(n, public_unused_body()));
    assert(vs[0].public_params[0] == p);
    assert(vs[0].body == public_unused_body());
    assert(!ident_in_constraint(vs[0].body, vs[0].public_params[0].name));
    assert(entry_findings(path, vs[0], 0) =~= Seq::<FindingView>::empty());
    assert(entry_findings(path, vs[0], 1) =~= seq![param_finding(path, p)]);
    assert(vs[0].public_params.len() == 1);
    assert(entries_findings(path, vs, 0) =~= Seq::<FindingView>::empty());
    assert(entries_findings(path, vs, 1) =~= seq![param_finding(path, p)]);
    assert(vs.len() == 1);
}

// ---------------------------------------------------------------------------
// Keyword calls
// ---------------------------------------------------------------------------

/// Every later character of `kw` differs from its first, so two
/// occurrences of `kw` never overlap.
pub open spec fn first_char_unique(kw: Seq<char>) -> bool {
    forall|d: int| 0 < d < kw.len() ==> #[trigger] kw[d] != kw[0]
}

/// A qualifying keyword call at `j` is found by a search from any earlier
/// `from`: the search only skips whole non-overlapping occurrences.
proof fn lemma_kw_use_reaches(b: Seq<char>, kw: Seq<char>, id: Seq<char>, nb: bool, from: int, j: int)
    requires
        0 <= from <= j,
        kw.len() > 0,
        first_char_unique(kw),
        matches_at(b, kw, j),
        boundary_before(b, j),
        call_args_contain(b, j + kw.len(), id, nb),
    ensures
        kw_use_from(b, kw, id, nb, from),
    decreases j - from,
{
    crate::text::lemma_find_from(b, kw, from);
    let idx = find_from(b, kw, from)->0;
    if idx != j {
        assert(idx < j);
        if j < idx + kw.len() {
            assert(b[j] == kw[0]);
            assert(b[idx + (j - idx)] == kw[j - idx]);
        }
        if !(boundary_before(b, idx) && call_args_contain(b, idx + kw.len(), id, nb)) {
            lemma_kw_use_reaches(b, kw, id, nb, idx + kw.len(), j);
        }
    }
}

/// In a text with no `(`, no keyword is ever called.
proof fn lemma_no_calls(b: Seq<char>, kw: Seq<char>, id: Seq<char>, nb: bool, from: int)
    requires
        forall|i: int| 0 <= i < b.len() ==> b[i] != '(',
    ensures
        !kw_use_from(b, kw, id, nb, from),
    decreases b.len() - from,
{
    if from >= 0 && kw.len() > 0 {
        crate::text::lemma_find_from(b, kw, from);
        match find_from(b, kw, from) {
            None => {},
            Some(idx) => {
                crate::text::lemma_skip_ws_bounds(b, idx + kw.len());
                assert(call_args(b, idx + kw.len()) is None);
                lemma_no_calls(b, kw, id, nb, idx + kw.len());
            },
        }
    }
}

// ---------------------------------------------------------------------------
// NOIR-CONSTRAINT-001 shapes
// ---------------------------------------------------------------------------

/// `fn main(a: Field, b: Field) {<body>}` and a final newline.
pub open spec fn constraint_shape(body: Seq<char>) -> Seq<char> {
    "fn main(a: Field, b: Field) {"@ + body + "}\n"@
}

/// The body of both shapes starts by binding `n` to a comparison.
pub open spec fn binding_body(n: Seq<char>, tail: Seq<char>) -> Seq<char> {
    "\n    let "@ + n + " = a == b;"@ + tail
}

/// The safe shape's tail asserts the binding.
pub open spec fn asserted_tail(n: Seq<char>) -> Seq<char> {
    "\n    assert("@ + n + ");\n"@
}

/// The only entry point of a [`constraint_shape`] whose body holds no brace.
proof fn lemma_constraint_shape_entry(body: Seq<char>)
    requires
        forall|i: int| 0 <= i < body.len() ==> body[i] != '{' && body[i] != '}',
    ensures
        entry_points_spec(constraint_shape(body)).len() == 1,
        entry_points_spec(constraint_shape(body))[0].body == body,
        entry_points_spec(constraint_shape(body))[0].body_start_line == 1,
{
    reveal_strlit("fn main(a: Field, b: Field) {");
    reveal_strlit("}\n");
    let h = "fn main(a: Field, b: Field) {"@;
    let s = constraint_shape(body);
    assert(h.len() == 29);
    let o = 28int;
    let c = 29 + body.len() as int;
    assert(s.len() == c + 2);
    assert(forall|i: int| 0 <= i < 29 ==> s[i] == h[i]);
    assert(forall|i: int| 0 <= i < body.len() ==> s[29 + i] == body[i]);
    assert(s[c] == '}');
    assert(matches_at(s, fn_main_pat(), 0));
    assert(find_from(s, fn_main_pat(), 0) == Some(0int));
    lemma_find_char(s, '{', 0, o);
    assert forall|i: int| o + 1 <= i < c implies s[i] != '{' && s[i] != '}' by {
        assert(s[i] == body[i - 29]);
    }
    lemma_close_scan_skip(s, '{', '}', o + 1, c, 1);
    assert(matching_close(s, '{', '}', o) == Some(c));
    assert(find_from(s, fn_main_pat(), c + 1) is None);
    assert(entries_from(s, c + 1) == Seq::<EntrySpec>::empty());
    assert(entries_from(s, 0) == seq![entry_at(s, 0, o, c)]);
    lemma_count_char_none(s, '\n', o);
    assert(s.subrange(o + 1, c) =~= body);
}

/// The boolean bindings of a [`binding_body`] whose tail starts no `let `
/// statement and has its first `;` nowhere: the one binding of `n`.
proof fn lemma_binding_body_lets(n: Seq<char>, tail: Seq<char>)
    requires
        is_lower_ident(n),
        forall|j: int| !#[trigger] matches_at(tail, let_pat(), j),
    ensures
        bool_lets_upto(binding_body(n, tail), binding_body(n, tail).len() as int) == seq![
            BoolLetSpec { name: n, line: 2, statement_text: "let "@ + n + " = a == b;"@ },
        ],
{
    reveal_strlit("\n    let ");
    reveal_strlit(" = a == b;");
    reveal_strlit("let ");
    let e = "\n    let "@;
    let f = " = a == b;"@;
    let b = binding_body(n, tail);
    let l = n.len() as int;
    assert(e.len() == 9);
    assert(f.len() == 10);
    assert(forall|i: int| 0 <= i < 9 ==> b[i] == e[i]);
    assert(forall|i: int| 0 <= i < l ==> b[9 + i] == n[i]);
    assert(forall|i: int| 0 <= i < 10 ==> b[9 + l + i] == f[i]);
    assert(forall|i: int| 0 <= i < tail.len() ==> b[19 + l + i] == tail[i]);
    assert(b.len() == 19 + l + tail.len());
    // Only the statement at 5 is a boolean binding.
    assert forall|i: int| 0 <= i < b.len() && i != 5 implies #[trigger] bool_let_at(b, i) == Seq::<BoolLetSpec>::empty() by {
        if let_starts_at(b, i) {
            let lp = let_pat();
            assert(b[i] == lp[0] && b[i + 1] == lp[1] && b[i + 2] == lp[2] && b[i + 3] == lp[3]);
            if i >= 19 + l {
                assert forall|k: int| 0 <= k < 4 implies tail[i - 19 - l + k] == #[trigger] lp[k] by {
                    assert(b[i + k] == tail[i - 19 - l + k]);
                }
                assert(matches_at(tail, lp, i - 19 - l));
            } else if i >= 9 + l {
                assert(b[i] == f[i - 9 - l]);
            } else if i >= 9 {
                // Inside `n` only the last three characters can be `let`,
                // followed by the space of ` = a == b;`; then `n` is `let`
                // itself and that statement binds no name.
                if i + 3 < 9 + l {
                    assert(b[i + 3] == n[i + 3 - 9]);
                }
                assert(i + 3 >= 9 + l);
                if i + 3 > 9 + l {
                    assert(b[i + 3] == f[i + 3 - 9 - l]);
                }
                assert(i == 6 + l);
                if l > 3 {
                    assert(b[i - 1] == n[i - 1 - 9]);
                }
                assert(l == 3);
                let semi = 9 + l + 9;
                assert(b[semi] == ';');
                assert forall|k: int| i + 4 <= k < semi implies b[k] != ';' by {
                    assert(b[k] == f[k - 9 - l]);
                }
                lemma_find_char(b, ';', i + 4, semi);
                let stmt = let_stmt(b, i);
                assert(stmt =~= b.subrange(i + 4, semi));
                assert(stmt[0] == '=');
                lemma_find_char(stmt, '=', 0, 0);
                assert(stmt.subrange(0, 0) =~= Seq::<char>::empty());
                assert(trim(Seq::<char>::empty()) =~= Seq::<char>::empty());
                assert(before_char(Seq::<char>::empty(), ':') =~= Seq::<char>::empty());
                assert(strip_all_prefix(Seq::<char>::empty(), mut_pat()) =~= Seq::<char>::empty());
                assert(binding_name(Seq::<char>::empty()).len() == 0);
            } else {
                assert(b[i] == e[i]);
            }
        }
    }
    // The statement at 5.
    assert(let_starts_at(b, 5));
    let semi = 9 + l + 9;
    assert(b[semi] == ';');
    assert forall|k: int| 9 <= k < semi implies b[k] != ';' by {
        if k < 9 + l {
            assert(b[k] == n[k - 9]);
        } else {
            assert(b[k] == f[k - 9 - l]);
        }
    }
    lemma_find_char(b, ';', 9, semi);
    let stmt = let_stmt(b, 5);
    assert(stmt =~= n + " = a =="@ + seq![' ', 'b']) by {
        reveal_strlit(" = a ==");
    }
    assert(stmt[l + 1] == '=');
    assert forall|k: int| 0 <= k < l + 1 implies stmt[k] != '=' by {
        if k < l {
            assert(stmt[k] == n[k]);
        }
    }
    lemma_find_char(stmt, '=', 0, l + 1);
    let head = stmt.subrange(0, l + 1);
    assert(head =~= n.push(' '));
    assert(skip_ws(head, 0) == 0);
    assert(skip_ws_back(head, 0, l + 1) == l) by {
        assert(skip_ws_back(head, 0, l) == l);
    }
    assert(trim_start(head) =~= head);
    assert(trim_end(head) =~= n);
    assert(trim(head) =~= n);
    assert forall|k: int| 0 <= k < n.len() implies n[k] != ':' by {}
    assert(find_from(n, seq![':'], 0) is None) by {
        assert forall|i: int| 0 <= i implies !#[trigger] matches_at(n, seq![':'], i) by {
            lemma_matches_char(n, ':', i);
        }
        lemma_find_none(n, seq![':'], 0);
    }
    assert(before_char(n, ':') == n);
    lemma_trim_same(n);
    assert(!starts_with(n, mut_pat())) by {
        if starts_with(n, mut_pat()) {
            assert(n[3] == mut_pat()[3]);
        }
    }
    assert(binding_name(trim(head)) == n);
    let rhs = stmt.subrange(l + 2, stmt.len() as int);
    assert(rhs[3] == '=' && rhs[4] == '=');
    assert(matches_at(rhs, seq!['=', '='], 3));
    assert(contains(rhs, seq!['=', '='])) by {
        crate::text::lemma_find_from(rhs, seq!['=', '='], 0);
        if find_from(rhs, seq!['=', '='], 0) is None {
            assert(!matches_at(rhs, seq!['=', '='], 3));
        }
    }
    assert(has_comparison(rhs));
    assert(count_char(b, '\n', 5) == 1) by {
        assert(b[0] == '\n');
        assert(count_char(b, '\n', 0) == 0);
        assert(count_char(b, '\n', 1) == 1);
        assert forall|k: int| 1 <= k < 5 implies b[k] != '\n' by {}
        lemma_count_char_tail(b, '\n', 1, 5);
    }
    assert(let_text_end(b, 5) == semi + 1);
    assert(b.subrange(5, semi + 1) =~= "let "@ + n + " = a == b;"@);
    let x = BoolLetSpec { name: n, line: 2, statement_text: "let "@ + n + " = a == b;"@ };
    assert(bool_let_at(b, 5) == seq![x]);
    lemma_lets_none(b, 0, 5);
    lemma_lets_none(b, 6, b.len() as int);
    assert(bool_lets_upto(b, 6) =~= seq![x]);
}

/// Counting past a stretch with no `c` adds nothing.
proof fn lemma_count_char_tail(s: Seq<char>, c: char, a: int, b: int)
    requires
        0 <= a <= b <= s.len(),
        forall|k: int| a <= k < b ==> s[k] != c,
    ensures
        count_char(s, c, b) == count_char(s, c, a),
    decreases b - a,
{
    if a < b {
        lemma_count_char_tail(s, c, a, b - 1);
    }
}

/// Positions that start no boolean binding add nothing.
proof fn lemma_lets_none(b: Seq<char>, a: int, k: int)
    requires
        0 <= a <= k,
        forall|i: int| a <= i < k ==> #[trigger] bool_let_at(b, i) == Seq::<BoolLetSpec>::empty(),
    ensures
        bool_lets_upto(b, k) == bool_lets_upto(b, a),
    decreases k - a,
{
    if a < k {
        lemma_lets_none(b, a, k - 1);
        assert(bool_lets_upto(b, k) =~= bool_lets_upto(b, k - 1) + bool_let_at(b, k - 1));
    }
}

/// The safe shape's tail starts no `let ` statement, holds no brace, and
/// calls `assert` on `n`.
proof fn lemma_asserted_tail(n: Seq<char>)
    requires
        is_lower_ident(n),
    ensures
        forall|j: int| !#[trigger] matches_at(asserted_tail(n), let_pat(), j),
        ident_in_constraint(binding_body(n, asserted_tail(n)), n),
        forall|i: int| 0 <= i < binding_body(n, asserted_tail(n)).len() ==> binding_body(n, asserted_tail(n))[i] != '{'
            && binding_body(n, asserted_tail(n))[i] != '}',
{
    reveal_strlit("\n    let ");
    reveal_strlit(" = a == b;");
    reveal_strlit("\n    assert(");
    reveal_strlit(");\n");
    let t = asserted_tail(n);
    let g = "\n    assert("@;
    let l = n.len() as int;
    assert(g.len() == 12);
    assert(forall|i: int| 0 <= i < 12 ==> t[i] == g[i]);
    assert(forall|i: int| 0 <= i < l ==> t[12 + i] == n[i]);
    assert(t.len() == 15 + l);
    assert forall|j: int| !#[trigger] matches_at(t, let_pat(), j) by {
        if matches_at(t, let_pat(), j) {
            assert(t[j + 3] == let_pat()[3]);
            assert(t[j] == let_pat()[0]);
            if 12 <= j + 3 < 12 + l {
                assert(t[j + 3] == n[j + 3 - 12]);
            }
        }
    }
    let b = binding_body(n, t);
    assert(b.len() == 34 + 2 * l);
    assert(forall|i: int| 0 <= i < 9 ==> b[i] == "\n    let "@[i]);
    assert(forall|i: int| 0 <= i < l ==> b[9 + i] == n[i]);
    assert(forall|i: int| 0 <= i < 10 ==> b[9 + l + i] == " = a == b;"@[i]);
    assert(forall|i: int| 0 <= i < t.len() ==> b[19 + l + i] == t[i]);
    assert forall|i: int| 0 <= i < b.len() implies b[i] != '{' && b[i] != '}' by {
        if 9 <= i < 9 + l {
            assert(b[i] == n[i - 9]);
        } else if 31 + l <= i < 31 + 2 * l {
            assert(b[i] == t[i - 19 - l]);
            assert(t[i - 19 - l] == n[i - 31 - l]);
        }
    }
    let kw = constraint_keywords()[1];
    assert(kw =~= seq!['a', 's', 's', 'e', 'r', 't']);
    let j = 24 + l;
    assert(matches_at(b, kw, j));
    assert(boundary_before(b, j));
    assert(skip_ws(b, j + 6) == j + 6);
    assert forall|i: int| 31 + l <= i < 31 + 2 * l implies b[i] != '(' && b[i] != ')' by {
        assert(b[i] == t[i - 19 - l]);
        assert(t[i - 19 - l] == n[i - 31 - l]);
    }
    lemma_close_scan_skip(b, '(', ')', 31 + l, 31 + 2 * l, 1);
    assert(b[31 + 2 * l] == ')');
    assert(call_args(b, j + 6) == Some(b.subrange(31 + l, 31 + 2 * l)));
    assert(b.subrange(31 + l, 31 + 2 * l) =~= n);
    assert(token_at(n, n, 0));
    assert(call_args_contain(b, j + 6, n, false));
    assert(first_char_unique(kw));
    lemma_kw_use_reaches(b, kw, n, false, 0, j);
    assert(direct_use_spec(b, n));
}

/// The vulnerable shape's body calls nothing, so nothing reaches a
/// constraint.
proof fn lemma_unasserted_body(n: Seq<char>)
    requires
        is_lower_ident(n),
    ensures
        forall|j: int| !#[trigger] matches_at("\n"@, let_pat(), j),
        !ident_in_constraint(binding_body(n, "\n"@), n),
        forall|i: int| 0 <= i < binding_body(n, "\n"@).len() ==> binding_body(n, "\n"@)[i] != '{'
            && binding_body(n, "\n"@)[i] != '}' && binding_body(n, "\n"@)[i] != '(',
{
    reveal_strlit("\n    let ");
    reveal_strlit(" = a == b;");
    reveal_strlit("\n");
    let b = binding_body(n, "\n"@);
    let l = n.len() as int;
    assert(b.len() == 20 + l);
    assert(forall|i: int| 0 <= i < 9 ==> b[i] == "\n    let "@[i]);
    assert(forall|i: int| 0 <= i < l ==> b[9 + i] == n[i]);
    assert(forall|i: int| 0 <= i < 10 ==> b[9 + l + i] == " = a == b;"@[i]);
    assert(b[19 + l] == '\n');
    assert forall|i: int| 0 <= i < b.len() implies b[i] != '{' && b[i] != '}' && b[i] != '(' by {
        if 9 <= i < 9 + l {
            assert(b[i] == n[i - 9]);
        }
    }
    assert forall|x: Seq<char>| !direct_use_spec(b, x) by {
        assert forall|k: int| 0 <= k < 3 implies !kw_use_from(b, #[trigger] constraint_keywords()[k], x, false, 0) by {
            lemma_no_calls(b, constraint_keywords()[k], x, false, 0);
        }
    }
}

/// `NOIR-CONSTRAINT-001` on the shapes it documents: for every identifier
/// `n`, `let n = a == b;` in `fn main` followed by `assert(n);` is not
/// flagged, and the same binding with no assert is flagged exactly once,
/// on line 2, with the statement as evidence.
pub proof fn law_constraint_shapes(path: Seq<char>, n: Seq<char>)
    requires
        is_lower_ident(n),
    ensures
        noir_constraint_001::constraint_findings(path, constraint_shape(binding_body(n, asserted_tail(n))))
            == Seq::<FindingView>::empty(),
        noir_constraint_001::constraint_findings(path, constraint_shape(binding_body(n, "\n"@))) == seq![
            crate::finding::located_finding(
                noir_constraint_001::RULE_ID@,
                noir_constraint_001::TITLE@,
                crate::severity::Severity::High,
                crate::severity::Confidence::Medium,
                path,
                2,
                "let "@ + n + " = a == b;"@,
                noir_constraint_001::WHY_IT_MATTERS@,
                noir_constraint_001::REMEDIATION@,
            ),
        ],
{
    let x = BoolLetSpec { name: n, line: 2, statement_text: "let "@ + n + " = a == b;"@ };
    // Safe.
    lemma_asserted_tail(n);
    let sb = binding_body(n, asserted_tail(n));
    lemma_binding_body_lets(n, asserted_tail(n));
    lemma_constraint_shape_entry(sb);
    let es = entry_points_spec(constraint_shape(sb));
    let e = es[0];
    assert(noir_constraint_001::entry_bindings(e) == seq![x]);
    assert(noir_constraint_001::entry_findings(path, e, 0) =~= Seq::<FindingView>::empty());
    assert(noir_constraint_001::entry_findings(path, e, 1) =~= Seq::<FindingView>::empty());
    assert(noir_constraint_001::entries_findings(path, es, 0) =~= Seq::<FindingView>::empty());
    assert(noir_constraint_001::entries_findings(path, es, 1) =~= Seq::<FindingView>::empty());
    // Vulnerable.
    lemma_unasserted_body(n);
    let vb = binding_body(n, "\n"@);
    lemma_binding_body_lets(n, "\n"@);
    lemma_constraint_shape_entry(vb);
    let vs = entry_points_spec(constraint_shape(vb));
    let v = vs[0];
    assert(noir_constraint_001::entry_bindings(v) == seq![x]);
    let fv = noir_constraint_001::binding_finding(path, v, x);
    assert(crate::heuristics::absolute_line(1, 2) == 2);
    assert(noir_constraint_001::entry_findings(path, v, 0) =~= Seq::<FindingView>::empty());
    assert(noir_constraint_001::entry_findings(path, v, 1) =~= seq![fv]);
    assert(noir_constraint_001::entries_findings(path, vs, 0) =~= Seq::<FindingView>::empty());
    assert(noir_constraint_001::entries_findings(path, vs, 1) =~= seq![fv]);
}

} // verus!
