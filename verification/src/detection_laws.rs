//! What each detector looks for, stated over the text itself: the
//! comparison operators of `NOIR-CONSTRAINT-001`, the bound a range check
//! of `NOIR-RANGE-001` needs, the domain tags of `ZK-HASH-001`, the naming
//! convention of `ZK-NULLIFIER-001` and the negative-test names of
//! `ZK-TEST-001`.

use vstd::prelude::*;

use crate::finding::{located_finding, FindingView};
use crate::heuristics::{
    absolute_line, binding_name, call_args, call_args_contain, entry_points_spec, has_bound_op,
    ident_in_constraint, kw_use_from, EntrySpec,
};
use crate::patterns::{
    assert_pat, bool_let_at, bool_lets_upto, derived_checked_at, direct_range_check, has_comparison,
    hash_call_at, hash_calls_upto, is_domain_tag, let_nullifier_at, nullifier_sites_at, nullifier_sites_upto, NullifierSpec, is_nullifier_name, lacks_tag, let_starts_at, let_stmt, let_text_end,
    max_bits_method, range_checked, range_helper_names, BoolLetSpec, HashCallSpec,
};
use crate::rules::noir_constraint_001::{self, binding_finding, entry_bindings};
use crate::rules::noir_range_001;
use crate::rules::zk_nullifier_001;
use crate::rules::zk_hash_001::{hash_findings, untagged_calls, untagged_upto};
use crate::rule::SourceView;
use crate::rules::zk_test_001::{any_negative, code_lines, source_tests, test_findings, tests_upto, fn_name_from, is_negative_name, test_at, test_attr_pat, unicode_lowercase};
use crate::severity::{Confidence, Severity};
use crate::shape_laws::{is_lower_ident, is_lower_ident_char};
use crate::text::{
    close_scan, contains, contains_token, find_from, lemma_close_scan_bounds, lemma_find_from,
    lemma_skip_ws_bounds, line_at, matches_at, skip_ws, token_at, trim,
};

verus! {

// ---------------------------------------------------------------------------
// Occurrences
// ---------------------------------------------------------------------------

/// `p` occurs somewhere in `s`.
pub open spec fn occurs(s: Seq<char>, p: Seq<char>) -> bool {
    exists|i: int| #[trigger] matches_at(s, p, i)
}

/// Searching finds `p` exactly when it occurs.
pub proof fn lemma_contains_occurs(s: Seq<char>, p: Seq<char>)
    ensures
        contains(s, p) <==> occurs(s, p),
{
    lemma_find_from(s, p, 0);
    if occurs(s, p) {
        let i = choose|i: int| #[trigger] matches_at(s, p, i);
        assert(matches_at(s, p, i));
    }
}

/// `p` occurs in `x + p + y`.
pub proof fn lemma_occurs_between(x: Seq<char>, p: Seq<char>, y: Seq<char>)
    ensures
        occurs(x + p + y, p),
        contains(x + p + y, p),
{
    let s = x + p + y;
    assert forall|k: int| 0 <= k < p.len() implies s[x.len() + k] == #[trigger] p[k] by {}
    assert(matches_at(s, p, x.len() as int));
    lemma_contains_occurs(s, p);
}

// ---------------------------------------------------------------------------
// NOIR-CONSTRAINT-001: comparisons
// ---------------------------------------------------------------------------

/// The six comparison operators.
pub open spec fn comparison_operators() -> Seq<Seq<char>> {
    seq![
        seq!['=', '='],
        seq!['!', '='],
        seq!['<'],
        seq!['<', '='],
        seq!['>'],
        seq!['>', '='],
    ]
}

/// No character of `s` starts a comparison operator: no `<`, no `>`, and
/// no `=` right after `=` or `!`.
pub open spec fn comparison_free(s: Seq<char>) -> bool {
    forall|i: int|
        0 <= i < s.len() ==> #[trigger] s[i] != '<' && s[i] != '>' && ((s[i] == '=' || s[i] == '!') ==> (i + 1
            >= s.len() || s[i + 1] != '='))
}

/// A right-hand side is a comparison when it holds any of the six
/// comparison operators `==`, `!=`, `<`, `<=`, `>`, `>=`, whatever
/// surrounds it; text with no `<`, no `>` and no `=` right after `=` or
/// `!` is no comparison.
pub proof fn law_comparison_operators(x: Seq<char>, y: Seq<char>, s: Seq<char>)
    ensures
        forall|k: int| 0 <= k < 6 ==> has_comparison(x + #[trigger] comparison_operators()[k] + y),
        comparison_free(s) ==> !has_comparison(s),
{
    assert forall|k: int| 0 <= k < 6 implies has_comparison(x + #[trigger] comparison_operators()[k] + y) by {
        let op = comparison_operators()[k];
        let t = x + op + y;
        lemma_occurs_between(x, op, y);
        let i = x.len() as int;
        assert(t[i] == op[0]);
        if k == 0 {
            assert(op =~= seq!['=', '=']);
        } else if k == 1 {
            assert(op =~= seq!['!', '=']);
        } else if k == 2 || k == 3 {
            assert(matches_at(t, seq!['<'], i));
            lemma_contains_occurs(t, seq!['<']);
        } else {
            assert(matches_at(t, seq!['>'], i));
            lemma_contains_occurs(t, seq!['>']);
        }
    }
    if comparison_free(s) {
        let eqeq = seq!['=', '='];
        let ne = seq!['!', '='];
        let lt = seq!['<'];
        let gt = seq!['>'];
        lemma_contains_occurs(s, eqeq);
        lemma_contains_occurs(s, ne);
        lemma_contains_occurs(s, lt);
        lemma_contains_occurs(s, gt);
        assert forall|i: int| !#[trigger] matches_at(s, eqeq, i) by {
            if matches_at(s, eqeq, i) {
                assert(s[i] == eqeq[0]);
                assert(s[i + 1] == eqeq[1]);
            }
        }
        assert forall|i: int| !#[trigger] matches_at(s, ne, i) by {
            if matches_at(s, ne, i) {
                assert(s[i] == ne[0]);
                assert(s[i + 1] == ne[1]);
            }
        }
        assert forall|i: int| !#[trigger] matches_at(s, lt, i) by {
            if matches_at(s, lt, i) {
                assert(s[i] == lt[0]);
            }
        }
        assert forall|i: int| !#[trigger] matches_at(s, gt, i) by {
            if matches_at(s, gt, i) {
                assert(s[i] == gt[0]);
            }
        }
    }
}

// ---------------------------------------------------------------------------
// ZK-NULLIFIER-001: the naming convention
// ---------------------------------------------------------------------------

/// The three fragments of the nullifier naming convention.
pub open spec fn nullifier_name_fragments() -> Seq<Seq<char>> {
    seq![
        seq!['n', 'u', 'l', 'l', 'i', 'f', 'i', 'e', 'r'],
        seq!['n', 'u', 'l', 'l', '_', 'h', 'a', 's', 'h'],
        seq!['s', 'p', 'e', 'n', 't', '_', 't', 'a', 'g'],
    ]
}

/// A name is nullifier-like exactly when `nullifier`, `null_hash` or
/// `spent_tag` occurs in it: every name that holds one of them is, and a
/// name that holds none is not.
pub proof fn law_nullifier_names(x: Seq<char>, y: Seq<char>, n: Seq<char>)
    ensures
        forall|k: int| 0 <= k < 3 ==> is_nullifier_name(x + #[trigger] nullifier_name_fragments()[k] + y),
        is_nullifier_name(n) <==> exists|k: int| 0 <= k < 3 && occurs(n, #[trigger] nullifier_name_fragments()[k]),
{
    let fs = nullifier_name_fragments();
    let ms = crate::patterns::nullifier_markers();
    assert(ms[0] =~= fs[0] && ms[1] =~= fs[1] && ms[2] =~= fs[2]);
    assert forall|k: int| 0 <= k < 3 implies is_nullifier_name(x + #[trigger] fs[k] + y) by {
        lemma_occurs_between(x, fs[k], y);
        assert(contains(x + fs[k] + y, ms[k]));
    }
    assert forall|k: int| 0 <= k < 3 implies (contains(n, #[trigger] ms[k]) <==> occurs(n, fs[k])) by {
        lemma_contains_occurs(n, ms[k]);
    }
}

// ---------------------------------------------------------------------------
// ZK-TEST-001: negative test names
// ---------------------------------------------------------------------------

/// The five markers of a negative test name.
pub open spec fn negative_name_fragments() -> Seq<Seq<char>> {
    seq![
        seq!['s', 'h', 'o', 'u', 'l', 'd', '_', 'f', 'a', 'i', 'l'],
        seq!['f', 'a', 'i', 'l'],
        seq!['i', 'n', 'v', 'a', 'l', 'i', 'd'],
        seq!['r', 'e', 'j', 'e', 'c', 't'],
        seq!['n', 'e', 'g', 'a', 't', 'i', 'v', 'e'],
    ]
}

/// A lowercased test name marks a negative test exactly when `fail`,
/// `invalid`, `reject`, `negative` or `should_fail` occurs in it; a
/// `#[test` line whose function's lowercased name holds one of them is a
/// negative test.
pub proof fn law_negative_test_names(x: Seq<char>, y: Seq<char>, lower: Seq<char>, codes: Seq<Seq<char>>, i: int)
    requires
        0 <= i < codes.len(),
    ensures
        forall|k: int| 0 <= k < 5 ==> is_negative_name(x + #[trigger] negative_name_fragments()[k] + y),
        is_negative_name(lower) <==> exists|k: int|
            0 <= k < 5 && occurs(lower, #[trigger] negative_name_fragments()[k]),
        find_from(codes[i], test_attr_pat(), 0) is Some ==> (fn_name_from(codes, i, i + 5) matches Some(n) ==> (
        (exists|k: int| 0 <= k < 5 && occurs(unicode_lowercase(n), #[trigger] negative_name_fragments()[k]))
            ==> test_at(codes, i) == seq![true])),
{
    let fs = negative_name_fragments();
    let ms = crate::rules::zk_test_001::negative_markers();
    assert(ms[0] =~= fs[0] && ms[1] =~= fs[1] && ms[2] =~= fs[2] && ms[3] =~= fs[3] && ms[4] =~= fs[4]);
    assert forall|k: int| 0 <= k < 5 implies is_negative_name(x + #[trigger] fs[k] + y) by {
        lemma_occurs_between(x, fs[k], y);
        assert(contains(x + fs[k] + y, ms[k]));
    }
    assert forall|k: int| 0 <= k < 5 implies (contains(lower, #[trigger] ms[k]) <==> occurs(lower, fs[k])) by {
        lemma_contains_occurs(lower, ms[k]);
    }
    if let Some(n) = fn_name_from(codes, i, i + 5) {
        let w = unicode_lowercase(n);
        assert forall|k: int| 0 <= k < 5 implies (contains(w, #[trigger] ms[k]) <==> occurs(w, fs[k])) by {
            lemma_contains_occurs(w, ms[k]);
        }
    }
    crate::laws::law_test_rule(Seq::<crate::rule::SourceView>::empty(), codes, i);
}

// ---------------------------------------------------------------------------
// ZK-HASH-001: domain tags
// ---------------------------------------------------------------------------

/// An `UPPER_SNAKE_CASE` name: an upper-case letter, then upper-case
/// letters, digits and `_`.
pub open spec fn upper_snake_name(a: Seq<char>) -> bool {
    &&& a.len() > 0
    &&& 'A' <= a[0] && a[0] <= 'Z'
    &&& forall|k: int|
        0 <= k < a.len() ==> ('A' <= #[trigger] a[k] && a[k] <= 'Z') || ('0' <= a[k] && a[k] <= '9') || a[k]
            == '_'
}

/// No element of the call's array is an `UPPER_SNAKE_CASE` name, at any
/// position.
pub open spec fn no_tag_element(h: HashCallSpec) -> bool {
    forall|k: int| 0 <= k < h.arguments.len() ==> !upper_snake_name(#[trigger] h.arguments[k])
}

/// A hash call lacks a domain tag exactly when no element of its array, at
/// any position, is an `UPPER_SNAKE_CASE` name.
pub proof fn law_domain_tags(h: HashCallSpec)
    ensures
        lacks_tag(h) <==> no_tag_element(h),
{
    assert forall|k: int| 0 <= k < h.arguments.len() implies (is_domain_tag(#[trigger] h.arguments[k])
        <==> upper_snake_name(h.arguments[k])) by {}
}

proof fn lemma_untagged_upto(hs: Seq<HashCallSpec>, n: int)
    requires
        0 <= n <= hs.len(),
    ensures
        forall|i: int|
            0 <= i < untagged_upto(hs, n).len() ==> no_tag_element(#[trigger] untagged_upto(hs, n)[i])
                && hs.take(n).contains(untagged_upto(hs, n)[i]),
        forall|j: int| 0 <= j < n && no_tag_element(#[trigger] hs[j]) ==> untagged_upto(hs, n).contains(hs[j]),
    decreases n,
{
    if n > 0 {
        lemma_untagged_upto(hs, n - 1);
        law_domain_tags(hs[n - 1]);
        let a = untagged_upto(hs, n - 1);
        let u = untagged_upto(hs, n);
        assert forall|i: int| 0 <= i < u.len() implies no_tag_element(#[trigger] u[i]) && hs.take(n).contains(u[i]) by {
            if i < a.len() {
                assert(u[i] == a[i]);
                let j = choose|j: int| 0 <= j < hs.take(n - 1).len() && #[trigger] hs.take(n - 1)[j] == a[i];
                assert(hs.take(n)[j] == a[i]);
            } else {
                assert(u[i] == hs[n - 1]);
                assert(hs.take(n)[n - 1] == hs[n - 1]);
            }
        }
        assert forall|j: int| 0 <= j < n && no_tag_element(#[trigger] hs[j]) implies u.contains(hs[j]) by {
            if j < n - 1 {
                let i = choose|i: int| 0 <= i < a.len() && #[trigger] a[i] == hs[j];
                assert(u[i] == a[i]);
            } else {
                assert(u[a.len() as int] == hs[n - 1]);
            }
        }
    }
}

/// `ZK-HASH-001` flags exactly the hash calls none of whose array elements
/// is an `UPPER_SNAKE_CASE` name: one finding per such call, in order, at
/// its line; every flagged call is a call of the file with no tag element
/// at any position, and every such call of the file is flagged.
pub proof fn law_tagged_hash_calls_unflagged(path: Seq<char>, src: Seq<char>)
    ensures
        hash_findings(path, src).len() == untagged_calls(src).len(),
        forall|i: int|
            0 <= i < untagged_calls(src).len() ==> (#[trigger] hash_findings(path, src)[i]).line == Some(
                untagged_calls(src)[i].line,
            ) && no_tag_element(untagged_calls(src)[i]) && hash_calls_upto(src, src.len() as int).contains(
                untagged_calls(src)[i],
            ),
        forall|j: int|
            0 <= j < hash_calls_upto(src, src.len() as int).len() && no_tag_element(
                #[trigger] hash_calls_upto(src, src.len() as int)[j],
            ) ==> untagged_calls(src).contains(hash_calls_upto(src, src.len() as int)[j]),
{
    let hs = hash_calls_upto(src, src.len() as int);
    lemma_untagged_upto(hs, hs.len() as int);
    assert(hs.take(hs.len() as int) =~= hs);
}

// ---------------------------------------------------------------------------
// NOIR-RANGE-001: a range check needs a bound
// ---------------------------------------------------------------------------

/// `range_check`.
pub open spec fn range_check_text() -> Seq<char> {
    seq!['r', 'a', 'n', 'g', 'e', '_', 'c', 'h', 'e', 'c', 'k']
}

/// `assert_max_bits`.
pub open spec fn max_bits_text() -> Seq<char> {
    seq!['a', 's', 's', 'e', 'r', 't', '_', 'm', 'a', 'x', '_', 'b', 'i', 't', 's']
}

/// `lt` (also the start of `lte`).
pub open spec fn lt_text() -> Seq<char> {
    seq!['l', 't']
}

/// No `let` statement of `b` binds `id` (the name before its first `=`).
pub open spec fn no_let_binds(b: Seq<char>, id: Seq<char>) -> bool {
    forall|i: int|
        #[trigger] let_starts_at(b, i) ==> match find_from(let_stmt(b, i), seq!['='], 0) {
            Some(eq) => binding_name(trim(let_stmt(b, i).subrange(0, eq))) != id,
            None => true,
        }
}

/// `b` holds no `<` and no `>`.
pub open spec fn no_bound_char(b: Seq<char>) -> bool {
    forall|i: int| 0 <= i < b.len() ==> #[trigger] b[i] != '<' && b[i] != '>'
}

/// A found keyword call occurs in the text, and when it needed a bound,
/// the text holds a `<` or a `>`.
proof fn lemma_kw_use_witness(b: Seq<char>, kw: Seq<char>, id: Seq<char>, nb: bool, from: int)
    requires
        kw_use_from(b, kw, id, nb, from),
    ensures
        occurs(b, kw),
        nb ==> !no_bound_char(b),
    decreases b.len() - from,
{
    lemma_find_from(b, kw, from);
    let idx = find_from(b, kw, from)->0;
    assert(matches_at(b, kw, idx));
    if crate::heuristics::boundary_before(b, idx) && call_args_contain(b, idx + kw.len(), id, nb) {
        if nb {
            let after = idx + kw.len();
            lemma_skip_ws_bounds(b, after);
            let p = skip_ws(b, after);
            lemma_close_scan_bounds(b, '(', ')', p + 1, 1);
            let c = close_scan(b, '(', ')', p + 1, 1)->0;
            let args = b.subrange(p + 1, c);
            assert(call_args(b, after) == Some(args));
            assert(has_bound_op(args));
            if contains(args, seq!['<']) {
                lemma_find_from(args, seq!['<'], 0);
                let k = find_from(args, seq!['<'], 0)->0;
                assert(args[k] == seq!['<'][0]);
                assert(b[p + 1 + k] == '<');
            } else {
                lemma_find_from(args, seq!['>'], 0);
                let k = find_from(args, seq!['>'], 0)->0;
                assert(args[k] == seq!['>'][0]);
                assert(b[p + 1 + k] == '>');
            }
        }
    } else {
        lemma_kw_use_witness(b, kw, id, nb, idx + kw.len());
    }
}

/// A range check needs a bound: in a body with no `<` and no `>`, no
/// `range_check`, `assert_max_bits` or `lt` (nor so `lte`), and no `let`
/// statement that binds `id`, `id` is not range-checked. In particular an
/// `assert(id != c)` or `assert(id == c)` is no range check of `id`.
pub proof fn law_range_check_needs_bound(b: Seq<char>, id: Seq<char>)
    requires
        no_bound_char(b),
        !occurs(b, range_check_text()),
        !occurs(b, max_bits_text()),
        !occurs(b, lt_text()),
        no_let_binds(b, id),
    ensures
        !range_checked(b, id),
{
    let hn = range_helper_names();
    assert(hn[0] =~= range_check_text());
    assert(hn[1] =~= max_bits_text());
    assert(hn[3] =~= lt_text());
    if kw_use_from(b, assert_pat(), id, true, 0) {
        lemma_kw_use_witness(b, assert_pat(), id, true, 0);
    }
    assert forall|k: int| 0 <= k < 4 implies !kw_use_from(b, #[trigger] hn[k], id, false, 0) by {
        if kw_use_from(b, hn[k], id, false, 0) {
            lemma_kw_use_witness(b, hn[k], id, false, 0);
            if k == 2 {
                let i = choose|i: int| #[trigger] matches_at(b, hn[2], i);
                assert(b[i] == hn[2][0] && b[i + 1] == hn[2][1]);
                assert(matches_at(b, lt_text(), i));
            }
        }
    }
    if contains_token(b, id + max_bits_method()) {
        let idx = choose|idx: int| token_at(b, id + max_bits_method(), idx);
        let t = id + max_bits_method();
        let o = idx + id.len() + 1;
        assert forall|k: int| 0 <= k < max_bits_text().len() implies b[o + k] == #[trigger] max_bits_text()[k] by {
            assert(b[idx + id.len() + 1 + k] == t[id.len() + 1 + k]);
        }
        assert(matches_at(b, max_bits_text(), o));
    }
    assert(!direct_range_check(b, id));
    assert forall|i: int| 0 <= i < b.len() implies !#[trigger] derived_checked_at(b, id, i) by {
        if let_starts_at(b, i) {
            assert(no_let_binds(b, id));
        }
    }
}

// ---------------------------------------------------------------------------
// NOIR-CONSTRAINT-001: every unasserted comparison binding is flagged
// ---------------------------------------------------------------------------

/// A comparison operator occurring in `s` makes it a comparison.
proof fn lemma_operator_comparison(s: Seq<char>, k: int)
    requires
        0 <= k < 6,
        occurs(s, comparison_operators()[k]),
    ensures
        has_comparison(s),
{
    let op = comparison_operators()[k];
    let p = choose|p: int| #[trigger] matches_at(s, op, p);
    assert(s[p] == op[0]);
    if k == 0 {
        assert(op =~= seq!['=', '=']);
        lemma_contains_occurs(s, op);
    } else if k == 1 {
        assert(op =~= seq!['!', '=']);
        lemma_contains_occurs(s, op);
    } else if k == 2 || k == 3 {
        assert(matches_at(s, seq!['<'], p));
        lemma_contains_occurs(s, seq!['<']);
    } else {
        assert(matches_at(s, seq!['>'], p));
        lemma_contains_occurs(s, seq!['>']);
    }
}

/// The `let` statement at `i` of `b` binds the non-empty name `n` (the text
/// before its first `=`) to a right-hand side in which one of the six
/// comparison operators occurs.
pub open spec fn comparison_let_at(b: Seq<char>, i: int, n: Seq<char>) -> bool {
    &&& let_starts_at(b, i)
    &&& n.len() > 0
    &&& match find_from(let_stmt(b, i), seq!['='], 0) {
        None => false,
        Some(eq) => {
            &&& binding_name(trim(let_stmt(b, i).subrange(0, eq))) == n
            &&& exists|k: int|
                0 <= k < 6 && occurs(
                    let_stmt(b, i).subrange(eq + 1, let_stmt(b, i).len() as int),
                    #[trigger] comparison_operators()[k],
                )
        },
    }
}

proof fn lemma_lets_contain(b: Seq<char>, i: int, n: int, x: BoolLetSpec)
    requires
        0 <= i < n,
        bool_let_at(b, i) == seq![x],
    ensures
        bool_lets_upto(b, n).contains(x),
    decreases n,
{
    if i < n - 1 {
        lemma_lets_contain(b, i, n - 1, x);
        let a = bool_lets_upto(b, n - 1);
        let j = choose|j: int| 0 <= j < a.len() && #[trigger] a[j] == x;
        assert(bool_lets_upto(b, n)[j] == a[j]);
    } else {
        let a = bool_lets_upto(b, n - 1);
        assert(bool_lets_upto(b, n)[a.len() as int] == x);
    }
}

proof fn lemma_entry_findings_contain(path: Seq<char>, e: EntrySpec, k: int, m: int)
    requires
        0 <= k < m <= entry_bindings(e).len(),
        !ident_in_constraint(e.body, entry_bindings(e)[k].name),
    ensures
        noir_constraint_001::entry_findings(path, e, m).contains(binding_finding(path, e, entry_bindings(e)[k])),
    decreases m,
{
    let f = binding_finding(path, e, entry_bindings(e)[k]);
    let a = noir_constraint_001::entry_findings(path, e, m - 1);
    if k < m - 1 {
        lemma_entry_findings_contain(path, e, k, m - 1);
        let j = choose|j: int| 0 <= j < a.len() && #[trigger] a[j] == f;
        assert(noir_constraint_001::entry_findings(path, e, m)[j] == a[j]);
    } else {
        assert(noir_constraint_001::entry_findings(path, e, m)[a.len() as int] == f);
    }
}

proof fn lemma_entries_findings_contain(path: Seq<char>, es: Seq<EntrySpec>, j: int, m: int, f: FindingView)
    requires
        0 <= j < m <= es.len(),
        noir_constraint_001::entry_findings(path, es[j], entry_bindings(es[j]).len() as int).contains(f),
    ensures
        noir_constraint_001::entries_findings(path, es, m).contains(f),
    decreases m,
{
    let a = noir_constraint_001::entries_findings(path, es, m - 1);
    if j < m - 1 {
        lemma_entries_findings_contain(path, es, j, m - 1, f);
        let t = choose|t: int| 0 <= t < a.len() && #[trigger] a[t] == f;
        assert(noir_constraint_001::entries_findings(path, es, m)[t] == a[t]);
    } else {
        let c = noir_constraint_001::entry_findings(path, es[j], entry_bindings(es[j]).len() as int);
        let t = choose|t: int| 0 <= t < c.len() && #[trigger] c[t] == f;
        assert(noir_constraint_001::entries_findings(path, es, m)[a.len() + t] == c[t]);
    }
}

/// `NOIR-CONSTRAINT-001` flags every unasserted comparison binding: when
/// the body of an entry point `fn main` of `src` holds, at `i`, a
/// `let <n> = <rhs>;` whose right-hand side holds any of `==`, `!=`, `<`,
/// `<=`, `>`, `>=`, and `n` reaches no constraint in that body, the file's
/// findings include one at the statement's line with the statement as
/// evidence.
pub proof fn law_unasserted_comparisons_flagged(path: Seq<char>, src: Seq<char>, j: int, i: int, n: Seq<char>)
    requires
        0 <= j < entry_points_spec(src).len(),
        0 <= i < entry_points_spec(src)[j].body.len(),
        comparison_let_at(entry_points_spec(src)[j].body, i, n),
        !ident_in_constraint(entry_points_spec(src)[j].body, n),
    ensures
        noir_constraint_001::constraint_findings(path, src).contains(
            located_finding(
                noir_constraint_001::RULE_ID@,
                noir_constraint_001::TITLE@,
                Severity::High,
                Confidence::Medium,
                path,
                absolute_line(
                    entry_points_spec(src)[j].body_start_line,
                    line_at(entry_points_spec(src)[j].body, i),
                ),
                entry_points_spec(src)[j].body.subrange(i, let_text_end(entry_points_spec(src)[j].body, i)),
                noir_constraint_001::WHY_IT_MATTERS@,
                noir_constraint_001::REMEDIATION@,
            ),
        ),
{
    let es = entry_points_spec(src);
    let e = es[j];
    let b = e.body;
    let stmt = let_stmt(b, i);
    let eq = find_from(stmt, seq!['='], 0)->0;
    let rhs = stmt.subrange(eq + 1, stmt.len() as int);
    let k = choose|k: int| 0 <= k < 6 && occurs(rhs, #[trigger] comparison_operators()[k]);
    lemma_operator_comparison(rhs, k);
    let x = BoolLetSpec { name: n, line: line_at(b, i), statement_text: b.subrange(i, let_text_end(b, i)) };
    assert(bool_let_at(b, i) == seq![x]);
    lemma_lets_contain(b, i, b.len() as int, x);
    let bs = entry_bindings(e);
    let t = choose|t: int| 0 <= t < bs.len() && #[trigger] bs[t] == x;
    lemma_entry_findings_contain(path, e, t, bs.len() as int);
    lemma_entries_findings_contain(path, es, j, es.len() as int, binding_finding(path, e, x));
}

// ---------------------------------------------------------------------------
// ZK-NULLIFIER-001: every unseparated nullifier-like binding is flagged
// ---------------------------------------------------------------------------

/// The `let` statement at `i` of `s` binds `n`, a name holding
/// `nullifier`, `null_hash` or `spent_tag`, to the (trimmed) expression
/// `expr`.
pub open spec fn nullifier_let(s: Seq<char>, i: int, n: Seq<char>, expr: Seq<char>) -> bool {
    &&& let_starts_at(s, i)
    &&& exists|k: int| 0 <= k < 3 && occurs(n, #[trigger] nullifier_name_fragments()[k])
    &&& match find_from(let_stmt(s, i), seq!['='], 0) {
        None => false,
        Some(eq) => {
            &&& binding_name(trim(let_stmt(s, i).subrange(0, eq))) == n
            &&& trim(let_stmt(s, i).subrange(eq + 1, let_stmt(s, i).len() as int)) == expr
        },
    }
}

proof fn lemma_sites_contain(s: Seq<char>, i: int, n: int, x: NullifierSpec)
    requires
        0 <= i < n,
        nullifier_sites_at(s, i).contains(x),
    ensures
        nullifier_sites_upto(s, n).contains(x),
    decreases n,
{
    let a = nullifier_sites_upto(s, n - 1);
    if i < n - 1 {
        lemma_sites_contain(s, i, n - 1, x);
        let j = choose|j: int| 0 <= j < a.len() && #[trigger] a[j] == x;
        assert(nullifier_sites_upto(s, n)[j] == a[j]);
    } else {
        let c = nullifier_sites_at(s, i);
        let j = choose|j: int| 0 <= j < c.len() && #[trigger] c[j] == x;
        assert(nullifier_sites_upto(s, n)[a.len() + j] == c[j]);
    }
}

proof fn lemma_site_findings_contain(path: Seq<char>, ss: Seq<NullifierSpec>, k: int, m: int, d: Seq<char>)
    requires
        0 <= k < m <= ss.len(),
        zk_nullifier_001::nullifier_detail(ss[k].expression_text) == Some(d),
    ensures
        zk_nullifier_001::sites_findings(path, ss, m).contains(
            located_finding(
                zk_nullifier_001::RULE_ID@,
                zk_nullifier_001::TITLE@,
                Severity::High,
                Confidence::Low,
                path,
                ss[k].line,
                zk_nullifier_001::nullifier_evidence(ss[k], d),
                zk_nullifier_001::WHY_IT_MATTERS@,
                zk_nullifier_001::REMEDIATION@,
            ),
        ),
    decreases m,
{
    let f = located_finding(
        zk_nullifier_001::RULE_ID@,
        zk_nullifier_001::TITLE@,
        Severity::High,
        Confidence::Low,
        path,
        ss[k].line,
        zk_nullifier_001::nullifier_evidence(ss[k], d),
        zk_nullifier_001::WHY_IT_MATTERS@,
        zk_nullifier_001::REMEDIATION@,
    );
    let a = zk_nullifier_001::sites_findings(path, ss, m - 1);
    if k < m - 1 {
        lemma_site_findings_contain(path, ss, k, m - 1, d);
        let j = choose|j: int| 0 <= j < a.len() && #[trigger] a[j] == f;
        assert(zk_nullifier_001::sites_findings(path, ss, m)[j] == a[j]);
    } else {
        assert(zk_nullifier_001::sites_findings(path, ss, m)[a.len() as int] == f);
    }
}

/// `ZK-NULLIFIER-001` flags every nullifier-like `let` with no domain
/// separation: when `src` holds, at `i`, a `let` binding a name that holds
/// `nullifier`, `null_hash` or `spent_tag` to an expression that is not a
/// hash call, or is a hash call none of whose array elements is an
/// `UPPER_SNAKE_CASE` name, the file's findings include one at that line
/// with evidence `<name> = <expr> (<why>)`.
pub proof fn law_unseparated_nullifiers_flagged(path: Seq<char>, src: Seq<char>, i: int, n: Seq<char>, expr: Seq<char>)
    requires
        0 <= i < src.len(),
        nullifier_let(src, i, n, expr),
        hash_call_at(expr, 0).len() == 0 || no_tag_element(hash_call_at(expr, 0)[0]),
    ensures
        zk_nullifier_001::nullifier_findings(path, src).contains(
            located_finding(
                zk_nullifier_001::RULE_ID@,
                zk_nullifier_001::TITLE@,
                Severity::High,
                Confidence::Low,
                path,
                line_at(src, i),
                n + seq![' ', '=', ' '] + expr + seq![' ', '('] + if hash_call_at(expr, 0).len() == 0 {
                    zk_nullifier_001::RAW_DETAIL@
                } else {
                    zk_nullifier_001::UNTAGGED_DETAIL@
                } + seq![')'],
                zk_nullifier_001::WHY_IT_MATTERS@,
                zk_nullifier_001::REMEDIATION@,
            ),
        ),
{
    let k = choose|k: int| 0 <= k < 3 && occurs(n, #[trigger] nullifier_name_fragments()[k]);
    law_nullifier_names(Seq::<char>::empty(), Seq::<char>::empty(), n);
    assert(is_nullifier_name(n));
    let x = NullifierSpec { name: n, line: line_at(src, i), expression_text: expr };
    assert(let_nullifier_at(src, i) == seq![x]);
    assert(nullifier_sites_at(src, i)[0] == x);
    let ss = nullifier_sites_upto(src, src.len() as int);
    lemma_sites_contain(src, i, src.len() as int, x);
    let t = choose|t: int| 0 <= t < ss.len() && #[trigger] ss[t] == x;
    if hash_call_at(expr, 0).len() > 0 {
        law_domain_tags(hash_call_at(expr, 0)[0]);
    }
    let d = if hash_call_at(expr, 0).len() == 0 {
        zk_nullifier_001::RAW_DETAIL@
    } else {
        zk_nullifier_001::UNTAGGED_DETAIL@
    };
    assert(zk_nullifier_001::nullifier_detail(expr) == Some(d));
    lemma_site_findings_contain(path, ss, t, ss.len() as int, d);
}

proof fn lemma_range_entry_findings_contain(path: Seq<char>, e: EntrySpec, k: int, m: int)
    requires
        0 <= k < m <= noir_range_001::entry_sites(e).len(),
        !range_checked(e.body, noir_range_001::entry_sites(e)[k].identifier),
    ensures
        noir_range_001::entry_findings(path, e, m).contains(
            noir_range_001::site_finding(path, e, noir_range_001::entry_sites(e)[k]),
        ),
    decreases m,
{
    let f = noir_range_001::site_finding(path, e, noir_range_001::entry_sites(e)[k]);
    let a = noir_range_001::entry_findings(path, e, m - 1);
    if k < m - 1 {
        lemma_range_entry_findings_contain(path, e, k, m - 1);
        let j = choose|j: int| 0 <= j < a.len() && #[trigger] a[j] == f;
        assert(noir_range_001::entry_findings(path, e, m)[j] == a[j]);
    } else {
        assert(noir_range_001::entry_findings(path, e, m)[a.len() as int] == f);
    }
}

proof fn lemma_range_entries_contain(path: Seq<char>, es: Seq<EntrySpec>, j: int, m: int, f: FindingView)
    requires
        0 <= j < m <= es.len(),
        noir_range_001::entry_findings(path, es[j], noir_range_001::entry_sites(es[j]).len() as int).contains(f),
    ensures
        noir_range_001::entries_findings(path, es, m).contains(f),
    decreases m,
{
    let a = noir_range_001::entries_findings(path, es, m - 1);
    if j < m - 1 {
        lemma_range_entries_contain(path, es, j, m - 1, f);
        let t = choose|t: int| 0 <= t < a.len() && #[trigger] a[t] == f;
        assert(noir_range_001::entries_findings(path, es, m)[t] == a[t]);
    } else {
        let c = noir_range_001::entry_findings(path, es[j], noir_range_001::entry_sites(es[j]).len() as int);
        let t = choose|t: int| 0 <= t < c.len() && #[trigger] c[t] == f;
        assert(noir_range_001::entries_findings(path, es, m)[a.len() + t] == c[t]);
    }
}

/// `NOIR-RANGE-001` flags a range-sensitive use whose identifier has no
/// bounded check: for every site found in the body of an entry point
/// `fn main` of `src` (an index `xs[id]`, a narrowing cast `id as uN`, an
/// unsigned subtraction `id - y`), when that body holds no `<` and no `>`,
/// no `range_check`, `assert_max_bits` or `lt`, and no `let` binding `id`,
/// the file's findings include one at the site's line with the site's text
/// as evidence, whatever `assert(id != c)` or `assert(id == c)` the body
/// holds.
pub proof fn law_unbounded_sites_flagged(path: Seq<char>, src: Seq<char>, j: int, t: int)
    requires
        0 <= j < entry_points_spec(src).len(),
        0 <= t < noir_range_001::entry_sites(entry_points_spec(src)[j]).len(),
        no_bound_char(entry_points_spec(src)[j].body),
        !occurs(entry_points_spec(src)[j].body, range_check_text()),
        !occurs(entry_points_spec(src)[j].body, max_bits_text()),
        !occurs(entry_points_spec(src)[j].body, lt_text()),
        no_let_binds(
            entry_points_spec(src)[j].body,
            noir_range_001::entry_sites(entry_points_spec(src)[j])[t].identifier,
        ),
    ensures
        noir_range_001::range_findings(path, src).contains(
            located_finding(
                noir_range_001::RULE_ID@,
                noir_range_001::TITLE@,
                Severity::Medium,
                Confidence::Low,
                path,
                absolute_line(
                    entry_points_spec(src)[j].body_start_line,
                    noir_range_001::entry_sites(entry_points_spec(src)[j])[t].line,
                ),
                noir_range_001::entry_sites(entry_points_spec(src)[j])[t].evidence,
                noir_range_001::WHY_IT_MATTERS@,
                noir_range_001::REMEDIATION@,
            ),
        ),
{
    let es = entry_points_spec(src);
    let e = es[j];
    let site = noir_range_001::entry_sites(e)[t];
    law_range_check_needs_bound(e.body, site.identifier);
    lemma_range_entry_findings_contain(path, e, t, noir_range_001::entry_sites(e).len() as int);
    lemma_range_entries_contain(path, es, j, es.len() as int, noir_range_001::site_finding(path, e, site));
}

proof fn lemma_tests_contain(codes: Seq<Seq<char>>, i: int, n: int)
    requires
        0 <= i < n <= codes.len(),
        test_at(codes, i) == seq![true],
    ensures
        tests_upto(codes, n).contains(true),
    decreases n,
{
    let a = tests_upto(codes, n - 1);
    if i < n - 1 {
        lemma_tests_contain(codes, i, n - 1);
        let j = choose|j: int| 0 <= j < a.len() && #[trigger] a[j] == true;
        assert(tests_upto(codes, n)[j] == a[j]);
    } else {
        assert(tests_upto(codes, n)[a.len() as int] == true);
    }
}

/// One negative test anywhere clears `ZK-TEST-001` for the whole project:
/// when a `#[test` line of one source is followed (within five lines) by a
/// function whose lowercased name holds `fail`, `invalid`, `reject`,
/// `negative` or `should_fail`, the project gets no finding.
pub proof fn law_negative_test_clears_project(ss: Seq<SourceView>, k: int, i: int, n: Seq<char>)
    requires
        0 <= k < ss.len(),
        0 <= i < code_lines(ss[k].source@).len(),
        find_from(code_lines(ss[k].source@)[i], test_attr_pat(), 0) is Some,
        fn_name_from(code_lines(ss[k].source@), i, i + 5) == Some(n),
        exists|m: int| 0 <= m < 5 && occurs(unicode_lowercase(n), #[trigger] negative_name_fragments()[m]),
    ensures
        test_findings(ss) == Seq::<FindingView>::empty(),
{
    let codes = code_lines(ss[k].source@);
    law_negative_test_names(Seq::<char>::empty(), Seq::<char>::empty(), Seq::<char>::empty(), codes, i);
    assert(test_at(codes, i) == seq![true]);
    lemma_tests_contain(codes, i, codes.len() as int);
    let ts = source_tests(ss[k].source@);
    let j = choose|j: int| 0 <= j < ts.len() && #[trigger] ts[j] == true;
    assert(any_negative(ss));
}

/// The four bound operators `<`, `<=`, `>`, `>=`.
pub open spec fn bound_operators() -> Seq<Seq<char>> {
    seq![seq!['<'], seq!['<', '='], seq!['>'], seq!['>', '=']]
}

/// `assert(<id> <op> 8);`.
pub open spec fn bounded_assert(id: Seq<char>, op: Seq<char>) -> Seq<char> {
    seq!['a', 's', 's', 'e', 'r', 't', '('] + id + seq![' '] + op + seq![' ', '8', ')', ';']
}

/// An assert that bounds an identifier is a range check of it:
/// `assert(id < 8);`, and likewise with `<=`, `>` and `>=`, range-checks
/// every identifier `id`.
pub proof fn law_bounded_assert_is_range_check(id: Seq<char>, k: int)
    requires
        is_lower_ident(id),
        0 <= k < 4,
    ensures
        range_checked(bounded_assert(id, bound_operators()[k]), id),
{
    let op = bound_operators()[k];
    let b = bounded_assert(id, op);
    let l = id.len() as int;
    let ol = op.len() as int;
    let kw = assert_pat();
    assert(b.len() == 12 + l + ol);
    assert(forall|i: int| 0 <= i < l ==> b[7 + i] == id[i]);
    assert(forall|i: int| 0 <= i < ol ==> b[8 + l + i] == op[i]);
    assert(b[6] == '(');
    assert(b[7 + l] == ' ');
    assert(b[8 + l + ol] == ' ' && b[9 + l + ol] == '8' && b[10 + l + ol] == ')');
    assert(matches_at(b, kw, 0));
    lemma_find_from(b, kw, 0);
    assert(find_from(b, kw, 0) == Some(0int));
    assert(skip_ws(b, 6) == 6);
    assert forall|i: int| 7 <= i < 10 + l + ol implies b[i] != '(' && b[i] != ')' by {
        if 7 <= i < 7 + l {
            assert(b[i] == id[i - 7]);
            assert(is_lower_ident_char(id[i - 7]));
        } else if 8 + l <= i < 8 + l + ol {
            assert(b[i] == op[i - 8 - l]);
        }
    }
    crate::shape_laws::lemma_close_scan_skip(b, '(', ')', 7, 10 + l + ol, 1);
    assert(close_scan(b, '(', ')', 7, 1) == Some(10 + l + ol));
    let args = b.subrange(7, 10 + l + ol);
    assert(call_args(b, 6) == Some(args));
    assert(args[l] == ' ');
    assert(matches_at(args, id, 0));
    assert(token_at(args, id, 0));
    assert(args[l + 1] == op[0]);
    if k < 2 {
        assert(matches_at(args, seq!['<'], l + 1));
        lemma_contains_occurs(args, seq!['<']);
    } else {
        assert(matches_at(args, seq!['>'], l + 1));
        lemma_contains_occurs(args, seq!['>']);
    }
    assert(call_args_contain(b, 6, id, true));
    assert(kw_use_from(b, kw, id, true, 0));
    assert(direct_range_check(b, id));
}

} // verus!
