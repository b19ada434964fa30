//! Every finding a per-file rule produces is well-formed: it carries the
//! rule's ID, title and default severity (and default confidence, or for
//! `ZK-HASH-001` medium or low), non-empty evidence, explanation and
//! remediation, the scanned file's path, and a line between 1 and the
//! file's number of lines.

use vstd::prelude::*;

use crate::finding::FindingView;
use crate::patterns::{
    bool_let_at, bool_lets_upto, cast_site_at, fn_nullifier_at, hash_call_at, hash_calls_upto,
    index_site_at, lemma_let_stmt_bounds, lemma_path_end, lemma_run_end, lemma_run_start,
    let_nullifier_at, nullifier_sites_upto, path_end, range_sites_at, range_sites_upto, run_end,
    run_start, sub_site_at, BoolLetSpec, HashCallSpec, NullifierSpec, RangeSiteSpec,
};
use crate::rules::{noir_constraint_001, noir_public_001, noir_range_001};
use crate::heuristics::{
    absolute_line, boundary_before, entries_from, entry_at, entry_points_spec, fn_main_pat,
    param_of, params_of_segments, public_params_spec, split_scan,
    split_segments, EntrySpec, ParamSpec,
};
use crate::rules::registry::{file_rule_findings, file_rule_meta, FileRule};
use crate::rules::{zk_hash_001, zk_nullifier_001};
use crate::severity::{Confidence, Severity};
use crate::text::{
    count_char, find_from, lemma_close_scan_bounds, skip_ws_back, lemma_count_char_bounds, lemma_find_from,
    lemma_skip_ws_back_bounds, lemma_skip_ws_bounds, line_at, lines_of, matches_at, matching_close,
    skip_ws, trim,
    trim_start,
};

verus! {

/// Counting up to `a + b` is counting up to `a`, then `b` more from `a`.
pub proof fn lemma_count_char_split(s: Seq<char>, c: char, a: int, b: int)
    requires
        0 <= a,
        0 <= b,
        a + b <= s.len(),
    ensures
        count_char(s, c, a + b) == count_char(s, c, a) + count_char(s.subrange(a, s.len() as int), c, b),
    decreases b,
{
    if b > 0 {
        lemma_count_char_split(s, c, a, b - 1);
        assert(s.subrange(a, s.len() as int)[b - 1] == s[a + b - 1]);
    }
}

/// Counting depends only on the counted prefix.
pub proof fn lemma_count_char_prefix(s: Seq<char>, t: Seq<char>, c: char, k: int)
    requires
        0 <= k <= s.len(),
        k <= t.len(),
        forall|j: int| 0 <= j < k ==> s[j] == t[j],
    ensures
        count_char(s, c, k) == count_char(t, c, k),
    decreases k,
{
    if k > 0 {
        lemma_count_char_prefix(s, t, c, k - 1);
    }
}

/// No `c` in the prefix: the count is zero.
pub proof fn lemma_count_char_none(s: Seq<char>, c: char, k: int)
    requires
        0 <= k <= s.len(),
        forall|j: int| 0 <= j < k ==> s[j] != c,
    ensures
        count_char(s, c, k) == 0,
    decreases k,
{
    if k > 0 {
        lemma_count_char_none(s, c, k - 1);
    }
}

/// The character at `idx` is on a line that exists: one plus the newlines
/// before it is at most the number of lines.
pub proof fn lemma_line_bound(s: Seq<char>, idx: int)
    requires
        0 <= idx < s.len(),
    ensures
        1 + count_char(s, '\n', idx) <= lines_of(s).len(),
    decreases s.len(),
{
    lemma_find_from(s, seq!['\n'], 0);
    match find_from(s, seq!['\n'], 0) {
        None => {
            assert forall|j: int| 0 <= j < idx implies s[j] != '\n' by {
                if s[j] == '\n' {
                    assert(matches_at(s, seq!['\n'], j));
                }
            }
            lemma_count_char_none(s, '\n', idx);
        },
        Some(k) => {
            assert forall|j: int| 0 <= j < k implies s[j] != '\n' by {
                if s[j] == '\n' {
                    assert(matches_at(s, seq!['\n'], j));
                }
            }
            let rest = s.subrange(k + 1, s.len() as int);
            assert(lines_of(s).len() == 1 + lines_of(rest).len());
            if idx <= k {
                lemma_count_char_none(s, '\n', idx);
            } else {
                lemma_count_char_none(s, '\n', k);
                assert(s[k] == seq!['\n'][0]);
                assert(count_char(s, '\n', k + 1) == 1);
                lemma_count_char_split(s, '\n', k + 1, idx - k - 1);
                lemma_line_bound(rest, idx - k - 1);
            }
        },
    }
}

/// A line number computed for an index inside the text is between 1 and
/// the number of lines.
pub proof fn lemma_line_at_bound(s: Seq<char>, idx: int)
    requires
        0 <= idx < s.len(),
        s.len() < u32::MAX,
    ensures
        line_at(s, idx) == 1 + count_char(s, '\n', idx),
        1 <= line_at(s, idx) <= lines_of(s).len(),
{
    crate::text::lemma_count_char_bounds(s, '\n', idx);
    lemma_line_bound(s, idx);
}

/// `l` is the number of one of the lines of `src`.
pub open spec fn line_in(src: Seq<char>, l: u32) -> bool {
    1 <= l <= lines_of(src).len()
}

/// A finding is well-formed for a rule: it carries the rule's ID, title,
/// severity and fixed explanation and remediation texts, the file's path,
/// non-empty evidence and a line of the file.
pub open spec fn well_formed(
    f: FindingView,
    rule_id: Seq<char>,
    title: Seq<char>,
    severity: Severity,
    why: Seq<char>,
    remediation: Seq<char>,
    path: Seq<char>,
    src: Seq<char>,
) -> bool {
    &&& f.rule_id == rule_id
    &&& f.title == title
    &&& f.severity == severity
    &&& f.why_it_matters == why
    &&& f.remediation == remediation
    &&& f.file == path
    &&& f.evidence.len() > 0
    &&& f.line matches Some(l) && line_in(src, l)
    &&& f.column is None
}

// ---------------------------------------------------------------------------
// Whole-file rules
// ---------------------------------------------------------------------------

/// A hash call found in `src` is on a line of `src` and has evidence.
pub open spec fn hash_ok(src: Seq<char>, h: HashCallSpec) -> bool {
    line_in(src, h.line) && h.evidence.len() > 0
}

proof fn lemma_hash_call_at(s: Seq<char>, i: int)
    requires
        0 <= i < s.len(),
        s.len() < u32::MAX,
    ensures
        forall|k: int| 0 <= k < hash_call_at(s, i).len() ==> hash_ok(s, #[trigger] hash_call_at(s, i)[k]),
{
    if hash_call_at(s, i).len() > 0 {
        lemma_line_at_bound(s, i);
        let pe = path_end(s, i);
        lemma_path_end(s, i);
        lemma_skip_ws_bounds(s, pe);
        let p = skip_ws(s, pe);
        lemma_skip_ws_bounds(s, p + 1);
        let q = skip_ws(s, p + 1);
        lemma_close_scan_bounds(s, '[', ']', q, 0);
        lemma_close_scan_bounds(s, '(', ')', p, 0);
    }
}

proof fn lemma_hash_calls(s: Seq<char>, n: int)
    requires
        0 <= n <= s.len(),
        s.len() < u32::MAX,
    ensures
        forall|k: int| 0 <= k < hash_calls_upto(s, n).len() ==> hash_ok(s, #[trigger] hash_calls_upto(s, n)[k]),
    decreases n,
{
    if n > 0 {
        lemma_hash_calls(s, n - 1);
        lemma_hash_call_at(s, n - 1);
        let a = hash_calls_upto(s, n - 1);
        let b = hash_call_at(s, n - 1);
        assert forall|k: int| 0 <= k < (a + b).len() implies hash_ok(s, #[trigger] (a + b)[k]) by {
            if k >= a.len() {
                assert((a + b)[k] == b[k - a.len()]);
            }
        }
    }
}

proof fn lemma_untagged(src: Seq<char>, hs: Seq<HashCallSpec>, n: int)
    requires
        0 <= n <= hs.len(),
        forall|k: int| 0 <= k < hs.len() ==> hash_ok(src, #[trigger] hs[k]),
    ensures
        forall|k: int| 0 <= k < zk_hash_001::untagged_upto(hs, n).len() ==> hash_ok(
            src,
            #[trigger] zk_hash_001::untagged_upto(hs, n)[k],
        ),
    decreases n,
{
    if n > 0 {
        lemma_untagged(src, hs, n - 1);
        let a = zk_hash_001::untagged_upto(hs, n - 1);
        assert(hash_ok(src, hs[n - 1]));
        assert forall|k: int| 0 <= k < zk_hash_001::untagged_upto(hs, n).len() implies hash_ok(
            src,
            #[trigger] zk_hash_001::untagged_upto(hs, n)[k],
        ) by {
            if k < a.len() {
                assert(zk_hash_001::untagged_upto(hs, n)[k] == a[k]);
            }
        }
    }
}

/// What a detected hash call is: a callee path that names a hash
/// (`hash`, `sha256` or `pedersen`) at index `i` of `s`, whose text up to
/// the call's end is the evidence, on the line of `i`, with non-blank
/// trimmed array-literal elements as arguments.
pub open spec fn hash_site_at(s: Seq<char>, h: HashCallSpec, i: int) -> bool {
    &&& 0 <= i
    &&& i + h.evidence.len() <= s.len()
    &&& h.evidence == s.subrange(i, i + h.evidence.len())
    &&& 0 < h.callee.len() <= h.evidence.len()
    &&& h.callee == h.evidence.subrange(0, h.callee.len() as int)
    &&& crate::patterns::is_hash_callee(h.callee)
    &&& h.line == line_at(s, i)
    &&& forall|j: int| 0 <= j < h.arguments.len() ==> (#[trigger] h.arguments[j]).len() > 0
}

proof fn lemma_elements_nonblank(s: Seq<char>, segs: Seq<(int, int)>)
    ensures
        forall|j: int|
            0 <= j < crate::patterns::elements_of(s, segs).len() ==> (#[trigger] crate::patterns::elements_of(
                s,
                segs,
            )[j]).len() > 0,
    decreases segs.len(),
{
    if segs.len() > 0 {
        lemma_elements_nonblank(s, segs.drop_last());
        let a = crate::patterns::elements_of(s, segs.drop_last());
        let b = crate::patterns::element_of(s, segs.last());
        assert forall|j: int| 0 <= j < (a + b).len() implies (#[trigger] (a + b)[j]).len() > 0 by {
            if j >= a.len() {
                assert((a + b)[j] == b[j - a.len()]);
            }
        }
    }
}

proof fn lemma_hash_site_at(s: Seq<char>, i: int)
    requires
        0 <= i < s.len(),
    ensures
        forall|k: int| 0 <= k < hash_call_at(s, i).len() ==> hash_site_at(s, #[trigger] hash_call_at(s, i)[k], i),
{
    if hash_call_at(s, i).len() > 0 {
        let pe = path_end(s, i);
        lemma_path_end(s, i);
        lemma_skip_ws_bounds(s, pe);
        let p = skip_ws(s, pe);
        lemma_skip_ws_bounds(s, p + 1);
        let q = skip_ws(s, p + 1);
        lemma_close_scan_bounds(s, '[', ']', q, 0);
        lemma_close_scan_bounds(s, '(', ')', p, 0);
        let h = hash_call_at(s, i)[0];
        lemma_elements_nonblank(s, crate::heuristics::split_segments(s, q + 1, crate::text::close_scan(s, '[', ']', q, 0)->0));
        assert(h.evidence.subrange(0, h.callee.len() as int) =~= h.callee);
        assert(hash_site_at(s, h, i));
    }
}

/// `h` is a hash call at some index before `n` of `s`.
pub open spec fn hash_site_before(s: Seq<char>, h: HashCallSpec, n: int) -> bool {
    exists|i: int| 0 <= i < n && #[trigger] hash_site_at(s, h, i)
}

/// `ZK-HASH-001`'s detection: every hash call found in `s` is a
/// [`hash_site_at`] some index of `s`.
pub proof fn law_hash_call_detection(s: Seq<char>)
    ensures
        forall|k: int|
            0 <= k < hash_calls_upto(s, s.len() as int).len() ==> hash_site_before(
                s,
                #[trigger] hash_calls_upto(s, s.len() as int)[k],
                s.len() as int,
            ),
{
    lemma_hash_sites(s, s.len() as int);
}

proof fn lemma_hash_sites(s: Seq<char>, n: int)
    requires
        0 <= n <= s.len(),
    ensures
        forall|k: int|
            0 <= k < hash_calls_upto(s, n).len() ==> hash_site_before(s, #[trigger] hash_calls_upto(s, n)[k], n),
    decreases n,
{
    if n > 0 {
        lemma_hash_sites(s, n - 1);
        lemma_hash_site_at(s, n - 1);
        let a = hash_calls_upto(s, n - 1);
        let b = hash_call_at(s, n - 1);
        assert(hash_calls_upto(s, n) == a + b);
        assert forall|k: int| 0 <= k < (a + b).len() implies hash_site_before(s, #[trigger] (a + b)[k], n) by {
            if k >= a.len() {
                assert((a + b)[k] == b[k - a.len()]);
                assert(hash_site_at(s, b[k - a.len()], n - 1));
            } else {
                assert((a + b)[k] == a[k]);
                assert(hash_site_before(s, a[k], n - 1));
                let i = choose|i: int| 0 <= i < n - 1 && #[trigger] hash_site_at(s, a[k], i);
                assert(hash_site_at(s, (a + b)[k], i));
            }
        }
    }
}

/// Every `ZK-HASH-001` finding is well-formed, with medium or low
/// confidence.
pub proof fn law_hash_findings_well_formed(path: Seq<char>, src: Seq<char>)
    requires
        src.len() < u32::MAX,
    ensures
        forall|k: int|
            0 <= k < zk_hash_001::hash_findings(path, src).len() ==> well_formed(
                #[trigger] zk_hash_001::hash_findings(path, src)[k],
                zk_hash_001::RULE_ID@,
                zk_hash_001::TITLE@,
                Severity::Medium,
                zk_hash_001::WHY_IT_MATTERS@,
                zk_hash_001::REMEDIATION@,
                path,
                src,
            ) && (zk_hash_001::hash_findings(path, src)[k].confidence == Confidence::Medium
                || zk_hash_001::hash_findings(path, src)[k].confidence == Confidence::Low),
{
    lemma_hash_calls(src, src.len() as int);
    let hs = hash_calls_upto(src, src.len() as int);
    lemma_untagged(src, hs, hs.len() as int);
}

/// A nullifier-like site found in `src` is on a line of `src`.
proof fn lemma_nullifier_sites(s: Seq<char>, n: int)
    requires
        0 <= n <= s.len(),
        s.len() < u32::MAX,
    ensures
        forall|k: int| 0 <= k < nullifier_sites_upto(s, n).len() ==> line_in(s, (#[trigger] nullifier_sites_upto(s, n)[k]).line),
    decreases n,
{
    if n > 0 {
        lemma_nullifier_sites(s, n - 1);
        lemma_line_at_bound(s, n - 1);
        let a = nullifier_sites_upto(s, n - 1);
        let b = let_nullifier_at(s, n - 1) + fn_nullifier_at(s, n - 1);
        assert(nullifier_sites_upto(s, n) == a + b);
        assert forall|k: int| 0 <= k < (a + b).len() implies line_in(s, (#[trigger] (a + b)[k]).line) by {
            if k >= a.len() {
                assert((a + b)[k] == b[k - a.len()]);
            }
        }
    }
}

proof fn lemma_nullifier_findings(path: Seq<char>, src: Seq<char>, ss: Seq<NullifierSpec>, n: int)
    requires
        0 <= n <= ss.len(),
        forall|k: int| 0 <= k < ss.len() ==> line_in(src, (#[trigger] ss[k]).line),
    ensures
        forall|k: int|
            0 <= k < zk_nullifier_001::sites_findings(path, ss, n).len() ==> well_formed(
                #[trigger] zk_nullifier_001::sites_findings(path, ss, n)[k],
                zk_nullifier_001::RULE_ID@,
                zk_nullifier_001::TITLE@,
                Severity::High,
                zk_nullifier_001::WHY_IT_MATTERS@,
                zk_nullifier_001::REMEDIATION@,
                path,
                src,
            ) && zk_nullifier_001::sites_findings(path, ss, n)[k].confidence == Confidence::Low,
    decreases n,
{
    if n > 0 {
        lemma_nullifier_findings(path, src, ss, n - 1);
        let a = zk_nullifier_001::sites_findings(path, ss, n - 1);
        let all = zk_nullifier_001::sites_findings(path, ss, n);
        assert(line_in(src, ss[n - 1].line));
        assert forall|k: int| 0 <= k < all.len() implies well_formed(
            #[trigger] all[k],
            zk_nullifier_001::RULE_ID@,
            zk_nullifier_001::TITLE@,
            Severity::High,
            zk_nullifier_001::WHY_IT_MATTERS@,
            zk_nullifier_001::REMEDIATION@,
            path,
            src,
        ) && all[k].confidence == Confidence::Low by {
            if k < a.len() {
                assert(all[k] == a[k]);
            }
        }
    }
}

/// Every `ZK-NULLIFIER-001` finding is well-formed, with low confidence.
pub proof fn law_nullifier_findings_well_formed(path: Seq<char>, src: Seq<char>)
    requires
        src.len() < u32::MAX,
    ensures
        forall|k: int|
            0 <= k < zk_nullifier_001::nullifier_findings(path, src).len() ==> well_formed(
                #[trigger] zk_nullifier_001::nullifier_findings(path, src)[k],
                zk_nullifier_001::RULE_ID@,
                zk_nullifier_001::TITLE@,
                Severity::High,
                zk_nullifier_001::WHY_IT_MATTERS@,
                zk_nullifier_001::REMEDIATION@,
                path,
                src,
            ) && zk_nullifier_001::nullifier_findings(path, src)[k].confidence == Confidence::Low,
{
    lemma_nullifier_sites(src, src.len() as int);
    let ss = nullifier_sites_upto(src, src.len() as int);
    lemma_nullifier_findings(path, src, ss, ss.len() as int);
}

// ---------------------------------------------------------------------------
// Entry points
// ---------------------------------------------------------------------------

/// Lines counted within an entry point's body map to lines of the file,
/// and its public parameters are on lines of the file with non-empty
/// declarations.
pub open spec fn entry_ok(s: Seq<char>, e: EntrySpec) -> bool {
    &&& forall|i: int|
        0 <= i < e.body.len() ==> line_in(s, absolute_line(e.body_start_line, #[trigger] line_at(e.body, i)))
    &&& line_in(s, e.signature_line)
    &&& e.signature_line <= e.body_start_line
    &&& forall|k: int|
        0 <= k < e.public_params.len() ==> param_ok(s, e, #[trigger] e.public_params[k])
}

/// A public parameter of entry point `e`: on a line of the file between the
/// signature's first line and the body's opening line, declared by text
/// that starts with `pub`.
pub open spec fn param_ok(s: Seq<char>, e: EntrySpec, p: ParamSpec) -> bool {
    &&& line_in(s, p.line)
    &&& e.signature_line <= p.line <= e.body_start_line
    &&& p.declaration_text.len() > 0
    &&& crate::text::starts_with(p.declaration_text, seq!['p', 'u', 'b'])
}

proof fn lemma_split_scan(s: Seq<char>, hi: int, i: int, depth: int, start: int)
    requires
        start <= i <= hi <= s.len(),
    ensures
        forall|k: int|
            0 <= k < split_scan(s, hi, i, depth, start).len() ==> start <= (#[trigger] split_scan(
                s,
                hi,
                i,
                depth,
                start,
            )[k]).0 <= split_scan(s, hi, i, depth, start)[k].1 <= hi,
    decreases hi - i,
{
    if i < hi {
        if crate::heuristics::is_open_bracket(s[i]) {
            lemma_split_scan(s, hi, i + 1, depth + 1, start);
            assert(split_scan(s, hi, i, depth, start) == split_scan(s, hi, i + 1, depth + 1, start));
        } else if crate::heuristics::is_close_bracket(s[i]) {
            lemma_split_scan(s, hi, i + 1, depth - 1, start);
            assert(split_scan(s, hi, i, depth, start) == split_scan(s, hi, i + 1, depth - 1, start));
        } else if s[i] == ',' && depth == 0 {
            lemma_split_scan(s, hi, i + 1, depth, i + 1);
            let a = seq![(start, i)];
            let b = split_scan(s, hi, i + 1, depth, i + 1);
            assert forall|k: int| 0 <= k < (a + b).len() implies start <= (#[trigger] (a + b)[k]).0 <= (a + b)[k].1 <= hi by {
                if k >= 1 {
                    assert((a + b)[k] == b[k - 1]);
                }
            }
            assert(split_scan(s, hi, i, depth, start) == a + b);
        } else {
            lemma_split_scan(s, hi, i + 1, depth, start);
            assert(split_scan(s, hi, i, depth, start) == split_scan(s, hi, i + 1, depth, start));
        }
    } else {
        assert(split_scan(s, hi, i, depth, start) == seq![(start, hi)]);
    }
}

/// A non-empty trim leaves a non-whitespace character to start from.
proof fn lemma_trim_nonempty(raw: Seq<char>)
    requires
        trim(raw).len() > 0,
    ensures
        0 <= skip_ws(raw, 0) < raw.len(),
{
    lemma_skip_ws_bounds(raw, 0);
    let t0 = trim_start(raw);
    lemma_skip_ws_back_bounds(t0, 0, t0.len() as int);
}

proof fn lemma_param_of(s: Seq<char>, f: int, o: int, lo: int, hi: int, e: EntrySpec)
    requires
        0 <= f <= o < s.len(),
        s.len() < u32::MAX,
        0 <= lo <= hi < o - f,
        e.signature_line == line_at(s, f),
        e.body_start_line == line_at(s, o),
    ensures
        forall|k: int|
            0 <= k < param_of(s.subrange(f, o), lo, hi, line_at(s, f)).len() ==> param_ok(
                s,
                e,
                #[trigger] param_of(s.subrange(f, o), lo, hi, line_at(s, f))[k],
            ),
{
    let sig = s.subrange(f, o);
    let raw = sig.subrange(lo, hi);
    if param_of(sig, lo, hi, line_at(s, f)).len() > 0 {
        lemma_trim_nonempty(raw);
        let tstart = lo + skip_ws(raw, 0);
        assert(tstart < hi);
        lemma_line_at_bound(s, f);
        lemma_line_at_bound(s, o);
        lemma_count_char_bounds(sig, '\n', tstart);
        lemma_count_char_split(s, '\n', f, tstart);
        lemma_count_char_prefix(sig, s.subrange(f, s.len() as int), '\n', tstart);
        lemma_line_bound(s, f + tstart);
        lemma_count_char_bounds(s, '\n', f + tstart);
        crate::text::lemma_count_char_mono(s, '\n', f + tstart, o);
        let p = param_of(sig, lo, hi, line_at(s, f))[0];
        let t = trim(raw);
        assert(p.declaration_text == t);
        assert(t[0] == 'p' && t[1] == 'u' && t[2] == 'b') by {
            if crate::text::starts_with(t, crate::heuristics::pub_space_pat()) {
                assert(t[0] == crate::heuristics::pub_space_pat()[0]);
                assert(t[1] == crate::heuristics::pub_space_pat()[1]);
                assert(t[2] == crate::heuristics::pub_space_pat()[2]);
            } else {
                assert(t[0] == crate::heuristics::pub_tab_pat()[0]);
                assert(t[1] == crate::heuristics::pub_tab_pat()[1]);
                assert(t[2] == crate::heuristics::pub_tab_pat()[2]);
            }
        }
        assert(param_ok(s, e, p));
    }
}

proof fn lemma_params_of_segments(s: Seq<char>, f: int, o: int, segs: Seq<(int, int)>, lo: int, hi: int, e: EntrySpec)
    requires
        0 <= f <= o < s.len(),
        s.len() < u32::MAX,
        0 <= lo,
        hi < o - f,
        forall|k: int| 0 <= k < segs.len() ==> lo <= (#[trigger] segs[k]).0 <= segs[k].1 <= hi,
        e.signature_line == line_at(s, f),
        e.body_start_line == line_at(s, o),
    ensures
        forall|k: int|
            0 <= k < params_of_segments(s.subrange(f, o), segs, line_at(s, f)).len() ==> param_ok(
                s,
                e,
                #[trigger] params_of_segments(s.subrange(f, o), segs, line_at(s, f))[k],
            ),
    decreases segs.len(),
{
    if segs.len() > 0 {
        let sig = s.subrange(f, o);
        lemma_param_of(s, f, o, segs[0].0, segs[0].1, e);
        let rest = segs.drop_first();
        assert forall|k: int| 0 <= k < rest.len() implies lo <= (#[trigger] rest[k]).0 <= rest[k].1 <= hi by {
            assert(rest[k] == segs[k + 1]);
        }
        lemma_params_of_segments(s, f, o, rest, lo, hi, e);
        let a = param_of(sig, segs[0].0, segs[0].1, line_at(s, f));
        let b = params_of_segments(sig, rest, line_at(s, f));
        assert forall|k: int| 0 <= k < (a + b).len() implies param_ok(s, e, #[trigger] (a + b)[k]) by {
            if k >= a.len() {
                assert((a + b)[k] == b[k - a.len()]);
            }
        }
    }
}

proof fn lemma_entry_at(s: Seq<char>, f: int, o: int, c: int)
    requires
        0 <= f <= o < c < s.len(),
        s[o] == '{',
        s.len() < u32::MAX,
    ensures
        entry_ok(s, entry_at(s, f, o, c)),
{
    let e = entry_at(s, f, o, c);
    let body = s.subrange(o + 1, c);
    lemma_line_at_bound(s, o);
    lemma_line_at_bound(s, f);
    crate::text::lemma_count_char_mono(s, '\n', f, o);
    assert forall|i: int| 0 <= i < e.body.len() implies line_in(
        s,
        absolute_line(e.body_start_line, #[trigger] line_at(e.body, i)),
    ) by {
        lemma_count_char_bounds(body, '\n', i);
        lemma_count_char_split(s, '\n', o + 1, i);
        lemma_count_char_prefix(body, s.subrange(o + 1, s.len() as int), '\n', i);
        lemma_line_bound(s, o + 1 + i);
        lemma_count_char_bounds(s, '\n', o + 1 + i);
    }
    let sig = s.subrange(f, o);
    match find_from(sig, seq!['('], 0) {
        None => {},
        Some(op) => {
            lemma_find_from(sig, seq!['('], 0);
            assert(sig[op] == seq!['('][0]);
            lemma_close_scan_bounds(sig, '(', ')', op, 0);
            match matching_close(sig, '(', ')', op) {
                None => {},
                Some(cp) => {
                    lemma_split_scan(sig, cp, op + 1, 0, op + 1);
                    lemma_params_of_segments(s, f, o, split_segments(sig, op + 1, cp), op + 1, cp, e);
                },
            }
        },
    }
}

/// Where entry point `e` sits in `s`: its `fn main` at `sp.0` declares the
/// entry point, its body opens at the first `{` after it (`sp.1`, so the
/// signature text holds no `{`) and closes at the matching `}` (`sp.2`, so
/// the body's braces are balanced); its signature text and body are the
/// text between; and it satisfies [`entry_ok`].
pub open spec fn entry_span_ok(s: Seq<char>, e: EntrySpec, sp: (int, int, int)) -> bool {
    let (f, o, c) = sp;
    &&& 0 <= f < o < c < s.len()
    &&& matches_at(s, fn_main_pat(), f)
    &&& crate::heuristics::main_decl_at(s, f)
    &&& s[o] == '{'
    &&& forall|j: int| f <= j < o ==> s[j] != '{'
    &&& matching_close(s, '{', '}', o) == Some(c)
    &&& e == entry_at(s, f, o, c)
    &&& e.signature_text == s.subrange(f, o)
    &&& e.body == s.subrange(o + 1, c)
    &&& entry_ok(s, e)
}

/// The entry points' places in `s`: in order, each after the previous one's
/// closing brace.
pub open spec fn spans_ok(s: Seq<char>, es: Seq<EntrySpec>, spans: Seq<(int, int, int)>, from: int) -> bool {
    &&& spans.len() == es.len()
    &&& forall|k: int| 0 <= k < es.len() ==> entry_span_ok(s, #[trigger] es[k], spans[k])
    &&& forall|k: int| 0 <= k < spans.len() ==> from <= (#[trigger] spans[k]).0
    &&& forall|k: int| 0 <= k < spans.len() - 1 ==> (#[trigger] spans[k]).2 < spans[k + 1].0
}

proof fn lemma_entry_spans(s: Seq<char>, from: int) -> (spans: Seq<(int, int, int)>)
    requires
        0 <= from,
        s.len() < u32::MAX,
    ensures
        spans_ok(s, entries_from(s, from), spans, from),
    decreases s.len() - from,
{
    lemma_entries_from(s, from);
    lemma_find_from(s, fn_main_pat(), from);
    match find_from(s, fn_main_pat(), from) {
        None => {
            assert(entries_from(s, from) =~= Seq::<EntrySpec>::empty());
            Seq::<(int, int, int)>::empty()
        },
        Some(fn_idx) => {
            if !crate::heuristics::main_decl_at(s, fn_idx) {
                let r = lemma_entry_spans(s, fn_idx + 7);
                assert(entries_from(s, from) == entries_from(s, fn_idx + 7));
                r
            } else {
                lemma_find_from(s, seq!['{'], fn_idx);
                match find_from(s, seq!['{'], fn_idx) {
                    None => {
                        assert(entries_from(s, from) =~= Seq::<EntrySpec>::empty());
                        Seq::<(int, int, int)>::empty()
                    },
                    Some(open) => {
                        lemma_close_scan_bounds(s, '{', '}', open, 0);
                        assert(s[open] == seq!['{'][0]);
                        assert(matches_at(s, fn_main_pat(), fn_idx));
                        assert(s[fn_idx] == fn_main_pat()[0]);
                        assert forall|j: int| fn_idx <= j < open implies s[j] != '{' by {
                            if s[j] == '{' {
                                assert(matches_at(s, seq!['{'], j));
                            }
                        }
                        match matching_close(s, '{', '}', open) {
                            None => {
                                assert(entries_from(s, from) =~= Seq::<EntrySpec>::empty());
                                Seq::<(int, int, int)>::empty()
                            },
                            Some(close) => {
                                lemma_close_scan_bounds(s, '{', '}', open + 1, 1);
                                assert(close > open);
                                let rest = lemma_entry_spans(s, close + 1);
                                let e = entry_at(s, fn_idx, open, close);
                                lemma_entry_at(s, fn_idx, open, close);
                                let es = entries_from(s, from);
                                assert(es == seq![e] + entries_from(s, close + 1));
                                let spans = seq![(fn_idx, open, close)] + rest;
                                assert forall|k: int| 0 <= k < es.len() implies entry_span_ok(s, #[trigger] es[k], spans[k]) by {
                                    if k == 0 {
                                        assert(es[0] == e);
                                    } else {
                                        assert(es[k] == entries_from(s, close + 1)[k - 1]);
                                        assert(spans[k] == rest[k - 1]);
                                    }
                                }
                                assert forall|k: int| 0 <= k < spans.len() implies from <= (#[trigger] spans[k]).0 by {
                                    if k > 0 {
                                        assert(spans[k] == rest[k - 1]);
                                    }
                                }
                                assert forall|k: int| 0 <= k < spans.len() - 1 implies (#[trigger] spans[k]).2 < spans[k + 1].0 by {
                                    assert(spans[k + 1] == rest[k]);
                                    if k > 0 {
                                        assert(spans[k] == rest[k - 1]);
                                    }
                                }
                                spans
                            },
                        }
                    },
                }
            }
        },
    }
}

/// The structure of the entry points of `s`: each sits in `s` as
/// [`entry_span_ok`] describes (a `fn main` declaration, a signature with
/// no `{`, a body with balanced braces, `1 <= signature_line <=
/// body_start_line`, and public parameters declared by `pub` text on lines
/// between the two), in source order and without overlapping.
pub proof fn law_entry_point_structure(s: Seq<char>)
    requires
        s.len() < u32::MAX,
    ensures
        exists|spans: Seq<(int, int, int)>| spans_ok(s, entry_points_spec(s), spans, 0),
{
    let spans = lemma_entry_spans(s, 0);
    assert(spans_ok(s, entry_points_spec(s), spans, 0));
}

proof fn lemma_entries_from(s: Seq<char>, from: int)
    requires
        s.len() < u32::MAX,
    ensures
        forall|k: int| 0 <= k < entries_from(s, from).len() ==> entry_ok(s, #[trigger] entries_from(s, from)[k]),
    decreases s.len() - from,
{
    if from >= 0 {
        lemma_find_from(s, fn_main_pat(), from);
        match find_from(s, fn_main_pat(), from) {
            None => {},
            Some(fn_idx) => {
                if !crate::heuristics::main_decl_at(s, fn_idx) {
                    lemma_entries_from(s, fn_idx + 7);
                    assert(entries_from(s, from) == entries_from(s, fn_idx + 7));
                } else {
                    lemma_find_from(s, seq!['{'], fn_idx);
                    match find_from(s, seq!['{'], fn_idx) {
                        None => {},
                        Some(open) => {
                            lemma_close_scan_bounds(s, '{', '}', open, 0);
                            assert(s[open] == seq!['{'][0]);
                            assert(matches_at(s, fn_main_pat(), fn_idx));
                            match matching_close(s, '{', '}', open) {
                                None => {},
                                Some(close) => {
                                    lemma_entry_at(s, fn_idx, open, close);
                                    lemma_entries_from(s, close + 1);
                                    let a = seq![entry_at(s, fn_idx, open, close)];
                                    let b = entries_from(s, close + 1);
                                    assert forall|k: int| 0 <= k < (a + b).len() implies entry_ok(s, #[trigger] (a + b)[k]) by {
                                        if k >= 1 {
                                            assert((a + b)[k] == b[k - 1]);
                                        }
                                    }
                                    assert(entries_from(s, from) == a + b);
                                },
                            }
                        },
                    }
                }
            },
        }
    }
}

// ---------------------------------------------------------------------------
// Body-scoped sites
// ---------------------------------------------------------------------------

/// A site at a line of the body, with evidence.
pub open spec fn located_in(body: Seq<char>, line: u32, evidence: Seq<char>) -> bool {
    &&& exists|i: int| 0 <= i < body.len() && line == #[trigger] line_at(body, i)
    &&& evidence.len() > 0
}

proof fn lemma_bool_lets(b: Seq<char>, n: int)
    requires
        0 <= n <= b.len(),
    ensures
        forall|k: int|
            0 <= k < bool_lets_upto(b, n).len() ==> located_in(
                b,
                (#[trigger] bool_lets_upto(b, n)[k]).line,
                bool_lets_upto(b, n)[k].statement_text,
            ),
    decreases n,
{
    if n > 0 {
        lemma_bool_lets(b, n - 1);
        let a = bool_lets_upto(b, n - 1);
        let c = bool_let_at(b, n - 1);
        if c.len() > 0 {
            lemma_let_stmt_bounds(b, n - 1);
            assert(line_at(b, n - 1) == c[0].line);
        }
        assert forall|k: int| 0 <= k < (a + c).len() implies located_in(b, (#[trigger] (a + c)[k]).line, (a + c)[k].statement_text) by {
            if k >= a.len() {
                assert((a + c)[k] == c[k - a.len()]);
            }
        }
    }
}

proof fn lemma_range_sites_at(b: Seq<char>, i: int)
    requires
        0 <= i < b.len(),
    ensures
        forall|k: int|
            0 <= k < range_sites_at(b, i).len() ==> located_in(
                b,
                (#[trigger] range_sites_at(b, i)[k]).line,
                range_sites_at(b, i)[k].evidence,
            ),
{
    let x = index_site_at(b, i);
    let y = cast_site_at(b, i);
    let z = sub_site_at(b, i);
    if x.len() > 0 {
        lemma_close_scan_bounds(b, '[', ']', i, 0);
        lemma_run_start(b, 0, i);
        assert(line_at(b, i) == x[0].line);
    }
    if y.len() > 0 {
        lemma_run_start(b, 0, i);
        lemma_run_end(b, i + 4);
        assert(line_at(b, i) == y[0].line);
    }
    if z.len() > 0 {
        lemma_skip_ws_back_bounds(b, 0, i);
        let le = skip_ws_back(b, 0, i);
        lemma_run_start(b, 0, le);
        lemma_skip_ws_bounds(b, i + 1);
        lemma_run_end(b, skip_ws(b, i + 1));
        assert(line_at(b, i) == z[0].line);
    }
    assert forall|k: int| 0 <= k < (x + y + z).len() implies located_in(b, (#[trigger] (x + y + z)[k]).line, (x + y + z)[k].evidence) by {
        if k < x.len() {
            assert((x + y + z)[k] == x[k]);
        } else if k < x.len() + y.len() {
            assert((x + y + z)[k] == y[k - x.len()]);
        } else {
            assert((x + y + z)[k] == z[k - x.len() - y.len()]);
        }
    }
}

proof fn lemma_range_sites(b: Seq<char>, n: int)
    requires
        0 <= n <= b.len(),
    ensures
        forall|k: int|
            0 <= k < range_sites_upto(b, n).len() ==> located_in(
                b,
                (#[trigger] range_sites_upto(b, n)[k]).line,
                range_sites_upto(b, n)[k].evidence,
            ),
    decreases n,
{
    if n > 0 {
        lemma_range_sites(b, n - 1);
        lemma_range_sites_at(b, n - 1);
        let a = range_sites_upto(b, n - 1);
        let c = range_sites_at(b, n - 1);
        assert forall|k: int| 0 <= k < (a + c).len() implies located_in(b, (#[trigger] (a + c)[k]).line, (a + c)[k].evidence) by {
            if k >= a.len() {
                assert((a + c)[k] == c[k - a.len()]);
            }
        }
    }
}

// ---------------------------------------------------------------------------
// Entry-point rules
// ---------------------------------------------------------------------------

proof fn lemma_public_entry(path: Seq<char>, s: Seq<char>, e: EntrySpec, k: int)
    requires
        entry_ok(s, e),
        0 <= k <= e.public_params.len(),
    ensures
        forall|j: int|
            0 <= j < noir_public_001::entry_findings(path, e, k).len() ==> well_formed(
                #[trigger] noir_public_001::entry_findings(path, e, k)[j],
                noir_public_001::RULE_ID@,
                noir_public_001::TITLE@,
                Severity::High,
                noir_public_001::WHY_IT_MATTERS@,
                noir_public_001::REMEDIATION@,
                path,
                s,
            ) && noir_public_001::entry_findings(path, e, k)[j].confidence == Confidence::Medium,
    decreases k,
{
    if k > 0 {
        lemma_public_entry(path, s, e, k - 1);
        let a = noir_public_001::entry_findings(path, e, k - 1);
        let all = noir_public_001::entry_findings(path, e, k);
        assert(line_in(s, e.public_params[k - 1].line));
        assert forall|j: int| 0 <= j < all.len() implies well_formed(
            #[trigger] all[j],
            noir_public_001::RULE_ID@,
            noir_public_001::TITLE@,
            Severity::High,
            noir_public_001::WHY_IT_MATTERS@,
            noir_public_001::REMEDIATION@,
            path,
            s,
        ) && all[j].confidence == Confidence::Medium by {
            if j < a.len() {
                assert(all[j] == a[j]);
            }
        }
    }
}

proof fn lemma_constraint_entry(path: Seq<char>, s: Seq<char>, e: EntrySpec, k: int)
    requires
        entry_ok(s, e),
        0 <= k <= noir_constraint_001::entry_bindings(e).len(),
    ensures
        forall|j: int|
            0 <= j < noir_constraint_001::entry_findings(path, e, k).len() ==> well_formed(
                #[trigger] noir_constraint_001::entry_findings(path, e, k)[j],
                noir_constraint_001::RULE_ID@,
                noir_constraint_001::TITLE@,
                Severity::High,
                noir_constraint_001::WHY_IT_MATTERS@,
                noir_constraint_001::REMEDIATION@,
                path,
                s,
            ) && noir_constraint_001::entry_findings(path, e, k)[j].confidence == Confidence::Medium,
    decreases k,
{
    if k > 0 {
        lemma_constraint_entry(path, s, e, k - 1);
        lemma_bool_lets(e.body, e.body.len() as int);
        let b = noir_constraint_001::entry_bindings(e)[k - 1];
        assert(located_in(e.body, b.line, b.statement_text));
        let i = choose|i: int| 0 <= i < e.body.len() && b.line == #[trigger] line_at(e.body, i);
        assert(line_in(s, absolute_line(e.body_start_line, line_at(e.body, i))));
        let a = noir_constraint_001::entry_findings(path, e, k - 1);
        let all = noir_constraint_001::entry_findings(path, e, k);
        assert forall|j: int| 0 <= j < all.len() implies well_formed(
            #[trigger] all[j],
            noir_constraint_001::RULE_ID@,
            noir_constraint_001::TITLE@,
            Severity::High,
            noir_constraint_001::WHY_IT_MATTERS@,
            noir_constraint_001::REMEDIATION@,
            path,
            s,
        ) && all[j].confidence == Confidence::Medium by {
            if j < a.len() {
                assert(all[j] == a[j]);
            }
        }
    }
}

proof fn lemma_range_entry(path: Seq<char>, s: Seq<char>, e: EntrySpec, k: int)
    requires
        entry_ok(s, e),
        0 <= k <= noir_range_001::entry_sites(e).len(),
    ensures
        forall|j: int|
            0 <= j < noir_range_001::entry_findings(path, e, k).len() ==> well_formed(
                #[trigger] noir_range_001::entry_findings(path, e, k)[j],
                noir_range_001::RULE_ID@,
                noir_range_001::TITLE@,
                Severity::Medium,
                noir_range_001::WHY_IT_MATTERS@,
                noir_range_001::REMEDIATION@,
                path,
                s,
            ) && noir_range_001::entry_findings(path, e, k)[j].confidence == Confidence::Low,
    decreases k,
{
    if k > 0 {
        lemma_range_entry(path, s, e, k - 1);
        lemma_range_sites(e.body, e.body.len() as int);
        let x = noir_range_001::entry_sites(e)[k - 1];
        assert(located_in(e.body, x.line, x.evidence));
        let i = choose|i: int| 0 <= i < e.body.len() && x.line == #[trigger] line_at(e.body, i);
        assert(line_in(s, absolute_line(e.body_start_line, line_at(e.body, i))));
        let a = noir_range_001::entry_findings(path, e, k - 1);
        let all = noir_range_001::entry_findings(path, e, k);
        assert forall|j: int| 0 <= j < all.len() implies well_formed(
            #[trigger] all[j],
            noir_range_001::RULE_ID@,
            noir_range_001::TITLE@,
            Severity::Medium,
            noir_range_001::WHY_IT_MATTERS@,
            noir_range_001::REMEDIATION@,
            path,
            s,
        ) && all[j].confidence == Confidence::Low by {
            if j < a.len() {
                assert(all[j] == a[j]);
            }
        }
    }
}

/// Every `NOIR-PUBLIC-001` finding is well-formed, with medium confidence.
pub proof fn law_public_findings_well_formed(path: Seq<char>, src: Seq<char>)
    requires
        src.len() < u32::MAX,
    ensures
        forall|k: int|
            0 <= k < noir_public_001::public_findings(path, src).len() ==> well_formed(
                #[trigger] noir_public_001::public_findings(path, src)[k],
                noir_public_001::RULE_ID@,
                noir_public_001::TITLE@,
                Severity::High,
                noir_public_001::WHY_IT_MATTERS@,
                noir_public_001::REMEDIATION@,
                path,
                src,
            ) && noir_public_001::public_findings(path, src)[k].confidence == Confidence::Medium,
{
    lemma_entries_from(src, 0);
    let es = entry_points_spec(src);
    lemma_public_entries(path, src, es, es.len() as int);
}

proof fn lemma_public_entries(path: Seq<char>, s: Seq<char>, es: Seq<EntrySpec>, n: int)
    requires
        0 <= n <= es.len(),
        forall|k: int| 0 <= k < es.len() ==> entry_ok(s, #[trigger] es[k]),
    ensures
        forall|j: int|
            0 <= j < noir_public_001::entries_findings(path, es, n).len() ==> well_formed(
                #[trigger] noir_public_001::entries_findings(path, es, n)[j],
                noir_public_001::RULE_ID@,
                noir_public_001::TITLE@,
                Severity::High,
                noir_public_001::WHY_IT_MATTERS@,
                noir_public_001::REMEDIATION@,
                path,
                s,
            ) && noir_public_001::entries_findings(path, es, n)[j].confidence == Confidence::Medium,
    decreases n,
{
    if n > 0 {
        lemma_public_entries(path, s, es, n - 1);
        let e = es[n - 1];
        lemma_public_entry(path, s, e, e.public_params.len() as int);
        let a = noir_public_001::entries_findings(path, es, n - 1);
        let b = noir_public_001::entry_findings(path, e, e.public_params.len() as int);
        assert forall|j: int| 0 <= j < (a + b).len() implies well_formed(
            #[trigger] (a + b)[j],
            noir_public_001::RULE_ID@,
            noir_public_001::TITLE@,
            Severity::High,
            noir_public_001::WHY_IT_MATTERS@,
            noir_public_001::REMEDIATION@,
            path,
            s,
        ) && (a + b)[j].confidence == Confidence::Medium by {
            if j >= a.len() {
                assert((a + b)[j] == b[j - a.len()]);
            }
        }
    }
}

proof fn lemma_constraint_entries(path: Seq<char>, s: Seq<char>, es: Seq<EntrySpec>, n: int)
    requires
        0 <= n <= es.len(),
        forall|k: int| 0 <= k < es.len() ==> entry_ok(s, #[trigger] es[k]),
    ensures
        forall|j: int|
            0 <= j < noir_constraint_001::entries_findings(path, es, n).len() ==> well_formed(
                #[trigger] noir_constraint_001::entries_findings(path, es, n)[j],
                noir_constraint_001::RULE_ID@,
                noir_constraint_001::TITLE@,
                Severity::High,
                noir_constraint_001::WHY_IT_MATTERS@,
                noir_constraint_001::REMEDIATION@,
                path,
                s,
            ) && noir_constraint_001::entries_findings(path, es, n)[j].confidence == Confidence::Medium,
    decreases n,
{
    if n > 0 {
        lemma_constraint_entries(path, s, es, n - 1);
        let e = es[n - 1];
        lemma_constraint_entry(path, s, e, noir_constraint_001::entry_bindings(e).len() as int);
        let a = noir_constraint_001::entries_findings(path, es, n - 1);
        let b = noir_constraint_001::entry_findings(path, e, noir_constraint_001::entry_bindings(e).len() as int);
        assert forall|j: int| 0 <= j < (a + b).len() implies well_formed(
            #[trigger] (a + b)[j],
            noir_constraint_001::RULE_ID@,
            noir_constraint_001::TITLE@,
            Severity::High,
            noir_constraint_001::WHY_IT_MATTERS@,
            noir_constraint_001::REMEDIATION@,
            path,
            s,
        ) && (a + b)[j].confidence == Confidence::Medium by {
            if j >= a.len() {
                assert((a + b)[j] == b[j - a.len()]);
            }
        }
    }
}

/// Every `NOIR-CONSTRAINT-001` finding is well-formed, with medium
/// confidence.
pub proof fn law_constraint_findings_well_formed(path: Seq<char>, src: Seq<char>)
    requires
        src.len() < u32::MAX,
    ensures
        forall|k: int|
            0 <= k < noir_constraint_001::constraint_findings(path, src).len() ==> well_formed(
                #[trigger] noir_constraint_001::constraint_findings(path, src)[k],
                noir_constraint_001::RULE_ID@,
                noir_constraint_001::TITLE@,
                Severity::High,
                noir_constraint_001::WHY_IT_MATTERS@,
                noir_constraint_001::REMEDIATION@,
                path,
                src,
            ) && noir_constraint_001::constraint_findings(path, src)[k].confidence == Confidence::Medium,
{
    lemma_entries_from(src, 0);
    let es = entry_points_spec(src);
    lemma_constraint_entries(path, src, es, es.len() as int);
}

proof fn lemma_range_entries(path: Seq<char>, s: Seq<char>, es: Seq<EntrySpec>, n: int)
    requires
        0 <= n <= es.len(),
        forall|k: int| 0 <= k < es.len() ==> entry_ok(s, #[trigger] es[k]),
    ensures
        forall|j: int|
            0 <= j < noir_range_001::entries_findings(path, es, n).len() ==> well_formed(
                #[trigger] noir_range_001::entries_findings(path, es, n)[j],
                noir_range_001::RULE_ID@,
                noir_range_001::TITLE@,
                Severity::Medium,
                noir_range_001::WHY_IT_MATTERS@,
                noir_range_001::REMEDIATION@,
                path,
                s,
            ) && noir_range_001::entries_findings(path, es, n)[j].confidence == Confidence::Low,
    decreases n,
{
    if n > 0 {
        lemma_range_entries(path, s, es, n - 1);
        let e = es[n - 1];
        lemma_range_entry(path, s, e, noir_range_001::entry_sites(e).len() as int);
        let a = noir_range_001::entries_findings(path, es, n - 1);
        let b = noir_range_001::entry_findings(path, e, noir_range_001::entry_sites(e).len() as int);
        assert forall|j: int| 0 <= j < (a + b).len() implies well_formed(
            #[trigger] (a + b)[j],
            noir_range_001::RULE_ID@,
            noir_range_001::TITLE@,
            Severity::Medium,
            noir_range_001::WHY_IT_MATTERS@,
            noir_range_001::REMEDIATION@,
            path,
            s,
        ) && (a + b)[j].confidence == Confidence::Low by {
            if j >= a.len() {
                assert((a + b)[j] == b[j - a.len()]);
            }
        }
    }
}

/// Every `NOIR-RANGE-001` finding is well-formed, with low confidence.
pub proof fn law_range_findings_well_formed(path: Seq<char>, src: Seq<char>)
    requires
        src.len() < u32::MAX,
    ensures
        forall|k: int|
            0 <= k < noir_range_001::range_findings(path, src).len() ==> well_formed(
                #[trigger] noir_range_001::range_findings(path, src)[k],
                noir_range_001::RULE_ID@,
                noir_range_001::TITLE@,
                Severity::Medium,
                noir_range_001::WHY_IT_MATTERS@,
                noir_range_001::REMEDIATION@,
                path,
                src,
            ) && noir_range_001::range_findings(path, src)[k].confidence == Confidence::Low,
{
    lemma_entries_from(src, 0);
    let es = entry_points_spec(src);
    lemma_range_entries(path, src, es, es.len() as int);
}

// ---------------------------------------------------------------------------
// All per-file rules
// ---------------------------------------------------------------------------

/// The fixed explanation and remediation texts of a per-file rule.
pub open spec fn rule_texts(r: FileRule) -> (Seq<char>, Seq<char>) {
    match r {
        FileRule::NoirPublic001(_) => (noir_public_001::WHY_IT_MATTERS@, noir_public_001::REMEDIATION@),
        FileRule::NoirConstraint001(_) => (
            noir_constraint_001::WHY_IT_MATTERS@,
            noir_constraint_001::REMEDIATION@,
        ),
        FileRule::NoirRange001(_) => (noir_range_001::WHY_IT_MATTERS@, noir_range_001::REMEDIATION@),
        FileRule::ZkHash001(_) => (zk_hash_001::WHY_IT_MATTERS@, zk_hash_001::REMEDIATION@),
        FileRule::ZkNullifier001(_) => (zk_nullifier_001::WHY_IT_MATTERS@, zk_nullifier_001::REMEDIATION@),
    }
}

/// Every finding of every per-file rule on a file (of fewer than
/// `u32::MAX` characters) is well-formed for that rule: the rule's ID,
/// title and default severity, its fixed texts, the file's path, non-empty
/// evidence and a line between 1 and the file's number of lines; its
/// confidence is the rule's default, except that `ZK-HASH-001` reports
/// medium or low.
pub proof fn law_findings_well_formed(r: FileRule, path: Seq<char>, src: Seq<char>)
    requires
        src.len() < u32::MAX,
    ensures
        forall|k: int|
            0 <= k < file_rule_findings(r, path, src).len() ==> {
                let f = #[trigger] file_rule_findings(r, path, src)[k];
                &&& well_formed(
                    f,
                    file_rule_meta(r).rule_id,
                    file_rule_meta(r).title,
                    file_rule_meta(r).default_severity,
                    rule_texts(r).0,
                    rule_texts(r).1,
                    path,
                    src,
                )
                &&& if r is ZkHash001 {
                    f.confidence == Confidence::Medium || f.confidence == Confidence::Low
                } else {
                    f.confidence == file_rule_meta(r).default_confidence
                }
            },
{
    match r {
        FileRule::NoirPublic001(_) => law_public_findings_well_formed(path, src),
        FileRule::NoirConstraint001(_) => law_constraint_findings_well_formed(path, src),
        FileRule::NoirRange001(_) => law_range_findings_well_formed(path, src),
        FileRule::ZkHash001(_) => law_hash_findings_well_formed(path, src),
        FileRule::ZkNullifier001(_) => law_nullifier_findings_well_formed(path, src),
    }
}

} // verus!
