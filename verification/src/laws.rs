//! Properties of the library as a whole: the severity order, sorting,
//! thresholds, suppression, the rules a scan runs and the SARIF rule
//! references.

use vstd::prelude::*;
use vstd::multiset::Multiset;

use crate::config::{
    active_upto, first_blank_reason, first_config, first_inline, lines_directives,
    line_directive, rule_enabled, sources_directives, suppressed_upto, suppression_of, ConfigView,
    DirectiveSpec, SuppressionEntry,
};
use crate::commands::rules::catalog_spec;
use crate::commands::scan::{
    enabled_file_rules, enabled_project_rules, file_rules_run, project_rules_run, rules_run_meta,
};
use crate::finding::{Finding, FindingView};
use crate::report::sarif::{
    descriptor_spec, last_index_of, level_spec, result_spec, start_line_spec, SarifDescriptor,
    SarifResultRecord,
};
use crate::rule::RuleMetadata;
use crate::rules::registry::{
    file_rule_meta, project_registry_spec, project_rule_meta, registry_spec, FileRule,
    ProjectLevelRule,
};
use crate::rule::SourceView;
use crate::scan::{any_at_or_above, sorted_most_severe_first, with_severity};
use crate::severity::{at_least_as_severe, severity_rank, Severity};
use crate::suppression::SuppressionKind;
use crate::text::{is_blank, lines_of};

verus! {

// ---------------------------------------------------------------------------
// Severity
// ---------------------------------------------------------------------------

/// "At least as severe as" is a total order on severities: reflexive,
/// antisymmetric, transitive and total.
pub proof fn law_severity_total_order(a: Severity, b: Severity, c: Severity)
    ensures
        at_least_as_severe(a, a),
        at_least_as_severe(a, b) || at_least_as_severe(b, a),
        at_least_as_severe(a, b) && at_least_as_severe(b, a) ==> a == b,
        at_least_as_severe(a, b) && at_least_as_severe(b, c) ==> at_least_as_severe(a, c),
{
}

/// A scan that fails at a threshold also fails at every less severe
/// threshold: lowering `--fail-on` never turns a failing scan into a
/// passing one.
pub proof fn law_threshold_monotone(s: Seq<Finding>, strict: Severity, loose: Severity)
    requires
        at_least_as_severe(strict, loose),
        any_at_or_above(s, strict),
    ensures
        any_at_or_above(s, loose),
{
    let i = choose|i: int| 0 <= i < s.len() && at_least_as_severe(#[trigger] s[i].severity, strict);
    assert(at_least_as_severe(s[i].severity, loose));
}

// ---------------------------------------------------------------------------
// Sorting by severity
// ---------------------------------------------------------------------------

proof fn lemma_with_severity_all(s: Seq<Finding>, sev: Severity)
    ensures
        forall|i: int| 0 <= i < with_severity(s, sev).len() ==> (#[trigger] with_severity(s, sev)[i]).severity == sev,
        with_severity(s, sev).len() <= s.len(),
    decreases s.len(),
{
    if s.len() > 0 {
        lemma_with_severity_all(s.drop_last(), sev);
    }
}

/// The per-severity parts of `s`, as one multiset.
spec fn parts_multiset(s: Seq<Finding>) -> Multiset<Finding> {
    with_severity(s, Severity::Critical).to_multiset().add(
        with_severity(s, Severity::High).to_multiset(),
    ).add(with_severity(s, Severity::Medium).to_multiset()).add(
        with_severity(s, Severity::Low).to_multiset(),
    ).add(with_severity(s, Severity::Info).to_multiset())
}

proof fn lemma_parts_multiset(s: Seq<Finding>)
    ensures
        parts_multiset(s) =~= s.to_multiset(),
    decreases s.len(),
{
    broadcast use vstd::multiset::group_multiset_axioms;
    broadcast use vstd::seq_lib::group_to_multiset_ensures;

    if s.len() == 0 {
        assert(with_severity(s, Severity::Critical) =~= Seq::<Finding>::empty());
        assert(with_severity(s, Severity::High) =~= Seq::<Finding>::empty());
        assert(with_severity(s, Severity::Medium) =~= Seq::<Finding>::empty());
        assert(with_severity(s, Severity::Low) =~= Seq::<Finding>::empty());
        assert(with_severity(s, Severity::Info) =~= Seq::<Finding>::empty());
        assert(s =~= Seq::<Finding>::empty());
    } else {
        let t = s.drop_last();
        let x = s.last();
        lemma_parts_multiset(t);
        assert(s =~= t.push(x));
        assert(s.to_multiset() =~= t.to_multiset().insert(x));
        assert(parts_multiset(s) =~= parts_multiset(t).insert(x));
    }
}

/// Sorting by severity is a stable reordering into most-severe-first
/// order: it keeps every finding exactly once (the same multiset), and
/// every finding comes before all less severe ones.
pub proof fn law_sorted_by_severity(s: Seq<Finding>)
    ensures
        sorted_most_severe_first(s).to_multiset() =~= s.to_multiset(),
        sorted_most_severe_first(s).len() == s.len(),
        forall|i: int, j: int|
            0 <= i < j < sorted_most_severe_first(s).len() ==> severity_rank(
                #[trigger] sorted_most_severe_first(s)[i].severity,
            ) <= severity_rank(#[trigger] sorted_most_severe_first(s)[j].severity),
{
    broadcast use vstd::multiset::group_multiset_axioms;
    broadcast use vstd::seq_lib::group_to_multiset_ensures;

    let c = with_severity(s, Severity::Critical);
    let h = with_severity(s, Severity::High);
    let m = with_severity(s, Severity::Medium);
    let l = with_severity(s, Severity::Low);
    let n = with_severity(s, Severity::Info);
    vstd::seq_lib::lemma_multiset_commutative(c, h);
    vstd::seq_lib::lemma_multiset_commutative(c + h, m);
    vstd::seq_lib::lemma_multiset_commutative(c + h + m, l);
    vstd::seq_lib::lemma_multiset_commutative(c + h + m + l, n);
    lemma_parts_multiset(s);
    lemma_with_severity_all(s, Severity::Critical);
    lemma_with_severity_all(s, Severity::High);
    lemma_with_severity_all(s, Severity::Medium);
    lemma_with_severity_all(s, Severity::Low);
    lemma_with_severity_all(s, Severity::Info);
    let sorted = sorted_most_severe_first(s);
    assert(sorted == c + h + m + l + n);
    assert forall|i: int| 0 <= i < sorted.len() implies severity_rank(#[trigger] sorted[i].severity) == (
    if i < c.len() {
        0int
    } else if i < c.len() + h.len() {
        1int
    } else if i < c.len() + h.len() + m.len() {
        2int
    } else if i < c.len() + h.len() + m.len() + l.len() {
        3int
    } else {
        4int
    }) by {
        if i < c.len() {
            assert(sorted[i] == c[i]);
        } else if i < c.len() + h.len() {
            assert(sorted[i] == h[i - c.len()]);
        } else if i < c.len() + h.len() + m.len() {
            assert(sorted[i] == m[i - c.len() - h.len()]);
        } else if i < c.len() + h.len() + m.len() + l.len() {
            assert(sorted[i] == l[i - c.len() - h.len() - m.len()]);
        } else {
            assert(sorted[i] == n[i - c.len() - h.len() - m.len() - l.len()]);
        }
    }
    assert(sorted.to_multiset().len() == s.to_multiset().len());
}

proof fn lemma_with_severity_concat(a: Seq<Finding>, b: Seq<Finding>, sev: Severity)
    ensures
        with_severity(a + b, sev) == with_severity(a, sev) + with_severity(b, sev),
    decreases b.len(),
{
    if b.len() == 0 {
        assert(a + b =~= a);
        assert(with_severity(a, sev) + with_severity(b, sev) =~= with_severity(a, sev));
    } else {
        lemma_with_severity_concat(a, b.drop_last(), sev);
        assert((a + b).drop_last() =~= a + b.drop_last());
        assert((a + b).last() == b.last());
        if b.last().severity == sev {
            assert(with_severity(a, sev) + with_severity(b, sev) =~= (with_severity(a, sev) + with_severity(
                b.drop_last(),
                sev,
            )).push(b.last()));
        }
    }
}

proof fn lemma_with_severity_twice(s: Seq<Finding>, t: Severity, sev: Severity)
    ensures
        with_severity(with_severity(s, t), sev) == if t == sev {
            with_severity(s, sev)
        } else {
            Seq::<Finding>::empty()
        },
    decreases s.len(),
{
    if s.len() > 0 {
        lemma_with_severity_twice(s.drop_last(), t, sev);
        if s.last().severity == t {
            let w = with_severity(s, t);
            assert(w.drop_last() =~= with_severity(s.drop_last(), t));
        }
    } else {
        assert(with_severity(s, t) =~= Seq::<Finding>::empty());
    }
}

/// Sorting by severity is stable: for every severity, the findings of that
/// severity come out in the order they went in.
pub proof fn law_sorted_by_severity_stable(s: Seq<Finding>, sev: Severity)
    ensures
        with_severity(sorted_most_severe_first(s), sev) == with_severity(s, sev),
{
    let c = with_severity(s, Severity::Critical);
    let h = with_severity(s, Severity::High);
    let m = with_severity(s, Severity::Medium);
    let l = with_severity(s, Severity::Low);
    let n = with_severity(s, Severity::Info);
    lemma_with_severity_concat(c, h, sev);
    lemma_with_severity_concat(c + h, m, sev);
    lemma_with_severity_concat(c + h + m, l, sev);
    lemma_with_severity_concat(c + h + m + l, n, sev);
    lemma_with_severity_twice(s, Severity::Critical, sev);
    lemma_with_severity_twice(s, Severity::High, sev);
    lemma_with_severity_twice(s, Severity::Medium, sev);
    lemma_with_severity_twice(s, Severity::Low, sev);
    lemma_with_severity_twice(s, Severity::Info, sev);
    let e = Seq::<Finding>::empty();
    assert(with_severity(sorted_most_severe_first(s), sev) =~= with_severity(s, sev)) by {
        assert(e + e =~= e);
        assert(forall|x: Seq<Finding>| #[trigger] (x + e) =~= x);
        assert(forall|x: Seq<Finding>| #[trigger] (e + x) =~= x);
    }
}

/// The per-severity counts of the report summaries add up to the total
/// number of findings: every finding has exactly one severity.
pub proof fn law_severity_counts_sum(s: Seq<Finding>)
    ensures
        with_severity(s, Severity::Critical).len() + with_severity(s, Severity::High).len() + with_severity(
            s,
            Severity::Medium,
        ).len() + with_severity(s, Severity::Low).len() + with_severity(s, Severity::Info).len() == s.len(),
{
    law_sorted_by_severity(s);
}

// ---------------------------------------------------------------------------
// Suppression
// ---------------------------------------------------------------------------

proof fn lemma_partition_upto(fs: Seq<FindingView>, ds: Seq<DirectiveSpec>, es: Seq<SuppressionEntry>, n: int)
    requires
        0 <= n <= fs.len(),
    ensures
        active_upto(fs, ds, es, n).len() + suppressed_upto(fs, ds, es, n).len() == n,
        forall|i: int|
            0 <= i < active_upto(fs, ds, es, n).len() ==> suppression_of(ds, es, #[trigger] active_upto(fs, ds, es, n)[i]) is None,
        forall|i: int|
            0 <= i < suppressed_upto(fs, ds, es, n).len() ==> suppression_of(ds, es, (#[trigger] suppressed_upto(fs, ds, es, n)[i]).0)
                == Some((suppressed_upto(fs, ds, es, n)[i].1, suppressed_upto(fs, ds, es, n)[i].2)),
        active_upto(fs, ds, es, n).to_multiset().add(
            suppressed_upto(fs, ds, es, n).map_values(|x: (FindingView, Seq<char>, SuppressionKind)| x.0).to_multiset(),
        ) =~= fs.take(n).to_multiset(),
    decreases n,
{
    broadcast use vstd::multiset::group_multiset_axioms;
    broadcast use vstd::seq_lib::group_to_multiset_ensures;

    if n == 0 {
        assert(fs.take(0) =~= Seq::<FindingView>::empty());
        assert(active_upto(fs, ds, es, 0) =~= Seq::<FindingView>::empty());
        assert(suppressed_upto(fs, ds, es, 0).map_values(|x: (FindingView, Seq<char>, SuppressionKind)| x.0) =~= Seq::<FindingView>::empty());
    } else {
        lemma_partition_upto(fs, ds, es, n - 1);
        let f = fs[n - 1];
        let a0 = active_upto(fs, ds, es, n - 1);
        let s0 = suppressed_upto(fs, ds, es, n - 1);
        assert(fs.take(n) =~= fs.take(n - 1).push(f));
        match suppression_of(ds, es, f) {
            None => {
                assert(active_upto(fs, ds, es, n) =~= a0.push(f));
                assert(suppressed_upto(fs, ds, es, n) =~= s0);
            },
            Some((r, k)) => {
                assert(active_upto(fs, ds, es, n) =~= a0);
                assert(suppressed_upto(fs, ds, es, n) =~= s0.push((f, r, k)));
                assert(s0.push((f, r, k)).map_values(|x: (FindingView, Seq<char>, SuppressionKind)| x.0)
                    =~= s0.map_values(|x: (FindingView, Seq<char>, SuppressionKind)| x.0).push(f));
            },
        }
    }
}

/// Suppression partitions the findings and changes none of them: every
/// finding ends up exactly once either among the active findings (when no
/// directive or entry applies to it) or among the suppressed ones (with
/// the reason and kind of the suppression that applies), in order.
pub proof fn law_suppression_partition(fs: Seq<FindingView>, ds: Seq<DirectiveSpec>, es: Seq<SuppressionEntry>)
    ensures
        active_upto(fs, ds, es, fs.len() as int).len() + suppressed_upto(fs, ds, es, fs.len() as int).len() == fs.len(),
        forall|i: int|
            0 <= i < active_upto(fs, ds, es, fs.len() as int).len() ==> suppression_of(
                ds,
                es,
                #[trigger] active_upto(fs, ds, es, fs.len() as int)[i],
            ) is None,
        forall|i: int|
            0 <= i < suppressed_upto(fs, ds, es, fs.len() as int).len() ==> suppression_of(
                ds,
                es,
                (#[trigger] suppressed_upto(fs, ds, es, fs.len() as int)[i]).0,
            ) == Some(
                (suppressed_upto(fs, ds, es, fs.len() as int)[i].1, suppressed_upto(fs, ds, es, fs.len() as int)[i].2),
            ),
        active_upto(fs, ds, es, fs.len() as int).to_multiset().add(
            suppressed_upto(fs, ds, es, fs.len() as int).map_values(
                |x: (FindingView, Seq<char>, SuppressionKind)| x.0,
            ).to_multiset(),
        ) =~= fs.to_multiset(),
{
    lemma_partition_upto(fs, ds, es, fs.len() as int);
    assert(fs.take(fs.len() as int) =~= fs);
}

/// An applying inline directive takes precedence over any config entry:
/// a finding is suppressed by config only when no directive applies.
pub proof fn law_inline_precedence(ds: Seq<DirectiveSpec>, es: Seq<SuppressionEntry>, f: FindingView)
    ensures
        first_inline(ds, f, ds.len() as int) matches Some(r) ==> suppression_of(ds, es, f) == Some(
            (r, SuppressionKind::Inline),
        ),
        forall|r: Seq<char>|
            #[trigger] suppression_of(ds, es, f) == Some((r, SuppressionKind::Config)) ==> first_inline(
                ds,
                f,
                ds.len() as int,
            ) is None && first_config(es, f, es.len() as int) == Some(r),
{
}

proof fn lemma_lines_directives_reasons(path: Seq<char>, ls: Seq<Seq<char>>, k: int)
    ensures
        forall|i: int|
            0 <= i < lines_directives(path, ls, k).len() ==> !is_blank(
                (#[trigger] lines_directives(path, ls, k)[i]).reason,
            ),
    decreases k,
{
    if k > 0 {
        lemma_lines_directives_reasons(path, ls, k - 1);
        let a = lines_directives(path, ls, k - 1);
        let b = line_directive(path, ls[k - 1], crate::config::line_number(k - 1));
        assert forall|i: int| 0 <= i < (a + b).len() implies !is_blank((#[trigger] (a + b)[i]).reason) by {
            if i >= a.len() {
                assert((a + b)[i] == b[i - a.len()]);
            }
        }
    }
}

/// Every inline directive found in the sources states a non-blank reason:
/// a `zkguard:ignore` without one is never a directive (it only warns).
pub proof fn law_directives_have_reasons(ss: Seq<SourceView>, n: int)
    ensures
        forall|i: int|
            0 <= i < sources_directives(ss, n).len() ==> !is_blank(
                (#[trigger] sources_directives(ss, n)[i]).reason,
            ),
    decreases n,
{
    if n > 0 {
        law_directives_have_reasons(ss, n - 1);
        let ls = lines_of(ss[n - 1].source@);
        lemma_lines_directives_reasons(ss[n - 1].path@, ls, ls.len() as int);
        let a = sources_directives(ss, n - 1);
        let b = lines_directives(ss[n - 1].path@, ls, ls.len() as int);
        assert forall|i: int| 0 <= i < (a + b).len() implies !is_blank((#[trigger] (a + b)[i]).reason) by {
            if i >= a.len() {
                assert((a + b)[i] == b[i - a.len()]);
            }
        }
    }
}

proof fn lemma_first_inline_reason(ds: Seq<DirectiveSpec>, f: FindingView, n: int)
    requires
        forall|i: int| 0 <= i < ds.len() ==> !is_blank((#[trigger] ds[i]).reason),
        n <= ds.len(),
    ensures
        first_inline(ds, f, n) matches Some(r) ==> !is_blank(r),
    decreases n,
{
    if n > 0 {
        lemma_first_inline_reason(ds, f, n - 1);
    }
}

proof fn lemma_first_config_reason(es: Seq<SuppressionEntry>, f: FindingView, n: int)
    requires
        first_blank_reason(es, es.len() as int) is None,
        n <= es.len(),
    ensures
        first_config(es, f, n) matches Some(r) ==> !is_blank(r),
    decreases n,
{
    if n > 0 {
        lemma_first_config_reason(es, f, n - 1);
        if first_config(es, f, n - 1) is None && crate::config::config_matches(es[n - 1], f) {
            lemma_no_blank_reason(es, es.len() as int, n - 1);
        }
    }
}

proof fn lemma_no_blank_reason(es: Seq<SuppressionEntry>, m: int, i: int)
    requires
        first_blank_reason(es, m) is None,
        0 <= i < m,
    ensures
        !is_blank(es[i].reason),
    decreases m,
{
    if i < m - 1 {
        lemma_no_blank_reason(es, m - 1, i);
    }
}

/// With a validated configuration (no blank `reason`), every suppressed
/// finding carries a non-blank reason, whichever way it was suppressed.
pub proof fn law_suppressions_have_reasons(
    fs: Seq<FindingView>,
    ss: Seq<SourceView>,
    es: Seq<SuppressionEntry>,
)
    requires
        first_blank_reason(es, es.len() as int) is None,
    ensures
        forall|i: int|
            0 <= i < suppressed_upto(fs, sources_directives(ss, ss.len() as int), es, fs.len() as int).len()
                ==> !is_blank(
                (#[trigger] suppressed_upto(fs, sources_directives(ss, ss.len() as int), es, fs.len() as int)[i]).1,
            ),
{
    let ds = sources_directives(ss, ss.len() as int);
    law_directives_have_reasons(ss, ss.len() as int);
    lemma_partition_upto(fs, ds, es, fs.len() as int);
    let sup = suppressed_upto(fs, ds, es, fs.len() as int);
    assert forall|i: int| 0 <= i < sup.len() implies !is_blank((#[trigger] sup[i]).1) by {
        let f = sup[i].0;
        lemma_first_inline_reason(ds, f, ds.len() as int);
        lemma_first_config_reason(es, f, es.len() as int);
    }
}

// ---------------------------------------------------------------------------
// Rules a scan runs
// ---------------------------------------------------------------------------

proof fn lemma_enabled_file_rules(c: ConfigView, n: int)
    requires
        0 <= n <= registry_spec().len(),
    ensures
        forall|r: FileRule| #[trigger] enabled_file_rules(c, n).contains(r) <==> (exists|i: int|
            0 <= i < n && registry_spec()[i] == r) && rule_enabled(c, file_rule_meta(r).rule_id),
    decreases n,
{
    if n > 0 {
        lemma_enabled_file_rules(c, n - 1);
        let r = registry_spec()[n - 1];
        let prev = enabled_file_rules(c, n - 1);
        if rule_enabled(c, file_rule_meta(r).rule_id) {
            assert(enabled_file_rules(c, n) =~= prev.push(r));
        } else {
            assert(enabled_file_rules(c, n) =~= prev);
        }
        assert forall|x: FileRule| #[trigger] enabled_file_rules(c, n).contains(x) <==> (exists|i: int|
            0 <= i < n && registry_spec()[i] == x) && rule_enabled(c, file_rule_meta(x).rule_id) by {
            let cur = enabled_file_rules(c, n);
            if x == r {
                assert(registry_spec()[n - 1] == x);
                if rule_enabled(c, file_rule_meta(r).rule_id) {
                    assert(cur[cur.len() - 1] == r);
                }
            } else {
                if (exists|i: int| 0 <= i < n && registry_spec()[i] == x) && rule_enabled(c, file_rule_meta(x).rule_id) {
                    let i = choose|i: int| 0 <= i < n && registry_spec()[i] == x;
                    assert(i < n - 1);
                    assert(prev.contains(x));
                    let j = choose|j: int| 0 <= j < prev.len() && prev[j] == x;
                    assert(cur[j] == x);
                }
                if cur.contains(x) {
                    let j = choose|j: int| 0 <= j < cur.len() && cur[j] == x;
                    assert(j < prev.len());
                    assert(prev[j] == x);
                    assert(prev.contains(x));
                }
            }
        }
    }
}

proof fn lemma_enabled_project_rules(c: ConfigView, n: int)
    requires
        0 <= n <= project_registry_spec().len(),
    ensures
        forall|r: ProjectLevelRule| #[trigger] enabled_project_rules(c, n).contains(r) <==> (exists|i: int|
            0 <= i < n && project_registry_spec()[i] == r) && rule_enabled(c, project_rule_meta(r).rule_id),
    decreases n,
{
    if n > 0 {
        lemma_enabled_project_rules(c, n - 1);
        let r = project_registry_spec()[n - 1];
        let prev = enabled_project_rules(c, n - 1);
        if rule_enabled(c, project_rule_meta(r).rule_id) {
            assert(enabled_project_rules(c, n) =~= prev.push(r));
        } else {
            assert(enabled_project_rules(c, n) =~= prev);
        }
        assert forall|x: ProjectLevelRule| #[trigger] enabled_project_rules(c, n).contains(x) <==> (exists|i: int|
            0 <= i < n && project_registry_spec()[i] == x) && rule_enabled(c, project_rule_meta(x).rule_id) by {
            if x == r {
                assert(project_registry_spec()[n - 1] == x);
            }
            if (exists|i: int| 0 <= i < n && project_registry_spec()[i] == x) && x != r {
                let i = choose|i: int| 0 <= i < n && project_registry_spec()[i] == x;
                assert(i < n - 1);
            }
            if enabled_project_rules(c, n).contains(x) && x != r {
                assert(prev.contains(x));
            }
        }
    }
}

/// A scan runs exactly the registered rules that the configuration leaves
/// enabled: a rule set to `false` never runs (so it produces no finding
/// and is not listed as run), every other registered rule does.
pub proof fn law_scan_runs_enabled_rules(c: ConfigView)
    ensures
        forall|r: FileRule| #[trigger] file_rules_run(c).contains(r) <==> registry_spec().contains(r)
            && rule_enabled(c, file_rule_meta(r).rule_id),
        forall|r: ProjectLevelRule| #[trigger] project_rules_run(c).contains(r) <==> project_registry_spec().contains(r)
            && rule_enabled(c, project_rule_meta(r).rule_id),
{
    lemma_enabled_file_rules(c, registry_spec().len() as int);
    lemma_enabled_project_rules(c, project_registry_spec().len() as int);
}

proof fn lemma_all_file_rules_enabled(c: ConfigView, n: int)
    requires
        0 <= n <= registry_spec().len(),
        forall|id: Seq<char>| #[trigger] c.rules.contains_key(id) ==> c.rules[id],
    ensures
        enabled_file_rules(c, n) == registry_spec().take(n),
    decreases n,
{
    if n > 0 {
        lemma_all_file_rules_enabled(c, n - 1);
        assert(rule_enabled(c, file_rule_meta(registry_spec()[n - 1]).rule_id));
        assert(registry_spec().take(n) =~= registry_spec().take(n - 1).push(registry_spec()[n - 1]));
        assert(enabled_file_rules(c, n) =~= registry_spec().take(n));
    } else {
        assert(registry_spec().take(0) =~= Seq::<FileRule>::empty());
    }
}

proof fn lemma_all_project_rules_enabled(c: ConfigView, n: int)
    requires
        0 <= n <= project_registry_spec().len(),
        forall|id: Seq<char>| #[trigger] c.rules.contains_key(id) ==> c.rules[id],
    ensures
        enabled_project_rules(c, n) == project_registry_spec().take(n),
    decreases n,
{
    if n > 0 {
        lemma_all_project_rules_enabled(c, n - 1);
        assert(rule_enabled(c, project_rule_meta(project_registry_spec()[n - 1]).rule_id));
        assert(project_registry_spec().take(n) =~= project_registry_spec().take(n - 1).push(
            project_registry_spec()[n - 1],
        ));
        assert(enabled_project_rules(c, n) =~= project_registry_spec().take(n));
    } else {
        assert(project_registry_spec().take(0) =~= Seq::<ProjectLevelRule>::empty());
    }
}

/// `scan` and `rules list` agree on which rules exist: when the
/// configuration disables no rule (the default configuration among them),
/// a scan runs exactly the listed rules, in the listed order.
pub proof fn law_scan_and_listing_agree(c: ConfigView)
    requires
        forall|id: Seq<char>| #[trigger] c.rules.contains_key(id) ==> c.rules[id],
    ensures
        rules_run_meta(c) == catalog_spec(),
{
    lemma_all_file_rules_enabled(c, registry_spec().len() as int);
    lemma_all_project_rules_enabled(c, project_registry_spec().len() as int);
    assert(registry_spec().take(registry_spec().len() as int) =~= registry_spec());
    assert(project_registry_spec().take(project_registry_spec().len() as int) =~= project_registry_spec());
    assert(rules_run_meta(c) =~= catalog_spec());
}

/// `rules list` in the human format: the ID column is as wide as the
/// longest registered ID (`NOIR-CONSTRAINT-001`, 19 characters), so the
/// listing starts with the header
/// `RULE_ID              SEVERITY    CONFIDENCE  TITLE`, followed by the two
/// lines of each registered rule in registry order.
pub proof fn law_rules_listing_header()
    ensures
        catalog_spec().len() == 6,
        crate::commands::rules::id_width(catalog_spec(), 6) == 19,
        crate::commands::rules::human_listing(catalog_spec()) == "RULE_ID              SEVERITY    CONFIDENCE  TITLE\n"@
            + crate::commands::rules::human_rows(catalog_spec(), 6, 19),
{
    reveal_strlit("NOIR-PUBLIC-001");
    reveal_strlit("NOIR-CONSTRAINT-001");
    reveal_strlit("NOIR-RANGE-001");
    reveal_strlit("ZK-HASH-001");
    reveal_strlit("ZK-NULLIFIER-001");
    reveal_strlit("ZK-TEST-001");
    reveal_strlit("RULE_ID");
    reveal_strlit("  SEVERITY    CONFIDENCE  TITLE\n");
    reveal_strlit("RULE_ID              SEVERITY    CONFIDENCE  TITLE\n");
    let ms = catalog_spec();
    assert(ms.len() == 6);
    assert(ms[0].rule_id.len() == 15);
    assert(ms[1].rule_id.len() == 19);
    assert(ms[2].rule_id.len() == 14);
    assert(ms[3].rule_id.len() == 11);
    assert(ms[4].rule_id.len() == 16);
    assert(ms[5].rule_id.len() == 11);
    assert(crate::commands::rules::id_width(ms, 0) == 7);
    assert(crate::commands::rules::id_width(ms, 1) == 15);
    assert(crate::commands::rules::id_width(ms, 2) == 19);
    assert(crate::commands::rules::id_width(ms, 3) == 19);
    assert(crate::commands::rules::id_width(ms, 4) == 19);
    assert(crate::commands::rules::id_width(ms, 5) == 19);
    assert(crate::commands::rules::id_width(ms, 6) == 19);
    assert(crate::commands::rules::pad("RULE_ID"@, 19) + "  SEVERITY    CONFIDENCE  TITLE\n"@
        =~= "RULE_ID              SEVERITY    CONFIDENCE  TITLE\n"@);
}

// ---------------------------------------------------------------------------
// SARIF
// ---------------------------------------------------------------------------

proof fn lemma_last_index(rules: Seq<RuleMetadata>, id: Seq<char>, n: int)
    requires
        0 <= n <= rules.len(),
        n <= usize::MAX,
    ensures
        match last_index_of(rules, id, n) {
            Some(i) => i < n && rules[i as int].rule_id@ == id && forall|j: int|
                i < j < n ==> (#[trigger] rules[j]).rule_id@ != id,
            None => forall|j: int| 0 <= j < n ==> (#[trigger] rules[j]).rule_id@ != id,
        },
    decreases n,
{
    if n > 0 && rules[n - 1].rule_id@ != id {
        lemma_last_index(rules, id, n - 1);
    }
}

/// A SARIF result refers to a rule descriptor exactly when the finding's
/// rule is among the rules: then `ruleIndex` is the position of the last
/// descriptor with that ID; otherwise it is absent. Every result's start
/// line is at least 1.
pub proof fn law_sarif_rule_index(rules: Seq<RuleMetadata>, id: Seq<char>, line: Option<u32>)
    requires
        rules.len() <= usize::MAX,
    ensures
        match last_index_of(rules, id, rules.len() as int) {
            Some(i) => i < rules.len() && rules[i as int].rule_id@ == id && forall|j: int|
                i < j < rules.len() ==> (#[trigger] rules[j]).rule_id@ != id,
            None => forall|j: int| 0 <= j < rules.len() ==> (#[trigger] rules[j]).rule_id@ != id,
        },
        start_line_spec(line) >= 1,
        forall|l: u32| line == Some(l) && l >= 1 ==> start_line_spec(line) == l,
{
    lemma_last_index(rules, id, rules.len() as int);
}

/// After stripping every leading `p`, the text no longer starts with `p`.
proof fn lemma_strip_all_prefix(s: Seq<char>, p: Seq<char>)
    requires
        p.len() > 0,
    ensures
        !crate::text::starts_with(crate::text::strip_all_prefix(s, p), p),
    decreases s.len(),
{
    if crate::text::starts_with(s, p) {
        lemma_strip_all_prefix(s.subrange(p.len() as int, s.len() as int), p);
    }
}

/// The shape of every SARIF result: its `ruleIndex`, when present, points
/// at a descriptor with the result's `ruleId`, and it is absent only when
/// no descriptor has that ID; its level is `error`, `warning` or `note`,
/// following the finding's severity; its URI has no leading `./`; its start
/// line is at least 1. (The records are those `sarif_log` builds.)
pub proof fn law_sarif_shape(
    rules: Seq<RuleMetadata>,
    ds: Seq<SarifDescriptor>,
    f: Finding,
    r: SarifResultRecord,
)
    requires
        rules.len() <= usize::MAX,
        ds.len() == rules.len(),
        forall|i: int| 0 <= i < rules.len() ==> descriptor_spec(#[trigger] ds[i], rules[i]),
        result_spec(r, f, last_index_of(rules, f.rule_id@, rules.len() as int)),
    ensures
        r.rule_index matches Some(i) ==> i < ds.len() && ds[i as int].id@ == r.rule_id@,
        r.rule_index is None ==> forall|i: int| 0 <= i < ds.len() ==> (#[trigger] ds[i]).id@ != r.rule_id@,
        r.level@ == level_spec(f.severity),
        r.level@ == "error"@ || r.level@ == "warning"@ || r.level@ == "note"@,
        !crate::text::starts_with(r.uri@, crate::config::dot_slash()),
        r.start_line >= 1,
{
    law_sarif_rule_index(rules, f.rule_id@, f.line);
    lemma_strip_all_prefix(crate::config::forward_slashes(f.file@), crate::config::dot_slash());
    if r.rule_index is None {
        assert forall|i: int| 0 <= i < ds.len() implies (#[trigger] ds[i]).id@ != r.rule_id@ by {
            assert(descriptor_spec(ds[i], rules[i]));
        }
    }
}

// ---------------------------------------------------------------------------
// ZK-TEST-001
// ---------------------------------------------------------------------------

proof fn lemma_first_entry(ss: Seq<SourceView>, n: int)
    requires
        0 <= n <= ss.len(),
    ensures
        crate::rules::zk_test_001::first_entry_upto(ss, n) is Some <==> exists|i: int|
            0 <= i < n && crate::rules::zk_test_001::declares_main_spec(#[trigger] ss[i].source@),
        crate::rules::zk_test_001::first_entry_upto(ss, n) matches Some(k) ==> 0 <= k < n
            && crate::rules::zk_test_001::declares_main_spec(ss[k].source@),
    decreases n,
{
    if n > 0 {
        lemma_first_entry(ss, n - 1);
        if crate::rules::zk_test_001::first_entry_upto(ss, n - 1) is None
            && crate::rules::zk_test_001::declares_main_spec(ss[n - 1].source@) {
            assert(crate::rules::zk_test_001::declares_main_spec(ss[n - 1].source@));
        }
    }
}

/// `ZK-TEST-001` fires at most once per project, and it fires exactly when
/// some source declares `fn main` outside a comment and no source has a
/// negative test; the finding is on line 1 of the first source that
/// declares `fn main`. A `#[test` attribute whose text goes on to
/// `should_fail` marks a negative test whatever the function is named, and
/// so does a name whose lowercase form holds a negative marker.
pub proof fn law_test_rule(ss: Seq<SourceView>, codes: Seq<Seq<char>>, i: int)
    requires
        0 <= i < codes.len(),
    ensures
        crate::rules::zk_test_001::test_findings(ss).len() <= 1,
        crate::rules::zk_test_001::test_findings(ss).len() == 1 <==> (exists|k: int|
            0 <= k < ss.len() && crate::rules::zk_test_001::declares_main_spec(#[trigger] ss[k].source@))
            && !crate::rules::zk_test_001::any_negative(ss),
        crate::rules::zk_test_001::test_findings(ss).len() == 1 ==> crate::rules::zk_test_001::test_findings(
            ss,
        )[0].line == Some(1u32),
        crate::rules::zk_test_001::test_findings(ss).len() == 1 ==> exists|k: int|
            0 <= k < ss.len() && crate::rules::zk_test_001::declares_main_spec(ss[k].source@)
                && crate::rules::zk_test_001::test_findings(ss)[0].file == #[trigger] ss[k].path@,
        crate::rules::zk_test_001::test_at(codes, i).len() > 0 ==> crate::rules::zk_test_001::test_at(
            codes,
            i,
        ).len() == 1,
        crate::text::find_from(codes[i], crate::rules::zk_test_001::test_attr_pat(), 0) matches Some(pos)
            ==> (crate::text::contains(
            codes[i].subrange(pos, codes[i].len() as int),
            crate::rules::zk_test_001::should_fail_pat(),
        ) ==> crate::rules::zk_test_001::test_at(codes, i) == seq![true]),
        crate::text::find_from(codes[i], crate::rules::zk_test_001::test_attr_pat(), 0) is Some ==> (
        crate::rules::zk_test_001::fn_name_from(codes, i, i + 5) matches Some(n) ==> (
        crate::rules::zk_test_001::is_negative_name(crate::rules::zk_test_001::unicode_lowercase(n))
            ==> crate::rules::zk_test_001::test_at(codes, i) == seq![true])),
{
    lemma_first_entry(ss, ss.len() as int);
}

} // verus!
