//! `ZK-TEST-001`: circuit has an entry point but no negative test. A
//! project-level rule: the entry point and its tests may live in different
//! files.

use vstd::prelude::*;

use crate::finding::{located_finding, make_located_finding, Finding, FindingView};
use crate::rule::{ProjectRule, RuleMetadata, SourceView};
use crate::severity::{Confidence, Severity};
use crate::text::{
    chars_of, contains, decimal, find_from, find_from_exec, lemma_find_from, lines_exec,
    lines_of, matches_at, push_decimal, push_text, slice_of, string_of,
};

verus! {

pub const RULE_ID: &'static str = "ZK-TEST-001";

pub const TITLE: &'static str = "Circuit has an entry point but no negative test";

pub const DESCRIPTION: &'static str = "Project-level: flags a Noir project that declares `fn main` but has no negative test: no `#[test(should_fail)]`/`should_fail_with` attribute and no `#[test]` whose name contains fail/invalid/reject/negative/should_fail. Never runs nargo; a purely textual check over discovered `.nr` sources.";

pub const WHY_IT_MATTERS: &'static str = "A circuit with only happy-path tests (or none) can silently accept malformed or malicious witnesses, because nothing in the test suite ever exercises the rejection path the circuit is meant to enforce.";

pub const REMEDIATION: &'static str = "Add at least one `#[test(should_fail)]` (or `should_fail_with = \"...\"`) test that feeds the circuit a witness it must reject, alongside the happy-path tests. If failing-witness coverage lives in an external harness outside Noir's `#[test]` mechanism, document that next to the entry point and treat this finding as a known exception.";

pub const NO_TESTS_EVIDENCE: &'static str = "project declares `fn main` but has no `#[test]` functions at all";

pub const SOME_TESTS_EVIDENCE_START: &'static str = "project declares `fn main` and has ";

pub const SOME_TESTS_EVIDENCE_END: &'static str = " `#[test]` function(s), but none are negative tests (no `should_fail`/`should_fail_with` and no fail/invalid/reject/negative name)";

// ---------------------------------------------------------------------------
// Unicode character classes (std)
// ---------------------------------------------------------------------------

/// What `char::is_alphanumeric` returns for `c` (Unicode `Alphabetic` or
/// `Numeric`).
pub uninterp spec fn unicode_alphanumeric(c: char) -> bool;

/// What `str::to_lowercase` returns for `s` (Unicode lowercase mapping).
pub uninterp spec fn unicode_lowercase(s: Seq<char>) -> Seq<char>;

/// `char::is_alphanumeric`; the contract names its result and claims nothing
/// more of the Unicode tables.
#[verifier::external_body]
fn is_alphanumeric_char(c: char) -> (r: bool)
    ensures
        r == unicode_alphanumeric(c),
{
    c.is_alphanumeric()
}

/// `str::to_lowercase`; the contract names its result and claims nothing
/// more of the Unicode case mapping.
#[verifier::external_body]
fn lowercase(s: &str) -> (r: String)
    ensures
        r@ == unicode_lowercase(s@),
{
    s.to_lowercase()
}

// ---------------------------------------------------------------------------
// Specification
// ---------------------------------------------------------------------------

pub open spec fn comment_pat() -> Seq<char> {
    seq!['/', '/']
}

pub open spec fn fn_main_text() -> Seq<char> {
    seq!['f', 'n', ' ', 'm', 'a', 'i', 'n']
}

pub open spec fn test_attr_pat() -> Seq<char> {
    seq!['#', '[', 't', 'e', 's', 't']
}

pub open spec fn should_fail_pat() -> Seq<char> {
    seq!['s', 'h', 'o', 'u', 'l', 'd', '_', 'f', 'a', 'i', 'l']
}

pub open spec fn fn_space_pat() -> Seq<char> {
    seq!['f', 'n', ' ']
}

/// Name fragments that mark a test as a negative test.
pub open spec fn negative_markers() -> Seq<Seq<char>> {
    seq![
        should_fail_pat(),
        seq!['f', 'a', 'i', 'l'],
        seq!['i', 'n', 'v', 'a', 'l', 'i', 'd'],
        seq!['r', 'e', 'j', 'e', 'c', 't'],
        seq!['n', 'e', 'g', 'a', 't', 'i', 'v', 'e'],
    ]
}

/// The code part of a line: everything before its first `//`.
pub open spec fn code_of(line: Seq<char>) -> Seq<char> {
    match find_from(line, comment_pat(), 0) {
        Some(k) => line.subrange(0, k),
        None => line,
    }
}

/// The line's code declares `fn main`: its first `fn main` is followed by
/// the end of the code, `(`, a space or a tab.
pub open spec fn line_declares_main(line: Seq<char>) -> bool {
    let code = code_of(line);
    match find_from(code, fn_main_text(), 0) {
        None => false,
        Some(pos) => {
            let a = pos + 7;
            a >= code.len() || code[a] == '(' || code[a] == ' ' || code[a] == '\t'
        },
    }
}

/// Some line of `src` declares `fn main` outside a `//` comment.
pub open spec fn declares_main_spec(src: Seq<char>) -> bool {
    exists|i: int| 0 <= i < lines_of(src).len() && line_declares_main(#[trigger] lines_of(src)[i])
}

/// The code parts of the lines of `src`.
pub open spec fn code_lines(src: Seq<char>) -> Seq<Seq<char>> {
    lines_of(src).map_values(|l: Seq<char>| code_of(l))
}

/// End of the run of name characters (Unicode alphanumeric or `_`) that
/// starts at `j`.
pub open spec fn name_end(s: Seq<char>, j: int) -> int
    decreases s.len() - j,
{
    if j < 0 || j >= s.len() {
        j
    } else if unicode_alphanumeric(s[j]) || s[j] == '_' {
        name_end(s, j + 1)
    } else {
        j
    }
}

/// The name after the first `fn ` of the line, if it is non-empty.
pub open spec fn fn_name_in(line: Seq<char>) -> Option<Seq<char>> {
    match find_from(line, fn_space_pat(), 0) {
        None => None,
        Some(pos) => {
            let e = name_end(line, pos + 3);
            if e > pos + 3 {
                Some(line.subrange(pos + 3, e))
            } else {
                None
            }
        },
    }
}

/// The first function name found on the code lines `i..stop`.
pub open spec fn fn_name_from(codes: Seq<Seq<char>>, i: int, stop: int) -> Option<Seq<char>>
    decreases stop - i,
{
    if i >= stop || i >= codes.len() || i < 0 {
        None
    } else {
        match fn_name_in(codes[i]) {
            Some(n) => Some(n),
            None => fn_name_from(codes, i + 1, stop),
        }
    }
}

/// The lowercased name contains a negative-test marker.
pub open spec fn is_negative_name(lower: Seq<char>) -> bool {
    exists|k: int| 0 <= k < 5 && contains(lower, #[trigger] negative_markers()[k])
}

/// The test (if any) whose `#[test` attribute is on code line `i`: whether
/// it is negative (`should_fail` in the attribute, or a negative marker in
/// the lowercased name of the first function on this or the next four
/// lines).
pub open spec fn test_at(codes: Seq<Seq<char>>, i: int) -> Seq<bool> {
    match find_from(codes[i], test_attr_pat(), 0) {
        None => seq![],
        Some(pos) => seq![
            contains(codes[i].subrange(pos, codes[i].len() as int), should_fail_pat()) || match fn_name_from(codes, i, i + 5) {
                Some(n) => is_negative_name(unicode_lowercase(n)),
                None => false,
            },
        ],
    }
}

/// The tests with attributes on the first `n` code lines.
pub open spec fn tests_upto(codes: Seq<Seq<char>>, n: int) -> Seq<bool>
    decreases n,
{
    if n <= 0 {
        seq![]
    } else {
        tests_upto(codes, n - 1) + test_at(codes, n - 1)
    }
}

/// The tests of `src`, each marked negative or not.
pub open spec fn source_tests(src: Seq<char>) -> Seq<bool> {
    tests_upto(code_lines(src), code_lines(src).len() as int)
}

/// Index of the first source that declares `fn main`, among the first `n`.
pub open spec fn first_entry_upto(ss: Seq<SourceView>, n: int) -> Option<int>
    decreases n,
{
    if n <= 0 {
        None
    } else {
        match first_entry_upto(ss, n - 1) {
            Some(k) => Some(k),
            None => if declares_main_spec(ss[n - 1].source@) {
                Some(n - 1)
            } else {
                None
            },
        }
    }
}

/// Number of tests in the first `n` sources, saturating at `u64::MAX`.
pub open spec fn tests_count_upto(ss: Seq<SourceView>, n: int) -> nat
    decreases n,
{
    if n <= 0 {
        0
    } else {
        let t = tests_count_upto(ss, n - 1) + source_tests(ss[n - 1].source@).len();
        if t > u64::MAX {
            u64::MAX as nat
        } else {
            t
        }
    }
}

/// Some source has a negative test.
pub open spec fn any_negative(ss: Seq<SourceView>) -> bool {
    exists|i: int, j: int|
        0 <= i < ss.len() && 0 <= j < source_tests(ss[i].source@).len() && #[trigger] source_tests(
            ss[i].source@,
        )[j]
}

/// The evidence of the finding, given the number of tests.
pub open spec fn test_evidence(count: nat) -> Seq<char> {
    if count == 0 {
        NO_TESTS_EVIDENCE@
    } else {
        SOME_TESTS_EVIDENCE_START@ + decimal(count) + SOME_TESTS_EVIDENCE_END@
    }
}

/// Every finding of this rule on the project `ss`: one at line 1 of the
/// first source that declares `fn main`, when no source has a negative test.
pub open spec fn test_findings(ss: Seq<SourceView>) -> Seq<FindingView> {
    match first_entry_upto(ss, ss.len() as int) {
        None => seq![],
        Some(e) => if any_negative(ss) {
            seq![]
        } else {
            seq![
                located_finding(
                    RULE_ID@,
                    TITLE@,
                    Severity::Low,
                    Confidence::Medium,
                    ss[e].path@,
                    1,
                    test_evidence(tests_count_upto(ss, ss.len() as int)),
                    WHY_IT_MATTERS@,
                    REMEDIATION@,
                ),
            ]
        },
    }
}

// ---------------------------------------------------------------------------
// Executable code
// ---------------------------------------------------------------------------

/// This rule's static metadata.
pub fn metadata() -> (m: RuleMetadata)
    ensures
        m.rule_id@ == RULE_ID@,
        m.title@ == TITLE@,
        m.default_severity == Severity::Low,
        m.default_confidence == Confidence::Medium,
        m.description@ == DESCRIPTION@,
{
    RuleMetadata::new(RULE_ID, TITLE, Severity::Low, Confidence::Medium, DESCRIPTION)
}

/// Executable [`code_of`].
fn code_of_exec(line: &Vec<char>) -> (r: Vec<char>)
    ensures
        r@ == code_of(line@),
{
    let pat = vec!['/', '/'];
    assert(pat@ =~= comment_pat());
    match find_from_exec(line, &pat, 0) {
        Some(k) => {
            proof {
                lemma_find_from(line@, comment_pat(), 0);
            }
            slice_of(line, 0, k)
        },
        None => slice_of(line, 0, line.len()),
    }
}

/// Executable [`line_declares_main`].
fn line_declares_main_exec(line: &Vec<char>) -> (r: bool)
    ensures
        r == line_declares_main(line@),
{
    let code = code_of_exec(line);
    let pat = vec!['f', 'n', ' ', 'm', 'a', 'i', 'n'];
    assert(pat@ =~= fn_main_text());
    match find_from_exec(&code, &pat, 0) {
        None => false,
        Some(pos) => {
            proof {
                lemma_find_from(code@, fn_main_text(), 0);
                assert(matches_at(code@, fn_main_text(), pos as int));
            }
            let a = pos + 7;
            a >= code.len() || code[a] == '(' || code[a] == ' ' || code[a] == '\t'
        },
    }
}

/// Whether some line of `source` declares `fn main` (not `fn main_x`, not
/// inside a `//` comment).
pub fn declares_main(source: &str) -> (r: bool)
    ensures
        r == declares_main_spec(source@),
{
    let s = chars_of(source);
    let lines = lines_exec(&s);
    let ghost ls = lines@.map_values(|l: Vec<char>| l@);
    let mut i: usize = 0;
    while i < lines.len()
        invariant
            i <= lines@.len(),
            ls == lines@.map_values(|l: Vec<char>| l@),
            ls == lines_of(source@),
            forall|j: int| 0 <= j < i ==> !line_declares_main(#[trigger] ls[j]),
        decreases lines@.len() - i,
    {
        assert(lines@[i as int]@ == ls[i as int]);
        if line_declares_main_exec(&lines[i]) {
            assert(line_declares_main(lines_of(source@)[i as int]));
            return true;
        }
        i += 1;
    }
    false
}

/// Executable [`name_end`].
fn name_end_exec(s: &Vec<char>, j: usize) -> (r: usize)
    requires
        j <= s@.len(),
    ensures
        r as int == name_end(s@, j as int),
        j <= r <= s@.len(),
{
    let mut k = j;
    while k < s.len() && (is_alphanumeric_char(s[k]) || s[k] == '_')
        invariant
            j <= k <= s@.len(),
            name_end(s@, j as int) == name_end(s@, k as int),
        decreases s@.len() - k,
    {
        k += 1;
    }
    k
}

/// Executable [`fn_name_in`].
fn fn_name_in_exec(line: &Vec<char>) -> (r: Option<Vec<char>>)
    ensures
        match r {
            Some(n) => fn_name_in(line@) == Some(n@),
            None => fn_name_in(line@) is None,
        },
{
    let pat = vec!['f', 'n', ' '];
    assert(pat@ =~= fn_space_pat());
    match find_from_exec(line, &pat, 0) {
        None => None,
        Some(pos) => {
            proof {
                lemma_find_from(line@, fn_space_pat(), 0);
                assert(matches_at(line@, fn_space_pat(), pos as int));
            }
            assert(pos + 3 <= line.len());
            let e = name_end_exec(line, pos + 3);
            if e > pos + 3 {
                Some(slice_of(line, pos + 3, e))
            } else {
                None
            }
        },
    }
}

/// The first function name on the code lines `start .. start + 5`.
fn fn_name_near(codes: &Vec<Vec<char>>, start: usize) -> (r: Option<Vec<char>>)
    requires
        start < codes@.len(),
    ensures
        match r {
            Some(n) => fn_name_from(codes@.map_values(|c: Vec<char>| c@), start as int, start + 5) == Some(n@),
            None => fn_name_from(codes@.map_values(|c: Vec<char>| c@), start as int, start + 5) is None,
        },
{
    let ghost cs = codes@.map_values(|c: Vec<char>| c@);
    let stop: usize = if codes.len() - start > 5 { start + 5 } else { codes.len() };
    let mut i = start;
    while i < stop
        invariant
            start <= i <= stop <= codes@.len(),
            stop <= start + 5,
            cs == codes@.map_values(|c: Vec<char>| c@),
            fn_name_from(cs, start as int, start + 5) == fn_name_from(cs, i as int, start + 5),
        decreases stop - i,
    {
        assert(codes@[i as int]@ == cs[i as int]);
        match fn_name_in_exec(&codes[i]) {
            Some(n) => {
                assert(fn_name_from(cs, i as int, start + 5) == fn_name_in(cs[i as int]));
                return Some(n);
            },
            None => {},
        }
        i += 1;
    }
    None
}

fn negative_marker_vec(k: usize) -> (r: Vec<char>)
    requires
        k < 5,
    ensures
        r@ == negative_markers()[k as int],
{
    let r = if k == 0 {
        vec!['s', 'h', 'o', 'u', 'l', 'd', '_', 'f', 'a', 'i', 'l']
    } else if k == 1 {
        vec!['f', 'a', 'i', 'l']
    } else if k == 2 {
        vec!['i', 'n', 'v', 'a', 'l', 'i', 'd']
    } else if k == 3 {
        vec!['r', 'e', 'j', 'e', 'c', 't']
    } else {
        vec!['n', 'e', 'g', 'a', 't', 'i', 'v', 'e']
    };
    assert(r@ =~= negative_markers()[k as int]);
    r
}

/// Whether an already-lowercased test name marks a negative test: it
/// contains `should_fail`, `fail`, `invalid`, `reject` or `negative`.
pub fn name_marks_negative(lowered: &str) -> (r: bool)
    ensures
        r == is_negative_name(lowered@),
{
    let s = chars_of(lowered);
    let mut k: usize = 0;
    while k < 5
        invariant
            k <= 5,
            s@ == lowered@,
            forall|j: int| 0 <= j < k ==> !contains(s@, #[trigger] negative_markers()[j]),
        decreases 5 - k,
    {
        let m = negative_marker_vec(k);
        if find_from_exec(&s, &m, 0).is_some() {
            return true;
        }
        k += 1;
    }
    false
}

/// The tests of `source` in order, each `true` when it is a negative test.
pub fn tests_in(source: &str) -> (r: Vec<bool>)
    ensures
        r@ == source_tests(source@),
{
    let s = chars_of(source);
    let lines = lines_exec(&s);
    let mut codes: Vec<Vec<char>> = Vec::new();
    let mut i: usize = 0;
    while i < lines.len()
        invariant
            i <= lines@.len(),
            lines@.map_values(|l: Vec<char>| l@) == lines_of(source@),
            codes@.len() == i,
            forall|j: int| 0 <= j < i ==> (#[trigger] codes@[j])@ == code_of(lines@[j]@),
        decreases lines@.len() - i,
    {
        codes.push(code_of_exec(&lines[i]));
        i += 1;
    }
    let ghost cs = codes@.map_values(|c: Vec<char>| c@);
    assert(cs =~= code_lines(source@)) by {
        assert forall|j: int| 0 <= j < cs.len() implies cs[j] == code_lines(source@)[j] by {
            assert(lines@.map_values(|l: Vec<char>| l@)[j] == lines@[j]@);
        }
    }
    let attr = vec!['#', '[', 't', 'e', 's', 't'];
    assert(attr@ =~= test_attr_pat());
    let sf = vec!['s', 'h', 'o', 'u', 'l', 'd', '_', 'f', 'a', 'i', 'l'];
    assert(sf@ =~= should_fail_pat());
    let mut out: Vec<bool> = Vec::new();
    let mut k: usize = 0;
    while k < codes.len()
        invariant
            k <= codes@.len(),
            cs == codes@.map_values(|c: Vec<char>| c@),
            cs == code_lines(source@),
            attr@ == test_attr_pat(),
            sf@ == should_fail_pat(),
            out@ == tests_upto(cs, k as int),
        decreases codes@.len() - k,
    {
        let line = &codes[k];
        assert(line@ == cs[k as int]);
        match find_from_exec(line, &attr, 0) {
            None => {
                assert(out@ =~= tests_upto(cs, k + 1));
            },
            Some(pos) => {
                proof {
                    lemma_find_from(line@, test_attr_pat(), 0);
                }
                let rest = slice_of(line, pos, line.len());
                let mut negative = find_from_exec(&rest, &sf, 0).is_some();
                if !negative {
                    match fn_name_near(&codes, k) {
                        Some(name) => {
                            let lowered = lowercase(string_of(&name).as_str());
                            negative = name_marks_negative(lowered.as_str());
                        },
                        None => {},
                    }
                }
                out.push(negative);
                assert(out@ =~= tests_upto(cs, k + 1));
            },
        }
        k += 1;
    }
    out
}

/// Flags a project whose sources declare `fn main` but hold no negative
/// test: one finding at line 1 of the first source that declares
/// `fn main`, whose evidence says whether there are no tests at all or how
/// many tests there are. A project without `fn main` is never flagged.
pub fn check_sources(sources: &[SourceView]) -> (r: Vec<Finding>)
    ensures
        r@.map_values(|f: Finding| f@) == test_findings(sources@),
{
    let mut entry: Option<usize> = None;
    let mut i: usize = 0;
    while i < sources.len()
        invariant
            i <= sources@.len(),
            match entry {
                Some(k) => first_entry_upto(sources@, i as int) == Some(k as int) && k < i,
                None => first_entry_upto(sources@, i as int) is None,
            },
        decreases sources@.len() - i,
    {
        if entry.is_none() && declares_main(sources[i].source.as_str()) {
            entry = Some(i);
        }
        i += 1;
    }
    let e = match entry {
        None => {
            let out: Vec<Finding> = Vec::new();
            assert(out@.map_values(|f: Finding| f@) =~= test_findings(sources@));
            return out;
        },
        Some(e) => e,
    };
    let mut count: u64 = 0;
    let mut negative = false;
    let mut n: usize = 0;
    while n < sources.len()
        invariant
            n <= sources@.len(),
            count as nat == tests_count_upto(sources@, n as int),
            negative == exists|a: int, b: int|
                0 <= a < n && 0 <= b < source_tests(sources@[a].source@).len() && #[trigger] source_tests(
                    sources@[a].source@,
                )[b],
        decreases sources@.len() - n,
    {
        let tests = tests_in(sources[n].source.as_str());
        let len = tests.len();
        count = if (len as u128) + (count as u128) > u64::MAX as u128 {
            u64::MAX
        } else {
            count + len as u64
        };
        let mut t: usize = 0;
        let ghost was = negative;
        while t < tests.len()
            invariant
                t <= tests@.len(),
                tests@ == source_tests(sources@[n as int].source@),
                negative == (was || exists|b: int| 0 <= b < t && #[trigger] tests@[b]),
            decreases tests@.len() - t,
        {
            if tests[t] {
                negative = true;
            }
            t += 1;
        }
        proof {
            if negative && !was {
                let b = choose|b: int| 0 <= b < tests@.len() && #[trigger] tests@[b];
                assert(source_tests(sources@[n as int].source@)[b]);
            }
            if !negative {
                assert forall|a: int, b: int|
                    0 <= a < n + 1 && 0 <= b < source_tests(sources@[a].source@).len() implies !#[trigger] source_tests(
                        sources@[a].source@,
                    )[b] by {
                    if a == n {
                        assert(!tests@[b]);
                    }
                }
            }
        }
        n += 1;
    }
    if negative {
        let out: Vec<Finding> = Vec::new();
        assert(out@.map_values(|f: Finding| f@) =~= test_findings(sources@));
        return out;
    }
    let mut evidence = String::new();
    if count == 0 {
        push_text(&mut evidence, NO_TESTS_EVIDENCE);
    } else {
        push_text(&mut evidence, SOME_TESTS_EVIDENCE_START);
        push_decimal(&mut evidence, count);
        push_text(&mut evidence, SOME_TESTS_EVIDENCE_END);
    }
    assert(evidence@ =~= test_evidence(count as nat));
    let f = make_located_finding(
        RULE_ID,
        TITLE,
        Severity::Low,
        Confidence::Medium,
        sources[e].path.as_str(),
        1,
        evidence.as_str(),
        WHY_IT_MATTERS,
        REMEDIATION,
    );
    let out = vec![f];
    assert(out@.map_values(|f: Finding| f@) =~= test_findings(sources@));
    out
}

/// The `ZK-TEST-001` rule.
#[derive(Debug, Default, Clone, Copy)]
pub struct ZkTest001;

impl ProjectRule for ZkTest001 {
    fn metadata(&self) -> (m: RuleMetadata)
        ensures
            m.rule_id@ == RULE_ID@,
            m.title@ == TITLE@,
            m.default_severity == Severity::Low,
            m.default_confidence == Confidence::Medium,
            m.description@ == DESCRIPTION@,
    {
        metadata()
    }

    fn check_project(&self, sources: &[SourceView]) -> (r: Vec<Finding>)
        ensures
            r@.map_values(|f: Finding| f@) == test_findings(sources@),
    {
        check_sources(sources)
    }
}

} // verus!
