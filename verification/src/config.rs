//! Optional project configuration: which rules run, which severity fails
//! the scan, and which findings are suppressed (inline directives and
//! `[[suppress]]` entries, each with a required reason).
//!
//! Configuration is policy applied after analysis: it never changes what a
//! rule detects, only whether the rule runs and whether a finding it
//! produced stays in the active result set.

use vstd::prelude::*;

use crate::finding::{Finding, FindingView};
use crate::patterns::same_chars;
use crate::rule::SourceView;
use crate::severity::Severity;
use crate::suppression::{SuppressedFinding, SuppressionKind};
use crate::text::{
    chars_of, decimal, find_from, find_from_exec, is_blank, is_ws, lemma_find_from,
    lemma_skip_ws_bounds, lines_exec, lines_of, matches_at, matches_at_exec, push_chars,
    push_decimal, push_text, skip_ws, skip_ws_exec, slice_of, string_of, strip_all_prefix,
    strip_all_prefix_exec, trim, ws_char,
};

verus! {

/// The config file name looked up in the scanned project's root directory.
pub const CONFIG_FILE_NAME: &'static str = "zkguard.toml";

/// The inline suppression marker.
pub const INLINE_MARKER: &'static str = "zkguard:ignore";

/// One `[[suppress]]` entry: hide findings of `rule` in `path` (optionally
/// only on `line`), with a required human `reason`.
#[derive(Debug, Clone, PartialEq)]
pub struct FileSuppression {
    /// The `rule_id` to suppress.
    pub rule: String,
    /// The reported file path to suppress in (compared after normalizing to
    /// forward slashes and stripping a leading `./`).
    pub path: String,
    /// If set, only suppress a finding on exactly this 1-based line.
    pub line: Option<u32>,
    /// Required, non-empty explanation (checked by [`Config::validate`]).
    pub reason: String,
}

/// The mathematical content of a [`FileSuppression`].
pub ghost struct SuppressionEntry {
    pub rule: Seq<char>,
    pub path: Seq<char>,
    pub line: Option<u32>,
    pub reason: Seq<char>,
}

impl View for FileSuppression {
    type V = SuppressionEntry;

    open spec fn view(&self) -> SuppressionEntry {
        SuppressionEntry {
            rule: self.rule@,
            path: self.path@,
            line: self.line,
            reason: self.reason@,
        }
    }
}

/// Parsed configuration (or the all-default configuration when there is no
/// config file).
#[derive(Debug, Clone)]
pub struct Config {
    /// Minimum severity that fails the scan, unless the command line gives
    /// one.
    fail_on: Option<Severity>,
    /// Per-rule enable/disable settings in file order; a later setting for
    /// the same rule replaces an earlier one.
    rules: Vec<(String, bool)>,
    /// File-based suppressions.
    suppress: Vec<FileSuppression>,
}

/// The mathematical content of a [`Config`].
pub ghost struct ConfigView {
    pub fail_on: Option<Severity>,
    /// Rule ID to setting.
    pub rules: Map<Seq<char>, bool>,
    pub suppress: Seq<SuppressionEntry>,
}

/// The map that the settings `s`, applied in order, produce.
pub open spec fn rules_map(s: Seq<(String, bool)>) -> Map<Seq<char>, bool>
    decreases s.len(),
{
    if s.len() == 0 {
        Map::empty()
    } else {
        rules_map(s.drop_last()).insert(s.last().0@, s.last().1)
    }
}

impl View for Config {
    type V = ConfigView;

    closed spec fn view(&self) -> ConfigView {
        ConfigView {
            fail_on: self.fail_on,
            rules: rules_map(self.rules@),
            suppress: self.suppress@.map_values(|e: FileSuppression| e@),
        }
    }
}

/// Why configuration could not be loaded.
#[derive(Debug, Clone, PartialEq)]
pub enum ConfigError {
    /// The config file exists but could not be read.
    Io { path: String, message: String },
    /// The config file could not be parsed into a configuration.
    Parse { path: String, message: String },
    /// The `index`-th (0-based) `[[suppress]]` entry had a blank `reason`.
    EmptySuppressReason { index: usize },
}

/// A rule is enabled unless the configuration sets it to `false`.
pub open spec fn rule_enabled(c: ConfigView, rule_id: Seq<char>) -> bool {
    if c.rules.contains_key(rule_id) {
        c.rules[rule_id]
    } else {
        true
    }
}

/// The command-line value wins, then the config value, then `Low`.
pub open spec fn fail_on_spec(c: ConfigView, cli: Option<Severity>) -> Severity {
    match cli {
        Some(s) => s,
        None => match c.fail_on {
            Some(s) => s,
            None => Severity::Low,
        },
    }
}

/// Index of the first entry among the first `n` whose reason is blank.
pub open spec fn first_blank_reason(es: Seq<SuppressionEntry>, n: int) -> Option<int>
    decreases n,
{
    if n <= 0 {
        None
    } else {
        match first_blank_reason(es, n - 1) {
            Some(k) => Some(k),
            None => if is_blank(es[n - 1].reason) {
                Some(n - 1)
            } else {
                None
            },
        }
    }
}

/// Once found, the first blank reason stays the first as more entries are
/// considered.
pub proof fn lemma_first_blank_stable(es: Seq<SuppressionEntry>, m: int, n: int)
    requires
        m <= n,
        first_blank_reason(es, m) is Some,
    ensures
        first_blank_reason(es, n) == first_blank_reason(es, m),
    decreases n - m,
{
    if m < n {
        lemma_first_blank_stable(es, m, n - 1);
    }
}

pub const EMPTY_REASON_START: &'static str = "zkguard.toml: [[suppress]] entry #";

pub const EMPTY_REASON_END: &'static str = " has an empty reason; every suppression must state a non-empty reason";

pub const READ_FAILED: &'static str = "could not read ";

pub const PARSE_FAILED: &'static str = "could not parse ";

/// The message a [`ConfigError`] is reported with.
pub open spec fn config_error_message(e: ConfigError) -> Seq<char> {
    match e {
        ConfigError::Io { path, message } => READ_FAILED@ + path@ + seq![':', ' '] + message@,
        ConfigError::Parse { path, message } => PARSE_FAILED@ + path@ + seq![':', ' '] + message@,
        ConfigError::EmptySuppressReason { index } => EMPTY_REASON_START@ + decimal((index + 1) as nat)
            + EMPTY_REASON_END@,
    }
}

impl ConfigError {
    /// The human-readable message (entry numbers are 1-based).
    pub fn message(&self) -> (r: String)
        requires
            self matches ConfigError::EmptySuppressReason { index } ==> index < u64::MAX,
        ensures
            r@ == config_error_message(*self),
    {
        let mut out = String::new();
        match self {
            ConfigError::Io { path, message } => {
                push_text(&mut out, READ_FAILED);
                push_text(&mut out, path.as_str());
                push_text(&mut out, ": ");
                push_text(&mut out, message.as_str());
                proof {
                    reveal_strlit(": ");
                }
            },
            ConfigError::Parse { path, message } => {
                push_text(&mut out, PARSE_FAILED);
                push_text(&mut out, path.as_str());
                push_text(&mut out, ": ");
                push_text(&mut out, message.as_str());
                proof {
                    reveal_strlit(": ");
                }
            },
            ConfigError::EmptySuppressReason { index } => {
                push_text(&mut out, EMPTY_REASON_START);
                push_decimal(&mut out, *index as u64 + 1);
                push_text(&mut out, EMPTY_REASON_END);
            },
        }
        assert(out@ =~= config_error_message(*self));
        out
    }
}

impl Default for Config {
    fn default() -> (c: Config)
        ensures
            c@.fail_on is None,
            c@.rules == Map::<Seq<char>, bool>::empty(),
            c@.suppress.len() == 0,
    {
        let c = Config { fail_on: None, rules: Vec::new(), suppress: Vec::new() };
        assert(c@.suppress =~= Seq::<SuppressionEntry>::empty());
        c
    }
}

impl Config {
    /// A configuration from its parts: the `fail_on` severity, the per-rule
    /// settings in file order (a later setting for a rule replaces an
    /// earlier one) and the `[[suppress]]` entries.
    pub fn new(fail_on: Option<Severity>, rules: Vec<(String, bool)>, suppress: Vec<FileSuppression>) -> (c: Config)
        ensures
            c@.fail_on == fail_on,
            c@.rules == rules_map(rules@),
            c@.suppress == suppress@.map_values(|e: FileSuppression| e@),
    {
        Config { fail_on, rules, suppress }
    }

    /// The `[[suppress]]` entries.
    pub fn suppressions(&self) -> (r: &Vec<FileSuppression>)
        ensures
            r@.map_values(|e: FileSuppression| e@) == self@.suppress,
    {
        &self.suppress
    }

    /// Checks that every `[[suppress]]` entry states a non-blank reason;
    /// the first entry that does not is the error.
    pub fn validate(&self) -> (r: Result<(), ConfigError>)
        ensures
            match first_blank_reason(self@.suppress, self@.suppress.len() as int) {
                None => r is Ok,
                Some(k) => r == Err::<(), ConfigError>(ConfigError::EmptySuppressReason { index: k as usize }),
            },
    {
        let mut k: usize = 0;
        while k < self.suppress.len()
            invariant
                k <= self.suppress@.len(),
                first_blank_reason(self@.suppress, k as int) is None,
            decreases self.suppress@.len() - k,
        {
            let reason = chars_of(self.suppress[k].reason.as_str());
            assert(self@.suppress[k as int] == self.suppress@[k as int]@);
            if blank_exec(&reason) {
                proof {
                    assert(first_blank_reason(self@.suppress, k + 1) == Some(k as int));
                    lemma_first_blank_stable(self@.suppress, k + 1, self@.suppress.len() as int);
                }
                return Err(ConfigError::EmptySuppressReason { index: k });
            }
            k += 1;
        }
        Ok(())
    }

    /// Whether `rule_id` should run: yes unless the configuration sets it
    /// to `false`.
    pub fn is_rule_enabled(&self, rule_id: &str) -> (r: bool)
        ensures
            r == rule_enabled(self@, rule_id@),
    {
        let id = chars_of(rule_id);
        let mut setting: Option<bool> = None;
        let mut k: usize = 0;
        while k < self.rules.len()
            invariant
                k <= self.rules@.len(),
                id@ == rule_id@,
                match setting {
                    Some(v) => rules_map(self.rules@.take(k as int)).contains_key(id@)
                        && rules_map(self.rules@.take(k as int))[id@] == v,
                    None => !rules_map(self.rules@.take(k as int)).contains_key(id@),
                },
            decreases self.rules@.len() - k,
        {
            let key = chars_of(self.rules[k].0.as_str());
            assert(self.rules@.take(k + 1).drop_last() =~= self.rules@.take(k as int));
            if same_chars(&key, &id) {
                setting = Some(self.rules[k].1);
            }
            k += 1;
        }
        assert(self.rules@.take(self.rules@.len() as int) =~= self.rules@);
        match setting {
            Some(v) => v,
            None => true,
        }
    }

    /// The fail-on severity: the command-line value wins, then the config
    /// value, then `Low`.
    pub fn effective_fail_on(&self, cli: Option<Severity>) -> (r: Severity)
        ensures
            r == fail_on_spec(self@, cli),
    {
        match cli {
            Some(s) => s,
            None => match self.fail_on {
                Some(s) => s,
                None => Severity::Low,
            },
        }
    }
}

/// Executable [`is_blank`].
fn blank_exec(s: &Vec<char>) -> (r: bool)
    ensures
        r == is_blank(s@),
{
    let mut k: usize = 0;
    while k < s.len()
        invariant
            k <= s@.len(),
            forall|j: int| 0 <= j < k ==> is_ws(#[trigger] s@[j]),
        decreases s@.len() - k,
    {
        if !ws_char(s[k]) {
            return false;
        }
        k += 1;
    }
    true
}

// ---------------------------------------------------------------------------
// Inline directives
// ---------------------------------------------------------------------------

/// An inline `// zkguard:ignore RULE_ID reason="..."` directive, with the
/// path of the source it was found in and its 1-based line.
pub ghost struct DirectiveSpec {
    pub path: Seq<char>,
    pub rule_id: Seq<char>,
    pub line: u32,
    pub reason: Seq<char>,
}

struct InlineDirective {
    path: String,
    rule_id: String,
    line: u32,
    reason: String,
}

impl View for InlineDirective {
    type V = DirectiveSpec;

    closed spec fn view(&self) -> DirectiveSpec {
        DirectiveSpec {
            path: self.path@,
            rule_id: self.rule_id@,
            line: self.line,
            reason: self.reason@,
        }
    }
}

pub open spec fn marker_pat() -> Seq<char> {
    seq!['z', 'k', 'g', 'u', 'a', 'r', 'd', ':', 'i', 'g', 'n', 'o', 'r', 'e']
}

pub open spec fn reason_key() -> Seq<char> {
    seq!['r', 'e', 'a', 's', 'o', 'n', '=', '"']
}

pub const IGNORED_START: &'static str = ": inline suppression for `";

pub const IGNORED_END: &'static str = "` ignored: a non-empty reason=\"...\" is required";

pub const MALFORMED: &'static str = ": malformed inline suppression (expected `zkguard:ignore RULE_ID reason=\"...\"`)";

/// End of the run of non-whitespace characters that starts at `j`.
pub open spec fn word_end(s: Seq<char>, j: int) -> int
    decreases s.len() - j,
{
    if j < 0 || j >= s.len() {
        j
    } else if !is_ws(s[j]) {
        word_end(s, j + 1)
    } else {
        j
    }
}

/// The first whitespace-separated word of `s` (`split_whitespace().next()`).
pub open spec fn first_word(s: Seq<char>) -> Option<Seq<char>> {
    let a = skip_ws(s, 0);
    if a >= s.len() {
        None
    } else {
        Some(s.subrange(a, word_end(s, a)))
    }
}

/// The text between `reason="` and the next `"`, if both are present.
pub open spec fn extract_reason(s: Seq<char>) -> Option<Seq<char>> {
    match find_from(s, reason_key(), 0) {
        None => None,
        Some(k) => match find_from(s, seq!['"'], k + 8) {
            None => None,
            Some(e) => Some(s.subrange(k + 8, e)),
        },
    }
}

/// The 1-based number of the line at index `i`, saturating at `u32::MAX`.
pub open spec fn line_number(i: int) -> u32 {
    if i + 1 <= u32::MAX {
        (i + 1) as u32
    } else {
        u32::MAX
    }
}

/// The text after the line's first inline marker, if it has one.
pub open spec fn marker_rest(l: Seq<char>) -> Option<Seq<char>> {
    match find_from(l, marker_pat(), 0) {
        None => None,
        Some(p) => Some(l.subrange(p + 14, l.len() as int)),
    }
}

/// The directive on line `l` (number `n`) of the source at `path`: a marker
/// followed by a rule ID and a non-blank `reason="..."`.
pub open spec fn line_directive(path: Seq<char>, l: Seq<char>, n: u32) -> Seq<DirectiveSpec> {
    match marker_rest(l) {
        None => seq![],
        Some(rest) => match first_word(rest) {
            None => seq![],
            Some(r) => match extract_reason(rest) {
                Some(re) => if !is_blank(re) {
                    seq![DirectiveSpec { path, rule_id: r, line: n, reason: re }]
                } else {
                    seq![]
                },
                None => seq![],
            },
        },
    }
}

/// The warning for line `l` (number `n`): a marker with a rule ID but no
/// non-blank reason, or a marker with nothing after it.
pub open spec fn line_warning(path: Seq<char>, l: Seq<char>, n: u32) -> Seq<Seq<char>> {
    match marker_rest(l) {
        None => seq![],
        Some(rest) => match first_word(rest) {
            Some(r) => if extract_reason(rest) matches Some(re) && !is_blank(re) {
                seq![]
            } else {
                seq![path + seq![':'] + decimal(n as nat) + IGNORED_START@ + r + IGNORED_END@]
            },
            None => seq![path + seq![':'] + decimal(n as nat) + MALFORMED@],
        },
    }
}

/// Directives on the first `k` lines of the source at `path`.
pub open spec fn lines_directives(path: Seq<char>, ls: Seq<Seq<char>>, k: int) -> Seq<DirectiveSpec>
    decreases k,
{
    if k <= 0 {
        seq![]
    } else {
        lines_directives(path, ls, k - 1) + line_directive(path, ls[k - 1], line_number(k - 1))
    }
}

/// Warnings for the first `k` lines of the source at `path`.
pub open spec fn lines_warnings(path: Seq<char>, ls: Seq<Seq<char>>, k: int) -> Seq<Seq<char>>
    decreases k,
{
    if k <= 0 {
        seq![]
    } else {
        lines_warnings(path, ls, k - 1) + line_warning(path, ls[k - 1], line_number(k - 1))
    }
}

/// Directives of the first `n` sources.
pub open spec fn sources_directives(ss: Seq<SourceView>, n: int) -> Seq<DirectiveSpec>
    decreases n,
{
    if n <= 0 {
        seq![]
    } else {
        let ls = lines_of(ss[n - 1].source@);
        sources_directives(ss, n - 1) + lines_directives(ss[n - 1].path@, ls, ls.len() as int)
    }
}

/// Warnings of the first `n` sources.
pub open spec fn sources_warnings(ss: Seq<SourceView>, n: int) -> Seq<Seq<char>>
    decreases n,
{
    if n <= 0 {
        seq![]
    } else {
        let ls = lines_of(ss[n - 1].source@);
        sources_warnings(ss, n - 1) + lines_warnings(ss[n - 1].path@, ls, ls.len() as int)
    }
}

// ---------------------------------------------------------------------------
// Matching
// ---------------------------------------------------------------------------

/// What a component of text `cur`, ended by a separator or by the end of
/// the path, contributes: nothing when it is empty (repeated or trailing
/// separators) or `.`, else the component itself.
pub open spec fn kept_component(cur: Seq<char>) -> Seq<Seq<char>> {
    if cur.len() == 0 || cur == seq!['.'] {
        seq![]
    } else {
        seq![cur]
    }
}

/// The normal components of `p` from position `i` on, `cur` being the text
/// of the component begun before `i`: `p` split at `/`, with empty and `.`
/// components dropped.
pub open spec fn components_from(p: Seq<char>, i: int, cur: Seq<char>) -> Seq<Seq<char>>
    decreases p.len() - i,
{
    if i < 0 {
        seq![]
    } else if i >= p.len() {
        kept_component(cur)
    } else if p[i] == '/' {
        kept_component(cur) + components_from(p, i + 1, seq![])
    } else {
        components_from(p, i + 1, cur.push(p[i]))
    }
}

/// The components of a path, as a path compares by them (with `/` as the
/// separator): a leading root (written `/`) or, on a path without one, a
/// leading current directory (written `.`), then the normal components.
/// Repeated and trailing separators and inner `.` components do not count,
/// so `src//main.nr`, `src/./main.nr` and `src/main.nr` are the same path,
/// while `./src/main.nr` is another.
pub open spec fn path_components(p: Seq<char>) -> Seq<Seq<char>> {
    path_head(p) + components_from(p, 0, seq![])
}

/// The leading component of a path that is not a normal one: the root
/// (written `/`), or the current directory (written `.`) on a path that
/// starts with `.` alone, or nothing.
pub open spec fn path_head(p: Seq<char>) -> Seq<Seq<char>> {
    if p.len() > 0 && p[0] == '/' {
        seq![seq!['/']]
    } else if p.len() > 0 && p[0] == '.' && (p.len() == 1 || p[1] == '/') {
        seq![seq!['.']]
    } else {
        seq![]
    }
}

/// The directive applies to the finding: the same path (compared component
/// by component), the same rule, and on the finding's line or the line
/// directly above it.
pub open spec fn inline_matches(d: DirectiveSpec, f: FindingView) -> bool {
    &&& f.line is Some
    &&& path_components(d.path) == path_components(f.file)
    &&& d.rule_id == f.rule_id
    &&& (d.line == f.line->0 || d.line + 1 == f.line->0)
}

/// The reason of the first of the first `n` directives that applies.
pub open spec fn first_inline(ds: Seq<DirectiveSpec>, f: FindingView, n: int) -> Option<Seq<char>>
    decreases n,
{
    if n <= 0 {
        None
    } else {
        match first_inline(ds, f, n - 1) {
            Some(r) => Some(r),
            None => if inline_matches(ds[n - 1], f) {
                Some(ds[n - 1].reason)
            } else {
                None
            },
        }
    }
}

/// Backslashes turned into forward slashes.
pub open spec fn forward_slashes(p: Seq<char>) -> Seq<char> {
    p.map_values(|c: char| if c == '\\' { '/' } else { c })
}

/// `./`, the prefix that path normalization removes.
pub open spec fn dot_slash() -> Seq<char> {
    seq!['.', '/']
}

/// A path for comparison: forward slashes, and no leading `./` (every
/// leading repetition of `./` removed).
pub open spec fn normalize(p: Seq<char>) -> Seq<char> {
    strip_all_prefix(forward_slashes(p), dot_slash())
}

/// `s` ends with `p`.
pub open spec fn ends_with(s: Seq<char>, p: Seq<char>) -> bool {
    p.len() <= s.len() && s.subrange(s.len() - p.len(), s.len() as int) == p
}

/// A config path matches a (normalized) reported path when it equals it or
/// is a trailing path-segment suffix of it.
pub open spec fn path_matches(config_path: Seq<char>, finding_path: Seq<char>) -> bool {
    let want = normalize(config_path);
    finding_path == want || ends_with(finding_path, seq!['/'] + want)
}

/// The entry applies to the finding: same rule, matching path, and the
/// entry's line (if any) is the finding's line.
pub open spec fn config_matches(e: SuppressionEntry, f: FindingView) -> bool {
    &&& e.rule == f.rule_id
    &&& path_matches(e.path, normalize(f.file))
    &&& match e.line {
        Some(l) => f.line == Some(l),
        None => true,
    }
}

/// The reason of the first of the first `n` entries that applies.
pub open spec fn first_config(es: Seq<SuppressionEntry>, f: FindingView, n: int) -> Option<Seq<char>>
    decreases n,
{
    if n <= 0 {
        None
    } else {
        match first_config(es, f, n - 1) {
            Some(r) => Some(r),
            None => if config_matches(es[n - 1], f) {
                Some(es[n - 1].reason)
            } else {
                None
            },
        }
    }
}

/// How a finding is suppressed, if it is: an applying inline directive
/// wins over an applying config entry.
pub open spec fn suppression_of(ds: Seq<DirectiveSpec>, es: Seq<SuppressionEntry>, f: FindingView) -> Option<
    (Seq<char>, SuppressionKind),
> {
    match first_inline(ds, f, ds.len() as int) {
        Some(r) => Some((r, SuppressionKind::Inline)),
        None => match first_config(es, f, es.len() as int) {
            Some(r) => Some((r, SuppressionKind::Config)),
            None => None,
        },
    }
}

/// The first `n` findings that stay active, in order.
pub open spec fn active_upto(fs: Seq<FindingView>, ds: Seq<DirectiveSpec>, es: Seq<SuppressionEntry>, n: int) -> Seq<FindingView>
    decreases n,
{
    if n <= 0 {
        seq![]
    } else {
        active_upto(fs, ds, es, n - 1) + if suppression_of(ds, es, fs[n - 1]) is None {
            seq![fs[n - 1]]
        } else {
            seq![]
        }
    }
}

/// The first `n` findings that are suppressed, each with its reason and
/// kind, in order.
pub open spec fn suppressed_upto(fs: Seq<FindingView>, ds: Seq<DirectiveSpec>, es: Seq<SuppressionEntry>, n: int) -> Seq<
    (FindingView, Seq<char>, SuppressionKind),
>
    decreases n,
{
    if n <= 0 {
        seq![]
    } else {
        suppressed_upto(fs, ds, es, n - 1) + match suppression_of(ds, es, fs[n - 1]) {
            Some((r, k)) => seq![(fs[n - 1], r, k)],
            None => seq![],
        }
    }
}

/// A suppressed finding as a tuple of its parts.
pub open spec fn suppressed_parts(s: SuppressedFinding) -> (FindingView, Seq<char>, SuppressionKind) {
    (s.finding@, s.reason@, s.suppressed_by)
}

/// Result of applying suppressions to a run's findings.
#[derive(Debug)]
pub struct SuppressionOutcome {
    /// Findings that were not suppressed.
    pub active: Vec<Finding>,
    /// Findings that were suppressed, with reason and source.
    pub suppressed: Vec<SuppressedFinding>,
    /// Warnings about ignored inline directives, as `path:line: message`.
    pub warnings: Vec<String>,
}

impl Default for SuppressionOutcome {
    fn default() -> (r: SuppressionOutcome)
        ensures
            r.active@.len() == 0,
            r.suppressed@.len() == 0,
            r.warnings@.len() == 0,
    {
        SuppressionOutcome { active: Vec::new(), suppressed: Vec::new(), warnings: Vec::new() }
    }
}

// ---------------------------------------------------------------------------
// Executable suppression
// ---------------------------------------------------------------------------

/// Executable [`word_end`].
fn word_end_exec(s: &Vec<char>, j: usize) -> (r: usize)
    requires
        j <= s@.len(),
    ensures
        r as int == word_end(s@, j as int),
        j <= r <= s@.len(),
{
    let mut k = j;
    while k < s.len() && !ws_char(s[k])
        invariant
            j <= k <= s@.len(),
            word_end(s@, j as int) == word_end(s@, k as int),
        decreases s@.len() - k,
    {
        k += 1;
    }
    k
}

/// Executable [`first_word`].
fn first_word_exec(s: &Vec<char>) -> (r: Option<Vec<char>>)
    ensures
        match r {
            Some(w) => first_word(s@) == Some(w@),
            None => first_word(s@) is None,
        },
{
    let a = skip_ws_exec(s, 0);
    if a >= s.len() {
        None
    } else {
        let e = word_end_exec(s, a);
        Some(slice_of(s, a, e))
    }
}

/// Executable [`extract_reason`].
fn extract_reason_exec(s: &Vec<char>) -> (r: Option<Vec<char>>)
    ensures
        match r {
            Some(w) => extract_reason(s@) == Some(w@),
            None => extract_reason(s@) is None,
        },
{
    let key = vec!['r', 'e', 'a', 's', 'o', 'n', '=', '"'];
    assert(key@ =~= reason_key());
    let k = match find_from_exec(s, &key, 0) {
        None => return None,
        Some(k) => k,
    };
    proof {
        lemma_find_from(s@, reason_key(), 0);
        assert(matches_at(s@, reason_key(), k as int));
    }
    assert(k + 8 <= s.len());
    let quote = vec!['"'];
    assert(quote@ =~= seq!['"']);
    match find_from_exec(s, &quote, k + 8) {
        None => None,
        Some(e) => {
            proof {
                lemma_find_from(s@, seq!['"'], k + 8);
            }
            Some(slice_of(s, k + 8, e))
        },
    }
}

/// Executable [`line_number`].
fn line_number_exec(i: usize) -> (r: u32)
    ensures
        r == line_number(i as int),
{
    if i < 4294967295usize {
        (i + 1) as u32
    } else {
        u32::MAX
    }
}

/// Directive and warning of one line, appended to `dirs` and `warnings`.
fn parse_line(
    path: &str,
    l: &Vec<char>,
    n: u32,
    dirs: &mut Vec<InlineDirective>,
    warnings: &mut Vec<String>,
)
    ensures
        final(dirs)@.map_values(|d: InlineDirective| d@) == old(dirs)@.map_values(
            |d: InlineDirective| d@,
        ) + line_directive(path@, l@, n),
        final(warnings)@.map_values(|w: String| w@) == old(warnings)@.map_values(|w: String| w@)
            + line_warning(path@, l@, n),
{
    let ghost d0 = dirs@.map_values(|d: InlineDirective| d@);
    let ghost w0 = warnings@.map_values(|w: String| w@);
    let marker = vec!['z', 'k', 'g', 'u', 'a', 'r', 'd', ':', 'i', 'g', 'n', 'o', 'r', 'e'];
    assert(marker@ =~= marker_pat());
    let p = match find_from_exec(l, &marker, 0) {
        None => {
            assert(d0 + Seq::<DirectiveSpec>::empty() =~= d0);
            assert(w0 + Seq::<Seq<char>>::empty() =~= w0);
            return;
        },
        Some(p) => p,
    };
    proof {
        lemma_find_from(l@, marker_pat(), 0);
        assert(matches_at(l@, marker_pat(), p as int));
    }
    assert(p + 14 <= l.len());
    let rest = slice_of(l, p + 14, l.len());
    let word = first_word_exec(&rest);
    let reason = extract_reason_exec(&rest);
    match word {
        None => {
            let mut w = String::new();
            push_text(&mut w, path);
            push_text(&mut w, ":");
            push_decimal(&mut w, n as u64);
            push_text(&mut w, MALFORMED);
            proof {
                reveal_strlit(":");
            }
            assert(w@ =~= path@ + seq![':'] + decimal(n as nat) + MALFORMED@);
            warnings.push(w);
            assert(warnings@.map_values(|w: String| w@) =~= w0 + line_warning(path@, l@, n));
            assert(d0 + Seq::<DirectiveSpec>::empty() =~= d0);
        },
        Some(r) => {
            let good = match &reason {
                Some(re) => !blank_exec(re),
                None => false,
            };
            if good {
                let re = match reason {
                    Some(re) => re,
                    None => Vec::new(),
                };
                dirs.push(
                    InlineDirective {
                        path: path.to_owned(),
                        rule_id: string_of(&r),
                        line: n,
                        reason: string_of(&re),
                    },
                );
                assert(dirs@.map_values(|d: InlineDirective| d@) =~= d0 + line_directive(path@, l@, n));
                assert(w0 + Seq::<Seq<char>>::empty() =~= w0);
            } else {
                let mut w = String::new();
                push_text(&mut w, path);
                push_text(&mut w, ":");
                push_decimal(&mut w, n as u64);
                push_text(&mut w, IGNORED_START);
                push_chars(&mut w, &r);
                push_text(&mut w, IGNORED_END);
                proof {
                    reveal_strlit(":");
                }
                assert(w@ =~= path@ + seq![':'] + decimal(n as nat) + IGNORED_START@ + r@ + IGNORED_END@);
                warnings.push(w);
                assert(warnings@.map_values(|w: String| w@) =~= w0 + line_warning(path@, l@, n));
                assert(d0 + Seq::<DirectiveSpec>::empty() =~= d0);
            }
        },
    }
}

/// Directives and warnings of one source, appended to `dirs` and `warnings`.
fn parse_inline(path: &str, source: &str, dirs: &mut Vec<InlineDirective>, warnings: &mut Vec<String>)
    ensures
        final(dirs)@.map_values(|d: InlineDirective| d@) == old(dirs)@.map_values(
            |d: InlineDirective| d@,
        ) + lines_directives(path@, lines_of(source@), lines_of(source@).len() as int),
        final(warnings)@.map_values(|w: String| w@) == old(warnings)@.map_values(|w: String| w@)
            + lines_warnings(path@, lines_of(source@), lines_of(source@).len() as int),
{
    let s = chars_of(source);
    let lines = lines_exec(&s);
    let ghost ls = lines@.map_values(|l: Vec<char>| l@);
    let ghost d0 = dirs@.map_values(|d: InlineDirective| d@);
    let ghost w0 = warnings@.map_values(|w: String| w@);
    let mut i: usize = 0;
    assert(d0 + Seq::<DirectiveSpec>::empty() =~= d0);
    assert(w0 + Seq::<Seq<char>>::empty() =~= w0);
    while i < lines.len()
        invariant
            i <= lines@.len(),
            ls == lines@.map_values(|l: Vec<char>| l@),
            ls == lines_of(source@),
            dirs@.map_values(|d: InlineDirective| d@) == d0 + lines_directives(path@, ls, i as int),
            warnings@.map_values(|w: String| w@) == w0 + lines_warnings(path@, ls, i as int),
        decreases lines@.len() - i,
    {
        assert(lines@[i as int]@ == ls[i as int]);
        let n = line_number_exec(i);
        parse_line(path, &lines[i], n, dirs, warnings);
        assert(d0 + lines_directives(path@, ls, i as int) + line_directive(path@, ls[i as int], n)
            =~= d0 + lines_directives(path@, ls, i + 1));
        assert(w0 + lines_warnings(path@, ls, i as int) + line_warning(path@, ls[i as int], n)
            =~= w0 + lines_warnings(path@, ls, i + 1));
        i += 1;
    }
}

/// Executable [`path_head`].
fn path_head_exec(p: &Vec<char>) -> (r: Vec<Vec<char>>)
    ensures
        r@.map_values(|c: Vec<char>| c@) == path_head(p@),
{
    let mut out: Vec<Vec<char>> = Vec::new();
    if p.len() > 0 && p[0] == '/' {
        let mut root: Vec<char> = Vec::new();
        root.push('/');
        out.push(root);
        assert(out@.map_values(|c: Vec<char>| c@) =~= seq![seq!['/']]);
    } else if p.len() > 0 && p[0] == '.' && (p.len() == 1 || p[1] == '/') {
        let mut here: Vec<char> = Vec::new();
        here.push('.');
        out.push(here);
        assert(out@.map_values(|c: Vec<char>| c@) =~= seq![seq!['.']]);
    } else {
        assert(out@.map_values(|c: Vec<char>| c@) =~= Seq::<Seq<char>>::empty());
    }
    out
}

/// Appends what a finished component contributes ([`kept_component`]).
fn push_kept(out: &mut Vec<Vec<char>>, cur: Vec<char>)
    ensures
        final(out)@.map_values(|c: Vec<char>| c@) == old(out)@.map_values(|c: Vec<char>| c@) + kept_component(
            cur@,
        ),
{
    let ghost before = out@.map_values(|c: Vec<char>| c@);
    if cur.len() == 0 || (cur.len() == 1 && cur[0] == '.') {
        assert(cur@ =~= seq!['.'] || cur@.len() == 0);
        assert(before + kept_component(cur@) =~= before);
    } else {
        let ghost c = cur@;
        out.push(cur);
        assert(out@.map_values(|c: Vec<char>| c@) =~= before + seq![c]);
    }
}

/// Executable [`path_components`], each component as its characters.
fn path_components_exec(p: &Vec<char>) -> (r: Vec<Vec<char>>)
    ensures
        r@.map_values(|c: Vec<char>| c@) == path_components(p@),
{
    let mut out = path_head_exec(p);
    let mut cur: Vec<char> = Vec::new();
    let mut i: usize = 0;
    assert(cur@ =~= Seq::<char>::empty());
    while i < p.len()
        invariant
            i <= p@.len(),
            out@.map_values(|c: Vec<char>| c@) + components_from(p@, i as int, cur@) == path_components(p@),
        decreases p@.len() - i,
    {
        let ghost before = out@.map_values(|c: Vec<char>| c@);
        if p[i] == '/' {
            let ghost kept = kept_component(cur@);
            push_kept(&mut out, cur);
            cur = Vec::new();
            assert(cur@ =~= Seq::<char>::empty());
            assert(before + (kept + components_from(p@, i + 1, seq![])) =~= (before + kept) + components_from(
                p@,
                i + 1,
                seq![],
            ));
        } else {
            let c = p[i];
            cur.push(c);
        }
        i += 1;
    }
    push_kept(&mut out, cur);
    out
}

/// Whether two paths have the same components.
fn same_path(a: &str, b: &str) -> (r: bool)
    ensures
        r == (path_components(a@) == path_components(b@)),
{
    let x = path_components_exec(&chars_of(a));
    let y = path_components_exec(&chars_of(b));
    let ghost xs = x@.map_values(|c: Vec<char>| c@);
    let ghost ys = y@.map_values(|c: Vec<char>| c@);
    if x.len() != y.len() {
        assert(xs.len() != ys.len());
        return false;
    }
    let mut k: usize = 0;
    while k < x.len()
        invariant
            k <= x@.len(),
            x@.len() == y@.len(),
            xs == x@.map_values(|c: Vec<char>| c@),
            ys == y@.map_values(|c: Vec<char>| c@),
            xs == path_components(a@),
            ys == path_components(b@),
            forall|j: int| 0 <= j < k ==> xs[j] == ys[j],
        decreases x@.len() - k,
    {
        if !same_chars(&x[k], &y[k]) {
            assert(xs[k as int] != ys[k as int]);
            return false;
        }
        k += 1;
    }
    assert(xs =~= ys);
    true
}

/// Executable [`first_inline`] over all of `dirs`.
fn match_inline(f: &Finding, dirs: &Vec<InlineDirective>) -> (r: Option<String>)
    ensures
        match r {
            Some(s) => first_inline(dirs@.map_values(|d: InlineDirective| d@), f@, dirs@.len() as int) == Some(s@),
            None => first_inline(dirs@.map_values(|d: InlineDirective| d@), f@, dirs@.len() as int) is None,
        },
{
    let ghost ds = dirs@.map_values(|d: InlineDirective| d@);
    let line = match f.line {
        None => {
            assert forall|n: int| 0 <= n <= ds.len() implies first_inline(ds, f@, n) is None by {
                lemma_first_inline_none(ds, f@, n);
            }
            return None;
        },
        Some(l) => l,
    };
    let rule = chars_of(f.rule_id.as_str());
    let mut k: usize = 0;
    while k < dirs.len()
        invariant
            k <= dirs@.len(),
            ds == dirs@.map_values(|d: InlineDirective| d@),
            f.line == Some(line),
            rule@ == f.rule_id@,
            first_inline(ds, f@, k as int) is None,
        decreases dirs@.len() - k,
    {
        let d = &dirs[k];
        assert(d@ == ds[k as int]);
        let dr = chars_of(d.rule_id.as_str());
        let anchors = d.line == line || (d.line as u64) + 1 == line as u64;
        if same_path(d.path.as_str(), f.file.as_str()) && same_chars(&dr, &rule) && anchors {
            assert(first_inline(ds, f@, k + 1) == Some(ds[k as int].reason));
            proof {
                lemma_first_inline_stable(ds, f@, k + 1, ds.len() as int);
            }
            return Some(d.reason.clone());
        }
        k += 1;
    }
    None
}

/// With no line on the finding, no directive applies.
proof fn lemma_first_inline_none(ds: Seq<DirectiveSpec>, f: FindingView, n: int)
    requires
        f.line is None,
    ensures
        first_inline(ds, f, n) is None,
    decreases n,
{
    if n > 0 {
        lemma_first_inline_none(ds, f, n - 1);
    }
}

/// Once found, the first applying directive stays the first.
proof fn lemma_first_inline_stable(ds: Seq<DirectiveSpec>, f: FindingView, m: int, n: int)
    requires
        m <= n,
        first_inline(ds, f, m) is Some,
    ensures
        first_inline(ds, f, n) == first_inline(ds, f, m),
    decreases n - m,
{
    if m < n {
        lemma_first_inline_stable(ds, f, m, n - 1);
    }
}

/// Once found, the first applying entry stays the first.
proof fn lemma_first_config_stable(es: Seq<SuppressionEntry>, f: FindingView, m: int, n: int)
    requires
        m <= n,
        first_config(es, f, m) is Some,
    ensures
        first_config(es, f, n) == first_config(es, f, m),
    decreases n - m,
{
    if m < n {
        lemma_first_config_stable(es, f, m, n - 1);
    }
}

/// Executable [`normalize`].
pub(crate) fn normalize_exec(p: &Vec<char>) -> (r: Vec<char>)
    ensures
        r@ == normalize(p@),
{
    let mut s: Vec<char> = Vec::new();
    let mut k: usize = 0;
    while k < p.len()
        invariant
            k <= p@.len(),
            s@ == forward_slashes(p@.subrange(0, k as int)),
        decreases p@.len() - k,
    {
        let c = if p[k] == '\\' { '/' } else { p[k] };
        s.push(c);
        assert(forward_slashes(p@.subrange(0, k + 1)) =~= forward_slashes(p@.subrange(0, k as int)).push(c));
        k += 1;
    }
    assert(p@.subrange(0, p@.len() as int) =~= p@);
    let ds = vec!['.', '/'];
    assert(ds@ =~= dot_slash());
    strip_all_prefix_exec(&s, &ds)
}

/// Executable [`path_matches`] (`finding_path` already normalized).
fn path_matches_exec(config_path: &Vec<char>, finding_path: &Vec<char>) -> (r: bool)
    ensures
        r == path_matches(config_path@, finding_path@),
{
    let want = normalize_exec(config_path);
    if same_chars(finding_path, &want) {
        return true;
    }
    let mut suffix = vec!['/'];
    let mut w2 = slice_of(&want, 0, want.len());
    assert(want@.subrange(0, want@.len() as int) =~= want@);
    suffix.append(&mut w2);
    assert(suffix@ =~= seq!['/'] + want@);
    if suffix.len() > finding_path.len() {
        return false;
    }
    let tail = slice_of(finding_path, finding_path.len() - suffix.len(), finding_path.len());
    same_chars(&tail, &suffix)
}

/// Executable [`first_config`] over all entries.
fn match_config(f: &Finding, entries: &Vec<FileSuppression>) -> (r: Option<String>)
    ensures
        match r {
            Some(s) => first_config(entries@.map_values(|e: FileSuppression| e@), f@, entries@.len() as int) == Some(s@),
            None => first_config(entries@.map_values(|e: FileSuppression| e@), f@, entries@.len() as int) is None,
        },
{
    let ghost es = entries@.map_values(|e: FileSuppression| e@);
    let file = chars_of(f.file.as_str());
    let finding_path = normalize_exec(&file);
    let rule = chars_of(f.rule_id.as_str());
    let mut k: usize = 0;
    while k < entries.len()
        invariant
            k <= entries@.len(),
            es == entries@.map_values(|e: FileSuppression| e@),
            finding_path@ == normalize(f.file@),
            rule@ == f.rule_id@,
            first_config(es, f@, k as int) is None,
        decreases entries@.len() - k,
    {
        let e = &entries[k];
        assert(e@ == es[k as int]);
        let er = chars_of(e.rule.as_str());
        let ep = chars_of(e.path.as_str());
        let line_ok = match e.line {
            Some(l) => match f.line {
                Some(fl) => fl == l,
                None => false,
            },
            None => true,
        };
        if same_chars(&er, &rule) && path_matches_exec(&ep, &finding_path) && line_ok {
            assert(first_config(es, f@, k + 1) == Some(es[k as int].reason));
            proof {
                lemma_first_config_stable(es, f@, k + 1, es.len() as int);
            }
            return Some(e.reason.clone());
        }
        k += 1;
    }
    None
}

/// Partitions `findings` into active and suppressed ones, using the inline
/// directives of `sources` and the configuration's `[[suppress]]` entries.
/// An applying inline directive wins over an applying entry; neither
/// changes a finding, suppression only moves it out of `active`. Inline
/// markers without a rule ID or without a non-blank reason produce
/// warnings and suppress nothing.
pub fn apply_suppressions(findings: Vec<Finding>, sources: &[SourceView], config: &Config) -> (r: SuppressionOutcome)
    ensures
        r.active@.map_values(|f: Finding| f@) == active_upto(
            findings@.map_values(|f: Finding| f@),
            sources_directives(sources@, sources@.len() as int),
            config@.suppress,
            findings@.len() as int,
        ),
        r.suppressed@.map_values(|s: SuppressedFinding| suppressed_parts(s)) == suppressed_upto(
            findings@.map_values(|f: Finding| f@),
            sources_directives(sources@, sources@.len() as int),
            config@.suppress,
            findings@.len() as int,
        ),
        r.warnings@.map_values(|w: String| w@) == sources_warnings(sources@, sources@.len() as int),
{
    let mut dirs: Vec<InlineDirective> = Vec::new();
    let mut warnings: Vec<String> = Vec::new();
    let mut i: usize = 0;
    assert(dirs@.map_values(|d: InlineDirective| d@) =~= sources_directives(sources@, 0));
    assert(warnings@.map_values(|w: String| w@) =~= sources_warnings(sources@, 0));
    while i < sources.len()
        invariant
            i <= sources@.len(),
            dirs@.map_values(|d: InlineDirective| d@) == sources_directives(sources@, i as int),
            warnings@.map_values(|w: String| w@) == sources_warnings(sources@, i as int),
        decreases sources@.len() - i,
    {
        parse_inline(sources[i].path.as_str(), sources[i].source.as_str(), &mut dirs, &mut warnings);
        i += 1;
    }
    let ghost ds = dirs@.map_values(|d: InlineDirective| d@);
    let ghost es = config@.suppress;
    let entries = config.suppressions();
    let ghost fv = findings@.map_values(|f: Finding| f@);
    let mut active: Vec<Finding> = Vec::new();
    let mut suppressed: Vec<SuppressedFinding> = Vec::new();
    let mut k: usize = 0;
    assert(active@.map_values(|f: Finding| f@) =~= active_upto(fv, ds, es, 0));
    assert(suppressed@.map_values(|s: SuppressedFinding| suppressed_parts(s)) =~= suppressed_upto(fv, ds, es, 0));
    while k < findings.len()
        invariant
            k <= findings@.len(),
            ds == dirs@.map_values(|d: InlineDirective| d@),
            es == entries@.map_values(|e: FileSuppression| e@),
            fv == findings@.map_values(|f: Finding| f@),
            active@.map_values(|f: Finding| f@) == active_upto(fv, ds, es, k as int),
            suppressed@.map_values(|s: SuppressedFinding| suppressed_parts(s)) == suppressed_upto(fv, ds, es, k as int),
        decreases findings@.len() - k,
    {
        let f = findings[k].duplicate();
        assert(f@ == fv[k as int]);
        let ghost sp = suppressed@.map_values(|s: SuppressedFinding| suppressed_parts(s));
        match match_inline(&f, &dirs) {
            Some(reason) => {
                suppressed.push(SuppressedFinding::new(f, reason.as_str(), SuppressionKind::Inline));
                assert(suppressed@.map_values(|s: SuppressedFinding| suppressed_parts(s)) =~= suppressed_upto(fv, ds, es, k + 1));
                assert(active@.map_values(|f: Finding| f@) =~= active_upto(fv, ds, es, k + 1));
            },
            None => match match_config(&f, entries) {
                Some(reason) => {
                    suppressed.push(SuppressedFinding::new(f, reason.as_str(), SuppressionKind::Config));
                    assert(suppressed@.map_values(|s: SuppressedFinding| suppressed_parts(s)) =~= suppressed_upto(fv, ds, es, k + 1));
                    assert(active@.map_values(|f: Finding| f@) =~= active_upto(fv, ds, es, k + 1));
                },
                None => {
                    active.push(f);
                    assert(active@.map_values(|f: Finding| f@) =~= active_upto(fv, ds, es, k + 1));
                    assert(sp =~= suppressed_upto(fv, ds, es, k + 1));
                },
            },
        }
        k += 1;
    }
    SuppressionOutcome { active, suppressed, warnings }
}

} // verus!
