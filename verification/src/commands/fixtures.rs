//! `fixtures validate`: every fixture project directory must discover
//! cleanly with at least one `.nr` source. The caller lists the fixture
//! directories and discovers each; this module judges the outcomes.

use vstd::prelude::*;

use crate::exit_code;
use crate::text::{decimal, push_decimal, push_text};

verus! {

/// Default fixtures root, relative to the working directory.
pub const DEFAULT_FIXTURES_ROOT: &'static str = "fixtures/noir";

/// The discovery outcome of one fixture directory: the number of `.nr`
/// sources read, or the discovery error's message.
#[derive(Debug)]
pub struct FixtureCheck {
    pub dir: String,
    pub outcome: Result<usize, String>,
}

/// What a command prints and returns.
#[derive(Debug, Clone, PartialEq)]
pub struct CommandOutput {
    pub stdout: String,
    pub stderr: String,
    pub exit_code: i32,
}

pub const ZERO_SOURCES: &'static str = ": discovered zero .nr source files";

/// The failure (if any) of one fixture directory.
pub open spec fn failure_of(c: FixtureCheck) -> Seq<Seq<char>> {
    match c.outcome {
        Ok(n) => if n > 0 {
            seq![]
        } else {
            seq![c.dir@ + ZERO_SOURCES@]
        },
        Err(e) => seq![c.dir@ + seq![':', ' '] + e@],
    }
}

/// Failures of the first `n` directories.
pub open spec fn failures_upto(cs: Seq<FixtureCheck>, n: int) -> Seq<Seq<char>>
    decreases n,
{
    if n <= 0 {
        seq![]
    } else {
        failures_upto(cs, n - 1) + failure_of(cs[n - 1])
    }
}

/// Number of directories among the first `n` that discovered sources.
pub open spec fn ok_upto(cs: Seq<FixtureCheck>, n: int) -> nat
    decreases n,
{
    if n <= 0 {
        0
    } else {
        ok_upto(cs, n - 1) + if cs[n - 1].outcome matches Ok(k) && k > 0 {
            1nat
        } else {
            0nat
        }
    }
}

/// One `error: ...` line per failure, for the first `n` failures.
pub open spec fn error_lines(fs: Seq<Seq<char>>, n: int) -> Seq<char>
    decreases n,
{
    if n <= 0 {
        seq![]
    } else {
        error_lines(fs, n - 1) + "error: "@ + fs[n - 1] + "\n"@
    }
}

/// The standard output of the validation.
pub open spec fn fixtures_stdout(root: Seq<char>, cs: Seq<FixtureCheck>) -> Seq<char> {
    if cs.len() == 0 {
        seq![]
    } else {
        "Validated "@ + decimal(cs.len()) + " fixture project(s) under "@ + root + "\n"@ + "  ok:     "@
            + decimal(ok_upto(cs, cs.len() as int)) + "\n"@ + "  failed: "@ + decimal(
            failures_upto(cs, cs.len() as int).len(),
        ) + "\n"@
    }
}

/// The standard error of the validation.
pub open spec fn fixtures_stderr(root: Seq<char>, cs: Seq<FixtureCheck>) -> Seq<char> {
    if cs.len() == 0 {
        "error: no fixture project directories found under "@ + root + "\n"@
    } else {
        let fs = failures_upto(cs, cs.len() as int);
        error_lines(fs, fs.len() as int)
    }
}

/// Judges the fixture directories under `root`: a usage error when there
/// are none or when some directory failed (no sources, or a discovery
/// error), success otherwise; with a summary on stdout and one line per
/// failure on stderr.
pub fn run(root: &str, checks: &[FixtureCheck]) -> (r: CommandOutput)
    ensures
        r.stdout@ == fixtures_stdout(root@, checks@),
        r.stderr@ == fixtures_stderr(root@, checks@),
        r.exit_code == if checks@.len() > 0 && failures_upto(checks@, checks@.len() as int).len() == 0 {
            exit_code::SUCCESS
        } else {
            exit_code::USAGE_ERROR
        },
{
    let mut stdout = String::new();
    let mut stderr = String::new();
    if checks.len() == 0 {
        push_text(&mut stderr, "error: no fixture project directories found under ");
        assert(stderr@ =~= "error: no fixture project directories found under "@);
        push_text(&mut stderr, root);
        push_text(&mut stderr, "\n");
        assert(stdout@ =~= fixtures_stdout(root@, checks@));
        return CommandOutput { stdout, stderr, exit_code: exit_code::USAGE_ERROR };
    }
    let mut ok: usize = 0;
    let mut failures: Vec<String> = Vec::new();
    let mut k: usize = 0;
    assert(failures@.map_values(|f: String| f@) =~= failures_upto(checks@, 0));
    while k < checks.len()
        invariant
            k <= checks@.len(),
            ok as nat == ok_upto(checks@, k as int),
            ok <= k,
            failures@.map_values(|f: String| f@) == failures_upto(checks@, k as int),
        decreases checks@.len() - k,
    {
        let c = &checks[k];
        let ghost prev = failures@.map_values(|f: String| f@);
        match &c.outcome {
            Ok(n) => {
                if *n > 0 {
                    ok += 1;
                    assert(prev + Seq::<Seq<char>>::empty() =~= prev);
                } else {
                    let mut f = String::new();
                    push_text(&mut f, c.dir.as_str());
                    assert(f@ =~= c.dir@);
                    push_text(&mut f, ZERO_SOURCES);
                    failures.push(f);
                    assert(failures@.map_values(|f: String| f@) =~= prev + failure_of(*c));
                }
            },
            Err(e) => {
                let mut f = String::new();
                push_text(&mut f, c.dir.as_str());
                assert(f@ =~= c.dir@);
                push_text(&mut f, ": ");
                push_text(&mut f, e.as_str());
                proof {
                    reveal_strlit(": ");
                }
                assert(f@ =~= c.dir@ + seq![':', ' '] + e@);
                failures.push(f);
                assert(failures@.map_values(|f: String| f@) =~= prev + failure_of(*c));
            },
        }
        k += 1;
    }
    push_text(&mut stdout, "Validated ");
    assert(stdout@ =~= "Validated "@);
    push_decimal(&mut stdout, checks.len() as u64);
    push_text(&mut stdout, " fixture project(s) under ");
    push_text(&mut stdout, root);
    push_text(&mut stdout, "\n");
    push_text(&mut stdout, "  ok:     ");
    push_decimal(&mut stdout, ok as u64);
    push_text(&mut stdout, "\n");
    push_text(&mut stdout, "  failed: ");
    push_decimal(&mut stdout, failures.len() as u64);
    push_text(&mut stdout, "\n");
    let ghost fs = failures@.map_values(|f: String| f@);
    let mut j: usize = 0;
    assert(stderr@ =~= error_lines(fs, 0));
    while j < failures.len()
        invariant
            j <= failures@.len(),
            fs == failures@.map_values(|f: String| f@),
            stderr@ == error_lines(fs, j as int),
        decreases failures@.len() - j,
    {
        push_text(&mut stderr, "error: ");
        push_text(&mut stderr, failures[j].as_str());
        push_text(&mut stderr, "\n");
        assert(fs[j as int] == failures@[j as int]@);
        j += 1;
    }
    let code = if failures.len() == 0 {
        exit_code::SUCCESS
    } else {
        exit_code::USAGE_ERROR
    };
    CommandOutput { stdout, stderr, exit_code: code }
}

} // verus!
