//! The pure side of Noir project discovery: what a discovered project
//! holds, how a discovery failure reads, which paths are Noir sources or
//! Nargo manifests, and how what a walk collected becomes a project (files
//! sorted by path, the shallowest manifest). Walking the file system is
//! done by the caller.

use vstd::prelude::*;

use crate::rule::SourceView;
use crate::skipped::{SkipKind, SkippedFile};
use crate::text::{chars_of, count_char, count_char_exec, find_from, push_text};

verus! {

/// File extension of Noir source files.
pub const NOIR_SOURCE_EXTENSION: &'static str = "nr";

/// File name that marks a Noir package root.
pub const NARGO_MANIFEST_FILENAME: &'static str = "Nargo.toml";

/// Why discovery failed.
#[derive(Debug, Clone, PartialEq)]
pub enum DiscoveryError {
    /// The given root path does not exist.
    RootNotFound(String),
    /// An I/O error occurred while reading a directory entry or file.
    Io { path: String, message: String },
}

pub const ROOT_NOT_FOUND: &'static str = "scan root does not exist: ";

pub const IO_ERROR: &'static str = "I/O error reading ";

/// The message a [`DiscoveryError`] is reported with.
pub open spec fn discovery_error_message(e: DiscoveryError) -> Seq<char> {
    match e {
        DiscoveryError::RootNotFound(p) => ROOT_NOT_FOUND@ + p@,
        DiscoveryError::Io { path, message } => IO_ERROR@ + path@ + seq![':', ' '] + message@,
    }
}

impl DiscoveryError {
    /// The human-readable message.
    pub fn message(&self) -> (r: String)
        ensures
            r@ == discovery_error_message(*self),
    {
        let mut out = String::new();
        match self {
            DiscoveryError::RootNotFound(p) => {
                push_text(&mut out, ROOT_NOT_FOUND);
                push_text(&mut out, p.as_str());
            },
            DiscoveryError::Io { path, message } => {
                push_text(&mut out, IO_ERROR);
                push_text(&mut out, path.as_str());
                push_text(&mut out, ": ");
                push_text(&mut out, message.as_str());
                proof {
                    reveal_strlit(": ");
                }
            },
        }
        assert(out@ =~= discovery_error_message(*self));
        out
    }
}

/// A discovered Noir project: its manifest (if any), the `.nr` sources that
/// were read, and the `.nr` files that could not be read.
#[derive(Debug, Clone, PartialEq)]
pub struct NoirProject {
    /// Path to the first `Nargo.toml` found, if any.
    pub manifest_path: Option<String>,
    /// Every `.nr` source file read under the scan root.
    pub sources: Vec<SourceView>,
    /// `.nr` files located but not readable (unreadable or non-UTF-8).
    pub skipped: Vec<SkippedFile>,
}

impl NoirProject {
    /// Number of `.nr` source files successfully read.
    pub fn file_count(&self) -> (n: usize)
        ensures
            n == self.sources@.len(),
    {
        self.sources.len()
    }
}

/// The kind of a failed file read, as far as discovery distinguishes it.
#[derive(Debug, Clone, Copy, PartialEq, Eq, Structural)]
pub enum ReadErrorKind {
    /// The bytes are not valid UTF-8.
    InvalidData,
    PermissionDenied,
    NotFound,
    /// Any other I/O failure.
    Other,
}

/// Maps a failed read to a skip kind: invalid data is non-UTF-8, a denied
/// permission or a vanished file is unreadable, anything else is another
/// I/O error.
pub fn classify_read_error(kind: ReadErrorKind) -> (k: SkipKind)
    ensures
        k == match kind {
            ReadErrorKind::InvalidData => SkipKind::NonUtf8,
            ReadErrorKind::PermissionDenied | ReadErrorKind::NotFound => SkipKind::Unreadable,
            ReadErrorKind::Other => SkipKind::OtherIo,
        },
{
    match kind {
        ReadErrorKind::InvalidData => SkipKind::NonUtf8,
        ReadErrorKind::PermissionDenied | ReadErrorKind::NotFound => SkipKind::Unreadable,
        ReadErrorKind::Other => SkipKind::OtherIo,
    }
}

/// Index one past the last `c` before `j` (0 when there is none).
pub open spec fn after_last(s: Seq<char>, c: char, j: int) -> int
    decreases j,
{
    if j <= 0 {
        0
    } else if s[j - 1] == c {
        j
    } else {
        after_last(s, c, j - 1)
    }
}

/// The last component of a `/`-separated path.
pub open spec fn file_name(p: Seq<char>) -> Seq<char> {
    p.subrange(after_last(p, '/', p.len() as int), p.len() as int)
}

/// The extension of a file name: the text after its last `.`, unless the
/// only `.` starts the name (a hidden file) or there is none.
pub open spec fn extension(name: Seq<char>) -> Option<Seq<char>> {
    let d = after_last(name, '.', name.len() as int);
    if d <= 1 {
        None
    } else {
        Some(name.subrange(d, name.len() as int))
    }
}

pub proof fn lemma_after_last(s: Seq<char>, c: char, j: int)
    requires
        0 <= j <= s.len(),
    ensures
        0 <= after_last(s, c, j) <= j,
        after_last(s, c, j) > 0 ==> s[after_last(s, c, j) - 1] == c,
    decreases j,
{
    if j > 0 && s[j - 1] != c {
        lemma_after_last(s, c, j - 1);
    }
}

fn after_last_exec(s: &Vec<char>, c: char) -> (r: usize)
    ensures
        r as int == after_last(s@, c, s@.len() as int),
        r <= s@.len(),
{
    let mut j = s.len();
    while j > 0 && s[j - 1] != c
        invariant
            j <= s@.len(),
            after_last(s@, c, s@.len() as int) == after_last(s@, c, j as int),
        decreases j,
    {
        j -= 1;
    }
    j
}

/// The extension of the file `path` names, if any.
fn extension_of(path: &Vec<char>) -> (r: Option<Vec<char>>)
    ensures
        match r {
            Some(e) => extension(file_name(path@)) == Some(e@),
            None => extension(file_name(path@)) is None,
        },
{
    let start = after_last_exec(path, '/');
    let name = crate::text::slice_of(path, start, path.len());
    let d = after_last_exec(&name, '.');
    if d <= 1 {
        None
    } else {
        Some(crate::text::slice_of(&name, d, name.len()))
    }
}

/// The path names a Noir source: its file name's extension is `nr`.
pub open spec fn is_noir_source_spec(path: Seq<char>) -> bool {
    extension(file_name(path)) == Some(NOIR_SOURCE_EXTENSION@)
}

/// Whether `path` names a Noir source file (extension `nr`).
pub fn is_noir_source(path: &str) -> (r: bool)
    ensures
        r == is_noir_source_spec(path@),
{
    let p = chars_of(path);
    let want = chars_of(NOIR_SOURCE_EXTENSION);
    match extension_of(&p) {
        Some(e) => crate::patterns::same_chars(&e, &want),
        None => false,
    }
}

/// Whether `path` names a Nargo manifest (file name `Nargo.toml`).
pub fn is_nargo_manifest(path: &str) -> (r: bool)
    ensures
        r == (file_name(path@) == NARGO_MANIFEST_FILENAME@),
{
    let p = chars_of(path);
    let start = after_last_exec(&p, '/');
    let name = crate::text::slice_of(&p, start, p.len());
    let want = chars_of(NARGO_MANIFEST_FILENAME);
    crate::patterns::same_chars(&name, &want)
}

// ---------------------------------------------------------------------------
// Assembling a discovered project
// ---------------------------------------------------------------------------

/// The rank of a path character: the separator `/` below every other
/// character, so that comparing ranks orders paths component by component.
pub open spec fn path_rank(c: char) -> int {
    if c == '/' {
        0
    } else {
        c as int + 1
    }
}

/// `a` sorts no later than `b`: the path order, lexicographic on
/// [`path_rank`] (component by component, a path before its extensions).
pub open spec fn path_le(a: Seq<char>, b: Seq<char>) -> bool
    decreases a.len(),
{
    if a.len() == 0 {
        true
    } else if b.len() == 0 {
        false
    } else if path_rank(a[0]) != path_rank(b[0]) {
        path_rank(a[0]) < path_rank(b[0])
    } else {
        path_le(a.drop_first(), b.drop_first())
    }
}

/// The path order is total.
pub proof fn lemma_path_le_total(a: Seq<char>, b: Seq<char>)
    ensures
        path_le(a, b) || path_le(b, a),
    decreases a.len(),
{
    if a.len() > 0 && b.len() > 0 && path_rank(a[0]) == path_rank(b[0]) {
        lemma_path_le_total(a.drop_first(), b.drop_first());
    }
}

/// The path order is transitive.
pub proof fn lemma_path_le_trans(a: Seq<char>, b: Seq<char>, c: Seq<char>)
    requires
        path_le(a, b),
        path_le(b, c),
    ensures
        path_le(a, c),
    decreases a.len(),
{
    if a.len() > 0 && b.len() > 0 && c.len() > 0 && path_rank(a[0]) == path_rank(b[0]) && path_rank(b[0])
        == path_rank(c[0]) {
        lemma_path_le_trans(a.drop_first(), b.drop_first(), c.drop_first());
    }
}

fn path_rank_exec(c: char) -> (r: u32)
    ensures
        r as int == path_rank(c),
{
    if c == '/' {
        0
    } else {
        c as u32 + 1
    }
}

/// Executable [`path_le`].
pub fn path_le_exec(a: &str, b: &str) -> (r: bool)
    ensures
        r == path_le(a@, b@),
{
    let x = chars_of(a);
    let y = chars_of(b);
    let mut i: usize = 0;
    assert(x@.skip(0) =~= x@);
    assert(y@.skip(0) =~= y@);
    while i < x.len() && i < y.len() && path_rank_exec(x[i]) == path_rank_exec(y[i])
        invariant
            i <= x@.len(),
            i <= y@.len(),
            x@ == a@,
            y@ == b@,
            path_le(a@, b@) == path_le(x@.skip(i as int), y@.skip(i as int)),
        decreases x@.len() - i,
    {
        assert(x@.skip(i as int).drop_first() =~= x@.skip(i + 1));
        assert(y@.skip(i as int).drop_first() =~= y@.skip(i + 1));
        i += 1;
    }
    if i >= x.len() {
        true
    } else if i >= y.len() {
        false
    } else {
        path_rank_exec(x[i]) < path_rank_exec(y[i])
    }
}

/// The paths of `s`, in order, are sorted.
pub open spec fn sorted_paths(s: Seq<Seq<char>>) -> bool {
    forall|i: int, j: int| 0 <= i < j < s.len() ==> path_le(#[trigger] s[i], #[trigger] s[j])
}

/// The position at which a path goes into a sorted list: after every path
/// that sorts no later than it.
fn insert_position(paths: &Vec<Vec<char>>, p: &Vec<char>) -> (pos: usize)
    requires
        sorted_paths(paths@.map_values(|q: Vec<char>| q@)),
    ensures
        pos <= paths@.len(),
        forall|j: int| 0 <= j < pos ==> path_le(#[trigger] paths@[j]@, p@),
        forall|j: int| pos <= j < paths@.len() ==> path_le(p@, #[trigger] paths@[j]@),
{
    let ghost ps = paths@.map_values(|q: Vec<char>| q@);
    let mut pos: usize = 0;
    while pos < paths.len() && path_le_exec(string_of_chars(&paths[pos]).as_str(), string_of_chars(p).as_str())
        invariant
            pos <= paths@.len(),
            ps == paths@.map_values(|q: Vec<char>| q@),
            sorted_paths(ps),
            forall|j: int| 0 <= j < pos ==> path_le(#[trigger] paths@[j]@, p@),
        decreases paths@.len() - pos,
    {
        pos += 1;
    }
    if pos < paths.len() {
        proof {
            lemma_path_le_total(paths@[pos as int]@, p@);
        }
        assert forall|j: int| pos <= j < paths@.len() implies path_le(p@, #[trigger] paths@[j]@) by {
            if j > pos {
                assert(ps[pos as int] == paths@[pos as int]@);
                assert(ps[j] == paths@[j]@);
                lemma_path_le_trans(p@, paths@[pos as int]@, paths@[j]@);
            }
        }
    }
    pos
}

fn string_of_chars(cs: &Vec<char>) -> (r: String)
    ensures
        r@ == cs@,
{
    crate::text::string_of(cs)
}

/// Inserting at an [`insert_position`] keeps the paths sorted.
proof fn lemma_insert_sorted(ps: Seq<Seq<char>>, p: Seq<char>, pos: int)
    requires
        sorted_paths(ps),
        0 <= pos <= ps.len(),
        forall|j: int| 0 <= j < pos ==> path_le(#[trigger] ps[j], p),
        forall|j: int| pos <= j < ps.len() ==> path_le(p, #[trigger] ps[j]),
    ensures
        sorted_paths(ps.insert(pos, p)),
{
    let t = ps.insert(pos, p);
    assert forall|i: int, j: int| 0 <= i < j < t.len() implies path_le(#[trigger] t[i], #[trigger] t[j]) by {
        if i < pos && j < pos {
            assert(t[i] == ps[i] && t[j] == ps[j]);
        } else if i < pos && j == pos {
        } else if i < pos {
            assert(t[i] == ps[i] && t[j] == ps[j - 1]);
            lemma_path_le_trans(ps[i], p, ps[j - 1]);
        } else if i == pos {
            assert(t[j] == ps[j - 1]);
        } else {
            assert(t[i] == ps[i - 1] && t[j] == ps[j - 1]);
        }
    }
}

/// Sorts sources by path (the path order, component by component),
/// keeping every source.
pub fn sort_sources(sources: Vec<SourceView>) -> (r: Vec<SourceView>)
    ensures
        r@.to_multiset() =~= sources@.to_multiset(),
        sorted_paths(r@.map_values(|v: SourceView| v.path@)),
{
    broadcast use vstd::multiset::group_multiset_axioms;
    let mut input = sources;
    let mut out: Vec<SourceView> = Vec::new();
    let mut keys: Vec<Vec<char>> = Vec::new();
    proof {
        vstd::seq_lib::to_multiset_len(out@);
        vstd::multiset::lemma_multiset_empty_len(out@.to_multiset());
    }
    while input.len() > 0
        invariant
            out@.to_multiset().add(input@.to_multiset()) =~= sources@.to_multiset(),
            keys@.len() == out@.len(),
            forall|j: int| 0 <= j < keys@.len() ==> (#[trigger] keys@[j])@ == out@[j].path@,
            sorted_paths(keys@.map_values(|q: Vec<char>| q@)),
        decreases input@.len(),
    {
        let ghost before = input@;
        let x = input.pop().unwrap();
        assert(before =~= input@.push(x));
        let p = chars_of(x.path.as_str());
        let pos = insert_position(&keys, &p);
        let ghost ks = keys@.map_values(|q: Vec<char>| q@);
        let ghost old_out = out@;
        proof {
            lemma_insert_sorted(ks, p@, pos as int);
        }
        keys.insert(pos, p);
        out.insert(pos, x);
        assert(keys@.map_values(|q: Vec<char>| q@) =~= ks.insert(pos as int, p@));
        proof {
            assert(out@ =~= old_out.insert(pos as int, x));
            vstd::seq_lib::to_multiset_insert(old_out, pos as int, x);
            vstd::seq_lib::to_multiset_build(input@, x);
        }
    }
    proof {
        vstd::seq_lib::to_multiset_len(input@);
        vstd::multiset::lemma_multiset_empty_len(input@.to_multiset());
    }
    assert(out@.map_values(|v: SourceView| v.path@) =~= keys@.map_values(|q: Vec<char>| q@));
    out
}

/// Sorts skipped files by path (the path order), keeping every one.
pub fn sort_skipped(skipped: Vec<SkippedFile>) -> (r: Vec<SkippedFile>)
    ensures
        r@.to_multiset() =~= skipped@.to_multiset(),
        sorted_paths(r@.map_values(|v: SkippedFile| v.path@)),
{
    broadcast use vstd::multiset::group_multiset_axioms;
    let mut input = skipped;
    let mut out: Vec<SkippedFile> = Vec::new();
    let mut keys: Vec<Vec<char>> = Vec::new();
    proof {
        vstd::seq_lib::to_multiset_len(out@);
        vstd::multiset::lemma_multiset_empty_len(out@.to_multiset());
    }
    while input.len() > 0
        invariant
            out@.to_multiset().add(input@.to_multiset()) =~= skipped@.to_multiset(),
            keys@.len() == out@.len(),
            forall|j: int| 0 <= j < keys@.len() ==> (#[trigger] keys@[j])@ == out@[j].path@,
            sorted_paths(keys@.map_values(|q: Vec<char>| q@)),
        decreases input@.len(),
    {
        let ghost before = input@;
        let x = input.pop().unwrap();
        assert(before =~= input@.push(x));
        let p = chars_of(x.path.as_str());
        let pos = insert_position(&keys, &p);
        let ghost ks = keys@.map_values(|q: Vec<char>| q@);
        let ghost old_out = out@;
        proof {
            lemma_insert_sorted(ks, p@, pos as int);
        }
        keys.insert(pos, p);
        out.insert(pos, x);
        assert(keys@.map_values(|q: Vec<char>| q@) =~= ks.insert(pos as int, p@));
        proof {
            assert(out@ =~= old_out.insert(pos as int, x));
            vstd::seq_lib::to_multiset_insert(old_out, pos as int, x);
            vstd::seq_lib::to_multiset_build(input@, x);
        }
    }
    proof {
        vstd::seq_lib::to_multiset_len(input@);
        vstd::multiset::lemma_multiset_empty_len(input@.to_multiset());
    }
    assert(out@.map_values(|v: SkippedFile| v.path@) =~= keys@.map_values(|q: Vec<char>| q@));
    out
}

/// The depth of a path: the number of `/` separators in it.
pub open spec fn path_depth(p: Seq<char>) -> nat {
    count_char(p, '/', p.len() as int)
}

/// The manifest a project reports among the `Nargo.toml` files found (in
/// walk order): the shallowest one, the first found among equally shallow
/// ones; none when none was found.
pub open spec fn shallowest_upto(ms: Seq<String>, n: int) -> Option<int>
    decreases n,
{
    if n <= 0 {
        None
    } else {
        match shallowest_upto(ms, n - 1) {
            None => Some(n - 1),
            Some(k) => if path_depth(ms[n - 1]@) < path_depth(ms[k]@) {
                Some(n - 1)
            } else {
                Some(k)
            },
        }
    }
}

proof fn lemma_shallowest(ms: Seq<String>, n: int)
    requires
        0 <= n <= ms.len(),
    ensures
        shallowest_upto(ms, n) is None <==> n == 0,
        shallowest_upto(ms, n) matches Some(k) ==> 0 <= k < n && forall|j: int|
            0 <= j < n ==> path_depth(ms[k]@) <= path_depth(#[trigger] ms[j]@) && (j < k ==> path_depth(
                ms[k]@,
            ) < path_depth(ms[j]@)),
    decreases n,
{
    if n > 0 {
        lemma_shallowest(ms, n - 1);
    }
}

/// A discovered project from what the walk collected: the sources and the
/// skipped files sorted by path (so the result does not depend on the
/// order in which the file system listed directories), and as manifest the
/// shallowest `Nargo.toml` found (the first found among equally shallow
/// ones), or none.
pub fn assemble_project(sources: Vec<SourceView>, skipped: Vec<SkippedFile>, manifests: Vec<String>) -> (r: NoirProject)
    ensures
        r.sources@.to_multiset() =~= sources@.to_multiset(),
        sorted_paths(r.sources@.map_values(|v: SourceView| v.path@)),
        r.skipped@.to_multiset() =~= skipped@.to_multiset(),
        sorted_paths(r.skipped@.map_values(|v: SkippedFile| v.path@)),
        match shallowest_upto(manifests@, manifests@.len() as int) {
            None => r.manifest_path is None,
            Some(k) => r.manifest_path matches Some(m) && m@ == manifests@[k]@,
        },
        manifests@.len() == 0 <==> r.manifest_path is None,
{
    let mut best: Option<usize> = None;
    let mut best_depth: usize = 0;
    let mut k: usize = 0;
    while k < manifests.len()
        invariant
            k <= manifests@.len(),
            match shallowest_upto(manifests@, k as int) {
                None => best is None,
                Some(i) => best == Some(i as usize) && best_depth == path_depth(manifests@[i]@) && 0 <= i < k,
            },
        decreases manifests@.len() - k,
    {
        proof {
            lemma_shallowest(manifests@, k as int);
        }
        let cs = chars_of(manifests[k].as_str());
        let d = count_char_exec(&cs, '/', cs.len());
        match best {
            None => {
                best = Some(k);
                best_depth = d;
            },
            Some(_) => {
                if d < best_depth {
                    best = Some(k);
                    best_depth = d;
                }
            },
        }
        k += 1;
    }
    proof {
        lemma_shallowest(manifests@, manifests@.len() as int);
    }
    let manifest_path = match best {
        None => None,
        Some(i) => Some(manifests[i].clone()),
    };
    NoirProject { manifest_path, sources: sort_sources(sources), skipped: sort_skipped(skipped) }
}

} // verus!
