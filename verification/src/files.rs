//! The file finder: pick a file under the origin cwd, then open it in a new
//! pane (a split of the origin pane) or a new window (tab), with the file's
//! directory as the new cwd, and run the editor on it there.
//!
//! The finder runs as a small state machine (`run`): the caller performs the
//! action it asks for (a directory check, collecting the files, an fzf pick,
//! a `herdr` command) and hands back what came of it.
use vstd::prelude::*;

use crate::palette::{args_view, spec_tsv};
use crate::text::{
    chars_of, first_field, last_field, last_index_of, owned, string_of_range, trim, trim_end_matches,
    trim_start_matches,
};

verus! {

broadcast use vstd::string::group_string_axioms;

// ---------------------------------------------------------------------------
// Paths
// ---------------------------------------------------------------------------
/// `cwd` joined with the relative path `p`, `cwd`'s trailing slashes dropped.
pub open spec fn join_path(cwd: Seq<char>, p: Seq<char>) -> Seq<char> {
    trim_end_matches(cwd, "/"@) + "/"@ + p
}

/// The paths with empty ones dropped and relative ones made absolute under
/// `cwd`.
pub open spec fn absolutize(cwd: Seq<char>, paths: Seq<Seq<char>>) -> Seq<Seq<char>>
    decreases paths.len(),
{
    if paths.len() == 0 {
        Seq::empty()
    } else {
        let rest = absolutize(cwd, paths.drop_last());
        let p = paths.last();
        if p.len() == 0 {
            rest
        } else if p[0] == '/' {
            rest.push(p)
        } else {
            rest.push(join_path(cwd, p))
        }
    }
}

/// The views of a vector of strings.
pub open spec fn views(v: Seq<String>) -> Seq<Seq<char>> {
    v.map_values(|s: String| s@)
}

/// Prepend `cwd` to every relative path so fzf carries absolute values; empty
/// paths are dropped.
pub fn ensure_absolute(cwd: &str, paths: &mut Vec<String>)
    ensures
        views(final(paths)@) == absolutize(cwd@, views(old(paths)@)),
{
    let cv = chars_of(cwd);
    let slash = chars_of("/");
    let n = crate::text::trim_end_matching(&cv, &slash);
    let base = string_of_range(&cv, 0, n);
    let mut out: Vec<String> = Vec::new();
    let mut i: usize = 0;
    let ghost olds = views(paths@);
    while i < paths.len()
        invariant
            i <= paths.len(),
            olds == views(paths@),
            base@ == trim_end_matches(cwd@, "/"@),
            views(out@) == absolutize(cwd@, olds.take(i as int)),
        decreases paths.len() - i,
    {
        let ghost before = views(out@);
        assert(olds.take(i + 1).drop_last() =~= olds.take(i as int));
        assert(olds.take(i + 1).last() == paths@[i as int]@);
        let p = paths[i].as_str();
        if p.is_empty() {
        } else {
            let pv = chars_of(p);
            if pv[0] == '/' {
                out.push(paths[i].clone());
                assert(views(out@) =~= before.push(p@));
            } else {
                let mut a = base.clone();
                a.append("/");
                a.append(p);
                out.push(a);
                assert(views(out@) =~= before.push(join_path(cwd@, p@)));
            }
        }
        i = i + 1;
    }
    assert(olds.take(olds.len() as int) =~= olds);
    *paths = out;
}

/// The directory part of a path: up to its last `/`, or "." without one.
pub open spec fn spec_parent_of(file: Seq<char>) -> Seq<char> {
    match last_index_of(file, '/') {
        Some(i) => file.take(i),
        None => "."@,
    }
}

/// The directory part of `file`: everything before its last `/`, or "."
/// when it has none.
pub fn parent_of(file: &str) -> (r: String)
    ensures
        r@ == spec_parent_of(file@),
{
    let v = chars_of(file);
    match crate::text::rfind_char(&v, '/') {
        Some(i) => string_of_range(&v, 0, i),
        None => owned("."),
    }
}

/// The argv opening `file` in a new tab rooted at `parent`, labelled with the
/// file's base name; refused when there is no directory.
pub open spec fn spec_open_window(file: Seq<char>, parent: Seq<char>) -> Result<Seq<Seq<char>>, &'static str> {
    if parent.len() == 0 {
        Err("telescope: cannot open a window for a file with no directory.")
    } else {
        Ok(seq!["tab"@, "create"@, "--cwd"@, parent, "--label"@, last_field(file, '/'), "--focus"@])
    }
}

/// The argv opening `file` in a split of the origin pane rooted at `parent`;
/// without an origin pane, a new window instead.
pub open spec fn spec_open_pane(file: Seq<char>, parent: Seq<char>, origin_pane: Seq<char>) -> Result<Seq<Seq<char>>, &'static str> {
    if parent.len() == 0 {
        Err("telescope: cannot open a pane for a file with no directory.")
    } else if origin_pane.len() == 0 {
        spec_open_window(file, parent)
    } else {
        Ok(seq!["pane"@, "split"@, origin_pane, "--direction"@, "right"@, "--cwd"@, parent, "--focus"@])
    }
}

/// Whether an argv result is the specified one.
pub open spec fn argv_is(r: Result<Vec<String>, &'static str>, s: Result<Seq<Seq<char>>, &'static str>) -> bool {
    match (r, s) {
        (Ok(v), Ok(w)) => args_view(v@) =~= w,
        (Err(e), Err(f)) => e == f,
        _ => false,
    }
}

fn argv(parts: &[&str]) -> (v: Vec<String>)
    ensures
        args_view(v@) == parts@.map_values(|p: &str| p@),
{
    let mut v: Vec<String> = Vec::new();
    let mut i: usize = 0;
    while i < parts.len()
        invariant
            i <= parts.len(),
            args_view(v@) == parts@.take(i as int).map_values(|p: &str| p@),
        decreases parts.len() - i,
    {
        let ghost before = args_view(v@);
        v.push(owned(parts[i]));
        assert(args_view(v@) =~= before.push(parts@[i as int]@));
        assert(parts@.take(i + 1) =~= parts@.take(i as int).push(parts@[i as int]));
        i = i + 1;
    }
    assert(parts@.take(parts@.len() as int) =~= parts@);
    v
}

/// The `herdr` argv opening `file` in a new window (tab).
pub fn open_window(file: &str, parent: &str) -> (r: Result<Vec<String>, &'static str>)
    ensures
        argv_is(r, spec_open_window(file@, parent@)),
{
    if parent.is_empty() {
        return Err("telescope: cannot open a window for a file with no directory.");
    }
    let fv = chars_of(file);
    let label = match crate::text::rfind_char(&fv, '/') {
        Some(i) => string_of_range(&fv, i + 1, fv.len()),
        None => owned(file),
    };
    Ok(argv(&["tab", "create", "--cwd", parent, "--label", label.as_str(), "--focus"]))
}

/// The `herdr` argv opening `file` in a new pane split off the origin pane.
pub fn open_pane(file: &str, parent: &str, origin_pane: &str) -> (r: Result<Vec<String>, &'static str>)
    ensures
        argv_is(r, spec_open_pane(file@, parent@, origin_pane@)),
{
    if parent.is_empty() {
        return Err("telescope: cannot open a pane for a file with no directory.");
    }
    if origin_pane.is_empty() {
        return open_window(file, parent);
    }
    Ok(argv(&["pane", "split", origin_pane, "--direction", "right", "--cwd", parent, "--focus"]))
}

// ---------------------------------------------------------------------------
// Rows
// ---------------------------------------------------------------------------
/// `p` shown relative to `cwd` (`cwd` stripped when it is a prefix, then
/// leading slashes).
pub open spec fn relative(cwd: Seq<char>, p: Seq<char>) -> Seq<char> {
    let r = if cwd.is_prefix_of(p) { p.skip(cwd.len() as int) } else { p };
    trim_start_matches(r, "/"@)
}

/// The finder rows: the absolute path, a tab, the path relative to `cwd`.
pub open spec fn spec_file_rows(cwd: Seq<char>, paths: Seq<Seq<char>>) -> Seq<Seq<char>> {
    paths.map_values(|p: Seq<char>| p + "\t"@ + relative(cwd, p))
}

/// The path of `p` relative to `cwd`.
fn relative_of(cwd: &str, p: &str) -> (r: String)
    ensures
        r@ == relative(cwd@, p@),
{
    let cv = chars_of(cwd);
    let pv = chars_of(p);
    let start = if crate::text::has_prefix(&pv, &cv) {
        cv.len()
    } else {
        0
    };
    assert(pv@.skip(0) =~= pv@);
    let rest: Vec<char> = {
        let mut r: Vec<char> = Vec::new();
        let mut i: usize = start;
        while i < pv.len()
            invariant
                start <= i <= pv.len(),
                r@ == pv@.subrange(start as int, i as int),
            decreases pv.len() - i,
        {
            r.push(pv[i]);
            i = i + 1;
            assert(r@ =~= pv@.subrange(start as int, i as int));
        }
        assert(r@ =~= pv@.skip(start as int));
        r
    };
    let slash = chars_of("/");
    let k = crate::text::trim_start_matching(&rest, &slash);
    string_of_range(&rest, k, rest.len())
}

/// The fzf rows of the finder: `path<tab>relative display`, so rows are
/// scannable whatever the cwd while the absolute path is the value.
pub fn file_rows(cwd: &str, paths: &Vec<String>) -> (rows: Vec<String>)
    ensures
        views(rows@) == spec_file_rows(cwd@, views(paths@)),
{
    let mut rows: Vec<String> = Vec::new();
    let mut i: usize = 0;
    while i < paths.len()
        invariant
            i <= paths.len(),
            views(rows@) == spec_file_rows(cwd@, views(paths@.take(i as int))),
        decreases paths.len() - i,
    {
        let ghost before = views(rows@);
        let mut row = paths[i].clone();
        row.append("\t");
        let rel = relative_of(cwd, paths[i].as_str());
        row.append(rel.as_str());
        rows.push(row);
        assert(views(paths@.take(i + 1)) =~= views(paths@.take(i as int)).push(paths@[i as int]@));
        assert(views(rows@) =~= before.push(paths@[i as int]@ + "\t"@ + relative(cwd@, paths@[i as int]@)));
        i = i + 1;
    }
    assert(paths@.take(paths@.len() as int) =~= paths@);
    rows
}

/// The finder's prompt, with the number of files.
pub fn files_prompt(n: usize) -> (r: String)
    ensures
        r@ == "telescope files ▸  ("@ + crate::text::decimal(n as nat) + " files)"@,
{
    let mut r = owned("telescope files ▸  (");
    crate::text::push_decimal(&mut r, n as u64);
    r.append(" files)");
    r
}

// ---------------------------------------------------------------------------
// Tool output
// ---------------------------------------------------------------------------
/// Index of the first `sep` in `b`, if any.
pub open spec fn first_sep(b: Seq<u8>, sep: u8) -> Option<int>
    decreases b.len(),
{
    if b.len() == 0 {
        None
    } else if b[0] == sep {
        Some(0)
    } else {
        match first_sep(b.drop_first(), sep) {
            Some(i) => Some(i + 1),
            None => None,
        }
    }
}

/// `b` split at every `sep` (`<[u8]>::split`).
pub open spec fn split_bytes(b: Seq<u8>, sep: u8) -> Seq<Seq<u8>>
    decreases b.len(),
{
    match first_sep(b, sep) {
        Some(i) => if 0 <= i < b.len() {
            seq![b.take(i)] + split_bytes(b.skip(i + 1), sep)
        } else {
            seq![b]
        },
        None => seq![b],
    }
}

/// The path a non-empty output part stands for: the part decoded and
/// trimmed, then (for `find`) stripped of leading `./`; `None` when it is not
/// UTF-8.
pub open spec fn part_path(part: Seq<u8>, strip_dot: bool) -> Option<Seq<char>> {
    if vstd::utf8::valid_utf8(part) {
        let t = trim(vstd::utf8::decode_utf8(part));
        Some(if strip_dot { trim_start_matches(t, "./"@) } else { t })
    } else {
        None
    }
}

/// The paths read from the parts of a tool's output, after `acc`: empty parts
/// skipped, parts that are not UTF-8 dropped, and reading stops once `cap`
/// paths are held.
pub open spec fn collect_parts(parts: Seq<Seq<u8>>, strip_dot: bool, cap: Option<usize>, acc: Seq<Seq<char>>) -> Seq<Seq<char>>
    decreases parts.len(),
{
    if parts.len() == 0 {
        acc
    } else if parts[0].len() == 0 {
        collect_parts(parts.drop_first(), strip_dot, cap, acc)
    } else {
        let acc2 = match part_path(parts[0], strip_dot) {
            Some(p) => acc.push(p),
            None => acc,
        };
        if full(cap, acc2.len()) {
            acc2
        } else {
            collect_parts(parts.drop_first(), strip_dot, cap, acc2)
        }
    }
}

/// Whether `n` paths reach the cap.
pub open spec fn full(cap: Option<usize>, n: nat) -> bool {
    match cap {
        Some(c) => n >= c,
        None => false,
    }
}

/// The paths a tool printed, separated by `sep` (`\n`, or NUL for
/// `git ls-files -z`).
pub open spec fn spec_output_paths(out: Seq<u8>, sep: u8, strip_dot: bool, cap: Option<usize>) -> Seq<Seq<char>> {
    collect_parts(split_bytes(out, sep), strip_dot, cap, Seq::empty())
}

proof fn lemma_first_sep_is(b: Seq<u8>, sep: u8, i: int)
    requires
        0 <= i <= b.len(),
        i < b.len() ==> b[i] == sep,
        forall|k: int| 0 <= k < i ==> b[k] != sep,
    ensures
        first_sep(b, sep) == (if i < b.len() { Some(i) } else { None::<int> }),
    decreases b.len(),
{
    if b.len() > 0 && i > 0 {
        assert forall|k: int| 0 <= k < i - 1 implies b.drop_first()[k] != sep by {
            assert(b.drop_first()[k] == b[k + 1]);
        }
        if i < b.len() {
            assert(b.drop_first()[i - 1] == b[i]);
        }
        lemma_first_sep_is(b.drop_first(), sep, i - 1);
    }
}

/// The path of one non-empty part of a tool's output.
fn part_to_path(part: &[u8], strip_dot: bool) -> (r: Option<String>)
    ensures
        match r {
            Some(p) => part_path(part@, strip_dot) == Some(p@),
            None => part_path(part@, strip_dot) is None,
        },
{
    match crate::text::utf8_str(part) {
        Some(s) => {
            let t = crate::text::trimmed(s);
            if strip_dot {
                let tv = chars_of(t.as_str());
                let dot = chars_of("./");
                let k = crate::text::trim_start_matching(&tv, &dot);
                Some(string_of_range(&tv, k, tv.len()))
            } else {
                Some(t)
            }
        },
        None => None,
    }
}

/// The end of the part starting at `start`: the next `sep`, or the end.
fn part_end(out: &[u8], start: usize, sep: u8) -> (j: usize)
    requires
        start <= out.len(),
    ensures
        start <= j <= out.len(),
        j < out.len() ==> split_bytes(out@.skip(start as int), sep) == seq![out@.subrange(start as int, j as int)] + split_bytes(out@.skip(j + 1), sep),
        j == out.len() ==> split_bytes(out@.skip(start as int), sep) == seq![out@.skip(start as int)],
{
    let ghost rest = out@.skip(start as int);
    let mut j: usize = start;
    while j < out.len() && out[j] != sep
        invariant
            start <= j <= out.len(),
            forall|k: int| start <= k < j ==> out@[k] != sep,
        decreases out.len() - j,
    {
        j = j + 1;
    }
    proof {
        assert forall|k: int| 0 <= k < j - start implies rest[k] != sep by {
            assert(rest[k] == out@[start + k]);
        }
        if j < out.len() {
            assert(rest[j - start] == out@[j as int]);
        }
        lemma_first_sep_is(rest, sep, j - start);
        if j < out.len() {
            assert(rest.take(j - start) =~= out@.subrange(start as int, j as int));
            assert(rest.skip(j - start + 1) =~= out@.skip(j + 1));
        }
    }
    j
}

/// The paths in a tool's output.
pub fn output_paths(out: &[u8], sep: u8, strip_dot: bool, cap: Option<usize>) -> (r: Vec<String>)
    ensures
        views(r@) == spec_output_paths(out@, sep, strip_dot, cap),
{
    let mut r: Vec<String> = Vec::new();
    let mut start: usize = 0;
    let ghost whole = spec_output_paths(out@, sep, strip_dot, cap);
    assert(out@.skip(0) =~= out@);
    assert(views(r@) =~= Seq::<Seq<char>>::empty());
    loop
        invariant_except_break
            start <= out.len(),
            whole == collect_parts(split_bytes(out@.skip(start as int), sep), strip_dot, cap, views(r@)),
        ensures
            views(r@) == whole,
        decreases out.len() - start,
    {
        let j = part_end(out, start, sep);
        let part = &out[start..j];
        let ghost parts = split_bytes(out@.skip(start as int), sep);
        let ghost before = views(r@);
        proof {
            if j == out.len() {
                assert(part@ =~= out@.skip(start as int));
            } else {
                assert(part@ =~= out@.subrange(start as int, j as int));
            }
            assert(parts[0] == part@);
        }
        let mut stop = false;
        if j > start {
            match part_to_path(part, strip_dot) {
                Some(p) => {
                    r.push(p);
                    assert(views(r@) =~= before.push(part_path(part@, strip_dot).unwrap()));
                },
                None => {},
            }
            match cap {
                Some(c) => {
                    if r.len() >= c {
                        stop = true;
                    }
                },
                None => {},
            }
        }
        if stop {
            break;
        }
        if j >= out.len() {
            proof {
                assert(parts.drop_first() =~= Seq::<Seq<u8>>::empty());
                assert(collect_parts(parts.drop_first(), strip_dot, cap, views(r@)) == views(r@));
                assert(collect_parts(parts, strip_dot, cap, before) == collect_parts(parts.drop_first(), strip_dot, cap, views(r@)));
            }
            break;
        }
        proof {
            assert(parts.drop_first() =~= split_bytes(out@.skip(j + 1), sep));
        }
        start = j + 1;
    }
    r
}

// ---------------------------------------------------------------------------
// Listing the files
// ---------------------------------------------------------------------------
/// The tools the files under a directory are listed with, in the order they
/// are tried.
#[derive(Clone, Copy, Debug, PartialEq, Eq, Structural)]
pub enum FileEngine {
    /// `fd` (fast, gitignore-aware).
    Fd,
    /// `git ls-files` (tracked and untracked, ignore rules applied).
    Git,
    /// A bounded `find`.
    Find,
}

/// One listing run: the tool, its arguments (run in the directory), and how
/// its output is read (`output_paths` with `sep`, `strip_dot`, `cap`).
#[derive(Debug)]
pub struct EngineRun {
    pub engine: FileEngine,
    pub argv: Vec<String>,
    pub sep: u8,
    pub strip_dot: bool,
    pub cap: Option<usize>,
}

/// The arguments of each tool.
pub open spec fn engine_argv(e: FileEngine) -> Seq<Seq<char>> {
    match e {
        FileEngine::Fd => seq!["fd"@, "--type"@, "f"@, "--hidden"@, "-E"@, ".git"@],
        FileEngine::Git => seq!["git"@, "ls-files"@, "-co"@, "--exclude-standard"@, "-z"@],
        FileEngine::Find => seq![
            "find"@,
            "."@,
            "-type"@,
            "f"@,
            "-not"@,
            "-path"@,
            "*/.*"@,
            "-maxdepth"@,
            "6"@,
        ],
    }
}

/// Whether `r` is the run of `e`: its arguments, and its output read by
/// newline (fd, find) or NUL (git), `./` stripped and capped at 10 000 paths
/// for find only.
pub open spec fn is_engine_run(r: EngineRun, e: FileEngine) -> bool {
    &&& r.engine == e
    &&& args_view(r.argv@) == engine_argv(e)
    &&& r.sep == (if e == FileEngine::Git { 0u8 } else { 10u8 })
    &&& r.strip_dot == (e == FileEngine::Find)
    &&& r.cap == (if e == FileEngine::Find { Some(10_000usize) } else { None })
}

/// The tool to try next, after `prev` ran (`ok`: it ran and succeeded;
/// `found`: the paths collected so far): fd first; git when fd failed; find
/// when git failed or found nothing; then none.
pub open spec fn spec_next_engine(prev: Option<FileEngine>, ok: bool, found: usize) -> Option<FileEngine> {
    match prev {
        None => Some(FileEngine::Fd),
        Some(FileEngine::Fd) => if ok { None } else { Some(FileEngine::Git) },
        Some(FileEngine::Git) => if ok && found > 0 { None } else { Some(FileEngine::Find) },
        Some(FileEngine::Find) => None,
    }
}

/// The run of one tool.
fn engine_run(e: FileEngine) -> (r: EngineRun)
    ensures
        is_engine_run(r, e),
{
    match e {
        FileEngine::Fd => {
            let parts = ["fd", "--type", "f", "--hidden", "-E", ".git"];
            let argv = crate::palette::argv_of(&parts);
            assert(args_view(argv@) =~= engine_argv(e));
            EngineRun { engine: e, argv, sep: 10u8, strip_dot: false, cap: None }
        },
        FileEngine::Git => {
            let parts = ["git", "ls-files", "-co", "--exclude-standard", "-z"];
            let argv = crate::palette::argv_of(&parts);
            assert(args_view(argv@) =~= engine_argv(e));
            EngineRun { engine: e, argv, sep: 0u8, strip_dot: false, cap: None }
        },
        FileEngine::Find => {
            let parts = ["find", ".", "-type", "f", "-not", "-path", "*/.*", "-maxdepth", "6"];
            let argv = crate::palette::argv_of(&parts);
            assert(args_view(argv@) =~= engine_argv(e));
            EngineRun { engine: e, argv, sep: 10u8, strip_dot: true, cap: Some(10_000usize) }
        },
    }
}

/// The next listing run after `prev` (see `spec_next_engine`), `None` when
/// the listing is over.
pub fn next_engine(prev: Option<FileEngine>, ok: bool, found: usize) -> (r: Option<EngineRun>)
    ensures
        match spec_next_engine(prev, ok, found) {
            Some(e) => r matches Some(run) && is_engine_run(run, e),
            None => r is None,
        },
{
    let next = match prev {
        None => Some(FileEngine::Fd),
        Some(FileEngine::Fd) => if ok { None } else { Some(FileEngine::Git) },
        Some(FileEngine::Git) => if ok && found > 0 { None } else { Some(FileEngine::Find) },
        Some(FileEngine::Find) => None,
    };
    match next {
        Some(e) => Some(engine_run(e)),
        None => None,
    }
}

// ---------------------------------------------------------------------------
// The finder as a state machine
// ---------------------------------------------------------------------------
/// What the finder asks its caller to do next.
#[derive(Debug)]
pub enum FilesAction {
    /// Check that this directory exists; answer `CwdChecked`.
    CheckDir(String),
    /// Collect the files under this directory; answer `Collected`.
    Collect(String),
    /// Let the user pick one of these rows; answer `FilePicked`.
    PickFile { rows: Vec<String>, prompt: String },
    /// Let the user pick where to open the file; answer `TargetPicked`.
    PickTarget { options: Vec<String>, prompt: String },
    /// Run `herdr` with these arguments to make the new pane or window
    /// (failing with its stderr when it fails); answer `Opened` with what it
    /// printed.
    Open(Vec<String>),
    /// Run `herdr` with these arguments; the finder is done.
    RunCli(Vec<String>),
    /// Show this message and exit with failure.
    Die(&'static str),
    /// Nothing more to do (cancelled).
    Done,
}

/// What came of the finder's last action.
#[derive(Debug)]
pub enum FilesEvent {
    /// The finder starts.
    Start,
    /// Whether the directory exists.
    CwdChecked(bool),
    /// The files found (absolute paths).
    Collected(Vec<String>),
    /// The picked row, `None` on cancel.
    FilePicked(Option<String>),
    /// The picked target row, `None` on cancel.
    TargetPicked(Option<String>),
    /// What the command that made the new pane or window printed.
    Opened(Vec<u8>),
}

/// The finder's state: where it searches, the origin pane, and the picked
/// file with its directory once there is one.
#[derive(Debug)]
pub struct FilesRun {
    pub cwd: String,
    pub origin_pane: String,
    /// The editor command the file is opened with.
    pub editor: String,
    pub file: String,
    pub parent: String,
}

/// The two places a file can be opened in.
pub open spec fn target_options() -> Seq<Seq<char>> {
    seq!["pane\tNew pane (split, right)"@, "window\tNew window (tab)"@]
}

/// The action that runs an argv, or dies with its refusal.
pub open spec fn run_or_die(a: FilesAction, s: Result<Seq<Seq<char>>, &'static str>) -> bool {
    match (a, s) {
        (FilesAction::Open(v), Ok(w)) => args_view(v@) =~= w,
        (FilesAction::Die(m), Err(e)) => m == e,
        _ => false,
    }
}

/// The shell command opening `file` in `editor`: the editor, a space, the
/// path as it is (`$EDITOR <file>`).
pub open spec fn editor_line(editor: Seq<char>, file: Seq<char>) -> Seq<char> {
    editor + " "@ + file
}

/// The id of the pane a `herdr` command that made one reports, or the empty
/// sequence.
pub open spec fn reported_pane(out: Seq<u8>) -> Seq<char> {
    match crate::json::json_parse(out) {
        Some(b) => match crate::json::str_at(b, seq!["result"@, "pane"@, "pane_id"@]) {
            Some(s) => s,
            None => Seq::empty(),
        },
        None => Seq::empty(),
    }
}

/// What the finder does next for `event`, from state `st` (the state after
/// the step is `next`).
pub open spec fn spec_files_step(st: FilesRun, event: FilesEvent, next: FilesRun, a: FilesAction) -> bool {
    match event {
        FilesEvent::Start => if st.cwd@.len() == 0 {
            a == FilesAction::Die("telescope: no usable origin directory to search files under.")
        } else {
            a matches FilesAction::CheckDir(d) && d@ == st.cwd@
        },
        FilesEvent::CwdChecked(ok) => if ok {
            a matches FilesAction::Collect(d) && d@ == st.cwd@
        } else {
            a == FilesAction::Die("telescope: no usable origin directory to search files under.")
        },
        FilesEvent::Collected(paths) => if paths@.len() == 0 {
            a == FilesAction::Die("telescope: no files found under the origin directory.")
        } else {
            a matches FilesAction::PickFile { rows, prompt } && views(rows@) == spec_file_rows(st.cwd@, views(paths@))
                && prompt@ == "telescope files ▸  ("@ + crate::text::decimal(paths@.len()) + " files)"@
        },
        FilesEvent::FilePicked(line) => match line {
            None => a == FilesAction::Done,
            Some(l) => {
                &&& next.file@ == first_field(l@, '\t')
                &&& next.parent@ == spec_parent_of(next.file@)
                &&& a matches FilesAction::PickTarget { options, prompt } && views(options@) == target_options()
                    && prompt@ == "open in ▸ "@
            },
        },
        FilesEvent::TargetPicked(choice) => match choice {
            None => a == FilesAction::Done,
            Some(c) => if first_field(c@, '\t') == "window"@ {
                run_or_die(a, spec_open_window(st.file@, st.parent@))
            } else {
                run_or_die(a, spec_open_pane(st.file@, st.parent@, st.origin_pane@))
            },
        },
        FilesEvent::Opened(out) => if reported_pane(out@).len() == 0 {
            a == FilesAction::Done
        } else {
            a matches FilesAction::RunCli(v) && args_view(v@) == seq![
                "pane"@,
                "run"@,
                reported_pane(out@),
                editor_line(st.editor@, st.file@),
            ]
        },
    }
}

/// The finder's initial state.
pub fn new_run(cwd: &str, origin_pane: &str, editor: &str) -> (r: FilesRun)
    ensures
        r.cwd@ == cwd@,
        r.origin_pane@ == origin_pane@,
        r.editor@ == editor@,
        r.file@.len() == 0,
        r.parent@.len() == 0,
{
    FilesRun {
        cwd: owned(cwd),
        origin_pane: owned(origin_pane),
        editor: owned(editor),
        file: String::new(),
        parent: String::new(),
    }
}

/// The shell command opening `file` in `editor`.
fn editor_command(editor: &str, file: &str) -> (r: String)
    ensures
        r@ == editor_line(editor@, file@),
{
    let mut r = owned(editor);
    r.append(" ");
    r.append(file);
    r
}

fn argv_action(r: Result<Vec<String>, &'static str>) -> (a: FilesAction)
    ensures
        forall|s: Result<Seq<Seq<char>>, &'static str>| argv_is(r, s) ==> run_or_die(a, s),
{
    match r {
        Ok(v) => FilesAction::Open(v),
        Err(m) => FilesAction::Die(m),
    }
}

/// One step of the finder: search files from the origin cwd, let the user
/// pick one, then ask "new pane" / "new window" and open it there.
pub fn run(st: &mut FilesRun, event: FilesEvent) -> (a: FilesAction)
    ensures
        spec_files_step(*old(st), event, *final(st), a),
        final(st).cwd == old(st).cwd,
        final(st).origin_pane == old(st).origin_pane,
        final(st).editor == old(st).editor,
        !(event is FilePicked) ==> final(st).file == old(st).file && final(st).parent == old(st).parent,
{
    match event {
        FilesEvent::Start => {
            if st.cwd.as_str().is_empty() {
                FilesAction::Die("telescope: no usable origin directory to search files under.")
            } else {
                FilesAction::CheckDir(st.cwd.clone())
            }
        },
        FilesEvent::CwdChecked(ok) => {
            if ok {
                FilesAction::Collect(st.cwd.clone())
            } else {
                FilesAction::Die("telescope: no usable origin directory to search files under.")
            }
        },
        FilesEvent::Collected(paths) => {
            if paths.len() == 0 {
                FilesAction::Die("telescope: no files found under the origin directory.")
            } else {
                let rows = file_rows(st.cwd.as_str(), &paths);
                let prompt = files_prompt(paths.len());
                FilesAction::PickFile { rows, prompt }
            }
        },
        FilesEvent::FilePicked(line) => {
            match line {
                None => FilesAction::Done,
                Some(l) => {
                    st.file = crate::text::first_field_of(l.as_str(), '\t');
                    st.parent = parent_of(st.file.as_str());
                    let mut options: Vec<String> = Vec::new();
                    options.push(owned("pane\tNew pane (split, right)"));
                    options.push(owned("window\tNew window (tab)"));
                    assert(views(options@) =~= target_options());
                    FilesAction::PickTarget { options, prompt: owned("open in ▸ ") }
                },
            }
        },
        FilesEvent::TargetPicked(choice) => {
            match choice {
                None => FilesAction::Done,
                Some(c) => {
                    let target = crate::text::first_field_of(c.as_str(), '\t');
                    if crate::text::str_eq(target.as_str(), "window") {
                        argv_action(open_window(st.file.as_str(), st.parent.as_str()))
                    } else {
                        argv_action(open_pane(st.file.as_str(), st.parent.as_str(), st.origin_pane.as_str()))
                    }
                },
            }
        },
        FilesEvent::Opened(out) => {
            let id = crate::palette::new_pane_id(out.as_slice());
            if id.as_str().is_empty() {
                FilesAction::Done
            } else {
                let ghost pane = id@;
                let mut v: Vec<String> = Vec::new();
                v.push(owned("pane"));
                v.push(owned("run"));
                v.push(id);
                v.push(editor_command(st.editor.as_str(), st.file.as_str()));
                assert(args_view(v@) =~= seq!["pane"@, "run"@, pane, editor_line(st.editor@, st.file@)]);
                FilesAction::RunCli(v)
            }
        },
    }
}

} // verus!

verus! {

/// The list row of a file found by the content search: kind `files`, the
/// absolute path as payload and hint, the relative path as display and
/// keywords.
pub open spec fn spec_file_row(cwd: Seq<char>, p: Seq<char>) -> Seq<char> {
    crate::palette::spec_tsv("files"@, p, relative(cwd, p), relative(cwd, p), p)
}

/// The list row of one file under `cwd`.
pub fn file_row(cwd: &str, p: &str) -> (r: String)
    ensures
        r@ == spec_file_row(cwd@, p@),
{
    let rel = relative_of(cwd, p);
    crate::palette::tsv("files", p, rel.as_str(), rel.as_str(), p)
}


// ---------------------------------------------------------------------------
// Laws
// ---------------------------------------------------------------------------
proof fn lemma_trim_end_prefix(s: Seq<char>, p: Seq<char>)
    ensures
        trim_end_matches(s, p).is_prefix_of(s),
    decreases s.len(),
{
    if p.len() > 0 && p.is_suffix_of(s) {
        lemma_trim_end_prefix(s.take(s.len() - p.len()), p);
    }
}

/// Under an absolute `cwd`, every path the finder carries is absolute: none
/// is empty and each starts with `/`.
pub proof fn law_paths_absolute(cwd: Seq<char>, paths: Seq<Seq<char>>)
    requires
        cwd.len() > 0,
        cwd[0] == '/',
    ensures
        forall|k: int| 0 <= k < absolutize(cwd, paths).len() ==> {
            let q = #[trigger] absolutize(cwd, paths)[k];
            q.len() > 0 && q[0] == '/'
        },
    decreases paths.len(),
{
    if paths.len() > 0 {
        law_paths_absolute(cwd, paths.drop_last());
        let rest = absolutize(cwd, paths.drop_last());
        let p = paths.last();
        if p.len() > 0 && p[0] != '/' {
            reveal_strlit("/");
            lemma_trim_end_prefix(cwd, "/"@);
            let t = trim_end_matches(cwd, "/"@);
            let j = join_path(cwd, p);
            if t.len() > 0 {
                assert(j[0] == t[0]);
                assert(t[0] == cwd[0]);
            } else {
                assert(j[0] == '/');
            }
            assert(absolutize(cwd, paths) == rest.push(j));
        }
        assert forall|k: int| 0 <= k < absolutize(cwd, paths).len() implies {
            let q = #[trigger] absolutize(cwd, paths)[k];
            q.len() > 0 && q[0] == '/'
        } by {
            if k < rest.len() {
                assert(absolutize(cwd, paths)[k] == rest[k]);
            }
        }
    }
}

proof fn lemma_absolutize_keeps_absolute(cwd: Seq<char>, qs: Seq<Seq<char>>)
    requires
        forall|k: int| 0 <= k < qs.len() ==> (#[trigger] qs[k]).len() > 0 && qs[k][0] == '/',
    ensures
        absolutize(cwd, qs) == qs,
    decreases qs.len(),
{
    if qs.len() > 0 {
        lemma_absolutize_keeps_absolute(cwd, qs.drop_last());
        assert(qs.drop_last().push(qs.last()) =~= qs);
    }
}

/// Making the paths absolute twice is making them absolute once: under an
/// absolute `cwd`, a second pass changes nothing.
pub proof fn law_absolutize_idempotent(cwd: Seq<char>, paths: Seq<Seq<char>>)
    requires
        cwd.len() > 0,
        cwd[0] == '/',
    ensures
        absolutize(cwd, absolutize(cwd, paths)) == absolutize(cwd, paths),
{
    law_paths_absolute(cwd, paths);
    lemma_absolutize_keeps_absolute(cwd, absolutize(cwd, paths));
}

/// A finder row's first field (the value fzf hands back) is the path it was
/// made from, when the path holds no tab.
pub proof fn law_finder_row_reads_back(cwd: Seq<char>, paths: Seq<Seq<char>>, k: int)
    requires
        0 <= k < paths.len(),
        !paths[k].contains('\t'),
    ensures
        first_field(spec_file_rows(cwd, paths)[k], '\t') == paths[k],
{
    reveal_strlit("\t");
    let p = paths[k];
    let row = spec_file_rows(cwd, paths)[k];
    assert(row =~= p + (seq!['\t'] + relative(cwd, p)));
    assert forall|i: int| 0 <= i < p.len() implies row[i] != '\t' by {
        assert(row[i] == p[i]);
        assert(!(p[i] == '\t'));
    }
    crate::text::lemma_first_index_of_is(row, '\t', p.len() as int);
    assert(row.take(p.len() as int) =~= p);
}

/// Choosing a row of the content search opens the file it names: the row
/// dispatches to opening that very path (non-empty and tab-free).
pub proof fn law_search_row_opens_file(cwd: Seq<char>, p: Seq<char>)
    requires
        p.len() > 0,
        !p.contains('\t'),
    ensures
        forall|d: crate::palette::Dispatch|
            #![trigger crate::palette::spec_dispatch(first_field(spec_file_row(cwd, p), '\t'), crate::palette::second_field(spec_file_row(cwd, p)), d)]
            crate::palette::spec_dispatch(first_field(spec_file_row(cwd, p), '\t'), crate::palette::second_field(spec_file_row(cwd, p)), d)
                ==> (d matches crate::palette::Dispatch::OpenFile(q) && q@ == p),
{
    reveal_strlit("files");
    reveal_strlit("native");
    reveal_strlit("plugin");
    assert(!"files"@.contains('\t')) by {
        reveal_strlit("\t");
        assert forall|i: int| 0 <= i < "files"@.len() implies "files"@[i] != '\t' by {}
    }
    crate::palette::law_row_fields_read_back("files"@, p, relative(cwd, p), relative(cwd, p), p);
    assert("files"@ != "native"@) by {
        assert("files"@[0] != "native"@[0]);
    }
    assert("files"@ != "plugin"@) by {
        assert("files"@[0] != "plugin"@[0]);
    }
}

/// The finder opens the file that was picked: after a row is picked, the
/// target pick makes a new window (on `window`) or a split of the origin pane
/// (otherwise; a new window without one, when the path has a directory) with
/// the picked path's directory as cwd, and once herdr reports the new pane,
/// the picked path is opened there in the editor.
pub proof fn law_finder_opens_picked_file(
    st0: FilesRun,
    row: String,
    st1: FilesRun,
    a1: FilesAction,
    choice: String,
    st2: FilesRun,
    a2: FilesAction,
    out: Vec<u8>,
    st3: FilesRun,
    a3: FilesAction,
)
    requires
        spec_files_step(st0, FilesEvent::FilePicked(Some(row)), st1, a1),
        st1.cwd == st0.cwd,
        st1.origin_pane == st0.origin_pane,
        st1.editor == st0.editor,
        spec_files_step(st1, FilesEvent::TargetPicked(Some(choice)), st2, a2),
        st2.file == st1.file,
        st2.editor == st1.editor,
        spec_files_step(st2, FilesEvent::Opened(out), st3, a3),
    ensures
        a1 matches FilesAction::PickTarget { options, prompt } && views(options@) == target_options(),
        ({
            let file = first_field(row@, '\t');
            let parent = spec_parent_of(file);
            if first_field(choice@, '\t') == "window"@ {
                run_or_die(a2, spec_open_window(file, parent))
            } else {
                run_or_die(a2, spec_open_pane(file, parent, st0.origin_pane@))
            }
        }),
        spec_parent_of(first_field(row@, '\t')).len() > 0 ==> spec_open_pane(
            first_field(row@, '\t'),
            spec_parent_of(first_field(row@, '\t')),
            ""@,
        ) == spec_open_window(first_field(row@, '\t'), spec_parent_of(first_field(row@, '\t'))),
        reported_pane(out@).len() > 0 ==> (a3 matches FilesAction::RunCli(v) && args_view(v@) == seq![
            "pane"@,
            "run"@,
            reported_pane(out@),
            editor_line(st0.editor@, first_field(row@, '\t')),
        ]),
{
    reveal_strlit("");
}

} // verus!
