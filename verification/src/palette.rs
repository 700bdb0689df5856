//! The palette running inside the popup: the merged action list, the fzf
//! mode-switch helpers, and the planning of every native action's `herdr`
//! argv.
use vstd::prelude::*;

use crate::context::OriginContext;
use crate::json::{array_at, array_pointer, field_or, int_field, json_get, json_str, str_field_or, JsonValue};
use crate::keys::Keys;
use crate::native::{build_display, native_actions, row_display, spec_build_display, spec_native_actions, spec_row_shortcut, NativeAction};
use crate::text::{chars_of, first_field, first_index_of, has_prefix_at, owned, parse_unsigned, parse_usize, str_eq, str_starts_with, trim, trim_start_matches};

verus! {

broadcast use vstd::string::group_string_axioms;

/// Prompt shown in action mode. Mode switches key off these exact strings.
pub const ACTIONS_PROMPT: &'static str = "herdr telescope ▸ ";
/// Prompt shown while filtering file names.
pub const FILES_PROMPT: &'static str = "herdr files ▸ ";
/// Prompt shown while searching file contents.
pub const SEARCH_PROMPT: &'static str = "herdr search ▸ ";
/// Header shown in action mode.
pub const ACTIONS_HEADER: &'static str = "↑↓ select · enter run · @ files · / search · esc cancel";
/// Header shown in file mode.
pub const FILES_HEADER: &'static str = "↑↓ select · enter open · backspace to return";
/// Header shown in search mode.
pub const SEARCH_HEADER: &'static str = "↑↓ select · enter open · rg live · backspace to return";
/// Preview window layout in action and file mode.
pub const ACTION_PREVIEW_WIN: &'static str = "down,3,wrap,border-top";
/// Preview window layout in search mode.
pub const SEARCH_PREVIEW_WIN: &'static str = "right,60%,wrap,border-left";
/// fzf action consuming a leading `@` so the remainder is the real query.
pub const STRIP_AT: &'static str = "transform-query[printf %s \"${FZF_QUERY#@}\"]";
/// fzf action consuming a leading `/` so the remainder is the real query.
pub const STRIP_SLASH: &'static str = "transform-query[printf %s \"${FZF_QUERY#/}\"]";

/// Which list the main fzf currently shows.
#[derive(Clone, Copy, Debug, PartialEq, Eq, Structural)]
pub enum Mode {
    Actions,
    Files,
    Search,
}

/// The mode a prompt string stands for.
pub open spec fn spec_mode_of(prompt: Seq<char>) -> Mode {
    if prompt == FILES_PROMPT@ {
        Mode::Files
    } else if prompt == SEARCH_PROMPT@ {
        Mode::Search
    } else {
        Mode::Actions
    }
}

/// The mode the fzf prompt `prompt` stands for.
pub fn mode_of(prompt: &str) -> (m: Mode)
    ensures
        m == spec_mode_of(prompt@),
{
    if str_eq(prompt, FILES_PROMPT) {
        Mode::Files
    } else if str_eq(prompt, SEARCH_PROMPT) {
        Mode::Search
    } else {
        Mode::Actions
    }
}

/// Whether `s` starts with the character `c`.
pub open spec fn starts_with_char(s: Seq<char>, c: char) -> bool {
    s.len() > 0 && s[0] == c
}

/// The fzf actions entering file mode from `mode` (which is not file mode).
pub open spec fn enter_files(mode: Mode, files: Seq<char>) -> Seq<char> {
    let body = "reload-sync[cat -- "@ + files + "]+change-prompt["@ + FILES_PROMPT@
        + "]+change-header["@ + FILES_HEADER@ + "]+"@;
    if mode == Mode::Search {
        "enable-search+"@ + body + "change-preview-window["@ + ACTION_PREVIEW_WIN@ + "]+"@
            + STRIP_AT@ + "\n"@
    } else {
        body + STRIP_AT@ + "\n"@
    }
}

/// The fzf actions entering search mode.
pub open spec fn enter_search(exe: Seq<char>) -> Seq<char> {
    "disable-search+reload-sync["@ + exe + " rg-files"@ + "]+change-prompt["@ + SEARCH_PROMPT@
        + "]+change-header["@ + SEARCH_HEADER@ + "]+change-preview-window["@
        + SEARCH_PREVIEW_WIN@ + "]+"@ + STRIP_SLASH@ + "\n"@
}

/// What the `change:transform` helper prints for this query and prompt.
pub open spec fn spec_at_switch(files: Seq<char>, query: Seq<char>, prompt: Seq<char>, exe: Seq<char>) -> Seq<char> {
    let mode = spec_mode_of(prompt);
    if starts_with_char(query, '@') {
        if mode == Mode::Files {
            STRIP_AT@ + "\n"@
        } else {
            enter_files(mode, files)
        }
    } else if starts_with_char(query, '/') {
        if mode == Mode::Search {
            STRIP_SLASH@ + "\n"@
        } else {
            enter_search(exe)
        }
    } else if mode == Mode::Search {
        "reload-sync["@ + exe + " rg-files"@ + "]\n"@
    } else {
        Seq::empty()
    }
}

/// What the `backward-eof:transform` helper prints for this prompt.
pub open spec fn spec_at_back(actions: Seq<char>, prompt: Seq<char>) -> Seq<char> {
    if spec_mode_of(prompt) == Mode::Actions {
        Seq::empty()
    } else {
        "enable-search+reload-sync[cat -- "@ + actions + "]+change-prompt["@ + ACTIONS_PROMPT@
            + "]+change-header["@ + ACTIONS_HEADER@ + "]+change-preview-window["@
            + ACTION_PREVIEW_WIN@ + "]\n"@
    }
}

/// fzf `change:transform` helper. `@` switches to the file list, `/` to the
/// rg content search (fzf's own matcher off, the query is the rg pattern);
/// typing in search mode re-runs rg.
pub fn at_switch(actions: &str, files: &str, query: &str, prompt: &str, exe: &str) -> (out: String)
    ensures
        out@ == spec_at_switch(files@, query@, prompt@, exe@),
{
    let mode = mode_of(prompt);
    let q = chars_of(query);
    let mut out = String::new();
    if q.len() > 0 && q[0] == '@' {
        match mode {
            Mode::Files => {
                out.append(STRIP_AT);
                out.append("\n");
            },
            _ => {
                if mode == Mode::Search {
                    out.append("enable-search+");
                }
                out.append("reload-sync[cat -- ");
                out.append(files);
                out.append("]+change-prompt[");
                out.append(FILES_PROMPT);
                out.append("]+change-header[");
                out.append(FILES_HEADER);
                out.append("]+");
                if mode == Mode::Search {
                    out.append("change-preview-window[");
                    out.append(ACTION_PREVIEW_WIN);
                    out.append("]+");
                }
                out.append(STRIP_AT);
                out.append("\n");
            },
        }
        return out;
    }
    if q.len() > 0 && q[0] == '/' {
        match mode {
            Mode::Search => {
                out.append(STRIP_SLASH);
                out.append("\n");
            },
            _ => {
                out.append("disable-search+reload-sync[");
                out.append(exe);
                out.append(" rg-files");
                out.append("]+change-prompt[");
                out.append(SEARCH_PROMPT);
                out.append("]+change-header[");
                out.append(SEARCH_HEADER);
                out.append("]+change-preview-window[");
                out.append(SEARCH_PREVIEW_WIN);
                out.append("]+");
                out.append(STRIP_SLASH);
                out.append("\n");
            },
        }
        return out;
    }
    if mode == Mode::Search {
        out.append("reload-sync[");
        out.append(exe);
        out.append(" rg-files");
        out.append("]\n");
    }
    out
}

/// `backward-eof` helper: leave file/search mode when the query is empty.
pub fn at_back(actions: &str, prompt: &str) -> (out: String)
    ensures
        out@ == spec_at_back(actions@, prompt@),
{
    let mut out = String::new();
    match mode_of(prompt) {
        Mode::Actions => {},
        _ => {
            out.append("enable-search+reload-sync[cat -- ");
            out.append(actions);
            out.append("]+change-prompt[");
            out.append(ACTIONS_PROMPT);
            out.append("]+change-header[");
            out.append(ACTIONS_HEADER);
            out.append("]+change-preview-window[");
            out.append(ACTION_PREVIEW_WIN);
            out.append("]\n");
        },
    }
    out
}

/// Which fzf helper the executable was invoked as.
pub fn at_helper(kind: &str, actions: &str, files: &str, query: &str, prompt: &str, exe: &str) -> (out: String)
    ensures
        out@ == (if kind@ == "at-back"@ {
            spec_at_back(actions@, prompt@)
        } else {
            spec_at_switch(files@, query@, prompt@, exe@)
        }),
{
    if str_eq(kind, "at-back") {
        at_back(actions, prompt)
    } else {
        at_switch(actions, files, query, prompt, exe)
    }
}

// ---------------------------------------------------------------------------
// Rows of the merged list
// ---------------------------------------------------------------------------
/// One TSV row: kind, payload, display, keywords, hint.
pub open spec fn spec_tsv(kind: Seq<char>, payload: Seq<char>, display: Seq<char>, keywords: Seq<char>, hint: Seq<char>) -> Seq<char> {
    kind + "\t"@ + payload + "\t"@ + display + "\t"@ + keywords + "\t"@ + hint
}

/// Join the five columns of a list row with tabs.
pub fn tsv(kind: &str, payload: &str, display: &str, keywords: &str, hint: &str) -> (r: String)
    ensures
        r@ == spec_tsv(kind@, payload@, display@, keywords@, hint@),
{
    let mut r = String::new();
    r.append(kind);
    r.append("\t");
    r.append(payload);
    r.append("\t");
    r.append(display);
    r.append("\t");
    r.append(keywords);
    r.append("\t");
    r.append(hint);
    r
}

/// The row of a live workspace, searchable by its name (`label`, or the id
/// when the label is empty).
pub open spec fn spec_workspace_row(id: Seq<char>, label: Seq<char>) -> Seq<char> {
    let name = if label.len() == 0 { id } else { label };
    spec_tsv(
        "workspace"@,
        id,
        "\u{1b}[2mworkspace:\u{1b}[0m "@ + name,
        "workspace goto jump focus project "@ + name + " "@ + id,
        "herdr workspace focus "@ + id,
    )
}

/// The list row of one live workspace.
pub fn workspace_row(id: &str, label: &str) -> (r: String)
    ensures
        r@ == spec_workspace_row(id@, label@),
{
    let name = if label.is_empty() {
        id
    } else {
        label
    };
    let mut display = String::new();
    display.append("\u{1b}[2mworkspace:\u{1b}[0m ");
    display.append(name);
    let mut keywords = String::new();
    keywords.append("workspace goto jump focus project ");
    keywords.append(name);
    keywords.append(" ");
    keywords.append(id);
    let mut hint = String::new();
    hint.append("herdr workspace focus ");
    hint.append(id);
    tsv("workspace", id, display.as_str(), keywords.as_str(), hint.as_str())
}

// ---------------------------------------------------------------------------
// Native actions: the argv each one runs
// ---------------------------------------------------------------------------
/// Extra answers a native action may need after the main fzf: the typed line,
/// a second typed answer (base ref), the second-stage pick, and the y/N.
#[derive(Debug, Default, Clone)]
pub struct NativeInput {
    pub line: Option<String>,
    pub extra: Option<String>,
    pub pick: Option<String>,
    pub confirm: bool,
}

/// Why no argv was planned.
#[derive(Debug, PartialEq, Eq)]
pub enum NativeErr {
    /// The user gave no answer where one was needed.
    Cancel,
    /// The origin pane/tab/workspace/cwd the action acts on is unknown.
    MissingOrigin(&'static str),
    /// No such native action.
    Unknown,
    /// Planned step by step elsewhere (the agent start).
    MultiStep,
}

/// The argv as views.
pub open spec fn args_view(v: Seq<String>) -> Seq<Seq<char>> {
    v.map_values(|s: String| s@)
}

/// Whether the planned result `r` is the specified plan `s`.
pub open spec fn plan_is(r: Result<Vec<String>, NativeErr>, s: Result<Seq<Seq<char>>, NativeErr>) -> bool {
    match (r, s) {
        (Ok(v), Ok(w)) => args_view(v@) =~= w,
        (Err(e), Err(f)) => e == f,
        _ => false,
    }
}

/// `flag value`, or nothing when `value` is empty.
pub open spec fn opt_pair(flag: Seq<char>, value: Seq<char>) -> Seq<Seq<char>> {
    if value.len() == 0 {
        Seq::empty()
    } else {
        seq![flag, value]
    }
}

/// The typed line, trimmed; `None` when absent or blank.
pub open spec fn typed_line(input: NativeInput) -> Option<Seq<char>> {
    match input.line {
        Some(l) => if trim(l@).len() > 0 {
            Some(trim(l@))
        } else {
            None
        },
        None => None,
    }
}

/// The second typed answer, trimmed; `None` when absent or blank.
pub open spec fn typed_extra(input: NativeInput) -> Option<Seq<char>> {
    match input.extra {
        Some(l) => if trim(l@).len() > 0 {
            Some(trim(l@))
        } else {
            None
        },
        None => None,
    }
}

/// The picked value; `None` when absent or empty.
pub open spec fn picked(input: NativeInput) -> Option<Seq<char>> {
    match input.pick {
        Some(p) => if p@.len() > 0 {
            Some(p@)
        } else {
            None
        },
        None => None,
    }
}

/// `args`, then the answer, then `tail`; `Cancel` without an answer.
pub open spec fn then_answer(args: Seq<Seq<char>>, answer: Option<Seq<char>>, tail: Seq<Seq<char>>) -> Result<Seq<Seq<char>>, NativeErr> {
    match answer {
        Some(a) => Ok(args.push(a) + tail),
        None => Err(NativeErr::Cancel),
    }
}

/// The refusal when the origin field an action acts on is unknown.
pub open spec fn needs(field: Seq<char>, msg: &'static str, plan: Result<Seq<Seq<char>>, NativeErr>) -> Result<Seq<Seq<char>>, NativeErr> {
    if field.len() == 0 {
        Err(NativeErr::MissingOrigin(msg))
    } else {
        plan
    }
}

/// `pane <verb> --direction <dir> --pane <pane>` for a directional id.
pub open spec fn directional(verb: Seq<char>, id: Seq<char>, prefix: Seq<char>, pane: Seq<char>) -> Seq<Seq<char>> {
    seq!["pane"@, verb, "--direction"@, trim_start_matches(id, prefix), "--pane"@, pane]
}

/// The herdr argv of the native action `id`, given the origin and the answers
/// gathered after the main fzf.
pub open spec fn spec_native_args(id: Seq<char>, ctx: OriginContext, input: NativeInput) -> Result<Seq<Seq<char>>, NativeErr> {
    let pane = ctx.pane@;
    let tab = ctx.tab@;
    let ws = ctx.workspace@;
    let cwd = ctx.cwd@;
    let line = typed_line(input);
    let pick = picked(input);
    if id == "new_tab"@ || id == "new_tab_named"@ {
        let base = seq!["tab"@, "create"@, "--focus"@] + opt_pair("--workspace"@, ws) + opt_pair("--cwd"@, cwd);
        if id == "new_tab_named"@ {
            then_answer(base.push("--label"@), line, Seq::empty())
        } else {
            Ok(base)
        }
    } else if id == "close_tab"@ {
        needs(tab, "telescope: no origin tab to close.", Ok(seq!["tab"@, "close"@, tab]))
    } else if id == "rename_tab"@ {
        needs(tab, "telescope: no origin tab to rename.", then_answer(seq!["tab"@, "rename"@, tab], line, Seq::empty()))
    } else if id == "split_vertical"@ || id == "split_horizontal"@ {
        let dir = if id == "split_vertical"@ { "right"@ } else { "down"@ };
        needs(pane, "telescope: no origin pane to split.",
            Ok(seq!["pane"@, "split"@, pane, "--direction"@, dir, "--focus"@] + opt_pair("--cwd"@, cwd)))
    } else if id == "close_pane"@ {
        needs(pane, "telescope: no origin pane to close.", Ok(seq!["pane"@, "close"@, pane]))
    } else if id == "zoom_pane"@ {
        needs(pane, "telescope: no origin pane to zoom.", Ok(seq!["pane"@, "zoom"@, pane, "--toggle"@]))
    } else if id == "rename_pane"@ {
        needs(pane, "telescope: no origin pane to rename.", then_answer(seq!["pane"@, "rename"@, pane], line, Seq::empty()))
    } else if "focus_"@.is_prefix_of(id) {
        needs(pane, "telescope: no origin pane to focus from.", Ok(directional("focus"@, id, "focus_"@, pane)))
    } else if "resize_"@.is_prefix_of(id) {
        needs(pane, "telescope: no origin pane to resize.", Ok(directional("resize"@, id, "resize_"@, pane)))
    } else if "swap_"@.is_prefix_of(id) {
        needs(pane, "telescope: no origin pane to swap.", Ok(directional("swap"@, id, "swap_"@, pane)))
    } else if id == "move_pane_tab"@ {
        needs(pane, "telescope: no origin pane to move.",
            then_answer(seq!["pane"@, "move"@, pane, "--tab"@], pick, seq!["--focus"@]))
    } else if id == "move_pane_new_tab"@ {
        needs(pane, "telescope: no origin pane to move.", Ok(seq!["pane"@, "move"@, pane, "--new-tab"@, "--focus"@]))
    } else if id == "move_pane_new_workspace"@ {
        needs(pane, "telescope: no origin pane to move.", Ok(seq!["pane"@, "move"@, pane, "--new-workspace"@, "--focus"@]))
    } else if id == "start_agent"@ {
        Err(NativeErr::MultiStep)
    } else if id == "prompt_agent"@ {
        match pick {
            Some(p) => then_answer(seq!["agent"@, "prompt"@, p], line, Seq::empty()),
            None => Err(NativeErr::Cancel),
        }
    } else if id == "interrupt_agent"@ {
        then_answer(seq!["agent"@, "send-keys"@], pick, seq!["esc"@])
    } else if id == "rename_agent"@ {
        match pick {
            Some(p) => then_answer(seq!["agent"@, "rename"@, p], line, Seq::empty()),
            None => Err(NativeErr::Cancel),
        }
    } else if id == "new_workspace"@ {
        Ok(seq!["workspace"@, "create"@, "--focus"@])
    } else if id == "new_workspace_here"@ {
        needs(cwd, "telescope: no origin cwd for the new workspace.",
            then_answer(seq!["workspace"@, "create"@, "--focus"@, "--cwd"@, cwd, "--label"@], line, Seq::empty()))
    } else if id == "close_workspace"@ {
        needs(ws, "telescope: no origin workspace to close.", Ok(seq!["workspace"@, "close"@, ws]))
    } else if id == "rename_workspace"@ {
        needs(ws, "telescope: no origin workspace to rename.",
            then_answer(seq!["workspace"@, "rename"@, ws], line, Seq::empty()))
    } else if id == "new_worktree"@ {
        needs(ws, "telescope: no origin workspace to create a worktree in.",
            Ok(seq!["worktree"@, "create"@, "--workspace"@, ws, "--focus"@]))
    } else if id == "new_worktree_branch"@ {
        let base = match typed_extra(input) {
            Some(b) => seq!["--base"@, b],
            None => Seq::empty(),
        };
        needs(ws, "telescope: no origin workspace to create a worktree in.",
            then_answer(seq!["worktree"@, "create"@, "--workspace"@, ws, "--branch"@], line, seq!["--focus"@] + base))
    } else if id == "remove_worktree"@ {
        needs(ws, "telescope: no origin workspace to remove.",
            if input.confirm {
                Ok(seq!["worktree"@, "remove"@, "--workspace"@, ws])
            } else {
                Err(NativeErr::Cancel)
            })
    } else if id == "reload_config"@ {
        Ok(seq!["server"@, "reload-config"@])
    } else {
        Err(NativeErr::Unknown)
    }
}

/// Append one argument.
fn push_arg(args: &mut Vec<String>, s: &str)
    ensures
        args_view(final(args)@) == args_view(old(args)@).push(s@),
{
    args.push(owned(s));
    assert(args_view(args@) =~= args_view(old(args)@).push(s@));
}

/// An argv made of the given parts.
pub(crate) fn argv_of(parts: &[&str]) -> (args: Vec<String>)
    ensures
        args_view(args@) == parts@.map_values(|p: &str| p@),
{
    let mut args: Vec<String> = Vec::new();
    let mut i: usize = 0;
    while i < parts.len()
        invariant
            i <= parts.len(),
            args_view(args@) == parts@.take(i as int).map_values(|p: &str| p@),
        decreases parts.len() - i,
    {
        push_arg(&mut args, parts[i]);
        i = i + 1;
        assert(parts@.take(i as int).map_values(|p: &str| p@) =~= parts@.take(i - 1).map_values(
            |p: &str| p@,
        ).push(parts@[i - 1]@));
    }
    assert(parts@.take(parts@.len() as int) =~= parts@);
    args
}

/// The typed line, trimmed and non-empty.
fn line_of(input: &NativeInput) -> (r: Option<String>)
    ensures
        match r {
            Some(s) => typed_line(*input) == Some(s@),
            None => typed_line(*input) is None,
        },
{
    match &input.line {
        Some(l) => {
            let t = crate::text::trimmed(l.as_str());
            if t.as_str().is_empty() {
                None
            } else {
                Some(t)
            }
        },
        None => None,
    }
}

/// The trimmed, non-empty second answer.
fn extra_of(input: &NativeInput) -> (r: Option<String>)
    ensures
        match r {
            Some(s) => typed_extra(*input) == Some(s@),
            None => typed_extra(*input) is None,
        },
{
    match &input.extra {
        Some(l) => {
            let t = crate::text::trimmed(l.as_str());
            if t.as_str().is_empty() {
                None
            } else {
                Some(t)
            }
        },
        None => None,
    }
}

/// The non-empty pick.
fn pick_of(input: &NativeInput) -> (r: Option<String>)
    ensures
        match r {
            Some(s) => picked(*input) == Some(s@),
            None => picked(*input) is None,
        },
{
    match &input.pick {
        Some(p) => {
            if p.as_str().is_empty() {
                None
            } else {
                Some(p.clone())
            }
        },
        None => None,
    }
}

/// Push `flag value` unless `value` is empty.
fn push_opt_pair(args: &mut Vec<String>, flag: &str, value: &str)
    ensures
        args_view(final(args)@) == args_view(old(args)@) + opt_pair(flag@, value@),
{
    if !value.is_empty() {
        push_arg(args, flag);
        push_arg(args, value);
    }
}

/// The direction that follows `prefix` in a directional action id.
fn direction_of(id: &str, prefix: &str) -> (r: String)
    ensures
        r@ == trim_start_matches(id@, prefix@),
{
    let v = chars_of(id);
    let p = chars_of(prefix);
    let k = crate::text::trim_start_matching(&v, &p);
    crate::text::string_of_range(&v, k, v.len())
}

/// The herdr argv of a native action. The interactive answers are already in
/// `input`; an action that needs a missing origin id is refused, one whose
/// answer is missing or blank is cancelled.
pub fn native_args(id: &str, ctx: &OriginContext, input: &NativeInput) -> (r: Result<Vec<String>, NativeErr>)
    ensures
        plan_is(r, spec_native_args(id@, *ctx, *input)),
{
    let pane = ctx.pane.as_str();
    let tab = ctx.tab.as_str();
    let ws = ctx.workspace.as_str();
    let cwd = ctx.cwd.as_str();
    if str_eq(id, "new_tab") || str_eq(id, "new_tab_named") {
        let mut args = argv_of(&["tab", "create", "--focus"]);
        push_opt_pair(&mut args, "--workspace", ws);
        push_opt_pair(&mut args, "--cwd", cwd);
        if str_eq(id, "new_tab_named") {
            push_arg(&mut args, "--label");
            match line_of(input) {
                Some(l) => push_arg(&mut args, l.as_str()),
                None => return Err(NativeErr::Cancel),
            }
            assert(args_view(args@) =~= args_view(args@) + Seq::<Seq<char>>::empty());
        }
        Ok(args)
    } else if str_eq(id, "close_tab") {
        if tab.is_empty() {
            return Err(NativeErr::MissingOrigin("telescope: no origin tab to close."));
        }
        Ok(argv_of(&["tab", "close", tab]))
    } else if str_eq(id, "rename_tab") {
        if tab.is_empty() {
            return Err(NativeErr::MissingOrigin("telescope: no origin tab to rename."));
        }
        match line_of(input) {
            Some(l) => {
                let a = argv_of(&["tab", "rename", tab, l.as_str()]);
                assert(args_view(a@) =~= seq!["tab"@, "rename"@, tab@].push(l@) + Seq::<Seq<char>>::empty());
                Ok(a)
            },
            None => Err(NativeErr::Cancel),
        }
    } else if str_eq(id, "split_vertical") || str_eq(id, "split_horizontal") {
        if pane.is_empty() {
            return Err(NativeErr::MissingOrigin("telescope: no origin pane to split."));
        }
        let dir = if str_eq(id, "split_vertical") {
            "right"
        } else {
            "down"
        };
        let mut args = argv_of(&["pane", "split", pane, "--direction", dir, "--focus"]);
        push_opt_pair(&mut args, "--cwd", cwd);
        Ok(args)
    } else if str_eq(id, "close_pane") {
        if pane.is_empty() {
            return Err(NativeErr::MissingOrigin("telescope: no origin pane to close."));
        }
        Ok(argv_of(&["pane", "close", pane]))
    } else if str_eq(id, "zoom_pane") {
        if pane.is_empty() {
            return Err(NativeErr::MissingOrigin("telescope: no origin pane to zoom."));
        }
        Ok(argv_of(&["pane", "zoom", pane, "--toggle"]))
    } else if str_eq(id, "rename_pane") {
        if pane.is_empty() {
            return Err(NativeErr::MissingOrigin("telescope: no origin pane to rename."));
        }
        match line_of(input) {
            Some(l) => {
                let a = argv_of(&["pane", "rename", pane, l.as_str()]);
                assert(args_view(a@) =~= seq!["pane"@, "rename"@, pane@].push(l@) + Seq::<Seq<char>>::empty());
                Ok(a)
            },
            None => Err(NativeErr::Cancel),
        }
    } else if str_starts_with(id, "focus_") {
        if pane.is_empty() {
            return Err(NativeErr::MissingOrigin("telescope: no origin pane to focus from."));
        }
        let d = direction_of(id, "focus_");
        Ok(argv_of(&["pane", "focus", "--direction", d.as_str(), "--pane", pane]))
    } else if str_starts_with(id, "resize_") {
        if pane.is_empty() {
            return Err(NativeErr::MissingOrigin("telescope: no origin pane to resize."));
        }
        let d = direction_of(id, "resize_");
        Ok(argv_of(&["pane", "resize", "--direction", d.as_str(), "--pane", pane]))
    } else if str_starts_with(id, "swap_") {
        if pane.is_empty() {
            return Err(NativeErr::MissingOrigin("telescope: no origin pane to swap."));
        }
        let d = direction_of(id, "swap_");
        Ok(argv_of(&["pane", "swap", "--direction", d.as_str(), "--pane", pane]))
    } else if str_eq(id, "move_pane_tab") {
        if pane.is_empty() {
            return Err(NativeErr::MissingOrigin("telescope: no origin pane to move."));
        }
        match pick_of(input) {
            Some(p) => {
                let a = argv_of(&["pane", "move", pane, "--tab", p.as_str(), "--focus"]);
                assert(args_view(a@) =~= seq!["pane"@, "move"@, pane@, "--tab"@].push(p@) + seq!["--focus"@]);
                Ok(a)
            },
            None => Err(NativeErr::Cancel),
        }
    } else if str_eq(id, "move_pane_new_tab") {
        if pane.is_empty() {
            return Err(NativeErr::MissingOrigin("telescope: no origin pane to move."));
        }
        Ok(argv_of(&["pane", "move", pane, "--new-tab", "--focus"]))
    } else if str_eq(id, "move_pane_new_workspace") {
        if pane.is_empty() {
            return Err(NativeErr::MissingOrigin("telescope: no origin pane to move."));
        }
        Ok(argv_of(&["pane", "move", pane, "--new-workspace", "--focus"]))
    } else if str_eq(id, "start_agent") {
        Err(NativeErr::MultiStep)
    } else if str_eq(id, "prompt_agent") {
        match (pick_of(input), line_of(input)) {
            (Some(p), Some(l)) => {
                let a = argv_of(&["agent", "prompt", p.as_str(), l.as_str()]);
                assert(args_view(a@) =~= seq!["agent"@, "prompt"@, p@].push(l@) + Seq::<Seq<char>>::empty());
                Ok(a)
            },
            _ => Err(NativeErr::Cancel),
        }
    } else if str_eq(id, "interrupt_agent") {
        match pick_of(input) {
            Some(p) => {
                let a = argv_of(&["agent", "send-keys", p.as_str(), "esc"]);
                assert(args_view(a@) =~= seq!["agent"@, "send-keys"@].push(p@) + seq!["esc"@]);
                Ok(a)
            },
            None => Err(NativeErr::Cancel),
        }
    } else if str_eq(id, "rename_agent") {
        match (pick_of(input), line_of(input)) {
            (Some(p), Some(l)) => {
                let a = argv_of(&["agent", "rename", p.as_str(), l.as_str()]);
                assert(args_view(a@) =~= seq!["agent"@, "rename"@, p@].push(l@) + Seq::<Seq<char>>::empty());
                Ok(a)
            },
            _ => Err(NativeErr::Cancel),
        }
    } else if str_eq(id, "new_workspace") {
        Ok(argv_of(&["workspace", "create", "--focus"]))
    } else if str_eq(id, "new_workspace_here") {
        if cwd.is_empty() {
            return Err(NativeErr::MissingOrigin("telescope: no origin cwd for the new workspace."));
        }
        match line_of(input) {
            Some(l) => {
                let a = argv_of(&["workspace", "create", "--focus", "--cwd", cwd, "--label", l.as_str()]);
                assert(args_view(a@) =~= seq!["workspace"@, "create"@, "--focus"@, "--cwd"@, cwd@, "--label"@].push(l@) + Seq::<Seq<char>>::empty());
                Ok(a)
            },
            None => Err(NativeErr::Cancel),
        }
    } else if str_eq(id, "close_workspace") {
        if ws.is_empty() {
            return Err(NativeErr::MissingOrigin("telescope: no origin workspace to close."));
        }
        Ok(argv_of(&["workspace", "close", ws]))
    } else if str_eq(id, "rename_workspace") {
        if ws.is_empty() {
            return Err(NativeErr::MissingOrigin("telescope: no origin workspace to rename."));
        }
        match line_of(input) {
            Some(l) => {
                let a = argv_of(&["workspace", "rename", ws, l.as_str()]);
                assert(args_view(a@) =~= seq!["workspace"@, "rename"@, ws@].push(l@) + Seq::<Seq<char>>::empty());
                Ok(a)
            },
            None => Err(NativeErr::Cancel),
        }
    } else if str_eq(id, "new_worktree") {
        if ws.is_empty() {
            return Err(
                NativeErr::MissingOrigin("telescope: no origin workspace to create a worktree in."),
            );
        }
        Ok(argv_of(&["worktree", "create", "--workspace", ws, "--focus"]))
    } else if str_eq(id, "new_worktree_branch") {
        if ws.is_empty() {
            return Err(
                NativeErr::MissingOrigin("telescope: no origin workspace to create a worktree in."),
            );
        }
        match line_of(input) {
            Some(l) => {
                let mut args = argv_of(&["worktree", "create", "--workspace", ws, "--branch", l.as_str(), "--focus"]);
                match extra_of(input) {
                    Some(b) => {
                        push_arg(&mut args, "--base");
                        push_arg(&mut args, b.as_str());
                    },
                    None => {},
                }
                let ghost base = match typed_extra(*input) {
                    Some(b) => seq!["--base"@, b],
                    None => Seq::<Seq<char>>::empty(),
                };
                assert(args_view(args@) =~= seq!["worktree"@, "create"@, "--workspace"@, ws@, "--branch"@].push(l@) + (seq!["--focus"@] + base));
                Ok(args)
            },
            None => Err(NativeErr::Cancel),
        }
    } else if str_eq(id, "remove_worktree") {
        if ws.is_empty() {
            return Err(NativeErr::MissingOrigin("telescope: no origin workspace to remove."));
        }
        if !input.confirm {
            return Err(NativeErr::Cancel);
        }
        Ok(argv_of(&["worktree", "remove", "--workspace", ws]))
    } else if str_eq(id, "reload_config") {
        Ok(argv_of(&["server", "reload-config"]))
    } else {
        Err(NativeErr::Unknown)
    }
}

} // verus!

verus! {

// ---------------------------------------------------------------------------
// The merged list
// ---------------------------------------------------------------------------
/// The id of this plugin, whose own actions are hidden from the list.
pub const SELF_PLUGIN: &'static str = "telescope";

/// The widest native action title, in characters.
pub open spec fn max_title(acts: Seq<NativeAction>) -> Option<nat>
    decreases acts.len(),
{
    if acts.len() == 0 {
        None
    } else {
        let w = acts.last().title@.len();
        match max_title(acts.drop_last()) {
            Some(m) => Some(if m > w { m } else { w }),
            None => Some(w),
        }
    }
}

/// The title column width: the widest native title (24 without any), capped
/// at `columns - 24` on wide popups and 22 on narrow ones.
pub open spec fn spec_title_width(columns: nat) -> nat {
    let maxw = match max_title(spec_native_actions()) {
        Some(m) => m,
        None => 24,
    };
    let cap: nat = if columns > 46 { (columns - 24) as nat } else { 22 };
    if maxw < cap { maxw } else { cap }
}

/// The list row of one native action.
pub open spec fn spec_native_row(a: NativeAction, keys: Keys, title_w: nat) -> Seq<char> {
    let kw = a.keywords@ + " "@ + a.id@;
    spec_tsv("native"@, a.id@, spec_build_display(a.title@, spec_row_shortcut(a, keys), kw, title_w), kw, a.hint@)
}

/// The list row of one installed plugin action, or none for our own.
pub open spec fn spec_plugin_row(act: JsonValue) -> Seq<Seq<char>> {
    let plugin_id = field_or(act, "plugin_id"@, ""@);
    let action_id = field_or(act, "action_id"@, ""@);
    let title = field_or(act, "title"@, ""@);
    let qid = plugin_id + "."@ + action_id;
    if plugin_id == SELF_PLUGIN@ {
        Seq::empty()
    } else {
        seq![spec_tsv("plugin"@, qid, qid + "  "@ + title, "plugin "@ + plugin_id + " "@ + title + " "@ + qid,
            "herdr plugin action invoke "@ + qid)]
    }
}

/// The rows of the installed plugin actions.
pub open spec fn plugin_rows_of(acts: Seq<JsonValue>) -> Seq<Seq<char>>
    decreases acts.len(),
{
    if acts.len() == 0 {
        Seq::empty()
    } else {
        plugin_rows_of(acts.drop_last()) + spec_plugin_row(acts.last())
    }
}

/// The list row of one live workspace, or none without an id.
pub open spec fn spec_ws_row(w: JsonValue) -> Seq<Seq<char>> {
    let id = field_or(w, "workspace_id"@, ""@);
    if id.len() == 0 {
        Seq::empty()
    } else {
        seq![spec_workspace_row(id, field_or(w, "label"@, id))]
    }
}

/// The rows of the live workspaces.
pub open spec fn ws_rows_of(ws: Seq<JsonValue>) -> Seq<Seq<char>>
    decreases ws.len(),
{
    if ws.len() == 0 {
        Seq::empty()
    } else {
        ws_rows_of(ws.drop_last()) + spec_ws_row(ws.last())
    }
}

/// The rows for an optional JSON listing: the array at `path`, each element
/// through `rows_of`.
pub open spec fn listing_rows(list: Option<JsonValue>, path: Seq<Seq<char>>, plugins: bool) -> Seq<Seq<char>> {
    match list {
        Some(l) => match array_at(l, path) {
            Some(a) => if plugins { plugin_rows_of(a) } else { ws_rows_of(a) },
            None => Seq::empty(),
        },
        None => Seq::empty(),
    }
}

/// The two entries that switch to the file finder and the content search.
pub open spec fn finder_rows() -> Seq<Seq<char>> {
    seq![
        spec_tsv("files"@, ""@, "\u{1b}[2mfiles\u{1b}[0m Search files…"@, "find file grep search fd rg locate"@,
            "type @ to jump here, then pick a file"@),
        spec_tsv("search"@, ""@, "\u{1b}[2msearch\u{1b}[0m Search contents…"@, "rg grep content text /"@,
            "type / to jump here and search with ripgrep"@),
    ]
}

/// The merged list: every native action, the installed plugin actions (ours
/// hidden), the live workspaces, then the finder entries.
pub open spec fn spec_build_list(keys: Keys, plugins: Option<JsonValue>, workspaces: Option<JsonValue>, columns: nat) -> Seq<Seq<char>> {
    let w = spec_title_width(columns);
    spec_native_actions().map_values(|a: NativeAction| spec_native_row(a, keys, w))
        + listing_rows(plugins, seq!["result"@, "actions"@], true)
        + listing_rows(workspaces, seq!["result"@, "workspaces"@], false)
        + finder_rows()
}

/// The popup width: `$COLUMNS` when it holds a positive number (surrounding
/// whitespace allowed), else 80.
pub open spec fn spec_col_width(columns_env: Option<Seq<char>>) -> nat {
    match columns_env {
        Some(c) => match parse_unsigned(trim(c), usize::MAX as nat) {
            Some(w) => if w > 0 { w } else { 80 },
            None => 80,
        },
        None => 80,
    }
}

/// The popup width from the `$COLUMNS` value, if set.
pub fn col_width(columns_env: Option<&str>) -> (w: usize)
    ensures
        w == spec_col_width(opt_str_view(columns_env)),
{
    match columns_env {
        Some(c) => {
            let t = crate::text::trimmed(c);
            match parse_usize(t.as_str()) {
                Some(w) => if w > 0 {
                    w
                } else {
                    80
                },
                None => 80,
            }
        },
        None => 80,
    }
}

/// The view of an optional string slice.
pub open spec fn opt_str_view(x: Option<&str>) -> Option<Seq<char>> {
    match x {
        Some(s) => Some(s@),
        None => None,
    }
}

/// The title column width for a popup `columns` wide.
pub fn title_width(acts: &Vec<NativeAction>, columns: usize) -> (w: usize)
    requires
        acts@ == spec_native_actions(),
    ensures
        w == spec_title_width(columns as nat),
{
    let mut maxw: Option<usize> = None;
    let mut i: usize = 0;
    while i < acts.len()
        invariant
            i <= acts.len(),
            match maxw {
                Some(m) => max_title(acts@.take(i as int)) == Some(m as nat),
                None => max_title(acts@.take(i as int)) is None,
            },
        decreases acts.len() - i,
    {
        let w = chars_of(acts[i].title).len();
        assert(acts@.take(i + 1).drop_last() =~= acts@.take(i as int));
        maxw = match maxw {
            Some(m) => Some(if m > w { m } else { w }),
            None => Some(w),
        };
        i = i + 1;
    }
    assert(acts@.take(acts@.len() as int) =~= acts@);
    let m = match maxw {
        Some(m) => m,
        None => 24,
    };
    let cap = if columns > 46 {
        columns - 24
    } else {
        22
    };
    if m < cap {
        m
    } else {
        cap
    }
}

/// The row of one plugin action, pushed unless it is ours.
fn push_plugin_row(out: &mut Vec<String>, act: &JsonValue)
    ensures
        crate::files::views(final(out)@) == crate::files::views(old(out)@) + spec_plugin_row(*act),
{
    let plugin_id = str_field_or(act, "plugin_id", "");
    let action_id = str_field_or(act, "action_id", "");
    let title = str_field_or(act, "title", "");
    if str_eq(plugin_id.as_str(), SELF_PLUGIN) {
        assert(crate::files::views(out@) =~= crate::files::views(out@) + Seq::<Seq<char>>::empty());
        return;
    }
    let mut qid = plugin_id.clone();
    qid.append(".");
    qid.append(action_id.as_str());
    let mut display = qid.clone();
    display.append("  ");
    display.append(title.as_str());
    let mut keywords = owned("plugin ");
    keywords.append(plugin_id.as_str());
    keywords.append(" ");
    keywords.append(title.as_str());
    keywords.append(" ");
    keywords.append(qid.as_str());
    let mut hint = owned("herdr plugin action invoke ");
    hint.append(qid.as_str());
    let ghost before = crate::files::views(out@);
    out.push(tsv("plugin", qid.as_str(), display.as_str(), keywords.as_str(), hint.as_str()));
    assert(crate::files::views(out@) =~= before + spec_plugin_row(*act));
}

/// The row of one workspace, pushed when it has an id.
fn push_ws_row(out: &mut Vec<String>, w: &JsonValue)
    ensures
        crate::files::views(final(out)@) == crate::files::views(old(out)@) + spec_ws_row(*w),
{
    let id = str_field_or(w, "workspace_id", "");
    if id.as_str().is_empty() {
        assert(crate::files::views(out@) =~= crate::files::views(out@) + Seq::<Seq<char>>::empty());
        return;
    }
    let label = str_field_or(w, "label", id.as_str());
    let ghost before = crate::files::views(out@);
    out.push(workspace_row(id.as_str(), label.as_str()));
    assert(crate::files::views(out@) =~= before + spec_ws_row(*w));
}

/// Push the rows of a JSON listing.
fn push_listing(out: &mut Vec<String>, list: &Option<JsonValue>, plugins: bool)
    ensures
        crate::files::views(final(out)@) == crate::files::views(old(out)@) + listing_rows(*list,
            if plugins { seq!["result"@, "actions"@] } else { seq!["result"@, "workspaces"@] }, plugins),
{
    let ghost start = crate::files::views(out@);
    let ghost path = if plugins { seq!["result"@, "actions"@] } else { seq!["result"@, "workspaces"@] };
    match list {
        Some(l) => {
            let arr = if plugins {
                let p = ["result", "actions"];
                assert(p@.map_values(|k: &str| k@) =~= path);
                array_pointer(l, &p)
            } else {
                let p = ["result", "workspaces"];
                assert(p@.map_values(|k: &str| k@) =~= path);
                array_pointer(l, &p)
            };
            match arr {
                Some(a) => {
                    let mut i: usize = 0;
                    while i < a.len()
                        invariant
                            i <= a.len(),
                            crate::files::views(out@) == start + (if plugins { plugin_rows_of(a@.take(i as int)) } else { ws_rows_of(a@.take(i as int)) }),
                        decreases a.len() - i,
                    {
                        assert(a@.take(i + 1).drop_last() =~= a@.take(i as int));
                        assert(a@.take(i + 1).last() == a@[i as int]);
                        if plugins {
                            push_plugin_row(out, &a[i]);
                        } else {
                            push_ws_row(out, &a[i]);
                        }
                        i = i + 1;
                    }
                    assert(a@.take(a@.len() as int) =~= a@);
                },
                None => {
                    assert(crate::files::views(out@) =~= start + Seq::<Seq<char>>::empty());
                },
            }
        },
        None => {
            assert(crate::files::views(out@) =~= start + Seq::<Seq<char>>::empty());
        },
    }
}

/// Build the merged TSV list (kind, payload, display, keywords, hint) from
/// the keybindings, the plugin-action and workspace listings herdr printed,
/// and the popup width.
pub fn build_list(keys: &Keys, plugins: &Option<JsonValue>, workspaces: &Option<JsonValue>, columns: usize) -> (rows: Vec<String>)
    ensures
        crate::files::views(rows@) == spec_build_list(*keys, *plugins, *workspaces, columns as nat),
{
    let acts = native_actions();
    let title_w = title_width(&acts, columns);
    let mut out: Vec<String> = Vec::new();
    let mut i: usize = 0;
    while i < acts.len()
        invariant
            i <= acts.len(),
            acts@ == spec_native_actions(),
            title_w == spec_title_width(columns as nat),
            crate::files::views(out@) == acts@.take(i as int).map_values(|a: NativeAction| spec_native_row(a, *keys, title_w as nat)),
        decreases acts.len() - i,
    {
        let a = &acts[i];
        let (title, shortcut, keywords) = row_display(a, keys);
        let display = build_display(title.as_str(), shortcut.as_str(), keywords.as_str(), title_w);
        let ghost before = crate::files::views(out@);
        out.push(tsv("native", a.id, display.as_str(), keywords.as_str(), a.hint));
        assert(acts@.take(i + 1) =~= acts@.take(i as int).push(acts@[i as int]));
        assert(crate::files::views(out@) =~= before.push(spec_native_row(*a, *keys, title_w as nat)));
        i = i + 1;
    }
    assert(acts@.take(acts@.len() as int) =~= acts@);
    push_listing(&mut out, plugins, true);
    push_listing(&mut out, workspaces, false);
    let ghost before = crate::files::views(out@);
    out.push(tsv("files", "", "\u{1b}[2mfiles\u{1b}[0m Search files…", "find file grep search fd rg locate", "type @ to jump here, then pick a file"));
    out.push(tsv("search", "", "\u{1b}[2msearch\u{1b}[0m Search contents…", "rg grep content text /", "type / to jump here and search with ripgrep"));
    assert(crate::files::views(out@) =~= before + finder_rows());
    out
}

} // verus!

verus! {

// ---------------------------------------------------------------------------
// Dispatching the selection
// ---------------------------------------------------------------------------
/// The second `\t`-separated field of `s`, or nothing.
pub open spec fn second_field(s: Seq<char>) -> Seq<char> {
    match first_index_of(s, '\t') {
        Some(i) => first_field(s.skip(i + 1), '\t'),
        None => Seq::empty(),
    }
}

/// The kind and the payload of a selected list row (its first two fields).
pub fn selection_fields(line: &str) -> (r: (String, String))
    ensures
        r.0@ == first_field(line@, '\t'),
        r.1@ == second_field(line@),
{
    let v = chars_of(line);
    let kind = crate::text::first_field_of(line, '\t');
    match crate::text::find_char(&v, '\t') {
        Some(i) => {
            let rest = crate::text::string_of_range(&v, i + 1, v.len());
            assert(rest@ =~= line@.skip(i + 1));
            (kind, crate::text::first_field_of(rest.as_str(), '\t'))
        },
        None => (kind, String::new()),
    }
}

/// What a selected row leads to.
#[derive(Debug)]
pub enum Dispatch {
    /// Plan and run the native action with this id.
    Native(String),
    /// Invoke this plugin action (qualified id).
    Plugin(String),
    /// Open the file finder.
    FileFinder,
    /// Ask where to open this file, then open it.
    OpenFile(String),
    /// Run `herdr` with these arguments.
    RunCli(Vec<String>),
    /// Show this message and exit with failure.
    Die(&'static str),
    /// Nothing to do.
    Nothing,
}

/// What a selected row of kind `kind` with payload `payload` leads to.
pub open spec fn spec_dispatch(kind: Seq<char>, payload: Seq<char>, d: Dispatch) -> bool {
    if kind == "native"@ {
        d matches Dispatch::Native(p) && p@ == payload
    } else if kind == "plugin"@ {
        d matches Dispatch::Plugin(p) && p@ == payload
    } else if kind == "files"@ {
        if payload.len() == 0 {
            d is FileFinder
        } else {
            d matches Dispatch::OpenFile(p) && p@ == payload
        }
    } else if kind == "workspace"@ {
        if payload.len() == 0 {
            d == Dispatch::Die("telescope: no workspace id to focus.")
        } else {
            d matches Dispatch::RunCli(v) && args_view(v@) =~= seq!["workspace"@, "focus"@, payload]
        }
    } else {
        d is Nothing
    }
}

/// Dispatch a selected row by its kind.
pub fn dispatch(kind: &str, payload: &str) -> (d: Dispatch)
    ensures
        spec_dispatch(kind@, payload@, d),
{
    if str_eq(kind, "native") {
        Dispatch::Native(owned(payload))
    } else if str_eq(kind, "plugin") {
        Dispatch::Plugin(owned(payload))
    } else if str_eq(kind, "files") {
        if payload.is_empty() {
            Dispatch::FileFinder
        } else {
            Dispatch::OpenFile(owned(payload))
        }
    } else if str_eq(kind, "workspace") {
        if payload.is_empty() {
            Dispatch::Die("telescope: no workspace id to focus.")
        } else {
            Dispatch::RunCli(argv_of(&["workspace", "focus", payload]))
        }
    } else {
        Dispatch::Nothing
    }
}

/// The line prompt shown after fzf for an action that needs typed input.
pub open spec fn spec_line_prompt(id: Seq<char>) -> Option<&'static str> {
    if id == "new_tab_named"@ || id == "rename_tab"@ {
        Some("New tab name: ")
    } else if id == "rename_pane"@ {
        Some("New pane name: ")
    } else if id == "new_workspace_here"@ || id == "rename_workspace"@ {
        Some("New workspace name: ")
    } else if id == "new_worktree_branch"@ {
        Some("Branch name: ")
    } else if id == "start_agent"@ {
        Some("Agent name (a-z0-9_-): ")
    } else if id == "rename_agent"@ {
        Some("New agent name (a-z0-9_-): ")
    } else if id == "prompt_agent"@ {
        Some("Prompt: ")
    } else {
        None
    }
}

/// Line prompt shown after fzf for this action.
pub fn line_prompt(id: &str) -> (r: Option<&'static str>)
    ensures
        r == spec_line_prompt(id@),
{
    if str_eq(id, "new_tab_named") || str_eq(id, "rename_tab") {
        Some("New tab name: ")
    } else if str_eq(id, "rename_pane") {
        Some("New pane name: ")
    } else if str_eq(id, "new_workspace_here") || str_eq(id, "rename_workspace") {
        Some("New workspace name: ")
    } else if str_eq(id, "new_worktree_branch") {
        Some("Branch name: ")
    } else if str_eq(id, "start_agent") {
        Some("Agent name (a-z0-9_-): ")
    } else if str_eq(id, "rename_agent") {
        Some("New agent name (a-z0-9_-): ")
    } else if str_eq(id, "prompt_agent") {
        Some("Prompt: ")
    } else {
        None
    }
}

/// Which second-stage pick an action needs.
#[derive(Clone, Copy, Debug, PartialEq, Eq, Structural)]
pub enum PickKind {
    NoPick,
    /// Another tab of the origin workspace.
    Tab,
    /// A live agent.
    Agent,
}

/// The answers to gather for a native action, in order: the pick, the y/N
/// question, the typed line, the base ref.
#[derive(Debug)]
pub struct InputPlan {
    pub pick: PickKind,
    pub confirm: Option<String>,
    pub line_prompt: Option<&'static str>,
    pub ask_base: bool,
}

/// What to ask for the native action `id` with origin workspace `ws`.
pub open spec fn spec_input_plan(id: Seq<char>, ws: Seq<char>, p: InputPlan) -> bool {
    &&& p.pick == (if id == "move_pane_tab"@ {
        PickKind::Tab
    } else if id == "interrupt_agent"@ || id == "rename_agent"@ || id == "prompt_agent"@ {
        PickKind::Agent
    } else {
        PickKind::NoPick
    })
    &&& (if id == "remove_worktree"@ {
        p.confirm matches Some(q) && q@ == "Remove the worktree checkout for "@ + ws + "? [y/N] "@
    } else {
        p.confirm is None
    })
    &&& p.line_prompt == (if id == "start_agent"@ { None } else { spec_line_prompt(id) })
    &&& p.ask_base == (id == "new_worktree_branch"@)
}

/// The interactive answers the native action `id` needs after the main fzf.
pub fn input_plan(id: &str, ctx: &OriginContext) -> (p: InputPlan)
    ensures
        spec_input_plan(id@, ctx.workspace@, p),
{
    let pick = if str_eq(id, "move_pane_tab") {
        PickKind::Tab
    } else if str_eq(id, "interrupt_agent") || str_eq(id, "rename_agent") || str_eq(id, "prompt_agent") {
        PickKind::Agent
    } else {
        PickKind::NoPick
    };
    let confirm = if str_eq(id, "remove_worktree") {
        let mut q = owned("Remove the worktree checkout for ");
        q.append(ctx.workspace.as_str());
        q.append("? [y/N] ");
        Some(q)
    } else {
        None
    };
    let line_prompt = if str_eq(id, "start_agent") {
        None
    } else {
        line_prompt(id)
    };
    InputPlan { pick, confirm, line_prompt, ask_base: str_eq(id, "new_worktree_branch") }
}

/// Whether a y/N answer confirms.
pub fn confirm(answer: &str) -> (r: bool)
    ensures
        r == (answer@ == "y"@ || answer@ == "Y"@ || answer@ == "yes"@ || answer@ == "YES"@),
{
    str_eq(answer, "y") || str_eq(answer, "Y") || str_eq(answer, "yes") || str_eq(answer, "YES")
}

/// A typed answer; an empty one means cancel.
pub fn ask_with_prompt(answer: String) -> (r: Option<String>)
    ensures
        answer@.len() == 0 ==> r is None,
        answer@.len() > 0 ==> r == Some(answer),
{
    if answer.as_str().is_empty() {
        None
    } else {
        Some(answer)
    }
}

/// A typed answer, or `default` when it is empty.
pub fn ask_with_prompt_default(answer: String, default: &str) -> (r: String)
    ensures
        r@ == (if answer@.len() == 0 { default@ } else { answer@ }),
{
    if answer.as_str().is_empty() {
        owned(default)
    } else {
        answer
    }
}

/// What planning a native action leads to.
#[derive(Debug)]
pub enum NativeOutcome {
    /// Run `herdr` with these arguments.
    Run(Vec<String>),
    /// The user cancelled.
    Nothing,
    /// Show this message and exit with failure.
    Die(String),
}

/// What the planned argv of `payload` leads to: run it, nothing on cancel,
/// the refusal message for a missing origin, or "unknown native action".
pub open spec fn spec_native_outcome(payload: Seq<char>, r: Result<Vec<String>, NativeErr>, o: NativeOutcome) -> bool {
    match r {
        Ok(v) => o == NativeOutcome::Run(v),
        Err(NativeErr::Cancel) => o is Nothing,
        Err(NativeErr::MissingOrigin(m)) => o matches NativeOutcome::Die(s) && s@ == m@,
        _ => o matches NativeOutcome::Die(s) && s@ == "telescope: unknown native action '"@ + payload + "'."@,
    }
}

/// Turn the planned argv of a native action into what to do.
pub fn dispatch_native(payload: &str, r: Result<Vec<String>, NativeErr>) -> (o: NativeOutcome)
    ensures
        spec_native_outcome(payload@, r, o),
{
    match r {
        Ok(v) => NativeOutcome::Run(v),
        Err(NativeErr::Cancel) => NativeOutcome::Nothing,
        Err(NativeErr::MissingOrigin(m)) => NativeOutcome::Die(owned(m)),
        Err(_) => {
            let mut s = owned("telescope: unknown native action '");
            s.append(payload);
            s.append("'.");
            NativeOutcome::Die(s)
        },
    }
}

} // verus!

verus! {

// ---------------------------------------------------------------------------
// Agents and tabs
// ---------------------------------------------------------------------------
/// The pick row of one live agent: its pane id, then its title (terminal
/// title, else agent name, else pane id), status and pane id.
pub open spec fn spec_agent_row(a: JsonValue) -> Seq<char> {
    let pane_id = field_or(a, "pane_id"@, ""@);
    let title = match json_str(json_get(a, "terminal_title_stripped"@)) {
        Some(t) => t,
        None => field_or(a, "agent"@, pane_id),
    };
    let status = field_or(a, "agent_status"@, "?"@);
    pane_id + "\t"@ + title + " · "@ + status + " · "@ + pane_id
}

/// The pick rows of the live agents, `None` when the listing has no agent
/// array.
pub open spec fn spec_agent_rows(list: JsonValue) -> Option<Seq<Seq<char>>> {
    match array_at(list, seq!["result"@, "agents"@]) {
        Some(agents) => Some(agents.map_values(|a: JsonValue| spec_agent_row(a))),
        None => None,
    }
}

/// The pick rows of the live agents in `herdr agent list`'s output.
pub fn agent_rows(list: &JsonValue) -> (r: Option<Vec<String>>)
    ensures
        match r {
            Some(rows) => spec_agent_rows(*list) == Some(crate::files::views(rows@)),
            None => spec_agent_rows(*list) is None,
        },
{
    let p = ["result", "agents"];
    assert(p@.map_values(|k: &str| k@) =~= seq!["result"@, "agents"@]);
    let agents = match array_pointer(list, &p) {
        Some(a) => a,
        None => return None,
    };
    let mut rows: Vec<String> = Vec::new();
    let mut i: usize = 0;
    while i < agents.len()
        invariant
            i <= agents.len(),
            crate::files::views(rows@) == agents@.take(i as int).map_values(|a: JsonValue| spec_agent_row(a)),
        decreases agents.len() - i,
    {
        let a = &agents[i];
        let pane_id = str_field_or(a, "pane_id", "");
        let title = match crate::json::get(a, "terminal_title_stripped") {
            Some(JsonValue::Str(t)) => t.clone(),
            _ => str_field_or(a, "agent", pane_id.as_str()),
        };
        let status = str_field_or(a, "agent_status", "?");
        let mut row = pane_id.clone();
        row.append("\t");
        row.append(title.as_str());
        row.append(" · ");
        row.append(status.as_str());
        row.append(" · ");
        row.append(pane_id.as_str());
        let ghost before = crate::files::views(rows@);
        rows.push(row);
        assert(agents@.take(i + 1) =~= agents@.take(i as int).push(agents@[i as int]));
        assert(crate::files::views(rows@) =~= before.push(spec_agent_row(*a)));
        i = i + 1;
    }
    assert(agents@.take(agents@.len() as int) =~= agents@);
    Some(rows)
}

/// The pick row of one tab: its id, then its label (or id) and pane count.
pub open spec fn spec_tab_row(t: JsonValue) -> Seq<char> {
    let id = field_or(t, "tab_id"@, ""@);
    let n = match int_field(t, "pane_count"@) {
        Some(n) => n as int,
        None => 0,
    };
    id + "\t"@ + field_or(t, "label"@, id) + "  ("@ + crate::text::signed_decimal(n) + " panes)"@
}

/// The rows of the tabs other than `origin_tab`.
pub open spec fn tab_rows_of(tabs: Seq<JsonValue>, origin_tab: Seq<char>) -> Seq<Seq<char>>
    decreases tabs.len(),
{
    if tabs.len() == 0 {
        Seq::empty()
    } else {
        let rest = tab_rows_of(tabs.drop_last(), origin_tab);
        if field_or(tabs.last(), "tab_id"@, ""@) == origin_tab {
            rest
        } else {
            rest.push(spec_tab_row(tabs.last()))
        }
    }
}

/// The pick rows of the tabs to move a pane to, `None` when the listing has
/// no tab array.
pub open spec fn spec_tab_rows(list: JsonValue, origin_tab: Seq<char>) -> Option<Seq<Seq<char>>> {
    match array_at(list, seq!["result"@, "tabs"@]) {
        Some(tabs) => Some(tab_rows_of(tabs, origin_tab)),
        None => None,
    }
}

/// The pick rows of the other tabs in `herdr tab list`'s output.
pub fn tab_rows(list: &JsonValue, origin_tab: &str) -> (r: Option<Vec<String>>)
    ensures
        match r {
            Some(rows) => spec_tab_rows(*list, origin_tab@) == Some(crate::files::views(rows@)),
            None => spec_tab_rows(*list, origin_tab@) is None,
        },
{
    let p = ["result", "tabs"];
    assert(p@.map_values(|k: &str| k@) =~= seq!["result"@, "tabs"@]);
    let tabs = match array_pointer(list, &p) {
        Some(a) => a,
        None => return None,
    };
    let mut rows: Vec<String> = Vec::new();
    let mut i: usize = 0;
    while i < tabs.len()
        invariant
            i <= tabs.len(),
            crate::files::views(rows@) == tab_rows_of(tabs@.take(i as int), origin_tab@),
        decreases tabs.len() - i,
    {
        let t = &tabs[i];
        let id = str_field_or(t, "tab_id", "");
        assert(tabs@.take(i + 1).drop_last() =~= tabs@.take(i as int));
        assert(tabs@.take(i + 1).last() == tabs@[i as int]);
        if !str_eq(id.as_str(), origin_tab) {
            let label = str_field_or(t, "label", id.as_str());
            let n: i64 = match crate::json::i64_field(t, "pane_count") {
                Some(n) => n,
                None => 0,
            };
            let mut row = id.clone();
            row.append("\t");
            row.append(label.as_str());
            row.append("  (");
            crate::text::push_signed_decimal(&mut row, n);
            row.append(" panes)");
            let ghost before = crate::files::views(rows@);
            rows.push(row);
            assert(crate::files::views(rows@) =~= before.push(spec_tab_row(*t)));
        }
        i = i + 1;
    }
    assert(tabs@.take(tabs@.len() as int) =~= tabs@);
    Some(rows)
}

/// The marker before the agent kinds in herdr's zsh completion.
pub open spec fn kind_marker() -> Seq<char> {
    "--kind[Supported agent kind"@
}

/// The first index at which `p` occurs in `s`.
pub open spec fn find_seq(s: Seq<char>, p: Seq<char>) -> Option<int> {
    if exists|i: int| 0 <= i <= s.len() - p.len() && p.is_prefix_of(#[trigger] s.skip(i)) {
        Some(choose|i: int| 0 <= i <= s.len() - p.len() && p.is_prefix_of(#[trigger] s.skip(i))
            && forall|j: int| 0 <= j < i ==> !p.is_prefix_of(#[trigger] s.skip(j)))
    } else {
        None
    }
}

/// The space-separated non-empty words of `s`.
pub open spec fn words(s: Seq<char>) -> Seq<Seq<char>>
    decreases s.len(),
{
    if s.len() == 0 {
        Seq::empty()
    } else {
        match first_index_of(s, ' ') {
            Some(i) => if 0 <= i < s.len() {
                (if i > 0 { seq![s.take(i)] } else { Seq::empty() }) + words(s.skip(i + 1))
            } else {
                seq![s]
            },
            None => seq![s],
        }
    }
}

/// The agent kinds herdr falls back to.
pub open spec fn default_agent_kinds() -> Seq<Seq<char>> {
    seq!["codex"@, "gemini"@, "cursor"@, "opencode"@, "copilot"@, "amp"@, "droid"@]
}

/// Where the kind list stands in the completion text, if it is there:
/// the text after the marker, the first `(` and the first `)` in it.
pub open spec fn kind_list_bounds(text: Seq<char>) -> Option<(Seq<char>, int, int)> {
    match find_seq(text, kind_marker()) {
        Some(m) => {
            let rest = text.skip(m + kind_marker().len());
            match (first_index_of(rest, '('), first_index_of(rest, ')')) {
                (Some(o), Some(c)) => Some((rest, o, c)),
                _ => None,
            }
        },
        None => None,
    }
}

/// The agent kinds listed in herdr's zsh completion
/// (`--kind[Supported agent kind (a b c)]`), else the common set.
pub open spec fn spec_agent_kinds(completion: Option<Seq<char>>) -> Seq<Seq<char>> {
    match completion {
        Some(text) => match kind_list_bounds(text) {
            Some((rest, o, c)) => {
                let ks = words(rest.subrange(o + 1, c));
                if ks.len() > 0 { ks } else { default_agent_kinds() }
            },
            None => default_agent_kinds(),
        },
        None => default_agent_kinds(),
    }
}

/// Whether the completion text lists kinds in a broken order (`)` before
/// `(`), on which the kind list cannot be cut out.
pub open spec fn kind_list_broken(text: Seq<char>) -> bool {
    match kind_list_bounds(text) {
        Some((rest, o, c)) => c < o + 1,
        None => false,
    }
}

/// Index of the first occurrence of `p` in `s`.
fn find_chars(s: &[char], p: &[char]) -> (r: Option<usize>)
    ensures
        match r {
            Some(i) => find_seq(s@, p@) == Some(i as int) && i + p.len() <= s.len(),
            None => find_seq(s@, p@) is None,
        },
{
    if p.len() > s.len() {
        assert forall|i: int| 0 <= i <= s@.len() - p@.len() implies !p@.is_prefix_of(#[trigger] s@.skip(i)) by {}
        return None;
    }
    let mut i: usize = 0;
    while i <= s.len() - p.len()
        invariant
            p.len() <= s.len(),
            i <= s.len() - p.len() + 1,
            forall|j: int| 0 <= j < i ==> !p@.is_prefix_of(#[trigger] s@.skip(j)),
        decreases s.len() - p.len() + 1 - i,
    {
        if has_prefix_at(s, i, p) {
            proof {
                let k = choose|k: int| 0 <= k <= s@.len() - p@.len() && p@.is_prefix_of(#[trigger] s@.skip(k))
                    && forall|j: int| 0 <= j < k ==> !p@.is_prefix_of(#[trigger] s@.skip(j));
                if k < i {
                    assert(!p@.is_prefix_of(s@.skip(k)));
                }
                if i < k {
                    assert(!p@.is_prefix_of(s@.skip(i as int)));
                }
            }
            return Some(i);
        }
        i = i + 1;
    }
    None
}

/// The non-empty space-separated words of `v[lo..hi]`.
fn words_of(v: &[char], lo: usize, hi: usize) -> (r: Vec<String>)
    requires
        lo <= hi <= v.len(),
    ensures
        crate::files::views(r@) == words(v@.subrange(lo as int, hi as int)),
{
    let mut r: Vec<String> = Vec::new();
    let mut start: usize = lo;
    let ghost whole = words(v@.subrange(lo as int, hi as int));
    assert(v@.subrange(lo as int, hi as int) =~= v@.subrange(start as int, hi as int));
    while start < hi
        invariant
            lo <= start <= hi <= v.len(),
            crate::files::views(r@) + words(v@.subrange(start as int, hi as int)) == whole,
        decreases hi - start,
    {
        let ghost rest = v@.subrange(start as int, hi as int);
        let mut j: usize = start;
        while j < hi && v[j] != ' '
            invariant
                start <= j <= hi <= v.len(),
                forall|k: int| start <= k < j ==> v@[k] != ' ',
            decreases hi - j,
        {
            j = j + 1;
        }
        proof {
            assert forall|k: int| 0 <= k < j - start implies rest[k] != ' ' by {
                assert(rest[k] == v@[start + k]);
            }
            if j < hi {
                assert(rest[j - start] == v@[j as int]);
            }
            crate::text::lemma_first_index_of_is(rest, ' ', j - start);
        }
        let ghost before = crate::files::views(r@);
        if j > start {
            r.push(crate::text::string_of_range(v, start, j));
            assert(rest.take(j - start) =~= v@.subrange(start as int, j as int));
        }
        if j < hi {
            proof {
                assert(rest.skip(j - start + 1) =~= v@.subrange(j + 1, hi as int));
                if j > start {
                    assert(crate::files::views(r@) =~= before + seq![rest.take(j - start)]);
                } else {
                    assert(crate::files::views(r@) =~= before + Seq::<Seq<char>>::empty());
                }
            }
            start = j + 1;
        } else {
            proof {
                assert(rest.take(j - start) =~= rest);
                assert(v@.subrange(hi as int, hi as int) =~= Seq::<char>::empty());
                assert(crate::files::views(r@) =~= before + words(rest));
            }
            start = hi;
        }
    }
    assert(crate::files::views(r@) + Seq::<Seq<char>>::empty() =~= crate::files::views(r@));
    r
}

/// Whether the completion text lists kinds in a broken order (the kind list
/// cannot be cut out of it).
pub fn kind_list_is_broken(text: &str) -> (r: bool)
    ensures
        r == kind_list_broken(text@),
{
    let v = chars_of(text);
    let marker = chars_of("--kind[Supported agent kind");
    if let Some(m) = find_chars(&v, &marker) {
        let start = m + marker.len();
        let rest = crate::text::string_of_range(&v, start, v.len());
        let rv = chars_of(rest.as_str());
        assert(rv@ =~= v@.skip(start as int));
        let open = crate::text::find_char(&rv, '(');
        let close = crate::text::find_char(&rv, ')');
        match (open, close) {
            (Some(o), Some(c)) => c < o + 1,
            _ => false,
        }
    } else {
        false
    }
}

/// The agent kinds from the text of herdr's zsh completion (`None` when it
/// could not be had).
pub fn agent_kinds(completion: Option<&str>) -> (r: Vec<String>)
    requires
        match completion {
            Some(t) => !kind_list_broken(t@),
            None => true,
        },
    ensures
        crate::files::views(r@) == spec_agent_kinds(opt_str_view(completion)),
{
    if let Some(text) = completion {
        let v = chars_of(text);
        let marker = chars_of("--kind[Supported agent kind");
        if let Some(m) = find_chars(&v, &marker) {
            let start = m + marker.len();
            let rest = crate::text::string_of_range(&v, start, v.len());
            let rv = chars_of(rest.as_str());
            assert(rv@ =~= v@.skip(start as int));
            let open = crate::text::find_char(&rv, '(');
            let close = crate::text::find_char(&rv, ')');
            match (open, close) {
                (Some(o), Some(c)) => {
                    let kinds = words_of(&rv, o + 1, c);
                    if kinds.len() > 0 {
                        return kinds;
                    }
                },
                _ => {},
            }
        }
    }
    let kinds = argv_of(&["codex", "gemini", "cursor", "opencode", "copilot", "amp", "droid"]);
    assert(args_view(kinds@) =~= default_agent_kinds());
    kinds
}

/// The agent kinds from the output of `herdr completion zsh` (`None` when
/// the command gave none), or `None` when the kind list in it is broken (its
/// `)` before its `(`), where no kind list can be cut out.
pub fn agent_kinds_from_output(completion: Option<&[u8]>) -> (r: Option<Vec<String>>)
    ensures
        match completion {
            Some(b) => if kind_list_broken(crate::text::utf8_lossy(b@)) {
                r is None
            } else {
                r matches Some(v) && crate::files::views(v@) == spec_agent_kinds(Some(crate::text::utf8_lossy(b@)))
            },
            None => r matches Some(v) && crate::files::views(v@) == spec_agent_kinds(None),
        },
{
    match completion {
        Some(b) => {
            let text = crate::text::utf8_lossy_string(b);
            if kind_list_is_broken(text.as_str()) {
                None
            } else {
                Some(agent_kinds(Some(text.as_str())))
            }
        },
        None => Some(agent_kinds(None)),
    }
}

/// The split of the origin pane that the new agent starts in.
pub open spec fn spec_agent_split_args(ctx: OriginContext) -> Seq<Seq<char>> {
    seq!["pane"@, "split"@, ctx.pane@, "--direction"@, "right"@, "--focus"@] + opt_pair("--cwd"@, ctx.cwd@)
}

/// The `herdr` argv splitting the origin pane for a new agent.
pub fn agent_split_args(ctx: &OriginContext) -> (r: Vec<String>)
    ensures
        args_view(r@) == spec_agent_split_args(*ctx),
{
    let mut args = argv_of(&["pane", "split", ctx.pane.as_str(), "--direction", "right", "--focus"]);
    push_opt_pair(&mut args, "--cwd", ctx.cwd.as_str());
    args
}

/// A character allowed after the first in an agent name.
pub open spec fn agent_name_char(c: char) -> bool {
    ('a' <= c && c <= 'z') || ('0' <= c && c <= '9') || c == '_' || c == '-'
}

/// Whether `name` matches `[a-z][a-z0-9_-]{0,31}`.
pub open spec fn spec_agent_name_ok(name: Seq<char>) -> bool {
    &&& 1 <= name.len() <= 32
    &&& 'a' <= name[0] && name[0] <= 'z'
    &&& forall|i: int| 1 <= i < name.len() ==> agent_name_char(#[trigger] name[i])
}

/// Whether an agent name matches `[a-z][a-z0-9_-]{0,31}`.
pub fn agent_name_ok(name: &str) -> (r: bool)
    ensures
        r == spec_agent_name_ok(name@),
{
    let v = chars_of(name);
    if v.len() == 0 || v.len() > 32 || !('a' <= v[0] && v[0] <= 'z') {
        return false;
    }
    let mut i: usize = 1;
    while i < v.len()
        invariant
            1 <= i <= v.len(),
            v@ == name@,
            forall|k: int| 1 <= k < i ==> agent_name_char(#[trigger] v@[k]),
        decreases v.len() - i,
    {
        let c = v[i];
        if !(('a' <= c && c <= 'z') || ('0' <= c && c <= '9') || c == '_' || c == '-') {
            assert(!agent_name_char(name@[i as int]));
            return false;
        }
        i = i + 1;
    }
    true
}

/// The refusal of a bad agent name.
pub fn agent_name_error(name: &str) -> (r: String)
    ensures
        r@ == "telescope: agent names must match [a-z][a-z0-9_-]{0,31} (got '"@ + name@ + "')."@,
{
    let mut s = owned("telescope: agent names must match [a-z][a-z0-9_-]{0,31} (got '");
    s.append(name);
    s.append("').");
    s
}

/// The id of the pane `herdr pane split` created (read from its output), or
/// the empty string.
pub fn new_pane_id(stdout: &[u8]) -> (r: String)
    ensures
        r@ == (match crate::json::json_parse(stdout@) {
            Some(b) => match crate::json::str_at(b, seq!["result"@, "pane"@, "pane_id"@]) {
                Some(s) => s,
                None => Seq::<char>::empty(),
            },
            None => Seq::<char>::empty(),
        }),
{
    let body = crate::json::parse_json(stdout);
    match &body {
        Some(b) => {
            let p = ["result", "pane", "pane_id"];
            assert(p@.map_values(|k: &str| k@) =~= seq!["result"@, "pane"@, "pane_id"@]);
            crate::json::str_pointer_or_empty(b, &p)
        },
        None => String::new(),
    }
}

/// The `herdr` argv starting the agent in the new pane.
pub fn agent_start_args(name: &str, kind: &str, pane: &str) -> (r: Vec<String>)
    ensures
        args_view(r@) == seq!["agent"@, "start"@, name@, "--kind"@, kind@, "--pane"@, pane@],
{
    argv_of(&["agent", "start", name, "--kind", kind, "--pane", pane])
}

/// What starting an agent asks its caller to do next.
#[derive(Debug)]
pub enum AgentAction {
    /// Run `herdr completion zsh`; answer `KindsListed` with what it printed
    /// (`None` when it failed).
    ListKinds,
    /// The completion's kind list cannot be cut out (its `)` before its `(`).
    BrokenKindList,
    /// Let the user pick one of these agent kinds; answer `KindPicked`.
    PickKind { kinds: Vec<String>, prompt: &'static str },
    /// Ask for the agent's name; answer `NameTyped`.
    AskName(&'static str),
    /// Run `herdr` with these arguments to split the origin pane; answer
    /// `Split` with how it went.
    Split(Vec<String>),
    /// Run `herdr` with these arguments; starting the agent is done.
    RunCli(Vec<String>),
    /// Show this message and exit with failure.
    Die(String),
    /// Nothing more to do (cancelled).
    Done,
}

/// What came of the last action of an agent start.
#[derive(Debug)]
pub enum AgentEvent {
    /// Starting begins.
    Start,
    /// What `herdr completion zsh` printed, `None` when it failed.
    KindsListed(Option<Vec<u8>>),
    /// The picked kind, `None` on cancel.
    KindPicked(Option<String>),
    /// The typed name (empty on cancel).
    NameTyped(String),
    /// How the split went: its success and output.
    Split { success: bool, stdout: Vec<u8>, stderr: Vec<u8> },
}

/// An agent start under way: the origin pane and cwd, the picked kind and
/// the typed name once there are ones.
#[derive(Debug)]
pub struct AgentStart {
    pub pane: String,
    pub cwd: String,
    pub kind: String,
    pub name: String,
}

/// The argv splitting the origin pane `pane` (cwd `cwd`) for the agent.
pub open spec fn spec_split_for(pane: Seq<char>, cwd: Seq<char>) -> Seq<Seq<char>> {
    seq!["pane"@, "split"@, pane, "--direction"@, "right"@, "--focus"@] + opt_pair("--cwd"@, cwd)
}

/// What an agent start does next for `event`, from state `st` (the state
/// after the step is `next`): check the origin pane, list the kinds, pick
/// one, ask the name and check it against `[a-z][a-z0-9_-]{0,31}`, split the
/// origin pane, then start the agent in the new pane.
pub open spec fn spec_agent_step(st: AgentStart, event: AgentEvent, next: AgentStart, a: AgentAction) -> bool {
    match event {
        AgentEvent::Start => if st.pane@.len() == 0 {
            a matches AgentAction::Die(m) && m@ == "telescope: no origin pane to split for the agent."@
        } else {
            a is ListKinds
        },
        AgentEvent::KindsListed(out) => match out {
            Some(b) => if kind_list_broken(crate::text::utf8_lossy(b@)) {
                a is BrokenKindList
            } else {
                a matches AgentAction::PickKind { kinds, prompt } && crate::files::views(kinds@) == spec_agent_kinds(
                    Some(crate::text::utf8_lossy(b@)),
                ) && prompt == "agent kind ▸ "
            },
            None => a matches AgentAction::PickKind { kinds, prompt } && crate::files::views(kinds@) == spec_agent_kinds(
                None,
            ) && prompt == "agent kind ▸ ",
        },
        AgentEvent::KindPicked(k) => match k {
            None => a is Done,
            Some(k) => {
                &&& next.kind@ == k@
                &&& a == AgentAction::AskName("Agent name (a-z0-9_-): ")
            },
        },
        AgentEvent::NameTyped(n) => if n@.len() == 0 {
            a is Done
        } else if !spec_agent_name_ok(n@) {
            a matches AgentAction::Die(m) && m@ == "telescope: agent names must match [a-z][a-z0-9_-]{0,31} (got '"@
                + n@ + "')."@
        } else {
            &&& next.name@ == n@
            &&& a matches AgentAction::Split(v) && args_view(v@) == spec_split_for(st.pane@, st.cwd@)
        },
        AgentEvent::Split { success, stdout, stderr } => if !success {
            a matches AgentAction::Die(m) && m@ == "telescope: pane split failed before starting the agent.\n"@
                + crate::text::utf8_lossy(stderr@)
        } else if crate::files::reported_pane(stdout@).len() == 0 {
            a matches AgentAction::Die(m) && m@ == "telescope: could not read the new pane id from pane split."@
        } else {
            a matches AgentAction::RunCli(v) && args_view(v@) == seq![
                "agent"@,
                "start"@,
                st.name@,
                "--kind"@,
                st.kind@,
                "--pane"@,
                crate::files::reported_pane(stdout@),
            ]
        },
    }
}

/// An agent start from the origin context.
pub fn new_agent_start(ctx: &OriginContext) -> (r: AgentStart)
    ensures
        r.pane@ == ctx.pane@,
        r.cwd@ == ctx.cwd@,
        r.kind@.len() == 0,
        r.name@.len() == 0,
{
    AgentStart { pane: owned(ctx.pane.as_str()), cwd: owned(ctx.cwd.as_str()), kind: String::new(), name: String::new() }
}

/// One step of starting an agent in a new split of the origin pane.
pub fn agent_step(st: &mut AgentStart, event: AgentEvent) -> (a: AgentAction)
    ensures
        spec_agent_step(*old(st), event, *final(st), a),
        final(st).pane == old(st).pane,
        final(st).cwd == old(st).cwd,
        !(event is KindPicked) ==> final(st).kind == old(st).kind,
        !(event is NameTyped) ==> final(st).name == old(st).name,
{
    match event {
        AgentEvent::Start => {
            if st.pane.as_str().is_empty() {
                AgentAction::Die(owned("telescope: no origin pane to split for the agent."))
            } else {
                AgentAction::ListKinds
            }
        },
        AgentEvent::KindsListed(out) => {
            let listed = match &out {
                Some(b) => agent_kinds_from_output(Some(b.as_slice())),
                None => agent_kinds_from_output(None),
            };
            match listed {
                Some(kinds) => AgentAction::PickKind { kinds, prompt: "agent kind ▸ " },
                None => AgentAction::BrokenKindList,
            }
        },
        AgentEvent::KindPicked(k) => {
            match k {
                None => AgentAction::Done,
                Some(k) => {
                    st.kind = k;
                    AgentAction::AskName("Agent name (a-z0-9_-): ")
                },
            }
        },
        AgentEvent::NameTyped(n) => {
            if n.as_str().is_empty() {
                AgentAction::Done
            } else if !agent_name_ok(n.as_str()) {
                AgentAction::Die(agent_name_error(n.as_str()))
            } else {
                let ctx = OriginContext {
                    pane: owned(st.pane.as_str()),
                    tab: String::new(),
                    workspace: String::new(),
                    cwd: owned(st.cwd.as_str()),
                };
                st.name = n;
                AgentAction::Split(agent_split_args(&ctx))
            }
        },
        AgentEvent::Split { success, stdout, stderr } => {
            if !success {
                AgentAction::Die(split_failure(stderr.as_slice()))
            } else {
                let id = new_pane_id(stdout.as_slice());
                if id.as_str().is_empty() {
                    AgentAction::Die(owned("telescope: could not read the new pane id from pane split."))
                } else {
                    AgentAction::RunCli(agent_start_args(st.name.as_str(), st.kind.as_str(), id.as_str()))
                }
            }
        },
    }
}

} // verus!

verus! {

// ---------------------------------------------------------------------------
// Plugin actions
// ---------------------------------------------------------------------------
/// The `herdr` argv invoking a plugin action.
pub fn invoke_args(qid: &str) -> (r: Vec<String>)
    ensures
        args_view(r@) == seq!["plugin"@, "action"@, "invoke"@, qid@],
{
    argv_of(&["plugin", "action", "invoke", qid])
}

/// The message when the invocation itself failed, with its stderr (decoded
/// lossily, trimmed).
pub fn invoke_error(qid: &str, stderr: &[u8]) -> (r: String)
    ensures
        r@ == "telescope: failed to invoke "@ + qid@ + "\n"@ + trim(crate::text::utf8_lossy(stderr@)),
{
    let mut s = owned("telescope: failed to invoke ");
    s.append(qid);
    s.append("\n");
    let text = crate::text::utf8_lossy_string(stderr);
    let t = crate::text::trimmed(text.as_str());
    s.append(t.as_str());
    s
}

/// The string at a path of `body`, or the empty sequence.
pub open spec fn str_at_or_empty(body: Option<JsonValue>, path: Seq<Seq<char>>) -> Seq<char> {
    match body {
        Some(b) => match crate::json::str_at(b, path) {
            Some(s) => s,
            None => Seq::empty(),
        },
        None => Seq::empty(),
    }
}

/// The plugin log entry an invocation reported (log id, plugin id); `None`
/// when either is missing (older herdr: nothing to poll).
pub open spec fn spec_log_ref(body: Option<JsonValue>) -> Option<(Seq<char>, Seq<char>)> {
    let log_id = str_at_or_empty(body, seq!["result"@, "log"@, "log_id"@]);
    let plugin_id = str_at_or_empty(body, seq!["result"@, "log"@, "plugin_id"@]);
    if log_id.len() == 0 || plugin_id.len() == 0 {
        None
    } else {
        Some((log_id, plugin_id))
    }
}

/// The log entry to poll for an invocation's outcome, from the invocation's
/// output.
pub fn log_ref(stdout: &[u8]) -> (r: Option<(String, String)>)
    ensures
        match r {
            Some((l, p)) => spec_log_ref(crate::json::json_parse(stdout@)) == Some((l@, p@)),
            None => spec_log_ref(crate::json::json_parse(stdout@)) is None,
        },
{
    let body = crate::json::parse_json(stdout);
    let (log_id, plugin_id) = match &body {
        Some(b) => {
            let p1 = ["result", "log", "log_id"];
            assert(p1@.map_values(|k: &str| k@) =~= seq!["result"@, "log"@, "log_id"@]);
            let p2 = ["result", "log", "plugin_id"];
            assert(p2@.map_values(|k: &str| k@) =~= seq!["result"@, "log"@, "plugin_id"@]);
            (crate::json::str_pointer_or_empty(b, &p1), crate::json::str_pointer_or_empty(b, &p2))
        },
        None => (String::new(), String::new()),
    };
    if log_id.as_str().is_empty() || plugin_id.as_str().is_empty() {
        None
    } else {
        Some((log_id, plugin_id))
    }
}

/// The `herdr` argv listing a plugin's recent log entries.
pub fn log_list_args(plugin_id: &str) -> (r: Vec<String>)
    ensures
        args_view(r@) == seq!["plugin"@, "log"@, "list"@, "--plugin"@, plugin_id@, "--limit"@, "20"@],
{
    argv_of(&["plugin", "log", "list", "--plugin", plugin_id, "--limit", "20"])
}

/// Where a polled plugin action stands.
#[derive(Debug)]
pub enum PollStep {
    /// Not finished (or not listed yet): poll again.
    Pending,
    /// It succeeded.
    Succeeded,
    /// It failed: show this message and exit with failure.
    Failed(String),
}

/// The first entry of `logs` whose `log_id` is `log_id`.
pub open spec fn find_log(logs: Seq<JsonValue>, log_id: Seq<char>) -> Option<JsonValue>
    decreases logs.len(),
{
    if logs.len() == 0 {
        None
    } else if json_str(json_get(logs[0], "log_id"@)) == Some(log_id) {
        Some(logs[0])
    } else {
        find_log(logs.drop_first(), log_id)
    }
}

/// The polled entry of the invocation, if listed.
pub open spec fn polled_entry(page: Option<JsonValue>, log_id: Seq<char>) -> Option<JsonValue> {
    match page {
        Some(p) => match array_at(p, seq!["result"@, "logs"@]) {
            Some(logs) => find_log(logs, log_id),
            None => None,
        },
        None => None,
    }
}

/// What one poll of the plugin log says about the invocation `qid`.
pub open spec fn spec_poll(page: Option<JsonValue>, log_id: Seq<char>, qid: Seq<char>, r: PollStep) -> bool {
    match polled_entry(page, log_id) {
        Some(e) => {
            let status = field_or(e, "status"@, ""@);
            if status == "succeeded"@ {
                r is Succeeded
            } else if status == "failed"@ {
                let code = match int_field(e, "exit_code"@) {
                    Some(n) => n as int,
                    None => -1,
                };
                r matches PollStep::Failed(m) && m@ == "telescope: "@ + qid + " failed (exit "@
                    + crate::text::signed_decimal(code) + ")\n"@ + field_or(e, "stderr"@, ""@)
            } else {
                r is Pending
            }
        },
        None => r is Pending,
    }
}

/// How many times the plugin log is polled for an invocation's outcome
/// (about five seconds in all).
pub const POLL_LIMIT: u32 = 25;
/// The wait before each poll, in milliseconds.
pub const POLL_INTERVAL_MS: u64 = 200;

/// The wait before the next poll after `polls_done` polls, `None` once the
/// outcome has been polled `POLL_LIMIT` times.
pub fn poll_wait(polls_done: u32) -> (r: Option<u64>)
    ensures
        polls_done < POLL_LIMIT ==> r == Some(POLL_INTERVAL_MS),
        polls_done >= POLL_LIMIT ==> r is None,
{
    if polls_done < POLL_LIMIT {
        Some(POLL_INTERVAL_MS)
    } else {
        None
    }
}

/// Read one page of the plugin log for the invocation's entry.
pub fn poll_step(page: &Option<JsonValue>, log_id: &str, qid: &str) -> (r: PollStep)
    ensures
        spec_poll(*page, log_id@, qid@, r),
{
    let p = match page {
        Some(p) => p,
        None => return PollStep::Pending,
    };
    let path = ["result", "logs"];
    assert(path@.map_values(|k: &str| k@) =~= seq!["result"@, "logs"@]);
    let logs = match array_pointer(p, &path) {
        Some(l) => l,
        None => return PollStep::Pending,
    };
    let ghost all = logs@;
    let mut i: usize = 0;
    assert(all.skip(0) =~= all);
    assert(polled_entry(*page, log_id@) == find_log(all, log_id@));
    while i < logs.len()
        invariant
            i <= logs.len(),
            all == logs@,
            polled_entry(*page, log_id@) == find_log(all, log_id@),
            find_log(all, log_id@) == find_log(all.skip(i as int), log_id@),
        decreases logs.len() - i,
    {
        let e = &logs[i];
        assert(all.skip(i as int).drop_first() =~= all.skip(i + 1));
        assert(all.skip(i as int)[0] == *e);
        let matches = match crate::json::get(e, "log_id") {
            Some(JsonValue::Str(s)) => str_eq(s.as_str(), log_id),
            _ => false,
        };
        if matches {
            let status = str_field_or(e, "status", "");
            if str_eq(status.as_str(), "succeeded") {
                return PollStep::Succeeded;
            } else if str_eq(status.as_str(), "failed") {
                let code: i64 = match crate::json::i64_field(e, "exit_code") {
                    Some(n) => n,
                    None => -1,
                };
                let err = str_field_or(e, "stderr", "");
                let mut m = owned("telescope: ");
                m.append(qid);
                m.append(" failed (exit ");
                crate::text::push_signed_decimal(&mut m, code);
                m.append(")\n");
                m.append(err.as_str());
                return PollStep::Failed(m);
            } else {
                return PollStep::Pending;
            }
        }
        i = i + 1;
    }
    PollStep::Pending
}

// ---------------------------------------------------------------------------
// The main fzf
// ---------------------------------------------------------------------------
/// The fzf key bindings wiring the `@`/`/` mode switches and the
/// backspace-on-empty return to this executable's helpers.
pub fn fzf_binds(exe: &str, actions_path: &str, files_path: &str) -> (r: (String, String))
    ensures
        r.0@ == "change:transform["@ + exe@ + " at-switch "@ + actions_path@ + " "@ + files_path@ + "]"@,
        r.1@ == "backward-eof:transform["@ + exe@ + " at-back "@ + actions_path@ + "]"@,
{
    let mut change = owned("change:transform[");
    change.append(exe);
    change.append(" at-switch ");
    change.append(actions_path);
    change.append(" ");
    change.append(files_path);
    change.append("]");
    let mut back = owned("backward-eof:transform[");
    back.append(exe);
    back.append(" at-back ");
    back.append(actions_path);
    back.append("]");
    (change, back)
}

/// The preview command of the main fzf.
pub fn preview_command(exe: &str) -> (r: String)
    ensures
        r@ == exe@ + " preview {}"@,
{
    let mut s = owned(exe);
    s.append(" preview {}");
    s
}

/// fzf's arguments for the main list: match on the display column, the
/// mode-switch bindings, the actions prompt and header, the hint preview.
pub open spec fn spec_main_fzf_args(exe: Seq<char>, actions_path: Seq<char>, files_path: Seq<char>) -> Seq<Seq<char>> {
    seq![
        "--delimiter=\t"@,
        "--with-nth=3"@,
        "--ansi"@,
        "--bind"@,
        "change:transform["@ + exe + " at-switch "@ + actions_path + " "@ + files_path + "]"@,
        "--bind"@,
        "backward-eof:transform["@ + exe + " at-back "@ + actions_path + "]"@,
        "--prompt="@ + ACTIONS_PROMPT@,
        "--header="@ + ACTIONS_HEADER@,
        "--reverse"@,
        "--cycle"@,
        "--no-multi"@,
        "--tiebreak=begin,index"@,
        "--info=inline"@,
        "--preview"@,
        exe + " preview {}"@,
        "--preview-window"@,
        ACTION_PREVIEW_WIN@,
    ]
}

/// The arguments of the main fzf over the merged list.
pub fn main_fzf_args(exe: &str, actions_path: &str, files_path: &str) -> (r: Vec<String>)
    ensures
        args_view(r@) == spec_main_fzf_args(exe@, actions_path@, files_path@),
{
    let (change, back) = fzf_binds(exe, actions_path, files_path);
    let mut prompt = owned("--prompt=");
    prompt.append(ACTIONS_PROMPT);
    let mut header = owned("--header=");
    header.append(ACTIONS_HEADER);
    let mut r: Vec<String> = Vec::new();
    r.push(owned("--delimiter=\t"));
    r.push(owned("--with-nth=3"));
    r.push(owned("--ansi"));
    r.push(owned("--bind"));
    r.push(change);
    r.push(owned("--bind"));
    r.push(back);
    r.push(prompt);
    r.push(header);
    r.push(owned("--reverse"));
    r.push(owned("--cycle"));
    r.push(owned("--no-multi"));
    r.push(owned("--tiebreak=begin,index"));
    r.push(owned("--info=inline"));
    r.push(owned("--preview"));
    r.push(preview_command(exe));
    r.push(owned("--preview-window"));
    r.push(owned(ACTION_PREVIEW_WIN));
    assert(args_view(r@) =~= spec_main_fzf_args(exe@, actions_path@, files_path@));
    r
}

/// The first non-empty line of the text, or the empty sequence.
pub open spec fn first_nonempty(lines: Seq<Seq<char>>) -> Seq<char>
    decreases lines.len(),
{
    if lines.len() == 0 {
        Seq::empty()
    } else if lines[0].len() > 0 {
        lines[0]
    } else {
        first_nonempty(lines.drop_first())
    }
}

/// The selected line in fzf's output: its first non-empty line.
pub fn selected_line(out: &str) -> (r: String)
    ensures
        r@ == first_nonempty(crate::config::lines_of(out@)),
{
    let v = chars_of(out);
    let ls = crate::config::lines(&v);
    let ghost lv = ls@.map_values(|l: Vec<char>| l@);
    let mut i: usize = 0;
    assert(lv.skip(0) =~= lv);
    while i < ls.len()
        invariant
            i <= ls.len(),
            lv == ls@.map_values(|l: Vec<char>| l@),
            lv == crate::config::lines_of(out@),
            first_nonempty(lv) == first_nonempty(lv.skip(i as int)),
        decreases ls.len() - i,
    {
        assert(lv.skip(i as int).drop_first() =~= lv.skip(i + 1));
        assert(lv.skip(i as int)[0] == ls@[i as int]@);
        if ls[i].len() > 0 {
            return crate::text::string_of(&ls[i]);
        }
        i = i + 1;
    }
    String::new()
}

/// The message when a `herdr` command failed: the command line and its
/// trimmed stderr.
pub open spec fn joined(args: Seq<Seq<char>>) -> Seq<char>
    decreases args.len(),
{
    if args.len() == 0 {
        Seq::empty()
    } else if args.len() == 1 {
        args[0]
    } else {
        joined(args.drop_last()) + " "@ + args.last()
    }
}

/// The error shown when `herdr <args>` failed.
pub fn cli_failure(args: &Vec<String>, stderr: &[u8]) -> (r: String)
    ensures
        r@ == "herdr "@ + joined(args_view(args@)) + " failed: "@ + trim(crate::text::utf8_lossy(stderr@)),
{
    let ghost av = args_view(args@);
    let mut line = String::new();
    let mut i: usize = 0;
    while i < args.len()
        invariant
            i <= args.len(),
            av == args_view(args@),
            line@ == joined(av.take(i as int)),
        decreases args.len() - i,
    {
        assert(av.take(i + 1).drop_last() =~= av.take(i as int));
        assert(av.take(i + 1).last() == args@[i as int]@);
        if i > 0 {
            line.append(" ");
        }
        line.append(args[i].as_str());
        proof {
            if i == 0 {
                assert(av.take(1).len() == 1);
                assert(line@ =~= av.take(1)[0]);
            }
        }
        i = i + 1;
    }
    assert(av.take(av.len() as int) =~= av);
    let mut s = owned("herdr ");
    s.append(line.as_str());
    s.append(" failed: ");
    let text = crate::text::utf8_lossy_string(stderr);
    let t = crate::text::trimmed(text.as_str());
    s.append(t.as_str());
    s
}

/// The message when splitting the origin pane for a new agent failed, with
/// the split's stderr (decoded lossily).
pub fn split_failure(stderr: &[u8]) -> (r: String)
    ensures
        r@ == "telescope: pane split failed before starting the agent.\n"@ + crate::text::utf8_lossy(stderr@),
{
    let mut s = owned("telescope: pane split failed before starting the agent.\n");
    let text = crate::text::utf8_lossy_string(stderr);
    s.append(text.as_str());
    s
}


// ---------------------------------------------------------------------------
// Laws
// ---------------------------------------------------------------------------
/// The three prompts tell the modes apart. A query starting with `@` enters
/// the file list and one starting with `/` the content search from any other
/// list; once a list is showing, its trigger character only gets stripped (no
/// bounce). Backspace on an empty query leaves the file and search lists for
/// the actions and does nothing in the actions list.
pub proof fn law_mode_switches(actions: Seq<char>, files: Seq<char>, query: Seq<char>, exe: Seq<char>)
    ensures
        spec_mode_of(ACTIONS_PROMPT@) == Mode::Actions,
        spec_mode_of(FILES_PROMPT@) == Mode::Files,
        spec_mode_of(SEARCH_PROMPT@) == Mode::Search,
        starts_with_char(query, '@') ==> spec_at_switch(files, query, FILES_PROMPT@, exe) == STRIP_AT@ + "\n"@,
        starts_with_char(query, '/') ==> spec_at_switch(files, query, SEARCH_PROMPT@, exe) == STRIP_SLASH@ + "\n"@,
        spec_at_back(actions, ACTIONS_PROMPT@).len() == 0,
        spec_at_back(actions, FILES_PROMPT@).len() > 0,
        spec_at_back(actions, FILES_PROMPT@) == spec_at_back(actions, SEARCH_PROMPT@),
        starts_with_char(query, '@') ==> spec_at_switch(files, query, ACTIONS_PROMPT@, exe) == enter_files(Mode::Actions, files),
        starts_with_char(query, '@') ==> spec_at_switch(files, query, SEARCH_PROMPT@, exe) == enter_files(Mode::Search, files),
        starts_with_char(query, '/') ==> spec_at_switch(files, query, ACTIONS_PROMPT@, exe) == enter_search(exe),
        starts_with_char(query, '/') ==> spec_at_switch(files, query, FILES_PROMPT@, exe) == enter_search(exe),
{
    reveal_strlit("herdr telescope ▸ ");
    reveal_strlit("herdr files ▸ ");
    reveal_strlit("herdr search ▸ ");
    assert(ACTIONS_PROMPT@[6] != FILES_PROMPT@[6]);
    assert(ACTIONS_PROMPT@[6] != SEARCH_PROMPT@[6]);
    assert(FILES_PROMPT@ != SEARCH_PROMPT@) by {
        assert(FILES_PROMPT@.len() != SEARCH_PROMPT@.len());
    }
}

/// A list row reads back as the kind and the payload it was written with,
/// when neither holds a tab.
pub proof fn law_row_fields_read_back(
    kind: Seq<char>,
    payload: Seq<char>,
    display: Seq<char>,
    keywords: Seq<char>,
    hint: Seq<char>,
)
    requires
        !kind.contains('\t'),
        !payload.contains('\t'),
    ensures
        first_field(spec_tsv(kind, payload, display, keywords, hint), '\t') == kind,
        second_field(spec_tsv(kind, payload, display, keywords, hint)) == payload,
{
    reveal_strlit("\t");
    let row = spec_tsv(kind, payload, display, keywords, hint);
    let tail = display + "\t"@ + keywords + "\t"@ + hint;
    assert(row =~= kind + (seq!['\t'] + (payload + (seq!['\t'] + tail))));
    assert forall|k: int| 0 <= k < kind.len() implies row[k] != '\t' by {
        assert(row[k] == kind[k]);
        assert(!(kind[k] == '\t'));
    }
    crate::text::lemma_first_index_of_is(row, '\t', kind.len() as int);
    assert(row.take(kind.len() as int) =~= kind);
    let rest = row.skip(kind.len() as int + 1);
    assert(rest =~= payload + (seq!['\t'] + tail));
    assert forall|k: int| 0 <= k < payload.len() implies rest[k] != '\t' by {
        assert(rest[k] == payload[k]);
        assert(!(payload[k] == '\t'));
    }
    crate::text::lemma_first_index_of_is(rest, '\t', payload.len() as int);
    assert(rest.take(payload.len() as int) =~= payload);
}

/// Every native action of the list but `start_agent` (which has several
/// steps of its own) plans an argv once the whole origin is known and every
/// answer it may ask for was given.
pub proof fn law_native_actions_planned(i: int, ctx: OriginContext, input: NativeInput)
    requires
        0 <= i < spec_native_actions().len(),
        spec_native_actions()[i].id@ != "start_agent"@,
        ctx.pane@.len() > 0,
        ctx.tab@.len() > 0,
        ctx.workspace@.len() > 0,
        ctx.cwd@.len() > 0,
        typed_line(input) is Some,
        picked(input) is Some,
        input.confirm,
    ensures
        spec_native_args(spec_native_actions()[i].id@, ctx, input) is Ok,
{
    reveal_strlit("focus_");
    reveal_strlit("resize_");
    reveal_strlit("swap_");
    reveal_strlit("focus_left");
    reveal_strlit("focus_right");
    reveal_strlit("focus_up");
    reveal_strlit("focus_down");
    reveal_strlit("resize_left");
    reveal_strlit("resize_right");
    reveal_strlit("resize_up");
    reveal_strlit("resize_down");
    reveal_strlit("swap_left");
    reveal_strlit("swap_right");
    reveal_strlit("swap_up");
    reveal_strlit("swap_down");
}

/// With no origin at all, every native action of the list that acts on the
/// origin pane, tab, workspace or directory is refused as such, whatever
/// answers were given; only the actions that need no origin remain.
pub proof fn law_missing_origin_refuses(i: int, ctx: OriginContext, input: NativeInput)
    requires
        0 <= i < spec_native_actions().len(),
        ctx.pane@.len() == 0,
        ctx.tab@.len() == 0,
        ctx.workspace@.len() == 0,
        ctx.cwd@.len() == 0,
        spec_native_actions()[i].id@ != "new_tab"@,
        spec_native_actions()[i].id@ != "new_tab_named"@,
        spec_native_actions()[i].id@ != "start_agent"@,
        spec_native_actions()[i].id@ != "prompt_agent"@,
        spec_native_actions()[i].id@ != "interrupt_agent"@,
        spec_native_actions()[i].id@ != "rename_agent"@,
        spec_native_actions()[i].id@ != "new_workspace"@,
        spec_native_actions()[i].id@ != "reload_config"@,
    ensures
        spec_native_args(spec_native_actions()[i].id@, ctx, input) matches Err(NativeErr::MissingOrigin(_)),
{
    reveal_strlit("new_tab");
    reveal_strlit("new_tab_named");
    reveal_strlit("close_tab");
    reveal_strlit("rename_tab");
    reveal_strlit("split_vertical");
    reveal_strlit("split_horizontal");
    reveal_strlit("close_pane");
    reveal_strlit("zoom_pane");
    reveal_strlit("rename_pane");
    reveal_strlit("move_pane_tab");
    reveal_strlit("move_pane_new_tab");
    reveal_strlit("move_pane_new_workspace");
    reveal_strlit("start_agent");
    reveal_strlit("prompt_agent");
    reveal_strlit("interrupt_agent");
    reveal_strlit("rename_agent");
    reveal_strlit("new_workspace");
    reveal_strlit("new_workspace_here");
    reveal_strlit("close_workspace");
    reveal_strlit("rename_workspace");
    reveal_strlit("new_worktree");
    reveal_strlit("new_worktree_branch");
    reveal_strlit("remove_worktree");
    reveal_strlit("reload_config");
    reveal_strlit("focus_");
    reveal_strlit("resize_");
    reveal_strlit("swap_");
    reveal_strlit("focus_left");
    reveal_strlit("focus_right");
    reveal_strlit("focus_up");
    reveal_strlit("focus_down");
    reveal_strlit("resize_left");
    reveal_strlit("resize_right");
    reveal_strlit("resize_up");
    reveal_strlit("resize_down");
    reveal_strlit("swap_left");
    reveal_strlit("swap_right");
    reveal_strlit("swap_up");
    reveal_strlit("swap_down");
}

/// Choosing a live workspace's row focuses that workspace: the row
/// dispatches to `herdr workspace focus <id>` (id non-empty and tab-free).
pub proof fn law_workspace_row_focuses(id: Seq<char>, label: Seq<char>)
    requires
        id.len() > 0,
        !id.contains('\t'),
    ensures
        forall|d: Dispatch|
            #![trigger spec_dispatch(first_field(spec_workspace_row(id, label), '\t'), second_field(spec_workspace_row(id, label)), d)]
            spec_dispatch(first_field(spec_workspace_row(id, label), '\t'), second_field(spec_workspace_row(id, label)), d)
                ==> (d matches Dispatch::RunCli(v) && args_view(v@) == seq!["workspace"@, "focus"@, id]),
{
    reveal_strlit("workspace");
    reveal_strlit("native");
    reveal_strlit("plugin");
    reveal_strlit("files");
    reveal_strlit("\t");
    let name = if label.len() == 0 { id } else { label };
    assert(!"workspace"@.contains('\t')) by {
        assert forall|i: int| 0 <= i < "workspace"@.len() implies "workspace"@[i] != '\t' by {}
    }
    law_row_fields_read_back(
        "workspace"@,
        id,
        "\u{1b}[2mworkspace:\u{1b}[0m "@ + name,
        "workspace goto jump focus project "@ + name + " "@ + id,
        "herdr workspace focus "@ + id,
    );
    assert("workspace"@ != "native"@) by {
        assert("workspace"@[0] != "native"@[0]);
    }
    assert("workspace"@ != "plugin"@) by {
        assert("workspace"@[0] != "plugin"@[0]);
    }
    assert("workspace"@ != "files"@) by {
        assert("workspace"@[0] != "files"@[0]);
    }
}

/// Choosing a native action's row plans that very action: the row
/// dispatches to `Native(id)` (id tab-free).
pub proof fn law_native_row_dispatches(a: NativeAction, keys: Keys, title_w: nat)
    requires
        !a.id@.contains('\t'),
    ensures
        forall|d: Dispatch|
            #![trigger spec_dispatch(first_field(spec_native_row(a, keys, title_w), '\t'), second_field(spec_native_row(a, keys, title_w)), d)]
            spec_dispatch(first_field(spec_native_row(a, keys, title_w), '\t'), second_field(spec_native_row(a, keys, title_w)), d)
                ==> (d matches Dispatch::Native(p) && p@ == a.id@),
{
    reveal_strlit("native");
    reveal_strlit("\t");
    assert(!"native"@.contains('\t')) by {
        assert forall|i: int| 0 <= i < "native"@.len() implies "native"@[i] != '\t' by {}
    }
    let kw = a.keywords@ + " "@ + a.id@;
    law_row_fields_read_back(
        "native"@,
        a.id@,
        spec_build_display(a.title@, spec_row_shortcut(a, keys), kw, title_w),
        kw,
        a.hint@,
    );
}

/// Choosing an installed plugin action's row invokes it: the row of an
/// action of another plugin dispatches to `Plugin(plugin_id.action_id)`
/// (that id tab-free); our own actions have no row.
pub proof fn law_plugin_row_dispatches(act: JsonValue)
    ensures
        field_or(act, "plugin_id"@, ""@) == SELF_PLUGIN@ ==> spec_plugin_row(act).len() == 0,
        ({
            let qid = field_or(act, "plugin_id"@, ""@) + "."@ + field_or(act, "action_id"@, ""@);
            field_or(act, "plugin_id"@, ""@) != SELF_PLUGIN@ && !qid.contains('\t') ==> {
                &&& spec_plugin_row(act).len() == 1
                &&& forall|d: Dispatch|
                    #![trigger spec_dispatch(first_field(spec_plugin_row(act)[0], '\t'), second_field(spec_plugin_row(act)[0]), d)]
                    spec_dispatch(first_field(spec_plugin_row(act)[0], '\t'), second_field(spec_plugin_row(act)[0]), d)
                        ==> (d matches Dispatch::Plugin(p) && p@ == qid)
            }
        }),
{
    reveal_strlit("plugin");
    reveal_strlit("native");
    reveal_strlit("\t");
    let plugin_id = field_or(act, "plugin_id"@, ""@);
    let title = field_or(act, "title"@, ""@);
    let qid = plugin_id + "."@ + field_or(act, "action_id"@, ""@);
    if plugin_id != SELF_PLUGIN@ && !qid.contains('\t') {
        assert(!"plugin"@.contains('\t')) by {
            assert forall|i: int| 0 <= i < "plugin"@.len() implies "plugin"@[i] != '\t' by {}
        }
        law_row_fields_read_back(
            "plugin"@,
            qid,
            qid + "  "@ + title,
            "plugin "@ + plugin_id + " "@ + title + " "@ + qid,
            "herdr plugin action invoke "@ + qid,
        );
        assert("plugin"@ != "native"@) by {
            assert("plugin"@[0] != "native"@[0]);
        }
    }
}

/// The number of plugin actions listed: those not of our own plugin.
pub open spec fn kept_plugin_count(acts: Seq<JsonValue>) -> nat
    decreases acts.len(),
{
    if acts.len() == 0 {
        0
    } else {
        kept_plugin_count(acts.drop_last()) + (if field_or(acts.last(), "plugin_id"@, ""@) == SELF_PLUGIN@ { 0nat } else { 1nat })
    }
}

/// The number of workspaces listed: those with a non-empty id.
pub open spec fn kept_workspace_count(ws: Seq<JsonValue>) -> nat
    decreases ws.len(),
{
    if ws.len() == 0 {
        0
    } else {
        kept_workspace_count(ws.drop_last()) + (if field_or(ws.last(), "workspace_id"@, ""@).len() == 0 { 0nat } else { 1nat })
    }
}

proof fn lemma_plugin_rows_len(acts: Seq<JsonValue>)
    ensures
        plugin_rows_of(acts).len() == kept_plugin_count(acts),
    decreases acts.len(),
{
    if acts.len() > 0 {
        lemma_plugin_rows_len(acts.drop_last());
    }
}

proof fn lemma_ws_rows_len(ws: Seq<JsonValue>)
    ensures
        ws_rows_of(ws).len() == kept_workspace_count(ws),
    decreases ws.len(),
{
    if ws.len() > 0 {
        lemma_ws_rows_len(ws.drop_last());
    }
}

/// The merged list has one row per native action, one per listed plugin
/// action of another plugin, one per live workspace with an id, and the two
/// finder rows last.
pub proof fn law_list_rows(keys: Keys, plugins: Option<JsonValue>, workspaces: Option<JsonValue>, columns: nat)
    ensures
        spec_build_list(keys, plugins, workspaces, columns).len() == spec_native_actions().len() + (match plugins {
            Some(l) => match array_at(l, seq!["result"@, "actions"@]) {
                Some(a) => kept_plugin_count(a),
                None => 0,
            },
            None => 0,
        }) + (match workspaces {
            Some(l) => match array_at(l, seq!["result"@, "workspaces"@]) {
                Some(a) => kept_workspace_count(a),
                None => 0,
            },
            None => 0,
        }) + 2,
        spec_build_list(keys, plugins, workspaces, columns).last() == finder_rows()[1],
        spec_build_list(keys, plugins, workspaces, columns)[spec_build_list(keys, plugins, workspaces, columns).len() - 2]
            == finder_rows()[0],
{
    if let Some(l) = plugins {
        if let Some(a) = array_at(l, seq!["result"@, "actions"@]) {
            lemma_plugin_rows_len(a);
        }
    }
    if let Some(l) = workspaces {
        if let Some(a) = array_at(l, seq!["result"@, "workspaces"@]) {
            lemma_ws_rows_len(a);
        }
    }
}

/// fzf's own matcher is on exactly in the lists it filters: entering the
/// content search turns it off, and leaving the content search (for the file
/// list on `@`, or for the actions on backspace) turns it back on first.
pub proof fn law_search_matcher_restored(actions: Seq<char>, files: Seq<char>, query: Seq<char>, exe: Seq<char>)
    ensures
        starts_with_char(query, '@') ==> "enable-search+"@.is_prefix_of(
            spec_at_switch(files, query, SEARCH_PROMPT@, exe),
        ),
        "enable-search+"@.is_prefix_of(spec_at_back(actions, SEARCH_PROMPT@)),
        starts_with_char(query, '/') ==> "disable-search+"@.is_prefix_of(
            spec_at_switch(files, query, ACTIONS_PROMPT@, exe),
        ),
        starts_with_char(query, '/') ==> "disable-search+"@.is_prefix_of(
            spec_at_switch(files, query, FILES_PROMPT@, exe),
        ),
{
    law_mode_switches(actions, files, query, exe);
    reveal_strlit("enable-search+");
    reveal_strlit("disable-search+");
    reveal_strlit("enable-search+reload-sync[cat -- ");
    reveal_strlit("disable-search+reload-sync[");
    let on = "enable-search+"@;
    let off = "disable-search+"@;
    if starts_with_char(query, '@') {
        let o = spec_at_switch(files, query, SEARCH_PROMPT@, exe);
        assert(o.subrange(0, on.len() as int) =~= on);
    }
    let b = spec_at_back(actions, SEARCH_PROMPT@);
    assert(b.subrange(0, on.len() as int) =~= on);
    if starts_with_char(query, '/') {
        let o1 = spec_at_switch(files, query, ACTIONS_PROMPT@, exe);
        assert(o1.subrange(0, off.len() as int) =~= off);
        let o2 = spec_at_switch(files, query, FILES_PROMPT@, exe);
        assert(o2.subrange(0, off.len() as int) =~= off);
    }
}

/// A worktree on a new branch gets `--base <ref>` exactly when a base ref
/// was typed (trimmed, non-empty), and then that ref; a blank answer plans
/// the same argv as no answer.
pub proof fn law_worktree_base_only_when_typed(ctx: OriginContext, input: NativeInput)
    requires
        ctx.workspace@.len() > 0,
        typed_line(input) is Some,
    ensures
        spec_native_args("new_worktree_branch"@, ctx, input) matches Ok(v) && (match input.extra {
            Some(l) => if trim(l@).len() > 0 {
                v.len() == 9 && v[7] == "--base"@ && v[8] == trim(l@)
            } else {
                v.len() == 7
            },
            None => v.len() == 7,
        }),
        (input.extra matches Some(l) && trim(l@).len() == 0) ==> spec_native_args("new_worktree_branch"@, ctx, input)
            == spec_native_args("new_worktree_branch"@, ctx, NativeInput { extra: None, ..input }),
{
    reveal_strlit("new_tab");
    reveal_strlit("new_tab_named");
    reveal_strlit("close_tab");
    reveal_strlit("rename_tab");
    reveal_strlit("split_vertical");
    reveal_strlit("split_horizontal");
    reveal_strlit("close_pane");
    reveal_strlit("zoom_pane");
    reveal_strlit("rename_pane");
    reveal_strlit("move_pane_tab");
    reveal_strlit("move_pane_new_tab");
    reveal_strlit("move_pane_new_workspace");
    reveal_strlit("start_agent");
    reveal_strlit("prompt_agent");
    reveal_strlit("interrupt_agent");
    reveal_strlit("rename_agent");
    reveal_strlit("new_workspace");
    reveal_strlit("new_workspace_here");
    reveal_strlit("close_workspace");
    reveal_strlit("rename_workspace");
    reveal_strlit("new_worktree");
    reveal_strlit("new_worktree_branch");
    reveal_strlit("focus_");
    reveal_strlit("resize_");
    reveal_strlit("swap_");
    let base = match typed_extra(input) {
        Some(b) => seq!["--base"@, b],
        None => Seq::<Seq<char>>::empty(),
    };
    let line = typed_line(input)->0;
    let head = seq!["worktree"@, "create"@, "--workspace"@, ctx.workspace@, "--branch"@];
    let v = head.push(line) + (seq!["--focus"@] + base);
    let id = "new_worktree_branch"@;
    assert(id.len() == 19);
    assert(!"focus_"@.is_prefix_of(id)) by { assert(id[0] != "focus_"@[0]); }
    assert(!"resize_"@.is_prefix_of(id)) by { assert(id[0] != "resize_"@[0]); }
    assert(!"swap_"@.is_prefix_of(id)) by { assert(id[0] != "swap_"@[0]); }
    assert(id != "new_worktree"@);
    assert(spec_native_args("new_worktree_branch"@, ctx, input) matches Ok(w) && w =~= v);
    if base.len() > 0 {
        assert(v[7] == base[0] && v[8] == base[1]);
    }
}

/// The row of a listed workspace with an id and a non-empty label is found
/// by the label: its display shows the label and its keywords hold the label
/// and the id; choosing it focuses the id.
pub proof fn law_workspace_row_shows_label(w: JsonValue, label: Seq<char>)
    requires
        field_or(w, "workspace_id"@, ""@).len() > 0,
        json_str(json_get(w, "label"@)) == Some(label),
        label.len() > 0,
    ensures
        spec_ws_row(w) == seq![
            spec_tsv(
                "workspace"@,
                field_or(w, "workspace_id"@, ""@),
                "\u{1b}[2mworkspace:\u{1b}[0m "@ + label,
                "workspace goto jump focus project "@ + label + " "@ + field_or(w, "workspace_id"@, ""@),
                "herdr workspace focus "@ + field_or(w, "workspace_id"@, ""@),
            ),
        ],
{
}

/// Every live workspace with an id has its row in the workspace rows, and
/// every row there is the row of a listed workspace.
pub proof fn law_every_workspace_listed(ws: Seq<JsonValue>)
    ensures
        forall|i: int| 0 <= i < ws.len() && field_or(ws[i], "workspace_id"@, ""@).len() > 0
            ==> ws_rows_of(ws).contains(#[trigger] spec_ws_row(ws[i])[0]),
        forall|k: int| 0 <= k < ws_rows_of(ws).len() ==> exists|i: int| 0 <= i < ws.len()
            && spec_ws_row(ws[i]).len() == 1 && #[trigger] ws_rows_of(ws)[k] == spec_ws_row(ws[i])[0],
    decreases ws.len(),
{
    if ws.len() > 0 {
        let front = ws.drop_last();
        law_every_workspace_listed(front);
        let rows = ws_rows_of(ws);
        let rf = ws_rows_of(front);
        assert(rows == rf + spec_ws_row(ws.last()));
        assert forall|i: int| 0 <= i < ws.len() && field_or(ws[i], "workspace_id"@, ""@).len() > 0
            implies rows.contains(#[trigger] spec_ws_row(ws[i])[0]) by {
            if i < ws.len() - 1 {
                assert(ws[i] == front[i]);
                let k = choose|k: int| 0 <= k < rf.len() && rf[k] == spec_ws_row(front[i])[0];
                assert(rows[k] == rf[k]);
            } else {
                assert(rows[rf.len() as int] == spec_ws_row(ws[i])[0]);
            }
        }
        assert forall|k: int| 0 <= k < rows.len() implies exists|i: int| 0 <= i < ws.len()
            && spec_ws_row(ws[i]).len() == 1 && #[trigger] rows[k] == spec_ws_row(ws[i])[0] by {
            if k < rf.len() {
                assert(rows[k] == rf[k]);
                let i = choose|i: int| 0 <= i < front.len() && spec_ws_row(front[i]).len() == 1 && rf[k]
                    == spec_ws_row(front[i])[0];
                assert(ws[i] == front[i]);
            } else {
                assert(rows[k] == spec_ws_row(ws.last())[0]);
                assert(ws[ws.len() - 1] == ws.last());
            }
        }
    }
}

/// The id of a listed tab.
pub open spec fn tab_id_of(t: JsonValue) -> Seq<char> {
    field_or(t, "tab_id"@, ""@)
}

/// The tabs a pane can be moved to are the other tabs: no pick row leads to
/// (has as its first field) the origin tab, every other listed tab has its
/// row, and there are no more rows than tabs.
pub proof fn law_move_targets_exclude_origin(tabs: Seq<JsonValue>, origin_tab: Seq<char>)
    requires
        forall|i: int| 0 <= i < tabs.len() ==> !tab_id_of(#[trigger] tabs[i]).contains('\t'),
    ensures
        forall|k: int| 0 <= k < tab_rows_of(tabs, origin_tab).len()
            ==> first_field(#[trigger] tab_rows_of(tabs, origin_tab)[k], '\t') != origin_tab,
        forall|i: int| 0 <= i < tabs.len() && tab_id_of(tabs[i]) != origin_tab
            ==> tab_rows_of(tabs, origin_tab).contains(#[trigger] spec_tab_row(tabs[i])),
        tab_rows_of(tabs, origin_tab).len() <= tabs.len(),
    decreases tabs.len(),
{
    reveal_strlit("\t");
    if tabs.len() > 0 {
        let front = tabs.drop_last();
        assert forall|i: int| 0 <= i < front.len() implies !tab_id_of(#[trigger] front[i]).contains('\t') by {
            assert(front[i] == tabs[i]);
        }
        law_move_targets_exclude_origin(front, origin_tab);
        let rows = tab_rows_of(tabs, origin_tab);
        let rf = tab_rows_of(front, origin_tab);
        let t = tabs.last();
        assert(t == tabs[tabs.len() - 1]);
        let id = tab_id_of(t);
        if id != origin_tab {
            let row = spec_tab_row(t);
            assert(rows == rf.push(row));
            // The first field of the new row is its id.
            let n = match int_field(t, "pane_count"@) {
                Some(n) => n as int,
                None => 0,
            };
            let tail = field_or(t, "label"@, id) + "  ("@ + crate::text::signed_decimal(n) + " panes)"@;
            assert(row =~= id + (seq!['\t'] + tail));
            assert forall|j: int| 0 <= j < id.len() implies row[j] != '\t' by {
                assert(row[j] == id[j]);
                assert(!(id[j] == '\t'));
            }
            crate::text::lemma_first_index_of_is(row, '\t', id.len() as int);
            assert(row.take(id.len() as int) =~= id);
            assert forall|k: int| 0 <= k < rows.len() implies first_field(#[trigger] rows[k], '\t') != origin_tab by {
                if k < rf.len() {
                    assert(rows[k] == rf[k]);
                }
            }
            assert forall|i: int| 0 <= i < tabs.len() && tab_id_of(tabs[i]) != origin_tab
                implies rows.contains(#[trigger] spec_tab_row(tabs[i])) by {
                if i < tabs.len() - 1 {
                    assert(tabs[i] == front[i]);
                    let k = choose|k: int| 0 <= k < rf.len() && rf[k] == spec_tab_row(front[i]);
                    assert(rows[k] == rf[k]);
                } else {
                    assert(rows[rf.len() as int] == row);
                }
            }
        } else {
            assert(rows == rf);
            assert forall|i: int| 0 <= i < tabs.len() && tab_id_of(tabs[i]) != origin_tab
                implies rows.contains(#[trigger] spec_tab_row(tabs[i])) by {
                assert(i < tabs.len() - 1);
                assert(tabs[i] == front[i]);
            }
        }
    }
}

} // verus!
