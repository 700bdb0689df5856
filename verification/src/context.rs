//! Origin context: the pane/tab/workspace/cwd the telescope was invoked from.
//!
//! The `open` action captures it from herdr's plugin-context JSON and forwards
//! it to the popup; every scoped dispatch targets these ids instead of the
//! popup itself.
use vstd::prelude::*;

use crate::json::{json_string_field, opt_view, spec_str_of, JsonValue};

verus! {

/// Which pane/tab/workspace/cwd the user invoked the telescope from.
/// An empty field means "unknown".
pub struct OriginContext {
    pub pane: String,
    pub tab: String,
    pub workspace: String,
    pub cwd: String,
}

impl Default for OriginContext {
    fn default() -> (r: Self)
        ensures
            r.pane@.len() == 0,
            r.tab@.len() == 0,
            r.workspace@.len() == 0,
            r.cwd@.len() == 0,
    {
        OriginContext { pane: String::new(), tab: String::new(), workspace: String::new(), cwd: String::new() }
    }
}

/// `x`, or the empty sequence.
pub open spec fn or_empty(x: Option<Seq<char>>) -> Seq<char> {
    match x {
        Some(s) => s,
        None => Seq::empty(),
    }
}

/// The cwd captured from herdr's context: the focused pane's cwd, else the
/// workspace cwd, else `fallback_cwd` (`$HERDR_WORKSPACE_CWD`).
pub open spec fn spec_captured_cwd(v: Option<JsonValue>, fallback_cwd: Seq<char>) -> Seq<char> {
    let from_json = match v {
        Some(j) => match spec_str_of(j, "focused_pane_cwd"@) {
            Some(c) => c,
            None => or_empty(spec_str_of(j, "workspace_cwd"@)),
        },
        None => Seq::empty(),
    };
    if from_json.len() == 0 { fallback_cwd } else { from_json }
}

/// One id captured from herdr's context: the non-empty string under `key`.
pub open spec fn spec_captured_id(v: Option<JsonValue>, key: Seq<char>) -> Seq<char> {
    match v {
        Some(j) => or_empty(spec_str_of(j, key)),
        None => Seq::empty(),
    }
}

impl OriginContext {
    /// Capture the origin context from the text of herdr's injected
    /// plugin-context JSON (empty when it was absent) and the
    /// `$HERDR_WORKSPACE_CWD` fallback.
    pub fn capture_from_herdr_context(plugin_context_json: &str, fallback_cwd: &str) -> (r: Self)
        ensures
            ({
                let v = crate::json::json_parse(vstd::utf8::encode_utf8(plugin_context_json@));
                &&& r.pane@ == spec_captured_id(v, "focused_pane_id"@)
                &&& r.tab@ == spec_captured_id(v, "tab_id"@)
                &&& r.workspace@ == spec_captured_id(v, "workspace_id"@)
                &&& r.cwd@ == spec_captured_cwd(v, fallback_cwd@)
            }),
    {
        let parsed = crate::json::parse_json(plugin_context_json.as_bytes());
        let mut ctx = OriginContext::default();
        if let Some(v) = &parsed {
            ctx.pane = str_or_empty(json_string_field(v, "focused_pane_id"));
            ctx.tab = str_or_empty(json_string_field(v, "tab_id"));
            ctx.workspace = str_or_empty(json_string_field(v, "workspace_id"));
            ctx.cwd = match json_string_field(v, "focused_pane_cwd") {
                Some(c) => c,
                None => str_or_empty(json_string_field(v, "workspace_cwd")),
            };
        }
        if ctx.cwd.as_str().is_empty() {
            ctx.cwd = fallback_cwd.to_owned();
        }
        ctx
    }
}

fn str_or_empty(x: Option<String>) -> (r: String)
    ensures
        r@ == or_empty(opt_view(x)),
{
    match x {
        Some(s) => s,
        None => String::new(),
    }
}

/// The argv of `herdr` that opens the palette popup, handing it the
/// serialised origin context `ctx_blob`; `--cwd` is forwarded only when the
/// origin cwd is known and is a directory.
pub open spec fn spec_open_popup_args(ctx_blob: Seq<char>, cwd: Seq<char>, cwd_is_dir: bool) -> Seq<Seq<char>> {
    seq![
        "plugin"@,
        "pane"@,
        "open"@,
        "--plugin"@,
        "telescope"@,
        "--entrypoint"@,
        "palette"@,
        "--focus"@,
        "--env"@,
        "TELESCOPE_CTX="@ + ctx_blob,
    ] + (if cwd.len() > 0 && cwd_is_dir { seq!["--cwd"@, cwd] } else { Seq::empty() })
}

/// The argv of `herdr` that opens the palette popup for the origin.
pub fn open_popup_args(ctx_blob: &str, cwd: &str, cwd_is_dir: bool) -> (r: Vec<String>)
    ensures
        crate::palette::args_view(r@) == spec_open_popup_args(ctx_blob@, cwd@, cwd_is_dir),
{
    let mut env = "TELESCOPE_CTX=".to_owned();
    env.append(ctx_blob);
    let mut r: Vec<String> = Vec::new();
    r.push("plugin".to_owned());
    r.push("pane".to_owned());
    r.push("open".to_owned());
    r.push("--plugin".to_owned());
    r.push("telescope".to_owned());
    r.push("--entrypoint".to_owned());
    r.push("palette".to_owned());
    r.push("--focus".to_owned());
    r.push("--env".to_owned());
    r.push(env);
    if !cwd.is_empty() && cwd_is_dir {
        r.push("--cwd".to_owned());
        r.push(cwd.to_owned());
    }
    assert(crate::palette::args_view(r@) =~= spec_open_popup_args(ctx_blob@, cwd@, cwd_is_dir));
    r
}

} // verus!
