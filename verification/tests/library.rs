use herdr_telescope::context::{open_popup_args, OriginContext};
use herdr_telescope::palette::{poll_wait, POLL_INTERVAL_MS, POLL_LIMIT, agent_step, kind_list_is_broken, new_agent_start, AgentAction, AgentEvent};
use herdr_telescope::json::{json_from_output, JsonValue};
use herdr_telescope::keys::Keys;
use herdr_telescope::native::{build_display, native_actions, row_display};
use herdr_telescope::palette::{
    agent_kinds, agent_kinds_from_output, agent_name_error, agent_name_ok, agent_rows, agent_split_args, agent_start_args, ask_with_prompt,
    ask_with_prompt_default, build_list, cli_failure, col_width, confirm, dispatch, fzf_binds, invoke_args,
    invoke_error, log_list_args, log_ref, mode_of, new_pane_id, poll_step, preview_command, selected_line,
    selection_fields, split_failure, tab_rows, tsv, Dispatch, Mode, PollStep, FILES_PROMPT,
};
use herdr_telescope::tty::{pick_lines, pick_lines_q, picked};

fn keys() -> Keys {
    Keys::new(vec![("zoom".to_string(), "prefix+z".to_string())], vec![])
}

#[test]
fn json_documents_parse() {
    let v = json_from_output(true, br#"{"a":"x","n":-3,"l":[1,true,null]}"#).expect("json");
    match v {
        JsonValue::Object(entries) => {
            assert_eq!(entries.len(), 3);
            assert!(entries.iter().any(|(k, v)| k == "a" && matches!(v, JsonValue::Str(s) if s == "x")));
            assert!(entries.iter().any(|(k, v)| k == "n" && matches!(v, JsonValue::Number(Some(-3)))));
        }
        _ => panic!("not an object"),
    }
    assert!(json_from_output(true, b"{not json").is_none());
}

#[test]
fn json_from_output_needs_success() {
    assert!(json_from_output(false, b"{}").is_none());
    assert!(json_from_output(true, b"{}").is_some());
}

#[test]
fn capture_reads_herdr_context() {
    let ctx = OriginContext::capture_from_herdr_context(
        r#"{"focused_pane_id":"w1:p1","tab_id":"w1:t1","workspace_id":"w1","workspace_cwd":"/ws"}"#,
        "/fallback",
    );
    assert_eq!(ctx.pane, "w1:p1");
    assert_eq!(ctx.tab, "w1:t1");
    assert_eq!(ctx.workspace, "w1");
    assert_eq!(ctx.cwd, "/ws");
    let ctx = OriginContext::capture_from_herdr_context(
        r#"{"focused_pane_cwd":"/pane","workspace_cwd":"/ws","tab_id":""}"#,
        "/fallback",
    );
    assert_eq!(ctx.cwd, "/pane");
    assert_eq!(ctx.tab, "");
    let ctx = OriginContext::capture_from_herdr_context("", "/fallback");
    assert_eq!(ctx.cwd, "/fallback");
    assert_eq!(ctx.pane, "");
}

#[test]
fn utf8_decoding() {
    assert_eq!(picked(b"abc\n"), Some("abc".to_string()));
    assert_eq!(picked(&[0xff, 0x61]), None);
    assert_eq!(cli_failure(&vec!["x".to_string()], &[0x61, 0xff]), "herdr x failed: a\u{fffd}");
    assert_eq!(split_failure(b"no pane\n"), "telescope: pane split failed before starting the agent.\nno pane\n");
}

#[test]
fn native_row_shows_shortcut_and_keywords() {
    let acts = native_actions();
    let zoom = acts.iter().find(|a| a.id == "zoom_pane").unwrap();
    let (title, shortcut, keywords) = row_display(zoom, &keys());
    assert_eq!(title, "Toggle zoom (fullscreen pane)");
    assert_eq!(shortcut, "ctrl+b z");
    assert_eq!(keywords, "maximize fullscreen big toggle zoom_pane");
    let unbound = acts.iter().find(|a| a.id == "swap_left").unwrap();
    assert_eq!(row_display(unbound, &keys()).1, "");
}

#[test]
fn build_display_pads_titles() {
    assert_eq!(build_display("Ab", "x", "k", 5), "Ab     x  \x1b[2mk\x1b[0m");
    assert_eq!(build_display("Long title", "", "k", 3), "Long title     \x1b[2mk\x1b[0m");
}

#[test]
fn build_list_merges_sources_and_hides_own_actions() {
    let plugins = json_from_output(true, 
        br#"{"result":{"actions":[{"plugin_id":"telescope","action_id":"open","title":"T"},{"plugin_id":"es","action_id":"go","title":"Go"}]}}"#,
    );
    let workspaces = json_from_output(true, br#"{"result":{"workspaces":[{"workspace_id":"w6","label":"capehorn-next"},{"label":"no id"}]}}"#);
    let rows = build_list(&keys(), &plugins, &workspaces, 80);
    let n = native_actions().len();
    assert_eq!(rows.len(), n + 1 + 1 + 2);
    assert!(rows[0].starts_with("native\tnew_tab\t"));
    assert!(rows[n].starts_with("plugin\tes.go\tes.go  Go\t"));
    assert!(rows[n + 1].starts_with("workspace\tw6\t"));
    assert!(rows[n + 2].starts_with("files\t\t"));
    assert!(rows[n + 3].starts_with("search\t\t"));
    assert!(!rows.iter().any(|r| r.contains("telescope.open")));
    let bare = build_list(&keys(), &None, &None, 80);
    assert_eq!(bare.len(), n + 2);
}

#[test]
fn col_width_reads_columns() {
    assert_eq!(col_width(None), 80);
    assert_eq!(col_width(Some(" 120 ")), 120);
    assert_eq!(col_width(Some("0")), 80);
    assert_eq!(col_width(Some("wide")), 80);
}

#[test]
fn selection_reads_kind_and_payload() {
    let row = tsv("native", "zoom_pane", "Toggle", "kw", "hint");
    let (k, p) = selection_fields(&row);
    assert_eq!((k.as_str(), p.as_str()), ("native", "zoom_pane"));
    let (k, p) = selection_fields("plain");
    assert_eq!((k.as_str(), p.as_str()), ("plain", ""));
}

#[test]
fn dispatch_by_kind() {
    assert!(matches!(dispatch("native", "zoom_pane"), Dispatch::Native(p) if p == "zoom_pane"));
    assert!(matches!(dispatch("plugin", "es.go"), Dispatch::Plugin(p) if p == "es.go"));
    assert!(matches!(dispatch("files", ""), Dispatch::FileFinder));
    assert!(matches!(dispatch("files", "/a"), Dispatch::OpenFile(p) if p == "/a"));
    assert!(matches!(dispatch("workspace", "w6"), Dispatch::RunCli(v) if v == vec!["workspace", "focus", "w6"]));
    assert!(matches!(dispatch("workspace", ""), Dispatch::Die(_)));
    assert!(matches!(dispatch("search", ""), Dispatch::Nothing));
}

#[test]
fn modes_follow_prompts() {
    assert!(matches!(mode_of(FILES_PROMPT), Mode::Files));
    assert!(matches!(mode_of("something"), Mode::Actions));
}

#[test]
fn answers() {
    assert!(confirm("y") && confirm("YES") && !confirm("no") && !confirm(""));
    assert_eq!(ask_with_prompt(String::new()), None);
    assert_eq!(ask_with_prompt("x".to_string()), Some("x".to_string()));
    assert_eq!(ask_with_prompt_default(String::new(), "d"), "d");
    assert_eq!(ask_with_prompt_default("a".to_string(), "d"), "a");
}

#[test]
fn agent_helpers() {
    assert!(agent_name_ok("bot") && !agent_name_ok("Bot") && !agent_name_ok(""));
    assert!(agent_name_ok("a-b_9") && !agent_name_ok("a!b") && !agent_name_ok("a b"));
    assert!(agent_name_ok(&"a".repeat(32)) && !agent_name_ok(&"a".repeat(33)));
    assert_eq!(agent_name_error("X"), "telescope: agent names must match [a-z][a-z0-9_-]{0,31} (got 'X').");
    let ctx = OriginContext { pane: "w1:p1".into(), tab: String::new(), workspace: String::new(), cwd: "/r".into() };
    assert_eq!(agent_split_args(&ctx), vec!["pane", "split", "w1:p1", "--direction", "right", "--focus", "--cwd", "/r"]);
    assert_eq!(agent_start_args("bot", "codex", "w1:p2"), vec!["agent", "start", "bot", "--kind", "codex", "--pane", "w1:p2"]);
    assert_eq!(new_pane_id(br#"{"result":{"pane":{"pane_id":"w1:p9"}}}"#), "w1:p9");
    assert_eq!(new_pane_id(b"oops"), "");
    let fallback = agent_kinds(None);
    assert!(!fallback.is_empty());
}

#[test]
fn agent_and_tab_pick_rows() {
    let agents = json_from_output(true, br#"{"result":{"agents":[{"name":"auditor","kind":"codex"}]}}"#).unwrap();
    let rows = agent_rows(&agents);
    assert!(rows.is_some());
    let tabs = json_from_output(true, br#"{"result":{"tabs":[{"tab_id":"w1:t1","label":"a"},{"tab_id":"w1:t2","label":"b"}]}}"#).unwrap();
    let rows = tab_rows(&tabs, "w1:t1");
    assert!(rows.is_some());
}

#[test]
fn plugin_invocation_helpers() {
    assert_eq!(invoke_args("es.go"), vec!["plugin", "action", "invoke", "es.go"]);
    assert_eq!(invoke_error("es.go", b" boom \n"), "telescope: failed to invoke es.go\nboom");
    assert_eq!(log_list_args("es"), vec!["plugin", "log", "list", "--plugin", "es", "--limit", "20"]);
    assert_eq!(log_ref(b"not json"), None);
    assert_eq!(
        log_ref(br#"{"result":{"log":{"log_id":"L1","plugin_id":"es"}}}"#),
        Some(("L1".to_string(), "es".to_string()))
    );
    assert_eq!(log_ref(br#"{"result":{"log":{"log_id":"L1"}}}"#), None);
}

#[test]
fn polling_reads_the_log_entry() {
    let page = json_from_output(true, br#"{"result":{"logs":[{"log_id":"L1","status":"running"},{"log_id":"L2","status":"failed","exit_code":3,"stderr":"bad"}]}}"#);
    assert!(matches!(poll_step(&page, "L1", "es.go"), PollStep::Pending));
    match poll_step(&page, "L2", "es.go") {
        PollStep::Failed(m) => assert_eq!(m, "telescope: es.go failed (exit 3)\nbad"),
        other => panic!("got {other:?}"),
    }
    let done = json_from_output(true, br#"{"result":{"logs":[{"log_id":"L3","status":"succeeded"}]}}"#);
    assert!(matches!(poll_step(&done, "L3", "es.go"), PollStep::Succeeded));
    assert!(matches!(poll_step(&None, "L3", "es.go"), PollStep::Pending));
}

#[test]
fn fzf_wiring() {
    let (change, back) = fzf_binds("tel", "/tmp/a", "/tmp/f");
    assert_eq!(change, "change:transform[tel at-switch /tmp/a /tmp/f]");
    assert_eq!(back, "backward-eof:transform[tel at-back /tmp/a]");
    assert_eq!(preview_command("tel"), "tel preview {}");
    assert_eq!(selected_line("\n\nrow\nother\n"), "row");
    assert_eq!(selected_line("\n  \nrow\n"), "  ");
    assert_eq!(cli_failure(&vec!["pane".to_string(), "close".to_string()], b"no such pane\n"), "herdr pane close failed: no such pane");
}

#[test]
fn pick_plans() {
    assert!(pick_lines(&vec![], "p").is_none());
    let plan = pick_lines(&vec!["a\tA".to_string(), "b\tB".to_string()], "pick ▸ ").unwrap();
    assert_eq!(plan.input, "a\tA\nb\tB\n");
    assert_eq!(plan.args[1], "--with-nth=2");
    assert!(!plan.args.contains(&"--query".to_string()));
    let plan = pick_lines_q(&vec!["plain".to_string()], "p", "x").unwrap();
    assert_eq!(plan.args[1], "--with-nth=1");
    assert!(plan.args.contains(&"--query".to_string()));
    assert_eq!(picked(b"  chosen\n"), Some("chosen".to_string()));
    assert_eq!(picked(b"\n"), None);
}

#[test]
fn popup_args_forward_context_and_cwd() {
    let with_cwd = open_popup_args("{}", "/repo", true);
    assert_eq!(
        with_cwd,
        vec![
            "plugin", "pane", "open", "--plugin", "telescope", "--entrypoint", "palette", "--focus", "--env",
            "TELESCOPE_CTX={}", "--cwd", "/repo"
        ]
    );
    assert_eq!(open_popup_args("{}", "/gone", false).len(), 10);
    assert_eq!(open_popup_args("{}", "", true).len(), 10);
}

#[test]
fn agent_kinds_from_completion() {
    let text = "... --kind[Supported agent kind (alpha beta  gamma)]: ...";
    assert!(!kind_list_is_broken(text));
    assert_eq!(agent_kinds(Some(text)), vec!["alpha", "beta", "gamma"]);
    let empty = "--kind[Supported agent kind ()]";
    assert_eq!(agent_kinds(Some(empty)), agent_kinds(None));
    assert!(kind_list_is_broken("--kind[Supported agent kind ) ("));
    assert!(!kind_list_is_broken("no marker here"));
}

#[test]
fn rows_dispatch_to_their_actions() {
    let plugins = json_from_output(true, br#"{"result":{"actions":[{"plugin_id":"es","action_id":"go","title":"Go"}]}}"#);
    let workspaces = json_from_output(true, br#"{"result":{"workspaces":[{"workspace_id":"w6","label":"capehorn-next"}]}}"#);
    let rows = build_list(&keys(), &plugins, &workspaces, 100);
    let n = native_actions().len();
    for (i, a) in native_actions().iter().enumerate() {
        let (k, p) = selection_fields(&rows[i]);
        assert!(matches!(dispatch(&k, &p), Dispatch::Native(id) if id == a.id), "{}", a.id);
    }
    let (k, p) = selection_fields(&rows[n]);
    assert!(matches!(dispatch(&k, &p), Dispatch::Plugin(q) if q == "es.go"));
    let (k, p) = selection_fields(&rows[n + 1]);
    assert!(matches!(dispatch(&k, &p), Dispatch::RunCli(v) if v == vec!["workspace", "focus", "w6"]));
    let (k, p) = selection_fields(&rows[n + 2]);
    assert!(matches!(dispatch(&k, &p), Dispatch::FileFinder));
    let row = herdr_telescope::files::file_row("/repo", "/repo/src/a.rs");
    let (k, p) = selection_fields(&row);
    assert!(matches!(dispatch(&k, &p), Dispatch::OpenFile(f) if f == "/repo/src/a.rs"));
}

#[test]
fn agent_kinds_from_command_output() {
    assert_eq!(
        agent_kinds_from_output(Some(b"--kind[Supported agent kind (one two)]")),
        Some(vec!["one".to_string(), "two".to_string()])
    );
    assert_eq!(agent_kinds_from_output(None), Some(agent_kinds(None)));
    assert_eq!(agent_kinds_from_output(Some(b"--kind[Supported agent kind ) (")), None);
    assert_eq!(agent_kinds_from_output(Some(&[0xff, 0xfe])), Some(agent_kinds(None)));
}

#[test]
fn main_fzf_arguments() {
    let args = herdr_telescope::palette::main_fzf_args("tel", "/t/a", "/t/f");
    assert_eq!(args[0], "--delimiter=\t");
    assert_eq!(args[1], "--with-nth=3");
    assert_eq!(args[4], "change:transform[tel at-switch /t/a /t/f]");
    assert_eq!(args[6], "backward-eof:transform[tel at-back /t/a]");
    assert_eq!(args[7], "--prompt=herdr telescope ▸ ");
    assert_eq!(args[15], "tel preview {}");
    assert_eq!(args.last().unwrap(), "down,3,wrap,border-top");
    assert_eq!(args.len(), 18);
}

#[test]
fn default_agent_kinds_without_completion() {
    assert_eq!(agent_kinds(None), vec!["codex", "gemini", "cursor", "opencode", "copilot", "amp", "droid"]);
}

#[test]
fn agent_start_runs_split_then_start() {
    let ctx = OriginContext { pane: "w1:p1".into(), tab: String::new(), workspace: String::new(), cwd: "/r".into() };
    let mut st = new_agent_start(&ctx);
    assert!(matches!(agent_step(&mut st, AgentEvent::Start), AgentAction::ListKinds));
    match agent_step(&mut st, AgentEvent::KindsListed(Some(b"--kind[Supported agent kind (one two)]".to_vec()))) {
        AgentAction::PickKind { kinds, prompt } => {
            assert_eq!(kinds, vec!["one", "two"]);
            assert_eq!(prompt, "agent kind ▸ ");
        }
        a => panic!("got {a:?}"),
    }
    assert!(matches!(
        agent_step(&mut st, AgentEvent::KindPicked(Some("two".into()))),
        AgentAction::AskName("Agent name (a-z0-9_-): ")
    ));
    match agent_step(&mut st, AgentEvent::NameTyped("a!b".into())) {
        AgentAction::Die(m) => assert_eq!(m, "telescope: agent names must match [a-z][a-z0-9_-]{0,31} (got 'a!b')."),
        a => panic!("got {a:?}"),
    }
    match agent_step(&mut st, AgentEvent::NameTyped("bot".into())) {
        AgentAction::Split(v) => assert_eq!(v, vec!["pane", "split", "w1:p1", "--direction", "right", "--focus", "--cwd", "/r"]),
        a => panic!("got {a:?}"),
    }
    let ok = AgentEvent::Split { success: true, stdout: br#"{"result":{"pane":{"pane_id":"w1:p9"}}}"#.to_vec(), stderr: vec![] };
    match agent_step(&mut st, ok) {
        AgentAction::RunCli(v) => assert_eq!(v, vec!["agent", "start", "bot", "--kind", "two", "--pane", "w1:p9"]),
        a => panic!("got {a:?}"),
    }
    let no_id = AgentEvent::Split { success: true, stdout: b"{}".to_vec(), stderr: vec![] };
    assert!(matches!(agent_step(&mut st, no_id), AgentAction::Die(m) if m == "telescope: could not read the new pane id from pane split."));
    let failed = AgentEvent::Split { success: false, stdout: vec![], stderr: b"boom".to_vec() };
    assert!(matches!(agent_step(&mut st, failed), AgentAction::Die(m) if m.ends_with("\nboom")));
    assert!(matches!(agent_step(&mut st, AgentEvent::NameTyped(String::new())), AgentAction::Done));
    assert!(matches!(agent_step(&mut st, AgentEvent::KindPicked(None)), AgentAction::Done));
    assert!(matches!(
        agent_step(&mut st, AgentEvent::KindsListed(Some(b"--kind[Supported agent kind ) (".to_vec()))),
        AgentAction::BrokenKindList
    ));
    let mut none = new_agent_start(&OriginContext::default());
    assert!(matches!(agent_step(&mut none, AgentEvent::Start), AgentAction::Die(_)));
}

#[test]
fn plugin_polling_is_bounded() {
    assert_eq!(poll_wait(0), Some(200));
    assert_eq!(poll_wait(24), Some(200));
    assert_eq!(poll_wait(25), None);
    assert_eq!(POLL_LIMIT, 25);
    assert_eq!(POLL_INTERVAL_MS, 200);
}
