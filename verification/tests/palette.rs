use herdr_telescope::context::OriginContext;
use herdr_telescope::native::native_actions;
use herdr_telescope::palette::{
    at_back, at_switch, line_prompt, native_args, workspace_row, NativeErr, NativeInput, ACTIONS_PROMPT, FILES_PROMPT,
    SEARCH_PREVIEW_WIN, SEARCH_PROMPT, STRIP_AT, STRIP_SLASH,
};

fn origin() -> OriginContext {
    OriginContext {
        pane: "w1:p1".into(),
        tab: "w1:t1".into(),
        workspace: "w1".into(),
        cwd: "/repo".into(),
    }
}

fn typed(line: &str) -> NativeInput {
    NativeInput {
        line: Some(line.into()),
        ..NativeInput::default()
    }
}

fn argv(id: &str, input: NativeInput) -> Vec<String> {
    native_args(id, &origin(), &input).expect(id)
}

#[test]
fn at_switch_enters_files_on_at() {
    let out = at_switch("/tmp/a", "/tmp/f", "@", ACTIONS_PROMPT, "tel");
    assert!(out.contains("reload-sync[cat -- /tmp/f]"), "should reload files, got {out:?}");
    assert!(out.contains(&format!("change-prompt[{FILES_PROMPT}]")));
    assert!(out.contains(STRIP_AT));
}

#[test]
fn at_switch_paste_at_c_strips_prefix() {
    let out = at_switch("/tmp/a", "/tmp/f", "@C", ACTIONS_PROMPT, "tel");
    assert!(out.contains("reload-sync[cat -- /tmp/f]"));
    assert!(out.contains(STRIP_AT));
}

#[test]
fn at_switch_does_not_bounce_while_filtering_files() {
    assert_eq!(at_switch("/tmp/a", "/tmp/f", "C", FILES_PROMPT, "tel"), "");
    assert_eq!(at_switch("/tmp/a", "/tmp/f", "@C", FILES_PROMPT, "tel"), format!("{STRIP_AT}\n"));
}

#[test]
fn at_switch_enters_search_on_slash() {
    let out = at_switch("/tmp/a", "/tmp/f", "/", ACTIONS_PROMPT, "tel");
    assert!(out.contains("disable-search"), "got {out:?}");
    assert!(out.contains("reload-sync[tel rg-files]"), "got {out:?}");
    assert!(out.contains(&format!("change-prompt[{SEARCH_PROMPT}]")));
    assert!(!out.contains("change-preview["), "preview stays on --preview {{}}, got {out:?}");
    assert!(out.contains(&format!("change-preview-window[{SEARCH_PREVIEW_WIN}]")));
    assert!(out.contains(STRIP_SLASH));
}

#[test]
fn at_switch_reloads_rg_while_typing_in_search() {
    let out = at_switch("/tmp/a", "/tmp/f", "foo", SEARCH_PROMPT, "tel");
    assert_eq!(out, "reload-sync[tel rg-files]\n");
}

#[test]
fn at_back_returns_to_actions_from_files_or_search() {
    for prompt in [FILES_PROMPT, SEARCH_PROMPT] {
        let out = at_back("/tmp/a", prompt);
        assert!(out.contains("reload-sync[cat -- /tmp/a]"), "should reload actions, got {out:?}");
        assert!(out.contains("enable-search"));
        assert!(out.contains(&format!("change-prompt[{ACTIONS_PROMPT}]")));
    }
}

#[test]
fn at_switch_noop_while_still_in_actions() {
    assert_eq!(at_switch("/tmp/a", "/tmp/f", "clo", ACTIONS_PROMPT, "tel"), "");
    assert_eq!(at_switch("/tmp/a", "/tmp/f", "", ACTIONS_PROMPT, "tel"), "");
    assert_eq!(at_back("/tmp/a", ACTIONS_PROMPT), "");
}

#[test]
fn workspace_row_is_searchable_by_name() {
    let row = workspace_row("w6", "capehorn-next");
    let fields: Vec<&str> = row.split('\t').collect();
    assert_eq!(fields[0], "workspace");
    assert_eq!(fields[1], "w6");
    assert!(fields[2].contains("workspace:"));
    assert!(fields[2].contains("capehorn-next"));
    assert!(fields[3].contains("capehorn-next"));
    assert!(fields[3].contains("workspace"));
    assert_eq!(fields[4], "herdr workspace focus w6");
}

#[test]
fn every_native_action_is_planned() {
    let ids: Vec<&str> = native_actions().iter().map(|a| a.id).collect();
    for id in &ids {
        let mut input = NativeInput {
            line: Some("notes".into()),
            extra: Some("main".into()),
            pick: Some("w1:t2".into()),
            confirm: true,
        };
        if *id == "interrupt_agent" || *id == "rename_agent" || *id == "prompt_agent" {
            input.pick = Some("auditor".into());
        }
        let got = native_args(id, &origin(), &input);
        if *id == "start_agent" {
            assert_eq!(got, Err(NativeErr::MultiStep), "{id}");
        } else {
            assert!(got.is_ok(), "{id} should plan argv, got {got:?}");
        }
    }
    assert_eq!(native_args("not_an_action", &origin(), &typed("x")), Err(NativeErr::Unknown));
}

#[test]
fn prompt_actions_submit_the_typed_line_on_enter() {
    let cases = [
        (
            "new_tab_named",
            &["tab", "create", "--focus", "--workspace", "w1", "--cwd", "/repo", "--label", "notes"][..],
        ),
        ("rename_tab", &["tab", "rename", "w1:t1", "notes"][..]),
        ("rename_pane", &["pane", "rename", "w1:p1", "notes"][..]),
        (
            "new_workspace_here",
            &["workspace", "create", "--focus", "--cwd", "/repo", "--label", "notes"][..],
        ),
        ("rename_workspace", &["workspace", "rename", "w1", "notes"][..]),
        (
            "new_worktree_branch",
            &["worktree", "create", "--workspace", "w1", "--branch", "notes", "--focus"][..],
        ),
    ];
    for (id, want) in cases {
        assert_eq!(argv(id, typed("notes")), want, "{id}");
        assert_eq!(native_args(id, &origin(), &typed("")), Err(NativeErr::Cancel), "{id} empty line cancels");
        assert_eq!(line_prompt(id).is_some(), true, "{id} must prompt");
    }
    let agent = NativeInput {
        line: Some("hello".into()),
        pick: Some("auditor".into()),
        ..NativeInput::default()
    };
    assert_eq!(argv("prompt_agent", agent.clone()), ["agent", "prompt", "auditor", "hello"]);
    assert_eq!(
        argv(
            "rename_agent",
            NativeInput {
                line: Some("bot".into()),
                pick: Some("auditor".into()),
                ..NativeInput::default()
            }
        ),
        ["agent", "rename", "auditor", "bot"]
    );
}

#[test]
fn fire_and_forget_native_args() {
    assert_eq!(
        argv("new_tab", NativeInput::default()),
        ["tab", "create", "--focus", "--workspace", "w1", "--cwd", "/repo"]
    );
    assert_eq!(argv("close_tab", NativeInput::default()), ["tab", "close", "w1:t1"]);
    assert_eq!(
        argv("split_vertical", NativeInput::default()),
        ["pane", "split", "w1:p1", "--direction", "right", "--focus", "--cwd", "/repo"]
    );
    assert_eq!(
        argv("split_horizontal", NativeInput::default()),
        ["pane", "split", "w1:p1", "--direction", "down", "--focus", "--cwd", "/repo"]
    );
    assert_eq!(argv("close_pane", NativeInput::default()), ["pane", "close", "w1:p1"]);
    assert_eq!(argv("zoom_pane", NativeInput::default()), ["pane", "zoom", "w1:p1", "--toggle"]);
    for (id, dir) in [("focus_left", "left"), ("focus_right", "right"), ("focus_up", "up"), ("focus_down", "down")] {
        assert_eq!(argv(id, NativeInput::default()), ["pane", "focus", "--direction", dir, "--pane", "w1:p1"]);
    }
    for (id, dir) in [("resize_left", "left"), ("resize_right", "right"), ("resize_up", "up"), ("resize_down", "down")] {
        assert_eq!(argv(id, NativeInput::default()), ["pane", "resize", "--direction", dir, "--pane", "w1:p1"]);
    }
    for (id, dir) in [("swap_left", "left"), ("swap_right", "right"), ("swap_up", "up"), ("swap_down", "down")] {
        assert_eq!(argv(id, NativeInput::default()), ["pane", "swap", "--direction", dir, "--pane", "w1:p1"]);
    }
    assert_eq!(
        argv(
            "move_pane_tab",
            NativeInput {
                pick: Some("w1:t2".into()),
                ..NativeInput::default()
            }
        ),
        ["pane", "move", "w1:p1", "--tab", "w1:t2", "--focus"]
    );
    assert_eq!(argv("move_pane_new_tab", NativeInput::default()), ["pane", "move", "w1:p1", "--new-tab", "--focus"]);
    assert_eq!(
        argv("move_pane_new_workspace", NativeInput::default()),
        ["pane", "move", "w1:p1", "--new-workspace", "--focus"]
    );
    assert_eq!(
        argv(
            "interrupt_agent",
            NativeInput {
                pick: Some("auditor".into()),
                ..NativeInput::default()
            }
        ),
        ["agent", "send-keys", "auditor", "esc"]
    );
    assert_eq!(argv("new_workspace", NativeInput::default()), ["workspace", "create", "--focus"]);
    assert_eq!(argv("close_workspace", NativeInput::default()), ["workspace", "close", "w1"]);
    assert_eq!(argv("new_worktree", NativeInput::default()), ["worktree", "create", "--workspace", "w1", "--focus"]);
    assert_eq!(
        native_args(
            "remove_worktree",
            &origin(),
            &NativeInput {
                confirm: false,
                ..NativeInput::default()
            }
        ),
        Err(NativeErr::Cancel)
    );
    assert_eq!(
        argv(
            "remove_worktree",
            NativeInput {
                confirm: true,
                ..NativeInput::default()
            }
        ),
        ["worktree", "remove", "--workspace", "w1"]
    );
    assert_eq!(argv("reload_config", NativeInput::default()), ["server", "reload-config"]);
    let with_base = NativeInput {
        line: Some("feat".into()),
        extra: Some("main".into()),
        ..NativeInput::default()
    };
    assert_eq!(
        argv("new_worktree_branch", with_base),
        ["worktree", "create", "--workspace", "w1", "--branch", "feat", "--focus", "--base", "main"]
    );
}

#[test]
fn missing_origin_refuses_scoped_actions() {
    let empty = OriginContext::default();
    let input = NativeInput::default();
    for id in [
        "close_tab",
        "rename_tab",
        "split_vertical",
        "close_pane",
        "zoom_pane",
        "rename_pane",
        "focus_left",
        "resize_left",
        "swap_left",
        "move_pane_tab",
        "move_pane_new_tab",
        "move_pane_new_workspace",
        "new_workspace_here",
        "close_workspace",
        "rename_workspace",
        "new_worktree",
        "new_worktree_branch",
        "remove_worktree",
    ] {
        let mut i = input.clone();
        i.line = Some("x".into());
        i.pick = Some("w1:t2".into());
        i.confirm = true;
        assert!(matches!(native_args(id, &empty, &i), Err(NativeErr::MissingOrigin(_))), "{id}");
    }
}
