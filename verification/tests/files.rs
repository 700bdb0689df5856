use herdr_telescope::files::{
    next_engine, FileEngine,
    ensure_absolute, file_row, file_rows, files_prompt, new_run, open_pane, open_window, output_paths, parent_of, run,
    FilesAction, FilesEvent,
};

#[test]
fn parent_dir_of_file() {
    assert_eq!(parent_of("/a/b/c.txt"), "/a/b");
    assert_eq!(parent_of("c.txt"), ".");
    assert_eq!(parent_of("/root.txt"), "");
}

#[test]
fn ensure_absolute_prefixes_relative_paths() {
    let mut paths = vec!["a.txt".to_string(), "".to_string(), "/abs/b.rs".to_string(), "sub/c.rs".to_string()];
    ensure_absolute("/repo/", &mut paths);
    assert_eq!(paths, vec!["/repo/a.txt", "/abs/b.rs", "/repo/sub/c.rs"]);
}

#[test]
fn ensure_absolute_under_root() {
    let mut paths = vec!["etc/hosts".to_string()];
    ensure_absolute("/", &mut paths);
    assert_eq!(paths, vec!["/etc/hosts"]);
}

#[test]
fn open_window_argv() {
    assert_eq!(
        open_window("/a/b/c.txt", "/a/b").unwrap(),
        vec!["tab", "create", "--cwd", "/a/b", "--label", "c.txt", "--focus"]
    );
    assert!(open_window("/root.txt", "").is_err());
}

#[test]
fn open_pane_argv_and_window_fallback() {
    assert_eq!(
        open_pane("/a/b/c.txt", "/a/b", "w1:p1").unwrap(),
        vec!["pane", "split", "w1:p1", "--direction", "right", "--cwd", "/a/b", "--focus"]
    );
    assert_eq!(open_pane("/a/b/c.txt", "/a/b", "").unwrap(), open_window("/a/b/c.txt", "/a/b").unwrap());
    assert!(open_pane("/root.txt", "", "w1:p1").is_err());
}

#[test]
fn finder_rows_show_relative_paths() {
    let rows = file_rows("/repo", &vec!["/repo/src/a.rs".to_string(), "/other/b.rs".to_string()]);
    assert_eq!(rows, vec!["/repo/src/a.rs\tsrc/a.rs", "/other/b.rs\tother/b.rs"]);
    assert_eq!(rows[0].split('\t').next().unwrap(), "/repo/src/a.rs");
}

#[test]
fn search_row_is_a_files_row() {
    assert_eq!(
        file_row("/repo", "/repo/src/a.rs"),
        "files\t/repo/src/a.rs\tsrc/a.rs\tsrc/a.rs\t/repo/src/a.rs"
    );
}

#[test]
fn files_prompt_counts() {
    assert_eq!(files_prompt(3), "telescope files ▸  (3 files)");
}

#[test]
fn output_paths_splits_and_caps() {
    assert_eq!(output_paths(b"./a\n./b\n\nc\n", b'\n', true, None), vec!["a", "b", "c"]);
    assert_eq!(output_paths(b"a\0b\0c\0", 0, false, Some(2)), vec!["a", "b"]);
    assert!(output_paths(b"", b'\n', false, None).is_empty());
}

#[test]
fn finder_runs_to_an_open_pane() {
    let mut st = new_run("/repo", "w1:p1", "vi");
    match run(&mut st, FilesEvent::Start) {
        FilesAction::CheckDir(d) => assert_eq!(d, "/repo"),
        a => panic!("got {a:?}"),
    }
    match run(&mut st, FilesEvent::CwdChecked(true)) {
        FilesAction::Collect(d) => assert_eq!(d, "/repo"),
        a => panic!("got {a:?}"),
    }
    match run(&mut st, FilesEvent::Collected(vec!["/repo/src/a.rs".to_string()])) {
        FilesAction::PickFile { rows, prompt } => {
            assert_eq!(rows, vec!["/repo/src/a.rs\tsrc/a.rs"]);
            assert_eq!(prompt, "telescope files ▸  (1 files)");
        }
        a => panic!("got {a:?}"),
    }
    match run(&mut st, FilesEvent::FilePicked(Some("/repo/src/a.rs\tsrc/a.rs".to_string()))) {
        FilesAction::PickTarget { options, prompt } => {
            assert_eq!(options, vec!["pane\tNew pane (split, right)", "window\tNew window (tab)"]);
            assert_eq!(prompt, "open in ▸ ");
        }
        a => panic!("got {a:?}"),
    }
    assert_eq!(st.file, "/repo/src/a.rs");
    assert_eq!(st.parent, "/repo/src");
    match run(&mut st, FilesEvent::TargetPicked(Some("pane\tNew pane (split, right)".to_string()))) {
        FilesAction::Open(v) => {
            assert_eq!(v, vec!["pane", "split", "w1:p1", "--direction", "right", "--cwd", "/repo/src", "--focus"])
        }
        a => panic!("got {a:?}"),
    }
    let reply = br#"{"result":{"pane":{"pane_id":"w1:p7"}}}"#.to_vec();
    match run(&mut st, FilesEvent::Opened(reply)) {
        FilesAction::RunCli(v) => assert_eq!(v, vec!["pane", "run", "w1:p7", "vi /repo/src/a.rs"]),
        a => panic!("got {a:?}"),
    }
    assert!(matches!(run(&mut st, FilesEvent::Opened(b"{}".to_vec())), FilesAction::Done));
}

#[test]
fn editor_command_is_editor_then_path() {
    let mut st = new_run("/repo", "w1:p1", "nano -w");
    let _ = run(&mut st, FilesEvent::FilePicked(Some("/repo/notes.txt".to_string())));
    let reply = br#"{"result":{"pane":{"pane_id":"w1:p2"}}}"#.to_vec();
    match run(&mut st, FilesEvent::Opened(reply)) {
        FilesAction::RunCli(v) => assert_eq!(v[3], "nano -w /repo/notes.txt"),
        a => panic!("got {a:?}"),
    }
}

#[test]
fn finder_opens_a_window_on_request() {
    let mut st = new_run("/repo", "", "vi");
    let _ = run(&mut st, FilesEvent::FilePicked(Some("/repo/x.md\tx.md".to_string())));
    match run(&mut st, FilesEvent::TargetPicked(Some("window\tNew window (tab)".to_string()))) {
        FilesAction::Open(v) => {
            assert_eq!(v, vec!["tab", "create", "--cwd", "/repo", "--label", "x.md", "--focus"])
        }
        a => panic!("got {a:?}"),
    }
}

#[test]
fn finder_refusals_and_cancels() {
    let mut st = new_run("", "", "vi");
    assert!(matches!(run(&mut st, FilesEvent::Start), FilesAction::Die(_)));
    let mut st = new_run("/repo", "w1:p1", "vi");
    assert!(matches!(run(&mut st, FilesEvent::CwdChecked(false)), FilesAction::Die(_)));
    assert!(matches!(
        run(&mut st, FilesEvent::Collected(vec![])),
        FilesAction::Die("telescope: no files found under the origin directory.")
    ));
    assert!(matches!(run(&mut st, FilesEvent::FilePicked(None)), FilesAction::Done));
    assert!(matches!(run(&mut st, FilesEvent::TargetPicked(None)), FilesAction::Done));
    let _ = run(&mut st, FilesEvent::FilePicked(Some("c.txt".to_string())));
    assert_eq!(st.parent, ".");
}

#[test]
fn ensure_absolute_twice_changes_nothing() {
    let mut paths = vec!["a".to_string(), "/b".to_string(), "".to_string()];
    ensure_absolute("/r", &mut paths);
    let once = paths.clone();
    ensure_absolute("/r", &mut paths);
    assert_eq!(paths, once);
}

#[test]
fn listing_tools_fall_back_in_order() {
    let fd = next_engine(None, false, 0).unwrap();
    assert_eq!(fd.engine, FileEngine::Fd);
    assert_eq!(fd.argv, vec!["fd", "--type", "f", "--hidden", "-E", ".git"]);
    assert_eq!((fd.sep, fd.strip_dot, fd.cap), (b'\n', false, None));
    assert!(next_engine(Some(FileEngine::Fd), true, 0).is_none());
    let git = next_engine(Some(FileEngine::Fd), false, 0).unwrap();
    assert_eq!(git.engine, FileEngine::Git);
    assert_eq!(git.argv, vec!["git", "ls-files", "-co", "--exclude-standard", "-z"]);
    assert_eq!((git.sep, git.strip_dot, git.cap), (0, false, None));
    assert!(next_engine(Some(FileEngine::Git), true, 3).is_none());
    let find = next_engine(Some(FileEngine::Git), true, 0).unwrap();
    assert_eq!(find.engine, FileEngine::Find);
    assert_eq!(find.argv, vec!["find", ".", "-type", "f", "-not", "-path", "*/.*", "-maxdepth", "6"]);
    assert_eq!((find.sep, find.strip_dot, find.cap), (b'\n', true, Some(10_000)));
    assert_eq!(next_engine(Some(FileEngine::Git), false, 0).unwrap().engine, FileEngine::Find);
    assert!(next_engine(Some(FileEngine::Find), true, 0).is_none());
    assert!(next_engine(Some(FileEngine::Find), false, 0).is_none());
}
