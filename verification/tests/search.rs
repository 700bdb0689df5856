use herdr_telescope::search::{
    bat_args, bat_painted, gutter_bytes, highlight_line, highlight_visible, hits_message, match_hits, preview_plan, preview_row,
    preview_width, visible_map, PreviewPlan, PreviewTarget, HIT_BG, HIT_END,
};

#[test]
fn highlight_paints_visible_hit_not_gutter() {
    let line = "  10 \x1b[32mfn unique_token_xyz() {}\x1b[0m\n";
    let out = highlight_line(line, &["unique_token_xyz".into()]);
    assert!(
        out.contains(HIT_BG) && out.contains("unique_token_xyz") && out.contains(HIT_END),
        "got {out:?}"
    );
    let vis = visible_map(&out);
    assert!(
        vis.text.contains("  10 fn unique_token_xyz() {}"),
        "gutter/text should stay intact, got {:?}",
        vis.text
    );
    let painted = highlight_visible("     File: src/foo.rs\n", &["File".into()]);
    assert!(!painted.contains(HIT_BG), "header must not be painted, got {painted:?}");
}

#[test]
fn visible_map_skips_escapes() {
    let vis = visible_map("a\x1b[1mb\x1b[0mc");
    assert_eq!(vis.text, "abc");
    assert_eq!(vis.starts, vec![0, 5, 10]);
}

#[test]
fn gutter_is_spaces_digits_space() {
    let g: Vec<char> = "  10 fn x".chars().collect();
    assert_eq!(gutter_bytes(&g), 5);
    let none: Vec<char> = "fn x".chars().collect();
    assert_eq!(gutter_bytes(&none), 0);
    let digits_only: Vec<char> = "  10".chars().collect();
    assert_eq!(gutter_bytes(&digits_only), 0);
}

#[test]
fn gutter_digits_are_never_painted() {
    let out = highlight_line("  10 x10\n", &["10".into()]);
    assert_eq!(out, format!("  10 x{HIT_BG}10{HIT_END}\n"));
}

#[test]
fn no_needles_leave_the_preview_alone() {
    assert_eq!(highlight_visible("  1 abc\n", &[]), "  1 abc\n");
}

#[test]
fn match_hits_reads_line_numbers_and_sorts_texts_longest_first() {
    let (lines, texts) = match_hits(b"3:ab\n7:abcd\n7:x\n");
    assert_eq!(lines, vec![3, 7]);
    assert_eq!(texts, vec!["abcd", "ab", "x"]);
}

#[test]
fn marks_cover_hits_only() {
    let text: Vec<char> = "  7 ab xab".chars().collect();
    let needles = vec!["ab".chars().collect::<Vec<char>>()];
    let m = herdr_telescope::search::marks_for(&text, &needles);
    let want: Vec<bool> = (0..text.len()).map(|i| i == 4 || i == 5 || i == 8 || i == 9).collect();
    assert_eq!(m, want);
    let gutter_hit: Vec<char> = "  7 x7".chars().collect();
    let m = herdr_telescope::search::marks_for(&gutter_hit, &vec!["7".chars().collect()]);
    assert_eq!(m, vec![false, false, false, false, false, true]);
}

#[test]
fn empty_query_lists_nothing() {
    assert!(herdr_telescope::search::search_query("/tmp", "").is_none());
    assert!(herdr_telescope::search::search_query("", "foo").is_none());
}

#[test]
fn match_hits_from_rg_report() {
    let (hits, texts) = match_hits(b"1:unique_token_xyz\n3:unique_token_xyz\n");
    assert_eq!(hits, vec![1, 3]);
    assert_eq!(texts, vec!["unique_token_xyz".to_string()]);
}

#[test]
fn rows_from_rg_file_list() {
    let rows = herdr_telescope::search::search_rows("/d", true, b"hit.rs\nsub/nested.rs\n");
    assert_eq!(
        rows,
        vec![
            "files\t/d/hit.rs\thit.rs\thit.rs\t/d/hit.rs",
            "files\t/d/sub/nested.rs\tsub/nested.rs\tsub/nested.rs\t/d/sub/nested.rs"
        ]
    );
    assert!(herdr_telescope::search::search_rows("/d", false, b"").is_empty());
    assert_eq!(herdr_telescope::search::search_query("/d", "  x ").as_deref(), Some("x"));
}

#[test]
fn preview_plans() {
    assert!(matches!(preview_plan("", "x"), PreviewPlan::Nothing));
    assert!(matches!(preview_plan("/a", "  "), PreviewPlan::Message("type a pattern after /")));
    assert!(matches!(preview_plan("/a", " q "), PreviewPlan::Search(q) if q == "q"));
    assert!(matches!(preview_row("files\t/a\tA\tk\thint", "herdr search ▸ "), PreviewTarget::File(f) if f == "/a"));
    assert!(matches!(preview_row("files\t/a\tA\tk\thint", "x"), PreviewTarget::Hint(h) if h == "hint"));
    assert!(matches!(preview_row("short", "x"), PreviewTarget::Nothing));
    assert_eq!(hits_message(false, 0), Some("rg not found"));
    assert_eq!(hits_message(true, 0), Some("no matches"));
    assert_eq!(hits_message(true, 2), None);
    assert_eq!(preview_width(Some("120")), 120);
    assert_eq!(preview_width(Some("0")), 80);
    assert_eq!(preview_width(None), 80);
    assert_eq!(
        bat_args(90, &vec![3, 10], "/f"),
        vec![
            "--paging=never", "--color=always", "--decorations=always", "--style=numbers,header", "--theme=ansi",
            "--wrap=never", "--terminal-width", "90", "--line-range", "3::2", "--line-range", "10::2", "--", "/f"
        ]
    );
}

#[test]
fn bat_output_is_painted() {
    let out = bat_painted(b"  3 let needle = 1;\n", &["needle".into()]);
    assert_eq!(out, format!("  3 let {HIT_BG}needle{HIT_END} = 1;\n"));
    assert_eq!(bat_painted(&[0x61, 0xff], &[]), "a\u{fffd}");
}

#[test]
fn lines_without_hits_come_back_unchanged() {
    let line = "  4 \x1b[32mlet x = 1;\x1b[0m\n";
    assert_eq!(highlight_line(line, &["needle".into()]), line);
    assert_eq!(highlight_line("     File: src/needle.rs\n", &["needle".into()]), "     File: src/needle.rs\n");
    assert_eq!(highlight_line("  12 x\n", &["12".into()]), "  12 x\n");
}
