use crabclaw::file_ops::{
    access_denied, candidate_path, normalize_path, path_starts_with_exec, resolve_candidate,
};

fn resolve(ws: &str, requested: &str, existing: Option<&str>) -> Option<String> {
    let candidate = candidate_path(ws, requested)?;
    resolve_candidate(ws, &candidate, existing)
}

#[test]
fn normalizes_dots_without_the_disk() {
    assert_eq!(normalize_path("/a/./b/../c"), "/a/c");
    assert_eq!(normalize_path("a//b/"), "a/b");
    assert_eq!(normalize_path("./x"), "x");
    assert_eq!(normalize_path("/.."), "");
    assert_eq!(normalize_path("/"), "/");
    assert_eq!(normalize_path("../../a"), "a");
}

#[test]
fn candidates_join_relative_requests() {
    assert_eq!(candidate_path("/ws", "  sub/f.txt ").as_deref(), Some("/ws/sub/f.txt"));
    assert_eq!(candidate_path("/ws/", "f").as_deref(), Some("/ws/f"));
    assert_eq!(candidate_path("/ws", "/etc/passwd").as_deref(), Some("/etc/passwd"));
    assert_eq!(candidate_path("/ws", "   "), None);
}

#[test]
fn relative_path_inside_workspace_resolves() {
    assert_eq!(resolve("/ws", "test.txt", None).as_deref(), Some("/ws/test.txt"));
    assert_eq!(
        resolve("/ws", "test.txt", Some("/ws/test.txt")).as_deref(),
        Some("/ws/test.txt")
    );
}

#[test]
fn path_traversal_is_rejected() {
    assert_eq!(resolve("/ws", "../../../etc/passwd", None), None);
    assert_eq!(resolve("/ws", "/etc/passwd", None), None);
    assert_eq!(resolve("/ws", "sub/../../x", None), None);
    assert_eq!(resolve("/ws", "link", Some("/elsewhere/target")), None);
}

#[test]
fn absolute_path_inside_workspace_is_allowed() {
    assert_eq!(resolve("/ws", "/ws/inner.txt", None).as_deref(), Some("/ws/inner.txt"));
    assert_eq!(resolve("/ws", "/ws/a/../b", None).as_deref(), Some("/ws/b"));
}

#[test]
fn starts_with_compares_whole_components() {
    assert!(path_starts_with_exec("/ws/a", "/ws"));
    assert!(path_starts_with_exec("/ws", "/ws/"));
    assert!(!path_starts_with_exec("/wsx", "/ws"));
    assert!(!path_starts_with_exec("ws", "/ws"));
}

#[test]
fn access_denied_names_the_path() {
    assert_eq!(access_denied("../x"), "Access denied: path escapes workspace: ../x");
}

use crabclaw::file_ops::{
    dir_entry_row, directory_listing, edit_reply, is_binary_ext, plan_edit, problem_reply,
    read_reply, search_content, search_file_content, search_query_error, search_reply, skips_dir, write_reply,
    PathProblem,
};

#[test]
fn edit_replaces_first_occurrence() {
    let (text, n) = plan_edit("foo bar foo", "foo", "baz", false, "a.txt").unwrap();
    assert_eq!(text, "baz bar foo");
    assert_eq!(n, 1);
}

#[test]
fn edit_replaces_all_occurrences() {
    let (text, n) = plan_edit("foo bar foo", "foo", "baz", true, "a.txt").unwrap();
    assert_eq!(text, "baz bar baz");
    assert_eq!(n, 2);
    let (t2, n2) = plan_edit("aaaa", "aa", "b", true, "x").unwrap();
    assert_eq!(t2, "bb");
    assert_eq!(n2, 2);
}

#[test]
fn edit_old_text_not_found() {
    let err = plan_edit("hello", "nope", "x", false, "a.txt").unwrap_err();
    assert_eq!(err, "Error: old text not found in a.txt");
}

#[test]
fn edit_empty_old_rejected() {
    let err = plan_edit("hello", "", "x", false, "a.txt").unwrap_err();
    assert!(err.contains("cannot be empty"));
}

#[test]
fn edit_delete_and_unicode_text() {
    let (t, _) = plan_edit("keep remove keep", " remove", "", false, "f").unwrap();
    assert_eq!(t, "keep keep");
    let (t2, _) = plan_edit("你好世界", "世界", "朋友", false, "f").unwrap();
    assert_eq!(t2, "你好朋友");
    let (t3, _) = plan_edit("a 🎉 b", "🎉", "🚀", true, "f").unwrap();
    assert_eq!(t3, "a 🚀 b");
    assert_eq!(edit_reply("f.txt", 2), "Updated f.txt: 2 occurrence(s) replaced");
}

#[test]
fn search_rows_and_reply() {
    let mut rows: Vec<String> = Vec::new();
    search_content("foo.rs", "fn hello_world() {}\nfn other() {}\nHELLO again\r\n", "hello", &mut rows, 50);
    assert_eq!(rows, vec!["  foo.rs:1: fn hello_world() {}".to_string(), "  foo.rs:3: HELLO again".to_string()]);
    assert_eq!(
        search_reply("hello", &rows),
        "2 match(es) for \"hello\":\n  foo.rs:1: fn hello_world() {}\n  foo.rs:3: HELLO again"
    );
    assert_eq!(search_reply("nothing", &Vec::new()), "No matches found for: nothing");
    let mut capped: Vec<String> = Vec::new();
    search_content("f", "x\nx\nx\n", "x", &mut capped, 2);
    assert_eq!(capped.len(), 2);
    assert_eq!(search_query_error("  ").as_deref(), Some("Error: query cannot be empty."));
    assert_eq!(search_query_error("q"), None);
}

#[test]
fn search_truncates_long_chinese_line_safely() {
    let line = "中".repeat(100);
    let mut rows: Vec<String> = Vec::new();
    search_content("c.txt", &line, "中", &mut rows, 50);
    assert_eq!(rows.len(), 1);
    let shown = rows[0].strip_prefix("  c.txt:1: ").unwrap();
    assert!(shown.ends_with("..."));
    assert_eq!(shown.trim_end_matches("...").len(), 117);
}

#[test]
fn skipped_files_and_directories() {
    assert!(is_binary_ext("png"));
    assert!(is_binary_ext("wasm"));
    assert!(!is_binary_ext("rs"));
    assert!(skips_dir(".hidden", true));
    assert!(skips_dir("node_modules", true));
    assert!(!skips_dir("node_modules", false));
    assert!(!skips_dir("src", true));
}

#[test]
fn listing_and_replies() {
    assert_eq!(dir_entry_row("src", true, 0), "  src/");
    assert_eq!(dir_entry_row("a.txt", false, 5), "  a.txt  (5 bytes)");
    assert_eq!(directory_listing(Vec::new()), "(empty directory)");
    assert_eq!(
        directory_listing(vec!["  b".to_string(), "  a/".to_string()]),
        "  a/\n  b"
    );
    assert_eq!(problem_reply(PathProblem::FileNotFound, "x"), "File not found: x");
    assert_eq!(problem_reply(PathProblem::NotADirectory, "d"), "Not a directory: d");
    assert_eq!(write_reply("hello", "a.txt"), "Written 5 bytes to a.txt");
    assert_eq!(read_reply("world"), "world");
    let big = "a".repeat(50001);
    let r = read_reply(&big);
    assert!(r.ends_with("[... truncated, showing first 50000 of 50001 bytes]"));
}

const WS: &str = "/tmp/ws";

/// The reply of a file tool for a path that does not resolve inside the workspace.
fn guarded(requested: &str, existing: Option<&str>) -> Result<String, String> {
    match resolve(WS, requested, existing) {
        Some(p) => Ok(p),
        None => Err(access_denied(requested)),
    }
}

#[test]
fn reject_path_traversal() {
    assert!(resolve(WS, "../../../etc/passwd", None).is_none());
}

#[test]
fn reject_absolute_outside_workspace() {
    assert!(resolve(WS, "/etc/passwd", Some("/etc/passwd")).is_none());
}

#[test]
fn read_outside_workspace_blocked() {
    assert!(guarded("../../../etc/passwd", None).unwrap_err().contains("Access denied"));
}

#[test]
fn write_outside_workspace_blocked() {
    assert!(guarded("../escape.txt", None).unwrap_err().contains("Access denied"));
}

#[test]
fn list_outside_workspace_blocked() {
    assert!(guarded("../../", None).unwrap_err().contains("Access denied"));
}

#[test]
fn edit_outside_workspace_blocked() {
    assert!(guarded("../../outside.txt", None).unwrap_err().contains("Access denied"));
}

#[test]
fn empty_path_rejected() {
    assert!(candidate_path(WS, "").is_none());
    assert!(candidate_path(WS, "   ").is_none());
}

#[test]
fn search_empty_query_rejected() {
    let e = crabclaw::file_ops::search_query_error("").unwrap();
    assert!(e.contains("cannot be empty"));
    assert!(crabclaw::file_ops::search_query_error("hi").is_none());
}

#[test]
fn read_nonexistent_file() {
    let reply = problem_reply(PathProblem::FileNotFound, "nope.txt");
    assert!(reply.contains("not found"));
}

#[test]
fn edit_file_not_found() {
    let reply = problem_reply(PathProblem::FileNotFound, "missing.txt");
    assert!(reply.contains("not found"));
}

#[test]
fn list_nonexistent_directory() {
    let reply = problem_reply(PathProblem::DirectoryNotFound, "nope");
    assert!(reply.contains("not found"));
}

#[test]
fn search_file_content_ignores_query_case() {
    let mut rows: Vec<String> = Vec::new();
    search_file_content("notes.md", "Say Hello\nbye\n", "HELLO", &mut rows, 50);
    assert_eq!(rows, vec!["  notes.md:1: Say Hello".to_string()]);
}
