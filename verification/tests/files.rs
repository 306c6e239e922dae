use commander::error::ToolError;
use commander::tool::file_edit::{apply_edits as apply_text_edits, check_edit_target, check_edits_present, FileEditTool, TextEdit};
use commander::tool::workspace::file_text;
use commander::tool::file_list::{
    check_directory, entry_inside, finish_listing, kind_rank, list_entry, sort_entries, EntryKind, FileListEntry,
    FileListTool,
};
use commander::tool::file_read::{check_file, content_cut_allowed, limit_content, select_lines, FileReadTool};
use commander::tool::file_search::{check_search_pattern, finish_search, found_entry, full_pattern, FileSearchMatch};
use commander::tool::file_write::{check_write_path, check_write_target, next_ancestor, write_parent, ExistingTarget, FileWriteTool};
use commander::tool::text_search::{prepare_filter, prepare_query, search_candidate, search_file, TextSearchMatch, TextSearchTool};

fn invalid(e: ToolError) -> String {
    match e {
        ToolError::InvalidArguments(m) => m,
        other => panic!("expected invalid arguments, got {:?}", other),
    }
}

fn failed(e: ToolError) -> String {
    match e {
        ToolError::ExecutionFailed(m) => m,
        other => panic!("expected an execution failure, got {:?}", other),
    }
}

fn edit(old: &str, new: &str) -> TextEdit {
    TextEdit { old_text: old.to_string(), new_text: new.to_string() }
}

#[test]
fn read_selects_line_ranges() {
    let sel = select_lines("a\nb\nc\n", Some(2), None).ok().unwrap();
    assert_eq!((sel.content.as_str(), sel.start_line, sel.end_line, sel.truncated), ("b\nc", 2, 3, false));
    let sel = select_lines("a\r\nb\r\nc", None, Some(2)).ok().unwrap();
    assert_eq!((sel.content.as_str(), sel.start_line, sel.end_line), ("a\nb", 1, 2));
    let sel = select_lines("a\nb", Some(5), None).ok().unwrap();
    assert_eq!((sel.content.as_str(), sel.start_line, sel.end_line), ("", 5, 4));
    let sel = select_lines("a", Some(0), Some(20000)).ok().unwrap();
    assert_eq!((sel.start_line, sel.end_line, sel.truncated), (1, 1, true));
    assert_eq!(
        invalid(select_lines("a\nb", Some(3), Some(2)).err().unwrap()),
        "end_line must be greater than or equal to start_line"
    );
}

#[test]
fn read_content_is_limited_in_bytes() {
    let small = "hello";
    assert!(content_cut_allowed(small));
    assert_eq!(limit_content(small), ("hello".to_string(), false));
    let big = "x".repeat(100_010);
    assert!(content_cut_allowed(&big));
    let (cut, truncated) = limit_content(&big);
    assert!(truncated);
    assert_eq!(cut.len(), 100_000);
    let mid_char = format!("{}é", "x".repeat(99_999));
    assert!(!content_cut_allowed(&mid_char));
    assert!(check_file(true, "a.txt").is_ok());
    assert_eq!(failed(check_file(false, "dir").err().unwrap()), "path is not a file: dir");
    let tool = FileReadTool::new("/w".to_string());
    assert_eq!((tool.name(), tool.workspace_root_path()), ("file_read", "/w"));
}

#[test]
fn edits_apply_in_order_and_each_must_match_once() {
    assert_eq!(apply_text_edits("aaa", &vec![edit("aa", "xa")]).ok().unwrap(), "xaa");
    assert_eq!(
        apply_text_edits("let a = 1; let b = 2;", &vec![edit("a = 1", "a = 10"), edit("b = 2", "b = 20")]).ok().unwrap(),
        "let a = 10; let b = 20;"
    );
    assert_eq!(apply_text_edits("one two", &vec![edit("one", "two"), edit("two two", "2")]).ok().unwrap(), "2");
    assert_eq!(invalid(apply_text_edits("x", &vec![edit("", "y")]).err().unwrap()), "edits[0].old_text must not be empty");
    assert_eq!(
        invalid(apply_text_edits("x", &vec![edit("x", "y"), edit("y", "y")]).err().unwrap()),
        "edits[1].old_text and new_text must be different"
    );
    assert_eq!(failed(apply_text_edits("x", &vec![edit("z", "y")]).err().unwrap()), "edits[0].old_text was not found");
    assert_eq!(
        failed(apply_text_edits("ab ab ab", &vec![edit("ab", "c")]).err().unwrap()),
        "edits[0].old_text matched 3 times; provide more surrounding context"
    );
    assert_eq!(
        failed(apply_text_edits("aaaa", &vec![edit("aa", "b")]).err().unwrap()),
        "edits[0].old_text matched 2 times; provide more surrounding context"
    );
    assert!(check_edits_present(1).is_ok());
    assert_eq!(invalid(check_edits_present(0).err().unwrap()), "edits must not be empty");
    assert_eq!(FileEditTool::new("/w".to_string()).name(), "file_edit");
}

#[test]
fn writes_are_checked() {
    assert_eq!(check_write_path("  notes/a.md ").ok().unwrap(), "notes/a.md");
    assert_eq!(invalid(check_write_path(" ").err().unwrap()), "path must not be empty");
    assert_eq!(invalid(check_write_path("a/../../etc/passwd").err().unwrap()), "path must not contain '..'");
    assert_eq!(write_parent("/w/notes/a.md").ok().unwrap(), "/w/notes");
    assert_eq!(invalid(write_parent("/").err().unwrap()), "path must have a parent directory");
    assert_eq!(next_ancestor("/w/notes").ok().unwrap(), "/w");
    assert_eq!(failed(next_ancestor("/").err().unwrap()), "failed to find existing parent directory");
    assert!(check_write_target(None, "a.md").is_ok());
    assert!(check_write_target(Some(ExistingTarget { is_symlink: false, is_dir: false }), "a.md").is_ok());
    assert_eq!(
        failed(check_write_target(Some(ExistingTarget { is_symlink: true, is_dir: false }), "link").err().unwrap()),
        "refusing to write through symlink: link"
    );
    assert_eq!(
        failed(check_write_target(Some(ExistingTarget { is_symlink: false, is_dir: true }), "dir").err().unwrap()),
        "path is a directory: dir"
    );
    assert_eq!(FileWriteTool::new("/w".to_string()).name(), "file_write");
}

#[test]
fn file_search_patterns_and_results() {
    assert_eq!(check_search_pattern(" **/*.rs ").ok().unwrap(), "**/*.rs");
    assert_eq!(invalid(check_search_pattern("").err().unwrap()), "pattern must not be empty");
    assert_eq!(invalid(check_search_pattern("/etc/*").err().unwrap()), "pattern must be relative to the workspace root");
    assert_eq!(invalid(check_search_pattern("../*").err().unwrap()), "pattern must not contain '..'");
    assert_eq!(full_pattern("/w", "**/*.rs"), "/w/**/*.rs");
    let found = found_entry("/w", "/w/src/lib.rs", true).ok().unwrap().unwrap();
    assert_eq!((found.path.as_str(), found.name.as_str()), ("src/lib.rs", "lib.rs"));
    assert!(found_entry("/w", "/w/src", false).ok().unwrap().is_none());
    assert!(found_entry("/w", "/elsewhere/x.rs", true).ok().unwrap().is_none());
}

#[test]
fn file_search_results_are_sorted_unique_and_capped() {
    let m = |p: &str| FileSearchMatch { path: p.to_string(), name: p.rsplit('/').next().unwrap().to_string() };
    let (sorted, truncated) = finish_search(&vec![m("b.rs"), m("a/c.rs"), m("b.rs"), m("a.rs")]);
    let paths: Vec<&str> = sorted.iter().map(|x| x.path.as_str()).collect();
    assert_eq!(paths, vec!["a.rs", "a/c.rs", "b.rs"]);
    assert!(!truncated);
    let many: Vec<FileSearchMatch> = (0..250).map(|i| m(&format!("f{:03}.rs", i))).collect();
    let (sorted, truncated) = finish_search(&many);
    assert_eq!(sorted.len(), 200);
    assert!(truncated);
    assert_eq!(sorted[0].path, "f000.rs");
    assert_eq!(sorted[199].path, "f199.rs");
}

#[test]
fn listings_put_directories_first_then_names() {
    assert!(matches!(EntryKind::from_metadata(true, false), EntryKind::Directory));
    assert!(matches!(EntryKind::from_metadata(false, true), EntryKind::File));
    assert!(matches!(EntryKind::from_metadata(false, false), EntryKind::Other));
    assert_eq!(EntryKind::Directory.as_str(), "directory");
    assert_eq!((kind_rank("directory"), kind_rank("file"), kind_rank("socket")), (0, 1, 2));
    assert!(entry_inside("/w", "/w/a"));
    assert!(!entry_inside("/w", "/x/a"));
    let e = |name: &str, kind: EntryKind| list_entry("/w", &format!("/w/{}", name), name.to_string(), kind).ok().unwrap();
    let entries: Vec<FileListEntry> =
        vec![e("zeta.txt", EntryKind::File), e("src", EntryKind::Directory), e("sock", EntryKind::Other), e("alpha.txt", EntryKind::File)];
    let sorted = sort_entries(&entries);
    let names: Vec<&str> = sorted.iter().map(|x| x.name.as_str()).collect();
    assert_eq!(names, vec!["src", "alpha.txt", "zeta.txt", "sock"]);
    let (listed, truncated) = finish_listing(&entries);
    assert_eq!(listed.len(), 4);
    assert!(!truncated);
    assert!(check_directory(true, ".").is_ok());
    assert_eq!(failed(check_directory(false, "a.txt").err().unwrap()), "path is not a directory: a.txt");
    assert_eq!(FileListTool::new("/w".to_string()).name(), "file_list");
}

#[test]
fn listings_are_capped() {
    let entries: Vec<FileListEntry> = (0..205)
        .map(|i| FileListEntry { path: format!("f{:03}", i), name: format!("f{:03}", i), kind: EntryKind::File })
        .collect();
    let (listed, truncated) = finish_listing(&entries);
    assert_eq!(listed.len(), 200);
    assert!(truncated);
    assert_eq!(listed[199].name, "f199");
}

#[test]
fn text_search_queries_and_filters() {
    assert!(prepare_query("fn \\w+").is_ok());
    assert_eq!(invalid(prepare_query("  ").err().unwrap()), "query must not be empty");
    assert!(invalid(prepare_query("(unclosed").err().unwrap()).len() > 0);
    assert!(prepare_filter(None).ok().unwrap().is_none());
    assert!(prepare_filter(Some(" ")).ok().unwrap().is_none());
    assert!(prepare_filter(Some("src/**/*.rs")).ok().unwrap().is_some());
    assert_eq!(invalid(prepare_filter(Some("/abs/*.rs")).err().unwrap()), "include must be relative");
    assert_eq!(invalid(prepare_filter(Some("../*.rs")).err().unwrap()), "include must not contain '..'");
    let tool = TextSearchTool::new("/w".to_string());
    assert_eq!(tool.name(), "text_search");
}

#[test]
fn text_search_candidates() {
    let filter = prepare_filter(Some("*.rs")).ok().unwrap();
    assert_eq!(search_candidate("/w", "/w/src/lib.rs", true, &filter, Some(10)).ok().unwrap(), Some("src/lib.rs".to_string()));
    assert_eq!(search_candidate("/w", "/w/README.md", true, &filter, Some(10)).ok().unwrap(), None);
    assert_eq!(search_candidate("/w", "/w/big.rs", true, &filter, Some(2_000_000)).ok().unwrap(), None);
    assert_eq!(search_candidate("/w", "/w/src", false, &None, Some(1)).ok().unwrap(), None);
    assert_eq!(search_candidate("/w", "/other/a.rs", true, &None, Some(1)).ok().unwrap(), None);
}

#[test]
fn text_search_reads_matching_lines() {
    let query = prepare_query("TODO").ok().unwrap();
    let mut matches: Vec<TextSearchMatch> = Vec::new();
    let truncated = search_file(&query, "a.rs", b"// TODO one\nfn x() {}\r\n// TODO two\n".to_vec(), &mut matches);
    assert!(!truncated);
    let found: Vec<(&str, usize, &str)> = matches.iter().map(|m| (m.path.as_str(), m.line, m.text.as_str())).collect();
    assert_eq!(found, vec![("a.rs", 1, "// TODO one"), ("a.rs", 3, "// TODO two")]);
    let truncated = search_file(&query, "bin", vec![b'T', b'O', b'D', b'O', 0], &mut matches);
    assert!(!truncated);
    let truncated = search_file(&query, "bad", vec![0xff, 0xfe, b'T'], &mut matches);
    assert!(!truncated);
    assert_eq!(matches.len(), 2);
}

#[test]
fn text_search_stops_at_the_match_limit() {
    let query = prepare_query("x").ok().unwrap();
    let content = "x\n".repeat(250);
    let mut matches: Vec<TextSearchMatch> = Vec::new();
    let truncated = search_file(&query, "many.txt", content.into_bytes(), &mut matches);
    assert!(truncated);
    assert_eq!(matches.len(), 200);
    assert_eq!(matches[199].line, 200);
}

#[test]
fn files_must_be_utf8_and_edited_directly() {
    assert_eq!(file_text("héllo".as_bytes().to_vec()).ok().unwrap(), "héllo");
    assert_eq!(failed(file_text(vec![0x66, 0xff]).err().unwrap()), "file is not valid UTF-8");
    assert!(check_edit_target(true, false, "a.txt").is_ok());
    assert_eq!(failed(check_edit_target(false, false, "dir").err().unwrap()), "path is not a file: dir");
    assert_eq!(failed(check_edit_target(true, true, "link").err().unwrap()), "refusing to edit symlink: link");
}
