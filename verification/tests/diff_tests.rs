//! The filtered history of a repository.

use git_repos_analysis::diff::{
    commit_date, dated_diff_lines, detect_authors, filter_out_large_change_files, get_diff_lines,
    is_commit_valid, prepare_diff_options, process_commit, process_commits, process_repo,
    repo_name, write_header, CommitInfo, CommitRecord, DiffError, StatsInfo, StatsText,
};
use git_repos_analysis::diff_line::PatchLine;

fn commit(author: &str, message: &str, parent_count: usize) -> CommitInfo {
    CommitInfo {
        parent_count,
        author: Some(author.to_string()),
        seconds: 1431648000,
        message: Some(message.to_string()),
    }
}

fn line(origin: char, content: &str, path: Option<&str>) -> PatchLine {
    PatchLine {
        origin,
        content: content.as_bytes().to_vec(),
        path: path.map(|p| p.to_string()),
    }
}

fn record(author: &str, message: &str, parent_count: usize, file: &str, content: &str) -> CommitRecord {
    CommitRecord {
        info: commit(author, message, parent_count),
        patch: Ok(vec![
            line('F', &format!("diff --git a/{file} b/{file}\n"), Some(file)),
            line('+', &format!("{content}\n"), Some(file)),
        ]),
    }
}

fn stats(insertions: usize, deletions: usize, text: &str) -> StatsInfo {
    StatsInfo { insertions, deletions, text: StatsText::Text(text.to_string()) }
}

#[test]
fn happy_path_existing_dir_returns_base_name() {
    let result = repo_name(Some("my-project")).unwrap();
    assert_eq!(result, "my-project");
}

#[test]
fn trailing_slash_returns_correct_base_name() {
    let path = std::path::Path::new("/tmp/my-project/");
    let result = repo_name(path.file_name().and_then(|n| n.to_str())).unwrap();
    assert_eq!(result, "my-project");
}

#[test]
fn nonexistent_path_returns_err() {
    let result = repo_name(None);
    assert!(result.is_err());
}

#[test]
fn override_single_author() {
    let result = detect_authors(Some("Alice"), Some("Test User".to_string()), None);
    assert_eq!(result, vec!["Alice"]);
}

#[test]
fn override_multiple_authors_trimmed() {
    let result = detect_authors(Some("Alice, Bob,Charlie"), Some("Test User".to_string()), None);
    assert_eq!(result, vec!["Alice", "Bob", "Charlie"]);
}

#[test]
fn override_single_with_spaces_trimmed() {
    let result = detect_authors(Some("  Alice  "), Some("Test User".to_string()), None);
    assert_eq!(result, vec!["Alice"]);
}

#[test]
fn override_empty_string_yields_one_empty_entry() {
    let result = detect_authors(Some(""), Some("Test User".to_string()), None);
    assert_eq!(result, vec![""]);
}

#[test]
fn no_override_uses_git_config_user_name() {
    let result = detect_authors(None, Some("Test User".to_string()), None);
    assert_eq!(result, vec!["Test User"]);
}

#[test]
fn no_override_no_config_returns_empty() {
    let result = detect_authors(None, None, None);
    assert!(result.is_empty());
}

#[test]
fn no_override_falls_back_to_the_global_name() {
    assert_eq!(detect_authors(None, None, Some("Global".to_string())), vec!["Global"]);
    assert_eq!(
        detect_authors(None, Some("Local".to_string()), Some("Global".to_string())),
        vec!["Local"]
    );
}

#[test]
fn writes_expected_format() {
    let mut w = String::new();
    write_header(&mut w, "my-repo");
    assert_eq!(w.as_str(), "project name: my-repo\n\n");
}

#[test]
fn repo_name_with_special_characters_written_verbatim() {
    let mut w = String::new();
    write_header(&mut w, "my repo/sub-dir");
    assert_eq!(w.as_str(), "project name: my repo/sub-dir\n\n");
}

#[test]
fn is_commit_valid_single_parent_matching_author_true() {
    assert!(is_commit_valid(&commit("Alice", "second", 1), &vec!["Alice".to_string()]));
}

#[test]
fn is_commit_valid_author_not_in_list_false() {
    assert!(!is_commit_valid(&commit("Alice", "first", 0), &vec!["Bob".to_string()]));
}

#[test]
fn is_commit_valid_empty_authors_false() {
    assert!(!is_commit_valid(&commit("Alice", "first", 0), &vec![]));
}

#[test]
fn is_commit_valid_merge_commit_false() {
    assert!(!is_commit_valid(
        &commit("Merger", "Merge commit", 2),
        &vec!["Alice".to_string(), "Merger".to_string()]
    ));
}

#[test]
fn is_commit_valid_root_commit_with_matching_author_true() {
    assert!(is_commit_valid(&commit("Alice", "root", 0), &vec!["Alice".to_string()]));
}

#[test]
fn is_commit_valid_author_with_extra_space_in_list_false() {
    assert!(!is_commit_valid(&commit("Alice", "first", 0), &vec![" Alice".to_string()]));
}

#[test]
fn is_commit_valid_author_that_is_no_text_false() {
    let mut unnamed = commit("Alice", "first", 0);
    unnamed.author = None;
    assert!(!is_commit_valid(&unnamed, &vec!["Alice".to_string()]));
}

#[test]
fn process_commits_single_matching_commit_produces_output_and_returns_true() {
    let records = vec![record("Alice", "add file", 0, "hello.rs", "fn main() {}")];
    let mut w = String::new();
    let found = process_commits(&mut w, &records, &vec!["Alice".to_string()]).unwrap();
    assert!(found);
    assert!(w.as_str().contains("commit message: add file"));
}

#[test]
fn process_commits_filters_to_matching_author_only() {
    let records = vec![
        record("Alice", "alice commit", 0, "alice.txt", "alice"),
        record("Bob", "bob commit", 1, "bob.txt", "bob"),
    ];
    let mut w = String::new();
    process_commits(&mut w, &records, &vec!["Alice".to_string()]).unwrap();
    let out = w.as_str();
    assert!(out.contains("alice commit"));
    assert!(!out.contains("bob commit"));
}

#[test]
fn process_commits_no_matching_commits_returns_false() {
    let records = vec![record("Alice", "alice commit", 0, "a.txt", "a")];
    let mut w = String::new();
    let found = process_commits(&mut w, &records, &vec!["Bob".to_string()]).unwrap();
    assert!(!found);
    assert_eq!(w, "");
}

#[test]
fn process_commits_merge_commits_skipped_even_if_authored_by_target() {
    let records = vec![
        record("Alice", "first", 0, "a.txt", "a"),
        record("Alice", "second", 1, "b.txt", "b"),
        record("Merger", "Merge commit", 2, "c.txt", "c"),
    ];
    let mut w = String::new();
    let found = process_commits(&mut w, &records, &vec!["Merger".to_string()]).unwrap();
    assert!(!found);
}

#[test]
fn process_repo_no_save_path_writes_to_writer() {
    let records = vec![record("Alice", "initial", 0, "x.txt", "x")];
    let mut w = String::new();
    let result = process_repo(&records, "test-repo", &mut w, &vec!["Alice".to_string()], false);
    assert!(result.is_ok());
    assert!(w.as_str().contains("project name: test-repo"));
}

#[test]
fn process_repo_no_commits_no_save_path_returns_ok() {
    let records = vec![record("Alice", "initial", 0, "x.txt", "x")];
    let mut w = String::new();
    let result = process_repo(&records, "test-repo", &mut w, &vec!["Nobody".to_string()], false);
    assert!(result.is_ok());
    assert!(!result.unwrap().remove_saved_file);
}

#[test]
fn process_repo_with_save_path_commits_found_file_not_deleted() {
    let records = vec![record("Alice", "initial", 0, "x.txt", "x")];
    let mut w = String::new();
    let outcome =
        process_repo(&records, "test-repo", &mut w, &vec!["Alice".to_string()], true).unwrap();
    assert!(outcome.found);
    assert!(!outcome.remove_saved_file);
}

#[test]
fn process_repo_no_commits_found_with_save_path_file_deleted() {
    let records = vec![record("Alice", "initial", 0, "x.txt", "x")];
    let mut w = String::new();
    let outcome =
        process_repo(&records, "test-repo", &mut w, &vec!["Nobody".to_string()], true).unwrap();
    assert!(!outcome.found);
    assert!(outcome.remove_saved_file);
}

#[test]
fn process_repo_writes_header_and_shown_commits_in_order() {
    let records = vec![
        record("Alice", "first", 0, "a.txt", "one"),
        record("Bob", "second", 1, "b.txt", "two"),
        record("Alice", "third", 1, "c.txt", "three"),
    ];
    let mut w = String::new();
    process_repo(&records, "demo", &mut w, &vec!["Alice".to_string()], true).unwrap();
    assert_eq!(
        w,
        "project name: demo\n\n\
         commit date: 2015-05-15 00:00:00 UTC\ncommit message: first\n\
         diff --git a/a.txt b/a.txt\n+one\n\
         commit date: 2015-05-15 00:00:00 UTC\ncommit message: third\n\
         diff --git a/c.txt b/c.txt\n+three\n"
    );
}

#[test]
fn process_commits_stops_at_the_first_failure() {
    let mut failed = record("Alice", "second", 1, "b.txt", "two");
    failed.patch = Err(DiffError::Repository("object not found".to_string()));
    let records = vec![
        record("Alice", "first", 0, "a.txt", "one"),
        failed,
        record("Alice", "third", 1, "c.txt", "three"),
    ];
    let mut w = String::new();
    let result = process_commits(&mut w, &records, &vec!["Alice".to_string()]);
    assert!(matches!(result, Err(DiffError::Repository(m)) if m == "object not found"));
    assert!(w.contains("commit message: first"));
    assert!(!w.contains("commit message: third"));
}

#[test]
fn a_hidden_commit_that_cannot_be_read_does_no_harm() {
    let mut failed = record("Bob", "second", 1, "b.txt", "two");
    failed.patch = Err(DiffError::Repository("object not found".to_string()));
    let records = vec![failed, record("Alice", "third", 1, "c.txt", "three")];
    let mut w = String::new();
    assert!(process_commits(&mut w, &records, &vec!["Alice".to_string()]).unwrap());
}

#[test]
fn process_commit_says_whether_the_commit_is_shown() {
    let one = record("Alice", "first", 0, "a.txt", "one");
    let mut w = String::new();
    assert!(!process_commit(&one, &mut w, &vec!["Bob".to_string()]).unwrap());
    assert_eq!(w, "");
    assert!(process_commit(&one, &mut w, &vec!["Alice".to_string()]).unwrap());
    assert!(w.ends_with("+one\n"));
}

#[test]
fn dates_are_written_in_utc() {
    assert_eq!(commit_date(0), Some("1970-01-01 00:00:00 UTC".to_string()));
    assert_eq!(commit_date(1431648000), Some("2015-05-15 00:00:00 UTC".to_string()));
    assert_eq!(commit_date(-1), Some("1969-12-31 23:59:59 UTC".to_string()));
    assert_eq!(commit_date(i64::MAX), None);
}

#[test]
fn a_time_that_is_no_date_is_an_error() {
    let mut late = commit("Alice", "late", 0);
    late.seconds = i64::MAX;
    let result = get_diff_lines(&late, &vec![]);
    assert!(matches!(result, Err(DiffError::InvalidTimestamp)));
}

#[test]
fn a_missing_message_is_empty() {
    let mut silent = commit("Alice", "", 0);
    silent.message = None;
    let shown = dated_diff_lines("today", &silent, &vec![]);
    assert_eq!(shown, vec!["commit date: today\n", "commit message: \n"]);
}

#[test]
fn lines_without_a_path_belong_to_the_file_before() {
    let patch = vec![
        line('H', "\"source\": [\n", Some("nb.ipynb")),
        line('+', "\"x = 1\\n\"\n", None),
        line('+', "]\n", None),
        line('+', "let y = 2;\n", Some("a.rs")),
        line('-', "let z = 3;\n", None),
    ];
    let shown = get_diff_lines(&commit("Alice", "work", 1), &patch).unwrap();
    assert_eq!(
        shown,
        vec![
            "commit date: 2015-05-15 00:00:00 UTC\n",
            "commit message: work\n",
            "+x = 1\n",
            "+let y = 2;\n",
            "-let z = 3;\n",
        ]
    );
}

#[test]
fn small_files_are_listed_and_lock_files_are_not() {
    let text = " src/main.rs | 12 ++--\n yarn.lock | 3 +\n big.sql | 1000 +++\n a b.txt | 1 +\r\n";
    let files = filter_out_large_change_files(&stats(1000, 1000, text)).unwrap();
    assert_eq!(files, vec!["src/main.rs", "a b.txt"]);
}

#[test]
fn a_diff_beyond_the_limit_lists_no_file() {
    let text = " src/main.rs | 12 ++--\n";
    assert!(filter_out_large_change_files(&stats(1001, 1000, text)).unwrap().is_empty());
    assert!(filter_out_large_change_files(&stats(usize::MAX, usize::MAX, text)).unwrap().is_empty());
}

#[test]
fn statistics_that_cannot_be_read_are_an_error() {
    let broken = StatsInfo { insertions: 1, deletions: 1, text: StatsText::NotText };
    assert!(matches!(
        filter_out_large_change_files(&broken),
        Err(DiffError::InvalidStatsBuffer)
    ));
    let absent = StatsInfo {
        insertions: 1,
        deletions: 1,
        text: StatsText::Unavailable("no buffer".to_string()),
    };
    let result = prepare_diff_options(&absent);
    assert!(matches!(result, Err(DiffError::Repository(m)) if m == "no buffer"));
    let large = StatsInfo { insertions: 2001, deletions: 0, text: StatsText::NotText };
    assert!(filter_out_large_change_files(&large).unwrap().is_empty());
}

#[test]
fn the_diff_is_limited_to_the_shown_files() {
    let settings =
        prepare_diff_options(&stats(5, 5, " a.rs | 10 +++\n Cargo.toml | 1 +\n")).unwrap();
    assert_eq!(settings.pathspecs, vec![" ", "a.rs"]);
    assert_eq!(settings.context_lines, 2);
    assert!(settings.ignore_blank_lines);
    assert!(settings.ignore_whitespace);
    assert!(settings.ignore_whitespace_change);
    assert!(settings.ignore_whitespace_eol);
}

#[test]
fn errors_say_what_went_wrong() {
    assert_eq!(DiffError::NoRepoName.message(), "Cannot determine repo name from path");
    assert_eq!(DiffError::InvalidStatsBuffer.message(), "Invalid stats buffer");
    assert_eq!(DiffError::InvalidTimestamp.message(), "Invalid timestamp");
    assert_eq!(DiffError::Repository("gone".to_string()).message(), "gone");
    assert_eq!(DiffError::Repository("gone".to_string()).copied().message(), "gone");
}
