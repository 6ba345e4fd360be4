//! Texts, chunks, replies and lists.

use git_repos_analysis::author::{author_entry, process_repos, CommitAuthor, Entries, RepoAuthors};
use git_repos_analysis::chunks::{pack_lines, split_into_chunks_by_tokens};
use git_repos_analysis::claude::{
    build_claude_args, program_name, rate_limited, read_claude_output, read_claude_reply, ClaudeOutput,
};
use git_repos_analysis::clone::{clone_dir, project_path};
use git_repos_analysis::order::sort_texts;
use git_repos_analysis::text::{
    contains, ends_with, join, lines, number_text, parse_u32, replace, signed_number_text, split,
    starts_with, trim,
};

fn texts(names: &[&str]) -> Vec<String> {
    names.iter().map(|n| n.to_string()).collect()
}

#[test]
fn white_space_is_trimmed_at_both_ends() {
    assert_eq!(trim(" \t\u{a0}\u{3000}a b\u{2028}\r\n"), "a b");
    assert_eq!(trim("   "), "");
    assert_eq!(trim("\u{200b}a"), "\u{200b}a");
}

#[test]
fn lines_end_at_line_feeds() {
    assert_eq!(lines("a\nb\r\n\nc\rd"), texts(&["a", "b", "", "c\rd"]));
    assert_eq!(lines("a\n"), texts(&["a"]));
    assert_eq!(lines("a\r"), texts(&["a\r"]));
    assert!(lines("").is_empty());
    for text in ["x\r\n\r\ny\n\n", "\n", "\r\n", "a\r\r\n"] {
        let expected: Vec<&str> = text.lines().collect();
        assert_eq!(lines(text), expected);
    }
}

#[test]
fn splitting_and_joining_undo_each_other() {
    let text = "a,b,,c,";
    let parts = split(text, ",");
    assert_eq!(parts, texts(&["a", "b", "", "c", ""]));
    assert_eq!(join(&parts, ","), text);
    assert_eq!(split("aaaa", "aa"), texts(&["", "", ""]));
    assert_eq!(join(&vec![], ","), "");
}

#[test]
fn parts_are_found_and_replaced() {
    assert_eq!(replace("a\\nb\\n", "\\n", ""), "ab");
    assert_eq!(replace("abc", "x", "y"), "abc");
    assert!(contains("say \"image/png\"", "\"image/png\""));
    assert!(!contains("image/png", "\"image/png\""));
    assert!(contains("", ""));
    assert!(starts_with("]", "]") && !starts_with("", "]"));
    assert!(ends_with("nb.ipynb", ".ipynb") && !ends_with("ipynb", ".ipynb"));
}

#[test]
fn numbers_are_read_and_written() {
    assert_eq!(parse_u32("0"), Some(0));
    assert_eq!(parse_u32("+007"), Some(7));
    assert_eq!(parse_u32("4294967295"), Some(u32::MAX));
    for bad in ["", "+", "-1", "1 ", "1x", "4294967296", "++1"] {
        assert_eq!(parse_u32(bad), None, "{bad}");
    }
    assert_eq!(number_text(0), "0");
    assert_eq!(number_text(u64::MAX), "18446744073709551615");
    assert_eq!(signed_number_text(-7), "-7");
    assert_eq!(signed_number_text(i32::MIN), "-2147483648");
}

#[test]
fn chunks_take_lines_as_long_as_they_fit() {
    let all = texts(&["a", "b", "c", "d"]);
    assert_eq!(pack_lines(&all, &vec![1, 2, 3, 4], 5), texts(&["a\nb\n", "c\n", "d\n"]));
    assert_eq!(pack_lines(&all, &vec![2, 2, 2, 2], 4), texts(&["a\nb\n", "c\nd\n"]));
    assert_eq!(pack_lines(&all, &vec![9, 0, 9, 0], 5), texts(&["a\n", "b\n", "c\n", "d\n"]));
    assert_eq!(
        pack_lines(&all, &vec![usize::MAX, usize::MAX, 1, 1], 5),
        texts(&["a\n", "b\n", "c\nd\n"])
    );
    assert!(pack_lines(&vec![], &vec![], 5).is_empty());
}

#[test]
fn tokens_are_counted_line_by_line() {
    let text = "hello world\nhello world";
    assert_eq!(
        split_into_chunks_by_tokens(text, 6),
        Some(texts(&["hello world\nhello world\n"]))
    );
    assert_eq!(
        split_into_chunks_by_tokens(text, 5),
        Some(texts(&["hello world\n", "hello world\n"]))
    );
    assert_eq!(split_into_chunks_by_tokens("", 5), Some(vec![]));
    assert_eq!(split_into_chunks_by_tokens("<|endoftext|>", 1), Some(texts(&["<|endoftext|>\n"])));
}

#[test]
fn chunks_together_are_the_text() {
    let text = "fn main() {\n    println!(\"hi\");\n}\n\nmod a;\n";
    for max_tokens in [1, 4, 9, 100] {
        assert_eq!(split_into_chunks_by_tokens(text, max_tokens).unwrap().concat(), text);
    }
}

#[test]
fn special_tokens_count_as_one() {
    let text = "<|endoftext|>\n<|endoftext|>\n";
    assert_eq!(split_into_chunks_by_tokens(text, 4).unwrap().len(), 1);
    assert_eq!(split_into_chunks_by_tokens(text, 3).unwrap().len(), 2);
}

#[test]
fn arguments_stand_in_order() {
    assert_eq!(
        build_claude_args(Some("opus"), Some("max")),
        texts(&["--print", "--model", "opus", "--effort", "max"])
    );
    assert_eq!(build_claude_args(Some("opus"), None), texts(&["--print", "--model", "opus"]));
}

#[test]
fn a_reply_is_trimmed() {
    assert_eq!(read_claude_reply("Helper", true, Some(0), "\n text \n", "noise"), Ok("text".to_string()));
    assert_eq!(
        read_claude_reply("Helper", true, Some(0), " \n", ""),
        Err("Empty response from Helper".to_string())
    );
}

#[test]
fn a_failed_call_reports_both_outputs() {
    assert_eq!(
        read_claude_reply("Helper", false, Some(-2), "out", "err"),
        Err("Helper exited with code -2.\nstdout: out\nstderr: err".to_string())
    );
    assert_eq!(
        read_claude_reply("Helper", false, None, "", ""),
        Err("Helper exited with code unknown.\nstdout: \nstderr: ".to_string())
    );
}

#[test]
fn the_limit_is_recognised_in_either_output() {
    for (out, err) in [("You've hit your limit", ""), ("", "you hit your limit today")] {
        let error = read_claude_reply("Helper", false, Some(1), out, err).unwrap_err();
        assert_eq!(error, "RATE_LIMIT: Helper exited with code 1.");
        assert!(rate_limited(&error));
    }
    assert!(read_claude_reply("Helper", true, Some(0), "hit your limit", "").is_ok());
    assert!(!rate_limited("Helper exited with code 1."));
}

#[test]
fn programs_are_named_with_a_capital_letter() {
    assert_eq!(program_name("helper"), "Helper");
    assert_eq!(program_name("Helper"), "Helper");
    assert_eq!(program_name("zebra-2"), "Zebra-2");
    assert_eq!(program_name("{a"), "{a");
    assert_eq!(program_name(""), "");
}

#[test]
fn bytes_that_are_no_text_are_replaced() {
    let output = ClaudeOutput {
        success: true,
        code: Some(0),
        stdout: b" caf\xc3\xa9 \xff! ".to_vec(),
        stderr: vec![],
    };
    assert_eq!(read_claude_output("Helper", &output), Ok("caf\u{e9} \u{fffd}!".to_string()));
}

#[test]
fn records_are_put_in_order_and_ties_keep_theirs() {
    let records = vec![
        (2, "c".to_string()),
        (0, "a".to_string()),
        (2, "d".to_string()),
        (1, "b".to_string()),
    ];
    assert_eq!(sort_texts(&records), texts(&["a", "b", "c", "d"]));
    assert!(sort_texts(&vec![]).is_empty());
}

fn author(email: Option<&str>, name: Option<&str>) -> CommitAuthor {
    CommitAuthor { email: email.map(|e| e.to_string()), name: name.map(|n| n.to_string()) }
}

#[test]
fn an_entry_needs_an_address_and_a_name() {
    let full = author(Some("a@x.org"), Some("Ann"));
    assert_eq!(author_entry(&full, "/repo"), Some("a@x.org|Ann|/repo".to_string()));
    assert_eq!(author_entry(&author(None, Some("Ann")), "/repo"), None);
    assert_eq!(author_entry(&author(Some("a@x.org"), None), "/repo"), None);
}

#[test]
fn entries_of_all_repositories_come_out_once() {
    let commits = || {
        vec![
            author(Some("a@x.org"), Some("Ann")),
            author(Some("b@x.org"), None),
            author(Some("a@x.org"), Some("Ann")),
        ]
    };
    let repos = vec![
        RepoAuthors { line: " /one \n".to_string(), commits: commits() },
        RepoAuthors { line: "/two".to_string(), commits: commits() },
        RepoAuthors { line: "/one".to_string(), commits: commits() },
    ];
    let mut entries = process_repos(&repos);
    entries.sort();
    assert_eq!(entries, texts(&["a@x.org|Ann|/one", "a@x.org|Ann|/two"]));
}

#[test]
fn a_set_holds_an_entry_once() {
    let mut entries = Entries::new();
    assert!(!entries.contains("a"));
    entries.insert("a".to_string());
    entries.insert("a".to_string());
    entries.insert("b".to_string());
    assert!(entries.contains("a"));
    assert_eq!(entries.into_items().len(), 2);
}

#[test]
fn a_clone_goes_where_its_address_says() {
    assert_eq!(project_path("https://gitlab.com/group/demo.git"), "group/demo.git");
    assert_eq!(project_path("https://example.org/demo"), "https://example.org/demo");
    assert_eq!(
        clone_dir("https://gitlab.com/group/demo.git"),
        texts(&["Documents", "group/demo.git"])
    );
}
