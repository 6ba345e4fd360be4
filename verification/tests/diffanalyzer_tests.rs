//! The program with three versions: its calls, and its runs.

use git_repos_analysis::claude::{build_claude_args, call_claude, ClaudeCall};
use git_repos_analysis::diffanalyzer::prompts::{
    CHUNK_PROMPT_TEMPLATE, MERGE_PROMPT_TEMPLATE, PROMPT_TEMPLATE,
};
use git_repos_analysis::diffanalyzer::summary::{summarize_content, Action, Summary};
use git_repos_analysis::diffanalyzer::{
    merge_summaries, output_files, split_versions, summarize_chunk, summarize_content_direct,
};

#[test]
fn diffanalyzer_effort_high_appears_in_args() {
    let args = build_claude_args(None, Some("high"));
    assert!(
        args.contains(&"--effort".to_string()),
        "expected --effort flag in args: {:?}",
        args
    );
    assert!(
        args.contains(&"high".to_string()),
        "expected effort value 'high' in args: {:?}",
        args
    );
}

#[test]
fn diffanalyzer_effort_max_and_model_opus_both_appear() {
    let args = build_claude_args(Some("opus"), Some("max"));
    assert!(
        args.contains(&"--model".to_string()),
        "expected --model flag in args: {:?}",
        args
    );
    assert!(
        args.contains(&"opus".to_string()),
        "expected model value 'opus' in args: {:?}",
        args
    );
    assert!(
        args.contains(&"--effort".to_string()),
        "expected --effort flag in args: {:?}",
        args
    );
    assert!(
        args.contains(&"max".to_string()),
        "expected effort value 'max' in args: {:?}",
        args
    );
}

#[test]
fn diffanalyzer_effort_none_produces_no_effort_flag() {
    let args = build_claude_args(None, None);
    assert!(
        !args.contains(&"--effort".to_string()),
        "expected no --effort flag when effort is None: {:?}",
        args
    );
}

#[test]
fn diffanalyzer_effort_low_produces_valid_command() {
    let args = build_claude_args(None, Some("low"));
    assert!(
        args.contains(&"--effort".to_string()),
        "expected --effort flag for 'low': {:?}",
        args
    );
    assert!(
        args.contains(&"low".to_string()),
        "expected effort value 'low' in args: {:?}",
        args
    );
}

#[test]
fn diffanalyzer_effort_empty_string_passes_through() {
    let args = build_claude_args(None, Some(""));
    assert!(
        args.contains(&"--effort".to_string()),
        "expected --effort flag even for empty string: {:?}",
        args
    );
    // The empty string itself should appear as the following element
    let effort_pos = args.iter().position(|a| a == "--effort");
    assert!(effort_pos.is_some(), "no --effort in args: {:?}", args);
    let value_pos = effort_pos.unwrap() + 1;
    assert_eq!(
        args.get(value_pos).map(|s| s.as_str()),
        Some(""),
        "expected empty string value after --effort: {:?}",
        args
    );
}

#[test]
fn diffanalyzer_print_flag_is_always_present() {
    let args = build_claude_args(None, None);
    assert!(
        args.contains(&"--print".to_string()),
        "expected --print to always be present: {:?}",
        args
    );
}

#[test]
fn diffanalyzer_effort_flag_follows_print_flag() {
    let args = build_claude_args(None, Some("high"));
    let print_pos = args.iter().position(|a| a == "--print");
    let effort_pos = args.iter().position(|a| a == "--effort");
    assert!(print_pos.is_some(), "--print missing: {:?}", args);
    assert!(effort_pos.is_some(), "--effort missing: {:?}", args);
    assert!(
        effort_pos.unwrap() > print_pos.unwrap(),
        "--effort should come after --print: {:?}",
        args
    );
}

#[test]
fn diffanalyzer_summarize_content_direct_accepts_effort_param() {
    let result: ClaudeCall = summarize_content_direct("test prompt", None, Some("high"));
    assert_eq!(result.args, vec!["--print", "--effort", "high"]);
    assert_eq!(result.prompt, format!("{}{}", PROMPT_TEMPLATE, "test prompt"));
}

#[test]
fn diffanalyzer_summarize_chunk_accepts_effort_param() {
    let result: ClaudeCall = summarize_chunk("test chunk", None, Some("max"));
    assert_eq!(result.args, vec!["--print", "--effort", "max"]);
    assert_eq!(result.prompt, format!("{}{}", CHUNK_PROMPT_TEMPLATE, "test chunk"));
}

#[test]
fn diffanalyzer_merge_summaries_accepts_effort_param() {
    let summaries = vec!["partial summary A".to_string()];
    let result: ClaudeCall = merge_summaries(&summaries, None, Some("low"));
    assert_eq!(result.args, vec!["--print", "--effort", "low"]);
    assert_eq!(result.prompt, format!("{}{}", MERGE_PROMPT_TEMPLATE, "partial summary A"));
}

#[test]
fn diffanalyzer_call_claude_three_arg_signature_exists() {
    let result: ClaudeCall = call_claude("prompt", None, Some("high"));
    assert_eq!(result.args, vec!["--print", "--effort", "high"]);
    assert_eq!(result.prompt, "prompt");
}

#[test]
fn diffanalyzer_rate_limit_detection_unaffected_by_effort_flag() {
    let args: Vec<String> = build_claude_args(None, Some("high"));
    assert!(
        !args.iter().any(|a| a.contains("hit your limit")),
        "args must not contain rate-limit sentinel: {:?}",
        args
    );
    assert!(
        args.contains(&"--effort".to_string()),
        "expected --effort in args: {:?}",
        args
    );
}

fn prompt_of(action: &Action) -> String {
    match action {
        Action::Ask(call) => call.prompt.clone(),
        other => panic!("expected a question, got {:?}", other),
    }
}

fn texts(names: &[&str]) -> Vec<String> {
    names.iter().map(|n| n.to_string()).collect()
}

#[test]
fn failed_chunks_are_left_out_of_the_merge() {
    let (run, action) =
        Summary::begin_chunked(texts(&["a\n", "b\n", "c\n"]), None, Some("low"));
    assert_eq!(prompt_of(&action), summarize_chunk("a\n", None, None).prompt);
    assert_eq!(run.asked_chunk(), Some(0));
    let (run, action) = run.step(Ok("A".to_string()));
    assert_eq!(run.asked_chunk(), Some(1));
    assert_eq!(run.summary_count(), 1);
    assert_eq!(run.chunks().len(), 3);
    assert_eq!(prompt_of(&action), summarize_chunk("b\n", None, None).prompt);
    let (run, action) = run.step(Err("RATE_LIMIT: Helper exited with code 1.".to_string()));
    assert_eq!(prompt_of(&action), summarize_chunk("c\n", None, None).prompt);
    let (run, action) = run.step(Ok("C".to_string()));
    assert_eq!(prompt_of(&action), merge_summaries(&texts(&["A", "C"]), None, None).prompt);
    assert!(matches!(&action, Action::Ask(call) if call.args == vec!["--print", "--effort", "low"]));
    let (run, action) = run.step(Ok("whole".to_string()));
    assert!(matches!(action, Action::Done(Ok(text)) if text == "whole"));
    assert!(!run.expects_reply());
}

#[test]
fn a_run_in_which_every_chunk_fails_ends_with_an_error() {
    let (run, _) = Summary::begin_chunked(texts(&["a\n", "b\n"]), None, None);
    let (run, _) = run.step(Err("first".to_string()));
    assert!(run.expects_reply());
    let (_, action) = run.step(Err("second".to_string()));
    assert!(matches!(action, Action::Done(Err(e)) if e == "All chunks failed to process"));
    let (_, action) = Summary::begin_chunked(vec![], None, None);
    assert!(matches!(action, Action::Done(Err(e)) if e == "All chunks failed to process"));
}

#[test]
fn a_failed_merge_is_the_error_of_the_run() {
    let (run, _) = Summary::begin_chunked(texts(&["a\n"]), None, None);
    let (run, _) = run.step(Ok("A".to_string()));
    let (_, action) = run.step(Err("broken".to_string()));
    assert!(matches!(action, Action::Done(Err(e)) if e == "broken"));
}

#[test]
fn a_short_text_goes_into_one_prompt() {
    let (run, action) = summarize_content("hello world", None, None).unwrap();
    assert_eq!(
        prompt_of(&action),
        summarize_content_direct("hello world", None, None).prompt
    );
    let (_, action) = run.step(Ok("done".to_string()));
    assert!(matches!(action, Action::Done(Ok(text)) if text == "done"));
}

#[test]
fn a_long_text_goes_into_several_prompts() {
    let text = "hello\n".repeat(60_000);
    let (run, action) = summarize_content(&text, None, None).unwrap();
    assert_eq!(
        prompt_of(&action),
        summarize_chunk(&"hello\n".repeat(50_000), None, None).prompt
    );
    let (_, action) = run.step(Ok("A".to_string()));
    assert_eq!(
        prompt_of(&action),
        summarize_chunk(&"hello\n".repeat(10_000), None, None).prompt
    );
}

#[test]
fn three_versions_come_out_of_a_reply() {
    let reply = ["", "h", " one ", "h", "\ntwo\n", "h", "three == 3\n"].join(&"=".repeat(80));
    let [resume, summary, linkedin] = split_versions(&reply);
    assert_eq!(resume, "one");
    assert_eq!(summary, "two");
    assert_eq!(linkedin, "three == 3");
}

#[test]
fn missing_versions_are_empty() {
    let reply = ["", "h", " one "].join(&"=".repeat(80));
    assert_eq!(split_versions(&reply), ["one".to_string(), String::new(), String::new()]);
    assert_eq!(split_versions("text"), [String::new(), String::new(), String::new()]);
}

#[test]
fn each_version_has_a_file() {
    let reply = ["", "h", "one", "h", "two", "h", "three"].join(&"=".repeat(80));
    let files = output_files(&reply);
    let names: Vec<&str> = files.iter().map(|(name, _)| name.as_str()).collect();
    assert_eq!(names, vec!["debug_raw_output.txt", "resume.txt", "summary.txt", "linkedin.txt"]);
    assert_eq!(files[0].1, reply);
    assert_eq!(files[1].1, "one");
    assert_eq!(files[2].1, "two");
    assert_eq!(files[3].1, "three");
}
