//! The program with two versions and a checkpoint: its calls, and its runs.

use git_repos_analysis::checkpoint::{
    checkpoint_records, delete_checkpoint, fresh_start, fresh_start_reason, load_checkpoint,
    save_checkpoint, save_step, FileFailure, FreshStart, SaveAction, SaveEvent,
};
use git_repos_analysis::claude::{build_claude_args, call_claude, ClaudeCall};
use git_repos_analysis::diff_analyze::prompts::{
    CHUNK_PROMPT_TEMPLATE, DIRECTIVE_END, DIRECTIVE_MIDDLE, DIRECTIVE_START, MERGE_PROMPT_TEMPLATE,
    PROMPT_TEMPLATE,
};
use git_repos_analysis::diff_analyze::summary::{summarize_content, Action, Event, Summary};
use git_repos_analysis::diff_analyze::{
    merge_summaries, output_files, split_versions, summarize_chunk, summarize_content_direct,
};
use git_repos_analysis::input::{
    checkpoint_file_name, default_input, input_stem, temporary_file_name, use_stdin,
};

#[test]
fn diff_analyze_effort_high_appears_in_args() {
    let args = build_claude_args(None, Some("high"));
    assert!(
        args.contains(&"--effort".to_string()),
        "expected --effort flag in args: {:?}",
        args
    );
    assert!(
        args.contains(&"high".to_string()),
        "expected effort value 'high' in args: {:?}",
        args
    );
}

#[test]
fn diff_analyze_effort_max_and_model_opus_both_appear() {
    let args = build_claude_args(Some("opus"), Some("max"));
    assert!(
        args.contains(&"--model".to_string()),
        "expected --model flag in args: {:?}",
        args
    );
    assert!(
        args.contains(&"opus".to_string()),
        "expected model value 'opus' in args: {:?}",
        args
    );
    assert!(
        args.contains(&"--effort".to_string()),
        "expected --effort flag in args: {:?}",
        args
    );
    assert!(
        args.contains(&"max".to_string()),
        "expected effort value 'max' in args: {:?}",
        args
    );
}

#[test]
fn diff_analyze_effort_none_produces_no_effort_flag() {
    let args = build_claude_args(None, None);
    assert!(
        !args.contains(&"--effort".to_string()),
        "expected no --effort flag when effort is None: {:?}",
        args
    );
}

#[test]
fn diff_analyze_effort_low_produces_valid_command() {
    let args = build_claude_args(None, Some("low"));
    assert!(
        args.contains(&"--effort".to_string()),
        "expected --effort flag for 'low': {:?}",
        args
    );
    assert!(
        args.contains(&"low".to_string()),
        "expected effort value 'low' in args: {:?}",
        args
    );
}

#[test]
fn diff_analyze_effort_empty_string_passes_through() {
    let args = build_claude_args(None, Some(""));
    assert!(
        args.contains(&"--effort".to_string()),
        "expected --effort flag even for empty string: {:?}",
        args
    );
    // The empty string itself should appear as the following element
    let effort_pos = args.iter().position(|a| a == "--effort");
    assert!(effort_pos.is_some(), "no --effort in args: {:?}", args);
    let value_pos = effort_pos.unwrap() + 1;
    assert_eq!(
        args.get(value_pos).map(|s| s.as_str()),
        Some(""),
        "expected empty string value after --effort: {:?}",
        args
    );
}

#[test]
fn diff_analyze_print_flag_is_always_present() {
    let args = build_claude_args(None, None);
    assert!(
        args.contains(&"--print".to_string()),
        "expected --print to always be present: {:?}",
        args
    );
}

#[test]
fn diff_analyze_effort_flag_follows_print_flag() {
    let args = build_claude_args(None, Some("high"));
    let print_pos = args.iter().position(|a| a == "--print");
    let effort_pos = args.iter().position(|a| a == "--effort");
    assert!(print_pos.is_some(), "--print missing: {:?}", args);
    assert!(effort_pos.is_some(), "--effort missing: {:?}", args);
    assert!(
        effort_pos.unwrap() > print_pos.unwrap(),
        "--effort should come after --print: {:?}",
        args
    );
}

fn directive() -> String {
    format!("{}helper{}helper{}", DIRECTIVE_START, DIRECTIVE_MIDDLE, DIRECTIVE_END)
}

#[test]
fn diff_analyze_summarize_content_direct_accepts_effort_param() {
    let result: ClaudeCall = summarize_content_direct("test prompt", None, Some("high"), "helper");
    assert_eq!(result.args, vec!["--print", "--effort", "high"]);
    assert_eq!(
        result.prompt,
        format!("{}{}{}", directive(), PROMPT_TEMPLATE, "test prompt")
    );
}

#[test]
fn diff_analyze_summarize_chunk_accepts_effort_param() {
    let result: ClaudeCall = summarize_chunk("test chunk", None, Some("max"), "helper");
    assert_eq!(result.args, vec!["--print", "--effort", "max"]);
    assert_eq!(
        result.prompt,
        format!("{}{}{}", directive(), CHUNK_PROMPT_TEMPLATE, "test chunk")
    );
}

#[test]
fn diff_analyze_merge_summaries_accepts_effort_param() {
    let summaries = vec!["partial summary A".to_string()];
    let result: ClaudeCall = merge_summaries(&summaries, None, Some("low"), "helper");
    assert_eq!(result.args, vec!["--print", "--effort", "low"]);
    assert_eq!(
        result.prompt,
        format!("{}{}{}", directive(), MERGE_PROMPT_TEMPLATE, "partial summary A")
    );
}

#[test]
fn diff_analyze_call_claude_three_arg_signature_exists() {
    let result: ClaudeCall = call_claude("prompt", None, Some("high"));
    assert_eq!(result.args, vec!["--print", "--effort", "high"]);
    assert_eq!(result.prompt, "prompt");
}

#[test]
fn diff_analyze_rate_limit_detection_unaffected_by_effort_flag() {
    let args: Vec<String> = build_claude_args(None, Some("high"));
    assert!(
        !args.iter().any(|a| a.contains("hit your limit")),
        "args must not contain rate-limit sentinel: {:?}",
        args
    );
    assert!(
        args.contains(&"--effort".to_string()),
        "expected --effort in args: {:?}",
        args
    );
}

fn read_checkpoint_text(raw: &str) -> Vec<(usize, String)> {
    let arr: serde_json::Value = serde_json::from_str(raw).unwrap();
    arr.as_array()
        .unwrap()
        .iter()
        .map(|obj| {
            let idx = obj["chunk_index"].as_u64().unwrap() as usize;
            let summary = obj["summary"].as_str().unwrap().to_string();
            (idx, summary)
        })
        .collect()
}

#[test]
fn load_checkpoint_missing_file_returns_empty() {
    let result = load_checkpoint("nonexistent.chunks.json", Err(FileFailure::NotFound));
    assert!(result.is_ok(), "expected Ok for missing file, got: {:?}", result);
    let records = result.unwrap();
    assert!(records.is_empty(), "expected empty vec for missing file, got: {:?}", records);
}

#[test]
fn save_and_load_checkpoint_round_trip() {
    let records: Vec<(usize, String)> = vec![
        (0, "summary for chunk 0".to_string()),
        (1, "summary for chunk 1".to_string()),
    ];
    let text = save_checkpoint(&records).expect("save_checkpoint failed");
    let loaded = load_checkpoint("test.chunks.json", Ok(text)).expect("load_checkpoint failed");
    assert_eq!(loaded.len(), 2, "expected 2 records after round-trip, got: {:?}", loaded);
    let has_zero = loaded.iter().any(|(i, s)| *i == 0 && s == "summary for chunk 0");
    let has_one = loaded.iter().any(|(i, s)| *i == 1 && s == "summary for chunk 1");
    assert!(has_zero, "record for index 0 missing after round-trip: {:?}", loaded);
    assert!(has_one, "record for index 1 missing after round-trip: {:?}", loaded);
}

#[test]
fn save_checkpoint_writes_valid_json() {
    let records: Vec<(usize, String)> = vec![(0, "chunk zero".to_string())];
    let text = save_checkpoint(&records).expect("save_checkpoint failed");
    let parsed = read_checkpoint_text(&text);
    assert_eq!(parsed.len(), 1, "expected 1 record, got: {:?}", parsed);
    assert_eq!(text, r#"[{"chunk_index":0,"summary":"chunk zero"}]"#);
}

#[test]
fn save_checkpoint_empty_slice_writes_empty_array() {
    let raw = save_checkpoint(&vec![]).expect("save_checkpoint failed");
    let parsed: serde_json::Value = serde_json::from_str(&raw).expect("not valid JSON");
    let arr = parsed.as_array().expect("expected JSON array");
    assert!(arr.is_empty(), "expected empty JSON array, got: {}", raw);
}

#[test]
fn delete_checkpoint_removes_existing_file() {
    delete_checkpoint("to_delete.chunks.json", Ok(())).expect("delete_checkpoint failed");
}

#[test]
fn delete_checkpoint_missing_file_is_not_error() {
    let result = delete_checkpoint("ghost.chunks.json", Err(FileFailure::NotFound));
    assert!(
        result.is_ok(),
        "expected Ok when deleting non-existent file, got: {:?}",
        result
    );
}

#[test]
fn load_checkpoint_malformed_json_returns_empty_ok() {
    let result =
        load_checkpoint("bad.chunks.json", Ok("this is not json at all }{".to_string()));
    assert!(
        result.is_ok(),
        "expected Ok (warn + fresh start) for malformed JSON, got: {:?}",
        result
    );
    let records = result.unwrap();
    assert!(
        records.is_empty(),
        "expected empty records for malformed JSON, got: {:?}",
        records
    );
}

#[test]
fn load_checkpoint_wrong_schema_returns_empty_ok() {
    let result =
        load_checkpoint("wrong_schema.chunks.json", Ok(r#"[{"foo": 1}]"#.to_string()));
    assert!(
        result.is_ok(),
        "expected Ok (warn + fresh start) for wrong schema, got: {:?}",
        result
    );
    let records = result.unwrap();
    assert!(
        records.is_empty(),
        "expected empty records for wrong schema, got: {:?}",
        records
    );
}

#[test]
fn save_checkpoint_accumulates_all_records() {
    let mut completed: Vec<(usize, String)> = Vec::new();

    completed.push((0, "first".to_string()));
    let after_one = read_checkpoint_text(&save_checkpoint(&completed).unwrap());
    assert_eq!(after_one.len(), 1, "expected 1 record after chunk 0: {:?}", after_one);

    completed.push((1, "second".to_string()));
    let after_two = read_checkpoint_text(&save_checkpoint(&completed).unwrap());
    assert_eq!(after_two.len(), 2, "expected 2 records after chunk 1: {:?}", after_two);

    completed.push((2, "third".to_string()));
    let after_three = read_checkpoint_text(&save_checkpoint(&completed).unwrap());
    assert_eq!(after_three.len(), 3, "expected 3 records after chunk 2: {:?}", after_three);
}

fn stem_of(input: &std::path::Path) -> String {
    input_stem(false, input.file_stem().and_then(|s| s.to_str()))
}

#[test]
fn checkpoint_path_from_diff_txt() {
    let input = std::path::Path::new("/some/output/dir/diff.txt");
    let output_dir = std::path::Path::new("/some/output/dir");
    let checkpoint = output_dir.join(checkpoint_file_name(&stem_of(input)));
    assert!(checkpoint.ends_with("diff.chunks.json"), "{}", checkpoint.display());
}

#[test]
fn checkpoint_path_from_extensionless_input() {
    let input = std::path::Path::new("/some/output/dir/myinput");
    let output_dir = std::path::Path::new("/some/output/dir");
    let checkpoint = output_dir.join(checkpoint_file_name(&stem_of(input)));
    assert!(checkpoint.ends_with("myinput.chunks.json"), "{}", checkpoint.display());
}

#[test]
fn checkpoint_path_for_stdin() {
    let output_dir = std::path::Path::new("/some/output/dir");
    let checkpoint = output_dir.join(checkpoint_file_name(&input_stem(true, None)));
    assert!(checkpoint.ends_with("stdin.chunks.json"), "{}", checkpoint.display());
}

#[test]
fn summarize_content_accepts_checkpoint_path_argument() {
    let (run, action) =
        summarize_content("hello world", None, None, "test.chunks.json", "helper").unwrap();
    assert!(matches!(&action, Action::Ask(call)
        if call.prompt == summarize_content_direct("hello world", None, None, "helper").prompt));
    assert!(run.expects(&Event::Reply(Ok("fine".to_string()))));
}

#[test]
fn summarize_content_deletes_checkpoint_on_success() {
    save_checkpoint(&vec![]).expect("pre-create checkpoint");
    let (run, action) =
        summarize_content("tiny content", None, None, "success.chunks.json", "helper").unwrap();
    assert!(matches!(action, Action::Ask(_)));
    let (run, action) = run.step(Event::Reply(Ok("whole".to_string())));
    assert!(matches!(action, Action::Delete));
    let (_, action) = run.step(Event::Deleted(Ok(())));
    assert!(matches!(action, Action::Done(Ok(text)) if text == "whole"));
}

#[test]
fn a_chunked_run_deletes_its_checkpoint_on_success() {
    let (run, _) =
        Summary::begin_chunked(vec!["a\n".to_string()], None, None, "success.chunks.json", "helper");
    let (run, _) = run.step(Event::Loaded(Ok(vec![])));
    let (run, _) = run.step(Event::Reply(Ok("part".to_string())));
    let (run, _) = run.step(Event::Saved(Ok(())));
    let (run, action) = run.step(Event::Reply(Ok("whole".to_string())));
    assert!(matches!(action, Action::Delete));
    let (_, action) = run.step(Event::Deleted(Ok(())));
    assert!(matches!(action, Action::Done(Ok(text)) if text == "whole"));
}

#[test]
fn summarize_content_with_full_checkpoint_skips_chunks() {
    let completed = vec![(0usize, "pre-summarised chunk 0".to_string())];
    let text = save_checkpoint(&completed).expect("pre-populate checkpoint");
    let (run, action) =
        summarize_content("hello world", None, None, "full.chunks.json", "helper").unwrap();
    assert!(matches!(&action, Action::Ask(call)
        if call.prompt == summarize_content_direct("hello world", None, None, "helper").prompt));
    assert_eq!(run.asked_chunk(), None);
    assert!(run.chunks().is_empty());

    let loaded = load_checkpoint("full.chunks.json", Ok(text));
    let (run, action) = Summary::begin_chunked(
        vec!["hello world\n".to_string()],
        None,
        None,
        "full.chunks.json",
        "helper",
    );
    assert!(matches!(action, Action::Load));
    let (_, action) = run.step(Event::Loaded(loaded));
    let merge =
        merge_summaries(&vec!["pre-summarised chunk 0".to_string()], None, None, "helper");
    assert!(matches!(action, Action::Ask(call) if call.prompt == merge.prompt));
}

#[test]
fn a_long_text_with_a_full_checkpoint_is_merged_at_once() {
    let text = "hello\n".repeat(60_000);
    let saved = save_checkpoint(&vec![(1, "B".to_string()), (0, "A".to_string())]).unwrap();
    let (run, _) = summarize_content(&text, None, None, "full.chunks.json", "helper").unwrap();
    let (run, action) = run.step(Event::Loaded(load_checkpoint("full.chunks.json", Ok(saved))));
    assert_eq!(
        prompt_of(&action),
        merge_summaries(&chunks(&["A", "B"]), None, None, "helper").prompt
    );
    assert_eq!(run.summary_count(), 2);
    assert_eq!(run.chunks().len(), 2);
}

#[test]
fn load_checkpoint_with_out_of_range_indices_returns_them_verbatim() {
    let records = vec![(9999usize, "oob summary".to_string())];
    let text = save_checkpoint(&records).expect("save failed");
    let loaded = load_checkpoint("oob.chunks.json", Ok(text)).expect("load failed");
    assert_eq!(loaded.len(), 1, "expected 1 record, got: {:?}", loaded);
    let (idx, summary) = &loaded[0];
    assert_eq!(*idx, 9999, "expected index 9999, got: {idx}");
    assert_eq!(
        summary.as_str(),
        "oob summary",
        "expected 'oob summary', got: {summary}"
    );
}

#[test]
fn failures_of_the_checkpoint_file_are_reported() {
    let read = load_checkpoint("a.json", Err(FileFailure::Other("denied".to_string())));
    assert_eq!(read, Err("Failed to read checkpoint a.json: denied".to_string()));
    let removed = delete_checkpoint("a.json", Err(FileFailure::Other("denied".to_string())));
    assert_eq!(removed, Err("Failed to delete checkpoint a.json: denied".to_string()));
}

#[test]
fn checkpoints_of_another_shape_are_a_fresh_start() {
    let texts = [
        "{}",
        "7",
        "",
        r#"[{"chunk_index":0}]"#,
        r#"[{"chunk_index":-1,"summary":"a"}]"#,
        r#"[{"chunk_index":"0","summary":"a"}]"#,
        r#"[{"chunk_index":0,"summary":null}]"#,
        r#"[{"chunk_index":0,"summary":"a"},{"summary":"b"}]"#,
    ];
    for text in texts {
        assert_eq!(load_checkpoint("x", Ok(text.to_string())), Ok(vec![]), "{text}");
    }
}

#[test]
fn checkpoints_keep_any_text() {
    let records = vec![
        (usize::MAX, "quotes \" and \\ and \n lines \u{1F600}\u{0}".to_string()),
        (3, String::new()),
        (3, "again".to_string()),
    ];
    let text = save_checkpoint(&records).unwrap();
    assert_eq!(load_checkpoint("x", Ok(text)), Ok(records));
}

#[test]
fn records_need_both_members() {
    assert!(checkpoint_records(None).is_empty());
    assert!(checkpoint_records(Some(None)).is_empty());
    assert!(checkpoint_records(Some(Some(vec![(Some(1), None)]))).is_empty());
    assert!(checkpoint_records(Some(Some(vec![(None, Some("a".to_string()))]))).is_empty());
    assert_eq!(
        checkpoint_records(Some(Some(vec![(Some(1), Some("a".to_string()))]))),
        vec![(1, "a".to_string())]
    );
}

fn chunks(names: &[&str]) -> Vec<String> {
    names.iter().map(|n| n.to_string()).collect()
}

fn prompt_of(action: &Action) -> String {
    match action {
        Action::Ask(call) => call.prompt.clone(),
        other => panic!("expected a question, got {:?}", other),
    }
}

#[test]
fn a_fresh_run_asks_for_every_chunk_and_merges_in_order() {
    let (run, _) = Summary::begin_chunked(chunks(&["a\n", "b\n"]), Some("opus"), None, "p", "helper");
    let (run, action) = run.step(Event::Loaded(Ok(vec![])));
    assert_eq!(prompt_of(&action), summarize_chunk("a\n", None, None, "helper").prompt);
    assert!(matches!(&action, Action::Ask(call) if call.args == vec!["--print", "--model", "opus"]));
    let (run, action) = run.step(Event::Reply(Ok("A".to_string())));
    assert!(matches!(action, Action::Save(records) if records == vec![(0, "A".to_string())]));
    let (run, action) = run.step(Event::Saved(Ok(())));
    assert_eq!(prompt_of(&action), summarize_chunk("b\n", None, None, "helper").prompt);
    let (run, action) = run.step(Event::Reply(Ok("B".to_string())));
    assert!(matches!(action, Action::Save(records)
        if records == vec![(0, "A".to_string()), (1, "B".to_string())]));
    let (_, action) = run.step(Event::Saved(Ok(())));
    assert_eq!(
        prompt_of(&action),
        format!("{}{}A\n\n---\n\nB", directive(), MERGE_PROMPT_TEMPLATE)
    );
}

#[test]
fn a_resumed_run_asks_for_the_missing_chunk_only() {
    let loaded = vec![(2, "C".to_string()), (0, "A".to_string())];
    let (run, _) = Summary::begin_chunked(chunks(&["a\n", "b\n", "c\n"]), None, None, "p", "helper");
    let (run, action) = run.step(Event::Loaded(Ok(loaded)));
    assert_eq!(prompt_of(&action), summarize_chunk("b\n", None, None, "helper").prompt);
    let (run, _) = run.step(Event::Reply(Ok("B".to_string())));
    let (_, action) = run.step(Event::Saved(Ok(())));
    assert_eq!(
        prompt_of(&action),
        merge_summaries(&chunks(&["A", "B", "C"]), None, None, "helper").prompt
    );
}

#[test]
fn hitting_the_limit_at_a_chunk_saves_the_progress() {
    let (run, _) = Summary::begin_chunked(chunks(&["a\n", "b\n"]), None, None, "out/x.chunks.json", "helper");
    let (run, _) = run.step(Event::Loaded(Ok(vec![(0, "A".to_string())])));
    let (run, action) =
        run.step(Event::Reply(Err("RATE_LIMIT: Helper exited with code 1.".to_string())));
    assert!(matches!(action, Action::Save(records) if records == vec![(0, "A".to_string())]));
    let (run, action) = run.step(Event::Saved(Err("disk full".to_string())));
    assert!(matches!(action, Action::Done(Err(e))
        if e == "Rate limit hit. Partial progress saved to out/x.chunks.json. Re-run after the cooldown."));
    assert!(!run.expects(&Event::Saved(Ok(()))));
}

#[test]
fn hitting_the_limit_at_the_merge_keeps_the_checkpoint() {
    let (run, _) = Summary::begin_chunked(chunks(&["a\n"]), None, None, "out/x.chunks.json", "helper");
    let (run, _) = run.step(Event::Loaded(Ok(vec![(0, "A".to_string())])));
    let (_, action) =
        run.step(Event::Reply(Err("RATE_LIMIT: Helper exited with code 1.".to_string())));
    assert!(matches!(action, Action::Done(Err(e))
        if e == "Rate limit hit during merge. Chunk summaries preserved at out/x.chunks.json. Re-run to retry merge."));
}

#[test]
fn other_failures_end_the_run() {
    let begin = || Summary::begin_chunked(chunks(&["a\n"]), None, None, "p", "helper").0;
    let (_, action) = begin().step(Event::Loaded(Err("unreadable".to_string())));
    assert!(matches!(action, Action::Done(Err(e)) if e == "unreadable"));
    let (run, _) = begin().step(Event::Loaded(Ok(vec![])));
    let (_, action) = run.step(Event::Reply(Err("Empty response from Helper".to_string())));
    assert!(matches!(action, Action::Done(Err(e)) if e == "Empty response from Helper"));
    let (run, _) = begin().step(Event::Loaded(Ok(vec![])));
    let (run, _) = run.step(Event::Reply(Ok("A".to_string())));
    let (_, action) = run.step(Event::Saved(Err("disk full".to_string())));
    assert!(matches!(action, Action::Done(Err(e)) if e == "disk full"));
    let (run, _) = begin().step(Event::Loaded(Ok(vec![(0, "A".to_string())])));
    let (_, action) = run.step(Event::Reply(Err("broken".to_string())));
    assert!(matches!(action, Action::Done(Err(e)) if e == "broken"));
}

#[test]
fn a_run_without_chunks_fails() {
    let (run, _) = Summary::begin_chunked(vec![], None, None, "p", "helper");
    let (_, action) = run.step(Event::Loaded(Ok(vec![])));
    assert!(matches!(action, Action::Done(Err(e)) if e == "All chunks failed to process"));
}

#[test]
fn a_checkpoint_that_cannot_be_removed_does_no_harm() {
    let (run, _) = Summary::begin_chunked(chunks(&["a\n"]), None, None, "p", "helper");
    let (run, _) = run.step(Event::Loaded(Ok(vec![(0, "A".to_string())])));
    let (run, _) = run.step(Event::Reply(Ok("whole".to_string())));
    let (_, action) = run.step(Event::Deleted(Err("denied".to_string())));
    assert!(matches!(action, Action::Done(Ok(text)) if text == "whole"));
}

#[test]
fn a_short_text_is_answered_at_once() {
    let (run, _) = summarize_content("tiny content", Some("opus"), Some("max"), "p", "helper").unwrap();
    let (run, action) = run.step(Event::Reply(Err("RATE_LIMIT: later".to_string())));
    assert!(matches!(action, Action::Done(Err(e)) if e == "RATE_LIMIT: later"));
    assert!(!run.expects(&Event::Reply(Ok(String::new()))));
}

#[test]
fn a_long_text_is_asked_for_in_chunks() {
    let text = "hello\n".repeat(60_000);
    let (run, action) = summarize_content(&text, None, None, "p", "helper").unwrap();
    assert!(matches!(action, Action::Load));
    let (run, action) = run.step(Event::Loaded(Ok(vec![])));
    assert_eq!(
        prompt_of(&action),
        summarize_chunk(&"hello\n".repeat(50_000), None, None, "helper").prompt
    );
    let (run, _) = run.step(Event::Reply(Ok("A".to_string())));
    let (_, action) = run.step(Event::Saved(Ok(())));
    assert_eq!(
        prompt_of(&action),
        summarize_chunk(&"hello\n".repeat(10_000), None, None, "helper").prompt
    );
}

fn reply_with(sections: &[&str]) -> String {
    sections.join(&"=".repeat(80))
}

#[test]
fn two_versions_come_out_of_a_reply() {
    let reply = reply_with(&["intro\n", "\nVERSION 1\n", "\n\n one = 1 \n", "\nVERSION 2\n", "\ntwo\n"]);
    let [resume, summary] = split_versions(&reply).unwrap();
    assert_eq!(resume, "one = 1");
    assert_eq!(summary, "two");
}

#[test]
fn a_reply_with_too_few_sections_is_an_error() {
    assert_eq!(
        split_versions("no sections").unwrap_err().message("Helper"),
        "Helper output did not contain the expected delimiter pattern (got 1 sections, need 5). \
         Check debug_raw_output.txt to see the raw response."
    );
    assert_eq!(split_versions(&reply_with(&["a", "b", "c", "d"])).unwrap_err().sections, 4);
    assert!(split_versions(&reply_with(&["a", "b", "c", "d", "e", "f"])).is_ok());
}

#[test]
fn the_reply_is_kept_and_its_versions_are_written() {
    let reply = reply_with(&["", "h", " one ", "h", " two "]);
    let (files, error) = output_files(&reply);
    assert!(error.is_none());
    assert_eq!(
        files,
        vec![
            ("debug_raw_output.txt".to_string(), reply.clone()),
            ("resume.md".to_string(), "one".to_string()),
            ("summary.md".to_string(), "two".to_string()),
        ]
    );
    let (files, error) = output_files("nothing");
    assert_eq!(files, vec![("debug_raw_output.txt".to_string(), "nothing".to_string())]);
    assert_eq!(error.unwrap().sections, 1);
}

#[test]
fn the_directive_names_the_program_twice() {
    let text = summarize_content_direct("DIFF", None, None, "helper").prompt;
    assert!(text.starts_with("CRITICAL OUTPUT CONTRACT"));
    assert!(text.contains("piped through `helper --print` by an automated subprocess"));
    assert!(text.contains("do NOT save a plan file under ~/.helper/plans, do NOT"));
    assert!(text.contains("suppress it. Just print the result.\n\nYou are a senior"));
    assert!(text.ends_with("=== GIT DIFF CONTENT STARTS HERE ===\nDIFF"));
}

#[test]
fn a_run_says_which_chunk_it_waits_for() {
    let (run, _) = Summary::begin_chunked(chunks(&["a\n", "b\n"]), None, None, "p", "helper");
    assert_eq!(run.asked_chunk(), None);
    let (run, _) = run.step(Event::Loaded(Ok(vec![(0, "A".to_string())])));
    assert_eq!(run.asked_chunk(), Some(1));
    assert_eq!(run.summary_count(), 1);
    assert_eq!(run.chunks(), &chunks(&["a\n", "b\n"]));
}

#[test]
fn each_kind_of_fresh_start_has_its_reason() {
    let cases = [
        ("this is not json at all }{", Some(FreshStart::NoJson)),
        ("{}", Some(FreshStart::NoArray)),
        (r#"[{"foo": 1}]"#, Some(FreshStart::NoIndex)),
        (r#"[{"chunk_index":0,"summary":"a"},{"chunk_index":1}]"#, Some(FreshStart::NoSummary)),
        (r#"[{"chunk_index":0},{"summary":"b"}]"#, Some(FreshStart::NoSummary)),
        (r#"[{"chunk_index":0,"summary":"a"}]"#, None),
        ("[]", None),
    ];
    for (text, reason) in cases {
        assert_eq!(fresh_start_reason(text), reason, "{text}");
    }
    assert_eq!(fresh_start(&None), Some(FreshStart::NoJson));
    assert_eq!(fresh_start(&Some(None)), Some(FreshStart::NoArray));
    assert_eq!(fresh_start(&Some(Some(vec![(None, None)]))), Some(FreshStart::NoIndex));
    assert_eq!(fresh_start(&Some(Some(vec![(Some(1), None)]))), Some(FreshStart::NoSummary));
    assert_eq!(fresh_start(&Some(Some(vec![(Some(1), Some(String::new()))]))), None);
    assert_eq!(
        FreshStart::NoJson.message(),
        "checkpoint file is malformed JSON, treating as fresh start"
    );
    assert_eq!(
        FreshStart::NoArray.message(),
        "checkpoint file is not a JSON array, treating as fresh start"
    );
    assert_eq!(
        FreshStart::NoIndex.message(),
        "checkpoint record missing chunk_index, treating as fresh start"
    );
    assert_eq!(
        FreshStart::NoSummary.message(),
        "checkpoint record missing summary, treating as fresh start"
    );
}

#[test]
fn a_checkpoint_is_written_aside_and_then_renamed() {
    let step = |event| save_step("d/x.chunks.json", "d/x.chunks.tmp", "[]", event);
    assert!(matches!(step(SaveEvent::Begin), SaveAction::Write { path, text }
        if path == "d/x.chunks.tmp" && text == "[]"));
    assert!(matches!(step(SaveEvent::Wrote(Ok(()))), SaveAction::Rename { from, to }
        if from == "d/x.chunks.tmp" && to == "d/x.chunks.json"));
    assert!(matches!(step(SaveEvent::Renamed(Ok(()))), SaveAction::Done(Ok(()))));
    assert!(matches!(step(SaveEvent::Wrote(Err("full".to_string()))), SaveAction::Done(Err(e))
        if e == "Failed to write tmp checkpoint d/x.chunks.tmp: full"));
    assert!(matches!(step(SaveEvent::Renamed(Err("denied".to_string()))), SaveAction::Done(Err(e))
        if e == "Failed to rename checkpoint d/x.chunks.tmp -> d/x.chunks.json: denied"));
}

#[test]
fn the_temporary_file_stands_beside_the_checkpoint() {
    let checkpoint = std::path::Path::new("/out").join(checkpoint_file_name("diff.v2"));
    let tmp = std::path::Path::new("/out").join(temporary_file_name("diff.v2"));
    assert_eq!(tmp, checkpoint.with_extension("tmp"));
    assert_ne!(tmp, checkpoint);
}

#[test]
fn the_default_input_lies_among_the_downloads() {
    assert_eq!(
        default_input(Some("demo"), Some("/home/me")),
        Ok(chunks(&["/home/me", "Downloads", "demo", "diff.txt"]))
    );
    assert_eq!(
        default_input(None, None),
        Err("Cannot determine repo name from cwd".to_string())
    );
    assert_eq!(default_input(Some("demo"), None), Err("HOME env var not set".to_string()));
}

#[test]
fn the_standard_input_is_read_only_when_something_is_piped_in() {
    assert!(use_stdin(false, false));
    assert!(!use_stdin(false, true));
    assert!(!use_stdin(true, false));
    assert!(!use_stdin(true, true));
}

#[test]
fn a_file_without_a_stem_is_named_diff() {
    assert_eq!(input_stem(false, None), "diff");
}
