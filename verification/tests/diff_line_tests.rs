//! What is shown of the lines of a diff.

use git_repos_analysis::diff_line::{DiffLineProcessor, PatchLine};

fn proc() -> DiffLineProcessor {
    DiffLineProcessor::default()
}

// --- Non-ipynb file tests ---

#[test]
fn origin_f_file_header_verbatim() {
    let mut p = proc();
    let result = p.process_diff_line_inner(
        'F',
        b"diff --git a/foo b/foo\n",
        "foo.rs",
    );
    assert_eq!(result, Some("diff --git a/foo b/foo\n".to_string()));
}

#[test]
fn origin_h_hunk_header_verbatim() {
    let mut p = proc();
    let result =
        p.process_diff_line_inner('H', b"@@ -1,3 +1,4 @@\n", "foo.rs");
    assert_eq!(result, Some("@@ -1,3 +1,4 @@\n".to_string()));
}

#[test]
fn origin_b_binary_verbatim() {
    let mut p = proc();
    let result = p.process_diff_line_inner(
        'B',
        b"Binary files differ\n",
        "foo.rs",
    );
    assert_eq!(result, Some("Binary files differ\n".to_string()));
}

#[test]
fn origin_space_context_line_verbatim() {
    let mut p = proc();
    let result =
        p.process_diff_line_inner(' ', b"context line\n", "foo.rs");
    assert_eq!(result, Some("context line\n".to_string()));
}

#[test]
fn origin_plus_addition_prefixed() {
    let mut p = proc();
    let result =
        p.process_diff_line_inner('+', b"added line\n", "foo.rs");
    assert_eq!(result, Some("+added line\n".to_string()));
}

#[test]
fn origin_minus_deletion_prefixed() {
    let mut p = proc();
    let result =
        p.process_diff_line_inner('-', b"removed line\n", "foo.rs");
    assert_eq!(result, Some("-removed line\n".to_string()));
}

#[test]
fn origin_backslash_no_newline_marker_returns_none() {
    let mut p = proc();
    let result = p.process_diff_line_inner(
        '\\',
        b"\\ No newline at end of file\n",
        "foo.rs",
    );
    assert_eq!(result, None);
}

#[test]
fn unrecognised_origin_returns_none() {
    let mut p = proc();
    let result =
        p.process_diff_line_inner('X', b"some content\n", "foo.rs");
    assert_eq!(result, None);
}

#[test]
fn image_png_content_returns_none_for_non_ipynb() {
    let mut p = proc();
    let result = p.process_diff_line_inner(
        'F',
        b"\"image/png\": data\n",
        "foo.rs",
    );
    assert_eq!(result, None);
}

#[test]
fn image_png_inside_plus_line_returns_none() {
    let mut p = proc();
    let result = p.process_diff_line_inner(
        '+',
        b"something \"image/png\" here\n",
        "foo.rs",
    );
    assert_eq!(result, None);
}

#[test]
fn image_png_different_case_passes_through() {
    let mut p = proc();
    let result = p.process_diff_line_inner(
        '+',
        b"\"image/PNG\" is fine\n",
        "foo.rs",
    );
    assert_eq!(result, Some("+\"image/PNG\" is fine\n".to_string()));
}

// --- ipynb file tests ---

#[test]
fn ipynb_outside_source_block_non_trigger_returns_none() {
    let mut p = proc();
    let result = p.process_diff_line_inner(
        '+',
        b"  \"cell_type\": \"code\",\n",
        "nb.ipynb",
    );
    assert_eq!(result, None);
}

#[test]
fn ipynb_source_trigger_line_returns_none_and_sets_state() {
    let mut p = proc();
    let result = p.process_diff_line_inner(
        '+',
        b"   \"source\": [\n",
        "nb.ipynb",
    );
    assert_eq!(result, None);
    assert!(p.in_ipynb_source);
}

#[test]
fn ipynb_inside_source_block_content_line_cleaned_and_prefixed() {
    let mut p = proc();
    p.in_ipynb_source = true;
    let result = p.process_diff_line_inner(
        '+',
        b"    \"hello world\\n\"\n",
        "nb.ipynb",
    );
    assert_eq!(result, Some("+hello world\n".to_string()));
}

#[test]
fn ipynb_close_bracket_exits_source_block_returns_none() {
    let mut p = proc();
    p.in_ipynb_source = true;
    let result = p.process_diff_line_inner('+', b"   ]\n", "nb.ipynb");
    assert_eq!(result, None);
    assert!(!p.in_ipynb_source);
}

#[test]
fn ipynb_multiple_source_blocks_output_only_inside() {
    let mut p = proc();
    // First block
    p.process_diff_line_inner('+', b"\"source\": [\n", "nb.ipynb");
    let inside1 = p.process_diff_line_inner(
        '+',
        b"\"line one\\n\"\n",
        "nb.ipynb",
    );
    p.process_diff_line_inner('+', b"]\n", "nb.ipynb");
    // Between blocks
    let between = p.process_diff_line_inner(
        '+',
        b"\"cell_type\": \"code\"\n",
        "nb.ipynb",
    );
    // Second block
    p.process_diff_line_inner('+', b"\"source\": [\n", "nb.ipynb");
    let inside2 = p.process_diff_line_inner(
        '+',
        b"\"line two\\n\"\n",
        "nb.ipynb",
    );
    p.process_diff_line_inner('+', b"]\n", "nb.ipynb");

    assert!(inside1.is_some());
    assert_eq!(between, None);
    assert!(inside2.is_some());
}

#[test]
fn ipynb_empty_content_after_cleaning_yields_just_origin_and_newline() {
    let mut p = proc();
    p.in_ipynb_source = true;
    // content is just quotes with no inner text and no \n
    let result = p.process_diff_line_inner('+', b"\"\"\n", "nb.ipynb");
    assert_eq!(result, Some("+\n".to_string()));
}

#[test]
fn ipynb_content_multiple_quote_pairs_outer_stripped_only() {
    let mut p = proc();
    p.in_ipynb_source = true;
    // "\"inner\"" — outer quotes stripped, inner preserved
    let result = p.process_diff_line_inner(
        '+',
        b"\"\\\"inner\\\"\"\n",
        "nb.ipynb",
    );
    // strip_prefix/strip_suffix each remove at most one quote, leaving `\"inner\"`;
    // replace("\\n","") leaves it unchanged
    assert_eq!(result, Some("+\\\"inner\\\"\n".to_string()));
}

#[test]
fn ipynb_image_png_inside_source_block_not_filtered() {
    let mut p = proc();
    p.in_ipynb_source = true;
    let result = p.process_diff_line_inner(
        '+',
        b"\"image/png data here\"\n",
        "nb.ipynb",
    );
    // For ipynb, image/png filter does NOT apply — result should be Some(...)
    assert!(result.is_some());
}

#[test]
fn ipynb_invalid_utf8_returns_none() {
    let mut p = proc();
    p.in_ipynb_source = true;
    let invalid = b"\xff\xfe invalid utf8\n";
    let result = p.process_diff_line_inner('+', invalid, "nb.ipynb");
    assert_eq!(result, None);
}

#[test]
fn lines_are_read_from_a_patch() {
    let mut p = proc();
    let line = PatchLine { origin: '+', content: b"let x = 1;\n".to_vec(), path: None };
    assert_eq!(p.process_diff_line(&line, "src/lib.rs"), Some("+let x = 1;\n".to_string()));
}

#[test]
fn invalid_utf8_leaves_the_state_as_it_is() {
    let mut p = proc();
    p.in_ipynb_source = true;
    assert_eq!(p.process_diff_line_inner('+', b"]\xff\n", "nb.ipynb"), None);
    assert!(p.in_ipynb_source);
}

#[test]
fn ordinary_files_leave_the_state_as_it_is() {
    let mut p = proc();
    p.in_ipynb_source = true;
    assert_eq!(p.process_diff_line_inner(' ', b"]\n", "a.rs"), Some("]\n".to_string()));
    assert!(p.in_ipynb_source);
    p.in_ipynb_source = false;
    p.process_diff_line_inner('+', b"\"source\": [\n", "a.rs");
    assert!(!p.in_ipynb_source);
}

#[test]
fn notebook_lines_keep_their_origin_and_lose_their_escaped_newline() {
    let mut p = proc();
    p.in_ipynb_source = true;
    let shown = p.process_diff_line_inner('-', b"    \"a = 'x\\n'\\n\",\n", "nb.ipynb");
    assert_eq!(shown, Some("-a = 'x'\",\n".to_string()));
}

#[test]
fn an_opening_line_stays_inside_a_block() {
    let mut p = proc();
    p.in_ipynb_source = true;
    assert_eq!(p.process_diff_line_inner('+', b"\"source\": [\n", "nb.ipynb"), None);
    assert!(p.in_ipynb_source);
}

#[test]
fn an_array_closed_on_its_opening_line_shows_nothing() {
    for line in ["\"source\": [],\n", "\"source\": [\"a[0] \\\" ]\"]\n", "  \"source\": [ ]\n"] {
        for before in [false, true] {
            let mut p = proc();
            p.in_ipynb_source = before;
            assert_eq!(p.process_diff_line_inner('+', line.as_bytes(), "nb.ipynb"), None);
            assert!(!p.in_ipynb_source, "{line}");
            assert_eq!(p.process_diff_line_inner('+', b"\"outputs\": 1\n", "nb.ipynb"), None);
        }
    }
}

#[test]
fn a_bracket_inside_a_string_does_not_close_the_array() {
    let mut p = proc();
    p.process_diff_line_inner('+', b"\"source\": [\"a[0] \\\" ]\",\n", "nb.ipynb");
    assert!(p.in_ipynb_source);
}
