//! The program that turns a diff into three versions of a project summary.

pub mod prompts;
pub mod summary;

use vstd::prelude::*;

use crate::claude::{call_claude, is_call, prompt_text, ClaudeCall, SEP, SUMMARY_SEPARATOR};
use crate::text::{
    ends_at_separator, has_part, join, joined, law_a_part_stands_between_two_others,
    law_each_part_stands_in_what_is_joined, law_joining_puts_the_separator_between,
    law_split_undoes_join, pieces, split, trim, trimmed,
};
use prompts::{CHUNK_PROMPT_TEMPLATE, MERGE_PROMPT_TEMPLATE, PROMPT_TEMPLATE};

verus! {

/// The prompt that asks for the summary of a whole diff.
pub open spec fn content_prompt(content: Seq<char>) -> Seq<char> {
    PROMPT_TEMPLATE@ + content
}

/// The prompt that asks for what one chunk holds.
pub open spec fn chunk_prompt(chunk: Seq<char>) -> Seq<char> {
    CHUNK_PROMPT_TEMPLATE@ + chunk
}

/// The prompt that asks for one summary out of several.
pub open spec fn merge_prompt(summaries: Seq<Seq<char>>) -> Seq<char> {
    MERGE_PROMPT_TEMPLATE@ + joined(summaries, SUMMARY_SEPARATOR@)
}

/// The call that asks for the summary of a whole diff.
pub fn summarize_content_direct(
    content: &str,
    model: Option<&str>,
    effort: Option<&str>,
) -> (r: ClaudeCall)
    ensures
        is_call(r, content_prompt(content@), model.deep_view(), effort.deep_view()),
{
    call_claude(prompt_text(PROMPT_TEMPLATE, content).as_str(), model, effort)
}

/// The call that asks for what one chunk holds.
pub fn summarize_chunk(chunk: &str, model: Option<&str>, effort: Option<&str>) -> (r: ClaudeCall)
    ensures
        is_call(r, chunk_prompt(chunk@), model.deep_view(), effort.deep_view()),
{
    call_claude(prompt_text(CHUNK_PROMPT_TEMPLATE, chunk).as_str(), model, effort)
}

/// The call that asks for one summary out of several.
pub fn merge_summaries(
    summaries: &Vec<String>,
    model: Option<&str>,
    effort: Option<&str>,
) -> (r: ClaudeCall)
    ensures
        is_call(r, merge_prompt(summaries.deep_view()), model.deep_view(), effort.deep_view()),
{
    let combined = join(summaries, SUMMARY_SEPARATOR);
    call_claude(prompt_text(MERGE_PROMPT_TEMPLATE, combined.as_str()).as_str(), model, effort)
}

/// A section of a reply without the white space around it. One that is missing
/// is empty.
pub open spec fn section(output: Seq<char>, i: int) -> Seq<char> {
    if i < pieces(output, SEP@).len() {
        trimmed(pieces(output, SEP@)[i])
    } else {
        Seq::empty()
    }
}

/// One of the sections.
fn section_text(parts: &Vec<String>, i: usize) -> (r: String)
    ensures
        r@ == if i < parts@.len() {
            trimmed(parts@[i as int]@)
        } else {
            Seq::empty()
        },
{
    if i < parts.len() {
        trim(parts[i].as_str())
    } else {
        String::new()
    }
}

/// Takes the three versions out of a reply: the sections behind the three
/// headers.
pub fn split_versions(output: &str) -> (r: [String; 3])
    ensures
        r@[0]@ == section(output@, 2),
        r@[1]@ == section(output@, 4),
        r@[2]@ == section(output@, 6),
{
    proof {
        reveal_strlit(
            "================================================================================",
        );
    }
    let parts = split(output, SEP);
    let ghost all = parts.deep_view();
    assert(all == pieces(output@, SEP@));
    assert(forall|i: int| 0 <= i < all.len() ==> all[i] == (#[trigger] parts@[i])@);
    [section_text(&parts, 2), section_text(&parts, 4), section_text(&parts, 6)]
}

/// A reply that has the shape that was asked for gives its three versions,
/// without the white space around them.
pub proof fn law_versions_come_out_of_their_sections(sections: Seq<Seq<char>>)
    requires
        sections.len() == 7,
        forall|k: int| 0 <= k < 6 ==> ends_at_separator(#[trigger] sections[k], SEP@),
        !has_part(sections[6], SEP@),
    ensures
        section(joined(sections, SEP@), 2) == trimmed(sections[2]),
        section(joined(sections, SEP@), 4) == trimmed(sections[4]),
        section(joined(sections, SEP@), 6) == trimmed(sections[6]),
{
    reveal_strlit(
        "================================================================================",
    );
    law_split_undoes_join(sections, SEP@);
}

/// The files to write for a reply, by name.
pub open spec fn files_of(output: Seq<char>) -> Seq<(Seq<char>, Seq<char>)> {
    seq![
        ("debug_raw_output.txt"@, output),
        ("resume.txt"@, section(output, 2)),
        ("summary.txt"@, section(output, 4)),
        ("linkedin.txt"@, section(output, 6)),
    ]
}

/// The files to write for a reply.
pub fn output_files(output: &str) -> (r: Vec<(String, String)>)
    ensures
        r.deep_view() == files_of(output@),
{
    let versions = split_versions(output);
    let mut files: Vec<(String, String)> = Vec::new();
    files.push(("debug_raw_output.txt".to_string(), output.to_string()));
    files.push(("resume.txt".to_string(), versions[0].clone()));
    files.push(("summary.txt".to_string(), versions[1].clone()));
    files.push(("linkedin.txt".to_string(), versions[2].clone()));
    assert(files.deep_view() =~= files_of(output@));
    files
}

/// A prompt ends with the whole text that it is about. What stands before that
/// does not depend on the text: it is the template, and no more.
pub proof fn law_a_prompt_ends_with_the_whole_text(text: Seq<char>, other: Seq<char>)
    ensures
        text.is_suffix_of(content_prompt(text)),
        text.is_suffix_of(chunk_prompt(text)),
        content_prompt(text) == PROMPT_TEMPLATE@ + text,
        chunk_prompt(text) == CHUNK_PROMPT_TEMPLATE@ + text,
        content_prompt(text + other) == content_prompt(text) + other,
        chunk_prompt(text + other) == chunk_prompt(text) + other,
{
    assert((PROMPT_TEMPLATE@ + text).skip(PROMPT_TEMPLATE@.len() as int) =~= text);
    assert((CHUNK_PROMPT_TEMPLATE@ + text).skip(CHUNK_PROMPT_TEMPLATE@.len() as int) =~= text);
    assert(PROMPT_TEMPLATE@ + (text + other) =~= PROMPT_TEMPLATE@ + text + other);
    assert(CHUNK_PROMPT_TEMPLATE@ + (text + other) =~= CHUNK_PROMPT_TEMPLATE@ + text + other);
}

/// The prompt of a merge holds each summary, in their order and with the
/// separator between them, and ends with them.
pub proof fn law_each_summary_stands_in_the_merge(
    summaries: Seq<Seq<char>>,
    more: Seq<char>,
    k: int,
)
    requires
        0 <= k < summaries.len(),
    ensures
        has_part(merge_prompt(summaries), summaries[k]),
        merge_prompt(seq![more]) == MERGE_PROMPT_TEMPLATE@ + more,
        merge_prompt(summaries.push(more)) == merge_prompt(summaries) + "\n\n---\n\n"@ + more,
{
    let all = joined(summaries, SUMMARY_SEPARATOR@);
    law_each_part_stands_in_what_is_joined(summaries, SUMMARY_SEPARATOR@, k);
    law_a_part_stands_between_two_others(all, summaries[k]);
    let (before, after) = choose|before: Seq<char>, after: Seq<char>|
        all == #[trigger] (before + summaries[k] + after);
    assert(merge_prompt(summaries) =~= MERGE_PROMPT_TEMPLATE@ + before + summaries[k] + after);
    law_a_part_stands_between_two_others(merge_prompt(summaries), summaries[k]);
    law_joining_puts_the_separator_between(summaries, more, SUMMARY_SEPARATOR@);
    assert(merge_prompt(summaries.push(more)) =~= merge_prompt(summaries) + "\n\n---\n\n"@
        + more);
}

/// Each version is a section of the reply, however many there are; one that is
/// missing is empty.
pub proof fn law_a_missing_section_is_empty(sections: Seq<Seq<char>>, i: int)
    requires
        sections.len() > 0,
        forall|k: int|
            0 <= k < sections.len() - 1 ==> ends_at_separator(#[trigger] sections[k], SEP@),
        !has_part(sections.last(), SEP@),
        0 <= i,
    ensures
        section(joined(sections, SEP@), i) == if i < sections.len() {
            trimmed(sections[i])
        } else {
            Seq::empty()
        },
{
    reveal_strlit(
        "================================================================================",
    );
    law_split_undoes_join(sections, SEP@);
}

/// The reply is written as it came, and behind it each version to its file.
pub proof fn law_the_reply_and_its_versions_are_written(output: Seq<char>)
    ensures
        files_of(output) == seq![
            ("debug_raw_output.txt"@, output),
            ("resume.txt"@, section(output, 2)),
            ("summary.txt"@, section(output, 4)),
            ("linkedin.txt"@, section(output, 6)),
        ],
{
}

} // verus!
