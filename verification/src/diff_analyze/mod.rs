//! The program that turns a long diff into two versions of a project summary,
//! with a checkpoint that a later run goes on from.

pub mod laws;
pub mod prompts;
pub mod summary;

use vstd::prelude::*;

use crate::claude::{call_claude, is_call, prompt_text, ClaudeCall, SEP, SUMMARY_SEPARATOR};
use crate::text::{
    decimal, ends_at_separator, has_part, join, joined, law_a_part_stands_between_two_others,
    law_each_part_stands_in_what_is_joined, law_joining_puts_the_separator_between,
    law_split_undoes_join, number_text, pieces, push_text, split, trim, trimmed,
};
use prompts::{
    CHUNK_PROMPT_TEMPLATE, DIRECTIVE_END, DIRECTIVE_MIDDLE, DIRECTIVE_START, MERGE_PROMPT_TEMPLATE,
    PROMPT_TEMPLATE,
};

verus! {

/// The directive that stands before every prompt that a program gets.
pub open spec fn stdout_only_directive(program: Seq<char>) -> Seq<char> {
    DIRECTIVE_START@ + program + DIRECTIVE_MIDDLE@ + program + DIRECTIVE_END@
}

/// The prompt that asks a program for the summary of a whole diff.
pub open spec fn content_prompt(program: Seq<char>, content: Seq<char>) -> Seq<char> {
    stdout_only_directive(program) + PROMPT_TEMPLATE@ + content
}

/// The prompt that asks a program for what one chunk holds.
pub open spec fn chunk_prompt(program: Seq<char>, chunk: Seq<char>) -> Seq<char> {
    stdout_only_directive(program) + CHUNK_PROMPT_TEMPLATE@ + chunk
}

/// The prompt that asks a program for one summary out of several.
pub open spec fn merge_prompt(program: Seq<char>, summaries: Seq<Seq<char>>) -> Seq<char> {
    stdout_only_directive(program) + MERGE_PROMPT_TEMPLATE@ + joined(
        summaries,
        SUMMARY_SEPARATOR@,
    )
}

/// What a program gets to read: the directive, a template and a text.
fn directed_prompt(program: &str, template: &str, text: &str) -> (r: String)
    ensures
        r@ == stdout_only_directive(program@) + template@ + text@,
{
    let mut prompt: String = DIRECTIVE_START.to_string();
    push_text(&mut prompt, program);
    push_text(&mut prompt, DIRECTIVE_MIDDLE);
    push_text(&mut prompt, program);
    push_text(&mut prompt, DIRECTIVE_END);
    push_text(&mut prompt, template);
    prompt_text(prompt.as_str(), text)
}

/// The call that asks a program for the summary of a whole diff.
pub fn summarize_content_direct(
    content: &str,
    model: Option<&str>,
    effort: Option<&str>,
    program: &str,
) -> (r: ClaudeCall)
    ensures
        is_call(r, content_prompt(program@, content@), model.deep_view(), effort.deep_view()),
{
    call_claude(directed_prompt(program, PROMPT_TEMPLATE, content).as_str(), model, effort)
}

/// The call that asks a program for what one chunk holds.
pub fn summarize_chunk(
    chunk: &str,
    model: Option<&str>,
    effort: Option<&str>,
    program: &str,
) -> (r: ClaudeCall)
    ensures
        is_call(r, chunk_prompt(program@, chunk@), model.deep_view(), effort.deep_view()),
{
    call_claude(directed_prompt(program, CHUNK_PROMPT_TEMPLATE, chunk).as_str(), model, effort)
}

/// The call that asks a program for one summary out of several.
pub fn merge_summaries(
    summaries: &Vec<String>,
    model: Option<&str>,
    effort: Option<&str>,
    program: &str,
) -> (r: ClaudeCall)
    ensures
        is_call(
            r,
            merge_prompt(program@, summaries.deep_view()),
            model.deep_view(),
            effort.deep_view(),
        ),
{
    let combined = join(summaries, SUMMARY_SEPARATOR);
    call_claude(
        directed_prompt(program, MERGE_PROMPT_TEMPLATE, combined.as_str()).as_str(),
        model,
        effort,
    )
}

/// A reply that has too few sections to hold two versions.
#[derive(Debug)]
pub struct TooFewSections {
    /// How many it has.
    pub sections: usize,
}

impl TooFewSections {
    /// What the error reports of a reply of the program with this name.
    pub open spec fn report(self, name: Seq<char>) -> Seq<char> {
        name + " output did not contain the expected delimiter pattern (got "@ + decimal(
            self.sections as nat,
        ) + " sections, need 5). Check debug_raw_output.txt to see the raw response."@
    }

    /// The message of the error.
    pub fn message(&self, name: &str) -> (r: String)
        ensures
            r@ == self.report(name@),
    {
        let mut message: String = name.to_string();
        push_text(
            &mut message,
            " output did not contain the expected delimiter pattern (got ",
        );
        push_text(&mut message, number_text(self.sections as u64).as_str());
        push_text(
            &mut message,
            " sections, need 5). Check debug_raw_output.txt to see the raw response.",
        );
        message
    }
}

/// The two versions that a reply holds: the sections behind the two headers. A
/// reply with too few sections holds none.
pub open spec fn versions_of(output: Seq<char>) -> Option<(Seq<char>, Seq<char>)> {
    let parts = pieces(output, SEP@);
    if parts.len() < 5 {
        None
    } else {
        Some((trimmed(parts[2]), trimmed(parts[4])))
    }
}

/// Takes the two versions out of a reply.
pub fn split_versions(output: &str) -> (r: Result<[String; 2], TooFewSections>)
    ensures
        match r {
            Ok(versions) => versions_of(output@) == Some((versions@[0]@, versions@[1]@)),
            Err(error) => versions_of(output@) is None && error.sections == pieces(
                output@,
                SEP@,
            ).len(),
        },
{
    proof {
        reveal_strlit(
            "================================================================================",
        );
    }
    let parts = split(output, SEP);
    let n: usize = parts.len();
    assert(parts.deep_view().len() == n);
    if n < 5 {
        return Err(TooFewSections { sections: n });
    }
    let resume = trim(parts[2].as_str());
    let summary = trim(parts[4].as_str());
    Ok([resume, summary])
}

/// A reply that has the shape that was asked for gives its two versions, without
/// the white space around them.
pub proof fn law_versions_come_out_of_their_sections(sections: Seq<Seq<char>>)
    requires
        sections.len() == 5,
        forall|k: int| 0 <= k < 4 ==> ends_at_separator(#[trigger] sections[k], SEP@),
        !has_part(sections[4], SEP@),
    ensures
        versions_of(joined(sections, SEP@)) == Some((trimmed(sections[2]), trimmed(sections[4]))),
{
    reveal_strlit(
        "================================================================================",
    );
    law_split_undoes_join(sections, SEP@);
}

/// The file that takes a reply as it came.
pub const RAW_FILE: &'static str = "debug_raw_output.txt";

/// The files to write for a reply, by name. The reply itself is written in any
/// case.
pub open spec fn files_of(output: Seq<char>) -> Seq<(Seq<char>, Seq<char>)> {
    match versions_of(output) {
        Some((resume, summary)) => {
            seq![(RAW_FILE@, output), ("resume.md"@, resume), ("summary.md"@, summary)]
        },
        None => seq![(RAW_FILE@, output)],
    }
}

/// The files to write for a reply, and the error to end with then.
pub fn output_files(output: &str) -> (r: (Vec<(String, String)>, Option<TooFewSections>))
    ensures
        r.0.deep_view() == files_of(output@),
        r.1 is Some <==> versions_of(output@) is None,
        r.1 matches Some(error) ==> error.sections == pieces(output@, SEP@).len(),
{
    let mut files: Vec<(String, String)> = Vec::new();
    files.push((RAW_FILE.to_string(), output.to_string()));
    match split_versions(output) {
        Ok(versions) => {
            files.push(("resume.md".to_string(), versions[0].clone()));
            files.push(("summary.md".to_string(), versions[1].clone()));
            assert(files.deep_view() =~= files_of(output@));
            (files, None)
        },
        Err(error) => {
            assert(files.deep_view() =~= files_of(output@));
            (files, Some(error))
        },
    }
}

/// A prompt ends with the whole text that it is about. What stands before that
/// does not depend on the text: it is the directive and the template, and no more.
pub proof fn law_a_prompt_ends_with_the_whole_text(
    program: Seq<char>,
    text: Seq<char>,
    other: Seq<char>,
)
    ensures
        text.is_suffix_of(content_prompt(program, text)),
        text.is_suffix_of(chunk_prompt(program, text)),
        content_prompt(program, text).len() == stdout_only_directive(program).len()
            + PROMPT_TEMPLATE@.len() + text.len(),
        chunk_prompt(program, text).len() == stdout_only_directive(program).len()
            + CHUNK_PROMPT_TEMPLATE@.len() + text.len(),
        content_prompt(program, text) == stdout_only_directive(program) + PROMPT_TEMPLATE@ + text,
        chunk_prompt(program, text) == stdout_only_directive(program) + CHUNK_PROMPT_TEMPLATE@
            + text,
        content_prompt(program, text + other) == content_prompt(program, text) + other,
        chunk_prompt(program, text + other) == chunk_prompt(program, text) + other,
{
    let head = stdout_only_directive(program) + PROMPT_TEMPLATE@;
    let chunk_head = stdout_only_directive(program) + CHUNK_PROMPT_TEMPLATE@;
    assert((head + text).skip(head.len() as int) =~= text);
    assert((chunk_head + text).skip(chunk_head.len() as int) =~= text);
    assert(head + (text + other) =~= head + text + other);
    assert(chunk_head + (text + other) =~= chunk_head + text + other);
}

/// The prompt of a merge holds each summary, in their order and with the
/// separator between them, and ends with them.
pub proof fn law_each_summary_stands_in_the_merge(
    program: Seq<char>,
    summaries: Seq<Seq<char>>,
    more: Seq<char>,
    k: int,
)
    requires
        0 <= k < summaries.len(),
    ensures
        has_part(merge_prompt(program, summaries), summaries[k]),
        merge_prompt(program, seq![more]) == stdout_only_directive(program)
            + MERGE_PROMPT_TEMPLATE@ + more,
        merge_prompt(program, summaries.push(more)) == merge_prompt(program, summaries)
            + "\n\n---\n\n"@ + more,
{
    let head = stdout_only_directive(program) + MERGE_PROMPT_TEMPLATE@;
    let all = joined(summaries, SUMMARY_SEPARATOR@);
    law_each_part_stands_in_what_is_joined(summaries, SUMMARY_SEPARATOR@, k);
    law_a_part_stands_between_two_others(all, summaries[k]);
    let (before, after) = choose|before: Seq<char>, after: Seq<char>|
        all == #[trigger] (before + summaries[k] + after);
    assert(merge_prompt(program, summaries) =~= head + before + summaries[k] + after);
    law_a_part_stands_between_two_others(merge_prompt(program, summaries), summaries[k]);
    law_joining_puts_the_separator_between(summaries, more, SUMMARY_SEPARATOR@);
    assert(merge_prompt(program, summaries.push(more)) =~= merge_prompt(program, summaries)
        + "\n\n---\n\n"@ + more);
}

/// The directive names the program where it tells of the call and of the
/// directory, and is the same for every program otherwise.
pub proof fn law_the_directive_names_the_program_twice(program: Seq<char>)
    ensures
        stdout_only_directive(program) == DIRECTIVE_START@ + program + DIRECTIVE_MIDDLE@ + program
            + DIRECTIVE_END@,
        stdout_only_directive(program).len() == stdout_only_directive(Seq::empty()).len() + 2
            * program.len(),
{
}

/// A reply has its versions in its third and fifth section, however many follow.
/// With fewer than five it has none, and the error tells how many there are.
pub proof fn law_versions_are_the_third_and_the_fifth_section(
    sections: Seq<Seq<char>>,
    name: Seq<char>,
    error: TooFewSections,
)
    requires
        sections.len() > 0,
        forall|k: int|
            0 <= k < sections.len() - 1 ==> ends_at_separator(#[trigger] sections[k], SEP@),
        !has_part(sections.last(), SEP@),
    ensures
        sections.len() >= 5 ==> versions_of(joined(sections, SEP@)) == Some(
            (trimmed(sections[2]), trimmed(sections[4])),
        ),
        sections.len() < 5 ==> versions_of(joined(sections, SEP@)) is None,
        pieces(joined(sections, SEP@), SEP@).len() == sections.len(),
        error.report(name) == name
            + " output did not contain the expected delimiter pattern (got "@ + decimal(
            error.sections as nat,
        ) + " sections, need 5). Check debug_raw_output.txt to see the raw response."@,
{
    reveal_strlit(
        "================================================================================",
    );
    law_split_undoes_join(sections, SEP@);
}

/// The reply is written as it came, and behind it each version to its file, where
/// there are any.
pub proof fn law_the_reply_and_its_versions_are_written(output: Seq<char>)
    ensures
        files_of(output)[0] == ("debug_raw_output.txt"@, output),
        versions_of(output) is None ==> files_of(output).len() == 1,
        versions_of(output) matches Some((resume, summary)) ==> files_of(output) == seq![
            ("debug_raw_output.txt"@, output),
            ("resume.md"@, resume),
            ("summary.md"@, summary),
        ],
{
}

} // verus!
