//! The command line program that writes the summaries: how it is called, and
//! what its output means.

use vstd::prelude::*;

use crate::text::{
    chars_of, contains, has_part, lossy_text, push_text, signed_decimal, signed_number_text,
    starts_with, text_between, trim, trimmed, utf8_text_lossy,
};

verus! {

/// What a failed call reports where the program refused to go on for now.
pub const LIMIT_NOTICE: &'static str = "hit your limit";

/// How the error of such a call starts.
pub const RATE_LIMIT: &'static str = "RATE_LIMIT:";

/// What the errors of a failed call say between the name of the program and the
/// exit code.
pub const EXITED: &'static str = " exited with code ";

/// The line that parts the sections of a reply.
pub const SEP: &'static str =
    "================================================================================";

/// What stands between two partial summaries in the prompt that merges them.
pub const SUMMARY_SEPARATOR: &'static str = "\n\n---\n\n";

/// A call of the program: its arguments, and what it reads as its input.
#[derive(Debug)]
pub struct ClaudeCall {
    pub args: Vec<String>,
    pub prompt: String,
}

/// The arguments of a call.
pub open spec fn claude_args(model: Option<Seq<char>>, effort: Option<Seq<char>>) -> Seq<Seq<char>> {
    seq!["--print"@] + match model {
        Some(m) => seq!["--model"@, m],
        None => Seq::empty(),
    } + match effort {
        Some(e) => seq!["--effort"@, e],
        None => Seq::empty(),
    }
}

/// Builds the arguments of a call.
pub fn build_claude_args(model: Option<&str>, effort: Option<&str>) -> (r: Vec<String>)
    ensures
        r.deep_view() == claude_args(model.deep_view(), effort.deep_view()),
{
    let mut args: Vec<String> = Vec::new();
    args.push("--print".to_string());
    if let Some(m) = model {
        args.push("--model".to_string());
        args.push(m.to_string());
    }
    if let Some(e) = effort {
        args.push("--effort".to_string());
        args.push(e.to_string());
    }
    assert(args.deep_view() =~= claude_args(model.deep_view(), effort.deep_view()));
    args
}

/// `call` passes the model and the effort on, and hands the prompt over.
pub open spec fn is_call(
    call: ClaudeCall,
    prompt: Seq<char>,
    model: Option<Seq<char>>,
    effort: Option<Seq<char>>,
) -> bool {
    &&& call.args.deep_view() == claude_args(model, effort)
    &&& call.prompt@ == prompt
}

/// Prepares a call with the given prompt.
pub fn call_claude(prompt: &str, model: Option<&str>, effort: Option<&str>) -> (r: ClaudeCall)
    ensures
        is_call(r, prompt@, model.deep_view(), effort.deep_view()),
{
    ClaudeCall { args: build_claude_args(model, effort), prompt: prompt.to_string() }
}

/// A prompt: a template and a text.
pub(crate) fn prompt_text(template: &str, text: &str) -> (r: String)
    ensures
        r@ == template@ + text@,
{
    let mut prompt: String = template.to_string();
    push_text(&mut prompt, text);
    prompt
}

/// What a call of the program left behind.
#[derive(Debug)]
pub struct ClaudeOutput {
    /// The program reported success.
    pub success: bool,
    /// The exit code, where the program exited with one.
    pub code: Option<i32>,
    pub stdout: Vec<u8>,
    pub stderr: Vec<u8>,
}

/// An exit code in words.
pub open spec fn exit_code_text(code: Option<i32>) -> Seq<char> {
    match code {
        Some(c) => signed_decimal(c as int),
        None => "unknown"@,
    }
}

/// A failed call that reports the limit.
pub open spec fn hit_limit(success: bool, stdout: Seq<char>, stderr: Seq<char>) -> bool {
    !success && (has_part(stdout, LIMIT_NOTICE@) || has_part(stderr, LIMIT_NOTICE@))
}

/// What the output of a call means: the text that was asked for, or why there
/// is none. Errors speak of the program by its name.
pub open spec fn claude_reply(
    name: Seq<char>,
    success: bool,
    code: Option<i32>,
    stdout: Seq<char>,
    stderr: Seq<char>,
) -> Result<Seq<char>, Seq<char>> {
    if hit_limit(success, stdout, stderr) {
        Err(RATE_LIMIT@ + " "@ + name + EXITED@ + exit_code_text(code) + "."@)
    } else if !success {
        Err(
            name + EXITED@ + exit_code_text(code) + ".\nstdout: "@ + stdout + "\nstderr: "@
                + stderr,
        )
    } else if trimmed(stdout).len() == 0 {
        Err("Empty response from "@ + name)
    } else {
        Ok(trimmed(stdout))
    }
}

/// A text or an error, by its characters.
pub open spec fn result_view(r: Result<String, String>) -> Result<Seq<char>, Seq<char>> {
    match r {
        Ok(text) => Ok(text@),
        Err(error) => Err(error@),
    }
}

/// Reads the output of a call.
pub fn read_claude_reply(
    name: &str,
    success: bool,
    code: Option<i32>,
    stdout: &str,
    stderr: &str,
) -> (r: Result<String, String>)
    ensures
        result_view(r) == claude_reply(name@, success, code, stdout@, stderr@),
{
    if !success {
        let exit_code: String = match code {
            Some(c) => signed_number_text(c),
            None => "unknown".to_string(),
        };
        if contains(stdout, LIMIT_NOTICE) || contains(stderr, LIMIT_NOTICE) {
            let mut message: String = RATE_LIMIT.to_string();
            push_text(&mut message, " ");
            push_text(&mut message, name);
            push_text(&mut message, EXITED);
            push_text(&mut message, exit_code.as_str());
            push_text(&mut message, ".");
            return Err(message);
        }
        let mut message: String = name.to_string();
        push_text(&mut message, EXITED);
        push_text(&mut message, exit_code.as_str());
        push_text(&mut message, ".\nstdout: ");
        push_text(&mut message, stdout);
        push_text(&mut message, "\nstderr: ");
        push_text(&mut message, stderr);
        return Err(message);
    }
    let result = trim(stdout);
    if result.as_str().is_empty() {
        let mut message: String = "Empty response from ".to_string();
        push_text(&mut message, name);
        return Err(message);
    }
    Ok(result)
}

/// Reads the output of a call from its bytes.
pub fn read_claude_output(name: &str, output: &ClaudeOutput) -> (r: Result<String, String>)
    ensures
        result_view(r) == claude_reply(
            name@,
            output.success,
            output.code,
            lossy_text(output.stdout@),
            lossy_text(output.stderr@),
        ),
{
    let stdout = utf8_text_lossy(output.stdout.as_slice());
    let stderr = utf8_text_lossy(output.stderr.as_slice());
    read_claude_reply(name, output.success, output.code, stdout.as_str(), stderr.as_str())
}

/// The name of a program in messages: the command, with a capital letter in
/// front.
pub open spec fn capitalized(command: Seq<char>) -> Seq<char> {
    if command.len() > 0 && 'a' <= command[0] <= 'z' {
        seq![((command[0] as int) - 32) as char] + command.drop_first()
    } else {
        command
    }
}

/// The name of a program in messages.
pub fn program_name(command: &str) -> (r: String)
    ensures
        r@ == capitalized(command@),
{
    let letters = chars_of(command);
    if letters.len() == 0 || letters[0] < 'a' || letters[0] > 'z' {
        return command.to_string();
    }
    let code: u8 = letters[0] as u8;
    let mut name: String = String::new();
    name.push((code - 32) as char);
    push_text(&mut name, text_between(&letters, 1, letters.len()).as_str());
    assert(name@ =~= capitalized(command@));
    name
}

/// An error that says that the limit was hit.
pub open spec fn is_rate_limit(error: Seq<char>) -> bool {
    RATE_LIMIT@.is_prefix_of(error)
}

/// Whether an error says that the limit was hit.
pub fn rate_limited(error: &str) -> (r: bool)
    ensures
        r == is_rate_limit(error@),
{
    starts_with(error, RATE_LIMIT)
}

/// An error is one of the limit exactly where the call failed and reported it,
/// unless the name of the program itself reads like one.
pub proof fn law_rate_limit_is_recognised(
    name: Seq<char>,
    success: bool,
    code: Option<i32>,
    stdout: Seq<char>,
    stderr: Seq<char>,
)
    requires
        !is_rate_limit(name),
    ensures
        match claude_reply(name, success, code, stdout, stderr) {
            Ok(_) => !hit_limit(success, stdout, stderr),
            Err(error) => is_rate_limit(error) <==> hit_limit(success, stdout, stderr),
        },
{
    reveal_strlit("RATE_LIMIT:");
    reveal_strlit(" exited with code ");
    reveal_strlit("Empty response from ");
    let reply = claude_reply(name, success, code, stdout, stderr);
    if let Err(error) = reply {
        if hit_limit(success, stdout, stderr) {
            assert(RATE_LIMIT@ =~= error.take(RATE_LIMIT@.len() as int));
        } else if success {
            assert(error[0] != RATE_LIMIT@[0]);
        } else if is_rate_limit(error) {
            assert(forall|k: int| 0 <= k < RATE_LIMIT@.len() ==> RATE_LIMIT@[k] == error[k]);
            if name.len() < RATE_LIMIT@.len() {
                assert(error[name.len() as int] == ' ');
            } else {
                assert(RATE_LIMIT@ =~= name.take(RATE_LIMIT@.len() as int));
            }
        }
    }
}

/// A call starts with the flag that asks for an answer on the standard output.
/// An effort that is asked for stands at the end, behind its flag; without one
/// there is no such flag, unless the model is named like it.
pub proof fn law_arguments_stand_in_order(model: Option<Seq<char>>, effort: Option<Seq<char>>)
    ensures
        claude_args(model, effort)[0] == "--print"@,
        effort matches Some(e) ==> ({
            let args = claude_args(model, effort);
            args.len() >= 3 && args[args.len() - 2] == "--effort"@ && args.last() == e
        }),
        effort is None && model != Some("--effort"@) ==> !claude_args(model, effort).contains(
            "--effort"@,
        ),
{
    reveal_strlit("--print");
    reveal_strlit("--model");
    reveal_strlit("--effort");
    assert("--print"@[2] != "--effort"@[2]);
    assert("--model"@[2] != "--effort"@[2]);
    if effort is None && model != Some("--effort"@) {
        let args = claude_args(model, effort);
        assert forall|k: int| 0 <= k < args.len() implies args[k] != "--effort"@ by {
            if k == 2 {
                assert(model == Some(args[2]));
            }
        }
    }
}

/// A call holds a model and an effort where they are asked for, each behind its
/// flag, and nothing else but the first flag.
pub proof fn law_every_argument_is_there_once(model: Option<Seq<char>>, effort: Option<Seq<char>>)
    ensures
        claude_args(None, None) == seq!["--print"@],
        model matches Some(m) ==> claude_args(model, None) == seq!["--print"@, "--model"@, m],
        effort matches Some(e) ==> claude_args(None, effort) == seq!["--print"@, "--effort"@, e],
        model is Some && effort is Some ==> claude_args(model, effort) == seq![
            "--print"@,
            "--model"@,
            model->0,
            "--effort"@,
            effort->0,
        ],
{
}

/// A prepared call hands over exactly its prompt and its arguments, and a reply
/// is the text or the error that it holds.
pub proof fn law_a_call_hands_over_its_prompt(
    call: ClaudeCall,
    prompt: Seq<char>,
    model: Option<Seq<char>>,
    effort: Option<Seq<char>>,
    text: String,
)
    ensures
        is_call(call, prompt, model, effort) <==> call.prompt@ == prompt && call.args.deep_view()
            == claude_args(model, effort),
        result_view(Ok(text)) == Ok::<Seq<char>, Seq<char>>(text@),
        result_view(Err(text)) == Err::<Seq<char>, Seq<char>>(text@),
{
}

/// A call that succeeded gives its output without the white space around it, and
/// an error only where nothing is left. A call that failed gives an error: that
/// of the limit where either output speaks of it, and both outputs otherwise.
pub proof fn law_an_output_is_a_reply_or_an_error(
    name: Seq<char>,
    success: bool,
    code: Option<i32>,
    stdout: Seq<char>,
    stderr: Seq<char>,
)
    ensures
        ({
            let reply = claude_reply(name, success, code, stdout, stderr);
            let limited = has_part(stdout, "hit your limit"@) || has_part(
                stderr,
                "hit your limit"@,
            );
            let exit = match code {
                Some(c) => signed_decimal(c as int),
                None => "unknown"@,
            };
            &&& success && trimmed(stdout).len() > 0 ==> reply == Ok::<Seq<char>, Seq<char>>(
                trimmed(stdout),
            )
            &&& success && trimmed(stdout).len() == 0 ==> reply == Err::<Seq<char>, Seq<char>>(
                "Empty response from "@ + name,
            )
            &&& !success && limited ==> reply == Err::<Seq<char>, Seq<char>>(
                "RATE_LIMIT:"@ + " "@ + name + " exited with code "@ + exit + "."@,
            )
            &&& !success && !limited ==> reply == Err::<Seq<char>, Seq<char>>(
                name + " exited with code "@ + exit + ".\nstdout: "@ + stdout + "\nstderr: "@
                    + stderr,
            )
        }),
{
}

/// An error is one of the limit by how it starts, whatever follows.
pub proof fn law_the_limit_is_known_by_its_start(rest: Seq<char>, error: Seq<char>)
    ensures
        is_rate_limit("RATE_LIMIT:"@ + rest),
        is_rate_limit(error) ==> error == "RATE_LIMIT:"@ + error.skip("RATE_LIMIT:"@.len() as int),
{
    let mark = "RATE_LIMIT:"@;
    assert((mark + rest).take(mark.len() as int) =~= mark);
    if is_rate_limit(error) {
        assert(error =~= mark + error.skip(mark.len() as int));
    }
}

/// The name of a program differs from the command in its first letter only, and
/// there in a small letter only.
pub proof fn law_only_the_first_letter_is_capitalized(first: char, rest: Seq<char>)
    ensures
        capitalized(Seq::empty()) == Seq::<char>::empty(),
        capitalized(seq![first] + rest).drop_first() == rest,
        'a' <= first <= 'z' ==> capitalized(seq![first] + rest)[0] as int - 'A' as int == first as int
            - 'a' as int,
        !('a' <= first <= 'z') ==> capitalized(seq![first] + rest)[0] == first,
{
    let command = seq![first] + rest;
    assert(command.drop_first() =~= rest);
    assert(capitalized(command).drop_first() =~= rest);
}

/// The sections of a reply are parted by a line of eighty equals signs.
pub proof fn law_the_separator_is_a_line_of_equals_signs()
    ensures
        SEP@ == Seq::new(80, |i: int| '='),
        SUMMARY_SEPARATOR@ == seq!['\n', '\n', '-', '-', '-', '\n', '\n'],
{
    reveal_strlit(
        "================================================================================",
    );
    reveal_strlit("\n\n---\n\n");
    assert(SEP@ =~= Seq::new(80, |i: int| '='));
    assert(SUMMARY_SEPARATOR@ =~= seq!['\n', '\n', '-', '-', '-', '\n', '\n']);
}

} // verus!
