//! Where the diff to summarise comes from, and what a run on it is named after.

use vstd::prelude::*;

use crate::text::push_text;

verus! {

/// Whether the diff is read from the standard input: where no file is named, and
/// something is piped in.
pub fn use_stdin(input_given: bool, stdin_is_terminal: bool) -> (r: bool)
    ensures
        r == (!input_given && !stdin_is_terminal),
{
    !input_given && !stdin_is_terminal
}

/// The parts of the path that is read where nothing else is asked for: the diff
/// of the repository named like the working directory, among the downloads.
pub open spec fn default_input_parts(
    cwd_name: Option<Seq<char>>,
    home: Option<Seq<char>>,
) -> Result<Seq<Seq<char>>, Seq<char>> {
    match (cwd_name, home) {
        (None, _) => Err("Cannot determine repo name from cwd"@),
        (Some(_), None) => Err("HOME env var not set"@),
        (Some(name), Some(home)) => Ok(seq![home, "Downloads"@, name, "diff.txt"@]),
    }
}

/// The parts of the path that is read where nothing else is asked for, given the
/// last component of the working directory, where it is text, and the home
/// directory.
pub fn default_input(cwd_name: Option<&str>, home: Option<&str>) -> (r: Result<
    Vec<String>,
    String,
>)
    ensures
        match r {
            Ok(parts) => default_input_parts(cwd_name.deep_view(), home.deep_view()) == Ok::<
                Seq<Seq<char>>,
                Seq<char>,
            >(parts.deep_view()),
            Err(error) => default_input_parts(cwd_name.deep_view(), home.deep_view()) == Err::<
                Seq<Seq<char>>,
                Seq<char>,
            >(error@),
        },
{
    match (cwd_name, home) {
        (None, _) => Err("Cannot determine repo name from cwd".to_string()),
        (Some(_), None) => Err("HOME env var not set".to_string()),
        (Some(name), Some(home_dir)) => {
            let mut parts: Vec<String> = Vec::new();
            parts.push(home_dir.to_string());
            parts.push("Downloads".to_string());
            parts.push(name.to_string());
            parts.push("diff.txt".to_string());
            assert(parts.deep_view() =~= seq![home_dir@, "Downloads"@, name@, "diff.txt"@]);
            Ok(parts)
        },
    }
}

/// What a run is named after.
pub open spec fn stem_of(from_stdin: bool, file_stem: Option<Seq<char>>) -> Seq<char> {
    if from_stdin {
        "stdin"@
    } else {
        match file_stem {
            Some(stem) => stem,
            None => "diff"@,
        }
    }
}

/// What a run is named after: its input file without the extension, where that
/// is text.
pub fn input_stem(from_stdin: bool, file_stem: Option<&str>) -> (r: String)
    ensures
        r@ == stem_of(from_stdin, file_stem.deep_view()),
{
    if from_stdin {
        return "stdin".to_string();
    }
    match file_stem {
        Some(stem) => stem.to_string(),
        None => "diff".to_string(),
    }
}

/// The name of the checkpoint file of a run.
pub fn checkpoint_file_name(stem: &str) -> (r: String)
    ensures
        r@ == stem@ + ".chunks.json"@,
{
    let mut name: String = stem.to_string();
    push_text(&mut name, ".chunks.json");
    name
}

/// The name of the temporary file that the checkpoint of a run is written to.
pub fn temporary_file_name(stem: &str) -> (r: String)
    ensures
        r@ == stem@ + ".chunks.tmp"@,
{
    let mut name: String = stem.to_string();
    push_text(&mut name, ".chunks.tmp");
    name
}

/// The temporary file of a run is not its checkpoint.
pub proof fn law_the_temporary_file_is_another(stem: Seq<char>)
    ensures
        stem + ".chunks.tmp"@ != stem + ".chunks.json"@,
{
    reveal_strlit(".chunks.tmp");
    reveal_strlit(".chunks.json");
    assert((stem + ".chunks.tmp"@).len() != (stem + ".chunks.json"@).len());
}

/// The default input is the diff of the repository named like the working
/// directory, among the downloads of the home directory. Without such a name, or
/// else without a home directory, there is none.
pub proof fn law_the_default_input_is_named_after_the_directory(
    name: Seq<char>,
    home: Seq<char>,
    any: Option<Seq<char>>,
)
    ensures
        default_input_parts(Some(name), Some(home)) == Ok::<Seq<Seq<char>>, Seq<char>>(
            seq![home, "Downloads"@, name, "diff.txt"@],
        ),
        default_input_parts(None, any) == Err::<Seq<Seq<char>>, Seq<char>>(
            "Cannot determine repo name from cwd"@,
        ),
        default_input_parts(Some(name), None) == Err::<Seq<Seq<char>>, Seq<char>>(
            "HOME env var not set"@,
        ),
{
}

/// A run is named after its input file, or after what stands for one.
pub proof fn law_a_run_is_named_after_its_input(stem: Seq<char>, any: Option<Seq<char>>)
    ensures
        stem_of(true, any) == "stdin"@,
        stem_of(false, Some(stem)) == stem,
        stem_of(false, None) == "diff"@,
{
}

} // verus!
