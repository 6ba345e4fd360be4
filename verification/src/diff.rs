//! The filtered history of a repository: which commits are shown, and what is
//! shown of them.

use chrono::{TimeZone, Utc};
use vstd::prelude::*;

use crate::diff_line::{in_source_after, shown_line, DiffLineProcessor, PatchLine};
use crate::stats::{is_lock_path, listed_file, parse_stats_line};
use crate::text::{
    ends_at_separator, joined, law_lines_end_at_line_feeds, law_split_undoes_join, lines, lines_of,
    occurs_at, pieces, push_text, same_text, split, trim, trimmed,
};

verus! {

/// A diff with more changed lines than this is not shown at all.
pub const MAX_DIFF_CHANGES: usize = 2000;

/// How the date of a commit is written.
pub const COMMIT_DATE_FORMAT: &'static str = "%Y-%m-%d %H:%M:%S UTC";

/// Why the history of a repository could not be written.
#[derive(Debug)]
pub enum DiffError {
    /// The path of the repository has no last part that is text.
    NoRepoName,
    /// The statistics of a diff are no text.
    InvalidStatsBuffer,
    /// The time of a commit is no date.
    InvalidTimestamp,
    /// The repository could not be read; holds what it reported.
    Repository(String),
}

impl DiffError {
    /// A second error like this one.
    pub fn copied(&self) -> (r: DiffError)
        ensures
            r == *self,
    {
        match self {
            DiffError::NoRepoName => DiffError::NoRepoName,
            DiffError::InvalidStatsBuffer => DiffError::InvalidStatsBuffer,
            DiffError::InvalidTimestamp => DiffError::InvalidTimestamp,
            DiffError::Repository(message) => DiffError::Repository(message.clone()),
        }
    }

    /// What the error reports.
    pub open spec fn report(self) -> Seq<char> {
        match self {
            DiffError::NoRepoName => "Cannot determine repo name from path"@,
            DiffError::InvalidStatsBuffer => "Invalid stats buffer"@,
            DiffError::InvalidTimestamp => "Invalid timestamp"@,
            DiffError::Repository(message) => message@,
        }
    }

    /// The message of the error.
    pub fn message(&self) -> (r: String)
        ensures
            r@ == self.report(),
    {
        match self {
            DiffError::NoRepoName => "Cannot determine repo name from path".to_string(),
            DiffError::InvalidStatsBuffer => "Invalid stats buffer".to_string(),
            DiffError::InvalidTimestamp => "Invalid timestamp".to_string(),
            DiffError::Repository(message) => message.clone(),
        }
    }
}

/// The name of a repository: the last part of its resolved path, where that
/// part is text.
pub fn repo_name(file_name: Option<&str>) -> (r: Result<String, DiffError>)
    ensures
        match file_name {
            Some(name) => r matches Ok(n) && n@ == name@,
            None => r == Err::<String, DiffError>(DiffError::NoRepoName),
        },
{
    match file_name {
        Some(name) => Ok(name.to_string()),
        None => Err(DiffError::NoRepoName),
    }
}

/// The authors whose commits are shown: the comma-separated names that were
/// asked for, or else the name that the repository is configured with, or else
/// the name that the user is configured with.
pub open spec fn detected_authors(
    asked: Option<Seq<char>>,
    local: Option<Seq<char>>,
    global: Option<Seq<char>>,
) -> Seq<Seq<char>> {
    match (asked, local, global) {
        (Some(names), _, _) => pieces(names, ","@).map_values(|name: Seq<char>| trimmed(name)),
        (None, Some(name), _) => seq![name],
        (None, None, Some(name)) => seq![name],
        (None, None, None) => Seq::empty(),
    }
}

/// Finds the authors whose commits are shown.
pub fn detect_authors(
    override_authors: Option<&str>,
    local_name: Option<String>,
    global_name: Option<String>,
) -> (r: Vec<String>)
    ensures
        r.deep_view() == detected_authors(
            override_authors.deep_view(),
            local_name.deep_view(),
            global_name.deep_view(),
        ),
{
    if let Some(names) = override_authors {
        proof {
            reveal_strlit(",");
        }
        let parts = split(names, ",");
        let mut out: Vec<String> = Vec::new();
        let mut i: usize = 0;
        while i < parts.len()
            invariant
                i <= parts@.len(),
                out@.len() == i,
                forall|k: int| 0 <= k < i ==> (#[trigger] out@[k])@ == trimmed(parts@[k]@),
            decreases parts@.len() - i,
        {
            out.push(trim(parts[i].as_str()));
            i = i + 1;
        }
        assert(out.deep_view() =~= parts.deep_view().map_values(
            |name: Seq<char>| trimmed(name),
        ));
        return out;
    }
    let mut out: Vec<String> = Vec::new();
    if let Some(name) = local_name {
        out.push(name);
    } else if let Some(name) = global_name {
        out.push(name);
    }
    assert(out.deep_view() =~= detected_authors(
        override_authors.deep_view(),
        local_name.deep_view(),
        global_name.deep_view(),
    ));
    out
}

/// The statistics of a diff as text.
#[derive(Debug)]
pub enum StatsText {
    /// The statistics, a line for each file.
    Text(String),
    /// The statistics are no text.
    NotText,
    /// The repository could not give them; holds what it reported.
    Unavailable(String),
}

/// What a diff changes, in numbers and as text.
#[derive(Debug)]
pub struct StatsInfo {
    pub insertions: usize,
    pub deletions: usize,
    pub text: StatsText,
}

/// The files that the lines of a diff's statistics list, in order.
pub open spec fn listed_files(text: Seq<char>) -> Seq<Seq<char>> {
    lines_of(text).filter_map(|line: Seq<char>| listed_file(line))
}

/// The files of a diff that are shown: none where the diff as a whole is too
/// large.
pub open spec fn shown_files(stats: StatsInfo) -> Result<Seq<Seq<char>>, DiffError> {
    if stats.insertions + stats.deletions > MAX_DIFF_CHANGES {
        Ok(Seq::empty())
    } else {
        match stats.text {
            StatsText::Text(text) => Ok(listed_files(text@)),
            StatsText::NotText => Err(DiffError::InvalidStatsBuffer),
            StatsText::Unavailable(message) => Err(DiffError::Repository(message)),
        }
    }
}

/// Finds the files of a diff that are shown.
pub fn filter_out_large_change_files(stats: &StatsInfo) -> (r: Result<Vec<String>, DiffError>)
    ensures
        match shown_files(*stats) {
            Ok(files) => r matches Ok(v) && v.deep_view() == files,
            Err(e) => r == Err::<Vec<String>, DiffError>(e),
        },
{
    if stats.insertions > MAX_DIFF_CHANGES || stats.deletions > MAX_DIFF_CHANGES - stats.insertions {
        let none: Vec<String> = Vec::new();
        assert(none.deep_view() =~= Seq::<Seq<char>>::empty());
        return Ok(none);
    }
    let text: &String = match &stats.text {
        StatsText::Text(text) => text,
        StatsText::NotText => {
            return Err(DiffError::InvalidStatsBuffer);
        },
        StatsText::Unavailable(message) => {
            return Err(DiffError::Repository(message.clone()));
        },
    };
    let all = lines(text.as_str());
    let ghost listed = |line: Seq<char>| listed_file(line);
    let mut out: Vec<String> = Vec::new();
    let mut i: usize = 0;
    assert(out.deep_view() =~= all.deep_view().take(0).filter_map(listed));
    while i < all.len()
        invariant
            i <= all@.len(),
            listed == (|line: Seq<char>| listed_file(line)),
            out.deep_view() == all.deep_view().take(i as int).filter_map(listed),
        decreases all@.len() - i,
    {
        let ghost before = out.deep_view();
        proof {
            assert(all.deep_view().take(i + 1).drop_last() =~= all.deep_view().take(i as int));
            assert(all.deep_view().take(i + 1).last() == all@[i as int]@);
        }
        if let Some(file) = parse_stats_line(all[i].as_str()) {
            out.push(file);
            assert(out.deep_view() =~= before + seq![file@]);
        }
        i = i + 1;
    }
    assert(all.deep_view().take(i as int) =~= all.deep_view());
    Ok(out)
}

/// How a diff is computed: the lines of context, the paths that it is limited
/// to, and the kinds of white space that it passes over.
#[derive(Debug)]
pub struct DiffSettings {
    pub context_lines: u32,
    pub pathspecs: Vec<String>,
    pub ignore_blank_lines: bool,
    pub ignore_whitespace: bool,
    pub ignore_whitespace_change: bool,
    pub ignore_whitespace_eol: bool,
}

/// Prepares the diff that is shown, from the statistics of the whole diff. A
/// path of one space, which names no file, keeps a diff without files empty.
pub fn prepare_diff_options(stats: &StatsInfo) -> (r: Result<DiffSettings, DiffError>)
    ensures
        match shown_files(*stats) {
            Ok(files) => {
                &&& r matches Ok(settings)
                &&& settings.context_lines == 2
                &&& settings.pathspecs.deep_view() == seq![" "@] + files
                &&& settings.ignore_blank_lines
                &&& settings.ignore_whitespace
                &&& settings.ignore_whitespace_change
                &&& settings.ignore_whitespace_eol
            },
            Err(e) => r == Err::<DiffSettings, DiffError>(e),
        },
{
    let mut files = match filter_out_large_change_files(stats) {
        Ok(files) => files,
        Err(e) => {
            return Err(e);
        },
    };
    let mut pathspecs: Vec<String> = Vec::new();
    pathspecs.push(" ".to_string());
    let ghost shown = files.deep_view();
    pathspecs.append(&mut files);
    assert(pathspecs.deep_view() =~= seq![" "@] + shown);
    Ok(
        DiffSettings {
            context_lines: 2,
            pathspecs,
            ignore_blank_lines: true,
            ignore_whitespace: true,
            ignore_whitespace_change: true,
            ignore_whitespace_eol: true,
        },
    )
}

/// A commit as far as its display depends on it.
#[derive(Debug)]
pub struct CommitInfo {
    pub parent_count: usize,
    /// The name of the author, where it is text.
    pub author: Option<String>,
    /// The time of the commit, in seconds since the epoch.
    pub seconds: i64,
    /// The message, where it is text.
    pub message: Option<String>,
}

/// A commit is shown where it is no merge and one of the authors wrote it.
pub open spec fn is_shown_commit(commit: CommitInfo, authors: Seq<Seq<char>>) -> bool {
    &&& commit.parent_count <= 1
    &&& commit.author matches Some(name)
    &&& authors.contains(name@)
}

/// Whether a commit is shown.
pub fn is_commit_valid(commit: &CommitInfo, authors: &Vec<String>) -> (r: bool)
    ensures
        r == is_shown_commit(*commit, authors.deep_view()),
{
    if commit.parent_count > 1 {
        return false;
    }
    let name: &String = match &commit.author {
        Some(name) => name,
        None => {
            return false;
        },
    };
    let ghost names = authors.deep_view();
    let mut i: usize = 0;
    while i < authors.len()
        invariant
            i <= authors@.len(),
            names == authors.deep_view(),
            commit.parent_count <= 1,
            commit.author == Some(*name),
            forall|k: int| 0 <= k < i ==> #[trigger] names[k] != name@,
        decreases authors@.len() - i,
    {
        if same_text(authors[i].as_str(), name.as_str()) {
            assert(names[i as int] == name@);
            return true;
        }
        i = i + 1;
    }
    false
}

/// The date and time, in UTC, of a number of seconds since the epoch, written
/// in a format of `chrono`, where the seconds lie in the range of its dates.
pub uninterp spec fn utc_date(seconds: i64, format: Seq<char>) -> Option<Seq<char>>;

/// `TimeZone::timestamp_opt` for `Utc` and `DateTime::format`: the date and
/// time of the seconds, in the given format, where there is one. What is left
/// unsaid is how the date is computed and which years have one.
#[verifier::external_body]
fn format_utc(seconds: i64, format: &str) -> (r: Option<String>)
    requires
        format@ == COMMIT_DATE_FORMAT@,
    ensures
        r.deep_view() == utc_date(seconds, format@),
{
    Utc.timestamp_opt(seconds, 0).single().map(|time| time.format(format).to_string())
}

/// The path of the file that a line of a diff belongs to: that of the line, or
/// else that of the line before.
pub open spec fn file_of_line(line: PatchLine, current: Seq<char>) -> Seq<char> {
    match line.path {
        Some(path) => path@,
        None => current,
    }
}

/// What is shown of the lines of a diff, with a processor that may be inside a
/// source block, from the file `current` on.
pub open spec fn shown_patch(in_source: bool, current: Seq<char>, patch: Seq<PatchLine>) -> Seq<
    Seq<char>,
>
    decreases patch.len(),
{
    if patch.len() == 0 {
        Seq::empty()
    } else {
        let line = patch[0];
        let file = file_of_line(line, current);
        let rest = shown_patch(
            in_source_after(in_source, line.content@, file),
            file,
            patch.drop_first(),
        );
        match shown_line(in_source, line.origin, line.content@, file) {
            Some(text) => seq![text] + rest,
            None => rest,
        }
    }
}

/// The text of a message that may be missing.
pub open spec fn message_text(message: Option<String>) -> Seq<char> {
    match message {
        Some(text) => text@,
        None => ""@,
    }
}

/// What is shown of a commit with the given date, line by line.
pub open spec fn commit_lines(
    date: Seq<char>,
    message: Seq<char>,
    patch: Seq<PatchLine>,
) -> Seq<Seq<char>> {
    seq!["commit date: "@ + date + "\n"@, "commit message: "@ + message + "\n"@] + shown_patch(
        false,
        ""@,
        patch,
    )
}

/// A text between two others.
fn enclosed(before: &str, s: &str, after: &str) -> (r: String)
    ensures
        r@ == before@ + s@ + after@,
{
    let mut out: String = before.to_string();
    push_text(&mut out, s);
    push_text(&mut out, after);
    out
}

/// What is shown of a commit with the given date, line by line.
pub fn dated_diff_lines(date: &str, commit: &CommitInfo, patch: &Vec<PatchLine>) -> (r: Vec<String>)
    ensures
        r.deep_view() == commit_lines(date@, message_text(commit.message), patch@),
{
    let message: &str = match &commit.message {
        Some(text) => text.as_str(),
        None => "",
    };
    let mut out: Vec<String> = Vec::new();
    out.push(enclosed("commit date: ", date, "\n"));
    out.push(enclosed("commit message: ", message, "\n"));
    let mut processor = DiffLineProcessor::default();
    let mut current: String = String::new();
    let mut i: usize = 0;
    let ghost shown = commit_lines(date@, message@, patch@);
    proof {
        reveal_strlit("");
        assert(current@ =~= ""@);
        assert(patch@.skip(0) =~= patch@);
        assert(out.deep_view() + shown_patch(false, ""@, patch@.skip(0)) =~= shown);
    }
    while i < patch.len()
        invariant
            i <= patch@.len(),
            out.deep_view() + shown_patch(
                processor.in_ipynb_source,
                current@,
                patch@.skip(i as int),
            ) == shown,
        decreases patch@.len() - i,
    {
        let ghost before = out.deep_view();
        let ghost in_source = processor.in_ipynb_source;
        let ghost old_file = current@;
        let ghost rest = patch@.skip(i as int);
        let line: &PatchLine = &patch[i];
        if let Some(path) = &line.path {
            current = path.clone();
        }
        let result = processor.process_diff_line(line, current.as_str());
        if let Some(text) = result {
            out.push(text);
            assert(out.deep_view() =~= before.push(text@));
        }
        i = i + 1;
        proof {
            assert(rest[0] == *line);
            assert(rest.drop_first() =~= patch@.skip(i as int));
            let tail = shown_patch(processor.in_ipynb_source, current@, patch@.skip(i as int));
            assert(out.deep_view() + tail =~= before + shown_patch(in_source, old_file, rest));
        }
    }
    assert(shown_patch(processor.in_ipynb_source, current@, patch@.skip(i as int)) =~= Seq::<
        Seq<char>,
    >::empty());
    assert(out.deep_view() =~= shown);
    out
}

/// What is shown of a commit, line by line. Fails where its time is no date.
pub fn get_diff_lines(commit: &CommitInfo, patch: &Vec<PatchLine>) -> (r: Result<
    Vec<String>,
    DiffError,
>)
    ensures
        match utc_date(commit.seconds, COMMIT_DATE_FORMAT@) {
            Some(date) => r matches Ok(v) && v.deep_view() == commit_lines(
                date,
                message_text(commit.message),
                patch@,
            ),
            None => r == Err::<Vec<String>, DiffError>(DiffError::InvalidTimestamp),
        },
{
    match commit_date(commit.seconds) {
        Some(date) => Ok(dated_diff_lines(date.as_str(), commit, patch)),
        None => Err(DiffError::InvalidTimestamp),
    }
}

/// The date of a commit at the given time, where there is one.
pub fn commit_date(seconds: i64) -> (r: Option<String>)
    ensures
        r.deep_view() == utc_date(seconds, COMMIT_DATE_FORMAT@),
{
    format_utc(seconds, COMMIT_DATE_FORMAT)
}

/// A commit with the lines of its diff, or with what kept them from being read.
#[derive(Debug)]
pub struct CommitRecord {
    pub info: CommitInfo,
    pub patch: Result<Vec<PatchLine>, DiffError>,
}

/// What is written of a commit that is shown.
pub open spec fn commit_text(record: CommitRecord) -> Result<Seq<char>, DiffError> {
    match record.patch {
        Ok(patch) => match utc_date(record.info.seconds, COMMIT_DATE_FORMAT@) {
            Some(date) => Ok(
                commit_lines(date, message_text(record.info.message), patch@).flatten(),
            ),
            None => Err(DiffError::InvalidTimestamp),
        },
        Err(e) => Err(e),
    }
}

/// What a walk over commits has written, whether it has shown one, and what
/// ended it early.
pub struct Walk {
    pub text: Seq<char>,
    pub found: bool,
    pub error: Option<DiffError>,
}

/// The walk over commits in their order. The first shown commit that cannot be
/// written ends it.
pub open spec fn walk(records: Seq<CommitRecord>, authors: Seq<Seq<char>>) -> Walk
    decreases records.len(),
{
    if records.len() == 0 {
        Walk { text: Seq::empty(), found: false, error: None }
    } else {
        let before = walk(records.drop_last(), authors);
        let record = records.last();
        if before.error is Some || !is_shown_commit(record.info, authors) {
            before
        } else {
            match commit_text(record) {
                Ok(text) => Walk { text: before.text + text, found: true, error: None },
                Err(e) => Walk { error: Some(e), ..before },
            }
        }
    }
}

/// What stands before the history of a repository.
pub open spec fn header(repo_name: Seq<char>) -> Seq<char> {
    "project name: "@ + repo_name + "\n\n"@
}

/// Writes what stands before the history of a repository.
pub fn write_header(writer: &mut String, repo_name: &str)
    ensures
        final(writer)@ == old(writer)@ + header(repo_name@),
{
    let text = enclosed("project name: ", repo_name, "\n\n");
    push_text(writer, text.as_str());
}

/// Writes a commit, where it is shown, and says whether it is.
pub fn process_commit(record: &CommitRecord, writer: &mut String, authors: &Vec<String>) -> (r:
    Result<bool, DiffError>)
    ensures
        if is_shown_commit(record.info, authors.deep_view()) {
            match commit_text(*record) {
                Ok(text) => r == Ok::<bool, DiffError>(true) && final(writer)@ == old(writer)@
                    + text,
                Err(e) => r == Err::<bool, DiffError>(e) && final(writer)@ == old(writer)@,
            }
        } else {
            r == Ok::<bool, DiffError>(false) && final(writer)@ == old(writer)@
        },
{
    if !is_commit_valid(&record.info, authors) {
        return Ok(false);
    }
    let patch: &Vec<PatchLine> = match &record.patch {
        Ok(patch) => patch,
        Err(e) => {
            return Err(e.copied());
        },
    };
    let shown = match get_diff_lines(&record.info, patch) {
        Ok(shown) => shown,
        Err(e) => {
            return Err(e);
        },
    };
    let ghost all = shown.deep_view();
    let ghost before = writer@;
    let mut i: usize = 0;
    assert(all.take(0).flatten_alt() =~= Seq::<char>::empty());
    while i < shown.len()
        invariant
            i <= shown@.len(),
            all == shown.deep_view(),
            writer@ == before + all.take(i as int).flatten_alt(),
        decreases shown@.len() - i,
    {
        push_text(writer, shown[i].as_str());
        i = i + 1;
        proof {
            assert(all.take(i as int).drop_last() =~= all.take(i - 1));
            assert(all.take(i as int).last() == shown@[i - 1]@);
        }
    }
    proof {
        assert(all.take(i as int) =~= all);
        all.lemma_flatten_and_flatten_alt_are_equivalent();
    }
    Ok(true)
}

/// Writes the commits that are shown, in order, and says whether there is one.
/// Where a commit cannot be written, those before it stand written.
pub fn process_commits(
    writer: &mut String,
    records: &Vec<CommitRecord>,
    authors: &Vec<String>,
) -> (r: Result<bool, DiffError>)
    ensures
        ({
            let done = walk(records@, authors.deep_view());
            &&& final(writer)@ == old(writer)@ + done.text
            &&& match done.error {
                Some(e) => r == Err::<bool, DiffError>(e),
                None => r == Ok::<bool, DiffError>(done.found),
            }
        }),
{
    let ghost before = writer@;
    let ghost names = authors.deep_view();
    let mut found: bool = false;
    let mut i: usize = 0;
    while i < records.len()
        invariant
            i <= records@.len(),
            before == old(writer)@,
            names == authors.deep_view(),
            walk(records@.take(i as int), names).error is None,
            found == walk(records@.take(i as int), names).found,
            writer@ == before + walk(records@.take(i as int), names).text,
        decreases records@.len() - i,
    {
        proof {
            assert(records@.take(i + 1).drop_last() =~= records@.take(i as int));
            assert(records@.take(i + 1).last() == records@[i as int]);
        }
        match process_commit(&records[i], writer, authors) {
            Ok(shown) => {
                if shown {
                    found = true;
                }
            },
            Err(e) => {
                proof {
                    lemma_walk_stops(records@, i + 1, names);
                }
                return Err(e);
            },
        }
        i = i + 1;
    }
    assert(records@.take(i as int) =~= records@);
    Ok(found)
}

/// A walk that has ended early stays as it is.
proof fn lemma_walk_stops(records: Seq<CommitRecord>, i: int, authors: Seq<Seq<char>>)
    requires
        0 <= i <= records.len(),
        walk(records.take(i), authors).error is Some,
    ensures
        walk(records, authors) == walk(records.take(i), authors),
    decreases records.len() - i,
{
    if i < records.len() {
        assert(records.take(i + 1).drop_last() =~= records.take(i));
        lemma_walk_stops(records, i + 1, authors);
    } else {
        assert(records.take(i) =~= records);
    }
}

/// How the history of a repository was written.
#[derive(Debug)]
pub struct RepoOutcome {
    /// A commit is shown.
    pub found: bool,
    /// The file that the history was saved to is to be removed again.
    pub remove_saved_file: bool,
}

/// Writes the history of a repository. Where it is saved to a file and shows
/// no commit, the file is to be removed again.
pub fn process_repo(
    records: &Vec<CommitRecord>,
    repo_name: &str,
    writer: &mut String,
    authors: &Vec<String>,
    saved_to_file: bool,
) -> (r: Result<RepoOutcome, DiffError>)
    ensures
        ({
            let done = walk(records@, authors.deep_view());
            &&& final(writer)@ == old(writer)@ + header(repo_name@) + done.text
            &&& match done.error {
                Some(e) => r == Err::<RepoOutcome, DiffError>(e),
                None => r == Ok::<RepoOutcome, DiffError>(
                    RepoOutcome {
                        found: done.found,
                        remove_saved_file: saved_to_file && !done.found,
                    },
                ),
            }
        }),
{
    write_header(writer, repo_name);
    match process_commits(writer, records, authors) {
        Ok(found) => Ok(RepoOutcome { found, remove_saved_file: saved_to_file && !found }),
        Err(e) => Err(e),
    }
}

/// A diff as a whole is too large only where it changes more lines than the
/// limit: at the limit its files are still shown.
pub proof fn law_only_larger_diffs_are_left_out(stats: StatsInfo, text: String)
    requires
        stats.text == StatsText::Text(text),
    ensures
        stats.insertions + stats.deletions > 2000 ==> shown_files(stats) == Ok::<
            Seq<Seq<char>>,
            DiffError,
        >(Seq::empty()),
        stats.insertions + stats.deletions <= 2000 ==> shown_files(stats) == Ok::<
            Seq<Seq<char>>,
            DiffError,
        >(listed_files(text@)),
{
}

/// Each file that is shown is listed in a line of the statistics, and none is a
/// lock file.
pub proof fn law_shown_files_are_listed_and_no_lock_files(stats: StatsInfo, file: Seq<char>)
    requires
        shown_files(stats) matches Ok(files) && files.contains(file),
    ensures
        stats.text matches StatsText::Text(text) && exists|i: int|
            0 <= i < lines_of(text@).len() && listed_file(#[trigger] lines_of(text@)[i]) == Some(
                file,
            ),
        !is_lock_path(file),
{
    if let StatsText::Text(text) = stats.text {
        lemma_listed(lines_of(text@), file);
    }
}

proof fn lemma_listed(all: Seq<Seq<char>>, file: Seq<char>)
    requires
        all.filter_map(|line: Seq<char>| listed_file(line)).contains(file),
    ensures
        exists|i: int| 0 <= i < all.len() && listed_file(#[trigger] all[i]) == Some(file),
    decreases all.len(),
{
    let listed = |line: Seq<char>| listed_file(line);
    let files = all.filter_map(listed);
    if all.len() > 0 {
        let front = all.drop_last();
        let before = front.filter_map(listed);
        if before.contains(file) {
            lemma_listed(front, file);
            let i = choose|i: int|
                0 <= i < front.len() && listed_file(#[trigger] front[i]) == Some(file);
            assert(all[i] == front[i]);
        } else {
            let k = choose|k: int| 0 <= k < files.len() && files[k] == file;
            if k < before.len() {
                assert(before[k] == file);
            }
            assert(all[all.len() - 1] == all.last());
        }
    } else {
        assert(files =~= Seq::<Seq<char>>::empty());
    }
}

/// Nothing is shown of merges, nor where no author is known.
pub proof fn law_merges_and_foreign_commits_are_not_shown(
    commit: CommitInfo,
    authors: Seq<Seq<char>>,
)
    requires
        commit.parent_count > 1 || authors.len() == 0,
    ensures
        !is_shown_commit(commit, authors),
{
}

/// A walk over commits, one after the other, is the walk over the first of them
/// and then, unless that ended early, over the rest.
pub proof fn law_walks_follow_each_other(
    first: Seq<CommitRecord>,
    rest: Seq<CommitRecord>,
    authors: Seq<Seq<char>>,
)
    ensures
        walk(first + rest, authors) == if walk(first, authors).error is Some {
            walk(first, authors)
        } else {
            Walk {
                text: walk(first, authors).text + walk(rest, authors).text,
                found: walk(first, authors).found || walk(rest, authors).found,
                error: walk(rest, authors).error,
            }
        },
    decreases rest.len(),
{
    let all = first + rest;
    if rest.len() == 0 {
        assert(all =~= first);
        assert(walk(first, authors).text + Seq::<char>::empty() =~= walk(first, authors).text);
    } else {
        law_walks_follow_each_other(first, rest.drop_last(), authors);
        assert(all.drop_last() =~= first + rest.drop_last());
        assert(all.last() == rest.last());
        let before = walk(first, authors).text + walk(rest.drop_last(), authors).text;
        if let Ok(text) = commit_text(rest.last()) {
            assert(before + text =~= walk(first, authors).text + (walk(
                rest.drop_last(),
                authors,
            ).text + text));
        }
    }
}

/// The commits that are not shown make no difference to what is written.
pub proof fn law_hidden_commits_make_no_difference(
    records: Seq<CommitRecord>,
    authors: Seq<Seq<char>>,
)
    ensures
        walk(records, authors) == walk(
            records.filter(|record: CommitRecord| is_shown_commit(record.info, authors)),
            authors,
        ),
    decreases records.len(),
{
    reveal(Seq::filter);
    let shown = |record: CommitRecord| is_shown_commit(record.info, authors);
    if records.len() > 0 {
        law_hidden_commits_make_no_difference(records.drop_last(), authors);
        let before = records.drop_last().filter(shown);
        if shown(records.last()) {
            assert(records.filter(shown) =~= before.push(records.last()));
            assert(records.filter(shown).drop_last() =~= before);
        }
    }
}

/// A walk that reached the end found a commit exactly where one is shown, and
/// wrote nothing where none is.
pub proof fn law_a_commit_is_found_where_one_is_shown(
    records: Seq<CommitRecord>,
    authors: Seq<Seq<char>>,
)
    requires
        walk(records, authors).error is None,
    ensures
        walk(records, authors).found <==> exists|i: int|
            0 <= i < records.len() && is_shown_commit((#[trigger] records[i]).info, authors),
        !walk(records, authors).found ==> walk(records, authors).text.len() == 0,
    decreases records.len(),
{
    if records.len() > 0 {
        let front = records.drop_last();
        let last = records.len() - 1;
        law_a_commit_is_found_where_one_is_shown(front, authors);
        if walk(front, authors).found {
            let i = choose|i: int|
                0 <= i < front.len() && is_shown_commit((#[trigger] front[i]).info, authors);
            assert(records[i] == front[i]);
        }
        if is_shown_commit(records[last].info, authors) {
            assert(walk(records, authors).found);
        } else if exists|i: int|
            0 <= i < records.len() && is_shown_commit((#[trigger] records[i]).info, authors) {
            let i = choose|i: int|
                0 <= i < records.len() && is_shown_commit((#[trigger] records[i]).info, authors);
            assert(front[i] == records[i]);
        }
    }
}

/// The authors that are asked for are the names between the commas, in their
/// order and without the white space around them. Where none are asked for, the
/// name of the repository goes before that of the user.
pub proof fn law_authors_are_asked_for_or_configured(
    names: Seq<Seq<char>>,
    name: Seq<char>,
    local: Option<Seq<char>>,
    global: Option<Seq<char>>,
)
    requires
        names.len() > 0,
        forall|k: int| 0 <= k < names.len() ==> !(#[trigger] names[k]).contains(','),
    ensures
        ({
            let asked = detected_authors(Some(joined(names, seq![','])), local, global);
            &&& asked.len() == names.len()
            &&& forall|k: int| 0 <= k < names.len() ==> #[trigger] asked[k] == trimmed(names[k])
        }),
        detected_authors(None, Some(name), global) == seq![name],
        detected_authors(None, None, Some(name)) == seq![name],
        detected_authors(None, None, None) == Seq::<Seq<char>>::empty(),
{
    reveal_strlit(",");
    let comma = seq![','];
    assert(","@ =~= comma);
    assert forall|k: int| 0 <= k < names.len() - 1 implies ends_at_separator(
        #[trigger] names[k],
        comma,
    ) by {
        assert forall|i: int| 0 <= i < names[k].len() implies !#[trigger] occurs_at(
            names[k] + comma,
            comma,
            i,
        ) by {
            assert(names[k].contains(names[k][i]));
            assert((names[k] + comma).subrange(i, i + 1)[0] == names[k][i]);
        }
    }
    let last = names.last();
    assert(last == names[names.len() - 1]);
    assert forall|i: int| !occurs_at(last, comma, i) by {
        if occurs_at(last, comma, i) {
            assert(last.subrange(i, i + 1)[0] == last[i]);
            assert(last.contains(last[i]));
        }
    }
    law_split_undoes_join(names, comma);
}

/// The files of a diff come line by line: what the first line lists, and then
/// what the rest lists. A line that lists nothing adds nothing.
pub proof fn law_files_are_listed_line_by_line(line: Seq<char>, rest: Seq<char>)
    requires
        !line.contains('\n'),
        line.len() > 0 ==> line.last() != '\r',
    ensures
        listed_files(Seq::empty()) == Seq::<Seq<char>>::empty(),
        listed_files(line + seq!['\n'] + rest) == match listed_file(line) {
            Some(file) => seq![file] + listed_files(rest),
            None => listed_files(rest),
        },
{
    let listed = |line: Seq<char>| listed_file(line);
    law_lines_end_at_line_feeds(line, rest);
    assert(lines_of(Seq::<char>::empty()).filter_map(listed) =~= Seq::<Seq<char>>::empty());
    lemma_filter_map_first(line, lines_of(rest));
}

proof fn lemma_filter_map_first(line: Seq<char>, all: Seq<Seq<char>>)
    ensures
        (seq![line] + all).filter_map(|line: Seq<char>| listed_file(line)) == match listed_file(
            line,
        ) {
            Some(file) => seq![file] + all.filter_map(|line: Seq<char>| listed_file(line)),
            None => all.filter_map(|line: Seq<char>| listed_file(line)),
        },
    decreases all.len(),
{
    let listed = |line: Seq<char>| listed_file(line);
    let whole = seq![line] + all;
    if all.len() == 0 {
        assert(whole.drop_last() =~= Seq::<Seq<char>>::empty());
        assert(whole.last() == line);
        assert(whole.drop_last().filter_map(listed) =~= Seq::<Seq<char>>::empty());
        assert(all.filter_map(listed) =~= Seq::<Seq<char>>::empty());
    } else {
        lemma_filter_map_first(line, all.drop_last());
        assert(whole.drop_last() =~= seq![line] + all.drop_last());
        assert(whole.last() == all.last());
        if let Some(file) = listed(line) {
            if let Some(more) = listed(all.last()) {
                assert((seq![file] + all.drop_last().filter_map(listed)) + seq![more] =~= seq![file]
                    + (all.drop_last().filter_map(listed) + seq![more]));
            }
        }
    }
}

/// Statistics that cannot be read are an error, unless the diff is too large for
/// them to matter.
pub proof fn law_unreadable_statistics_are_an_error(stats: StatsInfo, message: String)
    requires
        stats.insertions + stats.deletions <= 2000,
    ensures
        stats.text is NotText ==> shown_files(stats) == Err::<Seq<Seq<char>>, DiffError>(
            DiffError::InvalidStatsBuffer,
        ),
        stats.text == StatsText::Unavailable(message) ==> shown_files(stats) == Err::<
            Seq<Seq<char>>,
            DiffError,
        >(DiffError::Repository(message)),
{
}

/// A commit is shown exactly where it has one parent at most and its author is
/// one of those given, wherever in the list.
pub proof fn law_a_commit_of_any_given_author_is_shown(
    commit: CommitInfo,
    authors: Seq<Seq<char>>,
)
    ensures
        is_shown_commit(commit, authors) <==> commit.parent_count <= 1 && commit.author is Some
            && exists|k: int|
            0 <= k < authors.len() && #[trigger] authors[k] == commit.author->0@,
{
}

/// An author more hides no commit, and shows those of that author only; the order
/// of the authors makes no difference.
pub proof fn law_each_author_counts_alike(
    commit: CommitInfo,
    authors: Seq<Seq<char>>,
    others: Seq<Seq<char>>,
    name: Seq<char>,
)
    ensures
        is_shown_commit(commit, authors.push(name)) <==> is_shown_commit(commit, authors)
            || is_shown_commit(commit, seq![name]),
        is_shown_commit(commit, authors + others) == is_shown_commit(commit, others + authors),
        is_shown_commit(commit, authors + others) <==> is_shown_commit(commit, authors)
            || is_shown_commit(commit, others),
{
    law_a_commit_of_any_given_author_is_shown(commit, authors);
    law_a_commit_of_any_given_author_is_shown(commit, others);
    let one = authors.push(name);
    let ab = authors + others;
    let ba = others + authors;
    if commit.author is Some {
        let author = commit.author->0@;
        lemma_contains_both(authors, others, author);
        lemma_contains_both(others, authors, author);
        assert(one =~= authors + seq![name]);
        lemma_contains_both(authors, seq![name], author);
    }
}

proof fn lemma_contains_both(a: Seq<Seq<char>>, b: Seq<Seq<char>>, x: Seq<char>)
    ensures
        (a + b).contains(x) <==> a.contains(x) || b.contains(x),
{
    if a.contains(x) {
        let k = choose|k: int| 0 <= k < a.len() && a[k] == x;
        assert((a + b)[k] == x);
    }
    if b.contains(x) {
        let k = choose|k: int| 0 <= k < b.len() && b[k] == x;
        assert((a + b)[a.len() + k] == x);
    }
    if (a + b).contains(x) {
        let k = choose|k: int| 0 <= k < (a + b).len() && (a + b)[k] == x;
        if k < a.len() {
            assert(a[k] == x);
        } else {
            assert(b[k - a.len()] == x);
        }
    }
}

/// The lines of a diff are shown one after the other. A line belongs to the file
/// that it names, or to that of the line before; whether it stands inside a
/// source block is what the lines before it left.
pub proof fn law_patches_are_shown_line_by_line(
    in_source: bool,
    current: Seq<char>,
    line: PatchLine,
    rest: Seq<PatchLine>,
)
    ensures
        shown_patch(in_source, current, Seq::empty()) == Seq::<Seq<char>>::empty(),
        ({
            let file = if line.path is Some {
                line.path->0@
            } else {
                current
            };
            let shown = shown_line(in_source, line.origin, line.content@, file);
            let tail = shown_patch(in_source_after(in_source, line.content@, file), file, rest);
            shown_patch(in_source, current, seq![line] + rest) == if shown is Some {
                seq![shown->0] + tail
            } else {
                tail
            }
        }),
{
    let patch = seq![line] + rest;
    assert(patch[0] == line);
    assert(patch.drop_first() =~= rest);
}

/// What is written of a commit is its date, its message and the shown lines of
/// its diff, which starts outside of any source block.
pub proof fn law_a_commit_is_its_date_its_message_and_its_lines(
    record: CommitRecord,
    date: Seq<char>,
    patch: Vec<PatchLine>,
    message: String,
)
    requires
        record.patch == Ok::<Vec<PatchLine>, DiffError>(patch),
        record.info.message == Some(message),
        utc_date(record.info.seconds, "%Y-%m-%d %H:%M:%S UTC"@) == Some(date),
    ensures
        commit_text(record) == Ok::<Seq<char>, DiffError>(
            "commit date: "@ + date + "\n"@ + ("commit message: "@ + message@ + "\n"@)
                + shown_patch(false, Seq::empty(), patch@).flatten(),
        ),
{
    reveal_strlit("");
    assert(""@ =~= Seq::<char>::empty());
    let first = "commit date: "@ + date + "\n"@;
    let second = "commit message: "@ + message@ + "\n"@;
    let shown = shown_patch(false, ""@, patch@);
    let all = commit_lines(date, message@, patch@);
    assert(all.drop_first() =~= seq![second] + shown);
    assert((seq![second] + shown).drop_first() =~= shown);
    assert(all.flatten() =~= first + (seq![second] + shown).flatten());
    assert((seq![second] + shown).flatten() =~= second + shown.flatten());
    assert(all.flatten() =~= first + second + shown.flatten());
}

/// A commit without a message has an empty one. One that could not be read, and
/// then one whose time is no date, is an error.
pub proof fn law_what_keeps_a_commit_from_being_written(record: CommitRecord)
    ensures
        record.info.message is None ==> message_text(record.info.message) == Seq::<char>::empty(),
        record.patch is Err ==> commit_text(record) == Err::<Seq<char>, DiffError>(
            record.patch->Err_0,
        ),
        record.patch is Ok && utc_date(record.info.seconds, "%Y-%m-%d %H:%M:%S UTC"@) is None
            ==> commit_text(record) == Err::<Seq<char>, DiffError>(DiffError::InvalidTimestamp),
        commit_text(record) is Err ==> record.patch is Err || utc_date(
            record.info.seconds,
            "%Y-%m-%d %H:%M:%S UTC"@,
        ) is None,
{
    reveal_strlit("");
    assert(""@ =~= Seq::<char>::empty());
}

/// A walk over one commit writes it where it is shown, and nothing else; where it
/// cannot be written, that ends the walk with nothing written.
pub proof fn law_a_walk_over_one_commit(record: CommitRecord, authors: Seq<Seq<char>>)
    ensures
        ({
            let done = walk(seq![record], authors);
            if is_shown_commit(record.info, authors) {
                match commit_text(record) {
                    Ok(text) => done.text == text && done.found && done.error is None,
                    Err(e) => done.text.len() == 0 && !done.found && done.error == Some(e),
                }
            } else {
                done.text.len() == 0 && !done.found && done.error is None
            }
        }),
        walk(Seq::empty(), authors).text.len() == 0,
        !walk(Seq::empty(), authors).found,
        walk(Seq::empty(), authors).error is None,
{
    let one = seq![record];
    assert(one.drop_last() =~= Seq::<CommitRecord>::empty());
    assert(one.last() == record);
    if let Ok(text) = commit_text(record) {
        assert(Seq::<char>::empty() + text =~= text);
    }
}

/// The history of a repository starts with its name and an empty line.
pub proof fn law_a_history_starts_with_the_name(repo_name: Seq<char>)
    ensures
        header(repo_name) == "project name: "@ + repo_name + seq!['\n', '\n'],
{
    reveal_strlit("\n\n");
    assert("\n\n"@ =~= seq!['\n', '\n']);
}

} // verus!
