//! The checkpoint of a run: the summaries of the chunks that are done, kept as
//! JSON between runs.

use serde_json::{Map as JsonMap, Value};
use vstd::prelude::*;

use crate::text::push_text;

verus! {

/// The member that holds the number of a chunk.
pub const INDEX_KEY: &'static str = "chunk_index";

/// The member that holds the summary of a chunk.
pub const SUMMARY_KEY: &'static str = "summary";

/// What is read of a JSON text: two members of each element of an array, one
/// where it is an unsigned number and one where it is a string. `Some(None)`
/// stands for a text that holds no array, `None` for one that is no JSON.
pub uninterp spec fn json_fields(
    raw: Seq<char>,
    number_key: Seq<char>,
    text_key: Seq<char>,
) -> Option<Option<Seq<(Option<u64>, Option<Seq<char>>)>>>;

/// The JSON text of an array of objects with a number and a string each.
pub uninterp spec fn json_text(
    number_key: Seq<char>,
    text_key: Seq<char>,
    records: Seq<(usize, Seq<char>)>,
) -> Seq<char>;

/// Both members of each record, as they are read back.
pub open spec fn fields_of(records: Seq<(usize, Seq<char>)>) -> Seq<
    (Option<u64>, Option<Seq<char>>),
> {
    records.map_values(|record: (usize, Seq<char>)| (Some(record.0 as u64), Some(record.1)))
}

/// `serde_json::from_str`, and `Value::as_array`, `Value::get`, `Value::as_u64`
/// and `Value::as_str` on what it gives. Of a text that `serde_json` wrote for
/// records with two different keys it reads those records again. What other
/// texts hold is named and not described.
#[verifier::external_body]
fn read_json_fields(raw: &str, number_key: &str, text_key: &str) -> (r: Option<
    Option<Vec<(Option<u64>, Option<String>)>>,
>)
    ensures
        r.deep_view() == json_fields(raw@, number_key@, text_key@),
        forall|records: Seq<(usize, Seq<char>)>|
            number_key@ != text_key@ && raw@ == #[trigger] json_text(
                number_key@,
                text_key@,
                records,
            ) ==> r.deep_view() == Some(Some(fields_of(records))),
{
    let value: Value = serde_json::from_str(raw).ok()?;
    let read = |item: &Value| {
        let number = item.get(number_key).and_then(|v| v.as_u64());
        (number, item.get(text_key).and_then(|v| v.as_str()).map(|s| s.to_string()))
    };
    Some(value.as_array().map(|items| items.iter().map(read).collect()))
}

/// `serde_json::to_string` on an array of objects with two members each. It
/// fails only on maps with keys that are no strings and on values that refuse
/// to be written, and these are neither. The text is named and not described.
#[verifier::external_body]
fn write_json_records(
    number_key: &str,
    text_key: &str,
    records: &Vec<(usize, String)>,
) -> (r: Result<String, String>)
    ensures
        r is Ok,
        r->Ok_0@ == json_text(number_key@, text_key@, records.deep_view()),
{
    let write = |record: &(usize, String)| {
        let mut object = JsonMap::new();
        object.insert(number_key.to_string(), Value::from(record.0));
        object.insert(text_key.to_string(), Value::from(record.1.as_str()));
        Value::Object(object)
    };
    let values: Vec<Value> = records.iter().map(write).collect();
    serde_json::to_string(&values).map_err(|e| e.to_string())
}

/// The records of a checkpoint, where the text holds an array and every element
/// of it has both members. Everything else counts as a fresh start.
pub open spec fn records_of(
    fields: Option<Option<Seq<(Option<u64>, Option<Seq<char>>)>>>,
) -> Seq<(usize, Seq<char>)> {
    match fields {
        Some(Some(items)) => if forall|i: int|
            0 <= i < items.len() ==> (#[trigger] items[i]).0 is Some && items[i].1 is Some {
            items.map_values(
                |item: (Option<u64>, Option<Seq<char>>)| (item.0->0 as usize, item.1->0),
            )
        } else {
            Seq::empty()
        },
        _ => Seq::empty(),
    }
}

/// Takes the records of a checkpoint from what was read of its text.
pub fn checkpoint_records(fields: Option<Option<Vec<(Option<u64>, Option<String>)>>>) -> (r: Vec<
    (usize, String),
>)
    ensures
        r.deep_view() == records_of(fields.deep_view()),
{
    let mut records: Vec<(usize, String)> = Vec::new();
    assert(records.deep_view() =~= Seq::<(usize, Seq<char>)>::empty());
    let items: Vec<(Option<u64>, Option<String>)> = match fields {
        Some(Some(items)) => items,
        _ => {
            return records;
        },
    };
    let ghost seen = items.deep_view();
    let mut i: usize = 0;
    while i < items.len()
        invariant
            i <= items@.len(),
            seen == items.deep_view(),
            fields.deep_view() == Some(Some(seen)),
            records@.len() == i,
            forall|k: int| 0 <= k < i ==> (#[trigger] seen[k]).0 is Some && seen[k].1 is Some,
            forall|k: int|
                0 <= k < i ==> (#[trigger] records@[k]).deep_view() == (
                    seen[k].0->0 as usize,
                    seen[k].1->0,
                ),
        decreases items@.len() - i,
    {
        assert(seen[i as int] == items@[i as int].deep_view());
        let chunk_index: usize = match items[i].0 {
            Some(n) => n as usize,
            None => {
                let none: Vec<(usize, String)> = Vec::new();
                assert(none.deep_view() =~= records_of(fields.deep_view()));
                return none;
            },
        };
        let summary: String = match &items[i].1 {
            Some(text) => text.clone(),
            None => {
                let none: Vec<(usize, String)> = Vec::new();
                assert(none.deep_view() =~= records_of(fields.deep_view()));
                return none;
            },
        };
        records.push((chunk_index, summary));
        i = i + 1;
    }
    assert(records.deep_view() =~= records_of(fields.deep_view()));
    records
}

/// Why a file could not be read or removed.
#[derive(Debug)]
pub enum FileFailure {
    /// There is no such file.
    NotFound,
    /// Anything else; holds what was reported.
    Other(String),
}

/// A failure of an operation on the file at `path`, in words.
pub open spec fn file_error(operation: Seq<char>, path: Seq<char>, report: Seq<char>) -> Seq<char> {
    operation + path + ": "@ + report
}

/// Writes a failure in words.
fn file_error_text(operation: &str, path: &str, report: &str) -> (r: String)
    ensures
        r@ == file_error(operation@, path@, report@),
{
    let mut message: String = operation.to_string();
    push_text(&mut message, path);
    push_text(&mut message, ": ");
    push_text(&mut message, report);
    message
}

/// The records of the checkpoint at `path`, given what reading its file gave. A
/// file that is not there, or that holds something else, is a fresh start.
pub fn load_checkpoint(path: &str, read: Result<String, FileFailure>) -> (r: Result<
    Vec<(usize, String)>,
    String,
>)
    ensures
        match read {
            Ok(raw) => r matches Ok(records) && records.deep_view() == records_of(
                json_fields(raw@, INDEX_KEY@, SUMMARY_KEY@),
            ) && forall|saved: Seq<(usize, Seq<char>)>|
                raw@ == #[trigger] checkpoint_text(saved) ==> records.deep_view() == saved,
            Err(FileFailure::NotFound) => r matches Ok(records) && records@.len() == 0,
            Err(FileFailure::Other(report)) => r matches Err(e) && e@ == file_error(
                "Failed to read checkpoint "@,
                path@,
                report@,
            ),
        },
{
    match read {
        Ok(raw) => {
            let fields = read_json_fields(raw.as_str(), INDEX_KEY, SUMMARY_KEY);
            let ghost seen = fields.deep_view();
            let records = checkpoint_records(fields);
            proof {
                assert forall|saved: Seq<(usize, Seq<char>)>|
                    raw@ == #[trigger] checkpoint_text(saved) implies records.deep_view()
                    == saved by {
                    lemma_keys_differ();
                    assert(seen == Some(Some(fields_of(saved))));
                    assert(records_of(Some(Some(fields_of(saved)))) =~= saved);
                }
            }
            Ok(records)
        },
        Err(FileFailure::NotFound) => Ok(Vec::new()),
        Err(FileFailure::Other(report)) => Err(
            file_error_text("Failed to read checkpoint ", path, report.as_str()),
        ),
    }
}

/// The keys of a record are not the same.
proof fn lemma_keys_differ()
    ensures
        INDEX_KEY@ != SUMMARY_KEY@,
{
    reveal_strlit("chunk_index");
    reveal_strlit("summary");
    assert(INDEX_KEY@.len() != SUMMARY_KEY@.len());
}

/// The text of a checkpoint.
pub open spec fn checkpoint_text(records: Seq<(usize, Seq<char>)>) -> Seq<char> {
    json_text(INDEX_KEY@, SUMMARY_KEY@, records)
}

/// The text to save as the checkpoint of the chunks that are done.
pub fn save_checkpoint(completed: &Vec<(usize, String)>) -> (r: Result<String, String>)
    ensures
        r matches Ok(text) && text@ == checkpoint_text(completed.deep_view()),
{
    match write_json_records(INDEX_KEY, SUMMARY_KEY, completed) {
        Ok(text) => Ok(text),
        Err(report) => {
            let mut message: String = "Failed to serialise checkpoint: ".to_string();
            push_text(&mut message, report.as_str());
            Err(message)
        },
    }
}

/// What removing the checkpoint at `path` comes to. One that is not there
/// counts as removed.
pub fn delete_checkpoint(path: &str, removed: Result<(), FileFailure>) -> (r: Result<(), String>)
    ensures
        match removed {
            Err(FileFailure::Other(report)) => r matches Err(e) && e@ == file_error(
                "Failed to delete checkpoint "@,
                path@,
                report@,
            ),
            _ => r is Ok,
        },
{
    match removed {
        Err(FileFailure::Other(report)) => Err(
            file_error_text("Failed to delete checkpoint ", path, report.as_str()),
        ),
        _ => Ok(()),
    }
}

/// Why a checkpoint counts as a fresh start though its file can be read.
#[derive(Debug, PartialEq, Eq, Structural, Clone, Copy)]
pub enum FreshStart {
    /// The text is no JSON.
    NoJson,
    /// The text holds no array.
    NoArray,
    /// The first record that is not whole lacks the number of its chunk.
    NoIndex,
    /// The first record that is not whole has a number and lacks the summary.
    NoSummary,
}

/// A record with both members.
pub open spec fn is_whole(item: (Option<u64>, Option<Seq<char>>)) -> bool {
    item.0 is Some && item.1 is Some
}

/// What keeps the first of some records that is not whole from being read.
pub open spec fn first_gap(items: Seq<(Option<u64>, Option<Seq<char>>)>) -> Option<FreshStart>
    decreases items.len(),
{
    if items.len() == 0 {
        None
    } else if is_whole(items[0]) {
        first_gap(items.drop_first())
    } else if items[0].0 is None {
        Some(FreshStart::NoIndex)
    } else {
        Some(FreshStart::NoSummary)
    }
}

/// Why a checkpoint counts as a fresh start, from what was read of its text.
pub open spec fn fresh_start_of(
    fields: Option<Option<Seq<(Option<u64>, Option<Seq<char>>)>>>,
) -> Option<FreshStart> {
    match fields {
        None => Some(FreshStart::NoJson),
        Some(None) => Some(FreshStart::NoArray),
        Some(Some(items)) => first_gap(items),
    }
}

/// Finds why a checkpoint counts as a fresh start, from what was read of its
/// text.
pub fn fresh_start(fields: &Option<Option<Vec<(Option<u64>, Option<String>)>>>) -> (r: Option<
    FreshStart,
>)
    ensures
        r == fresh_start_of(fields.deep_view()),
{
    let items: &Vec<(Option<u64>, Option<String>)> = match fields {
        None => {
            return Some(FreshStart::NoJson);
        },
        Some(None) => {
            return Some(FreshStart::NoArray);
        },
        Some(Some(items)) => items,
    };
    let ghost seen = items.deep_view();
    let mut i: usize = 0;
    assert(seen.skip(0) =~= seen);
    while i < items.len()
        invariant
            i <= items@.len(),
            seen == items.deep_view(),
            fields.deep_view() == Some(Some(seen)),
            first_gap(seen) == first_gap(seen.skip(i as int)),
        decreases items@.len() - i,
    {
        assert(seen.skip(i as int)[0] == items@[i as int].deep_view());
        assert(seen.skip(i as int).drop_first() =~= seen.skip(i + 1));
        if items[i].0.is_none() {
            return Some(FreshStart::NoIndex);
        }
        if items[i].1.is_none() {
            return Some(FreshStart::NoSummary);
        }
        i = i + 1;
    }
    None
}

/// Finds why a checkpoint with this text counts as a fresh start.
pub fn fresh_start_reason(raw: &str) -> (r: Option<FreshStart>)
    ensures
        r == fresh_start_of(json_fields(raw@, INDEX_KEY@, SUMMARY_KEY@)),
{
    fresh_start(&read_json_fields(raw, INDEX_KEY, SUMMARY_KEY))
}

impl FreshStart {
    /// The reason in words.
    pub open spec fn report(self) -> Seq<char> {
        match self {
            FreshStart::NoJson => "checkpoint file is malformed JSON, treating as fresh start"@,
            FreshStart::NoArray => "checkpoint file is not a JSON array, treating as fresh start"@,
            FreshStart::NoIndex => {
                "checkpoint record missing chunk_index, treating as fresh start"@
            },
            FreshStart::NoSummary => "checkpoint record missing summary, treating as fresh start"@,
        }
    }

    /// The warning that gives the reason.
    pub fn message(&self) -> (r: String)
        ensures
            r@ == self.report(),
    {
        match self {
            FreshStart::NoJson => {
                "checkpoint file is malformed JSON, treating as fresh start".to_string()
            },
            FreshStart::NoArray => {
                "checkpoint file is not a JSON array, treating as fresh start".to_string()
            },
            FreshStart::NoIndex => {
                "checkpoint record missing chunk_index, treating as fresh start".to_string()
            },
            FreshStart::NoSummary => {
                "checkpoint record missing summary, treating as fresh start".to_string()
            },
        }
    }
}

/// Where there is a reason for a fresh start, no record is taken; where there is
/// none, each record that was read is.
pub proof fn law_a_fresh_start_takes_no_record(
    fields: Option<Option<Seq<(Option<u64>, Option<Seq<char>>)>>>,
)
    ensures
        fresh_start_of(fields) is Some ==> records_of(fields).len() == 0,
        fresh_start_of(fields) is None ==> records_of(fields).len() == fields->0->0.len(),
{
    if let Some(Some(items)) = fields {
        lemma_first_gap(items);
    }
}

proof fn lemma_first_gap(items: Seq<(Option<u64>, Option<Seq<char>>)>)
    ensures
        first_gap(items) is None <==> forall|i: int|
            0 <= i < items.len() ==> (#[trigger] items[i]).0 is Some && items[i].1 is Some,
    decreases items.len(),
{
    if items.len() > 0 && is_whole(items[0]) {
        let rest = items.drop_first();
        lemma_first_gap(rest);
        if first_gap(items) is None {
            assert forall|i: int| 0 <= i < items.len() implies (#[trigger] items[i]).0 is Some
                && items[i].1 is Some by {
                if i > 0 {
                    assert(rest[i - 1] == items[i]);
                }
            }
        }
        if forall|i: int|
            0 <= i < items.len() ==> (#[trigger] items[i]).0 is Some && items[i].1 is Some {
            assert forall|i: int| 0 <= i < rest.len() implies (#[trigger] rest[i]).0 is Some
                && rest[i].1 is Some by {
                assert(rest[i] == items[i + 1]);
            }
        }
    }
}

/// What became of saving a checkpoint so far.
#[derive(Debug)]
pub enum SaveEvent {
    /// Nothing was done yet.
    Begin,
    /// The temporary file was written, or could not be; holds what was reported.
    Wrote(Result<(), String>),
    /// The temporary file was renamed, or could not be; holds what was reported.
    Renamed(Result<(), String>),
}

/// What is to be done next to save a checkpoint.
#[derive(Debug)]
pub enum SaveAction {
    /// Write a text to a file.
    Write { path: String, text: String },
    /// Rename a file over another.
    Rename { from: String, to: String },
    /// Stop.
    Done(Result<(), String>),
}

/// What is to be done next, by what it holds.
pub enum SaveView {
    Write { path: Seq<char>, text: Seq<char> },
    Rename { from: Seq<char>, to: Seq<char> },
    Done(Result<(), Seq<char>>),
}

impl View for SaveAction {
    type V = SaveView;

    open spec fn view(&self) -> SaveView {
        match *self {
            SaveAction::Write { path, text } => SaveView::Write { path: path@, text: text@ },
            SaveAction::Rename { from, to } => SaveView::Rename { from: from@, to: to@ },
            SaveAction::Done(Ok(_)) => SaveView::Done(Ok(())),
            SaveAction::Done(Err(error)) => SaveView::Done(Err(error@)),
        }
    }
}

/// How a checkpoint is saved: its text is written to a temporary file, and that
/// file is renamed over the checkpoint only when all of it is written.
pub open spec fn save_action(
    path: Seq<char>,
    tmp: Seq<char>,
    text: Seq<char>,
    event: SaveEvent,
) -> SaveView {
    match event {
        SaveEvent::Begin => SaveView::Write { path: tmp, text },
        SaveEvent::Wrote(Ok(_)) => SaveView::Rename { from: tmp, to: path },
        SaveEvent::Wrote(Err(report)) => SaveView::Done(
            Err(file_error("Failed to write tmp checkpoint "@, tmp, report@)),
        ),
        SaveEvent::Renamed(Ok(_)) => SaveView::Done(Ok(())),
        SaveEvent::Renamed(Err(report)) => SaveView::Done(
            Err(file_error("Failed to rename checkpoint "@, tmp + " -> "@ + path, report@)),
        ),
    }
}

/// Finds what is to be done next to save the text of a checkpoint at `path`, by
/// way of the temporary file `tmp`.
pub fn save_step(path: &str, tmp: &str, text: &str, event: SaveEvent) -> (r: SaveAction)
    ensures
        r@ == save_action(path@, tmp@, text@, event),
{
    match event {
        SaveEvent::Begin => SaveAction::Write { path: tmp.to_string(), text: text.to_string() },
        SaveEvent::Wrote(Ok(_)) => SaveAction::Rename {
            from: tmp.to_string(),
            to: path.to_string(),
        },
        SaveEvent::Wrote(Err(report)) => SaveAction::Done(
            Err(file_error_text("Failed to write tmp checkpoint ", tmp, report.as_str())),
        ),
        SaveEvent::Renamed(Ok(_)) => SaveAction::Done(Ok(())),
        SaveEvent::Renamed(Err(report)) => {
            let mut paths: String = tmp.to_string();
            push_text(&mut paths, " -> ");
            push_text(&mut paths, path);
            SaveAction::Done(
                Err(file_error_text("Failed to rename checkpoint ", paths.as_str(), report.as_str())),
            )
        },
    }
}

/// The files after an action. A write that fails leaves some part of a text at
/// its path; a rename that fails changes nothing.
pub open spec fn files_after(
    files: Map<Seq<char>, Seq<char>>,
    action: SaveView,
    succeeded: bool,
    part: Seq<char>,
) -> Map<Seq<char>, Seq<char>> {
    match action {
        SaveView::Write { path, text } => files.insert(
            path,
            if succeeded {
                text
            } else {
                part
            },
        ),
        SaveView::Rename { from, to } => if succeeded {
            files.insert(to, files[from]).remove(from)
        } else {
            files
        },
        SaveView::Done(_) => files,
    }
}

/// Saving touches the checkpoint by the rename only, and that comes only after
/// the write succeeded.
pub proof fn law_only_the_rename_touches_the_checkpoint(
    path: Seq<char>,
    tmp: Seq<char>,
    text: Seq<char>,
    event: SaveEvent,
)
    ensures
        match save_action(path, tmp, text, event) {
            SaveView::Write { path: written, text: whole } => event is Begin && written == tmp
                && whole == text,
            SaveView::Rename { from, to } => (event matches SaveEvent::Wrote(Ok(_))) && from == tmp
                && to == path,
            SaveView::Done(result) => event !is Begin && (result is Ok <==> (event matches
                SaveEvent::Renamed(Ok(_)))),
        },
{
}

/// At no time does the checkpoint hold a part of a text. While the temporary file
/// is written, the checkpoint is as it was; the rename, where it succeeds, puts
/// the whole text there.
pub proof fn law_the_checkpoint_is_never_half_written(
    files: Map<Seq<char>, Seq<char>>,
    path: Seq<char>,
    tmp: Seq<char>,
    text: Seq<char>,
    wrote: bool,
    renamed: bool,
    part: Seq<char>,
)
    requires
        tmp != path,
    ensures
        ({
            let written = files_after(
                files,
                save_action(path, tmp, text, SaveEvent::Begin),
                wrote,
                part,
            );
            let moved = files_after(
                written,
                save_action(path, tmp, text, SaveEvent::Wrote(Ok(()))),
                renamed,
                part,
            );
            &&& written.contains_key(path) <==> files.contains_key(path)
            &&& files.contains_key(path) ==> written[path] == files[path]
            &&& wrote && renamed ==> moved.contains_key(path) && moved[path] == text
            &&& !renamed ==> moved == written
        }),
{
}

/// Where every record that was read is whole, each of them is taken, in its
/// place, with its number and its summary.
pub proof fn law_whole_records_are_taken_as_they_are(
    items: Seq<(Option<u64>, Option<Seq<char>>)>,
)
    requires
        forall|i: int|
            0 <= i < items.len() ==> (#[trigger] items[i]).0 is Some && items[i].1 is Some,
    ensures
        records_of(Some(Some(items))).len() == items.len(),
        forall|i: int|
            0 <= i < items.len() ==> #[trigger] records_of(Some(Some(items)))[i] == (
                items[i].0->0 as usize,
                items[i].1->0,
            ),
{
}

/// The reason for a fresh start is the first thing that is not as it should be:
/// the text, the array, or the first record that lacks something, of which the
/// number counts first.
pub proof fn law_the_first_gap_is_the_reason(
    whole: Seq<(Option<u64>, Option<Seq<char>>)>,
    gap: (Option<u64>, Option<Seq<char>>),
    rest: Seq<(Option<u64>, Option<Seq<char>>)>,
)
    requires
        forall|i: int|
            0 <= i < whole.len() ==> (#[trigger] whole[i]).0 is Some && whole[i].1 is Some,
        gap.0 is None || gap.1 is None,
    ensures
        fresh_start_of(None) == Some(FreshStart::NoJson),
        fresh_start_of(Some(None)) == Some(FreshStart::NoArray),
        fresh_start_of(Some(Some(whole))) is None,
        fresh_start_of(Some(Some(whole + seq![gap] + rest))) == Some(
            if gap.0 is None {
                FreshStart::NoIndex
            } else {
                FreshStart::NoSummary
            },
        ),
    decreases whole.len(),
{
    let items = whole + seq![gap] + rest;
    if whole.len() == 0 {
        assert(items[0] == gap);
    } else {
        let front = whole.drop_first();
        assert forall|i: int| 0 <= i < front.len() implies (#[trigger] front[i]).0 is Some
            && front[i].1 is Some by {
            assert(front[i] == whole[i + 1]);
        }
        law_the_first_gap_is_the_reason(front, gap, rest);
        assert(items.drop_first() =~= front + seq![gap] + rest);
        assert(items[0] == whole[0]);
    }
}

/// Errors name what was tried, the files that it was tried on, and what was
/// reported, in that order.
pub proof fn law_errors_name_the_operation_and_the_file(
    operation: Seq<char>,
    path: Seq<char>,
    tmp: Seq<char>,
    text: Seq<char>,
    report: String,
)
    ensures
        file_error(operation, path, report@) == operation + path + ": "@ + report@,
        save_action(path, tmp, text, SaveEvent::Wrote(Err(report))) == SaveView::Done(
            Err("Failed to write tmp checkpoint "@ + tmp + ": "@ + report@),
        ),
        save_action(path, tmp, text, SaveEvent::Renamed(Err(report))) == SaveView::Done(
            Err("Failed to rename checkpoint "@ + (tmp + " -> "@ + path) + ": "@ + report@),
        ),
{
}

/// A checkpoint holds the number of each chunk and its summary under these keys.
pub proof fn law_a_checkpoint_has_two_keys(records: Seq<(usize, Seq<char>)>)
    ensures
        checkpoint_text(records) == json_text("chunk_index"@, "summary"@, records),
        fields_of(records).len() == records.len(),
        forall|i: int|
            0 <= i < records.len() ==> #[trigger] fields_of(records)[i] == (
                Some(records[i].0 as u64),
                Some(records[i].1),
            ),
{
}

/// What is to be done to save a checkpoint is what the step holds.
pub proof fn law_a_save_step_is_what_it_holds(path: String, text: String)
    ensures
        (SaveAction::Write { path, text })@ == (SaveView::Write { path: path@, text: text@ }),
        (SaveAction::Rename { from: path, to: text })@ == (SaveView::Rename {
            from: path@,
            to: text@,
        }),
        SaveAction::Done(Ok(()))@ == SaveView::Done(Ok(())),
        SaveAction::Done(Err(text))@ == SaveView::Done(Err(text@)),
{
}

} // verus!
