//! How the summary of a diff is put together: what is asked next, and what
//! becomes of each answer.

use vstd::prelude::*;

use crate::chunks::{
    chunks_from, cl100k_tokens, count_tokens, countable, fits_one_prompt, line_tokens,
    split_into_chunks_by_tokens, MAX_TOKENS_PER_CHUNK,
};
use crate::claude::{claude_args, is_rate_limit, rate_limited, result_view, ClaudeCall};
use crate::diff_analyze::{
    chunk_prompt, content_prompt, merge_prompt, merge_summaries, summarize_chunk,
    summarize_content_direct,
};
use crate::order::{sort_texts, texts_in_order};
use crate::text::{borrowed, lines_of, owned, push_text};

verus! {

/// What a run waits for.
#[derive(Debug)]
pub enum Phase {
    /// The answer to the whole diff.
    Direct,
    /// The checkpoint of an earlier run.
    Loading,
    /// The answer to a chunk.
    Asking(usize),
    /// The checkpoint with a chunk that was just answered to be written.
    Saving(usize),
    /// The checkpoint to be written after the limit was hit.
    Limited,
    /// The answer to the merge.
    Merging,
    /// The checkpoint to be removed, with the summary at hand.
    Deleting(String),
    /// Nothing more.
    Finished,
}

/// What is to be done next.
#[derive(Debug)]
pub enum Action {
    /// Make a call.
    Ask(ClaudeCall),
    /// Load the checkpoint.
    Load,
    /// Save these summaries as the checkpoint.
    Save(Vec<(usize, String)>),
    /// Remove the checkpoint.
    Delete,
    /// Stop, with the summary or with an error.
    Done(Result<String, String>),
}

/// What came of an action.
#[derive(Debug)]
pub enum Event {
    Reply(Result<String, String>),
    Loaded(Result<Vec<(usize, String)>, String>),
    Saved(Result<(), String>),
    Deleted(Result<(), String>),
}

/// A run that puts a summary together.
#[derive(Debug)]
pub struct Summary {
    program: String,
    model: Option<String>,
    effort: Option<String>,
    checkpoint_path: String,
    chunks: Vec<String>,
    partial_summaries: Vec<(usize, String)>,
    phase: Phase,
}

/// A phase, by what it holds.
pub enum PhaseView {
    Direct,
    Loading,
    Asking(int),
    Saving(int),
    Limited,
    Merging,
    Deleting(Seq<char>),
    Finished,
}

/// An action, by what it holds.
pub enum ActionView {
    Ask { args: Seq<Seq<char>>, prompt: Seq<char> },
    Load,
    Save(Seq<(usize, Seq<char>)>),
    Delete,
    Done(Result<Seq<char>, Seq<char>>),
}

/// An event, by what it holds.
pub enum EventView {
    Reply(Result<Seq<char>, Seq<char>>),
    Loaded(Result<Seq<(usize, Seq<char>)>, Seq<char>>),
    Saved(Result<(), Seq<char>>),
    Deleted(Result<(), Seq<char>>),
}

/// A run, by what it holds.
pub struct SummaryView {
    /// The program that is asked.
    pub program: Seq<char>,
    pub model: Option<Seq<char>>,
    pub effort: Option<Seq<char>>,
    /// Where the checkpoint stands.
    pub checkpoint_path: Seq<char>,
    /// The diff, in chunks that are summarised one by one.
    pub chunks: Seq<Seq<char>>,
    /// The summaries so far, each with the number of its chunk.
    pub partial_summaries: Seq<(usize, Seq<char>)>,
    pub phase: PhaseView,
}

impl View for Phase {
    type V = PhaseView;

    open spec fn view(&self) -> PhaseView {
        match *self {
            Phase::Direct => PhaseView::Direct,
            Phase::Loading => PhaseView::Loading,
            Phase::Asking(i) => PhaseView::Asking(i as int),
            Phase::Saving(i) => PhaseView::Saving(i as int),
            Phase::Limited => PhaseView::Limited,
            Phase::Merging => PhaseView::Merging,
            Phase::Deleting(text) => PhaseView::Deleting(text@),
            Phase::Finished => PhaseView::Finished,
        }
    }
}

impl View for Action {
    type V = ActionView;

    open spec fn view(&self) -> ActionView {
        match *self {
            Action::Ask(call) => ActionView::Ask {
                args: call.args.deep_view(),
                prompt: call.prompt@,
            },
            Action::Load => ActionView::Load,
            Action::Save(records) => ActionView::Save(records.deep_view()),
            Action::Delete => ActionView::Delete,
            Action::Done(result) => ActionView::Done(result_view(result)),
        }
    }
}

/// Success, or an error by its characters.
pub open spec fn unit_view(r: Result<(), String>) -> Result<(), Seq<char>> {
    match r {
        Ok(_) => Ok(()),
        Err(error) => Err(error@),
    }
}

impl View for Event {
    type V = EventView;

    open spec fn view(&self) -> EventView {
        match *self {
            Event::Reply(reply) => EventView::Reply(result_view(reply)),
            Event::Loaded(Ok(records)) => EventView::Loaded(Ok(records.deep_view())),
            Event::Loaded(Err(error)) => EventView::Loaded(Err(error@)),
            Event::Saved(saved) => EventView::Saved(unit_view(saved)),
            Event::Deleted(deleted) => EventView::Deleted(unit_view(deleted)),
        }
    }
}

impl View for Summary {
    type V = SummaryView;

    closed spec fn view(&self) -> SummaryView {
        SummaryView {
            program: self.program@,
            model: self.model.deep_view(),
            effort: self.effort.deep_view(),
            checkpoint_path: self.checkpoint_path@,
            chunks: self.chunks.deep_view(),
            partial_summaries: self.partial_summaries.deep_view(),
            phase: self.phase@,
        }
    }
}

/// The phase waits for an event of this sort.
pub open spec fn awaits(phase: PhaseView, event: EventView) -> bool {
    match phase {
        PhaseView::Direct | PhaseView::Asking(_) | PhaseView::Merging => event is Reply,
        PhaseView::Loading => event is Loaded,
        PhaseView::Saving(_) | PhaseView::Limited => event is Saved,
        PhaseView::Deleting(_) => event is Deleted,
        PhaseView::Finished => false,
    }
}

/// One of the summaries is that of the chunk.
pub open spec fn is_summarised(records: Seq<(usize, Seq<char>)>, chunk: int) -> bool {
    exists|k: int| 0 <= k < records.len() && (#[trigger] records[k]).0 == chunk
}

/// The first chunk from `from` on that has no summary, or the number of chunks.
pub open spec fn next_chunk(records: Seq<(usize, Seq<char>)>, from: int, total: int) -> int
    decreases total - from,
{
    if from < total && is_summarised(records, from) {
        next_chunk(records, from + 1, total)
    } else {
        from
    }
}

/// The call with this prompt.
pub open spec fn ask(s: SummaryView, prompt: Seq<char>) -> ActionView {
    ActionView::Ask { args: claude_args(s.model, s.effort), prompt }
}

/// The end of a run.
pub open spec fn finish(s: SummaryView, result: Result<Seq<char>, Seq<char>>) -> (
    SummaryView,
    ActionView,
) {
    (SummaryView { phase: PhaseView::Finished, ..s }, ActionView::Done(result))
}

/// How a run goes on from the chunk `from`: with the first one that has no
/// summary, and with the merge where none is left.
pub open spec fn go_on(s: SummaryView, from: int) -> (SummaryView, ActionView) {
    let i = next_chunk(s.partial_summaries, from, s.chunks.len() as int);
    if i < s.chunks.len() {
        (
            SummaryView { phase: PhaseView::Asking(i), ..s },
            ask(s, chunk_prompt(s.program, s.chunks[i])),
        )
    } else if s.partial_summaries.len() == 0 {
        finish(s, Err("All chunks failed to process"@))
    } else {
        (
            SummaryView { phase: PhaseView::Merging, ..s },
            ask(s, merge_prompt(s.program, texts_in_order(s.partial_summaries))),
        )
    }
}

/// The error of a run that hit the limit at a chunk.
pub open spec fn limit_error(checkpoint_path: Seq<char>) -> Seq<char> {
    "Rate limit hit. Partial progress saved to "@ + checkpoint_path
        + ". Re-run after the cooldown."@
}

/// The error of a run that hit the limit at the merge.
pub open spec fn merge_limit_error(checkpoint_path: Seq<char>) -> Seq<char> {
    "Rate limit hit during merge. Chunk summaries preserved at "@ + checkpoint_path
        + ". Re-run to retry merge."@
}

/// What an event makes of a run that waits for it, and what is to be done then.
pub open spec fn transition(s: SummaryView, event: EventView) -> (SummaryView, ActionView) {
    match (s.phase, event) {
        (PhaseView::Direct, EventView::Reply(Ok(summary))) => (
            SummaryView { phase: PhaseView::Deleting(summary), ..s },
            ActionView::Delete,
        ),
        (PhaseView::Direct, EventView::Reply(Err(error))) => finish(s, Err(error)),
        (PhaseView::Loading, EventView::Loaded(Ok(records))) => go_on(
            SummaryView { partial_summaries: records, ..s },
            0,
        ),
        (PhaseView::Loading, EventView::Loaded(Err(error))) => finish(s, Err(error)),
        (PhaseView::Asking(i), EventView::Reply(Ok(summary))) => {
            let records = s.partial_summaries.push((i as usize, summary));
            (
                SummaryView { partial_summaries: records, phase: PhaseView::Saving(i), ..s },
                ActionView::Save(records),
            )
        },
        (PhaseView::Asking(_), EventView::Reply(Err(error))) => if is_rate_limit(error) {
            (
                SummaryView { phase: PhaseView::Limited, ..s },
                ActionView::Save(s.partial_summaries),
            )
        } else {
            finish(s, Err(error))
        },
        (PhaseView::Saving(i), EventView::Saved(Ok(_))) => go_on(s, i + 1),
        (PhaseView::Saving(_), EventView::Saved(Err(error))) => finish(s, Err(error)),
        (PhaseView::Limited, EventView::Saved(_)) => finish(
            s,
            Err(limit_error(s.checkpoint_path)),
        ),
        (PhaseView::Merging, EventView::Reply(Ok(summary))) => (
            SummaryView { phase: PhaseView::Deleting(summary), ..s },
            ActionView::Delete,
        ),
        (PhaseView::Merging, EventView::Reply(Err(error))) => if is_rate_limit(error) {
            finish(s, Err(merge_limit_error(s.checkpoint_path)))
        } else {
            finish(s, Err(error))
        },
        (PhaseView::Deleting(summary), EventView::Deleted(_)) => finish(s, Ok(summary)),
        _ => arbitrary(),
    }
}

/// A copy of some summaries.
fn copied(records: &Vec<(usize, String)>) -> (r: Vec<(usize, String)>)
    ensures
        r.deep_view() == records.deep_view(),
{
    let mut out: Vec<(usize, String)> = Vec::new();
    let mut i: usize = 0;
    while i < records.len()
        invariant
            i <= records@.len(),
            out@.len() == i,
            forall|k: int| 0 <= k < i ==> (#[trigger] out@[k]).deep_view() == records@[k].deep_view(),
        decreases records@.len() - i,
    {
        out.push((records[i].0, records[i].1.clone()));
        i = i + 1;
    }
    assert(out.deep_view() =~= records.deep_view());
    out
}

/// Whether one of the summaries is that of the chunk.
fn summarised(records: &Vec<(usize, String)>, chunk: usize) -> (r: bool)
    ensures
        r == is_summarised(records.deep_view(), chunk as int),
{
    let ghost all = records.deep_view();
    let mut k: usize = 0;
    while k < records.len()
        invariant
            k <= records@.len(),
            all == records.deep_view(),
            forall|j: int| 0 <= j < k ==> (#[trigger] all[j]).0 != chunk,
        decreases records@.len() - k,
    {
        assert(all[k as int].0 == records@[k as int].0);
        if records[k].0 == chunk {
            return true;
        }
        k = k + 1;
    }
    false
}

impl Summary {
    /// The chunk that the phase speaks of exists.
    pub closed spec fn wf(&self) -> bool {
        match self.phase {
            Phase::Asking(i) | Phase::Saving(i) => i < self.chunks@.len(),
            _ => true,
        }
    }

    /// Starts a run that asks for the whole diff at once.
    pub fn begin_direct(
        file_content: &str,
        model: Option<&str>,
        effort: Option<&str>,
        checkpoint_path: &str,
        program: &str,
    ) -> (r: (Summary, Action))
        ensures
            r.0.wf(),
            (r.0@, r.1@) == direct_start(
                file_content@,
                model.deep_view(),
                effort.deep_view(),
                checkpoint_path@,
                program@,
            ),
    {
        let call = summarize_content_direct(file_content, model, effort, program);
        let run = Summary {
            program: program.to_string(),
            model: owned(model),
            effort: owned(effort),
            checkpoint_path: checkpoint_path.to_string(),
            chunks: Vec::new(),
            partial_summaries: Vec::new(),
            phase: Phase::Direct,
        };
        assert(run@.chunks =~= Seq::<Seq<char>>::empty());
        assert(run@.partial_summaries =~= Seq::<(usize, Seq<char>)>::empty());
        (run, Action::Ask(call))
    }

    /// Starts a run that asks chunk by chunk.
    pub fn begin_chunked(
        chunks: Vec<String>,
        model: Option<&str>,
        effort: Option<&str>,
        checkpoint_path: &str,
        program: &str,
    ) -> (r: (Summary, Action))
        ensures
            r.0.wf(),
            (r.0@, r.1@) == chunked_start(
                chunks.deep_view(),
                model.deep_view(),
                effort.deep_view(),
                checkpoint_path@,
                program@,
            ),
    {
        let run = Summary {
            program: program.to_string(),
            model: owned(model),
            effort: owned(effort),
            checkpoint_path: checkpoint_path.to_string(),
            chunks,
            partial_summaries: Vec::new(),
            phase: Phase::Loading,
        };
        assert(run@.partial_summaries =~= Seq::<(usize, Seq<char>)>::empty());
        (run, Action::Load)
    }

    /// Whether the run waits for an event of this sort.
    pub fn expects(&self, event: &Event) -> (r: bool)
        ensures
            r == awaits(self@.phase, event@),
    {
        match (&self.phase, event) {
            (Phase::Direct, Event::Reply(_)) => true,
            (Phase::Asking(_), Event::Reply(_)) => true,
            (Phase::Merging, Event::Reply(_)) => true,
            (Phase::Loading, Event::Loaded(_)) => true,
            (Phase::Saving(_), Event::Saved(_)) => true,
            (Phase::Limited, Event::Saved(_)) => true,
            (Phase::Deleting(_), Event::Deleted(_)) => true,
            _ => false,
        }
    }

    /// The chunks of the run.
    pub fn chunks(&self) -> (r: &Vec<String>)
        ensures
            r.deep_view() == self@.chunks,
    {
        &self.chunks
    }

    /// How many summaries the run has so far.
    pub fn summary_count(&self) -> (r: usize)
        ensures
            r == self@.partial_summaries.len(),
    {
        self.partial_summaries.len()
    }

    /// The chunk whose answer the run waits for.
    pub fn asked_chunk(&self) -> (r: Option<usize>)
        ensures
            match r {
                Some(i) => self@.phase == PhaseView::Asking(i as int),
                None => self@.phase !is Asking,
            },
    {
        match self.phase {
            Phase::Asking(i) => Some(i),
            _ => None,
        }
    }

    /// Ends the run.
    fn stop(self, result: Result<String, String>) -> (r: (Summary, Action))
        ensures
            r.0.wf(),
            (r.0@, r.1@) == finish(self@, result_view(result)),
    {
        let run = Summary { phase: Phase::Finished, ..self };
        (run, Action::Done(result))
    }

    /// Goes on with the first chunk from `from` on that has no summary, or with
    /// the merge.
    fn proceed(self, from: usize) -> (r: (Summary, Action))
        requires
            from <= self@.chunks.len(),
        ensures
            r.0.wf(),
            (r.0@, r.1@) == go_on(self@, from as int),
    {
        let n: usize = self.chunks.len();
        let ghost records = self@.partial_summaries;
        let mut i: usize = from;
        while i < n && summarised(&self.partial_summaries, i)
            invariant
                i <= n,
                records == self.partial_summaries.deep_view(),
                next_chunk(records, from as int, n as int) == next_chunk(
                    records,
                    i as int,
                    n as int,
                ),
            decreases n - i,
        {
            i = i + 1;
        }
        assert(next_chunk(records, from as int, n as int) == i);
        if i < n {
            let call = summarize_chunk(
                self.chunks[i].as_str(),
                borrowed(&self.model),
                borrowed(&self.effort),
                self.program.as_str(),
            );
            let run = Summary { phase: Phase::Asking(i), ..self };
            (run, Action::Ask(call))
        } else if self.partial_summaries.len() == 0 {
            self.stop(Err("All chunks failed to process".to_string()))
        } else {
            let summaries_in_order = sort_texts(&self.partial_summaries);
            let call = merge_summaries(
                &summaries_in_order,
                borrowed(&self.model),
                borrowed(&self.effort),
                self.program.as_str(),
            );
            let run = Summary { phase: Phase::Merging, ..self };
            (run, Action::Ask(call))
        }
    }

    /// Takes an event that the run waits for.
    pub fn step(self, event: Event) -> (r: (Summary, Action))
        requires
            self.wf(),
            awaits(self@.phase, event@),
        ensures
            r.0.wf(),
            (r.0@, r.1@) == transition(self@, event@),
    {
        match event {
            Event::Reply(reply) => self.take_reply(reply),
            Event::Loaded(Ok(records)) => {
                let run = Summary { partial_summaries: records, ..self };
                run.proceed(0)
            },
            Event::Loaded(Err(error)) => self.stop(Err(error)),
            Event::Saved(saved) => match self.phase {
                Phase::Saving(i) => match saved {
                    Ok(_) => {
                        assert(i < self.chunks.len());
                        self.proceed(i + 1)
                    },
                    Err(error) => self.stop(Err(error)),
                },
                _ => {
                    let mut message: String =
                        "Rate limit hit. Partial progress saved to ".to_string();
                    push_text(&mut message, self.checkpoint_path.as_str());
                    push_text(&mut message, ". Re-run after the cooldown.");
                    self.stop(Err(message))
                },
            },
            Event::Deleted(_) => {
                let summary: String = match &self.phase {
                    Phase::Deleting(text) => text.clone(),
                    _ => String::new(),
                };
                self.stop(Ok(summary))
            },
        }
    }

    /// Takes the reply to a call.
    fn take_reply(self, reply: Result<String, String>) -> (r: (Summary, Action))
        requires
            self.wf(),
            awaits(self@.phase, EventView::Reply(result_view(reply))),
        ensures
            r.0.wf(),
            (r.0@, r.1@) == transition(self@, EventView::Reply(result_view(reply))),
    {
        match (&self.phase, reply) {
            (Phase::Asking(i), Ok(summary)) => {
                let chunk: usize = *i;
                let ghost before = self@;
                let mut records = self.partial_summaries;
                records.push((chunk, summary));
                let saved = copied(&records);
                let run = Summary {
                    partial_summaries: records,
                    phase: Phase::Saving(chunk),
                    program: self.program,
                    model: self.model,
                    effort: self.effort,
                    checkpoint_path: self.checkpoint_path,
                    chunks: self.chunks,
                };
                assert(run@.partial_summaries =~= before.partial_summaries.push(
                    (chunk, summary@),
                ));
                (run, Action::Save(saved))
            },
            (Phase::Asking(_), Err(error)) => if rate_limited(error.as_str()) {
                let saved = copied(&self.partial_summaries);
                let run = Summary { phase: Phase::Limited, ..self };
                (run, Action::Save(saved))
            } else {
                self.stop(Err(error))
            },
            (Phase::Direct, Ok(summary)) | (Phase::Merging, Ok(summary)) => {
                let run = Summary { phase: Phase::Deleting(summary), ..self };
                (run, Action::Delete)
            },
            (Phase::Merging, Err(error)) => if rate_limited(error.as_str()) {
                let mut message: String =
                    "Rate limit hit during merge. Chunk summaries preserved at ".to_string();
                push_text(&mut message, self.checkpoint_path.as_str());
                push_text(&mut message, ". Re-run to retry merge.");
                self.stop(Err(message))
            } else {
                self.stop(Err(error))
            },
            (_, reply) => self.stop(reply),
        }
    }
}

/// How a run starts, given how many tokens its text has.
pub open spec fn start(
    content: Seq<char>,
    tokens: usize,
    model: Option<Seq<char>>,
    effort: Option<Seq<char>>,
    checkpoint_path: Seq<char>,
    program: Seq<char>,
) -> (SummaryView, ActionView) {
    if tokens <= MAX_TOKENS_PER_CHUNK {
        direct_start(content, model, effort, checkpoint_path, program)
    } else {
        chunked_start(
            chunks_from(lines_of(content), line_tokens(content), 0, MAX_TOKENS_PER_CHUNK),
            model,
            effort,
            checkpoint_path,
            program,
        )
    }
}

/// Starts a run. A text that goes into one prompt is asked for at once, a longer
/// one chunk by chunk. Gives nothing where the tokenizer fails on the text or
/// on a line of it.
pub fn summarize_content(
    file_content: &str,
    model: Option<&str>,
    effort: Option<&str>,
    checkpoint_path: &str,
    program: &str,
) -> (r: Option<(Summary, Action)>)
    ensures
        r is Some <==> countable(file_content@),
        r matches Some(started) ==> started.0.wf() && (started.0@, started.1@) == start(
            file_content@,
            cl100k_tokens(file_content@)->0,
            model.deep_view(),
            effort.deep_view(),
            checkpoint_path@,
            program@,
        ),
{
    let token_count: usize = match count_tokens(file_content) {
        Some(n) => n,
        None => {
            return None;
        },
    };
    if fits_one_prompt(token_count) {
        return Some(
            Summary::begin_direct(file_content, model, effort, checkpoint_path, program),
        );
    }
    match split_into_chunks_by_tokens(file_content, MAX_TOKENS_PER_CHUNK) {
        Some(chunks) => Some(
            Summary::begin_chunked(chunks, model, effort, checkpoint_path, program),
        ),
        None => None,
    }
}

/// A run that asks for the whole diff at once.
pub open spec fn direct_start(
    content: Seq<char>,
    model: Option<Seq<char>>,
    effort: Option<Seq<char>>,
    checkpoint_path: Seq<char>,
    program: Seq<char>,
) -> (SummaryView, ActionView) {
    (
        SummaryView {
            program,
            model,
            effort,
            checkpoint_path,
            chunks: Seq::empty(),
            partial_summaries: Seq::empty(),
            phase: PhaseView::Direct,
        },
        ActionView::Ask { args: claude_args(model, effort), prompt: content_prompt(program, content) },
    )
}

/// A run that asks chunk by chunk.
pub open spec fn chunked_start(
    chunks: Seq<Seq<char>>,
    model: Option<Seq<char>>,
    effort: Option<Seq<char>>,
    checkpoint_path: Seq<char>,
    program: Seq<char>,
) -> (SummaryView, ActionView) {
    (
        SummaryView {
            program,
            model,
            effort,
            checkpoint_path,
            chunks,
            partial_summaries: Seq::empty(),
            phase: PhaseView::Loading,
        },
        ActionView::Load,
    )
}

} // verus!
