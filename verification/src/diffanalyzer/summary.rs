//! How the summary of a diff is put together: what is asked next, and what
//! becomes of each answer. A chunk that fails is left out.

use vstd::prelude::*;

use crate::chunks::{
    chunks_from, cl100k_tokens, count_tokens, countable, fits_one_prompt, line_tokens,
    split_into_chunks_by_tokens, MAX_TOKENS_PER_CHUNK,
};
use crate::claude::{claude_args, result_view, ClaudeCall};
use crate::diffanalyzer::{
    chunk_prompt, content_prompt, merge_prompt, merge_summaries, summarize_chunk,
    summarize_content_direct,
};
use crate::text::{borrowed, lines_of, owned};

verus! {

/// What a run waits for.
#[derive(Debug)]
pub enum Phase {
    /// The answer to the whole diff.
    Direct,
    /// The answer to a chunk.
    Asking(usize),
    /// The answer to the merge.
    Merging,
    /// Nothing more.
    Finished,
}

/// What is to be done next.
#[derive(Debug)]
pub enum Action {
    /// Make a call.
    Ask(ClaudeCall),
    /// Stop, with the summary or with an error.
    Done(Result<String, String>),
}

/// A run that puts a summary together.
#[derive(Debug)]
pub struct Summary {
    model: Option<String>,
    effort: Option<String>,
    chunks: Vec<String>,
    partial_summaries: Vec<String>,
    phase: Phase,
}

/// A phase, by what it holds.
pub enum PhaseView {
    Direct,
    Asking(int),
    Merging,
    Finished,
}

/// An action, by what it holds.
pub enum ActionView {
    Ask { args: Seq<Seq<char>>, prompt: Seq<char> },
    Done(Result<Seq<char>, Seq<char>>),
}

/// A run, by what it holds.
pub struct SummaryView {
    pub model: Option<Seq<char>>,
    pub effort: Option<Seq<char>>,
    /// The diff, in chunks that are summarised one by one.
    pub chunks: Seq<Seq<char>>,
    /// The summaries so far.
    pub partial_summaries: Seq<Seq<char>>,
    pub phase: PhaseView,
}

impl View for Phase {
    type V = PhaseView;

    open spec fn view(&self) -> PhaseView {
        match *self {
            Phase::Direct => PhaseView::Direct,
            Phase::Asking(i) => PhaseView::Asking(i as int),
            Phase::Merging => PhaseView::Merging,
            Phase::Finished => PhaseView::Finished,
        }
    }
}

impl View for Action {
    type V = ActionView;

    open spec fn view(&self) -> ActionView {
        match *self {
            Action::Ask(call) => ActionView::Ask {
                args: call.args.deep_view(),
                prompt: call.prompt@,
            },
            Action::Done(result) => ActionView::Done(result_view(result)),
        }
    }
}

impl View for Summary {
    type V = SummaryView;

    closed spec fn view(&self) -> SummaryView {
        SummaryView {
            model: self.model.deep_view(),
            effort: self.effort.deep_view(),
            chunks: self.chunks.deep_view(),
            partial_summaries: self.partial_summaries.deep_view(),
            phase: self.phase@,
        }
    }
}

/// The call with this prompt.
pub open spec fn ask(s: SummaryView, prompt: Seq<char>) -> ActionView {
    ActionView::Ask { args: claude_args(s.model, s.effort), prompt }
}

/// The end of a run.
pub open spec fn finish(s: SummaryView, result: Result<Seq<char>, Seq<char>>) -> (
    SummaryView,
    ActionView,
) {
    (SummaryView { phase: PhaseView::Finished, ..s }, ActionView::Done(result))
}

/// How a run goes on: with the chunk `i`, or with the merge where it has none.
pub open spec fn go_on(s: SummaryView, i: int) -> (SummaryView, ActionView) {
    if i < s.chunks.len() {
        (
            SummaryView { phase: PhaseView::Asking(i), ..s },
            ask(s, chunk_prompt(s.chunks[i])),
        )
    } else if s.partial_summaries.len() == 0 {
        finish(s, Err("All chunks failed to process"@))
    } else {
        (
            SummaryView { phase: PhaseView::Merging, ..s },
            ask(s, merge_prompt(s.partial_summaries)),
        )
    }
}

/// The summaries with one more, where a chunk got one.
pub open spec fn with_reply(
    summaries: Seq<Seq<char>>,
    reply: Result<Seq<char>, Seq<char>>,
) -> Seq<Seq<char>> {
    match reply {
        Ok(summary) => summaries.push(summary),
        Err(_) => summaries,
    }
}

/// What the reply to a call makes of a run that waits for it, and what is to be
/// done then.
pub open spec fn transition(s: SummaryView, reply: Result<Seq<char>, Seq<char>>) -> (
    SummaryView,
    ActionView,
) {
    match s.phase {
        PhaseView::Asking(i) => go_on(
            SummaryView { partial_summaries: with_reply(s.partial_summaries, reply), ..s },
            i + 1,
        ),
        _ => finish(s, reply),
    }
}

impl Summary {
    /// The chunk that the phase speaks of exists.
    pub closed spec fn wf(&self) -> bool {
        self.phase matches Phase::Asking(i) ==> i < self.chunks@.len()
    }

    /// Starts a run that asks for the whole diff at once.
    pub fn begin_direct(file_content: &str, model: Option<&str>, effort: Option<&str>) -> (r: (
        Summary,
        Action,
    ))
        ensures
            r.0.wf(),
            (r.0@, r.1@) == direct_start(file_content@, model.deep_view(), effort.deep_view()),
    {
        let call = summarize_content_direct(file_content, model, effort);
        let run = Summary {
            model: owned(model),
            effort: owned(effort),
            chunks: Vec::new(),
            partial_summaries: Vec::new(),
            phase: Phase::Direct,
        };
        assert(run@.chunks =~= Seq::<Seq<char>>::empty());
        assert(run@.partial_summaries =~= Seq::<Seq<char>>::empty());
        (run, Action::Ask(call))
    }

    /// Starts a run that asks chunk by chunk.
    pub fn begin_chunked(chunks: Vec<String>, model: Option<&str>, effort: Option<&str>) -> (r: (
        Summary,
        Action,
    ))
        ensures
            r.0.wf(),
            (r.0@, r.1@) == chunked_start(
                chunks.deep_view(),
                model.deep_view(),
                effort.deep_view(),
            ),
    {
        let run = Summary {
            model: owned(model),
            effort: owned(effort),
            chunks,
            partial_summaries: Vec::new(),
            phase: Phase::Direct,
        };
        assert(run@.partial_summaries =~= Seq::<Seq<char>>::empty());
        run.proceed(0)
    }

    /// Whether the run waits for a reply.
    pub fn expects_reply(&self) -> (r: bool)
        ensures
            r == (self@.phase !is Finished),
    {
        match self.phase {
            Phase::Finished => false,
            _ => true,
        }
    }

    /// The chunks of the run.
    pub fn chunks(&self) -> (r: &Vec<String>)
        ensures
            r.deep_view() == self@.chunks,
    {
        &self.chunks
    }

    /// How many summaries the run has so far.
    pub fn summary_count(&self) -> (r: usize)
        ensures
            r == self@.partial_summaries.len(),
    {
        self.partial_summaries.len()
    }

    /// The chunk whose answer the run waits for.
    pub fn asked_chunk(&self) -> (r: Option<usize>)
        ensures
            match r {
                Some(i) => self@.phase == PhaseView::Asking(i as int),
                None => self@.phase !is Asking,
            },
    {
        match self.phase {
            Phase::Asking(i) => Some(i),
            _ => None,
        }
    }

    /// Ends the run.
    fn stop(self, result: Result<String, String>) -> (r: (Summary, Action))
        ensures
            r.0.wf(),
            (r.0@, r.1@) == finish(self@, result_view(result)),
    {
        let run = Summary { phase: Phase::Finished, ..self };
        (run, Action::Done(result))
    }

    /// Goes on with the chunk `i`, or with the merge.
    fn proceed(self, i: usize) -> (r: (Summary, Action))
        ensures
            r.0.wf(),
            (r.0@, r.1@) == go_on(self@, i as int),
    {
        if i < self.chunks.len() {
            let call = summarize_chunk(
                self.chunks[i].as_str(),
                borrowed(&self.model),
                borrowed(&self.effort),
            );
            let run = Summary { phase: Phase::Asking(i), ..self };
            (run, Action::Ask(call))
        } else if self.partial_summaries.len() == 0 {
            self.stop(Err("All chunks failed to process".to_string()))
        } else {
            let call = merge_summaries(
                &self.partial_summaries,
                borrowed(&self.model),
                borrowed(&self.effort),
            );
            let run = Summary { phase: Phase::Merging, ..self };
            (run, Action::Ask(call))
        }
    }

    /// Takes the reply to the last call.
    pub fn step(self, reply: Result<String, String>) -> (r: (Summary, Action))
        requires
            self.wf(),
            self@.phase !is Finished,
        ensures
            r.0.wf(),
            (r.0@, r.1@) == transition(self@, result_view(reply)),
    {
        match self.phase {
            Phase::Asking(i) => {
                let ghost before = self@;
                assert(i < self.chunks.len());
                let mut summaries = self.partial_summaries;
                if let Ok(summary) = reply {
                    summaries.push(summary);
                }
                let run = Summary {
                    model: self.model,
                    effort: self.effort,
                    chunks: self.chunks,
                    partial_summaries: summaries,
                    phase: self.phase,
                };
                assert(run@.partial_summaries =~= with_reply(
                    before.partial_summaries,
                    result_view(reply),
                ));
                run.proceed(i + 1)
            },
            _ => self.stop(reply),
        }
    }
}

/// A run that asks for the whole diff at once.
pub open spec fn direct_start(
    content: Seq<char>,
    model: Option<Seq<char>>,
    effort: Option<Seq<char>>,
) -> (SummaryView, ActionView) {
    (
        SummaryView {
            model,
            effort,
            chunks: Seq::empty(),
            partial_summaries: Seq::empty(),
            phase: PhaseView::Direct,
        },
        ActionView::Ask { args: claude_args(model, effort), prompt: content_prompt(content) },
    )
}

/// A run that asks chunk by chunk.
pub open spec fn chunked_start(
    chunks: Seq<Seq<char>>,
    model: Option<Seq<char>>,
    effort: Option<Seq<char>>,
) -> (SummaryView, ActionView) {
    go_on(
        SummaryView {
            model,
            effort,
            chunks,
            partial_summaries: Seq::empty(),
            phase: PhaseView::Direct,
        },
        0,
    )
}

/// How a run starts, given how many tokens its text has.
pub open spec fn start(
    content: Seq<char>,
    tokens: usize,
    model: Option<Seq<char>>,
    effort: Option<Seq<char>>,
) -> (SummaryView, ActionView) {
    if tokens <= MAX_TOKENS_PER_CHUNK {
        direct_start(content, model, effort)
    } else {
        chunked_start(
            chunks_from(lines_of(content), line_tokens(content), 0, MAX_TOKENS_PER_CHUNK),
            model,
            effort,
        )
    }
}

/// Starts a run. A text that goes into one prompt is asked for at once, a longer
/// one chunk by chunk. Gives nothing where the tokenizer fails on the text or
/// on a line of it.
pub fn summarize_content(file_content: &str, model: Option<&str>, effort: Option<&str>) -> (r:
    Option<(Summary, Action)>)
    ensures
        r is Some <==> countable(file_content@),
        r matches Some(started) ==> started.0.wf() && (started.0@, started.1@) == start(
            file_content@,
            cl100k_tokens(file_content@)->0,
            model.deep_view(),
            effort.deep_view(),
        ),
{
    let token_count: usize = match count_tokens(file_content) {
        Some(n) => n,
        None => {
            return None;
        },
    };
    if fits_one_prompt(token_count) {
        return Some(Summary::begin_direct(file_content, model, effort));
    }
    match split_into_chunks_by_tokens(file_content, MAX_TOKENS_PER_CHUNK) {
        Some(chunks) => Some(Summary::begin_chunked(chunks, model, effort)),
        None => None,
    }
}

/// A run after some replies, with what is to be done then.
pub open spec fn after(
    start: (SummaryView, ActionView),
    replies: Seq<Result<Seq<char>, Seq<char>>>,
) -> (SummaryView, ActionView)
    decreases replies.len(),
{
    if replies.len() == 0 {
        start
    } else {
        transition(after(start, replies.drop_last()).0, replies.last())
    }
}

/// The summaries among some replies.
pub open spec fn successes(replies: Seq<Result<Seq<char>, Seq<char>>>) -> Seq<Seq<char>>
    decreases replies.len(),
{
    if replies.len() == 0 {
        Seq::empty()
    } else {
        with_reply(successes(replies.drop_last()), replies.last())
    }
}

/// A run asks for every chunk, whatever became of those before. Then it asks for
/// the merge of the summaries that it got, in the order of their chunks, or ends
/// with an error where it got none.
pub proof fn law_a_run_merges_what_succeeded(
    chunks: Seq<Seq<char>>,
    model: Option<Seq<char>>,
    effort: Option<Seq<char>>,
    replies: Seq<Result<Seq<char>, Seq<char>>>,
)
    requires
        0 < chunks.len(),
        replies.len() <= chunks.len(),
    ensures
        ({
            let (s, action) = after(chunked_start(chunks, model, effort), replies);
            &&& action == if replies.len() < chunks.len() {
                ask(s, chunk_prompt(chunks[replies.len() as int]))
            } else if successes(replies).len() == 0 {
                ActionView::Done(Err("All chunks failed to process"@))
            } else {
                ask(s, merge_prompt(successes(replies)))
            }
            &&& s.phase is Finished <==> action is Done
            &&& action is Ask && replies.len() == chunks.len() ==> s.phase is Merging
        }),
{
    lemma_run_after(chunks, model, effort, replies);
}

proof fn lemma_run_after(
    chunks: Seq<Seq<char>>,
    model: Option<Seq<char>>,
    effort: Option<Seq<char>>,
    replies: Seq<Result<Seq<char>, Seq<char>>>,
)
    requires
        0 < chunks.len(),
        replies.len() <= chunks.len(),
    ensures
        after(chunked_start(chunks, model, effort), replies) == go_on(
            SummaryView {
                model,
                effort,
                chunks,
                partial_summaries: successes(replies),
                phase: PhaseView::Direct,
            },
            replies.len() as int,
        ),
    decreases replies.len(),
{
    if replies.len() > 0 {
        lemma_run_after(chunks, model, effort, replies.drop_last());
    }
}

/// A run ends with the reply to the whole diff, or with the reply to the merge,
/// as it came.
pub proof fn law_a_run_ends_with_the_last_reply(
    s: SummaryView,
    reply: Result<Seq<char>, Seq<char>>,
)
    requires
        s.phase is Direct || s.phase is Merging,
    ensures
        transition(s, reply) == finish(s, reply),
{
}

/// The summaries of a run are the replies that succeeded, in their order; one
/// that failed adds nothing and takes nothing away.
pub proof fn law_only_failures_are_left_out(
    replies: Seq<Result<Seq<char>, Seq<char>>>,
    summary: Seq<char>,
    error: Seq<char>,
)
    ensures
        successes(Seq::empty()) == Seq::<Seq<char>>::empty(),
        successes(replies.push(Ok(summary))) == successes(replies).push(summary),
        successes(replies.push(Err(error))) == successes(replies),
{
    assert(replies.push(Ok(summary)).drop_last() =~= replies);
    assert(replies.push(Err(error)).drop_last() =~= replies);
}

/// A text of up to a hundred thousand tokens is asked for at once and whole; of a
/// longer one the chunks are, each of up to as many tokens. A run asks with the
/// model and the effort that it was started with.
pub proof fn law_a_run_starts_with_the_whole_text_or_its_chunks(
    content: Seq<char>,
    tokens: usize,
    model: Option<Seq<char>>,
    effort: Option<Seq<char>>,
)
    ensures
        tokens <= 100_000 ==> start(content, tokens, model, effort).1 == (ActionView::Ask {
            args: claude_args(model, effort),
            prompt: content_prompt(content),
        }) && start(content, tokens, model, effort).0.phase is Direct,
        tokens > 100_000 ==> start(content, tokens, model, effort) == chunked_start(
            chunks_from(lines_of(content), line_tokens(content), 0, 100_000),
            model,
            effort,
        ),
{
}

/// Every question of a run is put with its model and its effort, which never
/// change, nor do its chunks.
pub proof fn law_a_run_keeps_its_settings(
    s: SummaryView,
    reply: Result<Seq<char>, Seq<char>>,
    prompt: Seq<char>,
)
    ensures
        ask(s, prompt) == (ActionView::Ask { args: claude_args(s.model, s.effort), prompt }),
        transition(s, reply).0.model == s.model,
        transition(s, reply).0.effort == s.effort,
        transition(s, reply).0.chunks == s.chunks,
        finish(s, reply).1 == ActionView::Done(reply),
        finish(s, reply).0.phase is Finished,
{
}

/// An action is what it holds.
pub proof fn law_an_action_is_what_it_holds(call: ClaudeCall, result: Result<String, String>)
    ensures
        Action::Ask(call)@ == (ActionView::Ask {
            args: call.args.deep_view(),
            prompt: call.prompt@,
        }),
        Action::Done(result)@ == ActionView::Done(result_view(result)),
{
}

} // verus!
