//! What holds of every run that puts a summary together.

use vstd::prelude::*;

use crate::chunks::{chunks_from, line_tokens};
use crate::claude::{claude_args, is_rate_limit, result_view, ClaudeCall};
use crate::diff_analyze::summary::{
    ask, awaits, chunked_start, direct_start, go_on, is_summarised, next_chunk, start, transition,
    Action, ActionView, Event, EventView, PhaseView, SummaryView,
};
use crate::diff_analyze::{chunk_prompt, content_prompt, merge_prompt};
use crate::order::{in_order, law_in_order_is_a_stable_sort, texts_in_order};
use crate::text::lines_of;

verus! {

/// Each of the chunks from `from` up to `to` has a summary.
pub open spec fn all_summarised(records: Seq<(usize, Seq<char>)>, from: int, to: int) -> bool {
    forall|chunk: int| from <= chunk < to ==> #[trigger] is_summarised(records, chunk)
}

/// What holds of a run between two events.
pub open spec fn consistent(s: SummaryView) -> bool {
    &&& s.chunks.len() <= usize::MAX
    &&& match s.phase {
        PhaseView::Asking(i) => {
            &&& 0 <= i < s.chunks.len()
            &&& !is_summarised(s.partial_summaries, i)
            &&& all_summarised(s.partial_summaries, 0, i)
        },
        PhaseView::Saving(i) => {
            &&& 0 <= i < s.chunks.len()
            &&& all_summarised(s.partial_summaries, 0, i + 1)
        },
        PhaseView::Merging => {
            &&& s.partial_summaries.len() > 0
            &&& all_summarised(s.partial_summaries, 0, s.chunks.len() as int)
        },
        _ => true,
    }
}

/// The next chunk is the first without a summary.
proof fn lemma_next_chunk(records: Seq<(usize, Seq<char>)>, from: int, total: int)
    requires
        from <= total,
    ensures
        from <= next_chunk(records, from, total) <= total,
        all_summarised(records, from, next_chunk(records, from, total)),
        next_chunk(records, from, total) < total ==> !is_summarised(
            records,
            next_chunk(records, from, total),
        ),
    decreases total - from,
{
    if from < total && is_summarised(records, from) {
        lemma_next_chunk(records, from + 1, total);
    }
}

/// Chunks that have a summary can be passed over.
proof fn lemma_next_chunk_skips(
    records: Seq<(usize, Seq<char>)>,
    from: int,
    to: int,
    total: int,
)
    requires
        from <= to <= total,
        all_summarised(records, from, to),
    ensures
        next_chunk(records, from, total) == next_chunk(records, to, total),
    decreases to - from,
{
    if from < to {
        assert(is_summarised(records, from));
        lemma_next_chunk_skips(records, from + 1, to, total);
    }
}

/// A run is consistent when it starts.
pub proof fn law_a_run_starts_consistent(
    content: Seq<char>,
    chunks: Seq<Seq<char>>,
    model: Option<Seq<char>>,
    effort: Option<Seq<char>>,
    checkpoint_path: Seq<char>,
    program: Seq<char>,
)
    requires
        chunks.len() <= usize::MAX,
    ensures
        consistent(direct_start(content, model, effort, checkpoint_path, program).0),
        consistent(chunked_start(chunks, model, effort, checkpoint_path, program).0),
{
}

/// A run stays consistent: a chunk is asked for only where it has no summary and
/// all before it have one, and the merge is asked for only where every chunk has
/// one. The program, the model, the effort, the place of the checkpoint and the
/// chunks never change.
pub proof fn law_a_run_stays_consistent(s: SummaryView, event: EventView)
    requires
        consistent(s),
        awaits(s.phase, event),
    ensures
        consistent(transition(s, event).0),
        transition(s, event).0.program == s.program,
        transition(s, event).0.model == s.model,
        transition(s, event).0.effort == s.effort,
        transition(s, event).0.checkpoint_path == s.checkpoint_path,
        transition(s, event).0.chunks == s.chunks,
{
    let total = s.chunks.len() as int;
    match (s.phase, event) {
        (PhaseView::Loading, EventView::Loaded(Ok(records))) => {
            lemma_next_chunk(records, 0, total);
        },
        (PhaseView::Asking(i), EventView::Reply(Ok(summary))) => {
            let records = s.partial_summaries.push((i as usize, summary));
            assert forall|chunk: int| 0 <= chunk < i + 1 implies #[trigger] is_summarised(
                records,
                chunk,
            ) by {
                if chunk == i {
                    assert(records[s.partial_summaries.len() as int].0 == chunk);
                } else {
                    assert(is_summarised(s.partial_summaries, chunk));
                    let k = choose|k: int|
                        0 <= k < s.partial_summaries.len() && (#[trigger] s.partial_summaries[k]).0
                            == chunk;
                    assert(records[k].0 == chunk);
                }
            }
        },
        (PhaseView::Saving(i), EventView::Saved(Ok(_))) => {
            lemma_next_chunk(s.partial_summaries, i + 1, total);
            lemma_next_chunk_skips(s.partial_summaries, 0, i + 1, total);
            lemma_next_chunk(s.partial_summaries, 0, total);
        },
        _ => {},
    }
}

/// What is asked for is what the phase says: at a chunk its prompt, at the merge
/// the prompt with all summaries in the order of their chunks.
pub proof fn law_questions_follow_the_phase(s: SummaryView, event: EventView)
    requires
        consistent(s),
        awaits(s.phase, event),
    ensures
        ({
            let (next, action) = transition(s, event);
            &&& next.phase matches PhaseView::Asking(i) ==> action == ask(
                s,
                chunk_prompt(s.program, s.chunks[i]),
            )
            &&& next.phase is Merging ==> action == ask(
                s,
                merge_prompt(s.program, texts_in_order(next.partial_summaries)),
            )
            &&& action is Ask ==> next.phase is Asking || next.phase is Merging
        }),
{
}

/// No summary is lost: once the checkpoint is loaded, the summaries of a run
/// only grow, by the reply to the chunk that was asked for. What is saved is all
/// of them.
pub proof fn law_no_summary_is_lost(s: SummaryView, event: EventView)
    requires
        consistent(s),
        awaits(s.phase, event),
        s.phase !is Loading,
    ensures
        ({
            let (next, action) = transition(s, event);
            &&& s.partial_summaries.is_prefix_of(next.partial_summaries)
            &&& action matches ActionView::Save(records) ==> records == next.partial_summaries
            &&& s.phase matches PhaseView::Asking(i) ==> (event matches EventView::Reply(
                Ok(summary),
            ) ==> next.partial_summaries == s.partial_summaries.push((i as usize, summary))
                && action is Save)
        }),
{
    assert(s.partial_summaries.is_prefix_of(s.partial_summaries));
}

/// A run that is broken off after a save, and started again on the same chunks,
/// goes on just as the first one would have: with the same question, and with
/// the same summaries.
pub proof fn law_a_saved_run_resumes(s: SummaryView, i: int)
    requires
        consistent(s),
        s.phase == PhaseView::Saving(i),
    ensures
        transition(
            chunked_start(s.chunks, s.model, s.effort, s.checkpoint_path, s.program).0,
            EventView::Loaded(Ok(s.partial_summaries)),
        ) == transition(s, EventView::Saved(Ok(()))),
{
    lemma_next_chunk_skips(s.partial_summaries, 0, i + 1, s.chunks.len() as int);
}

/// A run that hits the limit at a chunk saves what it has. Started again on the
/// same chunks, it asks for that chunk.
pub proof fn law_a_limited_run_resumes(s: SummaryView, i: int, error: Seq<char>)
    requires
        consistent(s),
        s.phase == PhaseView::Asking(i),
        is_rate_limit(error),
    ensures
        transition(s, EventView::Reply(Err(error))).1 == ActionView::Save(s.partial_summaries),
        transition(
            chunked_start(s.chunks, s.model, s.effort, s.checkpoint_path, s.program).0,
            EventView::Loaded(Ok(s.partial_summaries)),
        ) == (s, ask(s, chunk_prompt(s.program, s.chunks[i]))),
{
    lemma_next_chunk_skips(s.partial_summaries, 0, i, s.chunks.len() as int);
}

/// A run whose checkpoint holds a summary of every chunk asks for none of them,
/// and goes straight to the merge.
pub proof fn law_a_full_checkpoint_skips_the_chunks(
    s: SummaryView,
    records: Seq<(usize, Seq<char>)>,
)
    requires
        s.phase is Loading,
        records.len() > 0,
        all_summarised(records, 0, s.chunks.len() as int),
    ensures
        transition(s, EventView::Loaded(Ok(records))) == (
            SummaryView { partial_summaries: records, phase: PhaseView::Merging, ..s },
            ask(s, merge_prompt(s.program, texts_in_order(records))),
        ),
{
    lemma_next_chunk_skips(records, 0, s.chunks.len() as int, s.chunks.len() as int);
}

/// The checkpoint is removed only where the whole diff, or the merge, was
/// answered, and is then removed in any case. A run ends with a summary only
/// after that: with the reply as it came, whatever became of the removal.
pub proof fn law_the_checkpoint_outlives_every_failure(s: SummaryView, event: EventView)
    requires
        awaits(s.phase, event),
    ensures
        ({
            let (next, action) = transition(s, event);
            &&& action is Delete <==> next.phase is Deleting
            &&& next.phase matches PhaseView::Deleting(summary) ==> (s.phase is Direct
                || s.phase is Merging) && event == EventView::Reply(Ok(summary))
            &&& s.phase is Direct || s.phase is Merging ==> (event matches EventView::Reply(
                Ok(summary),
            ) ==> next.phase == PhaseView::Deleting(summary))
            &&& s.phase matches PhaseView::Deleting(summary) ==> action == ActionView::Done(
                Ok(summary),
            )
            &&& action matches ActionView::Done(Ok(summary)) ==> s.phase == PhaseView::Deleting(
                summary,
            )
        }),
{
}

/// The chunks of some summaries are the first `total`, each once.
pub open spec fn one_for_each_chunk(records: Seq<(usize, Seq<char>)>, total: int) -> bool {
    &&& all_summarised(records, 0, total)
    &&& forall|k: int| 0 <= k < records.len() ==> (#[trigger] records[k]).0 < total
    &&& forall|j: int, k: int|
        0 <= j < k < records.len() ==> (#[trigger] records[j]).0 != (#[trigger] records[k]).0
}

/// Where there is one summary for each chunk, the merge gets them in the order
/// of the chunks, whatever order they were saved in.
pub proof fn law_summaries_are_merged_in_order(records: Seq<(usize, Seq<char>)>, total: int)
    requires
        one_for_each_chunk(records, total),
        total >= 0,
    ensures
        texts_in_order(records).len() == total,
        forall|k: int|
            0 <= k < records.len() ==> texts_in_order(records)[(#[trigger] records[k]).0 as int]
                == records[k].1,
{
    broadcast use vstd::seq_lib::group_to_multiset_ensures;

    let sorted = in_order(records);
    law_in_order_is_a_stable_sort(records);
    assert forall|j: int, k: int| 0 <= j < k < sorted.len() implies (#[trigger] sorted[j]).0 < (
    #[trigger] sorted[k]).0 by {
        lemma_distinct_numbers(records, sorted, j, k);
    }
    assert forall|k: int| 0 <= k < sorted.len() implies (#[trigger] sorted[k]).0 < total by {
        lemma_same_members(sorted, records, k);
    }
    assert forall|chunk: int| 0 <= chunk < total implies #[trigger] is_summarised(
        sorted,
        chunk,
    ) by {
        assert(is_summarised(records, chunk));
        let k = choose|k: int| 0 <= k < records.len() && (#[trigger] records[k]).0 == chunk;
        lemma_same_members(records, sorted, k);
        let j = choose|j: int| 0 <= j < sorted.len() && sorted[j] == records[k];
        assert(sorted[j].0 == chunk);
    }
    lemma_sorted_numbers(sorted, total, total);
    if sorted.len() > total {
        assert(sorted[total].0 < total);
        if total > 0 {
            assert(sorted[total - 1].0 == total - 1);
            assert(sorted[total - 1].0 < sorted[total].0);
        }
    }
    assert forall|k: int| 0 <= k < records.len() implies texts_in_order(
        records,
    )[(#[trigger] records[k]).0 as int] == records[k].1 by {
        lemma_same_members(records, sorted, k);
        let j = choose|j: int| 0 <= j < sorted.len() && sorted[j] == records[k];
        assert(sorted[j].0 == j);
    }
}

/// What one of two lists with the same members holds, the other holds.
proof fn lemma_same_members(
    a: Seq<(usize, Seq<char>)>,
    b: Seq<(usize, Seq<char>)>,
    k: int,
)
    requires
        a.to_multiset() == b.to_multiset(),
        0 <= k < a.len(),
    ensures
        exists|j: int| 0 <= j < b.len() && b[j] == a[k],
{
    broadcast use vstd::seq_lib::group_to_multiset_ensures;

    assert(a.to_multiset().count(a[k]) > 0);
    assert(b.to_multiset().count(a[k]) > 0);
    assert(b.contains(a[k]));
}

/// Sorting keeps different numbers apart.
proof fn lemma_distinct_numbers(
    records: Seq<(usize, Seq<char>)>,
    sorted: Seq<(usize, Seq<char>)>,
    j: int,
    k: int,
)
    requires
        sorted == in_order(records),
        0 <= j < k < sorted.len(),
        forall|j: int, k: int|
            0 <= j < k < records.len() ==> (#[trigger] records[j]).0 != (#[trigger] records[k]).0,
    ensures
        sorted[j].0 < sorted[k].0,
{
    broadcast use vstd::seq_lib::group_to_multiset_ensures;

    law_in_order_is_a_stable_sort(records);
    assert(sorted[j].0 <= sorted[k].0);
    if sorted[j].0 == sorted[k].0 {
        lemma_same_members(sorted, records, j);
        lemma_same_members(sorted, records, k);
        let a = choose|a: int| 0 <= a < records.len() && records[a] == sorted[j];
        let b = choose|b: int| 0 <= b < records.len() && records[b] == sorted[k];
        assert(a == b);
        assert(sorted[j] == sorted[k]);
        lemma_two_of_a_kind(sorted, j, k);
        lemma_at_most_one(records, records[a]);
    }
}

/// A list that holds a record twice counts it twice.
proof fn lemma_two_of_a_kind(s: Seq<(usize, Seq<char>)>, j: int, k: int)
    requires
        0 <= j < k < s.len(),
        s[j] == s[k],
    ensures
        s.to_multiset().count(s[j]) >= 2,
{
    broadcast use vstd::seq_lib::group_to_multiset_ensures;

    let rest = s.remove(k);
    assert(rest[j] == s[j]);
    assert(rest.contains(s[j]));
    assert(s.to_multiset() =~= rest.to_multiset().insert(s[k])) by {
        assert(s =~= rest.insert(k, s[k]));
    }
}

/// A list of records with different numbers counts each at most once.
proof fn lemma_at_most_one(records: Seq<(usize, Seq<char>)>, record: (usize, Seq<char>))
    requires
        forall|j: int, k: int|
            0 <= j < k < records.len() ==> (#[trigger] records[j]).0 != (#[trigger] records[k]).0,
    ensures
        records.to_multiset().count(record) <= 1,
    decreases records.len(),
{
    broadcast use vstd::seq_lib::group_to_multiset_ensures;

    if records.len() > 0 {
        let front = records.drop_last();
        lemma_at_most_one(front, record);
        assert(records =~= front.push(records.last()));
        if records.last() == record {
            if front.to_multiset().count(record) > 0 {
                assert(front.contains(record));
                let j = choose|j: int| 0 <= j < front.len() && front[j] == record;
                assert(records[j].0 != records[records.len() - 1].0);
            }
        }
    }
}

/// Numbers that grow and leave none out stand at their own places.
proof fn lemma_sorted_numbers(sorted: Seq<(usize, Seq<char>)>, total: int, upto: int)
    requires
        0 <= upto <= total,
        all_summarised(sorted, 0, total),
        forall|j: int, k: int|
            0 <= j < k < sorted.len() ==> (#[trigger] sorted[j]).0 < (#[trigger] sorted[k]).0,
    ensures
        upto <= sorted.len(),
        forall|k: int| 0 <= k < upto ==> (#[trigger] sorted[k]).0 == k,
    decreases upto,
{
    if upto > 0 {
        lemma_sorted_numbers(sorted, total, upto - 1);
        let chunk = upto - 1;
        assert(is_summarised(sorted, chunk));
        let k = choose|k: int| 0 <= k < sorted.len() && (#[trigger] sorted[k]).0 == chunk;
        if k > chunk {
            if chunk > 0 {
                assert(sorted[chunk - 1].0 == chunk - 1);
                assert(sorted[chunk - 1].0 < sorted[chunk].0);
            }
            assert(sorted[chunk].0 < sorted[k].0);
        }
    }
}

/// A run after some events, with what is to be done then.
pub open spec fn after(start: (SummaryView, ActionView), events: Seq<EventView>) -> (
    SummaryView,
    ActionView,
)
    decreases events.len(),
{
    if events.len() == 0 {
        start
    } else {
        transition(after(start, events.drop_last()).0, events.last())
    }
}

/// The run waits for each of the events when it comes.
pub open spec fn all_awaited(start: (SummaryView, ActionView), events: Seq<EventView>) -> bool
    decreases events.len(),
{
    events.len() > 0 ==> all_awaited(start, events.drop_last()) && awaits(
        after(start, events.drop_last()).0.phase,
        events.last(),
    )
}

/// What happens where there is no checkpoint, the chunks get these replies, and
/// each of them is saved.
pub open spec fn smooth_events(replies: Seq<Seq<char>>) -> Seq<EventView>
    decreases replies.len(),
{
    if replies.len() == 0 {
        seq![EventView::Loaded(Ok(Seq::empty()))]
    } else {
        smooth_events(replies.drop_last()).push(EventView::Reply(Ok(replies.last()))).push(
            EventView::Saved(Ok(())),
        )
    }
}

/// The replies, each with the number of its chunk.
pub open spec fn numbered_replies(replies: Seq<Seq<char>>) -> Seq<(usize, Seq<char>)> {
    Seq::new(replies.len(), |i: int| (i as usize, replies[i]))
}

/// A fresh run in which nothing goes wrong asks for the chunks one after the
/// other, and then for the merge of all replies, in their order.
pub proof fn law_a_fresh_run_merges_every_reply(
    chunks: Seq<Seq<char>>,
    model: Option<Seq<char>>,
    effort: Option<Seq<char>>,
    checkpoint_path: Seq<char>,
    program: Seq<char>,
    replies: Seq<Seq<char>>,
)
    requires
        0 < chunks.len() <= usize::MAX,
        replies.len() <= chunks.len(),
    ensures
        ({
            let start = chunked_start(chunks, model, effort, checkpoint_path, program);
            let (s, action) = after(start, smooth_events(replies));
            &&& all_awaited(start, smooth_events(replies))
            &&& action == ask(
                s,
                if replies.len() < chunks.len() {
                    chunk_prompt(program, chunks[replies.len() as int])
                } else {
                    merge_prompt(program, replies)
                },
            )
        }),
{
    let start = chunked_start(chunks, model, effort, checkpoint_path, program);
    lemma_smooth_run(start, chunks, replies);
    if replies.len() == chunks.len() {
        lemma_numbered_in_order(replies);
        assert(texts_in_order(numbered_replies(replies)) =~= replies);
    }
}

proof fn lemma_smooth_run(
    start: (SummaryView, ActionView),
    chunks: Seq<Seq<char>>,
    replies: Seq<Seq<char>>,
)
    requires
        0 < chunks.len() <= usize::MAX,
        replies.len() <= chunks.len(),
        start.0.chunks == chunks,
        start.0.phase is Loading,
    ensures
        all_awaited(start, smooth_events(replies)),
        after(start, smooth_events(replies)) == go_on(
            SummaryView { partial_summaries: numbered_replies(replies), ..start.0 },
            replies.len() as int,
        ),
        next_chunk(numbered_replies(replies), replies.len() as int, chunks.len() as int)
            == replies.len(),
    decreases replies.len(),
{
    let n = replies.len() as int;
    let records = numbered_replies(replies);
    let events = smooth_events(replies);
    if is_summarised(records, n) {
        let k = choose|k: int| 0 <= k < records.len() && (#[trigger] records[k]).0 == n;
        assert(false);
    }
    if n == 0 {
        assert(events.drop_last() =~= Seq::<EventView>::empty());
        assert(records =~= Seq::<(usize, Seq<char>)>::empty());
        assert(after(start, events.drop_last()) == start);
        assert(all_awaited(start, events.drop_last()));
        assert(all_awaited(start, events));
    } else {
        let before = replies.drop_last();
        lemma_smooth_run(start, chunks, before);
        let asked = smooth_events(before);
        let replied = asked.push(EventView::Reply(Ok(replies.last())));
        assert(replied.drop_last() =~= asked);
        assert(events.drop_last() =~= replied);
        assert(numbered_replies(before).push(((n - 1) as usize, replies.last())) =~= records);
        assert(after(start, asked).0.phase == PhaseView::Asking(n - 1));
        assert(after(start, replied).0.phase == PhaseView::Saving(n - 1));
        assert(all_awaited(start, replied));
        assert(all_awaited(start, events));
    }
}

proof fn lemma_numbered_in_order(replies: Seq<Seq<char>>)
    requires
        replies.len() <= usize::MAX,
    ensures
        in_order(numbered_replies(replies)) == numbered_replies(replies),
    decreases replies.len(),
{
    let records = numbered_replies(replies);
    if replies.len() > 0 {
        lemma_numbered_in_order(replies.drop_last());
        assert(records.drop_last() =~= numbered_replies(replies.drop_last()));
        assert(records =~= records.drop_last().push(records.last()));
    } else {
        assert(in_order(records) =~= records);
    }
}

/// A chunk has a summary exactly where some record has its number: the record of
/// a reply makes it so for that chunk, and for no other.
pub proof fn law_a_record_is_that_of_one_chunk(
    records: Seq<(usize, Seq<char>)>,
    number: usize,
    summary: Seq<char>,
    chunk: int,
)
    ensures
        !is_summarised(Seq::empty(), chunk),
        is_summarised(records.push((number, summary)), chunk) <==> is_summarised(records, chunk)
            || number == chunk,
{
    let more = records.push((number, summary));
    if is_summarised(records, chunk) {
        let k = choose|k: int| 0 <= k < records.len() && (#[trigger] records[k]).0 == chunk;
        assert(more[k].0 == chunk);
    }
    if number == chunk {
        assert(more[records.len() as int].0 == chunk);
    }
    if is_summarised(more, chunk) {
        let k = choose|k: int| 0 <= k < more.len() && (#[trigger] more[k]).0 == chunk;
        if k < records.len() {
            assert(records[k].0 == chunk);
        }
    }
}

/// Once the checkpoint is loaded, and after each summary is saved, a run asks for
/// the first chunk that has no summary. Where each has one, it asks for the merge
/// of all summaries; where there is nothing to merge, it ends with an error.
pub proof fn law_a_run_asks_for_the_first_chunk_without_a_summary(
    s: SummaryView,
    event: EventView,
    records: Seq<(usize, Seq<char>)>,
)
    requires
        consistent(s),
        (s.phase is Loading && event == EventView::Loaded(Ok(records))) || (s.phase is Saving
            && event == EventView::Saved(Ok(())) && records == s.partial_summaries),
    ensures
        ({
            let (next, action) = transition(s, event);
            let args = claude_args(s.model, s.effort);
            &&& next.partial_summaries == records
            &&& forall|i: int|
                0 <= i < s.chunks.len() && !#[trigger] is_summarised(records, i) && all_summarised(
                    records,
                    0,
                    i,
                ) ==> next.phase == PhaseView::Asking(i) && action == (ActionView::Ask {
                    args,
                    prompt: chunk_prompt(s.program, s.chunks[i]),
                })
            &&& all_summarised(records, 0, s.chunks.len() as int) && records.len() > 0 ==> next.phase
                is Merging && action == (ActionView::Ask {
                args,
                prompt: merge_prompt(s.program, texts_in_order(records)),
            })
            &&& all_summarised(records, 0, s.chunks.len() as int) && records.len() == 0
                ==> next.phase is Finished && action == ActionView::Done(
                Err("All chunks failed to process"@),
            )
        }),
{
    let total = s.chunks.len() as int;
    let from = if s.phase is Loading {
        0
    } else {
        s.phase->Saving_0 + 1
    };
    lemma_next_chunk_skips(records, 0, from, total);
    lemma_next_chunk(records, 0, total);
    let first = next_chunk(records, 0, total);
    assert forall|i: int|
        0 <= i < total && !#[trigger] is_summarised(records, i) && all_summarised(
            records,
            0,
            i,
        ) implies i == first by {
        if first < i {
            assert(is_summarised(records, first));
        }
        if i < first {
            assert(is_summarised(records, i));
        }
    }
    if all_summarised(records, 0, total) && first < total {
        assert(is_summarised(records, first));
    }
}

/// What goes wrong ends a run, with that error. The limit at a chunk is told only
/// when what there is was saved, and the limit at the merge at once; both errors
/// name the checkpoint.
pub proof fn law_failures_end_a_run_with_their_error(
    s: SummaryView,
    error: Seq<char>,
    saved: Result<(), Seq<char>>,
)
    ensures
        s.phase is Loading ==> transition(s, EventView::Loaded(Err(error))).1 == ActionView::Done(
            Err(error),
        ),
        s.phase is Saving ==> transition(s, EventView::Saved(Err(error))).1 == ActionView::Done(
            Err(error),
        ),
        s.phase is Direct ==> transition(s, EventView::Reply(Err(error))).1 == ActionView::Done(
            Err(error),
        ),
        (s.phase is Asking || s.phase is Merging) && !is_rate_limit(error) ==> transition(
            s,
            EventView::Reply(Err(error)),
        ).1 == ActionView::Done(Err(error)),
        s.phase is Asking && is_rate_limit(error) ==> transition(
            s,
            EventView::Reply(Err(error)),
        ).0.phase is Limited && transition(s, EventView::Reply(Err(error))).1 == ActionView::Save(
            s.partial_summaries,
        ),
        s.phase is Limited ==> transition(s, EventView::Saved(saved)).1 == ActionView::Done(
            Err(
                "Rate limit hit. Partial progress saved to "@ + s.checkpoint_path
                    + ". Re-run after the cooldown."@,
            ),
        ),
        s.phase is Merging && is_rate_limit(error) ==> transition(
            s,
            EventView::Reply(Err(error)),
        ).1 == ActionView::Done(
            Err(
                "Rate limit hit during merge. Chunk summaries preserved at "@ + s.checkpoint_path
                    + ". Re-run to retry merge."@,
            ),
        ),
{
}

/// The reply to a chunk is kept under the number of the chunk, and all summaries
/// so far are saved.
pub proof fn law_the_reply_to_a_chunk_is_saved(s: SummaryView, i: int, summary: Seq<char>)
    requires
        consistent(s),
        s.phase == PhaseView::Asking(i),
    ensures
        transition(s, EventView::Reply(Ok(summary))) == (
            SummaryView {
                partial_summaries: s.partial_summaries.push((i as usize, summary)),
                phase: PhaseView::Saving(i),
                ..s
            },
            ActionView::Save(s.partial_summaries.push((i as usize, summary))),
        ),
        i as usize == i,
{
}

/// A run waits for what its last action brings, and for nothing more when it is
/// done.
pub proof fn law_a_run_waits_for_what_its_action_brings(
    s: SummaryView,
    event: EventView,
    next_event: EventView,
)
    requires
        awaits(s.phase, event),
    ensures
        ({
            let (next, action) = transition(s, event);
            awaits(next.phase, next_event) <==> match action {
                ActionView::Ask { .. } => next_event is Reply,
                ActionView::Load => next_event is Loaded,
                ActionView::Save(_) => next_event is Saved,
                ActionView::Delete => next_event is Deleted,
                ActionView::Done(_) => false,
            }
        }),
{
}

/// A text of up to a hundred thousand tokens is asked for at once and whole; a
/// longer one is cut into chunks of up to as many tokens, and the checkpoint is
/// loaded first.
pub proof fn law_a_run_starts_with_the_whole_text_or_the_checkpoint(
    content: Seq<char>,
    tokens: usize,
    model: Option<Seq<char>>,
    effort: Option<Seq<char>>,
    checkpoint_path: Seq<char>,
    program: Seq<char>,
)
    ensures
        ({
            let (s, action) = start(content, tokens, model, effort, checkpoint_path, program);
            &&& s.model == model && s.effort == effort && s.program == program
            &&& s.checkpoint_path == checkpoint_path && s.partial_summaries.len() == 0
            &&& tokens <= 100_000 ==> s.phase is Direct && action == (ActionView::Ask {
                args: claude_args(model, effort),
                prompt: content_prompt(program, content),
            })
            &&& tokens > 100_000 ==> s.phase is Loading && action is Load && s.chunks
                == chunks_from(lines_of(content), line_tokens(content), 0, 100_000)
        }),
{
}

/// An action is what it holds.
pub proof fn law_an_action_is_what_it_holds(
    call: ClaudeCall,
    records: Vec<(usize, String)>,
    result: Result<String, String>,
)
    ensures
        Action::Ask(call)@ == (ActionView::Ask {
            args: call.args.deep_view(),
            prompt: call.prompt@,
        }),
        Action::Load@ is Load,
        Action::Save(records)@ == ActionView::Save(records.deep_view()),
        Action::Delete@ is Delete,
        Action::Done(result)@ == ActionView::Done(result_view(result)),
{
}

/// An event is what it holds.
pub proof fn law_an_event_is_what_it_holds(
    reply: Result<String, String>,
    records: Vec<(usize, String)>,
    error: String,
)
    ensures
        Event::Reply(reply)@ == EventView::Reply(result_view(reply)),
        Event::Loaded(Ok(records))@ == EventView::Loaded(Ok(records.deep_view())),
        Event::Loaded(Err(error))@ == EventView::Loaded(Err(error@)),
        Event::Saved(Ok(()))@ == EventView::Saved(Ok(())),
        Event::Saved(Err(error))@ == EventView::Saved(Err(error@)),
        Event::Deleted(Ok(()))@ == EventView::Deleted(Ok(())),
        Event::Deleted(Err(error))@ == EventView::Deleted(Err(error@)),
{
}

} // verus!
