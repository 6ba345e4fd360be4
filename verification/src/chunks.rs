//! Cutting a text into chunks of whole lines that a tokenizer counts as small
//! enough.

use tiktoken_rs::cl100k_base_singleton;
use vstd::prelude::*;

use crate::text::{line_end, lines, lines_of, push_text, without_return};

verus! {

/// The greatest number of tokens that one prompt carries of a diff.
pub const MAX_TOKENS_PER_CHUNK: usize = 100_000;

/// The number of tokens of a text in the encoding `cl100k_base`, with special
/// tokens recognised, where the tokenizer can read it.
pub uninterp spec fn cl100k_tokens(text: Seq<char>) -> Option<usize>;

/// `CoreBPE::count` on the tokenizer of `cl100k_base_singleton`, with all of
/// its special tokens allowed: the number of tokens of the text, or nothing
/// where the tokenizer fails on it. The contract names the number and does not
/// say how a text is cut into tokens.
#[verifier::external_body]
pub(crate) fn count_tokens(text: &str) -> (r: Option<usize>)
    ensures
        r == cl100k_tokens(text@),
{
    let bpe = cl100k_base_singleton();
    bpe.count(text, &bpe.special_tokens()).ok()
}

/// The number of tokens of the lines from `from` up to `to`.
pub open spec fn tokens_between(counts: Seq<usize>, from: int, to: int) -> int
    decreases to - from,
{
    if from >= to {
        0
    } else {
        tokens_between(counts, from, to - 1) + counts[to - 1]
    }
}

/// How far a chunk that starts at `from` and reaches to `to` goes on: to each
/// further line, as long as its tokens do not exceed the maximum.
pub open spec fn chunk_end(counts: Seq<usize>, from: int, to: int, max_tokens: usize) -> int
    decreases counts.len() - to,
{
    if to < counts.len() && tokens_between(counts, from, to + 1) <= max_tokens {
        chunk_end(counts, from, to + 1, max_tokens)
    } else {
        to
    }
}

/// The lines from `from` up to `to`, each with its line feed.
pub open spec fn text_of_lines(all: Seq<Seq<char>>, from: int, to: int) -> Seq<char>
    decreases to - from,
{
    if from >= to {
        Seq::empty()
    } else {
        text_of_lines(all, from, to - 1) + all[to - 1] + "\n"@
    }
}

/// The chunks of the lines from `from` on. A chunk takes the next line, however
/// long, and then further lines as long as they fit.
pub open spec fn chunks_from(
    all: Seq<Seq<char>>,
    counts: Seq<usize>,
    from: int,
    max_tokens: usize,
) -> Seq<Seq<char>>
    decreases all.len() - from,
{
    let end = chunk_end(counts, from, from + 1, max_tokens);
    if 0 <= from < end <= all.len() {
        seq![text_of_lines(all, from, end)] + chunks_from(all, counts, end, max_tokens)
    } else {
        Seq::empty()
    }
}

/// Where a chunk starts, it takes a line at least, and no line that is not
/// there.
proof fn lemma_chunk_end(counts: Seq<usize>, from: int, to: int, max_tokens: usize)
    requires
        0 <= from < to <= counts.len(),
    ensures
        to <= chunk_end(counts, from, to, max_tokens) <= counts.len(),
    decreases counts.len() - to,
{
    if to < counts.len() && tokens_between(counts, from, to + 1) <= max_tokens {
        lemma_chunk_end(counts, from, to + 1, max_tokens);
    }
}

/// Packs lines into chunks, given the number of tokens of each line with its
/// line feed.
pub fn pack_lines(all: &Vec<String>, counts: &Vec<usize>, max_tokens: usize) -> (r: Vec<String>)
    requires
        all@.len() == counts@.len(),
    ensures
        r.deep_view() == chunks_from(all.deep_view(), counts@, 0, max_tokens),
{
    let ghost texts = all.deep_view();
    let ghost whole = chunks_from(texts, counts@, 0, max_tokens);
    let mut chunks: Vec<String> = Vec::new();
    let mut current_chunk: String = String::new();
    let mut current_tokens: usize = 0;
    let mut i: usize = 0;
    let ghost mut start: int = 0;
    assert(chunks.deep_view() + whole =~= whole);
    while i < all.len()
        invariant
            0 <= start <= i <= all@.len() == counts@.len(),
            start < i || i == 0,
            texts == all.deep_view(),
            current_chunk@ == text_of_lines(texts, start, i as int),
            current_tokens == tokens_between(counts@, start, i as int),
            start + 1 < i ==> current_tokens <= max_tokens,
            start < i ==> chunk_end(counts@, start, start + 1, max_tokens) == chunk_end(
                counts@,
                start,
                i as int,
                max_tokens,
            ),
            chunks.deep_view() + chunks_from(texts, counts@, start, max_tokens) == whole,
        decreases all@.len() - i,
    {
        let line_tokens: usize = counts[i];
        if i > 0 && (line_tokens > max_tokens || current_tokens > max_tokens - line_tokens) {
            let ghost before = chunks.deep_view();
            proof {
                lemma_chunk_end(counts@, start, start + 1, max_tokens);
                assert(chunk_end(counts@, start, i as int, max_tokens) == i);
            }
            chunks.push(current_chunk);
            current_chunk = String::new();
            current_tokens = 0;
            proof {
                assert(chunks.deep_view() =~= before.push(text_of_lines(texts, start, i as int)));
                start = i as int;
                assert(chunks.deep_view() + chunks_from(texts, counts@, start, max_tokens)
                    =~= whole);
            }
        }
        assert(current_chunk@ == text_of_lines(texts, start, i as int));
        assert(current_tokens == tokens_between(counts@, start, i as int));
        push_text(&mut current_chunk, all[i].as_str());
        push_text(&mut current_chunk, "\n");
        current_tokens = current_tokens + line_tokens;
        i = i + 1;
    }
    if i > 0 {
        let ghost before = chunks.deep_view();
        proof {
            lemma_chunk_end(counts@, start, start + 1, max_tokens);
        }
        chunks.push(current_chunk);
        proof {
            assert(chunks.deep_view() =~= before.push(text_of_lines(texts, start, i as int)));
            assert(chunks_from(texts, counts@, i as int, max_tokens) =~= Seq::<Seq<char>>::empty());
            assert(chunks.deep_view() =~= whole);
        }
    }
    chunks
}

/// The tokenizer can read every line of a text.
pub open spec fn lines_countable(content: Seq<char>) -> bool {
    forall|i: int|
        0 <= i < lines_of(content).len() ==> cl100k_tokens(
            #[trigger] lines_of(content)[i] + "\n"@,
        ) is Some
}

/// The number of tokens of each line of a text, with its line feed.
pub open spec fn line_tokens(content: Seq<char>) -> Seq<usize> {
    Seq::new(lines_of(content).len(), |i: int| cl100k_tokens(lines_of(content)[i] + "\n"@)->0)
}

/// Cuts a text into chunks of whole lines. A chunk has more tokens than the
/// maximum only where it is one line. Gives nothing where the tokenizer fails
/// on a line.
pub fn split_into_chunks_by_tokens(content: &str, max_tokens: usize) -> (r: Option<Vec<String>>)
    ensures
        r is Some <==> lines_countable(content@),
        r matches Some(chunks) ==> chunks.deep_view() == chunks_from(
            lines_of(content@),
            line_tokens(content@),
            0,
            max_tokens,
        ),
        r matches Some(chunks) ==> exists|counts: Seq<usize>|
            counts.len() == lines_of(content@).len() && (forall|i: int|
                0 <= i < counts.len() ==> cl100k_tokens(
                    #[trigger] lines_of(content@)[i] + seq!['\n'],
                ) == Some(counts[i])) && chunks.deep_view() == #[trigger] chunks_from(
                lines_of(content@),
                counts,
                0,
                max_tokens,
            ),
{
    let all = lines(content);
    let ghost texts = lines_of(content@);
    let mut counts: Vec<usize> = Vec::new();
    let mut i: usize = 0;
    while i < all.len()
        invariant
            i <= all@.len(),
            texts == all.deep_view(),
            texts == lines_of(content@),
            counts@.len() == i,
            forall|k: int|
                0 <= k < i ==> cl100k_tokens(#[trigger] texts[k] + "\n"@) == Some(counts@[k]),
        decreases all@.len() - i,
    {
        let mut line: String = all[i].clone();
        push_text(&mut line, "\n");
        assert(line@ == texts[i as int] + "\n"@);
        match count_tokens(line.as_str()) {
            Some(n) => {
                counts.push(n);
            },
            None => {
                return None;
            },
        }
        i = i + 1;
    }
    assert(counts@ =~= line_tokens(content@));
    proof {
        law_tokens_are_those_of_the_tokenizer(content@);
    }
    Some(pack_lines(&all, &counts, max_tokens))
}

/// The tokenizer can read what it has to: the text, and each of its lines where
/// it has to be cut.
pub open spec fn countable(content: Seq<char>) -> bool {
    match cl100k_tokens(content) {
        Some(tokens) => tokens <= MAX_TOKENS_PER_CHUNK || lines_countable(content),
        None => false,
    }
}

/// Whether a text of so many tokens goes into one prompt.
pub fn fits_one_prompt(token_count: usize) -> (r: bool)
    ensures
        r == (token_count <= MAX_TOKENS_PER_CHUNK),
{
    token_count <= MAX_TOKENS_PER_CHUNK
}

/// The line at which the chunk number `c` starts, where the first one starts at
/// `from`.
pub open spec fn chunk_start(counts: Seq<usize>, from: int, c: nat, max_tokens: usize) -> int
    decreases c,
{
    if c == 0 {
        from
    } else {
        chunk_start(counts, chunk_end(counts, from, from + 1, max_tokens), (c - 1) as nat, max_tokens)
    }
}

/// The chunks of a text, one after the other, are its lines: no line is lost,
/// cut, repeated or moved.
pub proof fn law_chunks_keep_every_line(all: Seq<Seq<char>>, counts: Seq<usize>, max_tokens: usize)
    requires
        all.len() == counts.len(),
    ensures
        chunks_from(all, counts, 0, max_tokens).flatten() == text_of_lines(
            all,
            0,
            all.len() as int,
        ),
{
    lemma_chunks_keep_lines(all, counts, 0, max_tokens);
}

proof fn lemma_chunks_keep_lines(
    all: Seq<Seq<char>>,
    counts: Seq<usize>,
    from: int,
    max_tokens: usize,
)
    requires
        all.len() == counts.len(),
        0 <= from <= all.len(),
    ensures
        chunks_from(all, counts, from, max_tokens).flatten() == text_of_lines(
            all,
            from,
            all.len() as int,
        ),
    decreases all.len() - from,
{
    let chunks = chunks_from(all, counts, from, max_tokens);
    if from < all.len() {
        lemma_chunk_end(counts, from, from + 1, max_tokens);
        let end = chunk_end(counts, from, from + 1, max_tokens);
        lemma_chunks_keep_lines(all, counts, end, max_tokens);
        assert(chunks.drop_first() =~= chunks_from(all, counts, end, max_tokens));
        lemma_text_of_lines_splits(all, from, end, all.len() as int);
    } else {
        let end = chunk_end(counts, from, from + 1, max_tokens);
        assert(end == from + 1);
        assert(chunks =~= Seq::<Seq<char>>::empty());
    }
}

proof fn lemma_text_of_lines_splits(all: Seq<Seq<char>>, from: int, mid: int, to: int)
    requires
        0 <= from <= mid <= to <= all.len(),
    ensures
        text_of_lines(all, from, to) == text_of_lines(all, from, mid) + text_of_lines(all, mid, to),
    decreases to - mid,
{
    if mid < to {
        lemma_text_of_lines_splits(all, from, mid, to - 1);
        assert(text_of_lines(all, from, to) =~= text_of_lines(all, from, mid) + text_of_lines(
            all,
            mid,
            to,
        ));
    } else {
        assert(text_of_lines(all, from, mid) + text_of_lines(all, mid, to) =~= text_of_lines(
            all,
            from,
            to,
        ));
    }
}

/// A text that has line feeds only, and one at its end, is what its lines make
/// up: nothing of it is lost in the chunks.
pub proof fn law_plain_text_is_its_lines(content: Seq<char>)
    requires
        !content.contains('\r'),
        content.len() > 0 ==> content.last() == '\n',
    ensures
        text_of_lines(lines_of(content), 0, lines_of(content).len() as int) == content,
    decreases content.len(),
{
    reveal_strlit("\n");
    let all = lines_of(content);
    let n = all.len() as int;
    if content.len() == 0 {
        assert(text_of_lines(all, 0, n) =~= content);
    } else {
        lemma_line_end(content, 0);
        let end = line_end(content, 0);
        assert(content[content.len() - 1] == '\n');
        let line = content.take(end);
        let rest = content.skip(end + 1);
        assert(rest.len() > 0 ==> rest.last() == content.last());
        assert forall|k: int| 0 <= k < rest.len() implies rest[k] != '\r' by {
            assert(content.contains(content[end + 1 + k]));
        }
        if line.len() > 0 {
            assert(content.contains(content[end - 1]));
        }
        assert(without_return(line) == line);
        law_plain_text_is_its_lines(rest);
        lemma_text_of_lines_first(all);
        assert(all.drop_first() =~= lines_of(rest));
        assert(all[0] == line);
        assert(content =~= line + "\n"@ + rest);
    }
}

/// The end of a line is a line feed, and none stands before it.
proof fn lemma_line_end(s: Seq<char>, i: int)
    requires
        0 <= i <= s.len(),
    ensures
        i <= line_end(s, i) <= s.len(),
        line_end(s, i) < s.len() ==> s[line_end(s, i)] == '\n',
        forall|k: int| i <= k < line_end(s, i) ==> s[k] != '\n',
    decreases s.len() - i,
{
    if i < s.len() && s[i] != '\n' {
        lemma_line_end(s, i + 1);
    }
}

/// The first line stands in front of the rest.
proof fn lemma_text_of_lines_first(all: Seq<Seq<char>>)
    requires
        all.len() > 0,
    ensures
        text_of_lines(all, 0, all.len() as int) == all[0] + "\n"@ + text_of_lines(
            all.drop_first(),
            0,
            all.len() - 1,
        ),
{
    lemma_text_of_lines_splits(all, 0, 1, all.len() as int);
    assert(text_of_lines(all, 0, 0) =~= Seq::<char>::empty());
    assert(text_of_lines(all, 0, 1) =~= all[0] + "\n"@);
    lemma_text_of_lines_shift(all, all.len() as int);
}

proof fn lemma_text_of_lines_shift(all: Seq<Seq<char>>, to: int)
    requires
        1 <= to <= all.len(),
    ensures
        text_of_lines(all, 1, to) == text_of_lines(all.drop_first(), 0, to - 1),
    decreases to,
{
    if to > 1 {
        lemma_text_of_lines_shift(all, to - 1);
    }
}

/// A chunk is a run of whole lines. It takes a line at least; it has more
/// tokens than the maximum only where it is one line; and it stops only at the
/// end of the text or where the next line would exceed the maximum.
pub proof fn law_chunk_is_bounded(
    all: Seq<Seq<char>>,
    counts: Seq<usize>,
    max_tokens: usize,
    c: nat,
)
    requires
        all.len() == counts.len(),
        c < chunks_from(all, counts, 0, max_tokens).len(),
    ensures
        ({
            let from = chunk_start(counts, 0, c, max_tokens);
            let to = chunk_start(counts, 0, c + 1, max_tokens);
            &&& 0 <= from < to <= all.len()
            &&& chunks_from(all, counts, 0, max_tokens)[c as int] == text_of_lines(all, from, to)
            &&& to == from + 1 || tokens_between(counts, from, to) <= max_tokens
            &&& to == all.len() || tokens_between(counts, from, to + 1) > max_tokens
        }),
{
    lemma_chunk_bounded(all, counts, 0, max_tokens, c);
}

proof fn lemma_chunk_bounded(
    all: Seq<Seq<char>>,
    counts: Seq<usize>,
    first: int,
    max_tokens: usize,
    c: nat,
)
    requires
        all.len() == counts.len(),
        0 <= first <= all.len(),
        c < chunks_from(all, counts, first, max_tokens).len(),
    ensures
        ({
            let from = chunk_start(counts, first, c, max_tokens);
            let to = chunk_start(counts, first, c + 1, max_tokens);
            &&& first <= from < to <= all.len()
            &&& chunks_from(all, counts, first, max_tokens)[c as int] == text_of_lines(
                all,
                from,
                to,
            )
            &&& to == from + 1 || tokens_between(counts, from, to) <= max_tokens
            &&& to == all.len() || tokens_between(counts, from, to + 1) > max_tokens
        }),
    decreases c,
{
    let end = chunk_end(counts, first, first + 1, max_tokens);
    if first < all.len() {
        lemma_chunk_end(counts, first, first + 1, max_tokens);
        lemma_chunk_end_is_greedy(counts, first, first + 1, max_tokens);
        assert(chunk_start(counts, first, c + 1, max_tokens) == chunk_start(
            counts,
            end,
            c,
            max_tokens,
        ));
        if c > 0 {
            assert(chunks_from(all, counts, first, max_tokens)[c as int] == chunks_from(
                all,
                counts,
                end,
                max_tokens,
            )[c - 1]);
            lemma_chunk_bounded(all, counts, end, max_tokens, (c - 1) as nat);
        }
    } else {
        assert(end == first + 1);
    }
}

proof fn lemma_chunk_end_is_greedy(counts: Seq<usize>, from: int, to: int, max_tokens: usize)
    requires
        0 <= from < to <= counts.len(),
        to == from + 1 || tokens_between(counts, from, to) <= max_tokens,
    ensures
        ({
            let end = chunk_end(counts, from, to, max_tokens);
            &&& end == from + 1 || tokens_between(counts, from, end) <= max_tokens
            &&& end == counts.len() || tokens_between(counts, from, end + 1) > max_tokens
        }),
    decreases counts.len() - to,
{
    if to < counts.len() && tokens_between(counts, from, to + 1) <= max_tokens {
        lemma_chunk_end_is_greedy(counts, from, to + 1, max_tokens);
    } else if to < counts.len() {
    } else {
        lemma_chunk_end(counts, from, to, max_tokens);
    }
}

/// The tokens of a line are those that the tokenizer counts in it and its line
/// feed, for each line of a text that it can read.
pub proof fn law_tokens_are_those_of_the_tokenizer(content: Seq<char>)
    ensures
        lines_countable(content) <==> forall|i: int|
            0 <= i < lines_of(content).len() ==> cl100k_tokens(
                #[trigger] lines_of(content)[i] + seq!['\n'],
            ) is Some,
        lines_countable(content) ==> line_tokens(content).len() == lines_of(content).len()
            && forall|i: int|
            0 <= i < lines_of(content).len() ==> cl100k_tokens(
                #[trigger] lines_of(content)[i] + seq!['\n'],
            ) == Some(line_tokens(content)[i]),
{
    reveal_strlit("\n");
    assert("\n"@ =~= seq!['\n']);
}

/// The tokens of some lines are the sum of those of each line.
pub proof fn law_tokens_add_up(counts: Seq<usize>, from: int, mid: int, to: int)
    requires
        0 <= from <= mid <= to <= counts.len(),
    ensures
        tokens_between(counts, from, from) == 0,
        from < to ==> tokens_between(counts, from, from + 1) == counts[from],
        tokens_between(counts, from, to) == tokens_between(counts, from, mid) + tokens_between(
            counts,
            mid,
            to,
        ),
    decreases to - mid,
{
    if mid < to {
        law_tokens_add_up(counts, from, mid, to - 1);
    }
    if from < to {
        assert(tokens_between(counts, from, from) == 0);
        assert(tokens_between(counts, from, from + 1) == tokens_between(counts, from, from)
            + counts[from]);
    }
}

/// The text of some lines is each of them with a line feed behind it.
pub proof fn law_lines_are_written_with_their_line_feeds(
    all: Seq<Seq<char>>,
    from: int,
    to: int,
)
    requires
        0 <= from <= to < all.len(),
    ensures
        text_of_lines(all, from, from) == Seq::<char>::empty(),
        text_of_lines(all, from, to + 1) == text_of_lines(all, from, to) + all[to] + seq!['\n'],
{
    reveal_strlit("\n");
    assert("\n"@ =~= seq!['\n']);
}

/// Each chunk of a text is a run of its lines, from where the chunk before ended.
/// With more than one line, its tokens, as the tokenizer counts them line by
/// line, do not exceed the maximum; and the next line would make them exceed it.
pub proof fn law_chunks_of_a_text_stay_below_the_maximum(
    content: Seq<char>,
    counts: Seq<usize>,
    max_tokens: usize,
    c: nat,
)
    requires
        counts.len() == lines_of(content).len(),
        forall|i: int|
            0 <= i < counts.len() ==> cl100k_tokens(
                #[trigger] lines_of(content)[i] + seq!['\n'],
            ) == Some(counts[i]),
        c < chunks_from(lines_of(content), line_tokens(content), 0, max_tokens).len(),
    ensures
        exists|from: int, to: int|
            0 <= from < to <= counts.len() && chunks_from(
                lines_of(content),
                line_tokens(content),
                0,
                max_tokens,
            )[c as int] == #[trigger] text_of_lines(lines_of(content), from, to) && (to == from + 1
                || tokens_between(counts, from, to) <= max_tokens) && (to == counts.len()
                || tokens_between(counts, from, to + 1) > max_tokens),
{
    law_tokens_are_those_of_the_tokenizer(content);
    assert(line_tokens(content) =~= counts) by {
        assert forall|i: int| 0 <= i < counts.len() implies line_tokens(content)[i] == counts[i] by {
            assert(cl100k_tokens(lines_of(content)[i] + seq!['\n']) == Some(counts[i]));
        }
    }
    law_chunk_is_bounded(lines_of(content), counts, max_tokens, c);
    let from = chunk_start(counts, 0, c, max_tokens);
    let to = chunk_start(counts, 0, c + 1, max_tokens);
    assert(chunks_from(lines_of(content), line_tokens(content), 0, max_tokens)[c as int]
        == text_of_lines(lines_of(content), from, to));
}

/// The first chunk starts at the first line, and each other where the one before
/// it ends.
pub proof fn law_chunks_follow_each_other(
    all: Seq<Seq<char>>,
    counts: Seq<usize>,
    max_tokens: usize,
)
    requires
        all.len() == counts.len(),
    ensures
        chunk_start(counts, 0, 0, max_tokens) == 0,
        chunk_start(
            counts,
            0,
            chunks_from(all, counts, 0, max_tokens).len(),
            max_tokens,
        ) == all.len(),
{
    lemma_last_chunk_ends(all, counts, 0, max_tokens);
}

proof fn lemma_last_chunk_ends(
    all: Seq<Seq<char>>,
    counts: Seq<usize>,
    from: int,
    max_tokens: usize,
)
    requires
        all.len() == counts.len(),
        0 <= from <= all.len(),
    ensures
        chunk_start(
            counts,
            from,
            chunks_from(all, counts, from, max_tokens).len(),
            max_tokens,
        ) == all.len(),
    decreases all.len() - from,
{
    let end = chunk_end(counts, from, from + 1, max_tokens);
    if from < all.len() {
        lemma_chunk_end(counts, from, from + 1, max_tokens);
        lemma_last_chunk_ends(all, counts, end, max_tokens);
        let rest = chunks_from(all, counts, end, max_tokens);
        assert(chunks_from(all, counts, from, max_tokens).len() == rest.len() + 1);
    } else {
        assert(end == from + 1);
    }
}

/// A text of up to a hundred thousand tokens needs no cutting, so that its lines
/// need not be read one by one.
pub proof fn law_only_long_texts_are_cut(content: Seq<char>)
    ensures
        MAX_TOKENS_PER_CHUNK == 100_000,
        countable(content) <==> cl100k_tokens(content) is Some && (cl100k_tokens(content)->0
            <= 100_000 || lines_countable(content)),
{
}

} // verus!
