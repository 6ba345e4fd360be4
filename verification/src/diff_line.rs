//! Which lines of a diff are shown, and in what form.

use vstd::prelude::*;
use vstd::utf8::{decode_utf8, valid_utf8};

use crate::text::{
    chars_of, contains, ends_at_separator, ends_with, has_part, is_white_space, joined,
    law_a_text_in_white_space_is_trimmed_to_itself,
    law_joining_with_nothing_between_is_putting_together, law_split_undoes_join,
    law_trimming_takes_white_space_only, push_text, replace, replaced, starts_with, text_between,
    trim, trimmed, utf8_text,
};

verus! {

/// A line of notebook source without its enclosing quotes: one at the start
/// and one at the end, where they stand.
pub open spec fn unquoted(s: Seq<char>) -> Seq<char> {
    let t = if s.len() > 0 && s[0] == '"' {
        s.drop_first()
    } else {
        s
    };
    if t.len() > 0 && t.last() == '"' {
        t.drop_last()
    } else {
        t
    }
}

/// What is shown of a line of an ordinary file.
pub open spec fn shown_plain_line(origin: char, text: Seq<char>) -> Option<Seq<char>> {
    if has_part(text, "\"image/png\""@) {
        None
    } else if origin == 'F' || origin == 'H' || origin == 'B' || origin == ' ' {
        Some(text)
    } else if origin == '+' || origin == '-' {
        Some(seq![origin] + text)
    } else {
        None
    }
}

/// The line opens a source block.
pub open spec fn opens_source(text: Seq<char>) -> bool {
    "\"source\": ["@.is_prefix_of(trimmed(text))
}

/// The line closes a source block.
pub open spec fn closes_source(text: Seq<char>) -> bool {
    "]"@.is_prefix_of(trimmed(text))
}

/// A closing bracket stands in a JSON text outside of its strings. The text may
/// start inside a string, behind a backslash.
pub open spec fn has_closing_bracket(s: Seq<char>, in_string: bool, escaped: bool) -> bool
    decreases s.len(),
{
    if s.len() == 0 {
        false
    } else if in_string {
        has_closing_bracket(
            s.drop_first(),
            escaped || s[0] != '"',
            !escaped && s[0] == '\\',
        )
    } else {
        s[0] == ']' || has_closing_bracket(s.drop_first(), s[0] == '"', false)
    }
}

/// The line opens a source block, and closes it again.
pub open spec fn opens_and_closes_source(text: Seq<char>) -> bool {
    opens_source(text) && has_closing_bracket(
        trimmed(text).skip("\"source\": ["@.len() as int),
        false,
        false,
    )
}

/// Whether the lines after this line of a notebook belong to a source block.
pub open spec fn source_block_after(in_source: bool, text: Seq<char>) -> bool {
    if opens_source(text) {
        !opens_and_closes_source(text)
    } else {
        in_source && !closes_source(text)
    }
}

/// What is shown of a line of a notebook: the lines between the one that opens
/// a source block and the one that closes it.
pub open spec fn shown_notebook_line(in_source: bool, origin: char, text: Seq<char>) -> Option<
    Seq<char>,
> {
    if !in_source || opens_source(text) || closes_source(text) {
        None
    } else {
        Some(seq![origin] + replaced(unquoted(trimmed(text)), "\\n"@, ""@) + "\n"@)
    }
}

/// A file that is read as a notebook.
pub open spec fn is_notebook(path: Seq<char>) -> bool {
    ".ipynb"@.is_suffix_of(path)
}

/// What is shown of a line of a diff.
pub open spec fn shown_line(
    in_source: bool,
    origin: char,
    content: Seq<u8>,
    path: Seq<char>,
) -> Option<Seq<char>> {
    if !valid_utf8(content) {
        None
    } else if is_notebook(path) {
        shown_notebook_line(in_source, origin, decode_utf8(content))
    } else {
        shown_plain_line(origin, decode_utf8(content))
    }
}

/// Whether the processor is inside a source block after a line of a diff. Only
/// the lines of notebooks change that.
pub open spec fn in_source_after(in_source: bool, content: Seq<u8>, path: Seq<char>) -> bool {
    if valid_utf8(content) && is_notebook(path) {
        source_block_after(in_source, decode_utf8(content))
    } else {
        in_source
    }
}

/// Decides line by line what is shown of a diff.
#[derive(Debug)]
pub struct DiffLineProcessor {
    /// The lines of a notebook's source block are being read.
    pub in_ipynb_source: bool,
}

impl Default for DiffLineProcessor {
    fn default() -> (r: Self)
        ensures
            !r.in_ipynb_source,
    {
        DiffLineProcessor { in_ipynb_source: false }
    }
}

/// Takes one quote from the start of a text and one from its end, where they
/// stand.
fn strip_quotes(s: &str) -> (r: String)
    ensures
        r@ == unquoted(s@),
{
    let v = chars_of(s);
    let n: usize = v.len();
    let from: usize = if n > 0 && v[0] == '"' {
        1
    } else {
        0
    };
    let to: usize = if n > from && v[n - 1] == '"' {
        n - 1
    } else {
        n
    };
    let r = text_between(&v, from, to);
    assert(r@ =~= unquoted(s@));
    r
}

/// Whether a closing bracket stands from a position on outside of the strings.
fn closing_bracket_from(s: &str, from: usize) -> (r: bool)
    requires
        from <= s@.len(),
    ensures
        r == has_closing_bracket(s@.skip(from as int), false, false),
{
    let v = chars_of(s);
    let mut i: usize = from;
    let mut in_string: bool = false;
    let mut escaped: bool = false;
    while i < v.len()
        invariant
            v@ == s@,
            from <= i <= v@.len(),
            has_closing_bracket(v@.skip(from as int), false, false) == has_closing_bracket(
                v@.skip(i as int),
                in_string,
                escaped,
            ),
        decreases v@.len() - i,
    {
        let c: char = v[i];
        let ghost rest = v@.skip(i as int);
        assert(rest.drop_first() =~= v@.skip(i + 1));
        if in_string {
            in_string = escaped || c != '"';
            escaped = !escaped && c == '\\';
        } else if c == ']' {
            return true;
        } else {
            in_string = c == '"';
            escaped = false;
        }
        i = i + 1;
    }
    false
}

/// A line of a diff as it is read: its origin mark, its bytes, and the path of
/// the file that it belongs to, where there is one.
#[derive(Debug)]
pub struct PatchLine {
    pub origin: char,
    pub content: Vec<u8>,
    pub path: Option<String>,
}

impl DiffLineProcessor {
    /// What is shown of a line of the file at `file_path`.
    pub fn process_diff_line(&mut self, line: &PatchLine, file_path: &str) -> (r: Option<String>)
        ensures
            r.deep_view() == shown_line(
                old(self).in_ipynb_source,
                line.origin,
                line.content@,
                file_path@,
            ),
            final(self).in_ipynb_source == in_source_after(
                old(self).in_ipynb_source,
                line.content@,
                file_path@,
            ),
    {
        self.process_diff_line_inner(line.origin, line.content.as_slice(), file_path)
    }

    /// What is shown of a line with the given origin and content, in the file
    /// at `file_path`.
    pub fn process_diff_line_inner(
        &mut self,
        origin: char,
        content: &[u8],
        file_path: &str,
    ) -> (r: Option<String>)
        ensures
            r.deep_view() == shown_line(
                old(self).in_ipynb_source,
                origin,
                content@,
                file_path@,
            ),
            final(self).in_ipynb_source == in_source_after(
                old(self).in_ipynb_source,
                content@,
                file_path@,
            ),
    {
        proof {
            reveal_strlit("\\n");
            reveal_strlit("]");
            reveal_strlit("\"source\": [");
        }
        let text: &str = match utf8_text(content) {
            Some(text) => text,
            None => {
                return None;
            },
        };
        if !ends_with(file_path, ".ipynb") {
            if contains(text, "\"image/png\"") {
                return None;
            }
            return match origin {
                'F' | 'H' | 'B' | ' ' => Some(text.to_string()),
                '+' | '-' => {
                    let mut line: String = String::new();
                    line.push(origin);
                    push_text(&mut line, text);
                    assert(line@ =~= seq![origin] + text@);
                    Some(line)
                },
                _ => None,
            };
        }
        let trimmed_text = trim(text);
        if starts_with(trimmed_text.as_str(), "\"source\": [") {
            self.in_ipynb_source = !closing_bracket_from(trimmed_text.as_str(), 11);
            return None;
        }
        if !self.in_ipynb_source {
            return None;
        }
        if starts_with(trimmed_text.as_str(), "]") {
            self.in_ipynb_source = false;
            return None;
        }
        let inner = strip_quotes(trimmed_text.as_str());
        let cleaned = replace(inner.as_str(), "\\n", "");
        let mut line: String = String::new();
        line.push(origin);
        push_text(&mut line, cleaned.as_str());
        push_text(&mut line, "\n");
        assert(line@ =~= seq![origin] + cleaned@ + "\n"@);
        Some(line)
    }
}

/// What is shown of an ordinary file is the content, with the mark of an added
/// or removed line in front. It does not depend on any notebook before it, and
/// leaves the state as it is.
pub proof fn law_ordinary_files_are_independent_of_notebooks(
    in_source: bool,
    other: bool,
    origin: char,
    content: Seq<u8>,
    path: Seq<char>,
)
    requires
        !is_notebook(path),
    ensures
        shown_line(in_source, origin, content, path) == shown_line(other, origin, content, path),
        in_source_after(in_source, content, path) == in_source,
        shown_line(in_source, origin, content, path) matches Some(shown) ==> valid_utf8(content)
            && !has_part(decode_utf8(content), "\"image/png\""@) && (shown == decode_utf8(content)
            || shown == seq![origin] + decode_utf8(content)),
{
}

/// Whether the lines after these lines of a notebook belong to a source block.
pub open spec fn in_source_after_lines(in_source: bool, texts: Seq<Seq<char>>) -> bool
    decreases texts.len(),
{
    if texts.len() == 0 {
        in_source
    } else {
        source_block_after(in_source_after_lines(in_source, texts.drop_last()), texts.last())
    }
}

/// The line ends a source block, its own or an earlier one.
pub open spec fn ends_source(text: Seq<char>) -> bool {
    closes_source(text) || opens_and_closes_source(text)
}

/// A line opens a block, and neither it nor one after it ends one.
pub open spec fn open_since(texts: Seq<Seq<char>>, k: int) -> bool {
    &&& 0 <= k < texts.len()
    &&& opens_source(texts[k])
    &&& forall|j: int| k <= j < texts.len() ==> !ends_source(#[trigger] texts[j])
}

/// A notebook is inside a source block exactly where one was opened and none was
/// ended since.
pub proof fn law_source_blocks_reach_from_opening_to_closing(texts: Seq<Seq<char>>)
    ensures
        in_source_after_lines(false, texts) <==> exists|k: int| open_since(texts, k),
    decreases texts.len(),
{
    if texts.len() > 0 {
        let front = texts.drop_last();
        let last = texts.len() - 1;
        law_source_blocks_reach_from_opening_to_closing(front);
        lemma_opening_is_no_closing(texts[last]);
        if opens_source(texts[last]) && !opens_and_closes_source(texts[last]) {
            assert(open_since(texts, last));
        }
        if exists|k: int| open_since(texts, k) {
            let k = choose|k: int| open_since(texts, k);
            assert(!ends_source(texts[last]));
            if k < last {
                assert forall|j: int| k <= j < front.len() implies !ends_source(
                    #[trigger] front[j],
                ) by {
                    assert(texts[j] == front[j]);
                }
                assert(open_since(front, k));
            }
        }
        if (exists|k: int| open_since(front, k)) && !ends_source(texts[last]) {
            let k = choose|k: int| open_since(front, k);
            assert forall|j: int| k <= j < texts.len() implies !ends_source(
                #[trigger] texts[j],
            ) by {
                if j < last {
                    assert(texts[j] == front[j]);
                }
            }
            assert(open_since(texts, k));
        }
    }
}

/// A line that opens a block does not close one.
proof fn lemma_opening_is_no_closing(text: Seq<char>)
    ensures
        !(opens_source(text) && closes_source(text)),
{
    reveal_strlit("\"source\": [");
    reveal_strlit("]");
    if opens_source(text) && closes_source(text) {
        assert(trimmed(text)[0] == "\"source\": ["@[0]);
        assert(trimmed(text)[0] == "]"@[0]);
    }
}

/// Of a notebook exactly those lines are shown that stand inside a source block
/// and neither open nor close one.
pub proof fn law_notebooks_show_their_source_only(
    in_source: bool,
    origin: char,
    content: Seq<u8>,
    path: Seq<char>,
)
    requires
        is_notebook(path),
    ensures
        shown_line(in_source, origin, content, path) is Some <==> valid_utf8(content) && in_source
            && !opens_source(decode_utf8(content)) && !closes_source(decode_utf8(content)),
{
}

/// Of a file that is no notebook a line is shown by its mark: headers, binary
/// notes and context as they are, added and removed lines behind their mark, and
/// nothing else. A line that holds an image is not shown, whatever its mark.
pub proof fn law_ordinary_lines_are_shown_by_their_mark(
    in_source: bool,
    origin: char,
    content: Seq<u8>,
    path: Seq<char>,
)
    requires
        !".ipynb"@.is_suffix_of(path),
        valid_utf8(content),
    ensures
        ({
            let text = decode_utf8(content);
            let shown = shown_line(in_source, origin, content, path);
            let image = has_part(text, "\"image/png\""@);
            &&& image ==> shown is None
            &&& !image && (origin == 'F' || origin == 'H' || origin == 'B' || origin == ' ')
                ==> shown == Some(text)
            &&& !image && (origin == '+' || origin == '-') ==> shown == Some(seq![origin] + text)
            &&& origin != 'F' && origin != 'H' && origin != 'B' && origin != ' ' && origin != '+'
                && origin != '-' ==> shown is None
        }),
{
}

/// Bytes that are no text are not shown, and leave the state as it is.
pub proof fn law_bytes_that_are_no_text_are_passed_over(
    in_source: bool,
    origin: char,
    content: Seq<u8>,
    path: Seq<char>,
)
    requires
        !valid_utf8(content),
    ensures
        shown_line(in_source, origin, content, path) is None,
        in_source_after(in_source, content, path) == in_source,
{
}

/// One quote is taken from each end of a line, where it stands, and no more.
pub proof fn law_one_quote_is_taken_from_each_end(inner: Seq<char>)
    ensures
        unquoted(seq!['"'] + inner + seq!['"']) == inner,
        unquoted(Seq::empty()) == Seq::<char>::empty(),
        unquoted(seq!['"']) == Seq::<char>::empty(),
        inner.len() > 0 && inner.last() != '"' ==> unquoted(seq!['"'] + inner) == inner,
        inner.len() > 0 && inner[0] != '"' ==> unquoted(inner + seq!['"']) == inner,
        inner.len() > 0 && inner[0] != '"' && inner.last() != '"' ==> unquoted(inner) == inner,
{
    let both = seq!['"'] + inner + seq!['"'];
    assert(both.drop_first() =~= inner + seq!['"']);
    assert((inner + seq!['"']).drop_last() =~= inner);
    assert(unquoted(both) =~= inner);
    assert((seq!['"'] + inner).drop_first() =~= inner);
    assert(seq!['"'].drop_first() =~= Seq::<char>::empty());
}

/// The text starts with a mark, behind white space.
pub open spec fn is_indented(text: Seq<char>, mark: Seq<char>) -> bool {
    exists|indent: Seq<char>, rest: Seq<char>|
        text == #[trigger] (indent + mark + rest) && forall|k: int|
            0 <= k < indent.len() ==> is_white_space(#[trigger] indent[k])
}

/// A line opens a source block exactly where the name of the array and its
/// bracket come first in it, and closes one exactly where a bracket does; white
/// space before that makes no difference.
pub proof fn law_blocks_are_opened_and_closed_by_what_comes_first(text: Seq<char>)
    ensures
        opens_source(text) <==> is_indented(text, "\"source\": ["@),
        closes_source(text) <==> is_indented(text, "]"@),
{
    reveal_strlit("\"source\": [");
    reveal_strlit("]");
    lemma_indented(text, "\"source\": ["@);
    lemma_indented(text, "]"@);
}

proof fn lemma_indented(text: Seq<char>, mark: Seq<char>)
    requires
        mark.len() > 0,
        !is_white_space(mark[0]),
        !is_white_space(mark.last()),
    ensures
        mark.is_prefix_of(trimmed(text)) <==> is_indented(text, mark),
{
    law_trimming_takes_white_space_only(text);
    let (from, to) = choose|from: int, to: int|
        0 <= from <= to <= text.len() && trimmed(text) == #[trigger] text.subrange(from, to) && (
        forall|k: int|
            (0 <= k < from || to <= k < text.len()) ==> is_white_space(#[trigger] text[k])) && (from
            < to ==> !is_white_space(text[from]) && !is_white_space(text[to - 1]));
    let core = trimmed(text);
    if mark.is_prefix_of(core) {
        let indent = text.take(from);
        let rest = text.skip(from + mark.len());
        assert(core.take(mark.len() as int) == mark);
        assert(text =~= indent + mark + rest) by {
            assert forall|k: int| 0 <= k < mark.len() implies text[from + k] == mark[k] by {
                assert(core.take(mark.len() as int)[k] == core[k]);
            }
        }
        assert(is_indented(text, mark));
    }
    if is_indented(text, mark) {
        let (indent, rest) = choose|indent: Seq<char>, rest: Seq<char>|
            text == #[trigger] (indent + mark + rest) && forall|k: int|
                0 <= k < indent.len() ==> is_white_space(#[trigger] indent[k]);
        let n = indent.len() as int;
        assert(text[n] == mark[0]);
        assert(text[n + mark.len() - 1] == mark.last());
        assert forall|k: int| 0 <= k < n implies is_white_space(#[trigger] text[k]) by {
            assert(indent[k] == text[k]);
        }
        assert(from == n);
        assert(to >= n + mark.len());
        assert(core.take(mark.len() as int) =~= mark);
    }
}

/// A notebook is inside a source block after a line exactly where the line opens
/// one and does not close it again, or where it was inside one already and the
/// line neither opens nor closes one.
pub proof fn law_a_line_opens_or_closes_the_block(
    in_source: bool,
    content: Seq<u8>,
    path: Seq<char>,
)
    requires
        ".ipynb"@.is_suffix_of(path),
        valid_utf8(content),
    ensures
        ({
            let text = decode_utf8(content);
            let opens = is_indented(text, "\"source\": ["@);
            in_source_after(in_source, content, path) <==> (opens && !opens_and_closes_source(text))
                || (!opens && in_source && !is_indented(text, "]"@))
        }),
{
    law_blocks_are_opened_and_closed_by_what_comes_first(decode_utf8(content));
}

/// A bracket closes an array where it stands outside of the strings: none does
/// in a text without brackets; one does that no quote stands before; and what
/// stands between two quotes, with any escapes, makes no difference.
pub proof fn law_brackets_inside_strings_close_nothing(
    before: Seq<char>,
    inner: Seq<char>,
    after: Seq<char>,
    escaped: char,
)
    requires
        !before.contains('"'),
    ensures
        !before.contains(']') ==> !has_closing_bracket(before, false, false),
        has_closing_bracket(before + seq![']'] + after, false, false),
        !before.contains(']') && !inner.contains('"') && !inner.contains('\\')
            ==> has_closing_bracket(
            before + seq!['"'] + inner + seq!['"'] + after,
            false,
            false,
        ) == has_closing_bracket(after, false, false),
        has_closing_bracket(seq!['\\', escaped] + after, true, false) == has_closing_bracket(
            after,
            true,
            false,
        ),
{
    lemma_bracket_in_plain(before, before.len() as int);
    assert(before.skip(before.len() as int) =~= Seq::<char>::empty());
    let closed = before + seq![']'] + after;
    lemma_bracket_in_plain(closed, before.len() as int);
    assert(closed.skip(before.len() as int)[0] == ']');
    let s = before + seq!['"'] + inner + seq!['"'] + after;
    if !before.contains(']') && !inner.contains('"') && !inner.contains('\\') {
        let n = before.len() as int;
        let m = inner.len() as int;
        assert forall|k: int| 0 <= k < n implies s[k] != '"' && s[k] != ']' by {
            assert(before.contains(before[k]));
        }
        lemma_bracket_in_plain(s, n);
        let quoted = s.skip(n);
        assert(quoted[0] == '"');
        assert(quoted.drop_first() =~= inner + seq!['"'] + after);
        let rest = inner + seq!['"'] + after;
        assert forall|k: int| 0 <= k < m implies rest[k] != '"' && rest[k] != '\\' by {
            assert(inner.contains(inner[k]));
        }
        lemma_bracket_in_string(rest, m);
        assert(rest.skip(m)[0] == '"');
        assert(rest.skip(m).drop_first() =~= after);
    }
    let escape = seq!['\\', escaped] + after;
    assert(escape.drop_first().drop_first() =~= after);
    assert(escape.drop_first()[0] == escaped);
    assert(has_closing_bracket(escape.drop_first(), true, true) == has_closing_bracket(
        after,
        true,
        false,
    ));
}

/// What stands before the first quote is read outside of strings.
proof fn lemma_bracket_in_plain(s: Seq<char>, n: int)
    requires
        0 <= n <= s.len(),
        forall|k: int| 0 <= k < n ==> s[k] != '"',
    ensures
        has_closing_bracket(s, false, false) <==> (exists|k: int| 0 <= k < n && s[k] == ']')
            || has_closing_bracket(s.skip(n), false, false),
    decreases n,
{
    if n == 0 {
        assert(s.skip(0) =~= s);
    } else {
        let rest = s.drop_first();
        lemma_bracket_in_plain(rest, n - 1);
        assert(rest.skip(n - 1) =~= s.skip(n));
        assert forall|k: int| 0 <= k < n - 1 implies rest[k] == s[k + 1] by {}
        if exists|k: int| 0 <= k < n && s[k] == ']' {
            let k = choose|k: int| 0 <= k < n && s[k] == ']';
            if k > 0 {
                assert(rest[k - 1] == ']');
            }
        }
        if exists|k: int| 0 <= k < n - 1 && rest[k] == ']' {
            let k = choose|k: int| 0 <= k < n - 1 && rest[k] == ']';
            assert(s[k + 1] == ']');
        }
    }
}

/// What stands before the closing quote is read inside the string.
proof fn lemma_bracket_in_string(s: Seq<char>, n: int)
    requires
        0 <= n <= s.len(),
        forall|k: int| 0 <= k < n ==> s[k] != '"' && s[k] != '\\',
    ensures
        has_closing_bracket(s, true, false) == has_closing_bracket(s.skip(n), true, false),
    decreases n,
{
    if n == 0 {
        assert(s.skip(0) =~= s);
    } else {
        lemma_bracket_in_string(s.drop_first(), n - 1);
        assert(s.drop_first().skip(n - 1) =~= s.skip(n));
    }
}

/// What is shown of a line inside a source block starts with the mark of the
/// line, whatever it is, and ends with a line feed. Between them stands the line
/// without the white space around it, without one quote at each end, and without
/// the escaped line feeds.
pub proof fn law_source_lines_keep_their_mark(
    origin: char,
    content: Seq<u8>,
    path: Seq<char>,
    before: Seq<char>,
    line: Seq<char>,
    after: Seq<char>,
)
    requires
        ".ipynb"@.is_suffix_of(path),
        valid_utf8(content),
        decode_utf8(content) == before + line + after,
        forall|k: int| 0 <= k < before.len() ==> is_white_space(#[trigger] before[k]),
        forall|k: int| 0 <= k < after.len() ==> is_white_space(#[trigger] after[k]),
        line.len() > 0 ==> !is_white_space(line[0]) && !is_white_space(line.last()),
        !"\"source\": ["@.is_prefix_of(line),
        !"]"@.is_prefix_of(line),
    ensures
        shown_line(true, origin, content, path) == Some(
            seq![origin] + replaced(unquoted(line), seq!['\\', 'n'], Seq::empty()) + seq!['\n'],
        ),
        in_source_after(true, content, path),
{
    reveal_strlit("\\n");
    reveal_strlit("\n");
    reveal_strlit("");
    assert("\\n"@ =~= seq!['\\', 'n']);
    assert("\n"@ =~= seq!['\n']);
    assert(""@ =~= Seq::<char>::empty());
    law_a_text_in_white_space_is_trimmed_to_itself(before, line, after);
}

/// A quoted line of source is shown with nothing lost but the escaped line feeds:
/// its mark, the parts between those escapes, and a line feed.
pub proof fn law_quoted_source_is_shown_as_written(
    origin: char,
    content: Seq<u8>,
    path: Seq<char>,
    before: Seq<char>,
    parts: Seq<Seq<char>>,
    after: Seq<char>,
)
    requires
        ".ipynb"@.is_suffix_of(path),
        valid_utf8(content),
        parts.len() > 0,
        forall|k: int|
            0 <= k < parts.len() ==> ends_at_separator(#[trigger] parts[k], seq!['\\', 'n']),
        !has_part(parts.last(), seq!['\\', 'n']),
        decode_utf8(content) == before + (seq!['"'] + joined(parts, seq!['\\', 'n']) + seq!['"'])
            + after,
        forall|k: int| 0 <= k < before.len() ==> is_white_space(#[trigger] before[k]),
        forall|k: int| 0 <= k < after.len() ==> is_white_space(#[trigger] after[k]),
        !"\"source\": ["@.is_prefix_of(seq!['"'] + joined(parts, seq!['\\', 'n']) + seq!['"']),
    ensures
        shown_line(true, origin, content, path) == Some(
            seq![origin] + parts.flatten() + seq!['\n'],
        ),
{
    let escape = seq!['\\', 'n'];
    let inner = joined(parts, escape);
    let line = seq!['"'] + inner + seq!['"'];
    reveal_strlit("]");
    assert(line[0] != "]"@[0]);
    assert(line.last() == '"');
    assert(!"]"@.is_prefix_of(line)) by {
        if "]"@.is_prefix_of(line) {
            assert(line.take(1)[0] == line[0]);
        }
    }
    law_source_lines_keep_their_mark(origin, content, path, before, line, after);
    law_one_quote_is_taken_from_each_end(inner);
    law_split_undoes_join(parts, escape);
    law_joining_with_nothing_between_is_putting_together(parts);
}

/// A block is closed again on the line that opens it exactly where a bracket
/// outside of the strings follows.
pub proof fn law_a_block_may_be_closed_on_its_opening_line(
    before: Seq<char>,
    rest: Seq<char>,
    after: Seq<char>,
)
    requires
        forall|k: int| 0 <= k < before.len() ==> is_white_space(#[trigger] before[k]),
        forall|k: int| 0 <= k < after.len() ==> is_white_space(#[trigger] after[k]),
        rest.len() > 0 ==> !is_white_space(rest.last()),
    ensures
        opens_and_closes_source(before + ("\"source\": ["@ + rest) + after)
            == has_closing_bracket(rest, false, false),
{
    reveal_strlit("\"source\": [");
    let mark = "\"source\": ["@;
    let line = mark + rest;
    law_a_text_in_white_space_is_trimmed_to_itself(before, line, after);
    assert(line.take(mark.len() as int) =~= mark);
    assert(line.skip(mark.len() as int) =~= rest);
}

} // verus!
