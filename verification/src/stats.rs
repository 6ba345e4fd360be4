//! The lines of a diff's statistics: which files are small enough to show.

use regex::Regex;
use vstd::prelude::*;

use crate::text::{
    blank_between, is_white_space, lemma_trimmed_append_blank, lemma_trimmed_start, lemma_trimmed_start_at, parse_u32, parsed_u32,
    trim, trimmed, trimmed_start,
};

verus! {

/// A statistics line: a file name, a bar, and the number of changed lines.
pub const FILE_RE: &'static str = r"([^\|]+?)\s*\|\s*(\S+)";

/// The lock files and manifests that are never shown, at any depth.
pub const LOCK_RE: &'static str = r"(^|.*/)(yarn\.lock|Cargo\.toml|poetry\.lock|package-lock\.json|\.terraform\.lock\.hcl)$";

/// A file with this many changed lines, or more, is not listed.
pub const MAX_FILE_CHANGES: u32 = 1000;

/// The positions at which the parts of `FILE_RE` meet in a text.
pub struct ColumnsMatch {
    pub start: int,
    pub name_end: int,
    pub bar: int,
    pub count_start: int,
    pub count_end: int,
}

/// `FILE_RE` matches `s` with its parts at these positions.
pub open spec fn columns_match(s: Seq<char>, m: ColumnsMatch) -> bool {
    &&& 0 <= m.start < m.name_end <= m.bar < m.count_start < m.count_end <= s.len()
    &&& forall|k: int| m.start <= k < m.name_end ==> #[trigger] s[k] != '|'
    &&& blank_between(s, m.name_end, m.bar)
    &&& s[m.bar] == '|'
    &&& blank_between(s, m.bar + 1, m.count_start)
    &&& forall|k: int| m.count_start <= k < m.count_end ==> !is_white_space(#[trigger] s[k])
}

/// The match `m` comes before the match `other`: it starts further left, or
/// its lazy part is shorter, or the first of its greedy parts to differ is
/// longer.
pub open spec fn match_precedes(m: ColumnsMatch, other: ColumnsMatch) -> bool {
    if m.start != other.start {
        m.start < other.start
    } else if m.name_end != other.name_end {
        m.name_end < other.name_end
    } else if m.bar != other.bar {
        m.bar > other.bar
    } else if m.count_start != other.count_start {
        m.count_start > other.count_start
    } else {
        m.count_end >= other.count_end
    }
}

/// `m` is the match of `FILE_RE` in `s` that comes first.
pub open spec fn first_columns_match(s: Seq<char>, m: ColumnsMatch) -> bool {
    &&& columns_match(s, m)
    &&& forall|other: ColumnsMatch| #[trigger]
        columns_match(s, other) ==> match_precedes(m, other)
}

/// `Regex::new` and `Regex::captures`, on the pattern `FILE_RE`: the texts of
/// its two groups in the leftmost match, where the lazy repetition takes as
/// little as it can and the greedy ones take as much as they can; nothing
/// where there is no match.
#[verifier::external_body]
fn capture_columns(pattern: &str, line: &str) -> (r: Option<(String, String)>)
    requires
        pattern@ == FILE_RE@,
    ensures
        r is None ==> forall|m: ColumnsMatch| !#[trigger] columns_match(line@, m),
        r matches Some((name, count)) ==> exists|m: ColumnsMatch| #[trigger]
            first_columns_match(line@, m) && name@ == line@.subrange(m.start, m.name_end)
                && count@ == line@.subrange(m.count_start, m.count_end),
{
    let re = Regex::new(pattern).unwrap();
    re.captures(line).map(|caps| (caps[1].to_string(), caps[2].to_string()))
}

/// A name that `LOCK_RE` knows.
pub open spec fn is_lock_name(name: Seq<char>) -> bool {
    ||| name == "yarn.lock"@
    ||| name == "Cargo.toml"@
    ||| name == "poetry.lock"@
    ||| name == "package-lock.json"@
    ||| name == ".terraform.lock.hcl"@
}

/// `LOCK_RE` matches `s` from `start` to its end, with the name at `name`.
pub open spec fn lock_match(s: Seq<char>, start: int, name: int) -> bool {
    &&& 0 <= start <= name <= s.len()
    &&& ({
        ||| start == 0 && name == 0
        ||| start < name && s[name - 1] == '/' && forall|k: int|
            start <= k < name - 1 ==> #[trigger] s[k] != '\n'
    })
    &&& is_lock_name(s.skip(name))
}

/// `Regex::new` and `Regex::is_match`, on the pattern `LOCK_RE`: whether the
/// pattern matches anywhere in the text.
#[verifier::external_body]
fn matches_lock(pattern: &str, path: &str) -> (r: bool)
    requires
        pattern@ == LOCK_RE@,
    ensures
        r == exists|start: int, name: int| lock_match(path@, start, name),
{
    Regex::new(pattern).unwrap().is_match(path)
}

/// A path whose last part is a lock file's name.
pub open spec fn is_lock_path(path: Seq<char>) -> bool {
    exists|i: int|
        0 <= i <= path.len() && (i == 0 || path[i - 1] == '/') && #[trigger] is_lock_name(
            path.skip(i),
        )
}

/// The position of the first character from `i` on that is no bar, or the
/// length.
pub open spec fn after_bars(s: Seq<char>, i: int) -> int
    decreases s.len() - i,
{
    if 0 <= i < s.len() && s[i] == '|' {
        after_bars(s, i + 1)
    } else {
        i
    }
}

/// The position of the first bar from `i` on, or the length.
pub open spec fn next_bar(s: Seq<char>, i: int) -> int
    decreases s.len() - i,
{
    if 0 <= i < s.len() && s[i] != '|' {
        next_bar(s, i + 1)
    } else {
        i
    }
}

/// `s` up to its first white space.
pub open spec fn first_word(s: Seq<char>) -> Seq<char>
    decreases s.len(),
{
    if s.len() > 0 && !is_white_space(s[0]) {
        seq![s[0]] + first_word(s.drop_first())
    } else {
        Seq::empty()
    }
}

/// The file name and the count of a statistics line. Bars at the start are
/// passed over; the name stands before the next bar and the count is the first
/// word after it.
pub open spec fn stats_columns(line: Seq<char>) -> Option<(Seq<char>, Seq<char>)> {
    let start = after_bars(line, 0);
    let bar = next_bar(line, start);
    let rest = trimmed_start(line.skip(bar + 1));
    if bar < line.len() && rest.len() > 0 {
        Some((trimmed(line.subrange(start, bar)), first_word(rest)))
    } else {
        None
    }
}

/// The file that a statistics line lists: no lock file, and fewer changed
/// lines than `MAX_FILE_CHANGES`.
pub open spec fn listed_file(line: Seq<char>) -> Option<Seq<char>> {
    match stats_columns(line) {
        Some((name, count)) => if is_lock_path(name) {
            None
        } else {
            match parsed_u32(count) {
                Some(n) if n < MAX_FILE_CHANGES => Some(name),
                _ => None,
            }
        },
        None => None,
    }
}

/// Whether a path names a lock file.
fn is_lock_file(path: &str) -> (r: bool)
    ensures
        r == is_lock_path(path@),
{
    let r = matches_lock(LOCK_RE, path);
    proof {
        if is_lock_path(path@) {
            let i = choose|i: int|
                0 <= i <= path@.len() && (i == 0 || path@[i - 1] == '/') && #[trigger] is_lock_name(
                    path@.skip(i),
                );
            let start = if i == 0 { 0int } else { i - 1 };
            assert(lock_match(path@, start, i));
        }
        if exists|start: int, name: int| lock_match(path@, start, name) {
            let (start, name) = choose|start: int, name: int| lock_match(path@, start, name);
            assert(is_lock_name(path@.skip(name)));
        }
    }
    r
}

/// Reads one line of a diff's statistics and gives the file that it lists,
/// unless the file is a lock file or has too many changed lines.
pub fn parse_stats_line(line: &str) -> (r: Option<String>)
    ensures
        r.deep_view() == listed_file(line@),
{
    match capture_columns(FILE_RE, line) {
        None => {
            proof {
                lemma_no_columns(line@);
            }
            None
        },
        Some((name, count)) => {
            proof {
                let m = choose|m: ColumnsMatch| #[trigger]
                    first_columns_match(line@, m) && name@ == line@.subrange(m.start, m.name_end)
                        && count@ == line@.subrange(m.count_start, m.count_end);
                lemma_columns(line@, m);
            }
            let file_name = trim(name.as_str());
            if is_lock_file(file_name.as_str()) {
                return None;
            }
            match parse_u32(count.as_str()) {
                Some(n) => {
                    if n < MAX_FILE_CHANGES {
                        Some(file_name)
                    } else {
                        None
                    }
                },
                None => None,
            }
        },
    }
}

/// What `after_bars` passes over are bars, and what it stops at is none.
proof fn lemma_after_bars(s: Seq<char>, i: int)
    requires
        0 <= i <= s.len(),
    ensures
        i <= after_bars(s, i) <= s.len(),
        forall|k: int| i <= k < after_bars(s, i) ==> s[k] == '|',
        after_bars(s, i) < s.len() ==> s[after_bars(s, i)] != '|',
    decreases s.len() - i,
{
    if i < s.len() && s[i] == '|' {
        lemma_after_bars(s, i + 1);
    }
}

/// What `next_bar` passes over are no bars, and what it stops at is one.
proof fn lemma_next_bar(s: Seq<char>, i: int)
    requires
        0 <= i <= s.len(),
    ensures
        i <= next_bar(s, i) <= s.len(),
        forall|k: int| i <= k < next_bar(s, i) ==> s[k] != '|',
        next_bar(s, i) < s.len() ==> s[next_bar(s, i)] == '|',
    decreases s.len() - i,
{
    if i < s.len() && s[i] != '|' {
        lemma_next_bar(s, i + 1);
    }
}

/// A longest run of characters that are no white space is the first word.
proof fn lemma_first_word(s: Seq<char>, n: int)
    requires
        0 <= n <= s.len(),
        forall|k: int| 0 <= k < n ==> !is_white_space(#[trigger] s[k]),
        n < s.len() ==> is_white_space(s[n]),
    ensures
        first_word(s) == s.take(n),
    decreases n,
{
    if n == 0 {
        assert(s.take(0) =~= Seq::<char>::empty());
    } else {
        assert(!is_white_space(s[0]));
        assert forall|k: int| 0 <= k < n - 1 implies !is_white_space(
            #[trigger] s.drop_first()[k],
        ) by {
            assert(s[k + 1] == s.drop_first()[k]);
        }
        lemma_first_word(s.drop_first(), n - 1);
        assert(s.take(n) =~= seq![s[0]] + s.drop_first().take(n - 1));
    }
}

/// The length of the run at `i` of characters that are no white space.
proof fn lemma_word_end(s: Seq<char>, i: int) -> (end: int)
    requires
        0 <= i <= s.len(),
    ensures
        i <= end <= s.len(),
        forall|k: int| i <= k < end ==> !is_white_space(#[trigger] s[k]),
        end < s.len() ==> is_white_space(s[end]),
    decreases s.len() - i,
{
    if i < s.len() && !is_white_space(s[i]) {
        lemma_word_end(s, i + 1)
    } else {
        i
    }
}

/// Where a match exists, one exists that starts behind the bars that the line
/// starts with and has its bar at the next one.
proof fn lemma_match_at_next_bar(s: Seq<char>, i: int)
    requires
        ({
            let bar = next_bar(s, after_bars(s, 0));
            bar < i < s.len() && !is_white_space(s[i])
        }),
    ensures
        exists|m: ColumnsMatch| #[trigger]
            columns_match(s, m) && m.start == after_bars(s, 0) && m.bar == next_bar(
                s,
                after_bars(s, 0),
            ),
{
    lemma_after_bars(s, 0);
    let start = after_bars(s, 0);
    lemma_next_bar(s, start);
    let bar = next_bar(s, start);
    let n = lemma_trimmed_start(s.skip(bar + 1));
    let count_start = bar + 1 + n;
    if n > i - bar - 1 {
        assert(s.skip(bar + 1)[i - bar - 1] == s[i]);
    }
    assert(!is_white_space(s[count_start])) by {
        assert(s.skip(bar + 1)[n] == s[count_start]);
    }
    assert forall|k: int| bar + 1 <= k < count_start implies is_white_space(#[trigger] s[k]) by {
        assert(s.skip(bar + 1)[k - bar - 1] == s[k]);
    }
    let count_end = lemma_word_end(s, count_start + 1);
    let m = ColumnsMatch { start, name_end: bar, bar, count_start, count_end };
    assert(columns_match(s, m));
}

/// Where the pattern does not match, the line has no columns.
proof fn lemma_no_columns(s: Seq<char>)
    requires
        forall|m: ColumnsMatch| !#[trigger] columns_match(s, m),
    ensures
        stats_columns(s) is None,
{
    lemma_after_bars(s, 0);
    let start = after_bars(s, 0);
    lemma_next_bar(s, start);
    let bar = next_bar(s, start);
    if stats_columns(s) is Some {
        let n = lemma_trimmed_start(s.skip(bar + 1));
        assert(s.skip(bar + 1)[n] == s[bar + 1 + n]);
        lemma_match_at_next_bar(s, bar + 1 + n);
    }
}

/// The first match gives the columns of the line.
proof fn lemma_columns(s: Seq<char>, m: ColumnsMatch)
    requires
        first_columns_match(s, m),
    ensures
        stats_columns(s) == Some(
            (
                trimmed(s.subrange(m.start, m.name_end)),
                s.subrange(m.count_start, m.count_end),
            ),
        ),
{
    lemma_after_bars(s, 0);
    let start = after_bars(s, 0);
    assert(s[m.start] != '|');
    assert(m.start >= start);
    lemma_next_bar(s, start);
    let bar = next_bar(s, start);
    assert(bar <= m.bar);
    assert(!is_white_space(s[m.count_start]));
    lemma_match_at_next_bar(s, m.count_start);
    let other = choose|other: ColumnsMatch| #[trigger]
        columns_match(s, other) && other.start == start && other.bar == bar;
    assert(match_precedes(m, other));
    assert(m.start == start);
    assert(!is_white_space('|'));
    assert(forall|k: int| m.start <= k < m.bar ==> #[trigger] s[k] != '|');
    assert(m.bar == bar);
    // The name: what trimming leaves of everything before the bar.
    let name = s.subrange(m.start, m.name_end);
    let blank = s.subrange(m.name_end, m.bar);
    assert forall|k: int| 0 <= k < blank.len() implies is_white_space(#[trigger] blank[k]) by {
        assert(s[m.name_end + k] == blank[k]);
    }
    lemma_trimmed_append_blank(name, blank);
    assert(name + blank =~= s.subrange(start, bar));
    // The count: the first word behind the bar.
    let after = s.skip(bar + 1);
    let n = m.count_start - bar - 1;
    assert forall|k: int| 0 <= k < n implies is_white_space(#[trigger] after[k]) by {
        assert(s[bar + 1 + k] == after[k]);
    }
    assert(after[n] == s[m.count_start]);
    lemma_trimmed_start_at(after, n);
    let rest = after.skip(n);
    assert(rest =~= s.skip(m.count_start));
    let width = m.count_end - m.count_start;
    assert forall|k: int| 0 <= k < width implies !is_white_space(#[trigger] rest[k]) by {
        assert(s[m.count_start + k] == rest[k]);
    }
    if m.count_end < s.len() && !is_white_space(s[m.count_end]) {
        let longer = ColumnsMatch { count_end: m.count_end + 1, ..m };
        assert(columns_match(s, longer));
        assert(match_precedes(m, longer));
    }
    assert(width < rest.len() ==> rest[width] == s[m.count_end]);
    lemma_first_word(rest, width);
    assert(rest.take(width) =~= s.subrange(m.count_start, m.count_end));
}

/// A file that is listed is no lock file, and its line gives a number of changed
/// lines below the limit.
pub proof fn law_listed_files_are_small_and_no_lock_files(line: Seq<char>)
    ensures
        listed_file(line) matches Some(name) ==> {
            &&& !is_lock_path(name)
            &&& stats_columns(line) matches Some((column, count))
            &&& column == name
            &&& parsed_u32(count) matches Some(n)
            &&& n < MAX_FILE_CHANGES
        },
{
}

/// A name without a directory, and the same name in any directory, are lock
/// files alike.
pub proof fn law_lock_files_are_known_at_any_depth(directory: Seq<char>, name: Seq<char>)
    requires
        is_lock_name(name),
    ensures
        is_lock_path(name),
        is_lock_path(directory + seq!['/'] + name),
{
    let path = directory + seq!['/'] + name;
    let i = directory.len() as int;
    assert(name.skip(0) =~= name);
    assert(path[i] == '/');
    assert(path.skip(i + 1) =~= name);
}

/// A line that is made of a name, a bar and a number, with any white space
/// around the name and before the number, and anything behind the number, is
/// read as that name and that number.
pub proof fn law_columns_are_read_as_written(
    indent: Seq<char>,
    name: Seq<char>,
    padding: Seq<char>,
    gap: Seq<char>,
    count: Seq<char>,
    graph: Seq<char>,
)
    requires
        blank_between(indent, 0, indent.len() as int),
        blank_between(padding, 0, padding.len() as int),
        blank_between(gap, 0, gap.len() as int),
        name.len() > 0,
        !name.contains('|'),
        !is_white_space(name[0]),
        !is_white_space(name.last()),
        count.len() > 0,
        forall|k: int| 0 <= k < count.len() ==> !is_white_space(#[trigger] count[k]),
        graph.len() > 0 ==> is_white_space(graph[0]),
    ensures
        stats_columns(indent + name + padding + seq!['|'] + gap + count + graph) == Some(
            (name, count),
        ),
{
    let left = indent + name + padding;
    let line = left + seq!['|'] + gap + count + graph;
    let bar = left.len() as int;
    assert(!is_white_space('|'));
    assert forall|k: int| 0 <= k < bar implies #[trigger] line[k] != '|' by {
        if k < indent.len() {
            assert(is_white_space(indent[k]));
        } else if k < indent.len() + name.len() {
            assert(name.contains(name[k - indent.len()]));
        } else {
            assert(is_white_space(padding[k - indent.len() - name.len()]));
        }
    }
    lemma_after_bars(line, 0);
    assert(after_bars(line, 0) == 0);
    lemma_next_bar(line, 0);
    assert(line[bar] == '|');
    assert(next_bar(line, 0) == bar);
    assert(line.subrange(0, bar) =~= indent + name + padding);
    lemma_trimmed_append_blank(indent + name, padding);
    assert forall|k: int| 0 <= k < indent.len() implies is_white_space(
        #[trigger] (indent + name)[k],
    ) by {
        assert(indent[k] == (indent + name)[k]);
    }
    assert((indent + name)[indent.len() as int] == name[0]);
    lemma_trimmed_start_at(indent + name, indent.len() as int);
    assert((indent + name).skip(indent.len() as int) =~= name);
    assert(trimmed(indent + name) == name);
    let after = line.skip(bar + 1);
    assert(after =~= gap + count + graph);
    assert forall|k: int| 0 <= k < gap.len() implies is_white_space(#[trigger] after[k]) by {
        assert(gap[k] == after[k]);
    }
    assert(after[gap.len() as int] == count[0]);
    lemma_trimmed_start_at(after, gap.len() as int);
    let rest = after.skip(gap.len() as int);
    assert(rest =~= count + graph);
    lemma_first_word(rest, count.len() as int);
    assert(rest.take(count.len() as int) =~= count);
}

/// The converse: a line that gives a name and a number lists the file wherever
/// the name is no lock file's and the number is below the limit, and only there.
pub proof fn law_every_small_file_is_listed(line: Seq<char>, name: Seq<char>, count: Seq<char>)
    requires
        stats_columns(line) == Some((name, count)),
    ensures
        listed_file(line) == Some(name) <==> !is_lock_path(name) && parsed_u32(count) is Some
            && parsed_u32(count)->0 < 1000,
        listed_file(line) is Some ==> listed_file(line) == Some(name),
{
}

/// The path names a file, in some directory or in none.
pub open spec fn is_file_named(path: Seq<char>, name: Seq<char>) -> bool {
    path == name || (seq!['/'] + name).is_suffix_of(path)
}

/// The lock files are five, by their whole names, in whatever directory.
pub proof fn law_lock_files_are_known_by_their_whole_names(path: Seq<char>)
    ensures
        is_lock_path(path) <==> {
            ||| is_file_named(path, "yarn.lock"@)
            ||| is_file_named(path, "Cargo.toml"@)
            ||| is_file_named(path, "poetry.lock"@)
            ||| is_file_named(path, "package-lock.json"@)
            ||| is_file_named(path, ".terraform.lock.hcl"@)
        },
{
    if is_lock_path(path) {
        let i = choose|i: int|
            0 <= i <= path.len() && (i == 0 || path[i - 1] == '/') && #[trigger] is_lock_name(
                path.skip(i),
            );
        let name = path.skip(i);
        if i == 0 {
            assert(name =~= path);
        } else {
            assert((seq!['/'] + name) =~= path.skip(i - 1));
        }
        assert(is_file_named(path, name));
    }
    lemma_file_named(path, "yarn.lock"@);
    lemma_file_named(path, "Cargo.toml"@);
    lemma_file_named(path, "poetry.lock"@);
    lemma_file_named(path, "package-lock.json"@);
    lemma_file_named(path, ".terraform.lock.hcl"@);
}

proof fn lemma_file_named(path: Seq<char>, name: Seq<char>)
    ensures
        is_file_named(path, name) && is_lock_name(name) ==> is_lock_path(path),
{
    if is_file_named(path, name) && is_lock_name(name) {
        if path == name {
            assert(path.skip(0) =~= name);
        } else {
            let i = path.len() - name.len();
            let tail = seq!['/'] + name;
            assert(tail =~= path.skip(i - 1));
            assert(path[i - 1] == tail[0]);
            assert(path.skip(i) =~= name) by {
                assert forall|k: int| 0 <= k < name.len() implies path.skip(i)[k] == name[k] by {
                    assert(tail[k + 1] == path.skip(i - 1)[k + 1]);
                }
            }
        }
    }
}

/// Where the columns of a line stand: behind the bars at its start, and on both
/// sides of the next bar.
proof fn lemma_columns_at(bars: Seq<char>, left: Seq<char>, right: Seq<char>)
    requires
        forall|k: int| 0 <= k < bars.len() ==> #[trigger] bars[k] == '|',
        left.len() > 0,
        !left.contains('|'),
    ensures
        ({
            let line = bars + left + seq!['|'] + right;
            let start = bars.len() as int;
            let bar = start + left.len();
            &&& after_bars(line, 0) == start
            &&& next_bar(line, start) == bar
            &&& line.subrange(start, bar) == left
            &&& line.skip(bar + 1) == right
        }),
{
    let line = bars + left + seq!['|'] + right;
    let start = bars.len() as int;
    let bar = start + left.len();
    assert forall|k: int| start <= k < bar implies #[trigger] line[k] != '|' by {
        assert(left.contains(left[k - start]));
    }
    lemma_after_bars(line, 0);
    assert(line[start] != '|');
    if after_bars(line, 0) < start {
        assert(line[after_bars(line, 0)] == bars[after_bars(line, 0)]);
    }
    lemma_next_bar(line, start);
    assert(line[bar] == '|');
    assert(line.subrange(start, bar) =~= left);
    assert(line.skip(bar + 1) =~= right);
}

/// A line lists the file between the bars that it may start with and the next
/// one, without the white space around its name, exactly where that is no lock
/// file and the word behind the bar is a number below a thousand. What stands
/// behind that word makes no difference, nor how deep the file lies.
pub proof fn law_a_line_lists_its_file(
    bars: Seq<char>,
    left: Seq<char>,
    gap: Seq<char>,
    count: Seq<char>,
    graph: Seq<char>,
)
    requires
        forall|k: int| 0 <= k < bars.len() ==> #[trigger] bars[k] == '|',
        left.len() > 0,
        !left.contains('|'),
        forall|k: int| 0 <= k < gap.len() ==> is_white_space(#[trigger] gap[k]),
        count.len() > 0,
        forall|k: int| 0 <= k < count.len() ==> !is_white_space(#[trigger] count[k]),
        graph.len() > 0 ==> is_white_space(graph[0]),
    ensures
        listed_file(bars + left + seq!['|'] + (gap + count + graph)) == if !is_lock_path(
            trimmed(left),
        ) && parsed_u32(count) is Some && parsed_u32(count)->0 < 1000 {
            Some(trimmed(left))
        } else {
            None
        },
{
    let right = gap + count + graph;
    lemma_columns_at(bars, left, right);
    assert forall|k: int| 0 <= k < gap.len() implies is_white_space(#[trigger] right[k]) by {
        assert(gap[k] == right[k]);
    }
    assert(right[gap.len() as int] == count[0]);
    lemma_trimmed_start_at(right, gap.len() as int);
    let rest = right.skip(gap.len() as int);
    assert(rest =~= count + graph);
    lemma_first_word(rest, count.len() as int);
    assert(rest.take(count.len() as int) =~= count);
}

/// A line without a bar behind a name, or without a word behind that bar, lists
/// nothing.
pub proof fn law_a_line_without_columns_lists_nothing(
    bars: Seq<char>,
    left: Seq<char>,
    blank: Seq<char>,
)
    requires
        forall|k: int| 0 <= k < bars.len() ==> #[trigger] bars[k] == '|',
        !left.contains('|'),
        forall|k: int| 0 <= k < blank.len() ==> is_white_space(#[trigger] blank[k]),
    ensures
        listed_file(bars + left) is None,
        left.len() > 0 ==> listed_file(bars + left + seq!['|'] + blank) is None,
{
    let line = bars + left;
    let start = bars.len() as int;
    assert forall|k: int| start <= k < line.len() implies #[trigger] line[k] != '|' by {
        assert(left.contains(left[k - start]));
    }
    lemma_after_bars(line, 0);
    if after_bars(line, 0) < start {
        assert(line[after_bars(line, 0)] == bars[after_bars(line, 0)]);
    }
    lemma_next_bar(line, after_bars(line, 0));
    if left.len() > 0 {
        lemma_columns_at(bars, left, blank);
        lemma_trimmed_start_at(blank, blank.len() as int);
    }
}

} // verus!
