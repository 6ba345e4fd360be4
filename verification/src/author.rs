//! Who wrote the commits of some repositories.

use vstd::prelude::*;

use crate::text::{push_text, same_text, trim, trimmed};

verus! {

/// The author of a commit, as far as it is text.
#[derive(Debug)]
pub struct CommitAuthor {
    pub email: Option<String>,
    pub name: Option<String>,
}

/// The commits of a repository, by author.
#[derive(Debug)]
pub struct RepoAuthors {
    /// The line that names the repository.
    pub line: String,
    pub commits: Vec<CommitAuthor>,
}

/// The entry of a commit: the address and the name of its author, and the
/// repository. A commit without one of these has none.
pub open spec fn entry_of(author: CommitAuthor, repo_path: Seq<char>) -> Option<Seq<char>> {
    match (author.email, author.name) {
        (Some(email), Some(name)) => Some(email@ + "|"@ + name@ + "|"@ + repo_path),
        _ => None,
    }
}

/// The entry of a commit.
pub fn author_entry(author: &CommitAuthor, repo_path: &str) -> (r: Option<String>)
    ensures
        r.deep_view() == entry_of(*author, repo_path@),
{
    match (&author.email, &author.name) {
        (Some(email), Some(name)) => {
            let mut entry: String = email.clone();
            push_text(&mut entry, "|");
            push_text(&mut entry, name.as_str());
            push_text(&mut entry, "|");
            push_text(&mut entry, repo_path);
            Some(entry)
        },
        _ => None,
    }
}

/// A set of entries.
#[derive(Debug)]
pub struct Entries {
    items: Vec<String>,
}

impl View for Entries {
    type V = Set<Seq<char>>;

    closed spec fn view(&self) -> Set<Seq<char>> {
        self.items.deep_view().to_set()
    }
}

impl Entries {
    /// No entry stands there twice.
    pub closed spec fn wf(&self) -> bool {
        self.items.deep_view().no_duplicates()
    }

    /// The empty set.
    pub fn new() -> (r: Entries)
        ensures
            r.wf(),
            r@ == Set::<Seq<char>>::empty(),
    {
        let r = Entries { items: Vec::new() };
        assert(r.items.deep_view() =~= Seq::<Seq<char>>::empty());
        assert(r@ =~= Set::<Seq<char>>::empty());
        r
    }

    /// Whether an entry is there.
    pub fn contains(&self, entry: &str) -> (r: bool)
        ensures
            r == self@.contains(entry@),
    {
        let ghost all = self.items.deep_view();
        let mut i: usize = 0;
        while i < self.items.len()
            invariant
                i <= self.items@.len(),
                all == self.items.deep_view(),
                forall|k: int| 0 <= k < i ==> #[trigger] all[k] != entry@,
            decreases self.items@.len() - i,
        {
            assert(all[i as int] == self.items@[i as int]@);
            if same_text(self.items[i].as_str(), entry) {
                assert(all.contains(entry@));
                return true;
            }
            i = i + 1;
        }
        assert(!all.contains(entry@));
        false
    }

    /// Puts an entry in.
    pub fn insert(&mut self, entry: String)
        requires
            old(self).wf(),
        ensures
            final(self).wf(),
            final(self)@ == old(self)@.insert(entry@),
    {
        let ghost before = self.items.deep_view();
        if !self.contains(entry.as_str()) {
            assert(!before.contains(entry@));
            self.items.push(entry);
            assert(self.items.deep_view() =~= before.push(entry@));
            proof {
                before.lemma_push_to_set_commute(entry@);
            }
        } else {
            assert(before.to_set().insert(entry@) =~= before.to_set());
        }
    }

    /// The entries, each once.
    pub fn into_items(self) -> (r: Vec<String>)
        requires
            self.wf(),
        ensures
            r.deep_view().no_duplicates(),
            r.deep_view().to_set() == self@,
    {
        self.items
    }
}

/// `entry` is the one of a commit.
pub open spec fn is_entry(entry: Seq<char>, commits: Seq<CommitAuthor>, repo_path: Seq<char>) -> bool {
    exists|k: int|
        0 <= k < commits.len() && entry_of(#[trigger] commits[k], repo_path) == Some(entry)
}

/// The entries of the commits of a repository.
pub open spec fn entries_of(commits: Seq<CommitAuthor>, repo_path: Seq<char>) -> Set<Seq<char>> {
    Set::new(|entry: Seq<char>| is_entry(entry, commits, repo_path))
}

/// Puts the entries of the commits of a repository in.
pub fn process_commits(commits: &Vec<CommitAuthor>, repo_path: &str, merged: &mut Entries)
    requires
        old(merged).wf(),
    ensures
        final(merged).wf(),
        final(merged)@ == old(merged)@.union(entries_of(commits@, repo_path@)),
{
    let ghost before = merged@;
    let mut i: usize = 0;
    assert(merged@ =~= before.union(entries_of(commits@.take(0), repo_path@)));
    while i < commits.len()
        invariant
            i <= commits@.len(),
            merged.wf(),
            merged@ == before.union(entries_of(commits@.take(i as int), repo_path@)),
        decreases commits@.len() - i,
    {
        let ghost next = commits@.take(i + 1);
        if let Some(entry) = author_entry(&commits[i], repo_path) {
            merged.insert(entry);
        }
        proof {
            assert(next =~= commits@.take(i as int).push(commits@[i as int]));
            lemma_entries_push(commits@.take(i as int), commits@[i as int], repo_path@);
            assert(merged@ =~= before.union(entries_of(next, repo_path@)));
        }
        i = i + 1;
    }
    assert(commits@.take(i as int) =~= commits@);
}

proof fn lemma_entries_push(commits: Seq<CommitAuthor>, author: CommitAuthor, repo_path: Seq<char>)
    ensures
        entries_of(commits.push(author), repo_path) == match entry_of(author, repo_path) {
            Some(entry) => entries_of(commits, repo_path).insert(entry),
            None => entries_of(commits, repo_path),
        },
{
    let more = commits.push(author);
    assert forall|entry: Seq<char>| is_entry(entry, more, repo_path) <==> (is_entry(
        entry,
        commits,
        repo_path,
    ) || entry_of(author, repo_path) == Some(entry)) by {
        if is_entry(entry, commits, repo_path) {
            let k = choose|k: int|
                0 <= k < commits.len() && entry_of(#[trigger] commits[k], repo_path) == Some(entry);
            assert(more[k] == commits[k]);
        }
        if entry_of(author, repo_path) == Some(entry) {
            assert(more[commits.len() as int] == author);
        }
        if is_entry(entry, more, repo_path) {
            let k = choose|k: int|
                0 <= k < more.len() && entry_of(#[trigger] more[k], repo_path) == Some(entry);
            if k < commits.len() {
                assert(more[k] == commits[k]);
            }
        }
    }
    assert(entries_of(more, repo_path) =~= match entry_of(author, repo_path) {
        Some(entry) => entries_of(commits, repo_path).insert(entry),
        None => entries_of(commits, repo_path),
    });
}

/// The entries of some repositories, each named by its line without the white
/// space around it.
pub open spec fn merged_entries(repos: Seq<RepoAuthors>) -> Set<Seq<char>>
    decreases repos.len(),
{
    if repos.len() == 0 {
        Set::empty()
    } else {
        merged_entries(repos.drop_last()).union(
            entries_of(repos.last().commits@, trimmed(repos.last().line@)),
        )
    }
}

/// The entries of some repositories, each once.
pub fn process_repos(repos: &Vec<RepoAuthors>) -> (r: Vec<String>)
    ensures
        r.deep_view().no_duplicates(),
        r.deep_view().to_set() == merged_entries(repos@),
{
    let mut merged_set = Entries::new();
    let mut i: usize = 0;
    while i < repos.len()
        invariant
            i <= repos@.len(),
            merged_set.wf(),
            merged_set@ == merged_entries(repos@.take(i as int)),
        decreases repos@.len() - i,
    {
        let repo_path = trim(repos[i].line.as_str());
        process_commits(&repos[i].commits, repo_path.as_str(), &mut merged_set);
        assert(repos@.take(i + 1).drop_last() =~= repos@.take(i as int));
        i = i + 1;
    }
    assert(repos@.take(i as int) =~= repos@);
    merged_set.into_items()
}

/// An entry comes out exactly where a commit of one of the repositories has it.
pub proof fn law_entries_are_those_of_the_commits(repos: Seq<RepoAuthors>, entry: Seq<char>)
    ensures
        merged_entries(repos).contains(entry) <==> exists|k: int|
            0 <= k < repos.len() && is_entry(
                entry,
                (#[trigger] repos[k]).commits@,
                trimmed(repos[k].line@),
            ),
    decreases repos.len(),
{
    if repos.len() > 0 {
        let front = repos.drop_last();
        let last = repos.len() - 1;
        law_entries_are_those_of_the_commits(front, entry);
        if merged_entries(front).contains(entry) {
            let k = choose|k: int|
                0 <= k < front.len() && is_entry(
                    entry,
                    (#[trigger] front[k]).commits@,
                    trimmed(front[k].line@),
                );
            assert(front[k] == repos[k]);
        }
        assert(repos.last() == repos[last]);
        if exists|k: int|
            0 <= k < repos.len() && is_entry(
                entry,
                (#[trigger] repos[k]).commits@,
                trimmed(repos[k].line@),
            ) {
            let k = choose|k: int|
                0 <= k < repos.len() && is_entry(
                    entry,
                    (#[trigger] repos[k]).commits@,
                    trimmed(repos[k].line@),
                );
            if k < last {
                assert(front[k] == repos[k]);
            }
        }
    }
}

/// An entry is the address, the name and the repository, with bars between them,
/// and there is one exactly where the commit has both an address and a name. The
/// entries of a repository are those of its commits, each of them.
pub proof fn law_an_entry_needs_an_address_and_a_name(
    author: CommitAuthor,
    repo_path: Seq<char>,
    commits: Seq<CommitAuthor>,
    entry: Seq<char>,
)
    ensures
        entry_of(author, repo_path) is Some <==> author.email is Some && author.name is Some,
        author.email is Some && author.name is Some ==> entry_of(author, repo_path) == Some(
            author.email->0@ + seq!['|'] + author.name->0@ + seq!['|'] + repo_path,
        ),
        entries_of(commits, repo_path).contains(entry) <==> exists|k: int|
            0 <= k < commits.len() && entry_of(#[trigger] commits[k], repo_path) == Some(entry),
        is_entry(entry, commits, repo_path) <==> entries_of(commits, repo_path).contains(entry),
{
    reveal_strlit("|");
    assert("|"@ =~= seq!['|']);
}

} // verus!
