//! Where the clone of a project goes.

use vstd::prelude::*;

use crate::text::{
    ends_at_separator, first_occurrence, has_part, joined, law_replacing_goes_from_left_to_right,
    law_split_undoes_join, lemma_first_occurrence, occurs_at, pieces, replace, replaced,
};

verus! {

/// What the address of a project starts with.
pub const HOST: &'static str = "https://gitlab.com/";

/// The path of a project: its address without the host.
pub open spec fn path_of(project_url: Seq<char>) -> Seq<char> {
    replaced(project_url, HOST@, ""@)
}

/// The path of a project.
pub fn project_path(project_url: &str) -> (r: String)
    ensures
        r@ == path_of(project_url@),
{
    proof {
        reveal_strlit("https://gitlab.com/");
    }
    replace(project_url, HOST, "")
}

/// The parts of the path of a clone, below the home directory.
pub fn clone_dir(project_url: &str) -> (r: Vec<String>)
    ensures
        r.deep_view() == seq!["Documents"@, path_of(project_url@)],
{
    let mut parts: Vec<String> = Vec::new();
    parts.push("Documents".to_string());
    parts.push(project_path(project_url));
    assert(parts.deep_view() =~= seq!["Documents"@, path_of(project_url@)]);
    parts
}

/// The path of a project is what follows the host in its address.
pub proof fn law_the_host_is_left_out(path: Seq<char>)
    requires
        !has_part(path, HOST@),
    ensures
        path_of("https://gitlab.com/"@ + path) == path,
{
    reveal_strlit("https://gitlab.com/");
    reveal_strlit("");
    let parts = seq![Seq::<char>::empty(), path];
    assert(joined(parts.drop_last(), HOST@) =~= Seq::<char>::empty());
    assert(joined(parts, HOST@) =~= HOST@ + path);
    law_split_undoes_join(parts, HOST@);
    assert(joined(parts.drop_last(), ""@) =~= Seq::<char>::empty());
    assert(joined(parts, ""@) =~= path);
}

/// The address of a project on another host is its path.
pub proof fn law_another_address_is_kept(project_url: Seq<char>)
    requires
        !has_part(project_url, HOST@),
    ensures
        path_of(project_url) == project_url,
{
    lemma_first_occurrence(project_url, HOST@, 0);
    if let Some(i) = first_occurrence(project_url, HOST@, 0) {
        assert(occurs_at(project_url, HOST@, i));
    }
    assert(pieces(project_url, HOST@) =~= seq![project_url]);
}

/// Each occurrence of the host is left out of an address: the first one, and
/// then all in the rest.
pub proof fn law_every_host_is_left_out(before: Seq<char>, after: Seq<char>)
    requires
        ends_at_separator(before, "https://gitlab.com/"@),
    ensures
        path_of(before + "https://gitlab.com/"@ + after) == before + path_of(after),
{
    reveal_strlit("https://gitlab.com/");
    reveal_strlit("");
    assert(""@ =~= Seq::<char>::empty());
    law_replacing_goes_from_left_to_right(before, HOST@, after, ""@);
    assert(before + ""@ + path_of(after) =~= before + path_of(after));
}

} // verus!
