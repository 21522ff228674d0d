//! Per-request file names: every request owns its staged source and its
//! compiled artifact, both named after the request's identifier.
use vstd::prelude::*;
use vstd::string::*;

verus! {

/// Where the source of request `id` is staged.
pub open spec fn source_path_of(id: Seq<char>) -> Seq<char> {
    "/storage/source-"@ + id + ".cpp"@
}

/// Where the compiled artifact of request `id` is written.
pub open spec fn artifact_path_of(id: Seq<char>) -> Seq<char> {
    "/storage/program-"@ + id
}

/// The path at which the source of request `id` is staged.
pub fn source_path(id: &String) -> (r: String)
    ensures
        r@ == source_path_of(id@),
{
    let mut p = String::new();
    p.append("/storage/source-");
    p.append(id.as_str());
    p.append(".cpp");
    proof {
        assert(p@ =~= source_path_of(id@));
    }
    p
}

/// The path of the compiled artifact of request `id`.
pub fn artifact_path(id: &String) -> (r: String)
    ensures
        r@ == artifact_path_of(id@),
{
    let mut p = String::new();
    p.append("/storage/program-");
    p.append(id.as_str());
    proof {
        assert(p@ =~= artifact_path_of(id@));
    }
    p
}

/// Requests with distinct identifiers never share a staged source or an
/// artifact path, and no staged source path is ever an artifact path.
pub proof fn lemma_paths_never_collide(a: Seq<char>, b: Seq<char>)
    requires
        a != b,
    ensures
        source_path_of(a) != source_path_of(b),
        artifact_path_of(a) != artifact_path_of(b),
        source_path_of(a) != artifact_path_of(b),
        source_path_of(a) != artifact_path_of(a),
{
    reveal_strlit("/storage/source-");
    reveal_strlit("/storage/program-");
    reveal_strlit(".cpp");
    assert(source_path_of(a).subrange(16, 16 + a.len() as int) =~= a);
    assert(source_path_of(b).subrange(16, 16 + b.len() as int) =~= b);
    assert(artifact_path_of(a).subrange(17, 17 + a.len() as int) =~= a);
    assert(artifact_path_of(b).subrange(17, 17 + b.len() as int) =~= b);
    if source_path_of(a) == source_path_of(b) {
        assert(a.len() == b.len());
    }
    assert(source_path_of(a)[9] == 's');
    assert(artifact_path_of(a)[9] == 'p');
    assert(artifact_path_of(b)[9] == 'p');
}

} // verus!
