use crate::error::CoreError;
use crate::note::Note;
use vstd::prelude::*;

verus! {

/// A directed relationship between two notes, keyed by their names, owed to
/// the storage edge table.
#[derive(Debug)]
pub struct Edge {
    pub from: String,
    pub to: String,
}

/// Concludes one link (or unlink) orchestration.  The orchestrator runs two
/// sequential explore iterations — "choose source note", "choose target
/// note" — and hands their outcomes here; only when both succeeded is an
/// edge owed to storage.  Failure of either iteration propagates unchanged,
/// and a partial selection (only the source chosen) yields no edge.
pub fn conclude_link(source: Result<Note, CoreError>, target: Result<Note, CoreError>) -> (r:
    Result<Edge, CoreError>)
    ensures
        r is Ok <==> source is Ok && target is Ok,
        (source is Ok && target is Ok) ==> (r matches Ok(e) && e.from@
            == source->Ok_0.matter.name@ && e.to@ == target->Ok_0.matter.name@),
        source is Err ==> (r matches Err(f) && f == source->Err_0),
        (source is Ok && target is Err) ==> (r matches Err(f) && f == target->Err_0),
{
    match source {
        Ok(s) => match target {
            Ok(t) => Ok(Edge { from: s.matter.name, to: t.matter.name }),
            Err(e) => Err(e),
        },
        Err(e) => Err(e),
    }
}

/// The storage edge table after a session: the concluded edge is inserted,
/// and a failed session leaves the table as it was.
pub open spec fn edges_after(edges: Set<(Seq<char>, Seq<char>)>, r: Result<Edge, CoreError>) -> Set<
    (Seq<char>, Seq<char>),
> {
    match r {
        Ok(e) => edges.insert((e.from@, e.to@)),
        Err(_) => edges,
    }
}

/// Every orchestration that fails before it concludes — in particular one
/// that fails at the second (target) selection step, which
/// [`conclude_link`] turns into an error outcome — leaves the storage edge
/// table unchanged.
pub proof fn lemma_failed_session_preserves_edges(
    edges: Set<(Seq<char>, Seq<char>)>,
    r: Result<Edge, CoreError>,
)
    requires
        r is Err,
    ensures
        edges_after(edges, r) == edges,
{
}

} // verus!
