use notegraph::commands::conclude_link;
use notegraph::error::CoreError;
use notegraph::note::{Matter, Note, NoteId};

fn note(name: &str) -> Note {
    Note {
        id: NoteId { timestamp: "20210101".to_string(), slug: name.to_string() },
        path: format!("/notes/20210101-{}", name),
        matter: Matter { name: name.to_string(), tags: None, links: None },
        content: String::new(),
    }
}

/// A stand-in for the storage edge table, as the surrounding program keeps
/// it: an edge is inserted only for a concluded session.
fn apply(edges: &mut Vec<(String, String)>, r: Result<notegraph::commands::Edge, CoreError>) {
    if let Ok(e) = r {
        edges.push((e.from, e.to));
    }
}

#[test]
fn concluded_session_yields_the_selected_edge() {
    let r = conclude_link(Ok(note("A")), Ok(note("B"))).expect("both chosen");
    assert_eq!(r.from, "A");
    assert_eq!(r.to, "B");
}

#[test]
fn source_failure_propagates_and_writes_nothing() {
    let mut edges: Vec<(String, String)> = vec![];
    let r = conclude_link(Err(CoreError::Cancelled), Err(CoreError::Cancelled));
    assert!(matches!(r, Err(CoreError::Cancelled)));
    apply(&mut edges, r);
    assert!(edges.is_empty());
}

#[test]
fn abort_at_target_selection_leaves_edge_table_empty() {
    // Source A was chosen, target selection of B was aborted: the edge
    // table stays exactly as it was, and a later lookup of links from A
    // finds nothing.
    let mut edges: Vec<(String, String)> = vec![];
    let r = conclude_link(Ok(note("A")), Err(CoreError::Cancelled));
    assert!(matches!(r, Err(CoreError::Cancelled)));
    apply(&mut edges, r);
    let links_from_a: Vec<&(String, String)> =
        edges.iter().filter(|e| e.0 == "A").collect();
    assert!(links_from_a.is_empty());
}

#[test]
fn missing_target_selection_propagates() {
    let r = conclude_link(Ok(note("A")), Err(CoreError::MissingSelection));
    assert!(matches!(r, Err(CoreError::MissingSelection)));
}

#[test]
fn storage_and_io_failures_propagate() {
    assert!(matches!(
        conclude_link(Err(CoreError::Storage), Ok(note("B"))),
        Err(CoreError::Storage)
    ));
    assert!(matches!(
        conclude_link(Ok(note("A")), Err(CoreError::Io)),
        Err(CoreError::Io)
    ));
    assert!(matches!(
        conclude_link(Err(CoreError::SelectorFailed), Err(CoreError::Cancelled)),
        Err(CoreError::SelectorFailed)
    ));
}

#[test]
fn errors_describe_themselves() {
    assert_eq!(CoreError::Cancelled.describe(), "user chose to abort current iteration");
    assert_eq!(CoreError::MissingSelection.describe(), "no item selected");
    assert_eq!(CoreError::SelectorFailed.describe(), "selector internal errors");
    assert_eq!(CoreError::Storage.describe(), "storage failure");
    assert_eq!(CoreError::Io.describe(), "file write failure");
}
