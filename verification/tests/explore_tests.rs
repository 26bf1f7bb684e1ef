use notegraph::error::CoreError;
use notegraph::explore::{Action, ControlCode, Iteration, PreviewType, Step};
use notegraph::note::{Matter, Note, NoteId};

fn note(name: &str) -> Note {
    Note {
        id: NoteId { timestamp: "20210101".to_string(), slug: name.to_string() },
        path: format!("/notes/20210101-{}", name),
        matter: Matter { name: name.to_string(), tags: None, links: None },
        content: String::new(),
    }
}

fn names(items: &[Note]) -> Vec<String> {
    items.iter().map(|n| n.matter.name.clone()).collect()
}

#[test]
fn back_with_no_backlinks_restores_original_set() {
    let items = vec![note("A"), note("B"), note("C")];
    let it = Iteration::new(items);
    let step = it.decode(ControlCode::CtrlH, Some(note("A"))).expect("decodes");
    let selected = match step {
        Step::FetchBacklinks(n) => n,
        _ => panic!("expected a backlink query"),
    };
    assert_eq!(selected.matter.name, "A");
    // A has zero backlinks: storage returns nothing, the fallback is the
    // original working set, never an empty one.
    let out = Iteration::new(vec![note("A"), note("B"), note("C")]).resolve_back(vec![]);
    assert!(matches!(out.action, Action::Back));
    assert_eq!(names(&out.next_items), vec!["A", "B", "C"]);
}

#[test]
fn back_with_backlinks_uses_them() {
    let it = Iteration::new(vec![note("A"), note("B")]);
    let out = it.resolve_back(vec![note("B")]);
    assert!(matches!(out.action, Action::Back));
    assert_eq!(names(&out.next_items), vec!["B"]);
}

#[test]
fn forward_with_no_links_keeps_selected_note() {
    let out = Iteration::resolve_forward(note("A"), vec![]);
    assert!(matches!(out.action, Action::Forward));
    assert_eq!(names(&out.next_items), vec!["A"]);
}

#[test]
fn forward_with_links_uses_them() {
    let out = Iteration::resolve_forward(note("A"), vec![note("B"), note("C")]);
    assert!(matches!(out.action, Action::Forward));
    assert_eq!(names(&out.next_items), vec!["B", "C"]);
}

#[test]
fn open_narrows_to_selection() {
    let it = Iteration::new(vec![note("A"), note("B")]);
    let step = it.decode(ControlCode::Enter, Some(note("B"))).expect("decodes");
    match step {
        Step::Resolved(out) => {
            match out.action {
                Action::Open(n) => assert_eq!(n.matter.name, "B"),
                _ => panic!("expected Open"),
            }
            assert_eq!(names(&out.next_items), vec!["B"]);
        }
        _ => panic!("expected a resolved step"),
    }
}

#[test]
fn widen_returns_empty_refetch_signal() {
    let it = Iteration::new(vec![note("A")]);
    let step = it.decode(ControlCode::CtrlW, None).expect("decodes");
    match step {
        Step::Resolved(out) => {
            assert!(matches!(out.action, Action::Widen));
            assert!(out.next_items.is_empty());
        }
        _ => panic!("expected a resolved step"),
    }
}

#[test]
fn mutating_actions_hand_back_selection_and_empty_set() {
    for (code, want) in [
        (ControlCode::AltR, "rename"),
        (ControlCode::AltL, "link"),
        (ControlCode::AltU, "unlink"),
    ] {
        let it = Iteration::new(vec![note("A")]);
        let step = it.decode(code, Some(note("A"))).expect("decodes");
        match step {
            Step::Resolved(out) => {
                let name = match (&out.action, want) {
                    (Action::Rename(n), "rename") => &n.matter.name,
                    (Action::Link(n), "link") => &n.matter.name,
                    (Action::Unlink(n), "unlink") => &n.matter.name,
                    _ => panic!("wrong action decoded"),
                };
                assert_eq!(name, "A");
                assert!(out.next_items.is_empty());
            }
            _ => panic!("expected a resolved step"),
        }
    }
}

#[test]
fn toggle_preview_keeps_selection() {
    let it = Iteration::new(vec![note("A")]);
    let step = it.decode(ControlCode::CtrlT, Some(note("A"))).expect("decodes");
    match step {
        Step::Resolved(out) => {
            assert!(matches!(out.action, Action::TogglePreview));
            assert_eq!(names(&out.next_items), vec!["A"]);
        }
        _ => panic!("expected a resolved step"),
    }
    assert_eq!(PreviewType::Plain.toggle(), PreviewType::Rendered);
    assert_eq!(PreviewType::Rendered.toggle(), PreviewType::Plain);
}

#[test]
fn missing_selection_is_an_error_not_a_no_op() {
    for code in [
        ControlCode::Enter,
        ControlCode::CtrlH,
        ControlCode::CtrlL,
        ControlCode::CtrlT,
        ControlCode::AltR,
        ControlCode::AltL,
        ControlCode::AltU,
    ] {
        let it = Iteration::new(vec![note("A")]);
        let r = it.decode(code, None);
        assert!(matches!(r, Err(CoreError::MissingSelection)));
    }
}

#[test]
fn abort_codes_cancel() {
    let it = Iteration::new(vec![note("A")]);
    assert!(matches!(it.decode(ControlCode::CtrlC, Some(note("A"))), Err(CoreError::Cancelled)));
    let it = Iteration::new(vec![note("A")]);
    assert!(matches!(it.decode(ControlCode::Esc, None), Err(CoreError::Cancelled)));
}

#[test]
fn forward_query_is_owed_for_selection() {
    let it = Iteration::new(vec![note("A")]);
    let step = it.decode(ControlCode::CtrlL, Some(note("A"))).expect("decodes");
    match step {
        Step::FetchForwardLinks(n) => assert_eq!(n.matter.name, "A"),
        _ => panic!("expected a forward-link query"),
    }
}
