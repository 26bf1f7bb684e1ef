use notegraph::error::CoreError;
use notegraph::note::{Matter, Note, NoteId};
use notegraph::surf::{Action, ControlCode, Iteration, Link};

fn return_note() -> Note {
    Note {
        id: NoteId { timestamp: "20210101".to_string(), slug: "home".to_string() },
        path: "/notes/20210101-home".to_string(),
        matter: Matter { name: "home".to_string(), tags: None, links: None },
        content: "see [B]".to_string(),
    }
}

fn link(target: &str) -> Link {
    Link { target: target.to_string(), display: format!("[{}]", target), preview: None }
}

#[test]
fn enter_opens_selected_link() {
    let it = Iteration::new(vec![link("B")], false, return_note());
    match it.decode(ControlCode::Enter, Some(link("B"))) {
        Ok(Action::Open(l)) => assert_eq!(l.target, "B"),
        _ => panic!("expected Open"),
    }
}

#[test]
fn jump_promotes_target() {
    let it = Iteration::new(vec![link("B")], false, return_note());
    match it.decode(ControlCode::CtrlJ, Some(link("B"))) {
        Ok(Action::Jump(l)) => assert_eq!(l.target, "B"),
        _ => panic!("expected Jump"),
    }
}

#[test]
fn return_hands_back_origin_note_without_selection() {
    let it = Iteration::new(vec![link("B")], false, return_note());
    match it.decode(ControlCode::CtrlE, None) {
        Ok(Action::Return(n)) => assert_eq!(n.matter.name, "home"),
        _ => panic!("expected Return"),
    }
}

#[test]
fn surf_missing_selection_is_an_error() {
    let it = Iteration::new(vec![link("B")], false, return_note());
    assert!(matches!(it.decode(ControlCode::Enter, None), Err(CoreError::MissingSelection)));
    let it = Iteration::new(vec![link("B")], false, return_note());
    assert!(matches!(it.decode(ControlCode::CtrlJ, None), Err(CoreError::MissingSelection)));
}

#[test]
fn surf_abort_codes_cancel() {
    let it = Iteration::new(vec![link("B")], false, return_note());
    assert!(matches!(it.decode(ControlCode::CtrlC, Some(link("B"))), Err(CoreError::Cancelled)));
    let it = Iteration::new(vec![link("B")], false, return_note());
    assert!(matches!(it.decode(ControlCode::Esc, None), Err(CoreError::Cancelled)));
}

#[test]
fn actions_describe_themselves() {
    assert_eq!(Action::Jump(link("B")).describe(), "jump : [B]");
    assert_eq!(Action::Open(link("B")).describe(), "open : [B]");
    assert_eq!(Action::Return(return_note()).describe(), "return to explore : home");
}
