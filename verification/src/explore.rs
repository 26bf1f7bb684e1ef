use crate::error::CoreError;
use crate::note::Note;
use crate::note::NoteView;
use vstd::prelude::*;

verus! {

/// The control codes an explore iteration can receive from the selector,
/// one per entry of the mode's binding table.
#[derive(Clone, Copy, Debug, PartialEq, Eq, Structural)]
pub enum ControlCode {
    Enter,
    CtrlC,
    Esc,
    CtrlH,
    CtrlL,
    CtrlT,
    CtrlW,
    AltR,
    AltL,
    AltU,
}

/// The typed actions of explore mode, decoded from a control code plus the
/// committed selection.
#[derive(Debug)]
pub enum Action {
    Open(Note),
    Link(Note),
    Unlink(Note),
    Back,
    Forward,
    Widen,
    Rename(Note),
    TogglePreview,
}

/// The result of one explore iteration: the decoded action and the working
/// set the orchestrator continues with.
#[derive(Debug)]
pub struct Out {
    pub action: Action,
    pub next_items: Vec<Note>,
}

/// What an explore iteration asks of its orchestrator after decoding: either
/// the iteration is already resolved, or a graph query on the selected note
/// is owed before [`Iteration::resolve_back`] or
/// [`Iteration::resolve_forward`] can conclude it.
#[derive(Debug)]
pub enum Step {
    Resolved(Out),
    FetchBacklinks(Note),
    FetchForwardLinks(Note),
}

/// The preview rendering mode of the selector; `TogglePreview` asks the
/// orchestrator to flip it for the next iteration.
#[derive(Clone, Copy, Debug, PartialEq, Eq, Structural)]
pub enum PreviewType {
    Plain,
    Rendered,
}

impl PreviewType {
    /// The other rendering mode.
    pub fn toggle(self) -> (r: PreviewType)
        ensures
            self == PreviewType::Plain ==> r == PreviewType::Rendered,
            self == PreviewType::Rendered ==> r == PreviewType::Plain,
    {
        match self {
            PreviewType::Plain => PreviewType::Rendered,
            PreviewType::Rendered => PreviewType::Plain,
        }
    }
}

/// One iteration of explore mode over the current working set of notes.
/// The orchestrator streams the working set through the preview pipeline
/// into the selector, then hands the committed control code and selection to
/// [`Iteration::decode`].
#[derive(Debug)]
pub struct Iteration {
    pub items: Vec<Note>,
}

impl Iteration {
    /// Starts an iteration over `items`, the unrestricted working set that
    /// `Back` falls back to.
    pub fn new(items: Vec<Note>) -> (r: Self)
        ensures
            r.items == items,
    {
        Iteration { items }
    }

    /// Decodes a committed control code and selection into this mode's next
    /// step.  Every action but `Widen` and the aborts requires exactly one
    /// selected note; a missing selection is a reported error, not a silent
    /// no-op.  `Enter` opens the selection and narrows the working set to
    /// it; `CtrlH` and `CtrlL` owe a backlink or forward-link query;
    /// `CtrlT` keeps the selection and asks for a preview flip; `CtrlW`
    /// widens, returning the empty set as the signal to refetch the full
    /// note list; `AltR`, `AltL` and `AltU` hand the selection back for
    /// renaming, linking or unlinking; `CtrlC` and `Esc` cancel.
    pub fn decode(&self, code: ControlCode, selected: Option<Note>) -> (r: Result<
        Step,
        CoreError,
    >)
        ensures
            match code {
                ControlCode::Enter => match selected {
                    Some(n) => r matches Ok(Step::Resolved(out)) && out.action matches Action::Open(
                        m,
                    ) && m.deep_view() == n.deep_view() && out.next_items.deep_view() =~= seq![
                        n.deep_view(),
                    ],
                    None => r matches Err(e) && e == CoreError::MissingSelection,
                },
                ControlCode::CtrlC | ControlCode::Esc => r matches Err(e) && e
                    == CoreError::Cancelled,
                ControlCode::CtrlH => match selected {
                    Some(n) => r matches Ok(Step::FetchBacklinks(m)) && m.deep_view()
                        == n.deep_view(),
                    None => r matches Err(e) && e == CoreError::MissingSelection,
                },
                ControlCode::CtrlL => match selected {
                    Some(n) => r matches Ok(Step::FetchForwardLinks(m)) && m.deep_view()
                        == n.deep_view(),
                    None => r matches Err(e) && e == CoreError::MissingSelection,
                },
                ControlCode::CtrlT => match selected {
                    Some(n) => r matches Ok(Step::Resolved(out)) && out.action
                        matches Action::TogglePreview && out.next_items.deep_view() =~= seq![
                        n.deep_view(),
                    ],
                    None => r matches Err(e) && e == CoreError::MissingSelection,
                },
                ControlCode::CtrlW => r matches Ok(Step::Resolved(out)) && out.action
                    matches Action::Widen && out.next_items.deep_view() =~= Seq::<
                    NoteView,
                >::empty(),
                ControlCode::AltR => match selected {
                    Some(n) => r matches Ok(Step::Resolved(out)) && out.action
                        matches Action::Rename(m) && m.deep_view() == n.deep_view()
                        && out.next_items.deep_view() =~= Seq::<NoteView>::empty(),
                    None => r matches Err(e) && e == CoreError::MissingSelection,
                },
                ControlCode::AltL => match selected {
                    Some(n) => r matches Ok(Step::Resolved(out)) && out.action matches Action::Link(
                        m,
                    ) && m.deep_view() == n.deep_view() && out.next_items.deep_view() =~= Seq::<
                        NoteView,
                    >::empty(),
                    None => r matches Err(e) && e == CoreError::MissingSelection,
                },
                ControlCode::AltU => match selected {
                    Some(n) => r matches Ok(Step::Resolved(out)) && out.action
                        matches Action::Unlink(m) && m.deep_view() == n.deep_view()
                        && out.next_items.deep_view() =~= Seq::<NoteView>::empty(),
                    None => r matches Err(e) && e == CoreError::MissingSelection,
                },
            },
    {
        match code {
            ControlCode::Enter => match selected {
                Some(n) => {
                    let item = n.clone();
                    Ok(Step::Resolved(Out { action: Action::Open(n), next_items: vec![item] }))
                },
                None => Err(CoreError::MissingSelection),
            },
            ControlCode::CtrlC | ControlCode::Esc => Err(CoreError::Cancelled),
            ControlCode::CtrlH => match selected {
                Some(n) => Ok(Step::FetchBacklinks(n)),
                None => Err(CoreError::MissingSelection),
            },
            ControlCode::CtrlL => match selected {
                Some(n) => Ok(Step::FetchForwardLinks(n)),
                None => Err(CoreError::MissingSelection),
            },
            ControlCode::CtrlT => match selected {
                Some(n) => Ok(
                    Step::Resolved(Out { action: Action::TogglePreview, next_items: vec![n] }),
                ),
                None => Err(CoreError::MissingSelection),
            },
            ControlCode::CtrlW => Ok(
                Step::Resolved(Out { action: Action::Widen, next_items: Vec::new() }),
            ),
            ControlCode::AltR => match selected {
                Some(n) => Ok(
                    Step::Resolved(Out { action: Action::Rename(n), next_items: Vec::new() }),
                ),
                None => Err(CoreError::MissingSelection),
            },
            ControlCode::AltL => match selected {
                Some(n) => Ok(Step::Resolved(Out { action: Action::Link(n), next_items: Vec::new() })),
                None => Err(CoreError::MissingSelection),
            },
            ControlCode::AltU => match selected {
                Some(n) => Ok(
                    Step::Resolved(Out { action: Action::Unlink(n), next_items: Vec::new() }),
                ),
                None => Err(CoreError::MissingSelection),
            },
        }
    }

    /// Concludes a `Back` step from the backlinks that storage returned for
    /// the selected note.  A note with zero backlinks falls back to the
    /// original unrestricted working set of this iteration, never to an
    /// empty one.
    pub fn resolve_back(self, fetched: Vec<Note>) -> (out: Out)
        ensures
            out.action matches Action::Back,
            fetched@.len() == 0 ==> out.next_items == self.items,
            fetched@.len() > 0 ==> out.next_items == fetched,
    {
        if fetched.is_empty() {
            Out { action: Action::Back, next_items: self.items }
        } else {
            Out { action: Action::Back, next_items: fetched }
        }
    }

    /// Concludes a `Forward` step from the forward links that storage
    /// returned for the selected note.  A note with zero forward links
    /// falls back to the singleton holding exactly that note, so `Forward`
    /// always makes progress onto at least the current note.
    pub fn resolve_forward(selected: Note, fetched: Vec<Note>) -> (out: Out)
        ensures
            out.action matches Action::Forward,
            fetched@.len() == 0 ==> out.next_items@.len() == 1 && out.next_items@[0] == selected,
            fetched@.len() > 0 ==> out.next_items == fetched,
    {
        if fetched.is_empty() {
            Out { action: Action::Forward, next_items: vec![selected] }
        } else {
            Out { action: Action::Forward, next_items: fetched }
        }
    }
}

} // verus!
