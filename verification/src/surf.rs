use crate::error::CoreError;
use crate::note::Note;
use vstd::prelude::*;
use vstd::string::StringExecFns;

verus! {

/// Abstract value of an in-body link.
pub struct LinkView {
    pub target: Seq<char>,
    pub display: Seq<char>,
    pub preview: Option<Seq<char>>,
}

/// A link found inside a note's body: the name of the note it points to, its
/// display form, and the preview prepared for the selector.  Links are
/// transient: they exist only for the duration of one surf iteration and are
/// never persisted; `Jump` promotes `target` into a new note lookup.
#[derive(Debug)]
pub struct Link {
    pub target: String,
    pub display: String,
    pub preview: Option<String>,
}

impl DeepView for Link {
    type V = LinkView;

    open spec fn deep_view(&self) -> LinkView {
        LinkView {
            target: self.target@,
            display: self.display@,
            preview: match self.preview {
                Some(p) => Some(p@),
                None => None,
            },
        }
    }
}

impl Clone for Link {
    fn clone(&self) -> (r: Self)
        ensures
            r.deep_view() == self.deep_view(),
    {
        Link {
            target: self.target.clone(),
            display: self.display.clone(),
            preview: match &self.preview {
                Some(p) => Some(p.clone()),
                None => None,
            },
        }
    }
}

/// The control codes a surf iteration can receive from the selector, one per
/// entry of the mode's binding table.
#[derive(Clone, Copy, Debug, PartialEq, Eq, Structural)]
pub enum ControlCode {
    Enter,
    CtrlJ,
    CtrlE,
    CtrlC,
    Esc,
}

/// The typed actions of surf mode: `Open` hands the link to an external
/// opener, `Jump` asks the orchestrator to re-enter explore rooted at the
/// link's target, and `Return` hands back the note that started this surf
/// session so the orchestrator resumes explore with no graph traversal.
#[derive(Debug)]
pub enum Action {
    Jump(Link),
    Open(Link),
    Return(Note),
}

impl Action {
    /// A short description, in place of a `Display` implementation.
    pub fn describe(&self) -> (r: String)
        ensures
            match self {
                Action::Jump(l) => r@ == "jump : "@ + l.display@,
                Action::Open(l) => r@ == "open : "@ + l.display@,
                Action::Return(n) => r@ == "return to explore : "@ + n.matter.name@,
            },
    {
        match self {
            Action::Jump(l) => String::from_str("jump : ").concat(l.display.as_str()),
            Action::Open(l) => String::from_str("open : ").concat(l.display.as_str()),
            Action::Return(n) => String::from_str("return to explore : ").concat(
                n.matter.name.as_str(),
            ),
        }
    }
}

/// One iteration of surf mode: the current note being surfed and the link
/// set extracted from its body.  The orchestrator streams the links through
/// the preview pipeline into the selector, then hands the committed control
/// code and selection to [`Iteration::decode`].
#[derive(Debug)]
pub struct Iteration {
    pub items: Vec<Link>,
    pub multi: bool,
    pub return_note: Note,
}

impl Iteration {
    /// Starts an iteration over the links of `return_note`, the note handed
    /// back when the user returns to explore.
    pub fn new(items: Vec<Link>, multi: bool, return_note: Note) -> (r: Self)
        ensures
            r.items == items,
            r.multi == multi,
            r.return_note == return_note,
    {
        Iteration { items, multi, return_note }
    }

    /// Decodes a committed control code and selection into this mode's
    /// action.  `Open` and `Jump` require exactly one selected link and a
    /// missing selection is a reported error; `Return` carries no selection
    /// requirement, it hands back the note that started this surf session;
    /// `CtrlC` and `Esc` cancel.
    pub fn decode(self, code: ControlCode, selected: Option<Link>) -> (r: Result<
        Action,
        CoreError,
    >)
        ensures
            match code {
                ControlCode::Enter => match selected {
                    Some(l) => r matches Ok(Action::Open(m)) && m.deep_view() == l.deep_view(),
                    None => r matches Err(e) && e == CoreError::MissingSelection,
                },
                ControlCode::CtrlJ => match selected {
                    Some(l) => r matches Ok(Action::Jump(m)) && m.deep_view() == l.deep_view(),
                    None => r matches Err(e) && e == CoreError::MissingSelection,
                },
                ControlCode::CtrlE => r matches Ok(Action::Return(n)) && n == self.return_note,
                ControlCode::CtrlC | ControlCode::Esc => r matches Err(e) && e
                    == CoreError::Cancelled,
            },
    {
        match code {
            ControlCode::Enter => match selected {
                Some(l) => Ok(Action::Open(l)),
                None => Err(CoreError::MissingSelection),
            },
            ControlCode::CtrlJ => match selected {
                Some(l) => Ok(Action::Jump(l)),
                None => Err(CoreError::MissingSelection),
            },
            ControlCode::CtrlE => Ok(Action::Return(self.return_note)),
            ControlCode::CtrlC | ControlCode::Esc => Err(CoreError::Cancelled),
        }
    }
}

} // verus!
