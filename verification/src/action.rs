//! The discrete input-event and action model: key events come in, actions
//! and action results go out to the surrounding shell.  Every value is
//! plain data; the ghost views let contracts speak of the carried text.

use vstd::prelude::*;

use crate::document::Link;
use crate::layout::Renderer;

verus! {

/// The mathematical value of a `Link`.
pub enum LinkV {
    Internal { page: Seq<char> },
    Anchor { anchor: Seq<char> },
    External { url: Seq<char> },
    RedLink { title: Seq<char> },
    Media { url: Seq<char> },
}

impl View for Link {
    type V = LinkV;

    open spec fn view(&self) -> LinkV {
        match self {
            Link::Internal { page } => LinkV::Internal { page: page@ },
            Link::Anchor { anchor } => LinkV::Anchor { anchor: anchor@ },
            Link::External { url } => LinkV::External { url: url@ },
            Link::RedLink { title } => LinkV::RedLink { title: title@ },
            Link::Media { url } => LinkV::Media { url: url@ },
        }
    }
}

/// A decoded key press, with the modifiers that matter to this core.
#[derive(Clone, Copy, Debug, PartialEq, Eq, Structural)]
pub enum Key {
    Char(char),
    Up,
    Down,
    Left,
    Right,
    Tab,
    BackTab,
    Enter,
    Other,
}

/// A navigation command aimed at the page component.
#[derive(Clone, Debug, PartialEq, Eq)]
pub enum PageAction {
    SwitchRenderer(Renderer),
    ToggleContents,
    SelectFirstLink,
    SelectLastLink,
    SelectTopLink,
    SelectBottomLink,
    SelectPrevLink,
    SelectNextLink,
    GoToHeader(String),
}

/// The mathematical value of a `PageAction`.
pub enum PageActionV {
    SwitchRenderer(Renderer),
    ToggleContents,
    SelectFirstLink,
    SelectLastLink,
    SelectTopLink,
    SelectBottomLink,
    SelectPrevLink,
    SelectNextLink,
    GoToHeader(Seq<char>),
}

impl View for PageAction {
    type V = PageActionV;

    open spec fn view(&self) -> PageActionV {
        match self {
            PageAction::SwitchRenderer(r) => PageActionV::SwitchRenderer(*r),
            PageAction::ToggleContents => PageActionV::ToggleContents,
            PageAction::SelectFirstLink => PageActionV::SelectFirstLink,
            PageAction::SelectLastLink => PageActionV::SelectLastLink,
            PageAction::SelectTopLink => PageActionV::SelectTopLink,
            PageAction::SelectBottomLink => PageActionV::SelectBottomLink,
            PageAction::SelectPrevLink => PageActionV::SelectPrevLink,
            PageAction::SelectNextLink => PageActionV::SelectNextLink,
            PageAction::GoToHeader(a) => PageActionV::GoToHeader(a@),
        }
    }
}

/// An action the core asks the shell, or itself, to perform.
#[derive(Clone, Debug, PartialEq, Eq)]
pub enum Action {
    Page(PageAction),
    ScrollUp(usize),
    ScrollDown(usize),
    ScrollHalfUp,
    ScrollHalfDown,
    ScrollToTop,
    ScrollToBottom,
    Resize(u16, usize),
    PopupMessage { title: String, body: String },
    PopupDialog { title: String, body: String, link: Link },
    LoadLink(Link),
    ToggleShowLogger,
    EnterContext(crate::root::Context),
    Quit,
    Noop,
}

/// The mathematical value of an `Action`.
pub enum ActionV {
    Page(PageActionV),
    ScrollUp(nat),
    ScrollDown(nat),
    ScrollHalfUp,
    ScrollHalfDown,
    ScrollToTop,
    ScrollToBottom,
    Resize(nat, nat),
    PopupMessage { title: Seq<char>, body: Seq<char> },
    PopupDialog { title: Seq<char>, body: Seq<char>, link: LinkV },
    LoadLink(LinkV),
    ToggleShowLogger,
    EnterContext(crate::root::Context),
    Quit,
    Noop,
}

impl View for Action {
    type V = ActionV;

    open spec fn view(&self) -> ActionV {
        match self {
            Action::Page(p) => ActionV::Page(p@),
            Action::ScrollUp(n) => ActionV::ScrollUp(*n as nat),
            Action::ScrollDown(n) => ActionV::ScrollDown(*n as nat),
            Action::ScrollHalfUp => ActionV::ScrollHalfUp,
            Action::ScrollHalfDown => ActionV::ScrollHalfDown,
            Action::ScrollToTop => ActionV::ScrollToTop,
            Action::ScrollToBottom => ActionV::ScrollToBottom,
            Action::Resize(w, h) => ActionV::Resize(*w as nat, *h as nat),
            Action::PopupMessage { title, body } => ActionV::PopupMessage {
                title: title@,
                body: body@,
            },
            Action::PopupDialog { title, body, link } => ActionV::PopupDialog {
                title: title@,
                body: body@,
                link: link@,
            },
            Action::LoadLink(l) => ActionV::LoadLink(l@),
            Action::ToggleShowLogger => ActionV::ToggleShowLogger,
            Action::EnterContext(c) => ActionV::EnterContext(*c),
            Action::Quit => ActionV::Quit,
            Action::Noop => ActionV::Noop,
        }
    }
}

/// The view of an action list.
pub open spec fn actions_view(v: Seq<Action>) -> Seq<ActionV> {
    Seq::new(v.len(), |i: int| v[i]@)
}

/// What handling an event came to: ignored, consumed silently, consumed
/// with one action for the shell, or with a packet of several.
#[derive(Clone, Debug, PartialEq, Eq)]
pub enum ActionResult {
    Ignored,
    Consumed,
    Act(Action),
    Packet(Vec<Action>),
}

/// The mathematical value of an `ActionResult`.
pub enum ActionResultV {
    Ignored,
    Consumed,
    Act(ActionV),
    Packet(Seq<ActionV>),
}

impl View for ActionResult {
    type V = ActionResultV;

    open spec fn view(&self) -> ActionResultV {
        match self {
            ActionResult::Ignored => ActionResultV::Ignored,
            ActionResult::Consumed => ActionResultV::Consumed,
            ActionResult::Act(a) => ActionResultV::Act(a@),
            ActionResult::Packet(v) => ActionResultV::Packet(actions_view(v@)),
        }
    }
}

} // verus!
