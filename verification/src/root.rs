//! The root component's decision logic: which context is active, whether
//! the logger pane shows, and how global key presses map to actions.  The
//! shell performs the actions and routes what this component does not
//! decide itself.

use vstd::prelude::*;

use crate::action::{Action, Key};

verus! {

/// The input context the root component is in.
#[derive(Clone, Copy, Debug, PartialEq, Eq, Structural)]
pub enum Context {
    Home,
    Search,
}

/// The root component: global UI state above the page.
pub struct Root {
    pub show_logger: bool,
    pub context: Context,
}

impl Root {
    /// A fresh root: home context, logger hidden.
    pub fn new() -> (r: Root)
        ensures
            r.show_logger == false,
            r.context == Context::Home,
    {
        Root { show_logger: false, context: Context::Home }
    }

    /// What a global key press maps to: `Some` for an action this
    /// component decides, `None` where the active context's own component
    /// must handle the key.
    pub open spec fn spec_handle_key(&self, key: Key) -> Option<Action> {
        match key {
            Key::Char('l') => Some(Action::ToggleShowLogger),
            Key::Char('q') => Some(Action::Quit),
            _ => match self.context {
                Context::Home => match key {
                    Key::Char('s') => Some(Action::EnterContext(Context::Search)),
                    _ => Some(Action::Noop),
                },
                Context::Search => None,
            },
        }
    }

    /// Maps a global key press to an action; `None` hands the key to the
    /// active context's component.
    pub fn handle_key_events(&self, key: Key) -> (r: Option<Action>)
        ensures
            r == self.spec_handle_key(key),
    {
        match key {
            Key::Char('l') => Some(Action::ToggleShowLogger),
            Key::Char('q') => Some(Action::Quit),
            _ => match self.context {
                Context::Home => match key {
                    Key::Char('s') => Some(Action::EnterContext(Context::Search)),
                    _ => Some(Action::Noop),
                },
                Context::Search => None,
            },
        }
    }

    /// Applies a global action to the root's own state.  Returns whether
    /// the action was handled here; an unhandled action is the active
    /// context's to deal with, and leaves this state untouched.
    pub fn dispatch(&mut self, action: &Action) -> (handled: bool)
        ensures
            match action {
                Action::ToggleShowLogger => handled
                    && final(self).show_logger == !old(self).show_logger
                    && final(self).context == old(self).context,
                Action::EnterContext(c) => handled && final(self).context == *c
                    && final(self).show_logger == old(self).show_logger,
                _ => !handled && *final(self) == *old(self),
            },
    {
        match action {
            Action::ToggleShowLogger => {
                self.show_logger = !self.show_logger;
                true
            },
            Action::EnterContext(c) => {
                self.context = *c;
                true
            },
            _ => false,
        }
    }
}

} // verus!
