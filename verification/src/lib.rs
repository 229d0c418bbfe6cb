//! Core of a terminal wiki reader: an indexed document tree, a word-wrapping
//! layout engine with a per-width render cache, a link-selection controller,
//! a viewport controller, and the policy that keeps selection and viewport
//! in sync.

pub mod action;
pub mod cache;
pub mod document;
pub mod laws;
pub mod layout;
pub mod page;
pub mod root;
pub mod style;
pub mod toc;
