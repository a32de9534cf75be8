//! The panes the window is split into.
use vstd::prelude::*;

verus! {

/// The two sides of the window.
#[derive(Debug, Clone, Copy, PartialEq, Eq, Structural)]
pub enum PaneContent {
    Sidebar,
    Workspace,
}

/// The two halves of the workspace side: the request being built, and its response.
#[derive(Debug, Clone, Copy, PartialEq, Eq, Structural)]
pub enum WorkspacePane {
    Builder,
    Response,
}

/// The two parts of the request builder: the form, and the body editor.
#[derive(Debug, Clone, Copy, PartialEq, Eq, Structural)]
pub enum BuilderPane {
    Form,
    Body,
}

} // verus!
