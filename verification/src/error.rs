//! The errors of the services and of the engine.

use vstd::prelude::*;

verus! {

/// What a table operation can fail with.
#[derive(Debug)]
pub enum DbError {
    /// No row has the named id.
    RecordNotFound(String),
}

pub enum DbErrorView {
    RecordNotFound(Seq<char>),
}

impl View for DbError {
    type V = DbErrorView;

    open spec fn view(&self) -> DbErrorView {
        match *self {
            DbError::RecordNotFound(s) => DbErrorView::RecordNotFound(s@),
        }
    }
}

/// What an engine action can fail with.
#[derive(Debug)]
pub enum LoopError {
    /// A row that the action names does not exist.
    NotFound(String),
    /// The action does not apply in the current state; the caller may retry.
    Conflict,
    /// The issue cannot be merged in its current state; a retry does not help.
    NotMergeable,
    /// The merge could not land; carries the message for the person.
    MergeFailed(String),
    /// The folder behind the space or the worktree is gone.
    Detached,
    /// A git operation or a recorded git fact is at fault.
    Git(String),
    /// Stored or given input cannot be read.
    InvalidInput(String),
}

pub enum LoopErrorView {
    NotFound(Seq<char>),
    Conflict,
    NotMergeable,
    MergeFailed(Seq<char>),
    Detached,
    Git(Seq<char>),
    InvalidInput(Seq<char>),
}

impl View for LoopError {
    type V = LoopErrorView;

    open spec fn view(&self) -> LoopErrorView {
        match *self {
            LoopError::NotFound(s) => LoopErrorView::NotFound(s@),
            LoopError::Conflict => LoopErrorView::Conflict,
            LoopError::NotMergeable => LoopErrorView::NotMergeable,
            LoopError::MergeFailed(s) => LoopErrorView::MergeFailed(s@),
            LoopError::Detached => LoopErrorView::Detached,
            LoopError::Git(s) => LoopErrorView::Git(s@),
            LoopError::InvalidInput(s) => LoopErrorView::InvalidInput(s@),
        }
    }
}

/// A result with its error taken by its view.
pub open spec fn outcome<T>(r: Result<T, LoopError>) -> Result<T, LoopErrorView> {
    match r {
        Ok(t) => Ok(t),
        Err(e) => Err(e@),
    }
}

} // verus!
