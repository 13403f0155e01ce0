//! The checks on the directory that a terminal is started in.

use vstd::prelude::*;

use crate::text::{join, trimmed};

verus! {

/// What was found out about a requested directory.
#[derive(Debug)]
pub enum WorkdirEvent {
    /// The directory was asked for.
    Requested,
    /// Its path was expanded.
    Expanded { absolute: bool },
    /// Its metadata was read; none where that failed.
    Inspected { is_dir: Option<bool> },
    /// Its path was made canonical.
    Canonicalized(Result<String, String>),
}

/// What is to be done about a requested directory.
#[derive(Debug)]
pub enum WorkdirAction {
    /// Expand this path.
    Expand(String),
    /// Read the metadata of the expanded path.
    Inspect,
    /// Make the expanded path canonical.
    Canonicalize,
    /// Use this path.
    Accept(String),
    /// Refuse the request with this message.
    Refuse(String),
}

/// The view of a [`WorkdirEvent`].
pub enum WorkdirEventView {
    Requested,
    Expanded { absolute: bool },
    Inspected { is_dir: Option<bool> },
    Canonicalized(Result<Seq<char>, Seq<char>>),
}

/// The view of a [`WorkdirAction`].
pub enum WorkdirActionView {
    Expand(Seq<char>),
    Inspect,
    Canonicalize,
    Accept(Seq<char>),
    Refuse(Seq<char>),
}

impl View for WorkdirEvent {
    type V = WorkdirEventView;

    open spec fn view(&self) -> WorkdirEventView {
        match self {
            WorkdirEvent::Requested => WorkdirEventView::Requested,
            WorkdirEvent::Expanded { absolute } => WorkdirEventView::Expanded {
                absolute: *absolute,
            },
            WorkdirEvent::Inspected { is_dir } => WorkdirEventView::Inspected { is_dir: *is_dir },
            WorkdirEvent::Canonicalized(Ok(path)) => WorkdirEventView::Canonicalized(Ok(path@)),
            WorkdirEvent::Canonicalized(Err(e)) => WorkdirEventView::Canonicalized(Err(e@)),
        }
    }
}

impl View for WorkdirAction {
    type V = WorkdirActionView;

    open spec fn view(&self) -> WorkdirActionView {
        match self {
            WorkdirAction::Expand(path) => WorkdirActionView::Expand(path@),
            WorkdirAction::Inspect => WorkdirActionView::Inspect,
            WorkdirAction::Canonicalize => WorkdirActionView::Canonicalize,
            WorkdirAction::Accept(path) => WorkdirActionView::Accept(path@),
            WorkdirAction::Refuse(message) => WorkdirActionView::Refuse(message@),
        }
    }
}

/// What follows from an event for the request `workdir`.
pub open spec fn workdir_action(workdir: Seq<char>, event: WorkdirEventView) -> WorkdirActionView {
    match event {
        WorkdirEventView::Requested => if trimmed(workdir).len() == 0 {
            WorkdirActionView::Refuse("workdir is required"@)
        } else {
            WorkdirActionView::Expand(trimmed(workdir))
        },
        WorkdirEventView::Expanded { absolute } => if absolute {
            WorkdirActionView::Inspect
        } else {
            WorkdirActionView::Refuse("workdir must be absolute: "@ + workdir)
        },
        WorkdirEventView::Inspected { is_dir } => match is_dir {
            None => WorkdirActionView::Refuse("workdir does not exist: "@ + workdir),
            Some(false) => WorkdirActionView::Refuse("workdir must be a directory: "@ + workdir),
            Some(true) => WorkdirActionView::Canonicalize,
        },
        WorkdirEventView::Canonicalized(outcome) => match outcome {
            Ok(path) => WorkdirActionView::Accept(path),
            Err(error) => WorkdirActionView::Refuse("failed to canonicalize workdir: "@ + error),
        },
    }
}

/// The outcome of a request for a directory: the canonical path, or the first
/// refusal that applies. `absolute` tells of the expanded path, `is_dir` of its
/// metadata, and `canonical` of making it canonical.
pub open spec fn checked_workdir(
    workdir: Seq<char>,
    absolute: bool,
    is_dir: Option<bool>,
    canonical: Result<Seq<char>, Seq<char>>,
) -> Result<Seq<char>, Seq<char>> {
    if trimmed(workdir).len() == 0 {
        Err("workdir is required"@)
    } else if !absolute {
        Err("workdir must be absolute: "@ + workdir)
    } else if is_dir is None {
        Err("workdir does not exist: "@ + workdir)
    } else if is_dir == Some(false) {
        Err("workdir must be a directory: "@ + workdir)
    } else if canonical is Err {
        Err("failed to canonicalize workdir: "@ + canonical->Err_0)
    } else {
        Ok(canonical->Ok_0)
    }
}

/// The questions about a directory that are still open after an event.
pub open spec fn open_questions(event: WorkdirEventView) -> nat {
    match event {
        WorkdirEventView::Requested => 3,
        WorkdirEventView::Expanded { .. } => 2,
        WorkdirEventView::Inspected { .. } => 1,
        WorkdirEventView::Canonicalized(_) => 0,
    }
}

/// What a request for a directory comes to after an event, where each action is
/// carried out and its event handed back until the request is accepted or
/// refused.
pub open spec fn followed_workdir(
    workdir: Seq<char>,
    event: WorkdirEventView,
    absolute: bool,
    is_dir: Option<bool>,
    canonical: Result<Seq<char>, Seq<char>>,
) -> Result<Seq<char>, Seq<char>>
    decreases open_questions(event),
{
    match workdir_action(workdir, event) {
        WorkdirActionView::Expand(_) => followed_workdir(
            workdir,
            WorkdirEventView::Expanded { absolute },
            absolute,
            is_dir,
            canonical,
        ),
        WorkdirActionView::Inspect => followed_workdir(
            workdir,
            WorkdirEventView::Inspected { is_dir },
            absolute,
            is_dir,
            canonical,
        ),
        WorkdirActionView::Canonicalize => followed_workdir(
            workdir,
            WorkdirEventView::Canonicalized(canonical),
            absolute,
            is_dir,
            canonical,
        ),
        WorkdirActionView::Accept(path) => Ok(path),
        WorkdirActionView::Refuse(message) => Err(message),
    }
}

/// The view of the outcome of a request for a directory.
pub open spec fn workdir_result(r: Result<String, String>) -> Result<Seq<char>, Seq<char>> {
    match r {
        Ok(path) => Ok(path@),
        Err(message) => Err(message@),
    }
}

/// Decides what to do next about the requested directory `workdir`.
pub fn canonicalize_workdir(workdir: &str, event: WorkdirEvent) -> (r: WorkdirAction)
    ensures
        r@ == workdir_action(workdir@, event@),
{
    match event {
        WorkdirEvent::Requested => {
            let raw = workdir.trim();
            if raw.is_empty() {
                WorkdirAction::Refuse("workdir is required".to_owned())
            } else {
                WorkdirAction::Expand(raw.to_owned())
            }
        },
        WorkdirEvent::Expanded { absolute } => {
            if absolute {
                WorkdirAction::Inspect
            } else {
                WorkdirAction::Refuse(join("workdir must be absolute: ", workdir))
            }
        },
        WorkdirEvent::Inspected { is_dir } => match is_dir {
            None => WorkdirAction::Refuse(join("workdir does not exist: ", workdir)),
            Some(is_dir) => {
                if is_dir {
                    WorkdirAction::Canonicalize
                } else {
                    WorkdirAction::Refuse(join("workdir must be a directory: ", workdir))
                }
            },
        },
        WorkdirEvent::Canonicalized(outcome) => match outcome {
            Ok(path) => WorkdirAction::Accept(path),
            Err(error) => WorkdirAction::Refuse(
                join("failed to canonicalize workdir: ", error.as_str()),
            ),
        },
    }
}

} // verus!
