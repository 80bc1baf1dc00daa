//! Whether a command applies its changes or only previews them, and how a
//! previewed change is described.

use vstd::prelude::*;

verus! {

broadcast use vstd::string::group_string_axioms;

/// Whether changes are made or only shown.
#[derive(Clone, Copy, Debug, PartialEq, Eq, Structural)]
pub enum ExecutionMode {
    Apply,
    DryRun,
}

impl ExecutionMode {
    pub fn is_dry_run(self) -> (r: bool)
        ensures
            r == (self == ExecutionMode::DryRun),
    {
        match self {
            ExecutionMode::DryRun => true,
            ExecutionMode::Apply => false,
        }
    }
}

/// A change that a dry run would make, with the path it would touch, as shown to the user.
#[derive(Clone, Debug, PartialEq, Eq)]
pub enum PreviewChange {
    Create(String),
    Write(String),
    Remove(String),
    Relay(String),
    PersistLocalConfig(String),
}

pub enum PreviewView {
    Create(Seq<char>),
    Write(Seq<char>),
    Remove(Seq<char>),
    Relay(Seq<char>),
    PersistLocalConfig(Seq<char>),
}

impl View for PreviewChange {
    type V = PreviewView;

    open spec fn view(&self) -> PreviewView {
        match self {
            PreviewChange::Create(p) => PreviewView::Create(p@),
            PreviewChange::Write(p) => PreviewView::Write(p@),
            PreviewChange::Remove(p) => PreviewView::Remove(p@),
            PreviewChange::Relay(p) => PreviewView::Relay(p@),
            PreviewChange::PersistLocalConfig(p) => PreviewView::PersistLocalConfig(p@),
        }
    }
}

/// The sentence that describes a previewed change.
pub open spec fn describe_spec(c: PreviewView) -> Seq<char> {
    match c {
        PreviewView::Create(p) => "would create "@ + p,
        PreviewView::Write(p) => "would write "@ + p,
        PreviewView::Remove(p) => "would remove "@ + p,
        PreviewView::Relay(p) => "would relay "@ + p,
        PreviewView::PersistLocalConfig(p) => "would persist local config "@ + p,
    }
}

impl PreviewChange {
    pub fn describe(&self) -> (r: String)
        ensures
            r@ == describe_spec(self@),
    {
        let (mut s, p) = match self {
            PreviewChange::Create(p) => ("would create ".to_string(), p),
            PreviewChange::Write(p) => ("would write ".to_string(), p),
            PreviewChange::Remove(p) => ("would remove ".to_string(), p),
            PreviewChange::Relay(p) => ("would relay ".to_string(), p),
            PreviewChange::PersistLocalConfig(p) => ("would persist local config ".to_string(), p),
        };
        s.push_str(p.as_str());
        s
    }
}

} // verus!
