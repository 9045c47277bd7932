//! Naming a repository on the hosting service.

use crate::path::same_text;
use vstd::prelude::*;

verus! {

/// What a repository holds.
#[derive(Clone, Copy, Debug, PartialEq, Eq, Structural)]
pub enum RepoKind {
    Model,
    Dataset,
    Space,
}

/// The kind that `name` spells, if it spells one.
pub open spec fn kind_named(name: Seq<char>) -> Option<RepoKind> {
    if name == "model"@ {
        Some(RepoKind::Model)
    } else if name == "dataset"@ {
        Some(RepoKind::Dataset)
    } else if name == "space"@ {
        Some(RepoKind::Space)
    } else {
        None
    }
}

/// The kind that is meant where none is given.
pub open spec fn kind_or_default(kind: Option<RepoKind>) -> RepoKind {
    match kind {
        Some(kind) => kind,
        None => RepoKind::Model,
    }
}

impl RepoKind {
    /// Reads a kind from its lower-case name: `model`, `dataset` or `space`.
    pub fn parse(name: &str) -> (r: Option<RepoKind>)
        ensures
            r == kind_named(name@),
    {
        if same_text(name, "model") {
            Some(RepoKind::Model)
        } else if same_text(name, "dataset") {
            Some(RepoKind::Dataset)
        } else if same_text(name, "space") {
            Some(RepoKind::Space)
        } else {
            None
        }
    }

    /// The given kind, or `Model` where none is given.
    pub fn or_default(kind: Option<RepoKind>) -> (r: RepoKind)
        ensures
            r == kind_or_default(kind),
    {
        match kind {
            Some(kind) => kind,
            None => RepoKind::Model,
        }
    }
}

/// A repository: its name and its kind, as plain values.
pub struct RepoView {
    pub name: Seq<char>,
    pub kind: RepoKind,
}

/// Names one repository. Once made it does not change.
#[derive(Debug, PartialEq, Eq)]
pub struct RepositoryRef {
    name: String,
    kind: RepoKind,
}

impl View for RepositoryRef {
    type V = RepoView;

    closed spec fn view(&self) -> RepoView {
        RepoView { name: self.name@, kind: self.kind }
    }
}

impl Clone for RepositoryRef {
    fn clone(&self) -> (r: Self)
        ensures
            r@ == self@,
    {
        RepositoryRef { name: self.name.clone(), kind: self.kind }
    }
}

impl RepositoryRef {
    /// The repository called `name`, of the given kind, or a model where no
    /// kind is given.
    pub fn new(name: String, kind: Option<RepoKind>) -> (r: RepositoryRef)
        ensures
            r@ == (RepoView { name: name@, kind: kind_or_default(kind) }),
    {
        RepositoryRef { name, kind: RepoKind::or_default(kind) }
    }

    pub fn name(&self) -> (r: &str)
        ensures
            r@ == self@.name,
    {
        self.name.as_str()
    }

    pub fn kind(&self) -> (r: RepoKind)
        ensures
            r == self@.kind,
    {
        self.kind
    }
}

} // verus!
