//! Projects: their tasks file, filters and categories.

use std::collections::BTreeMap;
use std::path::PathBuf;

use vstd::prelude::*;

use crate::id::Guid;

verus! {

/// The unique identifier of a project.
#[derive(Debug, Clone, Copy, PartialEq, Eq, PartialOrd, Ord, Hash, Structural)]
pub struct ProjectGuid(pub Guid);

impl ProjectGuid {
    /// A fresh identifier.
    pub fn new() -> (g: Self) {
        ProjectGuid(Guid::new())
    }

    pub fn with_id(id: Guid) -> (g: Self)
        ensures
            g.0 == id,
    {
        ProjectGuid(id)
    }
}

/// The projects of a project file, by their identifiers, and the defaults they share.
#[derive(Debug)]
pub struct ProjectList {
    pub projects: BTreeMap<ProjectGuid, Project>,
    pub defaults: Option<DefaultOptions>,
}

/// What projects share unless they say otherwise.
#[derive(Debug)]
pub struct DefaultOptions {
    pub categories: Option<Vec<Category>>,
}

/// A category that projects can use.
#[derive(Debug)]
pub struct Category {
    pub id: Guid,
    pub name: String,
    pub description: Option<String>,
}

/// A project.
#[derive(Debug)]
pub struct Project {
    /// The name of the project.
    pub name: String,
    /// What the project is about.
    pub description: Option<String>,
    /// The file that holds the tasks of the project.
    pub tasks_file: PathBuf,
    /// Filters for the tasks of the project.
    pub filters: Option<Vec<String>>,
    /// Where the project stands below another one.
    pub subproject_options: Option<SubprojectOptions>,
}

impl Project {
    /// A project with a name and a tasks file, and nothing else set.
    pub fn new(name: String, tasks_file: PathBuf) -> (p: Self)
        ensures
            p.name == name,
            p.tasks_file == tasks_file,
            p.description is None,
            p.filters is None,
            p.subproject_options is None,
    {
        Project { name, description: None, tasks_file, filters: None, subproject_options: None }
    }
}

/// The project above a subproject.
#[derive(Debug, Clone, Copy, PartialEq, Eq)]
pub struct SubprojectOptions {
    pub parent_id: Option<Guid>,
}

} // verus!
