use vstd::prelude::*;

use crate::entry::{now_utc, Timestamp};
use crate::filter::clone_opt;

verus! {

/// A saved command shortcut scoped to a project or global.
#[derive(Debug)]
pub struct Shortcut {
    /// Auto-assigned by the database on insert; 0 means not yet persisted.
    pub id: i64,
    /// The alias used to invoke this shortcut.
    pub alias: String,
    /// The full command string the alias expands to.
    pub command: String,
    /// Absolute path to the project root this shortcut belongs to.
    pub project_dir: String,
    /// Git repo root, if the project is inside a git repository.
    pub git_repo: Option<String>,
    /// Whether this shortcut is available across all projects.
    pub is_global: bool,
    /// UTC timestamp when the shortcut was created.
    pub created_at: Timestamp,
}

impl Shortcut {
    /// A new, not yet persisted shortcut created now.
    pub fn new(
        alias: String,
        command: String,
        project_dir: String,
        git_repo: Option<String>,
        is_global: bool,
    ) -> (s: Shortcut)
        ensures
            s.id == 0,
            s.alias == alias,
            s.command == command,
            s.project_dir == project_dir,
            s.git_repo == git_repo,
            s.is_global == is_global,
    {
        Shortcut {
            id: 0,
            alias,
            command,
            project_dir,
            git_repo,
            is_global,
            created_at: now_utc(),
        }
    }

    /// Returns true if this shortcut applies to all projects.
    pub fn global(&self) -> (r: bool)
        ensures
            r == self.is_global,
    {
        self.is_global
    }

    /// A field-by-field copy of the shortcut.
    pub fn duplicate(&self) -> (s: Shortcut)
        ensures
            s == *self,
    {
        Shortcut {
            id: self.id,
            alias: self.alias.clone(),
            command: self.command.clone(),
            project_dir: self.project_dir.clone(),
            git_repo: clone_opt(&self.git_repo),
            is_global: self.is_global,
            created_at: self.created_at,
        }
    }

    /// The same shortcut carrying the id the database assigned to it.
    pub fn with_id(&self, id: i64) -> (s: Shortcut)
        ensures
            s == (Shortcut { id, ..*self }),
    {
        let mut s = self.duplicate();
        s.id = id;
        s
    }
}

} // verus!
