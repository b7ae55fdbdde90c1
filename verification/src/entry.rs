use vstd::prelude::*;

use crate::filter::clone_opt;
use crate::records::rfc3339_of;

verus! {

/// A UTC instant: whole seconds since the Unix epoch and the nanoseconds
/// within that second.
#[derive(Debug, Clone, Copy, PartialEq, Eq, Structural)]
pub struct Timestamp {
    pub secs: i64,
    pub nanos: u32,
}

/// The current time.
///
/// Trusted: reads the system clock through `chrono::Utc::now`. Which instant
/// comes back is not stated. `Utc::now` builds its value with
/// `DateTime::from_timestamp` from the clock's whole seconds and sub-second
/// nanoseconds (below a billion), and chrono documents that
/// `from_timestamp(timestamp(), timestamp_subsec_nanos())` gives the same
/// value back; so the instant has fewer than a billion nanoseconds and
/// chrono writes it as RFC 3339 text.
#[verifier::external_body]
pub fn now_utc() -> (t: Timestamp)
    ensures
        t.nanos < 1_000_000_000,
        rfc3339_of(t.secs, t.nanos) is Some,
{
    let now = chrono::Utc::now();
    Timestamp { secs: now.timestamp(), nanos: now.timestamp_subsec_nanos() }
}

/// A single recorded command entry.
#[derive(Debug)]
pub struct Entry {
    /// Auto-assigned by the database on insert; 0 means not yet persisted.
    pub id: i64,
    /// The raw command string as typed.
    pub command: String,
    /// Absolute path of the working directory at the time of execution.
    pub cwd: String,
    /// The project root the command is scoped to.
    pub project_cwd: String,
    /// Git repo root if cwd is inside a git repository.
    pub git_repo: Option<String>,
    /// Active git branch at time of execution.
    pub git_branch: Option<String>,
    /// Exit code. None means the command is still running (wrapper mode).
    pub exit_code: Option<i32>,
    /// Wall-clock duration in milliseconds. None until command completes.
    pub duration_ms: Option<i64>,
    /// UTC timestamp when the command started.
    pub started_at: Timestamp,
    /// Whether the entry has been soft-deleted.
    pub deleted: bool,
    /// When the entry was soft-deleted.
    pub deleted_at: Option<Timestamp>,
}

impl Entry {
    /// A new, not yet persisted entry that started now.
    pub fn new(
        command: String,
        cwd: String,
        project_cwd: String,
        git_repo: Option<String>,
        git_branch: Option<String>,
    ) -> (e: Entry)
        ensures
            e.id == 0,
            e.command == command,
            e.cwd == cwd,
            e.project_cwd == project_cwd,
            e.git_repo == git_repo,
            e.git_branch == git_branch,
            e.exit_code.is_none(),
            e.duration_ms.is_none(),
            !e.deleted,
            e.deleted_at.is_none(),
    {
        Entry {
            id: 0,
            command,
            cwd,
            project_cwd,
            git_repo,
            git_branch,
            exit_code: None,
            duration_ms: None,
            started_at: now_utc(),
            deleted: false,
            deleted_at: None,
        }
    }

    /// Returns true if this entry succeeded (exit code 0).
    pub fn succeeded(&self) -> (r: bool)
        ensures
            r == (self.exit_code == Some(0i32)),
    {
        match self.exit_code {
            Some(code) => code == 0,
            None => false,
        }
    }

    /// Returns true if this entry is complete (has exit code).
    pub fn is_complete(&self) -> (r: bool)
        ensures
            r == self.exit_code.is_some(),
    {
        self.exit_code.is_some()
    }

    /// A field-by-field copy of the entry.
    pub fn duplicate(&self) -> (e: Entry)
        ensures
            e == *self,
    {
        Entry {
            id: self.id,
            command: self.command.clone(),
            cwd: self.cwd.clone(),
            project_cwd: self.project_cwd.clone(),
            git_repo: clone_opt(&self.git_repo),
            git_branch: clone_opt(&self.git_branch),
            exit_code: self.exit_code,
            duration_ms: self.duration_ms,
            started_at: self.started_at,
            deleted: self.deleted,
            deleted_at: self.deleted_at,
        }
    }

    /// The same entry carrying the id the database assigned to it.
    pub fn with_id(&self, id: i64) -> (e: Entry)
        ensures
            e == (Entry { id, ..*self }),
    {
        let mut e = self.duplicate();
        e.id = id;
        e
    }

    /// The same entry with its command replaced.
    pub fn with_command(&self, command: String) -> (e: Entry)
        ensures
            e == (Entry { command, ..*self }),
    {
        let mut e = self.duplicate();
        e.command = command;
        e
    }
}

/// Compact form sent over the Unix socket from shell hooks.
/// Keeps the IPC payload small and avoids sending fields the shell cannot know.
#[derive(Debug)]
pub struct HookPayload {
    pub command: String,
    pub cwd: String,
    pub exit_code: i32,
    pub duration_ms: i64,
}

/// The history entry recorded for a finished command reported by a hook.
pub fn entry_from_payload(
    payload: HookPayload,
    project_cwd: String,
    git_repo: Option<String>,
    git_branch: Option<String>,
    started_at: Timestamp,
) -> (e: Entry)
    ensures
        e == (Entry {
            id: 0,
            command: payload.command,
            cwd: payload.cwd,
            project_cwd,
            git_repo,
            git_branch,
            exit_code: Some(payload.exit_code),
            duration_ms: Some(payload.duration_ms),
            started_at,
            deleted: false,
            deleted_at: None,
        }),
{
    Entry {
        id: 0,
        command: payload.command,
        cwd: payload.cwd,
        project_cwd,
        git_repo,
        git_branch,
        exit_code: Some(payload.exit_code),
        duration_ms: Some(payload.duration_ms),
        started_at,
        deleted: false,
        deleted_at: None,
    }
}

} // verus!
