use vstd::prelude::*;

use crate::entry::{now_utc, Entry, Timestamp};
use crate::shortcut::Shortcut;
use crate::text::opt_string_view;

verus! {

/// The RFC 3339 text chrono writes for the instant `secs` seconds and
/// `nanos` nanoseconds after the Unix epoch, or None when chrono cannot
/// represent that instant.
pub uninterp spec fn rfc3339_of(secs: i64, nanos: u32) -> Option<Seq<char>>;

/// The instant, as seconds and nanoseconds since the Unix epoch, that chrono
/// reads from a date-time text, or None when it does not read one.
pub uninterp spec fn parsed_instant(text: Seq<char>) -> Option<(i64, u32)>;

/// Writes an instant as RFC 3339 text.
///
/// Trusted: `chrono::DateTime::<Utc>::from_timestamp(secs, nanos)` gives the
/// instant (None when out of range) and `DateTime::to_rfc3339` writes it with
/// every non-zero sub-second digit, so that chrono reads the text back as
/// the same instant (outside leap seconds, whose nanoseconds reach a
/// billion).
#[verifier::external_body]
fn format_rfc3339(t: Timestamp) -> (r: Option<String>)
    ensures
        match r {
            Some(s) => rfc3339_of(t.secs, t.nanos) == Some(s@),
            None => rfc3339_of(t.secs, t.nanos) is None,
        },
        r.is_some() && t.nanos < 1_000_000_000 ==> parsed_instant(r.unwrap()@) == Some(
            (t.secs, t.nanos),
        ),
{
    chrono::DateTime::from_timestamp(t.secs, t.nanos).map(|d| d.to_rfc3339())
}

/// Reads a date-time text.
///
/// Trusted: parses the text as `chrono::DateTime<chrono::Utc>` (relaxed RFC
/// 3339, any offset, converted to UTC) and takes its `timestamp` and
/// `timestamp_subsec_nanos`.
#[verifier::external_body]
fn parse_rfc3339(text: &str) -> (r: Option<Timestamp>)
    ensures
        match r {
            Some(t) => parsed_instant(text@) == Some((t.secs, t.nanos)),
            None => parsed_instant(text@) is None,
        },
{
    text.parse::<chrono::DateTime<chrono::Utc>>().ok().map(
        |d| Timestamp { secs: d.timestamp(), nanos: d.timestamp_subsec_nanos() },
    )
}

/// A history entry as the database stores it: timestamps as RFC 3339 text.
pub struct EntryRecord {
    pub id: i64,
    pub command: String,
    pub cwd: String,
    pub project_cwd: String,
    pub git_repo: Option<String>,
    pub git_branch: Option<String>,
    pub exit_code: Option<i32>,
    pub duration_ms: Option<i64>,
    pub started_at: String,
    pub deleted: bool,
    pub deleted_at: Option<String>,
}

/// A shortcut as the database stores it.
pub struct ShortcutRecord {
    pub id: i64,
    pub alias: String,
    pub command: String,
    pub project_dir: String,
    pub git_repo: Option<String>,
    pub is_global: bool,
    pub created_at: String,
}

/// The stored text of an optional instant.
pub open spec fn opt_text_of(t: Option<Timestamp>) -> Option<Option<Seq<char>>> {
    match t {
        None => Some(None),
        Some(ts) => match rfc3339_of(ts.secs, ts.nanos) {
            Some(s) => Some(Some(s)),
            None => None,
        },
    }
}

/// The record holds the entry's values, its instants written as RFC 3339
/// text that reads back as the same instants (outside leap seconds).
pub open spec fn encodes(e: Entry, rec: EntryRecord) -> bool {
    &&& rec.id == e.id
    &&& rec.command == e.command
    &&& rec.cwd == e.cwd
    &&& rec.project_cwd == e.project_cwd
    &&& rec.git_repo == e.git_repo
    &&& rec.git_branch == e.git_branch
    &&& rec.exit_code == e.exit_code
    &&& rec.duration_ms == e.duration_ms
    &&& rec.deleted == e.deleted
    &&& rfc3339_of(e.started_at.secs, e.started_at.nanos) == Some(rec.started_at@)
    &&& e.started_at.nanos < 1_000_000_000 ==> parsed_instant(rec.started_at@) == Some(
        (e.started_at.secs, e.started_at.nanos),
    )
    &&& match e.deleted_at {
        None => rec.deleted_at is None,
        Some(d) => rec.deleted_at matches Some(t) && rfc3339_of(d.secs, d.nanos) == Some(t@) && (
        d.nanos < 1_000_000_000 ==> parsed_instant(t@) == Some((d.secs, d.nanos))),
    }
}

/// The record stored for an entry, or None when one of its instants cannot
/// be written.
pub fn entry_record(e: &Entry) -> (r: Option<EntryRecord>)
    ensures
        match r {
            Some(rec) => encodes(*e, rec),
            None => rfc3339_of(e.started_at.secs, e.started_at.nanos) is None || opt_text_of(
                e.deleted_at,
            ) is None,
        },
{
    let started_at = match format_rfc3339(e.started_at) {
        Some(s) => s,
        None => return None,
    };
    let deleted_at = match e.deleted_at {
        None => None,
        Some(t) => match format_rfc3339(t) {
            Some(s) => Some(s),
            None => return None,
        },
    };
    Some(
        EntryRecord {
            id: e.id,
            command: e.command.clone(),
            cwd: e.cwd.clone(),
            project_cwd: e.project_cwd.clone(),
            git_repo: crate::filter::clone_opt(&e.git_repo),
            git_branch: crate::filter::clone_opt(&e.git_branch),
            exit_code: e.exit_code,
            duration_ms: e.duration_ms,
            started_at,
            deleted: e.deleted,
            deleted_at,
        },
    )
}

/// The instant read from stored text.
pub open spec fn instant_of(text: Seq<char>) -> Option<Timestamp> {
    match parsed_instant(text) {
        Some(p) => Some(Timestamp { secs: p.0, nanos: p.1 }),
        None => None,
    }
}

/// The entry holds the record's values, its instants read from the
/// record's text (a start time that cannot be read is left open).
pub open spec fn decodes(rec: EntryRecord, e: Entry) -> bool {
    &&& e.id == rec.id
    &&& e.command == rec.command
    &&& e.cwd == rec.cwd
    &&& e.project_cwd == rec.project_cwd
    &&& e.git_repo == rec.git_repo
    &&& e.git_branch == rec.git_branch
    &&& e.exit_code == rec.exit_code
    &&& e.duration_ms == rec.duration_ms
    &&& e.deleted == rec.deleted
    &&& instant_of(rec.started_at@) matches Some(t) ==> e.started_at == t
    &&& e.deleted_at == match rec.deleted_at {
        Some(d) => instant_of(d@),
        None => None,
    }
}

/// The entry a stored record stands for. A start time that cannot be read
/// becomes the current time; a deletion time that cannot be read is dropped.
pub fn entry_from_record(rec: EntryRecord) -> (e: Entry)
    ensures
        decodes(rec, e),
{
    let started_at = match parse_rfc3339(rec.started_at.as_str()) {
        Some(t) => t,
        None => now_utc(),
    };
    let deleted_at = match &rec.deleted_at {
        Some(d) => parse_rfc3339(d.as_str()),
        None => None,
    };
    Entry {
        id: rec.id,
        command: rec.command,
        cwd: rec.cwd,
        project_cwd: rec.project_cwd,
        git_repo: rec.git_repo,
        git_branch: rec.git_branch,
        exit_code: rec.exit_code,
        duration_ms: rec.duration_ms,
        started_at,
        deleted: rec.deleted,
        deleted_at,
    }
}

/// The record stored for a shortcut, or None when its creation time cannot
/// be written.
pub fn shortcut_record(s: &Shortcut) -> (r: Option<ShortcutRecord>)
    ensures
        match rfc3339_of(s.created_at.secs, s.created_at.nanos) {
            Some(c) => r matches Some(rec) && rec.id == s.id && rec.alias == s.alias && rec.command
                == s.command && rec.project_dir == s.project_dir && rec.git_repo == s.git_repo
                && rec.is_global == s.is_global && rec.created_at@ == c,
            None => r is None,
        },
{
    let created_at = match format_rfc3339(s.created_at) {
        Some(c) => c,
        None => return None,
    };
    Some(
        ShortcutRecord {
            id: s.id,
            alias: s.alias.clone(),
            command: s.command.clone(),
            project_dir: s.project_dir.clone(),
            git_repo: crate::filter::clone_opt(&s.git_repo),
            is_global: s.is_global,
            created_at,
        },
    )
}

/// The shortcut a stored record stands for; a creation time that cannot be
/// read becomes the current time.
pub fn shortcut_from_record(rec: ShortcutRecord) -> (s: Shortcut)
    ensures
        s.id == rec.id,
        s.alias == rec.alias,
        s.command == rec.command,
        s.project_dir == rec.project_dir,
        s.git_repo == rec.git_repo,
        s.is_global == rec.is_global,
        instant_of(rec.created_at@) matches Some(t) ==> s.created_at == t,
{
    let created_at = match parse_rfc3339(rec.created_at.as_str()) {
        Some(t) => t,
        None => now_utc(),
    };
    Shortcut {
        id: rec.id,
        alias: rec.alias,
        command: rec.command,
        project_dir: rec.project_dir,
        git_repo: rec.git_repo,
        is_global: rec.is_global,
        created_at,
    }
}

/// The current time as stored text, for a soft deletion: always written,
/// as RFC 3339 text that reads back as the same instant.
pub fn now_text() -> (r: Option<String>)
    ensures
        r matches Some(s) && exists|secs: i64, nanos: u32|
            {
                &&& nanos < 1_000_000_000
                &&& rfc3339_of(secs, nanos) == Some(s@)
                &&& parsed_instant(s@) == Some((secs, nanos))
            },
{
    let t = now_utc();
    let r = format_rfc3339(t);
    assert(r is Some);
    assert(rfc3339_of(t.secs, t.nanos) == Some(r.unwrap()@));
    assert(parsed_instant(r.unwrap()@) == Some((t.secs, t.nanos)));
    r
}

/// Storing an entry and reading it back gives the same entry, as long as
/// its instants are not leap seconds.
pub proof fn lemma_entry_record_round_trip(e: Entry, rec: EntryRecord, back: Entry)
    requires
        e.started_at.nanos < 1_000_000_000,
        e.deleted_at matches Some(d) ==> d.nanos < 1_000_000_000,
        encodes(e, rec),
        decodes(rec, back),
    ensures
        back == e,
{
}

/// The schema version the migrations lead to.
pub const SCHEMA_VERSION: i64 = 4;

/// The migrations still to apply to a database at schema `version`, in
/// order: every step above it, up to the current schema.
pub open spec fn pending_steps(version: i64) -> Seq<i64> {
    Seq::new(
        if version < 0 {
            SCHEMA_VERSION as nat
        } else if version < SCHEMA_VERSION {
            (SCHEMA_VERSION - version) as nat
        } else {
            0
        },
        |k: int|
            (if version < 0 {
                1 + k
            } else {
                version + 1 + k
            }) as i64,
    )
}

/// The migrations a database at schema `version` still needs; the version
/// is stamped afterwards exactly when the list is not empty.
pub fn pending_migrations(version: i64) -> (r: Vec<i64>)
    ensures
        r@ == pending_steps(version),
        forall|i: int| 0 <= i < r@.len() ==> version < #[trigger] r@[i] <= SCHEMA_VERSION,
{
    let mut r: Vec<i64> = Vec::new();
    let mut step: i64 = 1;
    while step <= SCHEMA_VERSION
        invariant
            1 <= step <= SCHEMA_VERSION + 1,
            r@ =~= pending_steps(version).take(r@.len() as int),
            r@.len() == (if version < 0 {
                (step - 1) as nat
            } else if version < step {
                (step - 1 - version) as nat
            } else {
                0
            }),
            forall|i: int| 0 <= i < r@.len() ==> version < #[trigger] r@[i] < step,
        decreases SCHEMA_VERSION + 1 - step,
    {
        if version < step {
            r.push(step);
        }
        step = step + 1;
    }
    assert(r@ =~= pending_steps(version));
    r
}

/// The first schema: the entries table and its indexes.
pub const MIGRATION_CREATE_ENTRIES: &'static str = "CREATE TABLE IF NOT EXISTS entries (
                id          INTEGER PRIMARY KEY AUTOINCREMENT,
                command     TEXT    NOT NULL,
                cwd         TEXT    NOT NULL,
                git_repo    TEXT,
                git_branch  TEXT,
                exit_code   INTEGER,
                duration_ms INTEGER,
                started_at  TEXT    NOT NULL
            );
            CREATE INDEX IF NOT EXISTS idx_entries_cwd        ON entries(cwd);
            CREATE INDEX IF NOT EXISTS idx_entries_git_repo   ON entries(git_repo);
            CREATE INDEX IF NOT EXISTS idx_entries_git_branch ON entries(git_branch);
            CREATE INDEX IF NOT EXISTS idx_entries_started_at ON entries(started_at);";

/// The second schema step: entries get their project root, filled in from
/// their directory.
pub const MIGRATION_ADD_PROJECT_CWD: &'static str = "ALTER TABLE entries ADD COLUMN project_cwd TEXT;
             CREATE INDEX IF NOT EXISTS idx_entries_project_cwd ON entries(project_cwd);
             UPDATE entries SET project_cwd = cwd WHERE project_cwd IS NULL;";

/// The third schema step: the shortcuts table and its indexes.
pub const MIGRATION_CREATE_SHORTCUTS: &'static str = "CREATE TABLE IF NOT EXISTS shortcuts (
                id          INTEGER PRIMARY KEY AUTOINCREMENT,
                alias       TEXT    NOT NULL,
                command     TEXT    NOT NULL,
                project_dir TEXT    NOT NULL,
                git_repo    TEXT,
                is_global   BOOLEAN DEFAULT FALSE,
                created_at  DATETIME NOT NULL DEFAULT (strftime('%Y-%m-%dT%H:%M:%SZ', 'now')),
                UNIQUE(alias, project_dir)
            );
            CREATE INDEX IF NOT EXISTS idx_shortcuts_alias       ON shortcuts(alias);
            CREATE INDEX IF NOT EXISTS idx_shortcuts_project_dir ON shortcuts(project_dir);
            CREATE INDEX IF NOT EXISTS idx_shortcuts_git_repo    ON shortcuts(git_repo);
            CREATE INDEX IF NOT EXISTS idx_shortcuts_is_global   ON shortcuts(is_global);";

/// The fourth schema step: entries can be soft-deleted.
pub const MIGRATION_ADD_DELETED: &'static str = "ALTER TABLE entries ADD COLUMN deleted BOOLEAN NOT NULL DEFAULT FALSE;
             ALTER TABLE entries ADD COLUMN deleted_at TEXT;
             CREATE INDEX IF NOT EXISTS idx_entries_deleted ON entries(deleted);";

/// The schema change of a migration step, for the steps there are.
pub open spec fn migration_text(step: i64) -> Option<Seq<char>> {
    if step == 1 {
        Some(MIGRATION_CREATE_ENTRIES@)
    } else if step == 2 {
        Some(MIGRATION_ADD_PROJECT_CWD@)
    } else if step == 3 {
        Some(MIGRATION_CREATE_SHORTCUTS@)
    } else if step == 4 {
        Some(MIGRATION_ADD_DELETED@)
    } else {
        None
    }
}

/// The SQL of a migration step; every step `pending_migrations` lists has
/// one.
pub fn migration_sql(step: i64) -> (r: Option<&'static str>)
    ensures
        match r {
            Some(t) => migration_text(step) == Some(t@),
            None => migration_text(step) is None,
        },
        1 <= step <= SCHEMA_VERSION ==> r is Some,
{
    if step == 1 {
        Some(MIGRATION_CREATE_ENTRIES)
    } else if step == 2 {
        Some(MIGRATION_ADD_PROJECT_CWD)
    } else if step == 3 {
        Some(MIGRATION_CREATE_SHORTCUTS)
    } else if step == 4 {
        Some(MIGRATION_ADD_DELETED)
    } else {
        None
    }
}

} // verus!
