use vstd::prelude::*;

use crate::init::{closes_block, has_managed_block};
use crate::paths::{history_db_path, joined, HISTORY_DB_FILE};
use crate::shell::{shell_name, Shell};
use crate::text::{lines_of, padded_right, push_char, push_padded, push_signed_decimal, signed_decimal, str_eq};

verus! {

/// The options of `rw status`.
pub struct Args {
    /// Shell to check; detected from `$SHELL` when omitted.
    pub shell: Option<Shell>,
}

/// The outcome of one health check.
#[derive(Clone, Copy, Debug, PartialEq, Eq, Structural)]
pub enum Status {
    Pass,
    Warn,
    Fail,
}

/// One line of the status report.
pub struct Row {
    pub status: Status,
    pub name: &'static str,
    pub detail: String,
}

/// The marker printed before a row of the given status.
pub open spec fn status_icon(s: Status) -> Seq<char> {
    match s {
        Status::Pass => "[ok]"@,
        Status::Warn => "[warn]"@,
        Status::Fail => "[fail]"@,
    }
}

/// The width of the name column of the report.
pub const NAME_WIDTH: usize = 18;

/// A row whose fields hold the given values.
pub open spec fn row_is(r: Row, status: Status, name: Seq<char>, detail: Seq<char>) -> bool {
    &&& r.status == status
    &&& r.name@ == name
    &&& r.detail@ == detail
}

impl Row {
    /// A failing row.
    pub fn fail(name: &'static str, detail: String) -> (r: Row)
        ensures
            row_is(r, Status::Fail, name@, detail@),
    {
        Row { status: Status::Fail, name, detail }
    }

    /// The marker for the row's status.
    pub fn icon(&self) -> (r: &'static str)
        ensures
            r@ == status_icon(self.status),
    {
        match self.status {
            Status::Pass => "[ok]",
            Status::Warn => "[warn]",
            Status::Fail => "[fail]",
        }
    }

    /// The printed line: the marker, the name padded to the name column and
    /// the detail.
    pub fn line(&self) -> (r: String)
        ensures
            r@ == status_icon(self.status) + seq![' '] + padded_right(self.name@, NAME_WIDTH as nat)
                + seq![' '] + self.detail@,
    {
        let mut r = String::from_str(self.icon());
        push_char(&mut r, ' ');
        push_padded(&mut r, self.name, NAME_WIDTH);
        push_char(&mut r, ' ');
        r.append(self.detail.as_str());
        r
    }
}

/// None of the rows failed.
pub open spec fn no_failure(rows: Seq<Row>) -> bool {
    forall|i: int| 0 <= i < rows.len() ==> (#[trigger] rows[i]).status != Status::Fail
}

/// The result of a group of checks: the rows in order and whether all of
/// them passed or warned.
pub struct Check {
    pub healthy: bool,
    pub rows: Vec<Row>,
}

impl Check {
    /// The group is healthy exactly when none of its rows failed.
    pub open spec fn wf(&self) -> bool {
        self.healthy == no_failure(self.rows@)
    }

    /// An empty, healthy group.
    pub fn new() -> (c: Check)
        ensures
            c.wf(),
            c.healthy,
            c.rows@.len() == 0,
    {
        Check { healthy: true, rows: Vec::new() }
    }

    /// Adds a passing row.
    pub fn pass(&mut self, name: &'static str, detail: String)
        ensures
            final(self).healthy == old(self).healthy,
            final(self).rows@.len() == old(self).rows@.len() + 1,
            final(self).rows@.drop_last() == old(self).rows@,
            row_is(final(self).rows@.last(), Status::Pass, name@, detail@),
            old(self).wf() ==> final(self).wf(),
    {
        let ghost before = self.rows@;
        self.rows.push(Row { status: Status::Pass, name, detail });
        assert(self.rows@.drop_last() =~= before);
        assert(no_failure(self.rows@) == no_failure(before)) by {
            if no_failure(before) {
                assert forall|i: int| 0 <= i < self.rows@.len() implies (#[trigger] self.rows@[i]).status
                    != Status::Fail by {
                    if i < before.len() {
                        assert(self.rows@[i] == before[i]);
                    }
                }
            } else {
                let j = choose|j: int| 0 <= j < before.len() && before[j].status == Status::Fail;
                assert(self.rows@[j] == before[j]);
            }
        }
    }

    /// Adds a warning row; a warning does not make the group unhealthy.
    pub fn warn(&mut self, name: &'static str, detail: String)
        ensures
            final(self).healthy == old(self).healthy,
            final(self).rows@.len() == old(self).rows@.len() + 1,
            final(self).rows@.drop_last() == old(self).rows@,
            row_is(final(self).rows@.last(), Status::Warn, name@, detail@),
            old(self).wf() ==> final(self).wf(),
    {
        let ghost before = self.rows@;
        self.rows.push(Row { status: Status::Warn, name, detail });
        assert(self.rows@.drop_last() =~= before);
        assert(no_failure(self.rows@) == no_failure(before)) by {
            if no_failure(before) {
                assert forall|i: int| 0 <= i < self.rows@.len() implies (#[trigger] self.rows@[i]).status
                    != Status::Fail by {
                    if i < before.len() {
                        assert(self.rows@[i] == before[i]);
                    }
                }
            } else {
                let j = choose|j: int| 0 <= j < before.len() && before[j].status == Status::Fail;
                assert(self.rows@[j] == before[j]);
            }
        }
    }

    /// Adds a failing row and marks the group unhealthy.
    pub fn fail(&mut self, name: &'static str, detail: String)
        ensures
            !final(self).healthy,
            final(self).rows@.len() == old(self).rows@.len() + 1,
            final(self).rows@.drop_last() == old(self).rows@,
            row_is(final(self).rows@.last(), Status::Fail, name@, detail@),
            final(self).wf(),
    {
        let ghost before = self.rows@;
        self.healthy = false;
        self.rows.push(Row::fail(name, detail));
        assert(self.rows@.drop_last() =~= before);
        assert(self.rows@[self.rows@.len() - 1].status == Status::Fail);
    }

    /// Adds the rows of another group after these; the result is healthy
    /// when both were.
    pub fn absorb(&mut self, other: Check)
        requires
            old(self).wf(),
            other.wf(),
        ensures
            final(self).wf(),
            final(self).healthy == (old(self).healthy && other.healthy),
            final(self).rows@ == old(self).rows@ + other.rows@,
    {
        let ghost before = self.rows@;
        let ghost added = other.rows@;
        let other_healthy = other.healthy;
        let mut rest = other.rows;
        self.rows.append(&mut rest);
        self.healthy = self.healthy && other_healthy;
        assert(self.rows@ =~= before + added);
        assert(no_failure(self.rows@) == (no_failure(before) && no_failure(added))) by {
            if no_failure(before) && no_failure(added) {
                assert forall|i: int| 0 <= i < self.rows@.len() implies (#[trigger] self.rows@[i]).status
                    != Status::Fail by {
                    if i < before.len() {
                        assert(self.rows@[i] == before[i]);
                    } else {
                        assert(self.rows@[i] == added[i - before.len()]);
                    }
                }
            } else if !no_failure(before) {
                let j = choose|j: int| 0 <= j < before.len() && before[j].status == Status::Fail;
                assert(self.rows@[j] == before[j]);
            } else {
                let j = choose|j: int| 0 <= j < added.len() && added[j].status == Status::Fail;
                assert(self.rows@[before.len() + j] == added[j]);
            }
        }
    }
}

/// A group of checks is healthy exactly when none of its rows failed, as
/// long as it was built from an empty group by adding rows and groups.
pub proof fn lemma_healthy_iff_no_failure(c: Check)
    requires
        c.wf(),
    ensures
        c.healthy <==> forall|i: int| 0 <= i < c.rows@.len() ==> (#[trigger] c.rows@[i]).status
            != Status::Fail,
{
}

/// What was found of the shell's startup file.
pub enum ConfigRead {
    /// The startup file's path could not be told; the message says why.
    NoPath(String),
    /// The file was read.
    Read { path: String, contents: String },
    /// The file does not exist.
    Missing { path: String },
    /// The file exists but could not be read.
    Unreadable { path: String, error: String },
}

/// Whether the shell's integration is active in this process: the values of
/// `$REWIND_SHELL_HOOK` and `$REWIND_SHELL_HOOK_SHELL`.
pub struct HookEnv {
    pub active: Option<String>,
    pub shell: Option<String>,
}

/// The detail of the shell hook row, and whether it passes.
pub open spec fn hook_row(shell: Shell, config: ConfigRead) -> (bool, Seq<char>) {
    let s = shell_name(shell);
    match config {
        ConfigRead::NoPath(m) => (false, m@),
        ConfigRead::Read { path, contents } => if closes_block(lines_of(contents@), false) {
            (true, s + " integration installed in "@ + path@)
        } else {
            (false, s + " integration not found in "@ + path@ + "; run `rw init "@ + s
                + " --install`"@)
        },
        ConfigRead::Missing { path } => (false, path@ + " does not exist; run `rw init "@ + s
            + " --install`"@),
        ConfigRead::Unreadable { path, error } => (false, "could not read "@ + path@ + ": "@
            + error@),
    }
}

/// The status and detail of the hook runtime row.
pub open spec fn runtime_row(shell: Shell, env: HookEnv) -> (Status, Seq<char>) {
    if env.active matches Some(a) && a@ == "1"@ {
        let active = match env.shell {
            Some(v) => v@,
            None => "unknown"@,
        };
        if active == shell_name(shell) {
            (Status::Pass, "active in current "@ + active + " session"@)
        } else {
            (Status::Warn, "active for "@ + active + "; checking configured "@ + shell_name(shell))
        }
    } else {
        (
            Status::Warn,
            "not visible in this process; restart or source your shell config after installing"@,
        )
    }
}

/// Checks that the integration is in the shell's startup file and active.
pub fn check_hook(shell: Shell, config: ConfigRead, env: HookEnv) -> (c: Check)
    ensures
        c.wf(),
        c.rows@.len() == 2,
        row_is(
            c.rows@[0],
            if hook_row(shell, config).0 {
                Status::Pass
            } else {
                Status::Fail
            },
            "shell hook"@,
            hook_row(shell, config).1,
        ),
        row_is(c.rows@[1], runtime_row(shell, env).0, "hook runtime"@, runtime_row(shell, env).1),
{
    let ghost cfg = config;
    let ghost henv = env;
    let mut check = Check::new();
    let name = shell.name();
    match config {
        ConfigRead::NoPath(m) => check.fail("shell hook", m),
        ConfigRead::Read { path, contents } => {
            if has_managed_block(contents.as_str()) {
                let mut d = String::from_str(name);
                d.append(" integration installed in ");
                d.append(path.as_str());
                check.pass("shell hook", d);
            } else {
                let mut d = String::from_str(name);
                d.append(" integration not found in ");
                d.append(path.as_str());
                d.append("; run `rw init ");
                d.append(name);
                d.append(" --install`");
                check.fail("shell hook", d);
            }
        },
        ConfigRead::Missing { path } => {
            let mut d = path;
            d.append(" does not exist; run `rw init ");
            d.append(name);
            d.append(" --install`");
            check.fail("shell hook", d);
        },
        ConfigRead::Unreadable { path, error } => {
            let mut d = String::from_str("could not read ");
            d.append(path.as_str());
            d.append(": ");
            d.append(error.as_str());
            check.fail("shell hook", d);
        },
    }
    let ghost first = check.rows@[0];
    let is_active = match &env.active {
        Some(a) => str_eq(a.as_str(), "1"),
        None => false,
    };
    if is_active {
        let active = match env.shell {
            Some(v) => v,
            None => String::from_str("unknown"),
        };
        if str_eq(active.as_str(), name) {
            let mut d = String::from_str("active in current ");
            d.append(active.as_str());
            d.append(" session");
            check.pass("hook runtime", d);
        } else {
            let mut d = String::from_str("active for ");
            d.append(active.as_str());
            d.append("; checking configured ");
            d.append(name);
            check.warn("hook runtime", d);
        }
    } else {
        check.warn(
            "hook runtime",
            String::from_str(
                "not visible in this process; restart or source your shell config after installing",
            ),
        );
    }
    assert(check.rows@[0] == first);
    check
}

/// The detail of a failing dependency row.
pub open spec fn missing_dependency_text(command: Seq<char>) -> Seq<char> {
    "not found on PATH; shell recording requires `"@ + command + "`"@
}

/// Adds the row for one dependency: where it was found, or a failure.
pub fn check_dependency(check: &mut Check, command: &'static str, found: Option<String>)
    requires
        old(check).wf(),
    ensures
        final(check).wf(),
        final(check).rows@.len() == old(check).rows@.len() + 1,
        final(check).rows@.drop_last() == old(check).rows@,
        match found {
            Some(p) => row_is(final(check).rows@.last(), Status::Pass, command@, p@)
                && final(check).healthy == old(check).healthy,
            None => row_is(
                final(check).rows@.last(),
                Status::Fail,
                command@,
                missing_dependency_text(command@),
            ) && !final(check).healthy,
        },
{
    match found {
        Some(p) => check.pass(command, p),
        None => {
            let mut d = String::from_str("not found on PATH; shell recording requires `");
            d.append(command);
            d.append("`");
            check.fail(command, d);
        },
    }
}

/// Checks that `python3` and `socat` were found on `PATH` (where they were
/// found is given, in that order).
pub fn check_hook_dependencies(python3: Option<String>, socat: Option<String>) -> (c: Check)
    ensures
        c.wf(),
        c.rows@.len() == 2,
        match python3 {
            Some(p) => row_is(c.rows@[0], Status::Pass, "python3"@, p@),
            None => row_is(c.rows@[0], Status::Fail, "python3"@, missing_dependency_text("python3"@)),
        },
        match socat {
            Some(p) => row_is(c.rows@[1], Status::Pass, "socat"@, p@),
            None => row_is(c.rows@[1], Status::Fail, "socat"@, missing_dependency_text("socat"@)),
        },
{
    let mut check = Check::new();
    check_dependency(&mut check, "python3", python3);
    let ghost first = check.rows@[0];
    check_dependency(&mut check, "socat", socat);
    assert(check.rows@[0] == first);
    check
}

/// What was found at the daemon's socket.
pub enum DaemonProbe {
    /// The socket's path could not be told; the message says why.
    NoPath(String),
    /// A socket that accepted a connection.
    Accepting { path: String },
    /// A socket that refused the connection.
    Refused { path: String, error: String },
    /// Something that is not a socket.
    NotSocket { path: String },
    /// Nothing.
    Missing { path: String },
    /// The path could not be inspected.
    Unreadable { path: String, error: String },
}

/// Whether the daemon row passes, and its detail.
pub open spec fn daemon_row(probe: DaemonProbe) -> (bool, Seq<char>) {
    match probe {
        DaemonProbe::NoPath(m) => (false, m@),
        DaemonProbe::Accepting { path } => (true, "accepting connections at "@ + path@),
        DaemonProbe::Refused { path, error } => (false, "socket exists but connection failed at "@
            + path@ + ": "@ + error@),
        DaemonProbe::NotSocket { path } => (false, path@ + " exists but is not a socket"@),
        DaemonProbe::Missing { path } => (false, "socket not found at "@ + path@
            + "; start a new shell or run `rw-daemon`"@),
        DaemonProbe::Unreadable { path, error } => (false, "could not inspect "@ + path@ + ": "@
            + error@),
    }
}

/// Checks that the daemon accepts connections on its socket.
pub fn check_daemon(probe: DaemonProbe) -> (c: Check)
    ensures
        c.wf(),
        c.rows@.len() == 1,
        row_is(
            c.rows@[0],
            if daemon_row(probe).0 {
                Status::Pass
            } else {
                Status::Fail
            },
            "daemon"@,
            daemon_row(probe).1,
        ),
{
    let mut check = Check::new();
    match probe {
        DaemonProbe::NoPath(m) => check.fail("daemon", m),
        DaemonProbe::Accepting { path } => {
            let mut d = String::from_str("accepting connections at ");
            d.append(path.as_str());
            check.pass("daemon", d);
        },
        DaemonProbe::Refused { path, error } => {
            let mut d = String::from_str("socket exists but connection failed at ");
            d.append(path.as_str());
            d.append(": ");
            d.append(error.as_str());
            check.fail("daemon", d);
        },
        DaemonProbe::NotSocket { path } => {
            let mut d = path;
            d.append(" exists but is not a socket");
            check.fail("daemon", d);
        },
        DaemonProbe::Missing { path } => {
            let mut d = String::from_str("socket not found at ");
            d.append(path.as_str());
            d.append("; start a new shell or run `rw-daemon`");
            check.fail("daemon", d);
        },
        DaemonProbe::Unreadable { path, error } => {
            let mut d = String::from_str("could not inspect ");
            d.append(path.as_str());
            d.append(": ");
            d.append(error.as_str());
            check.fail("daemon", d);
        },
    }
    check
}

/// What opening and querying the history database gave.
pub enum DatabaseProbe {
    /// The database could not be opened; the message says why.
    OpenFailed(String),
    /// The database was opened: the number of entries and the result of
    /// `PRAGMA integrity_check`, or why each query failed.
    Opened { count: Result<i64, String>, integrity: Result<String, String> },
}

/// Whether the database row passes, and its detail, for the database file
/// at `path`.
pub open spec fn database_row(path: Seq<char>, probe: DatabaseProbe) -> (bool, Seq<char>) {
    match probe {
        DatabaseProbe::OpenFailed(e) => (false, "could not open "@ + path + ": "@ + e@),
        DatabaseProbe::Opened { count, integrity } => match count {
            Err(e) => (false, path + " opened but check failed: "@ + e@),
            Ok(n) => match integrity {
                Err(e) => (false, path + " opened but check failed: "@ + e@),
                Ok(result) => if result@ == "ok"@ {
                    (true, path + " is functional ("@ + signed_decimal(n as int) + " entries)"@)
                } else {
                    (false, path + " integrity_check returned "@ + result@)
                },
            },
        },
    }
}

/// Checks that the history database opens and passes its integrity check.
/// `data_dir` is the data directory, or why it could not be told.
pub fn check_database(data_dir: Result<String, String>, probe: DatabaseProbe) -> (c: Check)
    ensures
        c.wf(),
        c.rows@.len() == 1,
        match data_dir {
            Err(m) => row_is(c.rows@[0], Status::Fail, "database"@, m@),
            Ok(dir) => row_is(
                c.rows@[0],
                if database_row(joined(dir@, HISTORY_DB_FILE@), probe).0 {
                    Status::Pass
                } else {
                    Status::Fail
                },
                "database"@,
                database_row(joined(dir@, HISTORY_DB_FILE@), probe).1,
            ),
        },
{
    let mut check = Check::new();
    let path = match data_dir {
        Err(m) => {
            check.fail("database", m);
            return check;
        },
        Ok(dir) => history_db_path(dir.as_str()),
    };
    match probe {
        DatabaseProbe::OpenFailed(e) => {
            let mut d = String::from_str("could not open ");
            d.append(path.as_str());
            d.append(": ");
            d.append(e.as_str());
            check.fail("database", d);
        },
        DatabaseProbe::Opened { count, integrity } => {
            match count {
                Err(e) => {
                    let mut d = path;
                    d.append(" opened but check failed: ");
                    d.append(e.as_str());
                    check.fail("database", d);
                },
                Ok(n) => match integrity {
                    Err(e) => {
                        let mut d = path;
                        d.append(" opened but check failed: ");
                        d.append(e.as_str());
                        check.fail("database", d);
                    },
                    Ok(result) => {
                        if str_eq(result.as_str(), "ok") {
                            let mut d = path;
                            d.append(" is functional (");
                            push_signed_decimal(&mut d, n);
                            d.append(" entries)");
                            check.pass("database", d);
                        } else {
                            let mut d = path;
                            d.append(" integrity_check returned ");
                            d.append(result.as_str());
                            check.fail("database", d);
                        }
                    },
                },
            }
        },
    }
    check
}

/// The whole report: the hook check (or a failing `shell` row when the
/// shell could not be told), then the dependency, daemon and database
/// checks.
pub fn status_report(hook: Result<Check, String>, dependencies: Check, daemon: Check, database: Check) -> (r: Check)
    requires
        hook matches Ok(h) ==> h.wf(),
        dependencies.wf(),
        daemon.wf(),
        database.wf(),
    ensures
        r.wf(),
        match hook {
            Ok(h) => r.rows@ == h.rows@ + dependencies.rows@ + daemon.rows@ + database.rows@
                && r.healthy == (h.healthy && dependencies.healthy && daemon.healthy
                && database.healthy),
            Err(m) => r.rows@.len() == 1 + dependencies.rows@.len() + daemon.rows@.len()
                + database.rows@.len() && row_is(r.rows@[0], Status::Fail, "shell"@, m@)
                && r.rows@.drop_first() == dependencies.rows@ + daemon.rows@ + database.rows@
                && !r.healthy,
        },
{
    let mut report = Check::new();
    match hook {
        Ok(h) => report.absorb(h),
        Err(m) => report.fail("shell", m),
    }
    let ghost first = report.rows@;
    report.absorb(dependencies);
    report.absorb(daemon);
    report.absorb(database);
    proof {
        if hook is Err {
            assert(report.rows@[0] == first[0]);
            assert(report.rows@.drop_first() =~= dependencies.rows@ + daemon.rows@ + database.rows@);
        } else {
            assert(report.rows@ =~= first + dependencies.rows@ + daemon.rows@ + database.rows@);
        }
    }
    report
}

} // verus!
