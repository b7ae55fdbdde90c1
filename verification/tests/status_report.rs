use rewind::shell::Shell;
use rewind::status::{
    check_daemon, check_database, check_hook, check_hook_dependencies, status_report, Check, ConfigRead,
    DaemonProbe, DatabaseProbe, HookEnv, Row, Status,
};

fn installed() -> String {
    "# >>> rewind init >>>\nx\n# <<< rewind init <<<\n".to_owned()
}

#[test]
fn an_installed_and_active_hook_passes() {
    let c = check_hook(
        Shell::Zsh,
        ConfigRead::Read { path: "/h/.zshrc".to_owned(), contents: installed() },
        HookEnv { active: Some("1".to_owned()), shell: Some("zsh".to_owned()) },
    );
    assert!(c.healthy);
    assert_eq!(c.rows[0].status, Status::Pass);
    assert_eq!(c.rows[0].name, "shell hook");
    assert_eq!(c.rows[0].detail, "zsh integration installed in /h/.zshrc");
    assert_eq!(c.rows[1].status, Status::Pass);
    assert_eq!(c.rows[1].detail, "active in current zsh session");
}

#[test]
fn a_missing_block_fails_and_another_shell_warns() {
    let c = check_hook(
        Shell::Bash,
        ConfigRead::Read { path: "/h/.bashrc".to_owned(), contents: "ls\n".to_owned() },
        HookEnv { active: Some("1".to_owned()), shell: None },
    );
    assert!(!c.healthy);
    assert_eq!(c.rows[0].detail, "bash integration not found in /h/.bashrc; run `rw init bash --install`");
    assert_eq!(c.rows[1].status, Status::Warn);
    assert_eq!(c.rows[1].detail, "active for unknown; checking configured bash");
}

#[test]
fn missing_and_unreadable_startup_files_fail() {
    let c = check_hook(
        Shell::Fish,
        ConfigRead::Missing { path: "/c/fish/config.fish".to_owned() },
        HookEnv { active: None, shell: None },
    );
    assert_eq!(c.rows[0].detail, "/c/fish/config.fish does not exist; run `rw init fish --install`");
    assert_eq!(c.rows[1].status, Status::Warn);
    assert_eq!(
        c.rows[1].detail,
        "not visible in this process; restart or source your shell config after installing"
    );
    let c = check_hook(
        Shell::Fish,
        ConfigRead::Unreadable { path: "/f".to_owned(), error: "denied".to_owned() },
        HookEnv { active: Some("0".to_owned()), shell: None },
    );
    assert_eq!(c.rows[0].detail, "could not read /f: denied");
    let c = check_hook(Shell::Fish, ConfigRead::NoPath("no home".to_owned()), HookEnv { active: None, shell: None });
    assert_eq!(c.rows[0].status, Status::Fail);
    assert_eq!(c.rows[0].detail, "no home");
}

#[test]
fn dependencies_are_reported_in_order() {
    let c = check_hook_dependencies(Some("/usr/bin/python3".to_owned()), None);
    assert!(!c.healthy);
    assert_eq!(c.rows[0].name, "python3");
    assert_eq!(c.rows[0].detail, "/usr/bin/python3");
    assert_eq!(c.rows[1].name, "socat");
    assert_eq!(c.rows[1].detail, "not found on PATH; shell recording requires `socat`");
    assert!(check_hook_dependencies(Some("a".to_owned()), Some("b".to_owned())).healthy);
}

#[test]
fn daemon_probes_read_as_rows() {
    let c = check_daemon(DaemonProbe::Accepting { path: "/d/rewind.sock".to_owned() });
    assert!(c.healthy);
    assert_eq!(c.rows[0].detail, "accepting connections at /d/rewind.sock");
    let c = check_daemon(DaemonProbe::Missing { path: "/s".to_owned() });
    assert!(!c.healthy);
    assert_eq!(c.rows[0].detail, "socket not found at /s; start a new shell or run `rw-daemon`");
    let c = check_daemon(DaemonProbe::NotSocket { path: "/s".to_owned() });
    assert_eq!(c.rows[0].detail, "/s exists but is not a socket");
    let c = check_daemon(DaemonProbe::Refused { path: "/s".to_owned(), error: "refused".to_owned() });
    assert_eq!(c.rows[0].detail, "socket exists but connection failed at /s: refused");
    let c = check_daemon(DaemonProbe::Unreadable { path: "/s".to_owned(), error: "io".to_owned() });
    assert_eq!(c.rows[0].detail, "could not inspect /s: io");
}

#[test]
fn database_outcomes_read_as_rows() {
    let ok = check_database(
        Ok("/data".to_owned()),
        DatabaseProbe::Opened { count: Ok(42), integrity: Ok("ok".to_owned()) },
    );
    assert!(ok.healthy);
    assert_eq!(ok.rows[0].detail, "/data/history.db is functional (42 entries)");
    let bad = check_database(
        Ok("/data".to_owned()),
        DatabaseProbe::Opened { count: Ok(1), integrity: Ok("corrupt".to_owned()) },
    );
    assert_eq!(bad.rows[0].detail, "/data/history.db integrity_check returned corrupt");
    let failed = check_database(
        Ok("/data".to_owned()),
        DatabaseProbe::Opened { count: Err("no table".to_owned()), integrity: Err("later".to_owned()) },
    );
    assert_eq!(failed.rows[0].detail, "/data/history.db opened but check failed: no table");
    let closed = check_database(Ok("/data".to_owned()), DatabaseProbe::OpenFailed("locked".to_owned()));
    assert_eq!(closed.rows[0].detail, "could not open /data/history.db: locked");
    let nodir = check_database(Err("no data dir".to_owned()), DatabaseProbe::OpenFailed("x".to_owned()));
    assert_eq!(nodir.rows[0].detail, "no data dir");
    assert!(!nodir.healthy);
}

#[test]
fn the_report_is_healthy_only_without_failures() {
    let mut hook = Check::new();
    hook.pass("shell hook", "fine".to_owned());
    hook.warn("hook runtime", "maybe".to_owned());
    let report = status_report(
        Ok(hook),
        check_hook_dependencies(Some("a".to_owned()), Some("b".to_owned())),
        check_daemon(DaemonProbe::Accepting { path: "/s".to_owned() }),
        Check::new(),
    );
    assert!(report.healthy);
    assert_eq!(report.rows.len(), 5);
    assert!(report.rows.iter().all(|r| r.status != Status::Fail));

    let report = status_report(
        Err("could not detect shell: $SHELL is not set".to_owned()),
        Check::new(),
        Check::new(),
        Check::new(),
    );
    assert!(!report.healthy);
    assert_eq!(report.rows[0].name, "shell");
    assert_eq!(report.rows[0].line(), "[fail] shell              could not detect shell: $SHELL is not set");
}

#[test]
fn rows_print_with_a_padded_name() {
    let row = Row::fail("daemon", "down".to_owned());
    assert_eq!(row.icon(), "[fail]");
    assert_eq!(row.line(), "[fail] daemon             down");
    let mut c = Check::new();
    c.pass("a-very-long-check-name", "x".to_owned());
    assert_eq!(c.rows[0].line(), "[ok] a-very-long-check-name x");
}
