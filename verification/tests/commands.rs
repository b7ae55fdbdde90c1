use rewind::filter::FilterContext;
use rewind::history_cmd::{history_filter, select_indexed, Args as HistoryArgs, IndexError};
use rewind::run_cmd::{elapsed_millis, exit_code_or_failure, exit_code_to_process_code, shell_flag, shell_invocation};
use rewind::search_cmd::{search_mode, Args as SearchArgs, SearchMode};
use rewind::shortcut_cmd::{
    alias_command, is_reserved, list_line, not_found_message, plan_shortcut_add, removed_message, saved_message,
    scope_dir, split_alias_args, unknown_alias_message, AddError,
};
use rewind::shortcut::Shortcut;

fn history_args() -> HistoryArgs {
    HistoryArgs {
        limit: 500,
        cwd: false,
        repo: false,
        branch: false,
        ok: false,
        fail: false,
        deleted: false,
        plain: false,
        index: None,
    }
}

fn strings(args: &[&str]) -> Vec<String> {
    args.iter().map(|a| a.to_string()).collect()
}

#[test]
fn history_filter_is_scoped_to_the_project() {
    let ctx = FilterContext::new("/p/src".to_owned(), Some("/p".to_owned()), None);
    let f = history_filter(&history_args(), "/p/src".to_owned(), "/p".to_owned(), &ctx);
    assert_eq!(f.project_cwd.as_deref(), Some("/p"));
    assert_eq!(f.limit, Some(500));
    assert!(f.cwd.is_none() && f.git_repo.is_none());

    let mut args = history_args();
    args.cwd = true;
    args.repo = true;
    args.branch = true;
    args.ok = true;
    args.deleted = true;
    args.index = Some(3);
    let f = history_filter(&args, "/p/src".to_owned(), "/p".to_owned(), &ctx);
    assert_eq!(f.cwd.as_deref(), Some("/p/src"));
    assert_eq!(f.git_repo.as_deref(), Some("/p"));
    assert!(f.git_branch.is_none());
    assert!(f.only_success && f.only_deleted && !f.only_failure);
    assert_eq!(f.limit, Some(3));
}

#[test]
fn replay_positions_count_from_one() {
    assert_eq!(select_indexed(0, 5), Err(IndexError::Zero));
    assert_eq!(select_indexed(1, 5), Ok(0));
    assert_eq!(select_indexed(5, 5), Ok(4));
    assert_eq!(select_indexed(6, 5), Err(IndexError::NotFound(6)));
    assert_eq!(IndexError::Zero.message(), "recent command index must be 1 or greater");
    assert_eq!(IndexError::NotFound(12).message(), "recent command -12 was not found");
}

#[test]
fn search_modes_follow_term_and_plain() {
    let mode = search_mode(SearchArgs { term: Some("git".to_owned()), plain: true, limit: 50 });
    assert!(matches!(mode, SearchMode::PrintMatches { ref term, fetch: 500, limit: 50 } if term == "git"));
    let mode = search_mode(SearchArgs { term: Some("git".to_owned()), plain: false, limit: 50 });
    assert!(matches!(mode, SearchMode::Interactive { ref initial } if initial == "git"));
    let mode = search_mode(SearchArgs { term: None, plain: false, limit: 50 });
    assert!(matches!(mode, SearchMode::Interactive { ref initial } if initial.is_empty()));
    let mode = search_mode(SearchArgs { term: None, plain: true, limit: 20 });
    assert!(matches!(mode, SearchMode::PrintRecent { limit: 20 }));
}

#[test]
fn exit_codes_fit_in_a_byte() {
    assert_eq!(exit_code_to_process_code(0), 0);
    assert_eq!(exit_code_to_process_code(255), 255);
    assert_eq!(exit_code_to_process_code(256), 1);
    assert_eq!(exit_code_to_process_code(-1), 1);
    assert_eq!(exit_code_or_failure(Some(3)), 3);
    assert_eq!(exit_code_or_failure(None), 1);
    assert_eq!(elapsed_millis(1234), 1234);
    assert_eq!(elapsed_millis(u128::MAX), i64::MAX);
}

#[test]
fn shells_run_commands_interactively() {
    assert_eq!(shell_flag("zsh"), "-isc");
    assert_eq!(shell_flag("bash"), "-ic");
    assert_eq!(shell_flag("fish"), "-c");
    assert_eq!(shell_flag("dash"), "-ic");
    assert_eq!(shell_invocation(Some("/usr/bin/zsh"), None), ("/usr/bin/zsh".to_owned(), "-isc"));
    assert_eq!(shell_invocation(Some("/usr/bin/zsh"), Some("fish")), ("/usr/bin/zsh".to_owned(), "-c"));
    assert_eq!(shell_invocation(None, None), ("sh".to_owned(), "-ic"));
}

#[test]
fn reserved_names_cannot_be_aliases() {
    for name in ["run", "search", "status", "shortcut", "daemon", "init", "help"] {
        assert!(is_reserved(name));
    }
    assert!(!is_reserved("test"));
    match plan_shortcut_add("init".to_owned(), &strings(&["x"]), false, "/p") {
        Err(e @ AddError::Reserved(_)) => assert_eq!(
            e.message(),
            "'init' is a reserved subcommand name and cannot be used as a shortcut alias"
        ),
        _ => panic!("init is reserved"),
    }
}

#[test]
fn shortcuts_need_a_command() {
    for command in [strings(&[]), strings(&[" ", "\t"])] {
        match plan_shortcut_add("t".to_owned(), &command, false, "/p") {
            Err(e @ AddError::MissingCommand) => assert_eq!(
                e.message(),
                "A command is required. Usage: rw shortcut add <alias> <command>"
            ),
            _ => panic!("a command is required"),
        }
    }
}

#[test]
fn added_shortcuts_quote_their_command_and_pick_a_scope() {
    let s = plan_shortcut_add("t".to_owned(), &strings(&["cargo", "test"]), false, "/p").ok().unwrap();
    assert_eq!(s.alias, "t");
    assert_eq!(s.command, "'cargo' 'test'");
    assert_eq!(s.project_dir, "/p");
    assert!(!s.is_global);
    let g = plan_shortcut_add("t".to_owned(), &strings(&["ls"]), true, "/p").ok().unwrap();
    assert_eq!(g.project_dir, "__global__");
    assert!(g.is_global);
    assert_eq!(scope_dir(true, "/p"), "__global__");
    assert_eq!(scope_dir(false, "/p"), "/p");
}

#[test]
fn aliases_append_quoted_extra_arguments() {
    assert_eq!(alias_command("cargo test", &[]), "cargo test");
    assert_eq!(
        alias_command("cargo test --workspace --locked", &strings(&["entry::tests"])),
        "cargo test --workspace --locked 'entry::tests'"
    );
    let (alias, rest) = split_alias_args(&strings(&["t", "a", "b"])).unwrap();
    assert_eq!(alias, "t");
    assert_eq!(rest, strings(&["a", "b"]));
    assert!(split_alias_args(&vec![]).is_none());
}

#[test]
fn shortcut_messages() {
    assert_eq!(saved_message("t", true), "Saved shortcut 't' globally.");
    assert_eq!(saved_message("t", false), "Saved shortcut 't' for this project.");
    assert_eq!(removed_message("t"), "Removed shortcut 't'.");
    assert_eq!(not_found_message("t"), "No shortcut found for alias 't'. use `--global` if it is a global shortcut");
    assert_eq!(
        unknown_alias_message("zz"),
        "unknown command or shortcut `zz` -- use `rw shortcut list` to see available shortcuts"
    );
}

#[test]
fn listed_shortcuts_are_aligned() {
    let s = Shortcut::new("t".to_owned(), "ls".to_owned(), "/p".to_owned(), None, false);
    assert_eq!(list_line(&s, 4, 3), "[project]  t     ls ");
    let g = Shortcut::new("build".to_owned(), "make".to_owned(), "__global__".to_owned(), None, true);
    assert_eq!(list_line(&g, 4, 3), "[global]  build  make");
}
