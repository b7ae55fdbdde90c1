use rewind::init::{append_block, has_managed_block, managed_block, remove_managed_block, END_MARKER, START_MARKER};
use rewind::shell::{config_path, detect_shell, init_action, shell_from_name, InitAction, Shell, ShellDetectError};
use rewind::text::{split_lines, trim};

#[test]
fn managed_block_wraps_the_trimmed_snippet() {
    let block = managed_block("\n  echo hi\n\n");
    assert_eq!(
        block,
        "# >>> rewind init >>>\n# Managed by `rw init --install`; remove with `rw init --uninstall`.\necho hi\n# <<< rewind init <<<\n"
    );
}

#[test]
fn appended_block_follows_an_empty_line() {
    assert_eq!(append_block("export A=1\n\n  \n", "BLOCK\n"), "export A=1\n\nBLOCK\n");
    assert_eq!(append_block(" \n\t", "BLOCK\n"), "BLOCK\n");
}

#[test]
fn removing_the_block_keeps_everything_else() {
    let text = format!("a\n{START_MARKER}\nsecret\n{END_MARKER}\nb\n\n\n");
    assert_eq!(remove_managed_block(&text), "a\nb\n");
    assert_eq!(remove_managed_block(""), "\n");
    assert_eq!(remove_managed_block("x\r\ny"), "x\ny\n");
}

#[test]
fn an_unclosed_block_drops_the_rest() {
    let text = format!("keep\n  {START_MARKER}  \nlost\n");
    assert_eq!(remove_managed_block(&text), "keep\n");
}

#[test]
fn an_end_marker_outside_a_block_is_kept() {
    let text = format!("{END_MARKER}\nx\n");
    assert_eq!(remove_managed_block(&text), format!("{END_MARKER}\nx\n"));
}

#[test]
fn install_then_uninstall_gives_back_the_cleaned_file() {
    let existing = "alias ll='ls -l'\nexport EDITOR=vim\n";
    let cleaned = remove_managed_block(existing);
    let installed = append_block(&cleaned, &managed_block("eval \"$(rw hook)\"\n"));
    assert!(has_managed_block(&installed));
    assert_eq!(remove_managed_block(&installed), cleaned);
    let reinstalled = append_block(&remove_managed_block(&installed), &managed_block("eval \"$(rw hook)\"\n"));
    assert_eq!(reinstalled, installed);
}

#[test]
fn a_block_is_found_only_when_closed() {
    assert!(has_managed_block(&format!("{START_MARKER}\n{END_MARKER}\n")));
    assert!(!has_managed_block(&format!("{START_MARKER}\nx\n")));
    assert!(!has_managed_block(&format!("{END_MARKER}\n{START_MARKER}\n")));
}

#[test]
fn lines_split_like_str_lines() {
    assert_eq!(split_lines("a\r\nb\n\nc"), vec!["a", "b", "", "c"]);
    assert_eq!(split_lines("a\n"), vec!["a"]);
    assert!(split_lines("").is_empty());
}

#[test]
fn shells_are_detected_from_the_shell_path() {
    assert_eq!(detect_shell(Some("/usr/bin/zsh")).ok(), Some(Shell::Zsh));
    assert_eq!(detect_shell(Some("/bin/bash")).ok(), Some(Shell::Bash));
    assert_eq!(detect_shell(Some("fish")).ok(), Some(Shell::Fish));
    match detect_shell(Some("/bin/tcsh")) {
        Err(e @ ShellDetectError::Unsupported(_)) => {
            assert_eq!(e.message(), "unsupported shell `tcsh`. Choose bash, zsh, or fish.")
        }
        _ => panic!("tcsh is not supported"),
    }
    match detect_shell(None) {
        Err(e @ ShellDetectError::NotSet) => assert_eq!(e.message(), "could not detect shell: $SHELL is not set"),
        _ => panic!("an unset $SHELL is an error"),
    }
    assert!(matches!(detect_shell(Some("/")), Err(ShellDetectError::Unsupported(n)) if n.is_empty()));
}

#[test]
fn shell_names_round_trip() {
    for shell in [Shell::Bash, Shell::Zsh, Shell::Fish] {
        assert_eq!(shell_from_name(shell.name()), Some(shell));
    }
    assert_eq!(shell_from_name("sh"), None);
}

#[test]
fn startup_files_live_under_home_or_xdg() {
    assert_eq!(config_path(Shell::Bash, Some("/home/u"), None).ok().unwrap(), "/home/u/.bashrc");
    assert_eq!(config_path(Shell::Zsh, Some("/home/u/"), Some("/x")).ok().unwrap(), "/home/u/.zshrc");
    assert_eq!(config_path(Shell::Fish, None, Some("/x")).ok().unwrap(), "/x/fish/config.fish");
    assert_eq!(
        config_path(Shell::Fish, Some("/home/u"), None).ok().unwrap(),
        "/home/u/.config/fish/config.fish"
    );
    let err = config_path(Shell::Bash, None, Some("/x")).err().unwrap();
    assert_eq!(err.message(), "could not find home directory: $HOME is not set");
}

#[test]
fn install_and_uninstall_switches_pick_the_action() {
    assert_eq!(init_action(true, false), InitAction::Install);
    assert_eq!(init_action(false, true), InitAction::Uninstall);
    assert_eq!(init_action(false, false), InitAction::Print);
}

#[test]
fn removal_leaves_no_block_even_with_stray_carriage_returns() {
    let config = "a\r\r\n# >>> rewind init >>>\r\r\nold hook\n# <<< rewind init <<<\r\r\nb\r\r\n";
    let cleaned = remove_managed_block(config);
    assert_eq!(cleaned, "a\r\nb\n");
    assert!(!has_managed_block(&cleaned));
}

#[test]
fn appending_a_block_to_any_text_leaves_one() {
    let block = managed_block("echo hi");
    for text in ["", "a\r\r\nb", "# >>> rewind init >>>\nunclosed", "x\n# <<< rewind init <<<\n"] {
        assert!(has_managed_block(&append_block(text, &block)));
    }
}

#[test]
fn removing_twice_is_removing_once() {
    let config = "export A=1\n\n# >>> rewind init >>>\nhook\n# <<< rewind init <<<\nalias x=y\n";
    let once = remove_managed_block(config);
    assert_eq!(once, "export A=1\n\nalias x=y\n");
    assert_eq!(remove_managed_block(&once), once);
}

#[test]
fn trimming_follows_unicode_white_space() {
    assert_eq!(trim("\u{3000}\u{a0} x y\u{2028}\u{85}\t"), "x y");
    assert_eq!(trim("\u{200b}x"), "\u{200b}x");
    for c in ['\u{1680}', '\u{2000}', '\u{200a}', '\u{2029}', '\u{202f}', '\u{205f}', '\u{b}', '\u{c}'] {
        assert_eq!(trim(&format!("{c}z{c}")), "z");
    }
}
