use rewind::display::{
    command_lines, duration_display, duration_text, entry_line, exit_status_label, filter_label, format_branch_label,
    gutter_text, heading_kind, listing, shorten_home_path, status_symbol, DurationDisplay, HeadingKind,
    LabelState,
};
use rewind::entry::Entry;
use rewind::filter::{Filter, FilterContext, FilterShortcut, FilterToggle};

#[test]
fn branch_labels_and_status_marks() {
    assert_eq!(format_branch_label(Some("main")), " [main]");
    assert_eq!(format_branch_label(None), "");
    assert_eq!(status_symbol(Some(0)), "✓");
    assert_eq!(status_symbol(Some(2)), "✗");
    assert_eq!(status_symbol(None), "?");
    assert_eq!(exit_status_label(None), "● running");
    assert_eq!(exit_status_label(Some(0)), "exit 0");
    assert_eq!(exit_status_label(Some(-9)), "exit -9");
}

#[test]
fn commands_are_edited_line_by_line() {
    assert_eq!(command_lines(""), vec![""]);
    assert_eq!(command_lines("a\nb"), vec!["a", "b"]);
    assert_eq!(command_lines("a\r\n"), vec!["a"]);
}

#[test]
fn home_is_written_as_tilde() {
    assert_eq!(shorten_home_path("/home/u", Some("/home/u")), "~");
    assert_eq!(shorten_home_path("/home/u/src", Some("/home/u")), "~/src");
    assert_eq!(shorten_home_path("/home/user", Some("/home/u")), "/home/user");
    assert_eq!(shorten_home_path("/etc", Some("/home/u")), "/etc");
    assert_eq!(shorten_home_path("/etc", Some("")), "/etc");
    assert_eq!(shorten_home_path("/etc", None), "/etc");
}

#[test]
fn gutter_is_right_aligned() {
    assert_eq!(gutter_text("12:30"), " 12:30 ");
    assert_eq!(gutter_text("1234567"), "1234567 ");
    assert_eq!(gutter_text(""), "       ");
}

#[test]
fn durations_pick_their_unit() {
    assert_eq!(duration_display(999), DurationDisplay::Millis(999));
    assert_eq!(duration_display(-5), DurationDisplay::Millis(-5));
    assert_eq!(duration_display(1500), DurationDisplay::Seconds(1500));
    assert_eq!(
        duration_display(125_000),
        DurationDisplay::MinutesSeconds { minutes: 2, seconds: 5 }
    );
}

#[test]
fn headings_name_today_and_yesterday() {
    let today = (2024, 3, 1);
    let yesterday = Some((2024, 2, 29));
    assert_eq!(heading_kind((2024, 3, 1), today, yesterday), HeadingKind::Today);
    assert_eq!(heading_kind((2024, 2, 29), today, yesterday), HeadingKind::Yesterday);
    assert_eq!(heading_kind((2024, 1, 5), today, yesterday), HeadingKind::ThisYear);
    assert_eq!(heading_kind((2023, 12, 31), today, yesterday), HeadingKind::OtherYear);
}

#[test]
fn filter_labels_show_their_state() {
    let shortcut = FilterShortcut { key: "r", label: "repo", toggle: FilterToggle::Repo };
    let none = FilterContext::new("/w".to_owned(), None, None);
    let repo = FilterContext::new("/w".to_owned(), Some("/w".to_owned()), None);
    assert_eq!(filter_label(&shortcut, &Filter::new(), &none), ("repo n/a".to_owned(), LabelState::Unavailable));
    assert_eq!(filter_label(&shortcut, &Filter::new(), &repo), ("repo".to_owned(), LabelState::Available));
    let on = Filter::new().git_repo("/w".to_owned());
    assert_eq!(filter_label(&shortcut, &on, &repo), (" repo ".to_owned(), LabelState::Active));
}

#[test]
fn printed_lines_carry_status_branch_and_duration() {
    let mut e = Entry::new("cargo test".to_owned(), "/p".to_owned(), "/p".to_owned(), None, Some("main".to_owned()));
    e.exit_code = Some(101);
    e.duration_ms = Some(2500);
    assert_eq!(entry_line("09:15", &e), "  09:15  ✗101 [main] 2500ms  cargo test");
    let running = Entry::new("make".to_owned(), "/p".to_owned(), "/p".to_owned(), None, None);
    assert_eq!(entry_line("10:00", &running), "  10:00  ?  make");
}

#[test]
fn listings_print_each_heading_once() {
    let headings = vec!["Today".to_owned(), "Today".to_owned(), "Yesterday".to_owned()];
    let lines = vec!["a".to_owned(), "b".to_owned(), "c".to_owned()];
    assert_eq!(listing(&headings, &lines), vec!["Today", "a", "b", "", "Yesterday", "c"]);
    assert!(listing(&vec![], &vec![]).is_empty());
}

#[test]
fn whole_number_durations_are_written_out() {
    assert_eq!(duration_text(999), Some("999ms".to_owned()));
    assert_eq!(duration_text(0), Some("0ms".to_owned()));
    assert_eq!(duration_text(-5), Some("-5ms".to_owned()));
    assert_eq!(duration_text(1_500), None);
    assert_eq!(duration_text(59_999), None);
    assert_eq!(duration_text(60_000), Some("1m0s".to_owned()));
    assert_eq!(duration_text(125_400), Some("2m5s".to_owned()));
}
