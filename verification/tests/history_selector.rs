use rewind::args::{normalize_history_selector, parse_cmd_args, short_history_option_span};

fn strings(args: &[&str]) -> Vec<String> {
    args.iter().map(|a| a.to_string()).collect()
}

#[test]
fn normalizes_history_selector_with_filters() {
    let args = strings(&["rw", "--repo", "-2", "--plain", "--ok"]);
    let normalized = normalize_history_selector(args);

    assert_eq!(
        normalized,
        strings(&["rw", "--repo", "--index", "2", "--plain", "--ok"])
    );
}

#[test]
fn normalizes_history_selector_after_grouped_short_flags() {
    let args = strings(&["rw", "-of", "-3"]);

    assert_eq!(
        normalize_history_selector(args),
        strings(&["rw", "-of", "--index", "3"])
    );
}

#[test]
fn leaves_command_arguments_unchanged() {
    let args = strings(&["rw", "run", "echo", "-2"]);

    assert_eq!(normalize_history_selector(args.clone()), args);
}

#[test]
fn limit_values_are_skipped_before_the_selector() {
    assert_eq!(
        normalize_history_selector(strings(&["rw", "-l", "5", "-12"])),
        strings(&["rw", "-l", "5", "--index", "12"])
    );
    assert_eq!(
        normalize_history_selector(strings(&["rw", "--limit=5", "-1"])),
        strings(&["rw", "--limit=5", "--index", "1"])
    );
    assert_eq!(
        normalize_history_selector(strings(&["rw", "-cl5", "-4"])),
        strings(&["rw", "-cl5", "--index", "4"])
    );
    assert_eq!(
        normalize_history_selector(strings(&["rw", "-x", "-4"])),
        strings(&["rw", "-x", "-4"])
    );
    assert_eq!(normalize_history_selector(strings(&["rw", "-"])), strings(&["rw", "-"]));
}

#[test]
fn short_option_spans() {
    assert_eq!(short_history_option_span("-of"), Some(1));
    assert_eq!(short_history_option_span("-l"), Some(2));
    assert_eq!(short_history_option_span("-cl"), Some(2));
    assert_eq!(short_history_option_span("-l20"), Some(1));
    assert_eq!(short_history_option_span("-"), None);
    assert_eq!(short_history_option_span("--ok"), None);
    assert_eq!(short_history_option_span("-z"), None);
    assert_eq!(short_history_option_span("x"), None);
}

#[test]
fn command_arguments_are_single_quoted() {
    assert_eq!(
        parse_cmd_args(&strings(&["echo", "it's", "a b"])),
        "'echo' 'it'\\''s' 'a b'"
    );
    assert_eq!(parse_cmd_args(&[]), "");
}
