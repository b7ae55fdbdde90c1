use rewind::theme::{
    command_output_text, detect_dark_mode, detect_gnome_dark_mode, detect_kde_dark_mode,
    detect_terminal_dark_mode, kde_window_background, kdeglobals_path, macos_dark_mode, parse_colorfgbg,
    parse_rgb, parse_term_background, parse_unsigned, parse_windows_apps_use_light_theme, split_char,
};

#[test]
fn colorfgbg_reads_the_last_field() {
    assert_eq!(parse_colorfgbg("15;0"), Some(true));
    assert_eq!(parse_colorfgbg("0;15"), Some(false));
    assert_eq!(parse_colorfgbg("0;default;7"), Some(true));
    assert_eq!(parse_colorfgbg("0; 8 "), Some(false));
    assert_eq!(parse_colorfgbg("0;256"), None);
    assert_eq!(parse_colorfgbg("0;"), None);
}

#[test]
fn term_background_is_dark_or_light_in_any_case() {
    assert_eq!(parse_term_background(" DARK "), Some(true));
    assert_eq!(parse_term_background("Light"), Some(false));
    assert_eq!(parse_term_background("dim"), None);
}

#[test]
fn colorfgbg_wins_over_term_background() {
    assert_eq!(detect_terminal_dark_mode(Some("15;0"), Some("light")), Some(true));
    assert_eq!(detect_terminal_dark_mode(Some("bogus"), Some("light")), Some(false));
    assert_eq!(detect_terminal_dark_mode(None, None), None);
}

#[test]
fn unsigned_numbers_parse_like_str_parse() {
    assert_eq!(parse_unsigned("255", 255), Some(255));
    assert_eq!(parse_unsigned("+7", 255), Some(7));
    assert_eq!(parse_unsigned("007", 255), Some(7));
    assert_eq!(parse_unsigned("256", 255), None);
    assert_eq!(parse_unsigned("", 255), None);
    assert_eq!(parse_unsigned("+", 255), None);
    assert_eq!(parse_unsigned("-1", 255), None);
    assert_eq!(parse_unsigned("1a", 255), None);
    assert_eq!(parse_unsigned("65535", 65535), Some(65535));
    for text in ["0", "9", "+12", "99999999", "12x"] {
        assert_eq!(parse_unsigned(text, 65535), text.parse::<u16>().ok().map(u32::from));
    }
}

#[test]
fn gnome_prefers_the_color_scheme_then_the_gtk_theme() {
    assert_eq!(detect_gnome_dark_mode(Some("'prefer-dark'"), Some("'Adwaita'")), Some(true));
    assert_eq!(detect_gnome_dark_mode(Some("'Prefer-Light'"), None), Some(false));
    assert_eq!(detect_gnome_dark_mode(Some("'default'"), Some("'Adwaita-Dark'")), Some(true));
    assert_eq!(detect_gnome_dark_mode(Some("'default'"), Some("'Yaru-light'")), Some(false));
    assert_eq!(detect_gnome_dark_mode(Some("'default'"), Some("'Adwaita'")), None);
    assert_eq!(detect_gnome_dark_mode(None, None), None);
}

#[test]
fn kde_takes_the_first_reader_that_decides() {
    let outputs = vec![None, Some("Breeze".to_owned()), Some("BreezeDark".to_owned()), Some("BreezeLight".to_owned())];
    assert_eq!(detect_kde_dark_mode(&outputs, Some(false)), Some(true));
    assert_eq!(detect_kde_dark_mode(&vec![None, None, None], Some(false)), Some(false));
    assert_eq!(detect_kde_dark_mode(&vec![Some("BREEZE LIGHT".to_owned())], None), Some(false));
}

#[test]
fn kdeglobals_background_is_read_from_the_window_section() {
    let contents = "[General]\nBackgroundNormal=1,1,1\n[Colors:View]\nBackgroundNormal=2,2,2\n [Colors:Window] \n  BackgroundNormal=35,38,41  \n";
    assert_eq!(kde_window_background(contents).as_deref(), Some("35,38,41"));
    assert_eq!(kde_window_background("[Colors:Window]\nForegroundNormal=1,2,3\n"), None);
    assert_eq!(parse_rgb("35, 38 ,41"), Some((35, 38, 41)));
    assert_eq!(parse_rgb("1,2,3,4"), Some((1, 2, 3)));
    assert_eq!(parse_rgb("1,2"), None);
    assert_eq!(parse_rgb("1,x,3"), None);
    assert_eq!(parse_rgb("1,2,70000"), None);
}

#[test]
fn windows_registry_value_says_light_or_dark() {
    let out = "\r\nHKEY_CURRENT_USER\\Software\\Microsoft\\Windows\\CurrentVersion\\Themes\\Personalize\r\n    AppsUseLightTheme    REG_DWORD    0x0\r\n";
    assert_eq!(parse_windows_apps_use_light_theme(out), Some(true));
    assert_eq!(parse_windows_apps_use_light_theme("AppsUseLightTheme REG_DWORD 0x1"), Some(false));
    assert_eq!(parse_windows_apps_use_light_theme("AppsUseLightTheme REG_DWORD 1  "), Some(false));
    assert_eq!(parse_windows_apps_use_light_theme("AppsUseLightTheme REG_DWORD 0x2"), None);
    assert_eq!(parse_windows_apps_use_light_theme("nothing here"), None);
}

#[test]
fn macos_is_dark_only_when_it_says_so() {
    assert!(macos_dark_mode(Some("Dark")));
    assert!(!macos_dark_mode(Some("Light")));
    assert!(!macos_dark_mode(None));
}

#[test]
fn dark_is_the_fallback() {
    assert!(detect_dark_mode(None, None));
    assert!(!detect_dark_mode(Some(false), Some(true)));
    assert!(!detect_dark_mode(None, Some(false)));
}

#[test]
fn helpers_behave_like_std() {
    assert_eq!(split_char("a;;b", ';'), vec!["a", "", "b"]);
    assert_eq!(split_char("", ';'), vec![""]);
    assert_eq!(command_output_text("  Dark\n").as_deref(), Some("Dark"));
    assert_eq!(command_output_text(" \n"), None);
    assert_eq!(kdeglobals_path(Some("/x"), Some("/h")).as_deref(), Some("/x/kdeglobals"));
    assert_eq!(kdeglobals_path(None, Some("/h")).as_deref(), Some("/h/.config/kdeglobals"));
    assert_eq!(kdeglobals_path(None, None), None);
}
