use athena_welcome::display::{display_from_outputs, display_probes, find_display, xauthority_path};
use athena_welcome::navigation::{next_page, previous_page};
use athena_welcome::text::{is_whitespace, lines_of, trim};
use athena_welcome::theme::{
    clean_theme_value, default_theme_settings, theme_path_candidates, theme_probes,
    theme_setting, theme_setting_key, theme_settings_from,
};

fn s(text: &str) -> String {
    text.to_string()
}

#[test]
fn display_is_the_word_with_the_first_colon() {
    assert_eq!(find_display("Display=:0\n"), Some(s("Display=:0")));
    assert_eq!(
        find_display("alice    tty2     :1   10:00  gdm\n"),
        Some(s(":1"))
    );
    assert_eq!(find_display("alice tty1\nbob pts/0 :2 \n"), Some(s(":2")));
    assert_eq!(find_display("no display here\n"), None);
    assert_eq!(find_display(""), None);
    assert_eq!(find_display(":"), Some(s(":")));
}

#[test]
fn later_probes_replace_the_display() {
    let outputs = vec![s("Display=:0\n"), s("nothing\n"), s("bob tty :3\n")];
    assert_eq!(display_from_outputs(&outputs), Some(s(":3")));
    let outputs = vec![s("Display=:0\n"), s("nothing\n")];
    assert_eq!(display_from_outputs(&outputs), Some(s("Display=:0")));
    assert_eq!(display_from_outputs(&vec![s("x"), s("y")]), None);
}

#[test]
fn display_probes_name_the_user() {
    let probes = display_probes("alice");
    assert_eq!(probes.len(), 3);
    assert_eq!(probes[0].command, "loginctl");
    assert_eq!(probes[0].args, vec![s("show-user"), s("alice"), s("-p"), s("Display")]);
    assert_eq!(probes[1].command, "w");
    assert_eq!(probes[1].args, vec![s("-hs"), s("alice")]);
    assert_eq!(probes[2].command, "who");
    assert!(probes[2].args.is_empty());
}

#[test]
fn xauthority_lives_in_the_home_directory() {
    assert_eq!(xauthority_path("/home/alice"), "/home/alice/.Xauthority");
}

#[test]
fn pages_wrap_around() {
    assert_eq!(previous_page(0, 3), 2);
    assert_eq!(previous_page(2, 3), 1);
    assert_eq!(next_page(2, 3), 0);
    assert_eq!(next_page(0, 3), 1);
    for p in 0..3 {
        assert_eq!(previous_page(next_page(p, 3), 3), p);
        assert_eq!(next_page(previous_page(p, 3), 3), p);
        let mut q = p;
        for _ in 0..3 {
            q = next_page(q, 3);
        }
        assert_eq!(q, p);
    }
}

#[test]
fn theme_probes_cover_gnome_xfce_and_kde() {
    let probes = theme_probes();
    assert_eq!(probes.len(), 17);
    assert_eq!(probes[0].command, "gsettings");
    assert_eq!(
        probes[0].args,
        vec![s("get"), s("org.gnome.desktop.interface"), s("gtk-theme")]
    );
    assert_eq!(probes[8].args[2], "button-layout");
    assert_eq!(probes[12].command, "xfconf-query");
    assert_eq!(probes[16].command, "kreadconfig5");
    assert_eq!(probes[16].args[5], "cursorTheme");
}

#[test]
fn theme_keys_follow_the_probe() {
    let probes = theme_probes();
    let keys: Vec<Option<String>> =
        probes.iter().map(|p| theme_setting_key(&p.command, &p.args)).collect();
    let expected = [
        "GTK_THEME",
        "GTK_ICON_THEME_NAME",
        "GTK_CURSOR_THEME_NAME",
        "GTK_FONT",
        "GTK_MONOSPACE_FONT",
        "GTK_DOCUMENT_FONT",
        "GTK_TITLEBAR_FONT",
        "GNOME_WM_THEME",
        "GNOME_WM_BUTTON_LAYOUT",
        "GTK_THEME",
        "GTK_ICON_THEME_NAME",
        "GTK_CURSOR_THEME_NAME",
        "GTK_THEME",
        "GTK_ICON_THEME_NAME",
        "GTK_CURSOR_THEME_NAME",
        "GTK_FONT",
        "GTK_CURSOR_THEME_NAME",
    ];
    for (key, want) in keys.iter().zip(expected.iter()) {
        assert_eq!(key.as_deref(), Some(*want));
    }
    let other = vec![s("get"), s("org.example"), s("x")];
    assert_eq!(theme_setting_key(&s("gsettings"), &other), None);
    assert_eq!(theme_setting_key(&s("dconf"), &other), None);
}

#[test]
fn theme_values_are_trimmed_and_unquoted() {
    assert_eq!(clean_theme_value("'Adwaita-dark'\n"), "Adwaita-dark");
    assert_eq!(clean_theme_value("  ''Yaru''  "), "Yaru");
    assert_eq!(clean_theme_value("Cantarell 11\n"), "Cantarell 11");
    assert_eq!(clean_theme_value("' spaced '"), " spaced ");
    assert_eq!(clean_theme_value("''\n"), "");
}

#[test]
fn empty_answers_give_no_setting() {
    let probes = theme_probes();
    assert_eq!(theme_setting(&probes[0].command, &probes[0].args, "''\n"), None);
    assert_eq!(
        theme_setting(&probes[3].command, &probes[3].args, "'Cantarell 11'\n"),
        Some((s("GTK_FONT"), s("Cantarell 11")))
    );
}

#[test]
fn defaults_stand_in_when_nothing_is_found() {
    let outputs: Vec<Option<String>> = vec![None; 17];
    let settings = theme_settings_from(&outputs, &Vec::new());
    assert_eq!(settings, default_theme_settings());
    assert_eq!(settings.len(), 9);
    assert_eq!(settings[0], (s("GTK_THEME"), s("Adwaita")));
    assert_eq!(
        settings[8],
        (s("GNOME_WM_BUTTON_LAYOUT"), s("menu:minimize,maximize,close"))
    );
}

#[test]
fn found_settings_replace_the_defaults() {
    let mut outputs: Vec<Option<String>> = vec![None; 17];
    outputs[0] = Some(s("'Yaru-dark'\n"));
    outputs[1] = Some(s("''\n"));
    outputs[13] = Some(s("Papirus\n"));
    let paths = vec![s("/usr/share/themes")];
    let settings = theme_settings_from(&outputs, &paths);
    assert_eq!(
        settings,
        vec![
            (s("GTK_THEME"), s("Yaru-dark")),
            (s("GTK_ICON_THEME_NAME"), s("Papirus")),
            (s("GTK_THEME_PATH"), s("/usr/share/themes")),
        ]
    );
    let only_paths = theme_settings_from(&vec![None; 17], &paths);
    assert_eq!(only_paths, vec![(s("GTK_THEME_PATH"), s("/usr/share/themes"))]);
}

#[test]
fn theme_directories_of_a_home() {
    assert_eq!(
        theme_path_candidates("/home/alice"),
        vec![
            s("/home/alice/.themes"),
            s("/home/alice/.local/share/themes"),
            s("/usr/share/themes"),
            s("/usr/local/share/themes"),
        ]
    );
}

#[test]
fn text_helpers_match_std() {
    for c in ['\t', '\n', ' ', '\u{85}', '\u{a0}', '\u{1680}', '\u{2000}', '\u{200a}', '\u{2028}', '\u{202f}', '\u{205f}', '\u{3000}', 'a', ':', '\u{200b}', '\u{feff}'] {
        assert_eq!(is_whitespace(c), c.is_whitespace());
    }
    for text in ["", "  a b  ", "\u{3000}x\u{a0}", "\t\n"] {
        assert_eq!(trim(text), text.trim());
    }
    assert_eq!(lines_of("a\nb\n"), vec![s("a"), s("b"), s("")]);
    assert_eq!(lines_of(""), vec![s("")]);
}
