//! The desktop theme settings of the user: which settings commands are asked,
//! which setting each answer gives, and the defaults used when none is found.

use vstd::prelude::*;
use crate::probe::{probe_view, probe_views, strings_of, Probe};
use crate::text::{trim, trim_by, trim_class, trim_spec, views, CharClass};

verus! {

/// A `gsettings get <schema> <key>` probe.
pub open spec fn gsettings_view(schema: Seq<char>, key: Seq<char>) -> (Seq<char>, Seq<Seq<char>>) {
    ("gsettings"@, seq!["get"@, schema, key])
}

/// An `xfconf-query -c xsettings -p <property>` probe.
pub open spec fn xfconf_view(property: Seq<char>) -> (Seq<char>, Seq<Seq<char>>) {
    ("xfconf-query"@, seq!["-c"@, "xsettings"@, "-p"@, property])
}

/// A `kreadconfig5 --file <file> --group <group> --key <key>` probe.
pub open spec fn kreadconfig_view(file: Seq<char>, group: Seq<char>, key: Seq<char>) -> (
    Seq<char>,
    Seq<Seq<char>>,
) {
    ("kreadconfig5"@, seq!["--file"@, file, "--group"@, group, "--key"@, key])
}

/// The GNOME interface schema.
pub open spec fn interface_schema() -> Seq<char> {
    "org.gnome.desktop.interface"@
}

/// The GNOME window-manager schema.
pub open spec fn wm_schema() -> Seq<char> {
    "org.gnome.desktop.wm.preferences"@
}

/// The commands asked for theme settings, in the order they run: GNOME,
/// GTK 3 (the same GNOME keys again), XFCE, then KDE.
pub open spec fn theme_probe_table() -> Seq<(Seq<char>, Seq<Seq<char>>)> {
    seq![
        gsettings_view(interface_schema(), "gtk-theme"@),
        gsettings_view(interface_schema(), "icon-theme"@),
        gsettings_view(interface_schema(), "cursor-theme"@),
        gsettings_view(interface_schema(), "font-name"@),
        gsettings_view(interface_schema(), "monospace-font-name"@),
        gsettings_view(interface_schema(), "document-font-name"@),
        gsettings_view(interface_schema(), "titlebar-font"@),
        gsettings_view(wm_schema(), "theme"@),
        gsettings_view(wm_schema(), "button-layout"@),
        gsettings_view(interface_schema(), "gtk-theme"@),
        gsettings_view(interface_schema(), "icon-theme"@),
        gsettings_view(interface_schema(), "cursor-theme"@),
        xfconf_view("/Net/ThemeName"@),
        xfconf_view("/Net/IconThemeName"@),
        xfconf_view("/Gtk/CursorThemeName"@),
        kreadconfig_view("kcmfonts"@, "General"@, "font"@),
        kreadconfig_view("kcminputrc"@, "Mouse"@, "cursorTheme"@),
    ]
}

fn gsettings_probe(schema: &str, key: &str) -> (p: Probe)
    ensures
        probe_view(p) == gsettings_view(schema@, key@),
{
    let args = strings_of(&["get", schema, key]);
    assert(views(args@) =~= seq!["get"@, schema@, key@]);
    Probe { command: String::from_str("gsettings"), args }
}

fn xfconf_probe(property: &str) -> (p: Probe)
    ensures
        probe_view(p) == xfconf_view(property@),
{
    let args = strings_of(&["-c", "xsettings", "-p", property]);
    assert(views(args@) =~= seq!["-c"@, "xsettings"@, "-p"@, property@]);
    Probe { command: String::from_str("xfconf-query"), args }
}

fn kreadconfig_probe(file: &str, group: &str, key: &str) -> (p: Probe)
    ensures
        probe_view(p) == kreadconfig_view(file@, group@, key@),
{
    let args = strings_of(&["--file", file, "--group", group, "--key", key]);
    assert(views(args@) =~= seq!["--file"@, file@, "--group"@, group@, "--key"@, key@]);
    Probe { command: String::from_str("kreadconfig5"), args }
}

/// The commands asked for theme settings, in the order they run.
pub fn theme_probes() -> (probes: Vec<Probe>)
    ensures
        probe_views(probes@) == theme_probe_table(),
{
    let interface = "org.gnome.desktop.interface";
    let wm = "org.gnome.desktop.wm.preferences";
    let mut probes: Vec<Probe> = Vec::new();
    probes.push(gsettings_probe(interface, "gtk-theme"));
    probes.push(gsettings_probe(interface, "icon-theme"));
    probes.push(gsettings_probe(interface, "cursor-theme"));
    probes.push(gsettings_probe(interface, "font-name"));
    probes.push(gsettings_probe(interface, "monospace-font-name"));
    probes.push(gsettings_probe(interface, "document-font-name"));
    probes.push(gsettings_probe(interface, "titlebar-font"));
    probes.push(gsettings_probe(wm, "theme"));
    probes.push(gsettings_probe(wm, "button-layout"));
    probes.push(gsettings_probe(interface, "gtk-theme"));
    probes.push(gsettings_probe(interface, "icon-theme"));
    probes.push(gsettings_probe(interface, "cursor-theme"));
    probes.push(xfconf_probe("/Net/ThemeName"));
    probes.push(xfconf_probe("/Net/IconThemeName"));
    probes.push(xfconf_probe("/Gtk/CursorThemeName"));
    probes.push(kreadconfig_probe("kcmfonts", "General", "font"));
    probes.push(kreadconfig_probe("kcminputrc", "Mouse", "cursorTheme"));
    assert(probe_views(probes@) =~= theme_probe_table());
    probes
}

/// Whether the arguments of a probe are long enough for `theme_key_of` to
/// read the positions it reads.
pub open spec fn key_args_ok(command: Seq<char>, args: Seq<Seq<char>>) -> bool {
    &&& command == "gsettings"@ ==> args.len() >= 2 && ((args[1] == interface_schema() || args[1]
        == wm_schema()) ==> args.len() >= 3)
    &&& command == "xfconf-query"@ ==> args.len() >= 4
    &&& command == "kreadconfig5"@ ==> args.len() >= 2
}

/// The setting that the answer of the probe `command args` gives a value
/// for, if any.
pub open spec fn theme_key_of(command: Seq<char>, args: Seq<Seq<char>>) -> Option<Seq<char>> {
    if command == "gsettings"@ {
        if args[1] == interface_schema() {
            let key = args[2];
            if key == "gtk-theme"@ {
                Some("GTK_THEME"@)
            } else if key == "icon-theme"@ {
                Some("GTK_ICON_THEME_NAME"@)
            } else if key == "cursor-theme"@ {
                Some("GTK_CURSOR_THEME_NAME"@)
            } else if key == "font-name"@ {
                Some("GTK_FONT"@)
            } else if key == "monospace-font-name"@ {
                Some("GTK_MONOSPACE_FONT"@)
            } else if key == "document-font-name"@ {
                Some("GTK_DOCUMENT_FONT"@)
            } else if key == "titlebar-font"@ {
                Some("GTK_TITLEBAR_FONT"@)
            } else {
                None
            }
        } else if args[1] == wm_schema() {
            let key = args[2];
            if key == "theme"@ {
                Some("GNOME_WM_THEME"@)
            } else if key == "button-layout"@ {
                Some("GNOME_WM_BUTTON_LAYOUT"@)
            } else {
                None
            }
        } else {
            None
        }
    } else if command == "xfconf-query"@ {
        let property = args[3];
        if property == "/Net/ThemeName"@ {
            Some("GTK_THEME"@)
        } else if property == "/Net/IconThemeName"@ {
            Some("GTK_ICON_THEME_NAME"@)
        } else if property == "/Gtk/CursorThemeName"@ {
            Some("GTK_CURSOR_THEME_NAME"@)
        } else {
            None
        }
    } else if command == "kreadconfig5"@ {
        if args[1] == "kcmfonts"@ {
            Some("GTK_FONT"@)
        } else if args[1] == "kcminputrc"@ {
            Some("GTK_CURSOR_THEME_NAME"@)
        } else {
            None
        }
    } else {
        None
    }
}

fn equals(s: &String, text: &str) -> (r: bool)
    ensures
        r == (s@ == text@),
{
    *s == String::from_str(text)
}

fn some_str(text: &str) -> (r: Option<String>)
    ensures
        r matches Some(k) && k@ == text@,
{
    Some(String::from_str(text))
}

/// The setting that the answer of the probe `command args` gives a value
/// for, if any.
pub fn theme_setting_key(command: &String, args: &Vec<String>) -> (key: Option<String>)
    requires
        key_args_ok(command@, views(args@)),
    ensures
        key matches Some(k) ==> theme_key_of(command@, views(args@)) == Some(k@),
        key is None ==> theme_key_of(command@, views(args@)) is None,
{
    let ghost a = views(args@);
    if equals(command, "gsettings") {
        assert(a[1] == args@[1]@);
        if equals(&args[1], "org.gnome.desktop.interface") {
            assert(a[2] == args@[2]@);
            let key = &args[2];
            if equals(key, "gtk-theme") {
                some_str("GTK_THEME")
            } else if equals(key, "icon-theme") {
                some_str("GTK_ICON_THEME_NAME")
            } else if equals(key, "cursor-theme") {
                some_str("GTK_CURSOR_THEME_NAME")
            } else if equals(key, "font-name") {
                some_str("GTK_FONT")
            } else if equals(key, "monospace-font-name") {
                some_str("GTK_MONOSPACE_FONT")
            } else if equals(key, "document-font-name") {
                some_str("GTK_DOCUMENT_FONT")
            } else if equals(key, "titlebar-font") {
                some_str("GTK_TITLEBAR_FONT")
            } else {
                None
            }
        } else if equals(&args[1], "org.gnome.desktop.wm.preferences") {
            assert(a[2] == args@[2]@);
            let key = &args[2];
            if equals(key, "theme") {
                some_str("GNOME_WM_THEME")
            } else if equals(key, "button-layout") {
                some_str("GNOME_WM_BUTTON_LAYOUT")
            } else {
                None
            }
        } else {
            None
        }
    } else if equals(command, "xfconf-query") {
        assert(a[3] == args@[3]@);
        let property = &args[3];
        if equals(property, "/Net/ThemeName") {
            some_str("GTK_THEME")
        } else if equals(property, "/Net/IconThemeName") {
            some_str("GTK_ICON_THEME_NAME")
        } else if equals(property, "/Gtk/CursorThemeName") {
            some_str("GTK_CURSOR_THEME_NAME")
        } else {
            None
        }
    } else if equals(command, "kreadconfig5") {
        assert(a[1] == args@[1]@);
        if equals(&args[1], "kcmfonts") {
            some_str("GTK_FONT")
        } else if equals(&args[1], "kcminputrc") {
            some_str("GTK_CURSOR_THEME_NAME")
        } else {
            None
        }
    } else {
        None
    }
}

/// The value in the answer `raw` of a settings command: trimmed, then
/// stripped of surrounding `'` characters.
pub open spec fn clean_value(raw: Seq<char>) -> Seq<char> {
    trim_by(trim_spec(raw), CharClass::Exactly('\''))
}

/// The value in the answer `raw` of a settings command (see `clean_value`).
pub fn clean_theme_value(raw: &str) -> (value: String)
    ensures
        value@ == clean_value(raw@),
{
    let t = trim(raw);
    trim_class(t.as_str(), CharClass::Exactly('\''))
}

/// The setting that the probe `command args` answered with `raw` gives: its
/// key and the cleaned value, when the value is not empty and the probe
/// names a setting.
pub open spec fn theme_entry(command: Seq<char>, args: Seq<Seq<char>>, raw: Seq<char>) -> Option<
    (Seq<char>, Seq<char>),
> {
    let value = clean_value(raw);
    if value.len() == 0 {
        None
    } else {
        match theme_key_of(command, args) {
            Some(key) => Some((key, value)),
            None => None,
        }
    }
}

/// The setting that the probe `command args` answered with `raw` gives.
pub fn theme_setting(
    command: &String,
    args: &Vec<String>,
    raw: &str,
) -> (entry: Option<(String, String)>)
    requires
        clean_value(raw@).len() > 0 ==> key_args_ok(command@, views(args@)),
    ensures
        entry matches Some(e) ==> theme_entry(command@, views(args@), raw@) == Some((e.0@, e.1@)),
        entry is None ==> theme_entry(command@, views(args@), raw@) is None,
{
    let value = clean_theme_value(raw);
    if value.unicode_len() == 0 {
        return None;
    }
    match theme_setting_key(command, args) {
        Some(key) => Some((key, value)),
        None => None,
    }
}

/// The views of a sequence of (key, value) pairs.
pub open spec fn pair_views(v: Seq<(String, String)>) -> Seq<(Seq<char>, Seq<char>)> {
    v.map_values(|p: (String, String)| (p.0@, p.1@))
}

/// The views of a sequence of optional strings.
pub open spec fn option_views(v: Seq<Option<String>>) -> Seq<Option<Seq<char>>> {
    v.map_values(
        |o: Option<String>|
            match o {
                Some(s) => Some(s@),
                None => None,
            },
    )
}

/// The settings used when no source gives any.
pub open spec fn default_theme_table() -> Seq<(Seq<char>, Seq<char>)> {
    seq![
        ("GTK_THEME"@, "Adwaita"@),
        ("GTK_ICON_THEME_NAME"@, "Adwaita"@),
        ("GTK_CURSOR_THEME_NAME"@, "Adwaita"@),
        ("GTK_FONT"@, "Cantarell 11"@),
        ("GTK_MONOSPACE_FONT"@, "Monospace 11"@),
        ("GTK_DOCUMENT_FONT"@, "Sans 11"@),
        ("GTK_TITLEBAR_FONT"@, "Cantarell Bold 11"@),
        ("GNOME_WM_THEME"@, "Adwaita"@),
        ("GNOME_WM_BUTTON_LAYOUT"@, "menu:minimize,maximize,close"@),
    ]
}

fn pair(key: &str, value: &str) -> (p: (String, String))
    ensures
        p.0@ == key@,
        p.1@ == value@,
{
    (String::from_str(key), String::from_str(value))
}

/// The settings used when no source gives any.
pub fn default_theme_settings() -> (settings: Vec<(String, String)>)
    ensures
        pair_views(settings@) == default_theme_table(),
        settings.len() == 9,
        settings[0].0@ == "GTK_THEME"@ && settings[0].1@ == "Adwaita"@,
        settings[1].0@ == "GTK_ICON_THEME_NAME"@ && settings[1].1@ == "Adwaita"@,
        settings[2].0@ == "GTK_CURSOR_THEME_NAME"@ && settings[2].1@ == "Adwaita"@,
        settings[3].0@ == "GTK_FONT"@ && settings[3].1@ == "Cantarell 11"@,
        settings[4].0@ == "GTK_MONOSPACE_FONT"@ && settings[4].1@ == "Monospace 11"@,
        settings[5].0@ == "GTK_DOCUMENT_FONT"@ && settings[5].1@ == "Sans 11"@,
        settings[6].0@ == "GTK_TITLEBAR_FONT"@ && settings[6].1@ == "Cantarell Bold 11"@,
        settings[7].0@ == "GNOME_WM_THEME"@ && settings[7].1@ == "Adwaita"@,
        settings[8].0@ == "GNOME_WM_BUTTON_LAYOUT"@ && settings[8].1@ == "menu:minimize,maximize,close"@,
{
    let mut settings: Vec<(String, String)> = Vec::new();
    settings.push(pair("GTK_THEME", "Adwaita"));
    settings.push(pair("GTK_ICON_THEME_NAME", "Adwaita"));
    settings.push(pair("GTK_CURSOR_THEME_NAME", "Adwaita"));
    settings.push(pair("GTK_FONT", "Cantarell 11"));
    settings.push(pair("GTK_MONOSPACE_FONT", "Monospace 11"));
    settings.push(pair("GTK_DOCUMENT_FONT", "Sans 11"));
    settings.push(pair("GTK_TITLEBAR_FONT", "Cantarell Bold 11"));
    settings.push(pair("GNOME_WM_THEME", "Adwaita"));
    settings.push(pair("GNOME_WM_BUTTON_LAYOUT", "menu:minimize,maximize,close"));
    assert(pair_views(settings@) =~= default_theme_table());
    settings
}

/// The directories that may hold themes, for the home directory `home`.
pub fn theme_path_candidates(home: &str) -> (paths: Vec<String>)
    ensures
        views(paths@) == seq![
            home@ + "/.themes"@,
            home@ + "/.local/share/themes"@,
            "/usr/share/themes"@,
            "/usr/local/share/themes"@,
        ],
{
    let mut paths: Vec<String> = Vec::new();
    paths.push(String::from_str(home).concat("/.themes"));
    paths.push(String::from_str(home).concat("/.local/share/themes"));
    paths.push(String::from_str("/usr/share/themes"));
    paths.push(String::from_str("/usr/local/share/themes"));
    assert(views(paths@) =~= seq![
        home@ + "/.themes"@,
        home@ + "/.local/share/themes"@,
        "/usr/share/themes"@,
        "/usr/local/share/themes"@,
    ]);
    paths
}

/// The settings that the answers `outputs` of the probes `table` give, in
/// probe order; a probe that could not run has no answer.
pub open spec fn entries_from(
    table: Seq<(Seq<char>, Seq<Seq<char>>)>,
    outputs: Seq<Option<Seq<char>>>,
) -> Seq<(Seq<char>, Seq<char>)>
    decreases outputs.len(),
{
    if outputs.len() == 0 {
        Seq::empty()
    } else {
        let init = entries_from(table, outputs.drop_last());
        let i = outputs.len() - 1;
        match outputs.last() {
            Some(raw) => match theme_entry(table[i].0, table[i].1, raw) {
                Some(e) => init.push(e),
                None => init,
            },
            None => init,
        }
    }
}

/// A theme-directory setting for each directory of `paths`.
pub open spec fn path_entries(paths: Seq<Seq<char>>) -> Seq<(Seq<char>, Seq<char>)> {
    paths.map_values(|p: Seq<char>| ("GTK_THEME_PATH"@, p))
}

/// The theme settings of the user: those that the answers of the theme
/// probes give, then a theme-directory setting for each existing directory;
/// the defaults when there are none.
pub open spec fn theme_settings_of(
    outputs: Seq<Option<Seq<char>>>,
    existing_paths: Seq<Seq<char>>,
) -> Seq<(Seq<char>, Seq<char>)> {
    let found = entries_from(theme_probe_table(), outputs) + path_entries(existing_paths);
    if found.len() == 0 {
        default_theme_table()
    } else {
        found
    }
}

proof fn lemma_command_names_differ()
    ensures
        "gsettings"@ != "xfconf-query"@,
        "gsettings"@ != "kreadconfig5"@,
        "xfconf-query"@ != "kreadconfig5"@,
{
    reveal_strlit("gsettings");
    reveal_strlit("xfconf-query");
    reveal_strlit("kreadconfig5");
    assert("gsettings"@.len() != "xfconf-query"@.len());
    assert("gsettings"@.len() != "kreadconfig5"@.len());
    assert("xfconf-query"@[0] != "kreadconfig5"@[0]);
}

proof fn lemma_gsettings_args_ok(schema: Seq<char>, key: Seq<char>)
    ensures
        key_args_ok(gsettings_view(schema, key).0, gsettings_view(schema, key).1),
{
    lemma_command_names_differ();
}

proof fn lemma_xfconf_args_ok(property: Seq<char>)
    ensures
        key_args_ok(xfconf_view(property).0, xfconf_view(property).1),
{
    lemma_command_names_differ();
}

proof fn lemma_kreadconfig_args_ok(file: Seq<char>, group: Seq<char>, key: Seq<char>)
    ensures
        key_args_ok(kreadconfig_view(file, group, key).0, kreadconfig_view(file, group, key).1),
{
    lemma_command_names_differ();
}

/// Every probe of the table has the arguments that `theme_key_of` reads.
proof fn lemma_table_args_ok(i: int)
    requires
        0 <= i < theme_probe_table().len(),
    ensures
        key_args_ok(theme_probe_table()[i].0, theme_probe_table()[i].1),
{
    if i == 0 {
        assert(theme_probe_table()[0] == gsettings_view(interface_schema(), "gtk-theme"@));
        lemma_gsettings_args_ok(interface_schema(), "gtk-theme"@);
    } else if i == 1 {
        assert(theme_probe_table()[1] == gsettings_view(interface_schema(), "icon-theme"@));
        lemma_gsettings_args_ok(interface_schema(), "icon-theme"@);
    } else if i == 2 {
        assert(theme_probe_table()[2] == gsettings_view(interface_schema(), "cursor-theme"@));
        lemma_gsettings_args_ok(interface_schema(), "cursor-theme"@);
    } else if i == 3 {
        assert(theme_probe_table()[3] == gsettings_view(interface_schema(), "font-name"@));
        lemma_gsettings_args_ok(interface_schema(), "font-name"@);
    } else if i == 4 {
        assert(theme_probe_table()[4] == gsettings_view(interface_schema(), "monospace-font-name"@));
        lemma_gsettings_args_ok(interface_schema(), "monospace-font-name"@);
    } else if i == 5 {
        assert(theme_probe_table()[5] == gsettings_view(interface_schema(), "document-font-name"@));
        lemma_gsettings_args_ok(interface_schema(), "document-font-name"@);
    } else if i == 6 {
        assert(theme_probe_table()[6] == gsettings_view(interface_schema(), "titlebar-font"@));
        lemma_gsettings_args_ok(interface_schema(), "titlebar-font"@);
    } else if i == 7 {
        assert(theme_probe_table()[7] == gsettings_view(wm_schema(), "theme"@));
        lemma_gsettings_args_ok(wm_schema(), "theme"@);
    } else if i == 8 {
        assert(theme_probe_table()[8] == gsettings_view(wm_schema(), "button-layout"@));
        lemma_gsettings_args_ok(wm_schema(), "button-layout"@);
    } else if i == 9 {
        assert(theme_probe_table()[9] == gsettings_view(interface_schema(), "gtk-theme"@));
        lemma_gsettings_args_ok(interface_schema(), "gtk-theme"@);
    } else if i == 10 {
        assert(theme_probe_table()[10] == gsettings_view(interface_schema(), "icon-theme"@));
        lemma_gsettings_args_ok(interface_schema(), "icon-theme"@);
    } else if i == 11 {
        assert(theme_probe_table()[11] == gsettings_view(interface_schema(), "cursor-theme"@));
        lemma_gsettings_args_ok(interface_schema(), "cursor-theme"@);
    } else if i == 12 {
        assert(theme_probe_table()[12] == xfconf_view("/Net/ThemeName"@));
        lemma_xfconf_args_ok("/Net/ThemeName"@);
    } else if i == 13 {
        assert(theme_probe_table()[13] == xfconf_view("/Net/IconThemeName"@));
        lemma_xfconf_args_ok("/Net/IconThemeName"@);
    } else if i == 14 {
        assert(theme_probe_table()[14] == xfconf_view("/Gtk/CursorThemeName"@));
        lemma_xfconf_args_ok("/Gtk/CursorThemeName"@);
    } else if i == 15 {
        assert(theme_probe_table()[15] == kreadconfig_view("kcmfonts"@, "General"@, "font"@));
        lemma_kreadconfig_args_ok("kcmfonts"@, "General"@, "font"@);
    } else if i == 16 {
        assert(theme_probe_table()[16] == kreadconfig_view("kcminputrc"@, "Mouse"@, "cursorTheme"@));
        lemma_kreadconfig_args_ok("kcminputrc"@, "Mouse"@, "cursorTheme"@);
    }
}

/// The theme settings of the user, from the answers `outputs` of the probes
/// of `theme_probes` (in the same order, `None` where a probe could not run
/// or did not answer in UTF-8) and the theme directories that exist among
/// `theme_path_candidates`.
pub fn theme_settings_from(
    outputs: &Vec<Option<String>>,
    existing_paths: &Vec<String>,
) -> (settings: Vec<(String, String)>)
    requires
        outputs.len() == theme_probe_table().len(),
    ensures
        pair_views(settings@) == theme_settings_of(option_views(outputs@), views(existing_paths@)),
{
    let probes = theme_probes();
    let ghost table = theme_probe_table();
    let ghost outs = option_views(outputs@);
    let mut settings: Vec<(String, String)> = Vec::new();
    let mut i: usize = 0;
    while i < outputs.len()
        invariant
            i <= outputs.len(),
            outputs.len() == table.len(),
            table == theme_probe_table(),
            probe_views(probes@) == table,
            outs == option_views(outputs@),
            pair_views(settings@) == entries_from(table, outs.take(i as int)),
        decreases outputs.len() - i,
    {
        let ghost t = outs.take(i + 1);
        assert(t.drop_last() =~= outs.take(i as int));
        assert(probe_view(probes@[i as int]) == table[i as int]);
        match &outputs[i] {
            Some(raw) => {
                assert(t.last() == Some(raw@));
                proof {
                    lemma_table_args_ok(i as int);
                }
                let probe = &probes[i];
                match theme_setting(&probe.command, &probe.args, raw.as_str()) {
                    Some(e) => {
                        let ghost before = settings@;
                        let ghost ev = (e.0@, e.1@);
                        settings.push(e);
                        assert(pair_views(settings@) =~= pair_views(before).push(ev));
                    },
                    None => {},
                }
            },
            None => {
                assert(t.last() == None::<Seq<char>>);
            },
        }
        i = i + 1;
    }
    assert(outs.take(i as int) =~= outs);
    let ghost found_from_probes = pair_views(settings@);
    let mut j: usize = 0;
    while j < existing_paths.len()
        invariant
            j <= existing_paths.len(),
            pair_views(settings@) == found_from_probes + path_entries(
                views(existing_paths@).take(j as int),
            ),
        decreases existing_paths.len() - j,
    {
        let ghost before = settings@;
        let ghost pv = existing_paths@[j as int]@;
        settings.push((String::from_str("GTK_THEME_PATH"), existing_paths[j].clone()));
        assert(pair_views(settings@) =~= pair_views(before).push(("GTK_THEME_PATH"@, pv)));
        assert(path_entries(views(existing_paths@).take(j + 1)) =~= path_entries(
            views(existing_paths@).take(j as int),
        ).push(("GTK_THEME_PATH"@, pv)));
        j = j + 1;
    }
    assert(views(existing_paths@).take(j as int) =~= views(existing_paths@));
    if settings.len() == 0 {
        default_theme_settings()
    } else {
        settings
    }
}

/// The setting that each probe of the table answers for, in table order.
pub open spec fn expected_keys() -> Seq<Seq<char>> {
    seq![
        "GTK_THEME"@,
        "GTK_ICON_THEME_NAME"@,
        "GTK_CURSOR_THEME_NAME"@,
        "GTK_FONT"@,
        "GTK_MONOSPACE_FONT"@,
        "GTK_DOCUMENT_FONT"@,
        "GTK_TITLEBAR_FONT"@,
        "GNOME_WM_THEME"@,
        "GNOME_WM_BUTTON_LAYOUT"@,
        "GTK_THEME"@,
        "GTK_ICON_THEME_NAME"@,
        "GTK_CURSOR_THEME_NAME"@,
        "GTK_THEME"@,
        "GTK_ICON_THEME_NAME"@,
        "GTK_CURSOR_THEME_NAME"@,
        "GTK_FONT"@,
        "GTK_CURSOR_THEME_NAME"@,
    ]
}

/// Each probe of the table gives a value for its own setting: the GNOME
/// interface keys for the GTK theme, icons, cursor and fonts, the GNOME
/// window-manager keys for its theme and button layout, the XFCE properties
/// for theme, icons and cursor, and the KDE font and cursor entries.
pub proof fn lemma_probe_keys(i: int)
    requires
        0 <= i < theme_probe_table().len(),
    ensures
        theme_key_of(theme_probe_table()[i].0, theme_probe_table()[i].1) == Some(expected_keys()[i]),
{
    reveal_strlit("gsettings");
    reveal_strlit("xfconf-query");
    reveal_strlit("kreadconfig5");
    reveal_strlit("org.gnome.desktop.interface");
    reveal_strlit("org.gnome.desktop.wm.preferences");
    reveal_strlit("gtk-theme");
    reveal_strlit("icon-theme");
    reveal_strlit("cursor-theme");
    reveal_strlit("font-name");
    reveal_strlit("monospace-font-name");
    reveal_strlit("document-font-name");
    reveal_strlit("titlebar-font");
    reveal_strlit("theme");
    reveal_strlit("button-layout");
    reveal_strlit("/Net/ThemeName");
    reveal_strlit("/Net/IconThemeName");
    reveal_strlit("/Gtk/CursorThemeName");
    reveal_strlit("kcmfonts");
    reveal_strlit("kcminputrc");
    let t = theme_probe_table();
    if i == 0 {
        
        assert(theme_key_of(t[0].0, t[0].1) == Some(expected_keys()[0]));
    } else if i == 1 {
        assert("icon-theme"@.len() != "gtk-theme"@.len());
        assert(theme_key_of(t[1].0, t[1].1) == Some(expected_keys()[1]));
    } else if i == 2 {
        assert("cursor-theme"@.len() != "gtk-theme"@.len());
        assert("cursor-theme"@.len() != "icon-theme"@.len());
        assert(theme_key_of(t[2].0, t[2].1) == Some(expected_keys()[2]));
    } else if i == 3 {
        assert("font-name"@[0] != "gtk-theme"@[0]);
        assert("font-name"@.len() != "icon-theme"@.len());
        assert("font-name"@.len() != "cursor-theme"@.len());
        assert(theme_key_of(t[3].0, t[3].1) == Some(expected_keys()[3]));
    } else if i == 4 {
        assert("monospace-font-name"@.len() != "gtk-theme"@.len());
        assert("monospace-font-name"@.len() != "icon-theme"@.len());
        assert("monospace-font-name"@.len() != "cursor-theme"@.len());
        assert("monospace-font-name"@.len() != "font-name"@.len());
        assert(theme_key_of(t[4].0, t[4].1) == Some(expected_keys()[4]));
    } else if i == 5 {
        assert("document-font-name"@.len() != "gtk-theme"@.len());
        assert("document-font-name"@.len() != "icon-theme"@.len());
        assert("document-font-name"@.len() != "cursor-theme"@.len());
        assert("document-font-name"@.len() != "font-name"@.len());
        assert("document-font-name"@.len() != "monospace-font-name"@.len());
        assert(theme_key_of(t[5].0, t[5].1) == Some(expected_keys()[5]));
    } else if i == 6 {
        assert("titlebar-font"@.len() != "gtk-theme"@.len());
        assert("titlebar-font"@.len() != "icon-theme"@.len());
        assert("titlebar-font"@.len() != "cursor-theme"@.len());
        assert("titlebar-font"@.len() != "font-name"@.len());
        assert("titlebar-font"@.len() != "monospace-font-name"@.len());
        assert("titlebar-font"@.len() != "document-font-name"@.len());
        assert(theme_key_of(t[6].0, t[6].1) == Some(expected_keys()[6]));
    } else if i == 7 {
        assert("org.gnome.desktop.wm.preferences"@.len() != "org.gnome.desktop.interface"@.len());
        assert(theme_key_of(t[7].0, t[7].1) == Some(expected_keys()[7]));
    } else if i == 8 {
        assert("org.gnome.desktop.wm.preferences"@.len() != "org.gnome.desktop.interface"@.len());
        assert("button-layout"@.len() != "theme"@.len());
        assert(theme_key_of(t[8].0, t[8].1) == Some(expected_keys()[8]));
    } else if i == 9 {
        
        assert(theme_key_of(t[9].0, t[9].1) == Some(expected_keys()[9]));
    } else if i == 10 {
        assert("icon-theme"@.len() != "gtk-theme"@.len());
        assert(theme_key_of(t[10].0, t[10].1) == Some(expected_keys()[10]));
    } else if i == 11 {
        assert("cursor-theme"@.len() != "gtk-theme"@.len());
        assert("cursor-theme"@.len() != "icon-theme"@.len());
        assert(theme_key_of(t[11].0, t[11].1) == Some(expected_keys()[11]));
    } else if i == 12 {
        assert("xfconf-query"@.len() != "gsettings"@.len());
        assert(theme_key_of(t[12].0, t[12].1) == Some(expected_keys()[12]));
    } else if i == 13 {
        assert("xfconf-query"@.len() != "gsettings"@.len());
        assert("/Net/IconThemeName"@.len() != "/Net/ThemeName"@.len());
        assert(theme_key_of(t[13].0, t[13].1) == Some(expected_keys()[13]));
    } else if i == 14 {
        assert("xfconf-query"@.len() != "gsettings"@.len());
        assert("/Gtk/CursorThemeName"@.len() != "/Net/ThemeName"@.len());
        assert("/Gtk/CursorThemeName"@.len() != "/Net/IconThemeName"@.len());
        assert(theme_key_of(t[14].0, t[14].1) == Some(expected_keys()[14]));
    } else if i == 15 {
        assert("kreadconfig5"@.len() != "gsettings"@.len());
        assert("kreadconfig5"@[0] != "xfconf-query"@[0]);
        assert(theme_key_of(t[15].0, t[15].1) == Some(expected_keys()[15]));
    } else if i == 16 {
        assert("kreadconfig5"@.len() != "gsettings"@.len());
        assert("kreadconfig5"@[0] != "xfconf-query"@[0]);
        assert("kcminputrc"@.len() != "kcmfonts"@.len());
        assert(theme_key_of(t[16].0, t[16].1) == Some(expected_keys()[16]));
    }
}

/// Every probe's answer counts, whatever its place in the table: when only
/// probe `i` answered, with `raw`, and that answer gives the setting `e`,
/// the settings are exactly `[e]`.
pub proof fn lemma_single_answer_counts(i: int, raw: Seq<char>, e: (Seq<char>, Seq<char>))
    requires
        0 <= i < theme_probe_table().len(),
        theme_entry(theme_probe_table()[i].0, theme_probe_table()[i].1, raw) == Some(e),
    ensures
        theme_settings_of(single_answer(i, raw), Seq::empty()) == seq![e],
{
    let outs = single_answer(i, raw);
    lemma_entries_single(theme_probe_table(), outs, i, raw, e);
    assert(path_entries(Seq::<Seq<char>>::empty()) =~= Seq::<(Seq<char>, Seq<char>)>::empty());
    assert(seq![e] + Seq::<(Seq<char>, Seq<char>)>::empty() =~= seq![e]);
}

/// The answer `raw` of probe `i`, when it is the only answer and is not empty
/// once cleaned, gives exactly one setting: the probe's own setting with the
/// cleaned answer as value.
pub proof fn lemma_answer_gives_its_setting(i: int, raw: Seq<char>)
    requires
        0 <= i < theme_probe_table().len(),
        clean_value(raw).len() > 0,
    ensures
        theme_settings_of(single_answer(i, raw), Seq::empty()) == seq![
            (expected_keys()[i], clean_value(raw)),
        ],
{
    lemma_probe_keys(i);
    lemma_single_answer_counts(i, raw, (expected_keys()[i], clean_value(raw)));
}

/// When no probe answered and no theme directory exists, the settings are the
/// defaults.
pub proof fn lemma_nothing_found_gives_defaults(outputs: Seq<Option<Seq<char>>>)
    requires
        forall|j: int| 0 <= j < outputs.len() ==> #[trigger] outputs[j] is None,
    ensures
        theme_settings_of(outputs, Seq::empty()) == default_theme_table(),
{
    lemma_entries_none(theme_probe_table(), outputs);
    assert(path_entries(Seq::<Seq<char>>::empty()) =~= Seq::<(Seq<char>, Seq<char>)>::empty());
    assert(Seq::<(Seq<char>, Seq<char>)>::empty() + Seq::<(Seq<char>, Seq<char>)>::empty()
        =~= Seq::<(Seq<char>, Seq<char>)>::empty());
}

/// Probe answers of which only the one at `i` is present, with `raw`.
pub open spec fn single_answer(i: int, raw: Seq<char>) -> Seq<Option<Seq<char>>> {
    Seq::new(
        theme_probe_table().len(),
        |j: int|
            if j == i {
                Some(raw)
            } else {
                None
            },
    )
}

proof fn lemma_entries_none(table: Seq<(Seq<char>, Seq<Seq<char>>)>, outs: Seq<Option<Seq<char>>>)
    requires
        forall|j: int| 0 <= j < outs.len() ==> #[trigger] outs[j] is None,
    ensures
        entries_from(table, outs) == Seq::<(Seq<char>, Seq<char>)>::empty(),
    decreases outs.len(),
{
    if outs.len() > 0 {
        let init = outs.drop_last();
        assert(outs[outs.len() - 1] is None);
        assert forall|j: int| 0 <= j < init.len() implies #[trigger] init[j] is None by {
            assert(init[j] == outs[j]);
        }
        lemma_entries_none(table, init);
    }
}

proof fn lemma_entries_single(
    table: Seq<(Seq<char>, Seq<Seq<char>>)>,
    outs: Seq<Option<Seq<char>>>,
    i: int,
    raw: Seq<char>,
    e: (Seq<char>, Seq<char>),
)
    requires
        0 <= i < outs.len(),
        i < table.len(),
        outs[i] == Some(raw),
        theme_entry(table[i].0, table[i].1, raw) == Some(e),
        forall|j: int| 0 <= j < outs.len() && j != i ==> #[trigger] outs[j] is None,
    ensures
        entries_from(table, outs) == seq![e],
    decreases outs.len(),
{
    let init = outs.drop_last();
    if i == outs.len() - 1 {
        assert forall|j: int| 0 <= j < init.len() implies #[trigger] init[j] is None by {
            assert(init[j] == outs[j]);
        }
        lemma_entries_none(table, init);
        assert(Seq::<(Seq<char>, Seq<char>)>::empty().push(e) =~= seq![e]);
    } else {
        assert(outs[outs.len() - 1] is None);
        assert(init[i] == outs[i]);
        assert forall|j: int| 0 <= j < init.len() && j != i implies #[trigger] init[j] is None by {
            assert(init[j] == outs[j]);
        }
        lemma_entries_single(table, init, i, raw, e);
    }
}

/// The user always gets theme settings: the defaults stand in when no source
/// gives one, and only then.
pub proof fn lemma_theme_settings_never_empty(
    outputs: Seq<Option<Seq<char>>>,
    existing_paths: Seq<Seq<char>>,
)
    ensures
        theme_settings_of(outputs, existing_paths).len() > 0,
        (entries_from(theme_probe_table(), outputs) + path_entries(existing_paths)).len() > 0
            ==> theme_settings_of(outputs, existing_paths) == entries_from(
            theme_probe_table(),
            outputs,
        ) + path_entries(existing_paths),
{
}

} // verus!
