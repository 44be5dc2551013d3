use athena_welcome::roles::{
    contains_role, get_current_roles, is_valid_role, parse_roles_config, role_id_list, role_items,
    roles_file_content, toggle_role, validate_roles,
};

fn s(text: &str) -> String {
    text.to_string()
}

#[test]
fn test_toggle_role() {
    // The chosen roles start empty.
    let mut roles: Vec<String> = Vec::new();

    // Test adding a role
    toggle_role(&mut roles, "blue".to_string());
    let current = get_current_roles(&roles);
    assert!(current.contains(&"blue".to_string()));

    // Test removing a role
    toggle_role(&mut roles, "blue".to_string());
    let current = get_current_roles(&roles);
    assert!(!current.contains(&"blue".to_string()));

    // Test adding multiple roles
    toggle_role(&mut roles, "red".to_string());
    toggle_role(&mut roles, "web".to_string());
    let current = get_current_roles(&roles);
    assert!(current.contains(&"red".to_string()));
    assert!(current.contains(&"web".to_string()));
}

#[test]
fn test_get_current_roles() {
    let mut roles: Vec<String> = Vec::new();

    // Test empty roles
    let current = get_current_roles(&roles);
    assert!(current.is_empty());

    // Test with some roles
    toggle_role(&mut roles, "blue".to_string());
    toggle_role(&mut roles, "red".to_string());
    let current = get_current_roles(&roles);
    assert_eq!(current.len(), 2);
    assert!(current.contains(&"blue".to_string()));
    assert!(current.contains(&"red".to_string()));
}

#[test]
fn test_role_validation() {
    let roles = vec!["blue".to_string(), "red".to_string(), "invalid".to_string()];
    let validated = validate_roles(&roles);
    assert_eq!(validated.len(), 2);
    assert!(validated.contains(&"blue".to_string()));
    assert!(validated.contains(&"red".to_string()));
    assert!(!validated.contains(&"invalid".to_string()));
}

#[test]
fn test_validate_roles() {
    let valid_roles = vec!["blue".to_string(), "red".to_string()];
    let invalid_roles = vec!["invalid".to_string(), "blue".to_string()];

    let validated = validate_roles(&valid_roles);
    assert_eq!(validated.len(), 2);
    assert!(validated.contains(&"blue".to_string()));
    assert!(validated.contains(&"red".to_string()));

    let validated = validate_roles(&invalid_roles);
    assert_eq!(validated.len(), 1);
    assert!(validated.contains(&"blue".to_string()));
}

#[test]
fn test_welcome_page_logic() {
    let mut roles: Vec<String> = Vec::new();

    // Test role selection logic
    toggle_role(&mut roles, "blue".to_string());
    toggle_role(&mut roles, "red".to_string());

    assert!(roles.contains(&"blue".to_string()));
    assert!(roles.contains(&"red".to_string()));
    assert_eq!(roles.len(), 2);
}

#[test]
fn saved_roles_text_has_one_role_per_line() {
    let mut roles: Vec<String> = Vec::new();
    toggle_role(&mut roles, "blue".to_string());
    toggle_role(&mut roles, "red".to_string());

    let content = roles_file_content(&roles);
    assert_eq!(content, "blue\nred");
    let saved: Vec<String> = content.lines().map(|line| line.trim().to_string()).collect();
    assert!(saved.contains(&"blue".to_string()));
    assert!(saved.contains(&"red".to_string()));
    assert_eq!(saved.len(), 2);
}

#[test]
fn saved_roles_text_of_no_roles_is_empty() {
    let roles: Vec<String> = Vec::new();
    assert_eq!(roles_file_content(&roles), "");
}

#[test]
fn config_text_keeps_known_roles_only() {
    // What writing "blue\nred\ninvalid" with a trailing newline leaves in a file.
    let roles = parse_roles_config("blue\nred\ninvalid\n");
    assert_eq!(roles.len(), 2);
    assert!(roles.contains(&"blue".to_string()));
    assert!(roles.contains(&"red".to_string()));
}

#[test]
fn config_text_of_an_empty_line_names_no_role() {
    let roles = parse_roles_config("\n");
    assert!(roles.is_empty());
}

#[test]
fn config_text_lines_are_trimmed_and_blank_lines_dropped() {
    let roles = parse_roles_config("  web \r\n\n\t\nosint\r\n   \nblue");
    assert_eq!(roles, vec![s("web"), s("osint"), s("blue")]);
}

#[test]
fn config_text_keeps_order_and_repeats() {
    let roles = parse_roles_config("red\nblue\nred\n");
    assert_eq!(roles, vec![s("red"), s("blue"), s("red")]);
}

#[test]
fn config_text_is_case_sensitive() {
    let roles = parse_roles_config("Blue\nRED\nweb");
    assert_eq!(roles, vec![s("web")]);
}

#[test]
fn config_text_trims_unicode_whitespace() {
    // U+00A0 and U+3000 are whitespace to `str::trim`.
    let roles = parse_roles_config("\u{a0}dos\u{3000}\n\u{2003}mobile");
    assert_eq!(roles, vec![s("dos"), s("mobile")]);
}

#[test]
fn saved_roles_are_read_back_unchanged() {
    let roles = vec![s("hunter"), s("cracker"), s("student"), s("forensic")];
    let content = roles_file_content(&roles);
    assert_eq!(parse_roles_config(&content), roles);

    let none: Vec<String> = Vec::new();
    assert_eq!(parse_roles_config(&roles_file_content(&none)), none);
}

#[test]
fn toggling_twice_restores_the_roles() {
    let mut roles = vec![s("blue"), s("red")];
    toggle_role(&mut roles, s("web"));
    assert_eq!(roles, vec![s("blue"), s("red"), s("web")]);
    toggle_role(&mut roles, s("web"));
    assert_eq!(roles, vec![s("blue"), s("red")]);
}

#[test]
fn toggling_removes_every_occurrence() {
    let mut roles = vec![s("red"), s("blue"), s("red")];
    toggle_role(&mut roles, s("red"));
    assert_eq!(roles, vec![s("blue")]);
}

#[test]
fn toggling_flips_membership_only_of_the_role() {
    let mut roles = vec![s("blue"), s("osint")];
    toggle_role(&mut roles, s("osint"));
    assert!(!contains_role(&roles, &s("osint")));
    assert!(contains_role(&roles, &s("blue")));
}

#[test]
fn validating_twice_changes_nothing() {
    let roles = vec![s("x"), s("web"), s(""), s("red"), s("web")];
    let once = validate_roles(&roles);
    assert_eq!(once, vec![s("web"), s("red"), s("web")]);
    assert_eq!(validate_roles(&once), once);
}

#[test]
fn known_roles_are_listed_in_display_order() {
    let ids = role_id_list();
    let expected = [
        "blue", "hunter", "cracker", "dos", "student", "forensic", "malware", "mobile", "network",
        "osint", "red", "web",
    ];
    assert_eq!(ids.len(), 12);
    for (id, want) in ids.iter().zip(expected.iter()) {
        assert_eq!(id, want);
        assert!(is_valid_role(id));
    }
    let items = role_items();
    assert_eq!(items[0].0, "💙 Blue Teamer 💙");
    assert_eq!(items[9].0, "🕵️ OSINT Specialist 🕵️");
    assert_eq!(items[11], (s("🕸️ Web Pentester 🕸️"), s("web")));
    assert!(!is_valid_role(&s("purple")));
    assert!(!is_valid_role(&s("blue ")));
}
