use athena_welcome::os::{
    detect_os_from_lines, detect_package_manager, os_release_value, os_type_from_id,
    package_manager_from_probes, welcome_image_path, OsType, PackageManager,
};

fn lines(items: &[&str]) -> Vec<String> {
    items.iter().map(|l| l.to_string()).collect()
}

#[test]
fn test_detect_package_manager() {
    // Test Arch Linux package manager
    let package_manager = detect_package_manager(&OsType::Arch);
    assert!(matches!(package_manager, PackageManager::Pacman));

    // Test NixOS package manager
    let package_manager = detect_package_manager(&OsType::NixOS);
    assert!(matches!(package_manager, PackageManager::Nix));

    // Test unknown OS package manager
    let package_manager = detect_package_manager(&OsType::Unknown);
    assert!(matches!(package_manager, PackageManager::Unknown));
}

#[test]
fn test_os_package_manager_integration() {
    // Test Arch Linux integration
    let os_type = OsType::Arch;
    let package_manager = detect_package_manager(&os_type);
    assert!(matches!(package_manager, PackageManager::Pacman));

    // Test NixOS integration
    let os_type = OsType::NixOS;
    let package_manager = detect_package_manager(&os_type);
    assert!(matches!(package_manager, PackageManager::Nix));
}

#[test]
fn other_systems_keep_their_name_as_package_manager() {
    let pm = detect_package_manager(&OsType::Other("debian".to_string()));
    assert_eq!(pm, PackageManager::Other("debian".to_string()));
}

#[test]
fn os_release_lines_name_the_system() {
    assert!(matches!(detect_os_from_lines(&lines(&["ID=arch"])), OsType::Arch));
    assert!(matches!(detect_os_from_lines(&lines(&["ID=nixos"])), OsType::NixOS));
    assert!(matches!(detect_os_from_lines(&lines(&["ID=unknown"])), OsType::Other(_)));
    assert_eq!(
        detect_os_from_lines(&lines(&["ID=unknown"])),
        OsType::Other("unknown".to_string())
    );
    assert_eq!(detect_os_from_lines(&lines(&[])), OsType::Unknown);
}

#[test]
fn only_the_first_identifier_line_counts() {
    let release = lines(&[
        "NAME=\"Athena OS\"",
        "ID_LIKE=arch",
        "ID=\"nixos\"",
        "ID=arch",
    ]);
    assert_eq!(detect_os_from_lines(&release), OsType::NixOS);
}

#[test]
fn identifier_is_lower_cased() {
    assert_eq!(detect_os_from_lines(&lines(&["ID=Arch"])), OsType::Arch);
    assert_eq!(
        detect_os_from_lines(&lines(&["ID=\"Fedora\""])),
        OsType::Other("fedora".to_string())
    );
}

#[test]
fn empty_identifier_names_no_system() {
    assert_eq!(detect_os_from_lines(&lines(&["ID="])), OsType::Unknown);
    assert_eq!(detect_os_from_lines(&lines(&["ID=\"\""])), OsType::Unknown);
    assert_eq!(detect_os_from_lines(&lines(&["VERSION_ID=1", "id=arch"])), OsType::Unknown);
}

#[test]
fn identifier_line_values() {
    assert_eq!(os_release_value("ID=arch"), Some("arch".to_string()));
    assert_eq!(os_release_value("ID=ID=arch"), Some("arch".to_string()));
    assert_eq!(os_release_value("ID=\"\"ubuntu\""), Some("ubuntu".to_string()));
    assert_eq!(os_release_value("ID=a\"b"), Some("a\"b".to_string()));
    assert_eq!(os_release_value("ID= arch "), Some(" arch ".to_string()));
    assert_eq!(os_release_value("ID"), None);
    assert_eq!(os_release_value(" ID=arch"), None);
    assert_eq!(os_release_value("VERSION_ID=2"), None);
}

#[test]
fn identifiers_name_systems() {
    assert_eq!(os_type_from_id("arch"), OsType::Arch);
    assert_eq!(os_type_from_id("nixos"), OsType::NixOS);
    assert_eq!(os_type_from_id("Arch"), OsType::Other("Arch".to_string()));
    assert_eq!(os_type_from_id(""), OsType::Unknown);
}

#[test]
fn probing_prefers_pacman() {
    assert_eq!(package_manager_from_probes(true, true), PackageManager::Pacman);
    assert_eq!(package_manager_from_probes(false, true), PackageManager::Nix);
    assert_eq!(package_manager_from_probes(false, false), PackageManager::Unknown);
}

#[test]
fn welcome_picture_follows_the_system() {
    assert_eq!(
        welcome_image_path(&OsType::NixOS),
        "/org/athenaos/welcome/images/athena-nix-one-liner.png"
    );
    assert_eq!(
        welcome_image_path(&OsType::Arch),
        "/org/athenaos/welcome/images/athena-arch-one-liner.png"
    );
    assert_eq!(
        welcome_image_path(&OsType::Unknown),
        "/org/athenaos/welcome/images/athena-arch-one-liner.png"
    );
}
