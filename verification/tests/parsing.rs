use vistula_updater::flatpak::{parse_flatpak_list, FlatpakApp};
use vistula_updater::pacman::{parse_updates, PackageUpdate};

#[test]
fn test_parse_updates() {
    let output = "package1 1.0.0 -> 1.0.1\npackage2 2.0 -> 2.1.0\n";
    let updates = parse_updates(output);

    assert_eq!(updates.len(), 2);
    assert_eq!(updates[0].name, "package1");
    assert_eq!(updates[0].current_version, "1.0.0");
    assert_eq!(updates[0].new_version, "1.0.1");
}

#[test]
fn test_parse_updates_with_empty_lines() {
    let output = "pkg1 1.0 -> 1.1\n\n:: Some header\npkg2 2.0 -> 2.1\n";
    let updates = parse_updates(output);

    assert_eq!(updates.len(), 2);
}

#[test]
fn test_parse_updates_empty() {
    let output = "";
    let updates = parse_updates(output);
    assert_eq!(updates.len(), 0);
}

#[test]
fn test_parse_updates_only_headers() {
    let output = ":: Package upgrades\n:: Some header\n";
    let updates = parse_updates(output);
    assert_eq!(updates.len(), 0);
}

#[test]
fn test_package_update_creation() {
    let update = PackageUpdate {
        name: "test".to_string(),
        current_version: "1.0".to_string(),
        new_version: "2.0".to_string(),
    };
    assert_eq!(update.name, "test");
    assert_eq!(update.current_version, "1.0");
    assert_eq!(update.new_version, "2.0");
}

#[test]
fn test_parse_updates_short_line_dropped() {
    let output = "lonely\nname 1.0 => 2.0\nok 1.0 -> 2.0\n";
    let updates = parse_updates(output);
    assert_eq!(updates.len(), 1);
    assert_eq!(updates[0].name, "ok");
}

#[test]
fn test_parse_flatpak_list() {
    let output = "Application\tName\tOrigin\n\
                  org.gnome.Gedit\tText Editor\tflathub\n\
                  org.blender.Blender\tBlender\tflathub\n";
    let apps = parse_flatpak_list(output);

    assert_eq!(apps.len(), 2);
    assert_eq!(apps[0].appid, "org.gnome.Gedit");
    assert_eq!(apps[0].name, "Text");
}

#[test]
fn test_parse_flatpak_list_empty() {
    let output = "Application\tName\tOrigin\n";
    let apps = parse_flatpak_list(output);
    assert_eq!(apps.len(), 0);
}

#[test]
fn test_flatpak_app_creation() {
    let app = FlatpakApp {
        appid: "org.test.App".to_string(),
        name: "Test App".to_string(),
        origin: "flathub".to_string(),
        version: Some("1.0.0".to_string()),
    };
    assert_eq!(app.appid, "org.test.App");
    assert_eq!(app.version, Some("1.0.0".to_string()));
}

#[test]
fn test_parse_flatpak_list_version_column() {
    let output = "Application\tName\tOrigin\tVersion\n\
                  org.gnome.Gedit\tText\tflathub\t45.1\n\
                  org.one.Two\tTwo\tflathub\n";
    let apps = parse_flatpak_list(output);
    assert_eq!(apps.len(), 2);
    assert_eq!(apps[0].version, Some("45.1".to_string()));
    assert_eq!(apps[1].version, None);
}

#[test]
fn test_parse_flatpak_list_no_header() {
    let apps = parse_flatpak_list("");
    assert_eq!(apps.len(), 0);
}
