use alavai::autostart::{
    AutostartError, DisablePlan, masked_entry, autostart_dir, disable_plan, entry_contents,
    entry_disabled, entry_path, exec_command, is_enabled_from, joined, system_entry_candidates,
};

#[test]
fn autostart_dir_prefers_xdg_config_home() {
    assert_eq!(autostart_dir(Some("/home/a/.cfg"), Some("/home/a")).unwrap(), "/home/a/.cfg/autostart");
    assert_eq!(autostart_dir(Some(""), Some("/home/a")).unwrap(), "/home/a/.config/autostart");
    assert_eq!(autostart_dir(None, Some("/home/a/")).unwrap(), "/home/a/.config/autostart");
    assert_eq!(autostart_dir(None, Some("")), Err(AutostartError::NoConfigDir));
    assert_eq!(autostart_dir(None, None), Err(AutostartError::NoConfigDir));
}

#[test]
fn entry_path_and_joins() {
    assert_eq!(entry_path("/x/autostart"), "/x/autostart/alavai-tray.desktop");
    assert_eq!(joined("", "a"), "a");
    assert_eq!(joined("/", "a"), "/a");
}

#[test]
fn system_entries() {
    assert_eq!(system_entry_candidates(None), vec!["/etc/xdg/autostart/alavai-tray.desktop"]);
    assert_eq!(system_entry_candidates(Some("")), vec!["/etc/xdg/autostart/alavai-tray.desktop"]);
    assert_eq!(
        system_entry_candidates(Some("/etc/xdg:/usr/local/etc/xdg/")),
        vec!["/etc/xdg/autostart/alavai-tray.desktop", "/usr/local/etc/xdg/autostart/alavai-tray.desktop"]
    );
}

#[test]
fn exec_and_contents() {
    assert_eq!(exec_command(Some("/usr/bin/alavai")), "/usr/bin/alavai tray");
    assert_eq!(exec_command(None), "alavai tray");
    let c = entry_contents("/usr/bin/alavai tray");
    assert!(c.starts_with("[Desktop Entry]\nType=Application\n"));
    assert!(c.contains("\nExec=/usr/bin/alavai tray\n"));
    assert!(c.ends_with("X-GNOME-Autostart-enabled=true\n"));
    assert_eq!(
        c,
        "[Desktop Entry]\nType=Application\nName=alavai (tray)\nComment=alavai system-tray daemon — one-click tailnet switching\nExec=/usr/bin/alavai tray\nIcon=alavai\nTerminal=false\nCategories=Network;\nNoDisplay=true\nX-GNOME-Autostart-enabled=true\n"
    );
    assert_eq!(masked_entry(), "[Desktop Entry]\nType=Application\nName=alavai (tray)\nHidden=true\n");
    assert!(!entry_disabled(&c));
    assert!(is_enabled_from(Some(&c), false));
}

#[test]
fn disabled_entries() {
    assert!(entry_disabled(&masked_entry()));
    assert!(entry_disabled("[Desktop Entry]\r\n  X-GNOME-Autostart-enabled = False \r\n"));
    assert!(entry_disabled("hidden=TRUE"));
    assert!(!entry_disabled("Hidden=false\nName=x"));
    assert!(!is_enabled_from(Some(&masked_entry()), true));
    assert!(is_enabled_from(None, true));
    assert!(!is_enabled_from(None, false));
}

#[test]
fn disabling_masks_a_system_entry() {
    assert_eq!(disable_plan(true), DisablePlan::WriteMask);
    assert_eq!(disable_plan(false), DisablePlan::Remove);
}

#[test]
fn enabled_entry_reads_on_unless_its_command_carries_a_disabling_line() {
    for system in [false, true] {
        assert!(is_enabled_from(Some(&entry_contents("/opt/a b/alavai tray")), system));
        assert!(is_enabled_from(Some(&entry_contents("/opt/x\nhidden=TRUE-not")), system));
        assert!(!is_enabled_from(Some(&entry_contents("/opt/x\n Hidden = true")), system));
    }
    let masked = masked_entry();
    assert!(!is_enabled_from(Some(&masked), true));
    assert!(!is_enabled_from(None, false));
}
