use omarchy_updater::checker::{CommandOutput, PackageUpdate, UpdateReport};
use omarchy_updater::ui::{finished_badge, kernel_info, kernel_line, present_report};

fn pkg(name: &str) -> PackageUpdate {
    PackageUpdate {
        name: name.to_string(),
        current_version: "1".to_string(),
        new_version: "2".to_string(),
        source: "Arch".to_string(),
    }
}

#[test]
fn up_to_date_report_view() {
    let v = present_report(&UpdateReport::default());
    assert_eq!(v.badge, "\u{2713} System is Fully Up to Date");
    assert!(!v.updates_pending);
    assert_eq!(v.arch_subtitle, "Up to date");
    assert_eq!(v.aur_subtitle, "Up to date");
    assert_eq!(v.omarchy_subtitle, "Up to date");
    assert_eq!(v.firmware_subtitle, "All devices on latest firmware");
    assert_eq!(v.mise_subtitle, "All toolchains up to date");
}

#[test]
fn pending_report_view() {
    let report = UpdateReport {
        arch_updates: (0..12).map(|i| pkg(&format!("p{}", i))).collect(),
        aur_updates: vec![pkg("a")],
        omarchy_update_needed: true,
        firmware_updates: vec!["d1".to_string(), "d2".to_string()],
        mise_updates: vec!["t".to_string()],
    };
    let v = present_report(&report);
    assert_eq!(v.badge, "\u{26a0} 17 Updates Available");
    assert!(v.updates_pending);
    assert_eq!(v.arch_subtitle, "12 packages pending update");
    assert_eq!(v.aur_subtitle, "1 packages pending update");
    assert_eq!(v.omarchy_subtitle, "New Omarchy release available");
    assert_eq!(v.firmware_subtitle, "2 firmware updates available");
    assert_eq!(v.mise_subtitle, "1 tools can be updated");
}

#[test]
fn omarchy_release_alone_enables_update() {
    let mut report = UpdateReport::default();
    report.omarchy_update_needed = true;
    let v = present_report(&report);
    assert!(v.updates_pending);
    assert_eq!(v.badge, "\u{26a0} 1 Updates Available");
}

#[test]
fn finished_badge_texts() {
    assert_eq!(finished_badge(true), ("\u{2713} Update Complete".to_string(), true));
    assert_eq!(finished_badge(false), ("\u{26a0} Update Interrupted or Cancelled".to_string(), false));
}

#[test]
fn kernel_line_trims_uname() {
    let out = Some(CommandOutput { success: true, stdout: b"6.9.7-arch1-1\n".to_vec() });
    assert_eq!(kernel_info(&out), "Kernel: 6.9.7-arch1-1 | Omarchy Linux");
    assert_eq!(kernel_info(&None), "Kernel: Linux | Omarchy Linux");
    let failed = Some(CommandOutput { success: false, stdout: Vec::new() });
    assert_eq!(kernel_info(&failed), "Kernel:  | Omarchy Linux");
}

#[test]
fn kernel_line_from_text() {
    assert_eq!(kernel_line(Some("  6.1.0\r\n")), "Kernel: 6.1.0 | Omarchy Linux");
    assert_eq!(kernel_line(None), "Kernel: Linux | Omarchy Linux");
}
