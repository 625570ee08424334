use omarchy_updater::checker::{
    check_arch_updates, check_aur_updates, check_firmware_updates, check_mise_updates,
    check_omarchy_update, parse_tool_lines, parse_update_lines, scan_system_updates,
    CommandOutput, PackageUpdate, UpdateReport,
};

fn ran(success: bool, stdout: &[u8]) -> Option<CommandOutput> {
    Some(CommandOutput { success, stdout: stdout.to_vec() })
}

fn update(name: &str, cur: &str, new: &str, source: &str) -> PackageUpdate {
    PackageUpdate {
        name: name.to_string(),
        current_version: cur.to_string(),
        new_version: new.to_string(),
        source: source.to_string(),
    }
}

#[test]
fn arch_lines_are_read_in_order() {
    let out = ran(true, b"linux 6.1.1-1 -> 6.2.0-1\nvim 9.0-1 -> 9.1-1\n");
    assert_eq!(
        check_arch_updates(&out),
        vec![update("linux", "6.1.1-1", "6.2.0-1", "Arch"), update("vim", "9.0-1", "9.1-1", "Arch")]
    );
}

#[test]
fn aur_lines_carry_the_aur_source() {
    let out = ran(true, b"yay-bin 12.0 -> 12.1\n");
    assert_eq!(check_aur_updates(&out), vec![update("yay-bin", "12.0", "12.1", "AUR")]);
}

#[test]
fn failed_or_missing_tool_gives_no_updates() {
    assert!(check_arch_updates(&None).is_empty());
    assert!(check_arch_updates(&ran(false, b"linux 1 -> 2\n")).is_empty());
    assert!(check_aur_updates(&ran(false, b"yay 1 -> 2\n")).is_empty());
    assert!(check_aur_updates(&None).is_empty());
}

#[test]
fn lines_without_an_arrow_or_too_short_are_skipped() {
    let text = "linux 1 2 3\nshort 1 ->\n\n   \nok 1 -> 2\nbad 1 => 2\n";
    assert_eq!(parse_update_lines(text, "Arch"), vec![update("ok", "1", "2", "Arch")]);
}

#[test]
fn extra_words_and_odd_spacing_are_accepted() {
    let text = "  \tfoo\t1.0   ->  2.0 [ignored] extra\r\nbar 3 -> 4";
    assert_eq!(
        parse_update_lines(text, "Arch"),
        vec![update("foo", "1.0", "2.0", "Arch"), update("bar", "3", "4", "Arch")]
    );
}

#[test]
fn final_line_feed_adds_nothing() {
    assert_eq!(parse_update_lines("a 1 -> 2", "X"), parse_update_lines("a 1 -> 2\n", "X"));
    assert_eq!(parse_update_lines("a 1 -> 2\n\n", "X"), vec![update("a", "1", "2", "X")]);
}

#[test]
fn carriage_return_without_line_feed_stays_in_the_word() {
    // A last line that ends in a bare carriage return keeps it; it is whitespace, so
    // the words do not change.
    assert_eq!(parse_update_lines("a 1 -> 2\r", "X"), vec![update("a", "1", "2", "X")]);
}

#[test]
fn unicode_whitespace_separates_words() {
    let text = "pkg\u{00a0}1\u{2003}->\u{3000}2";
    assert_eq!(parse_update_lines(text, "Arch"), vec![update("pkg", "1", "2", "Arch")]);
}

#[test]
fn invalid_utf8_is_replaced() {
    let out = ran(true, b"pk\xffg 1 -> 2\n");
    assert_eq!(check_arch_updates(&out), vec![update("pk\u{FFFD}g", "1", "2", "Arch")]);
}

#[test]
fn joined_outputs_give_joined_updates() {
    let a = "a 1 -> 2\nnoise\n";
    let b = "b 3 -> 4\n";
    let mut both = parse_update_lines(a, "Arch");
    both.extend(parse_update_lines(b, "Arch"));
    assert_eq!(parse_update_lines(&format!("{}{}", a, b), "Arch"), both);
}

#[test]
fn mise_entries_are_trimmed_and_filtered() {
    let text = "  node 18.0.0 -> 20.1.0  \nmise WARN something\n\n   \npython 3.11 -> 3.12\n";
    assert_eq!(
        parse_tool_lines(text),
        vec!["node 18.0.0 -> 20.1.0".to_string(), "python 3.11 -> 3.12".to_string()]
    );
}

#[test]
fn mise_output_is_read_whatever_the_exit_status() {
    assert_eq!(check_mise_updates(&ran(false, b"deno 1 -> 2\n")), vec!["deno 1 -> 2".to_string()]);
    assert!(check_mise_updates(&None).is_empty());
    assert!(check_mise_updates(&ran(true, b"mise up to date\n")).is_empty());
}

#[test]
fn omarchy_update_is_announced_by_success() {
    assert!(check_omarchy_update(&ran(true, b"")));
    assert!(!check_omarchy_update(&ran(false, b"")));
    assert!(!check_omarchy_update(&None));
}

#[test]
fn firmware_names_come_from_the_devices_array() {
    let json = br#"{"Devices":[{"Name":"UEFI dbx","Version":"1"},{"Name":5},{"Other":"x"},{"Name":"SSD 990"}]}"#;
    assert_eq!(
        check_firmware_updates(&ran(true, json)),
        vec!["UEFI dbx".to_string(), "SSD 990".to_string()]
    );
}

#[test]
fn firmware_without_devices_or_json_gives_nothing() {
    assert!(check_firmware_updates(&ran(true, br#"{"Devices": []}"#)).is_empty());
    assert!(check_firmware_updates(&ran(true, br#"{"Other": [{"Name":"a"}]}"#)).is_empty());
    assert!(check_firmware_updates(&ran(true, br#"{"Devices": {"Name":"a"}}"#)).is_empty());
    assert!(check_firmware_updates(&ran(true, b"not json")).is_empty());
    assert!(check_firmware_updates(&ran(true, br#"[{"Name":"a"}]"#)).is_empty());
    assert!(check_firmware_updates(&ran(false, br#"{"Devices":[{"Name":"a"}]}"#)).is_empty());
    assert!(check_firmware_updates(&None).is_empty());
}

#[test]
fn total_counts_every_kind_of_update() {
    let report = UpdateReport {
        arch_updates: vec![update("a", "1", "2", "Arch"), update("b", "1", "2", "Arch")],
        aur_updates: vec![update("c", "1", "2", "AUR")],
        omarchy_update_needed: true,
        firmware_updates: vec!["dev".to_string()],
        mise_updates: vec!["node".to_string(), "go".to_string(), "zig".to_string()],
    };
    assert_eq!(report.total_updates(), 8);
    assert!(!report.is_all_up_to_date());
}

#[test]
fn default_report_is_up_to_date() {
    let report = UpdateReport::default();
    assert_eq!(report.total_updates(), 0);
    assert!(report.is_all_up_to_date());
}

#[test]
fn omarchy_release_alone_counts_as_one() {
    let mut report = UpdateReport::default();
    report.omarchy_update_needed = true;
    assert_eq!(report.total_updates(), 1);
    assert!(!report.is_all_up_to_date());
}

#[test]
fn scan_puts_each_tool_in_its_place() {
    let report = scan_system_updates(
        &ran(true, b"linux 1 -> 2\n"),
        &ran(true, b"paru 1 -> 2\n"),
        &ran(true, b""),
        &ran(true, br#"{"Devices":[{"Name":"TPM"}]}"#),
        &ran(true, b"node 1 -> 2\n"),
    );
    assert_eq!(report.arch_updates, vec![update("linux", "1", "2", "Arch")]);
    assert_eq!(report.aur_updates, vec![update("paru", "1", "2", "AUR")]);
    assert!(report.omarchy_update_needed);
    assert_eq!(report.firmware_updates, vec!["TPM".to_string()]);
    assert_eq!(report.mise_updates, vec!["node 1 -> 2".to_string()]);
    assert_eq!(report.total_updates(), 5);
}

#[test]
fn scan_with_no_tools_is_up_to_date() {
    let report = scan_system_updates(&None, &None, &None, &None, &None);
    assert!(report.is_all_up_to_date());
}
