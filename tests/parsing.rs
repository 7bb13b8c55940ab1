use netctl_tray::{
    active_in_listing, active_profile, conn_strength, get_profiles, link_quality, parse_interface_line,
    parse_listing_line, parse_quality, profile_interface, quality_of_row, row_names_interface,
};

#[test]
fn listing_marks_the_active_profile() {
    let entries = get_profiles(b"* home\n  work\n");
    assert_eq!(
        entries,
        vec![(true, "home".to_string()), (false, "work".to_string())]
    );
    assert_eq!(active_profile(&entries), Some("home".to_string()));
}

#[test]
fn listing_without_marker_has_no_active_profile() {
    let entries = get_profiles(b"  home\n  work");
    assert_eq!(entries.len(), 2);
    assert_eq!(active_profile(&entries), None);
}

#[test]
fn first_marked_line_wins() {
    let entries = get_profiles(b"  a\n* b\n* c\n");
    assert_eq!(active_profile(&entries), Some("b".to_string()));
}

#[test]
fn malformed_listing_lines_are_skipped() {
    let entries = get_profiles(b"\n*\nxy\n  ok\n  \xff\xfe\n");
    assert_eq!(entries, vec![(false, "ok".to_string())]);
    assert_eq!(get_profiles(b""), vec![]);
    assert_eq!(parse_listing_line(b"* "), Some((true, String::new())));
    assert_eq!(parse_listing_line(b"*x"), None);
}

#[test]
fn listing_names_are_decoded_as_text() {
    let entries = get_profiles("* caf\u{e9}\n".as_bytes());
    assert_eq!(entries, vec![(true, "caf\u{e9}".to_string())]);
}

#[test]
fn interface_line_forms() {
    assert_eq!(parse_interface_line(b"Interface=wlan0"), Some(b"wlan0".to_vec()));
    assert_eq!(parse_interface_line(b"Interface = \"wlan0\""), Some(b"wlan0".to_vec()));
    assert_eq!(parse_interface_line(b"interface='wlan0'"), Some(b"wlan0".to_vec()));
    assert_eq!(parse_interface_line(b"INTERFACE\t=  wlan0  \r"), Some(b"wlan0".to_vec()));
}

#[test]
fn interface_line_rejects_other_keys() {
    assert_eq!(parse_interface_line(b"Description='x'"), None);
    assert_eq!(parse_interface_line(b"Interface"), None);
    assert_eq!(parse_interface_line(b"InterfaceX=wlan0"), None);
    assert_eq!(parse_interface_line(b" Interface=wlan0"), None);
    assert_eq!(parse_interface_line(b"Interface=\"wlan0'"), Some(b"\"wlan0'".to_vec()));
    assert_eq!(parse_interface_line(b"Interface=\""), Some(b"\"".to_vec()));
}

#[test]
fn profile_file_interface() {
    let file = b"Description='home network'\nConnection=wireless\nInterface=wlp3s0\nSecurity=wpa\n";
    assert_eq!(profile_interface(file), Some(b"wlp3s0".to_vec()));
    assert_eq!(profile_interface(b"Connection=wireless\n"), None);
    assert_eq!(profile_interface(b""), None);
    assert_eq!(
        profile_interface(b"Interface=a\nInterface=b\n"),
        Some(b"a".to_vec())
    );
}

#[test]
fn quality_row_third_column() {
    assert_eq!(
        quality_of_row(b"wlan0 0000   45.  -256  -34   0   0   0   0"),
        Some(45)
    );
    assert_eq!(quality_of_row(b" wlp3s0: 0000   70.  -40.  -256  0"), Some(70));
    assert_eq!(quality_of_row(b"wlan0 0000 7"), Some(7));
    assert_eq!(quality_of_row(b"wlan0 0000"), None);
    assert_eq!(quality_of_row(b"wlan0 0000 71."), None);
    assert_eq!(quality_of_row(b"wlan0 0000 4x5."), None);
    assert_eq!(quality_of_row(b"wlan0 0000 ."), None);
    assert_eq!(quality_of_row(b"wlan0 0000 99999999999999999999."), None);
}

#[test]
fn quality_column_forms() {
    assert_eq!(parse_quality(b"45."), Some(45));
    assert_eq!(parse_quality(b"0"), Some(0));
    assert_eq!(parse_quality(b"070"), Some(70));
    assert_eq!(parse_quality(b""), None);
    assert_eq!(parse_quality(b"-3"), None);
}

#[test]
fn row_names_interface_by_prefix() {
    assert!(row_names_interface(b" wlan0: 0000 45.", b"wlan0"));
    assert!(row_names_interface(b"wlan0 0000 45.", b"wlan0"));
    assert!(!row_names_interface(b"wlan1 0000 45.", b"wlan0"));
    assert!(!row_names_interface(b"wlan 0000 45.", b"wlan0"));
    assert!(!row_names_interface(b"   ", b""));
}

const TABLE: &[u8] = b"Inter-| sta-|   Quality        |   Discarded packets               | Missed | WE\n face | tus | link level noise |  nwid  crypt   frag  retry   misc | beacon | 22\n  eth9: 0000   12.  -256  -34   0   0   0   0\nwlan0 0000   45.  -256  -34   0   0   0   0\n";

#[test]
fn table_quality_of_an_interface() {
    assert_eq!(link_quality(TABLE, b"wlan0"), Some(45));
    assert_eq!(link_quality(TABLE, b"eth9"), Some(12));
    assert_eq!(link_quality(TABLE, b"wlan7"), None);
    assert_eq!(link_quality(b"", b"wlan0"), None);
}

#[test]
fn header_lines_are_never_rows() {
    let table = b"wlan0 0000 10.\nwlan0 0000 20.\nwlan0 0000 30.\n";
    assert_eq!(link_quality(table, b"wlan0"), Some(30));
}

#[test]
fn connection_strength_of_a_profile() {
    assert_eq!(conn_strength(b"Interface=wlan0\n", TABLE), 45);
    assert_eq!(conn_strength(b"Interface = \"wlan0\"\n", TABLE), 45);
    assert_eq!(conn_strength(b"interface='wlan0'", TABLE), 45);
    assert_eq!(conn_strength(b"Interface=wlan3\n", TABLE), 0);
    assert_eq!(conn_strength(b"Connection=ethernet\n", TABLE), 0);
    assert_eq!(conn_strength(b"Interface=\n", TABLE), 0);
}

#[test]
fn active_profile_comes_from_the_first_marked_line() {
    assert_eq!(active_in_listing(b"* home\n  work\n"), Some("home".to_string()));
    assert_eq!(active_in_listing(b"  a\n* b\n* c\n"), Some("b".to_string()));
    assert_eq!(active_in_listing(b"  a\n  b"), None);
    assert_eq!(active_in_listing(b""), None);
    // a marked line whose name is not text still wins: no active profile
    assert_eq!(active_in_listing(b"  a\n* \xff\n* c\n"), None);
}
