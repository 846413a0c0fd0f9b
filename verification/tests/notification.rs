use winsoftvol::notification::{
    build_toast_xml, show_config_error, show_device_reconnected, show_exclusive_mode_active,
    show_exclusive_mode_ended, show_update_available, AUMID, MSG_EXCLUSIVE_END,
    MSG_EXCLUSIVE_START, MSG_RECONNECTED, TITLE_APP, TITLE_EXCLUSIVE,
};

#[test]
fn xml_contains_duration_short() {
    let xml = build_toast_xml("T", "B");
    assert!(xml.contains("duration=\"short\""));
}

#[test]
fn xml_contains_toast_generic_template() {
    let xml = build_toast_xml("T", "B");
    assert!(xml.contains("template=\"ToastGeneric\""));
}

#[test]
fn xml_title_appears_before_body() {
    let xml = build_toast_xml("TITLE", "BODY");
    let title_pos = xml.find("TITLE").unwrap();
    let body_pos = xml.find("BODY").unwrap();
    assert!(title_pos < body_pos);
}

#[test]
fn xml_wraps_title_in_text_tag() {
    let xml = build_toast_xml("Hello", "World");
    assert!(xml.contains("<text>Hello</text>"));
}

#[test]
fn xml_wraps_body_in_text_tag() {
    let xml = build_toast_xml("Hello", "World");
    assert!(xml.contains("<text>World</text>"));
}

#[test]
fn xml_has_correct_nesting() {
    let xml = build_toast_xml("T", "B");
    // toast > visual > binding > text
    assert!(xml.starts_with("<toast"));
    assert!(xml.contains("<visual>"));
    assert!(xml.contains("<binding "));
    assert!(xml.ends_with("</toast>"));
}

#[test]
fn aumid_is_winsoftvol() {
    assert_eq!(AUMID, "WinSoftVol");
}

#[test]
fn msg_reconnected_mentions_reconnected_and_restored() {
    assert!(MSG_RECONNECTED.contains("reconnected"));
    assert!(MSG_RECONNECTED.contains("restored"));
}

#[test]
fn msg_exclusive_start_mentions_bypassed() {
    assert!(MSG_EXCLUSIVE_START.contains("bypassed"));
}

#[test]
fn msg_exclusive_end_mentions_ended_and_restored() {
    assert!(MSG_EXCLUSIVE_END.contains("ended"));
    assert!(MSG_EXCLUSIVE_END.contains("restored"));
}

#[test]
fn title_exclusive_mentions_exclusive() {
    assert!(TITLE_EXCLUSIVE.contains("exclusive"));
}

#[test]
fn xml_is_exact() {
    assert_eq!(
        build_toast_xml("T", "B"),
        "<toast duration=\"short\"><visual><binding template=\"ToastGeneric\"><text>T</text><text>B</text></binding></visual></toast>"
    );
}

#[test]
fn fixed_toasts_carry_their_title_and_message() {
    assert_eq!(show_device_reconnected(), build_toast_xml(TITLE_APP, MSG_RECONNECTED));
    assert_eq!(show_exclusive_mode_active(), build_toast_xml(TITLE_EXCLUSIVE, MSG_EXCLUSIVE_START));
    assert_eq!(show_exclusive_mode_ended(), build_toast_xml(TITLE_APP, MSG_EXCLUSIVE_END));
}

#[test]
fn config_error_is_truncated_to_200_chars() {
    let long: String = std::iter::repeat('é').take(250).collect();
    let xml = show_config_error(&long);
    let shown: String = std::iter::repeat('é').take(200).collect();
    let body = format!("config.toml: {shown}\nPrevious settings kept. Fix the file to apply changes.");
    assert_eq!(xml, build_toast_xml("WinSoftVol \u{2014} Config Error", &body));

    let xml = show_config_error("expected `=`");
    assert!(xml.contains("<text>config.toml: expected `=`\nPrevious settings kept."));
}

#[test]
fn update_toast_launches_release_page() {
    let xml = show_update_available("v0.3.0", "https://example.org/r");
    assert_eq!(
        xml,
        "<toast launch=\"https://example.org/r\" activationType=\"protocol\" duration=\"short\"><visual><binding template=\"ToastGeneric\"><text>WinSoftVol Update Available</text><text>v0.3.0 is ready \u{2014} click to open release page</text></binding></visual></toast>"
    );
}
