use winsoftvol::about::{about_content, about_text, null_terminated_utf16, HOMEPAGE_URL, SPONSORS_URL};

#[test]
fn null_terminated_ends_with_zero() {
    let v = null_terminated_utf16("hello");
    assert_eq!(*v.last().unwrap(), 0u16);
}

#[test]
fn null_terminated_length_is_chars_plus_one() {
    let s = "WinSoftVol";
    let v = null_terminated_utf16(s);
    assert_eq!(v.len(), s.len() + 1);
}

#[test]
fn null_terminated_empty_string() {
    let v = null_terminated_utf16("");
    assert_eq!(v, vec![0u16]);
}

#[test]
fn null_terminated_ascii_encodes_correctly() {
    let v = null_terminated_utf16("A");
    assert_eq!(v, vec![65u16, 0u16]);
}

#[test]
fn null_terminated_no_interior_nulls_for_ascii() {
    let v = null_terminated_utf16("hello");
    assert_eq!(v[..v.len() - 1].iter().filter(|&&c| c == 0).count(), 0);
}

#[test]
fn null_terminated_matches_std_encoding_outside_bmp() {
    let s = "a\u{1F50A}é";
    let v = null_terminated_utf16(s);
    let expected: Vec<u16> = s.encode_utf16().chain(Some(0)).collect();
    assert_eq!(v, expected);
    assert_eq!(v, vec![0x61, 0xD83D, 0xDD0A, 0xE9, 0]);
}

#[test]
fn about_text_layout() {
    let t = about_text("0.2.0", "abc123", "Software volume", "Jeffrey Tse", "2024-01-01");
    assert_eq!(
        t,
        "WinSoftVol  v0.2.0 (abc123)\n\nSoftware volume\n\nAuthor:  Jeffrey Tse\nBuilt:   2024-01-01"
    );
}

#[test]
fn about_content_has_links_and_download_only_when_newer() {
    let base = about_text("0.2.0", "abc123", "Software volume", "Jeffrey Tse", "2024-01-01");
    let links = "<a href=\"https://github.com/jeffreytse/winsoftvol\">Homepage</a>  |  <a href=\"https://github.com/sponsors/jeffreytse\">Sponsor on GitHub</a>";
    let without = about_content("0.2.0", "abc123", "Software volume", "Jeffrey Tse", "2024-01-01", None);
    assert_eq!(without, format!("{base}\n\n{links}"));
    assert!(!without.contains("Download"));
    let with = about_content(
        "0.2.0",
        "abc123",
        "Software volume",
        "Jeffrey Tse",
        "2024-01-01",
        Some("v0.3.0"),
    );
    assert_eq!(
        with,
        format!(
            "{base}\n\n{links}\n\nA newer version is available: <a href=\"https://github.com/jeffreytse/winsoftvol/releases/tag/v0.3.0\">Download v0.3.0</a>"
        )
    );
    assert!(with.contains(HOMEPAGE_URL) && with.contains(SPONSORS_URL));
}
