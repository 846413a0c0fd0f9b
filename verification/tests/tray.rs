use winsoftvol::tray::{
    paint_volume_bar, volcap_checks, BAR_COLOR, BAR_HEIGHT, ICON_SIZE, MUTED_BAR_COLOR, TRACK_COLOR,
    VOLCAP_PRESETS,
};

#[test]
fn icon_size_is_32() {
    assert_eq!(ICON_SIZE, 32);
}

#[test]
fn bar_height_is_4() {
    assert_eq!(BAR_HEIGHT, 4);
}

#[test]
fn bar_height_less_than_icon_size() {
    assert!(BAR_HEIGHT < ICON_SIZE);
}

#[test]
fn volcap_presets_count() {
    assert_eq!(VOLCAP_PRESETS.len(), 4);
}

#[test]
fn volcap_presets_descending_order() {
    let pcts: Vec<u32> = VOLCAP_PRESETS.iter().map(|&(p, _)| p).collect();
    for w in pcts.windows(2) {
        assert!(
            w[0] > w[1],
            "presets must be descending: {} <= {}",
            w[0],
            w[1]
        );
    }
}

#[test]
fn volcap_presets_labels_match_percent() {
    for &(pct, label) in &VOLCAP_PRESETS {
        assert_eq!(label, format!("{}%", pct), "label mismatch for {pct}");
    }
}

#[test]
fn volcap_presets_values_in_valid_range() {
    for &(pct, _) in &VOLCAP_PRESETS {
        assert!((10..=100).contains(&pct), "{pct} out of valid range");
    }
}

#[test]
fn volcap_presets_no_duplicates() {
    let pcts: Vec<u32> = VOLCAP_PRESETS.iter().map(|&(p, _)| p).collect();
    let mut seen = std::collections::HashSet::new();
    for p in pcts {
        assert!(seen.insert(p), "duplicate preset: {p}");
    }
}

#[test]
fn volcap_checks_marks_only_the_matching_preset() {
    assert_eq!(volcap_checks(60), vec![false, false, true, false]);
    assert_eq!(volcap_checks(100), vec![true, false, false, false]);
    assert_eq!(volcap_checks(55), vec![false, false, false, false]);
}

#[test]
fn volume_bar_paints_bottom_rows_only() {
    let size = ICON_SIZE as usize;
    let bar_top = size - BAR_HEIGHT as usize;
    let original: Vec<u8> = (0..size * size * 4).map(|i| (i % 251) as u8).collect();

    let mut rgba = original.clone();
    paint_volume_bar(&mut rgba, 16, false);
    for y in 0..size {
        for x in 0..size {
            let i = (y * size + x) * 4;
            let px = &rgba[i..i + 4];
            if y < bar_top {
                assert_eq!(px, &original[i..i + 4]);
            } else if x < 16 {
                assert_eq!(px, &BAR_COLOR);
            } else {
                assert_eq!(px, &TRACK_COLOR);
            }
        }
    }

    let mut rgba = original.clone();
    paint_volume_bar(&mut rgba, 32, true);
    let last = (size * size - 1) * 4;
    assert_eq!(&rgba[last..last + 4], &MUTED_BAR_COLOR);

    let mut rgba = original.clone();
    paint_volume_bar(&mut rgba, 0, true);
    let first_bar = bar_top * size * 4;
    assert_eq!(&rgba[first_bar..first_bar + 4], &TRACK_COLOR);
}
