// The cap rule that the session mixer applies: a session above the cap is
// brought down to it, one at or below it is left alone.
fn cap_session(cur: f32, cap: f32) -> f32 {
    if cur > cap {
        cap
    } else {
        cur
    }
}

#[test]
fn cap_not_applied_when_below_cap() {
    assert!((cap_session(0.3, 0.4) - 0.3).abs() < 1e-5);
}

#[test]
fn cap_applied_when_above_cap() {
    assert!((cap_session(0.8, 0.4) - 0.4).abs() < 1e-5);
}

#[test]
fn cap_applied_when_at_full_volume() {
    assert!((cap_session(1.0, 0.4) - 0.4).abs() < 1e-5);
}

#[test]
fn cap_unchanged_when_equal_to_cap() {
    assert!((cap_session(0.4, 0.4) - 0.4).abs() < 1e-5);
}

#[test]
fn cap_fraction_of_every_preset_is_within_full_scale() {
    for &(pct, _) in &winsoftvol::tray::VOLCAP_PRESETS {
        let cap = pct as f32 / 100.0;
        assert!((cap_session(1.0, cap) - cap).abs() < 1e-5);
    }
}
