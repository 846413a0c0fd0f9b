use winsoftvol::{autostart, softvol, volcap};

#[test]
fn app_name_matches_registry_key() {
    assert_eq!(autostart::APP_NAME, "WinSoftVol");
}

#[test]
fn run_key_path_is_correct() {
    assert!(autostart::RUN_KEY.contains(r"CurrentVersion\Run"));
}

#[test]
fn app_key_path_is_correct() {
    assert_eq!(softvol::APP_KEY, r"Software\WinSoftVol");
}

#[test]
fn value_name_is_correct() {
    assert_eq!(softvol::VALUE, "ForceSwVolume");
}

#[test]
fn zero_stored_means_disabled() {
    assert!(!softvol::enabled_from_stored(Some(0)));
}

#[test]
fn nonzero_stored_means_enabled() {
    assert!(softvol::enabled_from_stored(Some(1)));
    assert!(softvol::enabled_from_stored(Some(u32::MAX)));
}

#[test]
fn bool_to_u32_encoding() {
    assert_eq!(softvol::stored_value(false), 0);
    assert_eq!(softvol::stored_value(true), 1);
}

#[test]
fn nothing_stored_means_disabled() {
    assert!(!softvol::enabled_from_stored(None));
}

#[test]
fn volcap_reads_clamped_or_default() {
    assert_eq!(volcap::percent_from_stored(None), volcap::DEFAULT);
    assert_eq!(volcap::percent_from_stored(Some(0)), 10);
    assert_eq!(volcap::percent_from_stored(Some(60)), 60);
    assert_eq!(volcap::percent_from_stored(Some(1000)), 100);
    assert_eq!(volcap::stored_value(5), 10);
    assert_eq!(volcap::stored_value(80), 80);
    assert_eq!(volcap::VALUE, "VolumeCapPercent");
    assert_eq!(volcap::APP_KEY, softvol::APP_KEY);
}
