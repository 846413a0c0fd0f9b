use winsoftvol::config::{
    default_cap_presets, Config, DeviceConfig, DeviceMap, GeneralConfig, MAX_CAP_PERCENT,
    MIN_CAP_PERCENT,
};

#[test]
fn default_config_has_sane_values() {
    let cfg = Config::default();
    assert!(!cfg.general.autostart);
    assert!(!cfg.default.force_sw_volume);
    assert_eq!(cfg.default.cap_percent, 100);
    assert!(cfg.device.is_empty());
    assert_eq!(cfg.general.cap_presets, vec![100, 80, 60, 40]);
}

#[test]
fn default_cap_presets_are_descending() {
    let presets = default_cap_presets();
    for w in presets.windows(2) {
        assert!(w[0] > w[1]);
    }
}

#[test]
fn default_cap_presets_in_valid_range() {
    for p in default_cap_presets() {
        assert!((10..=100).contains(&p));
    }
}

#[test]
fn cap_presets_sanitize_clamps_and_deduplicates() {
    let mut g = GeneralConfig {
        autostart: false,
        cap_presets: vec![120, 100, 50, 50, 5],
    };
    g.sanitize();
    assert_eq!(g.cap_presets, vec![100, 50, 10]);
}

#[test]
fn cap_presets_sanitize_empty_restores_default() {
    let mut g = GeneralConfig {
        autostart: false,
        cap_presets: vec![],
    };
    g.sanitize();
    assert_eq!(g.cap_presets, default_cap_presets());
}

#[test]
fn cap_presets_sanitize_sorts_descending() {
    let mut g = GeneralConfig {
        autostart: false,
        cap_presets: vec![40, 100, 60],
    };
    g.sanitize();
    assert_eq!(g.cap_presets, vec![100, 60, 40]);
}

#[test]
fn cap_presets_sanitize_keeps_autostart_and_is_idempotent() {
    let mut g = GeneralConfig {
        autostart: true,
        cap_presets: vec![0, 7, 250, 101, 55, 55, 99],
    };
    g.sanitize();
    assert!(g.autostart);
    assert_eq!(g.cap_presets, vec![100, 99, 55, 10]);
    let once = g.cap_presets.clone();
    g.sanitize();
    assert_eq!(g.cap_presets, once);
}

fn config_with(default: DeviceConfig, devices: Vec<(&str, DeviceConfig)>) -> Config {
    let mut device = DeviceMap::new();
    for (name, d) in devices {
        device.insert(name.to_string(), d);
    }
    Config {
        general: GeneralConfig::default(),
        default,
        device,
    }
}

#[test]
fn resolve_device_returns_device_specific_when_present() {
    let cfg = config_with(
        DeviceConfig {
            force_sw_volume: false,
            cap_percent: 100,
        },
        vec![(
            "my-device",
            DeviceConfig {
                force_sw_volume: true,
                cap_percent: 60,
            },
        )],
    );
    let resolved = cfg.resolve_device("my-device");
    assert!(resolved.force_sw_volume);
    assert_eq!(resolved.cap_percent, 60);
}

#[test]
fn resolve_device_falls_back_to_default() {
    let cfg = Config::default();
    let resolved = cfg.resolve_device("unknown-device-id");
    assert_eq!(resolved.cap_percent, 100);
    assert!(!resolved.force_sw_volume);
}

#[test]
fn cap_percent_zero_clamped_to_10_on_load() {
    let cfg = config_with(
        DeviceConfig {
            force_sw_volume: false,
            cap_percent: 0,
        },
        vec![],
    );
    let mut cfg2 = cfg;
    cfg2.sanitize_devices();
    assert_eq!(cfg2.default.cap_percent, 10);
}

#[test]
fn cap_percent_over_100_clamped_on_load() {
    let mut cfg = config_with(
        DeviceConfig {
            force_sw_volume: false,
            cap_percent: 150,
        },
        vec![],
    );
    cfg.sanitize_devices();
    assert_eq!(cfg.default.cap_percent, 100);
}

#[test]
fn cap_percent_valid_unchanged_on_sanitize() {
    let mut cfg = config_with(
        DeviceConfig {
            force_sw_volume: false,
            cap_percent: 80,
        },
        vec![],
    );
    cfg.sanitize_devices();
    assert_eq!(cfg.default.cap_percent, 80);
}

#[test]
fn cap_percent_device_override_clamped() {
    let mut cfg = config_with(
        DeviceConfig::default(),
        vec![(
            "my-dev",
            DeviceConfig {
                force_sw_volume: false,
                cap_percent: 0,
            },
        )],
    );
    cfg.sanitize_devices();
    assert_eq!(cfg.device.get("my-dev").unwrap().cap_percent, 10);
}

#[test]
fn sanitize_devices_clamps_every_device_and_keeps_flags() {
    let mut cfg = config_with(
        DeviceConfig {
            force_sw_volume: true,
            cap_percent: 3,
        },
        vec![
            (
                "a",
                DeviceConfig {
                    force_sw_volume: true,
                    cap_percent: 500,
                },
            ),
            (
                "b",
                DeviceConfig {
                    force_sw_volume: false,
                    cap_percent: 42,
                },
            ),
        ],
    );
    cfg.general.cap_presets = vec![];
    cfg.sanitize_devices();
    assert_eq!(cfg.default, DeviceConfig { force_sw_volume: true, cap_percent: 10 });
    assert_eq!(*cfg.device.get("a").unwrap(), DeviceConfig { force_sw_volume: true, cap_percent: 100 });
    assert_eq!(*cfg.device.get("b").unwrap(), DeviceConfig { force_sw_volume: false, cap_percent: 42 });
    assert_eq!(cfg.device.len(), 2);
    assert_eq!(cfg.general.cap_presets, default_cap_presets());
}

#[test]
fn device_map_insert_replaces_and_reports_previous() {
    let mut m = DeviceMap::new();
    assert!(m.is_empty());
    let first = DeviceConfig { force_sw_volume: false, cap_percent: 60 };
    let second = DeviceConfig { force_sw_volume: true, cap_percent: 40 };
    assert_eq!(m.insert("USB Audio {GUID}".to_string(), first), None);
    assert_eq!(m.insert("other".to_string(), first), None);
    assert_eq!(m.insert("USB Audio {GUID}".to_string(), second), Some(first));
    assert_eq!(m.len(), 2);
    assert_eq!(m.get("USB Audio {GUID}"), Some(&second));
    assert_eq!(m.get("USB Audio"), None);
    assert!(!m.is_empty());
}

#[test]
fn registry_values_become_a_configuration() {
    let cfg = Config::from_registry_values(Some(1), Some(250), true);
    assert!(cfg.general.autostart);
    assert_eq!(cfg.general.cap_presets, default_cap_presets());
    assert!(cfg.default.force_sw_volume);
    assert_eq!(cfg.default.cap_percent, MAX_CAP_PERCENT);
    assert!(cfg.device.is_empty());

    let cfg = Config::from_registry_values(None, None, false);
    assert!(!cfg.general.autostart);
    assert!(!cfg.default.force_sw_volume);
    assert_eq!(cfg.default.cap_percent, 100);

    let cfg = Config::from_registry_values(Some(0), Some(0), false);
    assert!(!cfg.default.force_sw_volume);
    assert_eq!(cfg.default.cap_percent, MIN_CAP_PERCENT);
}

#[test]
fn sanitize_devices_twice_is_sanitize_once() {
    let mut cfg = config_with(
        DeviceConfig {
            force_sw_volume: false,
            cap_percent: 0,
        },
        vec![(
            "d",
            DeviceConfig {
                force_sw_volume: true,
                cap_percent: 999,
            },
        )],
    );
    cfg.general.cap_presets = vec![5, 500, 70];
    cfg.sanitize_devices();
    let presets = cfg.general.cap_presets.clone();
    let default = cfg.default;
    let d = *cfg.device.get("d").unwrap();
    cfg.sanitize_devices();
    assert_eq!(cfg.general.cap_presets, presets);
    assert_eq!(cfg.general.cap_presets, vec![100, 70, 10]);
    assert_eq!(cfg.default, default);
    assert_eq!(*cfg.device.get("d").unwrap(), d);
}

#[test]
fn resolve_after_insert_sees_the_new_settings() {
    let mut cfg = Config::default();
    let d = DeviceConfig { force_sw_volume: true, cap_percent: 40 };
    cfg.device.insert("x".to_string(), d);
    assert_eq!(*cfg.resolve_device("x"), d);
    assert_eq!(*cfg.resolve_device("y"), cfg.default);
}
