use winsoftvol::config::Config;
use winsoftvol::control::{scroll_notch, scroll_over_tray, Controller, MenuAction, MenuCommand};
use winsoftvol::notification::{
    show_exclusive_mode_active, show_exclusive_mode_ended, show_update_available,
};
use winsoftvol::updater::release_page_url;

#[test]
fn exclusive_mode_is_announced_on_each_change_only() {
    let mut c = Controller::new(Config::default(), None);
    assert_eq!(c.on_exclusive_mode(false), None);
    assert_eq!(c.on_exclusive_mode(true), Some(show_exclusive_mode_active()));
    assert_eq!(c.on_exclusive_mode(true), None);
    assert_eq!(c.on_exclusive_mode(false), Some(show_exclusive_mode_ended()));
    assert_eq!(c.on_exclusive_mode(false), None);
}

#[test]
fn update_is_announced_once() {
    let mut c = Controller::new(Config::default(), None);
    assert_eq!(c.on_update_check(None), None);
    assert!(!c.update_notified);
    let url = release_page_url("v0.3.0");
    assert_eq!(c.on_update_check(Some("v0.3.0")), Some(show_update_available("v0.3.0", &url)));
    assert_eq!(c.on_update_check(Some("v0.3.0")), None);
    assert_eq!(c.on_update_check(Some("v0.4.0")), None);
}

#[test]
fn config_file_reloads_when_changed_and_settled() {
    let mut c = Controller::new(Config::default(), Some((100, 5)));
    assert!(!c.on_config_file((100, 5), 10_000));
    assert!(!c.on_config_file((100, 6), 499));
    assert!(c.on_config_file((100, 6), 500));
    assert_eq!(c.last_config_mtime, Some((100, 6)));
    assert!(!c.on_config_file((100, 6), 60_000));
    let mut fresh = Controller::new(Config::default(), None);
    assert!(fresh.on_config_file((1, 0), 500));
}

#[test]
fn reload_reports_autostart_change_only() {
    let mut c = Controller::new(Config::default(), None);
    let mut next = Config::default();
    next.default.cap_percent = 60;
    assert_eq!(c.on_config_reloaded(next), None);
    assert_eq!(c.config.default.cap_percent, 60);
    let mut next = Config::default();
    next.general.autostart = true;
    assert_eq!(c.on_config_reloaded(next), Some(true));
    assert!(c.config.general.autostart);
    assert_eq!(c.config.default.cap_percent, 100);
}

#[test]
fn menu_commands_update_the_configuration() {
    let mut c = Controller::new(Config::default(), None);
    assert_eq!(c.on_menu(MenuCommand::About), MenuAction::ShowAbout);
    assert_eq!(c.on_menu(MenuCommand::ToggleAutostart), MenuAction::SetAutostart(true));
    assert!(c.config.general.autostart);
    assert_eq!(c.on_menu(MenuCommand::ToggleAutostart), MenuAction::SetAutostart(false));
    assert!(!c.config.general.autostart);
    assert_eq!(c.on_menu(MenuCommand::ToggleSoftvol), MenuAction::SetSoftvol(true));
    assert!(c.config.default.force_sw_volume);
    assert_eq!(c.on_menu(MenuCommand::SelectCap(40)), MenuAction::SetCap(40));
    assert_eq!(c.config.default.cap_percent, 40);
    assert!(c.config.default.force_sw_volume);
    assert_eq!(c.on_menu(MenuCommand::Quit), MenuAction::Quit);
}

#[test]
fn scroll_direction_follows_wheel_delta_sign() {
    assert_eq!(scroll_notch(120u32 << 16), 1);
    assert_eq!(scroll_notch(((-120i16) as u16 as u32) << 16), -1);
    assert_eq!(scroll_notch(0x0000_ffff), -1);
}

#[test]
fn selecting_a_cap_twice_is_selecting_it_once() {
    let mut c = Controller::new(Config::default(), None);
    let first = c.on_menu(MenuCommand::SelectCap(60));
    let cap_after_first = c.config.default;
    let second = c.on_menu(MenuCommand::SelectCap(60));
    assert_eq!(first, second);
    assert_eq!(c.config.default, cap_after_first);
}

#[test]
fn toggling_softvol_twice_restores_it() {
    let mut c = Controller::new(Config::default(), None);
    let before = c.config.default;
    c.on_menu(MenuCommand::ToggleSoftvol);
    c.on_menu(MenuCommand::ToggleSoftvol);
    assert_eq!(c.config.default, before);
}

#[test]
fn scroll_counts_only_inside_the_notification_area() {
    let areas = [(1600, 1040, 1900, 1080), (1700, 900, 1800, 1000)];
    assert!(scroll_over_tray(true, 1600, 1040, &areas));
    assert!(scroll_over_tray(true, 1750, 950, &areas));
    assert!(!scroll_over_tray(true, 1900, 1050, &areas));
    assert!(!scroll_over_tray(true, 100, 100, &areas));
    assert!(!scroll_over_tray(false, 1650, 1050, &areas));
    assert!(!scroll_over_tray(true, 1650, 1050, &[]));
}
