use vstd::prelude::*;

use crate::config::{Config, DeviceConfig};
use crate::notification::{
    show_exclusive_mode_active, show_exclusive_mode_ended, show_update_available, spec_toast_xml,
    spec_update_xml, MSG_EXCLUSIVE_END, MSG_EXCLUSIVE_START, TITLE_APP, TITLE_EXCLUSIVE,
};
use crate::updater::{release_page_url, spec_release_page_url};

verus! {

/// A modification time of the configuration file: seconds and nanoseconds
/// since the Unix epoch.
pub type FileTime = (u64, u32);

/// How long, in milliseconds, the configuration file must have stayed
/// unchanged before a new version of it is loaded.
pub const CONFIG_SETTLE_MILLIS: u64 = 500;

/// A choice made in the tray menu.
#[derive(Debug, Clone, Copy, PartialEq, Eq)]
pub enum MenuCommand {
    About,
    Quit,
    ToggleAutostart,
    ToggleSoftvol,
    SelectCap(u32),
}

/// What the program does for a choice made in the tray menu.
#[derive(Debug, Clone, Copy, PartialEq, Eq)]
pub enum MenuAction {
    /// Show the About dialog.
    ShowAbout,
    /// Stop watching the audio device and leave.
    Quit,
    /// Enter or remove the program for autostart, then save the configuration.
    SetAutostart(bool),
    /// Switch the forced software-volume mode, then save the configuration.
    SetSoftvol(bool),
    /// Apply this cap, save the configuration and check its menu entry.
    SetCap(u32),
}

/// The configuration file, last modified at `mtime` and left alone for
/// `age_millis` since, is to be loaded again: it changed since it was last
/// loaded (at `last`, if ever) and has settled.
pub open spec fn reload_due(last: Option<FileTime>, mtime: FileTime, age_millis: u64) -> bool {
    last != Some(mtime) && age_millis >= CONFIG_SETTLE_MILLIS
}

/// Carrying out `command` turns the configuration `before` into `after`
/// and leaves `action` for the program to do.
pub open spec fn menu_step(before: Config, command: MenuCommand, after: Config, action: MenuAction) -> bool {
    &&& after.general.cap_presets == before.general.cap_presets
    &&& after.device == before.device
    &&& match command {
        MenuCommand::About => {
            &&& action == MenuAction::ShowAbout
            &&& after.general.autostart == before.general.autostart
            &&& after.default == before.default
        },
        MenuCommand::Quit => {
            &&& action == MenuAction::Quit
            &&& after.general.autostart == before.general.autostart
            &&& after.default == before.default
        },
        MenuCommand::ToggleAutostart => {
            &&& action == MenuAction::SetAutostart(!before.general.autostart)
            &&& after.general.autostart == !before.general.autostart
            &&& after.default == before.default
        },
        MenuCommand::ToggleSoftvol => {
            &&& action == MenuAction::SetSoftvol(!before.default.force_sw_volume)
            &&& after.general.autostart == before.general.autostart
            &&& after.default == DeviceConfig {
                force_sw_volume: !before.default.force_sw_volume,
                cap_percent: before.default.cap_percent,
            }
        },
        MenuCommand::SelectCap(pct) => {
            &&& action == MenuAction::SetCap(pct)
            &&& after.general.autostart == before.general.autostart
            &&& after.default == DeviceConfig { force_sw_volume: before.default.force_sw_volume, cap_percent: pct }
        },
    }
}

/// The toast to show when exclusive mode, announced as `active`, is now
/// `exclusive`: one when it began, another when it ended, none when
/// nothing changed.
pub open spec fn exclusive_toast(active: bool, exclusive: bool) -> Option<Seq<char>> {
    if exclusive && !active {
        Some(spec_toast_xml(TITLE_EXCLUSIVE@, MSG_EXCLUSIVE_START@))
    } else if !exclusive && active {
        Some(spec_toast_xml(TITLE_APP@, MSG_EXCLUSIVE_END@))
    } else {
        None
    }
}

/// Toasts about exclusive mode alternate: of two announcements in a row,
/// one reports its start and the other its end.
pub proof fn lemma_exclusive_toasts_alternate(active: bool, first: bool, second: bool)
    requires
        exclusive_toast(active, first) is Some,
        exclusive_toast(first, second) is Some,
    ensures
        exclusive_toast(active, first) != exclusive_toast(first, second),
        second == active,
{
    reveal_strlit("WinSoftVol \u{2014} exclusive mode detected");
    reveal_strlit("WinSoftVol");
    reveal_strlit("</text><text>");
    assert(TITLE_EXCLUSIVE@.len() != TITLE_APP@.len());
    assert(spec_toast_xml(TITLE_EXCLUSIVE@, MSG_EXCLUSIVE_START@) != spec_toast_xml(TITLE_APP@, MSG_EXCLUSIVE_END@))
        by {
        let a = spec_toast_xml(TITLE_EXCLUSIVE@, MSG_EXCLUSIVE_START@);
        let b = spec_toast_xml(TITLE_APP@, MSG_EXCLUSIVE_END@);
        let open = "<toast duration=\"short\"><visual><binding template=\"ToastGeneric\"><text>"@;
        let k = (open.len() + TITLE_APP@.len()) as int;
        assert(a[k] == TITLE_EXCLUSIVE@[TITLE_APP@.len() as int]);
        assert(b[k] == '<');
    }
}

/// Choosing either toggle of the tray menu twice gives back the
/// configuration of before.
pub proof fn lemma_toggle_twice_restores(
    c0: Config,
    c1: Config,
    c2: Config,
    command: MenuCommand,
    a1: MenuAction,
    a2: MenuAction,
)
    requires
        command == MenuCommand::ToggleAutostart || command == MenuCommand::ToggleSoftvol,
        menu_step(c0, command, c1, a1),
        menu_step(c1, command, c2, a2),
    ensures
        c2 == c0,
{
    assert(c2.general == c0.general);
}

/// Choosing the same cap twice is the same as choosing it once.
pub proof fn lemma_select_cap_idempotent(
    c0: Config,
    c1: Config,
    c2: Config,
    pct: u32,
    a1: MenuAction,
    a2: MenuAction,
)
    requires
        menu_step(c0, MenuCommand::SelectCap(pct), c1, a1),
        menu_step(c1, MenuCommand::SelectCap(pct), c2, a2),
    ensures
        c2 == c1,
        a2 == a1,
{
    assert(c2.general == c1.general);
}

/// A version of the configuration file is loaded once: after it was, the
/// same modification time never calls for loading it again.
pub proof fn lemma_reload_once(last: Option<FileTime>, mtime: FileTime, age_millis: u64, later_age_millis: u64)
    requires
        reload_due(last, mtime, age_millis),
    ensures
        !reload_due(Some(mtime), mtime, later_age_millis),
{
}

/// The action of a menu choice agrees with the configuration it leaves: a
/// toggle flips its setting and the action carries the new value; a chosen
/// cap is the cap in force and the one the action applies.
pub proof fn lemma_menu_action_agrees_with_config(
    before: Config,
    command: MenuCommand,
    after: Config,
    action: MenuAction,
)
    requires
        menu_step(before, command, after, action),
    ensures
        action matches MenuAction::SetSoftvol(b) ==> b == after.default.force_sw_volume,
        action matches MenuAction::SetAutostart(b) ==> b == after.general.autostart,
        action matches MenuAction::SetCap(p) ==> p == after.default.cap_percent,
        command == MenuCommand::ToggleSoftvol ==> {
            &&& after.default.force_sw_volume == !before.default.force_sw_volume
            &&& action == MenuAction::SetSoftvol(after.default.force_sw_volume)
        },
        command == MenuCommand::ToggleAutostart ==> {
            &&& after.general.autostart == !before.general.autostart
            &&& action == MenuAction::SetAutostart(after.general.autostart)
        },
        command matches MenuCommand::SelectCap(p) ==> action == MenuAction::SetCap(p) && after.default.cap_percent == p,
{
}

/// Any change of the file's modification time calls for a reload once the
/// file has settled, whether the new time is earlier or later than the one
/// last loaded; a file never loaded is loaded once settled; and an unsettled
/// file, or one whose time is unchanged, is not loaded.
pub proof fn lemma_reload_on_any_change(last: Option<FileTime>, mtime: FileTime, age_millis: u64)
    ensures
        age_millis >= CONFIG_SETTLE_MILLIS && (last matches Some(l) && (l.0 != mtime.0 || l.1 != mtime.1))
            ==> reload_due(last, mtime, age_millis),
        age_millis >= CONFIG_SETTLE_MILLIS && last is None ==> reload_due(last, mtime, age_millis),
        age_millis < CONFIG_SETTLE_MILLIS ==> !reload_due(last, mtime, age_millis),
        last == Some(mtime) ==> !reload_due(last, mtime, age_millis),
{
}

/// What the program's main loop remembers between its turns.
pub struct Controller {
    /// The configuration in force.
    pub config: Config,
    /// Whether an application holds the audio device in exclusive mode, as
    /// last announced.
    pub exclusive_mode_active: bool,
    /// Whether a newer release has been announced.
    pub update_notified: bool,
    /// The modification time of the configuration file when it was last loaded.
    pub last_config_mtime: Option<FileTime>,
}

impl Controller {
    /// The state at start-up, with the configuration loaded and the
    /// modification time of its file, if it has one.
    pub fn new(config: Config, config_mtime: Option<FileTime>) -> (r: Controller)
        ensures
            r.config == config,
            !r.exclusive_mode_active,
            !r.update_notified,
            r.last_config_mtime == config_mtime,
    {
        Controller { config, exclusive_mode_active: false, update_notified: false, last_config_mtime: config_mtime }
    }

    /// Takes in whether an application now holds the device in exclusive
    /// mode; gives the toast to show when that changed.
    pub fn on_exclusive_mode(&mut self, exclusive: bool) -> (r: Option<String>)
        ensures
            final(self).exclusive_mode_active == exclusive,
            final(self).config == old(self).config,
            final(self).update_notified == old(self).update_notified,
            final(self).last_config_mtime == old(self).last_config_mtime,
            match r {
                Some(x) => exclusive_toast(old(self).exclusive_mode_active, exclusive) == Some(x@),
                None => exclusive_toast(old(self).exclusive_mode_active, exclusive) is None,
            },
    {
        if exclusive && !self.exclusive_mode_active {
            self.exclusive_mode_active = true;
            Some(show_exclusive_mode_active())
        } else if !exclusive && self.exclusive_mode_active {
            self.exclusive_mode_active = false;
            Some(show_exclusive_mode_ended())
        } else {
            None
        }
    }

    /// Takes in the newer release found so far, if any; gives the toast
    /// that announces it, the first time only.
    pub fn on_update_check(&mut self, latest: Option<&str>) -> (r: Option<String>)
        ensures
            final(self).config == old(self).config,
            final(self).exclusive_mode_active == old(self).exclusive_mode_active,
            final(self).last_config_mtime == old(self).last_config_mtime,
            final(self).update_notified == (old(self).update_notified || latest is Some),
            match r {
                Some(x) => !old(self).update_notified && (latest matches Some(tag) && x@ == spec_update_xml(
                    tag@,
                    spec_release_page_url(tag@),
                )),
                None => old(self).update_notified || latest is None,
            },
    {
        if self.update_notified {
            return None;
        }
        match latest {
            Some(tag) => {
                self.update_notified = true;
                let url = release_page_url(tag);
                Some(show_update_available(tag, url.as_str()))
            },
            None => None,
        }
    }

    /// Whether the configuration file, last modified at `mtime` and left
    /// alone for `age_millis` since, is to be loaded again: it changed since
    /// it was last loaded and has settled. When it is, its time is recorded.
    pub fn on_config_file(&mut self, mtime: FileTime, age_millis: u64) -> (r: bool)
        ensures
            r == reload_due(old(self).last_config_mtime, mtime, age_millis),
            r ==> final(self).last_config_mtime == Some(mtime),
            !r ==> final(self).last_config_mtime == old(self).last_config_mtime,
            final(self).config == old(self).config,
            final(self).exclusive_mode_active == old(self).exclusive_mode_active,
            final(self).update_notified == old(self).update_notified,
    {
        let changed = match self.last_config_mtime {
            Some(last) => last.0 != mtime.0 || last.1 != mtime.1,
            None => true,
        };
        if changed && age_millis >= CONFIG_SETTLE_MILLIS {
            self.last_config_mtime = Some(mtime);
            true
        } else {
            false
        }
    }

    /// Puts a freshly loaded configuration in force; gives the autostart
    /// setting to apply when it differs from the one in force before.
    pub fn on_config_reloaded(&mut self, new_config: Config) -> (r: Option<bool>)
        ensures
            final(self).config == new_config,
            final(self).exclusive_mode_active == old(self).exclusive_mode_active,
            final(self).update_notified == old(self).update_notified,
            final(self).last_config_mtime == old(self).last_config_mtime,
            r == (if new_config.general.autostart != old(self).config.general.autostart {
                Some(new_config.general.autostart)
            } else {
                None
            }),
    {
        let changed = new_config.general.autostart != self.config.general.autostart;
        let autostart = new_config.general.autostart;
        self.config = new_config;
        if changed {
            Some(autostart)
        } else {
            None
        }
    }

    /// Carries out a choice made in the tray menu on the configuration;
    /// gives what remains for the program to do.
    pub fn on_menu(&mut self, command: MenuCommand) -> (r: MenuAction)
        ensures
            menu_step(old(self).config, command, final(self).config, r),
            final(self).exclusive_mode_active == old(self).exclusive_mode_active,
            final(self).update_notified == old(self).update_notified,
            final(self).last_config_mtime == old(self).last_config_mtime,
    {
        match command {
            MenuCommand::About => MenuAction::ShowAbout,
            MenuCommand::Quit => MenuAction::Quit,
            MenuCommand::ToggleAutostart => {
                let enable = !self.config.general.autostart;
                self.config.general.autostart = enable;
                MenuAction::SetAutostart(enable)
            },
            MenuCommand::ToggleSoftvol => {
                let enable = !self.config.default.force_sw_volume;
                self.config.default.force_sw_volume = enable;
                MenuAction::SetSoftvol(enable)
            },
            MenuCommand::SelectCap(pct) => {
                self.config.default.cap_percent = pct;
                MenuAction::SetCap(pct)
            },
        }
    }
}

/// A rectangle on the screen, as Windows gives it: left, top, right and
/// bottom; the right and bottom edges lie outside it.
pub type ScreenRect = (i32, i32, i32, i32);

/// The point (`x`, `y`) lies in the rectangle `r`.
pub open spec fn spec_point_in_rect(x: i32, y: i32, r: ScreenRect) -> bool {
    r.0 <= x < r.2 && r.1 <= y < r.3
}

/// A mouse-wheel event at the screen point (`x`, `y`) is for the tray icon:
/// the cursor was last seen entering the icon and not leaving it, and the
/// point lies in one of the rectangles of the tray's notification area.
pub open spec fn spec_scroll_over_tray(cursor_over_tray: bool, x: i32, y: i32, areas: Seq<ScreenRect>) -> bool {
    cursor_over_tray && exists|i: int| 0 <= i < areas.len() && spec_point_in_rect(x, y, #[trigger] areas[i])
}

/// Whether a mouse-wheel event at the screen point (`x`, `y`) is to change
/// the volume, given whether the cursor was last seen over the tray icon
/// and the rectangles of the tray's notification area.
pub fn scroll_over_tray(cursor_over_tray: bool, x: i32, y: i32, areas: &[ScreenRect]) -> (r: bool)
    ensures
        r == spec_scroll_over_tray(cursor_over_tray, x, y, areas@),
{
    if !cursor_over_tray {
        return false;
    }
    let n = areas.len();
    for i in 0..n
        invariant
            n == areas@.len(),
            cursor_over_tray,
            forall|j: int| 0 <= j < i ==> !spec_point_in_rect(x, y, #[trigger] areas@[j]),
    {
        let a = areas[i];
        if a.0 <= x && x < a.2 && a.1 <= y && y < a.3 {
            assert(spec_point_in_rect(x, y, areas@[i as int]));
            return true;
        }
    }
    false
}

/// The scroll step, one notch up or down, that a mouse-wheel event carrying
/// `mouse_data` stands for: up when the signed wheel delta in its high word
/// is positive, down otherwise.
pub fn scroll_notch(mouse_data: u32) -> (r: i32)
    ensures
        r == (if ((mouse_data >> 16u32) as i16) > 0 {
            1i32
        } else {
            -1i32
        }),
{
    let delta = (mouse_data >> 16u32) as i16;
    if delta > 0 {
        1
    } else {
        -1
    }
}

} // verus!
