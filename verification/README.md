# winsoftvol

WinSoftVol sits in the Windows system tray and carries changes of the
system volume slider over to the volume of every audio session, for USB
audio devices that ignore the endpoint volume.

- `src/` is the verified library (Verus): the configuration and its
  sanitizing (`config`), the registry values of older versions (`softvol`,
  `volcap`, `autostart`), the decisions of the main loop and which wheel
  events count (`control`), toast documents (`notification`), the release
  check (`updater`), the About dialog's text and links and UTF-16 encoding
  (`about`), the tray menu presets (`tray`) and string helpers (`text`).
- `app/` is the Windows program around it: Core Audio, the tray icon and
  menu, the registry, WinHTTP, toasts, the configuration file in TOML, and
  the volume arithmetic on `f32` scalars.
- `tests/` runs the library on concrete values.
