use vstd::prelude::*;

verus! {

/// The AppUserModelID under which the program shows its toasts.
pub const AUMID: &'static str = "WinSoftVol";

/// The title of ordinary toasts.
pub const TITLE_APP: &'static str = "WinSoftVol";

/// The title of the toast that reports an application in exclusive mode.
pub const TITLE_EXCLUSIVE: &'static str = "WinSoftVol \u{2014} exclusive mode detected";

/// The title of the toast that reports a configuration error.
pub const TITLE_CONFIG_ERROR: &'static str = "WinSoftVol \u{2014} Config Error";

/// The message shown when the audio device came back.
pub const MSG_RECONNECTED: &'static str = "USB audio device reconnected \u{2014} volume control restored.";

/// The message shown when an application took exclusive mode.
pub const MSG_EXCLUSIVE_START: &'static str =
    "An app bypassed the audio mixer. Volume control won't apply to it until it releases the device.";

/// The message shown when exclusive mode ended.
pub const MSG_EXCLUSIVE_END: &'static str = "Exclusive audio mode ended \u{2014} volume control restored.";

/// How many characters of a configuration error the toast shows at most.
pub const CONFIG_ERROR_MAX_CHARS: usize = 200;

/// The toast document with the title `title` and the text `body`.
pub open spec fn spec_toast_xml(title: Seq<char>, body: Seq<char>) -> Seq<char> {
    "<toast duration=\"short\"><visual><binding template=\"ToastGeneric\"><text>"@ + title + "</text><text>"@
        + body + "</text></binding></visual></toast>"@
}

/// The toast document with the title `title` and the text `body`; the two
/// are inserted as they are.
pub fn build_toast_xml(title: &str, body: &str) -> (r: String)
    ensures
        r@ == spec_toast_xml(title@, body@),
{
    let mut r = String::new();
    r.append("<toast duration=\"short\"><visual><binding template=\"ToastGeneric\"><text>");
    r.append(title);
    r.append("</text><text>");
    r.append(body);
    r.append("</text></binding></visual></toast>");
    r
}

/// The toast that announces that the audio device is back.
pub fn show_device_reconnected() -> (r: String)
    ensures
        r@ == spec_toast_xml(TITLE_APP@, MSG_RECONNECTED@),
{
    build_toast_xml(TITLE_APP, MSG_RECONNECTED)
}

/// The text of the toast for the configuration error `msg`: its first
/// `CONFIG_ERROR_MAX_CHARS` characters and a word on what happens next.
pub open spec fn spec_config_error_body(msg: Seq<char>) -> Seq<char> {
    let shown = if msg.len() <= CONFIG_ERROR_MAX_CHARS {
        msg
    } else {
        msg.take(CONFIG_ERROR_MAX_CHARS as int)
    };
    "config.toml: "@ + shown + "\nPrevious settings kept. Fix the file to apply changes."@
}

/// The toast that reports the configuration error `msg`.
pub fn show_config_error(msg: &str) -> (r: String)
    ensures
        r@ == spec_toast_xml(TITLE_CONFIG_ERROR@, spec_config_error_body(msg@)),
{
    let n = msg.unicode_len();
    let shown = if n <= CONFIG_ERROR_MAX_CHARS {
        msg.substring_char(0, n)
    } else {
        msg.substring_char(0, CONFIG_ERROR_MAX_CHARS)
    };
    proof {
        if n <= CONFIG_ERROR_MAX_CHARS {
            assert(shown@ =~= msg@);
        } else {
            assert(shown@ =~= msg@.take(CONFIG_ERROR_MAX_CHARS as int));
        }
    }
    let mut body = String::new();
    body.append("config.toml: ");
    body.append(shown);
    body.append("\nPrevious settings kept. Fix the file to apply changes.");
    build_toast_xml(TITLE_CONFIG_ERROR, body.as_str())
}

/// The toast that reports an application in exclusive mode.
pub fn show_exclusive_mode_active() -> (r: String)
    ensures
        r@ == spec_toast_xml(TITLE_EXCLUSIVE@, MSG_EXCLUSIVE_START@),
{
    build_toast_xml(TITLE_EXCLUSIVE, MSG_EXCLUSIVE_START)
}

/// The toast that reports the end of exclusive mode.
pub fn show_exclusive_mode_ended() -> (r: String)
    ensures
        r@ == spec_toast_xml(TITLE_APP@, MSG_EXCLUSIVE_END@),
{
    build_toast_xml(TITLE_APP, MSG_EXCLUSIVE_END)
}

/// The toast that offers the release `tag`, opening `url` when clicked.
pub open spec fn spec_update_xml(tag: Seq<char>, url: Seq<char>) -> Seq<char> {
    "<toast launch=\""@ + url
        + "\" activationType=\"protocol\" duration=\"short\"><visual><binding template=\"ToastGeneric\"><text>WinSoftVol Update Available</text><text>"@
        + tag + " is ready \u{2014} click to open release page</text></binding></visual></toast>"@
}

/// The toast that offers the release `tag`, opening `url` when clicked.
pub fn show_update_available(tag: &str, url: &str) -> (r: String)
    ensures
        r@ == spec_update_xml(tag@, url@),
{
    let mut r = String::new();
    r.append("<toast launch=\"");
    r.append(url);
    r.append(
        "\" activationType=\"protocol\" duration=\"short\"><visual><binding template=\"ToastGeneric\"><text>WinSoftVol Update Available</text><text>",
    );
    r.append(tag);
    r.append(" is ready \u{2014} click to open release page</text></binding></visual></toast>");
    r
}

} // verus!
