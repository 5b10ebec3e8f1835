//! Decisions behind the headless browser session: which X display to use,
//! whether a browser is a snap, how its PulseAudio environment is set, and
//! the argument lists of the X server, the browser and the input tool.
use vstd::prelude::*;
use crate::text::{
    contains_chars, contains_sub, decimal, decimal_chars, first_line, first_line_chars, push_chars,
    str_chars, trim, trim_chars,
};

verus! {

/// Where the browser's audio is routed.
pub struct BrowserAudioEnv<'a> {
    /// The PulseAudio sink the browser plays into (`PULSE_SINK`).
    pub pulse_sink: &'a str,
    /// The PulseAudio server to use (`PULSE_SERVER`), if any.
    pub pulse_server: Option<&'a str>,
}

/// A browser executable that was found.
pub struct BrowserCommand {
    /// Path of the executable.
    pub path: String,
    /// The browser runs confined as a snap.
    pub is_snap: bool,
}

// ---------------------------------------------------------------------------
// The X display
// ---------------------------------------------------------------------------

/// Displays are searched from the preferred one up to (excluding) this one.
pub const DISPLAY_LIMIT: u8 = 200;

/// The display chosen when `locked[n]` tells whether display `n` is taken:
/// the first unlocked display from `preferred` up to 199, or `preferred`
/// itself when there is none.
pub open spec fn free_display(preferred: u8, locked: Seq<bool>) -> u8 {
    if exists|n: int| preferred <= n < 200 && !locked[n] {
        (choose|n: int|
            preferred <= n < 200 && !locked[n] && forall|m: int| preferred <= m < n ==> locked[m])
            as u8
    } else {
        preferred
    }
}

/// Law: the chosen display is the lowest one from `preferred` up to 199
/// whose lock file is absent; when every one of them is locked (or
/// `preferred` is 200 or more) it is `preferred` itself.
pub proof fn free_display_is_lowest_unlocked(preferred: u8, locked: Seq<bool>)
    requires
        locked.len() >= 200,
    ensures
        ({
            let r = free_display(preferred, locked);
            &&& (exists|n: int| preferred <= n < 200 && !locked[n]) ==> (preferred <= r < 200
                && !locked[r as int] && forall|m: int| preferred <= m < r ==> locked[m])
            &&& (forall|n: int| preferred <= n < 200 ==> locked[n]) ==> r == preferred
        }),
{
    if exists|n: int| preferred <= n < 200 && !locked[n] {
        let w = choose|n: int| preferred <= n < 200 && !locked[n];
        lowest_unlocked_exists(preferred as int, locked, w);
    }
}

proof fn lowest_unlocked_exists(preferred: int, locked: Seq<bool>, w: int)
    requires
        preferred <= w < 200,
        !locked[w],
    ensures
        exists|n: int|
            preferred <= n < 200 && !locked[n] && forall|m: int| preferred <= m < n ==> locked[m],
    decreases w - preferred,
{
    if forall|m: int| preferred <= m < w ==> locked[m] {
    } else {
        let v = choose|m: int| preferred <= m < w && !locked[m];
        lowest_unlocked_exists(preferred, locked, v);
    }
}

/// The lock file of X display `n`: `/tmp/.X<n>-lock`.
pub open spec fn x_lock_file(n: u8) -> Seq<char> {
    "/tmp/.X"@ + decimal(n as nat) + "-lock"@
}

/// The path of the lock file of X display `n`.
pub fn x_lock_path(n: u8) -> (r: Vec<char>)
    ensures
        r@ == x_lock_file(n),
{
    let mut r = str_chars("/tmp/.X");
    let d = decimal_chars(n as u64);
    push_chars(&mut r, &d);
    crate::text::push_str_chars(&mut r, "-lock");
    r
}

/// Finds a free X display given the lock states (`locked[n]`: the lock file
/// of display `n` exists, for every display number below 200): the first
/// display from `preferred` up to 199 without a lock file, else `preferred`.
pub fn find_free_display(preferred: u8, locked: &Vec<bool>) -> (r: u8)
    requires
        locked@.len() >= 200,
    ensures
        r == free_display(preferred, locked@),
{
    let mut n: u8 = preferred;
    while n < DISPLAY_LIMIT
        invariant
            locked@.len() >= 200,
            preferred <= n,
            forall|m: int| preferred <= m < n ==> locked@[m],
        decreases 200 - n,
    {
        if !locked[n as usize] {
            proof {
                let c = choose|k: int|
                    preferred <= k < 200 && !locked@[k] && forall|m: int|
                        preferred <= m < k ==> locked@[m];
                if c < n {
                } else if c > n {
                    assert(locked@[n as int]);
                }
            }
            return n;
        }
        n = n + 1;
    }
    preferred
}

/// The display argument `:<n>`.
pub open spec fn display_name(n: u8) -> Seq<char> {
    seq![':'] + decimal(n as nat)
}

/// The display argument `:<n>` (also the browser's `DISPLAY`).
pub fn display_arg(n: u8) -> (r: Vec<char>)
    ensures
        r@ == display_name(n),
{
    let mut r: Vec<char> = Vec::new();
    r.push(':');
    let d = decimal_chars(n as u64);
    push_chars(&mut r, &d);
    r
}

// ---------------------------------------------------------------------------
// Finding the browser
// ---------------------------------------------------------------------------

/// The browsers looked for, in order of preference.
pub const BROWSER_NAMES: [&'static str; 3] = ["google-chrome", "chromium-browser", "chromium"];

/// The path lies in a snap installation.
pub open spec fn snap_path(path: Seq<char>) -> bool {
    contains_sub(path, "/snap/"@) || path == "/snap/bin/chromium"@
}

/// The name is one of the Chromium names a snap is installed under.
pub open spec fn chromium_name(name: Seq<char>) -> bool {
    name == "chromium"@ || name == "chromium-browser"@
}

fn text_eq(a: &Vec<char>, b: &str) -> (r: bool)
    ensures
        r == (a@ == b@),
{
    let bc = str_chars(b);
    crate::text::chars_equal(a, &bc)
}

/// Whether `path` lies in a snap installation.
pub fn is_snap_path(path: &str) -> (r: bool)
    ensures
        r == snap_path(path@),
{
    let p = str_chars(path);
    let marker = str_chars("/snap/");
    contains_chars(&p, &marker) || text_eq(&p, "/snap/bin/chromium")
}

/// Whether the snap package list has to be asked: only for a Chromium name
/// whose path does not already show a snap.
pub fn needs_snap_query(name: &str, path: &str) -> (r: bool)
    ensures
        r == (!snap_path(path@) && chromium_name(name@)),
{
    if is_snap_path(path) {
        return false;
    }
    let n = str_chars(name);
    text_eq(&n, "chromium") || text_eq(&n, "chromium-browser")
}

/// Whether the browser found as `name` at `path` is a snap, given whether
/// the `chromium` snap is installed (only consulted for Chromium names whose
/// path does not already show it).
pub fn is_snap_browser(name: &str, path: &str, snap_chromium_installed: bool) -> (r: bool)
    ensures
        r == (snap_path(path@) || (chromium_name(name@) && snap_chromium_installed)),
{
    if is_snap_path(path) {
        return true;
    }
    let n = str_chars(name);
    (text_eq(&n, "chromium") || text_eq(&n, "chromium-browser")) && snap_chromium_installed
}

/// The browser command for `name` found at `path`.
pub fn browser_command(name: &str, path: String, snap_chromium_installed: bool) -> (r:
    BrowserCommand)
    ensures
        r.path@ == path@,
        r.is_snap == (snap_path(path@) || (chromium_name(name@) && snap_chromium_installed)),
{
    let is_snap = is_snap_browser(name, path.as_str(), snap_chromium_installed);
    BrowserCommand { path, is_snap }
}

/// The executable path in the output of `which`: its first line without
/// surrounding white space, if that is not empty.
pub open spec fn path_in_which_output(output: Seq<char>) -> Option<Seq<char>> {
    let p = trim(first_line(output));
    if p.len() > 0 {
        Some(p)
    } else {
        None
    }
}

/// The executable path printed by `which` (its output as text).
pub fn which_output_path(output: &str) -> (r: Option<Vec<char>>)
    ensures
        match r {
            Some(p) => path_in_which_output(output@) == Some(p@),
            None => path_in_which_output(output@) is None,
        },
{
    let text = str_chars(output);
    let line = first_line_chars(&text);
    let path = trim_chars(&line);
    if path.len() > 0 {
        Some(path)
    } else {
        None
    }
}

// ---------------------------------------------------------------------------
// Audio routing
// ---------------------------------------------------------------------------

/// What becomes of the browser's `PULSE_SERVER` variable.
pub enum PulseServerSetting {
    /// Leave the inherited value alone.
    Inherit,
    /// Remove it from the browser's environment.
    Remove,
    /// Set it to the configured server.
    SetToServer,
}

/// The server names a unix socket (`unix:` prefix).
pub open spec fn unix_server(server: Seq<char>) -> bool {
    server.len() >= 5 && server.take(5) == "unix:"@
}

/// Whether `server` names a unix socket.
pub fn is_unix_pulse_server(server: &str) -> (r: bool)
    ensures
        r == unix_server(server@),
{
    let s = str_chars(server);
    let p = str_chars("unix:");
    proof {
        reveal_strlit("unix:");
    }
    crate::text::starts_with_chars(&s, &p)
}

/// The `PULSE_SERVER` decision: with no server configured nothing changes;
/// a snap browser given a unix socket gets the variable removed (snap's own
/// PulseAudio mediation applies and `PULSE_SINK` still selects the sink);
/// otherwise it is set to the configured server. `PULSE_SINK` is always set.
pub open spec fn pulse_server_for(server: Option<Seq<char>>, is_snap: bool) -> PulseServerSetting {
    match server {
        None => PulseServerSetting::Inherit,
        Some(s) => if is_snap && unix_server(s) {
            PulseServerSetting::Remove
        } else {
            PulseServerSetting::SetToServer
        },
    }
}

/// The view of an optional text.
pub open spec fn opt_text(o: Option<&str>) -> Option<Seq<char>> {
    match o {
        Some(s) => Some(s@),
        None => None,
    }
}

/// What to do with the browser's `PULSE_SERVER`.
pub fn pulse_server_setting(audio_env: &BrowserAudioEnv, browser: &BrowserCommand) -> (r:
    PulseServerSetting)
    ensures
        r == pulse_server_for(opt_text(audio_env.pulse_server), browser.is_snap),
{
    match audio_env.pulse_server {
        None => PulseServerSetting::Inherit,
        Some(s) => {
            if browser.is_snap && is_unix_pulse_server(s) {
                PulseServerSetting::Remove
            } else {
                PulseServerSetting::SetToServer
            }
        },
    }
}

// ---------------------------------------------------------------------------
// Argument lists
// ---------------------------------------------------------------------------

/// The texts of an argument list.
pub open spec fn arg_views(v: Seq<Vec<char>>) -> Seq<Seq<char>> {
    v.map_values(|a: Vec<char>| a@)
}

/// `r` holds exactly the arguments `expected`, in order.
pub open spec fn holds_args(r: Seq<Vec<char>>, expected: Seq<Seq<char>>) -> bool {
    r.len() == expected.len() && forall|k: int| 0 <= k < r.len() ==> #[trigger] r[k]@ == expected[k]
}

proof fn views_give_args(r: Seq<Vec<char>>, expected: Seq<Seq<char>>)
    requires
        arg_views(r) == expected,
    ensures
        holds_args(r, expected),
{
    assert forall|k: int| 0 <= k < r.len() implies #[trigger] r[k]@ == expected[k] by {
        assert(arg_views(r)[k] == r[k]@);
    }
}

fn arg(s: &str) -> (r: Vec<char>)
    ensures
        r@ == s@,
{
    str_chars(s)
}

/// `<w>x<h>x24`, the X server's screen geometry.
pub open spec fn screen_geometry(width: u32, height: u32) -> Seq<char> {
    decimal(width as nat) + seq!['x'] + decimal(height as nat) + "x24"@
}

/// The X server's arguments: `:<display> -screen 0 <w>x<h>x24 -ac`.
pub open spec fn xvfb_argv(display: u8, width: u32, height: u32) -> Seq<Seq<char>> {
    seq![display_name(display), "-screen"@, "0"@, screen_geometry(width, height), "-ac"@]
}

/// The X server's arguments.
pub fn xvfb_args(display: u8, width: u32, height: u32) -> (r: Vec<Vec<char>>)
    ensures
        holds_args(r@, xvfb_argv(display, width, height)),
{
    let mut geometry = decimal_chars(width as u64);
    geometry.push('x');
    let h = decimal_chars(height as u64);
    push_chars(&mut geometry, &h);
    crate::text::push_str_chars(&mut geometry, "x24");
    assert(geometry@ =~= screen_geometry(width, height));
    let mut r: Vec<Vec<char>> = Vec::new();
    r.push(display_arg(display));
    r.push(arg("-screen"));
    r.push(arg("0"));
    r.push(geometry);
    r.push(arg("-ac"));
    proof {
        assert(arg_views(r@) =~= xvfb_argv(display, width, height));
        views_give_args(r@, xvfb_argv(display, width, height));
    }
    r
}

/// The fixed browser flags: no sandbox or first-run UI, no GPU, no
/// background services, X11, scale factor 1, quiet logging.
pub const CHROME_FLAGS: [&'static str; 19] = [
    "--no-sandbox",
    "--no-first-run",
    "--disable-extensions",
    "--disable-gpu",
    "--disable-gpu-compositing",
    "--disable-accelerated-video-decode",
    "--disable-accelerated-video-encode",
    "--disable-dev-shm-usage",
    "--disable-background-networking",
    "--disable-component-update",
    "--disable-default-apps",
    "--disable-sync",
    "--disable-features=UsePortal,WebRtcUsePipeWireCapturer",
    "--force-device-scale-factor=1",
    "--log-level=3",
    "--no-default-browser-check",
    "--ozone-platform=x11",
    "--password-store=basic",
    "--use-gl=disabled",
];

/// `--window-size=<w>,<h>`.
pub open spec fn window_size_flag(width: u32, height: u32) -> Seq<char> {
    "--window-size="@ + decimal(width as nat) + seq![','] + decimal(height as nat)
}

/// The browser's arguments: the fixed flags, the window size, the URL, and
/// `--mute-audio` when muted.
pub open spec fn browser_argv(width: u32, height: u32, url: Seq<char>, mute_audio: bool) -> Seq<
    Seq<char>,
> {
    CHROME_FLAGS@.map_values(|f: &'static str| f@) + seq![window_size_flag(width, height), url] + (
    if mute_audio {
        seq!["--mute-audio"@]
    } else {
        Seq::empty()
    })
}

/// The browser's arguments.
pub fn browser_args(width: u32, height: u32, url: &str, mute_audio: bool) -> (r: Vec<Vec<char>>)
    ensures
        holds_args(r@, browser_argv(width, height, url@, mute_audio)),
{
    let mut r: Vec<Vec<char>> = Vec::new();
    let mut i: usize = 0;
    while i < 19
        invariant
            i <= 19,
            arg_views(r@) == CHROME_FLAGS@.map_values(|f: &'static str| f@).take(i as int),
        decreases 19 - i,
    {
        let f = CHROME_FLAGS[i];
        assert(f == CHROME_FLAGS@[i as int]);
        let flag = arg(f);
        let ghost before = r@;
        r.push(flag);
        proof {
            assert(arg_views(r@) =~= arg_views(before).push(f@));
            assert(arg_views(r@) =~= CHROME_FLAGS@.map_values(|f: &'static str| f@).take(i + 1));
        }
        i = i + 1;
    }
    let ghost flags_part = arg_views(r@);
    let mut size = str_chars("--window-size=");
    let w = decimal_chars(width as u64);
    push_chars(&mut size, &w);
    size.push(',');
    let h = decimal_chars(height as u64);
    push_chars(&mut size, &h);
    assert(size@ =~= window_size_flag(width, height));
    r.push(size);
    r.push(arg(url));
    if mute_audio {
        r.push(arg("--mute-audio"));
    }
    proof {
        assert(CHROME_FLAGS@.map_values(|f: &'static str| f@).take(19) =~= CHROME_FLAGS@.map_values(
            |f: &'static str| f@,
        ));
        assert(arg_views(r@) =~= browser_argv(width, height, url@, mute_audio));
        views_give_args(r@, browser_argv(width, height, url@, mute_audio));
    }
    r
}

/// `xdotool key --clearmodifiers <key>`.
pub open spec fn key_argv(key: Seq<char>) -> Seq<Seq<char>> {
    seq!["key"@, "--clearmodifiers"@, key]
}

/// `xdotool type --clearmodifiers <text>`.
pub open spec fn type_argv(text: Seq<char>) -> Seq<Seq<char>> {
    seq!["type"@, "--clearmodifiers"@, text]
}

/// `xdotool key --clearmodifiers <key>`.
pub fn key_args(key: &str) -> (r: Vec<Vec<char>>)
    ensures
        holds_args(r@, key_argv(key@)),
{
    let mut r: Vec<Vec<char>> = Vec::new();
    r.push(arg("key"));
    r.push(arg("--clearmodifiers"));
    r.push(arg(key));
    proof {
        assert(arg_views(r@) =~= seq!["key"@, "--clearmodifiers"@, key@]);
        views_give_args(r@, seq!["key"@, "--clearmodifiers"@, key@]);
    }
    r
}

/// `xdotool type --clearmodifiers <text>`.
pub fn type_args(text: &str) -> (r: Vec<Vec<char>>)
    ensures
        holds_args(r@, type_argv(text@)),
{
    let mut r: Vec<Vec<char>> = Vec::new();
    r.push(arg("type"));
    r.push(arg("--clearmodifiers"));
    r.push(arg(text));
    proof {
        assert(arg_views(r@) =~= seq!["type"@, "--clearmodifiers"@, text@]);
        views_give_args(r@, seq!["type"@, "--clearmodifiers"@, text@]);
    }
    r
}

/// `r` holds exactly the argument lists `expected`, in order.
pub open spec fn holds_steps(r: Seq<Vec<Vec<char>>>, expected: Seq<Seq<Seq<char>>>) -> bool {
    r.len() == expected.len() && forall|k: int|
        0 <= k < r.len() ==> holds_args(#[trigger] r[k]@, expected[k])
}

/// The input-tool invocations that open `url`: focus the address bar
/// (`ctrl+l`), type the URL, press Return.
pub open spec fn navigate_argvs(url: Seq<char>) -> Seq<Seq<Seq<char>>> {
    seq![key_argv("ctrl+l"@), type_argv(url), key_argv("Return"@)]
}

/// The input-tool invocations that open `url`, in order.
pub fn navigate_steps(url: &str) -> (r: Vec<Vec<Vec<char>>>)
    ensures
        holds_steps(r@, navigate_argvs(url@)),
{
    let mut r: Vec<Vec<Vec<char>>> = Vec::new();
    r.push(key_args("ctrl+l"));
    r.push(type_args(url));
    r.push(key_args("Return"));
    r
}

/// The input-tool invocation that reloads the page: the `F5` key.
pub fn reload_args() -> (r: Vec<Vec<char>>)
    ensures
        holds_args(r@, key_argv("F5"@)),
{
    key_args("F5")
}

/// The input-tool invocations that type `text` into the page and press
/// Return.
pub open spec fn type_and_enter_argvs(text: Seq<char>) -> Seq<Seq<Seq<char>>> {
    seq![type_argv(text), key_argv("Return"@)]
}

/// The input-tool invocations that type `text` and press Return, in order.
pub fn type_and_enter_steps(text: &str) -> (r: Vec<Vec<Vec<char>>>)
    ensures
        holds_steps(r@, type_and_enter_argvs(text@)),
{
    let mut r: Vec<Vec<Vec<char>>> = Vec::new();
    r.push(type_args(text));
    r.push(key_args("Return"));
    r
}

/// The mouse button that scrolls: 1 = up (button 4), otherwise down (5).
pub open spec fn scroll_button(direction: i8) -> Seq<char> {
    if direction > 0 {
        "4"@
    } else {
        "5"@
    }
}

/// The mouse button that scrolls sideways: 1 = left (button 6), otherwise
/// right (7).
pub open spec fn scroll_horizontal_button(direction: i8) -> Seq<char> {
    if direction > 0 {
        "6"@
    } else {
        "7"@
    }
}

/// `xdotool click <4|5>`: a vertical scroll step.
pub fn scroll_args(direction: i8) -> (r: Vec<Vec<char>>)
    ensures
        holds_args(r@, seq!["click"@, scroll_button(direction)]),
{
    let button = if direction > 0 {
        "4"
    } else {
        "5"
    };
    let mut r: Vec<Vec<char>> = Vec::new();
    r.push(arg("click"));
    r.push(arg(button));
    proof {
        assert(arg_views(r@) =~= seq!["click"@, scroll_button(direction)]);
        views_give_args(r@, seq!["click"@, scroll_button(direction)]);
    }
    r
}

/// `xdotool click <6|7>`: a horizontal scroll step.
pub fn scroll_horizontal_args(direction: i8) -> (r: Vec<Vec<char>>)
    ensures
        holds_args(r@, seq!["click"@, scroll_horizontal_button(direction)]),
{
    let button = if direction > 0 {
        "6"
    } else {
        "7"
    };
    let mut r: Vec<Vec<char>> = Vec::new();
    r.push(arg("click"));
    r.push(arg(button));
    proof {
        assert(arg_views(r@) =~= seq!["click"@, scroll_horizontal_button(direction)]);
        views_give_args(r@, seq!["click"@, scroll_horizontal_button(direction)]);
    }
    r
}

/// `xdotool mousemove --sync <x> <y> click <button>`.
pub open spec fn click_argv(button: u8, x: u32, y: u32) -> Seq<Seq<char>> {
    seq![
        "mousemove"@,
        "--sync"@,
        decimal(x as nat),
        decimal(y as nat),
        "click"@,
        decimal(button as nat),
    ]
}

/// The arguments of a click at browser pixel `(x, y)`.
pub fn click_args(button: u8, x: u32, y: u32) -> (r: Vec<Vec<char>>)
    ensures
        holds_args(r@, click_argv(button, x, y)),
{
    let mut r: Vec<Vec<char>> = Vec::new();
    r.push(arg("mousemove"));
    r.push(arg("--sync"));
    r.push(decimal_chars(x as u64));
    r.push(decimal_chars(y as u64));
    r.push(arg("click"));
    r.push(decimal_chars(button as u64));
    proof {
        assert(arg_views(r@) =~= click_argv(button, x, y));
        views_give_args(r@, click_argv(button, x, y));
    }
    r
}

/// Law: scrolling up and down (and left and right) use different buttons.
pub proof fn scroll_directions_differ()
    ensures
        scroll_button(1) != scroll_button(-1i8),
        scroll_horizontal_button(1) != scroll_horizontal_button(-1i8),
{
    reveal_strlit("4");
    reveal_strlit("5");
    reveal_strlit("6");
    reveal_strlit("7");
    assert("4"@[0] != "5"@[0]);
    assert("6"@[0] != "7"@[0]);
}

} // verus!
