//! Start-up decisions: whether the terminal speaks the Kitty graphics
//! protocol, and what the mute and volume keys report without audio.
use vstd::prelude::*;
use crate::text::{chars_equal, str_chars};

verus! {

/// Name for what `str::to_lowercase` returns for `s` (Unicode lowercase
/// mapping).
pub uninterp spec fn lowercase(s: Seq<char>) -> Seq<char>;

/// Calls `str::to_lowercase`. Trusted: the result is the lowercase mapping
/// of `s`, as characters.
#[verifier::external_body]
fn to_lowercase(s: &str) -> (r: Vec<char>)
    ensures
        r@ == lowercase(s@),
{
    s.to_lowercase().chars().collect()
}

/// What the environment says about the terminal.
pub struct TerminalEnv<'a> {
    /// `KITWEB_FORCE` is set.
    pub kitweb_force: bool,
    /// `KITTY_WINDOW_ID` is set.
    pub kitty_window_id: bool,
    /// `TERM`, or empty when unset.
    pub term: &'a str,
    /// `GHOSTTY_RESOURCES_DIR` is set.
    pub ghostty_resources_dir: bool,
    /// `TERM_PROGRAM`, or empty when unset.
    pub term_program: &'a str,
}

/// The terminal supports the Kitty graphics protocol: forced, inside Kitty
/// (`KITTY_WINDOW_ID` or `TERM=xterm-kitty`), inside Ghostty, or a
/// `TERM_PROGRAM` whose lowercase form `program` is `ghostty`, `wezterm` or
/// `kitty`.
pub open spec fn kitty_graphics_supported_given(env: TerminalEnv, program: Seq<char>) -> bool {
    env.kitweb_force || env.kitty_window_id || env.term@ == "xterm-kitty"@
        || env.ghostty_resources_dir || program == "ghostty"@ || program == "wezterm"@ || program
        == "kitty"@
}

/// Law: each sign of Kitty-protocol support suffices on its own, whatever
/// `TERM_PROGRAM` says: `KITWEB_FORCE`, `KITTY_WINDOW_ID`, `TERM=xterm-kitty`,
/// `GHOSTTY_RESOURCES_DIR`, or a lowercased `TERM_PROGRAM` of `ghostty`,
/// `wezterm` or `kitty`; without any of them the terminal is not supported.
pub proof fn each_sign_suffices(env: TerminalEnv, program: Seq<char>)
    ensures
        env.kitweb_force ==> kitty_graphics_supported_given(env, program),
        env.kitty_window_id ==> kitty_graphics_supported_given(env, program),
        env.term@ == "xterm-kitty"@ ==> kitty_graphics_supported_given(env, program),
        env.ghostty_resources_dir ==> kitty_graphics_supported_given(env, program),
        (program == "ghostty"@ || program == "wezterm"@ || program == "kitty"@)
            ==> kitty_graphics_supported_given(env, program),
        (!env.kitweb_force && !env.kitty_window_id && env.term@ != "xterm-kitty"@
            && !env.ghostty_resources_dir && program != "ghostty"@ && program != "wezterm"@
            && program != "kitty"@) ==> !kitty_graphics_supported_given(env, program),
{
}

/// The same, with `TERM_PROGRAM` lowercased.
pub open spec fn kitty_graphics_supported(env: TerminalEnv) -> bool {
    kitty_graphics_supported_given(env, lowercase(env.term_program@))
}

fn text_is(a: &Vec<char>, b: &str) -> (r: bool)
    ensures
        r == (a@ == b@),
{
    let bc = str_chars(b);
    chars_equal(a, &bc)
}

/// Whether the terminal described by `env` supports the Kitty graphics
/// protocol, `program` being its `TERM_PROGRAM` already lowercased.
pub fn supports_kitty_graphics_given(env: &TerminalEnv, program: &Vec<char>) -> (r: bool)
    ensures
        r == kitty_graphics_supported_given(*env, program@),
{
    if env.kitweb_force || env.kitty_window_id {
        return true;
    }
    let term = str_chars(env.term);
    if text_is(&term, "xterm-kitty") {
        return true;
    }
    if env.ghostty_resources_dir {
        return true;
    }
    text_is(program, "ghostty") || text_is(program, "wezterm") || text_is(program, "kitty")
}

/// Whether the terminal described by `env` supports the Kitty graphics
/// protocol.
pub fn supports_kitty_graphics_protocol(env: &TerminalEnv) -> (r: bool)
    ensures
        r == kitty_graphics_supported(*env),
{
    let program = to_lowercase(env.term_program);
    supports_kitty_graphics_given(env, &program)
}

/// The status shown by the mute and volume keys when no audio runtime runs:
/// "audio disabled" with audio turned off, else the start-up audio status,
/// else "audio unavailable".
pub open spec fn unavailable_status(no_audio: bool, startup_status: Option<Seq<char>>) -> Seq<char> {
    if no_audio {
        "audio disabled"@
    } else {
        match startup_status {
            Some(s) => s,
            None => "audio unavailable"@,
        }
    }
}

/// The status text for audio controls without an audio runtime.
pub fn audio_control_unavailable_status(no_audio: bool, startup_status: Option<Vec<char>>) -> (r:
    Vec<char>)
    ensures
        r@ == unavailable_status(
            no_audio,
            match startup_status {
                Some(s) => Some(s@),
                None => None,
            },
        ),
{
    if no_audio {
        str_chars("audio disabled")
    } else {
        match startup_status {
            Some(s) => s,
            None => str_chars("audio unavailable"),
        }
    }
}

} // verus!
