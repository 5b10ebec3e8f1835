use kitweb::config::{Config, DEFAULT_DISPLAY, DEFAULT_FPS, DEFAULT_HEIGHT, DEFAULT_WIDTH};
use kitweb::terminal::{audio_control_unavailable_status, supports_kitty_graphics_protocol, TerminalEnv};
use kitweb::text::{char_is_white_space, trim_chars, first_line_chars, contains_chars, decimal_bytes, decimal_chars, escape_default_chars, starts_with_chars, str_chars};

fn chars(s: &str) -> Vec<char> {
    s.chars().collect()
}

fn env<'a>(term: &'a str, term_program: &'a str) -> TerminalEnv<'a> {
    TerminalEnv { kitweb_force: false, kitty_window_id: false, term, ghostty_resources_dir: false, term_program }
}

#[test]
fn decimal_rendering() {
    for n in [0u64, 7, 10, 99, 1234, 4294967295, u64::MAX] {
        assert_eq!(decimal_chars(n).iter().collect::<String>(), n.to_string());
        assert_eq!(decimal_bytes(n), n.to_string().into_bytes());
    }
}

#[test]
fn escaping_matches_std() {
    let sample: Vec<char> = (0u32..0x300).filter_map(char::from_u32).chain(['\u{10ffff}', '\u{fffd}']).collect();
    let expected: String = sample.iter().flat_map(|c| c.escape_default()).collect();
    assert_eq!(escape_default_chars(&sample).iter().collect::<String>(), expected);
}

#[test]
fn substrings() {
    assert!(contains_chars(&chars("a://b"), &chars("://")));
    assert!(!contains_chars(&chars("a:/b"), &chars("://")));
    assert!(contains_chars(&chars("x"), &chars("")));
    assert!(starts_with_chars(&chars("unix:/x"), &chars("unix:")));
    assert!(!starts_with_chars(&chars("uni"), &chars("unix:")));
    assert_eq!(str_chars("héllo"), chars("héllo"));
}

#[test]
fn kitty_terminal_detection() {
    assert!(supports_kitty_graphics_protocol(&env("xterm-kitty", "")));
    assert!(!supports_kitty_graphics_protocol(&env("xterm-256color", "")));
    assert!(supports_kitty_graphics_protocol(&env("xterm-256color", "WezTerm")));
    assert!(supports_kitty_graphics_protocol(&env("", "ghostty")));
    assert!(supports_kitty_graphics_protocol(&env("", "KITTY")));
    assert!(!supports_kitty_graphics_protocol(&env("", "iTerm.app")));
    let forced = TerminalEnv { kitweb_force: true, ..env("", "") };
    assert!(supports_kitty_graphics_protocol(&forced));
    let kitty_window = TerminalEnv { kitty_window_id: true, ..env("", "") };
    assert!(supports_kitty_graphics_protocol(&kitty_window));
    let ghostty = TerminalEnv { ghostty_resources_dir: true, ..env("", "") };
    assert!(supports_kitty_graphics_protocol(&ghostty));
}

#[test]
fn audio_fallback_status() {
    let s = |v: Vec<char>| v.into_iter().collect::<String>();
    assert_eq!(s(audio_control_unavailable_status(true, Some(chars("x")))), "audio disabled");
    assert_eq!(s(audio_control_unavailable_status(false, Some(chars("audio direct fallback: e")))), "audio direct fallback: e");
    assert_eq!(s(audio_control_unavailable_status(false, None)), "audio unavailable");
}

#[test]
fn config_defaults() {
    let c = Config {
        url: "https://example.com".to_string(),
        width: DEFAULT_WIDTH,
        height: DEFAULT_HEIGHT,
        fps: DEFAULT_FPS,
        display: DEFAULT_DISPLAY,
        no_audio: false,
        audio_capture_server: None,
    };
    assert_eq!((c.width, c.height, c.fps, c.display), (1680, 1260, 30, 99));
}

#[test]
fn escaped_text_is_printable_ascii() {
    let sample: Vec<char> = (0u32..0x2000).filter_map(char::from_u32).chain(['\u{1b}', '\u{7}', '\u{10ffff}']).collect();
    let escaped = escape_default_chars(&sample);
    assert!(escaped.iter().all(|&c| (' '..='~').contains(&c)));
}

#[test]
fn white_space_matches_std() {
    for v in 0u32..0x11000 {
        if let Some(c) = char::from_u32(v) {
            assert_eq!(char_is_white_space(c), c.is_whitespace(), "U+{:04X}", v);
        }
    }
    assert_eq!(trim_chars(&chars(" \t a b \u{3000}")), chars("a b"));
    assert_eq!(trim_chars(&chars("   ")), chars(""));
    assert_eq!(first_line_chars(&chars("ab\ncd")), chars("ab"));
    assert_eq!(first_line_chars(&chars("ab")), chars("ab"));
}
