use kitweb::browser::{
    browser_args, browser_command, click_args, display_arg, find_free_display, navigate_steps, reload_args, type_and_enter_steps, which_output_path, x_lock_path,
    is_snap_browser, is_snap_path, is_unix_pulse_server, key_args, needs_snap_query,
    pulse_server_setting, scroll_args, scroll_horizontal_args, type_args, xvfb_args,
    BrowserAudioEnv, BrowserCommand, PulseServerSetting, BROWSER_NAMES, CHROME_FLAGS,
};

fn strings(v: &[Vec<char>]) -> Vec<String> {
    v.iter().map(|a| a.iter().collect()).collect()
}

#[test]
fn display_names() {
    assert_eq!(display_arg(99).iter().collect::<String>(), ":99");
    assert_eq!(display_arg(0).iter().collect::<String>(), ":0");
}

#[test]
fn free_display_choice() {
    let mut locked = vec![false; 256];
    assert_eq!(find_free_display(99, &locked), 99);
    locked[99] = true;
    locked[100] = true;
    assert_eq!(find_free_display(99, &locked), 101);
    // Locks below the preferred display do not matter.
    locked[5] = true;
    assert_eq!(find_free_display(5, &locked), 6);
    for n in 99..200 {
        locked[n] = true;
    }
    assert_eq!(find_free_display(99, &locked), 99);
    // Nothing to search from 200 on.
    assert_eq!(find_free_display(250, &locked), 250);
    assert_eq!(x_lock_path(99).iter().collect::<String>(), "/tmp/.X99-lock");
    assert_eq!(x_lock_path(0).iter().collect::<String>(), "/tmp/.X0-lock");
}

#[test]
fn xvfb_arguments() {
    assert_eq!(strings(&xvfb_args(99, 1680, 1260)), vec![":99", "-screen", "0", "1680x1260x24", "-ac"]);
}

#[test]
fn browser_arguments() {
    let a = strings(&browser_args(800, 600, "https://x.org", false));
    assert_eq!(a.len(), 21);
    assert_eq!(a[..19].to_vec(), CHROME_FLAGS.iter().map(|s| s.to_string()).collect::<Vec<_>>());
    assert_eq!(a[0], "--no-sandbox");
    assert_eq!(a[19], "--window-size=800,600");
    assert_eq!(a[20], "https://x.org");
    let m = strings(&browser_args(800, 600, "u", true));
    assert_eq!(m.len(), 22);
    assert_eq!(m[21], "--mute-audio");
}

#[test]
fn input_tool_arguments() {
    assert_eq!(strings(&key_args("F5")), vec!["key", "--clearmodifiers", "F5"]);
    assert_eq!(strings(&type_args("hi there")), vec!["type", "--clearmodifiers", "hi there"]);
    assert_eq!(strings(&scroll_args(1)), vec!["click", "4"]);
    assert_eq!(strings(&scroll_args(-1)), vec!["click", "5"]);
    assert_eq!(strings(&scroll_horizontal_args(1)), vec!["click", "6"]);
    assert_eq!(strings(&scroll_horizontal_args(-1)), vec!["click", "7"]);
    assert_eq!(strings(&click_args(1, 15, 30)), vec!["mousemove", "--sync", "15", "30", "click", "1"]);
}

#[test]
fn input_tool_sequences() {
    let steps: Vec<Vec<String>> = navigate_steps("https://a.b").iter().map(|s| strings(s)).collect();
    assert_eq!(
        steps,
        vec![
            vec!["key", "--clearmodifiers", "ctrl+l"],
            vec!["type", "--clearmodifiers", "https://a.b"],
            vec!["key", "--clearmodifiers", "Return"],
        ]
    );
    assert_eq!(strings(&reload_args()), vec!["key", "--clearmodifiers", "F5"]);
    let steps: Vec<Vec<String>> = type_and_enter_steps("hi").iter().map(|s| strings(s)).collect();
    assert_eq!(steps, vec![vec!["type", "--clearmodifiers", "hi"], vec!["key", "--clearmodifiers", "Return"]]);
}

#[test]
fn which_output_parsing() {
    let p = |s: &str| which_output_path(s).map(|v| v.into_iter().collect::<String>());
    assert_eq!(p("/usr/bin/chromium\n"), Some("/usr/bin/chromium".to_string()));
    assert_eq!(p("  /usr/bin/x \r\nsecond\n"), Some("/usr/bin/x".to_string()));
    assert_eq!(p(""), None);
    assert_eq!(p("\n/usr/bin/x\n"), None);
    assert_eq!(p("  \t \n"), None);
    assert_eq!(p("\u{3000}/a b\u{a0}"), Some("/a b".to_string()));
    for s in ["x", "\r\n", " a\r", "a\rb\n", "\u{85}q\u{2028}\nr"] {
        let expected = s.lines().next().map(|l| l.trim().to_string()).filter(|l| !l.is_empty());
        assert_eq!(p(s), expected);
    }
}

#[test]
fn snap_detection() {
    assert!(is_snap_path("/snap/bin/chromium"));
    assert!(is_snap_path("/var/lib/snapd/snap/bin/chromium"));
    assert!(!is_snap_path("/usr/bin/chromium"));
    assert!(is_snap_browser("google-chrome", "/snap/bin/x", false));
    assert!(is_snap_browser("chromium", "/usr/bin/chromium", true));
    assert!(is_snap_browser("chromium-browser", "/usr/bin/chromium-browser", true));
    assert!(!is_snap_browser("chromium", "/usr/bin/chromium", false));
    assert!(!is_snap_browser("google-chrome", "/usr/bin/google-chrome", true));
    assert!(needs_snap_query("chromium", "/usr/bin/chromium"));
    assert!(!needs_snap_query("chromium", "/snap/bin/chromium"));
    assert!(!needs_snap_query("google-chrome", "/usr/bin/google-chrome"));
    let c = browser_command("chromium", "/usr/bin/chromium".to_string(), true);
    assert_eq!(c.path, "/usr/bin/chromium");
    assert!(c.is_snap);
    assert_eq!(BROWSER_NAMES, ["google-chrome", "chromium-browser", "chromium"]);
}

#[test]
fn pulse_server_routing() {
    assert!(is_unix_pulse_server("unix:/run/user/1000/pulse/native"));
    assert!(!is_unix_pulse_server("tcp:127.0.0.1:4713"));
    assert!(!is_unix_pulse_server("unix"));
    let snap = BrowserCommand { path: "/snap/bin/chromium".to_string(), is_snap: true };
    let plain = BrowserCommand { path: "/usr/bin/chromium".to_string(), is_snap: false };
    let unix = BrowserAudioEnv { pulse_sink: "kitweb", pulse_server: Some("unix:/x") };
    let tcp = BrowserAudioEnv { pulse_sink: "kitweb", pulse_server: Some("127.0.0.1:24713") };
    let none = BrowserAudioEnv { pulse_sink: "kitweb", pulse_server: None };
    assert!(matches!(pulse_server_setting(&unix, &snap), PulseServerSetting::Remove));
    assert!(matches!(pulse_server_setting(&unix, &plain), PulseServerSetting::SetToServer));
    assert!(matches!(pulse_server_setting(&tcp, &snap), PulseServerSetting::SetToServer));
    assert!(matches!(pulse_server_setting(&none, &snap), PulseServerSetting::Inherit));
}
