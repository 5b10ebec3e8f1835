use kitweb::input::{
    browser_key_name, click_position, input_action, mouse_button_number, prompt_line_text,
    prompt_result, prompt_status, prompt_step, prompt_url, BrowserKey, ControlCmd, InputAction,
    InputEvent, KeyCode, KeyPress, Modifiers, MouseButton, MouseInput, MouseKind, PromptStep,
    STATUS_HELP,
};

fn chars(s: &str) -> Vec<char> {
    s.chars().collect()
}

fn text(v: &[char]) -> String {
    v.iter().collect()
}

fn no_mods() -> Modifiers {
    Modifiers { shift: false, control: false, alt: false, super_key: false, hyper: false, meta: false }
}

fn ctrl() -> Modifiers {
    Modifiers { control: true, ..no_mods() }
}

fn press(code: KeyCode) -> KeyPress {
    KeyPress { code, modifiers: no_mods(), is_press: true }
}

fn key(code: KeyCode) -> InputEvent {
    InputEvent::Key(press(code))
}

#[test]
fn quit_keys() {
    assert!(matches!(input_action(&key(KeyCode::Char('q'))), InputAction::Quit));
    let q_ctrl = InputEvent::Key(KeyPress { code: KeyCode::Char('q'), modifiers: ctrl(), is_press: true });
    assert!(matches!(input_action(&q_ctrl), InputAction::Quit));
    let ctrl_c = InputEvent::Key(KeyPress { code: KeyCode::Char('c'), modifiers: ctrl(), is_press: true });
    assert!(matches!(input_action(&ctrl_c), InputAction::Quit));
    // Ctrl+Shift+C is not exactly Control, and a bare 'c' does nothing.
    let ctrl_shift_c = InputEvent::Key(KeyPress {
        code: KeyCode::Char('c'),
        modifiers: Modifiers { shift: true, ..ctrl() },
        is_press: true,
    });
    assert!(matches!(input_action(&ctrl_shift_c), InputAction::Ignore));
    assert!(matches!(input_action(&key(KeyCode::Char('c'))), InputAction::Ignore));
}

#[test]
fn releases_are_ignored() {
    let release = InputEvent::Key(KeyPress { code: KeyCode::Char('q'), modifiers: no_mods(), is_press: false });
    assert!(matches!(input_action(&release), InputAction::Ignore));
}

#[test]
fn command_keys() {
    assert!(matches!(input_action(&key(KeyCode::Char('r'))), InputAction::Reload));
    assert!(matches!(input_action(&key(KeyCode::Char('o'))), InputAction::PromptUrl));
    assert!(matches!(input_action(&key(KeyCode::Char('l'))), InputAction::PromptUrl));
    assert!(matches!(input_action(&key(KeyCode::Char('i'))), InputAction::PromptInput));
    assert!(matches!(input_action(&key(KeyCode::Char('m'))), InputAction::Send(ControlCmd::ToggleMute)));
    assert!(matches!(input_action(&key(KeyCode::Char('+'))), InputAction::Send(ControlCmd::VolumeBy(5))));
    assert!(matches!(input_action(&key(KeyCode::Char('='))), InputAction::Send(ControlCmd::VolumeBy(5))));
    assert!(matches!(input_action(&key(KeyCode::Char('-'))), InputAction::Send(ControlCmd::VolumeBy(-5))));
    assert!(matches!(input_action(&key(KeyCode::Char('x'))), InputAction::Ignore));
    assert!(matches!(input_action(&key(KeyCode::Enter)), InputAction::Ignore));
}

#[test]
fn browser_keys() {
    let cases = [
        (KeyCode::Up, "Up"),
        (KeyCode::Down, "Down"),
        (KeyCode::Left, "Left"),
        (KeyCode::Right, "Right"),
        (KeyCode::PageUp, "Page_Up"),
        (KeyCode::PageDown, "Page_Down"),
        (KeyCode::Char(' '), "space"),
        (KeyCode::Home, "Home"),
        (KeyCode::End, "End"),
        (KeyCode::Tab, "Tab"),
        (KeyCode::BackTab, "shift+Tab"),
        (KeyCode::Esc, "Escape"),
    ];
    for (code, name) in cases {
        match input_action(&key(code)) {
            InputAction::Key(k) => assert_eq!(browser_key_name(&k), name),
            _ => panic!("expected a browser key for {}", name),
        }
    }
    assert_eq!(browser_key_name(&BrowserKey::ShiftTab), "shift+Tab");
}

#[test]
fn mouse_events() {
    let down = InputEvent::Mouse(MouseInput { kind: MouseKind::Down(MouseButton::Right), column: 3, row: 4 });
    assert!(matches!(input_action(&down), InputAction::Click { button: 3, column: 3, row: 4 }));
    assert_eq!(mouse_button_number(&MouseButton::Left), 1);
    assert_eq!(mouse_button_number(&MouseButton::Middle), 2);
    let m = |kind| InputEvent::Mouse(MouseInput { kind, column: 0, row: 0 });
    assert!(matches!(input_action(&m(MouseKind::ScrollUp)), InputAction::Scroll(1)));
    assert!(matches!(input_action(&m(MouseKind::ScrollDown)), InputAction::Scroll(-1)));
    assert!(matches!(input_action(&m(MouseKind::ScrollLeft)), InputAction::ScrollHorizontal(1)));
    assert!(matches!(input_action(&m(MouseKind::ScrollRight)), InputAction::ScrollHorizontal(-1)));
    assert!(matches!(input_action(&m(MouseKind::Other)), InputAction::Ignore));
}

#[test]
fn resize_and_other_events() {
    assert!(matches!(input_action(&InputEvent::Resize(100, 40)), InputAction::Send(ControlCmd::Resize(100, 40))));
    assert!(matches!(input_action(&InputEvent::Other), InputAction::Ignore));
}

#[test]
fn prompt_editing() {
    let mut input = Vec::new();
    assert!(matches!(prompt_step(&mut input, &press(KeyCode::Char('a'))), PromptStep::Edited));
    assert!(matches!(prompt_step(&mut input, &press(KeyCode::Char('b'))), PromptStep::Edited));
    assert_eq!(text(&input), "ab");
    let ctrl_x = KeyPress { code: KeyCode::Char('x'), modifiers: ctrl(), is_press: true };
    assert!(matches!(prompt_step(&mut input, &ctrl_x), PromptStep::Unchanged));
    let alt_x = KeyPress { code: KeyCode::Char('x'), modifiers: Modifiers { alt: true, ..no_mods() }, is_press: true };
    assert!(matches!(prompt_step(&mut input, &alt_x), PromptStep::Unchanged));
    assert!(matches!(prompt_step(&mut input, &press(KeyCode::Backspace)), PromptStep::Edited));
    assert_eq!(text(&input), "a");
    assert!(matches!(prompt_step(&mut input, &press(KeyCode::Up)), PromptStep::Unchanged));
    assert!(matches!(prompt_step(&mut input, &press(KeyCode::Enter)), PromptStep::Submit));
    assert_eq!(text(&input), "a");
    assert!(matches!(prompt_step(&mut input, &press(KeyCode::Esc)), PromptStep::Cancel));
    assert!(input.is_empty());
    // Backspace on empty input keeps it empty.
    assert!(matches!(prompt_step(&mut input, &press(KeyCode::Backspace)), PromptStep::Edited));
    assert!(input.is_empty());
}

#[test]
fn prompt_answers() {
    assert_eq!(prompt_result(true, chars("abc")).map(|v| text(&v)), Some("abc".to_string()));
    assert!(prompt_result(true, Vec::new()).is_none());
    assert!(prompt_result(false, chars("abc")).is_none());
}

#[test]
fn urls_from_the_prompt() {
    assert_eq!(text(&prompt_url(Some(chars("example.com"))).unwrap()), "https://example.com");
    assert_eq!(text(&prompt_url(Some(chars("http://a.b"))).unwrap()), "http://a.b");
    assert_eq!(text(&prompt_url(Some(chars("file:///tmp/x"))).unwrap()), "file:///tmp/x");
    assert!(prompt_url(None).is_none());
    let once = prompt_url(Some(chars("x.org"))).unwrap();
    assert_eq!(prompt_url(Some(once.clone())).unwrap(), once);
}

#[test]
fn prompt_status_escapes_input() {
    let input = chars("a\tb\"c'\\\n\r\u{7f}é\u{1b}[0m");
    let expected: String = input.iter().flat_map(|c| c.escape_default()).collect();
    assert_eq!(text(&prompt_status("Input:", &input)), format!("Input: {}", expected));
    assert_eq!(text(&prompt_status("Open URL:", &chars("x"))), "Open URL: x");
    assert_eq!(text(&prompt_status("Input:", &chars("é"))), "Input: \\u{e9}");
}

#[test]
fn prompt_line_shows_what_fits() {
    // "Input:" is 6 chars: 6 + 3 + 1 = 10 columns taken.
    assert_eq!(text(&prompt_line_text("Input:", &chars("hello"), 13)), "\x1b[7m Input: \x1b[0m hel");
    assert_eq!(text(&prompt_line_text("Input:", &chars("hello"), 80)), "\x1b[7m Input: \x1b[0m hello");
    assert_eq!(text(&prompt_line_text("Input:", &chars("hello"), 5)), "\x1b[7m Input: \x1b[0m ");
}

#[test]
fn clicks() {
    assert_eq!(click_position(Some(24), 5, 1680, 1260, 105, 110), Some((105, 110)));
    // The status row and below are not part of the page.
    assert_eq!(click_position(Some(24), 23, 1680, 1260, 105, 110), None);
    assert_eq!(click_position(Some(1), 0, 1680, 1260, 5, 10), None);
    assert_eq!(click_position(Some(0), 0, 1680, 1260, 5, 10), None);
    assert_eq!(click_position(None, 0, 1680, 1260, 5, 10), None);
    assert_eq!(click_position(Some(24), 5, 0, 1260, 5, 10), None);
    assert_eq!(click_position(Some(24), 5, 100, 100, 100, 10), None);
    assert_eq!(click_position(Some(24), 5, 100, 100, 10, 100), None);
}

#[test]
fn help_text() {
    assert!(STATUS_HELP.starts_with("o/l=url"));
    assert!(STATUS_HELP.ends_with("q=quit"));
}
