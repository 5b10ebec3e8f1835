//! Keyboard and mouse handling: which terminal event triggers which browser
//! or control action, how the one-line prompt edits its text, and the texts
//! the prompt shows.
use vstd::prelude::*;
use crate::text::{
    contains_sub, escape_text, escape_default_chars, push_chars, push_str_chars, contains_chars,
    str_chars,
};

verus! {

/// A command for the main loop.
pub enum ControlCmd {
    /// Navigate the browser to this URL.
    Navigate(String),
    /// Reload the page.
    Reload,
    /// Toggle audio muting.
    ToggleMute,
    /// Change the volume by this many percent.
    VolumeBy(i32),
    /// Quit.
    Quit,
    /// The terminal was resized to (columns, rows).
    Resize(u16, u16),
}

/// The status bar text shown while no prompt is up.
pub const STATUS_HELP: &'static str =
    "o/l=url i=input r=reload m=mute +/-=vol click=mouse arrows/tab/home/end=browser q=quit";

// ---------------------------------------------------------------------------
// Terminal events, as plain values
// ---------------------------------------------------------------------------

/// Modifier keys held with a key (the bits of a terminal key event).
pub struct Modifiers {
    pub shift: bool,
    pub control: bool,
    pub alt: bool,
    pub super_key: bool,
    pub hyper: bool,
    pub meta: bool,
}

/// A key as reported by the terminal.
pub enum KeyCode {
    Char(char),
    Up,
    Down,
    Left,
    Right,
    PageUp,
    PageDown,
    Home,
    End,
    Tab,
    BackTab,
    Esc,
    Enter,
    Backspace,
    /// Any other key.
    Other,
}

/// A key event.
pub struct KeyPress {
    pub code: KeyCode,
    pub modifiers: Modifiers,
    /// The event reports a press (not a repeat or a release).
    pub is_press: bool,
}

/// A mouse button.
pub enum MouseButton {
    Left,
    Middle,
    Right,
}

/// What a mouse event reports.
pub enum MouseKind {
    Down(MouseButton),
    ScrollUp,
    ScrollDown,
    ScrollLeft,
    ScrollRight,
    /// Release, drag or move.
    Other,
}

/// A mouse event at a terminal cell.
pub struct MouseInput {
    pub kind: MouseKind,
    pub column: u16,
    pub row: u16,
}

/// A terminal event.
pub enum InputEvent {
    Key(KeyPress),
    Mouse(MouseInput),
    /// The terminal now has (columns, rows).
    Resize(u16, u16),
    /// Focus changes, pastes and the like.
    Other,
}

/// A key forwarded to the browser.
pub enum BrowserKey {
    Up,
    Down,
    Left,
    Right,
    PageUp,
    PageDown,
    Space,
    Home,
    End,
    Tab,
    ShiftTab,
    Escape,
}

/// What the input loop does with one event.
pub enum InputAction {
    /// Stop running, send `ControlCmd::Quit` and leave the input loop.
    Quit,
    /// Reload the browser page and show "Reloading...".
    Reload,
    /// Prompt for a URL and send `ControlCmd::Navigate` with it.
    PromptUrl,
    /// Prompt for a line of text and type it into the page, then press Enter.
    PromptInput,
    /// Send this command to the main loop.
    Send(ControlCmd),
    /// Forward this key to the browser.
    Key(BrowserKey),
    /// Click with this button (1 left, 2 middle, 3 right) at this terminal cell.
    Click { button: u8, column: u16, row: u16 },
    /// Scroll vertically: 1 up, -1 down.
    Scroll(i8),
    /// Scroll horizontally: 1 left, -1 right.
    ScrollHorizontal(i8),
    /// Nothing to do.
    Ignore,
}

/// The modifiers are exactly Control (no other modifier held).
pub open spec fn only_control(m: Modifiers) -> bool {
    m.control && !m.shift && !m.alt && !m.super_key && !m.hyper && !m.meta
}

/// The button number the browser's input tool expects.
pub open spec fn button_number(b: MouseButton) -> u8 {
    match b {
        MouseButton::Left => 1,
        MouseButton::Middle => 2,
        MouseButton::Right => 3,
    }
}

/// The action for a key event.
pub open spec fn key_action(k: KeyPress) -> InputAction {
    if !k.is_press {
        InputAction::Ignore
    } else {
        match k.code {
            KeyCode::Char(c) => if (c == 'c' && only_control(k.modifiers)) || c == 'q' {
                InputAction::Quit
            } else if c == 'r' {
                InputAction::Reload
            } else if c == 'o' || c == 'l' {
                InputAction::PromptUrl
            } else if c == 'i' {
                InputAction::PromptInput
            } else if c == 'm' {
                InputAction::Send(ControlCmd::ToggleMute)
            } else if c == '+' || c == '=' {
                InputAction::Send(ControlCmd::VolumeBy(5))
            } else if c == '-' {
                InputAction::Send(ControlCmd::VolumeBy(-5i32))
            } else if c == ' ' {
                InputAction::Key(BrowserKey::Space)
            } else {
                InputAction::Ignore
            },
            KeyCode::Up => InputAction::Key(BrowserKey::Up),
            KeyCode::Down => InputAction::Key(BrowserKey::Down),
            KeyCode::Left => InputAction::Key(BrowserKey::Left),
            KeyCode::Right => InputAction::Key(BrowserKey::Right),
            KeyCode::PageUp => InputAction::Key(BrowserKey::PageUp),
            KeyCode::PageDown => InputAction::Key(BrowserKey::PageDown),
            KeyCode::Home => InputAction::Key(BrowserKey::Home),
            KeyCode::End => InputAction::Key(BrowserKey::End),
            KeyCode::Tab => InputAction::Key(BrowserKey::Tab),
            KeyCode::BackTab => InputAction::Key(BrowserKey::ShiftTab),
            KeyCode::Esc => InputAction::Key(BrowserKey::Escape),
            _ => InputAction::Ignore,
        }
    }
}

/// The action for a mouse event.
pub open spec fn mouse_action(m: MouseInput) -> InputAction {
    match m.kind {
        MouseKind::Down(b) => InputAction::Click {
            button: button_number(b),
            column: m.column,
            row: m.row,
        },
        MouseKind::ScrollUp => InputAction::Scroll(1),
        MouseKind::ScrollDown => InputAction::Scroll(-1i8),
        MouseKind::ScrollLeft => InputAction::ScrollHorizontal(1),
        MouseKind::ScrollRight => InputAction::ScrollHorizontal(-1i8),
        MouseKind::Other => InputAction::Ignore,
    }
}

/// The action for a terminal event.
pub open spec fn event_action(ev: InputEvent) -> InputAction {
    match ev {
        InputEvent::Key(k) => key_action(k),
        InputEvent::Mouse(m) => mouse_action(m),
        InputEvent::Resize(c, r) => InputAction::Send(ControlCmd::Resize(c, r)),
        InputEvent::Other => InputAction::Ignore,
    }
}

/// The button number the browser's input tool expects for `button`.
pub fn mouse_button_number(button: &MouseButton) -> (n: u8)
    ensures
        n == button_number(*button),
{
    match button {
        MouseButton::Left => 1,
        MouseButton::Middle => 2,
        MouseButton::Right => 3,
    }
}

fn key_event_action(k: &KeyPress) -> (a: InputAction)
    ensures
        a == key_action(*k),
{
    if !k.is_press {
        return InputAction::Ignore;
    }
    match k.code {
        KeyCode::Char(c) => {
            let m = &k.modifiers;
            let only_ctrl = m.control && !m.shift && !m.alt && !m.super_key && !m.hyper && !m.meta;
            if (c == 'c' && only_ctrl) || c == 'q' {
                InputAction::Quit
            } else if c == 'r' {
                InputAction::Reload
            } else if c == 'o' || c == 'l' {
                InputAction::PromptUrl
            } else if c == 'i' {
                InputAction::PromptInput
            } else if c == 'm' {
                InputAction::Send(ControlCmd::ToggleMute)
            } else if c == '+' || c == '=' {
                InputAction::Send(ControlCmd::VolumeBy(5))
            } else if c == '-' {
                InputAction::Send(ControlCmd::VolumeBy(-5))
            } else if c == ' ' {
                InputAction::Key(BrowserKey::Space)
            } else {
                InputAction::Ignore
            }
        },
        KeyCode::Up => InputAction::Key(BrowserKey::Up),
        KeyCode::Down => InputAction::Key(BrowserKey::Down),
        KeyCode::Left => InputAction::Key(BrowserKey::Left),
        KeyCode::Right => InputAction::Key(BrowserKey::Right),
        KeyCode::PageUp => InputAction::Key(BrowserKey::PageUp),
        KeyCode::PageDown => InputAction::Key(BrowserKey::PageDown),
        KeyCode::Home => InputAction::Key(BrowserKey::Home),
        KeyCode::End => InputAction::Key(BrowserKey::End),
        KeyCode::Tab => InputAction::Key(BrowserKey::Tab),
        KeyCode::BackTab => InputAction::Key(BrowserKey::ShiftTab),
        KeyCode::Esc => InputAction::Key(BrowserKey::Escape),
        _ => InputAction::Ignore,
    }
}

/// The action the input loop takes for one terminal event.
pub fn input_action(ev: &InputEvent) -> (a: InputAction)
    ensures
        a == event_action(*ev),
{
    match ev {
        InputEvent::Key(k) => key_event_action(k),
        InputEvent::Mouse(m) => match &m.kind {
            MouseKind::Down(b) => InputAction::Click {
                button: mouse_button_number(b),
                column: m.column,
                row: m.row,
            },
            MouseKind::ScrollUp => InputAction::Scroll(1),
            MouseKind::ScrollDown => InputAction::Scroll(-1),
            MouseKind::ScrollLeft => InputAction::ScrollHorizontal(1),
            MouseKind::ScrollRight => InputAction::ScrollHorizontal(-1),
            MouseKind::Other => InputAction::Ignore,
        },
        InputEvent::Resize(c, r) => InputAction::Send(ControlCmd::Resize(*c, *r)),
        InputEvent::Other => InputAction::Ignore,
    }
}

/// The key name the browser's input tool (`xdotool key`) uses.
pub open spec fn key_name(k: BrowserKey) -> Seq<char> {
    match k {
        BrowserKey::Up => "Up"@,
        BrowserKey::Down => "Down"@,
        BrowserKey::Left => "Left"@,
        BrowserKey::Right => "Right"@,
        BrowserKey::PageUp => "Page_Up"@,
        BrowserKey::PageDown => "Page_Down"@,
        BrowserKey::Space => "space"@,
        BrowserKey::Home => "Home"@,
        BrowserKey::End => "End"@,
        BrowserKey::Tab => "Tab"@,
        BrowserKey::ShiftTab => "shift+Tab"@,
        BrowserKey::Escape => "Escape"@,
    }
}

/// The key name the browser's input tool uses for `k`.
pub fn browser_key_name(k: &BrowserKey) -> (s: &'static str)
    ensures
        s@ == key_name(*k),
{
    match k {
        BrowserKey::Up => "Up",
        BrowserKey::Down => "Down",
        BrowserKey::Left => "Left",
        BrowserKey::Right => "Right",
        BrowserKey::PageUp => "Page_Up",
        BrowserKey::PageDown => "Page_Down",
        BrowserKey::Space => "space",
        BrowserKey::Home => "Home",
        BrowserKey::End => "End",
        BrowserKey::Tab => "Tab",
        BrowserKey::ShiftTab => "shift+Tab",
        BrowserKey::Escape => "Escape",
    }
}

/// Laws of the key map: `q` quits whatever modifiers are held, and no
/// event other than a key press acts on the keyboard bindings.
pub proof fn key_map_laws(k: KeyPress)
    ensures
        k.is_press && k.code == KeyCode::Char('q') ==> key_action(k) == InputAction::Quit,
        !k.is_press ==> key_action(k) == InputAction::Ignore,
        k.is_press && k.code == KeyCode::Char('c') ==> (key_action(k) == InputAction::Quit
            <==> only_control(k.modifiers)),
{
}

/// A mouse event of `kind` at a terminal cell.
pub open spec fn mouse_at(kind: MouseKind, column: u16, row: u16) -> InputEvent {
    InputEvent::Mouse(MouseInput { kind, column, row })
}

/// Law (the key bindings): for a key press, `r` reloads, `o` and `l` ask for
/// a URL, `i` asks for text, `m` toggles muting, `+` and `=` raise and `-`
/// lowers the volume by 5, and the space, arrow, page, Home, End, Tab,
/// Shift+Tab and Esc keys go to the browser as the same key.
pub proof fn key_bindings(k: KeyPress)
    requires
        k.is_press,
    ensures
        k.code == KeyCode::Char('r') ==> key_action(k) == InputAction::Reload,
        k.code == KeyCode::Char('o') ==> key_action(k) == InputAction::PromptUrl,
        k.code == KeyCode::Char('l') ==> key_action(k) == InputAction::PromptUrl,
        k.code == KeyCode::Char('i') ==> key_action(k) == InputAction::PromptInput,
        k.code == KeyCode::Char('m') ==> key_action(k) == InputAction::Send(ControlCmd::ToggleMute),
        k.code == KeyCode::Char('+') ==> key_action(k) == InputAction::Send(ControlCmd::VolumeBy(5)),
        k.code == KeyCode::Char('=') ==> key_action(k) == InputAction::Send(ControlCmd::VolumeBy(5)),
        k.code == KeyCode::Char('-') ==> key_action(k) == InputAction::Send(
            ControlCmd::VolumeBy(-5i32),
        ),
        k.code == KeyCode::Char(' ') ==> key_action(k) == InputAction::Key(BrowserKey::Space),
        k.code == KeyCode::Up ==> key_action(k) == InputAction::Key(BrowserKey::Up),
        k.code == KeyCode::Down ==> key_action(k) == InputAction::Key(BrowserKey::Down),
        k.code == KeyCode::Left ==> key_action(k) == InputAction::Key(BrowserKey::Left),
        k.code == KeyCode::Right ==> key_action(k) == InputAction::Key(BrowserKey::Right),
        k.code == KeyCode::PageUp ==> key_action(k) == InputAction::Key(BrowserKey::PageUp),
        k.code == KeyCode::PageDown ==> key_action(k) == InputAction::Key(BrowserKey::PageDown),
        k.code == KeyCode::Home ==> key_action(k) == InputAction::Key(BrowserKey::Home),
        k.code == KeyCode::End ==> key_action(k) == InputAction::Key(BrowserKey::End),
        k.code == KeyCode::Tab ==> key_action(k) == InputAction::Key(BrowserKey::Tab),
        k.code == KeyCode::BackTab ==> key_action(k) == InputAction::Key(BrowserKey::ShiftTab),
        k.code == KeyCode::Esc ==> key_action(k) == InputAction::Key(BrowserKey::Escape),
        k.code == KeyCode::Enter ==> key_action(k) == InputAction::Ignore,
        k.code == KeyCode::Backspace ==> key_action(k) == InputAction::Ignore,
{
}

/// Law: a mouse press becomes a click at the same cell with the pressed
/// button's own number: 1 for the left, 2 for the middle, 3 for the right
/// button; the scroll wheel scrolls up (1) and down (-1), left (1) and
/// right (-1).
pub proof fn mouse_map_laws(b: MouseButton, column: u16, row: u16)
    ensures
        event_action(mouse_at(MouseKind::Down(b), column, row)) == (InputAction::Click {
            button: match b {
                MouseButton::Left => 1u8,
                MouseButton::Middle => 2u8,
                MouseButton::Right => 3u8,
            },
            column,
            row,
        }),
        button_number(MouseButton::Left) == 1,
        button_number(MouseButton::Middle) == 2,
        button_number(MouseButton::Right) == 3,
        event_action(mouse_at(MouseKind::ScrollUp, column, row)) == InputAction::Scroll(1),
        event_action(mouse_at(MouseKind::ScrollDown, column, row)) == InputAction::Scroll(-1i8),
        event_action(mouse_at(MouseKind::ScrollLeft, column, row))
            == InputAction::ScrollHorizontal(1),
        event_action(mouse_at(MouseKind::ScrollRight, column, row))
            == InputAction::ScrollHorizontal(-1i8),
{
}

// ---------------------------------------------------------------------------
// The one-line prompt
// ---------------------------------------------------------------------------

/// What one key does to the prompt.
pub enum PromptStep {
    /// Enter: accept the text.
    Submit,
    /// Esc: the text was cleared and the prompt ends.
    Cancel,
    /// The text changed (Backspace, or a typed character): redraw.
    Edited,
    /// Nothing changed.
    Unchanged,
}

/// The text after one key, and what the key does.
pub open spec fn prompt_edit(input: Seq<char>, k: KeyPress) -> (Seq<char>, PromptStep) {
    if !k.is_press {
        (input, PromptStep::Unchanged)
    } else {
        match k.code {
            KeyCode::Enter => (input, PromptStep::Submit),
            KeyCode::Esc => (Seq::empty(), PromptStep::Cancel),
            KeyCode::Backspace => (
                if input.len() > 0 {
                    input.drop_last()
                } else {
                    input
                },
                PromptStep::Edited,
            ),
            KeyCode::Char(c) => if k.modifiers.control || k.modifiers.alt {
                (input, PromptStep::Unchanged)
            } else {
                (input.push(c), PromptStep::Edited)
            },
            _ => (input, PromptStep::Unchanged),
        }
    }
}

/// Applies one key event to the prompt text.
pub fn prompt_step(input: &mut Vec<char>, k: &KeyPress) -> (s: PromptStep)
    ensures
        (final(input)@, s) == prompt_edit(old(input)@, *k),
{
    if !k.is_press {
        return PromptStep::Unchanged;
    }
    match k.code {
        KeyCode::Enter => PromptStep::Submit,
        KeyCode::Esc => {
            input.clear();
            PromptStep::Cancel
        },
        KeyCode::Backspace => {
            input.pop();
            PromptStep::Edited
        },
        KeyCode::Char(c) => {
            if k.modifiers.control || k.modifiers.alt {
                PromptStep::Unchanged
            } else {
                input.push(c);
                PromptStep::Edited
            }
        },
        _ => PromptStep::Unchanged,
    }
}

/// The prompt's answer: the text, when it was submitted and is not empty.
pub fn prompt_result(submitted: bool, input: Vec<char>) -> (r: Option<Vec<char>>)
    ensures
        r is Some <==> submitted && input@.len() > 0,
        r matches Some(v) ==> v@ == input@,
{
    if submitted && input.len() > 0 {
        Some(input)
    } else {
        None
    }
}

/// Law: a character typed without Control or Alt is appended to the text
/// exactly as typed (no case or other change); with Control or Alt held it
/// is ignored; Enter submits the text unchanged.
pub proof fn typing_appends_the_character(input: Seq<char>, k: KeyPress, c: char)
    requires
        k.is_press,
        k.code == KeyCode::Char(c),
    ensures
        !k.modifiers.control && !k.modifiers.alt ==> prompt_edit(input, k) == (input.push(c),
        PromptStep::Edited),
        !k.modifiers.control && !k.modifiers.alt ==> prompt_edit(input, k).0.len() == input.len()
            + 1,
        !k.modifiers.control && !k.modifiers.alt ==> prompt_edit(input, k).0.take(
            input.len() as int,
        ) == input,
        !k.modifiers.control && !k.modifiers.alt ==> prompt_edit(input, k).0.last() == c,
        k.modifiers.control || k.modifiers.alt ==> prompt_edit(input, k) == (
            input,
            PromptStep::Unchanged,
        ),
{
}

/// Law: Enter submits the text as it stands.
pub proof fn enter_submits_text(input: Seq<char>, k: KeyPress)
    requires
        k.is_press,
        k.code == KeyCode::Enter,
    ensures
        prompt_edit(input, k) == (input, PromptStep::Submit),
{
}

/// Law: Backspace takes back a typed character, and Esc always ends the
/// prompt with an empty text (so no answer).
pub proof fn prompt_edit_laws(input: Seq<char>, c: char, typed: KeyPress, back: KeyPress, esc: KeyPress)
    requires
        typed.is_press && typed.code == KeyCode::Char(c) && !typed.modifiers.control
            && !typed.modifiers.alt,
        back.is_press && back.code == KeyCode::Backspace,
        esc.is_press && esc.code == KeyCode::Esc,
    ensures
        prompt_edit(prompt_edit(input, typed).0, back).0 == input,
        prompt_edit(input, esc) == (Seq::<char>::empty(), PromptStep::Cancel),
{
    assert(input.push(c).drop_last() =~= input);
}

/// The URL to open for a prompt answer: kept as typed when it contains
/// `://`, otherwise prefixed with `https://`.
pub open spec fn url_for(input: Seq<char>) -> Seq<char> {
    if contains_sub(input, "://"@) {
        input
    } else {
        "https://"@ + input
    }
}

/// Turns the URL prompt's answer into the URL to open.
pub fn prompt_url(line: Option<Vec<char>>) -> (r: Option<Vec<char>>)
    ensures
        r is Some <==> line is Some,
        r matches Some(u) ==> u@ == url_for(line.unwrap()@),
{
    match line {
        None => None,
        Some(input) => {
            let sep = str_chars("://");
            if contains_chars(&input, &sep) {
                Some(input)
            } else {
                let mut url = str_chars("https://");
                push_chars(&mut url, &input);
                Some(url)
            }
        },
    }
}

/// Law: a URL from the prompt always names a scheme, and normalizing twice
/// changes nothing.
pub proof fn url_normalization_laws(input: Seq<char>)
    ensures
        contains_sub(url_for(input), "://"@),
        url_for(url_for(input)) == url_for(input),
{
    reveal_strlit("://");
    reveal_strlit("https://");
    if !contains_sub(input, "://"@) {
        let u = url_for(input);
        assert(u.subrange(5int, 5int + 3) =~= "://"@);
    }
}

/// The status text while a prompt is up: the label, a space, and the typed
/// text with every character escaped as `char::escape_default` does.
pub fn prompt_status(label: &str, input: &Vec<char>) -> (r: Vec<char>)
    ensures
        r@ == label@ + seq![' '] + escape_text(input@),
{
    let mut r = str_chars(label);
    r.push(' ');
    let escaped = escape_default_chars(input);
    push_chars(&mut r, &escaped);
    r
}

/// Number of typed characters the prompt line shows on a terminal of `cols`
/// columns: what is left after the label, its frame and one column.
pub open spec fn visible_count(label_len: nat, cols: u16) -> nat {
    if cols >= label_len + 4 {
        (cols - (label_len + 4)) as nat
    } else {
        0
    }
}

/// The prompt line as drawn: the label in reverse video between spaces, a
/// space, then as much of the typed text as fits.
pub open spec fn drawn_prompt_line(label: Seq<char>, input: Seq<char>, cols: u16) -> Seq<char> {
    let n = visible_count(label.len(), cols);
    "\x1b[7m "@ + label + " \x1b[0m "@ + (if input.len() <= n {
        input
    } else {
        input.take(n as int)
    })
}

/// The text of the prompt line for `label` and `input`.
pub fn prompt_line_text(label: &str, input: &Vec<char>, cols: u16) -> (r: Vec<char>)
    requires
        label@.len() + 4 <= usize::MAX,
    ensures
        r@ == drawn_prompt_line(label@, input@, cols),
{
    let label_chars = str_chars(label);
    let label_width = label_chars.len() + 3;
    let c = cols as usize;
    let available = if c >= label_width + 1 {
        c - (label_width + 1)
    } else {
        0
    };
    let mut r = str_chars("\x1b[7m ");
    push_chars(&mut r, &label_chars);
    push_str_chars(&mut r, " \x1b[0m ");
    let ghost before = r@;
    let mut i: usize = 0;
    while i < input.len() && i < available
        invariant
            i <= input.len(),
            i <= available,
            available == visible_count(label@.len(), cols),
            r@ == before + input@.take(i as int),
        decreases input.len() - i,
    {
        proof {
            assert(input@.take(i + 1) =~= input@.take(i as int).push(input@[i as int]));
        }
        r.push(input[i]);
        i = i + 1;
    }
    proof {
        if input.len() <= available {
            assert(input@.take(input.len() as int) =~= input@);
        }
    }
    r
}

// ---------------------------------------------------------------------------
// Mouse clicks
// ---------------------------------------------------------------------------

/// Where a click at terminal row `row` lands in the browser, given the
/// terminal's row count (`None` if unknown), the browser viewport size, and
/// the pixel position `(x, y)` computed from the cell size. Clicks on the
/// status row, with an unknown or empty terminal or viewport, or outside the
/// viewport are dropped.
pub open spec fn click_target(
    rows: Option<u16>,
    row: u16,
    browser_width: u32,
    browser_height: u32,
    x: u32,
    y: u32,
) -> Option<(u32, u32)> {
    match rows {
        None => None,
        Some(n) => if n == 0 || n - 1 == 0 || row >= n - 1 {
            None
        } else if browser_width == 0 || browser_height == 0 {
            None
        } else if x >= browser_width || y >= browser_height {
            None
        } else {
            Some((x, y))
        },
    }
}

/// Law: a click on a page row (not the bottom status row) at a pixel inside
/// the viewport lands exactly there; a pixel outside the viewport in either
/// direction, a click on the status row, or an unknown terminal size drops
/// the click.
pub proof fn click_placement_laws(
    rows: Option<u16>,
    row: u16,
    browser_width: u32,
    browser_height: u32,
    x: u32,
    y: u32,
)
    ensures
        (rows matches Some(n) && n >= 2 && row < n - 1 && x < browser_width && y < browser_height)
            ==> click_target(rows, row, browser_width, browser_height, x, y) == Some((x, y)),
        (x >= browser_width || y >= browser_height) ==> click_target(
            rows,
            row,
            browser_width,
            browser_height,
            x,
            y,
        ) is None,
        (rows matches Some(n) && row + 1 >= n) ==> click_target(
            rows,
            row,
            browser_width,
            browser_height,
            x,
            y,
        ) is None,
        rows is None ==> click_target(rows, row, browser_width, browser_height, x, y) is None,
        click_target(rows, row, browser_width, browser_height, x, y) matches Some(p) ==> p == (x, y),
{
}

/// The browser position for a click, or `None` when the click is dropped.
pub fn click_position(
    rows: Option<u16>,
    row: u16,
    browser_width: u32,
    browser_height: u32,
    x: u32,
    y: u32,
) -> (r: Option<(u32, u32)>)
    ensures
        r == click_target(rows, row, browser_width, browser_height, x, y),
{
    let n = match rows {
        Some(n) => n,
        None => return None,
    };
    if n == 0 {
        return None;
    }
    let render_rows = n - 1;
    if render_rows == 0 || row >= render_rows {
        return None;
    }
    if browser_width == 0 || browser_height == 0 {
        return None;
    }
    if x >= browser_width || y >= browser_height {
        return None;
    }
    Some((x, y))
}

} // verus!
