//! Terminal key and mouse events turned into synthetic input for the
//! game: movement keys held with an automatic release, punctuation named by
//! its X11 keysym, and a pointer that moves either absolutely or relatively.
use vstd::prelude::*;
use vstd::arithmetic::div_mod::lemma_multiply_divide_lt;
use crate::size::TerminalSize;

verus! {

/// Milliseconds a movement key stays held after its last keystroke.
pub const KEY_HOLD_MS: u64 = 100;

/// Factor applied to pointer motion in relative mode.
pub const RELATIVE_GAIN: i64 = 5;

/// A key as the terminal reports it.
#[derive(Clone, Copy, Debug, PartialEq, Eq, Structural)]
pub enum KeyCode {
    Char(char),
    Enter,
    Escape,
    Backspace,
    Tab,
    Delete,
    Home,
    End,
    PageUp,
    PageDown,
    UpArrow,
    DownArrow,
    LeftArrow,
    RightArrow,
    Other,
}

#[derive(Clone, Copy, Debug, PartialEq, Eq, Structural)]
pub struct KeyEvent {
    pub key: KeyCode,
    pub ctrl: bool,
}

/// Vertical wheel motion carried by a mouse report.
#[derive(Clone, Copy, Debug, PartialEq, Eq, Structural)]
pub enum Wheel {
    Still,
    Up,
    Down,
}

/// A mouse report in character cells, with the buttons held at that moment.
#[derive(Clone, Copy, Debug, PartialEq, Eq, Structural)]
pub struct MouseEvent {
    pub x: u16,
    pub y: u16,
    pub left: bool,
    pub right: bool,
    pub wheel: Wheel,
}

#[derive(Clone, Copy, Debug, PartialEq, Eq, Structural)]
pub enum InputEvent {
    Key(KeyEvent),
    Mouse(MouseEvent),
}

/// How pointer reports move the game's pointer.
#[derive(Clone, Copy, Debug, PartialEq, Eq, Structural)]
pub enum MouseMode {
    /// The pointer goes to the reported position (menus, inventory).
    Absolute,
    /// The pointer moves by the scaled difference to the last report (looking around).
    Relative,
}

/// An X11 keysym: letters, digits and other characters stand for
/// themselves, the rest go by name.
#[derive(Clone, Copy, Debug, PartialEq, Eq, Structural)]
pub enum Keysym {
    Char(char),
    Space,
    Return,
    BackSpace,
    Escape,
    Tab,
    Delete,
    Home,
    End,
    PageUp,
    PageDown,
    Up,
    Down,
    Left,
    Right,
    Semicolon,
    Question,
    Exclam,
    Colon,
    Quotedbl,
    Apostrophe,
    Greater,
    Less,
    Bar,
    Backslash,
    Slash,
    BracketLeft,
    BracketRight,
    BraceLeft,
    BraceRight,
    ParenLeft,
    ParenRight,
    Plus,
    Minus,
    Equal,
    Underscore,
    Comma,
    Period,
    AsciiCircum,
    AsciiTilde,
    At,
    NumberSign,
    Dollar,
    Percent,
    Ampersand,
    Asterisk,
}

/// One invocation of the synthetic-input utility.
#[derive(Clone, Copy, Debug, PartialEq, Eq, Structural)]
pub enum SynthInput {
    Key(Keysym),
    KeyDown(char),
    KeyUp(char),
    MouseMove(u64, u64),
    MouseMoveRelative(i64, i64),
    MouseDown(u8),
    MouseUp(u8),
    Click(u8),
}

/// A position on the game's screen, in pixels.
#[derive(Clone, Copy, Debug, PartialEq, Eq, Structural)]
pub struct GamePoint {
    pub x: u64,
    pub y: u64,
}

/// A movement key: whether the game holds it down, and from when on it is
/// to be let go.
#[derive(Clone, Copy, Debug, PartialEq, Eq, Structural)]
pub struct KeyState {
    pub pressed: bool,
    pub release_at: u64,
}

/// The input state of one session. Times are milliseconds
/// on a monotonic clock.
#[derive(Clone, Copy, Debug, PartialEq, Eq, Structural)]
pub struct InputTranslator {
    pub w: KeyState,
    pub a: KeyState,
    pub s: KeyState,
    pub d: KeyState,
    pub mode: MouseMode,
    pub last_mouse: Option<GamePoint>,
    pub left_down: bool,
    pub right_down: bool,
    pub game_width: u32,
    pub game_height: u32,
}

/// What one event turned into: the invocations to run, in order, and
/// whether the user asked to end the session.
pub struct EventOutcome {
    pub actions: Vec<SynthInput>,
    pub stop: bool,
}

/// Bound of every game coordinate that scaling a cell can give.
pub const MAX_COORD: u64 = 0xffff * 0xffff_ffff;

pub open spec fn is_movement_key(c: char) -> bool {
    c == 'w' || c == 'a' || c == 's' || c == 'd'
}

pub open spec fn toggled(m: MouseMode) -> MouseMode {
    match m {
        MouseMode::Absolute => MouseMode::Relative,
        MouseMode::Relative => MouseMode::Absolute,
    }
}

/// The keysym that a typed character is sent as.
pub open spec fn keysym_of(c: char) -> Keysym {
    if c == ' ' { Keysym::Space }
    else if c == ';' { Keysym::Semicolon }
    else if c == '?' { Keysym::Question }
    else if c == '!' { Keysym::Exclam }
    else if c == ':' { Keysym::Colon }
    else if c == '"' { Keysym::Quotedbl }
    else if c == '\'' { Keysym::Apostrophe }
    else if c == '>' { Keysym::Greater }
    else if c == '<' { Keysym::Less }
    else if c == '|' { Keysym::Bar }
    else if c == '\\' { Keysym::Backslash }
    else if c == '/' { Keysym::Slash }
    else if c == '[' { Keysym::BracketLeft }
    else if c == ']' { Keysym::BracketRight }
    else if c == '{' { Keysym::BraceLeft }
    else if c == '}' { Keysym::BraceRight }
    else if c == '(' { Keysym::ParenLeft }
    else if c == ')' { Keysym::ParenRight }
    else if c == '+' { Keysym::Plus }
    else if c == '-' { Keysym::Minus }
    else if c == '=' { Keysym::Equal }
    else if c == '_' { Keysym::Underscore }
    else if c == ',' { Keysym::Comma }
    else if c == '.' { Keysym::Period }
    else if c == '^' { Keysym::AsciiCircum }
    else if c == '~' { Keysym::AsciiTilde }
    else if c == '@' { Keysym::At }
    else if c == '#' { Keysym::NumberSign }
    else if c == '$' { Keysym::Dollar }
    else if c == '%' { Keysym::Percent }
    else if c == '&' { Keysym::Ampersand }
    else if c == '*' { Keysym::Asterisk }
    else { Keysym::Char(c) }
}

/// The keysym of a key that is not a character, if it is forwarded.
pub open spec fn named_keysym(k: KeyCode) -> Option<Keysym> {
    match k {
        KeyCode::Enter => Some(Keysym::Return),
        KeyCode::Escape => Some(Keysym::Escape),
        KeyCode::Backspace => Some(Keysym::BackSpace),
        KeyCode::Tab => Some(Keysym::Tab),
        KeyCode::Delete => Some(Keysym::Delete),
        KeyCode::Home => Some(Keysym::Home),
        KeyCode::End => Some(Keysym::End),
        KeyCode::PageUp => Some(Keysym::PageUp),
        KeyCode::PageDown => Some(Keysym::PageDown),
        KeyCode::UpArrow => Some(Keysym::Up),
        KeyCode::DownArrow => Some(Keysym::Down),
        KeyCode::LeftArrow => Some(Keysym::Left),
        KeyCode::RightArrow => Some(Keysym::Right),
        _ => None,
    }
}

/// `cell / cells * pixels`, rounded to the nearest integer (halves up).
pub open spec fn scale_rounded(cell: int, cells: int, pixels: int) -> int {
    (2 * cell * pixels + cells) / (2 * cells)
}

/// Game pixel under the character cell `(x, y)`: a character row holds two
/// pixel rows, so the vertical extent is half the pixel row count.
pub open spec fn game_point(t: InputTranslator, x: u16, y: u16, size: TerminalSize) -> GamePoint {
    GamePoint {
        x: scale_rounded(x as int, size.target_width as int, t.game_width as int) as u64,
        y: scale_rounded(y as int, size.target_height as int / 2, t.game_height as int) as u64,
    }
}

impl InputTranslator {
    /// The last pointer position came from scaling a cell.
    pub open spec fn wf(self) -> bool {
        match self.last_mouse {
            Some(p) => p.x <= MAX_COORD && p.y <= MAX_COORD,
            None => true,
        }
    }

    pub open spec fn key_state(self, c: char) -> KeyState {
        if c == 'w' { self.w }
        else if c == 'a' { self.a }
        else if c == 's' { self.s }
        else { self.d }
    }

    pub open spec fn with_key(self, c: char, k: KeyState) -> InputTranslator {
        if c == 'w' { InputTranslator { w: k, ..self } }
        else if c == 'a' { InputTranslator { a: k, ..self } }
        else if c == 's' { InputTranslator { s: k, ..self } }
        else { InputTranslator { d: k, ..self } }
    }

    /// The effect of a key event at time `now`: the new state, the
    /// invocations, and whether the session is to end.
    pub open spec fn key_step(self, k: KeyEvent, now: u64) -> (InputTranslator, Seq<SynthInput>, bool) {
        match k.key {
            KeyCode::Char(c) => {
                if k.ctrl && c == 'c' {
                    (self, seq![], true)
                } else if is_movement_key(c) {
                    let held = KeyState { pressed: true, release_at: now.saturating_add(KEY_HOLD_MS) };
                    let acts = if self.key_state(c).pressed { seq![] } else { seq![SynthInput::KeyDown(c)] };
                    (self.with_key(c, held), acts, false)
                } else if c == 'e' {
                    (InputTranslator { mode: toggled(self.mode), ..self }, seq![SynthInput::Key(Keysym::Char('e'))], false)
                } else if c == '`' {
                    (InputTranslator { mode: toggled(self.mode), ..self }, seq![], false)
                } else {
                    (self, seq![SynthInput::Key(keysym_of(c))], false)
                }
            },
            KeyCode::Escape => (
                InputTranslator { mode: MouseMode::Relative, ..self },
                seq![SynthInput::Key(Keysym::Escape)],
                false,
            ),
            _ => match named_keysym(k.key) {
                Some(sym) => (self, seq![SynthInput::Key(sym)], false),
                None => (self, seq![], false),
            },
        }
    }

    /// Invocations for a button: pressed now and not before goes down,
    /// released goes up.
    pub open spec fn button_actions(held: bool, was_held: bool, button: u8) -> Seq<SynthInput> {
        if held {
            if was_held { seq![] } else { seq![SynthInput::MouseDown(button)] }
        } else {
            seq![SynthInput::MouseUp(button)]
        }
    }

    /// The effect of a mouse report in a terminal of the given size.
    pub open spec fn mouse_step(self, m: MouseEvent, size: TerminalSize) -> (InputTranslator, Seq<SynthInput>) {
        let g = game_point(self, m.x, m.y, size);
        let motion = match self.mode {
            MouseMode::Absolute => seq![SynthInput::MouseMove(g.x, g.y)],
            MouseMode::Relative => match self.last_mouse {
                Some(last) => {
                    let dx = (g.x - last.x) * RELATIVE_GAIN;
                    let dy = (g.y - last.y) * RELATIVE_GAIN;
                    if dx != 0 || dy != 0 {
                        seq![SynthInput::MouseMoveRelative(dx as i64, dy as i64)]
                    } else {
                        seq![]
                    }
                },
                None => seq![],
            },
        };
        let wheel = match m.wheel {
            Wheel::Still => seq![],
            Wheel::Up => seq![SynthInput::Click(4)],
            Wheel::Down => seq![SynthInput::Click(5)],
        };
        (
            InputTranslator { last_mouse: Some(g), left_down: m.left, right_down: m.right, ..self },
            motion + Self::button_actions(m.left, self.left_down, 1)
                + Self::button_actions(m.right, self.right_down, 3) + wheel,
        )
    }

    /// The effect of any event.
    pub open spec fn step(self, event: InputEvent, now: u64, size: TerminalSize) -> (InputTranslator, Seq<SynthInput>, bool) {
        match event {
            InputEvent::Key(k) => self.key_step(k, now),
            InputEvent::Mouse(m) => {
                let (t, acts) = self.mouse_step(m, size);
                (t, acts, false)
            },
        }
    }

    pub open spec fn sweep_key(k: KeyState, c: char, now: u64) -> (KeyState, Seq<SynthInput>) {
        if k.pressed && now >= k.release_at {
            (KeyState { pressed: false, ..k }, seq![SynthInput::KeyUp(c)])
        } else {
            (k, seq![])
        }
    }

    /// Lets go of every movement key whose hold has run out by `now`, in
    /// the order w, a, s, d.
    pub open spec fn spec_sweep(self, now: u64) -> (InputTranslator, Seq<SynthInput>) {
        let (w, uw) = Self::sweep_key(self.w, 'w', now);
        let (a, ua) = Self::sweep_key(self.a, 'a', now);
        let (s, us) = Self::sweep_key(self.s, 's', now);
        let (d, ud) = Self::sweep_key(self.d, 'd', now);
        (InputTranslator { w, a, s, d, ..self }, uw + ua + us + ud)
    }

    /// A translator with no key held, no pointer position seen yet, and the
    /// given mouse mode.
    pub fn new(game_width: u32, game_height: u32, absolute: bool) -> (r: InputTranslator)
        ensures
            r.wf(),
            !r.w.pressed && !r.a.pressed && !r.s.pressed && !r.d.pressed,
            r.mode == (if absolute { MouseMode::Absolute } else { MouseMode::Relative }),
            r.last_mouse is None,
            !r.left_down && !r.right_down,
            r.game_width == game_width && r.game_height == game_height,
    {
        let idle = KeyState { pressed: false, release_at: 0 };
        InputTranslator {
            w: idle,
            a: idle,
            s: idle,
            d: idle,
            mode: if absolute { MouseMode::Absolute } else { MouseMode::Relative },
            last_mouse: None,
            left_down: false,
            right_down: false,
            game_width,
            game_height,
        }
    }
}

impl InputTranslator {
    fn key_state_of(&self, c: char) -> (r: KeyState)
        ensures
            r == self.key_state(c),
    {
        if c == 'w' {
            self.w
        } else if c == 'a' {
            self.a
        } else if c == 's' {
            self.s
        } else {
            self.d
        }
    }

    fn set_key(&mut self, c: char, k: KeyState)
        ensures
            *final(self) == old(self).with_key(c, k),
    {
        if c == 'w' {
            self.w = k;
        } else if c == 'a' {
            self.a = k;
        } else if c == 's' {
            self.s = k;
        } else {
            self.d = k;
        }
    }

    fn toggle_mode(&mut self)
        ensures
            *final(self) == (InputTranslator { mode: toggled(old(self).mode), ..*old(self) }),
    {
        self.mode = match self.mode {
            MouseMode::Absolute => MouseMode::Relative,
            MouseMode::Relative => MouseMode::Absolute,
        };
    }

    fn handle_key(&mut self, k: KeyEvent, now: u64) -> (r: EventOutcome)
        ensures
            (*final(self), r.actions@, r.stop) == old(self).key_step(k, now),
    {
        let mut actions: Vec<SynthInput> = Vec::new();
        match k.key {
            KeyCode::Char(c) => {
                if k.ctrl && c == 'c' {
                    return EventOutcome { actions, stop: true };
                }
                if c == 'w' || c == 'a' || c == 's' || c == 'd' {
                    if !self.key_state_of(c).pressed {
                        actions.push(SynthInput::KeyDown(c));
                    }
                    self.set_key(c, KeyState { pressed: true, release_at: now.saturating_add(KEY_HOLD_MS) });
                } else if c == 'e' {
                    self.toggle_mode();
                    actions.push(SynthInput::Key(Keysym::Char('e')));
                } else if c == '`' {
                    self.toggle_mode();
                } else {
                    actions.push(SynthInput::Key(keysym_for(c)));
                }
            },
            KeyCode::Escape => {
                self.mode = MouseMode::Relative;
                actions.push(SynthInput::Key(Keysym::Escape));
            },
            other => {
                if let Some(sym) = named_key(other) {
                    actions.push(SynthInput::Key(sym));
                }
            },
        }
        proof {
            assert(actions@ =~= old(self).key_step(k, now).1);
        }
        EventOutcome { actions, stop: false }
    }

    fn push_button(out: &mut Vec<SynthInput>, held: bool, was_held: bool, button: u8)
        ensures
            final(out)@ == old(out)@ + Self::button_actions(held, was_held, button),
    {
        if held {
            if !was_held {
                out.push(SynthInput::MouseDown(button));
            }
        } else {
            out.push(SynthInput::MouseUp(button));
        }
        proof {
            assert(out@ =~= old(out)@ + Self::button_actions(held, was_held, button));
        }
    }

    fn handle_mouse(&mut self, m: MouseEvent, size: TerminalSize) -> (r: Vec<SynthInput>)
        requires
            old(self).wf(),
            size.is_paintable(),
        ensures
            (*final(self), r@) == old(self).mouse_step(m, size),
            final(self).wf(),
    {
        let g = GamePoint {
            x: scale_cell(m.x, size.target_width, self.game_width),
            y: scale_cell(m.y, size.target_height / 2, self.game_height),
        };
        let mut out: Vec<SynthInput> = Vec::new();
        match self.mode {
            MouseMode::Absolute => out.push(SynthInput::MouseMove(g.x, g.y)),
            MouseMode::Relative => {
                if let Some(last) = self.last_mouse {
                    let dx = (g.x as i64 - last.x as i64) * RELATIVE_GAIN;
                    let dy = (g.y as i64 - last.y as i64) * RELATIVE_GAIN;
                    if dx != 0 || dy != 0 {
                        out.push(SynthInput::MouseMoveRelative(dx, dy));
                    }
                }
            },
        }
        Self::push_button(&mut out, m.left, self.left_down, 1);
        Self::push_button(&mut out, m.right, self.right_down, 3);
        match m.wheel {
            Wheel::Still => {},
            Wheel::Up => out.push(SynthInput::Click(4)),
            Wheel::Down => out.push(SynthInput::Click(5)),
        }
        proof {
            assert(out@ =~= old(self).mouse_step(m, size).1);
        }
        self.last_mouse = Some(g);
        self.left_down = m.left;
        self.right_down = m.right;
        out
    }

    /// Applies one event received at time `now` (milliseconds) while the
    /// terminal has the given size.
    pub fn handle(&mut self, event: InputEvent, now: u64, size: TerminalSize) -> (r: EventOutcome)
        requires
            old(self).wf(),
            event is Mouse ==> size.is_paintable(),
        ensures
            (*final(self), r.actions@, r.stop) == old(self).step(event, now, size),
            final(self).wf(),
    {
        match event {
            InputEvent::Key(k) => self.handle_key(k, now),
            InputEvent::Mouse(m) => {
                let actions = self.handle_mouse(m, size);
                EventOutcome { actions, stop: false }
            },
        }
    }

    fn release_if_due(k: &mut KeyState, c: char, now: u64, out: &mut Vec<SynthInput>)
        ensures
            *final(k) == Self::sweep_key(*old(k), c, now).0,
            final(out)@ == old(out)@ + Self::sweep_key(*old(k), c, now).1,
    {
        if k.pressed && now >= k.release_at {
            k.pressed = false;
            out.push(SynthInput::KeyUp(c));
        }
        proof {
            assert(out@ =~= old(out)@ + Self::sweep_key(*old(k), c, now).1);
        }
    }

    /// Lets go of the movement keys whose hold ran out by `now`.
    pub fn sweep(&mut self, now: u64) -> (r: Vec<SynthInput>)
        requires
            old(self).wf(),
        ensures
            (*final(self), r@) == old(self).spec_sweep(now),
            final(self).wf(),
    {
        let mut out: Vec<SynthInput> = Vec::new();
        Self::release_if_due(&mut self.w, 'w', now, &mut out);
        Self::release_if_due(&mut self.a, 'a', now, &mut out);
        Self::release_if_due(&mut self.s, 's', now, &mut out);
        Self::release_if_due(&mut self.d, 'd', now, &mut out);
        proof {
            assert(out@ =~= old(self).spec_sweep(now).1);
        }
        out
    }
}

/// A movement key typed at `now` is held, is let go by the first sweep at or
/// after `now + KEY_HOLD_MS`, and not by any sweep before. It is pressed
/// anew only if it was not already held.
pub proof fn lemma_movement_key_released(
    t: InputTranslator,
    c: char,
    now: u64,
    later: u64,
    size: TerminalSize,
)
    requires
        is_movement_key(c),
        now <= u64::MAX - KEY_HOLD_MS,
    ensures
        ({
            let (held, acts, stop) = t.step(InputEvent::Key(KeyEvent { key: KeyCode::Char(c), ctrl: false }), now, size);
            let (swept, ups) = held.spec_sweep(later);
            &&& !stop
            &&& held.key_state(c) == (KeyState { pressed: true, release_at: (now + KEY_HOLD_MS) as u64 })
            &&& acts == (if t.key_state(c).pressed { seq![] } else { seq![SynthInput::KeyDown(c)] })
            &&& later >= now + KEY_HOLD_MS ==> !swept.key_state(c).pressed && ups.contains(SynthInput::KeyUp(c))
            &&& later < now + KEY_HOLD_MS ==> swept.key_state(c).pressed && !ups.contains(SynthInput::KeyUp(c))
        }),
{
    let (held, acts, stop) = t.step(InputEvent::Key(KeyEvent { key: KeyCode::Char(c), ctrl: false }), now, size);
    let (swept, ups) = held.spec_sweep(later);
    let (w, uw) = InputTranslator::sweep_key(held.w, 'w', later);
    let (a, ua) = InputTranslator::sweep_key(held.a, 'a', later);
    let (s, us) = InputTranslator::sweep_key(held.s, 's', later);
    let (d, ud) = InputTranslator::sweep_key(held.d, 'd', later);
    assert(ups == uw + ua + us + ud);
    if later >= now + KEY_HOLD_MS {
        let own = if c == 'w' { uw } else if c == 'a' { ua } else if c == 's' { us } else { ud };
        assert(own == seq![SynthInput::KeyUp(c)]);
        if c == 'w' {
            assert(ups[0] == SynthInput::KeyUp(c));
        } else if c == 'a' {
            assert(ups[uw.len() as int] == SynthInput::KeyUp(c));
        } else if c == 's' {
            assert(ups[(uw.len() + ua.len()) as int] == SynthInput::KeyUp(c));
        } else {
            assert(ups[(uw.len() + ua.len() + us.len()) as int] == SynthInput::KeyUp(c));
        }
    } else {
        if ups.contains(SynthInput::KeyUp(c)) {
            let i = choose|i: int| 0 <= i < ups.len() && ups[i] == SynthInput::KeyUp(c);
            assert(false);
        }
    }
}

fn named_key(k: KeyCode) -> (r: Option<Keysym>)
    ensures
        r == named_keysym(k),
{
    match k {
        KeyCode::Enter => Some(Keysym::Return),
        KeyCode::Escape => Some(Keysym::Escape),
        KeyCode::Backspace => Some(Keysym::BackSpace),
        KeyCode::Tab => Some(Keysym::Tab),
        KeyCode::Delete => Some(Keysym::Delete),
        KeyCode::Home => Some(Keysym::Home),
        KeyCode::End => Some(Keysym::End),
        KeyCode::PageUp => Some(Keysym::PageUp),
        KeyCode::PageDown => Some(Keysym::PageDown),
        KeyCode::UpArrow => Some(Keysym::Up),
        KeyCode::DownArrow => Some(Keysym::Down),
        KeyCode::LeftArrow => Some(Keysym::Left),
        KeyCode::RightArrow => Some(Keysym::Right),
        _ => None,
    }
}

/// The keysym that a typed character is sent as.
pub fn keysym_for(c: char) -> (r: Keysym)
    ensures
        r == keysym_of(c),
{
    match c {
        ' ' => Keysym::Space,
        ';' => Keysym::Semicolon,
        '?' => Keysym::Question,
        '!' => Keysym::Exclam,
        ':' => Keysym::Colon,
        '"' => Keysym::Quotedbl,
        '\'' => Keysym::Apostrophe,
        '>' => Keysym::Greater,
        '<' => Keysym::Less,
        '|' => Keysym::Bar,
        '\\' => Keysym::Backslash,
        '/' => Keysym::Slash,
        '[' => Keysym::BracketLeft,
        ']' => Keysym::BracketRight,
        '{' => Keysym::BraceLeft,
        '}' => Keysym::BraceRight,
        '(' => Keysym::ParenLeft,
        ')' => Keysym::ParenRight,
        '+' => Keysym::Plus,
        '-' => Keysym::Minus,
        '=' => Keysym::Equal,
        '_' => Keysym::Underscore,
        ',' => Keysym::Comma,
        '.' => Keysym::Period,
        '^' => Keysym::AsciiCircum,
        '~' => Keysym::AsciiTilde,
        '@' => Keysym::At,
        '#' => Keysym::NumberSign,
        '$' => Keysym::Dollar,
        '%' => Keysym::Percent,
        '&' => Keysym::Ampersand,
        '*' => Keysym::Asterisk,
        _ => Keysym::Char(c),
    }
}

/// `cell / cells * pixels`, rounded to the nearest integer.
pub fn scale_cell(cell: u16, cells: usize, pixels: u32) -> (r: u64)
    requires
        cells > 0,
    ensures
        r == scale_rounded(cell as int, cells as int, pixels as int),
        r <= MAX_COORD,
{
    let c = cell as u128;
    let px = pixels as u128;
    proof {
        assert(c * px <= 0xffff * 0xffff_ffff) by (nonlinear_arith)
            requires c <= 0xffff, px <= 0xffff_ffff;
    }
    let num: u128 = 2 * (c * px) + cells as u128;
    let den: u128 = 2 * (cells as u128);
    proof {
        let p = cell as int * pixels as int;
        assert(num < den * (p + 1)) by (nonlinear_arith)
            requires num == 2 * p + cells, den == 2 * cells, cells >= 1, p >= 0;
        lemma_multiply_divide_lt(num as int, den as int, p + 1);
        assert(2 * (cell as int) * (pixels as int) == 2 * p) by (nonlinear_arith)
            requires p == cell as int * pixels as int;
        assert(p + 1 <= u64::MAX);
    }
    (num / den) as u64
}

} // verus!
