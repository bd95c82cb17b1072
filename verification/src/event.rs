//! Application events and the unified key model.

use vstd::prelude::*;

verus! {

/// Modifier bit for the Shift key.
pub const MOD_SHIFT: u8 = 0x01;
/// Modifier bit for the Control key.
pub const MOD_CONTROL: u8 = 0x02;
/// Modifier bit for the Alt key.
pub const MOD_ALT: u8 = 0x04;
/// Modifier bit for the Meta key.
pub const MOD_META: u8 = 0x08;
/// Modifier bit for the Super key.
pub const MOD_SUPER: u8 = 0x10;

/// A set of independent modifier-key flags.  Each of the `MOD_*` bits stands
/// for one key; order is irrelevant and duplicates are impossible by
/// construction.
#[derive(Clone, Copy, PartialEq, Eq, Structural, Debug)]
pub struct ModifierKeys {
    /// The raw flag bits.
    pub bits: u8,
}

impl ModifierKeys {
    /// The set with `flag` added when `on` holds, unchanged otherwise.
    pub open spec fn spec_with(self, flag: u8, on: bool) -> ModifierKeys {
        if on {
            ModifierKeys { bits: self.bits | flag }
        } else {
            self
        }
    }

    /// The empty set: no modifier held.
    pub fn empty() -> (m: ModifierKeys)
        ensures
            m.bits == 0,
    {
        ModifierKeys { bits: 0 }
    }

    /// Adds `flag` to the set when `on` holds.
    pub fn with(self, flag: u8, on: bool) -> (m: ModifierKeys)
        ensures
            m == self.spec_with(flag, on),
    {
        if on {
            ModifierKeys { bits: self.bits | flag }
        } else {
            self
        }
    }

    /// Whether every bit of `flag` is in the set.
    pub fn contains(&self, flag: u8) -> (r: bool)
        ensures
            r == (self.bits & flag == flag),
    {
        self.bits & flag == flag
    }
}

/// The unified key-code model shared by both backends.
#[derive(Clone, Copy, PartialEq, Eq, Structural, Debug)]
pub enum KeyCode {
    Backspace,
    Enter,
    Left,
    Right,
    Up,
    Down,
    Home,
    End,
    PageUp,
    PageDown,
    Tab,
    BackTab,
    Delete,
    Insert,
    F(u8),
    Char(char),
    Esc,
}

/// A key press: the unified key code plus the modifier set.
#[derive(Clone, Copy, PartialEq, Eq, Structural, Debug)]
pub struct KeyEvent {
    /// The key that was pressed.
    pub key_code: KeyCode,
    /// The modifier keys held during the press.
    pub modifier_keys: ModifierKeys,
}

/// A host key code as either backend reports it, before translation into the
/// unified model.  `Unidentified` stands for any code the host knows but the
/// application does not.
#[derive(Clone, Copy, PartialEq, Eq, Structural, Debug)]
pub enum RawKey {
    Backspace,
    Enter,
    Left,
    Right,
    Up,
    Down,
    Home,
    End,
    PageUp,
    PageDown,
    Tab,
    BackTab,
    Delete,
    Insert,
    F(u8),
    Char(char),
    Esc,
    Unidentified,
}

/// The unified key code for a host key code: known codes map one to one and
/// anything unidentified degrades to a blank-character key press, so that
/// translation never drops an event.
pub open spec fn spec_translate_key(raw: RawKey) -> KeyCode {
    match raw {
        RawKey::Backspace => KeyCode::Backspace,
        RawKey::Enter => KeyCode::Enter,
        RawKey::Left => KeyCode::Left,
        RawKey::Right => KeyCode::Right,
        RawKey::Up => KeyCode::Up,
        RawKey::Down => KeyCode::Down,
        RawKey::Home => KeyCode::Home,
        RawKey::End => KeyCode::End,
        RawKey::PageUp => KeyCode::PageUp,
        RawKey::PageDown => KeyCode::PageDown,
        RawKey::Tab => KeyCode::Tab,
        RawKey::BackTab => KeyCode::BackTab,
        RawKey::Delete => KeyCode::Delete,
        RawKey::Insert => KeyCode::Insert,
        RawKey::F(n) => KeyCode::F(n),
        RawKey::Char(c) => KeyCode::Char(c),
        RawKey::Esc => KeyCode::Esc,
        RawKey::Unidentified => KeyCode::Char(' '),
    }
}

/// Translates a host key code into the unified model.
pub fn translate_key(raw: RawKey) -> (code: KeyCode)
    ensures
        code == spec_translate_key(raw),
{
    match raw {
        RawKey::Backspace => KeyCode::Backspace,
        RawKey::Enter => KeyCode::Enter,
        RawKey::Left => KeyCode::Left,
        RawKey::Right => KeyCode::Right,
        RawKey::Up => KeyCode::Up,
        RawKey::Down => KeyCode::Down,
        RawKey::Home => KeyCode::Home,
        RawKey::End => KeyCode::End,
        RawKey::PageUp => KeyCode::PageUp,
        RawKey::PageDown => KeyCode::PageDown,
        RawKey::Tab => KeyCode::Tab,
        RawKey::BackTab => KeyCode::BackTab,
        RawKey::Delete => KeyCode::Delete,
        RawKey::Insert => KeyCode::Insert,
        RawKey::F(n) => KeyCode::F(n),
        RawKey::Char(c) => KeyCode::Char(c),
        RawKey::Esc => KeyCode::Esc,
        RawKey::Unidentified => KeyCode::Char(' '),
    }
}

/// The modifier set encoding the five host flags.
pub open spec fn spec_modifiers(shift: bool, ctrl: bool, alt: bool, meta: bool, sup: bool)
    -> ModifierKeys {
    ModifierKeys { bits: 0 }.spec_with(MOD_SHIFT, shift).spec_with(MOD_CONTROL, ctrl).spec_with(
        MOD_ALT,
        alt,
    ).spec_with(MOD_META, meta).spec_with(MOD_SUPER, sup)
}

/// Builds the unified key event for a host key press reported as a raw code
/// plus five modifier flags.
pub fn key_event_from_host(raw: RawKey, shift: bool, ctrl: bool, alt: bool, meta: bool, sup: bool)
    -> (ev: KeyEvent)
    ensures
        ev.key_code == spec_translate_key(raw),
        ev.modifier_keys == spec_modifiers(shift, ctrl, alt, meta, sup),
{
    let modifier_keys = ModifierKeys::empty().with(MOD_SHIFT, shift).with(MOD_CONTROL, ctrl).with(
        MOD_ALT,
        alt,
    ).with(MOD_META, meta).with(MOD_SUPER, sup);
    KeyEvent { key_code: translate_key(raw), modifier_keys }
}

/// One application event, as consumed by the frame loop.
#[derive(Debug)]
pub enum AppEvent {
    /// Elapsed-time heartbeat.
    Tick,
    /// A key press in the unified model.
    KeyPress(KeyEvent),
    /// The host surface changed to the given width and height.
    Resize(u16, u16),
    /// Compile the given effect script and register the result.
    CompileDsl(String),
    /// Replace the canvas contents with the given source text.
    UpdateCanvas(String),
    /// Stop the session.
    Quit,
}

} // verus!
