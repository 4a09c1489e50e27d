//! Key bindings as the game's `options.txt` stores them.

use vstd::prelude::*;

verus! {

/// A `key_key` field of `options.txt`: the key bound to an action, such as
/// `key_key.attack` or `key_key.jump`.
#[derive(Clone, Copy, Debug, PartialEq, Eq, Structural)]
pub enum KeyKey {
    Attack,
    Use,
    Forward,
    Left,
    Back,
    Right,
    Jump,
    Sneak,
    Sprint,
    Drop,
    Inventory,
    Chat,
    Playerlist,
    PickItem,
    Command,
    SocialInteractions,
    Screenshot,
    TogglePerspective,
    SmoothCamera,
    Fullscreen,
    SpectatorOutlines,
    SwapOffhand,
    SaveToolbarActivator,
    LoadToolbarActivator,
    Advancements,
    Hotbar1,
    Hotbar2,
    Hotbar3,
    Hotbar4,
    Hotbar5,
    Hotbar6,
    Hotbar7,
    Hotbar8,
    Hotbar9,
}

/// The field name of each action.
pub open spec fn key_key_name(k: KeyKey) -> Seq<char> {
    match k {
        KeyKey::Attack => "key_key.attack"@,
        KeyKey::Use => "key_key.use"@,
        KeyKey::Forward => "key_key.forward"@,
        KeyKey::Left => "key_key.left"@,
        KeyKey::Back => "key_key.back"@,
        KeyKey::Right => "key_key.right"@,
        KeyKey::Jump => "key_key.jump"@,
        KeyKey::Sneak => "key_key.sneak"@,
        KeyKey::Sprint => "key_key.sprint"@,
        KeyKey::Drop => "key_key.drop"@,
        KeyKey::Inventory => "key_key.inventory"@,
        KeyKey::Chat => "key_key.chat"@,
        KeyKey::Playerlist => "key_key.playerlist"@,
        KeyKey::PickItem => "key_key.pickItem"@,
        KeyKey::Command => "key_key.command"@,
        KeyKey::SocialInteractions => "key_key.socialInteractions"@,
        KeyKey::Screenshot => "key_key.screenshot"@,
        KeyKey::TogglePerspective => "key_key.togglePerspective"@,
        KeyKey::SmoothCamera => "key_key.smoothCamera"@,
        KeyKey::Fullscreen => "key_key.fullscreen"@,
        KeyKey::SpectatorOutlines => "key_key.spectatorOutlines"@,
        KeyKey::SwapOffhand => "key_key.swapOffhand"@,
        KeyKey::SaveToolbarActivator => "key_key.saveToolbarActivator"@,
        KeyKey::LoadToolbarActivator => "key_key.loadToolbarActivator"@,
        KeyKey::Advancements => "key_key.advancements"@,
        KeyKey::Hotbar1 => "key_key.hotbar.1"@,
        KeyKey::Hotbar2 => "key_key.hotbar.2"@,
        KeyKey::Hotbar3 => "key_key.hotbar.3"@,
        KeyKey::Hotbar4 => "key_key.hotbar.4"@,
        KeyKey::Hotbar5 => "key_key.hotbar.5"@,
        KeyKey::Hotbar6 => "key_key.hotbar.6"@,
        KeyKey::Hotbar7 => "key_key.hotbar.7"@,
        KeyKey::Hotbar8 => "key_key.hotbar.8"@,
        KeyKey::Hotbar9 => "key_key.hotbar.9"@,
    }
}

impl KeyKey {
    /// The field name of this action in `options.txt`.
    pub fn as_str(&self) -> (r: &'static str)
        ensures
            r@ == key_key_name(*self),
    {
        match self {
            KeyKey::Attack => "key_key.attack",
            KeyKey::Use => "key_key.use",
            KeyKey::Forward => "key_key.forward",
            KeyKey::Left => "key_key.left",
            KeyKey::Back => "key_key.back",
            KeyKey::Right => "key_key.right",
            KeyKey::Jump => "key_key.jump",
            KeyKey::Sneak => "key_key.sneak",
            KeyKey::Sprint => "key_key.sprint",
            KeyKey::Drop => "key_key.drop",
            KeyKey::Inventory => "key_key.inventory",
            KeyKey::Chat => "key_key.chat",
            KeyKey::Playerlist => "key_key.playerlist",
            KeyKey::PickItem => "key_key.pickItem",
            KeyKey::Command => "key_key.command",
            KeyKey::SocialInteractions => "key_key.socialInteractions",
            KeyKey::Screenshot => "key_key.screenshot",
            KeyKey::TogglePerspective => "key_key.togglePerspective",
            KeyKey::SmoothCamera => "key_key.smoothCamera",
            KeyKey::Fullscreen => "key_key.fullscreen",
            KeyKey::SpectatorOutlines => "key_key.spectatorOutlines",
            KeyKey::SwapOffhand => "key_key.swapOffhand",
            KeyKey::SaveToolbarActivator => "key_key.saveToolbarActivator",
            KeyKey::LoadToolbarActivator => "key_key.loadToolbarActivator",
            KeyKey::Advancements => "key_key.advancements",
            KeyKey::Hotbar1 => "key_key.hotbar.1",
            KeyKey::Hotbar2 => "key_key.hotbar.2",
            KeyKey::Hotbar3 => "key_key.hotbar.3",
            KeyKey::Hotbar4 => "key_key.hotbar.4",
            KeyKey::Hotbar5 => "key_key.hotbar.5",
            KeyKey::Hotbar6 => "key_key.hotbar.6",
            KeyKey::Hotbar7 => "key_key.hotbar.7",
            KeyKey::Hotbar8 => "key_key.hotbar.8",
            KeyKey::Hotbar9 => "key_key.hotbar.9",
        }
    }
}

/// A keyboard key, as the game stores it in `options.txt`: by name since
/// version 1.13, by number before.
#[derive(Clone, Copy, Debug, PartialEq, Eq, Structural)]
pub enum Keycode {
    Unknown,
    Escape,
    Key1,
    Key2,
    Key3,
    Key4,
    Key5,
    Key6,
    Key7,
    Key8,
    Key9,
    Key0,
    Minus,
    Equal,
    Backspace,
    Tab,
    Q,
    W,
    E,
    R,
    T,
    Y,
    U,
    I,
    O,
    P,
    LeftBracket,
    RightBracket,
    Enter,
    LeftControl,
    A,
    S,
    D,
    F,
    G,
    H,
    J,
    K,
    L,
    Semicolon,
    Apostrophe,
    Grave,
    LeftShift,
    Backslash,
    Z,
    X,
    C,
    V,
    B,
    N,
    M,
    Comma,
    Period,
    Slash,
    RightShift,
    Multiply,
    Menu,
    Space,
    CapsLock,
    F1,
    F2,
    F3,
    F4,
    F5,
    F6,
    F7,
    F8,
    F9,
    F10,
    NumLock,
    ScrollLock,
    Keypad7,
    Keypad8,
    Keypad9,
    KeypadSubtract,
    Keypad4,
    Keypad5,
    Keypad6,
    KeypadAdd,
    Keypad1,
    Keypad2,
    Keypad3,
    Keypad0,
    KeypadDecimal,
    F11,
    F12,
    F13,
    F14,
    F15,
    KeypadEqual,
    KeypadEnter,
    RightControl,
    KeypadDivide,
    Pause,
    Home,
    Up,
    PageUp,
    Left,
    Right,
    End,
    Down,
    PageDown,
    Insert,
    Delete,
    LeftSuper,
    RightSuper,
}

/// The name a key is stored under since version 1.13.
pub open spec fn keycode_name(k: Keycode) -> Seq<char> {
    match k {
        Keycode::Unknown => "key.keyboard.unknown"@,
        Keycode::Escape => "key.keyboard.escape"@,
        Keycode::Key1 => "key.keyboard.1"@,
        Keycode::Key2 => "key.keyboard.2"@,
        Keycode::Key3 => "key.keyboard.3"@,
        Keycode::Key4 => "key.keyboard.4"@,
        Keycode::Key5 => "key.keyboard.5"@,
        Keycode::Key6 => "key.keyboard.6"@,
        Keycode::Key7 => "key.keyboard.7"@,
        Keycode::Key8 => "key.keyboard.8"@,
        Keycode::Key9 => "key.keyboard.9"@,
        Keycode::Key0 => "key.keyboard.0"@,
        Keycode::Minus => "key.keyboard.minus"@,
        Keycode::Equal => "key.keyboard.equal"@,
        Keycode::Backspace => "key.keyboard.backspace"@,
        Keycode::Tab => "key.keyboard.tab"@,
        Keycode::Q => "key.keyboard.q"@,
        Keycode::W => "key.keyboard.w"@,
        Keycode::E => "key.keyboard.e"@,
        Keycode::R => "key.keyboard.r"@,
        Keycode::T => "key.keyboard.t"@,
        Keycode::Y => "key.keyboard.y"@,
        Keycode::U => "key.keyboard.u"@,
        Keycode::I => "key.keyboard.i"@,
        Keycode::O => "key.keyboard.o"@,
        Keycode::P => "key.keyboard.p"@,
        Keycode::LeftBracket => "key.keyboard.left.bracket"@,
        Keycode::RightBracket => "key.keyboard.right.bracket"@,
        Keycode::Enter => "key.keyboard.enter"@,
        Keycode::LeftControl => "key.keyboard.left.control"@,
        Keycode::A => "key.keyboard.a"@,
        Keycode::S => "key.keyboard.s"@,
        Keycode::D => "key.keyboard.d"@,
        Keycode::F => "key.keyboard.f"@,
        Keycode::G => "key.keyboard.g"@,
        Keycode::H => "key.keyboard.h"@,
        Keycode::J => "key.keyboard.j"@,
        Keycode::K => "key.keyboard.k"@,
        Keycode::L => "key.keyboard.l"@,
        Keycode::Semicolon => "key.keyboard.semicolon"@,
        Keycode::Apostrophe => "key.keyboard.apostrophe"@,
        Keycode::Grave => "key.keyboard.grave.accent"@,
        Keycode::LeftShift => "key.keyboard.left.shift"@,
        Keycode::Backslash => "key.keyboard.backslash"@,
        Keycode::Z => "key.keyboard.z"@,
        Keycode::X => "key.keyboard.x"@,
        Keycode::C => "key.keyboard.c"@,
        Keycode::V => "key.keyboard.v"@,
        Keycode::B => "key.keyboard.b"@,
        Keycode::N => "key.keyboard.n"@,
        Keycode::M => "key.keyboard.m"@,
        Keycode::Comma => "key.keyboard.comma"@,
        Keycode::Period => "key.keyboard.period"@,
        Keycode::Slash => "key.keyboard.slash"@,
        Keycode::RightShift => "key.keyboard.right.shift"@,
        Keycode::Multiply => "key.keyboard.multiply"@,
        Keycode::Menu => "key.keyboard.menu"@,
        Keycode::Space => "key.keyboard.space"@,
        Keycode::CapsLock => "key.keyboard.caps.lock"@,
        Keycode::F1 => "key.keyboard.f1"@,
        Keycode::F2 => "key.keyboard.f2"@,
        Keycode::F3 => "key.keyboard.f3"@,
        Keycode::F4 => "key.keyboard.f4"@,
        Keycode::F5 => "key.keyboard.f5"@,
        Keycode::F6 => "key.keyboard.f6"@,
        Keycode::F7 => "key.keyboard.f7"@,
        Keycode::F8 => "key.keyboard.f8"@,
        Keycode::F9 => "key.keyboard.f9"@,
        Keycode::F10 => "key.keyboard.f10"@,
        Keycode::NumLock => "key.keyboard.num.lock"@,
        Keycode::ScrollLock => "key.keyboard.scroll.lock"@,
        Keycode::Keypad7 => "key.keyboard.keypad.7"@,
        Keycode::Keypad8 => "key.keyboard.keypad.8"@,
        Keycode::Keypad9 => "key.keyboard.keypad.9"@,
        Keycode::KeypadSubtract => "key.keyboard.keypad.subtract"@,
        Keycode::Keypad4 => "key.keyboard.keypad.4"@,
        Keycode::Keypad5 => "key.keyboard.keypad.5"@,
        Keycode::Keypad6 => "key.keyboard.keypad.6"@,
        Keycode::KeypadAdd => "key.keyboard.keypad.add"@,
        Keycode::Keypad1 => "key.keyboard.keypad.1"@,
        Keycode::Keypad2 => "key.keyboard.keypad.2"@,
        Keycode::Keypad3 => "key.keyboard.keypad.3"@,
        Keycode::Keypad0 => "key.keyboard.keypad.0"@,
        Keycode::KeypadDecimal => "key.keyboard.keypad.decimal"@,
        Keycode::F11 => "key.keyboard.f11"@,
        Keycode::F12 => "key.keyboard.f12"@,
        Keycode::F13 => "key.keyboard.f13"@,
        Keycode::F14 => "key.keyboard.f14"@,
        Keycode::F15 => "key.keyboard.f15"@,
        Keycode::KeypadEqual => "key.keyboard.keypad.equal"@,
        Keycode::KeypadEnter => "key.keyboard.keypad.enter"@,
        Keycode::RightControl => "key.keyboard.right.control"@,
        Keycode::KeypadDivide => "key.keyboard.keypad.divide"@,
        Keycode::Pause => "key.keyboard.pause"@,
        Keycode::Home => "key.keyboard.home"@,
        Keycode::Up => "key.keyboard.up"@,
        Keycode::PageUp => "key.keyboard.page.up"@,
        Keycode::Left => "key.keyboard.left"@,
        Keycode::Right => "key.keyboard.right"@,
        Keycode::End => "key.keyboard.end"@,
        Keycode::Down => "key.keyboard.down"@,
        Keycode::PageDown => "key.keyboard.page.down"@,
        Keycode::Insert => "key.keyboard.insert"@,
        Keycode::Delete => "key.keyboard.delete"@,
        Keycode::LeftSuper => "key.keyboard.left.win"@,
        Keycode::RightSuper => "key.keyboard.right.win"@,
    }
}

/// The number a key was stored under before version 1.13.
pub open spec fn keycode_number(k: Keycode) -> nat {
    match k {
        Keycode::Unknown => 0,
        Keycode::Escape => 1,
        Keycode::Key1 => 2,
        Keycode::Key2 => 3,
        Keycode::Key3 => 4,
        Keycode::Key4 => 5,
        Keycode::Key5 => 6,
        Keycode::Key6 => 7,
        Keycode::Key7 => 8,
        Keycode::Key8 => 9,
        Keycode::Key9 => 10,
        Keycode::Key0 => 11,
        Keycode::Minus => 12,
        Keycode::Equal => 13,
        Keycode::Backspace => 14,
        Keycode::Tab => 15,
        Keycode::Q => 16,
        Keycode::W => 17,
        Keycode::E => 18,
        Keycode::R => 19,
        Keycode::T => 20,
        Keycode::Y => 21,
        Keycode::U => 22,
        Keycode::I => 23,
        Keycode::O => 24,
        Keycode::P => 25,
        Keycode::LeftBracket => 26,
        Keycode::RightBracket => 27,
        Keycode::Enter => 28,
        Keycode::LeftControl => 29,
        Keycode::A => 30,
        Keycode::S => 31,
        Keycode::D => 32,
        Keycode::F => 33,
        Keycode::G => 34,
        Keycode::H => 35,
        Keycode::J => 36,
        Keycode::K => 37,
        Keycode::L => 38,
        Keycode::Semicolon => 39,
        Keycode::Apostrophe => 40,
        Keycode::Grave => 41,
        Keycode::LeftShift => 42,
        Keycode::Backslash => 43,
        Keycode::Z => 44,
        Keycode::X => 45,
        Keycode::C => 46,
        Keycode::V => 47,
        Keycode::B => 48,
        Keycode::N => 49,
        Keycode::M => 50,
        Keycode::Comma => 51,
        Keycode::Period => 52,
        Keycode::Slash => 53,
        Keycode::RightShift => 54,
        Keycode::Multiply => 55,
        Keycode::Menu => 56,
        Keycode::Space => 57,
        Keycode::CapsLock => 58,
        Keycode::F1 => 59,
        Keycode::F2 => 60,
        Keycode::F3 => 61,
        Keycode::F4 => 62,
        Keycode::F5 => 63,
        Keycode::F6 => 64,
        Keycode::F7 => 65,
        Keycode::F8 => 66,
        Keycode::F9 => 67,
        Keycode::F10 => 68,
        Keycode::NumLock => 69,
        Keycode::ScrollLock => 70,
        Keycode::Keypad7 => 71,
        Keycode::Keypad8 => 72,
        Keycode::Keypad9 => 73,
        Keycode::KeypadSubtract => 74,
        Keycode::Keypad4 => 75,
        Keycode::Keypad5 => 76,
        Keycode::Keypad6 => 77,
        Keycode::KeypadAdd => 78,
        Keycode::Keypad1 => 79,
        Keycode::Keypad2 => 80,
        Keycode::Keypad3 => 81,
        Keycode::Keypad0 => 82,
        Keycode::KeypadDecimal => 83,
        Keycode::F11 => 84,
        Keycode::F12 => 85,
        Keycode::F13 => 86,
        Keycode::F14 => 87,
        Keycode::F15 => 88,
        Keycode::KeypadEqual => 141,
        Keycode::KeypadEnter => 156,
        Keycode::RightControl => 157,
        Keycode::KeypadDivide => 181,
        Keycode::Pause => 197,
        Keycode::Home => 199,
        Keycode::Up => 200,
        Keycode::PageUp => 201,
        Keycode::Left => 203,
        Keycode::Right => 205,
        Keycode::End => 207,
        Keycode::Down => 208,
        Keycode::PageDown => 209,
        Keycode::Insert => 210,
        Keycode::Delete => 211,
        Keycode::LeftSuper => 219,
        Keycode::RightSuper => 220,
    }
}

impl Keycode {
    /// The name of this key in the format used since version 1.13.
    pub fn id_post1_13(self) -> (r: &'static str)
        ensures
            r@ == keycode_name(self),
    {
        match self {
            Keycode::Unknown => "key.keyboard.unknown",
            Keycode::Escape => "key.keyboard.escape",
            Keycode::Key1 => "key.keyboard.1",
            Keycode::Key2 => "key.keyboard.2",
            Keycode::Key3 => "key.keyboard.3",
            Keycode::Key4 => "key.keyboard.4",
            Keycode::Key5 => "key.keyboard.5",
            Keycode::Key6 => "key.keyboard.6",
            Keycode::Key7 => "key.keyboard.7",
            Keycode::Key8 => "key.keyboard.8",
            Keycode::Key9 => "key.keyboard.9",
            Keycode::Key0 => "key.keyboard.0",
            Keycode::Minus => "key.keyboard.minus",
            Keycode::Equal => "key.keyboard.equal",
            Keycode::Backspace => "key.keyboard.backspace",
            Keycode::Tab => "key.keyboard.tab",
            Keycode::Q => "key.keyboard.q",
            Keycode::W => "key.keyboard.w",
            Keycode::E => "key.keyboard.e",
            Keycode::R => "key.keyboard.r",
            Keycode::T => "key.keyboard.t",
            Keycode::Y => "key.keyboard.y",
            Keycode::U => "key.keyboard.u",
            Keycode::I => "key.keyboard.i",
            Keycode::O => "key.keyboard.o",
            Keycode::P => "key.keyboard.p",
            Keycode::LeftBracket => "key.keyboard.left.bracket",
            Keycode::RightBracket => "key.keyboard.right.bracket",
            Keycode::Enter => "key.keyboard.enter",
            Keycode::LeftControl => "key.keyboard.left.control",
            Keycode::A => "key.keyboard.a",
            Keycode::S => "key.keyboard.s",
            Keycode::D => "key.keyboard.d",
            Keycode::F => "key.keyboard.f",
            Keycode::G => "key.keyboard.g",
            Keycode::H => "key.keyboard.h",
            Keycode::J => "key.keyboard.j",
            Keycode::K => "key.keyboard.k",
            Keycode::L => "key.keyboard.l",
            Keycode::Semicolon => "key.keyboard.semicolon",
            Keycode::Apostrophe => "key.keyboard.apostrophe",
            Keycode::Grave => "key.keyboard.grave.accent",
            Keycode::LeftShift => "key.keyboard.left.shift",
            Keycode::Backslash => "key.keyboard.backslash",
            Keycode::Z => "key.keyboard.z",
            Keycode::X => "key.keyboard.x",
            Keycode::C => "key.keyboard.c",
            Keycode::V => "key.keyboard.v",
            Keycode::B => "key.keyboard.b",
            Keycode::N => "key.keyboard.n",
            Keycode::M => "key.keyboard.m",
            Keycode::Comma => "key.keyboard.comma",
            Keycode::Period => "key.keyboard.period",
            Keycode::Slash => "key.keyboard.slash",
            Keycode::RightShift => "key.keyboard.right.shift",
            Keycode::Multiply => "key.keyboard.multiply",
            Keycode::Menu => "key.keyboard.menu",
            Keycode::Space => "key.keyboard.space",
            Keycode::CapsLock => "key.keyboard.caps.lock",
            Keycode::F1 => "key.keyboard.f1",
            Keycode::F2 => "key.keyboard.f2",
            Keycode::F3 => "key.keyboard.f3",
            Keycode::F4 => "key.keyboard.f4",
            Keycode::F5 => "key.keyboard.f5",
            Keycode::F6 => "key.keyboard.f6",
            Keycode::F7 => "key.keyboard.f7",
            Keycode::F8 => "key.keyboard.f8",
            Keycode::F9 => "key.keyboard.f9",
            Keycode::F10 => "key.keyboard.f10",
            Keycode::NumLock => "key.keyboard.num.lock",
            Keycode::ScrollLock => "key.keyboard.scroll.lock",
            Keycode::Keypad7 => "key.keyboard.keypad.7",
            Keycode::Keypad8 => "key.keyboard.keypad.8",
            Keycode::Keypad9 => "key.keyboard.keypad.9",
            Keycode::KeypadSubtract => "key.keyboard.keypad.subtract",
            Keycode::Keypad4 => "key.keyboard.keypad.4",
            Keycode::Keypad5 => "key.keyboard.keypad.5",
            Keycode::Keypad6 => "key.keyboard.keypad.6",
            Keycode::KeypadAdd => "key.keyboard.keypad.add",
            Keycode::Keypad1 => "key.keyboard.keypad.1",
            Keycode::Keypad2 => "key.keyboard.keypad.2",
            Keycode::Keypad3 => "key.keyboard.keypad.3",
            Keycode::Keypad0 => "key.keyboard.keypad.0",
            Keycode::KeypadDecimal => "key.keyboard.keypad.decimal",
            Keycode::F11 => "key.keyboard.f11",
            Keycode::F12 => "key.keyboard.f12",
            Keycode::F13 => "key.keyboard.f13",
            Keycode::F14 => "key.keyboard.f14",
            Keycode::F15 => "key.keyboard.f15",
            Keycode::KeypadEqual => "key.keyboard.keypad.equal",
            Keycode::KeypadEnter => "key.keyboard.keypad.enter",
            Keycode::RightControl => "key.keyboard.right.control",
            Keycode::KeypadDivide => "key.keyboard.keypad.divide",
            Keycode::Pause => "key.keyboard.pause",
            Keycode::Home => "key.keyboard.home",
            Keycode::Up => "key.keyboard.up",
            Keycode::PageUp => "key.keyboard.page.up",
            Keycode::Left => "key.keyboard.left",
            Keycode::Right => "key.keyboard.right",
            Keycode::End => "key.keyboard.end",
            Keycode::Down => "key.keyboard.down",
            Keycode::PageDown => "key.keyboard.page.down",
            Keycode::Insert => "key.keyboard.insert",
            Keycode::Delete => "key.keyboard.delete",
            Keycode::LeftSuper => "key.keyboard.left.win",
            Keycode::RightSuper => "key.keyboard.right.win",
        }
    }

    /// The number of this key in the format used before version 1.13.
    pub fn id_pre1_13(self) -> (r: usize)
        ensures
            r as nat == keycode_number(self),
    {
        match self {
            Keycode::Unknown => 0,
            Keycode::Escape => 1,
            Keycode::Key1 => 2,
            Keycode::Key2 => 3,
            Keycode::Key3 => 4,
            Keycode::Key4 => 5,
            Keycode::Key5 => 6,
            Keycode::Key6 => 7,
            Keycode::Key7 => 8,
            Keycode::Key8 => 9,
            Keycode::Key9 => 10,
            Keycode::Key0 => 11,
            Keycode::Minus => 12,
            Keycode::Equal => 13,
            Keycode::Backspace => 14,
            Keycode::Tab => 15,
            Keycode::Q => 16,
            Keycode::W => 17,
            Keycode::E => 18,
            Keycode::R => 19,
            Keycode::T => 20,
            Keycode::Y => 21,
            Keycode::U => 22,
            Keycode::I => 23,
            Keycode::O => 24,
            Keycode::P => 25,
            Keycode::LeftBracket => 26,
            Keycode::RightBracket => 27,
            Keycode::Enter => 28,
            Keycode::LeftControl => 29,
            Keycode::A => 30,
            Keycode::S => 31,
            Keycode::D => 32,
            Keycode::F => 33,
            Keycode::G => 34,
            Keycode::H => 35,
            Keycode::J => 36,
            Keycode::K => 37,
            Keycode::L => 38,
            Keycode::Semicolon => 39,
            Keycode::Apostrophe => 40,
            Keycode::Grave => 41,
            Keycode::LeftShift => 42,
            Keycode::Backslash => 43,
            Keycode::Z => 44,
            Keycode::X => 45,
            Keycode::C => 46,
            Keycode::V => 47,
            Keycode::B => 48,
            Keycode::N => 49,
            Keycode::M => 50,
            Keycode::Comma => 51,
            Keycode::Period => 52,
            Keycode::Slash => 53,
            Keycode::RightShift => 54,
            Keycode::Multiply => 55,
            Keycode::Menu => 56,
            Keycode::Space => 57,
            Keycode::CapsLock => 58,
            Keycode::F1 => 59,
            Keycode::F2 => 60,
            Keycode::F3 => 61,
            Keycode::F4 => 62,
            Keycode::F5 => 63,
            Keycode::F6 => 64,
            Keycode::F7 => 65,
            Keycode::F8 => 66,
            Keycode::F9 => 67,
            Keycode::F10 => 68,
            Keycode::NumLock => 69,
            Keycode::ScrollLock => 70,
            Keycode::Keypad7 => 71,
            Keycode::Keypad8 => 72,
            Keycode::Keypad9 => 73,
            Keycode::KeypadSubtract => 74,
            Keycode::Keypad4 => 75,
            Keycode::Keypad5 => 76,
            Keycode::Keypad6 => 77,
            Keycode::KeypadAdd => 78,
            Keycode::Keypad1 => 79,
            Keycode::Keypad2 => 80,
            Keycode::Keypad3 => 81,
            Keycode::Keypad0 => 82,
            Keycode::KeypadDecimal => 83,
            Keycode::F11 => 84,
            Keycode::F12 => 85,
            Keycode::F13 => 86,
            Keycode::F14 => 87,
            Keycode::F15 => 88,
            Keycode::KeypadEqual => 141,
            Keycode::KeypadEnter => 156,
            Keycode::RightControl => 157,
            Keycode::KeypadDivide => 181,
            Keycode::Pause => 197,
            Keycode::Home => 199,
            Keycode::Up => 200,
            Keycode::PageUp => 201,
            Keycode::Left => 203,
            Keycode::Right => 205,
            Keycode::End => 207,
            Keycode::Down => 208,
            Keycode::PageDown => 209,
            Keycode::Insert => 210,
            Keycode::Delete => 211,
            Keycode::LeftSuper => 219,
            Keycode::RightSuper => 220,
        }
    }
}

} // verus!
