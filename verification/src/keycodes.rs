//! Keyboard scancodes, keycodes and their ASCII values.
//!
//! Modifier keys are kept in a compact bit set, [`KeyboardModifiers`]; a raw
//! PS/2 scancode is turned into a [`Keycode`] by [`Keycode::from_scancode`],
//! and a keycode together with the held modifiers gives an ASCII byte by
//! [`Keycode::to_ascii`].

use vstd::prelude::*;

verus! {

/// The set of modifier keys that can be held down while other keys are pressed.
///
/// To save space this is a set of bits rather than a series of booleans.
#[derive(Clone, Copy, Debug, PartialEq, Eq, Hash)]
pub struct KeyboardModifiers {
    bits: u16,
}

/// Left Control key.
pub const CONTROL_LEFT: u16 = 0x0001;
/// Right Control key.
pub const CONTROL_RIGHT: u16 = 0x0002;
/// Left Shift key.
pub const SHIFT_LEFT: u16 = 0x0004;
/// Right Shift key.
pub const SHIFT_RIGHT: u16 = 0x0008;
/// Alt key.
pub const ALT: u16 = 0x0010;
/// AltGr key.
pub const ALT_GR: u16 = 0x0020;
/// Left Super key.
pub const SUPER_KEY_LEFT: u16 = 0x0040;
/// Right Super key.
pub const SUPER_KEY_RIGHT: u16 = 0x0080;
/// Caps Lock.
pub const CAPS_LOCK: u16 = 0x0100;
/// Num Lock.
pub const NUM_LOCK: u16 = 0x0200;
/// Scroll Lock.
pub const SCROLL_LOCK: u16 = 0x0400;
/// Every modifier bit that has a meaning.
pub const ALL_MODIFIERS: u16 = 0x07FF;

/// Whether the bit set `bits` shares a bit with `flags`.
pub open spec fn any_of(bits: u16, flags: u16) -> bool {
    bits & flags != 0
}

impl KeyboardModifiers {
    /// The raw bits of this set.
    pub closed spec fn spec_bits(&self) -> u16 {
        self.bits
    }

    /// Whether a Shift key is held in this set.
    pub open spec fn shift_held(&self) -> bool {
        any_of(self.spec_bits(), SHIFT_LEFT | SHIFT_RIGHT)
    }

    /// Whether Caps Lock is on in this set.
    pub open spec fn caps_lock_on(&self) -> bool {
        any_of(self.spec_bits(), CAPS_LOCK)
    }

    /// Returns a new `KeyboardModifiers` with no keys pressed.
    pub fn new() -> (r: KeyboardModifiers)
        ensures
            r.spec_bits() == 0,
    {
        KeyboardModifiers { bits: 0 }
    }

    /// Returns the set with no keys pressed.
    pub fn empty() -> (r: KeyboardModifiers)
        ensures
            r.spec_bits() == 0,
    {
        KeyboardModifiers { bits: 0 }
    }

    /// Returns the set holding the meaningful bits of `bits`; the others are dropped.
    pub fn from_bits_truncate(bits: u16) -> (r: KeyboardModifiers)
        ensures
            r.spec_bits() == bits & ALL_MODIFIERS,
    {
        KeyboardModifiers { bits: bits & ALL_MODIFIERS }
    }

    /// The raw bits of this set.
    pub fn bits(&self) -> (r: u16)
        ensures
            r == self.spec_bits(),
    {
        self.bits
    }

    /// Whether this set shares a key with `flags`.
    pub fn intersects(&self, flags: u16) -> (r: bool)
        ensures
            r == any_of(self.spec_bits(), flags),
    {
        self.bits & flags != 0
    }

    /// Whether every key of `flags` is in this set.
    pub fn contains(&self, flags: u16) -> (r: bool)
        ensures
            r == (self.spec_bits() & flags == flags),
    {
        self.bits & flags == flags
    }

    /// Adds the keys of `flags` (as far as they have a meaning) to this set.
    pub fn insert(&mut self, flags: u16)
        ensures
            final(self).spec_bits() == old(self).spec_bits() | (flags & ALL_MODIFIERS),
    {
        self.bits = self.bits | (flags & ALL_MODIFIERS);
    }

    /// Removes the keys of `flags` from this set.
    pub fn remove(&mut self, flags: u16)
        ensures
            final(self).spec_bits() == old(self).spec_bits() & !flags,
    {
        self.bits = self.bits & !flags;
    }

    /// Returns `true` if a `Shift` key is held down (either left or right).
    pub fn is_shift(&self) -> (r: bool)
        ensures
            r == self.shift_held(),
    {
        self.intersects(SHIFT_LEFT | SHIFT_RIGHT)
    }

    /// Returns `true` if a `Control` key is held down (either left or right).
    pub fn is_control(&self) -> (r: bool)
        ensures
            r == any_of(self.spec_bits(), CONTROL_LEFT | CONTROL_RIGHT),
    {
        self.intersects(CONTROL_LEFT | CONTROL_RIGHT)
    }

    /// Returns `true` if the `Alt` key is held down.
    pub fn is_alt(&self) -> (r: bool)
        ensures
            r == any_of(self.spec_bits(), ALT),
    {
        self.intersects(ALT)
    }

    /// Returns `true` if the `AltGr` key is held down.
    pub fn is_alt_gr(&self) -> (r: bool)
        ensures
            r == any_of(self.spec_bits(), ALT_GR),
    {
        self.intersects(ALT_GR)
    }

    /// Returns `true` if a Super key is held down (either left or right).
    ///
    /// Examples include the Windows key, the Meta key, the command key, etc.
    pub fn is_super_key(&self) -> (r: bool)
        ensures
            r == any_of(self.spec_bits(), SUPER_KEY_LEFT | SUPER_KEY_RIGHT),
    {
        self.intersects(SUPER_KEY_LEFT | SUPER_KEY_RIGHT)
    }

    /// Returns `true` if the `Caps Lock` key is held down.
    pub fn is_caps_lock(&self) -> (r: bool)
        ensures
            r == self.caps_lock_on(),
    {
        self.intersects(CAPS_LOCK)
    }

    /// Returns `true` if the `Num Lock` key is held down.
    pub fn is_num_lock(&self) -> (r: bool)
        ensures
            r == any_of(self.spec_bits(), NUM_LOCK),
    {
        self.intersects(NUM_LOCK)
    }

    /// Returns `true` if the `Scroll Lock` key is held down.
    pub fn is_scroll_lock(&self) -> (r: bool)
        ensures
            r == any_of(self.spec_bits(), SCROLL_LOCK),
    {
        self.intersects(SCROLL_LOCK)
    }
}

/// Whether a keyboard event was a key press or a key release.
#[derive(Debug, Copy, Clone, PartialEq, Eq, Structural)]
pub enum KeyAction {
    Pressed,
    Released,
}

/// The key event that is delivered to applications upon a keyboard action.
#[derive(Debug, Copy, Clone)]
pub struct KeyEvent {
    pub keycode: Keycode,
    pub action: KeyAction,
    pub modifiers: KeyboardModifiers,
}

impl KeyEvent {
    /// Bundles a keycode, what happened to the key and the held modifiers.
    pub fn new(keycode: Keycode, action: KeyAction, modifiers: KeyboardModifiers) -> (r: KeyEvent)
        ensures
            r.keycode == keycode,
            r.action == action,
            r.modifiers == modifiers,
    {
        KeyEvent { keycode, action, modifiers }
    }
}

/// The offset that a keyboard adds to the scancode to indicate that the key
/// was released rather than pressed: if scancode `1` means that key `foo` was
/// pressed, scancode `129` (1 + 128) means that `foo` was released.
pub const KEY_RELEASED_OFFSET: u8 = 128;

/// The number of scancodes that name a key; scancodes `0..NUM_SCANCODES` do.
pub const NUM_SCANCODES: u8 = 94;

/// A key of a PC keyboard, in the order of the scancodes that name them.
#[derive(Debug, PartialEq, Eq, Clone, Copy, Structural)]
pub enum Keycode {
        OverflowError,
        Escape,
        Num1,
        Num2,
        Num3,
        Num4,
        Num5,
        Num6,
        Num7,
        Num8,
        Num9,
        Num0,
        Minus,
        Equals,
        Backspace,
        Tab,
        Q,
        W,
        E,
        R,
        T,
        Y,
        U,
        I,
        O,
        P,
        LeftBracket,
        RightBracket,
        Enter,
        Control,
        A,
        S,
        D,
        F,
        G,
        H,
        J,
        K,
        L,
        Semicolon,
        Quote,
        Backtick,
        LeftShift,
        Backslash,
        Z,
        X,
        C,
        V,
        B,
        N,
        M,
        Comma,
        Period,
        Slash,
        RightShift,
        PadMultiply,
        Alt,
        Space,
        CapsLock,
        F1,
        F2,
        F3,
        F4,
        F5,
        F6,
        F7,
        F8,
        F9,
        F10,
        NumLock,
        ScrollLock,
        Home,
        Up,
        PageUp,
        PadMinus,
        Left,
        Pad5,
        Right,
        PadPlus,
        End,
        Down,
        PageDown,
        Insert,
        Delete,
        Unknown1,
        Unknown2,
        NonUsBackslash,
        F11,
        F12,
        Pause,
        Unknown3,
        SuperKeyLeft,
        SuperKeyRight,
        Menu,
    }

/// The scancode that names keycode `k`.
pub open spec fn keycode_scancode(k: Keycode) -> u8 {
    match k {
            Keycode::OverflowError => 0u8,
            Keycode::Escape => 1u8,
            Keycode::Num1 => 2u8,
            Keycode::Num2 => 3u8,
            Keycode::Num3 => 4u8,
            Keycode::Num4 => 5u8,
            Keycode::Num5 => 6u8,
            Keycode::Num6 => 7u8,
            Keycode::Num7 => 8u8,
            Keycode::Num8 => 9u8,
            Keycode::Num9 => 10u8,
            Keycode::Num0 => 11u8,
            Keycode::Minus => 12u8,
            Keycode::Equals => 13u8,
            Keycode::Backspace => 14u8,
            Keycode::Tab => 15u8,
            Keycode::Q => 16u8,
            Keycode::W => 17u8,
            Keycode::E => 18u8,
            Keycode::R => 19u8,
            Keycode::T => 20u8,
            Keycode::Y => 21u8,
            Keycode::U => 22u8,
            Keycode::I => 23u8,
            Keycode::O => 24u8,
            Keycode::P => 25u8,
            Keycode::LeftBracket => 26u8,
            Keycode::RightBracket => 27u8,
            Keycode::Enter => 28u8,
            Keycode::Control => 29u8,
            Keycode::A => 30u8,
            Keycode::S => 31u8,
            Keycode::D => 32u8,
            Keycode::F => 33u8,
            Keycode::G => 34u8,
            Keycode::H => 35u8,
            Keycode::J => 36u8,
            Keycode::K => 37u8,
            Keycode::L => 38u8,
            Keycode::Semicolon => 39u8,
            Keycode::Quote => 40u8,
            Keycode::Backtick => 41u8,
            Keycode::LeftShift => 42u8,
            Keycode::Backslash => 43u8,
            Keycode::Z => 44u8,
            Keycode::X => 45u8,
            Keycode::C => 46u8,
            Keycode::V => 47u8,
            Keycode::B => 48u8,
            Keycode::N => 49u8,
            Keycode::M => 50u8,
            Keycode::Comma => 51u8,
            Keycode::Period => 52u8,
            Keycode::Slash => 53u8,
            Keycode::RightShift => 54u8,
            Keycode::PadMultiply => 55u8,
            Keycode::Alt => 56u8,
            Keycode::Space => 57u8,
            Keycode::CapsLock => 58u8,
            Keycode::F1 => 59u8,
            Keycode::F2 => 60u8,
            Keycode::F3 => 61u8,
            Keycode::F4 => 62u8,
            Keycode::F5 => 63u8,
            Keycode::F6 => 64u8,
            Keycode::F7 => 65u8,
            Keycode::F8 => 66u8,
            Keycode::F9 => 67u8,
            Keycode::F10 => 68u8,
            Keycode::NumLock => 69u8,
            Keycode::ScrollLock => 70u8,
            Keycode::Home => 71u8,
            Keycode::Up => 72u8,
            Keycode::PageUp => 73u8,
            Keycode::PadMinus => 74u8,
            Keycode::Left => 75u8,
            Keycode::Pad5 => 76u8,
            Keycode::Right => 77u8,
            Keycode::PadPlus => 78u8,
            Keycode::End => 79u8,
            Keycode::Down => 80u8,
            Keycode::PageDown => 81u8,
            Keycode::Insert => 82u8,
            Keycode::Delete => 83u8,
            Keycode::Unknown1 => 84u8,
            Keycode::Unknown2 => 85u8,
            Keycode::NonUsBackslash => 86u8,
            Keycode::F11 => 87u8,
            Keycode::F12 => 88u8,
            Keycode::Pause => 89u8,
            Keycode::Unknown3 => 90u8,
            Keycode::SuperKeyLeft => 91u8,
            Keycode::SuperKeyRight => 92u8,
            Keycode::Menu => 93u8,
    }
}

/// The keycode that scancode `s` names (meaningful for `s < NUM_SCANCODES`).
pub open spec fn keycode_of(s: u8) -> Keycode {
    choose|k: Keycode| keycode_scancode(k) == s
}

/// Whether `k` is one of the letters A to Z.
pub open spec fn spec_is_letter(k: Keycode) -> bool {
    match k {
        Keycode::Q |
            Keycode::W |
            Keycode::E |
            Keycode::R |
            Keycode::T |
            Keycode::Y |
            Keycode::U |
            Keycode::I |
            Keycode::O |
            Keycode::P |
            Keycode::A |
            Keycode::S |
            Keycode::D |
            Keycode::F |
            Keycode::G |
            Keycode::H |
            Keycode::J |
            Keycode::K |
            Keycode::L |
            Keycode::Z |
            Keycode::X |
            Keycode::C |
            Keycode::V |
            Keycode::B |
            Keycode::N |
            Keycode::M => true,
        _ => false,
    }
}

/// The ASCII byte of `k` with no modifier held.
pub open spec fn spec_as_ascii(k: Keycode) -> Option<u8> {
    match k {
        Keycode::Escape => Some(27), // escape
        Keycode::Num1 => Some(49), // 1
        Keycode::Num2 => Some(50), // 2
        Keycode::Num3 => Some(51), // 3
        Keycode::Num4 => Some(52), // 4
        Keycode::Num5 => Some(53), // 5
        Keycode::Num6 => Some(54), // 6
        Keycode::Num7 => Some(55), // 7
        Keycode::Num8 => Some(56), // 8
        Keycode::Num9 => Some(57), // 9
        Keycode::Num0 => Some(48), // 0
        Keycode::Minus => Some(45), // -
        Keycode::Equals => Some(61), // =
        Keycode::Backspace => Some(8), // backspace
        Keycode::Tab => Some(9), // tab
        Keycode::Q => Some(113), // q
        Keycode::W => Some(119), // w
        Keycode::E => Some(101), // e
        Keycode::R => Some(114), // r
        Keycode::T => Some(116), // t
        Keycode::Y => Some(121), // y
        Keycode::U => Some(117), // u
        Keycode::I => Some(105), // i
        Keycode::O => Some(111), // o
        Keycode::P => Some(112), // p
        Keycode::LeftBracket => Some(91), // [
        Keycode::RightBracket => Some(93), // ]
        Keycode::Enter => Some(10), // newline
        Keycode::A => Some(97), // a
        Keycode::S => Some(115), // s
        Keycode::D => Some(100), // d
        Keycode::F => Some(102), // f
        Keycode::G => Some(103), // g
        Keycode::H => Some(104), // h
        Keycode::J => Some(106), // j
        Keycode::K => Some(107), // k
        Keycode::L => Some(108), // l
        Keycode::Semicolon => Some(59), // ;
        Keycode::Quote => Some(39), // quote
        Keycode::Backtick => Some(96), // `
        Keycode::Backslash => Some(92), // backslash
        Keycode::Z => Some(122), // z
        Keycode::X => Some(120), // x
        Keycode::C => Some(99), // c
        Keycode::V => Some(118), // v
        Keycode::B => Some(98), // b
        Keycode::N => Some(110), // n
        Keycode::M => Some(109), // m
        Keycode::Comma => Some(44), // ,
        Keycode::Period => Some(46), // .
        Keycode::Slash => Some(47), // /
        Keycode::Space => Some(32), // space
        Keycode::PadMultiply => Some(42), // *
        Keycode::PadMinus => Some(45), // -
        Keycode::PadPlus => Some(43), // +
        _ => None,
    }
}

/// The ASCII byte of `k` with Shift held; a key that Shift does not change
/// keeps its plain value.
pub open spec fn spec_as_ascii_shifted(k: Keycode) -> Option<u8> {
    match k {
        Keycode::Num1 => Some(33), // !
        Keycode::Num2 => Some(64), // @
        Keycode::Num3 => Some(35), // #
        Keycode::Num4 => Some(36), // $
        Keycode::Num5 => Some(37), // %
        Keycode::Num6 => Some(94), // ^
        Keycode::Num7 => Some(38), // &
        Keycode::Num8 => Some(42), // *
        Keycode::Num9 => Some(40), // (
        Keycode::Num0 => Some(41), // )
        Keycode::Minus => Some(95), // _
        Keycode::Equals => Some(43), // +
        Keycode::Q => Some(81), // Q
        Keycode::W => Some(87), // W
        Keycode::E => Some(69), // E
        Keycode::R => Some(82), // R
        Keycode::T => Some(84), // T
        Keycode::Y => Some(89), // Y
        Keycode::U => Some(85), // U
        Keycode::I => Some(73), // I
        Keycode::O => Some(79), // O
        Keycode::P => Some(80), // P
        Keycode::LeftBracket => Some(123), // {
        Keycode::RightBracket => Some(125), // }
        Keycode::A => Some(65), // A
        Keycode::S => Some(83), // S
        Keycode::D => Some(68), // D
        Keycode::F => Some(70), // F
        Keycode::G => Some(71), // G
        Keycode::H => Some(72), // H
        Keycode::J => Some(74), // J
        Keycode::K => Some(75), // K
        Keycode::L => Some(76), // L
        Keycode::Semicolon => Some(58), // :
        Keycode::Quote => Some(34), // "
        Keycode::Backtick => Some(126), // ~
        Keycode::Backslash => Some(124), // |
        Keycode::Z => Some(90), // Z
        Keycode::X => Some(88), // X
        Keycode::C => Some(67), // C
        Keycode::V => Some(86), // V
        Keycode::B => Some(66), // B
        Keycode::N => Some(78), // N
        Keycode::M => Some(77), // M
        Keycode::Comma => Some(60), // <
        Keycode::Period => Some(62), // >
        Keycode::Slash => Some(63), // ?
        _ => spec_as_ascii(k),
    }
}

/// The ASCII byte of `k` under `modifiers`: Caps Lock inverts Shift on
/// letters only, and the shifted table is used when the result is "shifted".
pub open spec fn spec_to_ascii(k: Keycode, modifiers: KeyboardModifiers) -> Option<u8> {
    if modifiers.shift_held() != (modifiers.caps_lock_on() && spec_is_letter(k)) {
        spec_as_ascii_shifted(k)
    } else {
        spec_as_ascii(k)
    }
}

/// Convenience function that gives the ASCII value of a raw scancode under
/// the given modifiers.
pub fn scancode_to_ascii(modifiers: KeyboardModifiers, scan_code: u8) -> (r: Option<u8>)
    ensures
        scan_code >= NUM_SCANCODES ==> r is None,
        scan_code < NUM_SCANCODES ==> r == spec_to_ascii(keycode_of(scan_code), modifiers),
{
    match Keycode::from_scancode(scan_code) {
        Some(k) => k.to_ascii(modifiers),
        None => None,
    }
}

impl Keycode {
    /// The keycode that `scancode` names, if it names one.
    pub fn from_scancode(scancode: u8) -> (r: Option<Keycode>)
        ensures
            r == (if scancode < NUM_SCANCODES { Some(keycode_of(scancode)) } else { None }),
    {
        let r = match scancode {
            0 => Some(Keycode::OverflowError),
            1 => Some(Keycode::Escape),
            2 => Some(Keycode::Num1),
            3 => Some(Keycode::Num2),
            4 => Some(Keycode::Num3),
            5 => Some(Keycode::Num4),
            6 => Some(Keycode::Num5),
            7 => Some(Keycode::Num6),
            8 => Some(Keycode::Num7),
            9 => Some(Keycode::Num8),
            10 => Some(Keycode::Num9),
            11 => Some(Keycode::Num0),
            12 => Some(Keycode::Minus),
            13 => Some(Keycode::Equals),
            14 => Some(Keycode::Backspace),
            15 => Some(Keycode::Tab),
            16 => Some(Keycode::Q),
            17 => Some(Keycode::W),
            18 => Some(Keycode::E),
            19 => Some(Keycode::R),
            20 => Some(Keycode::T),
            21 => Some(Keycode::Y),
            22 => Some(Keycode::U),
            23 => Some(Keycode::I),
            24 => Some(Keycode::O),
            25 => Some(Keycode::P),
            26 => Some(Keycode::LeftBracket),
            27 => Some(Keycode::RightBracket),
            28 => Some(Keycode::Enter),
            29 => Some(Keycode::Control),
            30 => Some(Keycode::A),
            31 => Some(Keycode::S),
            32 => Some(Keycode::D),
            33 => Some(Keycode::F),
            34 => Some(Keycode::G),
            35 => Some(Keycode::H),
            36 => Some(Keycode::J),
            37 => Some(Keycode::K),
            38 => Some(Keycode::L),
            39 => Some(Keycode::Semicolon),
            40 => Some(Keycode::Quote),
            41 => Some(Keycode::Backtick),
            42 => Some(Keycode::LeftShift),
            43 => Some(Keycode::Backslash),
            44 => Some(Keycode::Z),
            45 => Some(Keycode::X),
            46 => Some(Keycode::C),
            47 => Some(Keycode::V),
            48 => Some(Keycode::B),
            49 => Some(Keycode::N),
            50 => Some(Keycode::M),
            51 => Some(Keycode::Comma),
            52 => Some(Keycode::Period),
            53 => Some(Keycode::Slash),
            54 => Some(Keycode::RightShift),
            55 => Some(Keycode::PadMultiply),
            56 => Some(Keycode::Alt),
            57 => Some(Keycode::Space),
            58 => Some(Keycode::CapsLock),
            59 => Some(Keycode::F1),
            60 => Some(Keycode::F2),
            61 => Some(Keycode::F3),
            62 => Some(Keycode::F4),
            63 => Some(Keycode::F5),
            64 => Some(Keycode::F6),
            65 => Some(Keycode::F7),
            66 => Some(Keycode::F8),
            67 => Some(Keycode::F9),
            68 => Some(Keycode::F10),
            69 => Some(Keycode::NumLock),
            70 => Some(Keycode::ScrollLock),
            71 => Some(Keycode::Home),
            72 => Some(Keycode::Up),
            73 => Some(Keycode::PageUp),
            74 => Some(Keycode::PadMinus),
            75 => Some(Keycode::Left),
            76 => Some(Keycode::Pad5),
            77 => Some(Keycode::Right),
            78 => Some(Keycode::PadPlus),
            79 => Some(Keycode::End),
            80 => Some(Keycode::Down),
            81 => Some(Keycode::PageDown),
            82 => Some(Keycode::Insert),
            83 => Some(Keycode::Delete),
            84 => Some(Keycode::Unknown1),
            85 => Some(Keycode::Unknown2),
            86 => Some(Keycode::NonUsBackslash),
            87 => Some(Keycode::F11),
            88 => Some(Keycode::F12),
            89 => Some(Keycode::Pause),
            90 => Some(Keycode::Unknown3),
            91 => Some(Keycode::SuperKeyLeft),
            92 => Some(Keycode::SuperKeyRight),
            93 => Some(Keycode::Menu),
            _ => None,
        };
        proof {
            if let Some(k) = r {
                lemma_keycode_of_scancode(k);
            }
        }
        r
    }

    /// Obtains the ASCII value for a keycode under the given modifiers.
    pub fn to_ascii(&self, modifiers: KeyboardModifiers) -> (r: Option<u8>)
        ensures
            r == spec_to_ascii(*self, modifiers),
    {
        // handle shift key being pressed
        if modifiers.is_shift() {
            // shift with caps lock gives a regular lowercase letter
            if modifiers.is_caps_lock() && self.is_letter() {
                return self.as_ascii();
            }
            // otherwise shift gives the shifted key
            else {
                return self.as_ascii_shifted();
            }
        }
        // caps lock alone shifts letters only
        if modifiers.is_caps_lock() {
            if self.is_letter() {
                return self.as_ascii_shifted();
            } else {
                return self.as_ascii();
            }
        }
        self.as_ascii()
    }

    /// Returns true if this keycode is a letter from A to Z.
    pub fn is_letter(&self) -> (r: bool)
        ensures
            r == spec_is_letter(*self),
    {
        match *self {
            Keycode::Q |
            Keycode::W |
            Keycode::E |
            Keycode::R |
            Keycode::T |
            Keycode::Y |
            Keycode::U |
            Keycode::I |
            Keycode::O |
            Keycode::P |
            Keycode::A |
            Keycode::S |
            Keycode::D |
            Keycode::F |
            Keycode::G |
            Keycode::H |
            Keycode::J |
            Keycode::K |
            Keycode::L |
            Keycode::Z |
            Keycode::X |
            Keycode::C |
            Keycode::V |
            Keycode::B |
            Keycode::N |
            Keycode::M => true,
            _ => false,
        }
    }

    /// Maps a keycode to its ASCII value without any "shift" modifier.
    fn as_ascii(&self) -> (r: Option<u8>)
        ensures
            r == spec_as_ascii(*self),
    {
        match *self {
            Keycode::Escape => Some(27), // escape
            Keycode::Num1 => Some(49), // 1
            Keycode::Num2 => Some(50), // 2
            Keycode::Num3 => Some(51), // 3
            Keycode::Num4 => Some(52), // 4
            Keycode::Num5 => Some(53), // 5
            Keycode::Num6 => Some(54), // 6
            Keycode::Num7 => Some(55), // 7
            Keycode::Num8 => Some(56), // 8
            Keycode::Num9 => Some(57), // 9
            Keycode::Num0 => Some(48), // 0
            Keycode::Minus => Some(45), // -
            Keycode::Equals => Some(61), // =
            Keycode::Backspace => Some(8), // backspace
            Keycode::Tab => Some(9), // tab
            Keycode::Q => Some(113), // q
            Keycode::W => Some(119), // w
            Keycode::E => Some(101), // e
            Keycode::R => Some(114), // r
            Keycode::T => Some(116), // t
            Keycode::Y => Some(121), // y
            Keycode::U => Some(117), // u
            Keycode::I => Some(105), // i
            Keycode::O => Some(111), // o
            Keycode::P => Some(112), // p
            Keycode::LeftBracket => Some(91), // [
            Keycode::RightBracket => Some(93), // ]
            Keycode::Enter => Some(10), // newline
            Keycode::A => Some(97), // a
            Keycode::S => Some(115), // s
            Keycode::D => Some(100), // d
            Keycode::F => Some(102), // f
            Keycode::G => Some(103), // g
            Keycode::H => Some(104), // h
            Keycode::J => Some(106), // j
            Keycode::K => Some(107), // k
            Keycode::L => Some(108), // l
            Keycode::Semicolon => Some(59), // ;
            Keycode::Quote => Some(39), // quote
            Keycode::Backtick => Some(96), // `
            Keycode::Backslash => Some(92), // backslash
            Keycode::Z => Some(122), // z
            Keycode::X => Some(120), // x
            Keycode::C => Some(99), // c
            Keycode::V => Some(118), // v
            Keycode::B => Some(98), // b
            Keycode::N => Some(110), // n
            Keycode::M => Some(109), // m
            Keycode::Comma => Some(44), // ,
            Keycode::Period => Some(46), // .
            Keycode::Slash => Some(47), // /
            Keycode::Space => Some(32), // space
            Keycode::PadMultiply => Some(42), // *
            Keycode::PadMinus => Some(45), // -
            Keycode::PadPlus => Some(43), // +
            _ => None,
        }
    }

    /// Same as `as_ascii`, but with the effect of the "shift" modifier key.
    /// A keycode whose value does not change when shifted keeps the value
    /// that `as_ascii` gives.
    fn as_ascii_shifted(&self) -> (r: Option<u8>)
        ensures
            r == spec_as_ascii_shifted(*self),
    {
        match *self {
            Keycode::Num1 => Some(33), // !
            Keycode::Num2 => Some(64), // @
            Keycode::Num3 => Some(35), // #
            Keycode::Num4 => Some(36), // $
            Keycode::Num5 => Some(37), // %
            Keycode::Num6 => Some(94), // ^
            Keycode::Num7 => Some(38), // &
            Keycode::Num8 => Some(42), // *
            Keycode::Num9 => Some(40), // (
            Keycode::Num0 => Some(41), // )
            Keycode::Minus => Some(95), // _
            Keycode::Equals => Some(43), // +
            Keycode::Q => Some(81), // Q
            Keycode::W => Some(87), // W
            Keycode::E => Some(69), // E
            Keycode::R => Some(82), // R
            Keycode::T => Some(84), // T
            Keycode::Y => Some(89), // Y
            Keycode::U => Some(85), // U
            Keycode::I => Some(73), // I
            Keycode::O => Some(79), // O
            Keycode::P => Some(80), // P
            Keycode::LeftBracket => Some(123), // {
            Keycode::RightBracket => Some(125), // }
            Keycode::A => Some(65), // A
            Keycode::S => Some(83), // S
            Keycode::D => Some(68), // D
            Keycode::F => Some(70), // F
            Keycode::G => Some(71), // G
            Keycode::H => Some(72), // H
            Keycode::J => Some(74), // J
            Keycode::K => Some(75), // K
            Keycode::L => Some(76), // L
            Keycode::Semicolon => Some(58), // :
            Keycode::Quote => Some(34), // "
            Keycode::Backtick => Some(126), // ~
            Keycode::Backslash => Some(124), // |
            Keycode::Z => Some(90), // Z
            Keycode::X => Some(88), // X
            Keycode::C => Some(67), // C
            Keycode::V => Some(86), // V
            Keycode::B => Some(66), // B
            Keycode::N => Some(78), // N
            Keycode::M => Some(77), // M
            Keycode::Comma => Some(60), // <
            Keycode::Period => Some(62), // >
            Keycode::Slash => Some(63), // ?
            _ => self.as_ascii(),
        }
    }
}

/// Distinct keycodes have distinct scancodes.
pub proof fn lemma_keycode_scancode_injective(a: Keycode, b: Keycode)
    requires
        keycode_scancode(a) == keycode_scancode(b),
    ensures
        a == b,
{
}

/// Every keycode has a scancode below `NUM_SCANCODES`, and that scancode
/// names it: decoding a keycode's scancode gives the keycode back.
pub proof fn lemma_keycode_of_scancode(k: Keycode)
    ensures
        keycode_scancode(k) < NUM_SCANCODES,
        keycode_of(keycode_scancode(k)) == k,
{
    let s = keycode_scancode(k);
    assert(keycode_scancode(k) == s);
    let j = keycode_of(s);
    lemma_keycode_scancode_injective(j, k);
}

/// Every letter has a lowercase ASCII byte, and Shift turns it into the
/// matching uppercase byte.
pub proof fn lemma_shift_uppercases_letters(k: Keycode)
    requires
        spec_is_letter(k),
    ensures
        spec_as_ascii(k) is Some,
        97 <= spec_as_ascii(k)->0 <= 122,
        spec_as_ascii_shifted(k) == Some((spec_as_ascii(k)->0 - 32) as u8),
{
}

/// A key has a shifted ASCII byte exactly when it has a plain one.
pub proof fn lemma_shifted_defined_iff_plain(k: Keycode)
    ensures
        spec_as_ascii_shifted(k) is Some <==> spec_as_ascii(k) is Some,
{
}

/// Caps Lock inverts Shift on letters: with both held a letter gives its
/// lowercase byte, with exactly one of them its uppercase byte; on any other
/// key Caps Lock has no effect.
pub proof fn lemma_caps_lock_inverts_shift(k: Keycode, modifiers: KeyboardModifiers)
    ensures
        spec_is_letter(k) && modifiers.shift_held() && modifiers.caps_lock_on()
            ==> spec_to_ascii(k, modifiers) == spec_as_ascii(k),
        spec_is_letter(k) && (modifiers.shift_held() != modifiers.caps_lock_on())
            ==> spec_to_ascii(k, modifiers) == spec_as_ascii_shifted(k),
        !spec_is_letter(k) ==> spec_to_ascii(k, modifiers) == (if modifiers.shift_held() {
            spec_as_ascii_shifted(k)
        } else {
            spec_as_ascii(k)
        }),
{
}

/// With no modifier held a key gives its plain ASCII byte.
pub proof fn lemma_no_modifiers_gives_plain(k: Keycode, modifiers: KeyboardModifiers)
    requires
        modifiers.spec_bits() == 0,
    ensures
        spec_to_ascii(k, modifiers) == spec_as_ascii(k),
{
    assert(0u16 & (SHIFT_LEFT | SHIFT_RIGHT) == 0) by (bit_vector);
    assert(0u16 & CAPS_LOCK == 0) by (bit_vector);
}

/// The character a US keyboard gives for `c` with Shift held: the uppercase
/// of a lowercase letter, the symbol printed above a digit or punctuation
/// mark; any other character is unchanged.
pub open spec fn us_shifted_char(c: u8) -> u8 {
    if ('a' as u8) <= c && c <= ('z' as u8) {
        (c - 32) as u8
    } else if c == ('1' as u8) {
        ('!' as u8)
    } else if c == ('2' as u8) {
        ('@' as u8)
    } else if c == ('3' as u8) {
        ('#' as u8)
    } else if c == ('4' as u8) {
        ('$' as u8)
    } else if c == ('5' as u8) {
        ('%' as u8)
    } else if c == ('6' as u8) {
        ('^' as u8)
    } else if c == ('7' as u8) {
        ('&' as u8)
    } else if c == ('8' as u8) {
        ('*' as u8)
    } else if c == ('9' as u8) {
        ('(' as u8)
    } else if c == ('0' as u8) {
        (')' as u8)
    } else if c == ('-' as u8) {
        ('_' as u8)
    } else if c == ('=' as u8) {
        ('+' as u8)
    } else if c == ('[' as u8) {
        ('{' as u8)
    } else if c == (']' as u8) {
        ('}' as u8)
    } else if c == (';' as u8) {
        (':' as u8)
    } else if c == ('\'' as u8) {
        ('"' as u8)
    } else if c == ('`' as u8) {
        ('~' as u8)
    } else if c == ('\\' as u8) {
        ('|' as u8)
    } else if c == (',' as u8) {
        ('<' as u8)
    } else if c == ('.' as u8) {
        ('>' as u8)
    } else if c == ('/' as u8) {
        ('?' as u8)
    } else {
        c
    }
}

/// Whether `k` is a key of the numeric keypad.
pub open spec fn spec_is_keypad(k: Keycode) -> bool {
    k == Keycode::PadMultiply || k == Keycode::PadMinus || k == Keycode::PadPlus
}

/// Shift follows the US layout: off the keypad, a key gives with Shift the
/// shifted form of the character it gives without (the symbol above a digit
/// or punctuation mark, the uppercase of a letter, anything else unchanged),
/// both with Shift alone and through `to_ascii` on a non-letter with Shift
/// held; keypad keys give the same character with or without Shift.
pub proof fn lemma_shift_follows_us_layout(k: Keycode, modifiers: KeyboardModifiers)
    ensures
        !spec_is_keypad(k) ==> spec_as_ascii_shifted(k) == match spec_as_ascii(k) {
            Some(c) => Some(us_shifted_char(c)),
            None => None,
        },
        spec_is_keypad(k) ==> spec_as_ascii_shifted(k) == spec_as_ascii(k),
        !spec_is_keypad(k) && !spec_is_letter(k) && modifiers.shift_held() ==> spec_to_ascii(
            k,
            modifiers,
        ) == match spec_as_ascii(k) {
            Some(c) => Some(us_shifted_char(c)),
            None => None,
        },
{
}

/// The letter keys are exactly the keys whose plain byte is a lowercase
/// letter, and no two keys give the same plain byte, but for the two minus
/// keys (the main one and the keypad one).
pub proof fn lemma_plain_bytes(a: Keycode, b: Keycode)
    ensures
        spec_is_letter(a) <==> (spec_as_ascii(a) is Some && ('a' as u8) <= spec_as_ascii(a)->0 <= ('z' as u8)),
        spec_as_ascii(a) is Some && spec_as_ascii(a) == spec_as_ascii(b) && a != b ==> (a == Keycode::Minus
            && b == Keycode::PadMinus) || (a == Keycode::PadMinus && b == Keycode::Minus),
{
}

} // verus!
