//! Keyboard and mouse events and their encoding as the byte sequences a
//! terminal application reads from its input.

use vstd::prelude::*;
use vstd::utf8::*;
use crate::text::{char_utf8, decimal_bytes, encode_char_utf8, push_decimal_bytes};

verus! {

/// A keyboard key.
#[derive(Debug, Clone, Copy, PartialEq, Eq, Hash, Structural)]
pub enum KeyCode {
    /// A character key (letters, numbers, symbols).
    Char(char),
    /// Enter key (newline).
    Enter,
    /// Escape key.
    Esc,
    /// Tab key.
    Tab,
    /// Backspace key.
    Backspace,
    /// Delete key.
    Delete,
    /// Insert key.
    Insert,
    /// Up arrow key.
    Up,
    /// Down arrow key.
    Down,
    /// Left arrow key.
    Left,
    /// Right arrow key.
    Right,
    /// Home key.
    Home,
    /// End key.
    End,
    /// Page Up key.
    PageUp,
    /// Page Down key.
    PageDown,
    /// Function keys F1-F12.
    F(u8),
}

/// A set of modifier keys (Shift, Ctrl, Alt, Meta), one bit each.
#[derive(Debug, Clone, Copy, PartialEq, Eq, Hash, Structural)]
pub struct Modifiers {
    bits: u8,
}

/// The bits that name a modifier.
pub open spec fn modifier_mask() -> u8 {
    0x0f
}

impl Modifiers {
    /// The Shift key alone.
    pub fn shift() -> (m: Modifiers)
        ensures
            m.value() == 1,
            m.wf(),
    {
        assert(1u8 & !0x0fu8 == 0) by (bit_vector);
        Modifiers { bits: 1 }
    }

    /// The Control key alone.
    pub fn ctrl() -> (m: Modifiers)
        ensures
            m.value() == 2,
            m.wf(),
    {
        assert(2u8 & !0x0fu8 == 0) by (bit_vector);
        Modifiers { bits: 2 }
    }

    /// The Alt/Option key alone.
    pub fn alt() -> (m: Modifiers)
        ensures
            m.value() == 4,
            m.wf(),
    {
        assert(4u8 & !0x0fu8 == 0) by (bit_vector);
        Modifiers { bits: 4 }
    }

    /// The Meta/Command/Windows key alone.
    pub fn meta() -> (m: Modifiers)
        ensures
            m.value() == 8,
            m.wf(),
    {
        assert(8u8 & !0x0fu8 == 0) by (bit_vector);
        Modifiers { bits: 8 }
    }

    /// The raw bits of this set.
    pub closed spec fn value(self) -> u8 {
        self.bits
    }

    /// Every set only holds modifier bits.
    pub closed spec fn wf(self) -> bool {
        self.bits & !modifier_mask() == 0
    }

    /// The empty set.
    pub fn empty() -> (m: Modifiers)
        ensures
            m.value() == 0,
            m.wf(),
    {
        let m = Modifiers { bits: 0 };
        assert(0u8 & !0x0fu8 == 0) by (bit_vector);
        m
    }

    /// The set of all four modifiers.
    pub fn all() -> (m: Modifiers)
        ensures
            m.value() == 0x0f,
            m.wf(),
    {
        assert(0x0fu8 & !0x0fu8 == 0) by (bit_vector);
        Modifiers { bits: 0x0f }
    }

    /// The raw bits of this set.
    pub fn bits(&self) -> (b: u8)
        ensures
            b == self.value(),
    {
        self.bits
    }

    /// The set made of the modifier bits of `bits`; other bits are dropped.
    pub fn from_bits_truncate(bits: u8) -> (m: Modifiers)
        ensures
            m.value() == bits & 0x0f,
            m.wf(),
    {
        assert((bits & 0x0f) & !0x0fu8 == 0) by (bit_vector);
        Modifiers { bits: bits & 0x0f }
    }

    /// The set made of `bits`, if it holds no bit outside the modifiers.
    pub fn from_bits(bits: u8) -> (m: Option<Modifiers>)
        ensures
            m matches Some(x) ==> x.value() == bits && x.wf(),
            m is Some <==> bits & !0x0fu8 == 0,
    {
        if bits & !0x0fu8 == 0 {
            Some(Modifiers { bits })
        } else {
            None
        }
    }

    /// Whether no modifier is set.
    pub fn is_empty(&self) -> (r: bool)
        ensures
            r == (self.value() == 0),
    {
        self.bits == 0
    }

    /// Whether every modifier of `other` is set in `self`.
    pub fn contains(&self, other: Modifiers) -> (r: bool)
        ensures
            r == (self.value() & other.value() == other.value()),
    {
        self.bits & other.bits == other.bits
    }

    /// Whether `self` and `other` share a modifier.
    pub fn intersects(&self, other: Modifiers) -> (r: bool)
        ensures
            r == (self.value() & other.value() != 0),
    {
        self.bits & other.bits != 0
    }

    /// The modifiers of either set.
    pub fn union(self, other: Modifiers) -> (r: Modifiers)
        ensures
            r.value() == self.value() | other.value(),
            self.wf() && other.wf() ==> r.wf(),
    {
        let a = self.bits;
        let b = other.bits;
        assert(a & !0x0fu8 == 0 && b & !0x0fu8 == 0 ==> (a | b) & !0x0fu8 == 0) by (bit_vector);
        Modifiers { bits: a | b }
    }

    /// Adds the modifiers of `other`.
    pub fn insert(&mut self, other: Modifiers)
        ensures
            final(self).value() == old(self).value() | other.value(),
    {
        self.bits = self.bits | other.bits;
    }

    /// Removes the modifiers of `other`.
    pub fn remove(&mut self, other: Modifiers)
        ensures
            final(self).value() == old(self).value() & !other.value(),
    {
        self.bits = self.bits & !other.bits;
    }
}

impl core::ops::BitOr for Modifiers {
    type Output = Modifiers;

    fn bitor(self, rhs: Modifiers) -> (r: Modifiers) {
        self.union(rhs)
    }
}

impl vstd::std_specs::ops::BitOrSpecImpl for Modifiers {
    open spec fn obeys_bitor_spec() -> bool {
        true
    }

    open spec fn bitor_req(self, rhs: Modifiers) -> bool {
        true
    }

    closed spec fn bitor_spec(self, rhs: Modifiers) -> Modifiers {
        Modifiers { bits: self.bits | rhs.bits }
    }
}

/// Whether the set holds `m`'s bits (the `contains` test).
pub open spec fn has_mod(set: Modifiers, m: u8) -> bool {
    set.value() & m == m
}

/// A keyboard event: a key code and the modifiers held.
#[derive(Debug, Clone, Copy, PartialEq, Eq, Structural)]
pub struct KeyEvent {
    /// The key code.
    pub code: KeyCode,
    /// Modifier keys held during the key press.
    pub modifiers: Modifiers,
}

impl KeyEvent {
    /// A key event without modifiers.
    pub fn new(code: KeyCode) -> (e: KeyEvent)
        ensures
            e.code == code,
            e.modifiers.value() == 0,
    {
        KeyEvent { code, modifiers: Modifiers::empty() }
    }

    /// A key event with modifiers.
    pub fn with_modifiers(code: KeyCode, modifiers: Modifiers) -> (e: KeyEvent)
        ensures
            e.code == code,
            e.modifiers == modifiers,
    {
        KeyEvent { code, modifiers }
    }

    /// The bytes a terminal sends for this key event.
    pub fn to_bytes(&self) -> (out: Vec<u8>)
        ensures
            out@ == key_event_bytes(*self),
    {
        encode_key_event(self)
    }
}

/// A mouse button.
#[derive(Debug, Clone, Copy, PartialEq, Eq, Hash, Structural)]
pub enum MouseButton {
    /// Left mouse button.
    Left,
    /// Right mouse button.
    Right,
    /// Middle mouse button (scroll wheel click).
    Middle,
}

/// The SGR mouse code of a button.
pub open spec fn button_code(b: MouseButton) -> u8 {
    match b {
        MouseButton::Left => 0,
        MouseButton::Middle => 1,
        MouseButton::Right => 2,
    }
}

impl MouseButton {
    /// The SGR mouse code: 0 left, 1 middle, 2 right.
    pub fn to_sgr_code(self) -> (c: u8)
        ensures
            c == button_code(self),
    {
        match self {
            MouseButton::Left => 0,
            MouseButton::Middle => 1,
            MouseButton::Right => 2,
        }
    }
}

/// A scroll direction.
#[derive(Debug, Clone, Copy, PartialEq, Eq, Hash, Structural)]
pub enum ScrollDirection {
    /// Scroll up.
    Up,
    /// Scroll down.
    Down,
    /// Scroll left.
    Left,
    /// Scroll right.
    Right,
}

/// The SGR mouse code of a scroll direction.
pub open spec fn scroll_code(d: ScrollDirection) -> u8 {
    match d {
        ScrollDirection::Up => 64,
        ScrollDirection::Down => 65,
        ScrollDirection::Left => 66,
        ScrollDirection::Right => 67,
    }
}

impl ScrollDirection {
    /// The SGR mouse code: 64 up, 65 down, 66 left, 67 right.
    pub fn to_sgr_code(self) -> (c: u8)
        ensures
            c == scroll_code(self),
    {
        match self {
            ScrollDirection::Up => 64,
            ScrollDirection::Down => 65,
            ScrollDirection::Left => 66,
            ScrollDirection::Right => 67,
        }
    }
}

/// A mouse event: position, button or scroll code, press or release, modifiers.
#[derive(Debug, Clone, Copy, PartialEq, Eq, Structural)]
pub struct MouseEvent {
    /// X coordinate (column, 0-indexed).
    pub x: u16,
    /// Y coordinate (row, 0-indexed).
    pub y: u16,
    /// Mouse button or scroll direction code.
    pub button_code: u8,
    /// Whether this is a button press (true) or release (false).
    pub is_press: bool,
    /// Modifier keys held during the mouse event.
    pub modifiers: Modifiers,
}

impl MouseEvent {
    /// A button press without modifiers.
    pub fn press(x: u16, y: u16, button: MouseButton) -> (e: MouseEvent)
        ensures
            e.x == x && e.y == y && e.button_code == button_code(button),
            e.is_press,
            e.modifiers.value() == 0,
    {
        MouseEvent { x, y, button_code: button.to_sgr_code(), is_press: true, modifiers: Modifiers::empty() }
    }

    /// A button press with modifiers.
    pub fn press_with_modifiers(x: u16, y: u16, button: MouseButton, modifiers: Modifiers) -> (e: MouseEvent)
        ensures
            e.x == x && e.y == y && e.button_code == button_code(button),
            e.is_press,
            e.modifiers == modifiers,
    {
        MouseEvent { x, y, button_code: button.to_sgr_code(), is_press: true, modifiers }
    }

    /// A button release without modifiers.
    pub fn release(x: u16, y: u16, button: MouseButton) -> (e: MouseEvent)
        ensures
            e.x == x && e.y == y && e.button_code == button_code(button),
            !e.is_press,
            e.modifiers.value() == 0,
    {
        MouseEvent { x, y, button_code: button.to_sgr_code(), is_press: false, modifiers: Modifiers::empty() }
    }

    /// A scroll event, encoded as a press.
    pub fn scroll(x: u16, y: u16, direction: ScrollDirection) -> (e: MouseEvent)
        ensures
            e.x == x && e.y == y && e.button_code == scroll_code(direction),
            e.is_press,
            e.modifiers.value() == 0,
    {
        MouseEvent { x, y, button_code: direction.to_sgr_code(), is_press: true, modifiers: Modifiers::empty() }
    }

    /// Whether the event can be encoded: its modified code fits in a byte
    /// and its one-based coordinates in 16 bits.
    pub fn can_encode(&self) -> (r: bool)
        ensures
            r == (mouse_code_fits(*self) && self.x < u16::MAX && self.y < u16::MAX),
    {
        let mut code: u16 = self.button_code as u16;
        if self.modifiers.contains(Modifiers::shift()) {
            code = code + 4;
        }
        if self.modifiers.contains(Modifiers::alt()) || self.modifiers.contains(Modifiers::meta()) {
            code = code + 8;
        }
        if self.modifiers.contains(Modifiers::ctrl()) {
            code = code + 16;
        }
        assert(code == mouse_code(*self));
        code <= 255 && self.x < u16::MAX && self.y < u16::MAX
    }

    /// The SGR bytes a terminal sends for this mouse event.
    pub fn to_bytes(&self) -> (out: Vec<u8>)
        requires
            mouse_code_fits(*self),
            self.x < u16::MAX,
            self.y < u16::MAX,
        ensures
            out@ == mouse_event_bytes(*self),
    {
        encode_mouse_event(self)
    }
}

/// The character `c` with ASCII lowercase letters made uppercase.
pub open spec fn ascii_upper(c: char) -> char {
    if 'a' <= c <= 'z' {
        ((c as u32) - 32) as char
    } else {
        c
    }
}

/// The bytes of Ctrl held with the character `c`.
pub open spec fn ctrl_char_bytes(c: char) -> Seq<u8> {
    let u = ascii_upper(c);
    if 'A' <= u <= 'Z' {
        seq![((u as u32) - 64) as u8]
    } else if u == '@' {
        seq![0u8]
    } else if u == '[' {
        seq![27u8]
    } else if u == '\\' {
        seq![28u8]
    } else if u == ']' {
        seq![29u8]
    } else if u == '^' {
        seq![30u8]
    } else if u == '_' {
        seq![31u8]
    } else if u == '?' {
        seq![127u8]
    } else {
        char_utf8(c)
    }
}

/// The escape sequence of function key `n` (empty outside F1-F12).
pub open spec fn function_key_bytes(n: u8) -> Seq<u8> {
    if n == 1 {
        seq![0x1bu8, 0x4f, 0x50]
    } else if n == 2 {
        seq![0x1bu8, 0x4f, 0x51]
    } else if n == 3 {
        seq![0x1bu8, 0x4f, 0x52]
    } else if n == 4 {
        seq![0x1bu8, 0x4f, 0x53]
    } else if n == 5 {
        seq![0x1bu8, 0x5b, 0x31, 0x35, 0x7e]
    } else if n == 6 {
        seq![0x1bu8, 0x5b, 0x31, 0x37, 0x7e]
    } else if n == 7 {
        seq![0x1bu8, 0x5b, 0x31, 0x38, 0x7e]
    } else if n == 8 {
        seq![0x1bu8, 0x5b, 0x31, 0x39, 0x7e]
    } else if n == 9 {
        seq![0x1bu8, 0x5b, 0x32, 0x30, 0x7e]
    } else if n == 10 {
        seq![0x1bu8, 0x5b, 0x32, 0x31, 0x7e]
    } else if n == 11 {
        seq![0x1bu8, 0x5b, 0x32, 0x33, 0x7e]
    } else if n == 12 {
        seq![0x1bu8, 0x5b, 0x32, 0x34, 0x7e]
    } else {
        Seq::empty()
    }
}

/// CSI (ESC `[`) followed by `tail`.
pub open spec fn csi(tail: Seq<u8>) -> Seq<u8> {
    seq![0x1bu8, 0x5b] + tail
}

/// The bytes of an unmodified key.
pub open spec fn plain_key_bytes(code: KeyCode) -> Seq<u8> {
    match code {
        KeyCode::Char(c) => char_utf8(c),
        KeyCode::Enter => seq![0x0au8],
        KeyCode::Tab => seq![0x09u8],
        KeyCode::Esc => seq![0x1bu8],
        KeyCode::Backspace => seq![0x7fu8],
        KeyCode::Delete => csi(seq![0x33u8, 0x7e]),
        KeyCode::Insert => csi(seq![0x32u8, 0x7e]),
        KeyCode::Up => csi(seq![0x41u8]),
        KeyCode::Down => csi(seq![0x42u8]),
        KeyCode::Right => csi(seq![0x43u8]),
        KeyCode::Left => csi(seq![0x44u8]),
        KeyCode::Home => csi(seq![0x48u8]),
        KeyCode::End => csi(seq![0x46u8]),
        KeyCode::PageUp => csi(seq![0x35u8, 0x7e]),
        KeyCode::PageDown => csi(seq![0x36u8, 0x7e]),
        KeyCode::F(n) => function_key_bytes(n),
    }
}

/// The bytes of a key event: Ctrl and Alt apply to character keys only, Ctrl first.
pub open spec fn key_event_bytes(e: KeyEvent) -> Seq<u8> {
    match e.code {
        KeyCode::Char(c) => if has_mod(e.modifiers, 2) {
            ctrl_char_bytes(c)
        } else if has_mod(e.modifiers, 4) {
            seq![0x1bu8] + char_utf8(c)
        } else {
            char_utf8(c)
        },
        _ => plain_key_bytes(e.code),
    }
}

/// The SGR button code with the modifier bits added: Shift 4, Alt or Meta
/// 8, Ctrl 16.
pub open spec fn mouse_code(e: MouseEvent) -> int {
    e.button_code + (if has_mod(e.modifiers, 1) { 4int } else { 0 }) + (if has_mod(e.modifiers, 4)
        || has_mod(e.modifiers, 8) {
        8int
    } else {
        0
    }) + (if has_mod(e.modifiers, 2) { 16int } else { 0 })
}

/// The modified button code still fits in a byte.
pub open spec fn mouse_code_fits(e: MouseEvent) -> bool {
    mouse_code(e) <= 255
}

/// `ESC [ < code ; x+1 ; y+1 M` for a press, with `m` for a release.
pub open spec fn mouse_event_bytes(e: MouseEvent) -> Seq<u8> {
    seq![0x1bu8, 0x5b, 0x3c] + decimal_bytes(mouse_code(e) as nat) + seq![0x3bu8] + decimal_bytes(
        (e.x + 1) as nat,
    ) + seq![0x3bu8] + decimal_bytes((e.y + 1) as nat) + seq![
        if e.is_press {
            0x4du8
        } else {
            0x6du8
        },
    ]
}

/// Encodes a key event into the bytes a terminal sends for it.
pub fn encode_key_event(event: &KeyEvent) -> (out: Vec<u8>)
    ensures
        out@ == key_event_bytes(*event),
{
    if event.modifiers.contains(Modifiers::ctrl()) {
        if let KeyCode::Char(c) = event.code {
            return encode_ctrl_char(c);
        }
    }
    if event.modifiers.contains(Modifiers::alt()) {
        if let KeyCode::Char(c) = event.code {
            let mut bytes: Vec<u8> = vec![0x1b];
            let mut enc = encode_char_utf8(c);
            bytes.append(&mut enc);
            return bytes;
        }
    }
    match event.code {
        KeyCode::Char(c) => encode_char_utf8(c),
        KeyCode::Enter => vec![0x0a],
        KeyCode::Tab => vec![0x09],
        KeyCode::Esc => vec![0x1b],
        KeyCode::Backspace => vec![0x7f],
        KeyCode::Delete => vec![0x1b, 0x5b, 0x33, 0x7e],
        KeyCode::Insert => vec![0x1b, 0x5b, 0x32, 0x7e],
        KeyCode::Up => vec![0x1b, 0x5b, 0x41],
        KeyCode::Down => vec![0x1b, 0x5b, 0x42],
        KeyCode::Right => vec![0x1b, 0x5b, 0x43],
        KeyCode::Left => vec![0x1b, 0x5b, 0x44],
        KeyCode::Home => vec![0x1b, 0x5b, 0x48],
        KeyCode::End => vec![0x1b, 0x5b, 0x46],
        KeyCode::PageUp => vec![0x1b, 0x5b, 0x35, 0x7e],
        KeyCode::PageDown => vec![0x1b, 0x5b, 0x36, 0x7e],
        KeyCode::F(n) => encode_function_key(n),
    }
}

/// Encodes Ctrl held with a character: letters give 1-26, `@ [ \ ] ^ _ ?`
/// give 0, 27-31 and 127; any other character is sent unchanged.
pub fn encode_ctrl_char(c: char) -> (out: Vec<u8>)
    ensures
        out@ == ctrl_char_bytes(c),
{
    let u: char = if 'a' <= c && c <= 'z' {
        let v: u32 = (c as u32) - 32;
        assert(0x41 <= v <= 0x5a);
        proof {
            vstd::utf8::char_u32_cast(c, c as u32);
        }
        char_from_ascii(v as u8)
    } else {
        c
    };
    assert(u == ascii_upper(c));
    if 'A' <= u && u <= 'Z' {
        vec![((u as u32) - 64) as u8]
    } else if u == '@' {
        vec![0]
    } else if u == '[' {
        vec![27]
    } else if u == '\\' {
        vec![28]
    } else if u == ']' {
        vec![29]
    } else if u == '^' {
        vec![30]
    } else if u == '_' {
        vec![31]
    } else if u == '?' {
        vec![127]
    } else {
        encode_char_utf8(c)
    }
}

/// The character of an ASCII byte.
pub fn char_from_ascii(b: u8) -> (c: char)
    requires
        b < 128,
    ensures
        c == (b as u32) as char,
        c as u32 == b as u32,
{
    b as char
}

/// Encodes function key `n`: F1-F4 as SS3 sequences, F5-F12 as CSI sequences,
/// nothing for other numbers.
pub fn encode_function_key(n: u8) -> (out: Vec<u8>)
    ensures
        out@ == function_key_bytes(n),
{
    let out: Vec<u8> = match n {
        1 => vec![0x1b, 0x4f, 0x50],
        2 => vec![0x1b, 0x4f, 0x51],
        3 => vec![0x1b, 0x4f, 0x52],
        4 => vec![0x1b, 0x4f, 0x53],
        5 => vec![0x1b, 0x5b, 0x31, 0x35, 0x7e],
        6 => vec![0x1b, 0x5b, 0x31, 0x37, 0x7e],
        7 => vec![0x1b, 0x5b, 0x31, 0x38, 0x7e],
        8 => vec![0x1b, 0x5b, 0x31, 0x39, 0x7e],
        9 => vec![0x1b, 0x5b, 0x32, 0x30, 0x7e],
        10 => vec![0x1b, 0x5b, 0x32, 0x31, 0x7e],
        11 => vec![0x1b, 0x5b, 0x32, 0x33, 0x7e],
        12 => vec![0x1b, 0x5b, 0x32, 0x34, 0x7e],
        _ => Vec::new(),
    };
    assert(out@ =~= function_key_bytes(n));
    out
}

/// Encodes a mouse event in SGR format: `ESC [ < code ; x ; y M` (press) or
/// `m` (release), with 1-based coordinates and modifier bits added to the code.
pub fn encode_mouse_event(event: &MouseEvent) -> (out: Vec<u8>)
    requires
        mouse_code_fits(*event),
        event.x < u16::MAX,
        event.y < u16::MAX,
    ensures
        out@ == mouse_event_bytes(*event),
{
    let mut code: u8 = event.button_code;
    if event.modifiers.contains(Modifiers::shift()) {
        code = code + 4;
    }
    if event.modifiers.contains(Modifiers::alt()) || event.modifiers.contains(Modifiers::meta()) {
        code = code + 8;
    }
    if event.modifiers.contains(Modifiers::ctrl()) {
        code = code + 16;
    }
    assert(code == mouse_code(*event));
    let x: u16 = event.x + 1;
    let y: u16 = event.y + 1;
    let mut out: Vec<u8> = vec![0x1b, 0x5b, 0x3c];
    push_decimal_bytes(&mut out, code as u64);
    out.push(0x3b);
    push_decimal_bytes(&mut out, x as u64);
    out.push(0x3b);
    push_decimal_bytes(&mut out, y as u64);
    out.push(if event.is_press { 0x4d } else { 0x6d });
    assert(out@ =~= mouse_event_bytes(*event));
    out
}

/// Ctrl clears the two high bits of a character from `@` to `_`: it sends
/// that character's code minus 64 (`@` is 0, `A` is 1, `[` is 27, `\\` is
/// 28, `]` is 29, `^` is 30, `_` is 31), and Ctrl+`?` sends DEL (127).
pub proof fn law_ctrl_clears_high_bits(c: char)
    ensures
        '@' <= c <= '_' ==> ctrl_char_bytes(c) == seq![((c as u32) - 64) as u8],
        c == '?' ==> ctrl_char_bytes(c) == seq![127u8],
{
    if '@' <= c <= '_' {
        assert(ascii_upper(c) == c);
    }
}

/// Ctrl with a letter sends the same control byte whatever the letter's
/// case: the letter's position in the alphabet (Ctrl+A is 1, Ctrl+Z is 26).
pub proof fn law_ctrl_letter_ignores_case(c: char)
    requires
        'a' <= c <= 'z',
    ensures
        ctrl_char_bytes(c) == ctrl_char_bytes(ascii_upper(c)),
        ctrl_char_bytes(c) == seq![((c as u32) - 96) as u8],
{
    let u = ascii_upper(c);
    assert(u as u32 == (c as u32) - 32);
    assert('A' <= u <= 'Z');
    assert(ascii_upper(u) == u);
}

/// A character key sends the character's UTF-8 bytes, Alt puts ESC
/// before them and Ctrl turns them into a control byte; every other key
/// sends the same bytes whatever modifiers are held.
pub proof fn law_modifiers_apply_to_characters(code: KeyCode, m1: Modifiers, m2: Modifiers)
    ensures
        code matches KeyCode::Char(c) ==> key_event_bytes(KeyEvent { code, modifiers: m1 }) == (if has_mod(m1, 2) {
            ctrl_char_bytes(c)
        } else if has_mod(m1, 4) {
            seq![0x1bu8] + char_utf8(c)
        } else {
            char_utf8(c)
        }),
        !(code is Char) ==> key_event_bytes(KeyEvent { code, modifiers: m1 }) == key_event_bytes(
            KeyEvent { code, modifiers: m2 },
        ),
{
}

/// The union of two modifier sets holds each of them, and is the same
/// whichever comes first.
pub proof fn law_union_holds_both(a: u8, b: u8)
    ensures
        (a | b) & a == a,
        (a | b) & b == b,
        a | b == b | a,
{
    assert((a | b) & a == a) by (bit_vector);
    assert((a | b) & b == b) by (bit_vector);
    assert(a | b == b | a) by (bit_vector);
}

/// A press and a release at the same place with the same button differ
/// only in the last byte: `M` for the press, `m` for the release.
pub proof fn law_press_release_differ_in_last_byte(e: MouseEvent)
    ensures
        mouse_event_bytes(MouseEvent { is_press: true, ..e }).drop_last() == mouse_event_bytes(
            MouseEvent { is_press: false, ..e },
        ).drop_last(),
        mouse_event_bytes(MouseEvent { is_press: true, ..e }).last() == 0x4du8,
        mouse_event_bytes(MouseEvent { is_press: false, ..e }).last() == 0x6du8,
{
    let p = MouseEvent { is_press: true, ..e };
    let r = MouseEvent { is_press: false, ..e };
    assert(mouse_event_bytes(p).drop_last() =~= mouse_event_bytes(r).drop_last());
}

} // verus!
