//! Keys of the keyboard and what is bound to them.
use crate::button::Button;
use vstd::prelude::*;

verus! {

/// A key, as far as the frontend tells keys apart.
#[derive(PartialEq, Eq, Structural, PartialOrd, Ord, Hash, Clone, Copy, Debug)]
pub enum KeyCode {
    /// The backspace key.
    Backspace,
    /// The enter key.
    Enter,
    /// The left arrow.
    Left,
    /// The right arrow.
    Right,
    /// The up arrow.
    Up,
    /// The down arrow.
    Down,
    /// The tabulator key.
    Tab,
    /// The escape key.
    Esc,
    /// A function key.
    F(u8),
    /// A key that types a character.
    Char(char),
    /// Any other key, by a number of its own.
    Other(u32),
}

/// What happens to a key.
#[derive(PartialEq, Eq, Structural, PartialOrd, Ord, Hash, Clone, Copy, Debug)]
pub enum KeyEventKind {
    /// It goes down.
    Press,
    /// It stays down for so long that it repeats.
    Repeat,
    /// It comes up.
    Release,
}

/// The keys that modify others, of which several may be down together: one bit
/// each for shift, control, alt, super, hyper and meta, from the lowest up.
#[derive(PartialEq, Eq, Structural, PartialOrd, Ord, Hash, Clone, Copy, Debug)]
pub struct KeyModifiers {
    /// The bits of the keys that are down.
    pub bits: u8,
}

impl KeyModifiers {
    /// The bit of the control key alone.
    pub const CONTROL: u8 = 2;

    /// Whether control is down and nothing else.
    pub open spec fn only_control(self) -> bool {
        self.bits == Self::CONTROL
    }

    /// Whether control and alt are both down, among others or not.
    pub open spec fn control_and_alt(self) -> bool {
        self.bits / 2 % 2 == 1 && self.bits / 4 % 2 == 1
    }

    /// Whether control is down and nothing else.
    pub fn is_only_control(self) -> (b: bool)
        ensures
            b == self.only_control(),
    {
        self.bits == Self::CONTROL
    }

    /// Whether control and alt are both down, among others or not.
    pub fn has_control_and_alt(self) -> (b: bool)
        ensures
            b == self.control_and_alt(),
    {
        self.bits / 2 % 2 == 1 && self.bits / 4 % 2 == 1
    }
}

/// Something that happens to a key while others modify it.
#[derive(PartialEq, Eq, Structural, PartialOrd, Ord, Hash, Clone, Copy, Debug)]
pub struct KeyEvent {
    /// The key.
    pub code: KeyCode,
    /// What modifies it.
    pub modifiers: KeyModifiers,
    /// What happens to it.
    pub kind: KeyEventKind,
}

/// Which key, modified in which way, stands for which button.
pub type Keybinds = Vec<((KeyCode, KeyModifiers), Button)>;

/// Whether a key types a given letter, small or capital.
pub open spec fn types_letter(code: KeyCode, small: char, capital: char) -> bool {
    code == KeyCode::Char(small) || code == KeyCode::Char(capital)
}

/// Whether a key types a given letter, small or capital.
pub fn is_letter(code: KeyCode, small: char, capital: char) -> (b: bool)
    ensures
        b == types_letter(code, small, capital),
{
    match code {
        KeyCode::Char(c) => c == small || c == capital,
        _ => false,
    }
}

/// Control and alt are both down if their bits are both set, whatever other bits are.
pub proof fn law_control_and_alt_have_bits(modifiers: KeyModifiers)
    ensures
        modifiers.only_control() <==> modifiers.bits == 2,
        modifiers.control_and_alt() <==> modifiers.bits & 6 == 6,
{
    let bits = modifiers.bits;
    assert((bits / 2 % 2 == 1 && bits / 4 % 2 == 1) <==> bits & 6 == 6) by (bit_vector);
}

} // verus!
