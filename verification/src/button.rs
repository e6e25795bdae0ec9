//! The buttons of the game and how they change.
use vstd::prelude::*;

verus! {

/// How many buttons there are.
pub const BUTTON_COUNT: usize = 11;

/// An abstract game input.
#[derive(PartialEq, Eq, Structural, PartialOrd, Ord, Hash, Clone, Copy, Debug)]
pub enum Button {
    /// Move the piece once to the left.
    MoveLeft,
    /// Move the piece once to the right.
    MoveRight,
    /// Rotate the piece counter-clockwise.
    RotateLeft,
    /// Rotate the piece clockwise.
    RotateRight,
    /// Flip the piece around.
    RotateAround,
    /// Drop the piece faster.
    DropSoft,
    /// Drop the piece at once and lock it.
    DropHard,
    /// Drop the piece at once without locking it.
    TeleDown,
    /// Move the piece left as far as it goes.
    TeleLeft,
    /// Move the piece right as far as it goes.
    TeleRight,
    /// Swap the piece with the held one.
    HoldPiece,
}

/// A button that goes down or comes up.
#[derive(PartialEq, Eq, Structural, PartialOrd, Ord, Hash, Clone, Copy, Debug)]
pub enum ButtonChange {
    /// The button goes down.
    Press(Button),
    /// The button comes up.
    Release(Button),
}

impl Button {
    /// All buttons, in the order of their numbers.
    pub const VARIANTS: [Button; 11] = [
        Button::MoveLeft,
        Button::MoveRight,
        Button::RotateLeft,
        Button::RotateRight,
        Button::RotateAround,
        Button::DropSoft,
        Button::DropHard,
        Button::TeleDown,
        Button::TeleLeft,
        Button::TeleRight,
        Button::HoldPiece,
    ];

    /// The button's number.
    pub open spec fn number(self) -> int {
        match self {
            Button::MoveLeft => 0,
            Button::MoveRight => 1,
            Button::RotateLeft => 2,
            Button::RotateRight => 3,
            Button::RotateAround => 4,
            Button::DropSoft => 5,
            Button::DropHard => 6,
            Button::TeleDown => 7,
            Button::TeleLeft => 8,
            Button::TeleRight => 9,
            Button::HoldPiece => 10,
        }
    }

    /// The button's number.
    pub fn index(self) -> (i: u8)
        ensures
            i == self.number(),
            i < BUTTON_COUNT,
            Button::VARIANTS[i as int] == self,
    {
        match self {
            Button::MoveLeft => 0,
            Button::MoveRight => 1,
            Button::RotateLeft => 2,
            Button::RotateRight => 3,
            Button::RotateAround => 4,
            Button::DropSoft => 5,
            Button::DropHard => 6,
            Button::TeleDown => 7,
            Button::TeleLeft => 8,
            Button::TeleRight => 9,
            Button::HoldPiece => 10,
        }
    }
}

impl ButtonChange {
    /// The button that changes.
    pub open spec fn button(self) -> Button {
        match self {
            ButtonChange::Press(b) => b,
            ButtonChange::Release(b) => b,
        }
    }
}

/// Every button stands in the list of buttons at its own number, and the list
/// holds nothing else.
pub proof fn lemma_variants_numbered(b: Button, i: int)
    requires
        0 <= i < BUTTON_COUNT,
    ensures
        0 <= b.number() < BUTTON_COUNT,
        Button::VARIANTS[b.number()] == b,
        Button::VARIANTS[i].number() == i,
{
}

/// No two buttons have the same number.
pub proof fn law_buttons_have_numbers_of_their_own(a: Button, b: Button)
    ensures
        a.number() == b.number() <==> a == b,
{
}

} // verus!
