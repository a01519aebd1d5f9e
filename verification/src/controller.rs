//! The inputs of a game controller: sticks and pads read as regions,
//! analogue triggers, and buttons.

use vstd::prelude::*;

verus! {

/// An input read as one of a few regions.
#[derive(PartialEq, Eq, Structural, Clone, Copy, Debug)]
pub enum DiscreteType {
    Left,
    Right,
    Dpad,
    TouchX,
    TouchY,
}

/// An analogue input.
#[derive(PartialEq, Eq, Structural, Clone, Copy, Debug)]
pub enum ContinuousType {
    LeftTrigger,
    RightTrigger,
}

/// A button, in the order of its bit in a packed button state.
#[derive(PartialEq, Eq, Structural, Clone, Copy, Debug)]
pub enum ButtonType {
    Square,
    Cross,
    Circle,
    Triangle,
    LBumper,
    RBumper,
    LTriggerBtn,
    RTriggerBtn,
    Share,
    Options,
    LStickBtn,
    RStickBtn,
    PS,
    TouchpadClick,
    Touch,
}

/// Where an input event comes from.
#[derive(PartialEq, Eq, Structural, Clone, Copy, Debug)]
pub enum InputSource {
    Discrete(DiscreteType),
    Continuous(ContinuousType),
    Button(ButtonType),
}

/// An input event, as far as the choice of notes reads it: the value of an
/// analogue input is left out, only its source is kept.
#[derive(PartialEq, Eq, Structural, Clone, Copy, Debug)]
pub enum ControlEvent {
    /// The input, its new region, and its number of regions.
    Discrete(DiscreteType, i8, u8),
    /// An analogue input moved.
    Continuous(ContinuousType),
    /// The button, and whether it is now down.
    Button(ButtonType, bool),
}

/// The number of buttons of a packed button state.
pub const BUTTON_COUNT: usize = 15;

/// The button whose state is bit `i` of a packed button state.
pub open spec fn button_of(i: int) -> ButtonType {
    if i == 0 {
        ButtonType::Square
    } else if i == 1 {
        ButtonType::Cross
    } else if i == 2 {
        ButtonType::Circle
    } else if i == 3 {
        ButtonType::Triangle
    } else if i == 4 {
        ButtonType::LBumper
    } else if i == 5 {
        ButtonType::RBumper
    } else if i == 6 {
        ButtonType::LTriggerBtn
    } else if i == 7 {
        ButtonType::RTriggerBtn
    } else if i == 8 {
        ButtonType::Share
    } else if i == 9 {
        ButtonType::Options
    } else if i == 10 {
        ButtonType::LStickBtn
    } else if i == 11 {
        ButtonType::RStickBtn
    } else if i == 12 {
        ButtonType::PS
    } else if i == 13 {
        ButtonType::TouchpadClick
    } else {
        ButtonType::Touch
    }
}

/// The bit of a packed button state that holds `b`.
pub open spec fn bit_of(b: ButtonType) -> int {
    match b {
        ButtonType::Square => 0,
        ButtonType::Cross => 1,
        ButtonType::Circle => 2,
        ButtonType::Triangle => 3,
        ButtonType::LBumper => 4,
        ButtonType::RBumper => 5,
        ButtonType::LTriggerBtn => 6,
        ButtonType::RTriggerBtn => 7,
        ButtonType::Share => 8,
        ButtonType::Options => 9,
        ButtonType::LStickBtn => 10,
        ButtonType::RStickBtn => 11,
        ButtonType::PS => 12,
        ButtonType::TouchpadClick => 13,
        ButtonType::Touch => 14,
    }
}

/// Each button has its own bit, and each bit its own button.
pub proof fn lemma_button_bits(b: ButtonType, i: int)
    ensures
        0 <= bit_of(b) < 15,
        button_of(bit_of(b)) == b,
        0 <= i < 15 ==> bit_of(button_of(i)) == i,
{
}

/// The button whose state is bit `i` of a packed button state.
pub fn button_at(i: usize) -> (b: ButtonType)
    requires
        i < BUTTON_COUNT,
    ensures
        b == button_of(i as int),
{
    if i == 0 {
        ButtonType::Square
    } else if i == 1 {
        ButtonType::Cross
    } else if i == 2 {
        ButtonType::Circle
    } else if i == 3 {
        ButtonType::Triangle
    } else if i == 4 {
        ButtonType::LBumper
    } else if i == 5 {
        ButtonType::RBumper
    } else if i == 6 {
        ButtonType::LTriggerBtn
    } else if i == 7 {
        ButtonType::RTriggerBtn
    } else if i == 8 {
        ButtonType::Share
    } else if i == 9 {
        ButtonType::Options
    } else if i == 10 {
        ButtonType::LStickBtn
    } else if i == 11 {
        ButtonType::RStickBtn
    } else if i == 12 {
        ButtonType::PS
    } else if i == 13 {
        ButtonType::TouchpadClick
    } else {
        ButtonType::Touch
    }
}

/// The bit of a packed button state that holds `b`.
pub fn button_bit(b: ButtonType) -> (i: u16)
    ensures
        i == bit_of(b),
{
    match b {
        ButtonType::Square => 0,
        ButtonType::Cross => 1,
        ButtonType::Circle => 2,
        ButtonType::Triangle => 3,
        ButtonType::LBumper => 4,
        ButtonType::RBumper => 5,
        ButtonType::LTriggerBtn => 6,
        ButtonType::RTriggerBtn => 7,
        ButtonType::Share => 8,
        ButtonType::Options => 9,
        ButtonType::LStickBtn => 10,
        ButtonType::RStickBtn => 11,
        ButtonType::PS => 12,
        ButtonType::TouchpadClick => 13,
        ButtonType::Touch => 14,
    }
}

/// The buttons of a packed button state, from bit 0 up: the four face
/// buttons, the bumpers, the trigger buttons, share, options, the stick
/// buttons, the PS button, the touchpad click and the touch.
pub proof fn law_button_order(i: int)
    requires
        0 <= i < 15,
    ensures
        button_of(i) == seq![
            ButtonType::Square,
            ButtonType::Cross,
            ButtonType::Circle,
            ButtonType::Triangle,
            ButtonType::LBumper,
            ButtonType::RBumper,
            ButtonType::LTriggerBtn,
            ButtonType::RTriggerBtn,
            ButtonType::Share,
            ButtonType::Options,
            ButtonType::LStickBtn,
            ButtonType::RStickBtn,
            ButtonType::PS,
            ButtonType::TouchpadClick,
            ButtonType::Touch,
        ][i],
        bit_of(button_of(i)) == i,
{
}

} // verus!
