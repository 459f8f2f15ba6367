//! Direction codec: turns a snapshot of the four directional buttons into a
//! single direction code in numpad notation, resolving simultaneous opposite
//! presses to the neutral value on that axis.

use vstd::prelude::*;

use crate::static_types::{ButtonState, ButtonsStates, NumericalNotation, PossibleCoordinates};

verus! {

/// Vertical axis of a button snapshot: 1 when only up is held, -1 when only
/// down is held, 0 otherwise (neither held, or both held and cancelled).
pub open spec fn vertical_axis(b: ButtonsStates) -> int {
    if b.up == ButtonState::Pressed && b.down == ButtonState::Released {
        1
    } else if b.down == ButtonState::Pressed && b.up == ButtonState::Released {
        -1
    } else {
        0
    }
}

/// Horizontal axis of a button snapshot: 1 when only right is held, -1 when
/// only left is held, 0 otherwise (neither held, or both held and cancelled).
pub open spec fn horizontal_axis(b: ButtonsStates) -> int {
    if b.right == ButtonState::Pressed && b.left == ButtonState::Released {
        1
    } else if b.left == ButtonState::Pressed && b.right == ButtonState::Released {
        -1
    } else {
        0
    }
}

/// The numpad digit at horizontal offset `hx` and vertical offset `vy`, each
/// in {-1, 0, 1}: neutral (`Five`) is the center, `Six` is one step right,
/// `Eight` one step up, and so on.
pub open spec fn notation_of_axes(hx: int, vy: int) -> NumericalNotation
    recommends
        -1 <= hx <= 1,
        -1 <= vy <= 1,
{
    if hx == -1 {
        if vy == -1 {
            NumericalNotation::One
        } else if vy == 0 {
            NumericalNotation::Four
        } else {
            NumericalNotation::Seven
        }
    } else if hx == 0 {
        if vy == -1 {
            NumericalNotation::Two
        } else if vy == 0 {
            NumericalNotation::Five
        } else {
            NumericalNotation::Eight
        }
    } else {
        if vy == -1 {
            NumericalNotation::Three
        } else if vy == 0 {
            NumericalNotation::Six
        } else {
            NumericalNotation::Nine
        }
    }
}

/// Converts a button snapshot to a direction code in numpad notation, with
/// neutral resolution of simultaneous opposite presses on each axis.
pub fn calculate_position(buttons_state: &ButtonsStates) -> (r: NumericalNotation)
    ensures
        r == notation_of_axes(
            horizontal_axis(*buttons_state),
            vertical_axis(*buttons_state),
        ),
{
    let vertical_coordinate: PossibleCoordinates;
    match (&buttons_state.up, &buttons_state.down) {
        (ButtonState::Released, ButtonState::Released) => {
            vertical_coordinate = PossibleCoordinates::Zero
        },
        (ButtonState::Pressed, ButtonState::Released) => {
            vertical_coordinate = PossibleCoordinates::One
        },
        (ButtonState::Released, ButtonState::Pressed) => {
            vertical_coordinate = PossibleCoordinates::MinusOne
        },
        (ButtonState::Pressed, ButtonState::Pressed) => {
            vertical_coordinate = PossibleCoordinates::Zero
        },
    };

    let horizontal_coordinate: PossibleCoordinates;
    match (&buttons_state.left, &buttons_state.right) {
        (ButtonState::Released, ButtonState::Released) => {
            horizontal_coordinate = PossibleCoordinates::Zero
        },
        (ButtonState::Pressed, ButtonState::Released) => {
            horizontal_coordinate = PossibleCoordinates::MinusOne
        },
        (ButtonState::Released, ButtonState::Pressed) => {
            horizontal_coordinate = PossibleCoordinates::One
        },
        (ButtonState::Pressed, ButtonState::Pressed) => {
            horizontal_coordinate = PossibleCoordinates::Zero
        },
    };

    match (horizontal_coordinate, vertical_coordinate) {
        (PossibleCoordinates::Zero, PossibleCoordinates::Zero) => NumericalNotation::Five,
        (PossibleCoordinates::One, PossibleCoordinates::Zero) => NumericalNotation::Six,
        (PossibleCoordinates::One, PossibleCoordinates::One) => NumericalNotation::Nine,
        (PossibleCoordinates::Zero, PossibleCoordinates::One) => NumericalNotation::Eight,
        (PossibleCoordinates::MinusOne, PossibleCoordinates::One) => NumericalNotation::Seven,
        (PossibleCoordinates::MinusOne, PossibleCoordinates::Zero) => NumericalNotation::Four,
        (PossibleCoordinates::MinusOne, PossibleCoordinates::MinusOne) => NumericalNotation::One,
        (PossibleCoordinates::Zero, PossibleCoordinates::MinusOne) => NumericalNotation::Two,
        (PossibleCoordinates::One, PossibleCoordinates::MinusOne) => NumericalNotation::Three,
    }
}

} // verus!
