//! Core data types: direction codes in numpad notation, button state, move
//! identifiers, the ordered move dictionary, and the bounded position history.

use vstd::prelude::*;

verus! {

/// One axis of the directional input, resolved to a signed unit step
/// (negative, centered, positive).
#[derive(Debug)]
pub enum PossibleCoordinates {
    MinusOne,
    Zero,
    One,
}

/// A direction in numpad notation: `Five` is neutral, `Eight` up, `Two` down,
/// `Four` back, `Six` forward, and `Seven`/`Nine`/`One`/`Three` the diagonals.
#[derive(Debug, PartialEq, Eq, Clone, Copy, Structural)]
pub enum NumericalNotation {
    One,
    Two,
    Three,
    Four,
    Five,
    Six,
    Seven,
    Eight,
    Nine,
}

/// Whether a single button is currently held.
#[derive(Debug, PartialEq, Eq, Clone, Copy, Hash, Structural)]
pub enum ButtonState {
    Pressed,
    Released,
}

/// Identifier of a recognizable move (dragon punch, quarter-circle forward,
/// quarter-circle back).
#[derive(Debug, Clone, Eq, PartialEq, Hash, Copy, Structural)]
pub enum Moves {
    DP,
    QCF,
    QCB,
}

/// Snapshot of every button the recognizer cares about.
#[derive(Debug, Clone)]
pub struct ButtonsStates {
    pub up: ButtonState,
    pub down: ButtonState,
    pub left: ButtonState,
    pub right: ButtonState,
    pub attack_north: ButtonState,
    pub attack_south: ButtonState,
    pub attack_east: ButtonState,
    pub attack_west: ButtonState,
}

/// Per-frame state shared with the presentation layer: the current direction,
/// whether an attack is held, the bounded history of recent directions, and
/// the log of recognized moves.
#[derive(Debug, Clone)]
pub struct GlobalState {
    pub current_position: NumericalNotation,
    pub attack_pressed: bool,
    pub position_history: Vec<NumericalNotation>,
    pub close_requested: bool,
    pub last_successful_move: Vec<Moves>,
}

/// Builds the move dictionary as an explicitly ordered list of
/// (identifier, canonical pattern) entries; resolution tries entries in this
/// order, so the order fixes which move wins when several could validate.
pub fn create_move_map() -> (m: Vec<(Moves, Vec<NumericalNotation>)>)
    ensures
        m@.len() == 1,
        m@[0].0 == Moves::DP,
        m@[0].1@ =~= seq![
            NumericalNotation::Six,
            NumericalNotation::Two,
            NumericalNotation::Three,
        ],
{
    let mut dp_pattern: Vec<NumericalNotation> = Vec::new();
    dp_pattern.push(NumericalNotation::Six);
    dp_pattern.push(NumericalNotation::Two);
    dp_pattern.push(NumericalNotation::Three);

    let mut move_map: Vec<(Moves, Vec<NumericalNotation>)> = Vec::new();
    move_map.push((Moves::DP, dp_pattern));
    move_map
}

/// Appends the newest sample to the bounded history; when the history is
/// already at capacity the oldest sample is evicted first, so the length
/// never exceeds the capacity.
pub fn append_position(
    history: &mut Vec<NumericalNotation>,
    code: NumericalNotation,
    capacity: usize,
)
    requires
        capacity >= 1,
        old(history)@.len() <= capacity,
    ensures
        final(history)@.len() <= capacity,
        final(history)@ == (if old(history)@.len() < capacity {
            old(history)@.push(code)
        } else {
            old(history)@.drop_first().push(code)
        }),
{
    if history.len() < capacity {
        history.push(code);
    } else {
        history.remove(0);
        proof {
            assert(history@ =~= old(history)@.drop_first());
        }
        history.push(code);
    }
}

} // verus!
