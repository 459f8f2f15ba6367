use motion_inputs::input_explainer::{check_move_sequence, count_distance, is_valid_sequence};
use motion_inputs::static_types::{create_move_map, Moves, NumericalNotation};

#[test]
fn test_count_sequence() {
    let position_history = vec![
        NumericalNotation::Six,
        NumericalNotation::Two,
        NumericalNotation::Three,
    ];
    let move_sequence = vec![
        NumericalNotation::Six,
        NumericalNotation::Two,
        NumericalNotation::Three,
    ];
    assert_eq!(count_distance(&position_history, &move_sequence), 3);

    let position_history = vec![
        NumericalNotation::Six,
        NumericalNotation::Two,
        NumericalNotation::Two,
        NumericalNotation::Three,
    ];
    let move_sequence = vec![
        NumericalNotation::Six,
        NumericalNotation::Two,
        NumericalNotation::Three,
    ];
    assert_eq!(count_distance(&position_history, &move_sequence), 4);

    let position_history = vec![
        NumericalNotation::Six,
        NumericalNotation::Two,
        NumericalNotation::Three,
        NumericalNotation::Six,
        NumericalNotation::Two,
        NumericalNotation::Three,
    ];
    let move_sequence = vec![
        NumericalNotation::Six,
        NumericalNotation::Two,
        NumericalNotation::Three,
    ];
    assert_eq!(count_distance(&position_history, &move_sequence), 3);
}

#[test]
fn test_is_valid_sequence() {
    let position_history = vec![
        NumericalNotation::Six,
        NumericalNotation::Two,
        NumericalNotation::Three,
    ];
    let move_sequence = vec![
        NumericalNotation::Six,
        NumericalNotation::Two,
        NumericalNotation::Three,
    ];

    assert!(is_valid_sequence(&position_history, &move_sequence));

    let position_history = vec![
        NumericalNotation::Six,
        NumericalNotation::Two,
        NumericalNotation::Two,
        NumericalNotation::Two,
        NumericalNotation::Two,
        NumericalNotation::Two,
        NumericalNotation::Two,
        NumericalNotation::Two,
        NumericalNotation::Three,
    ];
    assert!(is_valid_sequence(&position_history, &move_sequence));
}

#[test]
fn test_is_invalid_sequence() {
    let position_history = vec![
        NumericalNotation::One,
        NumericalNotation::Two,
        NumericalNotation::Three,
        NumericalNotation::Four,
        NumericalNotation::Five,
        NumericalNotation::Six,
        NumericalNotation::Seven,
    ];
    let move_sequence = vec![
        NumericalNotation::Six,
        NumericalNotation::Two,
        NumericalNotation::Three,
    ];

    assert!(!is_valid_sequence(&position_history, &move_sequence));
}

#[test]
fn test_empty_pattern_is_valid_in_any_history() {
    let empty: Vec<NumericalNotation> = vec![];
    assert!(is_valid_sequence(&[], &empty));
    assert!(is_valid_sequence(&[NumericalNotation::Five], &empty));
    assert!(is_valid_sequence(
        &[
            NumericalNotation::Six,
            NumericalNotation::Two,
            NumericalNotation::Three,
        ],
        &empty,
    ));
}

#[test]
fn test_empty_history_rejects_nonempty_pattern() {
    assert!(!is_valid_sequence(&[], &[NumericalNotation::Six]));
    assert!(!is_valid_sequence(
        &[],
        &[
            NumericalNotation::Six,
            NumericalNotation::Two,
            NumericalNotation::Three,
        ],
    ));
}

#[test]
fn test_exact_match_validates_with_distance_three() {
    let history = vec![
        NumericalNotation::Six,
        NumericalNotation::Two,
        NumericalNotation::Three,
    ];
    let pattern = vec![
        NumericalNotation::Six,
        NumericalNotation::Two,
        NumericalNotation::Three,
    ];
    assert!(is_valid_sequence(&history, &pattern));
    assert_eq!(count_distance(&history, &pattern), 3);
}

#[test]
fn test_gap_above_threshold_rejected() {
    // Eight frames between the matched Six and the matched Two: one past the
    // tolerated hold of seven.
    let history = vec![
        NumericalNotation::Six,
        NumericalNotation::Two,
        NumericalNotation::Two,
        NumericalNotation::Two,
        NumericalNotation::Two,
        NumericalNotation::Two,
        NumericalNotation::Two,
        NumericalNotation::Two,
        NumericalNotation::Two,
        NumericalNotation::Three,
    ];
    let pattern = vec![
        NumericalNotation::Six,
        NumericalNotation::Two,
        NumericalNotation::Three,
    ];
    assert!(!is_valid_sequence(&history, &pattern));
}

#[test]
fn test_resolve_without_last_element_agreement() {
    // The only dictionary pattern ends in Three; the history ends in Five.
    let history = vec![
        NumericalNotation::Six,
        NumericalNotation::Two,
        NumericalNotation::Five,
    ];
    let move_map = create_move_map();
    assert_eq!(check_move_sequence(&history, &move_map), (None, 0));
}

#[test]
fn test_resolve_empty_history() {
    let history: Vec<NumericalNotation> = vec![];
    let move_map = create_move_map();
    assert_eq!(check_move_sequence(&history, &move_map), (None, 0));
}

#[test]
fn test_resolve_recognizes_dragon_punch() {
    let history = vec![
        NumericalNotation::Six,
        NumericalNotation::Two,
        NumericalNotation::Three,
    ];
    let move_map = create_move_map();
    assert_eq!(
        check_move_sequence(&history, &move_map),
        (Some(Moves::DP), 3)
    );
}

#[test]
fn test_resolve_first_entry_wins() {
    // Both entries validate on this history; the earlier entry is returned.
    let history = vec![
        NumericalNotation::Six,
        NumericalNotation::Two,
        NumericalNotation::Three,
    ];
    let move_map = vec![
        (
            Moves::QCF,
            vec![NumericalNotation::Two, NumericalNotation::Three],
        ),
        (
            Moves::DP,
            vec![
                NumericalNotation::Six,
                NumericalNotation::Two,
                NumericalNotation::Three,
            ],
        ),
    ];
    assert_eq!(
        check_move_sequence(&history, &move_map),
        (Some(Moves::QCF), 2)
    );
}

#[test]
fn test_same_inputs_give_same_results() {
    let history = vec![
        NumericalNotation::Six,
        NumericalNotation::Two,
        NumericalNotation::Two,
        NumericalNotation::Three,
    ];
    let pattern = vec![
        NumericalNotation::Six,
        NumericalNotation::Two,
        NumericalNotation::Three,
    ];
    let move_map = create_move_map();

    assert_eq!(
        is_valid_sequence(&history, &pattern),
        is_valid_sequence(&history, &pattern)
    );
    assert_eq!(
        count_distance(&history, &pattern),
        count_distance(&history, &pattern)
    );
    assert_eq!(
        check_move_sequence(&history, &move_map),
        check_move_sequence(&history, &move_map)
    );
}
