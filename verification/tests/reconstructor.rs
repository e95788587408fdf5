use tableflow::reconstructor::{ActionReconstructor, PotDelta, ReconConfig, ReconInput, StackDelta};
use tableflow::state::{BlindsInfo, SeatState, TableState};
use tableflow::types::{ActionSource, ActionType, BlindKind, SeatId, SeatStatus, Street, TablePhase};

fn make_state_with_blinds() -> TableState {
    let mut state = TableState::initial("test".to_string());
    state.phase = TablePhase::Playing;
    state.street = Street::Preflop;
    state.blinds = BlindsInfo {
        small_blind: 100,
        big_blind: 200,
        current_max_bet: 200,
        last_raise_size: 200,
        ..Default::default()
    };
    state.seats = (0..6u8)
        .map(|i| SeatState {
            seat_id: SeatId::new(i),
            status: if i < 4 { SeatStatus::Active } else { SeatStatus::Empty },
            stack: 10000,
            current_bet: 0,
            total_bet_this_hand: 0,
            last_action: None,
            is_hero: i == 0,
            has_cards: i < 4,
        })
        .collect();
    state
}

fn stack_change(seat: u8, delta: i64) -> StackDelta {
    StackDelta { seat_id: SeatId::new(seat), delta, confidence: 900 }
}

#[test]
fn test_derive_call() {
    let mut state = make_state_with_blinds();
    state.seats[0].current_bet = 0;
    let recon = ActionReconstructor::new(ReconConfig::default());
    let input = ReconInput {
        stack_changes: vec![stack_change(0, -200)],
        pot_change: Some(PotDelta { delta: 200, confidence: 900 }),
        folded_seats: vec![],
        allin_seats: vec![],
    };
    let actions = recon.reconstruct(&state, &input);
    assert_eq!(actions.len(), 1);
    assert!(matches!(actions[0].action_type, ActionType::Call));
}

#[test]
fn test_derive_bet() {
    let mut state = make_state_with_blinds();
    state.blinds.current_max_bet = 0;
    let recon = ActionReconstructor::new(ReconConfig::default());
    let input = ReconInput {
        stack_changes: vec![stack_change(0, -600)],
        pot_change: None,
        folded_seats: vec![],
        allin_seats: vec![],
    };
    let actions = recon.reconstruct(&state, &input);
    assert_eq!(actions.len(), 1);
    assert!(matches!(actions[0].action_type, ActionType::Bet(v) if v == 600));
}

#[test]
fn test_derive_raise() {
    let mut state = make_state_with_blinds();
    state.seats[0].current_bet = 0;
    let recon = ActionReconstructor::new(ReconConfig::default());
    let input = ReconInput {
        stack_changes: vec![stack_change(0, -800)],
        pot_change: None,
        folded_seats: vec![],
        allin_seats: vec![],
    };
    let actions = recon.reconstruct(&state, &input);
    assert_eq!(actions.len(), 1);
    assert!(matches!(actions[0].action_type, ActionType::Raise(v) if v == 800));
}

#[test]
fn test_derive_allin() {
    let mut state = make_state_with_blinds();
    state.seats[0].stack = 1000;
    let recon = ActionReconstructor::new(ReconConfig::default());
    let input = ReconInput {
        stack_changes: vec![stack_change(0, -1000)],
        pot_change: None,
        folded_seats: vec![],
        allin_seats: vec![],
    };
    let actions = recon.reconstruct(&state, &input);
    assert_eq!(actions.len(), 1);
    assert!(matches!(actions[0].action_type, ActionType::AllIn(_)));
}

#[test]
fn test_derive_fold_from_seat_status() {
    let state = make_state_with_blinds();
    let recon = ActionReconstructor::new(ReconConfig::default());
    let input = ReconInput {
        stack_changes: vec![],
        pot_change: None,
        folded_seats: vec![SeatId::new(1)],
        allin_seats: vec![],
    };
    let actions = recon.reconstruct(&state, &input);
    assert_eq!(actions.len(), 1);
    assert!(matches!(actions[0].action_type, ActionType::Fold));
}

#[test]
fn test_cross_validate_bumps_confidence() {
    let state = make_state_with_blinds();
    let recon = ActionReconstructor::new(ReconConfig::default());
    let input = ReconInput {
        stack_changes: vec![stack_change(0, -200)],
        pot_change: Some(PotDelta { delta: 200, confidence: 900 }),
        folded_seats: vec![],
        allin_seats: vec![],
    };
    let actions = recon.reconstruct(&state, &input);
    assert_eq!(actions.len(), 1);
    assert!(actions[0].confidence > 900 * 9 / 10);
    assert!(matches!(actions[0].source, ActionSource::Combined));
}

#[test]
fn test_deduplicate() {
    let state = make_state_with_blinds();
    let recon = ActionReconstructor::new(ReconConfig::default());
    let input = ReconInput {
        stack_changes: vec![stack_change(0, -200)],
        pot_change: None,
        folded_seats: vec![SeatId::new(1)],
        allin_seats: vec![],
    };
    let actions = recon.reconstruct(&state, &input);
    assert_eq!(actions.len(), 2);
    let has_call = actions.iter().any(|a| matches!(a.action_type, ActionType::Call));
    let has_fold = actions.iter().any(|a| matches!(a.action_type, ActionType::Fold));
    assert!(has_call);
    assert!(has_fold);
}

#[test]
fn test_small_blind_detection() {
    let mut state = make_state_with_blinds();
    state.blinds.current_max_bet = 0;
    state.action_history.clear();
    let recon = ActionReconstructor::new(ReconConfig::default());
    let input = ReconInput {
        stack_changes: vec![stack_change(1, -100)],
        pot_change: None,
        folded_seats: vec![],
        allin_seats: vec![],
    };
    let actions = recon.reconstruct(&state, &input);
    assert_eq!(actions.len(), 1);
    assert!(matches!(actions[0].action_type, ActionType::PostBlind(BlindKind::SmallBlind)));
}

// ---- exact values and edge cases ----

#[test]
fn derived_confidence_is_nine_tenths_and_boosted_by_a_tenth() {
    let state = make_state_with_blinds();
    let recon = ActionReconstructor::new(ReconConfig::default());
    let plain = recon.reconstruct(
        &state,
        &ReconInput { stack_changes: vec![stack_change(0, -200)], pot_change: None, folded_seats: vec![], allin_seats: vec![] },
    );
    assert_eq!(plain[0].confidence, 810);
    assert_eq!(plain[0].source, ActionSource::StackDiff);
    assert_eq!(plain[0].amount, Some(200));
    let crossed = recon.reconstruct(
        &state,
        &ReconInput {
            stack_changes: vec![stack_change(0, -200)],
            pot_change: Some(PotDelta { delta: 200, confidence: 900 }),
            folded_seats: vec![],
            allin_seats: vec![],
        },
    );
    assert_eq!(crossed[0].confidence, 910);
}

#[test]
fn pot_far_from_the_actions_confirms_nothing() {
    let state = make_state_with_blinds();
    let recon = ActionReconstructor::new(ReconConfig::default());
    let actions = recon.reconstruct(
        &state,
        &ReconInput {
            stack_changes: vec![stack_change(0, -200)],
            pot_change: Some(PotDelta { delta: 500, confidence: 900 }),
            folded_seats: vec![],
            allin_seats: vec![],
        },
    );
    assert_eq!(actions[0].source, ActionSource::StackDiff);
    assert_eq!(actions[0].confidence, 810);
}

#[test]
fn small_changes_are_ignored() {
    let state = make_state_with_blinds();
    let recon = ActionReconstructor::new(ReconConfig::default());
    let actions = recon.reconstruct(
        &state,
        &ReconInput { stack_changes: vec![stack_change(0, -50), stack_change(1, 300)], pot_change: None, folded_seats: vec![], allin_seats: vec![] },
    );
    assert!(actions.is_empty());
}

#[test]
fn repeated_keys_keep_the_first() {
    let state = make_state_with_blinds();
    let recon = ActionReconstructor::new(ReconConfig::default());
    let actions = recon.reconstruct(
        &state,
        &ReconInput {
            stack_changes: vec![],
            pot_change: None,
            folded_seats: vec![SeatId::new(2), SeatId::new(2)],
            allin_seats: vec![SeatId::new(3), SeatId::new(3)],
        },
    );
    assert_eq!(actions.len(), 2);
    assert_eq!(actions[0].action_type, ActionType::Fold);
    assert_eq!(actions[0].confidence, 950);
    assert_eq!(actions[1].action_type, ActionType::AllIn(10000));
    assert_eq!(actions[1].amount, Some(10000));
    for i in 0..actions.len() {
        for j in (i + 1)..actions.len() {
            assert!(!(actions[i].seat_id == actions[j].seat_id
                && actions[i].street == actions[j].street
                && std::mem::discriminant(&actions[i].action_type) == std::mem::discriminant(&actions[j].action_type)));
        }
    }
}

#[test]
fn big_blind_detection() {
    let mut state = make_state_with_blinds();
    state.blinds.current_max_bet = 0;
    let recon = ActionReconstructor::new(ReconConfig::default());
    let actions = recon.reconstruct(
        &state,
        &ReconInput { stack_changes: vec![stack_change(2, -200)], pot_change: None, folded_seats: vec![], allin_seats: vec![] },
    );
    assert_eq!(actions.len(), 1);
    assert_eq!(actions[0].action_type, ActionType::PostBlind(BlindKind::BigBlind));
}
