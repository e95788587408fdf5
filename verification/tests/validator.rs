use tableflow::state::{BlindsInfo, SeatState, TableState};
use tableflow::types::{Card, Rank, SeatId, SeatStatus, Street, Suit, TablePhase};
use tableflow::validator::{StateValidator, ValidationIssue, ValidationResult};

fn make_valid_state() -> TableState {
    let mut state = TableState::initial("test".to_string());
    state.phase = TablePhase::Playing;
    state.street = Street::Preflop;
    state.hero_seat = Some(SeatId::new(0));
    state.blinds = BlindsInfo {
        small_blind: 100,
        big_blind: 200,
        current_max_bet: 200,
        last_raise_size: 200,
        ..Default::default()
    };
    state.seats = vec![SeatState {
        seat_id: SeatId::new(0),
        status: SeatStatus::Active,
        stack: 10000,
        current_bet: 200,
        total_bet_this_hand: 200,
        last_action: None,
        is_hero: true,
        has_cards: true,
    }];
    state.pot.total = 200;
    state.pot.main_pot = 200;
    state
}

fn issues(state: &TableState) -> Vec<ValidationIssue> {
    match StateValidator::validate(state) {
        ValidationResult::Issues(issues) => issues,
        _ => panic!("Expected Issues"),
    }
}

#[test]
fn test_valid_state() {
    let state = make_valid_state();
    assert!(matches!(StateValidator::validate(&state), ValidationResult::Valid));
}

#[test]
fn test_negative_stack() {
    let mut state = make_valid_state();
    state.seats[0].stack = -500;
    match StateValidator::validate(&state) {
        ValidationResult::Issues(issues) => {
            assert!(issues.iter().any(|i| matches!(i, ValidationIssue::NegativeStack { .. })));
        }
        _ => panic!("Expected Issues"),
    }
}

#[test]
fn test_card_street_mismatch() {
    let mut state = make_valid_state();
    state.street = Street::Flop;
    state.community_cards = vec![Card { suit: Suit::Spades, rank: Rank::Ace, confidence: 1000 }];
    match StateValidator::validate(&state) {
        ValidationResult::Issues(issues) => {
            assert!(issues.iter().any(|i| matches!(i, ValidationIssue::CardStreetMismatch { .. })));
        }
        _ => panic!("Expected Issues"),
    }
}

#[test]
fn test_duplicate_cards() {
    let mut state = make_valid_state();
    let card = Card { suit: Suit::Spades, rank: Rank::Ace, confidence: 1000 };
    state.community_cards = vec![card, card];
    state.street = Street::Flop;
    state.community_cards.push(Card { suit: Suit::Hearts, rank: Rank::King, confidence: 1000 });
    match StateValidator::validate(&state) {
        ValidationResult::Issues(issues) => {
            assert!(issues.iter().any(|i| matches!(i, ValidationIssue::DuplicateCards)));
        }
        _ => panic!("Expected Issues"),
    }
}

#[test]
fn test_hero_not_configured() {
    let mut state = make_valid_state();
    state.hero_seat = None;
    match StateValidator::validate(&state) {
        ValidationResult::Issues(issues) => {
            assert!(issues.iter().any(|i| matches!(i, ValidationIssue::HeroNotConfigured)));
        }
        _ => panic!("Expected Issues"),
    }
}

#[test]
fn test_blinds_not_configured() {
    let mut state = make_valid_state();
    state.blinds.big_blind = 0;
    match StateValidator::validate(&state) {
        ValidationResult::Issues(issues) => {
            assert!(issues.iter().any(|i| matches!(i, ValidationIssue::BlindsNotConfigured)));
        }
        _ => panic!("Expected Issues"),
    }
}

#[test]
fn test_pot_bet_mismatch() {
    let mut state = make_valid_state();
    state.pot.total = 10000;
    state.seats[0].total_bet_this_hand = 200;
    match StateValidator::validate(&state) {
        ValidationResult::Issues(issues) => {
            assert!(issues.iter().any(|i| matches!(i, ValidationIssue::PotBetMismatch { .. })));
        }
        _ => panic!("Expected Issues"),
    }
}

// ---- tolerances and order ----

#[test]
fn pot_within_half_a_big_blind_is_fine() {
    let mut state = make_valid_state();
    state.pot.total = 300;
    assert!(matches!(StateValidator::validate(&state), ValidationResult::Valid));
    state.pot.total = 301;
    assert_eq!(issues(&state), vec![ValidationIssue::PotBetMismatch { pot: 301, total_bets: 200 }]);
}

#[test]
fn pot_within_two_percent_is_fine() {
    let mut state = make_valid_state();
    state.seats[0].total_bet_this_hand = 100000;
    state.pot.total = 102000;
    assert!(matches!(StateValidator::validate(&state), ValidationResult::Valid));
    state.pot.total = 102100;
    assert!(matches!(issues(&state)[0], ValidationIssue::PotBetMismatch { .. }));
}

#[test]
fn hole_card_clashing_with_board_is_a_duplicate() {
    let mut state = make_valid_state();
    state.street = Street::Flop;
    state.community_cards = vec![
        Card { suit: Suit::Spades, rank: Rank::Ace, confidence: 1000 },
        Card { suit: Suit::Hearts, rank: Rank::Two, confidence: 1000 },
        Card { suit: Suit::Clubs, rank: Rank::Nine, confidence: 1000 },
    ];
    state.hole_cards = Some([
        Card { suit: Suit::Spades, rank: Rank::Ace, confidence: 800 },
        Card { suit: Suit::Diamonds, rank: Rank::King, confidence: 1000 },
    ]);
    assert_eq!(issues(&state), vec![ValidationIssue::DuplicateCards]);
}

#[test]
fn issues_come_in_check_order() {
    let mut state = make_valid_state();
    state.seats[0].stack = -1;
    state.hero_seat = None;
    state.blinds.big_blind = 0;
    assert_eq!(
        issues(&state),
        vec![
            ValidationIssue::NegativeStack { seat_id: SeatId::new(0), stack: -1 },
            ValidationIssue::HeroNotConfigured,
            ValidationIssue::BlindsNotConfigured,
        ]
    );
}

#[test]
fn card_count_is_not_checked_while_waiting() {
    let mut state = make_valid_state();
    state.phase = TablePhase::Waiting;
    state.street = Street::River;
    assert!(matches!(StateValidator::validate(&state), ValidationResult::Valid));
}
