use tableflow::rec_input::build_rec_input;
use tableflow::state::{ActionRecord, BlindsInfo, PotInfo, SeatState, TableState};
use tableflow::types::{ActionType, BlindKind, Card, Rank, SeatId, SeatStatus, Street, Suit, TablePhase};

fn seat(id: u8, status: SeatStatus, stack: i64, total: i64, is_hero: bool) -> SeatState {
    SeatState {
        seat_id: SeatId::new(id),
        status,
        stack,
        current_bet: 0,
        total_bet_this_hand: total,
        last_action: None,
        is_hero,
        has_cards: status != SeatStatus::Folded,
    }
}

fn record(seat: u8, action: ActionType, amount: i64, seq: u32) -> ActionRecord {
    ActionRecord { seat_id: SeatId::new(seat), action, amount, street: Street::Preflop, seq, confidence: 1000 }
}

fn make_state_with_hero() -> TableState {
    TableState {
        table_id: "test".to_string(),
        phase: TablePhase::Playing,
        street: Street::Preflop,
        hand_number: 1,
        dealer_seat: Some(SeatId::new(1)),
        hero_seat: Some(SeatId::new(0)),
        hole_cards: Some([
            Card { suit: Suit::Spades, rank: Rank::Ace, confidence: 1000 },
            Card { suit: Suit::Hearts, rank: Rank::King, confidence: 1000 },
        ]),
        community_cards: vec![],
        pot: PotInfo { main_pot: 10000, side_pots: vec![], total: 10000 },
        seats: vec![
            seat(0, SeatStatus::Active, 50000, 5000, true),
            seat(1, SeatStatus::Active, 45000, 5000, false),
            seat(2, SeatStatus::Folded, 40000, 0, false),
        ],
        action_history: vec![
            record(1, ActionType::PostBlind(BlindKind::SmallBlind), 2500, 0),
            record(0, ActionType::PostBlind(BlindKind::BigBlind), 5000, 1),
            record(2, ActionType::Fold, 0, 2),
            record(1, ActionType::Call, 2500, 3),
        ],
        current_player_turn: Some(SeatId::new(0)),
        blinds: BlindsInfo {
            small_blind: 2500,
            big_blind: 5000,
            ante: 0,
            straddle: 0,
            current_max_bet: 5000,
            last_raise_size: 5000,
        },
        last_update_ms: 0,
        state_confidence: 1000,
    }
}

#[test]
fn test_build_rec_input_with_hero() {
    let state = make_state_with_hero();
    let input = build_rec_input(&state).unwrap();
    assert_eq!(input.hole_cards[0].rank, Rank::Ace);
    assert_eq!(input.hole_cards[1].rank, Rank::King);
    assert!(input.community_cards.is_empty());
    assert_eq!(input.pot, 10000);
    assert_eq!(input.stack, 50000);
    assert_eq!(input.street, Street::Preflop);
    assert_eq!(input.num_opponents, 1);
    assert_eq!(input.action_history.len(), 2);
    assert!(input.action_history.iter().all(|a| !a.is_blind()));
}

#[test]
fn test_build_rec_input_no_hero() {
    let mut state = make_state_with_hero();
    state.hero_seat = None;
    assert!(build_rec_input(&state).is_none());
}

#[test]
fn test_build_rec_input_no_hole_cards() {
    let mut state = make_state_with_hero();
    state.hole_cards = None;
    assert!(build_rec_input(&state).is_none());
}

#[test]
fn test_build_rec_input_filters_post_blind() {
    let state = make_state_with_hero();
    let input = build_rec_input(&state).unwrap();
    for record in &input.action_history {
        assert!(!matches!(record.action, ActionType::PostBlind(_)));
    }
}

// ---- more ----

#[test]
fn hero_missing_from_the_table_gives_nothing() {
    let mut state = make_state_with_hero();
    state.hero_seat = Some(SeatId::new(7));
    assert!(build_rec_input(&state).is_none());
}

#[test]
fn to_call_and_min_raise_come_from_the_betting_round() {
    let mut state = make_state_with_hero();
    state.blinds.current_max_bet = 15000;
    state.blinds.last_raise_size = 10000;
    state.seats[0].current_bet = 5000;
    let input = build_rec_input(&state).unwrap();
    assert_eq!(input.to_call, 10000);
    assert_eq!(input.min_raise, 10000);
    assert_eq!(input.action_history[0].action, ActionType::Fold);
    assert_eq!(input.action_history[1].amount, 2500);
}
