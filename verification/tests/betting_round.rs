use tableflow::round::BettingRoundEngine;
use tableflow::state::{ActionRecord, BlindsInfo, SeatState, TableState};
use tableflow::types::{ActionType, SeatId, SeatStatus, Street, TablePhase};

fn make_6max_state() -> TableState {
    let mut state = TableState::initial("test".to_string());
    state.phase = TablePhase::Playing;
    state.street = Street::Preflop;
    state.blinds = BlindsInfo {
        small_blind: 100,
        big_blind: 200,
        current_max_bet: 200,
        last_raise_size: 200,
        ..Default::default()
    };
    for i in 0..6u8 {
        state.seats.push(SeatState {
            seat_id: SeatId::new(i),
            status: SeatStatus::Active,
            stack: 10000,
            current_bet: 0,
            total_bet_this_hand: 0,
            last_action: None,
            is_hero: i == 0,
            has_cards: true,
        });
    }
    state
}

#[test]
fn test_to_call_for_bb() {
    let state = make_6max_state();
    let to_call = BettingRoundEngine::to_call_for(&state, SeatId::new(0));
    assert_eq!(to_call, 200);
}

#[test]
fn test_to_call_for_after_bet() {
    let mut state = make_6max_state();
    state.seats[0].current_bet = 200;
    let to_call = BettingRoundEngine::to_call_for(&state, SeatId::new(0));
    assert_eq!(to_call, 0);
}

#[test]
fn test_min_raise_default() {
    let state = make_6max_state();
    let mr = BettingRoundEngine::min_raise(&state);
    assert_eq!(mr, 200);
}

#[test]
fn test_min_raise_after_3bet() {
    let mut state = make_6max_state();
    state.blinds.last_raise_size = 400;
    let mr = BettingRoundEngine::min_raise(&state);
    assert_eq!(mr, 400);
}

#[test]
fn test_total_committed() {
    let mut state = make_6max_state();
    state.seats[0].total_bet_this_hand = 1000;
    let committed = BettingRoundEngine::total_committed(&state, SeatId::new(0));
    assert_eq!(committed, 1000);
}

#[test]
fn test_is_round_complete_no_actions() {
    let state = make_6max_state();
    assert!(!BettingRoundEngine::is_round_complete(&state));
}

#[test]
fn test_is_round_complete_all_acted_and_matched() {
    let mut state = make_6max_state();
    for seat in &mut state.seats {
        seat.current_bet = 200;
    }
    for i in 0..6u8 {
        state.action_history.push(ActionRecord {
            seat_id: SeatId::new(i),
            action: ActionType::Call,
            amount: 200,
            street: Street::Preflop,
            seq: i as u32 + 1,
            confidence: 900,
        });
    }
    assert!(BettingRoundEngine::is_round_complete(&state));
}

#[test]
fn test_is_round_complete_one_folded() {
    let mut state = make_6max_state();
    for seat in &mut state.seats {
        seat.current_bet = 200;
    }
    state.seats[0].status = SeatStatus::Folded;
    state.seats[0].current_bet = 0;
    for i in 1..6u8 {
        state.action_history.push(ActionRecord {
            seat_id: SeatId::new(i),
            action: ActionType::Call,
            amount: 200,
            street: Street::Preflop,
            seq: i as u32,
            confidence: 900,
        });
    }
    assert!(BettingRoundEngine::is_round_complete(&state));
}

// ---- edge cases and properties ----

#[test]
fn unknown_seat_owes_and_committed_nothing() {
    let state = make_6max_state();
    assert_eq!(BettingRoundEngine::to_call_for(&state, SeatId::new(9)), 0);
    assert_eq!(BettingRoundEngine::total_committed(&state, SeatId::new(9)), 0);
}

#[test]
fn to_call_is_never_negative() {
    let mut state = make_6max_state();
    state.seats[2].current_bet = 500;
    assert_eq!(BettingRoundEngine::to_call_for(&state, SeatId::new(2)), 0);
}

#[test]
fn min_raise_is_at_least_the_big_blind() {
    let mut state = make_6max_state();
    state.blinds.last_raise_size = 50;
    assert_eq!(BettingRoundEngine::min_raise(&state), 200);
}

#[test]
fn round_complete_with_fewer_than_two_active() {
    let mut state = make_6max_state();
    for i in 1..6 {
        state.seats[i].status = SeatStatus::Folded;
    }
    assert!(BettingRoundEngine::is_round_complete(&state));
}

#[test]
fn blinds_alone_do_not_complete_a_round() {
    let mut state = make_6max_state();
    for seat in &mut state.seats {
        seat.current_bet = 200;
    }
    for i in 0..6u8 {
        state.action_history.push(ActionRecord {
            seat_id: SeatId::new(i),
            action: ActionType::PostBlind(tableflow::types::BlindKind::Ante),
            amount: 200,
            street: Street::Preflop,
            seq: i as u32 + 1,
            confidence: 900,
        });
    }
    assert!(!BettingRoundEngine::is_round_complete(&state));
}
