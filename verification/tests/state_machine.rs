use tableflow::events::{ReconstructedAction, StateTransition, TableEvent};
use tableflow::machine::{TableStateMachine, EVENT_LOG_CAPACITY};
use tableflow::state::SeatState;
use tableflow::types::{
    ActionSource, ActionType, BlindKind, Card, Rank, SeatId, SeatStatus, Street, Suit, TablePhase,
};

fn make_machine_with_seats() -> TableStateMachine {
    let mut sm = TableStateMachine::new("test".to_string());
    let mut st = sm.snapshot();
    st.seats = (0..6u8)
        .map(|i| SeatState {
            seat_id: SeatId::new(i),
            status: if i < 4 { SeatStatus::Active } else { SeatStatus::Empty },
            stack: 10000,
            current_bet: 0,
            total_bet_this_hand: 0,
            last_action: None,
            is_hero: i == 0,
            has_cards: i < 4,
        })
        .collect();
    sm.set_state(st);
    sm
}

fn action(seat: u8, action_type: ActionType, amount: Option<i64>, street: Street, confidence: u32, source: ActionSource) -> TableEvent {
    TableEvent::ActionReconstructed {
        action: ReconstructedAction {
            seat_id: SeatId::new(seat),
            action_type,
            amount,
            street,
            timestamp_ms: 0,
            confidence,
            source,
        },
    }
}

fn new_hand(sm: &mut TableStateMachine, dealer: u8) {
    sm.process_event(TableEvent::NewHandDetected { dealer_seat: SeatId::new(dealer) }).unwrap();
}

fn set_blinds(sm: &mut TableStateMachine, big_blind: i64, current_max_bet: i64) {
    let mut st = sm.snapshot();
    st.blinds.big_blind = big_blind;
    st.blinds.current_max_bet = current_max_bet;
    sm.set_state(st);
}

#[test]
fn test_new_hand() {
    let mut sm = make_machine_with_seats();
    let transitions = sm
        .process_event(TableEvent::NewHandDetected { dealer_seat: SeatId::new(2) })
        .unwrap();

    assert_eq!(transitions.len(), 1);
    assert!(matches!(&transitions[0], StateTransition::HandStarted { hand_number: 1 }));
    assert_eq!(sm.state().phase, TablePhase::Playing);
    assert_eq!(sm.state().street, Street::Preflop);
    assert_eq!(sm.state().dealer_seat, Some(SeatId::new(2)));
    assert!(sm.state().hole_cards.is_none());
    assert!(sm.state().community_cards.is_empty());
    assert!(sm.state().action_history.is_empty());
}

#[test]
fn test_hole_cards_detected() {
    let mut sm = make_machine_with_seats();
    new_hand(&mut sm, 0);

    let cards = [
        Card { suit: Suit::Spades, rank: Rank::Ace, confidence: 990 },
        Card { suit: Suit::Hearts, rank: Rank::King, confidence: 990 },
    ];
    sm.process_event(TableEvent::HoleCardsDetected { cards }).unwrap();

    assert_eq!(sm.state().hole_cards, Some(cards));
}

#[test]
fn test_community_cards_changed() {
    let mut sm = make_machine_with_seats();
    new_hand(&mut sm, 0);

    let flop = vec![
        Card { suit: Suit::Spades, rank: Rank::Two, confidence: 990 },
        Card { suit: Suit::Hearts, rank: Rank::Three, confidence: 990 },
        Card { suit: Suit::Diamonds, rank: Rank::Four, confidence: 990 },
    ];
    let transitions = sm
        .process_event(TableEvent::CommunityCardsChanged { cards: flop.clone(), street: Street::Flop })
        .unwrap();

    assert_eq!(transitions.len(), 1);
    assert!(matches!(
        &transitions[0],
        StateTransition::StreetChanged { from: Street::Preflop, to: Street::Flop }
    ));
    assert_eq!(sm.state().community_cards, flop);
    assert_eq!(sm.state().street, Street::Flop);
}

#[test]
fn test_fold_action() {
    let mut sm = make_machine_with_seats();
    new_hand(&mut sm, 0);

    let transitions = sm
        .process_event(action(1, ActionType::Fold, None, Street::Preflop, 950, ActionSource::SeatStatusChange))
        .unwrap();

    assert_eq!(transitions.len(), 1);
    assert!(matches!(&transitions[0], StateTransition::ActionRecorded(_)));
    assert_eq!(sm.state().seats[1].status, SeatStatus::Folded);
    assert!(!sm.state().seats[1].has_cards);
}

#[test]
fn test_call_action() {
    let mut sm = make_machine_with_seats();
    new_hand(&mut sm, 0);
    set_blinds(&mut sm, 200, 200);

    sm.process_event(action(0, ActionType::Call, Some(200), Street::Preflop, 900, ActionSource::StackDiff))
        .unwrap();

    assert_eq!(sm.state().seats[0].stack, 9800);
    assert_eq!(sm.state().seats[0].current_bet, 200);
}

#[test]
fn test_bet_action() {
    let mut sm = make_machine_with_seats();
    new_hand(&mut sm, 0);
    set_blinds(&mut sm, 200, 0);
    let mut st = sm.snapshot();
    st.street = Street::Flop;
    sm.set_state(st);

    sm.process_event(action(0, ActionType::Bet(600), Some(600), Street::Flop, 900, ActionSource::StackDiff))
        .unwrap();

    assert_eq!(sm.state().seats[0].stack, 9400);
    assert_eq!(sm.state().seats[0].current_bet, 600);
    assert_eq!(sm.state().blinds.current_max_bet, 600);
}

#[test]
fn test_raise_action() {
    let mut sm = make_machine_with_seats();
    new_hand(&mut sm, 0);
    set_blinds(&mut sm, 200, 200);

    sm.process_event(action(0, ActionType::Raise(800), Some(800), Street::Preflop, 900, ActionSource::StackDiff))
        .unwrap();

    assert_eq!(sm.state().seats[0].stack, 9200);
    assert_eq!(sm.state().seats[0].current_bet, 800);
    assert_eq!(sm.state().blinds.current_max_bet, 800);
    assert_eq!(sm.state().blinds.last_raise_size, 600);
}

#[test]
fn test_allin_action() {
    let mut sm = make_machine_with_seats();
    new_hand(&mut sm, 0);
    set_blinds(&mut sm, 200, 200);

    sm.process_event(action(0, ActionType::AllIn(10000), Some(10000), Street::Preflop, 900, ActionSource::StackDiff))
        .unwrap();

    assert_eq!(sm.state().seats[0].stack, 0);
    assert_eq!(sm.state().seats[0].status, SeatStatus::AllIn);
}

#[test]
fn test_post_blind_sb() {
    let mut sm = make_machine_with_seats();
    new_hand(&mut sm, 0);

    sm.process_event(action(
        1,
        ActionType::PostBlind(BlindKind::SmallBlind),
        Some(100),
        Street::Preflop,
        900,
        ActionSource::StackDiff,
    ))
    .unwrap();

    assert_eq!(sm.state().seats[1].stack, 9900);
    assert_eq!(sm.state().seats[1].current_bet, 100);
    assert_eq!(sm.state().blinds.small_blind, 100);
}

#[test]
fn test_post_blind_bb() {
    let mut sm = make_machine_with_seats();
    new_hand(&mut sm, 0);

    sm.process_event(action(
        2,
        ActionType::PostBlind(BlindKind::BigBlind),
        Some(200),
        Street::Preflop,
        900,
        ActionSource::StackDiff,
    ))
    .unwrap();

    assert_eq!(sm.state().seats[2].stack, 9800);
    assert_eq!(sm.state().blinds.big_blind, 200);
    assert_eq!(sm.state().blinds.current_max_bet, 200);
}

#[test]
fn test_advance_turn() {
    let mut sm = make_machine_with_seats();
    new_hand(&mut sm, 0);
    let mut st = sm.snapshot();
    st.current_player_turn = Some(SeatId::new(0));
    sm.set_state(st);

    sm.advance_turn();
    assert_eq!(sm.state().current_player_turn, Some(SeatId::new(1)));
}

#[test]
fn test_advance_turn_skips_folded() {
    let mut sm = make_machine_with_seats();
    new_hand(&mut sm, 0);
    let mut st = sm.snapshot();
    st.seats[1].status = SeatStatus::Folded;
    st.current_player_turn = Some(SeatId::new(0));
    sm.set_state(st);

    sm.advance_turn();
    assert_eq!(sm.state().current_player_turn, Some(SeatId::new(2)));
}

#[test]
fn test_reset_to_waiting() {
    let mut sm = make_machine_with_seats();
    new_hand(&mut sm, 0);

    sm.reset_to_waiting();

    assert_eq!(sm.state().phase, TablePhase::Waiting);
    assert_eq!(sm.state().hand_number, 0);
    assert!(sm.state().dealer_seat.is_none());
}

#[test]
fn test_event_log_capacity() {
    let mut sm = make_machine_with_seats();
    new_hand(&mut sm, 0);

    for _ in 0..1100 {
        sm.process_event(TableEvent::Timeout).unwrap();
    }

    assert!(sm.event_log().len() <= EVENT_LOG_CAPACITY);
}

#[test]
fn test_timeout_decreases_confidence() {
    let mut sm = make_machine_with_seats();
    let initial_conf = sm.state().state_confidence;

    sm.process_event(TableEvent::Timeout).unwrap();

    assert!(sm.state().state_confidence < initial_conf);
    assert!(sm.state().state_confidence >= 500);
}

#[test]
fn test_dealer_button_moved() {
    let mut sm = make_machine_with_seats();
    sm.process_event(TableEvent::DealerButtonMoved { new_seat: SeatId::new(3) }).unwrap();

    assert_eq!(sm.state().dealer_seat, Some(SeatId::new(3)));
}

#[test]
fn test_pot_changed() {
    let mut sm = make_machine_with_seats();
    sm.process_event(TableEvent::PotChanged { new_total: 4200, delta: 1000 }).unwrap();

    assert_eq!(sm.state().pot.total, 4200);
}

#[test]
fn test_full_hand_lifecycle() {
    let mut sm = make_machine_with_seats();
    new_hand(&mut sm, 0);

    sm.process_event(action(
        1,
        ActionType::PostBlind(BlindKind::SmallBlind),
        Some(100),
        Street::Preflop,
        900,
        ActionSource::StackDiff,
    ))
    .unwrap();
    sm.process_event(action(
        2,
        ActionType::PostBlind(BlindKind::BigBlind),
        Some(200),
        Street::Preflop,
        900,
        ActionSource::StackDiff,
    ))
    .unwrap();
    sm.process_event(action(0, ActionType::Call, Some(200), Street::Preflop, 900, ActionSource::StackDiff))
        .unwrap();
    sm.process_event(action(1, ActionType::Call, Some(100), Street::Preflop, 900, ActionSource::StackDiff))
        .unwrap();

    assert_eq!(sm.state().action_history.len(), 4);
    assert_eq!(sm.state().hand_number, 1);
}

// ---- properties on concrete values ----

#[test]
fn records_are_numbered_in_order() {
    let mut sm = make_machine_with_seats();
    new_hand(&mut sm, 0);
    sm.process_event(action(1, ActionType::Check, None, Street::Preflop, 900, ActionSource::StackDiff)).unwrap();
    sm.process_event(action(2, ActionType::Fold, None, Street::Preflop, 900, ActionSource::StackDiff)).unwrap();
    sm.process_event(action(3, ActionType::Check, None, Street::Preflop, 900, ActionSource::StackDiff)).unwrap();
    let seqs: Vec<u32> = sm.state().action_history.iter().map(|r| r.seq).collect();
    assert_eq!(seqs, vec![1, 2, 3]);
    new_hand(&mut sm, 1);
    assert!(sm.state().action_history.is_empty());
    assert_eq!(sm.state().hand_number, 2);
    sm.process_event(action(1, ActionType::Check, None, Street::Preflop, 900, ActionSource::StackDiff)).unwrap();
    assert_eq!(sm.state().action_history[0].seq, 1);
}

#[test]
fn confidence_stays_between_half_and_full() {
    let mut sm = make_machine_with_seats();
    for _ in 0..20 {
        sm.process_event(TableEvent::Timeout).unwrap();
    }
    assert_eq!(sm.state().state_confidence, 500);
    let cards = [
        Card { suit: Suit::Spades, rank: Rank::Ace, confidence: 990 },
        Card { suit: Suit::Hearts, rank: Rank::King, confidence: 990 },
    ];
    for _ in 0..20 {
        sm.process_event(TableEvent::HoleCardsDetected { cards }).unwrap();
    }
    assert_eq!(sm.state().state_confidence, 1000);
}

#[test]
fn timeout_reports_the_new_confidence() {
    let mut sm = make_machine_with_seats();
    let t = sm.process_event(TableEvent::Timeout).unwrap();
    assert!(matches!(&t[0], StateTransition::StateConfidenceUpdated { new_confidence: 950 }));
}

#[test]
fn chips_are_conserved_at_the_acting_seat() {
    let mut sm = make_machine_with_seats();
    new_hand(&mut sm, 0);
    set_blinds(&mut sm, 200, 200);
    sm.process_event(action(0, ActionType::Raise(800), Some(800), Street::Preflop, 900, ActionSource::StackDiff))
        .unwrap();
    sm.process_event(action(1, ActionType::Call, Some(800), Street::Preflop, 900, ActionSource::StackDiff))
        .unwrap();
    sm.process_event(action(2, ActionType::AllIn(10000), Some(10000), Street::Preflop, 900, ActionSource::StackDiff))
        .unwrap();
    for i in 0..3 {
        let s = &sm.state().seats[i];
        assert_eq!(s.stack + s.total_bet_this_hand, 10000);
    }
    assert_eq!(sm.state().blinds.current_max_bet, 10000);
}

#[test]
fn street_change_clears_street_bets() {
    let mut sm = make_machine_with_seats();
    new_hand(&mut sm, 0);
    set_blinds(&mut sm, 200, 200);
    sm.process_event(action(0, ActionType::Call, Some(200), Street::Preflop, 900, ActionSource::StackDiff))
        .unwrap();
    sm.process_event(TableEvent::CommunityCardsChanged { cards: vec![], street: Street::Flop }).unwrap();
    assert_eq!(sm.state().seats[0].current_bet, 0);
    assert_eq!(sm.state().seats[0].total_bet_this_hand, 200);
    assert_eq!(sm.state().blinds.current_max_bet, 0);
    assert_eq!(sm.state().blinds.last_raise_size, 200);
}

#[test]
fn turn_goes_nowhere_without_active_seats() {
    let mut sm = make_machine_with_seats();
    let mut st = sm.snapshot();
    for s in st.seats.iter_mut() {
        s.status = SeatStatus::Folded;
    }
    st.current_player_turn = Some(SeatId::new(0));
    sm.set_state(st);
    sm.advance_turn();
    assert_eq!(sm.state().current_player_turn, None);
}

#[test]
fn turn_wraps_round_the_table() {
    let mut sm = make_machine_with_seats();
    let mut st = sm.snapshot();
    st.current_player_turn = Some(SeatId::new(3));
    sm.set_state(st);
    sm.advance_turn();
    assert_eq!(sm.state().current_player_turn, Some(SeatId::new(0)));
}

#[test]
fn event_log_keeps_the_latest_events() {
    let mut sm = make_machine_with_seats();
    for _ in 0..EVENT_LOG_CAPACITY {
        sm.process_event(TableEvent::Timeout).unwrap();
    }
    sm.process_event(TableEvent::DealerButtonMoved { new_seat: SeatId::new(1) }).unwrap();
    assert_eq!(sm.event_log().len(), EVENT_LOG_CAPACITY);
    assert!(matches!(sm.event_log().back(), Some(TableEvent::DealerButtonMoved { .. })));
}

#[test]
fn sequence_counters_step_by_one() {
    let mut sm = TableStateMachine::new("t".to_string());
    assert_eq!(sm.next_action_seq(), 1);
    assert_eq!(sm.next_action_seq(), 2);
    assert_eq!(sm.next_hand_seq(), 1);
    new_hand(&mut sm, 0);
    assert_eq!(sm.state().hand_number, 2);
    assert_eq!(sm.next_action_seq(), 1);
}
