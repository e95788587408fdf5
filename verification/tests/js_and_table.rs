use tableflow::js_types::{js_seat_id, phase_to_str, status_to_str, street_to_str, JsCard, OpaqueTsfn};
use tableflow::table::{simple_hash, CancelToken};
use tableflow::types::{Card, Rank, SeatId, SeatStatus, Street, Suit, TablePhase};

#[test]
fn test_street_to_str() {
    assert_eq!(street_to_str(Street::Preflop), "preflop");
    assert_eq!(street_to_str(Street::Flop), "flop");
    assert_eq!(street_to_str(Street::Turn), "turn");
    assert_eq!(street_to_str(Street::River), "river");
    assert_eq!(street_to_str(Street::Showdown), "showdown");
}

#[test]
fn test_phase_to_str() {
    assert_eq!(phase_to_str(TablePhase::Waiting), "waiting");
    assert_eq!(phase_to_str(TablePhase::Playing), "playing");
}

#[test]
fn test_status_to_str() {
    assert_eq!(status_to_str(SeatStatus::Active), "active");
    assert_eq!(status_to_str(SeatStatus::Folded), "folded");
    assert_eq!(status_to_str(SeatStatus::AllIn), "allIn");
}

#[test]
fn test_js_seat_id() {
    assert_eq!(js_seat_id(SeatId::new(5)), 5);
}

#[test]
fn test_js_card_from_card() {
    let card = Card { suit: Suit::Spades, rank: Rank::Ace, confidence: 1000 };
    let js = JsCard::from_card(card);
    assert_eq!(js.suit, "s");
    assert_eq!(js.rank, "A");
}

#[test]
fn remaining_names() {
    assert_eq!(phase_to_str(TablePhase::Showdown), "showdown");
    assert_eq!(phase_to_str(TablePhase::Cleanup), "cleanup");
    assert_eq!(status_to_str(SeatStatus::Empty), "empty");
    assert_eq!(status_to_str(SeatStatus::SittingOut), "sittingOut");
    let js = JsCard::from_card(Card { suit: Suit::Diamonds, rank: Rank::Ten, confidence: 500 });
    assert_eq!(js.suit, "d");
    assert_eq!(js.rank, "T");
}

#[test]
fn placeholder_callback_accepts_values() {
    let tsfn: OpaqueTsfn<u32> = OpaqueTsfn::placeholder();
    assert!(tsfn.call(7).is_ok());
}

#[test]
fn test_cancel_token() {
    let token = CancelToken::default();
    assert!(!token.is_cancelled());
    token.cancel();
    assert!(token.is_cancelled());
}

#[test]
fn test_cancel_token_clone() {
    let token = CancelToken::default();
    let clone = token.clone();
    token.cancel();
    assert!(clone.is_cancelled());
}

#[test]
fn test_simple_hash_deterministic() {
    let h1 = simple_hash("PokerStars Table #123");
    let h2 = simple_hash("PokerStars Table #123");
    assert_eq!(h1, h2);
}

#[test]
fn test_simple_hash_differs() {
    let h1 = simple_hash("PokerStars Table #123");
    let h2 = simple_hash("GGPoker Table #456");
    assert_ne!(h1, h2);
}

#[test]
fn simple_hash_is_djb2() {
    assert_eq!(simple_hash(""), 5381);
    assert_eq!(simple_hash("a"), 5381 * 33 + 97);
    assert_eq!(simple_hash("ab"), (5381u64 * 33 + 97) * 33 + 98);
}
