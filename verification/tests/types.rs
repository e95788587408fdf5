use tableflow::frame::Rect;
use tableflow::types::{Rank, SeatId, Suit};

#[test]
fn seat_ids_and_rects_hold_their_values() {
    assert_eq!(SeatId::new(3).0, 3);
    let r = Rect::new(-4, 5, 6, 7);
    assert_eq!((r.x, r.y, r.width, r.height), (-4, 5, 6, 7));
}

#[test]
fn rank_values_and_letters() {
    assert_eq!(Rank::Two.value(), 2);
    assert_eq!(Rank::Ten.value(), 10);
    assert_eq!(Rank::Ace.value(), 14);
    assert_eq!(Rank::Ten.short_str(), "T");
    assert_eq!(Rank::Seven.short_str(), "7");
    assert_eq!(Suit::Clubs.short_str(), "c");
    assert_eq!(Suit::Hearts.short_str(), "h");
    assert!(Rank::King < Rank::Ace);
}
