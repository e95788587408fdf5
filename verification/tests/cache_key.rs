use tableflow::cache_key::compute_cache_key;
use tableflow::rec_cache::RecCache;
use tableflow::rec_input::{RecActionRecord, RecInput};
use tableflow::types::{ActionType, Card, Rank, SeatId, Street, Suit};

fn make_input(action_count: usize) -> RecInput {
    let history: Vec<RecActionRecord> = (0..action_count)
        .map(|i| RecActionRecord {
            seat_id: SeatId::new((i % 3) as u8),
            action: ActionType::Call,
            amount: 5000 + (i as i64) * 100,
            street: Street::Preflop,
        })
        .collect();

    RecInput {
        hole_cards: [
            Card { suit: Suit::Spades, rank: Rank::Ace, confidence: 1000 },
            Card { suit: Suit::Hearts, rank: Rank::King, confidence: 1000 },
        ],
        community_cards: vec![],
        pot: 10000,
        to_call: 5000,
        min_raise: 10000,
        stack: 50000,
        street: Street::Preflop,
        num_opponents: 3,
        action_history: history,
    }
}

#[test]
fn test_compute_cache_key_deterministic() {
    let input = make_input(2);
    let key1 = compute_cache_key(&input);
    let key2 = compute_cache_key(&input);
    assert_eq!(key1, key2);
}

#[test]
fn test_compute_cache_key_differs_with_history() {
    let input1 = make_input(1);
    let input2 = make_input(2);
    let key1 = compute_cache_key(&input1);
    let key2 = compute_cache_key(&input2);
    assert_ne!(key1, key2);
}

#[test]
fn test_compute_cache_key_includes_cards() {
    let mut input = make_input(0);
    let key1 = compute_cache_key(&input);
    input.hole_cards[0] = Card { suit: Suit::Clubs, rank: Rank::Two, confidence: 1000 };
    let key2 = compute_cache_key(&input);
    assert_ne!(key1, key2);
}

#[test]
fn cache_key_exact_text_without_history() {
    let input = make_input(0);
    assert_eq!(compute_cache_key(&input), "[As1000,Kh1000,][]|p100.00|c50.00|s500.00|m100.00|preflop|n3|h[]");
}

#[test]
fn cache_key_exact_text_with_history_and_board() {
    let mut input = make_input(2);
    input.community_cards = vec![Card { suit: Suit::Diamonds, rank: Rank::Ten, confidence: 950 }];
    input.street = Street::Flop;
    input.action_history[1].action = ActionType::Raise(12345);
    input.action_history[1].amount = -7;
    assert_eq!(
        compute_cache_key(&input),
        "[As1000,Kh1000,][Td950,]|p100.00|c50.00|s500.00|m100.00|flop|n3|h[\
         0002+0000000000000005000\
         0014-0000000000000000007]"
    );
}

#[test]
fn cache_key_differs_by_seat_kind_or_amount_of_one_entry() {
    let base = make_input(3);
    let k = compute_cache_key(&base);

    let mut seat = base.clone();
    seat.action_history[1].seat_id = SeatId::new(7);
    assert_ne!(compute_cache_key(&seat), k);

    let mut kind = base.clone();
    kind.action_history[1].action = ActionType::Check;
    assert_ne!(compute_cache_key(&kind), k);

    let mut amount = base.clone();
    amount.action_history[1].amount += 1;
    assert_ne!(compute_cache_key(&amount), k);

    let mut sign = base.clone();
    sign.action_history[1].amount = -sign.action_history[1].amount;
    assert_ne!(compute_cache_key(&sign), k);
}

#[derive(Debug, Clone)]
struct Output {
    action: String,
    confidence: f64,
}

fn make_output(action: &str) -> Output {
    Output { action: action.to_string(), confidence: 0.8 }
}

#[test]
fn test_cache_put_get() {
    let mut cache = RecCache::with_capacity(10);
    let key = "test_key".to_string();
    let output = make_output("fold");
    cache.put(key.clone(), output.clone());
    let result = cache.get(&key);
    assert!(result.is_some());
    assert_eq!(result.unwrap().action, "fold");
}

#[test]
fn test_cache_miss() {
    let cache: RecCache<Output> = RecCache::with_capacity(10);
    assert!(cache.get("nonexistent").is_none());
}

#[test]
fn test_cache_clear() {
    let mut cache = RecCache::with_capacity(10);
    cache.put("key1".to_string(), make_output("fold"));
    cache.put("key2".to_string(), make_output("call"));
    cache.clear();
    assert!(cache.get("key1").is_none());
    assert!(cache.get("key2").is_none());
}

#[test]
fn test_cache_capacity_eviction() {
    let mut cache = RecCache::with_capacity(2);
    cache.put("key1".to_string(), make_output("fold"));
    cache.put("key2".to_string(), make_output("call"));
    cache.put("key3".to_string(), make_output("raise"));
    let results = [cache.get("key1").is_some(), cache.get("key2").is_some(), cache.get("key3").is_some()];
    let some_count = results.iter().filter(|&&r| r).count();
    assert_eq!(some_count, 2);
}

#[test]
fn test_cache_overwrite() {
    let mut cache = RecCache::with_capacity(10);
    cache.put("key1".to_string(), make_output("fold"));
    cache.put("key1".to_string(), make_output("call"));
    let result = cache.get("key1").unwrap();
    assert_eq!(result.action, "call");
}

#[test]
fn cache_without_limit_keeps_everything() {
    let mut cache: RecCache<Output> = RecCache::default();
    for i in 0..50 {
        cache.put(format!("k{}", i), make_output("check"));
    }
    for i in 0..50 {
        assert!(cache.get(&format!("k{}", i)).is_some());
    }
    assert_eq!(cache.get("k7").unwrap().confidence, 0.8);
}

#[test]
fn full_cache_keeps_the_new_entry_and_stays_within_its_limit() {
    let mut cache = RecCache::with_capacity(2);
    cache.put("a".to_string(), make_output("fold"));
    cache.put("b".to_string(), make_output("call"));
    cache.put("b".to_string(), make_output("raise"));
    assert_eq!(cache.get("b").unwrap().action, "raise");
    let held = ["a", "b"].iter().filter(|k| cache.get(k).is_some()).count();
    assert!(held >= 1 && held <= 2);
    cache.put("c".to_string(), make_output("bet"));
    assert_eq!(cache.get("c").unwrap().action, "bet");
    let held = ["a", "b", "c"].iter().filter(|k| cache.get(k).is_some()).count();
    assert_eq!(held, 2);
}
