use tableflow::digit_model::split_amount_text;
use tableflow::js_types::action_to_str;
use tableflow::prepost::ctc_collapse;
use tableflow::table::table_id_for;
use tableflow::types::{ActionType, BlindKind};

#[test]
fn test_action_to_str() {
    assert_eq!(action_to_str(&ActionType::Fold), "fold");
    assert_eq!(action_to_str(&ActionType::Call), "call");
    assert!(action_to_str(&ActionType::Bet(5000)).starts_with("bet:"));
}

#[test]
fn action_amounts_are_written_in_chips() {
    assert_eq!(action_to_str(&ActionType::Bet(5000)), "bet:50.00");
    assert_eq!(action_to_str(&ActionType::Raise(1234)), "raise:12.34");
    assert_eq!(action_to_str(&ActionType::AllIn(5)), "allIn:0.05");
    assert_eq!(action_to_str(&ActionType::Bet(-250)), "bet:-2.50");
    assert_eq!(action_to_str(&ActionType::Raise(i64::MIN)), "raise:-92233720368547758.08");
    assert_eq!(action_to_str(&ActionType::Check), "check");
    assert_eq!(action_to_str(&ActionType::PostBlind(BlindKind::SmallBlind)), "postSb");
    assert_eq!(action_to_str(&ActionType::PostBlind(BlindKind::BigBlind)), "postBb");
    assert_eq!(action_to_str(&ActionType::PostBlind(BlindKind::Straddle)), "postStraddle");
    assert_eq!(action_to_str(&ActionType::PostBlind(BlindKind::Ante)), "postAnte");
}

fn split(text: &str) -> Option<(String, u32)> {
    split_amount_text(text)
}

#[test]
fn amount_text_cases() {
    assert_eq!(split("123"), Some(("123".to_string(), 1)));
    assert_eq!(split("12.50"), Some(("12.50".to_string(), 1)));
    assert_eq!(split("$500"), Some(("500".to_string(), 1)));
    assert_eq!(split("1,234.56"), Some(("1234.56".to_string(), 1)));
    assert_eq!(split("1.5K"), Some(("1.5".to_string(), 1000)));
    assert_eq!(split("2.5M"), Some(("2.5".to_string(), 1_000_000)));
    assert_eq!(split("3k"), Some(("3".to_string(), 1000)));
    assert_eq!(split("4m"), Some(("4".to_string(), 1_000_000)));
    assert_eq!(split(" 42 "), Some(("42".to_string(), 1)));
    assert_eq!(split(""), None);
    assert_eq!(split("abc"), Some(("abc".to_string(), 1)));
    assert_eq!(split("0"), Some(("0".to_string(), 1)));
    assert_eq!(split("$10,000"), Some(("10000".to_string(), 1)));
    assert_eq!(split("\u{20ac}7 \u{a3}"), Some(("7".to_string(), 1)));
    assert_eq!(split("$ , "), None);
}

#[test]
fn amount_text_is_trimmed_of_any_white_space() {
    assert_eq!(split("\t42\n"), Some(("42".to_string(), 1)));
    assert_eq!(split("\n\t"), None);
    assert_eq!(split("\u{3000}12\u{a0}"), Some(("12".to_string(), 1)));
    assert_eq!(split("\t1\t2K\n"), Some(("1\t2".to_string(), 1000)));
}

#[test]
fn ctc_collapses_repeats_and_blanks() {
    // the steps of a "0", "0", "4" decoding: classes 1, 1, 5
    assert_eq!(ctc_collapse(&[1, 1, 5], None), "04");
    assert_eq!(ctc_collapse(&[0, 0], None), "");
    assert_eq!(ctc_collapse(&[], None), "");
    assert_eq!(ctc_collapse(&[1, 0, 1], None), "00");
    assert_eq!(ctc_collapse(&[11, 12, 10], None), "9");
    let charset = ['_', 'A', 'B', 'C'];
    assert_eq!(ctc_collapse(&[1, 3], Some(&charset)), "AC");
}

#[test]
fn table_ids_join_hex_handle_and_title_hash() {
    assert_eq!(table_id_for(255, ""), "ff-5381");
    assert_eq!(table_id_for(0, "a"), format!("0-{}", 5381u64 * 33 + 97));
}
