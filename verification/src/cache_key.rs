//! The key under which a recommendation is cached: it covers the whole
//! engine input, the action history included, so that two spots with the
//! same pot and stacks but a different line of play never share an entry.

use vstd::prelude::*;

use crate::js_types::{chips_text, push_chips, street_name, street_to_str};
use crate::rec_input::{RecActionRecord, RecInput, RecInputView};
use crate::reconstructor::{action_kind, kind_of};
use crate::text::{
    decimal_digits, digit_char, digit_of, fixed_digits, lemma_fixed_digits_injective, lemma_fixed_digits_len,
    pow10, push_decimal, push_fixed, push_str, string_from_chars,
};
use crate::types::{rank_letter, suit_letter, Card};

verus! {

/// A card in a key: rank letter, suit letter, confidence in thousandths, comma.
pub open spec fn card_text(c: Card) -> Seq<char> {
    rank_letter(c.rank) + suit_letter(c.suit) + decimal_digits(c.confidence as nat) + seq![',']
}

/// The cards one after another.
pub open spec fn cards_text(cs: Seq<Card>) -> Seq<char>
    decreases cs.len(),
{
    if cs.len() == 0 {
        Seq::empty()
    } else {
        cards_text(cs.drop_last()) + card_text(cs.last())
    }
}

/// The size of an amount.
pub open spec fn amount_size(x: i64) -> nat {
    if x < 0 {
        (-x) as nat
    } else {
        x as nat
    }
}

/// One history entry in a key, always 24 characters: the seat in three
/// digits, the kind of action as one digit, the sign of the amount, and the
/// size of the amount in nineteen digits.
pub open spec fn entry_text(e: RecActionRecord) -> Seq<char> {
    fixed_digits(e.seat_id.0 as nat, 3) + seq![
        digit_char(action_kind(e.action)),
        if e.amount < 0 { '-' } else { '+' },
    ] + fixed_digits(amount_size(e.amount), 19)
}

/// The digest of an action history: its entries one after another.
pub open spec fn history_text(h: Seq<RecActionRecord>) -> Seq<char>
    decreases h.len(),
{
    if h.len() == 0 {
        Seq::empty()
    } else {
        history_text(h.drop_last()) + entry_text(h.last())
    }
}

/// Everything of the key before the history digest.
pub open spec fn key_prefix(i: RecInputView) -> Seq<char> {
    seq!['['] + card_text(i.hole_cards@[0]) + card_text(i.hole_cards@[1]) + seq![']', '['] + cards_text(
        i.community_cards,
    ) + seq![']', '|', 'p'] + chips_text(i.pot as int) + seq!['|', 'c'] + chips_text(i.to_call as int) + seq![
        '|',
        's',
    ] + chips_text(i.stack as int) + seq!['|', 'm'] + chips_text(i.min_raise as int) + seq!['|'] + street_name(
        i.street,
    ) + seq!['|', 'n'] + decimal_digits(i.num_opponents as nat) + seq!['|', 'h', '[']
}

/// The cache key of an engine input.
pub open spec fn cache_key_text(i: RecInputView) -> Seq<char> {
    key_prefix(i) + history_text(i.action_history) + seq![']']
}

proof fn lemma_entry_len(e: RecActionRecord)
    ensures
        entry_text(e).len() == 24,
{
    lemma_fixed_digits_len(e.seat_id.0 as nat, 3);
    lemma_fixed_digits_len(amount_size(e.amount), 19);
}

proof fn lemma_history_len(h: Seq<RecActionRecord>)
    ensures
        history_text(h).len() == 24 * h.len(),
    decreases h.len(),
{
    if h.len() > 0 {
        lemma_history_len(h.drop_last());
        lemma_entry_len(h.last());
    }
}

/// Entry `i` of a history sits at characters `24 i .. 24 i + 24` of its digest.
proof fn lemma_history_slot(h: Seq<RecActionRecord>, i: int)
    requires
        0 <= i < h.len(),
    ensures
        history_text(h).subrange(24 * i, 24 * i + 24) == entry_text(h[i]),
    decreases h.len(),
{
    let t = h.drop_last();
    lemma_history_len(t);
    lemma_entry_len(h.last());
    let x = history_text(t);
    let y = entry_text(h.last());
    assert(history_text(h) == x + y);
    if i == h.len() - 1 {
        assert((x + y).subrange(24 * i, 24 * i + 24) =~= y);
    } else {
        lemma_history_slot(t, i);
        assert((x + y).subrange(24 * i, 24 * i + 24) =~= x.subrange(24 * i, 24 * i + 24));
        assert(t[i] == h[i]);
    }
}

/// Two entries with the same text have the same seat, kind of action and amount.
proof fn lemma_entry_injective(a: RecActionRecord, b: RecActionRecord)
    requires
        entry_text(a) == entry_text(b),
    ensures
        a.seat_id == b.seat_id,
        action_kind(a.action) == action_kind(b.action),
        a.amount == b.amount,
{
    reveal_with_fuel(pow10, 20);
    assert(pow10(3) == 1000);
    assert(pow10(19) == 10_000_000_000_000_000_000);
    lemma_fixed_digits_len(a.seat_id.0 as nat, 3);
    lemma_fixed_digits_len(b.seat_id.0 as nat, 3);
    lemma_fixed_digits_len(amount_size(a.amount), 19);
    lemma_fixed_digits_len(amount_size(b.amount), 19);
    let ea = entry_text(a);
    let eb = entry_text(b);
    assert(ea.subrange(0, 3) =~= fixed_digits(a.seat_id.0 as nat, 3));
    assert(eb.subrange(0, 3) =~= fixed_digits(b.seat_id.0 as nat, 3));
    lemma_fixed_digits_injective(a.seat_id.0 as nat, b.seat_id.0 as nat, 3);
    assert(ea.subrange(5, 24) =~= fixed_digits(amount_size(a.amount), 19));
    assert(eb.subrange(5, 24) =~= fixed_digits(amount_size(b.amount), 19));
    lemma_fixed_digits_injective(amount_size(a.amount), amount_size(b.amount), 19);
    assert(ea[3] == digit_char(action_kind(a.action)));
    assert(eb[3] == digit_char(action_kind(b.action)));
    assert(ea[4] == eb[4]);
}

/// The key tells apart two inputs that differ only in their action histories,
/// when the histories differ in length or in the seat, the kind of action or
/// the amount of some entry.
pub proof fn lemma_cache_key_tells_histories_apart(a: RecInputView, b: RecInputView)
    requires
        a.hole_cards == b.hole_cards,
        a.community_cards == b.community_cards,
        a.pot == b.pot,
        a.to_call == b.to_call,
        a.min_raise == b.min_raise,
        a.stack == b.stack,
        a.street == b.street,
        a.num_opponents == b.num_opponents,
        a.action_history.len() != b.action_history.len() || exists|i: int|
            0 <= i < a.action_history.len() && i < b.action_history.len() && {
                ||| (#[trigger] a.action_history[i]).seat_id != b.action_history[i].seat_id
                ||| action_kind(a.action_history[i].action) != action_kind(b.action_history[i].action)
                ||| a.action_history[i].amount != b.action_history[i].amount
            },
    ensures
        cache_key_text(a) != cache_key_text(b),
{
    let p = key_prefix(a);
    assert(key_prefix(b) == p);
    let ha = history_text(a.action_history);
    let hb = history_text(b.action_history);
    lemma_history_len(a.action_history);
    lemma_history_len(b.action_history);
    if cache_key_text(a) == cache_key_text(b) {
        let k = cache_key_text(a);
        assert(k.len() == p.len() + ha.len() + 1);
        assert(cache_key_text(b).len() == p.len() + hb.len() + 1);
        assert(a.action_history.len() == b.action_history.len());
        assert(k.subrange(p.len() as int, (p.len() + ha.len()) as int) =~= ha);
        assert(cache_key_text(b).subrange(p.len() as int, (p.len() + hb.len()) as int) =~= hb);
        assert(ha == hb);
        let i = choose|i: int|
            0 <= i < a.action_history.len() && i < b.action_history.len() && {
                ||| (#[trigger] a.action_history[i]).seat_id != b.action_history[i].seat_id
                ||| action_kind(a.action_history[i].action) != action_kind(b.action_history[i].action)
                ||| a.action_history[i].amount != b.action_history[i].amount
            };
        lemma_history_slot(a.action_history, i);
        lemma_history_slot(b.action_history, i);
        lemma_entry_injective(a.action_history[i], b.action_history[i]);
    }
}

fn push_card(out: &mut Vec<char>, c: Card)
    ensures
        final(out)@ == old(out)@ + card_text(c),
{
    let ghost o = out@;
    push_str(out, c.rank.short_str());
    push_str(out, c.suit.short_str());
    push_decimal(out, c.confidence as u64);
    out.push(',');
    proof {
        assert(out@ =~= o + card_text(c));
    }
}

fn push_cards(out: &mut Vec<char>, cs: &Vec<Card>)
    ensures
        final(out)@ == old(out)@ + cards_text(cs@),
{
    let ghost o = out@;
    let n = cs.len();
    for i in 0..n
        invariant
            n == cs@.len(),
            out@ == o + cards_text(cs@.take(i as int)),
    {
        proof {
            assert(cs@.take(i + 1).drop_last() =~= cs@.take(i as int));
        }
        push_card(out, cs[i]);
        proof {
            assert(out@ =~= o + cards_text(cs@.take(i + 1)));
        }
    }
    proof {
        assert(cs@.take(n as int) =~= cs@);
    }
}

fn push_entry(out: &mut Vec<char>, e: RecActionRecord)
    ensures
        final(out)@ == old(out)@ + entry_text(e),
{
    let ghost o = out@;
    push_fixed(out, e.seat_id.0 as u64, 3);
    out.push(digit_of(kind_of(e.action) as u64));
    out.push(if e.amount < 0 { '-' } else { '+' });
    let size: u64 = if e.amount < 0 { (-(e.amount as i128)) as u64 } else { e.amount as u64 };
    push_fixed(out, size, 19);
    proof {
        assert(out@ =~= o + entry_text(e));
    }
}

fn push_history(out: &mut Vec<char>, h: &Vec<RecActionRecord>)
    ensures
        final(out)@ == old(out)@ + history_text(h@),
{
    let ghost o = out@;
    let n = h.len();
    for i in 0..n
        invariant
            n == h@.len(),
            out@ == o + history_text(h@.take(i as int)),
    {
        proof {
            assert(h@.take(i + 1).drop_last() =~= h@.take(i as int));
        }
        push_entry(out, h[i]);
        proof {
            assert(out@ =~= o + history_text(h@.take(i + 1)));
        }
    }
    proof {
        assert(h@.take(n as int) =~= h@);
    }
}

/// The cache key of an engine input; it includes a digest of the action
/// history.
pub fn compute_cache_key(input: &RecInput) -> (k: String)
    ensures
        k@ == cache_key_text(input@),
{
    let mut out: Vec<char> = Vec::new();
    out.push('[');
    push_card(&mut out, input.hole_cards[0]);
    push_card(&mut out, input.hole_cards[1]);
    out.push(']');
    out.push('[');
    push_cards(&mut out, &input.community_cards);
    out.push(']');
    out.push('|');
    out.push('p');
    push_chips(&mut out, input.pot);
    out.push('|');
    out.push('c');
    push_chips(&mut out, input.to_call);
    out.push('|');
    out.push('s');
    push_chips(&mut out, input.stack);
    out.push('|');
    out.push('m');
    push_chips(&mut out, input.min_raise);
    out.push('|');
    push_str(&mut out, street_to_str(input.street));
    out.push('|');
    out.push('n');
    push_decimal(&mut out, input.num_opponents as u64);
    out.push('|');
    out.push('h');
    out.push('[');
    let ghost before = out@;
    proof {
        assert(before =~= key_prefix(input@));
    }
    push_history(&mut out, &input.action_history);
    out.push(']');
    proof {
        assert(out@ =~= cache_key_text(input@));
    }
    string_from_chars(&out)
}

} // verus!
