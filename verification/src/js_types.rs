//! Values handed to the JavaScript side: the string forms of the enums,
//! cards as strings, error events, and the callback handle placeholder.

use std::marker::PhantomData;

use vstd::prelude::*;

use crate::error::TfError;
use crate::text::{decimal_digits, digit_char, digit_of, push_decimal, string_from_chars};
use crate::types::{rank_letter, suit_letter, ActionType, BlindKind, Card, SeatId, SeatStatus, Street, TablePhase};

verus! {

pub struct JsCard {
    pub suit: String,
    pub rank: String,
}

impl JsCard {
    /// The card as its suit letter and rank letter.
    pub fn from_card(c: Card) -> (r: JsCard)
        ensures
            r.suit@ == suit_letter(c.suit),
            r.rank@ == rank_letter(c.rank),
    {
        JsCard { suit: c.suit.short_str().to_owned(), rank: c.rank.short_str().to_owned() }
    }
}

pub struct ErrorEvent {
    pub table_id: Option<String>,
    pub message: String,
}

pub open spec fn street_name(s: Street) -> Seq<char> {
    match s {
        Street::Preflop => "preflop"@,
        Street::Flop => "flop"@,
        Street::Turn => "turn"@,
        Street::River => "river"@,
        Street::Showdown => "showdown"@,
    }
}

pub open spec fn phase_name(p: TablePhase) -> Seq<char> {
    match p {
        TablePhase::Waiting => "waiting"@,
        TablePhase::Playing => "playing"@,
        TablePhase::Showdown => "showdown"@,
        TablePhase::Cleanup => "cleanup"@,
    }
}

pub open spec fn status_name(s: SeatStatus) -> Seq<char> {
    match s {
        SeatStatus::Empty => "empty"@,
        SeatStatus::SittingOut => "sittingOut"@,
        SeatStatus::Active => "active"@,
        SeatStatus::Folded => "folded"@,
        SeatStatus::AllIn => "allIn"@,
    }
}

pub fn street_to_str(s: Street) -> (r: &'static str)
    ensures
        r@ == street_name(s),
{
    match s {
        Street::Preflop => "preflop",
        Street::Flop => "flop",
        Street::Turn => "turn",
        Street::River => "river",
        Street::Showdown => "showdown",
    }
}

pub fn phase_to_str(p: TablePhase) -> (r: &'static str)
    ensures
        r@ == phase_name(p),
{
    match p {
        TablePhase::Waiting => "waiting",
        TablePhase::Playing => "playing",
        TablePhase::Showdown => "showdown",
        TablePhase::Cleanup => "cleanup",
    }
}

pub fn status_to_str(s: SeatStatus) -> (r: &'static str)
    ensures
        r@ == status_name(s),
{
    match s {
        SeatStatus::Empty => "empty",
        SeatStatus::SittingOut => "sittingOut",
        SeatStatus::Active => "active",
        SeatStatus::Folded => "folded",
        SeatStatus::AllIn => "allIn",
    }
}

/// An amount in hundredths of a chip written in chips with two decimals:
/// 650 is "6.50", -5 is "-0.05".
pub open spec fn chips_text(x: int) -> Seq<char> {
    let a = if x < 0 { -x } else { x };
    (if x < 0 { seq!['-'] } else { Seq::empty() }) + decimal_digits((a / 100) as nat) + seq![
        '.',
        digit_char((a % 100) / 10),
        digit_char(a % 10),
    ]
}

/// The short form of an action: its name, with the amount for bets, raises
/// and all-ins ("bet:6.50").
pub open spec fn action_text(a: ActionType) -> Seq<char> {
    match a {
        ActionType::Fold => "fold"@,
        ActionType::Check => "check"@,
        ActionType::Call => "call"@,
        ActionType::Bet(x) => seq!['b', 'e', 't', ':'] + chips_text(x as int),
        ActionType::Raise(x) => seq!['r', 'a', 'i', 's', 'e', ':'] + chips_text(x as int),
        ActionType::AllIn(x) => seq!['a', 'l', 'l', 'I', 'n', ':'] + chips_text(x as int),
        ActionType::PostBlind(BlindKind::SmallBlind) => "postSb"@,
        ActionType::PostBlind(BlindKind::BigBlind) => "postBb"@,
        ActionType::PostBlind(BlindKind::Straddle) => "postStraddle"@,
        ActionType::PostBlind(BlindKind::Ante) => "postAnte"@,
    }
}

/// Appends `x` hundredths of a chip in chips with two decimals.
pub(crate) fn push_chips(out: &mut Vec<char>, x: i64)
    ensures
        final(out)@ == old(out)@ + chips_text(x as int),
{
    let a: u64 = if x < 0 { (-(x as i128)) as u64 } else { x as u64 };
    let ghost o = out@;
    if x < 0 {
        out.push('-');
    }
    let ghost o1 = out@;
    push_decimal(out, a / 100);
    out.push('.');
    out.push(digit_of((a % 100) / 10));
    out.push(digit_of(a % 10));
    proof {
        let sign: Seq<char> = if x < 0 { seq!['-'] } else { Seq::empty() };
        assert(o1 == o + sign);
        assert(out@ =~= o + chips_text(x as int));
    }
}

/// The short form of an action, as shown to the user interface.
pub fn action_to_str(a: &ActionType) -> (s: String)
    ensures
        s@ == action_text(*a),
{
    let mut out: Vec<char> = Vec::new();
    match *a {
        ActionType::Fold => {
            return "fold".to_owned();
        },
        ActionType::Check => {
            return "check".to_owned();
        },
        ActionType::Call => {
            return "call".to_owned();
        },
        ActionType::PostBlind(BlindKind::SmallBlind) => {
            return "postSb".to_owned();
        },
        ActionType::PostBlind(BlindKind::BigBlind) => {
            return "postBb".to_owned();
        },
        ActionType::PostBlind(BlindKind::Straddle) => {
            return "postStraddle".to_owned();
        },
        ActionType::PostBlind(BlindKind::Ante) => {
            return "postAnte".to_owned();
        },
        ActionType::Bet(x) => {
            out.push('b');
            out.push('e');
            out.push('t');
            out.push(':');
            push_chips(&mut out, x);
        },
        ActionType::Raise(x) => {
            out.push('r');
            out.push('a');
            out.push('i');
            out.push('s');
            out.push('e');
            out.push(':');
            push_chips(&mut out, x);
        },
        ActionType::AllIn(x) => {
            out.push('a');
            out.push('l');
            out.push('l');
            out.push('I');
            out.push('n');
            out.push(':');
            push_chips(&mut out, x);
        },
    }
    proof {
        assert(out@ =~= action_text(*a));
    }
    string_from_chars(&out)
}

/// The seat index as a plain number.
pub fn js_seat_id(s: SeatId) -> (r: u8)
    ensures
        r == s.0,
{
    s.0
}

/// Handle of a JavaScript callback; this build holds no callback, so calls
/// always succeed and deliver nothing.
pub struct OpaqueTsfn<T> {
    _phantom: PhantomData<T>,
}

impl<T> OpaqueTsfn<T> {
    pub fn placeholder() -> (r: OpaqueTsfn<T>) {
        OpaqueTsfn { _phantom: PhantomData }
    }

    pub fn call(&self, value: T) -> (r: Result<(), TfError>)
        ensures
            r is Ok,
    {
        Ok(())
    }
}

} // verus!
