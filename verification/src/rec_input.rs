//! Input of the recommendation engine, seen from the hero's seat, and its
//! construction from a `TableState`.

use vstd::prelude::*;

use crate::round::{min_raise, to_call, BettingRoundEngine};
use crate::state::{find_seat, seat_index, ActionRecord, SeatState, TableState, TableStateView};
use crate::types::{ActionType, BlindKind, Card, SeatId, SeatStatus, Street};

verus! {

/// Amounts in hundredths of a chip.
#[derive(Debug, Clone)]
pub struct RecInput {
    pub hole_cards: [Card; 2],
    pub community_cards: Vec<Card>,
    pub pot: i64,
    pub to_call: i64,
    pub min_raise: i64,
    pub stack: i64,
    pub street: Street,
    pub num_opponents: usize,
    pub action_history: Vec<RecActionRecord>,
}

/// One entry of the recommendation history; forced blinds never appear here.
#[derive(Debug, Clone, Copy, PartialEq, Eq, Structural)]
pub struct RecActionRecord {
    pub seat_id: SeatId,
    pub action: ActionType,
    pub amount: i64,
    pub street: Street,
}

impl RecActionRecord {
    /// A forced blind, ante or straddle.
    pub fn is_blind(&self) -> (r: bool)
        ensures
            r == (self.action is PostBlind),
    {
        match self.action {
            ActionType::PostBlind(BlindKind::SmallBlind) | ActionType::PostBlind(BlindKind::BigBlind)
            | ActionType::PostBlind(BlindKind::Straddle) | ActionType::PostBlind(BlindKind::Ante) => true,
            _ => false,
        }
    }
}

pub struct RecInputView {
    pub hole_cards: [Card; 2],
    pub community_cards: Seq<Card>,
    pub pot: i64,
    pub to_call: i64,
    pub min_raise: i64,
    pub stack: i64,
    pub street: Street,
    pub num_opponents: usize,
    pub action_history: Seq<RecActionRecord>,
}

impl View for RecInput {
    type V = RecInputView;

    open spec fn view(&self) -> RecInputView {
        RecInputView {
            hole_cards: self.hole_cards,
            community_cards: self.community_cards@,
            pot: self.pot,
            to_call: self.to_call,
            min_raise: self.min_raise,
            stack: self.stack,
            street: self.street,
            num_opponents: self.num_opponents,
            action_history: self.action_history@,
        }
    }
}

/// Active seats other than the hero.
pub open spec fn opponents(seats: Seq<SeatState>, hero: SeatId) -> nat
    decreases seats.len(),
{
    if seats.len() == 0 {
        0
    } else {
        opponents(seats.drop_last(), hero) + if seats.last().status == SeatStatus::Active
            && seats.last().seat_id != hero { 1nat } else { 0nat }
    }
}

pub open spec fn rec_record(a: ActionRecord) -> RecActionRecord {
    RecActionRecord { seat_id: a.seat_id, action: a.action, amount: a.amount, street: a.street }
}

/// The history without forced blinds.
pub open spec fn voluntary_history(h: Seq<ActionRecord>) -> Seq<RecActionRecord>
    decreases h.len(),
{
    if h.len() == 0 {
        Seq::empty()
    } else {
        let rest = voluntary_history(h.drop_last());
        if h.last().action is PostBlind { rest } else { rest.push(rec_record(h.last())) }
    }
}

/// The engine input for a state: present only when the hero's seat and hole
/// cards are known and the hero sits at the table.
pub open spec fn rec_input_of(s: TableStateView) -> Option<RecInputView> {
    match (s.hero_seat, s.hole_cards) {
        (Some(hero), Some(hole)) => match seat_index(s.seats, hero) {
            Some(k) => Some(RecInputView {
                hole_cards: hole,
                community_cards: s.community_cards,
                pot: s.pot.total,
                to_call: to_call(s, hero),
                min_raise: min_raise(s),
                stack: s.seats[k].stack,
                street: s.street,
                num_opponents: opponents(s.seats, hero) as usize,
                action_history: voluntary_history(s.action_history),
            }),
            None => None,
        },
        _ => None,
    }
}

/// No forced blind survives into the recommendation history.
pub proof fn lemma_history_has_no_blinds(h: Seq<ActionRecord>)
    ensures
        forall|i: int| 0 <= i < voluntary_history(h).len() ==> !(#[trigger] voluntary_history(h)[i].action is PostBlind),
        voluntary_history(h).len() <= h.len(),
    decreases h.len(),
{
    if h.len() > 0 {
        lemma_history_has_no_blinds(h.drop_last());
    }
}

fn count_opponents(seats: &Vec<SeatState>, hero: SeatId) -> (n: usize)
    ensures
        n == opponents(seats@, hero),
{
    let mut n: usize = 0;
    let len = seats.len();
    for i in 0..len
        invariant
            len == seats@.len(),
            n == opponents(seats@.take(i as int), hero),
            n <= i,
    {
        proof {
            assert(seats@.take(i + 1).drop_last() =~= seats@.take(i as int));
        }
        if seats[i].status == SeatStatus::Active && seats[i].seat_id != hero {
            n = n + 1;
        }
    }
    proof {
        assert(seats@.take(len as int) =~= seats@);
    }
    n
}

fn without_blinds(h: &Vec<ActionRecord>) -> (r: Vec<RecActionRecord>)
    ensures
        r@ == voluntary_history(h@),
{
    let mut r: Vec<RecActionRecord> = Vec::new();
    let n = h.len();
    for i in 0..n
        invariant
            n == h@.len(),
            r@ == voluntary_history(h@.take(i as int)),
    {
        proof {
            assert(h@.take(i + 1).drop_last() =~= h@.take(i as int));
        }
        let a = h[i];
        match a.action {
            ActionType::PostBlind(_) => {},
            _ => {
                r.push(RecActionRecord { seat_id: a.seat_id, action: a.action, amount: a.amount, street: a.street });
            },
        }
    }
    proof {
        assert(h@.take(n as int) =~= h@);
    }
    r
}

/// Builds the engine input from a table state; `None` without a hero seat,
/// without hole cards, or when the hero's seat is not at the table.
pub fn build_rec_input(state: &TableState) -> (r: Option<RecInput>)
    ensures
        match r {
            Some(i) => rec_input_of(state@) == Some(i@),
            None => rec_input_of(state@).is_none(),
        },
{
    let hero = match state.hero_seat {
        Some(h) => h,
        None => {
            return None;
        },
    };
    let hole = match state.hole_cards {
        Some(h) => h,
        None => {
            return None;
        },
    };
    let k = match find_seat(&state.seats, hero) {
        Some(k) => k,
        None => {
            return None;
        },
    };
    let stack = state.seats[k].stack;
    let to_call = BettingRoundEngine::to_call_for(state, hero);
    let min_raise = BettingRoundEngine::min_raise(state);
    let num_opponents = count_opponents(&state.seats, hero);
    let action_history = without_blinds(&state.action_history);
    let community_cards = state.community_cards.clone();
    proof {
        assert(community_cards@ =~= state.community_cards@);
    }
    let r = RecInput {
        hole_cards: hole,
        community_cards,
        pot: state.pot.total,
        to_call,
        min_raise,
        stack,
        street: state.street,
        num_opponents,
        action_history,
    };
    proof {
        assert(rec_input_of(state@) == Some(r@));
    }
    Some(r)
}

} // verus!
