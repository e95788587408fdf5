//! `BettingRoundEngine`: turn order, round completion, to-call and min-raise.
//!
//! Every method is a pure function of a `TableState`.

use vstd::prelude::*;

use crate::machine::{fits_i64, state_after_action};
use crate::money::{chips_max, chips_sub, diff_chips};
use crate::state::{
    find_seat, is_first_seat, lemma_first_seat_unique, seat_index, ActionRecord, SeatState, TableState,
    TableStateView,
};
use crate::types::{ActionType, SeatId, SeatStatus};

verus! {

pub struct BettingRoundEngine;

/// Number of active seats.
pub open spec fn active_count(seats: Seq<SeatState>) -> nat
    decreases seats.len(),
{
    if seats.len() == 0 {
        0
    } else {
        active_count(seats.drop_last()) + if seats.last().status == SeatStatus::Active { 1nat } else { 0nat }
    }
}

/// Seat `id` has made a voluntary (non-blind) action on the current street.
pub open spec fn has_acted(s: TableStateView, id: SeatId) -> bool {
    exists|j: int|
        0 <= j < s.action_history.len() && (#[trigger] s.action_history[j]).seat_id == id
            && s.action_history[j].street == s.street && !(s.action_history[j].action is PostBlind)
}

/// The betting round is over: fewer than two players are active, or every
/// active player has matched the largest bet and acted on this street.
pub open spec fn round_complete(s: TableStateView) -> bool {
    active_count(s.seats) < 2 || forall|i: int|
        0 <= i < s.seats.len() && (#[trigger] s.seats[i]).status == SeatStatus::Active ==> {
            &&& s.seats[i].current_bet == s.blinds.current_max_bet
            &&& has_acted(s, s.seats[i].seat_id)
        }
}

/// What seat `id` must add to call (never negative; zero for an unknown seat).
pub open spec fn to_call(s: TableStateView, id: SeatId) -> i64 {
    match seat_index(s.seats, id) {
        Some(k) => {
            let d = diff_chips(s.blinds.current_max_bet, s.seats[k].current_bet);
            if d >= 0 { d } else { 0 }
        },
        None => 0,
    }
}

/// The smallest legal raise: the last raise, but at least the big blind.
pub open spec fn min_raise(s: TableStateView) -> i64 {
    if s.blinds.last_raise_size >= s.blinds.big_blind {
        s.blinds.last_raise_size
    } else {
        s.blinds.big_blind
    }
}

/// What seat `id` has put in this hand (zero for an unknown seat).
pub open spec fn total_committed(s: TableStateView, id: SeatId) -> i64 {
    match seat_index(s.seats, id) {
        Some(k) => s.seats[k].total_bet_this_hand,
        None => 0,
    }
}

/// After an action, the acting seat is still found at the same place.
proof fn lemma_actor_stays_first(s: TableStateView, rec: ActionRecord, k: int)
    requires
        seat_index(s.seats, rec.seat_id) == Some(k),
    ensures
        seat_index(state_after_action(s, rec).seats, rec.seat_id) == Some(k),
        0 <= k < s.seats.len(),
{
    let c = choose|c: int| is_first_seat(s.seats, rec.seat_id, c);
    assert(is_first_seat(s.seats, rec.seat_id, c));
    let t = state_after_action(s, rec).seats;
    assert forall|j: int| 0 <= j < k implies (#[trigger] t[j]).seat_id != rec.seat_id by {
        assert(t[j] == s.seats[j]);
    }
    assert(is_first_seat(t, rec.seat_id, k));
    lemma_first_seat_unique(t, rec.seat_id, k);
}

/// Calling what is owed settles the seat: afterwards it has nothing to call.
pub proof fn lemma_call_settles(s: TableStateView, rec: ActionRecord)
    requires
        rec.action == ActionType::Call,
        seat_index(s.seats, rec.seat_id) is Some,
        rec.amount == to_call(s, rec.seat_id),
        fits_i64(s.blinds.current_max_bet - s.seats[seat_index(s.seats, rec.seat_id)->0].current_bet),
    ensures
        to_call(state_after_action(s, rec), rec.seat_id) == 0,
{
    let k = seat_index(s.seats, rec.seat_id)->0;
    lemma_actor_stays_first(s, rec, k);
}

/// A round reported complete with at least two players active leaves no
/// active player owing anything: each has bet exactly the largest bet of the
/// street and has acted on it.
pub proof fn lemma_complete_round_owes_nothing(s: TableStateView)
    requires
        round_complete(s),
        active_count(s.seats) >= 2,
    ensures
        forall|i: int|
            0 <= i < s.seats.len() && (#[trigger] s.seats[i]).status == SeatStatus::Active ==> {
                &&& s.seats[i].current_bet == s.blinds.current_max_bet
                &&& diff_chips(s.blinds.current_max_bet, s.seats[i].current_bet) == 0
                &&& exists|j: int|
                    0 <= j < s.action_history.len() && (#[trigger] s.action_history[j]).seat_id
                        == s.seats[i].seat_id && s.action_history[j].street == s.street
                        && !(s.action_history[j].action is PostBlind)
            },
{
    assert forall|i: int|
        0 <= i < s.seats.len() && (#[trigger] s.seats[i]).status == SeatStatus::Active implies {
            &&& s.seats[i].current_bet == s.blinds.current_max_bet
            &&& diff_chips(s.blinds.current_max_bet, s.seats[i].current_bet) == 0
            &&& exists|j: int|
                0 <= j < s.action_history.len() && (#[trigger] s.action_history[j]).seat_id
                    == s.seats[i].seat_id && s.action_history[j].street == s.street
                    && !(s.action_history[j].action is PostBlind)
        } by {
        assert(has_acted(s, s.seats[i].seat_id));
    }
}

/// A seat that still owes chips while two or more players are active keeps
/// the round open.
pub proof fn lemma_owed_chips_keep_round_open(s: TableStateView, i: int)
    requires
        active_count(s.seats) >= 2,
        0 <= i < s.seats.len(),
        s.seats[i].status == SeatStatus::Active,
        s.seats[i].current_bet < s.blinds.current_max_bet,
    ensures
        !round_complete(s),
{
}

/// After a bet of `b` by a seat at the table, the next minimum raise is the
/// bet itself (at least the big blind), the largest bet of the street is what
/// the bettor now has in front of it, and the bettor owes nothing.
pub proof fn lemma_bet_sets_the_raise_size(s: TableStateView, rec: ActionRecord, b: i64)
    requires
        rec.action == ActionType::Bet(b),
        seat_index(s.seats, rec.seat_id) is Some,
    ensures
        state_after_action(s, rec).blinds.last_raise_size == b,
        min_raise(state_after_action(s, rec)) == if b >= s.blinds.big_blind { b } else { s.blinds.big_blind },
        state_after_action(s, rec).blinds.current_max_bet
            == state_after_action(s, rec).seats[seat_index(s.seats, rec.seat_id)->0].current_bet,
        fits_i64(s.seats[seat_index(s.seats, rec.seat_id)->0].current_bet + b)
            ==> state_after_action(s, rec).blinds.current_max_bet == s.seats[seat_index(
            s.seats,
            rec.seat_id,
        )->0].current_bet + b,
        to_call(state_after_action(s, rec), rec.seat_id) == 0,
{
    let k = seat_index(s.seats, rec.seat_id)->0;
    lemma_actor_stays_first(s, rec, k);
}

/// After a raise to `t` the largest bet of the street is `t`, the raiser owes
/// nothing, and the next minimum raise is at least the big blind.
pub proof fn lemma_raise_sets_the_bet(s: TableStateView, rec: ActionRecord, t: i64)
    requires
        rec.action == ActionType::Raise(t),
        seat_index(s.seats, rec.seat_id) is Some,
    ensures
        state_after_action(s, rec).blinds.current_max_bet == t,
        to_call(state_after_action(s, rec), rec.seat_id) == 0,
        min_raise(state_after_action(s, rec)) >= s.blinds.big_blind,
        fits_i64(t - s.blinds.current_max_bet) ==> state_after_action(s, rec).blinds.last_raise_size == if t
            - s.blinds.current_max_bet >= s.blinds.big_blind {
            t - s.blinds.current_max_bet
        } else {
            s.blinds.big_blind as int
        },
{
    let k = seat_index(s.seats, rec.seat_id)->0;
    lemma_actor_stays_first(s, rec, k);
}

fn count_active(seats: &Vec<SeatState>) -> (n: usize)
    ensures
        n == active_count(seats@),
{
    let mut n: usize = 0;
    let len = seats.len();
    for i in 0..len
        invariant
            len == seats@.len(),
            n == active_count(seats@.take(i as int)),
            n <= i,
    {
        proof {
            assert(seats@.take(i + 1).drop_last() =~= seats@.take(i as int));
        }
        if seats[i].status == SeatStatus::Active {
            n = n + 1;
        }
    }
    proof {
        assert(seats@.take(len as int) =~= seats@);
    }
    n
}

fn acted_on_street(state: &TableState, id: SeatId) -> (r: bool)
    ensures
        r == has_acted(state@, id),
{
    let n = state.action_history.len();
    for j in 0..n
        invariant
            n == state.action_history@.len(),
            forall|k: int|
                0 <= k < j ==> !((#[trigger] state.action_history@[k]).seat_id == id
                    && state.action_history@[k].street == state.street
                    && !(state.action_history@[k].action is PostBlind)),
    {
        let a = state.action_history[j];
        let blind = match a.action {
            ActionType::PostBlind(_) => true,
            _ => false,
        };
        if a.seat_id == id && a.street == state.street && !blind {
            return true;
        }
    }
    false
}

impl BettingRoundEngine {
    pub fn is_round_complete(state: &TableState) -> (r: bool)
        ensures
            r == round_complete(state@),
    {
        if count_active(&state.seats) < 2 {
            return true;
        }
        let max_bet = state.blinds.current_max_bet;
        let n = state.seats.len();
        let mut all_matched = true;
        let mut all_acted = true;
        for i in 0..n
            invariant
                n == state.seats@.len(),
                max_bet == state.blinds.current_max_bet,
                all_matched == forall|k: int|
                    0 <= k < i && (#[trigger] state.seats@[k]).status == SeatStatus::Active
                        ==> state.seats@[k].current_bet == max_bet,
                all_acted == forall|k: int|
                    0 <= k < i && (#[trigger] state.seats@[k]).status == SeatStatus::Active
                        ==> has_acted(state@, state.seats@[k].seat_id),
        {
            let s = state.seats[i];
            if s.status == SeatStatus::Active {
                if s.current_bet != max_bet {
                    all_matched = false;
                }
                if !acted_on_street(state, s.seat_id) {
                    all_acted = false;
                }
            }
        }
        all_matched && all_acted
    }

    pub fn to_call_for(state: &TableState, seat: SeatId) -> (r: i64)
        ensures
            r == to_call(state@, seat),
            r >= 0,
    {
        match find_seat(&state.seats, seat) {
            Some(k) => chips_max(chips_sub(state.blinds.current_max_bet, state.seats[k].current_bet), 0),
            None => 0,
        }
    }

    pub fn min_raise(state: &TableState) -> (r: i64)
        ensures
            r == min_raise(state@),
            r >= state.blinds.big_blind,
    {
        chips_max(state.blinds.last_raise_size, state.blinds.big_blind)
    }

    pub fn total_committed(state: &TableState, seat: SeatId) -> (r: i64)
        ensures
            r == total_committed(state@, seat),
    {
        match find_seat(&state.seats, seat) {
            Some(k) => state.seats[k].total_bet_this_hand,
            None => 0,
        }
    }
}

} // verus!
