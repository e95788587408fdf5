//! `TableStateMachine`: applies `TableEvent`s to a `TableState` and reports
//! the resulting `StateTransition`s.

use std::collections::VecDeque;

use vstd::prelude::*;

use crate::error::TfError;
use crate::events::{ActionRecordSummary, ReconstructedAction, StateTransition, TableEvent};
use crate::money::{chips_add, chips_max, chips_sub, diff_chips, sum_chips};
use crate::state::{
    empty_pot_view, find_seat, initial_state, is_first_seat, seat_index, zero_blinds, ActionRecord, BlindsInfo,
    PotInfo, PotView, SeatState, TableState, TableStateView,
};
use crate::types::{ActionType, BlindKind, Card, SeatId, SeatStatus, Street, TablePhase};

verus! {

/// The event log keeps at most this many events (the most recent ones).
pub const EVENT_LOG_CAPACITY: usize = 1000;

pub struct TableStateMachine {
    pub table_id: String,
    state: TableState,
    event_log: VecDeque<TableEvent>,
    action_seq: u32,
    hand_seq: u64,
}

/// The contents of a state machine.
pub struct MachineView {
    pub table_id: Seq<char>,
    pub state: TableStateView,
    pub event_log: Seq<TableEvent>,
    /// Sequence number of the last action recorded in this hand.
    pub action_seq: u32,
    /// Number of hands started so far.
    pub hand_seq: u64,
}

impl View for TableStateMachine {
    type V = MachineView;

    closed spec fn view(&self) -> MachineView {
        MachineView {
            table_id: self.table_id@,
            state: self.state@,
            event_log: self.event_log@,
            action_seq: self.action_seq,
            hand_seq: self.hand_seq,
        }
    }
}

/// The machine is well formed: its event log is within capacity.
pub open spec fn machine_wf(m: MachineView) -> bool {
    m.event_log.len() <= EVENT_LOG_CAPACITY
}

// ---------------------------------------------------------------------------
// What each event does
// ---------------------------------------------------------------------------

/// A seat at the start of a new hand: nothing bet, cards dealt, folded seats back in.
pub open spec fn seat_for_new_hand(s: SeatState) -> SeatState {
    SeatState {
        current_bet: 0,
        total_bet_this_hand: 0,
        last_action: None,
        has_cards: true,
        status: if s.status == SeatStatus::Folded { SeatStatus::Active } else { s.status },
        ..s
    }
}

/// A seat at the start of a new street: nothing bet on the street yet.
pub open spec fn seat_for_new_street(s: SeatState) -> SeatState {
    SeatState { current_bet: 0, ..s }
}

/// A seat once the table goes back to waiting.
pub open spec fn seat_for_waiting(s: SeatState) -> SeatState {
    SeatState { current_bet: 0, total_bet_this_hand: 0, last_action: None, has_cards: false, ..s }
}

pub open spec fn state_after_new_hand(s: TableStateView, hand_number: u64, dealer: SeatId) -> TableStateView {
    TableStateView {
        phase: TablePhase::Playing,
        street: Street::Preflop,
        hand_number,
        dealer_seat: Some(dealer),
        hole_cards: None,
        community_cards: Seq::empty(),
        pot: empty_pot_view(),
        action_history: Seq::empty(),
        current_player_turn: None,
        seats: s.seats.map_values(|x: SeatState| seat_for_new_hand(x)),
        ..s
    }
}

pub open spec fn state_after_street(s: TableStateView, cards: Seq<Card>, street: Street) -> TableStateView {
    TableStateView {
        community_cards: cards,
        street,
        seats: s.seats.map_values(|x: SeatState| seat_for_new_street(x)),
        blinds: BlindsInfo { current_max_bet: 0, last_raise_size: s.blinds.big_blind, ..s.blinds },
        ..s
    }
}

pub open spec fn state_for_waiting(s: TableStateView) -> TableStateView {
    TableStateView {
        phase: TablePhase::Waiting,
        street: Street::Preflop,
        hand_number: 0,
        dealer_seat: None,
        hole_cards: None,
        community_cards: Seq::empty(),
        pot: empty_pot_view(),
        action_history: Seq::empty(),
        current_player_turn: None,
        blinds: zero_blinds(),
        seats: s.seats.map_values(|x: SeatState| seat_for_waiting(x)),
        ..s
    }
}

/// Confidence after a confirming observation: up by 50, at most 1000.
pub open spec fn confidence_up(c: u32) -> u32 {
    if c + 50 <= 1000 { (c + 50) as u32 } else { 1000 }
}

/// Confidence after a timeout: down by 50, at least 500.
pub open spec fn confidence_down(c: u32) -> u32 {
    if c - 50 >= 500 { (c - 50) as u32 } else { 500 }
}

/// Where the search for the next player starts.
pub open spec fn turn_start(turn: Option<SeatId>) -> int {
    match turn {
        Some(s) => s.0 as int,
        None => 0,
    }
}

/// The seat `i` places after `start`, going round the table.
pub open spec fn seat_after(seats: Seq<SeatState>, start: int, i: int) -> SeatState {
    seats[(start + i) % (seats.len() as int)]
}

/// `i` is the smallest step in `1..=n` that reaches an active seat.
pub open spec fn is_next_active(seats: Seq<SeatState>, start: int, i: int) -> bool {
    &&& 1 <= i <= seats.len()
    &&& seat_after(seats, start, i).status == SeatStatus::Active
    &&& forall|j: int| 1 <= j < i ==> (#[trigger] seat_after(seats, start, j)).status != SeatStatus::Active
}

/// Whose turn it is next: the first active seat after the current one, going
/// round the table; `None` when no seat is active; unchanged with no seats.
pub open spec fn next_turn(seats: Seq<SeatState>, turn: Option<SeatId>) -> Option<SeatId> {
    if seats.len() == 0 {
        turn
    } else if exists|i: int| is_next_active(seats, turn_start(turn), i) {
        let i = choose|i: int| is_next_active(seats, turn_start(turn), i);
        Some(seat_after(seats, turn_start(turn), i).seat_id)
    } else {
        None
    }
}

/// The record that an accepted action becomes.
pub open spec fn record_for(a: ReconstructedAction, seq: u32) -> ActionRecord {
    ActionRecord {
        seat_id: a.seat_id,
        action: a.action_type,
        amount: match a.amount {
            Some(x) => x,
            None => 0,
        },
        street: a.street,
        seq,
        confidence: a.confidence,
    }
}

pub open spec fn summary_of(r: ActionRecord) -> ActionRecordSummary {
    ActionRecordSummary {
        seat_id: r.seat_id,
        action: r.action,
        amount: r.amount,
        street: r.street,
        seq: r.seq,
        confidence: r.confidence,
    }
}

/// A seat that puts `x` into the pot.
pub open spec fn seat_pays(s: SeatState, x: i64) -> SeatState {
    SeatState {
        stack: diff_chips(s.stack, x),
        current_bet: sum_chips(s.current_bet, x),
        total_bet_this_hand: sum_chips(s.total_bet_this_hand, x),
        ..s
    }
}

/// The acting seat after the action.
pub open spec fn seat_after_action(seat: SeatState, rec: ActionRecord) -> SeatState {
    let a = rec.amount;
    let s1 = match rec.action {
        ActionType::Fold => SeatState { status: SeatStatus::Folded, has_cards: false, ..seat },
        ActionType::Check => seat,
        ActionType::Call => seat_pays(seat, a),
        ActionType::Bet(b) => seat_pays(seat, b),
        ActionType::Raise(t) => {
            let raise_amount = diff_chips(t, seat.current_bet);
            SeatState {
                stack: diff_chips(seat.stack, raise_amount),
                current_bet: t,
                total_bet_this_hand: sum_chips(seat.total_bet_this_hand, raise_amount),
                ..seat
            }
        },
        ActionType::AllIn(_) => SeatState {
            stack: 0,
            current_bet: sum_chips(seat.current_bet, seat.stack),
            total_bet_this_hand: sum_chips(seat.total_bet_this_hand, seat.stack),
            status: SeatStatus::AllIn,
            ..seat
        },
        ActionType::PostBlind(kind) => {
            let p = seat_pays(seat, a);
            if kind == BlindKind::Ante {
                SeatState { current_bet: diff_chips(p.current_bet, a), ..p }
            } else {
                p
            }
        },
    };
    SeatState { last_action: Some(rec), ..s1 }
}

/// The betting context after `seat` acts.
pub open spec fn blinds_after_action(seat: SeatState, blinds: BlindsInfo, rec: ActionRecord) -> BlindsInfo {
    let a = rec.amount;
    match rec.action {
        ActionType::Bet(b) => BlindsInfo {
            last_raise_size: b,
            current_max_bet: sum_chips(seat.current_bet, b),
            ..blinds
        },
        ActionType::Raise(t) => {
            let inc = diff_chips(t, blinds.current_max_bet);
            BlindsInfo {
                last_raise_size: if inc >= blinds.big_blind { inc } else { blinds.big_blind },
                current_max_bet: t,
                ..blinds
            }
        },
        ActionType::AllIn(_) => {
            let nb = sum_chips(seat.current_bet, seat.stack);
            if nb > blinds.current_max_bet + 1 {
                BlindsInfo { current_max_bet: nb, ..blinds }
            } else {
                blinds
            }
        },
        ActionType::PostBlind(BlindKind::SmallBlind) => BlindsInfo { small_blind: a, ..blinds },
        ActionType::PostBlind(BlindKind::BigBlind) => BlindsInfo {
            big_blind: a,
            current_max_bet: a,
            last_raise_size: a,
            ..blinds
        },
        ActionType::PostBlind(BlindKind::Straddle) => BlindsInfo {
            straddle: a,
            current_max_bet: a,
            ..blinds
        },
        ActionType::PostBlind(BlindKind::Ante) => BlindsInfo { ante: a, ..blinds },
        _ => blinds,
    }
}

/// The table after an accepted action: the first seat with the acting id is
/// updated (if any), the turn moves on, and the record joins the history.
pub open spec fn state_after_action(s: TableStateView, rec: ActionRecord) -> TableStateView {
    let seats = match seat_index(s.seats, rec.seat_id) {
        Some(k) => s.seats.update(k, seat_after_action(s.seats[k], rec)),
        None => s.seats,
    };
    let blinds = match seat_index(s.seats, rec.seat_id) {
        Some(k) => blinds_after_action(s.seats[k], s.blinds, rec),
        None => s.blinds,
    };
    TableStateView {
        seats,
        blinds,
        current_player_turn: next_turn(seats, s.current_player_turn),
        action_history: s.action_history.push(rec),
        ..s
    }
}

/// The table after a seat changes status (the first seat with that id).
pub open spec fn state_after_status(s: TableStateView, id: SeatId, st: SeatStatus) -> TableStateView {
    TableStateView {
        seats: match seat_index(s.seats, id) {
            Some(k) => s.seats.update(k, SeatState { status: st, ..s.seats[k] }),
            None => s.seats,
        },
        ..s
    }
}

/// The log after an event: the event is appended, dropping the oldest when full.
pub open spec fn log_after(log: Seq<TableEvent>, e: TableEvent) -> Seq<TableEvent> {
    if log.len() >= EVENT_LOG_CAPACITY {
        log.drop_first().push(e)
    } else {
        log.push(e)
    }
}

/// The machine after one event, before the event is logged.
pub open spec fn apply_event(m: MachineView, e: TableEvent) -> MachineView {
    match e {
        TableEvent::NewHandDetected { dealer_seat } => MachineView {
            hand_seq: (m.hand_seq + 1) as u64,
            action_seq: 0,
            state: state_after_new_hand(m.state, (m.hand_seq + 1) as u64, dealer_seat),
            ..m
        },
        TableEvent::HoleCardsDetected { cards } => MachineView {
            state: TableStateView {
                hole_cards: Some(cards),
                state_confidence: confidence_up(m.state.state_confidence),
                ..m.state
            },
            ..m
        },
        TableEvent::CommunityCardsChanged { cards, street } => MachineView {
            state: state_after_street(m.state, cards@, street),
            ..m
        },
        TableEvent::ActionReconstructed { action } => MachineView {
            action_seq: (m.action_seq + 1) as u32,
            state: state_after_action(m.state, record_for(action, (m.action_seq + 1) as u32)),
            ..m
        },
        TableEvent::PotChanged { new_total, delta } => MachineView {
            state: TableStateView {
                pot: PotView { main_pot: new_total, total: new_total, ..m.state.pot },
                ..m.state
            },
            ..m
        },
        TableEvent::SeatStatusChanged { seat_id, new_status } => MachineView {
            state: state_after_status(m.state, seat_id, new_status),
            ..m
        },
        TableEvent::DealerButtonMoved { new_seat } => MachineView {
            state: TableStateView { dealer_seat: Some(new_seat), ..m.state },
            ..m
        },
        TableEvent::Timeout => MachineView {
            state: TableStateView {
                state_confidence: confidence_down(m.state.state_confidence),
                ..m.state
            },
            ..m
        },
    }
}

/// The machine after processing one event.
pub open spec fn machine_after(m: MachineView, e: TableEvent) -> MachineView {
    MachineView { event_log: log_after(m.event_log, e), ..apply_event(m, e) }
}

/// The transitions reported for one event.
pub open spec fn transitions_for(m: MachineView, e: TableEvent) -> Seq<StateTransition> {
    match e {
        TableEvent::NewHandDetected { .. } => seq![
            StateTransition::HandStarted { hand_number: (m.hand_seq + 1) as u64 },
        ],
        TableEvent::CommunityCardsChanged { street, .. } => seq![
            StateTransition::StreetChanged { from: m.state.street, to: street },
        ],
        TableEvent::ActionReconstructed { action } => seq![
            StateTransition::ActionRecorded(
                summary_of(record_for(action, (m.action_seq + 1) as u32)),
            ),
        ],
        TableEvent::Timeout => seq![
            StateTransition::StateConfidenceUpdated {
                new_confidence: confidence_down(m.state.state_confidence),
            },
        ],
        _ => Seq::empty(),
    }
}

/// The counters do not overflow on this event.
pub open spec fn can_process(m: MachineView, e: TableEvent) -> bool {
    &&& (e is NewHandDetected ==> m.hand_seq < u64::MAX)
    &&& (e is ActionReconstructed ==> m.action_seq < u32::MAX)
}

proof fn lemma_mod_step(a: int, n: int)
    requires
        a >= 0,
        n > 0,
    ensures
        (if a % n + 1 == n { 0 } else { a % n + 1 }) == (a + 1) % n,
{
    vstd::arithmetic::div_mod::lemma_fundamental_div_mod(a, n);
    vstd::arithmetic::div_mod::lemma_mod_bound(a, n);
    let q = a / n;
    let r = a % n;
    if r + 1 == n {
        assert(a + 1 == (q + 1) * n) by (nonlinear_arith)
            requires
                a == n * q + r,
                r + 1 == n,
        ;
        vstd::arithmetic::div_mod::lemma_fundamental_div_mod_converse(a + 1, n, q + 1, 0);
    } else {
        assert(a + 1 == q * n + (r + 1)) by (nonlinear_arith)
            requires
                a == n * q + r,
        ;
        vstd::arithmetic::div_mod::lemma_fundamental_div_mod_converse(a + 1, n, q, r + 1);
    }
}

// ---------------------------------------------------------------------------
// Properties that hold over every event
// ---------------------------------------------------------------------------

/// The records of the current hand are numbered 1, 2, 3, ... in the order
/// they were accepted, and the action counter is the number of records.
pub open spec fn actions_numbered(m: MachineView) -> bool {
    &&& m.action_seq == m.state.action_history.len()
    &&& forall|i: int| 0 <= i < m.state.action_history.len() ==> (#[trigger] m.state.action_history[i]).seq == i + 1
}

/// A fresh machine numbers its (no) actions correctly.
pub proof fn lemma_initial_actions_numbered(table_id: Seq<char>)
    ensures
        actions_numbered(
            MachineView {
                table_id,
                state: initial_state(table_id),
                event_log: Seq::empty(),
                action_seq: 0,
                hand_seq: 0,
            },
        ),
{
}

/// Every event keeps the records of a hand numbered 1, 2, 3, ...: an action
/// gets the number after the last, and a new hand starts again from nothing.
pub proof fn lemma_actions_stay_numbered(m: MachineView, e: TableEvent)
    requires
        actions_numbered(m),
        can_process(m, e),
    ensures
        actions_numbered(machine_after(m, e)),
{
    let m2 = machine_after(m, e);
    match e {
        TableEvent::ActionReconstructed { action } => {
            let rec = record_for(action, (m.action_seq + 1) as u32);
            assert(m2.state.action_history == m.state.action_history.push(rec));
            assert forall|i: int| 0 <= i < m2.state.action_history.len() implies (
            #[trigger] m2.state.action_history[i]).seq == i + 1 by {
                if i < m.state.action_history.len() {
                    assert(m2.state.action_history[i] == m.state.action_history[i]);
                }
            }
        },
        _ => {},
    }
}

/// Each accepted action adds exactly one record, the last, numbered one past
/// the previous action of the hand; nothing else in the history changes.
pub proof fn lemma_action_appends_one_record(m: MachineView, a: ReconstructedAction)
    requires
        m.action_seq < u32::MAX,
    ensures
        machine_after(m, TableEvent::ActionReconstructed { action: a }).action_seq == m.action_seq + 1,
        machine_after(m, TableEvent::ActionReconstructed { action: a }).state.action_history
            == m.state.action_history.push(record_for(a, (m.action_seq + 1) as u32)),
        seat_index(m.state.seats, a.seat_id) is None ==> machine_after(
            m,
            TableEvent::ActionReconstructed { action: a },
        ).state.seats == m.state.seats,
{
}

/// Confidence stays within 500..=1000 once it is there: a sighting raises it
/// by 50 up to 1000, a timeout lowers it by 50 down to 500, and no other
/// event touches it.
pub proof fn lemma_confidence_stays_in_range(m: MachineView, e: TableEvent)
    requires
        500 <= m.state.state_confidence <= 1000,
    ensures
        500 <= machine_after(m, e).state.state_confidence <= 1000,
        e is HoleCardsDetected ==> machine_after(m, e).state.state_confidence >= m.state.state_confidence,
        e is Timeout ==> machine_after(m, e).state.state_confidence <= m.state.state_confidence,
        !(e is HoleCardsDetected) && !(e is Timeout) ==> machine_after(m, e).state.state_confidence
            == m.state.state_confidence,
{
}

/// No event adds, removes or moves a seat: the seat ids stay in place.
pub proof fn lemma_seats_stay_in_place(m: MachineView, e: TableEvent)
    ensures
        machine_after(m, e).state.seats.len() == m.state.seats.len(),
        forall|j: int|
            0 <= j < m.state.seats.len() ==> (#[trigger] machine_after(m, e).state.seats[j]).seat_id
                == m.state.seats[j].seat_id,
{
}

/// An action changes at most one seat: the first with the acting id.
pub proof fn lemma_action_touches_one_seat(s: TableStateView, rec: ActionRecord, j: int)
    requires
        0 <= j < s.seats.len(),
        s.seats[j].seat_id != rec.seat_id || seat_index(s.seats, rec.seat_id) != Some(j),
    ensures
        state_after_action(s, rec).seats[j] == s.seats[j],
{
    match seat_index(s.seats, rec.seat_id) {
        Some(k) => {
            let c = choose|c: int| is_first_seat(s.seats, rec.seat_id, c);
            assert(is_first_seat(s.seats, rec.seat_id, c));
        },
        None => {},
    }
}

/// `x` lies in the `i64` range.
pub open spec fn fits_i64(x: int) -> bool {
    i64::MIN <= x <= i64::MAX
}

/// The action moves no amount of `seat` past the `i64` limits, where the
/// sums would stick at the limit instead.
pub open spec fn action_fits(seat: SeatState, rec: ActionRecord) -> bool {
    let a = rec.amount as int;
    match rec.action {
        ActionType::Call => fits_i64(seat.stack - a) && fits_i64(seat.current_bet + a) && fits_i64(
            seat.total_bet_this_hand + a,
        ),
        ActionType::Bet(b) => fits_i64(seat.stack - b) && fits_i64(seat.current_bet + b) && fits_i64(
            seat.total_bet_this_hand + b,
        ),
        ActionType::Raise(t) => {
            let r = t - seat.current_bet;
            fits_i64(r) && fits_i64(seat.stack - r) && fits_i64(seat.total_bet_this_hand + r)
        },
        ActionType::AllIn(_) => fits_i64(seat.current_bet + seat.stack) && fits_i64(
            seat.total_bet_this_hand + seat.stack,
        ),
        ActionType::PostBlind(_) => fits_i64(seat.stack - a) && fits_i64(seat.current_bet + a) && fits_i64(
            seat.total_bet_this_hand + a,
        ),
        _ => true,
    }
}

/// Chips are conserved at the acting seat: what leaves the stack is what the
/// seat has put in this hand, and, but for an ante, what it has put in on
/// this street. This holds whenever no amount reaches the `i64` limits.
pub proof fn lemma_action_conserves_chips(seat: SeatState, rec: ActionRecord)
    requires
        action_fits(seat, rec),
    ensures
        seat_after_action(seat, rec).stack + seat_after_action(seat, rec).total_bet_this_hand == seat.stack
            + seat.total_bet_this_hand,
        rec.action != ActionType::PostBlind(BlindKind::Ante) ==> seat_after_action(seat, rec).stack
            + seat_after_action(seat, rec).current_bet == seat.stack + seat.current_bet,
        seat_after_action(seat, rec).seat_id == seat.seat_id,
        seat_after_action(seat, rec).last_action == Some(rec),
{
}

/// Processing an action conserves chips at the table: the acting seat's stack
/// plus what it has put in this hand is unchanged (and, but for an ante,
/// its stack plus its street bet), and every other seat stays as it was,
/// whenever no amount reaches the `i64` limits.
pub proof fn lemma_processed_action_conserves_chips(m: MachineView, a: ReconstructedAction, k: int)
    requires
        m.action_seq < u32::MAX,
        seat_index(m.state.seats, a.seat_id) == Some(k),
        action_fits(m.state.seats[k], record_for(a, (m.action_seq + 1) as u32)),
    ensures
        ({
            let s2 = machine_after(m, TableEvent::ActionReconstructed { action: a }).state.seats;
            &&& s2.len() == m.state.seats.len()
            &&& s2[k].stack + s2[k].total_bet_this_hand == m.state.seats[k].stack
                + m.state.seats[k].total_bet_this_hand
            &&& a.action_type != ActionType::PostBlind(BlindKind::Ante) ==> s2[k].stack + s2[k].current_bet
                == m.state.seats[k].stack + m.state.seats[k].current_bet
            &&& forall|j: int| 0 <= j < s2.len() && j != k ==> #[trigger] s2[j] == m.state.seats[j]
        }),
{
    let rec = record_for(a, (m.action_seq + 1) as u32);
    lemma_action_conserves_chips(m.state.seats[k], rec);
    let c = choose|c: int| is_first_seat(m.state.seats, a.seat_id, c);
    assert(is_first_seat(m.state.seats, a.seat_id, c));
}

/// A new hand is numbered one past the hands seen so far and starts preflop
/// with an empty board, pot and history, nothing bet, no seat folded and
/// every stack as it was.
pub proof fn lemma_new_hand_starts_clean(m: MachineView, dealer: SeatId)
    requires
        m.hand_seq < u64::MAX,
    ensures
        ({
            let m2 = machine_after(m, TableEvent::NewHandDetected { dealer_seat: dealer });
            &&& m2.hand_seq == m.hand_seq + 1
            &&& m2.state.hand_number == m2.hand_seq
            &&& m2.action_seq == 0
            &&& m2.state.phase == TablePhase::Playing
            &&& m2.state.street == Street::Preflop
            &&& m2.state.dealer_seat == Some(dealer)
            &&& m2.state.hole_cards is None
            &&& m2.state.community_cards.len() == 0
            &&& m2.state.action_history.len() == 0
            &&& m2.state.pot.total == 0
            &&& m2.state.seats.len() == m.state.seats.len()
            &&& forall|j: int|
                0 <= j < m.state.seats.len() ==> {
                    &&& (#[trigger] m2.state.seats[j]).current_bet == 0
                    &&& m2.state.seats[j].total_bet_this_hand == 0
                    &&& m2.state.seats[j].status != SeatStatus::Folded
                    &&& m2.state.seats[j].stack == m.state.seats[j].stack
                }
        }),
{
}

/// A new street starts with nothing bet on it: every street bet is zero, the
/// largest bet is zero and the minimum raise is back to the big blind, while
/// stacks and hand totals stay as they were.
pub proof fn lemma_street_starts_clean(m: MachineView, cards: Vec<Card>, street: Street)
    ensures
        ({
            let m2 = machine_after(m, TableEvent::CommunityCardsChanged { cards, street });
            &&& m2.state.street == street
            &&& m2.state.community_cards == cards@
            &&& m2.state.blinds.current_max_bet == 0
            &&& m2.state.blinds.last_raise_size == m.state.blinds.big_blind
            &&& m2.state.action_history == m.state.action_history
            &&& m2.state.seats.len() == m.state.seats.len()
            &&& forall|j: int|
                0 <= j < m.state.seats.len() ==> {
                    &&& (#[trigger] m2.state.seats[j]).current_bet == 0
                    &&& m2.state.seats[j].total_bet_this_hand == m.state.seats[j].total_bet_this_hand
                    &&& m2.state.seats[j].stack == m.state.seats[j].stack
                }
        }),
{
}

/// A table back at waiting has no hand, no cards, nothing bet and no blinds.
pub proof fn lemma_waiting_is_clean(s: TableStateView)
    ensures
        state_for_waiting(s).phase == TablePhase::Waiting,
        state_for_waiting(s).hand_number == 0,
        state_for_waiting(s).hole_cards is None,
        state_for_waiting(s).community_cards.len() == 0,
        state_for_waiting(s).action_history.len() == 0,
        state_for_waiting(s).blinds == zero_blinds(),
        state_for_waiting(s).seats.len() == s.seats.len(),
        forall|j: int|
            0 <= j < s.seats.len() ==> {
                &&& (#[trigger] state_for_waiting(s).seats[j]).current_bet == 0
                &&& state_for_waiting(s).seats[j].total_bet_this_hand == 0
                &&& !state_for_waiting(s).seats[j].has_cards
                &&& state_for_waiting(s).seats[j].stack == s.seats[j].stack
            },
{
}

/// The event log ends with the latest event and holds at most its capacity.
pub proof fn lemma_log_keeps_latest(m: MachineView, e: TableEvent)
    requires
        machine_wf(m),
    ensures
        machine_wf(machine_after(m, e)),
        machine_after(m, e).event_log.last() == e,
        machine_after(m, e).event_log.len() == if m.event_log.len() < EVENT_LOG_CAPACITY {
            m.event_log.len() + 1int
        } else {
            EVENT_LOG_CAPACITY as int
        },
{
}

/// If any step in `1..=i` reaches an active seat, a smallest such step exists.
proof fn lemma_first_active_exists(seats: Seq<SeatState>, start: int, i: int)
    requires
        1 <= i <= seats.len(),
        seat_after(seats, start, i).status == SeatStatus::Active,
    ensures
        exists|k: int| is_next_active(seats, start, k),
    decreases i,
{
    if exists|j: int| 1 <= j < i && (#[trigger] seat_after(seats, start, j)).status == SeatStatus::Active {
        let j = choose|j: int| 1 <= j < i && (#[trigger] seat_after(seats, start, j)).status == SeatStatus::Active;
        lemma_first_active_exists(seats, start, j);
    } else {
        assert(is_next_active(seats, start, i));
    }
}

/// The turn always passes to an active seat, or to nobody when no seat is active.
pub proof fn lemma_next_turn_is_active(seats: Seq<SeatState>, turn: Option<SeatId>)
    requires
        seats.len() > 0,
    ensures
        match next_turn(seats, turn) {
            Some(id) => exists|j: int|
                0 <= j < seats.len() && (#[trigger] seats[j]).seat_id == id && seats[j].status == SeatStatus::Active,
            None => forall|j: int| 0 <= j < seats.len() ==> (#[trigger] seats[j]).status != SeatStatus::Active,
        },
{
    let n = seats.len() as int;
    let st = turn_start(turn);
    assert(st >= 0);
    if exists|i: int| is_next_active(seats, st, i) {
        let i = choose|i: int| is_next_active(seats, st, i);
        let j = (st + i) % n;
        vstd::arithmetic::div_mod::lemma_mod_bound(st + i, n);
        assert(seats[j] == seat_after(seats, st, i));
    } else {
        assert forall|j: int| 0 <= j < n implies (#[trigger] seats[j]).status != SeatStatus::Active by {
            let r = st % n;
            vstd::arithmetic::div_mod::lemma_fundamental_div_mod(st, n);
            vstd::arithmetic::div_mod::lemma_mod_bound(st, n);
            let i = if j > r { j - r } else { j - r + n };
            let q = st / n;
            if j > r {
                assert(st + i == q * n + j) by (nonlinear_arith)
                    requires
                        st == n * q + r,
                        i == j - r,
                ;
                vstd::arithmetic::div_mod::lemma_fundamental_div_mod_converse(st + i, n, q, j);
            } else {
                assert(st + i == (q + 1) * n + j) by (nonlinear_arith)
                    requires
                        st == n * q + r,
                        i == j - r + n,
                ;
                vstd::arithmetic::div_mod::lemma_fundamental_div_mod_converse(st + i, n, q + 1, j);
            }
            assert(seat_after(seats, st, i) == seats[j]);
            if seats[j].status == SeatStatus::Active {
                lemma_first_active_exists(seats, st, i);
            }
        }
    }
}

impl TableStateMachine {
    pub fn new(table_id: String) -> (m: TableStateMachine)
        ensures
            m@.table_id == table_id@,
            m@.state == initial_state(table_id@),
            m@.event_log.len() == 0,
            m@.action_seq == 0,
            m@.hand_seq == 0,
            machine_wf(m@),
    {
        let state = TableState::initial(table_id.clone());
        TableStateMachine {
            table_id,
            state,
            event_log: VecDeque::with_capacity(EVENT_LOG_CAPACITY),
            action_seq: 0,
            hand_seq: 0,
        }
    }

    /// Applies one event; the reported transitions describe what changed.
    pub fn process_event(&mut self, event: TableEvent) -> (r: Result<Vec<StateTransition>, TfError>)
        requires
            machine_wf(old(self)@),
            can_process(old(self)@, event),
        ensures
            machine_wf(final(self)@),
            final(self)@ == machine_after(old(self)@, event),
            r matches Ok(t) && t@ == transitions_for(old(self)@, event),
    {
        let transitions = match &event {
            TableEvent::NewHandDetected { dealer_seat } => self.handle_new_hand(*dealer_seat),
            TableEvent::HoleCardsDetected { cards } => {
                self.state.hole_cards = Some(*cards);
                self.bump_confidence();
                Vec::new()
            },
            TableEvent::CommunityCardsChanged { cards, street } => {
                let c = cards.clone();
                proof {
                    assert(c@ =~= cards@);
                }
                self.handle_community_change(c, *street)
            },
            TableEvent::ActionReconstructed { action } => self.handle_action(*action),
            TableEvent::PotChanged { new_total, delta } => {
                self.state.pot.total = *new_total;
                self.state.pot.main_pot = *new_total;
                Vec::new()
            },
            TableEvent::SeatStatusChanged { seat_id, new_status } => {
                match find_seat(&self.state.seats, *seat_id) {
                    Some(k) => {
                        let mut seat = self.state.seats[k];
                        seat.status = *new_status;
                        self.state.seats.set(k, seat);
                    },
                    None => {},
                }
                Vec::new()
            },
            TableEvent::DealerButtonMoved { new_seat } => {
                self.state.dealer_seat = Some(*new_seat);
                Vec::new()
            },
            TableEvent::Timeout => {
                let c = self.state.state_confidence;
                self.state.state_confidence = if c >= 550 { c - 50 } else { 500 };
                let mut t = Vec::new();
                t.push(StateTransition::StateConfidenceUpdated { new_confidence: self.state.state_confidence });
                t
            },
        };
        proof {
            assert(self@ == apply_event(old(self)@, event)) by {
                assert(self@.state =~= apply_event(old(self)@, event).state);
            }
            assert(transitions@ =~= transitions_for(old(self)@, event));
        }
        self.push_event_log(event);
        Ok(transitions)
    }

    fn handle_new_hand(&mut self, dealer_seat: SeatId) -> (t: Vec<StateTransition>)
        requires
            old(self).hand_seq < u64::MAX,
        ensures
            final(self)@ == apply_event(old(self)@, TableEvent::NewHandDetected { dealer_seat }),
            t@ == transitions_for(old(self)@, TableEvent::NewHandDetected { dealer_seat }),
    {
        self.hand_seq = self.hand_seq + 1;
        self.action_seq = 0;

        self.state.phase = TablePhase::Playing;
        self.state.street = Street::Preflop;
        self.state.hand_number = self.hand_seq;
        self.state.dealer_seat = Some(dealer_seat);
        self.state.hole_cards = None;
        self.state.community_cards.clear();
        self.state.pot = PotInfo::empty();
        self.state.action_history.clear();
        self.state.current_player_turn = None;

        reset_seats_for_new_hand(&mut self.state.seats);
        proof {
            assert(self.state.community_cards@ =~= Seq::<Card>::empty());
            assert(self.state.action_history@ =~= Seq::<ActionRecord>::empty());
            assert(self@.state =~= apply_event(old(self)@, TableEvent::NewHandDetected { dealer_seat }).state);
        }
        let mut t = Vec::new();
        t.push(StateTransition::HandStarted { hand_number: self.hand_seq });
        proof {
            assert(t@ =~= transitions_for(old(self)@, TableEvent::NewHandDetected { dealer_seat }));
        }
        t
    }

    fn handle_community_change(&mut self, cards: Vec<Card>, new_street: Street) -> (t: Vec<StateTransition>)
        ensures
            final(self)@ == (MachineView { state: state_after_street(old(self)@.state, cards@, new_street), ..old(self)@ }),
            t@ == seq![StateTransition::StreetChanged { from: old(self)@.state.street, to: new_street }],
    {
        let old_street = self.state.street;
        self.state.community_cards = cards;
        self.state.street = new_street;

        reset_seats_for_new_street(&mut self.state.seats);
        self.state.blinds.current_max_bet = 0;
        self.state.blinds.last_raise_size = self.state.blinds.big_blind;
        proof {
            assert(self@.state =~= state_after_street(old(self)@.state, cards@, new_street));
        }
        let mut t = Vec::new();
        t.push(StateTransition::StreetChanged { from: old_street, to: new_street });
        proof {
            assert(t@ =~= seq![StateTransition::StreetChanged { from: old(self)@.state.street, to: new_street }]);
        }
        t
    }

    fn handle_action(&mut self, action: ReconstructedAction) -> (t: Vec<StateTransition>)
        requires
            old(self).action_seq < u32::MAX,
        ensures
            final(self)@ == apply_event(old(self)@, TableEvent::ActionReconstructed { action }),
            t@ == transitions_for(old(self)@, TableEvent::ActionReconstructed { action }),
    {
        self.action_seq = self.action_seq + 1;
        let seq = self.action_seq;
        let amount = match action.amount {
            Some(x) => x,
            None => 0,
        };
        let record = ActionRecord {
            seat_id: action.seat_id,
            action: action.action_type,
            amount,
            street: action.street,
            seq,
            confidence: action.confidence,
        };
        let ghost s0 = self.state@;
        match find_seat(&self.state.seats, action.seat_id) {
            Some(k) => {
                let seat = self.state.seats[k];
                let (new_seat, new_blinds) = apply_to_seat(seat, self.state.blinds, record);
                self.state.seats.set(k, new_seat);
                self.state.blinds = new_blinds;
            },
            None => {},
        }
        self.advance_turn();
        self.state.action_history.push(record);
        proof {
            assert(record == record_for(action, seq));
            assert(self@.state =~= state_after_action(s0, record));
        }
        let mut t = Vec::new();
        t.push(StateTransition::ActionRecorded(ActionRecordSummary {
            seat_id: record.seat_id,
            action: record.action,
            amount: record.amount,
            street: record.street,
            seq: record.seq,
            confidence: record.confidence,
        }));
        proof {
            assert(t@ =~= transitions_for(old(self)@, TableEvent::ActionReconstructed { action }));
        }
        t
    }

    /// Moves the turn to the next active seat after the current one.
    pub fn advance_turn(&mut self)
        ensures
            final(self)@ == (MachineView {
                state: TableStateView {
                    current_player_turn: next_turn(old(self)@.state.seats, old(self)@.state.current_player_turn),
                    ..old(self)@.state
                },
                ..old(self)@
            }),
    {
        let t = find_next_turn(&self.state.seats, self.state.current_player_turn);
        self.state.current_player_turn = t;
        proof {
            assert(self@.state =~= TableStateView {
                current_player_turn: next_turn(old(self)@.state.seats, old(self)@.state.current_player_turn),
                ..old(self)@.state
            });
        }
    }

    /// Clears the hand and returns the table to waiting (the hand counter keeps running).
    pub fn reset_to_waiting(&mut self)
        ensures
            final(self)@ == (MachineView {
                state: state_for_waiting(old(self)@.state),
                action_seq: 0,
                ..old(self)@
            }),
    {
        self.state.phase = TablePhase::Waiting;
        self.state.street = Street::Preflop;
        self.state.hand_number = 0;
        self.state.dealer_seat = None;
        self.state.hole_cards = None;
        self.state.community_cards.clear();
        self.state.pot = PotInfo::empty();
        self.state.action_history.clear();
        self.state.current_player_turn = None;
        self.state.blinds = BlindsInfo::zero();
        self.action_seq = 0;
        reset_seats_for_waiting(&mut self.state.seats);
        proof {
            assert(self.state.community_cards@ =~= Seq::<Card>::empty());
            assert(self.state.action_history@ =~= Seq::<ActionRecord>::empty());
            assert(self@.state =~= state_for_waiting(old(self)@.state));
        }
    }

    pub fn state(&self) -> (r: &TableState)
        ensures
            r@ == self@.state,
    {
        &self.state
    }

    /// A copy of the current state.
    pub fn snapshot(&self) -> (r: TableState)
        ensures
            r@ == self@.state,
    {
        self.state.copy()
    }

    pub fn event_log(&self) -> (r: &VecDeque<TableEvent>)
        ensures
            r@ == self@.event_log,
    {
        &self.event_log
    }

    /// Replaces the table state (the counters and the log are kept).
    pub fn set_state(&mut self, state: TableState)
        ensures
            final(self)@ == (MachineView { state: state@, ..old(self)@ }),
    {
        self.state = state;
    }

    pub fn next_action_seq(&mut self) -> (r: u32)
        requires
            old(self)@.action_seq < u32::MAX,
        ensures
            r == old(self)@.action_seq + 1,
            final(self)@ == (MachineView { action_seq: r, ..old(self)@ }),
    {
        self.action_seq = self.action_seq + 1;
        self.action_seq
    }

    pub fn next_hand_seq(&mut self) -> (r: u64)
        requires
            old(self)@.hand_seq < u64::MAX,
        ensures
            r == old(self)@.hand_seq + 1,
            final(self)@ == (MachineView { hand_seq: r, ..old(self)@ }),
    {
        self.hand_seq = self.hand_seq + 1;
        self.hand_seq
    }

    fn push_event_log(&mut self, event: TableEvent)
        requires
            machine_wf(old(self)@),
        ensures
            final(self)@ == (MachineView { event_log: log_after(old(self)@.event_log, event), ..old(self)@ }),
            machine_wf(final(self)@),
    {
        if self.event_log.len() >= EVENT_LOG_CAPACITY {
            self.event_log.pop_front();
        }
        self.event_log.push_back(event);
        proof {
            assert(self.event_log@ =~= log_after(old(self)@.event_log, event));
        }
    }

    fn bump_confidence(&mut self)
        ensures
            final(self)@ == (MachineView {
                state: TableStateView {
                    state_confidence: confidence_up(old(self)@.state.state_confidence),
                    ..old(self)@.state
                },
                ..old(self)@
            }),
    {
        let c = self.state.state_confidence;
        self.state.state_confidence = if c <= 950 { c + 50 } else { 1000 };
        proof {
            assert(self@.state =~= TableStateView {
                state_confidence: confidence_up(old(self)@.state.state_confidence),
                ..old(self)@.state
            });
        }
    }
}

/// The seat after which the turn moves on.
fn find_next_turn(seats: &Vec<SeatState>, turn: Option<SeatId>) -> (r: Option<SeatId>)
    ensures
        r == next_turn(seats@, turn),
{
    let n = seats.len();
    if n == 0 {
        return turn;
    }
    let start: usize = match turn {
        Some(s) => s.0 as usize,
        None => 0,
    };
    let ghost st = turn_start(turn);
    let mut idx: usize = start % n;
    for k in 0..n
        invariant
            n == seats@.len(),
            n > 0,
            st == start as int,
            st == turn_start(turn),
            st >= 0,
            idx as int == (st + k) % (n as int),
            forall|j: int| 1 <= j <= k ==> (#[trigger] seat_after(seats@, st, j)).status != SeatStatus::Active,
    {
        proof {
            lemma_mod_step(st + k, n as int);
            vstd::arithmetic::div_mod::lemma_mod_bound(st + k, n as int);
        }
        idx = if idx + 1 == n { 0 } else { idx + 1 };
        let seat = seats[idx];
        proof {
            assert(seat_after(seats@, st, (k + 1) as int) == seat);
        }
        if seat.status == SeatStatus::Active {
            proof {
                let i = (k + 1) as int;
                assert(is_next_active(seats@, st, i));
                let c = choose|c: int| is_next_active(seats@, st, c);
                if c < i {
                    assert(seat_after(seats@, st, c).status != SeatStatus::Active);
                } else if i < c {
                    assert(seat_after(seats@, st, i).status != SeatStatus::Active);
                }
                assert(c == i);
                assert(seat_after(seats@, st, c) == seat);
                assert(next_turn(seats@, turn) == Some(seat.seat_id));
            }
            return Some(seat.seat_id);
        }
    }
    proof {
        if exists|i: int| is_next_active(seats@, st, i) {
            let i = choose|i: int| is_next_active(seats@, st, i);
            assert(seat_after(seats@, st, i).status != SeatStatus::Active);
        }
    }
    None
}

fn reset_seats_for_new_hand(seats: &mut Vec<SeatState>)
    ensures
        final(seats)@ == old(seats)@.map_values(|x: SeatState| seat_for_new_hand(x)),
{
    let n = seats.len();
    for i in 0..n
        invariant
            n == seats@.len(),
            old(seats)@.len() == n,
            forall|j: int| 0 <= j < i ==> seats@[j] == seat_for_new_hand(#[trigger] old(seats)@[j]),
            forall|j: int| i <= j < n ==> seats@[j] == #[trigger] old(seats)@[j],
    {
        let mut seat = seats[i];
        seat.current_bet = 0;
        seat.total_bet_this_hand = 0;
        seat.last_action = None;
        seat.has_cards = true;
        if seat.status == SeatStatus::Folded {
            seat.status = SeatStatus::Active;
        }
        seats.set(i, seat);
    }
    proof {
        assert(seats@ =~= old(seats)@.map_values(|x: SeatState| seat_for_new_hand(x)));
    }
}

fn reset_seats_for_new_street(seats: &mut Vec<SeatState>)
    ensures
        final(seats)@ == old(seats)@.map_values(|x: SeatState| seat_for_new_street(x)),
{
    let n = seats.len();
    for i in 0..n
        invariant
            n == seats@.len(),
            old(seats)@.len() == n,
            forall|j: int| 0 <= j < i ==> seats@[j] == seat_for_new_street(#[trigger] old(seats)@[j]),
            forall|j: int| i <= j < n ==> seats@[j] == #[trigger] old(seats)@[j],
    {
        let mut seat = seats[i];
        seat.current_bet = 0;
        seats.set(i, seat);
    }
    proof {
        assert(seats@ =~= old(seats)@.map_values(|x: SeatState| seat_for_new_street(x)));
    }
}

fn reset_seats_for_waiting(seats: &mut Vec<SeatState>)
    ensures
        final(seats)@ == old(seats)@.map_values(|x: SeatState| seat_for_waiting(x)),
{
    let n = seats.len();
    for i in 0..n
        invariant
            n == seats@.len(),
            old(seats)@.len() == n,
            forall|j: int| 0 <= j < i ==> seats@[j] == seat_for_waiting(#[trigger] old(seats)@[j]),
            forall|j: int| i <= j < n ==> seats@[j] == #[trigger] old(seats)@[j],
    {
        let mut seat = seats[i];
        seat.current_bet = 0;
        seat.total_bet_this_hand = 0;
        seat.last_action = None;
        seat.has_cards = false;
        seats.set(i, seat);
    }
    proof {
        assert(seats@ =~= old(seats)@.map_values(|x: SeatState| seat_for_waiting(x)));
    }
}

/// The acting seat and the betting context after an action.
fn apply_to_seat(seat: SeatState, blinds: BlindsInfo, rec: ActionRecord) -> (r: (SeatState, BlindsInfo))
    ensures
        r.0 == seat_after_action(seat, rec),
        r.1 == blinds_after_action(seat, blinds, rec),
{
    let amount = rec.amount;
    let mut s = seat;
    let mut b = blinds;
    match rec.action {
        ActionType::Fold => {
            s.status = SeatStatus::Folded;
            s.has_cards = false;
        },
        ActionType::Check => {},
        ActionType::Call => {
            s.stack = chips_sub(s.stack, amount);
            s.current_bet = chips_add(s.current_bet, amount);
            s.total_bet_this_hand = chips_add(s.total_bet_this_hand, amount);
        },
        ActionType::Bet(bet_amount) => {
            s.stack = chips_sub(s.stack, bet_amount);
            s.current_bet = chips_add(s.current_bet, bet_amount);
            s.total_bet_this_hand = chips_add(s.total_bet_this_hand, bet_amount);
            b.last_raise_size = bet_amount;
            b.current_max_bet = s.current_bet;
        },
        ActionType::Raise(total) => {
            let raise_amount = chips_sub(total, s.current_bet);
            let raise_increment = chips_sub(total, b.current_max_bet);
            s.stack = chips_sub(s.stack, raise_amount);
            s.current_bet = total;
            s.total_bet_this_hand = chips_add(s.total_bet_this_hand, raise_amount);
            b.last_raise_size = chips_max(raise_increment, b.big_blind);
            b.current_max_bet = total;
        },
        ActionType::AllIn(_) => {
            let allin_amount = s.stack;
            s.stack = 0;
            s.current_bet = chips_add(s.current_bet, allin_amount);
            s.total_bet_this_hand = chips_add(s.total_bet_this_hand, allin_amount);
            s.status = SeatStatus::AllIn;
            if (s.current_bet as i128) > (b.current_max_bet as i128) + 1 {
                b.current_max_bet = s.current_bet;
            }
        },
        ActionType::PostBlind(kind) => {
            s.stack = chips_sub(s.stack, amount);
            s.current_bet = chips_add(s.current_bet, amount);
            s.total_bet_this_hand = chips_add(s.total_bet_this_hand, amount);
            match kind {
                BlindKind::SmallBlind => {
                    b.small_blind = amount;
                },
                BlindKind::BigBlind => {
                    b.big_blind = amount;
                    b.current_max_bet = amount;
                    b.last_raise_size = amount;
                },
                BlindKind::Straddle => {
                    b.straddle = amount;
                    b.current_max_bet = amount;
                },
                BlindKind::Ante => {
                    b.ante = amount;
                    s.current_bet = chips_sub(s.current_bet, amount);
                },
            }
        },
    }
    s.last_action = Some(rec);
    (s, b)
}

} // verus!
