//! `ActionReconstructor`: derives player actions from stack and pot changes
//! and seat-status changes (three signals, cross-checked), not from reading
//! button labels.

use vstd::prelude::*;

use crate::events::ReconstructedAction;
use crate::state::{find_seat, seat_index, SeatState, TableState, TableStateView};
use crate::types::{ActionSource, ActionType, BlindKind, SeatId, Street};

verus! {

/// Thresholds (amounts in hundredths of a chip, confidence in thousandths).
#[derive(Debug, Clone, Copy)]
pub struct ReconConfig {
    pub min_stack_change: i64,
    pub min_pot_change: i64,
    pub debounce_ms: u64,
    pub confidence_threshold: u32,
}

impl ReconConfig {
    /// Half a chip for stack and pot changes, 80 ms debounce, 0.6 confidence.
    pub fn standard() -> (c: ReconConfig)
        ensures
            c.min_stack_change == 50,
            c.min_pot_change == 50,
            c.debounce_ms == 80,
            c.confidence_threshold == 600,
    {
        ReconConfig { min_stack_change: 50, min_pot_change: 50, debounce_ms: 80, confidence_threshold: 600 }
    }
}

impl Default for ReconConfig {
    fn default() -> (c: ReconConfig)
        ensures
            c.min_stack_change == 50,
            c.min_pot_change == 50,
            c.debounce_ms == 80,
            c.confidence_threshold == 600,
    {
        ReconConfig::standard()
    }
}

#[derive(Debug, Clone, Copy, PartialEq, Eq, Structural)]
pub struct StackDelta {
    pub seat_id: SeatId,
    pub delta: i64,
    pub confidence: u32,
}

#[derive(Debug, Clone, Copy, PartialEq, Eq, Structural)]
pub struct PotDelta {
    pub delta: i64,
    pub confidence: u32,
}

#[derive(Debug, Clone)]
pub struct ReconInput {
    pub stack_changes: Vec<StackDelta>,
    pub pot_change: Option<PotDelta>,
    pub folded_seats: Vec<SeatId>,
    pub allin_seats: Vec<SeatId>,
}

pub struct ActionReconstructor {
    pub config: ReconConfig,
}

// ---------------------------------------------------------------------------
// What the reconstructor derives
// ---------------------------------------------------------------------------

/// Nine tenths of a confidence, rounded down.
pub open spec fn discounted(c: u32) -> u32 {
    (c * 9 / 10) as u32
}

/// A confidence raised by a tenth, at most 1000.
pub open spec fn boosted(c: u32) -> u32 {
    if c + 100 <= 1000 { (c + 100) as u32 } else { 1000 }
}

/// The size of a stack decrease, held to the `i64` range.
pub open spec fn decrease_amount(delta: i64) -> i64 {
    if delta == i64::MIN { i64::MAX } else if delta < 0 { (-delta) as i64 } else { delta }
}

/// Number of forced blinds in a history.
pub open spec fn posted_count(h: Seq<crate::state::ActionRecord>) -> nat
    decreases h.len(),
{
    if h.len() == 0 {
        0
    } else {
        posted_count(h.drop_last()) + if h.last().action is PostBlind { 1nat } else { 0nat }
    }
}

/// An action derived from a stack change of `change.seat_id`, where the seat is
/// looked up by its position `seat_id.0` among the seats.
pub open spec fn derived_action(prev: TableStateView, change: StackDelta) -> Option<ReconstructedAction> {
    let amount = decrease_amount(change.delta);
    let pos = change.seat_id.0 as int;
    if pos >= prev.seats.len() {
        None
    } else {
        let seat = prev.seats[pos];
        let to_call = prev.blinds.current_max_bet;
        let new_bet = seat.current_bet + amount;
        let bb = prev.blinds.big_blind;
        let conf = discounted(change.confidence);
        let mk = |t: ActionType, a: i64|
            ReconstructedAction {
                seat_id: change.seat_id,
                action_type: t,
                amount: Some(a),
                street: prev.street,
                timestamp_ms: 0,
                confidence: conf,
                source: ActionSource::StackDiff,
            };
        if seat.stack - amount <= 0 {
            Some(mk(ActionType::AllIn(seat.stack), seat.stack))
        } else if prev.street == Street::Preflop && prev.action_history.len() == 0
            && amount == prev.blinds.small_blind {
            Some(mk(ActionType::PostBlind(BlindKind::SmallBlind), amount))
        } else if prev.street == Street::Preflop && posted_count(prev.action_history) < 2 && amount == bb
            && to_call < 1 {
            Some(mk(ActionType::PostBlind(BlindKind::BigBlind), amount))
        } else if to_call > 1 && new_bet == to_call {
            Some(mk(ActionType::Call, amount))
        } else if to_call < 1 && new_bet > 1 {
            Some(mk(ActionType::Bet(amount), amount))
        } else if to_call > 1 && new_bet > to_call + 1 {
            Some(mk(ActionType::Raise(new_bet as i64), amount))
        } else {
            None
        }
    }
}

/// A raise read from a stack decrease of `a` chips at a seat that had bet
/// `b` on the street is a raise to `b + a`, above the largest bet so far; the
/// chips just added are its amount. A call brings the seat's bet exactly to
/// the largest bet.
pub proof fn lemma_stack_raise_is_raise_to(prev: TableStateView, change: StackDelta)
    requires
        derived_action(prev, change) is Some,
        prev.seats[change.seat_id.0 as int].current_bet + decrease_amount(change.delta) <= i64::MAX,
    ensures
        ({
            let a = derived_action(prev, change)->0;
            let b = prev.seats[change.seat_id.0 as int].current_bet;
            let added = decrease_amount(change.delta);
            &&& change.seat_id.0 < prev.seats.len()
            &&& a.seat_id == change.seat_id
            &&& !(a.action_type is AllIn) ==> a.amount == Some(added)
            &&& (i64::MIN < change.delta < 0 ==> added == -change.delta)
            &&& forall|t: i64|
                a.action_type == ActionType::Raise(t) ==> t == b + added && t > prev.blinds.current_max_bet
            &&& a.action_type == ActionType::Call ==> b + added == prev.blinds.current_max_bet
            &&& forall|x: i64|
                a.action_type == ActionType::Bet(x) ==> x == added && prev.blinds.current_max_bet < 1
            &&& forall|x: i64|
                a.action_type == ActionType::AllIn(x) ==> x == prev.seats[change.seat_id.0 as int].stack
                    && a.amount == Some(x) && added >= x
            &&& a.street == prev.street
        }),
{
    let added = decrease_amount(change.delta);
    let pos = change.seat_id.0 as int;
    assert(pos < prev.seats.len());
    let seat = prev.seats[pos];
    let new_bet = seat.current_bet + added;
    let a = derived_action(prev, change)->0;
    assert(added >= 0);
    assert(i64::MIN <= new_bet <= i64::MAX);
    assert(new_bet as i64 == new_bet);
    assert(a.seat_id == change.seat_id);
    assert forall|t: i64| a.action_type == ActionType::Raise(t) implies t == seat.current_bet + added
        && t > prev.blinds.current_max_bet by {
        assert(prev.blinds.current_max_bet > 1 && new_bet > prev.blinds.current_max_bet + 1);
    }
}

/// Actions from the stack changes, in order; changes smaller than the
/// threshold are ignored.
pub open spec fn stack_actions(prev: TableStateView, min_change: i64, deltas: Seq<StackDelta>) -> Seq<ReconstructedAction>
    decreases deltas.len(),
{
    if deltas.len() == 0 {
        Seq::empty()
    } else {
        let rest = stack_actions(prev, min_change, deltas.drop_last());
        let d = deltas.last();
        if d.delta >= -min_change {
            rest
        } else {
            match derived_action(prev, d) {
                Some(a) => rest.push(a),
                None => rest,
            }
        }
    }
}

/// Sum of the amounts the actions carry.
pub open spec fn amount_sum(actions: Seq<ReconstructedAction>) -> int
    decreases actions.len(),
{
    if actions.len() == 0 {
        0
    } else {
        amount_sum(actions.drop_last()) + match actions.last().amount {
            Some(x) => x as int,
            None => 0,
        }
    }
}

/// When the pot grew by about what the actions carry (within two chips),
/// every action gains confidence and is marked as confirmed by both signals.
pub open spec fn cross_validated(actions: Seq<ReconstructedAction>, pot: Option<PotDelta>) -> Seq<ReconstructedAction> {
    match pot {
        Some(p) => {
            let d = amount_sum(actions) - p.delta;
            if -200 < d < 200 {
                actions.map_values(|a: ReconstructedAction|
                    ReconstructedAction { confidence: boosted(a.confidence), source: ActionSource::Combined, ..a })
            } else {
                actions
            }
        },
        None => actions,
    }
}

pub open spec fn fold_action(prev: TableStateView, id: SeatId) -> ReconstructedAction {
    ReconstructedAction {
        seat_id: id,
        action_type: ActionType::Fold,
        amount: None,
        street: prev.street,
        timestamp_ms: 0,
        confidence: 950,
        source: ActionSource::SeatStatusChange,
    }
}

/// The stack of the first seat with id `id` (zero when there is none).
pub open spec fn stack_of(prev: TableStateView, id: SeatId) -> i64 {
    match seat_index(prev.seats, id) {
        Some(k) => prev.seats[k].stack,
        None => 0,
    }
}

pub open spec fn allin_action(prev: TableStateView, id: SeatId) -> ReconstructedAction {
    ReconstructedAction {
        seat_id: id,
        action_type: ActionType::AllIn(stack_of(prev, id)),
        amount: Some(stack_of(prev, id)),
        street: prev.street,
        timestamp_ms: 0,
        confidence: 900,
        source: ActionSource::SeatStatusChange,
    }
}

/// Which variant an action is (amounts ignored).
pub open spec fn action_kind(t: ActionType) -> int {
    match t {
        ActionType::Fold => 0,
        ActionType::Check => 1,
        ActionType::Call => 2,
        ActionType::Bet(_) => 3,
        ActionType::Raise(_) => 4,
        ActionType::AllIn(_) => 5,
        ActionType::PostBlind(_) => 6,
    }
}

/// Two actions count as the same: same seat, street and kind of action.
pub open spec fn same_key(a: ReconstructedAction, b: ReconstructedAction) -> bool {
    a.seat_id == b.seat_id && a.street == b.street && action_kind(a.action_type) == action_kind(b.action_type)
}

/// The actions with later repeats of a key dropped (the first one stays).
pub open spec fn deduplicated(s: Seq<ReconstructedAction>) -> Seq<ReconstructedAction>
    decreases s.len(),
{
    if s.len() == 0 {
        Seq::empty()
    } else {
        let rest = deduplicated(s.drop_last());
        if exists|j: int| 0 <= j < s.len() - 1 && same_key(#[trigger] s[j], s.last()) {
            rest
        } else {
            rest.push(s.last())
        }
    }
}

/// Every action kept by deduplication is one of the input actions.
pub proof fn lemma_dedup_keeps_input(s: Seq<ReconstructedAction>)
    ensures
        forall|k: int|
            0 <= k < deduplicated(s).len() ==> exists|j: int| 0 <= j < s.len() && #[trigger] deduplicated(s)[k] == s[j],
    decreases s.len(),
{
    if s.len() > 0 {
        let t = s.drop_last();
        lemma_dedup_keeps_input(t);
        let d = deduplicated(s);
        assert forall|k: int| 0 <= k < d.len() implies exists|j: int| 0 <= j < s.len() && #[trigger] d[k] == s[j] by {
            if k < deduplicated(t).len() {
                let j = choose|j: int| 0 <= j < t.len() && deduplicated(t)[k] == t[j];
                assert(d[k] == s[j]);
            } else {
                assert(d[k] == s[s.len() - 1]);
            }
        }
    }
}

/// Deduplication leaves no two actions of the same seat, street and kind.
pub proof fn lemma_dedup_distinct_keys(s: Seq<ReconstructedAction>)
    ensures
        forall|i: int, j: int|
            0 <= i < j < deduplicated(s).len() ==> !same_key(#[trigger] deduplicated(s)[i], #[trigger] deduplicated(s)[j]),
    decreases s.len(),
{
    if s.len() > 0 {
        let t = s.drop_last();
        lemma_dedup_distinct_keys(t);
        lemma_dedup_keeps_input(t);
        let rest = deduplicated(t);
        let d = deduplicated(s);
        if !(exists|j: int| 0 <= j < s.len() - 1 && same_key(#[trigger] s[j], s.last())) {
            assert forall|i: int, j: int| 0 <= i < j < d.len() implies !same_key(#[trigger] d[i], #[trigger] d[j]) by {
                if j == d.len() - 1 {
                    let q = choose|q: int| 0 <= q < t.len() && rest[i] == t[q];
                    assert(d[i] == s[q]);
                    if same_key(d[i], d[j]) {
                        assert(same_key(s[q], s.last()));
                    }
                } else {
                    assert(d[i] == rest[i] && d[j] == rest[j]);
                }
            }
        }
    }
}

/// Everything `reconstruct` derives from one input.
pub open spec fn reconstructed(prev: TableStateView, config: ReconConfig, input_stack: Seq<StackDelta>,
    pot: Option<PotDelta>, folded: Seq<SeatId>, allin: Seq<SeatId>) -> Seq<ReconstructedAction> {
    deduplicated(
        cross_validated(stack_actions(prev, config.min_stack_change, input_stack), pot)
            + folded.map_values(|id: SeatId| fold_action(prev, id))
            + allin.map_values(|id: SeatId| allin_action(prev, id)),
    )
}

// ---------------------------------------------------------------------------
// Implementation
// ---------------------------------------------------------------------------

pub(crate) fn kind_of(t: ActionType) -> (k: u8)
    ensures
        k == action_kind(t),
{
    match t {
        ActionType::Fold => 0,
        ActionType::Check => 1,
        ActionType::Call => 2,
        ActionType::Bet(_) => 3,
        ActionType::Raise(_) => 4,
        ActionType::AllIn(_) => 5,
        ActionType::PostBlind(_) => 6,
    }
}

fn count_posted(h: &Vec<crate::state::ActionRecord>) -> (n: usize)
    ensures
        n == posted_count(h@),
{
    let mut n: usize = 0;
    let len = h.len();
    for i in 0..len
        invariant
            len == h@.len(),
            n == posted_count(h@.take(i as int)),
            n <= i,
    {
        proof {
            assert(h@.take(i + 1).drop_last() =~= h@.take(i as int));
        }
        match h[i].action {
            ActionType::PostBlind(_) => {
                n = n + 1;
            },
            _ => {},
        }
    }
    proof {
        assert(h@.take(len as int) =~= h@);
    }
    n
}

fn discount(c: u32) -> (r: u32)
    ensures
        r == discounted(c),
{
    ((c as u64) * 9 / 10) as u32
}

impl ActionReconstructor {
    pub fn new(config: ReconConfig) -> (r: ActionReconstructor)
        ensures
            r.config == config,
    {
        ActionReconstructor { config }
    }

    /// Derives the actions that explain the observed changes.
    pub fn reconstruct(&self, prev_state: &TableState, input: &ReconInput) -> (r: Vec<ReconstructedAction>)
        ensures
            r@ == reconstructed(prev_state@, self.config, input.stack_changes@, input.pot_change,
                input.folded_seats@, input.allin_seats@),
            forall|i: int, j: int| 0 <= i < j < r@.len() ==> !same_key(#[trigger] r@[i], #[trigger] r@[j]),
    {
        let mut actions: Vec<ReconstructedAction> = Vec::new();
        let n = input.stack_changes.len();
        for i in 0..n
            invariant
                n == input.stack_changes@.len(),
                actions@ == stack_actions(prev_state@, self.config.min_stack_change, input.stack_changes@.take(i as int)),
        {
            proof {
                assert(input.stack_changes@.take(i + 1).drop_last() =~= input.stack_changes@.take(i as int));
            }
            let delta = input.stack_changes[i];
            if (delta.delta as i128) < -(self.config.min_stack_change as i128) {
                match self.derive_from_stack_change(prev_state, delta) {
                    Some(a) => {
                        actions.push(a);
                    },
                    None => {},
                }
            }
        }
        proof {
            assert(input.stack_changes@.take(n as int) =~= input.stack_changes@);
        }
        let ghost stacked = actions@;

        match input.pot_change {
            Some(p) => {
                cross_validate_with_pot(&mut actions, p);
            },
            None => {},
        }
        let ghost crossed = actions@;

        let nf = input.folded_seats.len();
        for i in 0..nf
            invariant
                nf == input.folded_seats@.len(),
                actions@ == crossed + input.folded_seats@.take(i as int).map_values(|id: SeatId| fold_action(prev_state@, id)),
        {
            let id = input.folded_seats[i];
            actions.push(ReconstructedAction {
                seat_id: id,
                action_type: ActionType::Fold,
                amount: None,
                street: prev_state.street,
                timestamp_ms: 0,
                confidence: 950,
                source: ActionSource::SeatStatusChange,
            });
            proof {
                assert(input.folded_seats@.take(i + 1).map_values(|id: SeatId| fold_action(prev_state@, id))
                    =~= input.folded_seats@.take(i as int).map_values(|id: SeatId| fold_action(prev_state@, id)).push(fold_action(prev_state@, id)));
            }
        }
        proof {
            assert(input.folded_seats@.take(nf as int) =~= input.folded_seats@);
        }
        let ghost folded = actions@;

        let na = input.allin_seats.len();
        for i in 0..na
            invariant
                na == input.allin_seats@.len(),
                actions@ == folded + input.allin_seats@.take(i as int).map_values(|id: SeatId| allin_action(prev_state@, id)),
        {
            let id = input.allin_seats[i];
            let stack = match find_seat(&prev_state.seats, id) {
                Some(k) => prev_state.seats[k].stack,
                None => 0,
            };
            actions.push(ReconstructedAction {
                seat_id: id,
                action_type: ActionType::AllIn(stack),
                amount: Some(stack),
                street: prev_state.street,
                timestamp_ms: 0,
                confidence: 900,
                source: ActionSource::SeatStatusChange,
            });
            proof {
                assert(input.allin_seats@.take(i + 1).map_values(|id: SeatId| allin_action(prev_state@, id))
                    =~= input.allin_seats@.take(i as int).map_values(|id: SeatId| allin_action(prev_state@, id)).push(allin_action(prev_state@, id)));
            }
        }
        proof {
            assert(input.allin_seats@.take(na as int) =~= input.allin_seats@);
            assert(stacked == stack_actions(prev_state@, self.config.min_stack_change, input.stack_changes@));
            assert(crossed == cross_validated(stacked, input.pot_change));
            lemma_dedup_distinct_keys(actions@);
        }
        deduplicate(&actions)
    }

    fn derive_from_stack_change(&self, prev_state: &TableState, change: StackDelta) -> (r: Option<ReconstructedAction>)
        ensures
            r == derived_action(prev_state@, change),
    {
        let amount: i64 = if change.delta == i64::MIN {
            i64::MAX
        } else if change.delta < 0 {
            -change.delta
        } else {
            change.delta
        };
        let pos = change.seat_id.0 as usize;
        if pos >= prev_state.seats.len() {
            return None;
        }
        let seat = prev_state.seats[pos];
        let to_call = prev_state.blinds.current_max_bet as i128;
        let new_bet = seat.current_bet as i128 + amount as i128;
        let bb = prev_state.blinds.big_blind;
        let conf = discount(change.confidence);

        let (action_type, a) = if (seat.stack as i128) - (amount as i128) <= 0 {
            (ActionType::AllIn(seat.stack), seat.stack)
        } else if prev_state.street == Street::Preflop && prev_state.action_history.len() == 0
            && amount == prev_state.blinds.small_blind {
            (ActionType::PostBlind(BlindKind::SmallBlind), amount)
        } else if prev_state.street == Street::Preflop && count_posted(&prev_state.action_history) < 2
            && amount == bb && to_call < 1 {
            (ActionType::PostBlind(BlindKind::BigBlind), amount)
        } else if to_call > 1 && new_bet == to_call {
            (ActionType::Call, amount)
        } else if to_call < 1 && new_bet > 1 {
            (ActionType::Bet(amount), amount)
        } else if to_call > 1 && new_bet > to_call + 1 {
            (ActionType::Raise(new_bet as i64), amount)
        } else {
            return None;
        };
        Some(ReconstructedAction {
            seat_id: change.seat_id,
            action_type,
            amount: Some(a),
            street: prev_state.street,
            timestamp_ms: 0,
            confidence: conf,
            source: ActionSource::StackDiff,
        })
    }
}

proof fn lemma_amount_sum_bound(s: Seq<ReconstructedAction>)
    ensures
        -(s.len() as int) * 0x8000_0000_0000_0000 <= amount_sum(s) <= (s.len() as int) * 0x7fff_ffff_ffff_ffff,
    decreases s.len(),
{
    if s.len() > 0 {
        lemma_amount_sum_bound(s.drop_last());
        let n = s.len() as int;
        assert(-(n - 1) * 0x8000_0000_0000_0000 - 0x8000_0000_0000_0000 == -n * 0x8000_0000_0000_0000) by (nonlinear_arith);
        assert((n - 1) * 0x7fff_ffff_ffff_ffff + 0x7fff_ffff_ffff_ffff == n * 0x7fff_ffff_ffff_ffff) by (nonlinear_arith);
    }
}

fn total_amount(actions: &Vec<ReconstructedAction>) -> (t: i128)
    ensures
        t == amount_sum(actions@),
{
    let mut t: i128 = 0;
    let n = actions.len();
    for i in 0..n
        invariant
            n == actions@.len(),
            t == amount_sum(actions@.take(i as int)),
    {
        proof {
            assert(actions@.take(i + 1).drop_last() =~= actions@.take(i as int));
            lemma_amount_sum_bound(actions@.take(i + 1));
            assert((i + 1) * 0x8000_0000_0000_0000 <= 0xffff_ffff_ffff_ffff * 0x8000_0000_0000_0000) by (nonlinear_arith)
                requires
                    i + 1 <= 0xffff_ffff_ffff_ffff,
            ;
            assert((i + 1) * 0x7fff_ffff_ffff_ffff <= 0xffff_ffff_ffff_ffff * 0x7fff_ffff_ffff_ffff) by (nonlinear_arith)
                requires
                    i + 1 <= 0xffff_ffff_ffff_ffff,
            ;
        }
        match actions[i].amount {
            Some(x) => {
                t = t + x as i128;
            },
            None => {},
        }
    }
    proof {
        assert(actions@.take(n as int) =~= actions@);
    }
    t
}

fn cross_validate_with_pot(actions: &mut Vec<ReconstructedAction>, pot_change: PotDelta)
    ensures
        final(actions)@ == cross_validated(old(actions)@, Some(pot_change)),
{
    let len = actions.len();
    let total = total_amount(actions);
    proof {
        lemma_amount_sum_bound(actions@);
        assert(len * 0x8000_0000_0000_0000 <= 0xffff_ffff_ffff_ffff * 0x8000_0000_0000_0000) by (nonlinear_arith)
            requires
                len <= 0xffff_ffff_ffff_ffff,
        ;
        assert(len * 0x7fff_ffff_ffff_ffff <= 0xffff_ffff_ffff_ffff * 0x7fff_ffff_ffff_ffff) by (nonlinear_arith)
            requires
                len <= 0xffff_ffff_ffff_ffff,
        ;
    }
    let d = total - pot_change.delta as i128;
    if -200 < d && d < 200 {
        let n = actions.len();
        for i in 0..n
            invariant
                n == actions@.len(),
                old(actions)@.len() == n,
                forall|j: int| 0 <= j < i ==> actions@[j] == (ReconstructedAction {
                    confidence: boosted(old(actions)@[j].confidence),
                    source: ActionSource::Combined,
                    ..old(actions)@[j]
                }),
                forall|j: int| i <= j < n ==> actions@[j] == old(actions)@[j],
        {
            let mut a = actions[i];
            a.confidence = if a.confidence <= 900 { a.confidence + 100 } else { 1000 };
            a.source = ActionSource::Combined;
            actions.set(i, a);
        }
        proof {
            assert(actions@ =~= cross_validated(old(actions)@, Some(pot_change)));
        }
    }
}

/// `out` holds one action for each key that occurs in `prefix`, each taken from `prefix`.
#[verifier::opaque]
spec fn covers(prefix: Seq<ReconstructedAction>, out: Seq<ReconstructedAction>) -> bool {
    &&& forall|j: int| 0 <= j < prefix.len() ==> exists|k: int| 0 <= k < out.len() && same_key(#[trigger] prefix[j], out[k])
    &&& forall|k: int| 0 <= k < out.len() ==> exists|j: int| 0 <= j < prefix.len() && #[trigger] out[k] == prefix[j]
}

/// A key occurs earlier in `prefix` exactly when it occurs in `out`.
proof fn lemma_seen_iff_found(prefix: Seq<ReconstructedAction>, out: Seq<ReconstructedAction>, a: ReconstructedAction)
    requires
        covers(prefix, out),
    ensures
        (exists|q: int| 0 <= q < out.len() && same_key(#[trigger] out[q], a))
            == (exists|j: int| 0 <= j < prefix.len() && same_key(#[trigger] prefix[j], a)),
{
    reveal(covers);
    if exists|q: int| 0 <= q < out.len() && same_key(#[trigger] out[q], a) {
        let q = choose|q: int| 0 <= q < out.len() && same_key(#[trigger] out[q], a);
        let j = choose|j: int| 0 <= j < prefix.len() && out[q] == prefix[j];
        assert(same_key(prefix[j], a));
    }
    if exists|j: int| 0 <= j < prefix.len() && same_key(#[trigger] prefix[j], a) {
        let j = choose|j: int| 0 <= j < prefix.len() && same_key(#[trigger] prefix[j], a);
        let k = choose|k: int| 0 <= k < out.len() && same_key(prefix[j], out[k]);
        assert(same_key(out[k], a));
    }
}

#[verifier::spinoff_prover]
proof fn lemma_covers_step(prefix: Seq<ReconstructedAction>, out: Seq<ReconstructedAction>, a: ReconstructedAction, seen: bool)
    requires
        covers(prefix, out),
        seen == exists|q: int| 0 <= q < out.len() && same_key(#[trigger] out[q], a),
    ensures
        covers(prefix.push(a), if seen { out } else { out.push(a) }),
{
    reveal(covers);
    let p = prefix.push(a);
    let o2 = if seen { out } else { out.push(a) };
    assert forall|j: int| 0 <= j < p.len() implies exists|k: int| 0 <= k < o2.len() && same_key(#[trigger] p[j], o2[k]) by {
        if j == prefix.len() {
            if seen {
                let q = choose|q: int| 0 <= q < out.len() && same_key(#[trigger] out[q], a);
                assert(same_key(p[j], o2[q]));
            } else {
                assert(same_key(p[j], o2[out.len() as int]));
            }
        } else {
            assert(p[j] == prefix[j]);
            let k = choose|k: int| 0 <= k < out.len() && same_key(prefix[j], out[k]);
            assert(o2[k] == out[k]);
        }
    }
    assert forall|k: int| 0 <= k < o2.len() implies exists|j: int| 0 <= j < p.len() && #[trigger] o2[k] == p[j] by {
        if k == out.len() {
            assert(o2[k] == p[prefix.len() as int]);
        } else {
            let j = choose|j: int| 0 <= j < prefix.len() && out[k] == prefix[j];
            assert(p[j] == prefix[j]);
        }
    }
    assert(covers(p, o2));
}

proof fn lemma_dedup_step(prefix: Seq<ReconstructedAction>, out: Seq<ReconstructedAction>, a: ReconstructedAction, seen: bool)
    requires
        out == deduplicated(prefix),
        covers(prefix, out),
        seen == exists|q: int| 0 <= q < out.len() && same_key(#[trigger] out[q], a),
    ensures
        deduplicated(prefix.push(a)) == (if seen { out } else { out.push(a) }),
        covers(prefix.push(a), if seen { out } else { out.push(a) }),
{
    let p = prefix.push(a);
    assert(p.drop_last() =~= prefix);
    lemma_seen_iff_found(prefix, out, a);
    assert forall|j: int| 0 <= j < p.len() - 1 implies #[trigger] p[j] == prefix[j] by {}
    lemma_covers_step(prefix, out, a, seen);
}

/// Keeps the first action of each (seat, street, kind) key.
fn deduplicate(actions: &Vec<ReconstructedAction>) -> (r: Vec<ReconstructedAction>)
    ensures
        r@ == deduplicated(actions@),
{
    let mut out: Vec<ReconstructedAction> = Vec::new();
    let n = actions.len();
    proof {
        assert(actions@.take(0) =~= Seq::<ReconstructedAction>::empty());
        reveal(covers);
    }
    for i in 0..n
        invariant
            n == actions@.len(),
            out@ == deduplicated(actions@.take(i as int)),
            covers(actions@.take(i as int), out@),
    {
        let a = actions[i];
        let ka = kind_of(a.action_type);
        let mut seen = false;
        let m = out.len();
        for k in 0..m
            invariant
                m == out@.len(),
                ka == action_kind(a.action_type),
                seen == exists|q: int| 0 <= q < k && same_key(#[trigger] out@[q], a),
        {
            let o = out[k];
            if o.seat_id == a.seat_id && o.street == a.street && kind_of(o.action_type) == ka {
                seen = true;
            }
        }
        proof {
            assert(actions@.take(i + 1) =~= actions@.take(i as int).push(a));
            lemma_dedup_step(actions@.take(i as int), out@, a, seen);
        }
        if !seen {
            out.push(a);
        }
    }
    proof {
        assert(actions@.take(n as int) =~= actions@);
    }
    out
}

} // verus!
