//! Hand history: the data model of one hand, session statistics over many
//! hands, and the recorder that fills a hand record from state-machine events.
//!
//! Writing records to disk and reading them back is done outside this library.

use std::collections::HashMap;

use vstd::prelude::*;

use crate::clock::chrono_now_ms;
use crate::events::{ReconstructedAction, StateTransition, TableEvent};
use crate::machine::{actions_numbered, machine_after, record_for, transitions_for, MachineView};
use crate::money::{chips_add, sum_chips};
use crate::state::{ActionRecord, BlindsInfo, TableState};
use crate::types::{ActionType, Card, SeatId, Street};

verus! {

broadcast use vstd::std_specs::hash::group_hash_axioms;

// ─── Data model ─────────────────────────────────────────────────────────

pub struct HandRecord {
    pub hand_id: u64,
    pub table_id: String,
    pub started_at_ms: i64,
    pub ended_at_ms: Option<i64>,
    pub blinds: BlindsInfo,
    pub dealer_seat: Option<SeatId>,
    pub hero_seat: Option<SeatId>,
    pub hole_cards: Option<[Card; 2]>,
    pub community_cards: Vec<Card>,
    /// In hundredths of a chip.
    pub pot_total: i64,
    pub actions: Vec<ActionRecord>,
    pub recommendations: Vec<RecommendationEntry>,
    pub result: Option<HandResult>,
}

pub struct RecommendationEntry {
    pub action_seq: u32,
    pub recommendation: RecSnapshot,
}

/// A recommendation as it was shown: amount in hundredths of a chip,
/// confidence and probabilities in thousandths, EV in thousandths of its unit.
pub struct RecSnapshot {
    pub action: String,
    pub amount: i64,
    pub confidence: u32,
    pub distribution: Vec<(String, u32)>,
    pub ev: i64,
}

pub struct HandResult {
    pub winners: Vec<WinnerInfo>,
    pub pot_awarded: i64,
    pub rake: i64,
}

pub struct WinnerInfo {
    pub seat_id: SeatId,
    pub amount: i64,
    pub hand_description: Option<String>,
}

/// A record just opened for hand `hand_id` at `started_at_ms`.
pub open spec fn fresh_record(r: HandRecord, hand_id: u64, table_id: Seq<char>, started_at_ms: i64) -> bool {
    &&& r.hand_id == hand_id
    &&& r.table_id@ == table_id
    &&& r.started_at_ms == started_at_ms
    &&& r.ended_at_ms.is_none()
    &&& r.blinds == crate::state::zero_blinds()
    &&& r.dealer_seat.is_none()
    &&& r.hero_seat.is_none()
    &&& r.hole_cards.is_none()
    &&& r.community_cards@.len() == 0
    &&& r.pot_total == 0
    &&& r.actions@.len() == 0
    &&& r.recommendations@.len() == 0
    &&& r.result.is_none()
}

impl HandRecord {
    pub fn new(hand_id: u64, table_id: String, started_at_ms: i64) -> (r: HandRecord)
        ensures
            fresh_record(r, hand_id, table_id@, started_at_ms),
    {
        HandRecord {
            hand_id,
            table_id,
            started_at_ms,
            ended_at_ms: None,
            blinds: BlindsInfo::zero(),
            dealer_seat: None,
            hero_seat: None,
            hole_cards: None,
            community_cards: Vec::new(),
            pot_total: 0,
            actions: Vec::new(),
            recommendations: Vec::new(),
            result: None,
        }
    }

    /// The hand has an end time.
    pub fn is_complete(&self) -> (r: bool)
        ensures
            r == self.ended_at_ms.is_some(),
    {
        self.ended_at_ms.is_some()
    }
}

// ─── Session statistics ────────────────────────────────────────────────

/// Counters over a list of hands (amounts in hundredths of a chip). The
/// distribution counts hands by the number of community cards shown.
pub struct SessionStats {
    pub total_hands: u64,
    pub hands_with_hero: u64,
    pub hero_wins: u64,
    pub hero_net: i64,
    pub vpip_count: u64,
    pub pfr_count: u64,
    pub total_pot: i64,
    pub biggest_pot: i64,
    pub street_distribution: HashMap<usize, u64>,
}

pub struct StatsView {
    pub total_hands: u64,
    pub hands_with_hero: u64,
    pub hero_wins: u64,
    pub hero_net: i64,
    pub vpip_count: u64,
    pub pfr_count: u64,
    pub total_pot: i64,
    pub biggest_pot: i64,
    pub street_distribution: Map<usize, u64>,
}

impl View for SessionStats {
    type V = StatsView;

    open spec fn view(&self) -> StatsView {
        StatsView {
            total_hands: self.total_hands,
            hands_with_hero: self.hands_with_hero,
            hero_wins: self.hero_wins,
            hero_net: self.hero_net,
            vpip_count: self.vpip_count,
            pfr_count: self.pfr_count,
            total_pot: self.total_pot,
            biggest_pot: self.biggest_pot,
            street_distribution: self.street_distribution@,
        }
    }
}

pub open spec fn empty_stats() -> StatsView {
    StatsView {
        total_hands: 0,
        hands_with_hero: 0,
        hero_wins: 0,
        hero_net: 0,
        vpip_count: 0,
        pfr_count: 0,
        total_pot: 0,
        biggest_pot: 0,
        street_distribution: Map::empty(),
    }
}

/// The hero put money in voluntarily: some hero action that is not a blind,
/// a check or a fold.
pub open spec fn hero_voluntary(actions: Seq<ActionRecord>, hero: SeatId) -> bool {
    exists|j: int|
        0 <= j < actions.len() && (#[trigger] actions[j]).seat_id == hero && !(actions[j].action is PostBlind)
            && !(actions[j].action is Check) && !(actions[j].action is Fold)
}

/// The hero bet or raised before the flop.
pub open spec fn hero_raised_preflop(actions: Seq<ActionRecord>, hero: SeatId) -> bool {
    exists|j: int|
        0 <= j < actions.len() && (#[trigger] actions[j]).seat_id == hero && actions[j].street == Street::Preflop
            && (actions[j].action is Bet || actions[j].action is Raise)
}

/// Win counter after the hero's entries among `ws` (stuck at `u64::MAX`).
pub open spec fn wins_after(acc: u64, ws: Seq<WinnerInfo>, hero: SeatId) -> u64
    decreases ws.len(),
{
    if ws.len() == 0 {
        acc
    } else {
        let a = wins_after(acc, ws.drop_last(), hero);
        if ws.last().seat_id == hero {
            if a < u64::MAX { (a + 1) as u64 } else { a }
        } else {
            a
        }
    }
}

/// Net result after adding the hero's winnings among `ws`.
pub open spec fn net_after(acc: i64, ws: Seq<WinnerInfo>, hero: SeatId) -> i64
    decreases ws.len(),
{
    if ws.len() == 0 {
        acc
    } else {
        let a = net_after(acc, ws.drop_last(), hero);
        if ws.last().seat_id == hero { sum_chips(a, ws.last().amount) } else { a }
    }
}

/// One more hand counted in a distribution.
pub open spec fn bump(m: Map<usize, u64>, k: usize) -> Map<usize, u64> {
    m.insert(k, (if m.contains_key(k) { m[k] + 1 } else { 1 }) as u64)
}

pub open spec fn stats_step(s: StatsView, r: HandRecord) -> StatsView {
    let s1 = StatsView {
        total_pot: sum_chips(s.total_pot, r.pot_total),
        biggest_pot: if r.pot_total > s.biggest_pot { r.pot_total } else { s.biggest_pot },
        street_distribution: bump(s.street_distribution, r.community_cards@.len() as usize),
        ..s
    };
    match r.hero_seat {
        None => s1,
        Some(h) => StatsView {
            hands_with_hero: (s1.hands_with_hero + 1) as u64,
            vpip_count: (s1.vpip_count + if hero_voluntary(r.actions@, h) { 1int } else { 0int }) as u64,
            pfr_count: (s1.pfr_count + if hero_raised_preflop(r.actions@, h) { 1int } else { 0int }) as u64,
            hero_wins: match r.result {
                Some(res) => wins_after(s1.hero_wins, res.winners@, h),
                None => s1.hero_wins,
            },
            hero_net: match r.result {
                Some(res) => net_after(s1.hero_net, res.winners@, h),
                None => s1.hero_net,
            },
            ..s1
        },
    }
}

/// The counters after the hands, in order.
pub open spec fn stats_fold(records: Seq<HandRecord>) -> StatsView
    decreases records.len(),
{
    if records.len() == 0 {
        empty_stats()
    } else {
        stats_step(stats_fold(records.drop_last()), records.last())
    }
}

/// The statistics of a list of hands.
pub open spec fn stats_of(records: Seq<HandRecord>) -> StatsView {
    StatsView { total_hands: records.len() as u64, ..stats_fold(records) }
}

/// Statistics never count more hero hands than hands, more voluntary hands
/// than hero hands, or more preflop raises than voluntary hands.
pub proof fn lemma_stats_counts(records: Seq<HandRecord>)
    requires
        records.len() <= u64::MAX,
    ensures
        stats_fold(records).pfr_count <= stats_fold(records).vpip_count,
        stats_fold(records).vpip_count <= stats_fold(records).hands_with_hero,
        stats_fold(records).hands_with_hero <= records.len(),
        forall|k: usize| #[trigger] stats_fold(records).street_distribution.contains_key(k)
            ==> 1 <= stats_fold(records).street_distribution[k] <= records.len(),
    decreases records.len(),
{
    if records.len() > 0 {
        let rest = records.drop_last();
        lemma_stats_counts(rest);
        let r = records.last();
        match r.hero_seat {
            Some(h) => {
                if hero_raised_preflop(r.actions@, h) {
                    let j = choose|j: int|
                        0 <= j < r.actions@.len() && (#[trigger] r.actions@[j]).seat_id == h
                            && r.actions@[j].street == Street::Preflop
                            && (r.actions@[j].action is Bet || r.actions@[j].action is Raise);
                    assert(hero_voluntary(r.actions@, h));
                }
            },
            None => {},
        }
    }
}

/// A hand with the hero seated counts as voluntary exactly when the hero
/// called, bet, raised or went all in: one more such hand adds one to the
/// voluntary count, and a hand where the hero only posted blinds, checked or
/// folded adds nothing.
pub proof fn lemma_vpip_counts_chips_put_in(records: Seq<HandRecord>, r: HandRecord, h: SeatId)
    requires
        records.len() < u64::MAX,
        r.hero_seat == Some(h),
    ensures
        stats_fold(records.push(r)).vpip_count == stats_fold(records).vpip_count + if exists|j: int|
            0 <= j < r.actions@.len() && (#[trigger] r.actions@[j]).seat_id == h && (r.actions@[j].action
                is Call || r.actions@[j].action is Bet || r.actions@[j].action is Raise
                || r.actions@[j].action is AllIn) {
            1int
        } else {
            0int
        },
{
    lemma_stats_counts(records);
    assert(records.push(r).drop_last() =~= records);
    let a = r.actions@;
    let put_in = exists|j: int|
        0 <= j < a.len() && (#[trigger] a[j]).seat_id == h && (a[j].action is Call || a[j].action is Bet
            || a[j].action is Raise || a[j].action is AllIn);
    if put_in {
        let j = choose|j: int|
            0 <= j < a.len() && (#[trigger] a[j]).seat_id == h && (a[j].action is Call || a[j].action is Bet
                || a[j].action is Raise || a[j].action is AllIn);
        assert(hero_voluntary(a, h));
    }
    if hero_voluntary(a, h) {
        let j = choose|j: int|
            0 <= j < a.len() && (#[trigger] a[j]).seat_id == h && !(a[j].action is PostBlind)
                && !(a[j].action is Check) && !(a[j].action is Fold);
        assert(put_in);
    }
}

impl Default for SessionStats {
    fn default() -> (s: SessionStats)
        ensures
            s@ == empty_stats(),
    {
        SessionStats {
            total_hands: 0,
            hands_with_hero: 0,
            hero_wins: 0,
            hero_net: 0,
            vpip_count: 0,
            pfr_count: 0,
            total_pot: 0,
            biggest_pot: 0,
            street_distribution: HashMap::new(),
        }
    }
}

fn voluntary(actions: &Vec<ActionRecord>, hero: SeatId) -> (r: bool)
    ensures
        r == hero_voluntary(actions@, hero),
{
    let n = actions.len();
    for j in 0..n
        invariant
            n == actions@.len(),
            forall|k: int|
                0 <= k < j ==> !((#[trigger] actions@[k]).seat_id == hero && !(actions@[k].action is PostBlind)
                    && !(actions@[k].action is Check) && !(actions@[k].action is Fold)),
    {
        let a = actions[j];
        let passive = match a.action {
            ActionType::PostBlind(_) | ActionType::Check | ActionType::Fold => true,
            _ => false,
        };
        if a.seat_id == hero && !passive {
            return true;
        }
    }
    false
}

fn raised_preflop(actions: &Vec<ActionRecord>, hero: SeatId) -> (r: bool)
    ensures
        r == hero_raised_preflop(actions@, hero),
{
    let n = actions.len();
    for j in 0..n
        invariant
            n == actions@.len(),
            forall|k: int|
                0 <= k < j ==> !((#[trigger] actions@[k]).seat_id == hero && actions@[k].street == Street::Preflop
                    && (actions@[k].action is Bet || actions@[k].action is Raise)),
    {
        let a = actions[j];
        let aggressive = match a.action {
            ActionType::Bet(_) | ActionType::Raise(_) => true,
            _ => false,
        };
        if a.seat_id == hero && a.street == Street::Preflop && aggressive {
            return true;
        }
    }
    false
}

fn add_winnings(wins: u64, net: i64, ws: &Vec<WinnerInfo>, hero: SeatId) -> (r: (u64, i64))
    ensures
        r.0 == wins_after(wins, ws@, hero),
        r.1 == net_after(net, ws@, hero),
{
    let mut w = wins;
    let mut t = net;
    let n = ws.len();
    for i in 0..n
        invariant
            n == ws@.len(),
            w == wins_after(wins, ws@.take(i as int), hero),
            t == net_after(net, ws@.take(i as int), hero),
    {
        proof {
            assert(ws@.take(i + 1).drop_last() =~= ws@.take(i as int));
        }
        if ws[i].seat_id == hero {
            w = w.saturating_add(1);
            t = chips_add(t, ws[i].amount);
        }
    }
    proof {
        assert(ws@.take(n as int) =~= ws@);
    }
    (w, t)
}

impl SessionStats {
    pub fn from_records(records: &[HandRecord]) -> (s: SessionStats)
        ensures
            s@ == stats_of(records@),
    {
        let mut stats = SessionStats::default();
        stats.total_hands = records.len() as u64;
        let n = records.len();
        for i in 0..n
            invariant
                n == records@.len(),
                stats@ == (StatsView { total_hands: n as u64, ..stats_fold(records@.take(i as int)) }),
        {
            let ghost prefix = records@.take(i + 1);
            proof {
                assert(prefix.drop_last() =~= records@.take(i as int));
                lemma_stats_counts(records@.take(i as int));
            }
            let rec = &records[i];
            stats.total_pot = chips_add(stats.total_pot, rec.pot_total);
            if rec.pot_total > stats.biggest_pot {
                stats.biggest_pot = rec.pot_total;
            }
            let key = rec.community_cards.len();
            let cur: u64 = match stats.street_distribution.get(&key) {
                Some(v) => *v,
                None => 0,
            };
            stats.street_distribution.insert(key, cur + 1);
            match rec.hero_seat {
                Some(hero) => {
                    stats.hands_with_hero = stats.hands_with_hero + 1;
                    if voluntary(&rec.actions, hero) {
                        stats.vpip_count = stats.vpip_count + 1;
                    }
                    if raised_preflop(&rec.actions, hero) {
                        stats.pfr_count = stats.pfr_count + 1;
                    }
                    match &rec.result {
                        Some(result) => {
                            let (w, t) = add_winnings(stats.hero_wins, stats.hero_net, &result.winners, hero);
                            stats.hero_wins = w;
                            stats.hero_net = t;
                        },
                        None => {},
                    }
                },
                None => {},
            }
            proof {
                assert(stats@.street_distribution =~= stats_step(stats_fold(records@.take(i as int)), records@[i as int]).street_distribution);
                assert(stats@ == (StatsView { total_hands: n as u64, ..stats_fold(prefix) }));
            }
        }
        proof {
            assert(records@.take(n as int) =~= records@);
        }
        stats
    }
}

// ─── Recorder ───────────────────────────────────────────────────────────

/// Builds the record of the current hand from state-machine events.
pub struct HandHistoryRecorder {
    current: Option<HandRecord>,
    hand_seq: u64,
    table_id: String,
}

pub struct RecorderView {
    pub current: Option<HandRecord>,
    pub hand_seq: u64,
    pub table_id: Seq<char>,
}

impl View for HandHistoryRecorder {
    type V = RecorderView;

    closed spec fn view(&self) -> RecorderView {
        RecorderView { current: self.current, hand_seq: self.hand_seq, table_id: self.table_id@ }
    }
}

/// The hand number of the first `HandStarted` among the transitions.
pub open spec fn first_hand_start(ts: Seq<StateTransition>) -> Option<u64>
    decreases ts.len(),
{
    if ts.len() == 0 {
        None
    } else {
        match ts[0] {
            StateTransition::HandStarted { hand_number } => Some(hand_number),
            _ => first_hand_start(ts.drop_first()),
        }
    }
}

/// `k` is the first position in the history holding sequence number `seq`.
pub open spec fn is_first_seq(h: Seq<ActionRecord>, seq: u32, k: int) -> bool {
    &&& 0 <= k < h.len()
    &&& h[k].seq == seq
    &&& forall|j: int| 0 <= j < k ==> (#[trigger] h[j]).seq != seq
}

/// The first action in the history with sequence number `seq`.
pub open spec fn action_with_seq(h: Seq<ActionRecord>, seq: u32) -> Option<ActionRecord> {
    if exists|k: int| is_first_seq(h, seq, k) {
        Some(h[choose|k: int| is_first_seq(h, seq, k)])
    } else {
        None
    }
}

/// The history entries named by the `ActionRecorded` transitions, in order
/// (a transition whose sequence number is not in the history adds nothing).
pub open spec fn recorded_actions(ts: Seq<StateTransition>, h: Seq<ActionRecord>) -> Seq<ActionRecord>
    decreases ts.len(),
{
    if ts.len() == 0 {
        Seq::empty()
    } else {
        let rest = recorded_actions(ts.drop_last(), h);
        match ts.last() {
            StateTransition::ActionRecorded(sm) => match action_with_seq(h, sm.seq) {
                Some(a) => rest.push(a),
                None => rest,
            },
            _ => rest,
        }
    }
}

/// A record opened for a new hand, with the table's blinds, dealer and hero.
/// The recorder numbers hands as the state machine does: the transitions of
/// a new hand open a record numbered with the machine's new hand number, and
/// the transitions of any other event open none.
pub proof fn lemma_recorder_numbers_hands_like_the_machine(m: MachineView, e: TableEvent)
    requires
        e is NewHandDetected ==> m.hand_seq < u64::MAX,
    ensures
        e is NewHandDetected ==> first_hand_start(transitions_for(m, e)) == Some(
            machine_after(m, e).state.hand_number,
        ),
        !(e is NewHandDetected) ==> first_hand_start(transitions_for(m, e)) is None,
{
    let ts = transitions_for(m, e);
    if ts.len() > 0 {
        assert(ts.drop_first().len() == 0);
        assert(first_hand_start(ts.drop_first()) is None);
    }
}

/// The recorder takes in each accepted action once, exactly as the state
/// machine recorded it.
pub proof fn lemma_recorder_takes_the_recorded_action(m: MachineView, a: ReconstructedAction)
    requires
        actions_numbered(m),
        m.action_seq < u32::MAX,
    ensures
        ({
            let e = TableEvent::ActionReconstructed { action: a };
            recorded_actions(transitions_for(m, e), machine_after(m, e).state.action_history) == seq![
                record_for(a, (m.action_seq + 1) as u32),
            ]
        }),
{
    let e = TableEvent::ActionReconstructed { action: a };
    let ts = transitions_for(m, e);
    let h = machine_after(m, e).state.action_history;
    let s = (m.action_seq + 1) as u32;
    let n = m.state.action_history.len() as int;
    assert(h == m.state.action_history.push(record_for(a, s)));
    assert forall|j: int| 0 <= j < n implies (#[trigger] h[j]).seq != s by {
        assert(h[j] == m.state.action_history[j]);
    }
    assert(is_first_seq(h, s, n));
    let c = choose|c: int| is_first_seq(h, s, c);
    assert(is_first_seq(h, s, c));
    if c < n {
        assert(h[c].seq != s);
    }
    assert(c == n);
    assert(action_with_seq(h, s) == Some(record_for(a, s)));
    assert(ts.drop_last().len() == 0);
    assert(recorded_actions(ts.drop_last(), h) == Seq::<ActionRecord>::empty());
    assert(recorded_actions(ts, h) =~= seq![record_for(a, s)]);
}

pub open spec fn opened_record(r: HandRecord, hand_id: u64, table_id: Seq<char>, state: crate::state::TableStateView) -> bool {
    &&& r.hand_id == hand_id
    &&& r.table_id@ == table_id
    &&& r.ended_at_ms.is_none()
    &&& r.blinds == state.blinds
    &&& r.dealer_seat == state.dealer_seat
    &&& r.hero_seat == state.hero_seat
    &&& r.hole_cards.is_none()
    &&& r.community_cards@.len() == 0
    &&& r.pot_total == 0
    &&& r.actions@.len() == 0
    &&& r.recommendations@.len() == 0
    &&& r.result.is_none()
}

/// `new` is `old` after the event and transitions, given the resulting state.
pub open spec fn record_updated(old: HandRecord, new: HandRecord, e: TableEvent, ts: Seq<StateTransition>,
    state: crate::state::TableStateView) -> bool {
    &&& new.hand_id == old.hand_id
    &&& new.table_id == old.table_id
    &&& new.started_at_ms == old.started_at_ms
    &&& new.ended_at_ms == old.ended_at_ms
    &&& new.blinds == old.blinds
    &&& new.recommendations == old.recommendations
    &&& new.result == old.result
    &&& new.hole_cards == match e {
        TableEvent::HoleCardsDetected { cards } => Some(cards),
        _ => old.hole_cards,
    }
    &&& new.hero_seat == match e {
        TableEvent::HoleCardsDetected { .. } => state.hero_seat,
        _ => old.hero_seat,
    }
    &&& new.community_cards@ == match e {
        TableEvent::CommunityCardsChanged { cards, .. } => cards@,
        _ => old.community_cards@,
    }
    &&& new.pot_total == match e {
        TableEvent::PotChanged { new_total, .. } => new_total,
        _ => old.pot_total,
    }
    &&& new.dealer_seat == match e {
        TableEvent::DealerButtonMoved { new_seat } => Some(new_seat),
        _ => old.dealer_seat,
    }
    &&& new.actions@ == old.actions@ + recorded_actions(ts, state.action_history)
}

fn find_hand_start(ts: &[StateTransition]) -> (r: Option<u64>)
    ensures
        r == first_hand_start(ts@),
{
    let n = ts.len();
    proof {
        assert(ts@.subrange(0, n as int) =~= ts@);
    }
    for i in 0..n
        invariant
            n == ts@.len(),
            first_hand_start(ts@) == first_hand_start(ts@.subrange(i as int, n as int)),
    {
        proof {
            assert(ts@.subrange(i as int, n as int).drop_first() =~= ts@.subrange(i + 1, n as int));
            assert(ts@.subrange(i as int, n as int)[0] == ts@[i as int]);
        }
        match &ts[i] {
            StateTransition::HandStarted { hand_number } => {
                return Some(*hand_number);
            },
            _ => {},
        }
    }
    proof {
        assert(ts@.subrange(n as int, n as int).len() == 0);
    }
    None
}

fn find_action_with_seq(h: &Vec<ActionRecord>, seq: u32) -> (r: Option<ActionRecord>)
    ensures
        r == action_with_seq(h@, seq),
{
    let n = h.len();
    for i in 0..n
        invariant
            n == h@.len(),
            forall|j: int| 0 <= j < i ==> (#[trigger] h@[j]).seq != seq,
    {
        if h[i].seq == seq {
            proof {
                assert(is_first_seq(h@, seq, i as int));
                let c = choose|c: int| is_first_seq(h@, seq, c);
                if c < i {
                    assert(h@[c].seq != seq);
                } else if i < c {
                    assert(h@[i as int].seq != seq);
                }
            }
            return Some(h[i]);
        }
    }
    proof {
        if exists|k: int| is_first_seq(h@, seq, k) {
            let k = choose|k: int| is_first_seq(h@, seq, k);
            assert(h@[k].seq == seq);
        }
    }
    None
}

impl HandHistoryRecorder {
    pub fn new(table_id: String) -> (r: HandHistoryRecorder)
        ensures
            r@.current.is_none(),
            r@.hand_seq == 0,
            r@.table_id == table_id@,
    {
        HandHistoryRecorder { current: None, hand_seq: 0, table_id }
    }

    /// Follows one processed event. A `HandStarted` transition closes the
    /// current record and opens one for the new hand; otherwise the current
    /// record (if any) takes in the event and the recorded actions.
    pub fn on_event(&mut self, event: &TableEvent, transitions: &[StateTransition], state: &TableState)
        ensures
            final(self)@.table_id == old(self)@.table_id,
            match first_hand_start(transitions@) {
                Some(n) => {
                    &&& final(self)@.hand_seq == n
                    &&& final(self)@.current matches Some(r) && opened_record(r, n, old(self)@.table_id, state@)
                },
                None => {
                    &&& final(self)@.hand_seq == old(self)@.hand_seq
                    &&& match old(self)@.current {
                        None => final(self)@.current.is_none(),
                        Some(o) => final(self)@.current matches Some(r)
                            && record_updated(o, r, *event, transitions@, state@),
                    }
                },
            },
    {
        match find_hand_start(transitions) {
            Some(hand_number) => {
                let _ = self.finalize_current();
                self.hand_seq = hand_number;
                let mut rec = HandRecord::new(self.hand_seq, self.table_id.clone(), chrono_now_ms());
                rec.blinds = state.blinds;
                rec.dealer_seat = state.dealer_seat;
                rec.hero_seat = state.hero_seat;
                self.current = Some(rec);
                return;
            },
            None => {},
        }
        let mut rec = match self.current.take() {
            Some(r) => r,
            None => {
                return;
            },
        };
        let ghost o = rec;
        match event {
            TableEvent::HoleCardsDetected { cards } => {
                rec.hole_cards = Some(*cards);
                rec.hero_seat = state.hero_seat;
            },
            TableEvent::CommunityCardsChanged { cards, .. } => {
                rec.community_cards = cards.clone();
            },
            TableEvent::PotChanged { new_total, .. } => {
                rec.pot_total = *new_total;
            },
            TableEvent::DealerButtonMoved { new_seat } => {
                rec.dealer_seat = Some(*new_seat);
            },
            _ => {},
        }
        let ghost before = rec.actions@;
        let n = transitions.len();
        for i in 0..n
            invariant
                n == transitions@.len(),
                rec.actions@ == before + recorded_actions(transitions@.take(i as int), state.action_history@),
                rec.hand_id == o.hand_id,
                rec.table_id == o.table_id,
                rec.started_at_ms == o.started_at_ms,
                rec.ended_at_ms == o.ended_at_ms,
                rec.blinds == o.blinds,
                rec.recommendations == o.recommendations,
                rec.result == o.result,
                rec.hole_cards == match *event {
                    TableEvent::HoleCardsDetected { cards } => Some(cards),
                    _ => o.hole_cards,
                },
                rec.hero_seat == match *event {
                    TableEvent::HoleCardsDetected { .. } => state.hero_seat,
                    _ => o.hero_seat,
                },
                rec.community_cards@ == match *event {
                    TableEvent::CommunityCardsChanged { cards, .. } => cards@,
                    _ => o.community_cards@,
                },
                rec.pot_total == match *event {
                    TableEvent::PotChanged { new_total, .. } => new_total,
                    _ => o.pot_total,
                },
                rec.dealer_seat == match *event {
                    TableEvent::DealerButtonMoved { new_seat } => Some(new_seat),
                    _ => o.dealer_seat,
                },
        {
            proof {
                assert(transitions@.take(i + 1).drop_last() =~= transitions@.take(i as int));
                assert(transitions@.take(i + 1).last() == transitions@[i as int]);
            }
            match &transitions[i] {
                StateTransition::ActionRecorded(summary) => {
                    match find_action_with_seq(&state.action_history, summary.seq) {
                        Some(a) => {
                            rec.actions.push(a);
                        },
                        None => {},
                    }
                },
                _ => {},
            }
            proof {
                assert(rec.actions@ =~= before + recorded_actions(transitions@.take(i + 1), state.action_history@));
            }
        }
        proof {
            assert(transitions@.take(n as int) =~= transitions@);
        }
        self.current = Some(rec);
    }

    /// Has no effect on the record: a recorded action is taken in by `on_event`.
    pub fn on_transition(&mut self, transition: &StateTransition)
        ensures
            final(self)@ == old(self)@,
    {
    }

    /// Attaches a recommendation to the current hand (if any).
    pub fn add_recommendation(&mut self, action_seq: u32, rec_snapshot: RecSnapshot)
        ensures
            final(self)@.hand_seq == old(self)@.hand_seq,
            final(self)@.table_id == old(self)@.table_id,
            match old(self)@.current {
                None => final(self)@.current.is_none(),
                Some(o) => final(self)@.current matches Some(r) && r == (HandRecord { recommendations: r.recommendations, ..o })
                    && r.recommendations@ == o.recommendations@.push(RecommendationEntry { action_seq, recommendation: rec_snapshot }),
            },
    {
        match self.current.take() {
            Some(mut rec) => {
                rec.recommendations.push(RecommendationEntry { action_seq, recommendation: rec_snapshot });
                self.current = Some(rec);
            },
            None => {},
        }
    }

    /// Closes and hands back the current record; an open record gets the
    /// current time as its end.
    pub fn finalize_current(&mut self) -> (r: Option<HandRecord>)
        ensures
            final(self)@.current.is_none(),
            final(self)@.hand_seq == old(self)@.hand_seq,
            final(self)@.table_id == old(self)@.table_id,
            match old(self)@.current {
                None => r.is_none(),
                Some(o) => r matches Some(rec) && rec == (HandRecord { ended_at_ms: rec.ended_at_ms, ..o })
                    && rec.ended_at_ms.is_some()
                    && (o.ended_at_ms.is_some() ==> rec.ended_at_ms == o.ended_at_ms),
            },
    {
        let mut rec = match self.current.take() {
            Some(r) => r,
            None => {
                return None;
            },
        };
        if rec.ended_at_ms.is_none() {
            rec.ended_at_ms = Some(chrono_now_ms());
        }
        Some(rec)
    }

    pub fn current(&self) -> (r: Option<&HandRecord>)
        ensures
            r.is_some() == self@.current.is_some(),
            r.is_some() ==> *r.unwrap() == self@.current.unwrap(),
    {
        match &self.current {
            Some(rec) => Some(rec),
            None => None,
        }
    }
}

} // verus!
