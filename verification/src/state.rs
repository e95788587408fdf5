//! `TableState` and its parts: the single source of truth about a table.

use vstd::prelude::*;

use crate::types::{ActionType, Card, SeatId, SeatStatus, Street, TablePhase};

verus! {

/// Blind configuration plus the betting context of the current street
/// (amounts in hundredths of a chip).
#[derive(Debug, Clone, Copy, PartialEq, Eq, Structural)]
pub struct BlindsInfo {
    pub small_blind: i64,
    pub big_blind: i64,
    pub ante: i64,
    pub straddle: i64,
    /// Largest bet of the current street (used for `to_call`).
    pub current_max_bet: i64,
    /// Size of the last legal raise on this street (used for `min_raise`).
    pub last_raise_size: i64,
}

pub open spec fn zero_blinds() -> BlindsInfo {
    BlindsInfo {
        small_blind: 0,
        big_blind: 0,
        ante: 0,
        straddle: 0,
        current_max_bet: 0,
        last_raise_size: 0,
    }
}

impl BlindsInfo {
    /// All amounts zero.
    pub fn zero() -> (b: BlindsInfo)
        ensures
            b == zero_blinds(),
    {
        BlindsInfo {
            small_blind: 0,
            big_blind: 0,
            ante: 0,
            straddle: 0,
            current_max_bet: 0,
            last_raise_size: 0,
        }
    }
}

impl Default for BlindsInfo {
    fn default() -> (b: BlindsInfo)
        ensures
            b == zero_blinds(),
    {
        BlindsInfo::zero()
    }
}

#[derive(Debug, Clone)]
pub struct SidePot {
    pub amount: i64,
    pub eligible_seats: Vec<SeatId>,
}

#[derive(Debug, Clone)]
pub struct PotInfo {
    pub main_pot: i64,
    pub side_pots: Vec<SidePot>,
    pub total: i64,
}


impl PotInfo {
    pub fn empty() -> (p: PotInfo)
        ensures
            p@ == empty_pot_view(),
    {
        let p = PotInfo { main_pot: 0, side_pots: Vec::new(), total: 0 };
        proof {
            assert(p@.side_pots =~= Seq::<SidePotView>::empty());
        }
        p
    }

    /// An identical copy.
    pub fn copy(&self) -> (r: PotInfo)
        ensures
            r@ == self@,
    {
        let mut pots: Vec<SidePot> = Vec::new();
        let n = self.side_pots.len();
        for i in 0..n
            invariant
                n == self.side_pots@.len(),
                pots@.len() == i,
                forall|j: int|
                    0 <= j < i ==> {
                        &&& (#[trigger] pots@[j]).amount == self.side_pots@[j].amount
                        &&& pots@[j].eligible_seats@ == self.side_pots@[j].eligible_seats@
                    },
        {
            let sp = &self.side_pots[i];
            let seats = sp.eligible_seats.clone();
            proof {
                assert(seats@ =~= sp.eligible_seats@);
            }
            pots.push(SidePot { amount: sp.amount, eligible_seats: seats });
        }
        let r = PotInfo { main_pot: self.main_pot, side_pots: pots, total: self.total };
        proof {
            assert(r@.side_pots =~= self@.side_pots);
        }
        r
    }
}

impl Default for PotInfo {
    fn default() -> (p: PotInfo)
        ensures
            p@ == empty_pot_view(),
    {
        PotInfo::empty()
    }
}

/// One recorded action (amount in hundredths of a chip, confidence in thousandths).
#[derive(Debug, Clone, Copy, PartialEq, Eq, Structural)]
pub struct ActionRecord {
    pub seat_id: SeatId,
    pub action: ActionType,
    pub amount: i64,
    pub street: Street,
    pub seq: u32,
    pub confidence: u32,
}

#[derive(Debug, Clone, Copy, PartialEq, Eq, Structural)]
pub struct SeatState {
    pub seat_id: SeatId,
    pub status: SeatStatus,
    pub stack: i64,
    pub current_bet: i64,
    pub total_bet_this_hand: i64,
    pub last_action: Option<ActionRecord>,
    pub is_hero: bool,
    pub has_cards: bool,
}

impl SeatState {
    /// An empty seat with the given stack and nothing bet.
    pub fn new(seat_id: SeatId, stack: i64) -> (s: SeatState)
        ensures
            s == (SeatState {
                seat_id,
                status: SeatStatus::Empty,
                stack,
                current_bet: 0,
                total_bet_this_hand: 0,
                last_action: None,
                is_hero: false,
                has_cards: false,
            }),
    {
        SeatState {
            seat_id,
            status: SeatStatus::Empty,
            stack,
            current_bet: 0,
            total_bet_this_hand: 0,
            last_action: None,
            is_hero: false,
            has_cards: false,
        }
    }
}

/// A full snapshot of one table.
#[derive(Debug)]
pub struct TableState {
    pub table_id: String,
    pub phase: TablePhase,
    pub street: Street,
    pub hand_number: u64,
    pub dealer_seat: Option<SeatId>,
    pub hero_seat: Option<SeatId>,
    pub hole_cards: Option<[Card; 2]>,
    pub community_cards: Vec<Card>,
    pub pot: PotInfo,
    pub seats: Vec<SeatState>,
    pub action_history: Vec<ActionRecord>,
    pub current_player_turn: Option<SeatId>,
    pub blinds: BlindsInfo,
    /// Epoch milliseconds.
    pub last_update_ms: i64,
    /// In thousandths (1000 is full confidence).
    pub state_confidence: u32,
}

/// The contents of a side pot.
pub struct SidePotView {
    pub amount: i64,
    pub eligible_seats: Seq<SeatId>,
}

/// The contents of a pot.
pub struct PotView {
    pub main_pot: i64,
    pub side_pots: Seq<SidePotView>,
    pub total: i64,
}

impl View for PotInfo {
    type V = PotView;

    open spec fn view(&self) -> PotView {
        PotView {
            main_pot: self.main_pot,
            side_pots: self.side_pots@.map_values(|p: SidePot| SidePotView { amount: p.amount, eligible_seats: p.eligible_seats@ }),
            total: self.total,
        }
    }
}

pub open spec fn empty_pot_view() -> PotView {
    PotView { main_pot: 0, side_pots: Seq::empty(), total: 0 }
}

/// The contents of a table state.
pub struct TableStateView {
    pub table_id: Seq<char>,
    pub phase: TablePhase,
    pub street: Street,
    pub hand_number: u64,
    pub dealer_seat: Option<SeatId>,
    pub hero_seat: Option<SeatId>,
    pub hole_cards: Option<[Card; 2]>,
    pub community_cards: Seq<Card>,
    pub pot: PotView,
    pub seats: Seq<SeatState>,
    pub action_history: Seq<ActionRecord>,
    pub current_player_turn: Option<SeatId>,
    pub blinds: BlindsInfo,
    pub last_update_ms: i64,
    pub state_confidence: u32,
}

impl View for TableState {
    type V = TableStateView;

    open spec fn view(&self) -> TableStateView {
        TableStateView {
            table_id: self.table_id@,
            phase: self.phase,
            street: self.street,
            hand_number: self.hand_number,
            dealer_seat: self.dealer_seat,
            hero_seat: self.hero_seat,
            hole_cards: self.hole_cards,
            community_cards: self.community_cards@,
            pot: self.pot@,
            seats: self.seats@,
            action_history: self.action_history@,
            current_player_turn: self.current_player_turn,
            blinds: self.blinds,
            last_update_ms: self.last_update_ms,
            state_confidence: self.state_confidence,
        }
    }
}

/// The state of a table that has seen nothing yet.
pub open spec fn initial_state(table_id: Seq<char>) -> TableStateView {
    TableStateView {
        table_id,
        phase: TablePhase::Waiting,
        street: Street::Preflop,
        hand_number: 0,
        dealer_seat: None,
        hero_seat: None,
        hole_cards: None,
        community_cards: Seq::empty(),
        pot: empty_pot_view(),
        seats: Seq::empty(),
        action_history: Seq::empty(),
        current_player_turn: None,
        blinds: zero_blinds(),
        last_update_ms: 0,
        state_confidence: 1000,
    }
}

impl TableState {
    pub fn initial(table_id: String) -> (s: TableState)
        ensures
            s@ == initial_state(table_id@),
    {
        TableState {
            table_id,
            phase: TablePhase::Waiting,
            street: Street::Preflop,
            hand_number: 0,
            dealer_seat: None,
            hero_seat: None,
            hole_cards: None,
            community_cards: Vec::new(),
            pot: PotInfo::empty(),
            seats: Vec::new(),
            action_history: Vec::new(),
            current_player_turn: None,
            blinds: BlindsInfo::zero(),
            last_update_ms: 0,
            state_confidence: 1000,
        }
    }

    /// An identical copy of this state.
    pub fn copy(&self) -> (r: TableState)
        ensures
            r@ == self@,
    {
        let table_id = self.table_id.clone();
        let community_cards = self.community_cards.clone();
        proof {
            assert(community_cards@ =~= self.community_cards@);
        }
        let seats = self.seats.clone();
        proof {
            assert(seats@ =~= self.seats@);
        }
        let action_history = self.action_history.clone();
        proof {
            assert(action_history@ =~= self.action_history@);
        }
        TableState {
            table_id,
            phase: self.phase,
            street: self.street,
            hand_number: self.hand_number,
            dealer_seat: self.dealer_seat,
            hero_seat: self.hero_seat,
            hole_cards: self.hole_cards,
            community_cards,
            pot: self.pot.copy(),
            seats,
            action_history,
            current_player_turn: self.current_player_turn,
            blinds: self.blinds,
            last_update_ms: self.last_update_ms,
            state_confidence: self.state_confidence,
        }
    }
}

/// `k` is the first position of a seat with id `id`.
pub open spec fn is_first_seat(seats: Seq<SeatState>, id: SeatId, k: int) -> bool {
    &&& 0 <= k < seats.len()
    &&& seats[k].seat_id == id
    &&& forall|j: int| 0 <= j < k ==> (#[trigger] seats[j]).seat_id != id
}

/// Position of the first seat with id `id`, if there is one.
pub open spec fn seat_index(seats: Seq<SeatState>, id: SeatId) -> Option<int> {
    if exists|k: int| is_first_seat(seats, id, k) {
        Some(choose|k: int| is_first_seat(seats, id, k))
    } else {
        None
    }
}

/// There is only one first position.
pub proof fn lemma_first_seat_unique(seats: Seq<SeatState>, id: SeatId, k: int)
    requires
        is_first_seat(seats, id, k),
    ensures
        seat_index(seats, id) == Some(k),
{
    let c = choose|c: int| is_first_seat(seats, id, c);
    assert(is_first_seat(seats, id, c));
    if c < k {
        assert(seats[c].seat_id != id);
    } else if k < c {
        assert(seats[k].seat_id != id);
    }
}

/// Finds the first seat with the given id.
pub fn find_seat(seats: &Vec<SeatState>, id: SeatId) -> (r: Option<usize>)
    ensures
        match r {
            Some(k) => seat_index(seats@, id) == Some(k as int),
            None => seat_index(seats@, id) is None
                && forall|j: int| 0 <= j < seats@.len() ==> (#[trigger] seats@[j]).seat_id != id,
        },
{
    let n = seats.len();
    for i in 0..n
        invariant
            n == seats@.len(),
            forall|j: int| 0 <= j < i ==> (#[trigger] seats@[j]).seat_id != id,
    {
        if seats[i].seat_id == id {
            proof {
                lemma_first_seat_unique(seats@, id, i as int);
            }
            return Some(i);
        }
    }
    proof {
        if exists|k: int| is_first_seat(seats@, id, k) {
            let k = choose|k: int| is_first_seat(seats@, id, k);
            assert(seats@[k].seat_id == id);
        }
    }
    None
}

} // verus!
