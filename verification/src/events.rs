//! Events between the layers: vision to state (`TableEvent`), state-machine
//! transitions (`StateTransition`) and manager events (`ManagerEvent`).

use vstd::prelude::*;

use crate::types::{ActionSource, ActionType, BlindKind, Card, SeatId, SeatStatus, Street};

verus! {

/// An action candidate derived from vision; it becomes an `ActionRecord`
/// once the state machine accepts it.
#[derive(Debug, Clone, Copy, PartialEq, Eq, Structural)]
pub struct ReconstructedAction {
    pub seat_id: SeatId,
    pub action_type: ActionType,
    /// Derived amount in hundredths of a chip (`None` for fold / check).
    pub amount: Option<i64>,
    pub street: Street,
    /// Epoch milliseconds.
    pub timestamp_ms: i64,
    /// In thousandths.
    pub confidence: u32,
    pub source: ActionSource,
}

/// A posted blind, kept apart from voluntary actions.
#[derive(Debug, Clone, Copy, PartialEq, Eq, Structural)]
pub struct PostedBlind {
    pub seat_id: SeatId,
    pub kind: BlindKind,
    pub amount: i64,
}

/// Events derived by vision and fed to `TableStateMachine::process_event`.
#[derive(Debug, Clone)]
pub enum TableEvent {
    NewHandDetected { dealer_seat: SeatId },
    HoleCardsDetected { cards: [Card; 2] },
    CommunityCardsChanged { cards: Vec<Card>, street: Street },
    ActionReconstructed { action: ReconstructedAction },
    PotChanged { new_total: i64, delta: i64 },
    SeatStatusChanged { seat_id: SeatId, new_status: SeatStatus },
    DealerButtonMoved { new_seat: SeatId },
    Timeout,
}

/// Compact payload of `StateTransition::ActionRecorded`.
#[derive(Debug, Clone, Copy, PartialEq, Eq, Structural)]
pub struct ActionRecordSummary {
    pub seat_id: SeatId,
    pub action: ActionType,
    pub amount: i64,
    pub street: Street,
    pub seq: u32,
    pub confidence: u32,
}

#[derive(Debug, Clone)]
pub struct HandResult {
    pub hand_number: u64,
    /// Net result per seat (positive won, negative lost), in hundredths of a chip.
    pub seat_pnl: Vec<(SeatId, i64)>,
}

#[derive(Debug, Clone)]
pub enum StateTransition {
    HandStarted { hand_number: u64 },
    StreetChanged { from: Street, to: Street },
    ActionRecorded(ActionRecordSummary),
    HandCompleted { result: HandResult },
    StateConfidenceUpdated { new_confidence: u32 },
}

#[derive(Debug, Clone)]
pub enum ManagerEvent {
    TableDiscovered { table_id: String, window_title: String },
    TableLost { table_id: String },
    StateUpdated { table_id: String, snapshot_json: String },
    RecommendationReady { table_id: String, output_json: String },
    Error { table_id: Option<String>, message: String },
}

} // verus!
