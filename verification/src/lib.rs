//! TableFlow: the verified core of a poker-table tracker.
//!
//! Amounts of chips are fixed-point integers in hundredths of a chip, and
//! confidences are integers in thousandths (0..=1000).

pub mod types;
pub mod config;
pub mod money;
pub mod text;
pub mod error;
pub mod state;
pub mod events;
pub mod machine;
pub mod round;
pub mod reconstructor;
pub mod validator;
pub mod clock;
pub mod history;
pub mod rec_input;
pub mod cache_key;
pub mod rec_cache;
pub mod tracker;
pub mod js_types;
pub mod table;
pub mod frame;
pub mod session;
pub mod prepost;
pub mod card_model;
pub mod digit_model;
pub mod sidecar;
