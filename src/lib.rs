//! A store of emotional records: memories that can be sealed read-only until a
//! given time and scheduled for irrecoverable destruction.
use vstd::prelude::*;

pub mod commands;
pub mod laws;
pub mod model;
pub mod record;
pub mod store;

pub use record::{evaluate, EmotionalRecord, RecordDraft, RecordState, SealConfig};
pub use commands::{get_app_data_dir, greet};
pub use store::{RecordStore, StoreError};

verus! {

} // verus!
