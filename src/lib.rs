//! An interactive SQL shell over a directory of columnar files: the verified
//! core that decides which files become tables, keeps the prompt's history,
//! and drives the read-submit-print loop.
pub mod file_name;
pub mod history;
pub mod registrar;
pub mod session;

pub use file_name::split_file_name;
pub use history::MyHistory;
pub use registrar::{
    decide_entry, plan_registrations, registration_notice, DirEntryInfo, EntryDecision,
    ListingSettings, RegisterError, TableEntry,
};
pub use session::{LoopAction, LoopEvent, LoopState, QuerySession};
