//! Group savings ledger: users, group plans, membership and contribution accounting.
pub mod storage_types;
pub mod contract;
pub mod laws;
pub mod state;
pub mod sums;

pub use contract::NesteraContract;
pub use state::LedgerState;
pub use storage_types::{DataKey, GroupMember, PlanType, SavingsError, SavingsPlan, User};
