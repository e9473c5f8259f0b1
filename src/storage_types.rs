use vstd::prelude::*;

verus! {

/// Failure conditions surfaced to callers.
#[derive(Clone, Copy, Debug, PartialEq, Eq, Structural)]
pub enum SavingsError {
    /// User already exists in the system
    DuplicateUser,
    /// User not found in storage
    UserNotFound,
    /// Unauthorized action
    Unauthorized,
    /// No group plan with the given id exists
    PlanNotFound,
    /// The plan has reached its target and is frozen
    PlanCompleted,
    /// The user holds no membership record on the plan
    NotGroupMember,
    /// A contribution must be strictly positive
    InvalidAmount,
}

/// User account data.
#[derive(Clone, Copy, Debug, PartialEq, Eq, Structural)]
pub struct User {
    /// Total balance across all savings
    pub total_balance: i128,
    /// Number of plans the user owns
    pub savings_count: u32,
}

impl User {
    /// Create a new user with zero balances
    pub fn new() -> (r: Self)
        ensures
            r.total_balance == 0,
            r.savings_count == 0,
    {
        User { total_balance: 0, savings_count: 0 }
    }
}

/// The kinds of savings plans.
#[derive(Clone, Debug, PartialEq, Eq)]
pub enum PlanType {
    Flexi,
    /// Unlock time.
    Lock(u64),
    /// Label, target amount, target time.
    Goal(String, i128, u32),
    /// Target amount, public flag, contribution type, end time.
    Group(i128, bool, u32, u64),
}

/// A savings plan record.
#[derive(Clone, Debug, PartialEq, Eq)]
pub struct SavingsPlan {
    pub plan_id: u64,
    pub plan_type: PlanType,
    pub balance: i128,
    pub start_time: u64,
    pub last_deposit: u64,
    pub last_withdraw: u64,
    /// Annual Percentage Yield (APY) as an integer (e.g., 500 = 5.00%)
    pub interest_rate: u32,
    pub is_completed: bool,
}

/// One member's participation in a group plan.
#[derive(Clone, Copy, Debug, PartialEq, Eq, Structural)]
pub struct GroupMember {
    pub plan_id: u64,
    pub member: u64,
    pub contributed_amount: i128,
}

/// Logical keys of the persisted records; users are identified by a numeric address.
#[derive(Clone, Copy, Debug, PartialEq, Eq, Structural)]
pub enum DataKey {
    Admin,
    User(u64),
    /// A (user address, plan id) pair naming a savings plan
    SavingsPlan(u64, u64),
    /// A (plan id, member address) pair naming a membership record
    GroupMember(u64, u64),
}

} // verus!
