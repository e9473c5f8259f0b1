//! The abstract state of the ledger and the rules that every reachable state obeys.
use vstd::prelude::*;

use crate::storage_types::{GroupMember, PlanType, SavingsError, SavingsPlan, User};
use crate::sums::sum_where;

verus! {

/// Selects the membership records of one plan.
pub open spec fn of_plan(plan_id: u64) -> spec_fn(GroupMember) -> bool {
    |m: GroupMember| m.plan_id == plan_id
}

/// Selects the membership records of one user.
pub open spec fn of_user(user: u64) -> spec_fn(GroupMember) -> bool {
    |m: GroupMember| m.member == user
}

/// Selects the membership record of one user on one plan.
pub open spec fn of_pair(plan_id: u64, user: u64) -> spec_fn(GroupMember) -> bool {
    |m: GroupMember| m.plan_id == plan_id && m.member == user
}

/// Everything the ledger holds: users by address, plans by position (plan id minus one),
/// and the membership records of group plans.
pub ghost struct LedgerState {
    pub users: Map<u64, User>,
    pub plans: Seq<SavingsPlan>,
    pub members: Seq<GroupMember>,
}

impl LedgerState {
    pub open spec fn has_plan(self, plan_id: u64) -> bool {
        1 <= plan_id <= self.plans.len()
    }

    pub open spec fn plan(self, plan_id: u64) -> SavingsPlan {
        self.plans[plan_id - 1]
    }

    pub open spec fn has_group_plan(self, plan_id: u64) -> bool {
        self.has_plan(plan_id) && self.plan(plan_id).plan_type is Group
    }

    /// The target amount of a group plan.
    pub open spec fn target(self, plan_id: u64) -> i128 {
        match self.plan(plan_id).plan_type {
            PlanType::Group(target, _, _, _) => target,
            _ => 0,
        }
    }

    pub open spec fn is_member(self, plan_id: u64, user: u64) -> bool {
        exists|j: int| 0 <= j < self.members.len() && (#[trigger] self.members[j]).plan_id == plan_id
            && self.members[j].member == user
    }

    /// The amount `user` has put into `plan_id` (zero without a membership record).
    pub open spec fn contribution(self, plan_id: u64, user: u64) -> int {
        sum_where(self.members, of_pair(plan_id, user))
    }

    /// Position of the membership record of `user` on `plan_id` (meaningful for a member).
    pub open spec fn member_index(self, plan_id: u64, user: u64) -> int {
        choose|j: int| 0 <= j < self.members.len() && (#[trigger] self.members[j]).plan_id == plan_id
            && self.members[j].member == user
    }

    /// Every plan completed here is still there and still completed in `next`.
    pub open spec fn keeps_completed(self, next: LedgerState) -> bool {
        forall|p: u64| #[trigger] self.has_plan(p) && self.plan(p).is_completed ==> next.has_plan(p)
            && next.plan(p).is_completed
    }

    /// Sum of the contributions of the current members of a plan.
    pub open spec fn group_total(self, plan_id: u64) -> int {
        sum_where(self.members, of_plan(plan_id))
    }

    /// Sum of a user's contributions over the groups it belongs to.
    pub open spec fn user_total(self, user: u64) -> int {
        sum_where(self.members, of_user(user))
    }

    /// The rules that every reachable state obeys.
    pub open spec fn inv(self) -> bool {
        &&& forall|i: int| 0 <= i < self.plans.len() ==> (#[trigger] self.plans[i]).plan_id == i + 1
        &&& forall|i: int| 0 <= i < self.plans.len() ==> (#[trigger] self.plans[i]).balance
            == self.group_total((i + 1) as u64)
        &&& forall|j: int| 0 <= j < self.members.len() ==> {
            let m = #[trigger] self.members[j];
            &&& self.has_plan(m.plan_id)
            &&& self.users.contains_key(m.member)
            &&& m.contributed_amount >= 0
        }
        &&& forall|j: int, k: int|
            0 <= j < self.members.len() && 0 <= k < self.members.len() && j != k
                && (#[trigger] self.members[j]).plan_id == (#[trigger] self.members[k]).plan_id
                ==> self.members[j].member != self.members[k].member
        &&& forall|u: u64| #[trigger] self.users.contains_key(u) ==> self.users[u].total_balance
            == self.user_total(u)
    }

    /// Why joining would fail, if it would.
    pub open spec fn join_error(self, user: u64, plan_id: u64) -> Option<SavingsError> {
        if !self.has_group_plan(plan_id) {
            Some(SavingsError::PlanNotFound)
        } else if !self.users.contains_key(user) {
            Some(SavingsError::UserNotFound)
        } else if self.plan(plan_id).is_completed {
            Some(SavingsError::PlanCompleted)
        } else {
            None
        }
    }

    /// Why an action of a member (contributing, leaving) would fail, if it would.
    pub open spec fn member_error(self, user: u64, plan_id: u64) -> Option<SavingsError> {
        if self.join_error(user, plan_id) is Some {
            self.join_error(user, plan_id)
        } else if !self.is_member(plan_id, user) {
            Some(SavingsError::NotGroupMember)
        } else {
            None
        }
    }

    /// Why a contribution would fail, if it would.
    pub open spec fn contribute_error(self, user: u64, plan_id: u64, amount: i128) -> Option<
        SavingsError,
    > {
        if self.member_error(user, plan_id) is Some {
            self.member_error(user, plan_id)
        } else if amount <= 0 {
            Some(SavingsError::InvalidAmount)
        } else {
            None
        }
    }
}

} // verus!
