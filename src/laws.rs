//! Properties that hold of every state the ledger can reach.
use vstd::prelude::*;

use crate::state::{of_pair, of_user, LedgerState};
use crate::storage_types::{GroupMember, SavingsError};
use crate::sums::{lemma_sum_none, lemma_sum_nonneg, lemma_sum_push, lemma_sum_single};

verus! {

/// A plan's balance is the sum of what its current members have contributed.
pub proof fn lemma_balance_conservation(s: LedgerState, plan_id: u64)
    requires
        s.inv(),
        s.has_plan(plan_id),
    ensures
        s.plan(plan_id).balance == s.group_total(plan_id),
{
    assert(s.plans[plan_id - 1].balance == s.group_total(((plan_id - 1) + 1) as u64));
}

/// No user's total balance is ever negative.
pub proof fn lemma_total_balance_nonneg(s: LedgerState, user: u64)
    requires
        s.inv(),
        s.users.contains_key(user),
    ensures
        s.users[user].total_balance >= 0,
{
    lemma_sum_nonneg(s.members, of_user(user));
}

/// On a completed plan, joining, contributing and leaving all fail with `PlanCompleted`
/// (for any initialized user and any amount).
pub proof fn lemma_completed_plan_is_frozen(s: LedgerState, user: u64, plan_id: u64, amount: i128)
    requires
        s.has_group_plan(plan_id),
        s.plan(plan_id).is_completed,
        s.users.contains_key(user),
    ensures
        s.join_error(user, plan_id) == Some(SavingsError::PlanCompleted),
        s.member_error(user, plan_id) == Some(SavingsError::PlanCompleted),
        s.contribute_error(user, plan_id, amount) == Some(SavingsError::PlanCompleted),
{
}

/// The amount refunded on leaving, `contribution`, is the member's own recorded contribution,
/// and it is zero for one who holds no record.
pub proof fn lemma_refund_is_own_contribution(s: LedgerState, plan_id: u64, user: u64)
    requires
        s.inv(),
    ensures
        s.is_member(plan_id, user) ==> s.contribution(plan_id, user)
            == s.members[s.member_index(plan_id, user)].contributed_amount,
        !s.is_member(plan_id, user) ==> s.contribution(plan_id, user) == 0,
{
    if s.is_member(plan_id, user) {
        let i = s.member_index(plan_id, user);
        assert forall|j: int| 0 <= j < s.members.len() && j != i implies !(of_pair(plan_id, user))(
            #[trigger] s.members[j],
        ) by {
            if s.members[j].plan_id == plan_id {
                assert(s.members[j].member != s.members[i].member);
            }
        }
        lemma_sum_single(s.members, i, of_pair(plan_id, user));
    } else {
        lemma_sum_none(s.members, of_pair(plan_id, user));
    }
}

/// A member who has just joined has contributed nothing, so leaving at once refunds zero.
pub proof fn lemma_new_member_contributed_nothing(s: LedgerState, plan_id: u64, user: u64)
    requires
        s.inv(),
        !s.is_member(plan_id, user),
    ensures
        (LedgerState {
            members: s.members.push(GroupMember { plan_id: plan_id, member: user, contributed_amount: 0 }),
            ..s
        }).contribution(plan_id, user) == 0,
{
    let rec = GroupMember { plan_id: plan_id, member: user, contributed_amount: 0 };
    lemma_sum_none(s.members, of_pair(plan_id, user));
    lemma_sum_push(s.members, rec, of_pair(plan_id, user));
}

/// Contributing and leaving fail with `NotGroupMember` for an initialized user without a
/// membership record on an open group plan (for any amount).
pub proof fn lemma_non_member_cannot_act(s: LedgerState, user: u64, plan_id: u64, amount: i128)
    requires
        s.has_group_plan(plan_id),
        !s.plan(plan_id).is_completed,
        s.users.contains_key(user),
        !s.is_member(plan_id, user),
    ensures
        s.member_error(user, plan_id) == Some(SavingsError::NotGroupMember),
        s.contribute_error(user, plan_id, amount) == Some(SavingsError::NotGroupMember),
{
}

} // verus!
