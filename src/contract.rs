//! The group savings engine: each operation validates everything before it changes anything.
use std::collections::HashMap;
use vstd::prelude::*;

use crate::laws::lemma_refund_is_own_contribution;
use crate::state::{of_pair, of_plan, of_user, LedgerState};
use crate::storage_types::{GroupMember, PlanType, SavingsError, SavingsPlan, User};
use crate::sums::{
    lemma_sum_bounds_share, lemma_sum_none, lemma_sum_push, lemma_sum_remove,
    lemma_sum_single, lemma_sum_update, share, sum_where,
};

verus! {

broadcast use vstd::std_specs::hash::group_hash_axioms;

/// The savings ledger: users keyed by address, plans numbered from 1 in order of creation,
/// and one membership record per (plan, member) pair.
pub struct NesteraContract {
    users: HashMap<u64, User>,
    plans: Vec<SavingsPlan>,
    members: Vec<GroupMember>,
}

impl View for NesteraContract {
    type V = LedgerState;

    closed spec fn view(&self) -> LedgerState {
        LedgerState { users: self.users@, plans: self.plans@, members: self.members@ }
    }
}

impl NesteraContract {
    pub open spec fn wf(&self) -> bool {
        self@.inv()
    }

    /// An empty ledger.
    pub fn new() -> (r: Self)
        ensures
            r.wf(),
            r@.users.is_empty(),
            r@.plans.len() == 0,
            r@.members.len() == 0,
    {
        NesteraContract { users: HashMap::new(), plans: Vec::new(), members: Vec::new() }
    }

    /// Check if a user exists.
    pub fn user_exists(&self, user: u64) -> (r: bool)
        ensures
            r == self@.users.contains_key(user),
    {
        self.users.contains_key(&user)
    }

    /// Get a user's record.
    pub fn get_user(&self, user: u64) -> (r: Result<User, SavingsError>)
        ensures
            self@.users.contains_key(user) ==> r == Ok::<User, SavingsError>(self@.users[user]),
            !self@.users.contains_key(user) ==> r == Err::<User, SavingsError>(
                SavingsError::UserNotFound,
            ),
    {
        match self.users.get(&user) {
            Some(u) => Ok(*u),
            None => Err(SavingsError::UserNotFound),
        }
    }

    /// Initialize a new user with zero balances.
    pub fn initialize_user(&mut self, user: u64) -> (r: Result<(), SavingsError>)
        requires
            old(self).wf(),
        ensures
            final(self).wf(),
            old(self)@.keeps_completed(final(self)@),
            old(self)@.users.contains_key(user) ==> r == Err::<(), SavingsError>(
                SavingsError::DuplicateUser,
            ) && final(self)@ == old(self)@,
            !old(self)@.users.contains_key(user) ==> r == Ok::<(), SavingsError>(())
                && final(self)@ == (LedgerState {
                users: old(self)@.users.insert(user, User { total_balance: 0, savings_count: 0 }),
                ..old(self)@
            }),
    {
        if self.users.contains_key(&user) {
            return Err(SavingsError::DuplicateUser);
        }
        proof {
            let s = self@.members;
            assert forall|j: int| 0 <= j < s.len() implies !(of_user(user))(#[trigger] s[j]) by {
                assert(self@.users.contains_key(s[j].member));
            }
            lemma_sum_none(s, of_user(user));
        }
        self.users.insert(user, User::new());
        Ok(())
    }

    /// Create a group plan owned by `creator`, who becomes its first member with nothing
    /// contributed. The text fields describe the group to its members and are not kept by
    /// the ledger; neither is the suggested per-member contribution.
    pub fn create_group_save(
        &mut self,
        creator: u64,
        title: String,
        description: String,
        category: String,
        target_amount: i128,
        contribution_type: u32,
        contribution_amount: i128,
        is_public: bool,
        start_time: u64,
        end_time: u64,
    ) -> (r: Result<u64, SavingsError>)
        requires
            old(self).wf(),
            old(self)@.plans.len() < u64::MAX,
            old(self)@.users.contains_key(creator) ==> old(self)@.users[creator].savings_count
                < u32::MAX,
        ensures
            final(self).wf(),
            old(self)@.keeps_completed(final(self)@),
            !old(self)@.users.contains_key(creator) ==> r == Err::<u64, SavingsError>(
                SavingsError::UserNotFound,
            ) && final(self)@ == old(self)@,
            old(self)@.users.contains_key(creator) ==> {
                let id = (old(self)@.plans.len() + 1) as u64;
                let u = old(self)@.users[creator];
                &&& r == Ok::<u64, SavingsError>(id)
                &&& final(self)@.plans == old(self)@.plans.push(
                    SavingsPlan {
                        plan_id: id,
                        plan_type: PlanType::Group(target_amount, is_public, contribution_type, end_time),
                        balance: 0,
                        start_time: start_time,
                        last_deposit: 0,
                        last_withdraw: 0,
                        interest_rate: 0,
                        is_completed: false,
                    },
                )
                &&& final(self)@.members == old(self)@.members.push(
                    GroupMember { plan_id: id, member: creator, contributed_amount: 0 },
                )
                &&& final(self)@.users == old(self)@.users.insert(
                    creator,
                    User { savings_count: (u.savings_count + 1) as u32, ..u },
                )
            },
    {
        let found = self.users.get(&creator);
        let mut user = match found {
            Some(u) => *u,
            None => return Err(SavingsError::UserNotFound),
        };
        let plan_id: u64 = self.plans.len() as u64 + 1;
        let record = GroupMember { plan_id, member: creator, contributed_amount: 0 };
        let ghost old_state = self@;
        proof {
            let s = old_state.members;
            assert forall|j: int| 0 <= j < s.len() implies !(of_plan(plan_id))(#[trigger] s[j]) by {
                assert(old_state.has_plan(s[j].plan_id));
            }
            lemma_sum_none(s, of_plan(plan_id));
            assert forall|f: spec_fn(GroupMember) -> bool|
                #![trigger sum_where(s.push(record), f)]
                sum_where(s.push(record), f) == sum_where(s, f) by {
                lemma_sum_push(s, record, f);
            }
        }
        self.plans.push(
            SavingsPlan {
                plan_id,
                plan_type: PlanType::Group(target_amount, is_public, contribution_type, end_time),
                balance: 0,
                start_time,
                last_deposit: 0,
                last_withdraw: 0,
                interest_rate: 0,
                is_completed: false,
            },
        );
        self.members.push(record);
        user.savings_count = user.savings_count + 1;
        self.users.insert(creator, user);
        proof {
            let n = self@;
            assert forall|i: int| 0 <= i < n.plans.len() implies (#[trigger] n.plans[i]).balance
                == n.group_total((i + 1) as u64) by {
                assert(n.group_total((i + 1) as u64) == sum_where(old_state.members.push(record), of_plan((i + 1) as u64)));
            }
            assert forall|u: u64| #[trigger] n.users.contains_key(u) implies n.users[u].total_balance
                == n.user_total(u) by {
                assert(n.user_total(u) == sum_where(old_state.members.push(record), of_user(u)));
            }
            assert forall|j: int, k: int|
                0 <= j < n.members.len() && 0 <= k < n.members.len() && j != k
                    && (#[trigger] n.members[j]).plan_id == (#[trigger] n.members[k]).plan_id
                    implies n.members[j].member != n.members[k].member by {
                if j < old_state.members.len() && k < old_state.members.len() {
                    assert(old_state.members[j] == n.members[j]);
                    assert(old_state.members[k] == n.members[k]);
                } else if j < old_state.members.len() {
                    assert(old_state.has_plan(n.members[j].plan_id));
                } else {
                    assert(old_state.has_plan(n.members[k].plan_id));
                }
            }
        }
        Ok(plan_id)
    }

    /// Join a group plan. Joining a group one already belongs to changes nothing.
    pub fn join_group_save(&mut self, user: u64, plan_id: u64) -> (r: Result<(), SavingsError>)
        requires
            old(self).wf(),
        ensures
            final(self).wf(),
            old(self)@.keeps_completed(final(self)@),
            match old(self)@.join_error(user, plan_id) {
                Some(e) => r == Err::<(), SavingsError>(e) && final(self)@ == old(self)@,
                None => {
                    &&& r == Ok::<(), SavingsError>(())
                    &&& old(self)@.is_member(plan_id, user) ==> final(self)@ == old(self)@
                    &&& !old(self)@.is_member(plan_id, user) ==> final(self)@ == (LedgerState {
                        members: old(self)@.members.push(
                            GroupMember { plan_id: plan_id, member: user, contributed_amount: 0 },
                        ),
                        ..old(self)@
                    })
                },
            },
    {
        let idx = match self.group_plan_index(plan_id) {
            Some(i) => i,
            None => return Err(SavingsError::PlanNotFound),
        };
        if !self.users.contains_key(&user) {
            return Err(SavingsError::UserNotFound);
        }
        if self.plans[idx].is_completed {
            return Err(SavingsError::PlanCompleted);
        }
        if self.find_member(plan_id, user).is_some() {
            return Ok(());
        }
        let record = GroupMember { plan_id, member: user, contributed_amount: 0 };
        let ghost old_state = self@;
        proof {
            let s = old_state.members;
            assert forall|f: spec_fn(GroupMember) -> bool|
                #![trigger sum_where(s.push(record), f)]
                sum_where(s.push(record), f) == sum_where(s, f) by {
                lemma_sum_push(s, record, f);
            }
        }
        self.members.push(record);
        proof {
            let n = self@;
            assert forall|i: int| 0 <= i < n.plans.len() implies (#[trigger] n.plans[i]).balance
                == n.group_total((i + 1) as u64) by {
                assert(n.group_total((i + 1) as u64) == sum_where(
                    old_state.members.push(record),
                    of_plan((i + 1) as u64),
                ));
            }
            assert forall|u: u64| #[trigger] n.users.contains_key(u) implies n.users[u].total_balance
                == n.user_total(u) by {
                assert(n.user_total(u) == sum_where(old_state.members.push(record), of_user(u)));
            }
            assert forall|j: int, k: int|
                0 <= j < n.members.len() && 0 <= k < n.members.len() && j != k
                    && (#[trigger] n.members[j]).plan_id == (#[trigger] n.members[k]).plan_id
                    implies n.members[j].member != n.members[k].member by {
                if j < old_state.members.len() && k < old_state.members.len() {
                    assert(old_state.members[j] == n.members[j]);
                    assert(old_state.members[k] == n.members[k]);
                } else if j < old_state.members.len() {
                    assert(old_state.members[j] == n.members[j]);
                } else {
                    assert(old_state.members[k] == n.members[k]);
                }
            }
        }
        Ok(())
    }

    /// Add `amount` to a member's contribution, to the plan's balance and to the member's total
    /// balance; the plan is completed once its balance reaches the target.
    pub fn contribute_to_group_save(&mut self, user: u64, plan_id: u64, amount: i128, now: u64) -> (r:
        Result<(), SavingsError>)
        requires
            old(self).wf(),
            old(self)@.contribute_error(user, plan_id, amount) is None ==> {
                &&& old(self)@.plan(plan_id).balance + amount <= i128::MAX
                &&& old(self)@.users[user].total_balance + amount <= i128::MAX
            },
        ensures
            final(self).wf(),
            old(self)@.keeps_completed(final(self)@),
            match old(self)@.contribute_error(user, plan_id, amount) {
                Some(e) => r == Err::<(), SavingsError>(e) && final(self)@ == old(self)@,
                None => {
                    let i = old(self)@.member_index(plan_id, user);
                    let m = old(self)@.members[i];
                    let p = old(self)@.plan(plan_id);
                    let u = old(self)@.users[user];
                    &&& r == Ok::<(), SavingsError>(())
                    &&& final(self)@.members == old(self)@.members.update(
                        i,
                        GroupMember { contributed_amount: (m.contributed_amount + amount) as i128, ..m },
                    )
                    &&& final(self)@.plans == old(self)@.plans.update(
                        plan_id - 1,
                        SavingsPlan {
                            balance: (p.balance + amount) as i128,
                            last_deposit: now,
                            is_completed: p.balance + amount >= old(self)@.target(plan_id),
                            ..p
                        },
                    )
                    &&& final(self)@.users == old(self)@.users.insert(
                        user,
                        User { total_balance: (u.total_balance + amount) as i128, ..u },
                    )
                },
            },
    {
        let idx = match self.group_plan_index(plan_id) {
            Some(i) => i,
            None => return Err(SavingsError::PlanNotFound),
        };
        let mut account = match self.users.get(&user) {
            Some(u) => *u,
            None => return Err(SavingsError::UserNotFound),
        };
        if self.plans[idx].is_completed {
            return Err(SavingsError::PlanCompleted);
        }
        let mi = match self.find_member(plan_id, user) {
            Some(i) => i,
            None => return Err(SavingsError::NotGroupMember),
        };
        if amount <= 0 {
            return Err(SavingsError::InvalidAmount);
        }
        let target = match self.plans[idx].plan_type {
            PlanType::Group(t, ..) => t,
            _ => 0,
        };
        let ghost old_state = self@;
        let old_record = self.members[mi];
        proof {
            lemma_sum_bounds_share(old_state.members, mi as int, of_user(user));
        }
        let record = GroupMember {
            contributed_amount: old_record.contributed_amount + amount,
            ..old_record
        };
        proof {
            let s = old_state.members;
            assert(old_state.member_index(plan_id, user) == mi);
            assert forall|f: spec_fn(GroupMember) -> bool|
                #![trigger sum_where(s.update(mi as int, record), f)]
                sum_where(s.update(mi as int, record), f) == sum_where(s, f) - share(old_record, f)
                    + share(record, f) by {
                lemma_sum_update(s, mi as int, record, f);
            }
        }
        let balance = self.plans[idx].balance + amount;
        self.members.set(mi, record);
        self.plans[idx].balance = balance;
        self.plans[idx].last_deposit = now;
        if balance >= target {
            self.plans[idx].is_completed = true;
        }
        account.total_balance = account.total_balance + amount;
        self.users.insert(user, account);
        proof {
            let n = self@;
            assert forall|i: int| 0 <= i < n.plans.len() implies (#[trigger] n.plans[i]).balance
                == n.group_total((i + 1) as u64) by {
                assert(n.group_total((i + 1) as u64) == sum_where(
                    old_state.members.update(mi as int, record),
                    of_plan((i + 1) as u64),
                ));
                assert(old_state.plans[i].balance == old_state.group_total((i + 1) as u64));
            }
            assert forall|u: u64| #[trigger] n.users.contains_key(u) implies n.users[u].total_balance
                == n.user_total(u) by {
                assert(n.user_total(u) == sum_where(
                    old_state.members.update(mi as int, record),
                    of_user(u),
                ));
            }
            assert forall|j: int, k: int|
                0 <= j < n.members.len() && 0 <= k < n.members.len() && j != k
                    && (#[trigger] n.members[j]).plan_id == (#[trigger] n.members[k]).plan_id
                    implies n.members[j].member != n.members[k].member by {
                assert(old_state.members[j].plan_id == old_state.members[k].plan_id);
            }
            assert(n.plans =~= old_state.plans.update(
                plan_id - 1,
                SavingsPlan {
                    balance: balance,
                    last_deposit: now,
                    is_completed: balance >= target,
                    ..old_state.plan(plan_id)
                },
            ));
        }
        Ok(())
    }

    /// Leave a group plan: the member's own contribution is taken out of the plan's balance and
    /// out of the member's total balance, and the membership record is deleted.
    pub fn break_group_save(&mut self, user: u64, plan_id: u64, now: u64) -> (r: Result<(), SavingsError>)
        requires
            old(self).wf(),
        ensures
            final(self).wf(),
            old(self)@.keeps_completed(final(self)@),
            match old(self)@.member_error(user, plan_id) {
                Some(e) => r == Err::<(), SavingsError>(e) && final(self)@ == old(self)@,
                None => {
                    let refund = old(self)@.contribution(plan_id, user);
                    let p = old(self)@.plan(plan_id);
                    let u = old(self)@.users[user];
                    &&& r == Ok::<(), SavingsError>(())
                    &&& final(self)@.members == old(self)@.members.remove(
                        old(self)@.member_index(plan_id, user),
                    )
                    &&& final(self)@.plans == old(self)@.plans.update(
                        plan_id - 1,
                        SavingsPlan { balance: (p.balance - refund) as i128, last_withdraw: now, ..p },
                    )
                    &&& final(self)@.users == old(self)@.users.insert(
                        user,
                        User { total_balance: (u.total_balance - refund) as i128, ..u },
                    )
                },
            },
    {
        let idx = match self.group_plan_index(plan_id) {
            Some(i) => i,
            None => return Err(SavingsError::PlanNotFound),
        };
        let mut account = match self.users.get(&user) {
            Some(u) => *u,
            None => return Err(SavingsError::UserNotFound),
        };
        if self.plans[idx].is_completed {
            return Err(SavingsError::PlanCompleted);
        }
        let mi = match self.find_member(plan_id, user) {
            Some(i) => i,
            None => return Err(SavingsError::NotGroupMember),
        };
        let ghost old_state = self@;
        proof {
            let s = old_state.members;
            assert(old_state.member_index(plan_id, user) == mi);
            lemma_sum_single(s, mi as int, of_pair(plan_id, user));
            lemma_sum_bounds_share(s, mi as int, of_user(user));
            lemma_sum_bounds_share(s, mi as int, of_plan(plan_id));
            assert(old_state.plans[idx as int].balance == old_state.group_total(plan_id));
            assert forall|f: spec_fn(GroupMember) -> bool|
                #![trigger sum_where(s.remove(mi as int), f)]
                sum_where(s.remove(mi as int), f) == sum_where(s, f) - share(s[mi as int], f) by {
                lemma_sum_remove(s, mi as int, f);
            }
        }
        let record = self.members.remove(mi);
        let refund = record.contributed_amount;
        let balance = self.plans[idx].balance - refund;
        self.plans[idx].balance = balance;
        self.plans[idx].last_withdraw = now;
        account.total_balance = account.total_balance - refund;
        self.users.insert(user, account);
        proof {
            let n = self@;
            let s = old_state.members;
            assert forall|i: int| 0 <= i < n.plans.len() implies (#[trigger] n.plans[i]).balance
                == n.group_total((i + 1) as u64) by {
                assert(n.group_total((i + 1) as u64) == sum_where(
                    s.remove(mi as int),
                    of_plan((i + 1) as u64),
                ));
                assert(old_state.plans[i].balance == old_state.group_total((i + 1) as u64));
            }
            assert forall|u: u64| #[trigger] n.users.contains_key(u) implies n.users[u].total_balance
                == n.user_total(u) by {
                assert(n.user_total(u) == sum_where(s.remove(mi as int), of_user(u)));
            }
            assert forall|j: int| 0 <= j < n.members.len() implies {
                let m = #[trigger] n.members[j];
                &&& n.has_plan(m.plan_id)
                &&& n.users.contains_key(m.member)
                &&& m.contributed_amount >= 0
            } by {
                if j < mi {
                    assert(n.members[j] == s[j]);
                } else {
                    assert(n.members[j] == s[j + 1]);
                }
            }
            assert forall|j: int, k: int|
                0 <= j < n.members.len() && 0 <= k < n.members.len() && j != k
                    && (#[trigger] n.members[j]).plan_id == (#[trigger] n.members[k]).plan_id
                    implies n.members[j].member != n.members[k].member by {
                let oj = if j < mi { j } else { j + 1 };
                let ok = if k < mi { k } else { k + 1 };
                assert(n.members[j] == s[oj]);
                assert(n.members[k] == s[ok]);
            }
        }
        Ok(())
    }

    /// The plan with id `plan_id`, if there is one.
    pub fn get_savings_plan(&self, plan_id: u64) -> (r: Option<&SavingsPlan>)
        ensures
            r is Some <==> self@.has_plan(plan_id),
            r matches Some(p) ==> *p == self@.plan(plan_id),
    {
        if plan_id == 0 || plan_id > self.plans.len() as u64 {
            None
        } else {
            Some(&self.plans[(plan_id - 1) as usize])
        }
    }

    /// Whether `user` holds a membership record on `plan_id`.
    pub fn is_group_member(&self, user: u64, plan_id: u64) -> (r: bool)
        ensures
            r == self@.is_member(plan_id, user),
    {
        self.find_member(plan_id, user).is_some()
    }

    /// What `user` has contributed to `plan_id`, if it is a member.
    pub fn get_member_contribution(&self, plan_id: u64, user: u64) -> (r: Option<i128>)
        requires
            self.wf(),
        ensures
            self@.is_member(plan_id, user) ==> r == Some(self@.contribution(plan_id, user) as i128),
            !self@.is_member(plan_id, user) ==> r is None,
    {
        match self.find_member(plan_id, user) {
            Some(i) => {
                proof {
                    lemma_refund_is_own_contribution(self@, plan_id, user);
                    assert(self@.member_index(plan_id, user) == i);
                }
                Some(self.members[i].contributed_amount)
            },
            None => None,
        }
    }

    /// Position of the group plan `plan_id`, if there is one.
    fn group_plan_index(&self, plan_id: u64) -> (r: Option<usize>)
        requires
            self.wf(),
        ensures
            r is Some <==> self@.has_group_plan(plan_id),
            r matches Some(i) ==> i == plan_id - 1,
    {
        if plan_id == 0 || plan_id > self.plans.len() as u64 {
            return None;
        }
        let idx = (plan_id - 1) as usize;
        match self.plans[idx].plan_type {
            PlanType::Group(..) => Some(idx),
            _ => None,
        }
    }

    /// Position of the membership record of `user` on `plan_id`, if there is one.
    fn find_member(&self, plan_id: u64, user: u64) -> (r: Option<usize>)
        ensures
            match r {
                Some(i) => i < self@.members.len() && self@.members[i as int].plan_id == plan_id
                    && self@.members[i as int].member == user,
                None => !self@.is_member(plan_id, user),
            },
    {
        let mut i: usize = 0;
        while i < self.members.len()
            invariant
                i <= self.members.len(),
                forall|j: int|
                    0 <= j < i ==> !((#[trigger] self@.members[j]).plan_id == plan_id
                        && self@.members[j].member == user),
            decreases self.members.len() - i,
        {
            if self.members[i].plan_id == plan_id && self.members[i].member == user {
                return Some(i);
            }
            i = i + 1;
        }
        None
    }
}

} // verus!
