//! Sums of contributions over a sequence of membership records.
use vstd::prelude::*;

use crate::storage_types::GroupMember;

verus! {

/// What one record adds to a sum taken over the records that `f` selects.
pub open spec fn share(m: GroupMember, f: spec_fn(GroupMember) -> bool) -> int {
    if f(m) {
        m.contributed_amount as int
    } else {
        0
    }
}

/// Sum of the contributions of the records that `f` selects.
pub open spec fn sum_where(s: Seq<GroupMember>, f: spec_fn(GroupMember) -> bool) -> int
    decreases s.len(),
{
    if s.len() == 0 {
        0
    } else {
        sum_where(s.drop_last(), f) + share(s.last(), f)
    }
}

pub proof fn lemma_sum_push(s: Seq<GroupMember>, x: GroupMember, f: spec_fn(GroupMember) -> bool)
    ensures
        sum_where(s.push(x), f) == sum_where(s, f) + share(x, f),
{
    assert(s.push(x).drop_last() =~= s);
}

pub proof fn lemma_sum_update(
    s: Seq<GroupMember>,
    i: int,
    x: GroupMember,
    f: spec_fn(GroupMember) -> bool,
)
    requires
        0 <= i < s.len(),
    ensures
        sum_where(s.update(i, x), f) == sum_where(s, f) - share(s[i], f) + share(x, f),
    decreases s.len(),
{
    let t = s.update(i, x);
    if i == s.len() - 1 {
        assert(t.drop_last() =~= s.drop_last());
    } else {
        lemma_sum_update(s.drop_last(), i, x, f);
        assert(t.drop_last() =~= s.drop_last().update(i, x));
    }
}

pub proof fn lemma_sum_remove(s: Seq<GroupMember>, i: int, f: spec_fn(GroupMember) -> bool)
    requires
        0 <= i < s.len(),
    ensures
        sum_where(s.remove(i), f) == sum_where(s, f) - share(s[i], f),
    decreases s.len(),
{
    let t = s.remove(i);
    if i == s.len() - 1 {
        assert(t =~= s.drop_last());
    } else {
        lemma_sum_remove(s.drop_last(), i, f);
        assert(t.drop_last() =~= s.drop_last().remove(i));
        assert(t.last() == s.last());
    }
}

/// A sum over records of which `f` selects none is zero.
pub proof fn lemma_sum_none(s: Seq<GroupMember>, f: spec_fn(GroupMember) -> bool)
    requires
        forall|j: int| 0 <= j < s.len() ==> !f(#[trigger] s[j]),
    ensures
        sum_where(s, f) == 0,
    decreases s.len(),
{
    if s.len() > 0 {
        assert(!f(s[s.len() - 1]));
        lemma_sum_none(s.drop_last(), f);
    }
}

/// Where `f` selects the record at `i` alone, the sum is that record's contribution.
pub proof fn lemma_sum_single(s: Seq<GroupMember>, i: int, f: spec_fn(GroupMember) -> bool)
    requires
        0 <= i < s.len(),
        f(s[i]),
        forall|j: int| 0 <= j < s.len() && j != i ==> !f(#[trigger] s[j]),
    ensures
        sum_where(s, f) == s[i].contributed_amount,
{
    lemma_sum_remove(s, i, f);
    let t = s.remove(i);
    assert forall|j: int| 0 <= j < t.len() implies !f(#[trigger] t[j]) by {
        if j < i {
            assert(t[j] == s[j]);
        } else {
            assert(t[j] == s[j + 1]);
        }
    }
    lemma_sum_none(t, f);
}

/// A sum of non-negative contributions is non-negative.
pub proof fn lemma_sum_nonneg(s: Seq<GroupMember>, f: spec_fn(GroupMember) -> bool)
    requires
        forall|j: int| 0 <= j < s.len() ==> (#[trigger] s[j]).contributed_amount >= 0,
    ensures
        sum_where(s, f) >= 0,
    decreases s.len(),
{
    if s.len() > 0 {
        assert(s[s.len() - 1].contributed_amount >= 0);
        lemma_sum_nonneg(s.drop_last(), f);
    }
}

/// With non-negative contributions, no selected record exceeds the sum.
pub proof fn lemma_sum_bounds_share(s: Seq<GroupMember>, i: int, f: spec_fn(GroupMember) -> bool)
    requires
        0 <= i < s.len(),
        forall|j: int| 0 <= j < s.len() ==> (#[trigger] s[j]).contributed_amount >= 0,
    ensures
        share(s[i], f) <= sum_where(s, f),
{
    lemma_sum_remove(s, i, f);
    let t = s.remove(i);
    assert forall|j: int| 0 <= j < t.len() implies (#[trigger] t[j]).contributed_amount >= 0 by {
        if j < i {
            assert(t[j] == s[j]);
        } else {
            assert(t[j] == s[j + 1]);
        }
    }
    lemma_sum_nonneg(t, f);
}

} // verus!
