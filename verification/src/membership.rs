//! The mathematical model of a membership store: a sequence of memberships,
//! kept in rank order, in which no group holds an item twice.

use vstd::prelude::*;
use crate::rank::Rank;

verus! {

/// One item's place inside one group.
pub struct Membership {
    pub group_id: Seq<char>,
    pub item_id: int,
    pub rank: Rank,
}

/// Whether the group holds the item.
pub open spec fn holds(members: Seq<Membership>, group_id: Seq<char>, item_id: int) -> bool {
    exists|k: int|
        0 <= k < members.len() && (#[trigger] members[k]).group_id == group_id && members[k].item_id
            == item_id
}

/// No group holds an item twice.
pub open spec fn keys_distinct(members: Seq<Membership>) -> bool {
    forall|i: int, j: int|
        0 <= i < j < members.len() ==> !((#[trigger] members[i]).group_id == (
        #[trigger] members[j]).group_id && members[i].item_id == members[j].item_id)
}

/// Ranks never decrease along the sequence.
pub open spec fn is_ranked(members: Seq<Membership>) -> bool {
    forall|i: int, j: int|
        0 <= i <= j < members.len() ==> (#[trigger] members[i]).rank.units <= (
        #[trigger] members[j]).rank.units
}

/// Every rank may be stored.
pub open spec fn all_storable(members: Seq<Membership>) -> bool {
    forall|k: int| 0 <= k < members.len() ==> (#[trigger] members[k]).rank.is_storable()
}

/// What a store keeps true of its contents.
pub open spec fn well_formed(members: Seq<Membership>) -> bool {
    &&& keys_distinct(members)
    &&& is_ranked(members)
    &&& all_storable(members)
}

/// The members of one group, in the order of the sequence.
pub open spec fn members_of(members: Seq<Membership>, group_id: Seq<char>) -> Seq<Membership>
    decreases members.len(),
{
    if members.len() == 0 {
        Seq::empty()
    } else if members.last().group_id == group_id {
        members_of(members.drop_last(), group_id).push(members.last())
    } else {
        members_of(members.drop_last(), group_id)
    }
}

/// The rank of the last member of a group, `None` where the group is empty.
/// In a ranked sequence this is the highest rank of the group.
pub open spec fn last_rank(members: Seq<Membership>, group_id: Seq<char>) -> Option<Rank> {
    let group = members_of(members, group_id);
    if group.len() == 0 {
        None
    } else {
        Some(group.last().rank)
    }
}

/// Where a member of the given rank goes: behind every member whose rank
/// is not higher.
pub open spec fn slot_for(members: Seq<Membership>, rank: Rank) -> int
    decreases members.len(),
{
    if members.len() == 0 {
        0
    } else if members.last().rank.units <= rank.units {
        members.len() as int
    } else {
        slot_for(members.drop_last(), rank)
    }
}

/// The slot lies inside the sequence; what stands from it on ranks higher,
/// and in a ranked sequence nothing before it does.
pub proof fn lemma_slot_for(members: Seq<Membership>, rank: Rank)
    ensures
        0 <= slot_for(members, rank) <= members.len(),
        forall|k: int|
            slot_for(members, rank) <= k < members.len() ==> (#[trigger] members[k]).rank.units
                > rank.units,
        is_ranked(members) ==> forall|k: int|
            0 <= k < slot_for(members, rank) ==> (#[trigger] members[k]).rank.units <= rank.units,
    decreases members.len(),
{
    if members.len() > 0 && members.last().rank.units > rank.units {
        let front = members.drop_last();
        lemma_slot_for(front, rank);
        assert forall|k: int| slot_for(members, rank) <= k < members.len() implies (
        #[trigger] members[k]).rank.units > rank.units by {
            if k < front.len() {
                assert(front[k] == members[k]);
            }
        }
        if is_ranked(members) {
            assert(is_ranked(front)) by {
                assert forall|i: int, j: int| 0 <= i <= j < front.len() implies (
                #[trigger] front[i]).rank.units <= (#[trigger] front[j]).rank.units by {
                    assert(front[i] == members[i] && front[j] == members[j]);
                }
            }
            assert forall|k: int| 0 <= k < slot_for(members, rank) implies (
            #[trigger] members[k]).rank.units <= rank.units by {
                assert(front[k] == members[k]);
            }
        }
    } else if members.len() > 0 {
        if is_ranked(members) {
            assert forall|k: int| 0 <= k < slot_for(members, rank) implies (
            #[trigger] members[k]).rank.units <= rank.units by {
                assert(members[k].rank.units <= members[members.len() - 1].rank.units);
            }
        }
    }
}

/// A store stays well formed when a member with a new key and a storable
/// rank is put into its slot.
pub proof fn lemma_insert_keeps_well_formed(members: Seq<Membership>, member: Membership)
    requires
        well_formed(members),
        !holds(members, member.group_id, member.item_id),
        member.rank.is_storable(),
    ensures
        well_formed(members.insert(slot_for(members, member.rank), member)),
{
    let slot = slot_for(members, member.rank);
    lemma_slot_for(members, member.rank);
    let next = members.insert(slot, member);
    assert forall|k: int| 0 <= k < next.len() implies {
        &&& k < slot ==> next[k] == members[k]
        &&& k == slot ==> next[k] == member
        &&& k > slot ==> next[k] == members[k - 1]
    } by {}
    assert(keys_distinct(next)) by {
        assert forall|i: int, j: int| 0 <= i < j < next.len() implies !((
        #[trigger] next[i]).group_id == (#[trigger] next[j]).group_id && next[i].item_id
            == next[j].item_id) by {
            let a = if i < slot { i } else { i - 1 };
            let b = if j < slot { j } else { j - 1 };
            if i != slot && j != slot {
                assert(next[i] == members[a] && next[j] == members[b]);
            } else if i == slot {
                assert(next[j] == members[b]);
            } else {
                assert(next[i] == members[a]);
            }
        }
    }
    assert(is_ranked(next)) by {
        assert forall|i: int, j: int| 0 <= i <= j < next.len() implies (
        #[trigger] next[i]).rank.units <= (#[trigger] next[j]).rank.units by {
            let a = if i < slot { i } else { i - 1 };
            let b = if j < slot { j } else { j - 1 };
            if i != slot && j != slot {
                assert(next[i] == members[a] && next[j] == members[b]);
            } else if i == slot && j != slot {
                assert(next[j] == members[b]);
            } else if j == slot && i != slot {
                assert(next[i] == members[a]);
            }
        }
    }
    assert(all_storable(next)) by {
        assert forall|k: int| 0 <= k < next.len() implies (
        #[trigger] next[k]).rank.is_storable() by {
            if k < slot {
                assert(next[k] == members[k]);
            } else if k > slot {
                assert(next[k] == members[k - 1]);
            }
        }
    }
}

/// The members of a group are members of the store, of that group.
pub proof fn lemma_members_of_are_members(members: Seq<Membership>, group_id: Seq<char>)
    ensures
        forall|k: int|
            0 <= k < members_of(members, group_id).len() ==> {
                &&& (#[trigger] members_of(members, group_id)[k]).group_id == group_id
                &&& members.contains(members_of(members, group_id)[k])
            },
        forall|k: int|
            0 <= k < members.len() && (#[trigger] members[k]).group_id == group_id
                ==> members_of(members, group_id).contains(members[k]),
    decreases members.len(),
{
    let group = members_of(members, group_id);
    if members.len() > 0 {
        let front = members.drop_last();
        let before = members_of(front, group_id);
        lemma_members_of_are_members(front, group_id);
        assert forall|k: int| 0 <= k < group.len() implies {
            &&& (#[trigger] group[k]).group_id == group_id
            &&& members.contains(group[k])
        } by {
            if k < before.len() {
                assert(group[k] == before[k]);
                let at = choose|at: int| 0 <= at < front.len() && front[at] == before[k];
                assert(members[at] == group[k]);
            } else {
                assert(group[k] == members[members.len() - 1]);
            }
        }
        assert forall|k: int|
            0 <= k < members.len() && (#[trigger] members[k]).group_id == group_id implies group.contains(
            members[k],
        ) by {
            if k < front.len() {
                assert(front[k] == members[k]);
                let at = choose|at: int| 0 <= at < before.len() && before[at] == front[k];
                assert(group[at] == members[k]);
            } else {
                assert(group[group.len() - 1] == members[k]);
            }
        }
    }
}

/// The members of a group of a ranked store are ranked themselves, and the
/// last of them holds the highest rank of the group.
pub proof fn lemma_members_of_are_ranked(members: Seq<Membership>, group_id: Seq<char>)
    requires
        is_ranked(members),
    ensures
        is_ranked(members_of(members, group_id)),
        forall|k: int|
            0 <= k < members.len() && (#[trigger] members[k]).group_id == group_id ==> {
                &&& last_rank(members, group_id) matches Some(top)
                &&& members[k].rank.units <= top.units
            },
    decreases members.len(),
{
    let group = members_of(members, group_id);
    if members.len() > 0 {
        let front = members.drop_last();
        let before = members_of(front, group_id);
        assert(is_ranked(front)) by {
            assert forall|i: int, j: int| 0 <= i <= j < front.len() implies (
            #[trigger] front[i]).rank.units <= (#[trigger] front[j]).rank.units by {
                assert(front[i] == members[i] && front[j] == members[j]);
            }
        }
        lemma_members_of_are_ranked(front, group_id);
        lemma_members_of_are_members(front, group_id);
        assert forall|i: int, j: int| 0 <= i <= j < group.len() implies (
        #[trigger] group[i]).rank.units <= (#[trigger] group[j]).rank.units by {
            if j < before.len() {
                assert(group[i] == before[i] && group[j] == before[j]);
            } else if i < before.len() {
                assert(group[i] == before[i]);
                let at = choose|at: int| 0 <= at < front.len() && front[at] == before[i];
                assert(members[at] == before[i]);
                assert(members[at].rank.units <= members[members.len() - 1].rank.units);
            }
        }
        assert forall|k: int|
            0 <= k < members.len() && (#[trigger] members[k]).group_id == group_id implies {
            &&& last_rank(members, group_id) matches Some(top)
            &&& members[k].rank.units <= top.units
        } by {
            if members.last().group_id == group_id {
                assert(group.last() == members.last());
                assert(members[k].rank.units <= members[members.len() - 1].rank.units);
            } else {
                assert(front[k] == members[k]);
            }
        }
    }
}

/// Storing a member adds that member and nothing else: every membership
/// that was stored stays, with the rank it had.
pub proof fn lemma_insert_adds_one_member(members: Seq<Membership>, member: Membership, at: int)
    requires
        0 <= at <= members.len(),
    ensures
        forall|other: Membership|
            #[trigger] members.insert(at, member).contains(other) <==> members.contains(other)
                || other == member,
{
    let next = members.insert(at, member);
    assert forall|other: Membership| #[trigger]
        next.contains(other) <==> members.contains(other) || other == member by {
        if next.contains(other) {
            let k = choose|k: int| 0 <= k < next.len() && next[k] == other;
            if k < at {
                assert(members[k] == other);
            } else if k > at {
                assert(members[k - 1] == other);
            }
        }
        if members.contains(other) {
            let k = choose|k: int| 0 <= k < members.len() && members[k] == other;
            if k < at {
                assert(next[k] == other);
            } else {
                assert(next[k + 1] == other);
            }
        }
        if other == member {
            assert(next[at] == other);
        }
    }
}

/// Storing a member of one group leaves the members of every other group
/// as they were, in the same order.
pub proof fn lemma_insert_leaves_other_groups(
    members: Seq<Membership>,
    member: Membership,
    at: int,
    group_id: Seq<char>,
)
    requires
        0 <= at <= members.len(),
        member.group_id != group_id,
    ensures
        members_of(members.insert(at, member), group_id) == members_of(members, group_id),
    decreases members.len(),
{
    let next = members.insert(at, member);
    if at == members.len() {
        assert(next.drop_last() =~= members);
    } else {
        assert(next.last() == members.last());
        assert(next.drop_last() =~= members.drop_last().insert(at, member));
        lemma_insert_leaves_other_groups(members.drop_last(), member, at, group_id);
    }
}

/// Storing a member puts it into the members of its own group and moves
/// no other: the group is as before, with the new member behind those
/// members of the group that stand before it in the store.
pub proof fn lemma_insert_extends_group(members: Seq<Membership>, member: Membership, at: int)
    requires
        0 <= at <= members.len(),
    ensures
        members_of(members.subrange(0, at), member.group_id).len() <= members_of(
            members,
            member.group_id,
        ).len(),
        members_of(members.insert(at, member), member.group_id) == members_of(
            members,
            member.group_id,
        ).insert(members_of(members.subrange(0, at), member.group_id).len() as int, member),
    decreases members.len(),
{
    let group_id = member.group_id;
    let next = members.insert(at, member);
    let before = members_of(members.subrange(0, at), group_id);
    if at == members.len() {
        assert(next.drop_last() =~= members);
        assert(members.subrange(0, at) =~= members);
        assert(members_of(members, group_id).push(member) =~= members_of(members, group_id).insert(
            before.len() as int,
            member,
        ));
    } else {
        let front = members.drop_last();
        assert(next.last() == members.last());
        assert(next.drop_last() =~= front.insert(at, member));
        assert(front.subrange(0, at) =~= members.subrange(0, at));
        lemma_insert_extends_group(front, member, at);
        let group_front = members_of(front, group_id);
        if members.last().group_id == group_id {
            assert(group_front.insert(before.len() as int, member).push(members.last())
                =~= group_front.push(members.last()).insert(before.len() as int, member));
        }
    }
}

} // verus!
