//! The membership store: the memberships of all groups, kept in rank order,
//! with at most one membership for each pair of group and item.

use vstd::prelude::*;
use crate::database::SortType;
use crate::database::diff_group_image::DiffGroupImage;
use crate::error::EngineError;
use crate::membership::{
    Membership, holds, is_ranked, last_rank, lemma_insert_keeps_well_formed,
    lemma_members_of_are_members, lemma_members_of_are_ranked, lemma_slot_for, members_of,
    slot_for, well_formed,
};
use crate::placement::{Placement, lemma_resolved_rank_is_storable};
use crate::rank::{Rank, MAX_UNITS};

verus! {

/// The memberships that a sequence of records stands for.
pub open spec fn memberships(rows: Seq<DiffGroupImage>) -> Seq<Membership> {
    Seq::new(rows.len(), |k: int| rows[k]@)
}

/// What storing a membership does to a store: the store after it, or the
/// reason why nothing was stored.
pub open spec fn stored(members: Seq<Membership>, member: Membership) -> Result<
    Seq<Membership>,
    EngineError,
> {
    if holds(members, member.group_id, member.item_id) {
        Err(EngineError::Conflict)
    } else if !member.rank.is_storable() {
        Err(EngineError::ValidationError)
    } else {
        Ok(members.insert(slot_for(members, member.rank), member))
    }
}

/// The membership that placing an item in a group creates, or the reason
/// why none is created. The intent is resolved first, against the last
/// rank of the group; a resolved rank is then refused where the group
/// holds the item already.
pub open spec fn placed(
    members: Seq<Membership>,
    group_id: Seq<char>,
    item_id: int,
    placement: Placement,
) -> Result<Membership, EngineError> {
    match placement.resolved(last_rank(members, group_id)) {
        Err(error) => Err(error),
        Ok(rank) => if holds(members, group_id, item_id) {
            Err(EngineError::Conflict)
        } else {
            Ok(Membership { group_id, item_id, rank })
        },
    }
}

/// The members of a group in the order of a listing.
pub open spec fn listing(members: Seq<Membership>, group_id: Seq<char>, sort_type: SortType) -> Seq<
    Membership,
> {
    match sort_type {
        SortType::Ascending => members_of(members, group_id),
        SortType::Descending => members_of(members, group_id).reverse(),
    }
}

/// An in-memory membership store.
pub struct MembershipStore {
    rows: Vec<DiffGroupImage>,
}

impl View for MembershipStore {
    type V = Seq<Membership>;

    closed spec fn view(&self) -> Seq<Membership> {
        memberships(self.rows@)
    }
}

impl MembershipStore {
    #[verifier::type_invariant]
    spec fn is_consistent(self) -> bool {
        well_formed(memberships(self.rows@))
    }

    /// An empty store.
    pub fn new() -> (store: Self)
        ensures
            store@ == Seq::<Membership>::empty(),
            well_formed(store@),
    {
        let store = MembershipStore { rows: Vec::new() };
        assert(store@ =~= Seq::<Membership>::empty());
        store
    }

    /// The number of memberships in the store.
    pub fn len(&self) -> (count: usize)
        ensures
            count == self@.len(),
    {
        self.rows.len()
    }

    /// The index of the membership of an item in a group.
    fn position(&self, group_id: &String, item_id: i32) -> (found: Option<usize>)
        ensures
            match found {
                Some(at) => at < self@.len() && self@[at as int].group_id == group_id@
                    && self@[at as int].item_id == item_id,
                None => !holds(self@, group_id@, item_id as int),
            },
    {
        let mut at: usize = 0;
        while at < self.rows.len()
            invariant
                at <= self.rows.len(),
                forall|k: int|
                    0 <= k < at ==> !((#[trigger] self@[k]).group_id == group_id@ && self@[k].item_id
                        == item_id),
            decreases self.rows.len() - at,
        {
            if self.rows[at].image_id == item_id && self.rows[at].group_id == *group_id {
                return Some(at);
            }
            at += 1;
        }
        None
    }

    /// The index at which a membership of the given rank is to be stored.
    fn slot(&self, rank: Rank) -> (at: usize)
        ensures
            at == slot_for(self@, rank),
    {
        let mut at: usize = self.rows.len();
        assert(self@.subrange(0, at as int) =~= self@);
        while at > 0 && self.rows[at - 1].sort_order.units > rank.units
            invariant
                at <= self.rows.len(),
                slot_for(self@, rank) == slot_for(self@.subrange(0, at as int), rank),
            decreases at,
        {
            assert(self@.subrange(0, at as int).drop_last() =~= self@.subrange(0, at - 1));
            at -= 1;
        }
        at
    }

    /// Stores a membership.
    ///
    /// Fails with `Conflict` where the group holds the item already, and
    /// with `ValidationError` where the rank may not be stored; the store
    /// is then unchanged. Else the membership is stored behind every
    /// membership whose rank is not higher, and returned.
    pub fn insert(&mut self, group_id: &String, item_id: i32, rank: Rank) -> (outcome: Result<
        DiffGroupImage,
        EngineError,
    >)
        ensures
            match stored(
                old(self)@,
                Membership { group_id: group_id@, item_id: item_id as int, rank },
            ) {
                Ok(next) => outcome is Ok && outcome->Ok_0@ == (Membership {
                    group_id: group_id@,
                    item_id: item_id as int,
                    rank,
                }) && final(self)@ == next,
                Err(error) => outcome is Err && outcome->Err_0 == error && final(self)@ == old(
                    self,
                )@,
            },
            well_formed(old(self)@),
            well_formed(final(self)@),
    {
        proof {
            use_type_invariant(&*self);
        }
        if self.position(group_id, item_id).is_some() {
            return Err(EngineError::Conflict);
        }
        if rank.units < 0 || rank.units > MAX_UNITS {
            return Err(EngineError::ValidationError);
        }
        let at = self.slot(rank);
        let row = DiffGroupImage { group_id: group_id.clone(), image_id: item_id, sort_order: rank };
        let record = row.duplicate();
        let ghost before = self@;
        let mut rows: Vec<DiffGroupImage> = Vec::new();
        std::mem::swap(&mut rows, &mut self.rows);
        proof {
            lemma_slot_for(before, rank);
        }
        rows.insert(at, row);
        proof {
            lemma_insert_keeps_well_formed(before, row@);
            assert(memberships(rows@) =~= before.insert(at as int, row@));
        }
        self.rows = rows;
        Ok(record)
    }

    /// The membership of an item in a group, `NotFound` where the group
    /// does not hold the item.
    pub fn select_one(&self, group_id: &String, item_id: i32) -> (outcome: Result<
        DiffGroupImage,
        EngineError,
    >)
        ensures
            match outcome {
                Ok(record) => {
                    &&& record@.group_id == group_id@
                    &&& record@.item_id == item_id
                    &&& self@.contains(record@)
                    &&& forall|k: int|
                        0 <= k < self@.len() && (#[trigger] self@[k]).group_id == group_id@
                            && self@[k].item_id == item_id ==> self@[k] == record@
                },
                Err(error) => error == EngineError::NotFound && !holds(
                    self@,
                    group_id@,
                    item_id as int,
                ),
            },
    {
        proof {
            use_type_invariant(self);
        }
        match self.position(group_id, item_id) {
            Some(at) => {
                let record = self.rows[at].duplicate();
                assert(self@[at as int] == record@);
                Ok(record)
            },
            None => Err(EngineError::NotFound),
        }
    }

    /// The last member of a group, which holds its highest rank; `None`
    /// where the group is empty.
    pub fn select_last(&self, group_id: &String) -> (last: Option<DiffGroupImage>)
        ensures
            match last {
                Some(record) => {
                    &&& members_of(self@, group_id@).len() > 0
                    &&& record@ == members_of(self@, group_id@).last()
                    &&& record@.group_id == group_id@
                    &&& self@.contains(record@)
                    &&& forall|k: int|
                        0 <= k < self@.len() && (#[trigger] self@[k]).group_id == group_id@
                            ==> self@[k].rank.units <= record@.rank.units
                },
                None => members_of(self@, group_id@).len() == 0,
            },
            well_formed(self@),
    {
        proof {
            use_type_invariant(self);
        }
        let mut at: usize = self.rows.len();
        assert(self@.subrange(0, at as int) =~= self@);
        while at > 0
            invariant
                at <= self.rows.len(),
                well_formed(self@),
                members_of(self@, group_id@) == members_of(
                    self@.subrange(0, at as int),
                    group_id@,
                ),
            decreases at,
        {
            assert(self@.subrange(0, at as int).drop_last() =~= self@.subrange(0, at - 1));
            if self.rows[at - 1].group_id == *group_id {
                proof {
                    lemma_members_of_are_ranked(self@, group_id@);
                    assert(self@[at - 1] == members_of(self@, group_id@).last());
                }
                return Some(self.rows[at - 1].duplicate());
            }
            at -= 1;
        }
        None
    }

    /// The highest rank of a group, `None` where the group is empty.
    pub fn select_max_rank(&self, group_id: &String) -> (top: Option<Rank>)
        ensures
            top == last_rank(self@, group_id@),
            top matches Some(rank) ==> rank.is_storable(),
            forall|k: int|
                0 <= k < self@.len() && (#[trigger] self@[k]).group_id == group_id@ ==> {
                    &&& top matches Some(rank)
                    &&& self@[k].rank.units <= rank.units
                },
    {
        proof {
            use_type_invariant(self);
            lemma_members_of_are_ranked(self@, group_id@);
            lemma_members_of_are_members(self@, group_id@);
        }
        match self.select_last(group_id) {
            Some(record) => Some(record.sort_order),
            None => None,
        }
    }

    /// The members of a group, by rank: lowest first where the listing
    /// ascends, highest first where it descends. Members of equal rank
    /// ascend in the order in which they were stored.
    pub fn select_ordered(&self, group_id: &String, sort_type: SortType) -> (rows: Vec<
        DiffGroupImage,
    >)
        ensures
            memberships(rows@) == listing(self@, group_id@, sort_type),
            is_ranked(members_of(self@, group_id@)),
            well_formed(self@),
    {
        proof {
            use_type_invariant(self);
            lemma_members_of_are_ranked(self@, group_id@);
        }
        let mut ascending: Vec<DiffGroupImage> = Vec::new();
        let mut at: usize = 0;
        assert(memberships(ascending@) =~= members_of(self@.subrange(0, 0), group_id@));
        while at < self.rows.len()
            invariant
                at <= self.rows.len(),
                memberships(ascending@) == members_of(self@.subrange(0, at as int), group_id@),
            decreases self.rows.len() - at,
        {
            assert(self@.subrange(0, at + 1).drop_last() =~= self@.subrange(0, at as int));
            if self.rows[at].group_id == *group_id {
                let ghost before = ascending@;
                ascending.push(self.rows[at].duplicate());
                assert(memberships(ascending@) =~= memberships(before).push(self@[at as int]));
            }
            at += 1;
        }
        assert(self@.subrange(0, at as int) =~= self@);
        match sort_type {
            SortType::Ascending => ascending,
            SortType::Descending => {
                let ghost upward = ascending@;
                let mut descending: Vec<DiffGroupImage> = Vec::new();
                while ascending.len() > 0
                    invariant
                        ascending@ == upward.subrange(0, ascending@.len() as int),
                        ascending@.len() + descending@.len() == upward.len(),
                        forall|k: int|
                            0 <= k < descending@.len() ==> descending@[k] == upward[upward.len() - 1
                                - k],
                    decreases ascending.len(),
                {
                    let row = ascending.pop();
                    if let Some(row) = row {
                        descending.push(row);
                    }
                }
                assert(memberships(descending@) =~= memberships(upward).reverse());
                descending
            },
        }
    }

    /// Places an item in a group.
    ///
    /// The intent is resolved to a rank, against the highest rank of the
    /// group where the intent needs it. Every failure leaves the store as
    /// it was; else the membership is stored and returned.
    pub fn place(&mut self, group_id: &String, item_id: i32, placement: Placement) -> (outcome:
        Result<DiffGroupImage, EngineError>)
        ensures
            match placed(old(self)@, group_id@, item_id as int, placement) {
                Ok(member) => outcome is Ok && outcome->Ok_0@ == member && final(self)@ == old(
                    self,
                )@.insert(slot_for(old(self)@, member.rank), member),
                Err(error) => outcome is Err && outcome->Err_0 == error && final(self)@ == old(
                    self,
                )@,
            },
            well_formed(old(self)@),
            well_formed(final(self)@),
    {
        proof {
            use_type_invariant(&*self);
        }
        let last = if placement.reads_last() {
            self.select_max_rank(group_id)
        } else {
            None
        };
        proof {
            lemma_resolved_rank_is_storable(placement, last);
        }
        match placement.resolve(last) {
            Err(error) => Err(error),
            Ok(rank) => self.insert(group_id, item_id, rank),
        }
    }
}

/// A listing ascends by rank, and the descending listing is the ascending
/// one read backwards.
pub proof fn lemma_listing_is_ranked(members: Seq<Membership>, group_id: Seq<char>)
    requires
        well_formed(members),
    ensures
        is_ranked(listing(members, group_id, SortType::Ascending)),
        listing(members, group_id, SortType::Descending) == listing(
            members,
            group_id,
            SortType::Ascending,
        ).reverse(),
        forall|i: int, j: int|
            0 <= i <= j < listing(members, group_id, SortType::Descending).len() ==> (
            #[trigger] listing(members, group_id, SortType::Descending)[i]).rank.units >= (
            #[trigger] listing(members, group_id, SortType::Descending)[j]).rank.units,
{
    lemma_members_of_are_ranked(members, group_id);
    let upward = listing(members, group_id, SortType::Ascending);
    let downward = listing(members, group_id, SortType::Descending);
    assert forall|i: int, j: int| 0 <= i <= j < downward.len() implies (
    #[trigger] downward[i]).rank.units >= (#[trigger] downward[j]).rank.units by {
        assert(downward[i] == upward[upward.len() - 1 - i]);
        assert(downward[j] == upward[upward.len() - 1 - j]);
    }
}

/// A listing holds the members of the group and nothing else.
pub proof fn lemma_listing_is_the_group(
    members: Seq<Membership>,
    group_id: Seq<char>,
    sort_type: SortType,
    member: Membership,
)
    ensures
        listing(members, group_id, sort_type).contains(member) <==> members.contains(member)
            && member.group_id == group_id,
{
    lemma_members_of_are_members(members, group_id);
    let upward = members_of(members, group_id);
    let shown = listing(members, group_id, sort_type);
    if shown.contains(member) {
        let at = choose|at: int| 0 <= at < shown.len() && shown[at] == member;
        if sort_type == SortType::Descending {
            assert(shown[at] == upward[upward.len() - 1 - at]);
        }
    }
    if members.contains(member) && member.group_id == group_id {
        let at = choose|at: int| 0 <= at < members.len() && members[at] == member;
        assert(upward.contains(members[at]));
        let to = choose|to: int| 0 <= to < upward.len() && upward[to] == member;
        if sort_type == SortType::Descending {
            assert(shown[upward.len() - 1 - to] == member);
        } else {
            assert(shown[to] == member);
        }
    }
}

/// Two listings of the same store show the same memberships in the same
/// order.
pub proof fn lemma_listing_is_repeatable(
    members: Seq<Membership>,
    group_id: Seq<char>,
    sort_type: SortType,
    first: Seq<DiffGroupImage>,
    second: Seq<DiffGroupImage>,
)
    requires
        memberships(first) == listing(members, group_id, sort_type),
        memberships(second) == listing(members, group_id, sort_type),
    ensures
        first.len() == second.len(),
        forall|k: int| 0 <= k < first.len() ==> (#[trigger] first[k])@ == second[k]@,
{
    assert(memberships(first).len() == first.len());
    assert(memberships(second).len() == second.len());
    assert forall|k: int| 0 <= k < first.len() implies (#[trigger] first[k])@ == second[k]@ by {
        assert(memberships(first)[k] == first[k]@);
        assert(memberships(second)[k] == second[k]@);
    }
}

/// An item that a group holds already is never placed in it again: the
/// placement fails, and with `Conflict` wherever the intent resolves to a
/// rank. Storing it directly fails with `Conflict` too.
pub proof fn lemma_duplicate_is_refused(
    members: Seq<Membership>,
    member: Membership,
    placement: Placement,
)
    requires
        holds(members, member.group_id, member.item_id),
    ensures
        stored(members, member) == Err::<Seq<Membership>, EngineError>(EngineError::Conflict),
        placed(members, member.group_id, member.item_id, placement) is Err,
        placement.resolved(last_rank(members, member.group_id)) is Ok ==> placed(
            members,
            member.group_id,
            member.item_id,
            placement,
        ) == Err::<Membership, EngineError>(EngineError::Conflict),
{
}

/// A placement that succeeds stores a membership with a storable rank, and
/// the store stays well formed: no other membership is touched.
pub proof fn lemma_placed_keeps_well_formed(
    members: Seq<Membership>,
    group_id: Seq<char>,
    item_id: int,
    placement: Placement,
)
    requires
        well_formed(members),
    ensures
        placed(members, group_id, item_id, placement) matches Ok(member) ==> {
            &&& member.rank.is_storable()
            &&& stored(members, member) == Ok::<Seq<Membership>, EngineError>(
                members.insert(slot_for(members, member.rank), member),
            )
            &&& well_formed(members.insert(slot_for(members, member.rank), member))
            &&& holds(
                members.insert(slot_for(members, member.rank), member),
                group_id,
                item_id,
            )
        },
{
    if let Ok(member) = placed(members, group_id, item_id, placement) {
        lemma_resolved_rank_is_storable(placement, last_rank(members, group_id));
        lemma_insert_keeps_well_formed(members, member);
        lemma_slot_for(members, member.rank);
        let next = members.insert(slot_for(members, member.rank), member);
        assert(next[slot_for(members, member.rank)] == member);
    }
}

/// Appending to a group gives a rank above every rank of the group, so the
/// new member is listed last.
pub proof fn lemma_appended_ranks_highest(
    members: Seq<Membership>,
    group_id: Seq<char>,
    item_id: int,
)
    requires
        well_formed(members),
    ensures
        placed(members, group_id, item_id, Placement::Append) matches Ok(member) ==> forall|k: int|
            0 <= k < members.len() && (#[trigger] members[k]).group_id == group_id
                ==> members[k].rank.units < member.rank.units,
{
    lemma_members_of_are_ranked(members, group_id);
}

} // verus!
