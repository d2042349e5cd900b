//! Group memberships: which image a group holds, and at which rank.

use vstd::prelude::*;
use crate::database::SortType;
use crate::error::EngineError;
use crate::membership::{Membership, is_ranked, members_of, slot_for, well_formed};
use crate::placement::Placement;
use crate::foreign::validate_range;
use crate::rank::{Rank, MAX_UNITS};
use crate::store::{MembershipStore, listing, memberships, placed};
use crate::validation::{Violation, flagged};

verus! {

/// A stored membership: one image in one group, at a rank.
#[derive(Clone, Debug)]
pub struct DiffGroupImage {
    pub group_id: String,
    pub image_id: i32,
    pub sort_order: Rank,
}

/// A membership to be stored. Without a sort order the image goes behind
/// the last member of its group.
#[derive(Clone, Debug)]
pub struct NewDiffGroupImage {
    pub group_id: String,
    pub image_id: i32,
    pub sort_order: Option<Rank>,
}

impl View for DiffGroupImage {
    type V = Membership;

    open spec fn view(&self) -> Membership {
        Membership {
            group_id: self.group_id@,
            item_id: self.image_id as int,
            rank: self.sort_order,
        }
    }
}

impl PartialEq for DiffGroupImage {
    /// Two records are equal where they agree in group, image and rank.
    fn eq(&self, other: &Self) -> (equal: bool) {
        self.group_id == other.group_id && self.image_id == other.image_id && self.sort_order
            == other.sort_order
    }
}

impl vstd::std_specs::cmp::PartialEqSpecImpl for DiffGroupImage {
    open spec fn obeys_eq_spec() -> bool {
        true
    }

    open spec fn eq_spec(&self, other: &Self) -> bool {
        self@ == other@
    }
}

impl DiffGroupImage {
    /// A second record with the same contents.
    pub fn duplicate(&self) -> (copy: DiffGroupImage)
        ensures
            copy@ == self@,
    {
        DiffGroupImage {
            group_id: self.group_id.clone(),
            image_id: self.image_id,
            sort_order: self.sort_order,
        }
    }
}

impl DiffGroupImage {
    /// Stores a new membership: behind the last member of its group where
    /// it names no sort order, else at the rank it names.
    ///
    /// A rank that may not be stored is a `ValidationError`; a group with
    /// no storable rank left behind its last member is
    /// `RankSpaceExhausted`; an item that the group holds already is a
    /// `Conflict`. Every failure leaves the store as it was.
    pub fn create(store: &mut MembershipStore, new_relation: &NewDiffGroupImage) -> (outcome:
        Result<Self, EngineError>)
        ensures
            match placed(
                old(store)@,
                new_relation.group_id@,
                new_relation.image_id as int,
                new_relation.intent(),
            ) {
                Ok(member) => outcome is Ok && outcome->Ok_0@ == member && final(store)@ == old(
                    store,
                )@.insert(slot_for(old(store)@, member.rank), member),
                Err(error) => outcome is Err && outcome->Err_0 == error && final(store)@ == old(
                    store,
                )@,
            },
            well_formed(old(store)@),
            well_formed(final(store)@),
    {
        let placement = new_relation.placement();
        store.place(&new_relation.group_id, new_relation.image_id, placement)
    }

    /// Stores a new membership between two neighbours of its group.
    ///
    /// Where `right` holds the footer rank, the member is appended as
    /// `create` appends it, whatever `left` is. Else the member gets the
    /// rank halfway between the two, rounded down to a unit:
    /// neighbours out of order are an `OrderingInvariantViolation`,
    /// neighbours whose rank may not be stored a `ValidationError`, and
    /// neighbours one unit apart `RankSpaceExhausted`. An item that the
    /// group holds already is a `Conflict`. Every failure leaves the store
    /// as it was. The sort order of `new_relation` is not read.
    pub fn insert_between(
        store: &mut MembershipStore,
        new_relation: &NewDiffGroupImage,
        left: &DiffGroupImage,
        right: &DiffGroupImage,
    ) -> (outcome: Result<Self, EngineError>)
        ensures
            match placed(
                old(store)@,
                new_relation.group_id@,
                new_relation.image_id as int,
                Placement::Between(left.sort_order, right.sort_order),
            ) {
                Ok(member) => outcome is Ok && outcome->Ok_0@ == member && final(store)@ == old(
                    store,
                )@.insert(slot_for(old(store)@, member.rank), member),
                Err(error) => outcome is Err && outcome->Err_0 == error && final(store)@ == old(
                    store,
                )@,
            },
            well_formed(old(store)@),
            well_formed(final(store)@),
    {
        let placement = Placement::Between(left.sort_order, right.sort_order);
        store.place(&new_relation.group_id, new_relation.image_id, placement)
    }

    /// The members of a group by rank, lowest first or highest first.
    pub fn list_by_group_id(store: &MembershipStore, group_id: String, sort_type: SortType) -> (rows:
        Vec<Self>)
        ensures
            memberships(rows@) == listing(store@, group_id@, sort_type),
            sort_type == SortType::Ascending ==> is_ranked(memberships(rows@)),
            sort_type == SortType::Descending ==> is_ranked(memberships(rows@).reverse()),
            well_formed(store@),
    {
        let rows = store.select_ordered(&group_id, sort_type);
        proof {
            let upward = members_of(store@, group_id@);
            assert(upward.reverse().reverse() =~= upward);
        }
        rows
    }

    /// The last member of a group, which holds its highest rank;
    /// `NotFound` where the group is empty.
    pub fn find_last_by_group_id(store: &MembershipStore, group_id: String) -> (outcome: Result<
        Self,
        EngineError,
    >)
        ensures
            match outcome {
                Ok(record) => {
                    &&& members_of(store@, group_id@).len() > 0
                    &&& record@ == members_of(store@, group_id@).last()
                    &&& record@.group_id == group_id@
                    &&& store@.contains(record@)
                    &&& forall|k: int|
                        0 <= k < store@.len() && (#[trigger] store@[k]).group_id == group_id@
                            ==> store@[k].rank.units <= record@.rank.units
                },
                Err(error) => error == EngineError::NotFound && members_of(
                    store@,
                    group_id@,
                ).len() == 0,
            },
            well_formed(store@),
    {
        match store.select_last(&group_id) {
            Some(record) => Ok(record),
            None => Err(EngineError::NotFound),
        }
    }
}

impl NewDiffGroupImage {
    /// How the rank of this membership is to be found.
    pub open spec fn intent(&self) -> Placement {
        match self.sort_order {
            None => Placement::Append,
            Some(rank) => Placement::Explicit(rank),
        }
    }

    /// A membership at the rank the caller names.
    pub fn new(group_id: String, image_id: i32, sort: Rank) -> (relation: Self)
        ensures
            relation.group_id@ == group_id@,
            relation.image_id == image_id,
            relation.sort_order == Some(sort),
    {
        Self { group_id, image_id, sort_order: Some(sort) }
    }

    /// A membership that goes behind the last member of its group.
    pub fn new_without_sort_order(group_id: String, image_id: i32) -> (relation: Self)
        ensures
            relation.group_id@ == group_id@,
            relation.image_id == image_id,
            relation.sort_order == None::<Rank>,
    {
        Self { group_id, image_id, sort_order: None }
    }

    /// The rules that this membership breaks: a sort order, where it names
    /// one, is a rank that may be stored.
    pub open spec fn violations(&self) -> Seq<Violation> {
        flagged(
            self.sort_order matches Some(rank) ==> rank.is_storable(),
            Violation::SortOrderOutOfRange,
        )
    }

    /// Holds the membership to its rules; the error lists every rule it
    /// breaks.
    pub fn validate(&self) -> (outcome: Result<(), Vec<Violation>>)
        ensures
            match outcome {
                Ok(_) => self.violations().len() == 0,
                Err(found) => found@ == self.violations() && found@.len() > 0,
            },
    {
        let mut found: Vec<Violation> = Vec::new();
        let kept = match self.sort_order {
            Some(rank) => validate_range(rank.units, Some(0), Some(MAX_UNITS)),
            None => true,
        };
        Violation::flag(kept, Violation::SortOrderOutOfRange, &mut found);
        assert(found@ =~= self.violations());
        Violation::conclude(found)
    }

    /// The placement intent of this membership: an append where it names
    /// no sort order, else the rank it names.
    pub fn placement(&self) -> (intent: Placement)
        ensures
            intent == self.intent(),
    {
        match self.sort_order {
            None => Placement::Append,
            Some(rank) => Placement::Explicit(rank),
        }
    }
}

} // verus!
