//! Placement intents and the ranks they resolve to.

use vstd::prelude::*;
use vstd::arithmetic::power2::{pow2, lemma_pow2_unfold, lemma2_to64, lemma2_to64_rest};
use crate::error::EngineError;
use crate::rank::{Rank, BASE_UNITS, INCREMENT_UNITS, MAX_UNITS, FOOTER_UNITS};

verus! {

/// How the rank of a new member is to be found.
#[derive(Clone, Copy, Debug, PartialEq, Eq, Structural)]
pub enum Placement {
    /// After the current last member, or first in an empty group.
    Append,
    /// At the rank the caller names.
    Explicit(Rank),
    /// Strictly between a left and a right neighbour. The right neighbour
    /// may be the footer, which stands for the end of the group.
    Between(Rank, Rank),
}

/// The rank that follows `last`, the highest rank of a group, where `None`
/// is an empty group.
pub open spec fn rank_after(last: Option<Rank>) -> Result<Rank, EngineError> {
    match last {
        None => Ok(Rank { units: BASE_UNITS }),
        Some(top) => if !top.is_storable() {
            Err(EngineError::StoreError)
        } else if top.units + INCREMENT_UNITS > MAX_UNITS {
            Err(EngineError::RankSpaceExhausted)
        } else {
            Ok(Rank { units: (top.units + INCREMENT_UNITS) as i64 })
        },
    }
}

/// The rank halfway between two neighbours, rounded down to a whole unit.
pub open spec fn rank_between(left: Rank, right: Rank) -> Result<Rank, EngineError> {
    if left.units >= right.units {
        Err(EngineError::OrderingInvariantViolation)
    } else if !left.is_storable() || !right.is_storable() {
        Err(EngineError::ValidationError)
    } else if right.units - left.units < 2 {
        Err(EngineError::RankSpaceExhausted)
    } else {
        Ok(Rank { units: (left.units + (right.units - left.units) / 2) as i64 })
    }
}

impl Placement {
    /// Whether resolving this intent reads the highest rank of the group.
    pub open spec fn needs_last(self) -> bool {
        match self {
            Placement::Append => true,
            Placement::Explicit(_) => false,
            Placement::Between(_, right) => right.is_footer(),
        }
    }

    /// The rank this intent resolves to in a group whose highest rank is
    /// `last`, or the reason why it resolves to none.
    pub open spec fn resolved(self, last: Option<Rank>) -> Result<Rank, EngineError> {
        match self {
            Placement::Append => rank_after(last),
            Placement::Explicit(rank) => if rank.is_storable() {
                Ok(rank)
            } else {
                Err(EngineError::ValidationError)
            },
            Placement::Between(left, right) => if right.is_footer() {
                rank_after(last)
            } else {
                rank_between(left, right)
            },
        }
    }

    /// Tells whether the highest rank of the group has to be read before
    /// this intent can be resolved.
    pub fn reads_last(&self) -> (yes: bool)
        ensures
            yes == self.needs_last(),
    {
        match self {
            Placement::Append => true,
            Placement::Explicit(_) => false,
            Placement::Between(_, right) => right.units == FOOTER_UNITS,
        }
    }

    /// Resolves the intent to the rank to store.
    ///
    /// `last` is the highest rank of the group, `None` where the group is
    /// empty. It is read only where `needs_last` holds.
    pub fn resolve(&self, last: Option<Rank>) -> (outcome: Result<Rank, EngineError>)
        ensures
            outcome == self.resolved(last),
    {
        match self {
            Placement::Append => follow(last),
            Placement::Explicit(rank) => {
                if 0 <= rank.units && rank.units <= MAX_UNITS {
                    Ok(*rank)
                } else {
                    Err(EngineError::ValidationError)
                }
            },
            Placement::Between(left, right) => {
                if right.units == FOOTER_UNITS {
                    follow(last)
                } else {
                    midpoint(*left, *right)
                }
            },
        }
    }
}

/// Computes the rank that follows the highest rank of a group.
pub fn follow(last: Option<Rank>) -> (outcome: Result<Rank, EngineError>)
    ensures
        outcome == rank_after(last),
{
    match last {
        None => Ok(Rank { units: BASE_UNITS }),
        Some(top) => {
            if top.units < 0 || top.units > MAX_UNITS {
                Err(EngineError::StoreError)
            } else if top.units > MAX_UNITS - INCREMENT_UNITS {
                Err(EngineError::RankSpaceExhausted)
            } else {
                Ok(Rank { units: top.units + INCREMENT_UNITS })
            }
        },
    }
}

/// Computes the rank halfway between two neighbours.
pub fn midpoint(left: Rank, right: Rank) -> (outcome: Result<Rank, EngineError>)
    ensures
        outcome == rank_between(left, right),
{
    if left.units >= right.units {
        Err(EngineError::OrderingInvariantViolation)
    } else if left.units < 0 || left.units > MAX_UNITS || right.units < 0 || right.units > MAX_UNITS {
        Err(EngineError::ValidationError)
    } else {
        let gap: i64 = right.units - left.units;
        if gap < 2 {
            Err(EngineError::RankSpaceExhausted)
        } else {
            Ok(Rank { units: left.units + gap / 2 })
        }
    }
}

/// The right neighbour left after `rounds` insertions directly behind `left`,
/// the first between `left` and `right`, each further one between `left` and
/// the member inserted before it. `None` once an insertion has been refused.
pub open spec fn narrowed(left: Rank, right: Rank, rounds: nat) -> Option<Rank>
    decreases rounds,
{
    if rounds == 0 {
        Some(right)
    } else {
        match narrowed(left, right, (rounds - 1) as nat) {
            Some(previous) => match rank_between(left, previous) {
                Ok(middle) => Some(middle),
                Err(_) => None,
            },
            None => None,
        }
    }
}

/// Every rank that an intent resolves to may be stored.
pub proof fn lemma_resolved_rank_is_storable(placement: Placement, last: Option<Rank>)
    ensures
        placement.resolved(last) matches Ok(rank) ==> rank.is_storable(),
{
}

/// Appending to a group whose highest rank is `top` gives `top` plus the
/// fixed increment, as long as that rank may be stored; appending to an
/// empty group gives the base rank.
pub proof fn lemma_append_adds_increment(top: Rank)
    ensures
        Placement::Append.resolved(None) == Ok::<Rank, EngineError>(Rank { units: BASE_UNITS }),
        top.is_storable() && top.units + INCREMENT_UNITS <= MAX_UNITS
            ==> Placement::Append.resolved(Some(top)) == Ok::<Rank, EngineError>(
            Rank { units: (top.units + INCREMENT_UNITS) as i64 },
        ),
        Placement::Append.resolved(Some(top)) matches Ok(rank) ==> rank.units == top.units
            + INCREMENT_UNITS,
{
}

/// A rank resolved between two neighbours lies strictly between them.
pub proof fn lemma_between_is_strictly_between(left: Rank, right: Rank, last: Option<Rank>)
    requires
        !right.is_footer(),
    ensures
        Placement::Between(left, right).resolved(last) matches Ok(rank) ==> left.units
            < rank.units < right.units,
        Placement::Between(left, right).resolved(last) == rank_between(left, right),
{
}

/// Against the footer an insertion resolves as an append does: the rank
/// depends on the highest rank of the group alone, not on the neighbours.
pub proof fn lemma_footer_resolves_as_append(left: Rank, right: Rank, last: Option<Rank>)
    requires
        right.is_footer(),
    ensures
        Placement::Between(left, right).resolved(last) == Placement::Append.resolved(last),
{
}

/// Neighbours that are not in strict left-before-right order are refused.
pub proof fn lemma_misordered_neighbours_are_refused(left: Rank, right: Rank, last: Option<Rank>)
    requires
        !right.is_footer(),
        left.units >= right.units,
    ensures
        Placement::Between(left, right).resolved(last) == Err::<Rank, EngineError>(
            EngineError::OrderingInvariantViolation,
        ),
{
}

/// Between storable neighbours in order, an insertion is refused exactly
/// when they are one unit apart, and then for want of rank space.
pub proof fn lemma_exhaustion_is_reported(left: Rank, right: Rank)
    requires
        left.is_storable(),
        right.is_storable(),
        left.units < right.units,
    ensures
        rank_between(left, right) is Err <==> right.units == left.units + 1,
        rank_between(left, right) matches Err(error) ==> error
            == EngineError::RankSpaceExhausted,
{
}

/// Each insertion behind the same left neighbour at least halves the gap
/// that is left.
pub proof fn lemma_narrowed_gap(left: Rank, right: Rank, rounds: nat)
    requires
        rounds >= 1,
    ensures
        narrowed(left, right, rounds) matches Some(middle) ==> {
            &&& left.is_storable()
            &&& right.is_storable()
            &&& left.units < middle.units < right.units
            &&& pow2(rounds) * (middle.units - left.units) <= right.units - left.units
        },
    decreases rounds,
{
    if let Some(middle) = narrowed(left, right, rounds) {
        let previous = narrowed(left, right, (rounds - 1) as nat)->Some_0;
        lemma_pow2_unfold(rounds);
        if rounds == 1 {
            lemma2_to64();
        } else {
            lemma_narrowed_gap(left, right, (rounds - 1) as nat);
            let gap = previous.units - left.units;
            let half = middle.units - left.units;
            let scale = pow2((rounds - 1) as nat);
            assert(2 * half <= gap);
            assert(scale * (2 * half) <= scale * gap) by (nonlinear_arith)
                requires
                    2 * half <= gap,
                    scale >= 0,
            ;
            assert(pow2(rounds) * half == scale * (2 * half)) by (nonlinear_arith)
                requires
                    pow2(rounds) == 2 * scale,
            ;
        }
    }
}

/// Insertions behind the same left neighbour cannot go on for ever: the
/// fifty-fourth at the latest is refused. Until then each new rank lies
/// strictly between its neighbours, so the order is never corrupted.
pub proof fn lemma_narrowing_ends(left: Rank, right: Rank)
    ensures
        narrowed(left, right, 54) is None,
{
    if let Some(middle) = narrowed(left, right, 54) {
        lemma_narrowed_gap(left, right, 54);
        lemma2_to64_rest();
        let half = middle.units - left.units;
        assert(pow2(54) * half >= pow2(54)) by (nonlinear_arith)
            requires
                half >= 1,
                pow2(54) > 0,
        ;
    }
}

} // verus!
