//! Sizes of the two worker pools, from the number of logical cores and the
//! load of the machine.
//!
//! Percentages come as readings: the bit pattern of an IEEE 754 number of
//! single precision. Their order is read off the pattern.

use vstd::prelude::*;

verus! {

/// A percentage, as the bit pattern of a number of single precision.
#[derive(Clone, Copy, Debug, PartialEq, Eq, Structural)]
pub struct Percent {
    pub bits: u32,
}

/// The pattern of zero.
pub const ZERO_PERCENT: u32 = 0x0000_0000;

/// The pattern of sixty, the highest boost that is taken.
pub const HIGHEST_BOOST: u32 = 0x4270_0000;

/// The pattern of fifty, the boost with which the pages of a document are
/// handed out.
pub const PAGE_BOOST: u32 = 0x4248_0000;

/// The pattern without its sign: exponent and fraction.
pub open spec fn spec_magnitude(bits: u32) -> int {
    bits as int % 0x8000_0000
}

/// Whether a pattern stands for a number: the exponent of all ones with a
/// fraction that is not zero stands for none.
pub open spec fn spec_is_number(bits: u32) -> bool {
    spec_magnitude(bits) <= 0x7f80_0000
}

/// Where a number stands in the order of the numbers: its magnitude, below
/// zero where the sign is set. The two zeros stand at the same place.
pub open spec fn spec_rank(bits: u32) -> int {
    if bits >= 0x8000_0000 {
        -spec_magnitude(bits)
    } else {
        spec_magnitude(bits)
    }
}

/// Whether the first reading is a number below the second. Nothing is below
/// what is not a number, and what is not a number is below nothing.
pub open spec fn spec_below(left: u32, right: u32) -> bool {
    spec_is_number(left) && spec_is_number(right) && spec_rank(left) < spec_rank(right)
}

/// Whether a boost is taken: it is a number from zero to sixty, both
/// included.
pub open spec fn spec_boost_applies(boost: u32) -> bool {
    spec_is_number(boost) && spec_rank(ZERO_PERCENT) <= spec_rank(boost) <= spec_rank(
        HIGHEST_BOOST,
    )
}

/// The core count that the sizes are computed from: a detection that yields
/// nothing counts as one core.
pub open spec fn spec_effective_cores(detected: int) -> int {
    if detected <= 0 {
        1
    } else {
        detected
    }
}

/// Size of the main pool: a quarter of the cores beside the first, at least
/// one.
pub open spec fn spec_main_limit(detected: int) -> int {
    let share = (spec_effective_cores(detected) - 1) / 4;
    if share <= 0 {
        1
    } else {
        share
    }
}

/// Size of a sub pool before any boost: the cores that the main pool leaves,
/// shared among its workers, at least one.
pub open spec fn spec_sub_candidate(detected: int) -> int {
    let main = spec_main_limit(detected);
    let share = (spec_effective_cores(detected) - main) / main;
    if share <= 0 {
        1
    } else {
        share
    }
}

/// Size of a sub pool: the candidate, doubled where the boost is taken and
/// the load that was sampled is below it.
pub open spec fn spec_sub_limit(detected: int, boost: u32, usage: Option<Percent>) -> int {
    let candidate = spec_sub_candidate(detected);
    match usage {
        Some(load) => if spec_boost_applies(boost) && spec_below(load.bits, boost) {
            2 * candidate
        } else {
            candidate
        },
        None => candidate,
    }
}

/// Whatever the number of cores, a sub pool before its boost has from one to
/// seven workers.
pub proof fn lemma_sub_candidate_bounds(detected: int)
    ensures
        1 <= spec_sub_candidate(detected) <= 7,
        1 <= spec_main_limit(detected),
{
    let cores = spec_effective_cores(detected);
    let main = spec_main_limit(detected);
    assert((cores - main) / main <= 7) by (nonlinear_arith)
        requires
            1 <= main,
            cores - main <= 7 * main,
    ;
}

/// A boost that is not taken changes nothing: whatever the load, the size of
/// a sub pool is the candidate, so that any two boosts outside the range
/// from zero to sixty give the same size.
pub proof fn lemma_boost_outside_range(
    detected: int,
    boost: u32,
    usage: Option<Percent>,
    other_boost: u32,
    other_usage: Option<Percent>,
)
    requires
        !spec_boost_applies(boost),
        !spec_boost_applies(other_boost),
    ensures
        spec_sub_limit(detected, boost, usage) == spec_sub_candidate(detected),
        spec_sub_limit(detected, boost, usage) == spec_sub_limit(
            detected,
            other_boost,
            other_usage,
        ),
{
}

/// A boost never shrinks a pool, and at most doubles it.
pub proof fn lemma_boost_at_most_doubles(detected: int, boost: u32, usage: Option<Percent>)
    ensures
        spec_sub_candidate(detected) <= spec_sub_limit(detected, boost, usage) <= 2
            * spec_sub_candidate(detected),
{
    lemma_sub_candidate_bounds(detected);
}

impl Percent {
    /// Whether this reading is a number.
    pub fn is_number(self) -> (number: bool)
        ensures
            number == spec_is_number(self.bits),
    {
        self.bits % 0x8000_0000 <= 0x7f80_0000
    }

    /// Whether this reading is a number below the other.
    pub fn below(self, other: Percent) -> (below: bool)
        ensures
            below == spec_below(self.bits, other.bits),
    {
        if !self.is_number() || !other.is_number() {
            return false;
        }
        let mine: u32 = self.bits % 0x8000_0000;
        let theirs: u32 = other.bits % 0x8000_0000;
        let mine_negative = self.bits >= 0x8000_0000;
        let theirs_negative = other.bits >= 0x8000_0000;
        if mine_negative {
            if theirs_negative {
                theirs < mine
            } else {
                mine > 0 || theirs > 0
            }
        } else {
            if theirs_negative {
                false
            } else {
                mine < theirs
            }
        }
    }
}

/// Whether a boost is taken, so that the load of the machine has to be
/// sampled for it.
pub fn boost_applies(boost: Percent) -> (applies: bool)
    ensures
        applies == spec_boost_applies(boost.bits),
{
    boost.is_number() && !boost.below(Percent { bits: ZERO_PERCENT }) && !(Percent {
        bits: HIGHEST_BOOST,
    }).below(boost)
}

/// Size of the main pool for a machine on which `detected` cores were found.
pub fn main_limit_for(detected: usize) -> (limit: usize)
    ensures
        limit == spec_main_limit(detected as int),
        1 <= limit,
{
    let cores: usize = if detected == 0 {
        1
    } else {
        detected
    };
    let share: usize = (cores - 1) / 4;
    if share == 0 {
        1
    } else {
        share
    }
}

/// Size of a sub pool before any boost, for a machine on which `detected`
/// cores were found.
pub fn sub_candidate_for(detected: usize) -> (limit: usize)
    ensures
        limit == spec_sub_candidate(detected as int),
        1 <= limit <= 7,
{
    proof {
        lemma_sub_candidate_bounds(detected as int);
    }
    let cores: usize = if detected == 0 {
        1
    } else {
        detected
    };
    let main: usize = main_limit_for(detected);
    let share: usize = (cores - main) / main;
    if share == 0 {
        1
    } else {
        share
    }
}

/// Size of a sub pool for a machine on which `detected` cores were found.
/// `usage` is the load of the machine as it was sampled for this call, or
/// `None` where none was sampled: without a sample there is no boost.
pub fn sub_limit_for(detected: usize, boost: Percent, usage: Option<Percent>) -> (limit: usize)
    ensures
        limit == spec_sub_limit(detected as int, boost.bits, usage),
        1 <= limit <= 14,
        !spec_boost_applies(boost.bits) ==> limit == spec_sub_candidate(detected as int),
{
    let candidate: usize = sub_candidate_for(detected);
    match usage {
        Some(load) => {
            if boost_applies(boost) && load.below(boost) {
                candidate * 2
            } else {
                candidate
            }
        },
        None => candidate,
    }
}

/// The number of logical cores of this machine.
///
/// Not proved: the number is what `num_cpus::get` finds, and nothing is
/// claimed of it.
#[verifier::external_body]
fn detected_cores() -> (cores: usize) {
    num_cpus::get()
}

/// Size of the main pool on this machine.
pub fn get_main_workers_limit() -> (limit: usize)
    ensures
        1 <= limit,
        exists|detected: usize| limit == spec_main_limit(detected as int),
{
    main_limit_for(detected_cores())
}

/// Size of a sub pool on this machine. `usage` is the load of the machine as
/// it was sampled for this call, or `None` where none was sampled; a sample
/// is of use only where [`boost_applies`].
pub fn get_sub_workers_limit(boost: Percent, usage: Option<Percent>) -> (limit: usize)
    ensures
        1 <= limit <= 14,
        exists|detected: usize| limit == spec_sub_limit(detected as int, boost.bits, usage),
{
    sub_limit_for(detected_cores(), boost, usage)
}

} // verus!
