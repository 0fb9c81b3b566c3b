//! The order of a paired benchmark: blocks of four trials in the order
//! baseline, candidate, candidate, baseline or its mirror image, and the pairs
//! that are compared.
use vstd::prelude::*;

verus! {

/// What the trials claim.
pub const CLAIM: &'static str = "Host quantization only. Same-power paired observations do not establish full-model startup or decode speedup.";

/// What the trials work on.
pub const WORKLOAD: &'static str = "Synthetic deterministic FP16 weights; one input allocation reused as gate/up/down; real Gemma 4 12B matrix dimensions; conversion/packing/ANE excluded";

/// The next value of the generator that makes the synthetic weights.
pub fn next_random(random: u64) -> (r: u64)
    ensures
        r == random.wrapping_mul(6364136223846793005).wrapping_add(1),
{
    random.wrapping_mul(6364136223846793005).wrapping_add(1)
}

/// Whether a trial of a block runs the candidate.
pub open spec fn runs_candidate(block: int, trial: int) -> bool {
    (trial == 1 || trial == 2) == (block % 2 == 0)
}

/// The trials of a block, in order.
pub fn block_order(block: usize) -> (r: [bool; 4])
    ensures
        forall|i: int| 0 <= i < 4 ==> #[trigger] r@[i] == runs_candidate(block as int, i),
{
    if block % 2 == 0 {
        [false, true, true, false]
    } else {
        [true, false, false, true]
    }
}

/// A baseline trial and the candidate trial that it is compared with.
#[derive(Clone, Copy, Debug, PartialEq, Eq, Structural)]
pub struct Pairing {
    pub baseline: usize,
    pub candidate: usize,
}

/// The two pairs of a block whose trials begin at `start`: its first two trials,
/// and its last two.
pub fn block_pairs(block: usize, start: usize) -> (r: (Pairing, Pairing))
    requires
        start + 4 <= usize::MAX,
    ensures
        !runs_candidate(block as int, r.0.baseline - start),
        runs_candidate(block as int, r.0.candidate - start),
        !runs_candidate(block as int, r.1.baseline - start),
        runs_candidate(block as int, r.1.candidate - start),
        (r.0.baseline == start && r.0.candidate == start + 1) || (r.0.baseline == start + 1
            && r.0.candidate == start),
        (r.1.baseline == start + 3 && r.1.candidate == start + 2) || (r.1.baseline == start + 2
            && r.1.candidate == start + 3),
{
    let order = block_order(block);
    let first = if order[0] {
        Pairing { baseline: start + 1, candidate: start }
    } else {
        Pairing { baseline: start, candidate: start + 1 }
    };
    let second = if order[3] {
        Pairing { baseline: start + 2, candidate: start + 3 }
    } else {
        Pairing { baseline: start + 3, candidate: start + 2 }
    };
    (first, second)
}

/// Every block runs the baseline twice and the candidate twice, first and last
/// alike, so that a drift over time favours neither.
pub proof fn blocks_are_balanced(block: int)
    ensures
        runs_candidate(block, 0) == runs_candidate(block, 3),
        runs_candidate(block, 1) == runs_candidate(block, 2),
        runs_candidate(block, 0) != runs_candidate(block, 1),
        runs_candidate(block, 0) != runs_candidate(block + 1, 0),
{
}

} // verus!
