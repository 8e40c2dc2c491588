use vstd::prelude::*;

use crate::optimize::permute_spec;
use crate::optimize::ShiftMask;

verus! {

/// The canonical oracle input of a given length: the values 1 through `len`.
pub open spec fn canonical_seq(len: int) -> Seq<u32> {
    Seq::new(len as nat, |i: int| (i + 1) as u32)
}

/// Builds the canonical input sequence handed to generated programs.
pub fn canonical_input(len: usize) -> (r: Vec<u32>)
    requires
        len < u32::MAX,
    ensures
        r@ == canonical_seq(len as int),
{
    let mut r: Vec<u32> = Vec::new();
    let mut i: usize = 0;
    while i < len
        invariant
            i <= len,
            len < u32::MAX,
            r@.len() == i,
            forall|j: int| 0 <= j < i ==> r@[j] == j + 1,
        decreases len - i,
    {
        r.push((i + 1) as u32);
        i = i + 1;
    }
    proof {
        assert(r@ =~= canonical_seq(len as int));
    }
    r
}

/// The software reference's verdict on what a candidate program wrote
/// to the destination buffer: the run is correct exactly when the
/// buffer equals the mask applied to the canonical input.
pub fn is_correct_output(shift: &ShiftMask, actual: &Vec<u32>) -> (r: bool)
    requires
        shift@.len() < u32::MAX,
        forall|i: int| 0 <= i < shift@.len() ==> shift@[i] < shift@.len(),
    ensures
        r == (actual@ == permute_spec(shift@, canonical_seq(shift@.len() as int))),
{
    let permute_in = canonical_input(shift.len());
    let permute_out = shift.permute_array_by_mask(&permute_in);
    let ghost expected = permute_spec(shift@, canonical_seq(shift@.len() as int));
    if permute_out.len() != actual.len() {
        return false;
    }
    let mut i: usize = 0;
    while i < permute_out.len()
        invariant
            i <= permute_out@.len(),
            permute_out@.len() == actual@.len(),
            permute_out@ == expected,
            expected == permute_spec(shift@, canonical_seq(shift@.len() as int)),
            forall|j: int| 0 <= j < i ==> permute_out@[j] == actual@[j],
        decreases permute_out@.len() - i,
    {
        if permute_out[i] != actual[i] {
            return false;
        }
        i = i + 1;
    }
    proof {
        assert(permute_out@ =~= actual@);
    }
    true
}

} // verus!
