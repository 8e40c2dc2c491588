use vstd::prelude::*;

pub mod eight;
pub mod four;
pub mod single;
pub mod sixteen;

use crate::abstract_instructions::eight::eight_elems;
use crate::abstract_instructions::eight::EightInstruction;
use crate::abstract_instructions::four::four_elems;
use crate::abstract_instructions::four::FourInstruction;
use crate::abstract_instructions::single::SingleInstruction;
use crate::abstract_instructions::sixteen::sixteen_elems;
use crate::abstract_instructions::sixteen::SixteenInstruction;
use crate::encodings::Architecture;
use crate::encodings::CEncoder;
use crate::encodings::SerializeAMD64MachineCode;

verus! {

/// A block of the instruction hierarchy: one element, or a composite
/// of width 4, 8 or 16. Flattening a block yields its elements in the
/// original left-to-right order.
#[derive(Clone, Copy, PartialEq, Eq, Structural, Debug)]
pub enum InstructionBlock {
    Single(SingleInstruction),
    Four(FourInstruction),
    Eight(EightInstruction),
    Sixteen(SixteenInstruction),
}

/// The logical width of a block: how many elements it covers.
pub open spec fn block_len(b: InstructionBlock) -> int {
    match b {
        InstructionBlock::Single(_) => 1,
        InstructionBlock::Four(_) => 4,
        InstructionBlock::Eight(_) => 8,
        InstructionBlock::Sixteen(_) => 16,
    }
}

/// The elements of one block, in original left-to-right order.
pub open spec fn block_elems(b: InstructionBlock) -> Seq<SingleInstruction> {
    match b {
        InstructionBlock::Single(s) => seq![s],
        InstructionBlock::Four(f) => four_elems(f),
        InstructionBlock::Eight(e) => eight_elems(e),
        InstructionBlock::Sixteen(s) => sixteen_elems(s),
    }
}

/// The elements of a sequence of blocks, concatenated left to right.
pub open spec fn flatten_blocks(bs: Seq<InstructionBlock>) -> Seq<SingleInstruction>
    decreases bs.len(),
{
    if bs.len() == 0 {
        Seq::empty()
    } else {
        block_elems(bs[0]) + flatten_blocks(bs.drop_first())
    }
}

/// The least value of `f` over a non-empty element sequence.
pub open spec fn seq_min_by(s: Seq<SingleInstruction>, f: spec_fn(SingleInstruction) -> int) -> int
    recommends
        s.len() > 0,
    decreases s.len(),
{
    if s.len() <= 1 {
        f(s[0])
    } else {
        let m = seq_min_by(s.drop_last(), f);
        if f(s.last()) < m {
            f(s.last())
        } else {
            m
        }
    }
}

/// The greatest value of `f` over a non-empty element sequence.
pub open spec fn seq_max_by(s: Seq<SingleInstruction>, f: spec_fn(SingleInstruction) -> int) -> int
    recommends
        s.len() > 0,
    decreases s.len(),
{
    if s.len() <= 1 {
        f(s[0])
    } else {
        let m = seq_max_by(s.drop_last(), f);
        if f(s.last()) > m {
            f(s.last())
        } else {
            m
        }
    }
}

/// The minimum is attained by some element and bounds every element.
pub proof fn lemma_seq_min_by_bounds(s: Seq<SingleInstruction>, f: spec_fn(SingleInstruction) -> int)
    requires
        s.len() > 0,
    ensures
        exists|i: int| 0 <= i < s.len() && f(s[i]) == seq_min_by(s, f),
        forall|i: int| 0 <= i < s.len() ==> seq_min_by(s, f) <= f(s[i]),
    decreases s.len(),
{
    let d = s.drop_last();
    if s.len() == 1 {
        assert(f(s[0]) == seq_min_by(s, f));
    } else {
        lemma_seq_min_by_bounds(d, f);
        let m = seq_min_by(d, f);
        let i0 = choose|i: int| 0 <= i < d.len() && f(d[i]) == m;
        assert(d[i0] == s[i0]);
        if f(s.last()) < m {
            assert(f(s[s.len() - 1]) == seq_min_by(s, f));
        } else {
            assert(f(s[i0]) == seq_min_by(s, f));
        }
        assert forall|i: int| 0 <= i < s.len() implies seq_min_by(s, f) <= f(s[i]) by {
            if i < s.len() - 1 {
                assert(d[i] == s[i]);
            }
        }
    }
}

/// The maximum is attained by some element and bounds every element.
pub proof fn lemma_seq_max_by_bounds(s: Seq<SingleInstruction>, f: spec_fn(SingleInstruction) -> int)
    requires
        s.len() > 0,
    ensures
        exists|i: int| 0 <= i < s.len() && f(s[i]) == seq_max_by(s, f),
        forall|i: int| 0 <= i < s.len() ==> f(s[i]) <= seq_max_by(s, f),
    decreases s.len(),
{
    let d = s.drop_last();
    if s.len() == 1 {
        assert(f(s[0]) == seq_max_by(s, f));
    } else {
        lemma_seq_max_by_bounds(d, f);
        let m = seq_max_by(d, f);
        let i0 = choose|i: int| 0 <= i < d.len() && f(d[i]) == m;
        assert(d[i0] == s[i0]);
        if f(s.last()) > m {
            assert(f(s[s.len() - 1]) == seq_max_by(s, f));
        } else {
            assert(f(s[i0]) == seq_max_by(s, f));
        }
        assert forall|i: int| 0 <= i < s.len() implies f(s[i]) <= seq_max_by(s, f) by {
            if i < s.len() - 1 {
                assert(d[i] == s[i]);
            }
        }
    }
}

/// A value attained by some element that bounds every element from
/// below is the minimum.
pub proof fn lemma_seq_min_by_unique(
    s: Seq<SingleInstruction>,
    f: spec_fn(SingleInstruction) -> int,
    x: int,
)
    requires
        s.len() > 0,
        exists|i: int| 0 <= i < s.len() && f(s[i]) == x,
        forall|i: int| 0 <= i < s.len() ==> x <= f(s[i]),
    ensures
        seq_min_by(s, f) == x,
{
    lemma_seq_min_by_bounds(s, f);
}

/// A value attained by some element that bounds every element from
/// above is the maximum.
pub proof fn lemma_seq_max_by_unique(
    s: Seq<SingleInstruction>,
    f: spec_fn(SingleInstruction) -> int,
    x: int,
)
    requires
        s.len() > 0,
        exists|i: int| 0 <= i < s.len() && f(s[i]) == x,
        forall|i: int| 0 <= i < s.len() ==> f(s[i]) <= x,
    ensures
        seq_max_by(s, f) == x,
{
    lemma_seq_max_by_bounds(s, f);
}

/// The projection reading an element's source index.
pub open spec fn src_of() -> spec_fn(SingleInstruction) -> int {
    |e: SingleInstruction| e.index as int
}

/// The projection reading an element's destination slot.
pub open spec fn dst_of() -> spec_fn(SingleInstruction) -> int {
    |e: SingleInstruction| e.value as int
}

/// Least source index among the elements: the base address of the one
/// contiguous load that can feed the whole block.
pub open spec fn min_src(s: Seq<SingleInstruction>) -> int {
    seq_min_by(s, src_of())
}

/// Greatest source index among the elements.
pub open spec fn max_src(s: Seq<SingleInstruction>) -> int {
    seq_max_by(s, src_of())
}

/// Least destination slot among the elements: the base address of the
/// one contiguous store that can drain the whole block.
pub open spec fn min_dst(s: Seq<SingleInstruction>) -> int {
    seq_min_by(s, dst_of())
}

/// Greatest destination slot among the elements.
pub open spec fn max_dst(s: Seq<SingleInstruction>) -> int {
    seq_max_by(s, dst_of())
}

/// Flattening distributes over appending one block at the end.
pub proof fn lemma_flatten_blocks_push(bs: Seq<InstructionBlock>, b: InstructionBlock)
    ensures
        flatten_blocks(bs.push(b)) == flatten_blocks(bs) + block_elems(b),
    decreases bs.len(),
{
    if bs.len() == 0 {
        assert(bs.push(b)[0] == b);
        assert(bs.push(b).drop_first() =~= Seq::<InstructionBlock>::empty());
        assert(flatten_blocks(bs.push(b)) == block_elems(b) + flatten_blocks(
            Seq::<InstructionBlock>::empty(),
        ));
        assert(flatten_blocks(bs.push(b)) =~= flatten_blocks(bs) + block_elems(b));
    } else {
        assert(bs.push(b)[0] == bs[0]);
        assert(bs.push(b).drop_first() =~= bs.drop_first().push(b));
        lemma_flatten_blocks_push(bs.drop_first(), b);
        assert(flatten_blocks(bs.push(b)) == block_elems(bs[0]) + flatten_blocks(
            bs.drop_first().push(b),
        ));
        assert(flatten_blocks(bs.push(b)) =~= flatten_blocks(bs) + block_elems(b));
    }
}

/// Flattening distributes over concatenation of block sequences.
pub proof fn lemma_flatten_blocks_concat(s1: Seq<InstructionBlock>, s2: Seq<InstructionBlock>)
    ensures
        flatten_blocks(s1 + s2) == flatten_blocks(s1) + flatten_blocks(s2),
    decreases s1.len(),
{
    if s1.len() == 0 {
        assert(s1 + s2 =~= s2);
        assert(flatten_blocks(s1 + s2) =~= flatten_blocks(s1) + flatten_blocks(s2));
    } else {
        assert((s1 + s2).drop_first() =~= s1.drop_first() + s2);
        lemma_flatten_blocks_concat(s1.drop_first(), s2);
        assert(flatten_blocks(s1 + s2) =~= flatten_blocks(s1) + flatten_blocks(s2));
    }
}

impl InstructionBlock {
    /// Logical width of the block: 1, 4, 8 or 16.
    pub fn len(&self) -> (r: usize)
        ensures
            r == block_len(*self),
    {
        match self {
            InstructionBlock::Single(_) => 1,
            InstructionBlock::Four(_) => 4,
            InstructionBlock::Eight(_) => 8,
            InstructionBlock::Sixteen(_) => 16,
        }
    }

    /// The pairing of source index to destination slot for each element
    /// of this block, in original order.
    pub fn flatten(&self) -> (r: Vec<SingleInstruction>)
        ensures
            r@ == block_elems(*self),
    {
        let mut r: Vec<SingleInstruction> = Vec::new();
        match self {
            InstructionBlock::Single(s) => {
                r.push(*s);
            },
            InstructionBlock::Four(f) => {
                r.push(f.value1);
                r.push(f.value2);
                r.push(f.value3);
                r.push(f.value4);
            },
            InstructionBlock::Eight(e) => {
                r.push(e.value1.value1);
                r.push(e.value1.value2);
                r.push(e.value1.value3);
                r.push(e.value1.value4);
                r.push(e.value2.value1);
                r.push(e.value2.value2);
                r.push(e.value2.value3);
                r.push(e.value2.value4);
            },
            InstructionBlock::Sixteen(s) => {
                r.push(s.value1.value1.value1);
                r.push(s.value1.value1.value2);
                r.push(s.value1.value1.value3);
                r.push(s.value1.value1.value4);
                r.push(s.value1.value2.value1);
                r.push(s.value1.value2.value2);
                r.push(s.value1.value2.value3);
                r.push(s.value1.value2.value4);
                r.push(s.value2.value1.value1);
                r.push(s.value2.value1.value2);
                r.push(s.value2.value1.value3);
                r.push(s.value2.value1.value4);
                r.push(s.value2.value2.value1);
                r.push(s.value2.value2.value2);
                r.push(s.value2.value2.value3);
                r.push(s.value2.value2.value4);
            },
        }
        proof {
            assert(r@ =~= block_elems(*self));
        }
        r
    }
}


/// The width-4 block whose children are the first four of `es`, by
/// position.
pub open spec fn four_from_elems(es: Seq<SingleInstruction>) -> FourInstruction {
    FourInstruction { value1: es[0], value2: es[1], value3: es[2], value4: es[3] }
}

/// The width-8 block whose halves are built from `es` by position.
pub open spec fn eight_from_elems(es: Seq<SingleInstruction>) -> EightInstruction {
    EightInstruction {
        value1: four_from_elems(es.subrange(0, 4)),
        value2: four_from_elems(es.subrange(4, 8)),
    }
}

/// The width-16 block whose halves are built from `es` by position.
pub open spec fn sixteen_from_elems(es: Seq<SingleInstruction>) -> SixteenInstruction {
    SixteenInstruction {
        value1: eight_from_elems(es.subrange(0, 8)),
        value2: eight_from_elems(es.subrange(8, 16)),
    }
}

/// A block of the same width as `b`, rebuilt by position from `b`'s own
/// flattened elements.
pub open spec fn rebuild_block(b: InstructionBlock) -> InstructionBlock {
    let es = block_elems(b);
    match b {
        InstructionBlock::Single(_) => InstructionBlock::Single(es[0]),
        InstructionBlock::Four(_) => InstructionBlock::Four(four_from_elems(es)),
        InstructionBlock::Eight(_) => InstructionBlock::Eight(eight_from_elems(es)),
        InstructionBlock::Sixteen(_) => InstructionBlock::Sixteen(sixteen_from_elems(es)),
    }
}

/// Round trip: flattening a block and rebuilding a block of the same
/// width from those elements by position gives back the identical
/// block, and so the identical ordered element sequence.
pub proof fn lemma_block_round_trip(b: InstructionBlock)
    ensures
        rebuild_block(b) == b,
        block_elems(rebuild_block(b)) == block_elems(b),
{
    match b {
        InstructionBlock::Single(s) => {
        },
        InstructionBlock::Four(f) => {
            assert(four_from_elems(four_elems(f)) == f);
        },
        InstructionBlock::Eight(e) => {
            let es = eight_elems(e);
            assert(es.subrange(0, 4) =~= four_elems(e.value1));
            assert(es.subrange(4, 8) =~= four_elems(e.value2));
            assert(four_from_elems(four_elems(e.value1)) == e.value1);
            assert(four_from_elems(four_elems(e.value2)) == e.value2);
        },
        InstructionBlock::Sixteen(s) => {
            let es = sixteen_elems(s);
            let e1 = eight_elems(s.value1);
            let e2 = eight_elems(s.value2);
            assert(es.subrange(0, 8) =~= e1);
            assert(es.subrange(8, 16) =~= e2);
            assert(es.subrange(0, 8).subrange(0, 4) =~= four_elems(s.value1.value1));
            assert(es.subrange(0, 8).subrange(4, 8) =~= four_elems(s.value1.value2));
            assert(es.subrange(8, 16).subrange(0, 4) =~= four_elems(s.value2.value1));
            assert(es.subrange(8, 16).subrange(4, 8) =~= four_elems(s.value2.value2));
            assert(eight_from_elems(es.subrange(0, 8)) == s.value1);
            assert(eight_from_elems(es.subrange(8, 16)) == s.value2);
        },
    }
}

/// Removing one block from a sequence removes exactly that block's
/// elements from the flattening.
pub proof fn lemma_flatten_blocks_remove(s: Seq<InstructionBlock>, j: int)
    requires
        0 <= j < s.len(),
    ensures
        flatten_blocks(s).to_multiset() == block_elems(s[j]).to_multiset().add(
            flatten_blocks(s.remove(j)).to_multiset(),
        ),
    decreases j,
{
    broadcast use vstd::seq_lib::group_to_multiset_ensures;
    broadcast use vstd::multiset::group_multiset_axioms;

    if j == 0 {
        assert(s.remove(0) =~= s.drop_first());
        vstd::seq_lib::lemma_multiset_commutative(block_elems(s[0]), flatten_blocks(s.drop_first()));
    } else {
        let d = s.drop_first();
        assert(s.remove(j).len() == s.len() - 1);
        assert(s.remove(j)[0] == s[0]);
        assert(s.remove(j).drop_first() =~= d.remove(j - 1));
        lemma_flatten_blocks_remove(d, j - 1);
        assert(d[j - 1] == s[j]);
        vstd::seq_lib::lemma_multiset_commutative(block_elems(s[0]), flatten_blocks(d));
        vstd::seq_lib::lemma_multiset_commutative(
            block_elems(s[0]),
            flatten_blocks(d.remove(j - 1)),
        );
        assert(flatten_blocks(s).to_multiset() =~= block_elems(s[j]).to_multiset().add(
            flatten_blocks(s.remove(j)).to_multiset(),
        ));
    }
}

/// The search invariant: reordering a block sequence changes only the
/// instruction order, never the element content. The flattening of any
/// reordering holds exactly the elements of the original flattening.
pub proof fn lemma_flatten_blocks_multiset(s1: Seq<InstructionBlock>, s2: Seq<InstructionBlock>)
    requires
        s1.to_multiset() == s2.to_multiset(),
    ensures
        flatten_blocks(s1).to_multiset() == flatten_blocks(s2).to_multiset(),
    decreases s1.len(),
{
    broadcast use vstd::seq_lib::group_to_multiset_ensures;
    broadcast use vstd::multiset::group_multiset_axioms;

    assert(s1.to_multiset().len() == s1.len());
    assert(s2.to_multiset().len() == s2.len());
    if s1.len() > 0 {
        let b = s1[0];
        assert(s1.contains(b));
        assert(s2.to_multiset().count(b) > 0);
        assert(s2.contains(b));
        let j = choose|j: int| 0 <= j < s2.len() && s2[j] == b;
        let s2r = s2.remove(j);
        assert(s1.remove(0) =~= s1.drop_first());
        assert(s1.remove(0).to_multiset() == s1.to_multiset().remove(b));
        assert(s2.remove(j).to_multiset() == s2.to_multiset().remove(b));
        lemma_flatten_blocks_multiset(s1.drop_first(), s2r);
        vstd::seq_lib::lemma_multiset_commutative(block_elems(b), flatten_blocks(s1.drop_first()));
        lemma_flatten_blocks_remove(s2, j);
        assert(flatten_blocks(s1).to_multiset() =~= flatten_blocks(s2).to_multiset());
    }
}

/// Sequences holding the same elements have the same extrema under any
/// projection `f`.
pub proof fn lemma_seq_extrema_multiset(
    s1: Seq<SingleInstruction>,
    s2: Seq<SingleInstruction>,
    f: spec_fn(SingleInstruction) -> int,
)
    requires
        s1.len() > 0,
        s1.to_multiset() == s2.to_multiset(),
    ensures
        seq_min_by(s1, f) == seq_min_by(s2, f),
        seq_max_by(s1, f) == seq_max_by(s2, f),
{
    broadcast use vstd::seq_lib::group_to_multiset_ensures;
    broadcast use vstd::multiset::group_multiset_axioms;

    assert(s1.to_multiset().len() == s1.len());
    assert(s2.to_multiset().len() == s2.len());
    lemma_seq_min_by_bounds(s1, f);
    lemma_seq_max_by_bounds(s1, f);
    let imin = choose|i: int| 0 <= i < s1.len() && f(s1[i]) == seq_min_by(s1, f);
    assert(s1.contains(s1[imin]));
    assert(s1.to_multiset().count(s1[imin]) > 0);
    assert(s2.to_multiset().count(s1[imin]) > 0);
    assert(s2.contains(s1[imin]));
    let jmin = choose|j: int| 0 <= j < s2.len() && s2[j] == s1[imin];
    assert(f(s2[jmin]) == seq_min_by(s1, f));
    assert forall|j: int| 0 <= j < s2.len() implies seq_min_by(s1, f) <= f(s2[j]) by {
        assert(s2.contains(s2[j]));
        assert(s2.to_multiset().count(s2[j]) > 0);
        assert(s1.to_multiset().count(s2[j]) > 0);
        assert(s1.contains(s2[j]));
        let i = choose|i: int| 0 <= i < s1.len() && s1[i] == s2[j];
        assert(seq_min_by(s1, f) <= f(s1[i]));
    }
    lemma_seq_min_by_unique(s2, f, seq_min_by(s1, f));
    let imax = choose|i: int| 0 <= i < s1.len() && f(s1[i]) == seq_max_by(s1, f);
    assert(s1.contains(s1[imax]));
    assert(s1.to_multiset().count(s1[imax]) > 0);
    assert(s2.to_multiset().count(s1[imax]) > 0);
    assert(s2.contains(s1[imax]));
    let jmax = choose|j: int| 0 <= j < s2.len() && s2[j] == s1[imax];
    assert(f(s2[jmax]) == seq_max_by(s1, f));
    assert forall|j: int| 0 <= j < s2.len() implies f(s2[j]) <= seq_max_by(s1, f) by {
        assert(s2.contains(s2[j]));
        assert(s2.to_multiset().count(s2[j]) > 0);
        assert(s1.to_multiset().count(s2[j]) > 0);
        assert(s1.contains(s2[j]));
        let i = choose|i: int| 0 <= i < s1.len() && s1[i] == s2[j];
        assert(f(s1[i]) <= seq_max_by(s1, f));
    }
    lemma_seq_max_by_unique(s2, f, seq_max_by(s1, f));
}

impl CEncoder for InstructionBlock {
    open spec fn c_text(&self, index: int, arch: Architecture) -> Seq<char> {
        match *self {
            InstructionBlock::Single(i) => i.c_text(index, arch),
            InstructionBlock::Four(i) => i.c_text(index, arch),
            InstructionBlock::Eight(i) => i.c_text(index, arch),
            InstructionBlock::Sixteen(i) => i.c_text(index, arch),
        }
    }

    fn encode_to_c(&self, index: u32, arch: Architecture) -> (r: String) {
        match self {
            InstructionBlock::Single(i) => i.encode_to_c(index, arch),
            InstructionBlock::Four(i) => i.encode_to_c(index, arch),
            InstructionBlock::Eight(i) => i.encode_to_c(index, arch),
            InstructionBlock::Sixteen(i) => i.encode_to_c(index, arch),
        }
    }
}

impl SerializeAMD64MachineCode for InstructionBlock {
    open spec fn amd64_encodable(&self) -> bool {
        true
    }

    open spec fn amd64_bytes(&self) -> Seq<u8> {
        match *self {
            InstructionBlock::Single(i) => i.amd64_bytes(),
            InstructionBlock::Four(i) => i.amd64_bytes(),
            InstructionBlock::Eight(i) => i.amd64_bytes(),
            InstructionBlock::Sixteen(i) => i.amd64_bytes(),
        }
    }

    fn write_amd64_bytes(&self, bytes: &mut Vec<u8>) {
        match self {
            InstructionBlock::Single(i) => i.write_amd64_bytes(bytes),
            InstructionBlock::Four(i) => i.write_amd64_bytes(bytes),
            InstructionBlock::Eight(i) => i.write_amd64_bytes(bytes),
            InstructionBlock::Sixteen(i) => i.write_amd64_bytes(bytes),
        }
    }
}

} // verus!
