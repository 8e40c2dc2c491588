use vstd::prelude::*;

use itertools::Itertools;

use crate::abstract_instructions::flatten_blocks;
use crate::abstract_instructions::lemma_flatten_blocks_multiset;
use crate::abstract_instructions::InstructionBlock;
use crate::encodings::SerializeAMD64MachineCode;
use crate::instructions_x86_64::Instruction;
use crate::optimize::copy_blocks;
use crate::optimize::mask_elems;

verus! {

/// The byte encoding of the timestamp-read instruction used to frame
/// each candidate program.
pub open spec fn rdtsc_bytes() -> Seq<u8> {
    seq![0x0fu8, 0x31u8]
}

/// The byte encoding of the return instruction that ends each
/// candidate program.
pub open spec fn ret_bytes() -> Seq<u8> {
    seq![0xc3u8]
}

/// The machine code a sequence of blocks contributes, in order.
/// Per-block lane-permute emission is an acknowledged gap, so every
/// block contributes its (currently empty) encoding.
pub open spec fn blocks_bytes(bs: Seq<InstructionBlock>) -> Seq<u8>
    decreases bs.len(),
{
    if bs.len() == 0 {
        Seq::empty()
    } else {
        bs[0].amd64_bytes() + blocks_bytes(bs.drop_first())
    }
}

/// The full candidate program for one ordering of blocks: a timestamp
/// read, the blocks' code in order, a timestamp read, and a return.
pub open spec fn program_bytes(bs: Seq<InstructionBlock>) -> Seq<u8> {
    rdtsc_bytes() + blocks_bytes(bs) + rdtsc_bytes() + ret_bytes()
}

/// Block bytes distribute over appending one block at the end.
proof fn lemma_blocks_bytes_push(bs: Seq<InstructionBlock>, b: InstructionBlock)
    ensures
        blocks_bytes(bs.push(b)) == blocks_bytes(bs) + b.amd64_bytes(),
    decreases bs.len(),
{
    if bs.len() == 0 {
        assert(bs.push(b)[0] == b);
        assert(bs.push(b).drop_first() =~= Seq::<InstructionBlock>::empty());
        assert(blocks_bytes(Seq::<InstructionBlock>::empty()) == Seq::<u8>::empty());
        assert(blocks_bytes(bs.push(b)) == b.amd64_bytes() + blocks_bytes(
            Seq::<InstructionBlock>::empty(),
        ));
        assert(blocks_bytes(bs.push(b)) =~= blocks_bytes(bs) + b.amd64_bytes());
    } else {
        assert(bs.push(b)[0] == bs[0]);
        assert(bs.push(b).drop_first() =~= bs.drop_first().push(b));
        lemma_blocks_bytes_push(bs.drop_first(), b);
        assert(blocks_bytes(bs.push(b)) == bs[0].amd64_bytes() + blocks_bytes(
            bs.drop_first().push(b),
        ));
        assert(blocks_bytes(bs) == bs[0].amd64_bytes() + blocks_bytes(bs.drop_first()));
        assert(blocks_bytes(bs.push(b)) =~= blocks_bytes(bs) + b.amd64_bytes());
    }
}

/// Assembles the full candidate program for one ordering of blocks.
pub fn assemble_program(blocks: &Vec<InstructionBlock>) -> (r: Vec<u8>)
    ensures
        r@ == program_bytes(blocks@),
{
    let mut program: Vec<u8> = Vec::new();
    Instruction::RDTSC.write_amd64_bytes(&mut program);
    proof {
        assert(program@ =~= rdtsc_bytes());
    }
    let mut i: usize = 0;
    while i < blocks.len()
        invariant
            i <= blocks@.len(),
            program@ == rdtsc_bytes() + blocks_bytes(blocks@.subrange(0, i as int)),
        decreases blocks@.len() - i,
    {
        let ghost before = program@;
        blocks[i].write_amd64_bytes(&mut program);
        proof {
            assert(blocks@.subrange(0, i + 1 as int) =~= blocks@.subrange(0, i as int).push(
                blocks@[i as int],
            ));
            lemma_blocks_bytes_push(blocks@.subrange(0, i as int), blocks@[i as int]);
            assert(program@ =~= rdtsc_bytes() + blocks_bytes(blocks@.subrange(0, i + 1 as int)));
        }
        i = i + 1;
    }
    proof {
        assert(blocks@.subrange(0, blocks@.len() as int) =~= blocks@);
    }
    Instruction::RDTSC.write_amd64_bytes(&mut program);
    Instruction::RET.write_amd64_bytes(&mut program);
    proof {
        assert(program@ =~= program_bytes(blocks@));
    }
    program
}

/// Relies on itertools' `permutations`: asked for orderings of the
/// sequence's full length, it yields reorderings that hold exactly the
/// original items, and every such reordering appears among them (it
/// walks all permutations of the item positions).
#[verifier::external_body]
fn block_orderings(blocks: &Vec<InstructionBlock>) -> (r: Vec<Vec<InstructionBlock>>)
    ensures
        forall|i: int| 0 <= i < r@.len() ==> (#[trigger] r@[i])@.to_multiset()
            == blocks@.to_multiset(),
        forall|s: Seq<InstructionBlock>|
            #[trigger] s.to_multiset() == blocks@.to_multiset() ==> exists|i: int|
                0 <= i < r@.len() && (#[trigger] r@[i])@ == s,
{
    blocks.iter().cloned().permutations(blocks.len()).collect()
}

/// Enumerates every ordering of the given blocks, each paired with its
/// assembled candidate program. Every ordering holds exactly the
/// original blocks, every reordering of the blocks appears, and every
/// program is the framed encoding of its ordering.
pub fn candidate_programs(blocks: &Vec<InstructionBlock>) -> (r: Vec<
    (Vec<InstructionBlock>, Vec<u8>),
>)
    ensures
        forall|i: int| 0 <= i < r@.len() ==> (#[trigger] r@[i]).0@.to_multiset()
            == blocks@.to_multiset(),
        forall|i: int| 0 <= i < r@.len() ==> (#[trigger] r@[i]).1@ == program_bytes(r@[i].0@),
        forall|s: Seq<InstructionBlock>|
            #[trigger] s.to_multiset() == blocks@.to_multiset() ==> exists|i: int|
                0 <= i < r@.len() && (#[trigger] r@[i]).0@ == s,
{
    let orderings = block_orderings(blocks);
    let mut r: Vec<(Vec<InstructionBlock>, Vec<u8>)> = Vec::new();
    let mut i: usize = 0;
    while i < orderings.len()
        invariant
            i <= orderings@.len(),
            r@.len() == i,
            forall|j: int| 0 <= j < orderings@.len() ==> (#[trigger] orderings@[j])@.to_multiset()
                == blocks@.to_multiset(),
            forall|j: int| 0 <= j < i ==> (#[trigger] r@[j]).0@.to_multiset()
                == blocks@.to_multiset(),
            forall|j: int| 0 <= j < i ==> (#[trigger] r@[j]).1@ == program_bytes(r@[j].0@),
            forall|j: int| 0 <= j < i ==> (#[trigger] r@[j]).0@ == (#[trigger] orderings@[j])@,
        decreases orderings@.len() - i,
    {
        let ordering = copy_blocks(&orderings[i]);
        let program = assemble_program(&ordering);
        r.push((ordering, program));
        i = i + 1;
    }
    proof {
        assert forall|s: Seq<InstructionBlock>|
            #[trigger] s.to_multiset() == blocks@.to_multiset() implies exists|j: int|
            0 <= j < r@.len() && (#[trigger] r@[j]).0@ == s by {
            let j = choose|j: int| 0 <= j < orderings@.len() && (#[trigger] orderings@[j])@ == s;
            assert(r@[j].0@ == s);
        }
    }
    r
}

/// The search invariant: every explored ordering of a block cover of
/// a mask still holds exactly the mask's elements. Reordering changes
/// the instruction sequence, never the element content.
pub proof fn lemma_search_invariant(
    blocks: Seq<InstructionBlock>,
    ordering: Seq<InstructionBlock>,
    vals: Seq<u32>,
)
    requires
        flatten_blocks(blocks) == mask_elems(vals),
        ordering.to_multiset() == blocks.to_multiset(),
    ensures
        flatten_blocks(ordering).to_multiset() == mask_elems(vals).to_multiset(),
{
    lemma_flatten_blocks_multiset(ordering, blocks);
}

} // verus!
