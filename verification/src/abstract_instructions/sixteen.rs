use vstd::prelude::*;

use crate::abstract_instructions::eight::eight_elems;
use crate::abstract_instructions::eight::EightInstruction;
use crate::abstract_instructions::flatten_blocks;
use crate::abstract_instructions::four::FourInstruction;
use crate::abstract_instructions::lemma_flatten_blocks_push;
use crate::abstract_instructions::single::SingleInstruction;
use crate::abstract_instructions::InstructionBlock;
use crate::encodings::Architecture;
use crate::encodings::CEncoder;
use crate::encodings::SerializeAMD64MachineCode;

verus! {

/// A block of exactly sixteen elements, held as two width-8 halves.
/// Code generation for this width is an extension point and emits nothing.
#[derive(Clone, Copy, PartialEq, Eq, Structural, Debug)]
pub struct SixteenInstruction {
    pub value1: EightInstruction,
    pub value2: EightInstruction,
}

/// The sixteen elements of a width-16 block, in original left-to-right order.
pub open spec fn sixteen_elems(s: SixteenInstruction) -> Seq<SingleInstruction> {
    eight_elems(s.value1) + eight_elems(s.value2)
}

impl SixteenInstruction {
    pub fn new(value1: EightInstruction, value2: EightInstruction) -> (r: Self)
        ensures
            sixteen_elems(r) == eight_elems(value1) + eight_elems(value2),
    {
        Self { value1, value2 }
    }

    /// Builds a width-16 block from any run of blocks whose flattened
    /// element count is exactly sixteen; the two halves become its
    /// width-8 children.
    pub fn new_from_instr(instrs: Vec<InstructionBlock>) -> (r: Option<SixteenInstruction>)
        ensures
            r is Some <==> flatten_blocks(instrs@).len() == 16,
            r is Some ==> sixteen_elems(r->Some_0) == flatten_blocks(instrs@),
    {
        let mut full_vec: Vec<SingleInstruction> = Vec::new();
        let mut i: usize = 0;
        while i < instrs.len()
            invariant
                i <= instrs@.len(),
                full_vec@ == flatten_blocks(instrs@.subrange(0, i as int)),
            decreases instrs@.len() - i,
        {
            let mut cloned: Vec<SingleInstruction> = instrs[i].flatten();
            proof {
                assert(instrs@.subrange(0, i + 1 as int) =~= instrs@.subrange(0, i as int).push(
                    instrs@[i as int],
                ));
                lemma_flatten_blocks_push(instrs@.subrange(0, i as int), instrs@[i as int]);
            }
            full_vec.append(&mut cloned);
            i = i + 1;
        }
        proof {
            assert(instrs@.subrange(0, instrs@.len() as int) =~= instrs@);
        }
        if full_vec.len() != 16 {
            return None;
        }
        let r = SixteenInstruction::new(
            EightInstruction::new(
                FourInstruction::new(full_vec[0], full_vec[1], full_vec[2], full_vec[3]),
                FourInstruction::new(full_vec[4], full_vec[5], full_vec[6], full_vec[7]),
            ),
            EightInstruction::new(
                FourInstruction::new(full_vec[8], full_vec[9], full_vec[10], full_vec[11]),
                FourInstruction::new(full_vec[12], full_vec[13], full_vec[14], full_vec[15]),
            ),
        );
        proof {
            assert(sixteen_elems(r) =~= flatten_blocks(instrs@));
        }
        Some(r)
    }
}

impl CEncoder for SixteenInstruction {
    open spec fn c_text(&self, index: int, arch: Architecture) -> Seq<char> {
        Seq::empty()
    }

    fn encode_to_c(&self, _index: u32, _arch: Architecture) -> (r: String) {
        String::new()
    }
}

impl SerializeAMD64MachineCode for SixteenInstruction {
    open spec fn amd64_encodable(&self) -> bool {
        true
    }

    open spec fn amd64_bytes(&self) -> Seq<u8> {
        Seq::empty()
    }

    fn write_amd64_bytes(&self, bytes: &mut Vec<u8>) {
        proof {
            assert(bytes@ =~= old(bytes)@ + self.amd64_bytes());
        }
    }
}

} // verus!
