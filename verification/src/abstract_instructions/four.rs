use vstd::prelude::*;
use vstd::string::StringExecFns;

use crate::abstract_instructions::dst_of;
use crate::abstract_instructions::flatten_blocks;
use crate::abstract_instructions::lemma_seq_min_by_bounds;
use crate::abstract_instructions::lemma_seq_min_by_unique;
use crate::abstract_instructions::min_dst;
use crate::abstract_instructions::min_src;
use crate::abstract_instructions::single::SingleInstruction;
use crate::abstract_instructions::src_of;
use crate::abstract_instructions::InstructionBlock;
use crate::encodings::dec_str;
use crate::encodings::u64_to_dec;
use crate::encodings::Architecture;
use crate::encodings::CEncoder;
use crate::encodings::SerializeAMD64MachineCode;

verus! {

/// A block of exactly four elements, representable as one 4-lane
/// vector load / lane-permute / store when its elements are local
/// (see the locality predicate in the optimizer).
#[derive(Clone, Copy, PartialEq, Eq, Structural, Debug)]
pub struct FourInstruction {
    pub value1: SingleInstruction,
    pub value2: SingleInstruction,
    pub value3: SingleInstruction,
    pub value4: SingleInstruction,
}

/// The four elements of a width-4 block, in original left-to-right order.
pub open spec fn four_elems(f: FourInstruction) -> Seq<SingleInstruction> {
    seq![f.value1, f.value2, f.value3, f.value4]
}

/// The 2-bit lane selector for one destination slot `v` relative to the
/// block's first output slot `m`; selectors out of lane range contribute
/// nothing.
pub open spec fn lane_sel4(v: int, m: int) -> int {
    if 0 <= v - m <= 3 {
        v - m
    } else {
        0
    }
}

/// The 8-bit lane-permute control word of a width-4 block: the selector
/// of logical position `i` is packed at bit offset `2 * i`.
pub open spec fn four_mask(f: FourInstruction) -> int {
    let m = min_dst(four_elems(f));
    lane_sel4(f.value1.value as int, m) + 4 * lane_sel4(f.value2.value as int, m) + 16 * lane_sel4(
        f.value3.value as int,
        m,
    ) + 64 * lane_sel4(f.value4.value as int, m)
}

/// The C snippet of a width-4 block on the 64-bit x86 target: a masked
/// 4-lane load from the block's first input slot, an immediate lane
/// permute, and a masked store to the block's first output slot.
pub open spec fn four_c_text(f: FourInstruction, index: int) -> Seq<char> {
    "  __m128 valin"@ + dec_str(index as nat) + " = _mm_maskload_ps(&in["@ + dec_str(
        min_src(four_elems(f)) as nat,
    ) + "], quadmask);\n  __m128 valout"@ + dec_str(index as nat) + " = _mm_permute_ps(valin"@
        + dec_str(index as nat) + ", "@ + dec_str(four_mask(f) as nat) + ");\n  _mm_maskstore_ps(&out["@
        + dec_str(min_dst(four_elems(f)) as nat) + "], quadmask, valout"@ + dec_str(index as nat)
        + ");\n"@
}

impl FourInstruction {
    pub fn new(
        value1: SingleInstruction,
        value2: SingleInstruction,
        value3: SingleInstruction,
        value4: SingleInstruction,
    ) -> (r: Self)
        ensures
            four_elems(r) == seq![value1, value2, value3, value4],
    {
        let r = Self { value1, value2, value3, value4 };
        proof {
            assert(four_elems(r) =~= seq![value1, value2, value3, value4]);
        }
        r
    }

    /// Builds a width-4 block from exactly four width-1 blocks; any
    /// other shape is rejected.
    pub fn new_from_instr(instrs: Vec<InstructionBlock>) -> (r: Option<FourInstruction>)
        ensures
            r is Some <==> (instrs@.len() == 4 && forall|i: int|
                0 <= i < 4 ==> instrs@[i] is Single),
            r is Some ==> four_elems(r->Some_0) == flatten_blocks(instrs@),
    {
        if instrs.len() != 4 {
            return None;
        }
        let f1 = match instrs[0] {
            InstructionBlock::Single(s) => s,
            _ => { return None },
        };
        let f2 = match instrs[1] {
            InstructionBlock::Single(s) => s,
            _ => { return None },
        };
        let f3 = match instrs[2] {
            InstructionBlock::Single(s) => s,
            _ => { return None },
        };
        let f4 = match instrs[3] {
            InstructionBlock::Single(s) => s,
            _ => { return None },
        };
        let r = Self::new(f1, f2, f3, f4);
        proof {
            let s = instrs@;
            assert(s.drop_first().drop_first().drop_first().drop_first().len() == 0);
            reveal_with_fuel(flatten_blocks, 5);
            assert(four_elems(r) =~= flatten_blocks(s));
        }
        Some(r)
    }

    /// The minimum destination index of this block: the base address of
    /// the one contiguous store covering the whole block.
    pub fn get_first_output_index(&self) -> (r: u32)
        ensures
            r as int == min_dst(four_elems(*self)),
    {
        let mut smallest = u32::MAX;
        if self.value1.value < smallest {
            smallest = self.value1.value;
        }
        if self.value2.value < smallest {
            smallest = self.value2.value;
        }
        if self.value3.value < smallest {
            smallest = self.value3.value;
        }
        if self.value4.value < smallest {
            smallest = self.value4.value;
        }
        proof {
            let s = four_elems(*self);
            assert(s[0] == self.value1 && s[1] == self.value2 && s[2] == self.value3 && s[3]
                == self.value4);
            lemma_seq_min_by_unique(s, dst_of(), smallest as int);
        }
        smallest
    }

    /// The minimum source index of this block: the base address of the
    /// one contiguous load covering the whole block.
    pub fn get_first_input_index(&self) -> (r: u32)
        ensures
            r as int == min_src(four_elems(*self)),
    {
        let mut smallest = u32::MAX;
        if self.value1.index < smallest {
            smallest = self.value1.index;
        }
        if self.value2.index < smallest {
            smallest = self.value2.index;
        }
        if self.value3.index < smallest {
            smallest = self.value3.index;
        }
        if self.value4.index < smallest {
            smallest = self.value4.index;
        }
        proof {
            let s = four_elems(*self);
            assert(s[0] == self.value1 && s[1] == self.value2 && s[2] == self.value3 && s[3]
                == self.value4);
            lemma_seq_min_by_unique(s, src_of(), smallest as int);
        }
        smallest
    }

    /// Packs the four 2-bit lane selectors of this block into the
    /// 8-bit shuffle-immediate control word.
    pub fn get_permute_mask(&self) -> (r: u8)
        ensures
            r as int == four_mask(*self),
    {
        let first_out = self.get_first_output_index();
        proof {
            let s = four_elems(*self);
            assert(s[0] == self.value1 && s[1] == self.value2 && s[2] == self.value3 && s[3]
                == self.value4);
            lemma_seq_min_by_bounds(s, dst_of());
        }
        let d1 = self.value1.value - first_out;
        let d2 = self.value2.value - first_out;
        let d3 = self.value3.value - first_out;
        let d4 = self.value4.value - first_out;
        let s1: u8 = if d1 <= 3 {
            d1 as u8
        } else {
            0
        };
        let s2: u8 = if d2 <= 3 {
            d2 as u8
        } else {
            0
        };
        let s3: u8 = if d3 <= 3 {
            d3 as u8
        } else {
            0
        };
        let s4: u8 = if d4 <= 3 {
            d4 as u8
        } else {
            0
        };
        s1 + s2 * 4 + s3 * 16 + s4 * 64
    }
}

impl CEncoder for FourInstruction {
    open spec fn c_text(&self, index: int, arch: Architecture) -> Seq<char> {
        match arch {
            Architecture::Amd64 => four_c_text(*self, index),
            Architecture::Arm => Seq::empty(),
        }
    }

    fn encode_to_c(&self, index: u32, arch: Architecture) -> (r: String) {
        match arch {
            Architecture::Amd64 => {
                let smallest_in: u32 = self.get_first_input_index();
                let smallest_out: u32 = self.get_first_output_index();
                let mask: u8 = self.get_permute_mask();
                let idx = u64_to_dec(index as u64);
                let in_s = u64_to_dec(smallest_in as u64);
                let out_s = u64_to_dec(smallest_out as u64);
                let mask_s = u64_to_dec(mask as u64);
                let mut r = String::new();
                r.append("  __m128 valin");
                r.append(idx.as_str());
                r.append(" = _mm_maskload_ps(&in[");
                r.append(in_s.as_str());
                r.append("], quadmask);\n  __m128 valout");
                r.append(idx.as_str());
                r.append(" = _mm_permute_ps(valin");
                r.append(idx.as_str());
                r.append(", ");
                r.append(mask_s.as_str());
                r.append(");\n  _mm_maskstore_ps(&out[");
                r.append(out_s.as_str());
                r.append("], quadmask, valout");
                r.append(idx.as_str());
                r.append(");\n");
                proof {
                    assert(r@ =~= self.c_text(index as int, arch));
                }
                r
            },
            Architecture::Arm => {
                let r = String::new();
                proof {
                    assert(r@ =~= self.c_text(index as int, arch));
                }
                r
            },
        }
    }
}

impl SerializeAMD64MachineCode for FourInstruction {
    open spec fn amd64_encodable(&self) -> bool {
        true
    }

    open spec fn amd64_bytes(&self) -> Seq<u8> {
        Seq::empty()
    }

    fn write_amd64_bytes(&self, bytes: &mut Vec<u8>) {
        proof {
            assert(bytes@ =~= old(bytes)@ + self.amd64_bytes());
        }
    }
}

} // verus!
