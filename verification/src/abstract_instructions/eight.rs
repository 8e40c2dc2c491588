use vstd::prelude::*;
use vstd::string::StringExecFns;

use crate::abstract_instructions::dst_of;
use crate::abstract_instructions::flatten_blocks;
use crate::abstract_instructions::four::four_elems;
use crate::abstract_instructions::four::FourInstruction;
use crate::abstract_instructions::lemma_flatten_blocks_push;
use crate::abstract_instructions::lemma_seq_min_by_bounds;
use crate::abstract_instructions::lemma_seq_min_by_unique;
use crate::abstract_instructions::min_dst;
use crate::abstract_instructions::InstructionBlock;
use crate::abstract_instructions::single::SingleInstruction;
use crate::encodings::dec_str;
use crate::encodings::u64_to_dec;
use crate::encodings::Architecture;
use crate::encodings::CEncoder;
use crate::encodings::SerializeAMD64MachineCode;

verus! {

/// A block of exactly eight elements, held as two width-4 halves.
#[derive(Clone, Copy, PartialEq, Eq, Structural, Debug)]
pub struct EightInstruction {
    pub value1: FourInstruction,
    pub value2: FourInstruction,
}

/// The eight elements of a width-8 block, in original left-to-right order.
pub open spec fn eight_elems(e: EightInstruction) -> Seq<SingleInstruction> {
    four_elems(e.value1) + four_elems(e.value2)
}

/// The lane selector for one destination slot `v` relative to the
/// block's first output slot `m`; selectors out of lane range contribute
/// nothing.
pub open spec fn lane_sel8(v: int, m: int) -> int {
    if 0 <= v - m <= 7 {
        v - m
    } else {
        0
    }
}

/// Two lane selectors interleaved into one 64-bit lane word: the first
/// in the low 32 bits, the second in the high 32 bits.
pub open spec fn eight_mask_word(lo: int, hi: int) -> int {
    lo + hi * 0x1_0000_0000
}

/// The 256-bit lane-index control vector of a width-8 block, as four
/// 64-bit lane words: the selector of logical position `i` occupies
/// 32-bit slot `i`.
pub open spec fn eight_mask(e: EightInstruction) -> (int, int, int, int) {
    let m = min_dst(eight_elems(e));
    (
        eight_mask_word(
            lane_sel8(e.value1.value1.value as int, m),
            lane_sel8(e.value1.value2.value as int, m),
        ),
        eight_mask_word(
            lane_sel8(e.value1.value3.value as int, m),
            lane_sel8(e.value1.value4.value as int, m),
        ),
        eight_mask_word(
            lane_sel8(e.value2.value1.value as int, m),
            lane_sel8(e.value2.value2.value as int, m),
        ),
        eight_mask_word(
            lane_sel8(e.value2.value3.value as int, m),
            lane_sel8(e.value2.value4.value as int, m),
        ),
    )
}

/// The C snippet of a width-8 block on the 64-bit x86 target: an 8-lane
/// vector gathered from the block's source indices, a constant lane-index
/// vector, a variable lane permute, and a store to the block's first
/// output slot.
pub open spec fn eight_c_text(e: EightInstruction, index: int) -> Seq<char> {
    "  __m256 valin"@ + dec_str(index as nat) + " = {in["@ + dec_str(e.value1.value1.index as nat)
        + "], in["@ + dec_str(e.value1.value2.index as nat) + "], in["@ + dec_str(
        e.value1.value3.index as nat,
    ) + "], in["@ + dec_str(e.value1.value4.index as nat) + "], in["@ + dec_str(
        e.value2.value1.index as nat,
    ) + "], in["@ + dec_str(e.value2.value2.index as nat) + "], in["@ + dec_str(
        e.value2.value3.index as nat,
    ) + "], in["@ + dec_str(e.value2.value4.index as nat) + "]};\n  static const __m256i mask"@
        + dec_str(index as nat) + " = {"@ + dec_str(eight_mask(e).0 as nat) + ", "@ + dec_str(
        eight_mask(e).1 as nat,
    ) + ", "@ + dec_str(eight_mask(e).2 as nat) + ", "@ + dec_str(eight_mask(e).3 as nat)
        + "};\n  __m256 valout"@ + dec_str(index as nat) + " = _mm256_permutevar8x32_ps(valin"@
        + dec_str(index as nat) + ", mask"@ + dec_str(index as nat) + ");\n  _mm256_storeu_ps(&out["@
        + dec_str(min_dst(eight_elems(e)) as nat) + "], valout"@ + dec_str(index as nat) + ");\n"@
}

impl EightInstruction {
    pub fn new(value1: FourInstruction, value2: FourInstruction) -> (r: Self)
        ensures
            eight_elems(r) == four_elems(value1) + four_elems(value2),
    {
        Self { value1, value2 }
    }

    /// Builds a width-8 block from any run of blocks whose flattened
    /// element count is exactly eight; the two halves become its
    /// width-4 children.
    pub fn new_from_instr(instrs: Vec<InstructionBlock>) -> (r: Option<EightInstruction>)
        ensures
            r is Some <==> flatten_blocks(instrs@).len() == 8,
            r is Some ==> eight_elems(r->Some_0) == flatten_blocks(instrs@),
    {
        let mut full_vec: Vec<SingleInstruction> = Vec::new();
        let mut i: usize = 0;
        while i < instrs.len()
            invariant
                i <= instrs@.len(),
                full_vec@ == flatten_blocks(instrs@.subrange(0, i as int)),
            decreases instrs@.len() - i,
        {
            let mut cloned: Vec<SingleInstruction> = instrs[i].flatten();
            proof {
                assert(instrs@.subrange(0, i + 1 as int) =~= instrs@.subrange(0, i as int).push(
                    instrs@[i as int],
                ));
                lemma_flatten_blocks_push(instrs@.subrange(0, i as int), instrs@[i as int]);
            }
            full_vec.append(&mut cloned);
            i = i + 1;
        }
        proof {
            assert(instrs@.subrange(0, instrs@.len() as int) =~= instrs@);
        }
        if full_vec.len() != 8 {
            return None;
        }
        let r = EightInstruction::new(
            FourInstruction::new(full_vec[0], full_vec[1], full_vec[2], full_vec[3]),
            FourInstruction::new(full_vec[4], full_vec[5], full_vec[6], full_vec[7]),
        );
        proof {
            assert(eight_elems(r) =~= flatten_blocks(instrs@));
        }
        Some(r)
    }

    /// The minimum destination index of this block: the base address of
    /// the one contiguous store covering the whole block.
    pub fn get_first_output_index(&self) -> (r: u32)
        ensures
            r as int == min_dst(eight_elems(*self)),
    {
        let mut smallest = u32::MAX;
        if self.value1.value1.value < smallest {
            smallest = self.value1.value1.value;
        }
        if self.value1.value2.value < smallest {
            smallest = self.value1.value2.value;
        }
        if self.value1.value3.value < smallest {
            smallest = self.value1.value3.value;
        }
        if self.value1.value4.value < smallest {
            smallest = self.value1.value4.value;
        }
        if self.value2.value1.value < smallest {
            smallest = self.value2.value1.value;
        }
        if self.value2.value2.value < smallest {
            smallest = self.value2.value2.value;
        }
        if self.value2.value3.value < smallest {
            smallest = self.value2.value3.value;
        }
        if self.value2.value4.value < smallest {
            smallest = self.value2.value4.value;
        }
        proof {
            let s = eight_elems(*self);
            assert(s[0] == self.value1.value1 && s[1] == self.value1.value2 && s[2]
                == self.value1.value3 && s[3] == self.value1.value4 && s[4] == self.value2.value1
                && s[5] == self.value2.value2 && s[6] == self.value2.value3 && s[7]
                == self.value2.value4);
            lemma_seq_min_by_unique(s, dst_of(), smallest as int);
        }
        smallest
    }

    /// The four 64-bit lane words of this block's permute-control
    /// vector, lowest lanes first.
    pub fn get_permute_mask(&self) -> (r: (i64, i64, i64, i64))
        ensures
            r.0 as int == eight_mask(*self).0,
            r.1 as int == eight_mask(*self).1,
            r.2 as int == eight_mask(*self).2,
            r.3 as int == eight_mask(*self).3,
    {
        let first_out = self.get_first_output_index();
        proof {
            let s = eight_elems(*self);
            assert(s[0] == self.value1.value1 && s[1] == self.value1.value2 && s[2]
                == self.value1.value3 && s[3] == self.value1.value4 && s[4] == self.value2.value1
                && s[5] == self.value2.value2 && s[6] == self.value2.value3 && s[7]
                == self.value2.value4);
            lemma_seq_min_by_bounds(s, dst_of());
        }
        let s0 = Self::lane_sel(self.value1.value1.value, first_out);
        let s1 = Self::lane_sel(self.value1.value2.value, first_out);
        let s2 = Self::lane_sel(self.value1.value3.value, first_out);
        let s3 = Self::lane_sel(self.value1.value4.value, first_out);
        let s4 = Self::lane_sel(self.value2.value1.value, first_out);
        let s5 = Self::lane_sel(self.value2.value2.value, first_out);
        let s6 = Self::lane_sel(self.value2.value3.value, first_out);
        let s7 = Self::lane_sel(self.value2.value4.value, first_out);
        (
            s0 as i64 + (s1 as i64) * 0x1_0000_0000,
            s2 as i64 + (s3 as i64) * 0x1_0000_0000,
            s4 as i64 + (s5 as i64) * 0x1_0000_0000,
            s6 as i64 + (s7 as i64) * 0x1_0000_0000,
        )
    }

    /// One lane selector relative to the first output slot `m`.
    fn lane_sel(v: u32, m: u32) -> (r: u32)
        requires
            m <= v,
        ensures
            r as int == lane_sel8(v as int, m as int),
            r <= 7,
    {
        let d = v - m;
        if d <= 7 {
            d
        } else {
            0
        }
    }
}

impl CEncoder for EightInstruction {
    open spec fn c_text(&self, index: int, arch: Architecture) -> Seq<char> {
        match arch {
            Architecture::Amd64 => eight_c_text(*self, index),
            Architecture::Arm => Seq::empty(),
        }
    }

    fn encode_to_c(&self, index: u32, arch: Architecture) -> (r: String) {
        match arch {
            Architecture::Amd64 => {
                let smallest = self.get_first_output_index();
                let mask = self.get_permute_mask();
                let idx = u64_to_dec(index as u64);
                let in0 = u64_to_dec(self.value1.value1.index as u64);
                let in1 = u64_to_dec(self.value1.value2.index as u64);
                let in2 = u64_to_dec(self.value1.value3.index as u64);
                let in3 = u64_to_dec(self.value1.value4.index as u64);
                let in4 = u64_to_dec(self.value2.value1.index as u64);
                let in5 = u64_to_dec(self.value2.value2.index as u64);
                let in6 = u64_to_dec(self.value2.value3.index as u64);
                let in7 = u64_to_dec(self.value2.value4.index as u64);
                let m0 = u64_to_dec(mask.0 as u64);
                let m1 = u64_to_dec(mask.1 as u64);
                let m2 = u64_to_dec(mask.2 as u64);
                let m3 = u64_to_dec(mask.3 as u64);
                let out_s = u64_to_dec(smallest as u64);
                let mut r = String::new();
                r.append("  __m256 valin");
                r.append(idx.as_str());
                r.append(" = {in[");
                r.append(in0.as_str());
                r.append("], in[");
                r.append(in1.as_str());
                r.append("], in[");
                r.append(in2.as_str());
                r.append("], in[");
                r.append(in3.as_str());
                r.append("], in[");
                r.append(in4.as_str());
                r.append("], in[");
                r.append(in5.as_str());
                r.append("], in[");
                r.append(in6.as_str());
                r.append("], in[");
                r.append(in7.as_str());
                r.append("]};\n  static const __m256i mask");
                r.append(idx.as_str());
                r.append(" = {");
                r.append(m0.as_str());
                r.append(", ");
                r.append(m1.as_str());
                r.append(", ");
                r.append(m2.as_str());
                r.append(", ");
                r.append(m3.as_str());
                r.append("};\n  __m256 valout");
                r.append(idx.as_str());
                r.append(" = _mm256_permutevar8x32_ps(valin");
                r.append(idx.as_str());
                r.append(", mask");
                r.append(idx.as_str());
                r.append(");\n  _mm256_storeu_ps(&out[");
                r.append(out_s.as_str());
                r.append("], valout");
                r.append(idx.as_str());
                r.append(");\n");
                proof {
                    assert(r@ =~= self.c_text(index as int, arch));
                }
                r
            },
            Architecture::Arm => {
                let r = String::new();
                proof {
                    assert(r@ =~= self.c_text(index as int, arch));
                }
                r
            },
        }
    }
}

impl SerializeAMD64MachineCode for EightInstruction {
    open spec fn amd64_encodable(&self) -> bool {
        true
    }

    open spec fn amd64_bytes(&self) -> Seq<u8> {
        Seq::empty()
    }

    fn write_amd64_bytes(&self, bytes: &mut Vec<u8>) {
        proof {
            assert(bytes@ =~= old(bytes)@ + self.amd64_bytes());
        }
    }
}

} // verus!
