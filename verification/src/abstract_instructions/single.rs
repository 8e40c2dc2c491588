use vstd::prelude::*;
use vstd::string::StringExecFns;

use crate::encodings::dec_str;
use crate::encodings::u64_to_dec;
use crate::encodings::Architecture;
use crate::encodings::CEncoder;
use crate::encodings::SerializeAMD64MachineCode;

verus! {

/// One scalar move of the permutation: the value read from source slot
/// `index` must land in destination slot `value`.
#[derive(Clone, Copy, PartialEq, Eq, Structural, Debug)]
pub struct SingleInstruction {
    pub index: u32,
    pub value: u32,
}

/// The C snippet of a width-1 block: one scalar assignment from the
/// source slot to the destination slot.
pub open spec fn single_c_text(s: SingleInstruction) -> Seq<char> {
    "  out["@ + dec_str(s.value as nat) + "] = in["@ + dec_str(s.index as nat) + "];\n"@
}

impl SingleInstruction {
    pub fn new(index: u32, value: u32) -> (r: Self)
        ensures
            r.index == index,
            r.value == value,
    {
        Self { index, value }
    }
}

impl CEncoder for SingleInstruction {
    open spec fn c_text(&self, index: int, arch: Architecture) -> Seq<char> {
        match arch {
            Architecture::Amd64 => single_c_text(*self),
            Architecture::Arm => Seq::empty(),
        }
    }

    fn encode_to_c(&self, _index: u32, arch: Architecture) -> (r: String) {
        match arch {
            Architecture::Amd64 => {
                let dst = u64_to_dec(self.value as u64);
                let src = u64_to_dec(self.index as u64);
                let mut r = String::new();
                r.append("  out[");
                r.append(dst.as_str());
                r.append("] = in[");
                r.append(src.as_str());
                r.append("];\n");
                proof {
                    assert(r@ =~= self.c_text(_index as int, arch));
                }
                r
            },
            Architecture::Arm => {
                let r = String::new();
                proof {
                    assert(r@ =~= self.c_text(_index as int, arch));
                }
                r
            },
        }
    }
}

impl SerializeAMD64MachineCode for SingleInstruction {
    open spec fn amd64_encodable(&self) -> bool {
        true
    }

    open spec fn amd64_bytes(&self) -> Seq<u8> {
        Seq::empty()
    }

    fn write_amd64_bytes(&self, bytes: &mut Vec<u8>) {
        proof {
            assert(bytes@ =~= old(bytes)@ + self.amd64_bytes());
        }
    }
}

} // verus!
