use vstd::prelude::*;

use crate::encodings::SerializeAMD64MachineCode;

verus! {

/// x86-64 registers that the emitted test programs may name.
#[derive(Clone, Copy, PartialEq, Eq, Structural, Debug)]
pub enum Register {
    RAX,
    EAX,
    RBX,
    EBX,
    RCX,
    ECX,
    RDX,
    EDX,
    RSP,
    ESP,
    RDI,
    EDI,
    RSI,
    ESI,
    RBP,
    EBP,
    RIP,
    EIP,
    R8,
    R9,
    R10,
    R11,
    R12,
    R13,
    R14,
    R15,
    YMM0,
    YMM1,
    YMM2,
    YMM3,
    YMM4,
    YMM5,
    YMM6,
    YMM7,
    YMM8,
    YMM9,
    YMM10,
    YMM11,
    YMM12,
    YMM13,
    YMM14,
    YMM15,
    XMM0,
    XMM1,
    XMM2,
    XMM3,
    XMM4,
    XMM5,
    XMM6,
    XMM7,
    XMM8,
    XMM9,
    XMM10,
    XMM11,
    XMM12,
    XMM13,
    XMM14,
    XMM15,
    EFLAGS,
}

/// Operands for use within assembly, covering the usual addressing modes.
#[derive(Clone, Copy, PartialEq, Eq, Structural, Debug)]
pub enum Operand {
    /// Integer data as an operand.
    Immediate(i32),
    /// A register used directly.
    Register(Register),
    /// The value a register points at.
    Memory(Register),
    /// Base register plus index register.
    Index(Register, Register),
    /// Base register plus a scaled index register.
    ScaledIndex(Register, Register, i32),
    /// A static displacement plus a scaled index register.
    ScaledDisplacedIndex(i32, Register, i32),
}

/// The x86-64 instructions the emitted test programs are framed with.
/// Only the framing opcodes (return, timestamp read, and the flags
/// no-op) have a byte encoding here; a complete encoder is out of scope.
#[derive(Clone, Copy, PartialEq, Eq, Structural, Debug)]
pub enum Instruction {
    MOV(Operand, Operand),
    MOVQ(Operand, Operand),
    MOVL(Operand, Operand),
    XOR(Operand, Operand),
    RET,
    VPERMPS(Operand, Operand, Operand),
    VPERMILPS(Operand, Operand, Operand),
    VPERMD(Operand, Operand, Operand),
    VPMASKMOVD(Operand, Operand, Operand),
    VMOVDQA(Operand, Operand),
    VZEROUPPER,
    RDTSC,
}

impl SerializeAMD64MachineCode for Register {
    open spec fn amd64_encodable(&self) -> bool {
        self is RAX || self is RSP
    }

    open spec fn amd64_bytes(&self) -> Seq<u8> {
        match *self {
            Register::RAX => seq![0xc0u8],
            Register::RSP => seq![0x24u8],
            _ => Seq::empty(),
        }
    }

    fn write_amd64_bytes(&self, bytes: &mut Vec<u8>) {
        match self {
            Register::RAX => {
                bytes.push(0xc0);
            },
            Register::RSP => {
                bytes.push(0x24);
            },
            _ => {
                proof {
                    assert(false);
                }
            },
        }
        proof {
            assert(bytes@ =~= old(bytes)@ + self.amd64_bytes());
        }
    }
}

impl SerializeAMD64MachineCode for Instruction {
    open spec fn amd64_encodable(&self) -> bool {
        self is RET || self is VZEROUPPER || self is RDTSC
    }

    open spec fn amd64_bytes(&self) -> Seq<u8> {
        match *self {
            Instruction::RET => seq![0xc3u8],
            Instruction::VZEROUPPER => seq![0xc5u8, 0xf8u8, 0x77u8],
            Instruction::RDTSC => seq![0x0fu8, 0x31u8],
            _ => Seq::empty(),
        }
    }

    fn write_amd64_bytes(&self, program: &mut Vec<u8>) {
        match self {
            Instruction::RET => {
                program.push(0xc3);
            },
            Instruction::VZEROUPPER => {
                program.push(0xc5);
                program.push(0xf8);
                program.push(0x77);
            },
            Instruction::RDTSC => {
                program.push(0x0f);
                program.push(0x31);
            },
            _ => {
                proof {
                    assert(false);
                }
            },
        }
        proof {
            assert(program@ =~= old(program)@ + self.amd64_bytes());
        }
    }
}

} // verus!
