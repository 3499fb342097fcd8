use vstd::prelude::*;
use crate::hardware::architecture::Palabra;

verus! {

/// A decoded instruction: two digits of operation code, one digit of
/// addressing mode and five digits of operand.
#[derive(Debug, Clone, Copy, PartialEq, Eq, Structural)]
pub struct Instruction {
    pub opcode: u8,
    pub dir: u8,
    pub value: u32,
}

impl Instruction {
    /// The instruction that the digits of a word spell.
    pub open spec fn decode(pal: Palabra) -> Instruction {
        Instruction {
            opcode: ((pal.palabra / 1_000_000) % 256) as u8,
            dir: ((pal.palabra / 100_000) % 10) as u8,
            value: pal.palabra % 100_000,
        }
    }

    /// Whether each field fits its digits.
    pub open spec fn wf(self) -> bool {
        self.opcode <= 99 && self.dir <= 9 && self.value <= 99_999
    }

    /// The word whose digits spell the instruction.
    pub open spec fn encode(self) -> Palabra {
        Palabra { palabra: (self.opcode * 1_000_000 + self.dir * 100_000 + self.value) as u32 }
    }

    /// Slices a word into operation code, addressing mode and operand.
    pub fn new(pal: Palabra) -> (i: Self)
        ensures
            i == Self::decode(pal),
            pal.fits() ==> i.wf(),
    {
        Instruction {
            opcode: ((pal.palabra / 1_000_000) % 256) as u8,
            dir: ((pal.palabra / 100_000) % 10) as u8,
            value: pal.palabra % 100_000,
        }
    }

    /// Puts the three fields back into one word.
    pub fn conver_to_palabra(self) -> (p: Palabra)
        requires
            self.wf(),
        ensures
            p == self.encode(),
            p.fits(),
    {
        Palabra {
            palabra: self.opcode as u32 * 1_000_000 + self.dir as u32 * 100_000 + self.value,
        }
    }
}

/// Decoding the word of an instruction gives the instruction back.
pub proof fn lemma_decode_encode(i: Instruction)
    requires
        i.wf(),
    ensures
        Instruction::decode(i.encode()) == i,
{
}

/// Encoding the instruction of a word of eight digits gives the word back.
pub proof fn lemma_encode_decode(p: Palabra)
    requires
        p.fits(),
    ensures
        Instruction::decode(p).wf(),
        Instruction::decode(p).encode() == p,
{
}

} // verus!
