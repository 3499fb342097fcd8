use vstd::prelude::*;
use vstd::string::*;
use crate::hardware::architecture::Palabra;
use crate::hardware::instructions::Instruction;
use crate::hardware::interrupts::Interrups;
use crate::text::{
    decimal, digit_char, digit_of, lemma_digits_value_with_lead, lemma_padded_decimal_len,
    lemma_padded_decimal_reads_back, magnitude, padded_decimal, padded_decimal_string, pow10,
};
use crate::utils::{fault, fault_of, Fault, Result_op};

verus! {

/// The program status word: condition code, privilege mode, interrupt
/// enable and program counter.
#[derive(Debug, Clone, Copy, PartialEq, Eq, Structural)]
pub struct Pws {
    /// 0 equal, 1 less, 2 greater, 3 overflow.
    pub codition: u8,
    /// 0 user, 1 kernel.
    pub modo_op: u8,
    /// 1 where interrupts are enabled.
    pub inte: u8,
    pub pc: i32,
}

/// What a refused field of the status word reports.
pub open spec fn status_fault() -> Fault {
    Fault { cod: Interrups::InstInv, msg: "Valor invalido para la palabra de estado"@ }
}

/// What a refused program counter reports.
pub open spec fn counter_fault() -> Fault {
    Fault { cod: Interrups::DirInv, msg: "Contador de programa fuera de rango"@ }
}

/// What a refused value of a memory-bound register reports.
pub open spec fn register_fault() -> Fault {
    Fault { cod: Interrups::DirInv, msg: "Registro fuera del rango de memoria"@ }
}

/// A number written in at least `width` characters, the minus sign of a
/// negative number counted among them.
pub open spec fn padded_signed(v: int, width: nat) -> Seq<char> {
    if v < 0 {
        seq!['-'] + padded_decimal((-v) as nat, if width == 0 { 0 } else { (width - 1) as nat })
    } else {
        padded_decimal(v as nat, width)
    }
}

impl Pws {
    /// Whether each field is within its range.
    pub open spec fn wf(self) -> bool {
        self.codition <= 3 && self.modo_op <= 1 && self.inte <= 1 && 0 <= self.pc <= 99_999
    }

    /// The status word as one word: a digit each for condition code, mode
    /// and interrupt enable, then the five digits of the program counter.
    pub open spec fn word(self) -> Palabra {
        Palabra {
            palabra: (self.codition * 10_000_000 + self.modo_op * 1_000_000 + self.inte * 100_000
                + self.pc) as u32,
        }
    }

    /// The status word that a word spells, if its first three digits are
    /// within the ranges of their fields.
    pub open spec fn decode(p: Palabra) -> Option<Pws> {
        let codition = p.palabra / 10_000_000;
        let modo_op = (p.palabra / 1_000_000) % 10;
        let inte = (p.palabra / 100_000) % 10;
        if codition <= 3 && modo_op <= 1 && inte <= 1 {
            Some(
                Pws {
                    codition: codition as u8,
                    modo_op: modo_op as u8,
                    inte: inte as u8,
                    pc: (p.palabra % 100_000) as i32,
                },
            )
        } else {
            None
        }
    }

    /// The status word as text: the three small fields in decimal, then the
    /// program counter in at least five characters.
    pub open spec fn text(self) -> Seq<char> {
        decimal(self.codition as nat) + decimal(self.modo_op as nat) + decimal(self.inte as nat)
            + padded_signed(self.pc as int, 5)
    }

    /// The status word of a machine that was just switched on: user mode,
    /// interrupts disabled, everything else zero.
    pub fn new() -> (p: Self)
        ensures
            p == (Pws { codition: 0, modo_op: 0, inte: 0, pc: 0 }),
            p.wf(),
    {
        Pws { codition: 0, modo_op: 0, inte: 0, pc: 0 }
    }

    /// Sets the condition code; a code above 3 is refused and changes nothing.
    pub fn set_codition(&mut self, codition: u8) -> (r: Result_op)
        ensures
            codition <= 3 ==> r is Ok && *final(self) == (Pws { codition, ..*old(self) }),
            codition > 3 ==> fault_of(r) == Some(status_fault()) && *final(self) == *old(self),
    {
        if codition > 3 {
            return Err(fault("Valor invalido para la palabra de estado", Interrups::InstInv));
        }
        self.codition = codition;
        Ok(())
    }

    /// Sets the privilege mode; a mode other than 0 and 1 is refused and changes nothing.
    pub fn set_mode(&mut self, modo_op: u8) -> (r: Result_op)
        ensures
            modo_op <= 1 ==> r is Ok && *final(self) == (Pws { modo_op, ..*old(self) }),
            modo_op > 1 ==> fault_of(r) == Some(status_fault()) && *final(self) == *old(self),
    {
        if modo_op > 1 {
            return Err(fault("Valor invalido para la palabra de estado", Interrups::InstInv));
        }
        self.modo_op = modo_op;
        Ok(())
    }

    /// Enables or disables interrupts; a value other than 0 and 1 is refused
    /// and changes nothing.
    pub fn set_inte(&mut self, inte: u8) -> (r: Result_op)
        ensures
            inte <= 1 ==> r is Ok && *final(self) == (Pws { inte, ..*old(self) }),
            inte > 1 ==> fault_of(r) == Some(status_fault()) && *final(self) == *old(self),
    {
        if inte > 1 {
            return Err(fault("Valor invalido para la palabra de estado", Interrups::InstInv));
        }
        self.inte = inte;
        Ok(())
    }

    /// Sets the program counter; a value outside 0..=99999 is refused and changes nothing.
    pub fn set_pc(&mut self, pc: i32) -> (r: Result_op)
        ensures
            0 <= pc <= 99_999 ==> r is Ok && *final(self) == (Pws { pc, ..*old(self) }),
            !(0 <= pc <= 99_999) ==> fault_of(r) == Some(counter_fault()) && *final(self) == *old(self),
    {
        if pc < 0 || pc > 99_999 {
            return Err(fault("Contador de programa fuera de rango", Interrups::DirInv));
        }
        self.pc = pc;
        Ok(())
    }

    /// Writes the status word as text.
    pub fn convert_to_palabra(&self) -> (s: String)
        ensures
            s@ == self.text(),
    {
        proof {
            reveal_strlit("-");
        }
        let mut s = padded_decimal_string(self.codition as u32, 1);
        s.append(padded_decimal_string(self.modo_op as u32, 1).as_str());
        s.append(padded_decimal_string(self.inte as u32, 1).as_str());
        if self.pc < 0 {
            let digits = String::from_str("-").concat(
                padded_decimal_string(magnitude(self.pc), 4).as_str(),
            );
            s.append(digits.as_str());
        } else {
            s.append(padded_decimal_string(self.pc as u32, 5).as_str());
        }
        s
    }

    /// Takes the four fields from the digits of a word. A word whose first
    /// three digits are out of the ranges of their fields is refused and
    /// changes nothing.
    pub fn convert_to_psw_by_palabra(&mut self, pal: Palabra) -> (r: Result_op)
        ensures
            match Self::decode(pal) {
                Some(p) => r is Ok && *final(self) == p,
                None => fault_of(r) == Some(status_fault()) && *final(self) == *old(self),
            },
    {
        let codition: u32 = pal.palabra / 10_000_000;
        let modo_op: u32 = (pal.palabra / 1_000_000) % 10;
        let inte: u32 = (pal.palabra / 100_000) % 10;
        if codition > 3 || modo_op > 1 || inte > 1 {
            return Err(fault("Valor invalido para la palabra de estado", Interrups::InstInv));
        }
        self.codition = codition as u8;
        self.modo_op = modo_op as u8;
        self.inte = inte as u8;
        self.pc = (pal.palabra % 100_000) as i32;
        Ok(())
    }
}

/// A valid status word is spelled by eight digits, which read as its word.
pub proof fn lemma_status_text(p: Pws)
    requires
        p.wf(),
    ensures
        Palabra::parse(p.text()) == Some(p.word()),
{
    let body = padded_decimal(p.pc as nat, 5);
    let c0 = digit_char(p.codition as int);
    let c1 = digit_char(p.modo_op as int);
    let c2 = digit_char(p.inte as int);
    assert(pow10(5) == 100_000 && pow10(6) == 1_000_000 && pow10(7) == 10_000_000) by {
        reveal_with_fuel(pow10, 8);
    }
    lemma_padded_decimal_len(p.pc as nat, 5);
    lemma_padded_decimal_reads_back(p.pc as nat, 5);
    let t2 = seq![c2] + body;
    let t1 = seq![c1] + t2;
    let t0 = seq![c0] + t1;
    lemma_digits_value_with_lead(c2, body);
    lemma_digits_value_with_lead(c1, t2);
    lemma_digits_value_with_lead(c0, t1);
    assert(p.text() =~= t0);
    assert(digit_of(c0) == p.codition && digit_of(c1) == p.modo_op && digit_of(c2) == p.inte);
}

/// The status word that the word of a valid status word spells is that status word.
pub proof fn lemma_status_word_round_trip(p: Pws)
    requires
        p.wf(),
    ensures
        Pws::decode(p.word()) == Some(p),
{
}

/// Whether a word may stand in a register that points into memory: it is
/// one of the addresses 0 to 2000.
pub open spec fn is_address(p: Palabra) -> bool {
    p.palabra <= 2000
}

/// The register file of the CPU.
#[derive(Debug, Clone, Copy, PartialEq, Eq, Structural)]
pub struct Registros {
    /// Memory address register.
    pub mar: Palabra,
    /// Memory data register.
    pub mdr: Palabra,
    /// Instruction register.
    pub ir: Instruction,
    /// Accumulator.
    pub ac: Palabra,
    /// Base of the running program.
    pub rb: Palabra,
    /// Limit of the running program.
    pub rl: Palabra,
    /// Where the program's code ends and its stack may begin.
    pub rx: Palabra,
    /// Stack pointer.
    pub sp: Palabra,
    pub psw: Pws,
}

impl Registros {
    /// Whether the registers that point into memory hold addresses and the
    /// status word is valid.
    pub open spec fn wf(self) -> bool {
        &&& is_address(self.rb)
        &&& is_address(self.rl)
        &&& is_address(self.rx)
        &&& is_address(self.sp)
        &&& self.psw.wf()
    }

    /// The registers of a machine that was just switched on: all zero.
    pub open spec fn new_spec() -> Registros {
        Registros {
            mar: Palabra { palabra: 0 },
            mdr: Palabra { palabra: 0 },
            ir: Instruction { opcode: 0, dir: 0, value: 0 },
            ac: Palabra { palabra: 0 },
            rb: Palabra { palabra: 0 },
            rl: Palabra { palabra: 0 },
            rx: Palabra { palabra: 0 },
            sp: Palabra { palabra: 0 },
            psw: Pws { codition: 0, modo_op: 0, inte: 0, pc: 0 },
        }
    }

    /// The registers of a machine that was just switched on: all zero.
    #[verifier::when_used_as_spec(new_spec)]
    pub fn new() -> (r: Self)
        ensures
            r == Self::new_spec(),
            r.wf(),
    {
        let zero = Palabra { palabra: 0 };
        Registros {
            mar: zero,
            mdr: zero,
            ir: Instruction { opcode: 0, dir: 0, value: 0 },
            ac: zero,
            rb: zero,
            rl: zero,
            rx: zero,
            sp: zero,
            psw: Pws::new(),
        }
    }

    /// Sets the memory address register; any word is taken.
    pub fn set_mar(&mut self, pal: Palabra) -> (r: Result_op)
        ensures
            r is Ok,
            *final(self) == (Registros { mar: pal, ..*old(self) }),
    {
        self.mar = pal;
        Ok(())
    }

    /// Sets the memory data register; any word is taken.
    pub fn set_mdr(&mut self, pal: Palabra)
        ensures
            *final(self) == (Registros { mdr: pal, ..*old(self) }),
    {
        self.mdr = pal;
    }

    /// Sets the base register; a word that is no address is refused and changes nothing.
    pub fn set_rb(&mut self, pal: Palabra) -> (r: Result_op)
        ensures
            is_address(pal) ==> r is Ok && *final(self) == (Registros { rb: pal, ..*old(self) }),
            !is_address(pal) ==> fault_of(r) == Some(register_fault()) && *final(self) == *old(self),
    {
        if pal.palabra > 2000 {
            return Err(fault("Registro fuera del rango de memoria", Interrups::DirInv));
        }
        self.rb = pal;
        Ok(())
    }

    /// Sets the limit register; a word that is no address is refused and changes nothing.
    pub fn set_rl(&mut self, pal: Palabra) -> (r: Result_op)
        ensures
            is_address(pal) ==> r is Ok && *final(self) == (Registros { rl: pal, ..*old(self) }),
            !is_address(pal) ==> fault_of(r) == Some(register_fault()) && *final(self) == *old(self),
    {
        if pal.palabra > 2000 {
            return Err(fault("Registro fuera del rango de memoria", Interrups::DirInv));
        }
        self.rl = pal;
        Ok(())
    }

    /// Sets the protected bound; a word that is no address is refused and changes nothing.
    pub fn set_rx(&mut self, pal: Palabra) -> (r: Result_op)
        ensures
            is_address(pal) ==> r is Ok && *final(self) == (Registros { rx: pal, ..*old(self) }),
            !is_address(pal) ==> fault_of(r) == Some(register_fault()) && *final(self) == *old(self),
    {
        if pal.palabra > 2000 {
            return Err(fault("Registro fuera del rango de memoria", Interrups::DirInv));
        }
        self.rx = pal;
        Ok(())
    }

    /// Sets the stack pointer; a word that is no address is refused and changes nothing.
    pub fn set_sp(&mut self, pal: Palabra) -> (r: Result_op)
        ensures
            is_address(pal) ==> r is Ok && *final(self) == (Registros { sp: pal, ..*old(self) }),
            !is_address(pal) ==> fault_of(r) == Some(register_fault()) && *final(self) == *old(self),
    {
        if pal.palabra > 2000 {
            return Err(fault("Registro fuera del rango de memoria", Interrups::DirInv));
        }
        self.sp = pal;
        Ok(())
    }
}

} // verus!
