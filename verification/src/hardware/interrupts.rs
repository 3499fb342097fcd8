use vstd::prelude::*;
use crate::hardware::architecture::Palabra;
use crate::hardware::ram::{valid_address, Ram};
use crate::hardware::registers::{Pws, Registros};
use crate::utils::ContinueOrBreak;

verus! {

/// The nine causes an interrupt can have.
#[derive(Debug, Clone, Copy, PartialEq, Eq, Structural)]
pub enum Interrups {
    Overflow,
    Underflow,
    DirInv,
    InstInv,
    EndIO,
    Clock,
    CallSys,
    CodIntInv,
    CodCallSysInv,
}

impl Interrups {
    /// The number of a cause. It is the address of the cause's entry in the
    /// vector table, and the higher number is served first.
    pub open spec fn code(self) -> int {
        match self {
            Interrups::Overflow => 8,
            Interrups::Underflow => 7,
            Interrups::DirInv => 6,
            Interrups::InstInv => 5,
            Interrups::EndIO => 4,
            Interrups::Clock => 3,
            Interrups::CallSys => 2,
            Interrups::CodIntInv => 1,
            Interrups::CodCallSysInv => 0,
        }
    }

    /// The operation code of the trap that serves the cause: 90 plus the
    /// number of the cause.
    pub open spec fn trap_opcode(self) -> int {
        90 + self.code()
    }

    /// The cause that the trap of an operation code serves, for the codes 90 to 98.
    pub open spec fn of_trap(opcode: u8) -> Option<Interrups> {
        match opcode {
            90 => Some(Interrups::CodCallSysInv),
            91 => Some(Interrups::CodIntInv),
            92 => Some(Interrups::CallSys),
            93 => Some(Interrups::Clock),
            94 => Some(Interrups::EndIO),
            95 => Some(Interrups::InstInv),
            96 => Some(Interrups::DirInv),
            97 => Some(Interrups::Underflow),
            98 => Some(Interrups::Overflow),
            _ => None,
        }
    }

    /// Whether the interrupted program is resumed after the cause was served,
    /// so that its context has to be saved.
    pub open spec fn saves_context(self) -> bool {
        self == Interrups::EndIO || self == Interrups::Clock || self == Interrups::CallSys
    }

    /// The cause that the trap of an operation code serves, for the codes 90 to 98.
    pub fn trap_cause(opcode: u8) -> (r: Option<Interrups>)
        ensures
            r == Self::of_trap(opcode),
            forall|cod: Interrups| r == Some(cod) <==> opcode == cod.trap_opcode(),
    {
        let r = match opcode {
            90 => Some(Interrups::CodCallSysInv),
            91 => Some(Interrups::CodIntInv),
            92 => Some(Interrups::CallSys),
            93 => Some(Interrups::Clock),
            94 => Some(Interrups::EndIO),
            95 => Some(Interrups::InstInv),
            96 => Some(Interrups::DirInv),
            97 => Some(Interrups::Underflow),
            98 => Some(Interrups::Overflow),
            _ => None,
        };
        assert forall|cod: Interrups| r == Some(cod) <==> opcode == cod.trap_opcode() by {}
        r
    }

    /// Whether the interrupted program is resumed after the cause was served.
    pub fn resumes(self) -> (b: bool)
        ensures
            b == self.saves_context(),
    {
        match self {
            Interrups::EndIO | Interrups::Clock | Interrups::CallSys => true,
            _ => false,
        }
    }

    /// The address of the cause's entry in the vector table.
    pub fn vector(self) -> (v: i32)
        ensures
            v == self.code(),
            0 <= v <= 8,
    {
        match self {
            Interrups::Overflow => 8,
            Interrups::Underflow => 7,
            Interrups::DirInv => 6,
            Interrups::InstInv => 5,
            Interrups::EndIO => 4,
            Interrups::Clock => 3,
            Interrups::CallSys => 2,
            Interrups::CodIntInv => 1,
            Interrups::CodCallSysInv => 0,
        }
    }
}

/// The interrupt lines: one flag per cause, which stays up until the
/// handler of the cause takes it down.
#[derive(Debug, Clone, Copy, PartialEq, Eq, Structural)]
pub struct External_interrupt {
    pub int_overflow: bool,
    pub int_underflow: bool,
    pub int_dir_inv: bool,
    pub int_inst_inv: bool,
    pub int_io: bool,
    pub int_clock: bool,
    pub int_call_sys: bool,
    pub int_cod_inte_inv: bool,
    pub int_cod_callsys_inv: bool,
}

impl External_interrupt {
    /// Whether the flag of a cause is up.
    pub open spec fn is_set(self, cod: Interrups) -> bool {
        match cod {
            Interrups::Overflow => self.int_overflow,
            Interrups::Underflow => self.int_underflow,
            Interrups::DirInv => self.int_dir_inv,
            Interrups::InstInv => self.int_inst_inv,
            Interrups::EndIO => self.int_io,
            Interrups::Clock => self.int_clock,
            Interrups::CallSys => self.int_call_sys,
            Interrups::CodIntInv => self.int_cod_inte_inv,
            Interrups::CodCallSysInv => self.int_cod_callsys_inv,
        }
    }

    /// The flags with the one of a cause put up or down.
    pub open spec fn with(self, cod: Interrups, up: bool) -> External_interrupt {
        match cod {
            Interrups::Overflow => External_interrupt { int_overflow: up, ..self },
            Interrups::Underflow => External_interrupt { int_underflow: up, ..self },
            Interrups::DirInv => External_interrupt { int_dir_inv: up, ..self },
            Interrups::InstInv => External_interrupt { int_inst_inv: up, ..self },
            Interrups::EndIO => External_interrupt { int_io: up, ..self },
            Interrups::Clock => External_interrupt { int_clock: up, ..self },
            Interrups::CallSys => External_interrupt { int_call_sys: up, ..self },
            Interrups::CodIntInv => External_interrupt { int_cod_inte_inv: up, ..self },
            Interrups::CodCallSysInv => External_interrupt { int_cod_callsys_inv: up, ..self },
        }
    }

    /// The cause that is served next: of those whose flag is up, the one
    /// with the highest number.
    pub open spec fn pending(self) -> Option<Interrups> {
        if self.int_overflow {
            Some(Interrups::Overflow)
        } else if self.int_underflow {
            Some(Interrups::Underflow)
        } else if self.int_dir_inv {
            Some(Interrups::DirInv)
        } else if self.int_inst_inv {
            Some(Interrups::InstInv)
        } else if self.int_io {
            Some(Interrups::EndIO)
        } else if self.int_clock {
            Some(Interrups::Clock)
        } else if self.int_call_sys {
            Some(Interrups::CallSys)
        } else if self.int_cod_inte_inv {
            Some(Interrups::CodIntInv)
        } else if self.int_cod_callsys_inv {
            Some(Interrups::CodCallSysInv)
        } else {
            None
        }
    }

    /// All flags down.
    pub fn new() -> (e: Self)
        ensures
            forall|cod: Interrups| !e.is_set(cod),
            e.pending() is None,
    {
        External_interrupt {
            int_overflow: false,
            int_underflow: false,
            int_dir_inv: false,
            int_inst_inv: false,
            int_io: false,
            int_clock: false,
            int_call_sys: false,
            int_cod_inte_inv: false,
            int_cod_callsys_inv: false,
        }
    }

    /// Puts the flag of a cause up.
    pub fn raise(&mut self, cod: Interrups)
        ensures
            *final(self) == old(self).with(cod, true),
    {
        self.put(cod, true);
    }

    /// Takes the flag of a cause down.
    pub fn clear(&mut self, cod: Interrups)
        ensures
            *final(self) == old(self).with(cod, false),
    {
        self.put(cod, false);
    }

    /// Puts the flag of a cause up or down.
    fn put(&mut self, cod: Interrups, up: bool)
        ensures
            *final(self) == old(self).with(cod, up),
    {
        match cod {
            Interrups::Overflow => self.int_overflow = up,
            Interrups::Underflow => self.int_underflow = up,
            Interrups::DirInv => self.int_dir_inv = up,
            Interrups::InstInv => self.int_inst_inv = up,
            Interrups::EndIO => self.int_io = up,
            Interrups::Clock => self.int_clock = up,
            Interrups::CallSys => self.int_call_sys = up,
            Interrups::CodIntInv => self.int_cod_inte_inv = up,
            Interrups::CodCallSysInv => self.int_cod_callsys_inv = up,
        }
    }

    /// The cause to serve next, if any flag is up.
    pub fn next_pending(&self) -> (r: Option<Interrups>)
        ensures
            r == self.pending(),
    {
        if self.int_overflow {
            Some(Interrups::Overflow)
        } else if self.int_underflow {
            Some(Interrups::Underflow)
        } else if self.int_dir_inv {
            Some(Interrups::DirInv)
        } else if self.int_inst_inv {
            Some(Interrups::InstInv)
        } else if self.int_io {
            Some(Interrups::EndIO)
        } else if self.int_clock {
            Some(Interrups::Clock)
        } else if self.int_call_sys {
            Some(Interrups::CallSys)
        } else if self.int_cod_inte_inv {
            Some(Interrups::CodIntInv)
        } else if self.int_cod_callsys_inv {
            Some(Interrups::CodCallSysInv)
        } else {
            None
        }
    }
}

/// The word of the trap that serves a cause: operation code 90 plus the
/// number of the cause, direct mode, operand zero.
pub open spec fn trap_word(cod: Interrups) -> Palabra {
    Palabra { palabra: (cod.trap_opcode() * 1_000_000) as u32 }
}

/// Whether the low memory holds the vector table: at the address of each
/// cause, the word of its trap.
pub open spec fn has_vector_table(mem: Seq<Palabra>) -> bool {
    forall|cod: Interrups| #[trigger] mem[cod.code()] == trap_word(cod)
}

/// Writes the vector table into the nine lowest words of the memory and
/// leaves every other word as it was.
pub fn install_vector_table(ram: &mut Ram)
    ensures
        has_vector_table(final(ram)@),
        final(ram)@.len() == old(ram)@.len(),
        forall|i: int| 9 <= i < old(ram)@.len() ==> final(ram)@[i] == old(ram)@[i],
{
    proof {
        ram.lemma_len();
    }
    let mut i: i32 = 0;
    while i < 9
        invariant
            0 <= i <= 9,
            ram@.len() == 2001,
            forall|j: int| 0 <= j < i ==> (#[trigger] ram@[j]).palabra == (90 + j) * 1_000_000,
            forall|j: int| 9 <= j < 2001 ==> ram@[j] == old(ram)@[j],
        decreases 9 - i,
    {
        let word = Palabra { palabra: (90 + i as u32) * 1_000_000 };
        let _ = ram.writeMemory(i, word);
        i += 1;
    }
    proof {
        assert forall|cod: Interrups| #[trigger] ram@[cod.code()] == trap_word(cod) by {
            assert(ram@[cod.code()].palabra == (90 + cod.code()) * 1_000_000);
        }
    }
}

/// What serving a cause does: its flag is taken down and its handler runs.
/// Overflow and underflow set condition code 3 and end the program; an
/// invalid address, instruction, interrupt code or system-call code ends
/// it; the end of I/O and the clock let it go on. The system call reads its
/// number from AC and its parameter from the top of the stack: number 1
/// ends the program, any other number puts up the flag of the invalid
/// system-call code, and a stack pointer outside the memory puts up the
/// flag of the invalid address; after either flag the program goes on.
pub open spec fn serve(
    regs: Registros,
    cod: Interrups,
    mem: Seq<Palabra>,
    ints: External_interrupt,
) -> (Registros, External_interrupt, ContinueOrBreak) {
    let cleared = ints.with(cod, false);
    match cod {
        Interrups::Overflow | Interrups::Underflow => (
            Registros { psw: Pws { codition: 3, ..regs.psw }, ..regs },
            cleared,
            ContinueOrBreak::Break,
        ),
        Interrups::DirInv | Interrups::InstInv | Interrups::CodIntInv | Interrups::CodCallSysInv => (
            regs,
            cleared,
            ContinueOrBreak::Break,
        ),
        Interrups::EndIO | Interrups::Clock => (regs, cleared, ContinueOrBreak::Continue),
        Interrups::CallSys => if !valid_address(regs.sp.value()) {
            (regs, cleared.with(Interrups::DirInv, true), ContinueOrBreak::Continue)
        } else if regs.ac.value() == 1 {
            (regs, cleared, ContinueOrBreak::Break)
        } else {
            (regs, cleared.with(Interrups::CodCallSysInv, true), ContinueOrBreak::Continue)
        },
    }
}

/// The handler of the overflow: condition code 3, and the program ends.
pub fn overflow(regs: &mut Registros) -> (r: ContinueOrBreak)
    ensures
        r == ContinueOrBreak::Break,
        *final(regs) == (Registros { psw: Pws { codition: 3, ..old(regs).psw }, ..*old(regs) }),
{
    regs.psw.codition = 3;
    ContinueOrBreak::Break
}

/// The handler of the underflow: condition code 3, and the program ends.
pub fn underflow(regs: &mut Registros) -> (r: ContinueOrBreak)
    ensures
        r == ContinueOrBreak::Break,
        *final(regs) == (Registros { psw: Pws { codition: 3, ..old(regs).psw }, ..*old(regs) }),
{
    regs.psw.codition = 3;
    ContinueOrBreak::Break
}

/// The handler of the invalid address: the program ends.
pub fn dir_inv() -> (r: ContinueOrBreak)
    ensures
        r == ContinueOrBreak::Break,
{
    ContinueOrBreak::Break
}

/// The handler of the invalid instruction: the program ends.
pub fn inst_inv() -> (r: ContinueOrBreak)
    ensures
        r == ContinueOrBreak::Break,
{
    ContinueOrBreak::Break
}

/// The handler of the end of I/O: the program goes on.
pub fn end_io() -> (r: ContinueOrBreak)
    ensures
        r == ContinueOrBreak::Continue,
{
    ContinueOrBreak::Continue
}

/// The handler of the clock: the program goes on.
pub fn clock() -> (r: ContinueOrBreak)
    ensures
        r == ContinueOrBreak::Continue,
{
    ContinueOrBreak::Continue
}

/// The handler of the system call. The number of the call is in AC and its
/// parameter on top of the stack. Call 1 ends the program. Any other call
/// puts up the flag of the invalid system-call code, and a stack pointer
/// outside the memory the flag of the invalid address; the program goes on
/// after either.
pub fn call_sys(regs: &Registros, ram: &Ram, external_int: &mut External_interrupt) -> (r:
    ContinueOrBreak)
    ensures
        !valid_address(regs.sp.value()) ==> r == ContinueOrBreak::Continue && *final(external_int)
            == old(external_int).with(Interrups::DirInv, true),
        valid_address(regs.sp.value()) && regs.ac.value() == 1 ==> r == ContinueOrBreak::Break
            && *final(external_int) == *old(external_int),
        valid_address(regs.sp.value()) && regs.ac.value() != 1 ==> r == ContinueOrBreak::Continue
            && *final(external_int) == old(external_int).with(Interrups::CodCallSysInv, true),
{
    let cod_call = regs.ac.convert();
    match ram.readMemory(regs.sp.convert()) {
        Ok(_) => (),
        Err(_) => {
            external_int.raise(Interrups::DirInv);
            return ContinueOrBreak::Continue;
        },
    }
    if cod_call == 1 {
        return ContinueOrBreak::Break;
    }
    external_int.raise(Interrups::CodCallSysInv);
    ContinueOrBreak::Continue
}

/// The handler of the invalid interrupt code: the program ends.
pub fn cod_int_inv() -> (r: ContinueOrBreak)
    ensures
        r == ContinueOrBreak::Break,
{
    ContinueOrBreak::Break
}

/// The handler of the invalid system-call code: the program ends.
pub fn cod_call_sys_inv() -> (r: ContinueOrBreak)
    ensures
        r == ContinueOrBreak::Break,
{
    ContinueOrBreak::Break
}

/// Serves a cause: takes its flag down, then runs its handler.
pub fn handle_interrupt(
    regs: &mut Registros,
    cod_int: Interrups,
    ram: &Ram,
    external_int: &mut External_interrupt,
) -> (r: ContinueOrBreak)
    ensures
        (*final(regs), *final(external_int), r) == serve(
            *old(regs),
            cod_int,
            ram@,
            *old(external_int),
        ),
{
    external_int.clear(cod_int);
    match cod_int {
        Interrups::Overflow => overflow(regs),
        Interrups::Underflow => underflow(regs),
        Interrups::DirInv => dir_inv(),
        Interrups::InstInv => inst_inv(),
        Interrups::EndIO => end_io(),
        Interrups::Clock => clock(),
        Interrups::CallSys => call_sys(regs, ram, external_int),
        Interrups::CodIntInv => cod_int_inv(),
        Interrups::CodCallSysInv => cod_call_sys_inv(),
    }
}

/// The cause that is served next has its flag up, and no cause with a
/// higher number has.
pub proof fn lemma_pending_is_highest(e: External_interrupt, cod: Interrups)
    ensures
        e.pending() == Some(cod) <==> (e.is_set(cod) && forall|other: Interrups|
            e.is_set(other) ==> other.code() <= cod.code()),
        e.pending() is None <==> forall|other: Interrups| !e.is_set(other),
{
    if e.pending() is None {
        assert forall|other: Interrups| !e.is_set(other) by {}
    } else {
        let top = e.pending()->Some_0;
        assert(e.is_set(top));
        assert forall|other: Interrups| e.is_set(other) implies other.code() <= top.code() by {}
        if e.is_set(cod) && (forall|other: Interrups| e.is_set(other) ==> other.code() <= cod.code()) {
            assert(top.code() <= cod.code());
            assert(cod.code() <= top.code());
        }
    }
}

} // verus!
