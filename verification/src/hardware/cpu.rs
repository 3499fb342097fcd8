use vstd::prelude::*;
use vstd::string::*;
use crate::hardware::architecture::Palabra;
use crate::hardware::dma::{Dma_Config, State_Dma};
use crate::hardware::instructions::Instruction;
use crate::hardware::interrupts::{handle_interrupt, External_interrupt, Interrups};
use crate::hardware::ram::Ram;
use crate::hardware::registers::Registros;
use crate::hardware::semantics::{labelled, CpuView, ExecuteView, Machine, Note};
use crate::text::signed_decimal_string;
use crate::utils::{fault, fault_of, ContinueOrBreak, Errors, Result_op};
use crate::Mode_Execute;

verus! {

/// How the running program stands: well, or ended in an error.
#[derive(Debug, Clone, Copy, PartialEq, Eq, Structural)]
pub enum Result_Execute_program {
    Succes,
    Error,
}

/// What the last operation left for the people who watch the machine.
#[derive(Debug, Clone, PartialEq, Eq)]
pub enum Result_Instruction {
    Palabra(Palabra),
    String(String),
}

impl View for Result_Instruction {
    type V = Note;

    open spec fn view(&self) -> Note {
        match self {
            Result_Instruction::Palabra(p) => Note::Palabra(*p),
            Result_Instruction::String(s) => Note::Texto(s@),
        }
    }
}

/// The report of the CPU on the running program: how it stands, the
/// address and the word of the last instruction, and the note of the last operation.
#[derive(Debug, Clone, PartialEq, Eq)]
pub struct Result_Execute {
    pub result_program: Result_Execute_program,
    pub dir_inst: i32,
    pub instruction: Palabra,
    pub result_instruction: Result_Instruction,
}

impl View for Result_Execute {
    type V = ExecuteView;

    open spec fn view(&self) -> ExecuteView {
        ExecuteView {
            result_program: self.result_program,
            dir_inst: self.dir_inst,
            instruction: self.instruction,
            result_instruction: self.result_instruction@,
        }
    }
}

impl Result_Execute {
    /// The report of a CPU that has run nothing yet.
    pub fn new() -> (r: Self)
        ensures
            r@ == (ExecuteView {
                result_program: Result_Execute_program::Succes,
                dir_inst: 0,
                instruction: Palabra { palabra: 0 },
                result_instruction: Note::Palabra(Palabra { palabra: 0 }),
            }),
    {
        Result_Execute {
            result_program: Result_Execute_program::Succes,
            dir_inst: 0,
            instruction: Palabra { palabra: 0 },
            result_instruction: Result_Instruction::Palabra(Palabra { palabra: 0 }),
        }
    }
}

/// A command to the CPU: how to run, and the registers to start from.
#[derive(Debug, Clone, Copy, PartialEq, Eq, Structural)]
pub struct Registers_Cpu_Config {
    pub mode: Mode_Execute,
    pub rb: Palabra,
    pub rl: Palabra,
    pub rx: Palabra,
    pub sp: Palabra,
    pub pc: i32,
}

/// The CPU. It owns its registers; the memory and the interrupt flags,
/// which it shares with the DMA controller, are handed to each operation
/// that needs them.
#[derive(Debug)]
pub struct Cpu {
    pub registers: Registros,
    /// Cycles between two clock interrupts.
    pub clock_interrupt: u32,
    /// The DMA request that the program is putting together.
    pub dma_temp: Dma_Config,
    pub have_user_program: bool,
    pub result_last_program: Result_Execute,
    /// The DMA request that the last cycle handed over, for whoever runs
    /// the machine to pass on to the controller.
    pub dma_request: Option<Dma_Config>,
}

impl View for Cpu {
    type V = CpuView;

    open spec fn view(&self) -> CpuView {
        CpuView {
            registers: self.registers,
            clock_interrupt: self.clock_interrupt,
            dma_temp: self.dma_temp,
            have_user_program: self.have_user_program,
            result_last_program: self.result_last_program@,
            dma_request: self.dma_request,
        }
    }
}

/// The machine that a CPU, a memory and a set of interrupt flags make up.
pub open spec fn machine_of(cpu: Cpu, ram: Ram, ints: External_interrupt) -> Machine {
    Machine { cpu: cpu@, mem: ram@, ints }
}

/// A label followed by a number.
fn labelled_string(label: &str, v: i32) -> (s: String)
    ensures
        s@ == labelled(label@, v as int),
{
    String::from_str(label).concat(signed_decimal_string(v).as_str())
}

impl Cpu {
    /// A CPU that was just switched on: registers at zero, a clock
    /// interrupt every 3 cycles, no program, no DMA request.
    pub fn new() -> (c: Self)
        ensures
            c.registers.wf(),
            c@.registers == Registros::new_spec(),
            c.clock_interrupt == 3,
            c.dma_temp == Dma_Config::new_spec(),
            !c.have_user_program,
            c.dma_request is None,
            c.result_last_program@ == (ExecuteView {
                result_program: Result_Execute_program::Succes,
                dir_inst: 0,
                instruction: Palabra { palabra: 0 },
                result_instruction: Note::Palabra(Palabra { palabra: 0 }),
            }),
    {
        Cpu {
            registers: Registros::new(),
            clock_interrupt: 3,
            dma_temp: Dma_Config::new(),
            have_user_program: false,
            result_last_program: Result_Execute::new(),
            dma_request: None,
        }
    }

    /// Leaves a line of text as the note of the last operation.
    fn note_text(&mut self, s: String)
        ensures
            final(self)@ == old(self)@.text(s@),
    {
        self.result_last_program.result_instruction = Result_Instruction::String(s);
    }

    /// Leaves a word as the note of the last operation.
    fn note_word(&mut self, p: Palabra)
        ensures
            final(self)@ == old(self)@.word(p),
    {
        self.result_last_program.result_instruction = Result_Instruction::Palabra(p);
    }

    /// AC + MDR goes to AC. An overflow or underflow sets condition code 3
    /// and leaves AC as it was.
    pub fn sum(&mut self) -> (r: Result_op)
        ensures
            (final(self)@, fault_of(r)) == old(self)@.sum(),
            old(self).registers.wf() ==> final(self).registers.wf(),
    {
        let ac = self.registers.ac;
        let mdr = self.registers.mdr;
        match ac + mdr {
            Ok(palabra) => {
                let mut text = String::from_str("Suma: Ac:");
                text.append(signed_decimal_string(ac.convert()).as_str());
                text.append(" + ");
                text.append(signed_decimal_string(mdr.convert()).as_str());
                text.append(" = ");
                text.append(signed_decimal_string(palabra.convert()).as_str());
                self.note_text(text);
                self.registers.ac = palabra;
                Ok(())
            },
            Err(err) => {
                self.registers.psw.set_codition(3)?;
                Err(err)
            },
        }
    }

    /// Ends an arithmetic operation: the result goes to AC; a fault sets
    /// condition code 3.
    fn arithmetic(&mut self, result: Result<Palabra, Errors>) -> (r: Result_op)
        ensures
            (final(self)@, fault_of(r)) == old(self)@.arithmetic(
                crate::hardware::architecture::word_result(result),
            ),
            old(self).registers.wf() ==> final(self).registers.wf(),
    {
        match result {
            Ok(palabra) => {
                self.note_word(palabra);
                self.registers.ac = palabra;
                Ok(())
            },
            Err(err) => {
                self.registers.psw.set_codition(3)?;
                Err(err)
            },
        }
    }

    /// AC − MDR goes to AC. An overflow or underflow sets condition code 3
    /// and leaves AC as it was.
    pub fn rest(&mut self) -> (r: Result_op)
        ensures
            (final(self)@, fault_of(r)) == old(self)@.rest(),
            old(self).registers.wf() ==> final(self).registers.wf(),
    {
        self.arithmetic(self.registers.ac - self.registers.mdr)
    }

    /// AC × MDR goes to AC. An overflow or underflow sets condition code 3
    /// and leaves AC as it was.
    pub fn mult(&mut self) -> (r: Result_op)
        ensures
            (final(self)@, fault_of(r)) == old(self)@.mult(),
            old(self).registers.wf() ==> final(self).registers.wf(),
    {
        self.arithmetic(self.registers.ac * self.registers.mdr)
    }

    /// AC ÷ MDR goes to AC. A zero in MDR is an invalid instruction; it
    /// sets condition code 3 and leaves AC as it was.
    pub fn divi(&mut self) -> (r: Result_op)
        ensures
            (final(self)@, fault_of(r)) == old(self)@.divi(),
            old(self).registers.wf() ==> final(self).registers.wf(),
    {
        self.arithmetic(self.registers.ac / self.registers.mdr)
    }

    /// MDR goes to AC.
    pub fn load(&mut self) -> (r: Result_op)
        ensures
            (final(self)@, fault_of(r)) == old(self)@.load(),
            old(self).registers.wf() ==> final(self).registers.wf(),
    {
        self.registers.ac = self.registers.mdr;
        let mut text = String::from_str("Se movio ");
        text.append(signed_decimal_string(self.registers.mdr.convert()).as_str());
        text.append(" -> [AC]");
        self.note_text(text);
        Ok(())
    }

    /// MDR goes to the memory word that MAR names.
    pub fn store(&mut self, ram: &mut Ram) -> (r: Result_op)
        ensures
            (final(self)@, final(ram)@, fault_of(r)) == old(self)@.store(old(ram)@),
            old(self).registers.wf() ==> final(self).registers.wf(),
    {
        let address = self.registers.mar.convert();
        ram.writeMemory(address, self.registers.mdr)?;
        let mut text = String::from_str("Se movio [AC] -> RAM[");
        text.append(signed_decimal_string(address).as_str());
        text.append("]");
        self.note_text(text);
        Ok(())
    }

    /// RX goes to AC.
    pub fn load_rx(&mut self) -> (r: Result_op)
        ensures
            (final(self)@, fault_of(r)) == old(self)@.load_rx(),
            old(self).registers.wf() ==> final(self).registers.wf(),
    {
        self.registers.ac = self.registers.rx;
        self.note_word(self.registers.ac);
        Ok(())
    }

    /// AC goes to RX. A word that is no address is refused and changes nothing.
    pub fn store_rx(&mut self) -> (r: Result_op)
        ensures
            (final(self)@, fault_of(r)) == old(self)@.store_rx(),
            old(self).registers.wf() ==> final(self).registers.wf(),
    {
        self.registers.set_rx(self.registers.ac)?;
        self.note_word(self.registers.rx);
        Ok(())
    }

    /// Compares AC with MDR and sets the condition code: 0 where they are
    /// equal, 1 where AC is less, 2 where it is greater.
    pub fn comp(&mut self) -> (r: Result_op)
        ensures
            (final(self)@, fault_of(r)) == old(self)@.comp(),
            old(self).registers.wf() ==> final(self).registers.wf(),
    {
        let ac = self.registers.ac;
        let mdr = self.registers.mdr;
        let comp = match ac - mdr {
            Ok(d) => d.convert(),
            Err(err) => {
                return Err(err);
            },
        };
        if comp == 0 {
            self.registers.psw.set_codition(0)?;
        } else if comp < 0 {
            self.registers.psw.set_codition(1)?;
        } else {
            self.registers.psw.set_codition(2)?;
        }
        let mut text = String::from_str("Comparación AC: ");
        text.append(signed_decimal_string(ac.convert()).as_str());
        text.append(" con MDR: ");
        text.append(signed_decimal_string(mdr.convert()).as_str());
        self.note_text(text);
        Ok(())
    }

    /// Ends a conditional jump once the top of the stack was read.
    fn jump_if(&mut self, ram: &Ram, taken: bool, label: &str) -> (r: Result_op)
        requires
            crate::hardware::ram::valid_address(old(self).registers.sp.value()),
        ensures
            (final(self)@, fault_of(r)) == old(self)@.jump_if(ram@, taken, label@),
            old(self).registers.wf() ==> final(self).registers.wf(),
    {
        let target = self.registers.mdr.convert();
        if taken {
            self.registers.psw.set_pc(target)?;
        }
        self.note_text(labelled_string(label, target));
        Ok(())
    }

    /// Jumps to MDR where AC and the word on top of the stack are the same word.
    pub fn jmpe(&mut self, ram: &Ram) -> (r: Result_op)
        ensures
            (final(self)@, fault_of(r)) == old(self)@.jmpe(ram@),
            old(self).registers.wf() ==> final(self).registers.wf(),
    {
        let memory_readed = ram.readMemory(self.registers.sp.convert())?;
        let taken = self.registers.ac == memory_readed;
        self.jump_if(ram, taken, "No Salto a la dirección ")
    }

    /// Jumps to MDR where AC and the word on top of the stack are different words.
    pub fn jmpne(&mut self, ram: &Ram) -> (r: Result_op)
        ensures
            (final(self)@, fault_of(r)) == old(self)@.jmpne(ram@),
            old(self).registers.wf() ==> final(self).registers.wf(),
    {
        let memory_readed = ram.readMemory(self.registers.sp.convert())?;
        let taken = self.registers.ac != memory_readed;
        self.jump_if(ram, taken, " No Salto a la dirección ")
    }

    /// Jumps to MDR where AC is less than the word on top of the stack.
    pub fn jmplt(&mut self, ram: &Ram) -> (r: Result_op)
        ensures
            (final(self)@, fault_of(r)) == old(self)@.jmplt(ram@),
            old(self).registers.wf() ==> final(self).registers.wf(),
    {
        let memory_readed = ram.readMemory(self.registers.sp.convert())?;
        let taken = self.registers.ac.convert() < memory_readed.convert();
        self.jump_if(ram, taken, "No Salto a la dirección ")
    }

    /// Jumps to MDR where AC is greater than the word on top of the stack.
    pub fn jmplgt(&mut self, ram: &Ram) -> (r: Result_op)
        ensures
            (final(self)@, fault_of(r)) == old(self)@.jmplgt(ram@),
            old(self).registers.wf() ==> final(self).registers.wf(),
    {
        let memory_readed = ram.readMemory(self.registers.sp.convert())?;
        let taken = self.registers.ac.convert() > memory_readed.convert();
        self.jump_if(ram, taken, "No Salto a la dirección ")
    }

    /// The supervisor call: it ends in the fault that raises the system-call cause.
    pub fn svc(&mut self) -> (r: Result_op)
        ensures
            (final(self)@, fault_of(r)) == old(self)@.svc(),
            old(self).registers.wf() ==> final(self).registers.wf(),
    {
        self.note_text(labelled_string("Llamada al sistema ", self.registers.ac.convert()));
        Err(fault("Llamada al sistema", Interrups::CallSys))
    }

    /// Pushes AC: SP steps down by one and AC is stored where it then
    /// points. A push that would take SP below RX is an invalid instruction
    /// and changes nothing. A push for a context save leaves no note.
    pub fn psh(&mut self, ram: &mut Ram, is_save_context: bool) -> (r: Result_op)
        ensures
            (final(self)@, final(ram)@, fault_of(r)) == old(self)@.psh(
                old(ram)@,
                is_save_context,
            ),
            ({
                let before = old(self).registers;
                before.sp.value() - 1 < before.rx.value() ==> r is Err && final(self)@ == old(
                    self,
                )@ && final(ram)@ == old(ram)@ && (before.wf() ==> r->Err_0.cod
                    == Interrups::InstInv)
            }),
            old(self).registers.wf() ==> final(self).registers.wf(),
    {
        let new_sp = match self.registers.sp - (Palabra { palabra: 1 }) {
            Ok(p) => p,
            Err(err) => {
                return Err(err);
            },
        };
        if new_sp.convert() < self.registers.rx.convert() {
            return Err(fault("Stack Overflow", Interrups::InstInv));
        }
        ram.writeMemory(new_sp.convert(), self.registers.ac)?;
        self.registers.sp = new_sp;
        if !is_save_context {
            self.note_text(labelled_string("Push de ac  ", self.registers.ac.convert()));
        }
        Ok(())
    }

    /// Pops into AC: AC takes the word that SP points to and SP steps up by
    /// one. A pop that would take SP out of the memory is refused and
    /// changes nothing. A pop for a context restore leaves no note.
    pub fn pop(&mut self, ram: &Ram, is_save_context: bool) -> (r: Result_op)
        ensures
            (final(self)@, fault_of(r)) == old(self)@.pop(ram@, is_save_context),
            old(self).registers.wf() ==> final(self).registers.wf(),
    {
        let new_sp = match self.registers.sp + (Palabra { palabra: 1 }) {
            Ok(p) => p,
            Err(err) => {
                return Err(err);
            },
        };
        let value_stack = ram.readMemory(self.registers.sp.convert())?;
        self.registers.set_sp(new_sp)?;
        self.registers.ac = value_stack;
        if !is_save_context {
            self.note_text(labelled_string("Pop de ac ", self.registers.ac.convert()));
        }
        Ok(())
    }

    /// Returns from a subroutine: pops the address into AC and jumps to it.
    pub fn retrn(&mut self, ram: &Ram) -> (r: Result_op)
        ensures
            (final(self)@, fault_of(r)) == old(self)@.retrn(ram@),
            old(self).registers.wf() ==> final(self).registers.wf(),
    {
        self.pop(ram, false)?;
        let target = self.registers.ac.convert();
        self.registers.psw.set_pc(target)?;
        self.note_text(labelled_string("Retorno de subrutina hacia  ac ", target));
        Ok(())
    }

    /// Enables or disables interrupts, for the kernel only.
    fn enable(&mut self, inte: u8, note: &str) -> (r: Result_op)
        requires
            inte <= 1,
        ensures
            (final(self)@, fault_of(r)) == old(self)@.enable(inte, note@),
            old(self).registers.wf() ==> final(self).registers.wf(),
    {
        if self.registers.psw.modo_op == 0 {
            return Err(fault("Falta de privilegios, se necesita modo kernel", Interrups::InstInv));
        }
        self.registers.psw.set_inte(inte)?;
        self.note_text(String::from_str(note));
        Ok(())
    }

    /// Enables interrupts; an invalid instruction in user mode.
    pub fn hab(&mut self) -> (r: Result_op)
        ensures
            (final(self)@, fault_of(r)) == old(self)@.hab(),
            old(self).registers.wf() ==> final(self).registers.wf(),
    {
        self.enable(1, "Se habilitan interrupciones")
    }

    /// Disables interrupts; an invalid instruction in user mode.
    pub fn dhab(&mut self) -> (r: Result_op)
        ensures
            (final(self)@, fault_of(r)) == old(self)@.dhab(),
            old(self).registers.wf() ==> final(self).registers.wf(),
    {
        self.enable(0, "Se desahabilitan las interrupciones")
    }

    /// Sets the cycles between two clock interrupts to MDR; an invalid
    /// instruction in user mode or with a negative number.
    pub fn tti(&mut self) -> (r: Result_op)
        ensures
            (final(self)@, fault_of(r)) == old(self)@.tti(),
            old(self).registers.wf() ==> final(self).registers.wf(),
    {
        if self.registers.psw.modo_op == 0 {
            return Err(fault("Falta de privilegios, se necesita modo kernel", Interrups::InstInv));
        }
        let data = self.registers.mdr.convert();
        if data < 0 {
            return Err(fault("El numero de reloj no puede ser negativo", Interrups::InstInv));
        }
        self.clock_interrupt = data as u32;
        self.note_text(labelled_string("Se cambio las interrupciones de reloj a ", data));
        Ok(())
    }

    /// Leaves kernel mode for user mode; an invalid instruction in user mode.
    pub fn chmod(&mut self) -> (r: Result_op)
        ensures
            (final(self)@, fault_of(r)) == old(self)@.chmod(),
            old(self).registers.wf() ==> final(self).registers.wf(),
    {
        if self.registers.psw.modo_op == 0 {
            return Err(fault("Falta de privilegios, se necesita modo kernel", Interrups::InstInv));
        }
        self.registers.psw.set_mode(0)?;
        Ok(())
    }

    /// RB goes to AC.
    pub fn load_rb(&mut self) -> (r: Result_op)
        ensures
            (final(self)@, fault_of(r)) == old(self)@.load_rb(),
            old(self).registers.wf() ==> final(self).registers.wf(),
    {
        self.registers.ac = self.registers.rb;
        self.note_text(labelled_string("Cargo rb en Ac ", self.registers.ac.convert()));
        Ok(())
    }

    /// AC goes to RB. A word that is no address is refused and changes nothing.
    pub fn store_rb(&mut self) -> (r: Result_op)
        ensures
            (final(self)@, fault_of(r)) == old(self)@.store_rb(),
            old(self).registers.wf() ==> final(self).registers.wf(),
    {
        self.registers.set_rb(self.registers.ac)?;
        self.note_text(labelled_string("Cargo Ac en Rb ", self.registers.ac.convert()));
        Ok(())
    }

    /// RL goes to AC.
    pub fn load_rl(&mut self) -> (r: Result_op)
        ensures
            (final(self)@, fault_of(r)) == old(self)@.load_rl(),
            old(self).registers.wf() ==> final(self).registers.wf(),
    {
        self.registers.ac = self.registers.rl;
        self.note_text(labelled_string("Cargo Rl en Ac ", self.registers.ac.convert()));
        Ok(())
    }

    /// AC goes to RL. A word that is no address is refused and changes nothing.
    pub fn store_rl(&mut self) -> (r: Result_op)
        ensures
            (final(self)@, fault_of(r)) == old(self)@.store_rl(),
            old(self).registers.wf() ==> final(self).registers.wf(),
    {
        self.registers.set_rl(self.registers.ac)?;
        self.note_text(labelled_string("Cargo Ac en Rl ", self.registers.ac.convert()));
        Ok(())
    }

    /// SP goes to AC.
    pub fn load_sp(&mut self) -> (r: Result_op)
        ensures
            (final(self)@, fault_of(r)) == old(self)@.load_sp(),
            old(self).registers.wf() ==> final(self).registers.wf(),
    {
        self.registers.ac = self.registers.sp;
        self.note_text(labelled_string("Cargo Sp en Ac ", self.registers.ac.convert()));
        Ok(())
    }

    /// AC goes to SP. A word that is no address is refused and changes nothing.
    pub fn store_sp(&mut self) -> (r: Result_op)
        ensures
            (final(self)@, fault_of(r)) == old(self)@.store_sp(),
            old(self).registers.wf() ==> final(self).registers.wf(),
    {
        self.registers.set_sp(self.registers.ac)?;
        self.note_text(labelled_string("Cargo Ac en Sp ", self.registers.ac.convert()));
        Ok(())
    }

    /// Jumps to MDR.
    pub fn j(&mut self) -> (r: Result_op)
        ensures
            (final(self)@, fault_of(r)) == old(self)@.j(),
            old(self).registers.wf() ==> final(self).registers.wf(),
    {
        let target = self.registers.mdr.convert();
        self.registers.psw.set_pc(target)?;
        self.note_text(labelled_string("Salto indirecto a ", target));
        Ok(())
    }

    /// MDR, cut to eight bits, goes to the track of the DMA request.
    pub fn sdmap(&mut self) -> (r: Result_op)
        ensures
            (final(self)@, fault_of(r)) == old(self)@.sdmap(),
            old(self).registers.wf() ==> final(self).registers.wf(),
    {
        let v = self.registers.mdr.convert();
        self.dma_temp.pista_acceder = #[verifier::truncate]
        (v as i8);
        self.note_text(labelled_string(" Se seteo la pista en el dma ", v));
        Ok(())
    }

    /// MDR, cut to eight bits, goes to the cylinder of the DMA request.
    pub fn sdmac(&mut self) -> (r: Result_op)
        ensures
            (final(self)@, fault_of(r)) == old(self)@.sdmac(),
            old(self).registers.wf() ==> final(self).registers.wf(),
    {
        let v = self.registers.mdr.convert();
        self.dma_temp.cil_acceder = #[verifier::truncate]
        (v as i8);
        self.note_text(labelled_string(" Se seteo el cilindro en el dma ", v));
        Ok(())
    }

    /// MDR, cut to eight bits, goes to the sector of the DMA request.
    pub fn sdmas(&mut self) -> (r: Result_op)
        ensures
            (final(self)@, fault_of(r)) == old(self)@.sdmas(),
            old(self).registers.wf() ==> final(self).registers.wf(),
    {
        let v = self.registers.mdr.convert();
        self.dma_temp.sector_acceder = #[verifier::truncate]
        (v as i8);
        self.note_text(labelled_string(" Se seteo el sector en el dma ", v));
        Ok(())
    }

    /// MDR, cut to eight bits, goes to the direction of the DMA request.
    pub fn sdmaio(&mut self) -> (r: Result_op)
        ensures
            (final(self)@, fault_of(r)) == old(self)@.sdmaio(),
            old(self).registers.wf() ==> final(self).registers.wf(),
    {
        let v = self.registers.mdr.convert();
        self.dma_temp.modo = #[verifier::truncate]
        (v as i8);
        self.note_text(labelled_string(" Se seteo el modo en el dma ", v));
        Ok(())
    }

    /// MDR goes to the memory address of the DMA request.
    pub fn sdmam(&mut self) -> (r: Result_op)
        ensures
            (final(self)@, fault_of(r)) == old(self)@.sdmam(),
            old(self).registers.wf() ==> final(self).registers.wf(),
    {
        let v = self.registers.mdr.convert();
        self.dma_temp.pos_men = v;
        self.note_text(labelled_string(" Se seteo la posicion de memoria en el dma ", v));
        Ok(())
    }

    /// Hands the DMA request over to the controller.
    pub fn sdmaon(&mut self) -> (r: Result_op)
        ensures
            (final(self)@, fault_of(r)) == old(self)@.sdmaon(),
            old(self).registers.wf() ==> final(self).registers.wf(),
    {
        self.note_text(String::from_str(" Se inicio la operación dma "));
        self.dma_request = Some(self.dma_temp);
        Ok(())
    }
    /// Fetches the next instruction. In user mode the program counter must
    /// lie in the window from RB up to, not including, RX; outside it the
    /// fetch is an invalid address and touches no register. Else MAR takes
    /// the program counter, MDR the word at it, IR the instruction that
    /// this word spells, and the program counter steps on by one.
    pub fn fetch(&mut self, ram: &Ram) -> (r: Result_op)
        ensures
            (final(self)@, fault_of(r)) == old(self)@.fetch(ram@),
            ({
                let before = old(self).registers;
                before.psw.modo_op != 1 && !(before.rb.value() <= before.psw.pc
                    < before.rx.value()) ==> r is Err && r->Err_0.cod == Interrups::DirInv
                    && final(self).registers == before
            }),
            old(self).registers.wf() ==> final(self).registers.wf(),
    {
        let pc = self.registers.psw.pc;
        if self.registers.psw.modo_op != 1 {
            if pc < self.registers.rb.convert() || pc >= self.registers.rx.convert() {
                self.note_text(String::from_str("Fuera de los límites de memoria"));
                return Err(fault("Fuera de los límites de memoria", Interrups::DirInv));
            }
        }
        let pos_mem_palabra = match Palabra::from_value(pc) {
            Some(p) => p,
            None => {
                return Err(fault("Error al transformar palabra pc", Interrups::InstInv));
            },
        };
        self.registers.set_mar(pos_mem_palabra)?;
        self.registers.mdr = ram.readMemory(pc)?;
        self.registers.ir = Instruction::new(self.registers.mdr);
        self.registers.psw.pc = pc + 1;
        Ok(())
    }

    /// The address that operands are counted from: zero in kernel mode,
    /// RB in user mode.
    fn base(&self) -> (b: i64)
        ensures
            b == self@.base(),
    {
        if self.registers.psw.modo_op == 1 {
            0
        } else {
            self.registers.rb.convert() as i64
        }
    }

    /// Checks an address against the mode the CPU is in and gives its word.
    fn checked_address(&mut self, address: i64) -> (r: Result<Palabra, Errors>)
        requires
            -30_000_000 <= address <= 5_000_000_000,
        ensures
            match old(self)@.address_check(address as int) {
                Some(f) => r is Err && r->Err_0@ == f && final(self)@ == old(self)@.text(
                    "Direccionamiento Invalido "@,
                ),
                None => final(self)@ == old(self)@ && if Palabra::in_range(address as int) {
                    r == Ok::<Palabra, Errors>(Palabra::encode(address as int))
                } else {
                    r is Err && r->Err_0@ == crate::hardware::semantics::operand_fault()
                },
            },
            old(self).registers.wf() ==> final(self).registers.wf(),
    {
        if self.registers.psw.modo_op == 1 {
            if address > 2000 || address < 0 {
                self.note_text(String::from_str("Direccionamiento Invalido "));
                return Err(fault("Direccionamiento Invalido ", Interrups::DirInv));
            }
        } else {
            if address >= self.registers.rx.convert() as i64 {
                self.note_text(String::from_str("Direccionamiento Invalido "));
                return Err(fault("Direccionamiento Invalido Overflow", Interrups::DirInv));
            }
        }
        if address < -9_999_999 {
            return Err(fault("Dir invalida", Interrups::DirInv));
        }
        match Palabra::from_value(address as i32) {
            Some(dir) => Ok(dir),
            None => Err(fault("Dir invalida", Interrups::DirInv)),
        }
    }

    /// Resolves the operand of an instruction that reads memory.
    fn operand_at(&mut self, address: i64, ram: &Ram) -> (r: Result_op)
        requires
            -30_000_000 <= address <= 5_000_000_000,
        ensures
            (final(self)@, fault_of(r)) == old(self)@.operand_at(address as int, ram@),
            old(self).registers.wf() ==> final(self).registers.wf(),
    {
        let dir = self.checked_address(address)?;
        self.registers.set_mar(dir)?;
        let value = ram.readMemory(self.registers.mar.convert())?;
        self.registers.set_mdr(value);
        Ok(())
    }

    /// Resolves the operand of a store.
    fn target_at(&mut self, address: i64) -> (r: Result_op)
        requires
            -30_000_000 <= address <= 5_000_000_000,
        ensures
            (final(self)@, fault_of(r)) == old(self)@.target_at(address as int),
            old(self).registers.wf() ==> final(self).registers.wf(),
    {
        let dir = self.checked_address(address)?;
        self.registers.set_mar(dir)?;
        self.registers.set_mdr(self.registers.ac);
        Ok(())
    }

    /// The direct mode: MAR takes base plus operand and MDR the word there.
    /// The base is RB in user mode, where the address must lie below RX,
    /// and zero in kernel mode, where it must lie in the memory.
    pub fn dir_direct(&mut self, ram: &Ram) -> (r: Result_op)
        ensures
            (final(self)@, fault_of(r)) == old(self)@.dir_direct(ram@),
            old(self).registers.wf() ==> final(self).registers.wf(),
    {
        let address = self.base() + self.registers.ir.value as i64;
        self.operand_at(address, ram)
    }

    /// The direct mode of the store: MAR takes base plus operand and MDR
    /// takes AC.
    pub fn dir_direct_store(&mut self) -> (r: Result_op)
        ensures
            (final(self)@, fault_of(r)) == old(self)@.dir_direct_store(),
            old(self).registers.wf() ==> final(self).registers.wf(),
    {
        let address = self.base() + self.registers.ir.value as i64;
        self.target_at(address)
    }

    /// The indexed mode of the store: MAR takes base plus operand plus AC
    /// and MDR takes AC.
    pub fn dir_indexed_store(&mut self) -> (r: Result_op)
        ensures
            (final(self)@, fault_of(r)) == old(self)@.dir_indexed_store(),
            old(self).registers.wf() ==> final(self).registers.wf(),
    {
        let address = self.base() + self.registers.ir.value as i64
            + self.registers.ac.convert() as i64;
        self.target_at(address)
    }

    /// The immediate mode: MDR takes the operand itself.
    pub fn dir_inmediate(&mut self) -> (r: Result_op)
        ensures
            (final(self)@, fault_of(r)) == old(self)@.dir_inmediate(),
            old(self).registers.wf() ==> final(self).registers.wf(),
    {
        if self.registers.ir.value > 9_999_999 {
            return Err(fault("Dir invalida", Interrups::DirInv));
        }
        let value = match Palabra::from_value(self.registers.ir.value as i32) {
            Some(p) => p,
            None => {
                return Err(fault("Dir invalida", Interrups::DirInv));
            },
        };
        self.registers.set_mdr(value);
        Ok(())
    }

    /// The indexed mode: MAR takes base plus operand plus AC and MDR the
    /// word there.
    pub fn dir_indexed(&mut self, ram: &Ram) -> (r: Result_op)
        ensures
            (final(self)@, fault_of(r)) == old(self)@.dir_indexed(ram@),
            old(self).registers.wf() ==> final(self).registers.wf(),
    {
        let address = self.base() + self.registers.ir.value as i64
            + self.registers.ac.convert() as i64;
        self.operand_at(address, ram)
    }

    /// Resolves the operand of the instruction in IR by its addressing
    /// mode. Every operation but the store takes mode 0 (direct), 1
    /// (immediate) or 2 (indexed); the store, operation 5, takes mode 0
    /// (direct) or 2 (indexed). Any other mode is an invalid address.
    pub fn decode(&mut self, ram: &Ram) -> (r: Result_op)
        ensures
            (final(self)@, fault_of(r)) == old(self)@.decode(ram@),
            old(self).registers.wf() ==> final(self).registers.wf(),
    {
        if self.registers.ir.opcode != 5 {
            match self.registers.ir.dir {
                0 => self.dir_direct(ram),
                1 => self.dir_inmediate(),
                2 => self.dir_indexed(ram),
                _ => {
                    self.note_text(String::from_str(" Codigo de direccionamiento inválido"));
                    Err(fault("Codigo de direccionamiento inválido", Interrups::DirInv))
                },
            }
        } else {
            match self.registers.ir.dir {
                0 => self.dir_direct_store(),
                2 => self.dir_indexed_store(),
                _ => {
                    self.note_text(String::from_str(" Codigo de direccionamiento inválido"));
                    Err(fault("Codigo de direccionamiento inválido store", Interrups::DirInv))
                },
            }
        }
    }

    /// Saves the context of the running program on its stack: AC, RB, RL,
    /// RX and the status word, in this order; AC is then as it was. A push
    /// that fails ends the save where it stands.
    pub fn save_context(&mut self, ram: &mut Ram) -> (r: Result_op)
        ensures
            (final(self)@, final(ram)@, fault_of(r)) == old(self)@.save_context(old(ram)@),
            old(self).registers.wf() ==> final(self).registers.wf(),
    {
        reveal(CpuView::save_context);
        let ac_temp = self.registers.ac;
        self.psh(ram, true)?;
        self.registers.ac = self.registers.rb;
        self.psh(ram, true)?;
        self.registers.ac = self.registers.rl;
        self.psh(ram, true)?;
        self.registers.ac = self.registers.rx;
        self.psh(ram, true)?;
        let status = match Palabra::new(self.registers.psw.convert_to_palabra().as_str()) {
            Some(p) => p,
            None => {
                return Err(fault("Palabra de estado invalida", Interrups::InstInv));
            },
        };
        self.registers.ac = status;
        self.psh(ram, true)?;
        self.registers.ac = ac_temp;
        Ok(())
    }

    /// Restores the context of the interrupted program from its stack: the
    /// status word, RX, RL, RB and AC, in this order. A word that does not
    /// fit its register leaves the register as it is. A pop that fails ends
    /// the restore where it stands.
    pub fn restore_context(&mut self, ram: &Ram) -> (r: Result_op)
        ensures
            (final(self)@, fault_of(r)) == old(self)@.restore_context(ram@),
            old(self).registers.wf() ==> final(self).registers.wf(),
    {
        reveal(CpuView::restore_context);
        self.pop(ram, true)?;
        let _ = self.registers.psw.convert_to_psw_by_palabra(self.registers.ac);
        self.pop(ram, true)?;
        let _ = self.registers.set_rx(self.registers.ac);
        self.pop(ram, true)?;
        let _ = self.registers.set_rl(self.registers.ac);
        self.pop(ram, true)?;
        let _ = self.registers.set_rb(self.registers.ac);
        self.pop(ram, true)
    }

    /// Leaves the note of the trap of a cause.
    fn trap_note(&mut self, cause: Interrups)
        ensures
            final(self)@ == old(self)@.text(
                crate::hardware::semantics::trap_text(cause, old(self).registers.ac.value()),
            ),
    {
        let text = match cause {
            Interrups::CodCallSysInv => String::from_str("Llamada a sistema invalida"),
            Interrups::CodIntInv => String::from_str("Codigo de interrupcion invalida"),
            Interrups::CallSys => {
                let ac = self.registers.ac.convert();
                if ac == 1 {
                    String::from_str("Programa terminado correctamente")
                } else {
                    labelled_string("Se ejecuto rutina Llamada el sistema codigo: ", ac)
                }
            },
            Interrups::Clock => String::from_str("Llamada a sistema invalida"),
            Interrups::EndIO => String::from_str("Termino I/O"),
            Interrups::InstInv => String::from_str("Instrucción Inválida"),
            Interrups::DirInv => String::from_str("Direccionamiento Inválido"),
            Interrups::Underflow => String::from_str("Underflow"),
            Interrups::Overflow => String::from_str("Overflow"),
        };
        self.note_text(text);
    }

    /// Runs the trap of a cause: the cause is served, the CPU goes back to
    /// user mode, and the program is ended, where the handler asks for
    /// that, or its context restored. A program that is ended counts as
    /// failed, but for the system call.
    pub fn trap(&mut self, cause: Interrups, ram: &Ram, external_int: &mut External_interrupt)
        ensures
            machine_of(*final(self), *ram, *final(external_int)) == machine_of(
                *old(self),
                *ram,
                *old(external_int),
            ).trap(cause),
            old(self).registers.wf() ==> final(self).registers.wf(),
    {
        let response_handle = handle_interrupt(&mut self.registers, cause, ram, external_int);
        let _ = self.chmod();
        self.trap_note(cause);
        match response_handle {
            ContinueOrBreak::Break => {
                self.have_user_program = false;
                if cause != Interrups::CallSys {
                    self.result_last_program.result_program = Result_Execute_program::Error;
                }
            },
            ContinueOrBreak::Continue => {
                let _ = self.restore_context(ram);
            },
        }
    }

    /// Runs the operation of programs that the code in IR names: codes 0
    /// to 33. Any other code is an invalid instruction.
    pub fn operate(&mut self, ram: &mut Ram) -> (r: Result_op)
        ensures
            (final(self)@, final(ram)@, fault_of(r)) == old(self)@.operate(old(ram)@),
            old(self).registers.wf() ==> final(self).registers.wf(),
    {
        reveal(CpuView::operate);
        match self.registers.ir.opcode {
            0 => self.sum(),
            1 => self.rest(),
            2 => self.mult(),
            3 => self.divi(),
            4 => self.load(),
            5 => self.store(ram),
            6 => self.load_rx(),
            7 => self.store_rx(),
            8 => self.comp(),
            9 => self.jmpe(ram),
            10 => self.jmpne(ram),
            11 => self.jmplt(ram),
            12 => self.jmplgt(ram),
            13 => self.svc(),
            14 => self.retrn(ram),
            15 => self.hab(),
            16 => self.dhab(),
            17 => self.tti(),
            18 => self.chmod(),
            19 => self.load_rb(),
            20 => self.store_rb(),
            21 => self.load_rl(),
            22 => self.store_rl(),
            23 => self.load_sp(),
            24 => self.store_sp(),
            25 => self.psh(ram, false),
            26 => self.pop(ram, false),
            27 => self.j(),
            28 => self.sdmap(),
            29 => self.sdmac(),
            30 => self.sdmas(),
            31 => self.sdmaio(),
            32 => self.sdmam(),
            33 => self.sdmaon(),
            _ => {
                self.note_text(String::from_str("Instrucción invalida execute"));
                Err(fault("Instrucción invalida execute", Interrups::InstInv))
            },
        }
    }

    /// Executes the instruction in IR. Codes 90 to 98 are the traps of the
    /// nine causes, and a trap always succeeds; every other code is an
    /// operation of programs or an invalid instruction.
    pub fn execute(&mut self, ram: &mut Ram, external_int: &mut External_interrupt) -> (r:
        Result_op)
        ensures
            machine_of(*final(self), *final(ram), *final(external_int)) == machine_of(
                *old(self),
                *old(ram),
                *old(external_int),
            ).execute().machine,
            fault_of(r) == machine_of(*old(self), *old(ram), *old(external_int)).execute().fault,
            old(self).registers.wf() ==> final(self).registers.wf(),
    {
        match Interrups::trap_cause(self.registers.ir.opcode) {
            Some(cause) => {
                self.trap(cause, ram, external_int);
                Ok(())
            },
            None => self.operate(ram),
        }
    }

    /// Fetch, decode and execute, each only where the one before it succeeded.
    pub fn fetch_decode_execute(
        &mut self,
        ram: &mut Ram,
        external_int: &mut External_interrupt,
    ) -> (r: Result_op)
        ensures
            machine_of(*final(self), *final(ram), *final(external_int)) == machine_of(
                *old(self),
                *old(ram),
                *old(external_int),
            ).fetch_decode_execute().machine,
            fault_of(r) == machine_of(
                *old(self),
                *old(ram),
                *old(external_int),
            ).fetch_decode_execute().fault,
            old(self).registers.wf() ==> final(self).registers.wf(),
    {
        self.fetch(ram)?;
        self.decode(ram)?;
        self.execute(ram, external_int)
    }

    /// Looks at the interrupt flags. Where one is up, the cause that is
    /// served next takes the CPU to kernel mode and the program counter to
    /// the entry of the cause in the vector table. After the end of I/O,
    /// the clock and the system call the program goes on, so its context is
    /// saved first; a save that fails is the fault of the vectoring.
    pub fn vector_interrupt(&mut self, ram: &mut Ram, external_int: &External_interrupt) -> (r:
        Result_op)
        ensures
            machine_of(*final(self), *final(ram), *external_int) == machine_of(
                *old(self),
                *old(ram),
                *external_int,
            ).vector_interrupt().machine,
            fault_of(r) == machine_of(*old(self), *old(ram), *external_int).vector_interrupt().fault,
            old(self).registers.wf() ==> final(self).registers.wf(),
    {
        match external_int.next_pending() {
            None => Ok(()),
            Some(cause) => {
                if cause.resumes() {
                    self.save_context(ram)?;
                }
                self.registers.psw.set_mode(1)?;
                self.registers.psw.pc = cause.vector();
                Ok(())
            },
        }
    }

    /// One instruction cycle. No DMA request is open when it starts. The
    /// instruction is fetched, decoded and executed; a fault puts up the
    /// flag of its cause. Then the flags are looked at; a vectoring that
    /// fails ends the program as failed.
    pub fn step(&mut self, ram: &mut Ram, external_int: &mut External_interrupt)
        ensures
            machine_of(*final(self), *final(ram), *final(external_int)) == machine_of(
                *old(self),
                *old(ram),
                *old(external_int),
            ).step(),
            old(self).registers.wf() ==> final(self).registers.wf(),
    {
        self.dma_request = None;
        match self.fetch_decode_execute(ram, external_int) {
            Ok(()) => (),
            Err(e) => external_int.raise(e.cod),
        }
        match self.vector_interrupt(ram, external_int) {
            Ok(_) => (),
            Err(_) => {
                self.result_last_program.result_program = Result_Execute_program::Error;
                self.have_user_program = false;
            },
        }
    }
    /// Takes the registers of a command: RB, RL, RX, SP and the program
    /// counter. A value that its register refuses leaves the register as it is.
    pub fn configure(&mut self, config: &Registers_Cpu_Config)
        ensures
            final(self)@ == old(self)@.configure(*config),
            old(self).registers.wf() ==> final(self).registers.wf(),
    {
        let _ = self.registers.set_rb(config.rb);
        let _ = self.registers.set_rl(config.rl);
        let _ = self.registers.set_rx(config.rx);
        let _ = self.registers.set_sp(config.sp);
        let _ = self.registers.psw.set_pc(config.pc);
    }

    /// One cycle for the debugger. A CPU that has a program runs its next
    /// cycle. One that has none starts the program of the command with one
    /// cycle, unless the command names no program, which is a program
    /// counter of -1 and reported as an error. The report tells the address
    /// of the instruction and, where its fields fit a word, the instruction.
    pub fn single_step(
        &mut self,
        config: &Registers_Cpu_Config,
        ram: &mut Ram,
        external_int: &mut External_interrupt,
    )
        ensures
            machine_of(*final(self), *final(ram), *final(external_int)) == machine_of(
                *old(self),
                *old(ram),
                *old(external_int),
            ).single_step(*config),
            old(self).registers.wf() ==> final(self).registers.wf(),
    {
        self.result_last_program.result_program = Result_Execute_program::Succes;
        if !self.have_user_program {
            if config.pc == -1 {
                self.result_last_program.result_program = Result_Execute_program::Error;
                self.note_text(String::from_str("No hay programa en ejecución"));
                return ;
            }
            self.configure(config);
            self.have_user_program = true;
        }
        self.result_last_program.dir_inst = self.registers.psw.pc;
        self.step(ram, external_int);
        let ir = self.registers.ir;
        if ir.opcode <= 99 && ir.dir <= 9 && ir.value <= 99_999 {
            self.result_last_program.instruction = ir.conver_to_palabra();
        }
    }

    /// Switches the machine off: the request that tells the DMA controller to stop.
    pub fn shutdown(&mut self) -> (request: Dma_Config)
        ensures
            request == (Dma_Config { state: State_Dma::Off, ..old(self).dma_temp }),
            final(self)@ == (CpuView { dma_temp: request, ..old(self)@ }),
    {
        self.dma_temp.state = State_Dma::Off;
        self.dma_temp
    }
}

} // verus!
