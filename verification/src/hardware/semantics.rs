//! What the CPU does, told as functions on values: each takes the machine
//! before an operation and gives the machine after it, with the fault the
//! operation ends in, if it ends in one. The executable CPU is held to
//! these functions operation by operation.
use vstd::prelude::*;
use crate::hardware::architecture::Palabra;
use crate::hardware::cpu::{Registers_Cpu_Config, Result_Execute_program};
use crate::hardware::dma::Dma_Config;
use crate::hardware::instructions::Instruction;
use crate::hardware::interrupts::{serve, External_interrupt, Interrups};
use crate::hardware::ram::{address_fault, valid_address};
use crate::hardware::registers::{counter_fault, is_address, register_fault, Pws, Registros};
use crate::text::signed_decimal;
use crate::utils::{ContinueOrBreak, Fault};

verus! {

/// What the last operation left for the people who watch the machine: a
/// word or a line of text.
pub enum Note {
    Palabra(Palabra),
    Texto(Seq<char>),
}

/// The report of the CPU on the running program, with its text as a
/// sequence of characters.
pub struct ExecuteView {
    pub result_program: Result_Execute_program,
    pub dir_inst: i32,
    pub instruction: Palabra,
    pub result_instruction: Note,
}

/// The CPU as a value, with every text as a sequence of characters.
pub struct CpuView {
    pub registers: Registros,
    pub clock_interrupt: u32,
    pub dma_temp: Dma_Config,
    pub have_user_program: bool,
    pub result_last_program: ExecuteView,
    pub dma_request: Option<Dma_Config>,
}

/// A label followed by a number.
pub open spec fn labelled(label: Seq<char>, v: int) -> Seq<char> {
    label + signed_decimal(v)
}

/// The word that carries the number one.
pub open spec fn one() -> Palabra {
    Palabra { palabra: 1 }
}

/// What a privileged operation reports in user mode.
pub open spec fn privilege_fault() -> Fault {
    Fault { cod: Interrups::InstInv, msg: "Falta de privilegios, se necesita modo kernel"@ }
}

/// What a push reports that would take the stack below its floor.
pub open spec fn stack_fault() -> Fault {
    Fault { cod: Interrups::InstInv, msg: "Stack Overflow"@ }
}

/// What an address reports that no word can carry.
pub open spec fn operand_fault() -> Fault {
    Fault { cod: Interrups::DirInv, msg: "Dir invalida"@ }
}

/// What a status word reports that does not fit the eight digits of a word.
pub open spec fn status_word_fault() -> Fault {
    Fault { cod: Interrups::InstInv, msg: "Palabra de estado invalida"@ }
}

/// What a trap leaves as its note, by cause; the system call tells its
/// number unless that is 1, the call that ends the program.
pub open spec fn trap_text(cause: Interrups, ac: int) -> Seq<char> {
    match cause {
        Interrups::CodCallSysInv => "Llamada a sistema invalida"@,
        Interrups::CodIntInv => "Codigo de interrupcion invalida"@,
        Interrups::CallSys => if ac == 1 {
            "Programa terminado correctamente"@
        } else {
            labelled("Se ejecuto rutina Llamada el sistema codigo: "@, ac)
        },
        Interrups::Clock => "Llamada a sistema invalida"@,
        Interrups::EndIO => "Termino I/O"@,
        Interrups::InstInv => "Instrucción Inválida"@,
        Interrups::DirInv => "Direccionamiento Inválido"@,
        Interrups::Underflow => "Underflow"@,
        Interrups::Overflow => "Overflow"@,
    }
}

impl CpuView {
    /// The CPU with other registers.
    pub open spec fn regs(self, registers: Registros) -> CpuView {
        CpuView { registers, ..self }
    }

    /// The CPU with a line of text as its note.
    pub open spec fn text(self, t: Seq<char>) -> CpuView {
        CpuView {
            result_last_program: ExecuteView {
                result_instruction: Note::Texto(t),
                ..self.result_last_program
            },
            ..self
        }
    }

    /// The CPU with a word as its note.
    pub open spec fn word(self, p: Palabra) -> CpuView {
        CpuView {
            result_last_program: ExecuteView {
                result_instruction: Note::Palabra(p),
                ..self.result_last_program
            },
            ..self
        }
    }

    /// The CPU with another accumulator.
    pub open spec fn ac(self, p: Palabra) -> CpuView {
        self.regs(Registros { ac: p, ..self.registers })
    }

    /// The CPU with another status word.
    pub open spec fn psw(self, psw: Pws) -> CpuView {
        self.regs(Registros { psw, ..self.registers })
    }

    /// The CPU with the program marked as ended in an error.
    pub open spec fn failed(self) -> CpuView {
        CpuView {
            result_last_program: ExecuteView {
                result_program: Result_Execute_program::Error,
                ..self.result_last_program
            },
            ..self
        }
    }

    /// The CPU with no program to run any more.
    pub open spec fn halted(self) -> CpuView {
        CpuView { have_user_program: false, ..self }
    }

    /// Fetch. In user mode the program counter must lie in the window
    /// from RB up to, not including, RX: outside it the fetch is an invalid
    /// address and touches no register. Else MAR takes the program
    /// counter, MDR the word at it, IR the instruction that this word
    /// spells, and the program counter steps on by one.
    pub open spec fn fetch(self, mem: Seq<Palabra>) -> (CpuView, Option<Fault>) {
        let r = self.registers;
        let pc = r.psw.pc as int;
        if r.psw.modo_op != 1 && !(r.rb.value() <= pc < r.rx.value()) {
            (
                self.text("Fuera de los límites de memoria"@),
                Some(Fault { cod: Interrups::DirInv, msg: "Fuera de los límites de memoria"@ }),
            )
        } else if !Palabra::in_range(pc) {
            (
                self,
                Some(Fault { cod: Interrups::InstInv, msg: "Error al transformar palabra pc"@ }),
            )
        } else if !valid_address(pc) {
            (self.regs(Registros { mar: Palabra::encode(pc), ..r }), Some(address_fault()))
        } else {
            (
                self.regs(
                    Registros {
                        mar: Palabra::encode(pc),
                        mdr: mem[pc],
                        ir: Instruction::decode(mem[pc]),
                        psw: Pws { pc: (pc + 1) as i32, ..r.psw },
                        ..r
                    },
                ),
                None,
            )
        }
    }

    /// The address an operand of the instruction is counted from: zero in
    /// kernel mode, the base register in user mode.
    pub open spec fn base(self) -> int {
        if self.registers.psw.modo_op == 1 {
            0
        } else {
            self.registers.rb.value()
        }
    }

    /// The address that the direct mode names.
    pub open spec fn direct_address(self) -> int {
        self.base() + self.registers.ir.value
    }

    /// The address that the indexed mode names: the accumulator is the index.
    pub open spec fn indexed_address(self) -> int {
        self.base() + self.registers.ir.value + self.registers.ac.value()
    }

    /// Whether the mode the CPU is in lets an instruction name the address:
    /// in kernel mode any address of the memory, in user mode any below RX.
    pub open spec fn address_check(self, address: int) -> Option<Fault> {
        if self.registers.psw.modo_op == 1 {
            if address > 2000 || address < 0 {
                Some(Fault { cod: Interrups::DirInv, msg: "Direccionamiento Invalido "@ })
            } else {
                None
            }
        } else {
            if address >= self.registers.rx.value() {
                Some(
                    Fault { cod: Interrups::DirInv, msg: "Direccionamiento Invalido Overflow"@ },
                )
            } else {
                None
            }
        }
    }

    /// Resolves the operand of an instruction that reads memory: MAR takes
    /// the address and MDR the word at it.
    pub open spec fn operand_at(self, address: int, mem: Seq<Palabra>) -> (
        CpuView,
        Option<Fault>,
    ) {
        match self.address_check(address) {
            Some(f) => (self.text("Direccionamiento Invalido "@), Some(f)),
            None => if !Palabra::in_range(address) {
                (self, Some(operand_fault()))
            } else {
                let pointed = self.regs(
                    Registros { mar: Palabra::encode(address), ..self.registers },
                );
                if !valid_address(address) {
                    (pointed, Some(address_fault()))
                } else {
                    (pointed.regs(Registros { mdr: mem[address], ..pointed.registers }), None)
                }
            },
        }
    }

    /// Resolves the operand of a store: MAR takes the address and MDR the accumulator.
    pub open spec fn target_at(self, address: int) -> (CpuView, Option<Fault>) {
        match self.address_check(address) {
            Some(f) => (self.text("Direccionamiento Invalido "@), Some(f)),
            None => if !Palabra::in_range(address) {
                (self, Some(operand_fault()))
            } else {
                (
                    self.regs(
                        Registros {
                            mar: Palabra::encode(address),
                            mdr: self.registers.ac,
                            ..self.registers
                        },
                    ),
                    None,
                )
            },
        }
    }

    /// The direct mode: the operand is the word at base plus operand field.
    pub open spec fn dir_direct(self, mem: Seq<Palabra>) -> (CpuView, Option<Fault>) {
        self.operand_at(self.direct_address(), mem)
    }

    /// The indexed mode: the operand is the word at base plus operand field plus AC.
    pub open spec fn dir_indexed(self, mem: Seq<Palabra>) -> (CpuView, Option<Fault>) {
        self.operand_at(self.indexed_address(), mem)
    }

    /// The direct mode of the store: the target is base plus operand field.
    pub open spec fn dir_direct_store(self) -> (CpuView, Option<Fault>) {
        self.target_at(self.direct_address())
    }

    /// The indexed mode of the store: the target is base plus operand field plus AC.
    pub open spec fn dir_indexed_store(self) -> (CpuView, Option<Fault>) {
        self.target_at(self.indexed_address())
    }

    /// The immediate mode: MDR takes the operand itself.
    pub open spec fn dir_inmediate(self) -> (CpuView, Option<Fault>) {
        let v = self.registers.ir.value as int;
        if Palabra::in_range(v) {
            (self.regs(Registros { mdr: Palabra::encode(v), ..self.registers }), None)
        } else {
            (self, Some(operand_fault()))
        }
    }

    /// Decode. Every operation but the store takes mode 0 (direct), 1
    /// (immediate) or 2 (indexed); the store, operation 5, takes mode 0
    /// (direct) or 2 (indexed). Any other mode is an invalid address.
    pub open spec fn decode(self, mem: Seq<Palabra>) -> (CpuView, Option<Fault>) {
        let ir = self.registers.ir;
        if ir.opcode != 5 {
            if ir.dir == 0 {
                self.dir_direct(mem)
            } else if ir.dir == 1 {
                self.dir_inmediate()
            } else if ir.dir == 2 {
                self.dir_indexed(mem)
            } else {
                (
                    self.text(" Codigo de direccionamiento inválido"@),
                    Some(
                        Fault {
                            cod: Interrups::DirInv,
                            msg: "Codigo de direccionamiento inválido"@,
                        },
                    ),
                )
            }
        } else {
            if ir.dir == 0 {
                self.dir_direct_store()
            } else if ir.dir == 2 {
                self.dir_indexed_store()
            } else {
                (
                    self.text(" Codigo de direccionamiento inválido"@),
                    Some(
                        Fault {
                            cod: Interrups::DirInv,
                            msg: "Codigo de direccionamiento inválido store"@,
                        },
                    ),
                )
            }
        }
    }

    /// How an arithmetic operation ends: the result goes to the
    /// accumulator; a fault sets condition code 3 and leaves the accumulator.
    pub open spec fn arithmetic(self, result: Result<Palabra, Fault>) -> (CpuView, Option<Fault>) {
        match result {
            Ok(p) => (self.ac(p).word(p), None),
            Err(f) => (self.psw(Pws { codition: 3, ..self.registers.psw }), Some(f)),
        }
    }

    /// AC + MDR.
    pub open spec fn sum(self) -> (CpuView, Option<Fault>) {
        let r = self.registers;
        match r.ac.plus(r.mdr) {
            Ok(p) => (
                self.ac(p).text(
                    "Suma: Ac:"@ + signed_decimal(r.ac.value()) + " + "@ + signed_decimal(
                        r.mdr.value(),
                    ) + " = "@ + signed_decimal(p.value()),
                ),
                None,
            ),
            Err(f) => (self.psw(Pws { codition: 3, ..r.psw }), Some(f)),
        }
    }

    /// AC − MDR.
    pub open spec fn rest(self) -> (CpuView, Option<Fault>) {
        self.arithmetic(self.registers.ac.minus(self.registers.mdr))
    }

    /// AC × MDR.
    pub open spec fn mult(self) -> (CpuView, Option<Fault>) {
        self.arithmetic(self.registers.ac.times(self.registers.mdr))
    }

    /// AC ÷ MDR.
    pub open spec fn divi(self) -> (CpuView, Option<Fault>) {
        self.arithmetic(self.registers.ac.over(self.registers.mdr))
    }

    /// MDR goes to AC.
    pub open spec fn load(self) -> (CpuView, Option<Fault>) {
        let r = self.registers;
        (
            self.ac(r.mdr).text("Se movio "@ + signed_decimal(r.mdr.value()) + " -> [AC]"@),
            None,
        )
    }

    /// MDR goes to the memory word that MAR names.
    pub open spec fn store(self, mem: Seq<Palabra>) -> (CpuView, Seq<Palabra>, Option<Fault>) {
        let r = self.registers;
        if valid_address(r.mar.value()) {
            (
                self.text("Se movio [AC] -> RAM["@ + signed_decimal(r.mar.value()) + "]"@),
                mem.update(r.mar.value(), r.mdr),
                None,
            )
        } else {
            (self, mem, Some(address_fault()))
        }
    }

    /// RX goes to AC.
    pub open spec fn load_rx(self) -> (CpuView, Option<Fault>) {
        (self.ac(self.registers.rx).word(self.registers.rx), None)
    }

    /// AC goes to RX, if it is an address.
    pub open spec fn store_rx(self) -> (CpuView, Option<Fault>) {
        let r = self.registers;
        if is_address(r.ac) {
            (self.regs(Registros { rx: r.ac, ..r }).word(r.ac), None)
        } else {
            (self, Some(register_fault()))
        }
    }

    /// Compares AC with MDR by their difference: condition code 0 where
    /// they are equal, 1 where AC is less, 2 where it is greater.
    pub open spec fn comp(self) -> (CpuView, Option<Fault>) {
        let r = self.registers;
        match r.ac.minus(r.mdr) {
            Err(f) => (self, Some(f)),
            Ok(d) => (
                self.psw(
                    Pws {
                        codition: if d.value() == 0 {
                            0u8
                        } else if d.value() < 0 {
                            1u8
                        } else {
                            2u8
                        },
                        ..r.psw
                    },
                ).text(
                    "Comparación AC: "@ + signed_decimal(r.ac.value()) + " con MDR: "@
                        + signed_decimal(r.mdr.value()),
                ),
                None,
            ),
        }
    }

    /// A conditional jump: the word on top of the stack is read, and where
    /// the condition holds of AC and that word the program counter takes MDR.
    pub open spec fn jump_if(self, mem: Seq<Palabra>, taken: bool, label: Seq<char>) -> (
        CpuView,
        Option<Fault>,
    ) {
        let r = self.registers;
        if !valid_address(r.sp.value()) {
            (self, Some(address_fault()))
        } else if taken && !(0 <= r.mdr.value() <= 99_999) {
            (self, Some(counter_fault()))
        } else {
            let psw = if taken {
                Pws { pc: r.mdr.value() as i32, ..r.psw }
            } else {
                r.psw
            };
            (self.psw(psw).text(labelled(label, r.mdr.value())), None)
        }
    }

    /// Jump where AC and the top of the stack are the same word.
    pub open spec fn jmpe(self, mem: Seq<Palabra>) -> (CpuView, Option<Fault>) {
        self.jump_if(
            mem,
            self.registers.ac == mem[self.registers.sp.value()],
            "No Salto a la dirección "@,
        )
    }

    /// Jump where AC and the top of the stack are different words.
    pub open spec fn jmpne(self, mem: Seq<Palabra>) -> (CpuView, Option<Fault>) {
        self.jump_if(
            mem,
            self.registers.ac != mem[self.registers.sp.value()],
            " No Salto a la dirección "@,
        )
    }

    /// Jump where AC is less than the top of the stack.
    pub open spec fn jmplt(self, mem: Seq<Palabra>) -> (CpuView, Option<Fault>) {
        self.jump_if(
            mem,
            self.registers.ac.value() < mem[self.registers.sp.value()].value(),
            "No Salto a la dirección "@,
        )
    }

    /// Jump where AC is greater than the top of the stack.
    pub open spec fn jmplgt(self, mem: Seq<Palabra>) -> (CpuView, Option<Fault>) {
        self.jump_if(
            mem,
            self.registers.ac.value() > mem[self.registers.sp.value()].value(),
            "No Salto a la dirección "@,
        )
    }

    /// The supervisor call: it always ends in the fault that raises the system-call cause.
    pub open spec fn svc(self) -> (CpuView, Option<Fault>) {
        (
            self.text(labelled("Llamada al sistema "@, self.registers.ac.value())),
            Some(Fault { cod: Interrups::CallSys, msg: "Llamada al sistema"@ }),
        )
    }

    /// Push: SP steps down by one and AC is stored where it then points.
    /// A push that would take SP below RX is refused as a stack overflow,
    /// and nothing changes.
    pub open spec fn psh(self, mem: Seq<Palabra>, is_save_context: bool) -> (
        CpuView,
        Seq<Palabra>,
        Option<Fault>,
    ) {
        let r = self.registers;
        match r.sp.minus(one()) {
            Err(f) => (self, mem, Some(f)),
            Ok(new_sp) => if new_sp.value() < r.rx.value() {
                (self, mem, Some(stack_fault()))
            } else if !valid_address(new_sp.value()) {
                (self, mem, Some(address_fault()))
            } else {
                let pushed = self.regs(Registros { sp: new_sp, ..r });
                (
                    if is_save_context {
                        pushed
                    } else {
                        pushed.text(labelled("Push de ac  "@, r.ac.value()))
                    },
                    mem.update(new_sp.value(), r.ac),
                    None,
                )
            },
        }
    }

    /// Pop: AC takes the word that SP points to and SP steps up by one.
    /// A pop that would take SP out of the memory is refused, and nothing changes.
    pub open spec fn pop(self, mem: Seq<Palabra>, is_save_context: bool) -> (
        CpuView,
        Option<Fault>,
    ) {
        let r = self.registers;
        match r.sp.plus(one()) {
            Err(f) => (self, Some(f)),
            Ok(new_sp) => if !valid_address(r.sp.value()) {
                (self, Some(address_fault()))
            } else if !is_address(new_sp) {
                (self, Some(register_fault()))
            } else {
                let top = mem[r.sp.value()];
                let popped = self.regs(Registros { ac: top, sp: new_sp, ..r });
                (
                    if is_save_context {
                        popped
                    } else {
                        popped.text(labelled("Pop de ac "@, top.value()))
                    },
                    None,
                )
            },
        }
    }

    /// Return from a subroutine: the address is popped into AC and the
    /// program counter takes it.
    pub open spec fn retrn(self, mem: Seq<Palabra>) -> (CpuView, Option<Fault>) {
        let popped = self.pop(mem, false);
        if popped.1 is Some {
            popped
        } else {
            let r = popped.0.registers;
            if 0 <= r.ac.value() <= 99_999 {
                (
                    popped.0.psw(Pws { pc: r.ac.value() as i32, ..r.psw }).text(
                        labelled("Retorno de subrutina hacia  ac "@, r.ac.value()),
                    ),
                    None,
                )
            } else {
                (popped.0, Some(counter_fault()))
            }
        }
    }

    /// Enables or disables interrupts; for the kernel only.
    pub open spec fn enable(self, inte: u8, note: Seq<char>) -> (CpuView, Option<Fault>) {
        if self.registers.psw.modo_op == 0 {
            (self, Some(privilege_fault()))
        } else {
            (self.psw(Pws { inte, ..self.registers.psw }).text(note), None)
        }
    }

    /// Enables interrupts.
    pub open spec fn hab(self) -> (CpuView, Option<Fault>) {
        self.enable(1, "Se habilitan interrupciones"@)
    }

    /// Disables interrupts.
    pub open spec fn dhab(self) -> (CpuView, Option<Fault>) {
        self.enable(0, "Se desahabilitan las interrupciones"@)
    }

    /// Sets the number of cycles between two clock interrupts to MDR; for
    /// the kernel only, and never to a negative number.
    pub open spec fn tti(self) -> (CpuView, Option<Fault>) {
        let data = self.registers.mdr.value();
        if self.registers.psw.modo_op == 0 {
            (self, Some(privilege_fault()))
        } else if data < 0 {
            (
                self,
                Some(
                    Fault {
                        cod: Interrups::InstInv,
                        msg: "El numero de reloj no puede ser negativo"@,
                    },
                ),
            )
        } else {
            (
                CpuView { clock_interrupt: data as u32, ..self }.text(
                    labelled("Se cambio las interrupciones de reloj a "@, data),
                ),
                None,
            )
        }
    }

    /// Leaves kernel mode for user mode; for the kernel only.
    pub open spec fn chmod(self) -> (CpuView, Option<Fault>) {
        if self.registers.psw.modo_op == 0 {
            (self, Some(privilege_fault()))
        } else {
            (self.psw(Pws { modo_op: 0, ..self.registers.psw }), None)
        }
    }

    /// A register goes to AC.
    pub open spec fn load_register(self, register: Palabra, label: Seq<char>) -> (
        CpuView,
        Option<Fault>,
    ) {
        (self.ac(register).text(labelled(label, register.value())), None)
    }

    /// RB goes to AC.
    pub open spec fn load_rb(self) -> (CpuView, Option<Fault>) {
        self.load_register(self.registers.rb, "Cargo rb en Ac "@)
    }

    /// RL goes to AC.
    pub open spec fn load_rl(self) -> (CpuView, Option<Fault>) {
        self.load_register(self.registers.rl, "Cargo Rl en Ac "@)
    }

    /// SP goes to AC.
    pub open spec fn load_sp(self) -> (CpuView, Option<Fault>) {
        self.load_register(self.registers.sp, "Cargo Sp en Ac "@)
    }

    /// AC goes to RB, if it is an address.
    pub open spec fn store_rb(self) -> (CpuView, Option<Fault>) {
        let r = self.registers;
        if is_address(r.ac) {
            (
                self.regs(Registros { rb: r.ac, ..r }).text(
                    labelled("Cargo Ac en Rb "@, r.ac.value()),
                ),
                None,
            )
        } else {
            (self, Some(register_fault()))
        }
    }

    /// AC goes to RL, if it is an address.
    pub open spec fn store_rl(self) -> (CpuView, Option<Fault>) {
        let r = self.registers;
        if is_address(r.ac) {
            (
                self.regs(Registros { rl: r.ac, ..r }).text(
                    labelled("Cargo Ac en Rl "@, r.ac.value()),
                ),
                None,
            )
        } else {
            (self, Some(register_fault()))
        }
    }

    /// AC goes to SP, if it is an address.
    pub open spec fn store_sp(self) -> (CpuView, Option<Fault>) {
        let r = self.registers;
        if is_address(r.ac) {
            (
                self.regs(Registros { sp: r.ac, ..r }).text(
                    labelled("Cargo Ac en Sp "@, r.ac.value()),
                ),
                None,
            )
        } else {
            (self, Some(register_fault()))
        }
    }

    /// The jump: the program counter takes MDR.
    pub open spec fn j(self) -> (CpuView, Option<Fault>) {
        let r = self.registers;
        if 0 <= r.mdr.value() <= 99_999 {
            (
                self.psw(Pws { pc: r.mdr.value() as i32, ..r.psw }).text(
                    labelled("Salto indirecto a "@, r.mdr.value()),
                ),
                None,
            )
        } else {
            (self, Some(counter_fault()))
        }
    }

    /// MDR, cut to eight bits, goes to the track of the DMA request.
    pub open spec fn sdmap(self) -> (CpuView, Option<Fault>) {
        let v = self.registers.mdr.value();
        (
            CpuView {
                dma_temp: Dma_Config { pista_acceder: (v as i32) as i8, ..self.dma_temp },
                ..self
            }.text(labelled(" Se seteo la pista en el dma "@, v)),
            None,
        )
    }

    /// MDR, cut to eight bits, goes to the cylinder of the DMA request.
    pub open spec fn sdmac(self) -> (CpuView, Option<Fault>) {
        let v = self.registers.mdr.value();
        (
            CpuView {
                dma_temp: Dma_Config { cil_acceder: (v as i32) as i8, ..self.dma_temp },
                ..self
            }.text(labelled(" Se seteo el cilindro en el dma "@, v)),
            None,
        )
    }

    /// MDR, cut to eight bits, goes to the sector of the DMA request.
    pub open spec fn sdmas(self) -> (CpuView, Option<Fault>) {
        let v = self.registers.mdr.value();
        (
            CpuView {
                dma_temp: Dma_Config { sector_acceder: (v as i32) as i8, ..self.dma_temp },
                ..self
            }.text(labelled(" Se seteo el sector en el dma "@, v)),
            None,
        )
    }

    /// MDR, cut to eight bits, goes to the direction of the DMA request.
    pub open spec fn sdmaio(self) -> (CpuView, Option<Fault>) {
        let v = self.registers.mdr.value();
        (
            CpuView {
                dma_temp: Dma_Config { modo: (v as i32) as i8, ..self.dma_temp },
                ..self
            }.text(labelled(" Se seteo el modo en el dma "@, v)),
            None,
        )
    }

    /// MDR goes to the memory address of the DMA request.
    pub open spec fn sdmam(self) -> (CpuView, Option<Fault>) {
        let v = self.registers.mdr.value();
        (
            CpuView { dma_temp: Dma_Config { pos_men: v as i32, ..self.dma_temp }, ..self }.text(
                labelled(" Se seteo la posicion de memoria en el dma "@, v),
            ),
            None,
        )
    }

    /// Hands the DMA request over: it is what the CPU asks of the controller.
    pub open spec fn sdmaon(self) -> (CpuView, Option<Fault>) {
        (
            CpuView { dma_request: Some(self.dma_temp), ..self }.text(
                " Se inicio la operación dma "@,
            ),
            None,
        )
    }

    /// An operation that leaves the memory as it is.
    pub open spec fn keeping(r: (CpuView, Option<Fault>), mem: Seq<Palabra>) -> (
        CpuView,
        Seq<Palabra>,
        Option<Fault>,
    ) {
        (r.0, mem, r.1)
    }

    /// The operation of programs that the code in IR names: codes 0 to 33.
    /// Any other code is an invalid instruction.
    #[verifier::opaque]
    pub open spec fn operate(self, mem: Seq<Palabra>) -> (CpuView, Seq<Palabra>, Option<Fault>) {
        match self.registers.ir.opcode {
            0 => Self::keeping(self.sum(), mem),
            1 => Self::keeping(self.rest(), mem),
            2 => Self::keeping(self.mult(), mem),
            3 => Self::keeping(self.divi(), mem),
            4 => Self::keeping(self.load(), mem),
            5 => self.store(mem),
            6 => Self::keeping(self.load_rx(), mem),
            7 => Self::keeping(self.store_rx(), mem),
            8 => Self::keeping(self.comp(), mem),
            9 => Self::keeping(self.jmpe(mem), mem),
            10 => Self::keeping(self.jmpne(mem), mem),
            11 => Self::keeping(self.jmplt(mem), mem),
            12 => Self::keeping(self.jmplgt(mem), mem),
            13 => Self::keeping(self.svc(), mem),
            14 => Self::keeping(self.retrn(mem), mem),
            15 => Self::keeping(self.hab(), mem),
            16 => Self::keeping(self.dhab(), mem),
            17 => Self::keeping(self.tti(), mem),
            18 => Self::keeping(self.chmod(), mem),
            19 => Self::keeping(self.load_rb(), mem),
            20 => Self::keeping(self.store_rb(), mem),
            21 => Self::keeping(self.load_rl(), mem),
            22 => Self::keeping(self.store_rl(), mem),
            23 => Self::keeping(self.load_sp(), mem),
            24 => Self::keeping(self.store_sp(), mem),
            25 => self.psh(mem, false),
            26 => Self::keeping(self.pop(mem, false), mem),
            27 => Self::keeping(self.j(), mem),
            28 => Self::keeping(self.sdmap(), mem),
            29 => Self::keeping(self.sdmac(), mem),
            30 => Self::keeping(self.sdmas(), mem),
            31 => Self::keeping(self.sdmaio(), mem),
            32 => Self::keeping(self.sdmam(), mem),
            33 => Self::keeping(self.sdmaon(), mem),
            _ => (
                self.text("Instrucción invalida execute"@),
                mem,
                Some(Fault { cod: Interrups::InstInv, msg: "Instrucción invalida execute"@ }),
            ),
        }
    }

    /// Takes the registers of a command: RB, RL, RX, SP and the program
    /// counter. A value that its register refuses leaves the register as it is.
    pub open spec fn configure(self, config: Registers_Cpu_Config) -> CpuView {
        let r = self.registers;
        self.regs(
            Registros {
                rb: if is_address(config.rb) {
                    config.rb
                } else {
                    r.rb
                },
                rl: if is_address(config.rl) {
                    config.rl
                } else {
                    r.rl
                },
                rx: if is_address(config.rx) {
                    config.rx
                } else {
                    r.rx
                },
                sp: if is_address(config.sp) {
                    config.sp
                } else {
                    r.sp
                },
                psw: if 0 <= config.pc <= 99_999 {
                    Pws { pc: config.pc, ..r.psw }
                } else {
                    r.psw
                },
                ..r
            },
        )
    }

    /// One push of a context save: the register goes through AC.
    pub open spec fn save_one(self, mem: Seq<Palabra>, register: Palabra) -> (
        CpuView,
        Seq<Palabra>,
        Option<Fault>,
    ) {
        self.ac(register).psh(mem, true)
    }

    /// Saves the context: AC, RB, RL, RX and the status word are pushed, in
    /// this order, and AC is as it was. A push that fails ends the save
    /// where it stands.
    #[verifier::opaque]
    pub open spec fn save_context(self, mem: Seq<Palabra>) -> (
        CpuView,
        Seq<Palabra>,
        Option<Fault>,
    ) {
        let r = self.registers;
        let s1 = self.psh(mem, true);
        if s1.2 is Some {
            s1
        } else {
            let s2 = s1.0.save_one(s1.1, r.rb);
            if s2.2 is Some {
                s2
            } else {
                let s3 = s2.0.save_one(s2.1, r.rl);
                if s3.2 is Some {
                    s3
                } else {
                    let s4 = s3.0.save_one(s3.1, r.rx);
                    if s4.2 is Some {
                        s4
                    } else {
                        match Palabra::parse(r.psw.text()) {
                            None => (s4.0, s4.1, Some(status_word_fault())),
                            Some(status) => {
                                let s5 = s4.0.save_one(s4.1, status);
                                if s5.2 is Some {
                                    s5
                                } else {
                                    (s5.0.ac(r.ac), s5.1, None)
                                }
                            },
                        }
                    }
                }
            }
        }
    }

    /// The CPU after the status word was popped into AC: the status word
    /// takes what AC spells, or stays where AC spells none.
    pub open spec fn status_from_ac(self) -> CpuView {
        match Pws::decode(self.registers.ac) {
            Some(psw) => self.psw(psw),
            None => self,
        }
    }

    /// The CPU after RX was popped into AC: RX takes AC, or stays where AC
    /// is no address.
    pub open spec fn rx_from_ac(self) -> CpuView {
        let r = self.registers;
        if is_address(r.ac) {
            self.regs(Registros { rx: r.ac, ..r })
        } else {
            self
        }
    }

    /// The same for RL.
    pub open spec fn rl_from_ac(self) -> CpuView {
        let r = self.registers;
        if is_address(r.ac) {
            self.regs(Registros { rl: r.ac, ..r })
        } else {
            self
        }
    }

    /// The same for RB.
    pub open spec fn rb_from_ac(self) -> CpuView {
        let r = self.registers;
        if is_address(r.ac) {
            self.regs(Registros { rb: r.ac, ..r })
        } else {
            self
        }
    }

    /// Restores the context: the status word, RX, RL, RB and AC are
    /// popped, in this order. A pop that fails ends the restore where it stands.
    #[verifier::opaque]
    pub open spec fn restore_context(self, mem: Seq<Palabra>) -> (CpuView, Option<Fault>) {
        let p1 = self.pop(mem, true);
        if p1.1 is Some {
            p1
        } else {
            let p2 = p1.0.status_from_ac().pop(mem, true);
            if p2.1 is Some {
                p2
            } else {
                let p3 = p2.0.rx_from_ac().pop(mem, true);
                if p3.1 is Some {
                    p3
                } else {
                    let p4 = p3.0.rl_from_ac().pop(mem, true);
                    if p4.1 is Some {
                        p4
                    } else {
                        p4.0.rb_from_ac().pop(mem, true)
                    }
                }
            }
        }
    }
}

/// The machine as one instruction cycle sees it: the CPU, the memory and
/// the interrupt flags.
pub struct Machine {
    pub cpu: CpuView,
    pub mem: Seq<Palabra>,
    pub ints: External_interrupt,
}

/// The machine after an operation, and the fault the operation ended in.
pub struct Outcome {
    pub machine: Machine,
    pub fault: Option<Fault>,
}

impl Machine {
    /// The outcome of an operation that touches the CPU alone.
    pub open spec fn on_cpu(self, r: (CpuView, Option<Fault>)) -> Outcome {
        Outcome { machine: Machine { cpu: r.0, ..self }, fault: r.1 }
    }

    /// The outcome of an operation that touches the CPU and the memory.
    pub open spec fn on_memory(self, r: (CpuView, Seq<Palabra>, Option<Fault>)) -> Outcome {
        Outcome { machine: Machine { cpu: r.0, mem: r.1, ..self }, fault: r.2 }
    }

    /// A trap: the flag of the cause is taken down and the handler of the
    /// cause runs; the CPU goes back to user mode; then the program is
    /// ended, where the handler asks for that, or its context restored.
    /// A program that is ended counts as failed, but for the system call.
    pub open spec fn trap(self, cause: Interrups) -> Machine {
        let served = serve(self.cpu.registers, cause, self.mem, self.ints);
        let back = self.cpu.regs(served.0).chmod().0;
        let noted = back.text(trap_text(cause, back.registers.ac.value()));
        Machine {
            cpu: match served.2 {
                ContinueOrBreak::Break => if cause == Interrups::CallSys {
                    noted.halted()
                } else {
                    noted.halted().failed()
                },
                ContinueOrBreak::Continue => noted.restore_context(self.mem).0,
            },
            mem: self.mem,
            ints: served.1,
        }
    }

    /// Execute: the operation that the code in IR names. Codes 90 to 98 are
    /// the traps of the nine causes; every other code is an operation of
    /// programs or an invalid instruction.
    pub open spec fn execute(self) -> Outcome {
        match Interrups::of_trap(self.cpu.registers.ir.opcode) {
            Some(cause) => Outcome { machine: self.trap(cause), fault: None },
            None => self.on_memory(self.cpu.operate(self.mem)),
        }
    }

    /// Fetch, decode and execute, each only where the one before it succeeded.
    pub open spec fn fetch_decode_execute(self) -> Outcome {
        let fetched = self.on_cpu(self.cpu.fetch(self.mem));
        if fetched.fault is Some {
            fetched
        } else {
            let decoded = fetched.machine.on_cpu(fetched.machine.cpu.decode(self.mem));
            if decoded.fault is Some {
                decoded
            } else {
                decoded.machine.execute()
            }
        }
    }

    /// Vectoring: where a flag is up, the cause that is served next takes
    /// the CPU to kernel mode and the program counter to the entry of the
    /// cause in the vector table. The causes after which the program goes
    /// on have its context saved first; a save that fails is the fault of
    /// the vectoring.
    pub open spec fn vector_interrupt(self) -> Outcome {
        match self.ints.pending() {
            None => Outcome { machine: self, fault: None },
            Some(cause) => {
                let saved = if cause.saves_context() {
                    self.cpu.save_context(self.mem)
                } else {
                    (self.cpu, self.mem, None)
                };
                if saved.2 is Some {
                    self.on_memory(saved)
                } else {
                    Outcome {
                        machine: Machine {
                            cpu: saved.0.psw(
                                Pws {
                                    modo_op: 1,
                                    pc: cause.code() as i32,
                                    ..saved.0.registers.psw
                                },
                            ),
                            mem: saved.1,
                            ints: self.ints,
                        },
                        fault: None,
                    }
                }
            },
        }
    }

    /// One cycle for the debugger. A CPU that has a program runs its next
    /// cycle. One that has none starts the program of the command with one
    /// cycle, unless the command names no program, which is a program
    /// counter of -1 and reported as an error. The report tells the address
    /// of the instruction and, where its fields fit a word, the instruction.
    pub open spec fn single_step(self, config: Registers_Cpu_Config) -> Machine {
        let fresh = CpuView {
            result_last_program: ExecuteView {
                result_program: Result_Execute_program::Succes,
                ..self.cpu.result_last_program
            },
            ..self.cpu
        };
        if !fresh.have_user_program && config.pc == -1 {
            Machine { cpu: fresh.failed().text("No hay programa en ejecución"@), ..self }
        } else {
            let ready = if fresh.have_user_program {
                fresh
            } else {
                CpuView { have_user_program: true, ..fresh.configure(config) }
            };
            let addressed = CpuView {
                result_last_program: ExecuteView {
                    dir_inst: ready.registers.psw.pc,
                    ..ready.result_last_program
                },
                ..ready
            };
            let ran = Machine { cpu: addressed, ..self }.step();
            let ir = ran.cpu.registers.ir;
            if ir.wf() {
                Machine {
                    cpu: CpuView {
                        result_last_program: ExecuteView {
                            instruction: ir.encode(),
                            ..ran.cpu.result_last_program
                        },
                        ..ran.cpu
                    },
                    ..ran
                }
            } else {
                ran
            }
        }
    }

    /// One instruction cycle: no DMA request is open; fetch, decode and
    /// execute; a fault puts up the flag of its cause; vectoring; a
    /// vectoring that fails ends the program as failed.
    pub open spec fn step(self) -> Machine {
        let start = Machine { cpu: CpuView { dma_request: None, ..self.cpu }, ..self };
        let ran = start.fetch_decode_execute();
        let flagged = match ran.fault {
            None => ran.machine,
            Some(f) => Machine { ints: ran.machine.ints.with(f.cod, true), ..ran.machine },
        };
        let vectored = flagged.vector_interrupt();
        match vectored.fault {
            None => vectored.machine,
            Some(_) => Machine { cpu: vectored.machine.cpu.halted().failed(), ..vectored.machine },
        }
    }
}

} // verus!
