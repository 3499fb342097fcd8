//! What holds of the operations of the CPU taken together.
use vstd::prelude::*;
use crate::hardware::architecture::Palabra;
use crate::hardware::instructions::Instruction;
use crate::hardware::interrupts::{has_vector_table, serve, trap_word, Interrups};
use crate::hardware::registers::{
    is_address, lemma_status_text, lemma_status_word_round_trip, Pws, Registros,
};
use crate::hardware::semantics::{trap_text, CpuView, Machine};
use crate::utils::{ContinueOrBreak, Fault};

verus! {

/// A push succeeds exactly where the word below the stack pointer is not
/// below RX, and then stores AC there and moves only the stack pointer.
pub proof fn lemma_push(c: CpuView, mem: Seq<Palabra>)
    requires
        c.registers.wf(),
    ensures
        c.psh(mem, true).2 is None <==> c.registers.sp.value() - 1 >= c.registers.rx.value(),
        c.psh(mem, true).2 is None ==> c.psh(mem, true).0 == c.regs(
            Registros { sp: Palabra::encode(c.registers.sp.value() - 1), ..c.registers },
        ) && c.psh(mem, true).1 == mem.update(c.registers.sp.value() - 1, c.registers.ac),
        c.psh(mem, true).2 is Some ==> c.psh(mem, true).0 == c && c.psh(mem, true).1 == mem,
{
}

/// A push followed at once by a pop gives AC and the stack pointer back.
pub proof fn lemma_push_then_pop(c: CpuView, mem: Seq<Palabra>, is_save_context: bool)
    requires
        c.registers.wf(),
        mem.len() == 2001,
        c.psh(mem, is_save_context).2 is None,
    ensures
        ({
            let pushed = c.psh(mem, is_save_context);
            let popped = pushed.0.pop(pushed.1, is_save_context);
            &&& popped.1 is None
            &&& popped.0.registers == c.registers
        }),
{
}

/// A context save succeeds exactly where five words fit between RX and the
/// stack pointer. It then leaves AC, RB, RL, RX and the word of the status
/// word in the five words below the stack pointer, from the top down, and
/// moves only the stack pointer.
pub proof fn lemma_save_context(c: CpuView, mem: Seq<Palabra>)
    requires
        c.registers.wf(),
        mem.len() == 2001,
    ensures
        c.save_context(mem).2 is None <==> c.registers.sp.value() - 5 >= c.registers.rx.value(),
        c.save_context(mem).2 is None ==> ({
            let r = c.registers;
            let sp = r.sp.value();
            &&& c.save_context(mem).0 == c.regs(Registros { sp: Palabra::encode(sp - 5), ..r })
            &&& c.save_context(mem).1 == mem.update(sp - 1, r.ac).update(sp - 2, r.rb).update(
                sp - 3,
                r.rl,
            ).update(sp - 4, r.rx).update(sp - 5, r.psw.word())
        }),
{
    reveal(CpuView::save_context);
    lemma_status_text(c.registers.psw);
    let r = c.registers;
    let s1 = c.psh(mem, true);
    if s1.2 is None {
        let s2 = s1.0.save_one(s1.1, r.rb);
        if s2.2 is None {
            let s3 = s2.0.save_one(s2.1, r.rl);
            if s3.2 is None {
                let s4 = s3.0.save_one(s3.1, r.rx);
                if s4.2 is None {
                    let s5 = s4.0.save_one(s4.1, r.psw.word());
                    assert(s5.2 is None <==> r.sp.value() - 5 >= r.rx.value());
                }
            }
        }
    }
}

/// A context restore succeeds exactly where five words lie between the
/// stack pointer and the end of the memory. Where these are a valid status
/// word and three addresses, it takes from them, from the stack pointer
/// up, the status word, RX, RL, RB and AC, and moves the stack pointer up
/// by five; it touches nothing else.
pub proof fn lemma_restore_context(c: CpuView, mem: Seq<Palabra>)
    requires
        is_address(c.registers.sp),
        mem.len() == 2001,
    ensures
        c.restore_context(mem).1 is None <==> c.registers.sp.value() + 5 <= 2000,
        ({
            let sp = c.registers.sp.value();
            sp + 5 <= 2000 && Pws::decode(mem[sp]) is Some && is_address(mem[sp + 1])
                && is_address(mem[sp + 2]) && is_address(mem[sp + 3]) ==> c.restore_context(mem).0
                == c.regs(
                Registros {
                    psw: Pws::decode(mem[sp])->Some_0,
                    rx: mem[sp + 1],
                    rl: mem[sp + 2],
                    rb: mem[sp + 3],
                    ac: mem[sp + 4],
                    sp: Palabra::encode(sp + 5),
                    ..c.registers
                },
            )
        }),
{
    reveal(CpuView::restore_context);
    let p1 = c.pop(mem, true);
    if p1.1 is None {
        let p2 = p1.0.status_from_ac().pop(mem, true);
        if p2.1 is None {
            let p3 = p2.0.rx_from_ac().pop(mem, true);
            if p3.1 is None {
                let p4 = p3.0.rl_from_ac().pop(mem, true);
                if p4.1 is None {
                    let p5 = p4.0.rb_from_ac().pop(mem, true);
                    assert(p5.1 is None <==> c.registers.sp.value() + 5 <= 2000);
                }
            }
        }
    }
}

/// A context save followed at once by a context restore gives the CPU
/// back as it was: AC, RB, RL, RX, the status word and every other register.
pub proof fn lemma_save_then_restore(c: CpuView, mem: Seq<Palabra>)
    requires
        c.registers.wf(),
        mem.len() == 2001,
        c.save_context(mem).2 is None,
    ensures
        c.save_context(mem).0.restore_context(c.save_context(mem).1) == (c, None::<Fault>),
{
    lemma_save_context(c, mem);
    lemma_status_word_round_trip(c.registers.psw);
    let r = c.registers;
    let sp = r.sp.value();
    let saved = c.save_context(mem);
    lemma_restore_context(saved.0, saved.1);
    assert(saved.1[sp - 5] == r.psw.word());
    assert(saved.1[sp - 4] == r.rx);
    assert(saved.1[sp - 3] == r.rl);
    assert(saved.1[sp - 2] == r.rb);
    assert(saved.1[sp - 1] == r.ac);
    assert(saved.0.restore_context(saved.1).0.registers == r);
}

/// No operation of a program takes an interrupt flag down: a flag that is
/// up stays up through the execution of any instruction but the trap of
/// its own cause.
pub proof fn lemma_only_its_trap_clears_a_flag(m: Machine, cod: Interrups)
    requires
        m.ints.is_set(cod),
        m.cpu.registers.ir.opcode != cod.trap_opcode(),
    ensures
        m.execute().machine.ints.is_set(cod),
{
}

/// An interrupt after which the program goes on, served from end to end.
/// The machine holds the vector table and a program whose stack has room
/// for its context above the table. Vectoring takes the CPU to kernel mode
/// and the program counter to the entry of the cause. The cycle that
/// follows runs the trap of the cause: it takes the flag of the cause down
/// and gives AC, RB, RL, RX, the stack pointer and the status word back as
/// they were before the vectoring. A system call is meant that does not
/// end the program.
pub proof fn lemma_interrupt_round_trip(m: Machine, cause: Interrups)
    requires
        m.cpu.registers.wf(),
        m.mem.len() == 2001,
        has_vector_table(m.mem),
        m.ints.pending() == Some(cause),
        cause.saves_context(),
        cause == Interrups::CallSys ==> m.cpu.registers.ac.value() != 1,
        m.cpu.registers.sp.value() - 5 >= m.cpu.registers.rx.value(),
        m.cpu.registers.sp.value() - 5 >= 9,
    ensures
        ({
            let vectored = m.vector_interrupt();
            let served = vectored.machine.fetch_decode_execute();
            let before = m.cpu.registers;
            let after = served.machine.cpu.registers;
            &&& vectored.fault is None
            &&& vectored.machine.cpu.registers.psw.modo_op == 1
            &&& vectored.machine.cpu.registers.psw.pc == cause.code()
            &&& vectored.machine.ints == m.ints
            &&& served.fault is None
            &&& !served.machine.ints.is_set(cause)
            &&& after.ac == before.ac
            &&& after.rb == before.rb
            &&& after.rl == before.rl
            &&& after.rx == before.rx
            &&& after.sp == before.sp
            &&& after.psw == before.psw
            &&& served.machine.cpu.have_user_program == m.cpu.have_user_program
        }),
{
    let r = m.cpu.registers;
    let sp = r.sp.value();
    lemma_save_context(m.cpu, m.mem);
    lemma_status_word_round_trip(r.psw);
    let vectored = m.vector_interrupt();
    let v = vectored.machine;
    assert(vectored.fault is None);
    assert(v.mem[cause.code()] == trap_word(cause)) by {
        assert(m.mem[cause.code()] == trap_word(cause));
    }
    assert(v.mem[0] == m.mem[0]);
    let ir = Instruction::decode(trap_word(cause));
    assert(ir.opcode == cause.trap_opcode() && ir.dir == 0 && ir.value == 0);
    let fetched = v.cpu.fetch(v.mem);
    assert(fetched.1 is None);
    let decoded = fetched.0.decode(v.mem);
    assert(decoded.1 is None);
    let ready = Machine { cpu: decoded.0, ..v };
    assert(ready.execute().machine == ready.trap(cause));
    let handled = serve(ready.cpu.registers, cause, ready.mem, ready.ints);
    assert(handled.2 == ContinueOrBreak::Continue);
    assert(handled.0 == ready.cpu.registers);
    let back = ready.cpu.regs(handled.0).chmod().0;
    let noted = back.text(trap_text(cause, back.registers.ac.value()));
    assert(noted.registers.sp == Palabra::encode(sp - 5));
    lemma_restore_context(noted, v.mem);
    assert(ready.trap(cause).cpu == noted.restore_context(v.mem).0);
    assert(v.fetch_decode_execute() == ready.execute());
    assert(v.mem[sp - 5] == r.psw.word());
    assert(v.mem[sp - 4] == r.rx);
    assert(v.mem[sp - 3] == r.rl);
    assert(v.mem[sp - 2] == r.rb);
    assert(v.mem[sp - 1] == r.ac);
}

} // verus!
