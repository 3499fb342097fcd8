//! A small decimal von-Neumann machine: CPU, protected memory bus,
//! vectored interrupts and a DMA controller in front of a sectored disk.
#![allow(non_camel_case_types)]
#![allow(non_snake_case)]

use vstd::prelude::*;
use crate::hardware::architecture::Palabra;
use crate::hardware::cpu::Registers_Cpu_Config;

pub mod hardware;
pub mod text;
pub mod utils;

verus! {

/// How the CPU is asked to run: a whole program, one cycle at a time, or not at all any more.
#[derive(Debug, Clone, Copy, PartialEq, Eq, Structural)]
pub enum Mode_Execute {
    normal,
    debbuger,
    off,
}

/// The descriptor of a loaded program.
#[derive(Debug, Clone, PartialEq, Eq)]
pub struct Programs {
    pub name: String,
    /// The words the program may address: its code and its stack.
    pub num_instruccions_with_pila: i32,
    /// Where in memory the program was loaded.
    pub pos_start_mem: i32,
    /// The line of the program at which it starts, counted from 1.
    pub pos_start_program: i32,
}

impl Programs {
    /// A descriptor with no name and every number still unset, which is -1.
    pub fn new() -> (p: Self)
        ensures
            p.name@ == Seq::<char>::empty(),
            p.num_instruccions_with_pila == -1,
            p.pos_start_mem == -1,
            p.pos_start_program == -1,
    {
        Programs {
            name: String::new(),
            num_instruccions_with_pila: -1,
            pos_start_mem: -1,
            pos_start_program: -1,
        }
    }
}

impl Programs {
    /// The registers a program starts from: RB at its first word, RL and
    /// SP behind its last, RX after the first half, which holds its code,
    /// and the program counter at the line at which it starts.
    pub open spec fn start_registers(self) -> (int, int, int, int, int) {
        let base = self.pos_start_mem as int;
        let span = self.num_instruccions_with_pila as int;
        (
            base,
            base + span,
            base + truncated_half(span),
            base + span,
            base + (self.pos_start_program - 1),
        )
    }

    /// Whether each of the registers a program starts from fits a word.
    pub open spec fn can_start(self) -> bool {
        let r = self.start_registers();
        Palabra::in_range(r.0) && Palabra::in_range(r.1) && Palabra::in_range(r.2)
            && Palabra::in_range(r.3) && i32::MIN <= r.4 <= i32::MAX
    }

    /// The command that starts the program in the given way, if the
    /// registers it starts from fit their words.
    pub fn start_config(&self, mode: Mode_Execute) -> (r: Option<Registers_Cpu_Config>)
        ensures
            self.can_start() ==> r == Some(
                Registers_Cpu_Config {
                    mode,
                    rb: Palabra::encode(self.start_registers().0),
                    rl: Palabra::encode(self.start_registers().1),
                    rx: Palabra::encode(self.start_registers().2),
                    sp: Palabra::encode(self.start_registers().3),
                    pc: self.start_registers().4 as i32,
                },
            ),
            !self.can_start() ==> r is None,
    {
        let base = self.pos_start_mem as i64;
        let span = self.num_instruccions_with_pila as i64;
        let half = if span >= 0 {
            span / 2
        } else {
            -((-span) / 2)
        };
        let pc = base + (self.pos_start_program as i64 - 1);
        let top = base + span;
        let floor = base + half;
        if base < -9_999_999 || base > 9_999_999 || top < -9_999_999 || top > 9_999_999 || floor
            < -9_999_999 || floor > 9_999_999 || pc < -2_147_483_648 || pc > 2_147_483_647 {
            return None;
        }
        let rb = Palabra::from_value(base as i32);
        let rl = Palabra::from_value(top as i32);
        let rx = Palabra::from_value(floor as i32);
        match (rb, rl, rx) {
            (Some(rb), Some(rl), Some(rx)) => Some(
                Registers_Cpu_Config { mode, rb, rl, rx, sp: rl, pc: pc as i32 },
            ),
            _ => None,
        }
    }
}

/// Half of a number, rounded toward zero.
pub open spec fn truncated_half(v: int) -> int {
    if v >= 0 {
        v / 2
    } else {
        -((-v) / 2)
    }
}

} // verus!
