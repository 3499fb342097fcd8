use vstd::prelude::*;
use crate::hardware::architecture::Palabra;
use crate::hardware::interrupts::Interrups;
use crate::utils::{fault, Errors, Fault, Result_op, fault_of};

verus! {

/// Main memory: 2001 words, addressed from 0 to 2000.
#[derive(Debug, PartialEq)]
pub struct Ram {
    ram: [Palabra; 2001],
}

impl View for Ram {
    type V = Seq<Palabra>;

    closed spec fn view(&self) -> Seq<Palabra> {
        self.ram@
    }
}

/// Whether a number addresses a word of the memory.
pub open spec fn valid_address(position: int) -> bool {
    0 <= position <= 2000
}

/// Whether every word from `first` to `last`, both included, carries zero.
pub open spec fn range_is_zero(mem: Seq<Palabra>, first: int, last: int) -> bool {
    forall|i: int| first <= i <= last ==> (#[trigger] mem[i]).value() == 0
}

/// Whether a range may take a program: it starts above the reserved low
/// memory, ends within the memory and is not empty.
pub open spec fn loadable_range(first: int, last: int) -> bool {
    301 <= first <= last <= 2000
}

/// What a refused access reports.
pub open spec fn address_fault() -> Fault {
    Fault { cod: Interrups::DirInv, msg: "Dirección a leer invalida"@ }
}

/// What a refused range reports.
pub open spec fn range_fault() -> Fault {
    Fault { cod: Interrups::DirInv, msg: "Rango de memoria invalido"@ }
}

impl Ram {
    /// A memory of zeros.
    pub fn new() -> (r: Self)
        ensures
            r@.len() == 2001,
            forall|i: int| 0 <= i <= 2000 ==> (#[trigger] r@[i]).palabra == 0,
    {
        Ram { ram: [Palabra { palabra: 0 }; 2001] }
    }

    /// The memory always holds 2001 words.
    pub proof fn lemma_len(&self)
        ensures
            self@.len() == 2001,
    {
    }

    /// Reads the word at an address; an address outside the memory is an invalid address.
    pub fn readMemory(&self, position_read: i32) -> (r: Result<Palabra, Errors>)
        ensures
            self@.len() == 2001,
            valid_address(position_read as int) ==> r == Ok::<Palabra, Errors>(
                self@[position_read as int],
            ),
            !valid_address(position_read as int) ==> r is Err && r->Err_0@ == address_fault(),
    {
        if position_read > 2000 || position_read < 0 {
            return Err(fault("Dirección a leer invalida", Interrups::DirInv));
        }
        Ok(self.ram[position_read as usize])
    }

    /// Writes a word at an address and leaves every other word as it was; an
    /// address outside the memory is an invalid address and changes nothing.
    pub fn writeMemory(&mut self, position_write: i32, pal: Palabra) -> (r: Result_op)
        ensures
            final(self)@.len() == 2001,
            valid_address(position_write as int) ==> r is Ok && final(self)@ == old(self)@.update(
                position_write as int,
                pal,
            ),
            !valid_address(position_write as int) ==> fault_of(r) == Some(address_fault())
                && final(self)@ == old(self)@,
    {
        if position_write > 2000 || position_write < 0 {
            return Err(fault("Dirección a leer invalida", Interrups::DirInv));
        }
        self.ram[position_write as usize] = pal;
        Ok(())
    }

    /// Tells whether every word of a range carries zero. The range must be
    /// one that may take a program, else it is refused as an invalid address.
    pub fn is_empty(&self, pos_init: i32, pos_end: i32) -> (r: Result<bool, Errors>)
        ensures
            loadable_range(pos_init as int, pos_end as int) ==> r == Ok::<bool, Errors>(
                range_is_zero(self@, pos_init as int, pos_end as int),
            ),
            !loadable_range(pos_init as int, pos_end as int) ==> r is Err && r->Err_0@
                == range_fault(),
    {
        if pos_init < 301 || pos_end >= 2001 || pos_init > pos_end {
            return Err(fault("Rango de memoria invalido", Interrups::DirInv));
        }
        let mut pos: i32 = pos_init;
        while pos <= pos_end
            invariant
                301 <= pos_init <= pos <= pos_end + 1 <= 2001,
                range_is_zero(self@, pos_init as int, pos - 1),
            decreases pos_end + 1 - pos,
        {
            let pal = self.ram[pos as usize];
            if pal.convert() != 0 {
                return Ok(false);
            }
            pos += 1;
        }
        Ok(true)
    }
}

} // verus!
