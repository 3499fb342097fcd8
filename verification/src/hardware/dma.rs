use vstd::prelude::*;
use vstd::utf8::{
    decode_utf8, encode_utf8, encode_utf8_decode_utf8, encode_utf8_valid_utf8,
    is_ascii_chars_encode_utf8, valid_utf8,
};
use crate::hardware::architecture::Palabra;
use crate::hardware::disk::{read_fault, valid_geometry, write_fault, Disk};
use crate::hardware::interrupts::{External_interrupt, Interrups};
use crate::hardware::ram::{address_fault, valid_address, Ram};
use crate::text::{
    is_digit, lemma_padded_decimal_len, lemma_padded_decimal_reads_back, padded_decimal, pow10,
};
use crate::utils::{fault, fault_of, Fault, Result_op};

verus! {

/// How the last transfer ended, or that the controller is to switch off.
#[derive(Debug, Clone, Copy, PartialEq, Eq, Structural)]
pub enum State_Dma {
    Succes,
    Error,
    Off,
}

/// One request to the DMA controller: the sector, the memory address and
/// the direction (0 from disk to memory, 1 from memory to disk).
#[derive(Debug, Clone, Copy, PartialEq, Eq, Structural)]
pub struct Dma_Config {
    pub pista_acceder: i8,
    pub sector_acceder: i8,
    pub cil_acceder: i8,
    pub pos_men: i32,
    pub state: State_Dma,
    pub modo: i8,
}

impl Dma_Config {
    /// A request for sector (0, 0, 0) and address 0, from disk to memory.
    pub open spec fn new_spec() -> Dma_Config {
        Dma_Config {
            pista_acceder: 0,
            sector_acceder: 0,
            cil_acceder: 0,
            pos_men: 0,
            state: State_Dma::Succes,
            modo: 0,
        }
    }

    /// A request for sector (0, 0, 0) and address 0, from disk to memory.
    #[verifier::when_used_as_spec(new_spec)]
    pub fn new() -> (c: Self)
        ensures
            c == Self::new_spec(),
    {
        Dma_Config {
            pista_acceder: 0,
            sector_acceder: 0,
            cil_acceder: 0,
            pos_men: 0,
            state: State_Dma::Succes,
            modo: 0,
        }
    }
}

/// The DMA controller: the transfer it is set up for and how the last one ended.
#[derive(Debug, Clone, Copy, PartialEq, Eq, Structural)]
pub struct Dma {
    pub pista_acceder: i8,
    pub sector_acceder: i8,
    pub cil_acceder: i8,
    pub pos_men: i32,
    pub estado: State_Dma,
    pub modo: i8,
}

/// The word that a run of bytes spells: the bytes are valid UTF-8 and the
/// text that they encode is a word.
pub open spec fn word_of_bytes(bytes: Seq<u8>) -> Option<Palabra> {
    if valid_utf8(bytes) {
        Palabra::parse(decode_utf8(bytes))
    } else {
        None
    }
}

/// What a sector reports whose text is no word.
pub open spec fn block_fault() -> Fault {
    Fault { cod: Interrups::InstInv, msg: "Error al transformar la palabra del disco"@ }
}

impl Dma {
    /// The sector the controller is set up for.
    pub open spec fn place(self) -> (int, int, int) {
        (self.cil_acceder as int, self.pista_acceder as int, self.sector_acceder as int)
    }

    /// Whether the controller is set up for a sector of the disk.
    pub open spec fn on_disk(self) -> bool {
        valid_geometry(self.cil_acceder as int, self.pista_acceder as int, self.sector_acceder as int)
    }

    /// What a transfer from disk to memory makes of the memory: the word
    /// that the first eight bytes of the sector spell is stored at the
    /// address. The fault is that of the first stage that fails: the
    /// sector is not on the disk, its text is no word, the address is not
    /// in memory. A transfer that fails leaves the memory as it was.
    pub open spec fn read_transfer(
        self,
        disk: Map<(int, int, int), Seq<u8>>,
        mem: Seq<Palabra>,
    ) -> (Seq<Palabra>, Option<Fault>) {
        if !self.on_disk() {
            (mem, Some(read_fault()))
        } else {
            match word_of_bytes(disk[self.place()].subrange(0, 8)) {
                None => (mem, Some(block_fault())),
                Some(word) => if valid_address(self.pos_men as int) {
                    (mem.update(self.pos_men as int, word), None)
                } else {
                    (mem, Some(address_fault()))
                },
            }
        }
    }

    /// What a transfer from memory to disk makes of the disk: the disk form
    /// of the word at the address fills the sector. The fault is that of
    /// the first stage that fails: the address is not in memory, the sector
    /// is not on the disk or the word does not fit a sector. A transfer
    /// that fails leaves the disk as it was.
    pub open spec fn write_transfer(
        self,
        disk: Map<(int, int, int), Seq<u8>>,
        mem: Seq<Palabra>,
    ) -> (Map<(int, int, int), Seq<u8>>, Option<Fault>) {
        if !valid_address(self.pos_men as int) {
            (disk, Some(address_fault()))
        } else {
            let block = encode_utf8(mem[self.pos_men as int].disk_text());
            if self.on_disk() && block.len() == 9 {
                (disk.insert(self.place(), block), None)
            } else {
                (disk, Some(write_fault()))
            }
        }
    }

    /// What a transfer leaves of the controller and of the interrupt
    /// flags: one that succeeds raises the end-of-I/O flag; one that fails
    /// records the failure in the controller and raises no flag.
    pub open spec fn after_transfer(self, flags: External_interrupt, fault: Option<Fault>) -> (
        Dma,
        External_interrupt,
    ) {
        match fault {
            None => (self, flags.with(Interrups::EndIO, true)),
            Some(_) => (Dma { estado: State_Dma::Error, ..self }, flags),
        }
    }

    /// A controller set up like a new request, with no failure behind it.
    pub fn new() -> (d: Self)
        ensures
            d == (Dma {
                pista_acceder: 0,
                sector_acceder: 0,
                cil_acceder: 0,
                pos_men: 0,
                estado: State_Dma::Succes,
                modo: 0,
            }),
    {
        Dma {
            pista_acceder: 0,
            sector_acceder: 0,
            cil_acceder: 0,
            pos_men: 0,
            estado: State_Dma::Succes,
            modo: 0,
        }
    }

    /// Sets the controller up for a request; how the last transfer ended stays.
    pub fn configure(&mut self, config: &Dma_Config)
        ensures
            *final(self) == (Dma {
                pista_acceder: config.pista_acceder,
                cil_acceder: config.cil_acceder,
                sector_acceder: config.sector_acceder,
                pos_men: config.pos_men,
                modo: config.modo,
                estado: old(self).estado,
            }),
    {
        self.pista_acceder = config.pista_acceder;
        self.cil_acceder = config.cil_acceder;
        self.sector_acceder = config.sector_acceder;
        self.pos_men = config.pos_men;
        self.modo = config.modo;
    }

    /// Performs the transfer the controller is set up for: direction 0
    /// reads from disk, direction 1 writes to disk, any other does nothing
    /// and succeeds.
    pub fn execute(
        &mut self,
        disk: &mut Disk,
        mem: &mut Ram,
        external_interrup: &mut External_interrupt,
    ) -> (r: Result_op)
        ensures
            old(self).modo == 0 ==> final(disk)@ == old(disk)@ && (final(mem)@, fault_of(r))
                == old(self).read_transfer(old(disk)@, old(mem)@),
            old(self).modo == 1 ==> final(mem)@ == old(mem)@ && (final(disk)@, fault_of(r))
                == old(self).write_transfer(old(disk)@, old(mem)@),
            old(self).modo == 0 || old(self).modo == 1 ==> (*final(self), *final(external_interrup))
                == old(self).after_transfer(*old(external_interrup), fault_of(r)),
            old(self).modo != 0 && old(self).modo != 1 ==> r is Ok && final(disk)@ == old(disk)@
                && final(mem)@ == old(mem)@ && (*final(self), *final(external_interrup)) == (
                *old(self),
                *old(external_interrup),
            ),
    {
        let modo = self.modo;
        if modo == 0 {
            self.read_disk(disk, mem, external_interrup)?;
        } else if modo == 1 {
            self.write_disk(disk, mem, external_interrup)?;
        }
        Ok(())
    }

    /// Moves one word from the sector to the memory address and then
    /// raises the end-of-I/O flag. Where a stage fails, the controller
    /// records the failure, raises no flag and leaves the memory as it was.
    pub fn read_disk(
        &mut self,
        disk: &Disk,
        mem: &mut Ram,
        external_interrup: &mut External_interrupt,
    ) -> (r: Result_op)
        ensures
            (final(mem)@, fault_of(r)) == old(self).read_transfer(disk@, old(mem)@),
            (*final(self), *final(external_interrup)) == old(self).after_transfer(
                *old(external_interrup),
                fault_of(r),
            ),
    {
        let text = match disk.read(self.cil_acceder, self.pista_acceder, self.sector_acceder) {
            Err(err) => {
                self.estado = State_Dma::Error;
                return Err(err);
            },
            Ok(text) => text,
        };
        proof {
            let bytes = disk@[self.place()].subrange(0, 8);
            if !valid_utf8(bytes) {
                let k = choose|k: int| 0 <= k < text@.len() && text@[k] == '\u{fffd}';
                assert(!is_digit(text@[k]));
            }
        }
        let new_pal = match Palabra::new(text.as_str()) {
            Some(p) => p,
            None => {
                self.estado = State_Dma::Error;
                return Err(fault("Error al transformar la palabra del disco", Interrups::InstInv));
            },
        };
        match mem.writeMemory(self.pos_men, new_pal) {
            Err(err) => {
                self.estado = State_Dma::Error;
                return Err(err);
            },
            _ => (),
        }
        external_interrup.raise(Interrups::EndIO);
        Ok(())
    }

    /// Moves the word at the memory address to the sector, in its disk
    /// form, and then raises the end-of-I/O flag. Where a stage fails, the
    /// controller records the failure, raises no flag and leaves the disk
    /// as it was.
    pub fn write_disk(
        &mut self,
        disk: &mut Disk,
        mem: &Ram,
        external_interrup: &mut External_interrupt,
    ) -> (r: Result_op)
        ensures
            (final(disk)@, fault_of(r)) == old(self).write_transfer(old(disk)@, mem@),
            (*final(self), *final(external_interrup)) == old(self).after_transfer(
                *old(external_interrup),
                fault_of(r),
            ),
    {
        let pal_read_mem = match mem.readMemory(self.pos_men) {
            Ok(p) => p,
            Err(err) => {
                self.estado = State_Dma::Error;
                return Err(err);
            },
        };
        let pal_disk = pal_read_mem.convert_to_string_disk();
        match disk.write(pal_disk, self.cil_acceder, self.pista_acceder, self.sector_acceder) {
            Err(err) => {
                self.estado = State_Dma::Error;
                return Err(err);
            },
            _ => (),
        }
        external_interrup.raise(Interrups::EndIO);
        Ok(())
    }
}

/// The disk form of a word of no more than eight digits is nine bytes, the
/// first eight of which are read back as the digits of the word.
pub proof fn lemma_block_of_word(p: Palabra)
    requires
        p.fits(),
    ensures
        encode_utf8(p.disk_text()).len() == 9,
        word_of_bytes(encode_utf8(p.disk_text()).subrange(0, 8)) == Some(p),
{
    let digits = padded_decimal(p.palabra as nat, 8);
    let text = p.disk_text();
    assert(pow10(8) == 100_000_000) by {
        reveal_with_fuel(pow10, 9);
    }
    lemma_padded_decimal_len(p.palabra as nat, 8);
    lemma_padded_decimal_reads_back(p.palabra as nat, 8);
    assert forall|i: int| 0 <= i < digits.len() implies '\0' <= #[trigger] digits[i] <= '\u{7f}' by {
        assert(is_digit(digits[i]));
    }
    assert forall|i: int| 0 <= i < text.len() implies '\0' <= #[trigger] text[i] <= '\u{7f}' by {
        if i < 8 {
            assert(text[i] == digits[i]);
        }
    }
    is_ascii_chars_encode_utf8(digits);
    is_ascii_chars_encode_utf8(text);
    let head = encode_utf8(text).subrange(0, 8);
    assert(head =~= encode_utf8(digits)) by {
        assert forall|i: int| 0 <= i < 8 implies head[i] == encode_utf8(digits)[i] by {
            assert(head[i] == encode_utf8(text)[i]);
            assert(text[i] == digits[i]);
        }
    }
    encode_utf8_valid_utf8(digits);
    encode_utf8_decode_utf8(digits);
}

/// A word of no more than eight digits that is written from memory to a
/// sector and then read from that sector to any address arrives unchanged.
pub proof fn lemma_write_then_read(
    writer: Dma,
    reader: Dma,
    disk: Map<(int, int, int), Seq<u8>>,
    mem: Seq<Palabra>,
)
    requires
        writer.on_disk(),
        valid_address(writer.pos_men as int),
        mem[writer.pos_men as int].fits(),
        reader.place() == writer.place(),
        valid_address(reader.pos_men as int),
    ensures
        writer.write_transfer(disk, mem).1 is None,
        reader.read_transfer(writer.write_transfer(disk, mem).0, mem) == (
            mem.update(reader.pos_men as int, mem[writer.pos_men as int]),
            None::<Fault>,
        ),
{
    lemma_block_of_word(mem[writer.pos_men as int]);
}

} // verus!
