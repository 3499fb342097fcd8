use vstd::prelude::*;
use vstd::string::*;
use vstd::utf8::{decode_utf8, encode_utf8, valid_utf8};
use crate::hardware::interrupts::Interrups;
use crate::utils::{fault, fault_of, Errors, Fault, Result_op};

verus! {

/// What one sector holds: nine bytes.
pub type SectorData = [u8; 9];

/// A disk of 11 cylinders with 11 tracks of 101 sectors each.
pub struct Disk {
    disk: [[[SectorData; 101]; 11]; 11],
}

/// Whether cylinder, track and sector name a sector of the disk.
pub open spec fn valid_geometry(cil: int, pista: int, sec: int) -> bool {
    0 <= cil <= 10 && 0 <= pista <= 10 && 0 <= sec <= 100
}

/// What a refused read reports.
pub open spec fn read_fault() -> Fault {
    Fault { cod: Interrups::EndIO, msg: "Error al leer del disco"@ }
}

/// What a refused write reports.
pub open spec fn write_fault() -> Fault {
    Fault { cod: Interrups::EndIO, msg: "Error al escribir del disco"@ }
}

/// The text that `String::from_utf8_lossy` makes of a run of bytes.
pub uninterp spec fn lossy_text(bytes: Seq<u8>) -> Seq<char>;

/// The text of a run of bytes: what the bytes encode where they are valid
/// UTF-8, and whatever the lossy conversion makes of them where they are not.
pub open spec fn sector_text(bytes: Seq<u8>) -> Seq<char> {
    if valid_utf8(bytes) {
        decode_utf8(bytes)
    } else {
        lossy_text(bytes)
    }
}

/// Calls `String::from_utf8_lossy` and takes the text as a `String`.
/// Believed of it without proof: the text depends on the bytes alone;
/// bytes that are valid UTF-8 give the text that they encode; any other
/// bytes give a text that holds the replacement character U+FFFD.
#[verifier::external_body]
fn text_of_bytes(bytes: &[u8]) -> (s: String)
    ensures
        s@ == (if valid_utf8(bytes@) {
            decode_utf8(bytes@)
        } else {
            lossy_text(bytes@)
        }),
        !valid_utf8(bytes@) ==> s@.contains('\u{fffd}'),
{
    String::from_utf8_lossy(bytes).into_owned()
}

impl View for Disk {
    type V = Map<(int, int, int), Seq<u8>>;

    /// The bytes of each sector, by cylinder, track and sector.
    closed spec fn view(&self) -> Map<(int, int, int), Seq<u8>> {
        Map::new(
            |k: (int, int, int)| valid_geometry(k.0, k.1, k.2),
            |k: (int, int, int)| self.disk@[k.0]@[k.1]@[k.2]@,
        )
    }
}

impl Disk {
    /// Whether the view holds nine bytes for every sector of the disk and nothing else.
    pub open spec fn shaped(v: Map<(int, int, int), Seq<u8>>) -> bool {
        &&& forall|k: (int, int, int)| v.dom().contains(k) <==> valid_geometry(k.0, k.1, k.2)
        &&& forall|k: (int, int, int)| v.dom().contains(k) ==> (#[trigger] v[k]).len() == 9
    }

    /// Every disk has its full geometry, nine bytes to the sector.
    pub proof fn lemma_shaped(&self)
        ensures
            Self::shaped(self@),
    {
    }

    /// A disk with the digit `0` in every byte.
    pub fn new() -> (d: Self)
        ensures
            Self::shaped(d@),
            forall|k: (int, int, int)| d@.dom().contains(k) ==> #[trigger] d@[k] == Seq::new(
                9,
                |i: int| 48u8,
            ),
    {
        let d = Disk { disk: [[[[48u8; 9]; 101]; 11]; 11] };
        proof {
            assert forall|k: (int, int, int)| d@.dom().contains(k) implies #[trigger] d@[k]
                == Seq::new(9, |i: int| 48u8) by {
                assert(d@[k] =~= Seq::new(9, |i: int| 48u8));
            }
        }
        d
    }

    /// Reads the first eight bytes of a sector as text: the text that they
    /// encode, or, where they are not valid UTF-8, a text that holds the
    /// replacement character. A place that is not on the disk is refused.
    pub fn read(&self, cil: i8, pista: i8, sec: i8) -> (r: Result<String, Errors>)
        ensures
            Self::shaped(self@),
            valid_geometry(cil as int, pista as int, sec as int) ==> r is Ok && r->Ok_0@
                == sector_text(self@[(cil as int, pista as int, sec as int)].subrange(0, 8)),
            valid_geometry(cil as int, pista as int, sec as int) && !valid_utf8(
                self@[(cil as int, pista as int, sec as int)].subrange(0, 8),
            ) ==> r->Ok_0@.contains('\u{fffd}'),
            !valid_geometry(cil as int, pista as int, sec as int) ==> r is Err && r->Err_0@
                == read_fault(),
    {
        if (cil > 10 || cil < 0) || (pista > 10 || pista < 0) || (sec > 100 || sec < 0) {
            return Err(fault("Error al leer del disco", Interrups::EndIO));
        }
        let sector: &SectorData = &self.disk[cil as usize][pista as usize][sec as usize];
        let mut head: Vec<u8> = Vec::new();
        let mut i: usize = 0;
        while i < 8
            invariant
                i <= 8,
                head@ == sector@.subrange(0, i as int),
            decreases 8 - i,
        {
            head.push(sector[i]);
            i += 1;
            assert(head@ =~= sector@.subrange(0, i as int));
        }
        Ok(text_of_bytes(head.as_slice()))
    }

    /// Writes the nine bytes of a text into a sector and leaves every other
    /// sector as it was. A place that is not on the disk, or a text that is
    /// not nine bytes long, is refused and changes nothing.
    pub fn write(&mut self, data: String, cil: i8, pista: i8, sec: i8) -> (r: Result_op)
        ensures
            Self::shaped(final(self)@),
            valid_geometry(cil as int, pista as int, sec as int) && encode_utf8(data@).len()
                == 9 ==> r is Ok && final(self)@ == old(self)@.insert(
                (cil as int, pista as int, sec as int),
                encode_utf8(data@),
            ),
            !(valid_geometry(cil as int, pista as int, sec as int)
                && encode_utf8(data@).len() == 9) ==> fault_of(r) == Some(write_fault())
                && final(self)@ == old(self)@,
    {
        if (cil > 10 || cil < 0) || (pista > 10 || pista < 0) || (sec > 100 || sec < 0) {
            return Err(fault("Error al escribir del disco", Interrups::EndIO));
        }
        let bytes = data.as_str().as_bytes();
        if bytes.len() != 9 {
            return Err(fault("Error al escribir del disco", Interrups::EndIO));
        }
        let mut bloque: SectorData = [48u8; 9];
        let mut i: usize = 0;
        while i < 9
            invariant
                i <= 9,
                bytes@.len() == 9,
                forall|j: int| 0 <= j < i ==> bloque@[j] == bytes@[j],
            decreases 9 - i,
        {
            bloque[i] = bytes[i];
            i += 1;
        }
        assert(bloque@ =~= bytes@);
        self.disk[cil as usize][pista as usize][sec as usize] = bloque;
        assert(self@ =~= old(self)@.insert((cil as int, pista as int, sec as int), bytes@));
        Ok(())
    }
}

} // verus!
