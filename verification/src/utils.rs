use vstd::prelude::*;
use vstd::string::*;
use crate::hardware::architecture::Palabra;
use crate::hardware::interrupts::Interrups;
use crate::hardware::ram::{
    address_fault, loadable_range, range_fault, range_is_zero, valid_address, Ram,
};
use crate::text::{
    line_words, magnitude, padded_decimal, padded_decimal_string, parse_i32, parse_int,
    split_line_words,
};
use crate::Programs;

verus! {

/// An error of the machine: a message for people and the cause it is filed under.
#[derive(Debug, PartialEq, Eq)]
pub struct Errors {
    pub msg: String,
    pub cod: Interrups,
}

/// What an `Errors` value says, with the message as a sequence of characters.
pub struct Fault {
    pub cod: Interrups,
    pub msg: Seq<char>,
}

impl View for Errors {
    type V = Fault;

    open spec fn view(&self) -> Fault {
        Fault { cod: self.cod, msg: self.msg@ }
    }
}

/// What an operation gives that has nothing to return but may fail.
pub type Result_op = Result<(), Errors>;

/// The fault a unit result carries, if any.
pub open spec fn fault_of(r: Result_op) -> Option<Fault> {
    match r {
        Ok(_) => None,
        Err(e) => Some(e@),
    }
}

/// Whether the running program goes on after an interrupt was served.
#[derive(Debug, Clone, Copy, PartialEq, Eq, Structural)]
pub enum ContinueOrBreak {
    Continue,
    Break,
}

/// Builds the error with the given message and cause.
pub fn fault(msg: &str, cod: Interrups) -> (e: Errors)
    ensures
        e@ == (Fault { cod, msg: msg@ }),
{
    Errors { msg: String::from_str(msg), cod }
}

/// Keeps a success and replaces any foreign error by the given message and cause.
pub fn convert_result<T, E>(result_extern: Result<T, E>, msg: String, cod: Interrups) -> (r: Result<
    T,
    Errors,
>)
    ensures
        match result_extern {
            Ok(val) => r == Ok::<T, Errors>(val),
            Err(_) => r is Err && r->Err_0.msg == msg && r->Err_0.cod == cod,
        },
{
    match result_extern {
        Ok(val) => Ok(val),
        Err(_) => Err(Errors { msg, cod }),
    }
}

/// Turns a missing value into the error with the given message and cause.
pub fn convert_option_result<T>(option: Option<T>, msg: String, cod: Interrups) -> (r: Result<
    T,
    Errors,
>)
    ensures
        match option {
            Some(val) => r == Ok::<T, Errors>(val),
            None => r is Err && r->Err_0.msg == msg && r->Err_0.cod == cod,
        },
{
    match option {
        Some(val) => Ok(val),
        None => Err(Errors { msg, cod }),
    }
}

/// The text of a word that carries the number `v`: the sign digit, then the magnitude.
pub open spec fn word_text(v: int) -> Seq<char> {
    if v < 0 {
        seq!['1'] + padded_decimal((-v) as nat, 7)
    } else {
        padded_decimal(v as nat, 8)
    }
}

/// Writes the text of the word that carries the number `pal`: a leading `1`
/// and seven digits for a negative number, eight digits otherwise.
pub fn convert_to_string_format_pal(pal: i32) -> (s: String)
    ensures
        s@ == word_text(pal as int),
{
    proof {
        reveal_strlit("1");
    }
    if pal < 0 {
        String::from_str("1").concat(padded_decimal_string(magnitude(pal), 7).as_str())
    } else {
        padded_decimal_string(pal as u32, 8)
    }
}

/// Whether `i` is the place of the first program of the table that has the name.
pub open spec fn first_named(table: Seq<Programs>, name: Seq<char>, i: int) -> bool {
    &&& 0 <= i < table.len()
    &&& table[i].name@ == name
    &&& forall|j: int| 0 <= j < i ==> (#[trigger] table[j]).name@ != name
}

/// What the search for a program reports that is not in the table.
pub open spec fn missing_program(name: Seq<char>) -> Fault {
    Fault {
        cod: Interrups::InstInv,
        msg: "No se encontro programa el programa "@ + name + ", en la tabla de procesos"@,
    }
}

/// Finds the first program of the table that has the given name.
pub fn linear_search_program<'a>(table_process: &'a Vec<Programs>, name_program: &String) -> (r:
    Result<&'a Programs, Errors>)
    ensures
        match r {
            Ok(program) => exists|i: int|
                first_named(table_process@, name_program@, i) && *program == table_process@[i],
            Err(e) => e@ == missing_program(name_program@) && forall|i: int|
                0 <= i < table_process@.len() ==> (#[trigger] table_process@[i]).name@
                    != name_program@,
        },
{
    let mut i: usize = 0;
    while i < table_process.len()
        invariant
            i <= table_process@.len(),
            forall|j: int| 0 <= j < i ==> (#[trigger] table_process@[j]).name@ != name_program@,
        decreases table_process@.len() - i,
    {
        let program = &table_process[i];
        if program.name == *name_program {
            assert(first_named(table_process@, name_program@, i as int));
            return Ok(program);
        }
        i += 1;
    }
    let mut msg = String::from_str("No se encontro programa el programa ");
    msg.append(name_program.as_str());
    msg.append(", en la tabla de procesos");
    Err(Errors { msg, cod: Interrups::InstInv })
}

/// A program descriptor with its name as a sequence of characters.
pub struct ProgramsView {
    pub name: Seq<char>,
    pub num_instruccions_with_pila: i32,
    pub pos_start_mem: i32,
    pub pos_start_program: i32,
}

impl View for Programs {
    type V = ProgramsView;

    open spec fn view(&self) -> ProgramsView {
        ProgramsView {
            name: self.name@,
            num_instruccions_with_pila: self.num_instruccions_with_pila,
            pos_start_mem: self.pos_start_mem,
            pos_start_program: self.pos_start_program,
        }
    }
}

/// A load under way: the descriptor as far as it is known, and the memory.
pub struct Loading {
    pub process: ProgramsView,
    pub mem: Seq<Palabra>,
}

/// What a line reports that does not hold the number or the word it should.
pub open spec fn malformed_fault() -> Fault {
    Fault { cod: Interrups::EndIO, msg: "Error al leer el archivo, linea invalida"@ }
}

/// What a load reports into a range that is not all zeros.
pub open spec fn occupied_fault() -> Fault {
    Fault { cod: Interrups::EndIO, msg: "Error al Cargar el archivo, posicion ocupada"@ }
}

/// What line `i` of a program file, split into its words, adds to a load at `position`.
///
/// - Line 0 gives, as its second word, the line at which the program starts.
/// - Line 1 gives, as its second word, the number of instructions; the
///   program may address twice as many words and one more. The range from
///   `position` over that many words must be one that may take a program
///   and hold zeros only.
/// - Line 2 gives, as its second word, the name.
/// - Every later line gives, as its first word, the word that goes to the
///   next address, counted from `position`; a line without words leaves its
///   address as it is.
pub open spec fn load_line(i: int, line: Seq<Seq<char>>, position: int, st: Loading) -> Result<
    Loading,
    Fault,
> {
    let p = st.process;
    if i == 0 {
        if line.len() < 2 {
            Ok(st)
        } else {
            match parse_int(line[1]) {
                None => Err(malformed_fault()),
                Some(v) => Ok(
                    Loading { process: ProgramsView { pos_start_program: v as i32, ..p }, ..st },
                ),
            }
        }
    } else if i == 1 {
        let counted: Result<int, Fault> = if line.len() < 2 {
            Ok(p.num_instruccions_with_pila as int)
        } else {
            match parse_int(line[1]) {
                None => Err(malformed_fault()),
                Some(v) => if v * 2 + 1 <= i32::MAX && v * 2 + 1 >= i32::MIN {
                    Ok(v * 2 + 1)
                } else {
                    Err(malformed_fault())
                },
            }
        };
        match counted {
            Err(f) => Err(f),
            Ok(span) => if !loadable_range(position, position + span) {
                Err(range_fault())
            } else if !range_is_zero(st.mem, position, position + span) {
                Err(occupied_fault())
            } else {
                Ok(
                    Loading {
                        process: ProgramsView { num_instruccions_with_pila: span as i32, ..p },
                        ..st
                    },
                )
            },
        }
    } else if i == 2 {
        if line.len() < 2 {
            Ok(st)
        } else {
            Ok(Loading { process: ProgramsView { name: line[1], ..p }, ..st })
        }
    } else {
        if line.len() < 1 {
            Ok(st)
        } else {
            match Palabra::parse(line[0]) {
                None => Err(malformed_fault()),
                Some(word) => if valid_address(position + (i - 3)) {
                    Ok(
                        Loading {
                            process: ProgramsView { pos_start_mem: position as i32, ..p },
                            mem: st.mem.update(position + (i - 3), word),
                        },
                    )
                } else {
                    Err(address_fault())
                },
            }
        }
    }
}

/// What the lines from `i` on add to a load: line by line, up to the first
/// line that fails. A failed load keeps what the lines before did to the memory.
pub open spec fn load_lines(lines: Seq<Seq<Seq<char>>>, i: int, position: int, st: Loading) -> (
    Loading,
    Option<Fault>,
)
    decreases lines.len() - i,
{
    if i < 0 || i >= lines.len() {
        (st, None)
    } else {
        match load_line(i, lines[i], position, st) {
            Err(f) => (st, Some(f)),
            Ok(next) => load_lines(lines, i + 1, position, next),
        }
    }
}

/// The descriptor that a load starts from.
pub open spec fn unset_program() -> ProgramsView {
    ProgramsView {
        name: Seq::<char>::empty(),
        num_instruccions_with_pila: -1i32,
        pos_start_mem: -1i32,
        pos_start_program: -1i32,
    }
}

/// Loads a program, given as the text of its file, into memory from
/// `position_to_load` on. A load that succeeds adds the descriptor of the
/// program to the end of the process table. A load that fails leaves the
/// table as it was.
pub fn load_program_in_ram(
    text: &str,
    table_procces: &mut Vec<Programs>,
    ram: &mut Ram,
    position_to_load: i32,
) -> (r: Result<(), Errors>)
    ensures
        ({
            let loaded = load_lines(
                line_words(text@),
                0,
                position_to_load as int,
                Loading { process: unset_program(), mem: old(ram)@ },
            );
            &&& final(ram)@ == loaded.0.mem
            &&& fault_of(r) == loaded.1
            &&& match loaded.1 {
                Some(_) => final(table_procces)@ == old(table_procces)@,
                None => final(table_procces)@.len() == old(table_procces)@.len() + 1
                    && final(table_procces)@.subrange(0, old(table_procces)@.len() as int)
                    == old(table_procces)@ && final(table_procces)@.last()@ == loaded.0.process,
            }
        }),
{
    let lines = split_line_words(text);
    let mut process: Programs = Programs::new();
    let ghost all = lines.deep_view();
    let ghost whole = load_lines(
        all,
        0,
        position_to_load as int,
        Loading { process: unset_program(), mem: ram@ },
    );
    proof {
        ram.lemma_len();
    }
    let mut i: usize = 0;
    while i < lines.len()
        invariant
            i <= lines.len(),
            all == lines.deep_view(),
            all.len() == lines.len(),
            ram@.len() == 2001,
            table_procces@ == old(table_procces)@,
            all == line_words(text@),
            whole == load_lines(
                all,
                0,
                position_to_load as int,
                Loading { process: unset_program(), mem: old(ram)@ },
            ),
            whole == load_lines(
                all,
                i as int,
                position_to_load as int,
                Loading { process: process@, mem: ram@ },
            ),
        decreases lines.len() - i,
    {
        let line = &lines[i];
        proof {
            assert(all[i as int] == line.deep_view());
            assert(line.deep_view().len() == line.len());
            if line.len() >= 1 {
                assert(line.deep_view()[0] == line[0]@);
            }
            if line.len() >= 2 {
                assert(line.deep_view()[1] == line[1]@);
            }
        }
        if i == 0 {
            if line.len() >= 2 {
                match parse_i32(line[1].as_str()) {
                    Some(v) => {
                        process.pos_start_program = v;
                    },
                    None => {
                        return Err(
                            fault("Error al leer el archivo, linea invalida", Interrups::EndIO),
                        );
                    },
                }
            }
        } else if i == 1 {
            if line.len() >= 2 {
                match parse_i32(line[1].as_str()) {
                    Some(v) => {
                        let span: i64 = v as i64 * 2 + 1;
                        if span > 2_147_483_647 || span < -2_147_483_648 {
                            return Err(
                                fault("Error al leer el archivo, linea invalida", Interrups::EndIO),
                            );
                        }
                        process.num_instruccions_with_pila = span as i32;
                    },
                    None => {
                        return Err(
                            fault("Error al leer el archivo, linea invalida", Interrups::EndIO),
                        );
                    },
                }
            }
            let position_end: i64 = position_to_load as i64
                + process.num_instruccions_with_pila as i64;
            if position_end > 2000 || position_end < -1 {
                return Err(fault("Rango de memoria invalido", Interrups::DirInv));
            }
            let condition = ram.is_empty(position_to_load, position_end as i32)?;
            if !condition {
                return Err(
                    fault("Error al Cargar el archivo, posicion ocupada", Interrups::EndIO),
                );
            }
        } else if i == 2 {
            if line.len() >= 2 {
                process.name = line[1].clone();
            }
        } else {
            if line.len() >= 1 {
                let palabra = match Palabra::new(line[0].as_str()) {
                    Some(p) => p,
                    None => {
                        return Err(
                            fault("Error al leer el archivo, linea invalida", Interrups::EndIO),
                        );
                    },
                };
                // So far down the file no position leaves the word inside the memory.
                if i - 3 > 2_147_485_648 {
                    return Err(fault("Dirección a leer invalida", Interrups::DirInv));
                }
                let address: i64 = position_to_load as i64 + (i - 3) as i64;
                if address > 2000 || address < 0 {
                    return Err(fault("Dirección a leer invalida", Interrups::DirInv));
                }
                process.pos_start_mem = position_to_load;
                ram.writeMemory(address as i32, palabra)?;
            }
        }
        i += 1;
    }
    let ghost before = table_procces@;
    table_procces.push(process);
    assert(table_procces@.subrange(0, before.len() as int) =~= before);
    Ok(())
}

} // verus!
