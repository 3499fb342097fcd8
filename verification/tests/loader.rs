use decimal_machine::hardware::architecture::Palabra;
use decimal_machine::hardware::cpu::Registers_Cpu_Config;
use decimal_machine::hardware::interrupts::Interrups;
use decimal_machine::hardware::ram::Ram;
use decimal_machine::utils::{linear_search_program, load_program_in_ram, Errors};
use decimal_machine::{Mode_Execute, Programs};

fn w(v: i32) -> Palabra {
    Palabra::from_value(v).unwrap()
}

fn lines(text: &[&str]) -> String {
    text.join("\n")
}

fn error(msg: &str, cod: Interrups) -> Errors {
    Errors { msg: msg.to_string(), cod }
}

fn program(name: &str, span: i32, base: i32, start: i32) -> Programs {
    Programs {
        name: name.to_string(),
        num_instruccions_with_pila: span,
        pos_start_mem: base,
        pos_start_program: start,
    }
}

const SAMPLE: [&str; 6] = [
    "_start 1",
    ".NumeroInstrucciones 3",
    ".NombreProg suma",
    "04100005",
    "00100003 AC = AC + 3",
    "13000000",
];

#[test]
fn new_descriptor_is_unset() {
    assert_eq!(Programs::new(), program("", -1, -1, -1));
}

#[test]
fn load_writes_the_words_and_describes_the_program() {
    let mut ram = Ram::new();
    let mut table = Vec::new();
    assert_eq!(load_program_in_ram(&lines(&SAMPLE), &mut table, &mut ram, 301), Ok(()));
    assert_eq!(table, vec![program("suma", 7, 301, 1)]);
    assert_eq!(ram.readMemory(301), Ok(Palabra::new("04100005").unwrap()));
    assert_eq!(ram.readMemory(302), Ok(Palabra::new("00100003").unwrap()));
    assert_eq!(ram.readMemory(303), Ok(Palabra::new("13000000").unwrap()));
    assert_eq!(ram.readMemory(304), Ok(w(0)));
    assert_eq!(ram.readMemory(300), Ok(w(0)));
}

#[test]
fn load_adds_to_the_end_of_the_table() {
    let mut ram = Ram::new();
    let mut table = vec![program("otro", 3, 1000, 1)];
    assert_eq!(load_program_in_ram(&lines(&SAMPLE), &mut table, &mut ram, 400), Ok(()));
    assert_eq!(table, vec![program("otro", 3, 1000, 1), program("suma", 7, 400, 1)]);
}

#[test]
fn load_refuses_memory_that_is_taken() {
    let mut ram = Ram::new();
    let mut table = Vec::new();
    load_program_in_ram(&lines(&SAMPLE), &mut table, &mut ram, 301).unwrap();
    for position in [301, 298 + 3, 303, 296 + 5] {
        assert_eq!(
            load_program_in_ram(&lines(&SAMPLE), &mut table, &mut ram, position),
            Err(error("Error al Cargar el archivo, posicion ocupada", Interrups::EndIO))
        );
    }
    assert_eq!(table.len(), 1);
    assert_eq!(load_program_in_ram(&lines(&SAMPLE), &mut table, &mut ram, 304), Ok(()));
    assert_eq!(table.len(), 2);
}

#[test]
fn load_refuses_ranges_that_take_no_program() {
    for position in [0, 300, 1994, 2000, -5] {
        let mut ram = Ram::new();
        let mut table = Vec::new();
        assert_eq!(
            load_program_in_ram(&lines(&SAMPLE), &mut table, &mut ram, position),
            Err(error("Rango de memoria invalido", Interrups::DirInv))
        );
        assert!(table.is_empty());
        assert_eq!(ram, Ram::new());
    }
    let mut ram = Ram::new();
    let mut table = Vec::new();
    assert_eq!(load_program_in_ram(&lines(&SAMPLE), &mut table, &mut ram, 1993), Ok(()));
}

#[test]
fn load_refuses_lines_that_do_not_hold_what_they_should() {
    let malformed = || error("Error al leer el archivo, linea invalida", Interrups::EndIO);
    let cases: [&[&str]; 6] = [
        &["_start uno", ".n 3", ".name p", "04100005"],
        &["_start 1", ".n tres", ".name p", "04100005"],
        &["_start 1", ".n 3", ".name p", "0410000"],
        &["_start 1", ".n 3", ".name p", "04100005", "x"],
        &["_start 1", ".n 2147483647", ".name p"],
        &["_start 99999999999", ".n 3", ".name p"],
    ];
    for case in cases {
        let mut ram = Ram::new();
        let mut table = Vec::new();
        assert_eq!(load_program_in_ram(&lines(case), &mut table, &mut ram, 301), Err(malformed()));
        assert!(table.is_empty());
    }
}

#[test]
fn failed_load_keeps_the_words_before_the_failure() {
    let mut ram = Ram::new();
    let mut table = Vec::new();
    let text = ["_start 1", ".n 3", ".name p", "04100005", "bad", "13000000"];
    assert!(load_program_in_ram(&lines(&text), &mut table, &mut ram, 301).is_err());
    assert_eq!(ram.readMemory(301), Ok(Palabra::new("04100005").unwrap()));
    assert_eq!(ram.readMemory(302), Ok(w(0)));
    assert_eq!(ram.readMemory(303), Ok(w(0)));
}

#[test]
fn load_skips_lines_without_words() {
    let mut ram = Ram::new();
    let mut table = Vec::new();
    let text = ["_start 2", ".n 3", ".name p", "04100005", "", "13000000"];
    assert_eq!(load_program_in_ram(&lines(&text), &mut table, &mut ram, 500), Ok(()));
    assert_eq!(ram.readMemory(500), Ok(Palabra::new("04100005").unwrap()));
    assert_eq!(ram.readMemory(501), Ok(w(0)));
    assert_eq!(ram.readMemory(502), Ok(Palabra::new("13000000").unwrap()));
    assert_eq!(table, vec![program("p", 7, 500, 2)]);
}

#[test]
fn load_of_a_file_without_a_second_word_in_its_header() {
    let mut ram = Ram::new();
    let mut table = Vec::new();
    let text = ["_start", ".n 3", ".name"];
    assert_eq!(load_program_in_ram(&lines(&text), &mut table, &mut ram, 500), Ok(()));
    assert_eq!(table, vec![program("", 7, -1, -1)]);
    let text = ["_start 1", ".n"];
    assert_eq!(
        load_program_in_ram(&lines(&text), &mut table, &mut ram, 500),
        Err(error("Rango de memoria invalido", Interrups::DirInv))
    );
}

#[test]
fn load_of_an_empty_file() {
    let mut ram = Ram::new();
    let mut table = Vec::new();
    assert_eq!(load_program_in_ram(&lines(&[]), &mut table, &mut ram, 500), Ok(()));
    assert_eq!(table, vec![program("", -1, -1, -1)]);
    assert_eq!(load_program_in_ram(&lines(&["_start 4"]), &mut table, &mut ram, 0), Ok(()));
    assert_eq!(table[1], program("", -1, -1, 4));
    assert_eq!(ram, Ram::new());
}

#[test]
fn load_beyond_the_end_of_memory() {
    let mut ram = Ram::new();
    let mut table = Vec::new();
    let text = ["_start 1", ".n 0", ".name p", "00000001", "00000002"];
    assert_eq!(
        load_program_in_ram(&lines(&text), &mut table, &mut ram, 1999),
        Ok(())
    );
    let text = ["_start 1", ".n 0", ".name p", "00000000", "00000000", "00000003"];
    let mut ram = Ram::new();
    assert_eq!(
        load_program_in_ram(&lines(&text), &mut table, &mut ram, 1999),
        Err(error("Dirección a leer invalida", Interrups::DirInv))
    );
}

#[test]
fn search_finds_the_first_program_of_the_name() {
    let table = vec![
        program("uno", 3, 301, 1),
        program("dos", 5, 400, 1),
        program("uno", 7, 500, 2),
    ];
    assert_eq!(linear_search_program(&table, &"uno".to_string()), Ok(&table[0]));
    assert_eq!(linear_search_program(&table, &"dos".to_string()), Ok(&table[1]));
    assert_eq!(linear_search_program(&table, &"uno".to_string()).unwrap().pos_start_mem, 301);
}

#[test]
fn search_reports_a_program_that_is_not_there() {
    let table = vec![program("uno", 3, 301, 1)];
    assert_eq!(
        linear_search_program(&table, &"tres".to_string()),
        Err(error(
            "No se encontro programa el programa tres, en la tabla de procesos",
            Interrups::InstInv
        ))
    );
    assert_eq!(
        linear_search_program(&Vec::new(), &"".to_string()),
        Err(error(
            "No se encontro programa el programa , en la tabla de procesos",
            Interrups::InstInv
        ))
    );
    assert!(linear_search_program(&table, &"Uno".to_string()).is_err());
    assert!(linear_search_program(&table, &"un".to_string()).is_err());
}

#[test]
fn start_registers_of_a_program() {
    let p = program("suma", 7, 301, 1);
    assert_eq!(
        p.start_config(Mode_Execute::normal),
        Some(Registers_Cpu_Config {
            mode: Mode_Execute::normal,
            rb: w(301),
            rl: w(308),
            rx: w(304),
            sp: w(308),
            pc: 301,
        })
    );
    let p = program("p", 21, 1000, 4);
    assert_eq!(
        p.start_config(Mode_Execute::debbuger),
        Some(Registers_Cpu_Config {
            mode: Mode_Execute::debbuger,
            rb: w(1000),
            rl: w(1021),
            rx: w(1010),
            sp: w(1021),
            pc: 1003,
        })
    );
}

#[test]
fn start_registers_of_an_unset_program() {
    assert_eq!(
        Programs::new().start_config(Mode_Execute::normal),
        Some(Registers_Cpu_Config {
            mode: Mode_Execute::normal,
            rb: w(-1),
            rl: w(-2),
            rx: w(-1),
            sp: w(-2),
            pc: -3,
        })
    );
    assert_eq!(program("p", 5, 9_999_999, 1).start_config(Mode_Execute::normal), None);
    assert_eq!(program("p", i32::MAX, i32::MAX, 1).start_config(Mode_Execute::normal), None);
    assert_eq!(program("p", 0, 9_999_999, i32::MAX).start_config(Mode_Execute::normal), None);
    assert_eq!(
        program("p", -3, 5, i32::MIN).start_config(Mode_Execute::off),
        Some(Registers_Cpu_Config {
            mode: Mode_Execute::off,
            rb: w(5),
            rl: w(2),
            rx: w(4),
            sp: w(2),
            pc: -2_147_483_644,
        })
    );
}

#[test]
fn load_reads_lines_and_words_as_the_standard_library_does() {
    let text = "_start\t 1 \r\n.n   3\r\n\u{3000}.name\u{a0}suma  extra\n  04100005  ; carga\n00100003\r\n\n13000000";
    let mut ram = Ram::new();
    let mut table = Vec::new();
    assert_eq!(load_program_in_ram(text, &mut table, &mut ram, 301), Ok(()));
    assert_eq!(table, vec![program("suma", 7, 301, 1)]);
    assert_eq!(ram.readMemory(301), Ok(Palabra::new("04100005").unwrap()));
    assert_eq!(ram.readMemory(302), Ok(Palabra::new("00100003").unwrap()));
    assert_eq!(ram.readMemory(303), Ok(w(0)));
    assert_eq!(ram.readMemory(304), Ok(Palabra::new("13000000").unwrap()));
}

#[test]
fn load_of_a_text_that_ends_in_a_line_feed() {
    let mut ram = Ram::new();
    let mut table = Vec::new();
    let text = "_start 1\n.n 1\n.name p\n00000007\n";
    assert_eq!(load_program_in_ram(text, &mut table, &mut ram, 301), Ok(()));
    assert_eq!(ram.readMemory(301), Ok(w(7)));
    assert_eq!(table, vec![program("p", 3, 301, 1)]);
}
