use decimal_machine::hardware::architecture::Palabra;
use decimal_machine::hardware::interrupts::Interrups;
use decimal_machine::hardware::ram::Ram;
use decimal_machine::utils::Errors;

fn address_error() -> Errors {
    Errors { msg: "Dirección a leer invalida".to_string(), cod: Interrups::DirInv }
}

fn range_error() -> Errors {
    Errors { msg: "Rango de memoria invalido".to_string(), cod: Interrups::DirInv }
}

#[test]
fn new_memory_is_all_zero() {
    let ram = Ram::new();
    for address in [0, 1, 8, 9, 300, 301, 1000, 1999, 2000] {
        assert_eq!(ram.readMemory(address), Ok(Palabra { palabra: 0 }));
    }
}

#[test]
fn memory_has_2001_words() {
    let mut ram = Ram::new();
    assert_eq!(ram.writeMemory(0, Palabra { palabra: 11 }), Ok(()));
    assert_eq!(ram.writeMemory(2000, Palabra { palabra: 22 }), Ok(()));
    assert_eq!(ram.readMemory(0), Ok(Palabra { palabra: 11 }));
    assert_eq!(ram.readMemory(2000), Ok(Palabra { palabra: 22 }));
    assert_eq!(ram.readMemory(2001), Err(address_error()));
    assert_eq!(ram.readMemory(-1), Err(address_error()));
    assert_eq!(ram.readMemory(i32::MAX), Err(address_error()));
    assert_eq!(ram.readMemory(i32::MIN), Err(address_error()));
}

#[test]
fn refused_write_changes_nothing() {
    let mut ram = Ram::new();
    ram.writeMemory(5, Palabra { palabra: 55 }).unwrap();
    let before = Ram::new();
    assert_ne!(ram, before);
    let mut copy = Ram::new();
    copy.writeMemory(5, Palabra { palabra: 55 }).unwrap();
    assert_eq!(ram.writeMemory(2001, Palabra { palabra: 1 }), Err(address_error()));
    assert_eq!(ram.writeMemory(-1, Palabra { palabra: 1 }), Err(address_error()));
    assert_eq!(ram, copy);
}

#[test]
fn write_changes_one_word_only() {
    let mut ram = Ram::new();
    ram.writeMemory(700, Palabra { palabra: 7 }).unwrap();
    assert_eq!(ram.readMemory(699), Ok(Palabra { palabra: 0 }));
    assert_eq!(ram.readMemory(700), Ok(Palabra { palabra: 7 }));
    assert_eq!(ram.readMemory(701), Ok(Palabra { palabra: 0 }));
    ram.writeMemory(700, Palabra { palabra: 8 }).unwrap();
    assert_eq!(ram.readMemory(700), Ok(Palabra { palabra: 8 }));
}

#[test]
fn is_empty_tells_whether_a_range_is_zero() {
    let mut ram = Ram::new();
    assert_eq!(ram.is_empty(301, 2000), Ok(true));
    assert_eq!(ram.is_empty(301, 301), Ok(true));
    ram.writeMemory(500, Palabra { palabra: 3 }).unwrap();
    assert_eq!(ram.is_empty(301, 2000), Ok(false));
    assert_eq!(ram.is_empty(301, 499), Ok(true));
    assert_eq!(ram.is_empty(501, 2000), Ok(true));
    assert_eq!(ram.is_empty(500, 500), Ok(false));
    assert_eq!(ram.is_empty(499, 500), Ok(false));
    assert_eq!(ram.is_empty(500, 501), Ok(false));
}

#[test]
fn is_empty_counts_minus_zero_as_zero() {
    let mut ram = Ram::new();
    ram.writeMemory(400, Palabra { palabra: 10_000_000 }).unwrap();
    assert_eq!(ram.is_empty(301, 500), Ok(true));
    ram.writeMemory(401, Palabra { palabra: 20_000_000 }).unwrap();
    assert_eq!(ram.is_empty(301, 500), Ok(false));
}

#[test]
fn is_empty_refuses_ranges_that_take_no_program() {
    let ram = Ram::new();
    assert_eq!(ram.is_empty(300, 400), Err(range_error()));
    assert_eq!(ram.is_empty(0, 8), Err(range_error()));
    assert_eq!(ram.is_empty(301, 2001), Err(range_error()));
    assert_eq!(ram.is_empty(400, 399), Err(range_error()));
    assert_eq!(ram.is_empty(-5, 400), Err(range_error()));
    assert_eq!(ram.is_empty(301, i32::MAX), Err(range_error()));
}
