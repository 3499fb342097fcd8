use decimal_machine::hardware::architecture::Palabra;
use decimal_machine::hardware::instructions::Instruction;
use decimal_machine::hardware::interrupts::Interrups;
use decimal_machine::hardware::registers::{Pws, Registros};
use decimal_machine::utils::Errors;

fn status_error() -> Errors {
    Errors { msg: "Valor invalido para la palabra de estado".to_string(), cod: Interrups::InstInv }
}

fn counter_error() -> Errors {
    Errors { msg: "Contador de programa fuera de rango".to_string(), cod: Interrups::DirInv }
}

fn register_error() -> Errors {
    Errors { msg: "Registro fuera del rango de memoria".to_string(), cod: Interrups::DirInv }
}

#[test]
fn new_status_word_is_zero() {
    assert_eq!(Pws::new(), Pws { codition: 0, modo_op: 0, inte: 0, pc: 0 });
}

#[test]
fn status_setters_take_values_in_range() {
    let mut p = Pws::new();
    for c in 0..=3u8 {
        assert_eq!(p.set_codition(c), Ok(()));
        assert_eq!(p.codition, c);
    }
    for m in 0..=1u8 {
        assert_eq!(p.set_mode(m), Ok(()));
        assert_eq!(p.modo_op, m);
        assert_eq!(p.set_inte(m), Ok(()));
        assert_eq!(p.inte, m);
    }
    for pc in [0, 1, 2000, 99_999] {
        assert_eq!(p.set_pc(pc), Ok(()));
        assert_eq!(p.pc, pc);
    }
    assert_eq!(p, Pws { codition: 3, modo_op: 1, inte: 1, pc: 99_999 });
}

#[test]
fn status_setters_refuse_values_out_of_range() {
    let mut p = Pws { codition: 2, modo_op: 1, inte: 1, pc: 77 };
    let before = p;
    assert_eq!(p.set_codition(4), Err(status_error()));
    assert_eq!(p.set_codition(255), Err(status_error()));
    assert_eq!(p.set_mode(2), Err(status_error()));
    assert_eq!(p.set_inte(2), Err(status_error()));
    assert_eq!(p.set_pc(-1), Err(counter_error()));
    assert_eq!(p.set_pc(100_000), Err(counter_error()));
    assert_eq!(p.set_pc(i32::MIN), Err(counter_error()));
    assert_eq!(p, before);
}

#[test]
fn status_word_as_text() {
    assert_eq!(Pws { codition: 0, modo_op: 0, inte: 0, pc: 0 }.convert_to_palabra(), "00000000");
    assert_eq!(Pws { codition: 3, modo_op: 1, inte: 1, pc: 302 }.convert_to_palabra(), "31100302");
    assert_eq!(Pws { codition: 1, modo_op: 0, inte: 1, pc: 99_999 }.convert_to_palabra(), "10199999");
    assert_eq!(Pws { codition: 12, modo_op: 0, inte: 0, pc: 5 }.convert_to_palabra(), "120000005");
    assert_eq!(Pws { codition: 0, modo_op: 0, inte: 0, pc: -1 }.convert_to_palabra(), "000-0001");
    assert_eq!(Pws { codition: 0, modo_op: 0, inte: 0, pc: 123_456 }.convert_to_palabra(), "000123456");
}

#[test]
fn status_word_from_a_word() {
    let mut p = Pws::new();
    assert_eq!(p.convert_to_psw_by_palabra(Palabra::new("31100302").unwrap()), Ok(()));
    assert_eq!(p, Pws { codition: 3, modo_op: 1, inte: 1, pc: 302 });
    assert_eq!(p.convert_to_psw_by_palabra(Palabra::new("00099999").unwrap()), Ok(()));
    assert_eq!(p, Pws { codition: 0, modo_op: 0, inte: 0, pc: 99_999 });
    let before = p;
    assert_eq!(p.convert_to_psw_by_palabra(Palabra::new("40000000").unwrap()), Err(status_error()));
    assert_eq!(p.convert_to_psw_by_palabra(Palabra::new("02000000").unwrap()), Err(status_error()));
    assert_eq!(p.convert_to_psw_by_palabra(Palabra::new("00200000").unwrap()), Err(status_error()));
    assert_eq!(p.convert_to_psw_by_palabra(Palabra { palabra: 100_000_000 }), Err(status_error()));
    assert_eq!(p, before);
}

#[test]
fn status_word_round_trip() {
    for codition in 0..=3u8 {
        for modo_op in 0..=1u8 {
            for inte in 0..=1u8 {
                for pc in [0, 8, 302, 99_999] {
                    let p = Pws { codition, modo_op, inte, pc };
                    let word = Palabra::new(&p.convert_to_palabra()).unwrap();
                    let mut q = Pws::new();
                    assert_eq!(q.convert_to_psw_by_palabra(word), Ok(()));
                    assert_eq!(q, p);
                }
            }
        }
    }
}

#[test]
fn new_registers_are_zero() {
    let r = Registros::new();
    let zero = Palabra { palabra: 0 };
    assert_eq!(r.mar, zero);
    assert_eq!(r.mdr, zero);
    assert_eq!(r.ac, zero);
    assert_eq!(r.rb, zero);
    assert_eq!(r.rl, zero);
    assert_eq!(r.rx, zero);
    assert_eq!(r.sp, zero);
    assert_eq!(r.ir, Instruction { opcode: 0, dir: 0, value: 0 });
    assert_eq!(r.psw, Pws::new());
}

#[test]
fn free_registers_take_any_word() {
    let mut r = Registros::new();
    let w = Palabra { palabra: 98_000_000 };
    assert_eq!(r.set_mar(w), Ok(()));
    r.set_mdr(w);
    assert_eq!(r.mar, w);
    assert_eq!(r.mdr, w);
}

#[test]
fn memory_bound_registers_take_addresses_only() {
    let mut r = Registros::new();
    assert_eq!(r.set_rb(Palabra { palabra: 301 }), Ok(()));
    assert_eq!(r.set_rl(Palabra { palabra: 2000 }), Ok(()));
    assert_eq!(r.set_rx(Palabra { palabra: 0 }), Ok(()));
    assert_eq!(r.set_sp(Palabra { palabra: 1999 }), Ok(()));
    assert_eq!(r.rb.palabra, 301);
    assert_eq!(r.rl.palabra, 2000);
    assert_eq!(r.rx.palabra, 0);
    assert_eq!(r.sp.palabra, 1999);
    let before = r;
    for bad in [2001u32, 9_999_999, 10_000_000, 10_000_001, 98_000_000] {
        let w = Palabra { palabra: bad };
        assert_eq!(r.set_rb(w), Err(register_error()));
        assert_eq!(r.set_rl(w), Err(register_error()));
        assert_eq!(r.set_rx(w), Err(register_error()));
        assert_eq!(r.set_sp(w), Err(register_error()));
    }
    assert_eq!(r, before);
}
