use decimal_machine::hardware::architecture::Palabra;
use decimal_machine::hardware::disk::Disk;
use decimal_machine::hardware::dma::{Dma, Dma_Config, State_Dma};
use decimal_machine::hardware::interrupts::{External_interrupt, Interrups};
use decimal_machine::hardware::ram::Ram;
use decimal_machine::utils::Errors;

fn dma(cil: i8, pista: i8, sec: i8, pos_men: i32, modo: i8) -> Dma {
    Dma {
        pista_acceder: pista,
        sector_acceder: sec,
        cil_acceder: cil,
        pos_men,
        estado: State_Dma::Succes,
        modo,
    }
}

fn io_flag_only() -> External_interrupt {
    let mut e = External_interrupt::new();
    e.int_io = true;
    e
}

#[test]
fn new_request_and_new_controller() {
    let c = Dma_Config::new();
    assert_eq!(
        c,
        Dma_Config {
            pista_acceder: 0,
            sector_acceder: 0,
            cil_acceder: 0,
            pos_men: 0,
            state: State_Dma::Succes,
            modo: 0,
        }
    );
    assert_eq!(Dma::new(), dma(0, 0, 0, 0, 0));
}

#[test]
fn configure_takes_the_request_and_keeps_the_state() {
    let mut d = Dma::new();
    d.estado = State_Dma::Error;
    let c = Dma_Config {
        pista_acceder: 10,
        sector_acceder: 100,
        cil_acceder: 2,
        pos_men: 500,
        state: State_Dma::Succes,
        modo: 1,
    };
    d.configure(&c);
    let mut expected = dma(2, 10, 100, 500, 1);
    expected.estado = State_Dma::Error;
    assert_eq!(d, expected);
}

#[test]
fn word_written_to_a_sector_is_read_back_unchanged() {
    let mut disk = Disk::new();
    let mut ram = Ram::new();
    let mut ints = External_interrupt::new();
    let word = Palabra::new("00000123").unwrap();
    ram.writeMemory(500, word).unwrap();

    let mut writer = dma(2, 10, 100, 500, 1);
    assert_eq!(writer.execute(&mut disk, &mut ram, &mut ints), Ok(()));
    assert_eq!(ints, io_flag_only());
    assert_eq!(writer, dma(2, 10, 100, 500, 1));
    assert_eq!(disk.read(2, 10, 100), Ok("00000123".to_string()));

    ints.clear(Interrups::EndIO);
    let mut reader = dma(2, 10, 100, 600, 0);
    assert_eq!(reader.execute(&mut disk, &mut ram, &mut ints), Ok(()));
    assert_eq!(ints, io_flag_only());
    assert_eq!(ram.readMemory(600), Ok(word));
    assert_eq!(ram.readMemory(600).unwrap().convert(), 123);
    assert_eq!(ram.readMemory(500), Ok(word));
}

#[test]
fn words_of_every_shape_survive_the_disk() {
    for text in ["00000000", "10000001", "19999999", "09999999", "94000000", "99999999"] {
        let mut disk = Disk::new();
        let mut ram = Ram::new();
        let mut ints = External_interrupt::new();
        let word = Palabra::new(text).unwrap();
        ram.writeMemory(0, word).unwrap();
        assert_eq!(dma(0, 0, 0, 0, 1).write_disk(&mut disk, &ram, &mut ints), Ok(()));
        assert_eq!(dma(0, 0, 0, 2000, 0).read_disk(&disk, &mut ram, &mut ints), Ok(()));
        assert_eq!(ram.readMemory(2000), Ok(word));
    }
}

#[test]
fn read_of_a_fresh_sector_gives_zero() {
    let disk = Disk::new();
    let mut ram = Ram::new();
    let mut ints = External_interrupt::new();
    ram.writeMemory(700, Palabra { palabra: 9 }).unwrap();
    let mut d = dma(10, 10, 100, 700, 0);
    assert_eq!(d.read_disk(&disk, &mut ram, &mut ints), Ok(()));
    assert_eq!(ram.readMemory(700), Ok(Palabra { palabra: 0 }));
    assert_eq!(ints, io_flag_only());
}

#[test]
fn read_off_the_disk_fails_without_a_flag() {
    let disk = Disk::new();
    let mut ram = Ram::new();
    let mut ints = External_interrupt::new();
    let mut d = dma(11, 0, 0, 700, 0);
    assert_eq!(
        d.read_disk(&disk, &mut ram, &mut ints),
        Err(Errors { msg: "Error al leer del disco".to_string(), cod: Interrups::EndIO })
    );
    assert_eq!(d.estado, State_Dma::Error);
    assert_eq!(ints, External_interrupt::new());
    assert_eq!(ram, Ram::new());
}

#[test]
fn read_of_a_sector_that_holds_no_word() {
    let mut disk = Disk::new();
    disk.write("hola mundo".to_string()[0..9].to_string(), 1, 1, 1).unwrap();
    let mut ram = Ram::new();
    let mut ints = External_interrupt::new();
    let mut d = dma(1, 1, 1, 700, 0);
    assert_eq!(
        d.read_disk(&disk, &mut ram, &mut ints),
        Err(Errors {
            msg: "Error al transformar la palabra del disco".to_string(),
            cod: Interrups::InstInv
        })
    );
    assert_eq!(d.estado, State_Dma::Error);
    assert_eq!(ints, External_interrupt::new());
    assert_eq!(ram, Ram::new());
}

#[test]
fn read_to_an_address_outside_memory() {
    let disk = Disk::new();
    let mut ram = Ram::new();
    let mut ints = External_interrupt::new();
    for pos in [2001, -1] {
        let mut d = dma(1, 1, 1, pos, 0);
        assert_eq!(
            d.read_disk(&disk, &mut ram, &mut ints),
            Err(Errors { msg: "Dirección a leer invalida".to_string(), cod: Interrups::DirInv })
        );
        assert_eq!(d.estado, State_Dma::Error);
        assert_eq!(ints, External_interrupt::new());
    }
}

#[test]
fn write_from_an_address_outside_memory() {
    let mut disk = Disk::new();
    let ram = Ram::new();
    let mut ints = External_interrupt::new();
    let mut d = dma(1, 1, 1, 2001, 1);
    assert_eq!(
        d.write_disk(&mut disk, &ram, &mut ints),
        Err(Errors { msg: "Dirección a leer invalida".to_string(), cod: Interrups::DirInv })
    );
    assert_eq!(d.estado, State_Dma::Error);
    assert_eq!(ints, External_interrupt::new());
}

#[test]
fn write_off_the_disk_fails_without_a_flag() {
    let mut disk = Disk::new();
    let ram = Ram::new();
    let mut ints = External_interrupt::new();
    let mut d = dma(0, 0, 101, 5, 1);
    assert_eq!(
        d.write_disk(&mut disk, &ram, &mut ints),
        Err(Errors { msg: "Error al escribir del disco".to_string(), cod: Interrups::EndIO })
    );
    assert_eq!(d.estado, State_Dma::Error);
    assert_eq!(ints, External_interrupt::new());
}

#[test]
fn write_of_a_word_with_more_than_eight_digits() {
    let mut disk = Disk::new();
    let mut ram = Ram::new();
    let mut ints = External_interrupt::new();
    ram.writeMemory(5, Palabra { palabra: 100_000_000 }).unwrap();
    let mut d = dma(0, 0, 1, 5, 1);
    assert_eq!(
        d.write_disk(&mut disk, &ram, &mut ints),
        Err(Errors { msg: "Error al escribir del disco".to_string(), cod: Interrups::EndIO })
    );
    assert_eq!(d.estado, State_Dma::Error);
    assert_eq!(disk.read(0, 0, 1), Ok("00000000".to_string()));
}

#[test]
fn other_directions_do_nothing() {
    for modo in [2i8, -1, 127] {
        let mut disk = Disk::new();
        let mut ram = Ram::new();
        let mut ints = External_interrupt::new();
        let mut d = dma(11, 11, 101, -5, modo);
        assert_eq!(d.execute(&mut disk, &mut ram, &mut ints), Ok(()));
        assert_eq!(d, dma(11, 11, 101, -5, modo));
        assert_eq!(ints, External_interrupt::new());
        assert_eq!(ram, Ram::new());
    }
}

#[test]
fn execute_reports_the_failure_of_its_transfer() {
    let mut disk = Disk::new();
    let mut ram = Ram::new();
    let mut ints = External_interrupt::new();
    let mut d = dma(0, 0, 0, 2001, 0);
    assert!(d.execute(&mut disk, &mut ram, &mut ints).is_err());
    assert_eq!(d.estado, State_Dma::Error);
    let mut d = dma(0, 0, 0, 2001, 1);
    assert!(d.execute(&mut disk, &mut ram, &mut ints).is_err());
    assert_eq!(d.estado, State_Dma::Error);
    assert_eq!(ints, External_interrupt::new());
}
