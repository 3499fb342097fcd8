pub mod architecture;
pub mod cpu;
pub mod disk;
pub mod dma;
pub mod instructions;
pub mod interrupts;
pub mod laws;
pub mod ram;
pub mod registers;
pub mod semantics;
