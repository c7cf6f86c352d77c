//! An instruction-set simulator for the register-register and
//! register-immediate integer instructions of 32-bit RISC-V, with every
//! instruction's effect on the register file stated and proved.
pub mod cpu;
pub mod decoder;
pub mod elfutil;
pub mod exec;
pub mod hart;
pub mod machine;
pub mod regfile;
