//! State shared by the simulated machines: little-endian memory reads, the
//! errors that end a run, and what retiring one decoded instruction does.
use crate::exec::{apply, Exec};
use riscv_decode::{DecodingError, Instruction};
use vstd::prelude::*;

verus! {

/// Why a step could not complete. Each of these ends the run.
#[derive(Clone, Copy, Debug, PartialEq, Eq, Structural)]
pub enum StepError {
    /// The four bytes at `pc` do not all lie in memory.
    FetchOutOfRange { pc: u32 },
    /// The decoder recognises no instruction in `word`, fetched at `pc`.
    DecodeFailure { pc: u32, word: u32 },
    /// `word`, fetched at `pc`, decodes to an instruction this core does not execute.
    UnsupportedInstruction { pc: u32, word: u32 },
}

/// A program image larger than the memory it is loaded into.
#[derive(Clone, Copy, Debug, PartialEq, Eq, Structural)]
pub struct LoadOverflow {
    pub len: usize,
    pub capacity: usize,
}

/// The little-endian word made of the four bytes of `mem` at `at`.
pub open spec fn word_at(mem: Seq<u8>, at: int) -> u32 {
    (mem[at] + 0x100 * mem[at + 1] + 0x1_0000 * mem[at + 2] + 0x100_0000 * mem[at + 3]) as u32
}

/// Reads the little-endian word at `at`.
pub fn read_word(mem: &Vec<u8>, at: usize) -> (r: u32)
    requires
        at + 4 <= mem.len(),
    ensures
        r == word_at(mem@, at as int),
{
    let b0 = mem[at] as u32;
    let b1 = mem[at + 1] as u32;
    let b2 = mem[at + 2] as u32;
    let b3 = mem[at + 3] as u32;
    b0 + 0x100 * b1 + 0x1_0000 * b2 + 0x100_0000 * b3
}

/// Outcome of retiring `decoded`, which the decoder produced from `word`
/// fetched at `pc`, with `len` the instruction's length: the result, the
/// registers and the program counter afterwards. Failures leave the
/// registers and the program counter as they were.
pub open spec fn retire_outcome(
    regs: Seq<u32>,
    pc: u32,
    len: usize,
    word: u32,
    decoded: Result<Instruction, DecodingError>,
) -> (Result<(), StepError>, Seq<u32>, u32) {
    match decoded {
        Err(_) => (Err(StepError::DecodeFailure { pc, word }), regs, pc),
        Ok(inst) => match apply(inst, regs) {
            None => (Err(StepError::UnsupportedInstruction { pc, word }), regs, pc),
            Some(next) => (Ok(()), next, (pc + len) as u32),
        },
    }
}

/// Retires one decoded instruction against `regs` and `pc`.
pub fn retire_into(
    regs: &mut [u32; 32],
    pc: &mut u32,
    len: usize,
    word: u32,
    decoded: Result<Instruction, DecodingError>,
) -> (r: Result<(), StepError>)
    requires
        *old(pc) + len <= u32::MAX,
    ensures
        (r, final(regs)@, *final(pc)) == retire_outcome(old(regs)@, *old(pc), len, word, decoded),
{
    match decoded {
        Err(_) => Err(StepError::DecodeFailure { pc: *pc, word }),
        Ok(inst) => match inst.exec(regs) {
            Err(_) => Err(StepError::UnsupportedInstruction { pc: *pc, word }),
            Ok(()) => {
                *pc = *pc + len as u32;
                Ok(())
            },
        },
    }
}

} // verus!
