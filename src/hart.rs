//! A single hart with compressed-instruction length detection.
use crate::decoder::{decoded, insn_length};
use crate::machine::{read_word, retire_into, retire_outcome, word_at, LoadOverflow, StepError};
use crate::regfile::{dump_state, dump_text};
use riscv_decode::{decode, instruction_length, DecodingError, Instruction};
use vstd::prelude::*;

verus! {

/// Bytes of memory a hart owns.
pub const MEM_SIZE: usize = 2 * 1024 * 1024;

/// The low sixteen bits of a word: the first instruction parcel.
pub open spec fn low_half(w: u32) -> u16 {
    (w % 0x1_0000) as u16
}

/// What the decoder is handed for the fetched word `w`: the first parcel
/// alone for a compressed instruction, the whole word otherwise.
pub open spec fn decoder_input(w: u32) -> u32 {
    if insn_length(low_half(w)) == 2 {
        low_half(w) as u32
    } else {
        w
    }
}

/// One fetch-decode-execute cycle on `mem`, `regs` and `pc`: the result, the
/// registers and the program counter afterwards.
pub open spec fn hart_step(mem: Seq<u8>, regs: Seq<u32>, pc: u32) -> (
    Result<(), StepError>,
    Seq<u32>,
    u32,
) {
    if pc + 4 > mem.len() {
        (Err(StepError::FetchOutOfRange { pc }), regs, pc)
    } else {
        let w = word_at(mem, pc as int);
        let input = decoder_input(w);
        retire_outcome(regs, pc, insn_length(low_half(w)), input, decoded(input))
    }
}

/// Up to `n` steps, stopping at the first failure.
pub open spec fn hart_run(mem: Seq<u8>, regs: Seq<u32>, pc: u32, n: nat) -> (
    Result<(), StepError>,
    Seq<u32>,
    u32,
)
    decreases n,
{
    if n == 0 {
        (Ok(()), regs, pc)
    } else {
        let (r, regs1, pc1) = hart_step(mem, regs, pc);
        if r is Err {
            (r, regs1, pc1)
        } else {
            hart_run(mem, regs1, pc1, (n - 1) as nat)
        }
    }
}

/// Architectural state of one hart: registers, memory and program counter.
pub struct Hart {
    pub regs: [u32; 32],
    pub mem: Vec<u8>,
    pub pc: u32,
}

impl Hart {
    /// The memory has its fixed size.
    pub open spec fn wf(&self) -> bool {
        self.mem.len() == MEM_SIZE
    }

    /// A hart with zeroed registers and memory, starting at address zero.
    pub fn new() -> (h: Self)
        ensures
            h.wf(),
            h.regs@ == Seq::new(32, |i: int| 0u32),
            h.mem@ == Seq::new(MEM_SIZE as nat, |i: int| 0u8),
            h.pc == 0,
    {
        let h = Hart { regs: [0u32; 32], mem: vec![0u8; MEM_SIZE], pc: 0 };
        assert(h.regs@ =~= Seq::new(32, |i: int| 0u32));
        assert(h.mem@ =~= Seq::new(MEM_SIZE as nat, |i: int| 0u8));
        h
    }

    /// The value of register `index`.
    pub fn read(&self, index: usize) -> (r: u32)
        requires
            index < 32,
        ensures
            r == self.regs[index as int],
    {
        self.regs[index]
    }

    /// Sets register `index` to `value`, leaving everything else as it was.
    pub fn write(&mut self, index: usize, value: u32)
        requires
            index < 32,
        ensures
            final(self).regs@ == old(self).regs@.update(index as int, value),
            final(self).mem == old(self).mem,
            final(self).pc == old(self).pc,
    {
        self.regs[index] = value;
    }

    /// Copies `program` to the start of memory; fails, changing nothing,
    /// where it is longer than memory.
    pub fn load_program(&mut self, program: Vec<u8>) -> (r: Result<(), LoadOverflow>)
        ensures
            program.len() > old(self).mem.len() ==> r == Err::<(), LoadOverflow>(
                LoadOverflow { len: program.len(), capacity: old(self).mem.len() },
            ) && *final(self) == *old(self),
            program.len() <= old(self).mem.len() ==> r is Ok && final(self).mem@ == program@
                + old(self).mem@.subrange(program.len() as int, old(self).mem.len() as int)
                && final(self).regs == old(self).regs && final(self).pc == old(self).pc,
    {
        if program.len() > self.mem.len() {
            return Err(LoadOverflow { len: program.len(), capacity: self.mem.len() });
        }
        let mut i: usize = 0;
        while i < program.len()
            invariant
                i <= program.len() <= self.mem.len(),
                self.mem.len() == old(self).mem.len(),
                self.regs == old(self).regs,
                self.pc == old(self).pc,
                forall|j: int| 0 <= j < i ==> self.mem@[j] == program@[j],
                forall|j: int| i <= j < self.mem.len() ==> self.mem@[j] == old(self).mem@[j],
            decreases program.len() - i,
        {
            self.mem[i] = program[i];
            i = i + 1;
        }
        assert(self.mem@ =~= program@ + old(self).mem@.subrange(
            program.len() as int,
            old(self).mem.len() as int,
        ));
        Ok(())
    }

    /// Retires `decoded`, the decoder's answer for `word`, as an instruction of
    /// `len` bytes at the current program counter.
    pub fn retire(
        &mut self,
        len: usize,
        word: u32,
        decoded: Result<Instruction, DecodingError>,
    ) -> (r: Result<(), StepError>)
        requires
            old(self).pc + len <= u32::MAX,
        ensures
            (r, final(self).regs@, final(self).pc) == retire_outcome(
                old(self).regs@,
                old(self).pc,
                len,
                word,
                decoded,
            ),
            final(self).mem == old(self).mem,
    {
        retire_into(&mut self.regs, &mut self.pc, len, word, decoded)
    }

    /// Fetches, decodes and executes one instruction, then advances the
    /// program counter by its length. A failure changes nothing.
    pub fn step(&mut self) -> (r: Result<(), StepError>)
        requires
            old(self).wf(),
        ensures
            final(self).wf(),
            final(self).mem == old(self).mem,
            (r, final(self).regs@, final(self).pc) == hart_step(
                old(self).mem@,
                old(self).regs@,
                old(self).pc,
            ),
    {
        let pc = self.pc as usize;
        if pc > self.mem.len() - 4 {
            return Err(StepError::FetchOutOfRange { pc: self.pc });
        }
        let word = read_word(&self.mem, pc);
        let low = (word % 0x1_0000) as u16;
        let len = instruction_length(low);
        let input = if len == 2 {
            low as u32
        } else {
            word
        };
        assert(len <= 24) by (bit_vector)
            requires
                len == insn_length(low),
        ;
        let d = decode(input);
        self.retire(len, input, d)
    }

    /// Runs up to `n` steps, stopping at the first failure, which it returns.
    pub fn run_for(&mut self, n: u64) -> (r: Result<(), StepError>)
        requires
            old(self).wf(),
        ensures
            final(self).wf(),
            final(self).mem == old(self).mem,
            (r, final(self).regs@, final(self).pc) == hart_run(
                old(self).mem@,
                old(self).regs@,
                old(self).pc,
                n as nat,
            ),
    {
        let mut i: u64 = 0;
        while i < n
            invariant
                i <= n,
                self.wf(),
                self.mem == old(self).mem,
                hart_run(old(self).mem@, old(self).regs@, old(self).pc, n as nat) == hart_run(
                    self.mem@,
                    self.regs@,
                    self.pc,
                    (n - i) as nat,
                ),
            decreases n - i,
        {
            let r = self.step();
            if r.is_err() {
                return r;
            }
            i = i + 1;
        }
        Ok(())
    }

    /// The program counter and all registers as text; see `dump_text`.
    pub fn dump(&self) -> (r: Vec<char>)
        ensures
            r@ == dump_text(self.pc, self.regs@),
    {
        dump_state(self.pc, &self.regs)
    }
}

/// Where the instruction at `pc` does not decode, a run of one or more steps
/// stops there: it reports that program counter and the word handed to the
/// decoder, and leaves the registers and the program counter as they were.
pub proof fn lemma_decode_failure_stops_run(mem: Seq<u8>, regs: Seq<u32>, pc: u32, n: nat)
    requires
        pc + 4 <= mem.len(),
        decoded(decoder_input(word_at(mem, pc as int))) is Err,
        n > 0,
    ensures
        hart_run(mem, regs, pc, n) == (
            Err::<(), StepError>(
                StepError::DecodeFailure { pc, word: decoder_input(word_at(mem, pc as int)) },
            ),
            regs,
            pc,
        ),
{
}

} // verus!
