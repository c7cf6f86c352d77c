//! A simpler machine that knows only the standard four-byte encoding.
use crate::decoder::decoded;
use crate::machine::{read_word, retire_into, retire_outcome, word_at, LoadOverflow, StepError};
use crate::regfile::{dump_state, dump_text};
use riscv_decode::decode;
use vstd::prelude::*;

verus! {

/// Bytes of memory a `Cpu` owns.
pub const CPU_MEM_SIZE: usize = 1024 * 1024;

/// Byte `k` (0 = least significant) of a word.
pub open spec fn byte_of(w: u32, k: int) -> u8 {
    ((w >> ((8 * k) as u32)) & 0xff) as u8
}

/// A sequence of words laid out as little-endian bytes, one word after another.
pub open spec fn image_bytes(words: Seq<u32>) -> Seq<u8> {
    Seq::new(4 * words.len(), |j: int| byte_of(words[j / 4], j % 4))
}

/// One fetch-decode-execute cycle with every instruction four bytes long.
pub open spec fn cpu_step(mem: Seq<u8>, regs: Seq<u32>, pc: u32) -> (
    Result<(), StepError>,
    Seq<u32>,
    u32,
) {
    if pc + 4 > mem.len() {
        (Err(StepError::FetchOutOfRange { pc }), regs, pc)
    } else {
        let w = word_at(mem, pc as int);
        retire_outcome(regs, pc, 4, w, decoded(w))
    }
}

/// Reading back a loaded word gives the word itself.
pub proof fn lemma_image_word(words: Seq<u32>, i: int)
    requires
        0 <= i < words.len(),
    ensures
        word_at(image_bytes(words), 4 * i) == words[i],
{
    let w = words[i];
    let m = image_bytes(words);
    assert((4 * i) / 4 == i && (4 * i + 1) / 4 == i && (4 * i + 2) / 4 == i && (4 * i + 3) / 4 == i);
    assert((4 * i) % 4 == 0 && (4 * i + 1) % 4 == 1 && (4 * i + 2) % 4 == 2 && (4 * i + 3) % 4 == 3);
    assert(m[4 * i] == byte_of(w, 0));
    assert(m[4 * i + 1] == byte_of(w, 1));
    assert(m[4 * i + 2] == byte_of(w, 2));
    assert(m[4 * i + 3] == byte_of(w, 3));
    assert(w == ((w >> 0u32) & 0xff) as u8 + 0x100 * ((w >> 8u32) & 0xff) as u8 + 0x1_0000 * ((w
        >> 16u32) & 0xff) as u8 + 0x100_0000 * ((w >> 24u32) & 0xff) as u8) by (bit_vector);
}

/// Architectural state of the four-byte-only machine.
pub struct Cpu {
    pub regs: [u32; 32],
    pub mem: Vec<u8>,
    pub pc: u32,
}

impl Cpu {
    /// The memory has its fixed size.
    pub open spec fn wf(&self) -> bool {
        self.mem.len() == CPU_MEM_SIZE
    }

    /// A machine with zeroed registers and memory, starting at address zero.
    pub fn new() -> (c: Self)
        ensures
            c.wf(),
            c.regs@ == Seq::new(32, |i: int| 0u32),
            c.mem@ == Seq::new(CPU_MEM_SIZE as nat, |i: int| 0u8),
            c.pc == 0,
    {
        let c = Cpu { regs: [0u32; 32], mem: vec![0u8; CPU_MEM_SIZE], pc: 0 };
        assert(c.regs@ =~= Seq::new(32, |i: int| 0u32));
        assert(c.mem@ =~= Seq::new(CPU_MEM_SIZE as nat, |i: int| 0u8));
        c
    }

    /// Writes `program` to the start of memory as little-endian bytes; fails,
    /// changing nothing, where it does not fit.
    pub fn load_program(&mut self, program: Vec<u32>) -> (r: Result<(), LoadOverflow>)
        requires
            program.len() <= usize::MAX / 4,
        ensures
            4 * program.len() > old(self).mem.len() ==> r == Err::<(), LoadOverflow>(
                LoadOverflow { len: (4 * program.len()) as usize, capacity: old(self).mem.len() },
            ) && *final(self) == *old(self),
            4 * program.len() <= old(self).mem.len() ==> r is Ok && final(self).mem@ == image_bytes(
                program@,
            ) + old(self).mem@.subrange(4 * program.len(), old(self).mem.len() as int)
                && final(self).regs == old(self).regs && final(self).pc == old(self).pc,
            4 * program.len() <= old(self).mem.len() ==> forall|i: int|
                0 <= i < program.len() ==> #[trigger] word_at(final(self).mem@, 4 * i) == program@[i],
    {
        let n = program.len();
        if 4 * n > self.mem.len() {
            return Err(LoadOverflow { len: 4 * n, capacity: self.mem.len() });
        }
        let mut i: usize = 0;
        while i < n
            invariant
                i <= n == program.len(),
                4 * n <= self.mem.len(),
                self.mem.len() == old(self).mem.len(),
                self.regs == old(self).regs,
                self.pc == old(self).pc,
                forall|j: int| 0 <= j < 4 * i ==> self.mem@[j] == image_bytes(program@)[j],
                forall|j: int| 4 * i <= j < self.mem.len() ==> self.mem@[j] == old(self).mem@[j],
            decreases n - i,
        {
            let w = program[i];
            let at = 4 * i;
            assert(w >> 0u32 == w) by (bit_vector);
            self.mem[at] = #[verifier::truncate] ((w & 0xff) as u8);
            self.mem[at + 1] = #[verifier::truncate] (((w >> 8) & 0xff) as u8);
            self.mem[at + 2] = #[verifier::truncate] (((w >> 16) & 0xff) as u8);
            self.mem[at + 3] = #[verifier::truncate] (((w >> 24) & 0xff) as u8);
            assert forall|j: int| 0 <= j < 4 * (i + 1) implies self.mem@[j] == image_bytes(
                program@,
            )[j] by {
                let ii = i as int;
                if j == 4 * ii {
                    assert(j / 4 == ii && j % 4 == 0);
                } else if j == 4 * ii + 1 {
                    assert(j / 4 == ii && j % 4 == 1);
                } else if j == 4 * ii + 2 {
                    assert(j / 4 == ii && j % 4 == 2);
                } else if j == 4 * ii + 3 {
                    assert(j / 4 == ii && j % 4 == 3);
                }
            }
            i = i + 1;
        }
        assert(self.mem@ =~= image_bytes(program@) + old(self).mem@.subrange(
            4 * n as int,
            old(self).mem.len() as int,
        ));
        assert forall|i: int| 0 <= i < n implies #[trigger] word_at(self.mem@, 4 * i) == program@[i] by {
            lemma_image_word(program@, i);
            let img = image_bytes(program@);
            assert(self.mem@[4 * i] == img[4 * i]);
            assert(self.mem@[4 * i + 1] == img[4 * i + 1]);
            assert(self.mem@[4 * i + 2] == img[4 * i + 2]);
            assert(self.mem@[4 * i + 3] == img[4 * i + 3]);
        }
        Ok(())
    }

    /// Fetches, decodes and executes the four-byte instruction at the program
    /// counter, then advances it by four. A failure changes nothing.
    pub fn step(&mut self) -> (r: Result<(), StepError>)
        requires
            old(self).wf(),
        ensures
            final(self).wf(),
            final(self).mem == old(self).mem,
            (r, final(self).regs@, final(self).pc) == cpu_step(
                old(self).mem@,
                old(self).regs@,
                old(self).pc,
            ),
    {
        let pc = self.pc as usize;
        if pc > self.mem.len() - 4 {
            return Err(StepError::FetchOutOfRange { pc: self.pc });
        }
        let word = read_word(&self.mem, pc);
        let d = decode(word);
        retire_into(&mut self.regs, &mut self.pc, 4, word, d)
    }

    /// The program counter and all registers as text; see `dump_text`.
    pub fn dump(&self) -> (r: Vec<char>)
        ensures
            r@ == dump_text(self.pc, self.regs@),
    {
        dump_state(self.pc, &self.regs)
    }
}

} // verus!
