//! The execution engine: what each supported instruction does to the register file.
use crate::decoder::{imm12_field, rd_field, rs1_field, rs2_field, shamt_field, upper_imm_field};
use riscv_decode::Instruction;
use vstd::arithmetic::div_mod::{lemma_fundamental_div_mod, lemma_fundamental_div_mod_converse};
use vstd::arithmetic::power2::{lemma_pow2_pos, pow2};
use vstd::bits::lemma_u32_shr_is_div;
use vstd::prelude::*;

verus! {

/// Number of distinct 32-bit words.
pub open spec fn word_modulus() -> int {
    0x1_0000_0000
}

/// Reduces a mathematical integer to a 32-bit word, modulo 2^32.
pub open spec fn wrap(x: int) -> u32 {
    (x % word_modulus()) as u32
}

/// The two's-complement value of a word.
pub open spec fn signed(a: u32) -> int {
    if a < 0x8000_0000 {
        a as int
    } else {
        a - word_modulus()
    }
}

/// Bits 11:0 of `imm`, sign-extended to a full word.
pub open spec fn sext12(imm: u32) -> u32 {
    let v = imm % 0x1000;
    if v < 0x800 {
        v
    } else {
        wrap(v - 0x1000)
    }
}

/// The shift amount taken from a register or immediate: its low five bits.
pub open spec fn shift_amount(b: u32) -> u32 {
    b % 32
}

/// Sum modulo 2^32.
pub open spec fn add_w(a: u32, b: u32) -> u32 {
    wrap(a + b)
}

/// Difference modulo 2^32.
pub open spec fn sub_w(a: u32, b: u32) -> u32 {
    wrap(a - b)
}

/// Left shift by the low five bits of `b`.
pub open spec fn sll_w(a: u32, b: u32) -> u32 {
    a << shift_amount(b)
}

/// Logical right shift by the low five bits of `b`.
pub open spec fn srl_w(a: u32, b: u32) -> u32 {
    a >> shift_amount(b)
}

/// Arithmetic right shift: the signed value divided by a power of two,
/// rounded towards negative infinity.
pub open spec fn sra_w(a: u32, b: u32) -> u32 {
    wrap(signed(a) / (pow2(shift_amount(b) as nat) as int))
}

/// `1` where `a < b` as signed values, else `0`.
pub open spec fn slt_w(a: u32, b: u32) -> u32 {
    if signed(a) < signed(b) {
        1
    } else {
        0
    }
}

/// `1` where `a < b` as unsigned values, else `0`.
pub open spec fn sltu_w(a: u32, b: u32) -> u32 {
    if a < b {
        1
    } else {
        0
    }
}

proof fn lemma_mask_is_mod(b: u32)
    ensures
        b & 0x1f == b % 32,
{
    assert(b & 0x1f == b % 32) by (bit_vector);
}

proof fn lemma_sra_negative(a: u32, s: u32)
    requires
        a >= 0x8000_0000,
        s < 32,
    ensures
        !((!a) >> s) == wrap(signed(a) / (pow2(s as nat) as int)),
{
    let n = !a;
    assert(!a == 0xffff_ffff - a) by (bit_vector);
    lemma_u32_shr_is_div(n, s);
    lemma_pow2_pos(s as nat);
    let d = pow2(s as nat) as int;
    let q = (n >> s) as int;
    let r = n as int % d;
    assert(q == n as int / d);
    lemma_fundamental_div_mod(n as int, d);
    assert(n as int == q * d + r) by (nonlinear_arith)
        requires
            q == n as int / d,
            r == n as int % d,
            n as int == d * (n as int / d) + (n as int % d),
    ;
    let x = signed(a);
    assert(x == -(n as int) - 1);
    assert(x == (-q - 1) * d + (d - r - 1)) by (nonlinear_arith)
        requires
            x == -(n as int) - 1,
            n as int == q * d + r,
    ;
    lemma_fundamental_div_mod_converse(x, d, -q - 1, d - r - 1);
    let m = n >> s;
    assert(!m == 0xffff_ffff - m) by (bit_vector);
    assert(r < d && 0 <= r);
}

/// The result of an arithmetic right shift by `s` (already below 32).
fn shift_right_arith(a: u32, s: u32) -> (r: u32)
    requires
        s < 32,
    ensures
        r == wrap(signed(a) / (pow2(s as nat) as int)),
{
    if a < 0x8000_0000 {
        proof {
            lemma_u32_shr_is_div(a, s);
            lemma_pow2_pos(s as nat);
            vstd::arithmetic::div_mod::lemma_div_is_ordered_by_denominator(a as int, 1, pow2(s as nat) as int);
        }
        a >> s
    } else {
        proof {
            lemma_sra_negative(a, s);
        }
        !((!a) >> s)
    }
}

/// Whether `a < b` when both words are read as two's-complement values.
fn signed_less(a: u32, b: u32) -> (r: bool)
    ensures
        r == (signed(a) < signed(b)),
{
    let a_neg = a >= 0x8000_0000;
    let b_neg = b >= 0x8000_0000;
    if a_neg != b_neg {
        a_neg
    } else {
        a < b
    }
}

/// Sign-extends bits 11:0 of `imm` to a full word.
pub fn sign_extend12(imm: u32) -> (r: u32)
    ensures
        r == sext12(imm),
{
    let low = imm & 0xfff;
    assert(imm & 0xfff == imm % 0x1000) by (bit_vector);
    if low >= 0x800 {
        assert(low < 0x1000 ==> low | 0xffff_f000 == low + 0xffff_f000) by (bit_vector);
        low | 0xffff_f000
    } else {
        low
    }
}

/// `rd = rs1 + rs2`, wrapping modulo 2^32.
pub fn exec_add(rd: usize, rs1: usize, rs2: usize, regs: &mut [u32; 32])
    requires
        rd < 32,
        rs1 < 32,
        rs2 < 32,
    ensures
        final(regs)@ == old(regs)@.update(rd as int, add_w(old(regs)[rs1 as int], old(regs)[rs2 as int])),
{
    let v = regs[rs1].wrapping_add(regs[rs2]);
    regs[rd] = v;
}

/// `rd = rs1 - rs2`, wrapping modulo 2^32.
pub fn exec_sub(rd: usize, rs1: usize, rs2: usize, regs: &mut [u32; 32])
    requires
        rd < 32,
        rs1 < 32,
        rs2 < 32,
    ensures
        final(regs)@ == old(regs)@.update(rd as int, sub_w(old(regs)[rs1 as int], old(regs)[rs2 as int])),
{
    let v = regs[rs1].wrapping_sub(regs[rs2]);
    regs[rd] = v;
}

/// `rd = rs1 & rs2`.
pub fn exec_and(rd: usize, rs1: usize, rs2: usize, regs: &mut [u32; 32])
    requires
        rd < 32,
        rs1 < 32,
        rs2 < 32,
    ensures
        final(regs)@ == old(regs)@.update(rd as int, and_w(old(regs)[rs1 as int], old(regs)[rs2 as int])),
{
    let v = regs[rs1] & regs[rs2];
    regs[rd] = v;
}

/// `rd = rs1 | rs2`.
pub fn exec_or(rd: usize, rs1: usize, rs2: usize, regs: &mut [u32; 32])
    requires
        rd < 32,
        rs1 < 32,
        rs2 < 32,
    ensures
        final(regs)@ == old(regs)@.update(rd as int, or_w(old(regs)[rs1 as int], old(regs)[rs2 as int])),
{
    let v = regs[rs1] | regs[rs2];
    regs[rd] = v;
}

/// `rd = rs1 ^ rs2`.
pub fn exec_xor(rd: usize, rs1: usize, rs2: usize, regs: &mut [u32; 32])
    requires
        rd < 32,
        rs1 < 32,
        rs2 < 32,
    ensures
        final(regs)@ == old(regs)@.update(rd as int, xor_w(old(regs)[rs1 as int], old(regs)[rs2 as int])),
{
    let v = regs[rs1] ^ regs[rs2];
    regs[rd] = v;
}

/// `rd = rs1 << (rs2 & 0x1f)`.
pub fn exec_sll(rd: usize, rs1: usize, rs2: usize, regs: &mut [u32; 32])
    requires
        rd < 32,
        rs1 < 32,
        rs2 < 32,
    ensures
        final(regs)@ == old(regs)@.update(rd as int, sll_w(old(regs)[rs1 as int], old(regs)[rs2 as int])),
{
    let shamt = regs[rs2] & 0x1f;
    proof {
        lemma_mask_is_mod(regs[rs2 as int]);
    }
    let v = regs[rs1] << shamt;
    regs[rd] = v;
}

/// `rd = rs1 >> (rs2 & 0x1f)`, filling with zeros.
pub fn exec_srl(rd: usize, rs1: usize, rs2: usize, regs: &mut [u32; 32])
    requires
        rd < 32,
        rs1 < 32,
        rs2 < 32,
    ensures
        final(regs)@ == old(regs)@.update(rd as int, srl_w(old(regs)[rs1 as int], old(regs)[rs2 as int])),
{
    let shamt = regs[rs2] & 0x1f;
    proof {
        lemma_mask_is_mod(regs[rs2 as int]);
    }
    let v = regs[rs1] >> shamt;
    regs[rd] = v;
}

/// `rd = rs1 >> (rs2 & 0x1f)`, filling with copies of the sign bit.
pub fn exec_sra(rd: usize, rs1: usize, rs2: usize, regs: &mut [u32; 32])
    requires
        rd < 32,
        rs1 < 32,
        rs2 < 32,
    ensures
        final(regs)@ == old(regs)@.update(rd as int, sra_w(old(regs)[rs1 as int], old(regs)[rs2 as int])),
{
    let shamt = regs[rs2] & 0x1f;
    proof {
        lemma_mask_is_mod(regs[rs2 as int]);
    }
    let v = shift_right_arith(regs[rs1], shamt);
    regs[rd] = v;
}

/// `rd = 1` where `rs1 < rs2` as signed values, else `0`.
pub fn exec_slt(rd: usize, rs1: usize, rs2: usize, regs: &mut [u32; 32])
    requires
        rd < 32,
        rs1 < 32,
        rs2 < 32,
    ensures
        final(regs)@ == old(regs)@.update(rd as int, slt_w(old(regs)[rs1 as int], old(regs)[rs2 as int])),
{
    let v: u32 = if signed_less(regs[rs1], regs[rs2]) {
        1
    } else {
        0
    };
    regs[rd] = v;
}

/// `rd = 1` where `rs1 < rs2` as unsigned values, else `0`.
pub fn exec_sltu(rd: usize, rs1: usize, rs2: usize, regs: &mut [u32; 32])
    requires
        rd < 32,
        rs1 < 32,
        rs2 < 32,
    ensures
        final(regs)@ == old(regs)@.update(rd as int, sltu_w(old(regs)[rs1 as int], old(regs)[rs2 as int])),
{
    let v: u32 = if regs[rs1] < regs[rs2] {
        1
    } else {
        0
    };
    regs[rd] = v;
}

/// `rd = imm`, the upper immediate already in place.
pub fn exec_lui(rd: usize, imm: u32, regs: &mut [u32; 32])
    requires
        rd < 32,
    ensures
        final(regs)@ == old(regs)@.update(rd as int, imm),
{
    regs[rd] = imm;
}

/// `rd = rs1 + imm`, wrapping; `imm` is already sign-extended.
pub fn exec_addi(rd: usize, rs1: usize, imm: u32, regs: &mut [u32; 32])
    requires
        rd < 32,
        rs1 < 32,
    ensures
        final(regs)@ == old(regs)@.update(rd as int, add_w(old(regs)[rs1 as int], imm)),
{
    let v = regs[rs1].wrapping_add(imm);
    regs[rd] = v;
}

/// `rd = 1` where `rs1 < imm` as signed values, else `0`.
pub fn exec_slti(rd: usize, rs1: usize, imm: u32, regs: &mut [u32; 32])
    requires
        rd < 32,
        rs1 < 32,
    ensures
        final(regs)@ == old(regs)@.update(rd as int, slt_w(old(regs)[rs1 as int], imm)),
{
    let v: u32 = if signed_less(regs[rs1], imm) {
        1
    } else {
        0
    };
    regs[rd] = v;
}

/// `rd = 1` where `rs1 < imm` as unsigned values, else `0`.
pub fn exec_sltiu(rd: usize, rs1: usize, imm: u32, regs: &mut [u32; 32])
    requires
        rd < 32,
        rs1 < 32,
    ensures
        final(regs)@ == old(regs)@.update(rd as int, sltu_w(old(regs)[rs1 as int], imm)),
{
    let v: u32 = if regs[rs1] < imm {
        1
    } else {
        0
    };
    regs[rd] = v;
}

/// `rd = rs1 ^ imm`.
pub fn exec_xori(rd: usize, rs1: usize, imm: u32, regs: &mut [u32; 32])
    requires
        rd < 32,
        rs1 < 32,
    ensures
        final(regs)@ == old(regs)@.update(rd as int, xor_w(old(regs)[rs1 as int], imm)),
{
    let v = regs[rs1] ^ imm;
    regs[rd] = v;
}

/// `rd = rs1 | imm`.
pub fn exec_ori(rd: usize, rs1: usize, imm: u32, regs: &mut [u32; 32])
    requires
        rd < 32,
        rs1 < 32,
    ensures
        final(regs)@ == old(regs)@.update(rd as int, or_w(old(regs)[rs1 as int], imm)),
{
    let v = regs[rs1] | imm;
    regs[rd] = v;
}

/// `rd = rs1 & imm`.
pub fn exec_andi(rd: usize, rs1: usize, imm: u32, regs: &mut [u32; 32])
    requires
        rd < 32,
        rs1 < 32,
    ensures
        final(regs)@ == old(regs)@.update(rd as int, and_w(old(regs)[rs1 as int], imm)),
{
    let v = regs[rs1] & imm;
    regs[rd] = v;
}

/// `rd = rs1 << (shamt & 0x1f)`.
pub fn exec_slli(rd: usize, rs1: usize, shamt: u32, regs: &mut [u32; 32])
    requires
        rd < 32,
        rs1 < 32,
    ensures
        final(regs)@ == old(regs)@.update(rd as int, sll_w(old(regs)[rs1 as int], shamt)),
{
    proof {
        lemma_mask_is_mod(shamt);
    }
    let v = regs[rs1] << (shamt & 0x1f);
    regs[rd] = v;
}

/// `rd = rs1 >> (shamt & 0x1f)`, filling with zeros.
pub fn exec_srli(rd: usize, rs1: usize, shamt: u32, regs: &mut [u32; 32])
    requires
        rd < 32,
        rs1 < 32,
    ensures
        final(regs)@ == old(regs)@.update(rd as int, srl_w(old(regs)[rs1 as int], shamt)),
{
    proof {
        lemma_mask_is_mod(shamt);
    }
    let v = regs[rs1] >> (shamt & 0x1f);
    regs[rd] = v;
}

/// `rd = rs1 >> (shamt & 0x1f)`, filling with copies of the sign bit.
pub fn exec_srai(rd: usize, rs1: usize, shamt: u32, regs: &mut [u32; 32])
    requires
        rd < 32,
        rs1 < 32,
    ensures
        final(regs)@ == old(regs)@.update(rd as int, sra_w(old(regs)[rs1 as int], shamt)),
{
    proof {
        lemma_mask_is_mod(shamt);
    }
    let v = shift_right_arith(regs[rs1], shamt & 0x1f);
    regs[rd] = v;
}

/// Bitwise and.
pub open spec fn and_w(a: u32, b: u32) -> u32 {
    a & b
}

/// Bitwise or.
pub open spec fn or_w(a: u32, b: u32) -> u32 {
    a | b
}

/// Bitwise exclusive or.
pub open spec fn xor_w(a: u32, b: u32) -> u32 {
    a ^ b
}

/// Value of the register named by the first source field of `w`.
pub open spec fn src1(regs: Seq<u32>, w: u32) -> u32 {
    regs[rs1_field(w) as int]
}

/// Value of the register named by the second source field of `w`.
pub open spec fn src2(regs: Seq<u32>, w: u32) -> u32 {
    regs[rs2_field(w) as int]
}

/// `regs` with the destination register of `w` set to `v`.
pub open spec fn set_rd(regs: Seq<u32>, w: u32, v: u32) -> Seq<u32> {
    regs.update(rd_field(w) as int, v)
}

/// The register file after `inst`, or `None` where `inst` lies outside the
/// register-register, register-immediate and upper-immediate integer classes.
pub open spec fn apply(inst: Instruction, regs: Seq<u32>) -> Option<Seq<u32>> {
    match inst {
        Instruction::Add(t) => Some(set_rd(regs, t.0, add_w(src1(regs, t.0), src2(regs, t.0)))),
        Instruction::Sub(t) => Some(set_rd(regs, t.0, sub_w(src1(regs, t.0), src2(regs, t.0)))),
        Instruction::And(t) => Some(set_rd(regs, t.0, and_w(src1(regs, t.0), src2(regs, t.0)))),
        Instruction::Or(t) => Some(set_rd(regs, t.0, or_w(src1(regs, t.0), src2(regs, t.0)))),
        Instruction::Xor(t) => Some(set_rd(regs, t.0, xor_w(src1(regs, t.0), src2(regs, t.0)))),
        Instruction::Sll(t) => Some(set_rd(regs, t.0, sll_w(src1(regs, t.0), src2(regs, t.0)))),
        Instruction::Srl(t) => Some(set_rd(regs, t.0, srl_w(src1(regs, t.0), src2(regs, t.0)))),
        Instruction::Sra(t) => Some(set_rd(regs, t.0, sra_w(src1(regs, t.0), src2(regs, t.0)))),
        Instruction::Slt(t) => Some(set_rd(regs, t.0, slt_w(src1(regs, t.0), src2(regs, t.0)))),
        Instruction::Sltu(t) => Some(set_rd(regs, t.0, sltu_w(src1(regs, t.0), src2(regs, t.0)))),
        Instruction::Lui(t) => Some(set_rd(regs, t.0, upper_imm_field(t.0))),
        Instruction::Addi(t) => Some(set_rd(regs, t.0, add_w(src1(regs, t.0), sext12(imm12_field(t.0))))),
        Instruction::Slti(t) => Some(set_rd(regs, t.0, slt_w(src1(regs, t.0), sext12(imm12_field(t.0))))),
        Instruction::Sltiu(t) => Some(set_rd(regs, t.0, sltu_w(src1(regs, t.0), sext12(imm12_field(t.0))))),
        Instruction::Xori(t) => Some(set_rd(regs, t.0, xor_w(src1(regs, t.0), sext12(imm12_field(t.0))))),
        Instruction::Ori(t) => Some(set_rd(regs, t.0, or_w(src1(regs, t.0), sext12(imm12_field(t.0))))),
        Instruction::Andi(t) => Some(set_rd(regs, t.0, and_w(src1(regs, t.0), sext12(imm12_field(t.0))))),
        Instruction::Slli(t) => Some(set_rd(regs, t.0, sll_w(src1(regs, t.0), shamt_field(t.0)))),
        Instruction::Srli(t) => Some(set_rd(regs, t.0, srl_w(src1(regs, t.0), shamt_field(t.0)))),
        Instruction::Srai(t) => Some(set_rd(regs, t.0, sra_w(src1(regs, t.0), shamt_field(t.0)))),
        _ => None,
    }
}

/// Register fields are five bits wide.
proof fn lemma_fields_in_range(w: u32)
    ensures
        rd_field(w) < 32,
        rs1_field(w) < 32,
        rs2_field(w) < 32,
{
    assert((w >> 7u32) & 0x1f < 32) by (bit_vector);
    assert((w >> 15u32) & 0x1f < 32) by (bit_vector);
    assert((w >> 20u32) & 0x1f < 32) by (bit_vector);
}

/// Signals a decoded instruction that this engine gives no meaning to.
#[derive(Clone, Copy, Debug, PartialEq, Eq, Structural)]
pub struct Unsupported;

/// Applies one decoded instruction to a register file.
pub trait Exec {
    /// The register file after this instruction, `None` where it is unsupported.
    spec fn effect(&self, regs: Seq<u32>) -> Option<Seq<u32>>;

    /// Reads every source register before writing the destination; leaves the
    /// registers untouched and fails where the instruction is unsupported.
    fn exec(&self, regs: &mut [u32; 32]) -> (r: Result<(), Unsupported>)
        ensures
            match self.effect(old(regs)@) {
                Some(next) => r is Ok && final(regs)@ == next,
                None => r is Err && final(regs)@ == old(regs)@,
            },
    ;
}

impl Exec for Instruction {
    open spec fn effect(&self, regs: Seq<u32>) -> Option<Seq<u32>> {
        apply(*self, regs)
    }

    fn exec(&self, regs: &mut [u32; 32]) -> (r: Result<(), Unsupported>) {
        match self {
            Instruction::Add(t) => {
                proof { lemma_fields_in_range(t.0); }
                exec_add(t.rd() as usize, t.rs1() as usize, t.rs2() as usize, regs)
            },
            Instruction::Sub(t) => {
                proof { lemma_fields_in_range(t.0); }
                exec_sub(t.rd() as usize, t.rs1() as usize, t.rs2() as usize, regs)
            },
            Instruction::And(t) => {
                proof { lemma_fields_in_range(t.0); }
                exec_and(t.rd() as usize, t.rs1() as usize, t.rs2() as usize, regs)
            },
            Instruction::Or(t) => {
                proof { lemma_fields_in_range(t.0); }
                exec_or(t.rd() as usize, t.rs1() as usize, t.rs2() as usize, regs)
            },
            Instruction::Xor(t) => {
                proof { lemma_fields_in_range(t.0); }
                exec_xor(t.rd() as usize, t.rs1() as usize, t.rs2() as usize, regs)
            },
            Instruction::Sll(t) => {
                proof { lemma_fields_in_range(t.0); }
                exec_sll(t.rd() as usize, t.rs1() as usize, t.rs2() as usize, regs)
            },
            Instruction::Srl(t) => {
                proof { lemma_fields_in_range(t.0); }
                exec_srl(t.rd() as usize, t.rs1() as usize, t.rs2() as usize, regs)
            },
            Instruction::Sra(t) => {
                proof { lemma_fields_in_range(t.0); }
                exec_sra(t.rd() as usize, t.rs1() as usize, t.rs2() as usize, regs)
            },
            Instruction::Slt(t) => {
                proof { lemma_fields_in_range(t.0); }
                exec_slt(t.rd() as usize, t.rs1() as usize, t.rs2() as usize, regs)
            },
            Instruction::Sltu(t) => {
                proof { lemma_fields_in_range(t.0); }
                exec_sltu(t.rd() as usize, t.rs1() as usize, t.rs2() as usize, regs)
            },
            Instruction::Lui(t) => {
                proof { lemma_fields_in_range(t.0); }
                exec_lui(t.rd() as usize, t.imm(), regs)
            },
            Instruction::Addi(t) => {
                proof { lemma_fields_in_range(t.0); }
                exec_addi(t.rd() as usize, t.rs1() as usize, sign_extend12(t.imm()), regs)
            },
            Instruction::Slti(t) => {
                proof { lemma_fields_in_range(t.0); }
                exec_slti(t.rd() as usize, t.rs1() as usize, sign_extend12(t.imm()), regs)
            },
            Instruction::Sltiu(t) => {
                proof { lemma_fields_in_range(t.0); }
                exec_sltiu(t.rd() as usize, t.rs1() as usize, sign_extend12(t.imm()), regs)
            },
            Instruction::Xori(t) => {
                proof { lemma_fields_in_range(t.0); }
                exec_xori(t.rd() as usize, t.rs1() as usize, sign_extend12(t.imm()), regs)
            },
            Instruction::Ori(t) => {
                proof { lemma_fields_in_range(t.0); }
                exec_ori(t.rd() as usize, t.rs1() as usize, sign_extend12(t.imm()), regs)
            },
            Instruction::Andi(t) => {
                proof { lemma_fields_in_range(t.0); }
                exec_andi(t.rd() as usize, t.rs1() as usize, sign_extend12(t.imm()), regs)
            },
            Instruction::Slli(t) => {
                proof { lemma_fields_in_range(t.0); }
                exec_slli(t.rd() as usize, t.rs1() as usize, t.shamt(), regs)
            },
            Instruction::Srli(t) => {
                proof { lemma_fields_in_range(t.0); }
                exec_srli(t.rd() as usize, t.rs1() as usize, t.shamt(), regs)
            },
            Instruction::Srai(t) => {
                proof { lemma_fields_in_range(t.0); }
                exec_srai(t.rd() as usize, t.rs1() as usize, t.shamt(), regs)
            },
            _ => {
                return Err(Unsupported);
            },
        }
        Ok(())
    }
}

/// The signed and the unsigned comparison disagree exactly on the pairs whose
/// sign bits differ: agreeing signs order the two readings alike, and with
/// differing signs the negative word is the larger one unsigned.
pub proof fn lemma_slt_sltu_disagree_iff_signs_differ(a: u32, b: u32)
    ensures
        (slt_w(a, b) != sltu_w(a, b)) == ((a >= 0x8000_0000) != (b >= 0x8000_0000)),
{
}

/// Shifts read only the low five bits of their amount: two amounts that agree
/// there shift alike, whatever their upper bits.
pub proof fn lemma_shift_amount_masked(a: u32, b: u32, c: u32)
    requires
        b & 0x1f == c & 0x1f,
    ensures
        sll_w(a, b) == sll_w(a, c),
        srl_w(a, b) == srl_w(a, c),
        sra_w(a, b) == sra_w(a, c),
{
    lemma_mask_is_mod(b);
    lemma_mask_is_mod(c);
}

} // verus!
