//! The instruction decoder this simulator relies on, as Verus sees it.
//!
//! The decoded instruction formats of `riscv_decode` are plain wrappers around
//! the raw instruction word, so they are declared with their fields visible and
//! their field accessors are given their exact bit-level meaning.
use riscv_decode::types::{
    BType, CsrIType, CsrType, FenceType, IType, JType, R4Type, RType, SType, ShiftType, UType,
};
use riscv_decode::{DecodingError, Instruction};
use vstd::prelude::*;

verus! {

#[verifier::external_type_specification]
pub struct ExRType(RType);

#[verifier::external_type_specification]
pub struct ExIType(IType);

#[verifier::external_type_specification]
pub struct ExSType(SType);

#[verifier::external_type_specification]
pub struct ExBType(BType);

#[verifier::external_type_specification]
pub struct ExUType(UType);

#[verifier::external_type_specification]
pub struct ExJType(JType);

#[verifier::external_type_specification]
pub struct ExShiftType(ShiftType);

#[verifier::external_type_specification]
pub struct ExR4Type(R4Type);

#[verifier::external_type_specification]
pub struct ExCsrType(CsrType);

#[verifier::external_type_specification]
pub struct ExCsrIType(CsrIType);

#[verifier::external_type_specification]
pub struct ExFenceType(FenceType);

#[verifier::external_type_specification]
pub struct ExInstruction(Instruction);

#[verifier::external_type_specification]
pub struct ExDecodingError(DecodingError);

/// Destination register field, bits 11:7 of an instruction word.
pub open spec fn rd_field(w: u32) -> u32 {
    (w >> 7u32) & 0x1f
}

/// First source register field, bits 19:15.
pub open spec fn rs1_field(w: u32) -> u32 {
    (w >> 15u32) & 0x1f
}

/// Second source register field, bits 24:20.
pub open spec fn rs2_field(w: u32) -> u32 {
    (w >> 20u32) & 0x1f
}

/// Upper-immediate field: bits 31:12 kept in place, low twelve bits cleared.
pub open spec fn upper_imm_field(w: u32) -> u32 {
    w & 0xfffff000
}

/// Twelve-bit immediate field, bits 31:20, not yet sign-extended.
pub open spec fn imm12_field(w: u32) -> u32 {
    w >> 20u32
}

/// Shift-amount field, bits 25:20 (six bits wide, as for the 64-bit base ISA).
pub open spec fn shamt_field(w: u32) -> u32 {
    (w >> 20u32) & 0x3f
}

/// Length in bytes of an instruction, classified from its low sixteen bits.
pub open spec fn insn_length(i: u16) -> usize {
    if i & 3 != 3 {
        2
    } else if i & 0x1c != 0x1c {
        4
    } else if i & 0x3f == 0x1f {
        6
    } else if i & 0x7f == 0x1f {
        8
    } else {
        (10 + 2 * ((i >> 12u16) & 7)) as usize
    }
}

/// What `riscv_decode::decode` yields for a raw instruction word.
pub uninterp spec fn decoded(word: u32) -> Result<Instruction, DecodingError>;

/// Relies on `riscv_decode::decode`: the outcome depends on the word alone.
pub assume_specification[ riscv_decode::decode ](i: u32) -> (r: Result<Instruction, DecodingError>)
    ensures
        r == decoded(i),
;

/// Relies on `riscv_decode::instruction_length`: a classification on the low
/// bits of the first parcel, exactly as written in the crate.
pub assume_specification[ riscv_decode::instruction_length ](i: u16) -> (r: usize)
    ensures
        r == insn_length(i),
;

/// Relies on `RType::rd`: bits 11:7 of the word.
pub assume_specification[ RType::rd ](t: &RType) -> (r: u32)
    ensures
        r == rd_field(t.0),
;

/// Relies on `RType::rs1`: bits 19:15 of the word.
pub assume_specification[ RType::rs1 ](t: &RType) -> (r: u32)
    ensures
        r == rs1_field(t.0),
;

/// Relies on `RType::rs2`: bits 24:20 of the word.
pub assume_specification[ RType::rs2 ](t: &RType) -> (r: u32)
    ensures
        r == rs2_field(t.0),
;

/// Relies on `IType::rd`: bits 11:7 of the word.
pub assume_specification[ IType::rd ](t: &IType) -> (r: u32)
    ensures
        r == rd_field(t.0),
;

/// Relies on `IType::rs1`: bits 19:15 of the word.
pub assume_specification[ IType::rs1 ](t: &IType) -> (r: u32)
    ensures
        r == rs1_field(t.0),
;

/// Relies on `IType::imm`: bits 31:20 of the word, shifted down, unextended.
pub assume_specification[ IType::imm ](t: &IType) -> (r: u32)
    ensures
        r == imm12_field(t.0),
;

/// Relies on `ShiftType::rd`: bits 11:7 of the word.
pub assume_specification[ ShiftType::rd ](t: &ShiftType) -> (r: u32)
    ensures
        r == rd_field(t.0),
;

/// Relies on `ShiftType::rs1`: bits 19:15 of the word.
pub assume_specification[ ShiftType::rs1 ](t: &ShiftType) -> (r: u32)
    ensures
        r == rs1_field(t.0),
;

/// Relies on `ShiftType::shamt`: bits 25:20 of the word.
pub assume_specification[ ShiftType::shamt ](t: &ShiftType) -> (r: u32)
    ensures
        r == shamt_field(t.0),
;

/// Relies on `UType::rd`: bits 11:7 of the word.
pub assume_specification[ UType::rd ](t: &UType) -> (r: u32)
    ensures
        r == rd_field(t.0),
;

/// Relies on `UType::imm`: the word with its low twelve bits cleared.
pub assume_specification[ UType::imm ](t: &UType) -> (r: u32)
    ensures
        r == upper_imm_field(t.0),
;

} // verus!
