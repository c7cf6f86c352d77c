use nomos::cpu::Cpu;
use nomos::exec::Exec;
use riscv_assembler::assembler::assemble;
use riscv_decode::decode;

fn assemble_and_exec(code: &str, regs: &mut [u32; 32]) {
    let inst = assemble(code).unwrap().code[0];
    let decoded = decode(inst).unwrap();
    decoded.exec(regs).unwrap();
}

fn cpu_rtype(code: &str, rd: usize, rs1: u32, rs2: u32, expected: u32) {
    let mut cpu = Cpu::new();
    cpu.regs[1] = rs1;
    cpu.regs[2] = rs2;
    assemble_and_exec(code, &mut cpu.regs);
    assert_eq!(cpu.regs[rd], expected);
}

fn cpu_itype(code: &str, rd: usize, rs1: usize, rs1_val: u32, expected: u32) {
    let mut cpu = Cpu::new();
    cpu.regs[rs1] = rs1_val;
    assemble_and_exec(code, &mut cpu.regs);
    assert_eq!(cpu.regs[rd], expected);
}

fn regs_rtype(code: &str, rd: usize, rs1: u32, rs2: u32, expected: u32) {
    let mut regs: [u32; 32] = [0; 32];
    regs[1] = rs1;
    regs[2] = rs2;
    assemble_and_exec(code, &mut regs);
    assert_eq!(regs[rd], expected);
}

fn regs_itype(code: &str, rd: usize, rs1: usize, rs1_val: u32, imm: u32, expected: u32) {
    let mut regs: [u32; 32] = [0; 32];
    regs[rs1] = rs1_val;
    assemble_and_exec(code, &mut regs);
    assert_eq!(regs[rd], expected);
    let _ = imm;
}

#[test]
fn test_exec_rtype_case_1() {
    cpu_rtype("add x3, x1, x2", 3, 10, 20, 30);
}

#[test]
fn test_exec_rtype_case_2() {
    cpu_rtype("add x4, x1, x2", 4, 0xFFFFFFFF, 1, 0);
}

#[test]
fn test_exec_rtype_case_3() {
    cpu_rtype("add x5, x1, x2", 5, 0x7FFFFFFF, 1, 0x80000000);
}

#[test]
fn test_exec_rtype_case_4() {
    cpu_rtype("add x6, x1, x2", 6, 0x80000000, 0xFFFFFFFF, 0x7FFFFFFF);
}

#[test]
fn test_exec_rtype_case_5() {
    cpu_rtype("sub x7, x1, x2", 7, 20, 10, 10);
}

#[test]
fn test_exec_rtype_case_6() {
    cpu_rtype("sub x8, x1, x2", 8, 0, 1, 0xFFFFFFFF);
}

#[test]
fn test_exec_rtype_case_7() {
    cpu_rtype("sub x9, x1, x2", 9, 0x80000000, 1, 0x7FFFFFFF);
}

#[test]
fn test_exec_rtype_case_8() {
    cpu_rtype("sub x10, x1, x2", 10, 0x7FFFFFFF, 0xFFFFFFFF, 0x80000000);
}

#[test]
fn test_exec_rtype_case_9() {
    cpu_rtype("and x8, x1, x2", 8, 100, 60, 36);
}

#[test]
fn test_exec_rtype_case_10() {
    cpu_rtype("or x3, x1, x2", 3, 100, 60, 124);
}

#[test]
fn test_exec_rtype_case_11() {
    cpu_rtype("or x4, x1, x2", 4, 0xFFFFFFFF, 0, 0xFFFFFFFF);
}

#[test]
fn test_exec_rtype_case_12() {
    cpu_rtype("xor x10, x1, x2", 10, 100, 60, 88);
}

#[test]
fn test_exec_rtype_case_13() {
    cpu_rtype("xor x11, x1, x2", 11, 0xFFFFFFFF, 0, 0xFFFFFFFF);
}

#[test]
fn test_exec_rtype_case_14() {
    cpu_rtype("xor x12, x1, x2", 12, 0xFFFFFFFF, 0xFFFFFFFF, 0);
}

#[test]
fn test_exec_rtype_case_15() {
    cpu_rtype("sll x15, x1, x2", 15, 1, 2, 4);
}

#[test]
fn test_exec_rtype_case_16() {
    cpu_rtype("srl x2, x1, x2", 2, 4, 2, 1);
}

#[test]
fn test_exec_rtype_case_17() {
    cpu_rtype("sra x7, x1, x2", 7, 0x80000000, 1, 0xC0000000);
}

#[test]
fn test_exec_rtype_case_18() {
    cpu_rtype("sra x8, x1, x2", 8, 0x7FFFFFFF, 1, 0x3FFFFFFF);
}

#[test]
fn test_exec_rtype_case_19() {
    cpu_rtype("slt x16, x1, x2", 16, 10, 20, 1);
}

#[test]
fn test_exec_rtype_case_20() {
    cpu_rtype("slt x31, x1, x2", 31, 20, 10, 0);
}

#[test]
fn test_exec_rtype_case_21() {
    cpu_rtype("sltu x11, x1, x2", 11, 20, 20, 0);
}

#[test]
fn test_exec_rtype_case_22() {
    cpu_rtype("sltu x12, x1, x2", 12, 10, 20, 1);
}

#[test]
fn test_exec_rtype_case_23() {
    cpu_rtype("sltu x7, x1, x2", 7, 20, 10, 0);
}

#[test]
fn test_exec_itype_case_1() {
    cpu_itype("addi x3, x2, 42", 3, 2, 10, 52);
}

#[test]
fn test_exec_itype_case_2() {
    cpu_itype("addi x4, x3, -1", 4, 3, 0, 0xFFFFFFFF);
}

#[test]
fn test_exec_itype_case_3() {
    cpu_itype("addi x5, x4, -1", 5, 4, 0xFFFFFFFF, 0xFFFFFFFE);
}

#[test]
fn test_exec_itype_case_4() {
    cpu_itype("addi x6, x12, 1", 6, 12, 0xFFFFFFFF, 0);
}

#[test]
fn test_exec_itype_case_5() {
    cpu_itype("addi x7, x13, -50", 7, 13, 100, 50);
}

#[test]
fn test_exec_itype_case_6() {
    cpu_itype("addi x8, x14, 0", 8, 14, 0x3039, 0x3039);
}

#[test]
fn test_exec_itype_case_7() {
    cpu_itype("ori x9, x15, 0xFF", 9, 15, 0x12345678, 0x123456FF);
}

#[test]
fn test_exec_itype_case_8() {
    cpu_itype("slti x15, x21, 100", 15, 21, 50, 1);
}

#[test]
fn test_exec_itype_case_9() {
    cpu_itype("slti x16, x22, 100", 16, 22, 150, 0);
}

#[test]
fn test_exec_itype_case_10() {
    cpu_itype("sltiu x17, x23, 100", 17, 23, 50, 1);
}

#[test]
fn test_exec_itype_case_11() {
    cpu_itype("sltiu x18, x24, 100", 18, 24, 150, 0);
}

#[test]
fn test_exec_itype_case_12() {
    cpu_itype("sltiu x19, x25, 100", 19, 25, 0xFFFFFFFF, 0);
}

#[test]
fn test_fns_rtype_case_1() {
    regs_rtype("add x3, x1, x2", 3, 10, 20, 30);
}

#[test]
fn test_fns_rtype_case_2() {
    regs_rtype("add x4, x1, x2", 4, 0xFFFFFFFF, 1, 0);
}

#[test]
fn test_fns_rtype_case_3() {
    regs_rtype("add x5, x1, x2", 5, 0x7FFFFFFF, 1, 0x80000000);
}

#[test]
fn test_fns_rtype_case_4() {
    regs_rtype("add x6, x1, x2", 6, 0x80000000, 0xFFFFFFFF, 0x7FFFFFFF);
}

#[test]
fn test_fns_rtype_case_5() {
    regs_rtype("sub x7, x1, x2", 7, 20, 10, 10);
}

#[test]
fn test_fns_rtype_case_6() {
    regs_rtype("sub x8, x1, x2", 8, 0, 1, 0xFFFFFFFF);
}

#[test]
fn test_fns_rtype_case_7() {
    regs_rtype("sub x9, x1, x2", 9, 0x80000000, 1, 0x7FFFFFFF);
}

#[test]
fn test_fns_rtype_case_8() {
    regs_rtype("sub x10, x1, x2", 10, 0x7FFFFFFF, 0xFFFFFFFF, 0x80000000);
}

#[test]
fn test_fns_rtype_case_9() {
    regs_rtype("and x8, x1, x2", 8, 100, 60, 36);
}

#[test]
fn test_fns_rtype_case_10() {
    regs_rtype("or x3, x1, x2", 3, 100, 60, 124);
}

#[test]
fn test_fns_rtype_case_11() {
    regs_rtype("or x4, x1, x2", 4, 0xFFFFFFFF, 0, 0xFFFFFFFF);
}

#[test]
fn test_fns_rtype_case_12() {
    regs_rtype("xor x10, x1, x2", 10, 100, 60, 88);
}

#[test]
fn test_fns_rtype_case_13() {
    regs_rtype("xor x11, x1, x2", 11, 0xFFFFFFFF, 0, 0xFFFFFFFF);
}

#[test]
fn test_fns_rtype_case_14() {
    regs_rtype("xor x12, x1, x2", 12, 0xFFFFFFFF, 0xFFFFFFFF, 0);
}

#[test]
fn test_fns_rtype_case_15() {
    regs_rtype("sll x15, x1, x2", 15, 1, 2, 4);
}

#[test]
fn test_fns_rtype_case_16() {
    regs_rtype("srl x2, x1, x2", 2, 4, 2, 1);
}

#[test]
fn test_fns_rtype_case_17() {
    regs_rtype("sra x7, x1, x2", 7, 0x80000000, 1, 0xC0000000);
}

#[test]
fn test_fns_rtype_case_18() {
    regs_rtype("sra x8, x1, x2", 8, 0x7FFFFFFF, 1, 0x3FFFFFFF);
}

#[test]
fn test_fns_rtype_case_19() {
    regs_rtype("slt x16, x1, x2", 16, 10, 20, 1);
}

#[test]
fn test_fns_rtype_case_20() {
    regs_rtype("slt x31, x1, x2", 31, 20, 10, 0);
}

#[test]
fn test_fns_rtype_case_21() {
    regs_rtype("sltu x11, x1, x2", 11, 20, 20, 0);
}

#[test]
fn test_fns_rtype_case_22() {
    regs_rtype("sltu x12, x1, x2", 12, 10, 20, 1);
}

#[test]
fn test_fns_rtype_case_23() {
    regs_rtype("sltu x7, x1, x2", 7, 20, 10, 0);
}

#[test]
fn test_fns_itype_case_1() {
    regs_itype("addi x3, x2, 42", 3, 2, 10, 42, 52);
}

#[test]
fn test_fns_itype_case_2() {
    regs_itype("addi x4, x3, -1", 4, 3, 0, 0xFFFFFFFF, 0xFFFFFFFF);
}

#[test]
fn test_fns_itype_case_3() {
    regs_itype("addi x5, x4, -1", 5, 4, 0, 0xFFFFFFFF, 0xFFFFFFFF);
}

#[test]
fn test_fns_itype_case_4() {
    regs_itype("addi x6, x12, 1", 6, 12, 0xFFFFFFFF, 1, 0);
}

#[test]
fn test_fns_itype_case_5() {
    regs_itype("addi x7, x13, -50", 7, 13, 100, -50i32 as u32, 50);
}

#[test]
fn test_fns_itype_case_6() {
    regs_itype("addi x8, x14, 0", 8, 14, 0x3039, 0, 0x3039);
}

#[test]
fn test_fns_itype_case_7() {
    regs_itype("ori x9, x15, 0xFF", 9, 15, 0x12345678, 255, 0x123456FF);
}

#[test]
fn test_fns_itype_case_8() {
    regs_itype("slti x15, x21, 100", 15, 21, 50, 100, 1);
}

#[test]
fn test_fns_itype_case_9() {
    regs_itype("slti x16, x22, 100", 16, 22, 150, 100, 0);
}

#[test]
fn test_fns_itype_case_10() {
    regs_itype("sltiu x17, x23, 100", 17, 23, 50, 100, 1);
}

#[test]
fn test_fns_itype_case_11() {
    regs_itype("sltiu x18, x24, 100", 18, 24, 150, 100, 0);
}

#[test]
fn test_fns_itype_case_12() {
    regs_itype("sltiu x19, x25, 100", 19, 25, 0xFFFFFFFF, 100, 0);
}
