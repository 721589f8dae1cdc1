use baretk::decomp::{decomp_program, Language};
use baretk::dis::{disassemble_program, InstructionListing};
use baretk::ir::Expr;
use baretk::prog::{build_program_from_binary, Program, Symbol};

fn program(bytes: &[u8], machine: &str) -> Program {
    build_program_from_binary(bytes, Some(64), Some(1), Some(machine.to_string()))
}

fn texts(bytes: &[u8], machine: &str) -> Vec<String> {
    let d = disassemble_program(program(bytes, machine));
    match &d.section().instructions {
        InstructionListing::Arm(v) => v.iter().map(|i| i.print()).collect(),
        InstructionListing::X86(v) => v.iter().map(|i| i.print()).collect(),
        InstructionListing::Rv(v) => v.iter().map(|i| i.print()).collect(),
        InstructionListing::Unknown => vec![],
    }
}

fn spans(bytes: &[u8], machine: &str) -> Vec<(usize, usize)> {
    let d = disassemble_program(program(bytes, machine));
    match &d.section().instructions {
        InstructionListing::Arm(v) => v.iter().map(|i| (i.offset(), i.size())).collect(),
        InstructionListing::X86(v) => v.iter().map(|i| (i.offset(), i.size())).collect(),
        InstructionListing::Rv(v) => v.iter().map(|i| (i.offset(), i.size())).collect(),
        InstructionListing::Unknown => vec![],
    }
}

fn ir_lines(p: Program) -> Vec<String> {
    let d = decomp_program(disassemble_program(p), Language::Pseudocode);
    d.exprs().iter().map(|e: &Expr| e.print(0, &vec![], Language::Pseudocode)).collect()
}

#[test]
fn arm_zero_word_is_andeq() {
    assert_eq!(texts(&[0, 0, 0, 0], "arm"), vec!["andeq r0, r0, r0".to_string()]);
}

#[test]
fn arm_mov_immediate() {
    assert_eq!(texts(&[0x04, 0x20, 0xa0, 0xe3], "arm"), vec!["mov r2, #4".to_string()]);
    assert_eq!(ir_lines(program(&[0x04, 0x20, 0xa0, 0xe3], "arm")), vec!["r2 = 4".to_string()]);
}

#[test]
fn arm_branch_target() {
    let mut bytes = vec![0u8; 0x20];
    bytes.extend_from_slice(&[0xf9, 0xff, 0xff, 0xea]);
    let t = texts(&bytes, "arm");
    assert_eq!(t.len(), 9);
    // 0x20 + 8 + (sign_extend(0xfffff9) << 2) = 0x20 + 8 - 28
    assert_eq!(t[8], "b _0000000c");
}

#[test]
fn arm_three_bytes_decode_to_nothing() {
    assert_eq!(texts(&[1, 2, 3], "arm").len(), 0);
    assert_eq!(spans(&[0, 0, 0, 0, 1, 2, 3], "arm"), vec![(0, 4)]);
}

#[test]
fn arm_push_pop_idioms() {
    // stmdb sp!, {r4, lr} and ldmia sp!, {r4, pc}
    assert_eq!(texts(&[0x10, 0x40, 0x2d, 0xe9], "arm"), vec!["push {r4, lr}".to_string()]);
    assert_eq!(texts(&[0x10, 0x80, 0xbd, 0xe8], "arm"), vec!["pop {r4, r15}".to_string()]);
}

#[test]
fn arm_bx_lr_lifts_to_return() {
    assert_eq!(texts(&[0x1e, 0xff, 0x2f, 0xe1], "arm"), vec!["bx lr".to_string()]);
    assert_eq!(ir_lines(program(&[0x1e, 0xff, 0x2f, 0xe1], "arm")), vec!["return".to_string()]);
}

#[test]
fn x86_single_byte_forms() {
    assert_eq!(texts(&[0xc3], "x86"), vec!["ret".to_string()]);
    assert_eq!(texts(&[0x90], "x86"), vec!["nop".to_string()]);
    assert_eq!(ir_lines(program(&[0xc3, 0x90], "amd64")), vec!["return".to_string(), "nop".to_string()]);
}

#[test]
fn x86_rex_w_mov() {
    assert_eq!(texts(&[0x48, 0x89, 0xe5], "amd64"), vec!["mov rbp, rsp".to_string()]);
    assert_eq!(spans(&[0x48, 0x89, 0xe5], "amd64"), vec![(0, 3)]);
}

#[test]
fn x86_push_mov_pop_ret() {
    let bytes = [0x55, 0x48, 0x89, 0xe5, 0x5d, 0xc3];
    assert_eq!(
        texts(&bytes, "amd64"),
        vec!["push rbp", "mov rbp, rsp", "pop rbp", "ret"].iter().map(|s| s.to_string()).collect::<Vec<_>>()
    );
    assert_eq!(
        ir_lines(program(&bytes, "amd64")),
        vec![
            "do:\n        rsp = (rsp - 8)\n        *u64(rsp) = rbp",
            "rbp = rsp",
            "do:\n        rbp = *u64(rsp)\n        rsp = (rsp + 8)",
            "return",
        ]
        .iter()
        .map(|s| s.to_string())
        .collect::<Vec<_>>()
    );
}

#[test]
fn x86_call_rel32() {
    let mut bytes = vec![0x90u8; 0x100];
    bytes.extend_from_slice(&[0xe8, 0, 0, 0, 0, 0xc3]);
    let t = texts(&bytes, "x86");
    assert_eq!(t[0x100], "call 0x105");
    let mut p = program(&bytes, "x86");
    let lines = ir_lines(p.clone());
    assert_eq!(lines[0x100], "(261)()");
    p.symbol_table.push(("foo".to_string(), Symbol { addr: 0x105, size: 0 }));
    let d = decomp_program(disassemble_program(p), Language::Pseudocode);
    let text = d.print();
    assert!(text.starts_with("fn sub_00000000:\n"));
    assert!(text.contains("\n    foo()\nfoo:\n    return\n"));
}

#[test]
fn x86_unknown_byte_is_one_byte() {
    assert_eq!(texts(&[0x0f], "x86"), vec!["(bad)".to_string()]);
    assert_eq!(spans(&[0x0f, 0x90], "x86"), vec![(0, 1), (1, 1)]);
}

#[test]
fn x86_memory_operands() {
    // mov DWORD PTR [rdi-0x0c], eax ; add eax, DWORD PTR [rip+0x10]
    assert_eq!(texts(&[0x89, 0x47, 0xf4], "x86"), vec!["mov DWORD PTR [rdi-0x0c], eax".to_string()]);
    assert_eq!(
        texts(&[0x03, 0x05, 0x10, 0, 0, 0], "x86"),
        vec!["add eax, DWORD PTR [rip+0x00000010]".to_string()]
    );
    assert_eq!(texts(&[0x8b, 0x04, 0x8b], "x86"), vec!["mov eax, DWORD PTR [rbx+rcx*4]".to_string()]);
}

#[test]
fn riscv_addi() {
    let bytes = 0x0010_0513u32.to_le_bytes();
    assert_eq!(texts(&bytes, "riscv"), vec!["addi a0, Zero, 1".to_string()]);
    assert_eq!(ir_lines(program(&bytes, "riscv")), vec!["a0 = (Zero + 1)".to_string()]);
}

#[test]
fn riscv_compressed_ret() {
    let bytes = 0x8082u16.to_le_bytes();
    assert_eq!(texts(&bytes, "riscv"), vec!["ret".to_string()]);
    assert_eq!(ir_lines(program(&bytes, "riscv")), vec!["return".to_string()]);
}

#[test]
fn riscv_compressed_jr_matches_jalr() {
    let c = 0x8282u16.to_le_bytes();
    let w = 0x0002_8067u32.to_le_bytes();
    assert_eq!(ir_lines(program(&c, "riscv")), vec!["goto (t0)".to_string()]);
    assert_eq!(ir_lines(program(&c, "riscv")), ir_lines(program(&w, "riscv")));
}

#[test]
fn riscv_offsets_are_prefix_sums() {
    let mut bytes = Vec::new();
    bytes.extend_from_slice(&0x8082u16.to_le_bytes());
    bytes.extend_from_slice(&0x0010_0513u32.to_le_bytes());
    bytes.extend_from_slice(&0x0000u16.to_le_bytes());
    bytes.push(0x13);
    assert_eq!(spans(&bytes, "riscv"), vec![(0, 2), (2, 4), (6, 2)]);
    let total: usize = spans(&bytes, "riscv").iter().map(|s| s.1).sum();
    assert_eq!(total, bytes.len() - bytes.len() % 2);
}

#[test]
fn riscv_truncated_wide_instruction_is_two_bytes() {
    assert_eq!(spans(&[0x13, 0x05, 0x10], "riscv"), vec![(0, 2)]);
    assert_eq!(texts(&[0x13, 0x05, 0x10], "riscv"), vec!["???".to_string()]);
}

#[test]
fn riscv_loads_and_stores() {
    // lw a0, -4(sp) ; sw a0, 8(sp) ; beqz a0 with offset 8
    let mut bytes = Vec::new();
    bytes.extend_from_slice(&0xffc1_2503u32.to_le_bytes());
    bytes.extend_from_slice(&0x00a1_2423u32.to_le_bytes());
    bytes.extend_from_slice(&0x0005_0463u32.to_le_bytes());
    assert_eq!(
        texts(&bytes, "riscv"),
        vec!["lw a0, [sp - 4]", "sw a0, [sp + 8]", "beqz a0, 8"].iter().map(|s| s.to_string()).collect::<Vec<_>>()
    );
    assert_eq!(
        ir_lines(program(&bytes, "riscv")),
        vec!["a0 = *u32((sp + -4))", "*u32((sp + 8)) = a0", "if ((a0 == 0)) goto ((pc + 8))"]
            .iter()
            .map(|s| s.to_string())
            .collect::<Vec<_>>()
    );
}

#[test]
fn decompiling_twice_gives_the_same_statements() {
    let bytes = [0x55, 0x48, 0x89, 0xe5, 0x5d, 0xc3];
    assert_eq!(ir_lines(program(&bytes, "amd64")), ir_lines(program(&bytes, "amd64")));
}

#[test]
fn lifting_twice_gives_equal_trees() {
    let d = disassemble_program(program(&0x0010_0513u32.to_le_bytes(), "riscv"));
    if let InstructionListing::Rv(v) = &d.section().instructions {
        let a = v[0].into_expr().print(0, &vec![], Language::Pseudocode);
        let b = v[0].into_expr().print(0, &vec![], Language::Pseudocode);
        assert_eq!(a, b);
    } else {
        panic!("expected a RISC-V listing");
    }
}

#[test]
fn unknown_machine_gives_no_listing() {
    let d = disassemble_program(build_program_from_binary(&[1, 2, 3, 4], None, None, None));
    assert!(matches!(d.section().instructions, InstructionListing::Unknown));
    assert_eq!(d.section().section_name, "file");
}

#[test]
fn listing_text_with_labels_and_bytes() {
    let mut p = program(&[0x90, 0xc3], "x86");
    p.symbol_table.push(("start".to_string(), Symbol { addr: 0, size: 2 }));
    let d = disassemble_program(p);
    let text = d.print(true);
    assert_eq!(
        text,
        format!(".section file\n.org 0x00000000\nstart:\n_00000000: {:32}(90)\n_00000001: {:32}(c3)\n", "nop", "ret")
    );
}

#[test]
fn x86_repeated_rex_w_prefixes_chain() {
    assert_eq!(texts(&[0x48, 0x48, 0x90], "amd64"), vec!["nop".to_string()]);
    assert_eq!(spans(&[0x48, 0x48, 0x90], "amd64"), vec![(0, 3)]);
    assert_eq!(texts(&[0x48, 0x83, 0xec, 0x10], "amd64"), vec!["sub rsp, 16".to_string()]);
    assert_eq!(texts(&[0x83, 0xec, 0x10], "amd64"), vec!["sub esp, 16".to_string()]);
    let mut long = vec![0x48u8; 16];
    long.push(0x90);
    assert_eq!(spans(&long, "amd64"), vec![(0, 17)]);
    assert_eq!(texts(&long, "amd64"), vec!["nop".to_string()]);
}

#[test]
fn every_symbol_at_an_address_gets_a_label() {
    let mut p = program(&[0x90, 0xc3], "x86");
    p.symbol_table.push(("first".to_string(), Symbol { addr: 1, size: 1 }));
    p.symbol_table.push(("second".to_string(), Symbol { addr: 1, size: 1 }));
    let d = disassemble_program(p);
    assert_eq!(
        d.print(false),
        ".section file\n.org 0x00000000\n_00000000: nop\nfirst:\nsecond:\n_00000001: ret\n"
    );
}

#[test]
fn arm_shifted_self_move_is_not_nop() {
    assert_eq!(texts(&0xe1a0_0000u32.to_le_bytes(), "arm"), vec!["nop".to_string()]);
    assert_eq!(texts(&0xe1a0_0100u32.to_le_bytes(), "arm"), vec!["mov r0, r0 lsl #2".to_string()]);
}

#[test]
fn riscv_compressed_arithmetic_registers() {
    assert_eq!(texts(&0x8c89u16.to_le_bytes(), "riscv"), vec!["sub a0, a0, s1".to_string()]);
}
