use baretk::decomp::{decomp_program, Language};
use baretk::dis::{disassemble, disassemble_program, InstructionListing, Operand};
use baretk::prog::{build_program_from_binary, load_program_from_bytes};

fn put(v: &mut Vec<u8>, at: usize, bytes: &[u8]) {
    v[at..at + bytes.len()].copy_from_slice(bytes);
}

fn section_header(v: &mut Vec<u8>, at: usize, name: u32, kind: u32, addr: u64, offset: u64, size: u64, entsize: u64) {
    put(v, at, &name.to_le_bytes());
    put(v, at + 4, &kind.to_le_bytes());
    put(v, at + 0x10, &addr.to_le_bytes());
    put(v, at + 0x18, &offset.to_le_bytes());
    put(v, at + 0x20, &size.to_le_bytes());
    put(v, at + 0x38, &entsize.to_le_bytes());
}

/// A small 64-bit little-endian x86-64 ELF file with `.text` at 0x1000 and a
/// symbol `main` at its start.
fn tiny_elf() -> Vec<u8> {
    let mut v = vec![0u8; 0xa8 + 5 * 64];
    put(&mut v, 0, &[0x7f, 0x45, 0x4c, 0x46, 2, 1, 1]);
    put(&mut v, 0x10, &2u16.to_le_bytes());
    put(&mut v, 0x12, &0x3eu16.to_le_bytes());
    put(&mut v, 0x18, &0x1000u64.to_le_bytes());
    put(&mut v, 0x28, &0xa8u64.to_le_bytes());
    put(&mut v, 0x3a, &64u16.to_le_bytes());
    put(&mut v, 0x3c, &5u16.to_le_bytes());
    put(&mut v, 0x3e, &2u16.to_le_bytes());
    put(&mut v, 0x40, &[0x55, 0x48, 0x89, 0xe5, 0x5d, 0xc3]);
    put(&mut v, 0x48, b"\0.text\0.shstrtab\0.symtab\0.strtab\0");
    put(&mut v, 0x70, b"\0main\0");
    // symbol 1: name 1, value 0x1000, size 6
    put(&mut v, 0x78 + 24, &1u32.to_le_bytes());
    put(&mut v, 0x78 + 24 + 8, &0x1000u64.to_le_bytes());
    put(&mut v, 0x78 + 24 + 16, &6u64.to_le_bytes());
    section_header(&mut v, 0xa8 + 64, 1, 1, 0x1000, 0x40, 6, 0);
    section_header(&mut v, 0xa8 + 128, 7, 3, 0, 0x48, 33, 0);
    section_header(&mut v, 0xa8 + 192, 17, 2, 0, 0x78, 48, 24);
    section_header(&mut v, 0xa8 + 256, 25, 3, 0, 0x70, 6, 0);
    v
}

#[test]
fn elf_program_model() {
    let p = load_program_from_bytes(&tiny_elf());
    assert_eq!(p.bits, 64);
    assert_eq!(p.machine_type, "amd64");
    assert_eq!(p.entry_point, 0x1000);
    let text = p.section_table.iter().find(|s| s.0 == ".text").unwrap();
    assert_eq!(text.1.addr, 0x1000);
    assert_eq!(text.1.bytes, vec![0x55, 0x48, 0x89, 0xe5, 0x5d, 0xc3]);
    assert!(p.symbol_table.iter().any(|s| s.0 == "main" && s.1.addr == 0x1000 && s.1.size == 6));
    assert_eq!(p.get_symbols_in_section(0x1000, 0x1006), vec![(0x1000, "main".to_string())]);
}

#[test]
fn elf_disassembly_and_decompilation() {
    let d = disassemble(&tiny_elf());
    assert_eq!(d.section().section_name, ".text");
    assert_eq!(
        d.print(false),
        ".section .text\n.org 0x00001000\nmain:\n_00000000: push rbp\n_00000001: mov rbp, rsp\n_00000004: pop rbp\n_00000005: ret\n"
    );
    let dec = decomp_program(d, Language::Pseudocode);
    let text = dec.print();
    assert!(text.starts_with("fn sub_00001000:\nmain:\n    do:\n"));
    assert!(text.ends_with("    rbp = rsp\n    do:\n        rbp = *u64(rsp)\n        rsp = (rsp + 8)\n    return\n"));
}

#[test]
fn truncated_elf_falls_back_to_raw() {
    let mut v = tiny_elf();
    v.truncate(0x60);
    let p = load_program_from_bytes(&v);
    assert_eq!(p.machine_type, "unknown");
    assert_eq!(p.section_table.len(), 1);
    assert_eq!(p.section_table[0].1.bytes.len(), 0x60);
}

#[test]
fn pe_program_model() {
    let mut v = vec![0u8; 0x200];
    put(&mut v, 0, b"MZ");
    put(&mut v, 0x3c, &0x80u32.to_le_bytes());
    put(&mut v, 0x80, b"PE\0\0");
    put(&mut v, 0x84, &0x8664u16.to_le_bytes());
    put(&mut v, 0x86, &1u16.to_le_bytes());
    put(&mut v, 0x94, &0xf0u16.to_le_bytes());
    put(&mut v, 0x98, &0x20bu16.to_le_bytes());
    let table = 0x80 + 0x18 + 0xf0;
    put(&mut v, table, b".text\0\0\0");
    put(&mut v, table + 0xc, &0x1000u32.to_le_bytes());
    put(&mut v, table + 0x10, &2u32.to_le_bytes());
    put(&mut v, table + 0x14, &0x1f0u32.to_le_bytes());
    put(&mut v, table + 0x24, &0x6000_0020u32.to_le_bytes());
    put(&mut v, 0x1f0, &[0x90, 0xc3]);
    let p = load_program_from_bytes(&v);
    assert_eq!(p.bits, 64);
    assert_eq!(p.machine_type, "amd64");
    assert_eq!(p.section_table.len(), 1);
    assert_eq!(p.section_table[0].0, ".text");
    assert_eq!(p.section_table[0].1.bytes, vec![0x90, 0xc3]);
    assert_eq!(p.program_table[0].perm, 0x5);
    let d = disassemble_program(p);
    assert_eq!(d.print(false), ".section .text\n.org 0x000001f0\n_00000000: nop\n_00000001: ret\n");
}

#[test]
fn shared_instruction_form() {
    let d = disassemble_program(build_program_from_binary(&[0x01, 0xd8, 0x89, 0x47, 0xf4, 0xc3], None, None, Some("x86".to_string())));
    let v = d.section().instructions.instruction_vec();
    let texts: Vec<String> = v.iter().map(|i| i.print()).collect();
    assert_eq!(texts, vec!["add eax, eax, ebx", "mov DWORD [rdi+-12], eax", "ret"]);
    assert_eq!(Operand::Memory(".", "", 16, 4).print(), "DWORD [pc+16]");
    assert_eq!(Operand::Immediate(-3).print(), "-3");
    assert_eq!(Operand::Nothing.print(), "()");
    let rv = disassemble_program(build_program_from_binary(&[0x82, 0x80], None, None, Some("riscv".to_string())));
    assert!(matches!(rv.section().instructions, InstructionListing::Rv(_)));
    assert_eq!(rv.section().instructions.instruction_vec().len(), 0);
}

#[test]
fn elf_with_a_missing_section_header_falls_back_to_raw() {
    let mut v = tiny_elf();
    // one more section header than the file holds
    put(&mut v, 0x3c, &6u16.to_le_bytes());
    let p = load_program_from_bytes(&v);
    assert_eq!(p.machine_type, "unknown");
    assert_eq!(p.section_table[0].0, "file");
}
