use baretk::decomp::{decomp_program, Language};
use baretk::dis::{disassemble_program, InstructionListing};
use baretk::ir::Expr;
use baretk::pe::characteristics_string;
use baretk::prog::build_program_from_binary;

fn registers(e: &Expr, out: &mut Vec<String>) {
    match e {
        Expr::Register(r) => out.push(r.clone()),
        Expr::Special(_, args) | Expr::Group(args) => {
            for a in args {
                registers(a, out);
            }
        }
        Expr::Dereference(_, a) | Expr::Call(a) | Expr::Goto(a) => registers(a, out),
        Expr::Binary(_, l, r) | Expr::Store(l, r) => {
            registers(l, out);
            registers(r, out);
        }
        Expr::If(c, t, e) => {
            registers(c, out);
            registers(t, out);
            if let Some(x) = e {
                registers(x, out);
            }
        }
        _ => {}
    }
}

fn lifted_registers(bytes: &[u8], machine: &str) -> Vec<String> {
    let p = build_program_from_binary(bytes, None, None, Some(machine.to_string()));
    let d = decomp_program(disassemble_program(p), Language::Pseudocode);
    let mut out = Vec::new();
    for e in d.exprs() {
        registers(e, &mut out);
    }
    out
}

const RV_NAMES: [&str; 33] = [
    "Zero", "ra", "sp", "gp", "tp", "t0", "t1", "t2", "s0", "s1", "a0", "a1", "a2", "a3", "a4", "a5", "a6", "a7", "s2", "s3",
    "s4", "s5", "s6", "s7", "s8", "s9", "s10", "s11", "t3", "t4", "t5", "t6", "pc",
];

#[test]
fn riscv_lifted_registers_are_architectural() {
    let mut bytes = Vec::new();
    for w in [0x0010_0513u32, 0xffc1_2503, 0x00a1_2423, 0x0005_0463, 0x0000_0517, 0x0080_00ef, 0x0000_8067] {
        bytes.extend_from_slice(&w.to_le_bytes());
    }
    bytes.extend_from_slice(&0x8082u16.to_le_bytes());
    let regs = lifted_registers(&bytes, "riscv");
    assert!(regs.contains(&"pc".to_string()));
    assert!(regs.iter().all(|r| RV_NAMES.contains(&r.as_str())));
}

#[test]
fn x86_lifted_registers_are_architectural() {
    let bytes = [0x55, 0x48, 0x89, 0xe5, 0x89, 0x47, 0xf4, 0x8b, 0x04, 0x8b, 0x03, 0x05, 0x10, 0, 0, 0, 0x5d, 0xc3];
    let regs = lifted_registers(&bytes, "amd64");
    let names = ["rsp", "rbp", "rdi", "eax", "rbx", "rcx", "pc"];
    assert!(regs.iter().all(|r| names.contains(&r.as_str())), "{:?}", regs);
}

#[test]
fn arm_lifted_registers_are_architectural() {
    let mut bytes = Vec::new();
    for w in [0xe3a0_2004u32, 0xe081_0002, 0xe12f_ff1e, 0xeaff_fff9, 0xe1a0_d00e] {
        bytes.extend_from_slice(&w.to_le_bytes());
    }
    let regs = lifted_registers(&bytes, "arm");
    let names = ["r0", "r1", "r2", "sp", "lr", "pc"];
    assert!(!regs.is_empty());
    assert!(regs.iter().all(|r| names.contains(&r.as_str())), "{:?}", regs);
}

#[test]
fn redecoding_own_bytes_prints_the_same() {
    let mut bytes = Vec::new();
    bytes.extend_from_slice(&0x8082u16.to_le_bytes());
    bytes.extend_from_slice(&0x0010_0513u32.to_le_bytes());
    bytes.extend_from_slice(&0x4505u16.to_le_bytes());
    let d = disassemble_program(build_program_from_binary(&bytes, None, None, Some("riscv".to_string())));
    if let InstructionListing::Rv(v) = &d.section().instructions {
        for ins in v {
            let own = &bytes[ins.offset()..ins.offset() + ins.size()];
            let again = disassemble_program(build_program_from_binary(own, None, None, Some("riscv".to_string())));
            if let InstructionListing::Rv(w) = &again.section().instructions {
                assert_eq!(w.len(), 1);
                assert_eq!(w[0].print(), ins.print());
            } else {
                panic!("expected a RISC-V listing");
            }
        }
    } else {
        panic!("expected a RISC-V listing");
    }
}

#[test]
fn pe_characteristics_text() {
    assert_eq!(characteristics_string(0x0022), "executable, large address aware");
    assert_eq!(characteristics_string(0x0003), "executable, stripped");
    assert_eq!(characteristics_string(0x0001), "stripped");
    assert_eq!(characteristics_string(0), "");
}

#[test]
fn x86_redecoding_own_bytes_prints_the_same() {
    let bytes = [0x55, 0x48, 0x89, 0xe5, 0x89, 0x47, 0xf4, 0x8b, 0x04, 0x8b, 0x83, 0xc0, 0x05, 0x5d, 0xc3];
    let d = disassemble_program(build_program_from_binary(&bytes, None, None, Some("amd64".to_string())));
    if let InstructionListing::X86(v) = &d.section().instructions {
        assert_eq!(v.len(), 7);
        for ins in v {
            let own = &bytes[ins.offset()..ins.offset() + ins.size()];
            let again = disassemble_program(build_program_from_binary(own, None, None, Some("amd64".to_string())));
            if let InstructionListing::X86(w) = &again.section().instructions {
                assert_eq!(w.len(), 1);
                assert_eq!(w[0].print(), ins.print());
            } else {
                panic!("expected an x86 listing");
            }
        }
    } else {
        panic!("expected an x86 listing");
    }
}

#[test]
fn x86_redecoding_at_the_same_offset() {
    let mut bytes = vec![0x90u8; 3];
    bytes.extend_from_slice(&[0xe8, 0x10, 0, 0, 0, 0x48, 0x89, 0xe5, 0xc3]);
    let d = disassemble_program(build_program_from_binary(&bytes, None, None, Some("amd64".to_string())));
    if let InstructionListing::X86(v) = &d.section().instructions {
        for ins in v {
            let mut padded = vec![0x90u8; ins.offset()];
            padded.extend_from_slice(&bytes[ins.offset()..ins.offset() + ins.size()]);
            let again = disassemble_program(build_program_from_binary(&padded, None, None, Some("amd64".to_string())));
            if let InstructionListing::X86(w) = &again.section().instructions {
                let last = w.last().unwrap();
                assert_eq!((last.offset(), last.size(), last.print()), (ins.offset(), ins.size(), ins.print()));
            } else {
                panic!("expected an x86 listing");
            }
        }
    } else {
        panic!("expected an x86 listing");
    }
}

#[test]
fn symbols_in_a_section_have_distinct_names() {
    let p = baretk::prog::load_program_from_bytes(&[0x90]);
    assert!(p.get_symbols_in_section(0, 1).is_empty());
}
