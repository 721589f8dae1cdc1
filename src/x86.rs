//! x86 / x86-64: decoding of the common one-byte-opcode forms, printing in
//! Intel syntax, and lifting.

use vstd::prelude::*;
use crate::dis::{self, tiles, lemma_tiles_cons, DisassemblySection, InstructionListing};
use crate::ir::{
    Expr, ExprV, expr_binary, expr_call, expr_constant, expr_dereference, expr_group, expr_nop,
    expr_register, expr_ret, expr_special, expr_store, regs_within, views, OP_ADD, OP_AND, OP_CMP, OP_MUL, OP_OR,
    OP_SUB, OP_XOR,
};
use crate::prog::{Program, Section};
use crate::text::{dec, hex, hex_pad, sdec, push_dec, push_hex, push_sdec};
use crate::util::{le32, read_u32_from_slice, LITTLE_ENDIAN};

verus! {

pub const OPCODE_REX_W: u8 = 0x48;

pub const OPCODE_PUSH_REG: u8 = 0x50;

pub const OPCODE_POP_REG: u8 = 0x58;

pub const OPCODE_OP_BYTE_IMM: u8 = 0x80;

pub const OPCODE_OP_DWORD_IMM: u8 = 0x83;

pub const OPCODE_TEST_BYTE_STR: u8 = 0x84;

pub const OPCODE_TEST_DWORD_STR: u8 = 0x85;

pub const OPCODE_MOV_BYTE_STR: u8 = 0x88;

pub const OPCODE_MOV_DWORD_STR: u8 = 0x89;

pub const OPCODE_MOV_BYTE_LD: u8 = 0x8a;

pub const OPCODE_MOV_DWORD_LD: u8 = 0x8b;

pub const OPCODE_NOP: u8 = 0x90;

pub const OPCODE_MOV_REG_IMM8: u8 = 0xb0;

pub const OPCODE_MOV_REG_IMM: u8 = 0xb8;

pub const OPCODE_RET: u8 = 0xc3;

pub const OPCODE_CALL: u8 = 0xe8;

/// Prefix flag: a REX.W byte came before the opcode.
pub const PREFIX_REX_W: u8 = 1;

#[derive(Clone, Copy, PartialEq, Eq, Structural)]
pub enum Operation {
    Add,
    Adc,
    Sub,
    Sbb,
    And,
    Or,
    Xor,
    Cmp,
    Test,
    Mov,
    Nop,
    Push,
    Pop,
    Ret,
    Call,
    Unknown,
}

/// An operand. Memory operands carry their access size in bytes (1, 2, 4
/// or 8).
#[derive(Clone, Copy, PartialEq, Eq, Structural)]
pub enum Operand {
    Nothing,
    ImmU8(u8),
    ImmU32(u32),
    ImmS8(i8),
    /// An absolute branch target within the section.
    Target(i64),
    Reg8(u8),
    Reg8H(u8),
    Reg16(u8),
    Reg32(u8),
    Reg64(u8),
    /// `[reg + disp]`
    PtrReg(u8, u8, i32),
    /// `[base + index * scale]`
    PtrRegReg(u8, u8, u8, u8),
    /// `[rip + rel]`
    PtrRel(u8, u32),
}

/// The name of register `x` in column `slot` of the register table: 0 for
/// 8-bit, 1 for 16-bit, 2 for 32-bit, 3 for 64-bit, 4 for the legacy 8-bit
/// names (`ah`, `ch`, `dh`, `bh` in rows 4 to 7).
pub open spec fn reg_name(slot: u8, x: u8) -> Seq<char> {
    match x {
        0 => match slot {
            0 => "al"@,
            1 => "ax"@,
            2 => "eax"@,
            3 => "rax"@,
            _ => "al"@,
        },
        1 => match slot {
            0 => "cl"@,
            1 => "cx"@,
            2 => "ecx"@,
            3 => "rcx"@,
            _ => "cl"@,
        },
        2 => match slot {
            0 => "dl"@,
            1 => "dx"@,
            2 => "edx"@,
            3 => "rdx"@,
            _ => "dl"@,
        },
        3 => match slot {
            0 => "bl"@,
            1 => "bx"@,
            2 => "ebx"@,
            3 => "rbx"@,
            _ => "bl"@,
        },
        4 => match slot {
            0 => "spl"@,
            1 => "sp"@,
            2 => "esp"@,
            3 => "rsp"@,
            _ => "ah"@,
        },
        5 => match slot {
            0 => "bpl"@,
            1 => "bp"@,
            2 => "ebp"@,
            3 => "rbp"@,
            _ => "ch"@,
        },
        6 => match slot {
            0 => "sil"@,
            1 => "si"@,
            2 => "esi"@,
            3 => "rsi"@,
            _ => "dh"@,
        },
        7 => match slot {
            0 => "dil"@,
            1 => "di"@,
            2 => "edi"@,
            3 => "rdi"@,
            _ => "bh"@,
        },
        8 => match slot {
            0 => "r8l"@,
            1 => "r8w"@,
            2 => "r8d"@,
            3 => "r8"@,
            _ => "r8l"@,
        },
        9 => match slot {
            0 => "r9l"@,
            1 => "r9w"@,
            2 => "r9d"@,
            3 => "r9"@,
            _ => "r9l"@,
        },
        10 => match slot {
            0 => "r10l"@,
            1 => "r10w"@,
            2 => "r10d"@,
            3 => "r10"@,
            _ => "r10l"@,
        },
        11 => match slot {
            0 => "r11l"@,
            1 => "r11w"@,
            2 => "r11d"@,
            3 => "r11"@,
            _ => "r11l"@,
        },
        12 => match slot {
            0 => "r12l"@,
            1 => "r12w"@,
            2 => "r12d"@,
            3 => "r12"@,
            _ => "r12l"@,
        },
        13 => match slot {
            0 => "r13l"@,
            1 => "r13w"@,
            2 => "r13d"@,
            3 => "r13"@,
            _ => "r13l"@,
        },
        14 => match slot {
            0 => "r14l"@,
            1 => "r14w"@,
            2 => "r14d"@,
            3 => "r14"@,
            _ => "r14l"@,
        },
        15 => match slot {
            0 => "r15l"@,
            1 => "r15w"@,
            2 => "r15d"@,
            3 => "r15"@,
            _ => "r15l"@,
        },
        _ => "?"@,
    }
}

fn print_reg(slot: u8, x: u8) -> (s: &'static str)
    ensures
        s@ == reg_name(slot, x),
{
    match x {
        0 => match slot {
            0 => "al",
            1 => "ax",
            2 => "eax",
            3 => "rax",
            _ => "al",
        },
        1 => match slot {
            0 => "cl",
            1 => "cx",
            2 => "ecx",
            3 => "rcx",
            _ => "cl",
        },
        2 => match slot {
            0 => "dl",
            1 => "dx",
            2 => "edx",
            3 => "rdx",
            _ => "dl",
        },
        3 => match slot {
            0 => "bl",
            1 => "bx",
            2 => "ebx",
            3 => "rbx",
            _ => "bl",
        },
        4 => match slot {
            0 => "spl",
            1 => "sp",
            2 => "esp",
            3 => "rsp",
            _ => "ah",
        },
        5 => match slot {
            0 => "bpl",
            1 => "bp",
            2 => "ebp",
            3 => "rbp",
            _ => "ch",
        },
        6 => match slot {
            0 => "sil",
            1 => "si",
            2 => "esi",
            3 => "rsi",
            _ => "dh",
        },
        7 => match slot {
            0 => "dil",
            1 => "di",
            2 => "edi",
            3 => "rdi",
            _ => "bh",
        },
        8 => match slot {
            0 => "r8l",
            1 => "r8w",
            2 => "r8d",
            3 => "r8",
            _ => "r8l",
        },
        9 => match slot {
            0 => "r9l",
            1 => "r9w",
            2 => "r9d",
            3 => "r9",
            _ => "r9l",
        },
        10 => match slot {
            0 => "r10l",
            1 => "r10w",
            2 => "r10d",
            3 => "r10",
            _ => "r10l",
        },
        11 => match slot {
            0 => "r11l",
            1 => "r11w",
            2 => "r11d",
            3 => "r11",
            _ => "r11l",
        },
        12 => match slot {
            0 => "r12l",
            1 => "r12w",
            2 => "r12d",
            3 => "r12",
            _ => "r12l",
        },
        13 => match slot {
            0 => "r13l",
            1 => "r13w",
            2 => "r13d",
            3 => "r13",
            _ => "r13l",
        },
        14 => match slot {
            0 => "r14l",
            1 => "r14w",
            2 => "r14d",
            3 => "r14",
            _ => "r14l",
        },
        15 => match slot {
            0 => "r15l",
            1 => "r15w",
            2 => "r15d",
            3 => "r15",
            _ => "r15l",
        },
        _ => "?",
    }
}

/// The size keyword of a memory operand.
pub open spec fn size_word(size: u8) -> Seq<char> {
    if size == 1 {
        "BYTE"@
    } else if size == 2 {
        "WORD"@
    } else if size == 4 {
        "DWORD"@
    } else {
        "QWORD"@
    }
}

fn size_str(size: u8) -> (s: &'static str)
    ensures
        s@ == size_word(size),
{
    if size == 1 {
        "BYTE"
    } else if size == 2 {
        "WORD"
    } else if size == 4 {
        "DWORD"
    } else {
        "QWORD"
    }
}

/// Magnitude of a displacement.
pub open spec fn abs(d: int) -> nat {
    if d < 0 {
        (-d) as nat
    } else {
        d as nat
    }
}

/// The text of an operand.
pub open spec fn operand_text(o: Operand) -> Seq<char> {
    match o {
        Operand::ImmU8(x) => "0x"@ + hex(x as nat),
        Operand::ImmU32(x) => "0x"@ + hex(x as nat),
        Operand::ImmS8(x) => sdec(x as int),
        Operand::Target(t) => if t < 0 {
            "-0x"@ + hex(abs(t as int))
        } else {
            "0x"@ + hex(t as nat)
        },
        Operand::Reg8(x) => reg_name(0, x),
        Operand::Reg8H(x) => reg_name(4, x),
        Operand::Reg16(x) => reg_name(1, x),
        Operand::Reg32(x) => reg_name(2, x),
        Operand::Reg64(x) => reg_name(3, x),
        Operand::PtrReg(size, r, d) => if d == 0 {
            size_word(size) + " PTR ["@ + reg_name(3, r) + "]"@
        } else {
            size_word(size) + " PTR ["@ + reg_name(3, r) + (if d < 0 { "-"@ } else { "+"@ }) + "0x"@
                + hex_pad(abs(d as int), if size == 8 { 4 } else { 2 }) + "]"@
        },
        Operand::PtrRegReg(size, b, i, s) => if s == 1 {
            size_word(size) + " PTR ["@ + reg_name(3, b) + "+"@ + reg_name(3, i) + "]"@
        } else {
            size_word(size) + " PTR ["@ + reg_name(3, b) + "+"@ + reg_name(3, i) + "*"@ + dec(s as nat) + "]"@
        },
        Operand::PtrRel(size, rel) => size_word(size) + " PTR [rip+0x"@ + hex_pad(rel as nat, 8) + "]"@,
        Operand::Nothing => "???"@,
    }
}

/// The numeric value of an immediate operand.
pub open spec fn imm_value(o: Operand) -> int {
    match o {
        Operand::ImmU8(x) => x as int,
        Operand::ImmU32(x) => x as int,
        Operand::ImmS8(x) => x as int,
        Operand::Target(t) => t as int,
        _ => 0,
    }
}

pub open spec fn reg_v(slot: u8, x: u8) -> ExprV {
    ExprV::Register(reg_name(slot, x))
}

pub open spec fn bin_v(op: u8, l: ExprV, r: ExprV) -> ExprV {
    ExprV::Binary(op, Box::new(l), Box::new(r))
}

pub open spec fn store_v(d: ExprV, s: ExprV) -> ExprV {
    ExprV::Store(Box::new(d), Box::new(s))
}

pub open spec fn deref_v(size: u8, a: ExprV) -> ExprV {
    ExprV::Dereference(size, Box::new(a))
}

/// The IR of an operand: registers by name, immediates as constants, memory
/// operands as dereferences of their address.
pub open spec fn operand_expr(o: Operand) -> ExprV {
    match o {
        Operand::Reg8(x) => reg_v(0, x),
        Operand::Reg8H(x) => reg_v(4, x),
        Operand::Reg16(x) => reg_v(1, x),
        Operand::Reg32(x) => reg_v(2, x),
        Operand::Reg64(x) => reg_v(3, x),
        Operand::PtrReg(size, r, d) => if d == 0 {
            deref_v(size, reg_v(3, r))
        } else {
            deref_v(size, bin_v(OP_ADD, reg_v(3, r), ExprV::Constant(d as int)))
        },
        Operand::PtrRegReg(size, b, i, s) => if s == 1 {
            deref_v(size, bin_v(OP_ADD, reg_v(3, b), reg_v(3, i)))
        } else {
            deref_v(size, bin_v(OP_ADD, reg_v(3, b), bin_v(OP_MUL, reg_v(3, i), ExprV::Constant(s as int))))
        },
        Operand::PtrRel(size, rel) => deref_v(size, bin_v(OP_ADD, ExprV::Register("pc"@), ExprV::Constant(rel as int))),
        Operand::Nothing => ExprV::Nop,
        _ => ExprV::Constant(imm_value(o)),
    }
}

fn push_disp(s: &mut String, d: i32, width: usize)
    ensures
        final(s)@ == old(s)@ + (if d < 0 { "-"@ } else { "+"@ }) + "0x"@ + hex_pad(abs(d as int), width as nat),
{
    if d < 0 {
        s.append("-");
        s.append("0x");
        let m: u64 = (0 - (d as i64)) as u64;
        push_hex(s, m, width);
    } else {
        s.append("+");
        s.append("0x");
        push_hex(s, d as u64, width);
    }
}

impl Operand {
    pub fn print(self) -> (s: String)
        ensures
            s@ == operand_text(self),
    {
        let mut s = String::new();
        match self {
            Operand::ImmU8(x) => {
                s.append("0x");
                push_hex(&mut s, x as u64, 0);
            },
            Operand::ImmU32(x) => {
                s.append("0x");
                push_hex(&mut s, x as u64, 0);
            },
            Operand::ImmS8(x) => push_sdec(&mut s, x as i64),
            Operand::Target(t) => {
                if t < 0 {
                    s.append("-0x");
                    let m: u64 = if t == i64::MIN {
                        0x8000_0000_0000_0000u64
                    } else {
                        (-t) as u64
                    };
                    push_hex(&mut s, m, 0);
                } else {
                    s.append("0x");
                    push_hex(&mut s, t as u64, 0);
                }
            },
            Operand::Reg8(x) => s.append(print_reg(0, x)),
            Operand::Reg8H(x) => s.append(print_reg(4, x)),
            Operand::Reg16(x) => s.append(print_reg(1, x)),
            Operand::Reg32(x) => s.append(print_reg(2, x)),
            Operand::Reg64(x) => s.append(print_reg(3, x)),
            Operand::PtrReg(size, r, d) => {
                s.append(size_str(size));
                s.append(" PTR [");
                s.append(print_reg(3, r));
                if d != 0 {
                    push_disp(&mut s, d, if size == 8 { 4 } else { 2 });
                }
                s.append("]");
            },
            Operand::PtrRegReg(size, b, i, k) => {
                s.append(size_str(size));
                s.append(" PTR [");
                s.append(print_reg(3, b));
                s.append("+");
                s.append(print_reg(3, i));
                if k != 1 {
                    s.append("*");
                    push_dec(&mut s, k as u64);
                }
                s.append("]");
            },
            Operand::PtrRel(size, rel) => {
                s.append(size_str(size));
                s.append(" PTR [rip+0x");
                push_hex(&mut s, rel as u64, 8);
                s.append("]");
            },
            Operand::Nothing => s.append("???"),
        }
        proof {
            reveal_strlit("0x");
            reveal_strlit("-0x");
            reveal_strlit("-");
        }
        s
    }

    pub fn into_expr(&self) -> (e: Box<Expr>)
        ensures
            e@ == operand_expr(*self),
    {
        match *self {
            Operand::Reg8(x) => expr_register(String::from_str(print_reg(0, x))),
            Operand::Reg8H(x) => expr_register(String::from_str(print_reg(4, x))),
            Operand::Reg16(x) => expr_register(String::from_str(print_reg(1, x))),
            Operand::Reg32(x) => expr_register(String::from_str(print_reg(2, x))),
            Operand::Reg64(x) => expr_register(String::from_str(print_reg(3, x))),
            Operand::PtrReg(size, r, d) => {
                let base = expr_register(String::from_str(print_reg(3, r)));
                if d == 0 {
                    expr_dereference(size, base)
                } else {
                    expr_dereference(size, expr_binary(OP_ADD, base, expr_constant(d as i64)))
                }
            },
            Operand::PtrRegReg(size, b, i, k) => {
                let base = expr_register(String::from_str(print_reg(3, b)));
                let index = expr_register(String::from_str(print_reg(3, i)));
                if k == 1 {
                    expr_dereference(size, expr_binary(OP_ADD, base, index))
                } else {
                    expr_dereference(
                        size,
                        expr_binary(OP_ADD, base, expr_binary(OP_MUL, index, expr_constant(k as i64))),
                    )
                }
            },
            Operand::PtrRel(size, rel) => expr_dereference(
                size,
                expr_binary(OP_ADD, expr_register(String::from_str("pc")), expr_constant(rel as i64)),
            ),
            Operand::Nothing => expr_nop(),
            Operand::ImmU8(x) => expr_constant(x as i64),
            Operand::ImmU32(x) => expr_constant(x as i64),
            Operand::ImmS8(x) => expr_constant(x as i64),
            Operand::Target(t) => expr_constant(t),
        }
    }
}

/// One decoded instruction; `offset` is its position in the section and
/// `ins_size` counts every byte it takes, prefixes included.
#[derive(Clone, Copy, PartialEq, Eq, Structural)]
pub struct Instruction {
    pub operation: Operation,
    pub reg1: Operand,
    pub reg2: Operand,
    pub offset: usize,
    pub ins_size: usize,
}

pub open spec fn mnemonic(op: Operation) -> Seq<char> {
    match op {
        Operation::Add => "add"@,
        Operation::Adc => "adc"@,
        Operation::Sub => "sub"@,
        Operation::Sbb => "sbb"@,
        Operation::And => "and"@,
        Operation::Or => "or"@,
        Operation::Xor => "xor"@,
        Operation::Cmp => "cmp"@,
        Operation::Test => "test"@,
        Operation::Mov => "mov"@,
        Operation::Nop => "nop"@,
        Operation::Push => "push"@,
        Operation::Pop => "pop"@,
        Operation::Ret => "ret"@,
        Operation::Call => "call"@,
        Operation::Unknown => "(bad)"@,
    }
}

fn mnemonic_str(op: Operation) -> (s: &'static str)
    ensures
        s@ == mnemonic(op),
{
    match op {
        Operation::Add => "add",
        Operation::Adc => "adc",
        Operation::Sub => "sub",
        Operation::Sbb => "sbb",
        Operation::And => "and",
        Operation::Or => "or",
        Operation::Xor => "xor",
        Operation::Cmp => "cmp",
        Operation::Test => "test",
        Operation::Mov => "mov",
        Operation::Nop => "nop",
        Operation::Push => "push",
        Operation::Pop => "pop",
        Operation::Ret => "ret",
        Operation::Call => "call",
        Operation::Unknown => "(bad)",
    }
}

/// Number of operands that an operation prints.
pub open spec fn arity(op: Operation) -> int {
    match op {
        Operation::Nop | Operation::Ret | Operation::Unknown => 0,
        Operation::Push | Operation::Pop | Operation::Call => 1,
        _ => 2,
    }
}

/// The assembly text of an instruction.
pub open spec fn ins_text(i: Instruction) -> Seq<char> {
    if arity(i.operation) == 0 {
        mnemonic(i.operation)
    } else if arity(i.operation) == 1 {
        mnemonic(i.operation) + " "@ + operand_text(i.reg1)
    } else {
        mnemonic(i.operation) + " "@ + operand_text(i.reg1) + ", "@ + operand_text(i.reg2)
    }
}

/// The IR operator of an arithmetic operation that writes its destination.
pub open spec fn alu_op(op: Operation) -> Option<u8> {
    match op {
        Operation::Add => Some(OP_ADD),
        Operation::Sub => Some(OP_SUB),
        Operation::And => Some(OP_AND),
        Operation::Or => Some(OP_OR),
        Operation::Xor => Some(OP_XOR),
        _ => None,
    }
}

pub open spec fn rsp_v() -> ExprV {
    reg_v(3, 4)
}

/// The IR of one instruction. Operations with no lowering become `Nop`.
pub open spec fn lift(i: Instruction) -> ExprV {
    let a = operand_expr(i.reg1);
    let b = operand_expr(i.reg2);
    match i.operation {
        Operation::Mov => store_v(a, b),
        Operation::Add | Operation::Sub | Operation::And | Operation::Or | Operation::Xor => store_v(
            a,
            bin_v(alu_op(i.operation)->Some_0, a, b),
        ),
        Operation::Cmp => bin_v(OP_CMP, a, b),
        Operation::Test => ExprV::Special("test"@, seq![a, b]),
        Operation::Push => ExprV::Group(
            seq![
                store_v(rsp_v(), bin_v(OP_SUB, rsp_v(), ExprV::Constant(8))),
                store_v(deref_v(8, rsp_v()), a),
            ],
        ),
        Operation::Pop => ExprV::Group(
            seq![
                store_v(a, deref_v(8, rsp_v())),
                store_v(rsp_v(), bin_v(OP_ADD, rsp_v(), ExprV::Constant(8))),
            ],
        ),
        Operation::Call => ExprV::Call(Box::new(a)),
        Operation::Ret => ExprV::Return,
        _ => ExprV::Nop,
    }
}

fn rsp() -> (e: Box<Expr>)
    ensures
        e@ == rsp_v(),
{
    expr_register(String::from_str(print_reg(3, 4)))
}

impl Instruction {
    pub fn print(self) -> (s: String)
        ensures
            s@ == ins_text(self),
    {
        let mut s = String::from_str(mnemonic_str(self.operation));
        match self.operation {
            Operation::Nop | Operation::Ret | Operation::Unknown => {},
            Operation::Push | Operation::Pop | Operation::Call => {
                s.append(" ");
                s.append(self.reg1.print().as_str());
            },
            _ => {
                s.append(" ");
                s.append(self.reg1.print().as_str());
                s.append(", ");
                s.append(self.reg2.print().as_str());
            },
        }
        s
    }

    pub fn offset(self) -> (r: usize)
        ensures
            r == self.offset,
    {
        self.offset
    }

    pub fn size(self) -> (r: usize)
        ensures
            r == self.ins_size,
    {
        self.ins_size
    }

    pub fn into_expr(&self) -> (e: Box<Expr>)
        ensures
            e@ == lift(*self),
    {
        match self.operation {
            Operation::Mov => expr_store(self.reg1.into_expr(), self.reg2.into_expr()),
            Operation::Add | Operation::Sub | Operation::And | Operation::Or | Operation::Xor => {
                let op = match self.operation {
                    Operation::Add => OP_ADD,
                    Operation::Sub => OP_SUB,
                    Operation::And => OP_AND,
                    Operation::Or => OP_OR,
                    _ => OP_XOR,
                };
                expr_store(self.reg1.into_expr(), expr_binary(op, self.reg1.into_expr(), self.reg2.into_expr()))
            },
            Operation::Cmp => expr_binary(OP_CMP, self.reg1.into_expr(), self.reg2.into_expr()),
            Operation::Test => {
                let args = vec![self.reg1.into_expr(), self.reg2.into_expr()];
                let e = expr_special("test", args);
                assert(views(args@) =~= seq![operand_expr(self.reg1), operand_expr(self.reg2)]);
                e
            },
            Operation::Push => {
                let g = vec![
                    expr_store(rsp(), expr_binary(OP_SUB, rsp(), expr_constant(8))),
                    expr_store(expr_dereference(8, rsp()), self.reg1.into_expr()),
                ];
                let e = expr_group(g);
                assert(views(g@) =~= seq![
                    store_v(rsp_v(), bin_v(OP_SUB, rsp_v(), ExprV::Constant(8))),
                    store_v(deref_v(8, rsp_v()), operand_expr(self.reg1)),
                ]);
                e
            },
            Operation::Pop => {
                let g = vec![
                    expr_store(self.reg1.into_expr(), expr_dereference(8, rsp())),
                    expr_store(rsp(), expr_binary(OP_ADD, rsp(), expr_constant(8))),
                ];
                let e = expr_group(g);
                assert(views(g@) =~= seq![
                    store_v(operand_expr(self.reg1), deref_v(8, rsp_v())),
                    store_v(rsp_v(), bin_v(OP_ADD, rsp_v(), ExprV::Constant(8))),
                ]);
                e
            },
            Operation::Call => expr_call(self.reg1.into_expr()),
            Operation::Ret => expr_ret(),
            _ => expr_nop(),
        }
    }
}

// ---- decoding ----

/// ModR/M `mod` field.
pub open spec fn md(x: u8) -> u8 {
    x >> 6u8
}

/// ModR/M `reg` field (also the SIB index).
pub open spec fn mid(x: u8) -> u8 {
    (x >> 3u8) & 7u8
}

/// ModR/M `r/m` field (also the SIB base).
pub open spec fn low(x: u8) -> u8 {
    x & 7u8
}

/// A byte read as a signed value.
pub open spec fn s8(x: u8) -> i8 {
    if x >= 128 {
        (x as int - 256) as i8
    } else {
        x as i8
    }
}

/// The register operand of `size` bytes for register number `r`.
pub open spec fn regop(size: u8, r: u8) -> Operand {
    if size == 1 {
        Operand::Reg8H(r)
    } else if size == 2 {
        Operand::Reg16(r)
    } else if size == 4 {
        Operand::Reg32(r)
    } else {
        Operand::Reg64(r)
    }
}

/// The operation of arithmetic group `k` (ADD, OR, ADC, SBB, AND, SUB, XOR,
/// CMP), as selected by opcode bits 5..3 or by the ModR/M `reg` field.
pub open spec fn group_op(k: u8) -> Operation {
    if k == 0 {
        Operation::Add
    } else if k == 1 {
        Operation::Or
    } else if k == 2 {
        Operation::Adc
    } else if k == 3 {
        Operation::Sbb
    } else if k == 4 {
        Operation::And
    } else if k == 5 {
        Operation::Sub
    } else if k == 6 {
        Operation::Xor
    } else {
        Operation::Cmp
    }
}

/// Operand size of the forms that REX.W widens.
pub open spec fn rex_size(prefix: u8) -> u8 {
    if prefix & PREFIX_REX_W != 0 {
        8
    } else {
        4
    }
}

pub open spec fn ins(op: Operation, a: Operand, b: Operand, off: int, n: u8) -> Instruction {
    Instruction { operation: op, reg1: a, reg2: b, offset: off as usize, ins_size: n as usize }
}

/// A two-operand form: the r/m operand is the destination unless `swap`.
pub open spec fn pair(op: Operation, rm: Operand, reg: Operand, swap: bool, off: int, n: u8) -> Instruction {
    if swap {
        ins(op, reg, rm, off, n)
    } else {
        ins(op, rm, reg, off, n)
    }
}

/// An r/m form: opcode at `off`, ModR/M byte after it.
pub open spec fn decode_op_op(op: Operation, b: Seq<u8>, off: int, size: u8, swap: bool) -> Option<Instruction> {
    if off + 1 >= b.len() {
        None
    } else {
        let x = b[off + 1];
        let reg = regop(size, mid(x));
        if md(x) == 0 {
            if low(x) == 4 {
                if off + 2 >= b.len() {
                    None
                } else {
                    let y = b[off + 2];
                    Some(pair(op, Operand::PtrRegReg(size, low(y), mid(y), 1u8 << md(y)), reg, swap, off, 3))
                }
            } else if low(x) == 5 {
                if off + 5 >= b.len() {
                    None
                } else {
                    Some(pair(op, Operand::PtrRel(size, le32(b, off + 2) as u32), reg, swap, off, 6))
                }
            } else {
                Some(pair(op, Operand::PtrReg(size, low(x), 0), reg, swap, off, 2))
            }
        } else if md(x) == 1 {
            if off + 2 >= b.len() {
                None
            } else {
                Some(pair(op, Operand::PtrReg(size, low(x), s8(b[off + 2]) as i32), reg, swap, off, 3))
            }
        } else if md(x) == 3 {
            Some(pair(op, regop(size, low(x)), reg, swap, off, 2))
        } else {
            None
        }
    }
}

/// `op al, imm8`
pub open spec fn decode_al_imm8(op: Operation, b: Seq<u8>, off: int) -> Option<Instruction> {
    if off + 1 >= b.len() {
        None
    } else {
        Some(ins(op, Operand::Reg8(0), Operand::ImmU8(b[off + 1]), off, 2))
    }
}

/// `op r, imm8`, the operation chosen by the ModR/M `reg` field.
pub open spec fn decode_op_imm(b: Seq<u8>, off: int, size: u8) -> Option<Instruction> {
    if off + 1 >= b.len() {
        None
    } else {
        let x = b[off + 1];
        if md(x) == 3 && off + 2 < b.len() {
            Some(ins(group_op(mid(x)), regop(size, low(x)), Operand::ImmS8(s8(b[off + 2])), off, 3))
        } else {
            None
        }
    }
}

/// The absolute target of a `call rel32` at `off`, if it fits in 64 bits.
pub open spec fn call_target(b: Seq<u8>, off: int) -> int {
    off + 5 + (le32(b, off + 1) as u32 as i32) as int
}

/// Decoding of the instruction whose opcode byte is at `off` (no prefix).
pub open spec fn decode_op(b: Seq<u8>, off: int, prefix: u8) -> Option<Instruction> {
    let opc = b[off];
    if opc < 0x40 && opc & 7u8 <= 4 {
        let op = group_op(opc >> 3u8);
        let form = opc & 7u8;
        if form == 0 {
            decode_op_op(op, b, off, 1, false)
        } else if form == 1 {
            decode_op_op(op, b, off, 4, false)
        } else if form == 2 {
            decode_op_op(op, b, off, 1, true)
        } else if form == 3 {
            decode_op_op(op, b, off, 4, true)
        } else {
            decode_al_imm8(op, b, off)
        }
    } else if OPCODE_PUSH_REG <= opc < OPCODE_POP_REG {
        Some(ins(Operation::Push, Operand::Reg64((opc - OPCODE_PUSH_REG) as u8), Operand::Nothing, off, 1))
    } else if OPCODE_POP_REG <= opc < 0x60 {
        Some(ins(Operation::Pop, Operand::Reg64((opc - OPCODE_POP_REG) as u8), Operand::Nothing, off, 1))
    } else if opc == OPCODE_OP_BYTE_IMM {
        decode_op_imm(b, off, 1)
    } else if opc == OPCODE_OP_DWORD_IMM {
        decode_op_imm(b, off, rex_size(prefix))
    } else if opc == OPCODE_TEST_BYTE_STR {
        decode_op_op(Operation::Test, b, off, 1, false)
    } else if opc == OPCODE_TEST_DWORD_STR {
        decode_op_op(Operation::Test, b, off, rex_size(prefix), false)
    } else if opc == OPCODE_MOV_BYTE_STR {
        decode_op_op(Operation::Mov, b, off, 1, false)
    } else if opc == OPCODE_MOV_DWORD_STR {
        decode_op_op(Operation::Mov, b, off, rex_size(prefix), false)
    } else if opc == OPCODE_MOV_BYTE_LD {
        decode_op_op(Operation::Mov, b, off, 1, true)
    } else if opc == OPCODE_MOV_DWORD_LD {
        decode_op_op(Operation::Mov, b, off, rex_size(prefix), true)
    } else if opc == OPCODE_NOP {
        Some(ins(Operation::Nop, Operand::Nothing, Operand::Nothing, off, 1))
    } else if OPCODE_MOV_REG_IMM8 <= opc < OPCODE_MOV_REG_IMM {
        if off + 1 >= b.len() {
            None
        } else {
            Some(ins(Operation::Mov, Operand::Reg8((opc - OPCODE_MOV_REG_IMM8) as u8), Operand::ImmU8(b[off + 1]), off, 2))
        }
    } else if OPCODE_MOV_REG_IMM <= opc < 0xc0 {
        if off + 4 >= b.len() {
            None
        } else {
            Some(ins(Operation::Mov, Operand::Reg32((opc - OPCODE_MOV_REG_IMM) as u8), Operand::ImmU32(le32(b, off + 1) as u32), off, 5))
        }
    } else if opc == OPCODE_RET {
        Some(ins(Operation::Ret, Operand::Nothing, Operand::Nothing, off, 1))
    } else if opc == OPCODE_CALL {
        if off + 4 >= b.len() || call_target(b, off) > i64::MAX {
            None
        } else {
            Some(ins(Operation::Call, Operand::Target(call_target(b, off) as i64), Operand::Nothing, off, 5))
        }
    } else {
        None
    }
}

/// Number of consecutive REX.W bytes (`0x48`) from `off`.
pub open spec fn rex_run(b: Seq<u8>, off: int) -> nat
    decreases b.len() - off,
{
    if 0 <= off < b.len() && b[off] == OPCODE_REX_W {
        1 + rex_run(b, off + 1)
    } else {
        0
    }
}

/// Decoding at `off`. Each REX.W byte (`0x48`) decodes what follows it with
/// the REX.W flag set, and is counted in the size of the result, whose
/// offset is that of the first prefix.
pub open spec fn decode(b: Seq<u8>, off: int, prefix: u8) -> Option<Instruction> {
    let r = rex_run(b, off);
    if off < 0 || off >= b.len() {
        None
    } else if r == 0 {
        decode_op(b, off, prefix)
    } else if off + r >= b.len() {
        None
    } else {
        match decode_op(b, off + r, prefix | PREFIX_REX_W) {
            Some(i) => Some(Instruction { offset: off as usize, ins_size: (i.ins_size + r) as usize, ..i }),
            None => None,
        }
    }
}

fn to_s8(x: u8) -> (r: i8)
    ensures
        r == s8(x),
{
    if x >= 128 {
        (x as i32 - 256) as i8
    } else {
        x as i8
    }
}

fn reg_operand(size: u8, r: u8) -> (o: Operand)
    ensures
        o == regop(size, r),
{
    if size == 1 {
        Operand::Reg8H(r)
    } else if size == 2 {
        Operand::Reg16(r)
    } else if size == 4 {
        Operand::Reg32(r)
    } else {
        Operand::Reg64(r)
    }
}

fn group_operation(k: u8) -> (op: Operation)
    ensures
        op == group_op(k),
{
    match k {
        0 => Operation::Add,
        1 => Operation::Or,
        2 => Operation::Adc,
        3 => Operation::Sbb,
        4 => Operation::And,
        5 => Operation::Sub,
        6 => Operation::Xor,
        _ => Operation::Cmp,
    }
}

fn ins_dest_src(foffset: usize, ins_size: u8, operation: Operation, dest: Operand, source: Operand) -> (r: Instruction)
    ensures
        r == ins(operation, dest, source, foffset as int, ins_size),
{
    Instruction { operation, reg1: dest, reg2: source, offset: foffset, ins_size: ins_size as usize }
}

fn ins_pair(op: Operation, rm: Operand, reg: Operand, swap: bool, off: usize, n: u8) -> (r: Instruction)
    ensures
        r == pair(op, rm, reg, swap, off as int, n),
{
    if swap {
        ins_dest_src(off, n, op, reg, rm)
    } else {
        ins_dest_src(off, n, op, rm, reg)
    }
}

fn disassemble_x86_op_op(operation: Operation, bytes: &[u8], offset: usize, op_size: u8, swap_operands: bool) -> (r: Option<Instruction>)
    requires
        offset < bytes@.len(),
    ensures
        r == decode_op_op(operation, bytes@, offset as int, op_size, swap_operands),
{
    let len = bytes.len();
    if len - offset <= 1 {
        return None;
    }
    let x = bytes[offset + 1];
    let reg = reg_operand(op_size, (x >> 3u8) & 7u8);
    let md = x >> 6u8;
    let rm = x & 7u8;
    if md == 0 {
        if rm == 4 {
            if len - offset <= 2 {
                return None;
            }
            let y = bytes[offset + 2];
            assert(y >> 6u8 < 8) by (bit_vector);
            let mem = Operand::PtrRegReg(op_size, y & 7u8, (y >> 3u8) & 7u8, 1u8 << (y >> 6u8));
            Some(ins_pair(operation, mem, reg, swap_operands, offset, 3))
        } else if rm == 5 {
            if len - offset <= 5 {
                return None;
            }
            let rel = read_u32_from_slice(bytes, offset + 2, LITTLE_ENDIAN);
            Some(ins_pair(operation, Operand::PtrRel(op_size, rel), reg, swap_operands, offset, 6))
        } else {
            Some(ins_pair(operation, Operand::PtrReg(op_size, rm, 0), reg, swap_operands, offset, 2))
        }
    } else if md == 1 {
        if len - offset <= 2 {
            return None;
        }
        let d = to_s8(bytes[offset + 2]) as i32;
        Some(ins_pair(operation, Operand::PtrReg(op_size, rm, d), reg, swap_operands, offset, 3))
    } else if md == 3 {
        Some(ins_pair(operation, reg_operand(op_size, rm), reg, swap_operands, offset, 2))
    } else {
        None
    }
}

fn disassemble_x86_al_imm8(operation: Operation, bytes: &[u8], offset: usize) -> (r: Option<Instruction>)
    requires
        offset < bytes@.len(),
    ensures
        r == decode_al_imm8(operation, bytes@, offset as int),
{
    if bytes.len() - offset <= 1 {
        return None;
    }
    let imm = bytes[offset + 1];
    Some(ins_dest_src(offset, 2, operation, Operand::Reg8(0), Operand::ImmU8(imm)))
}

fn disassemble_x86_op_imm(bytes: &[u8], offset: usize, op_size: u8) -> (r: Option<Instruction>)
    requires
        offset < bytes@.len(),
    ensures
        r == decode_op_imm(bytes@, offset as int, op_size),
{
    if bytes.len() - offset <= 1 {
        return None;
    }
    let x = bytes[offset + 1];
    let operation = group_operation((x >> 3u8) & 7u8);
    if (x >> 6u8) == 3 && bytes.len() - offset > 2 {
        let source = to_s8(bytes[offset + 2]);
        return Some(ins_dest_src(offset, 3, operation, reg_operand(op_size, x & 7u8), Operand::ImmS8(source)));
    }
    None
}

fn disassemble_x86_push_pop(operation: Operation, bytes: &[u8], offset: usize, base: u8) -> (r: Option<Instruction>)
    requires
        offset < bytes@.len(),
        base <= bytes@[offset as int] < base + 8,
    ensures
        r == Some(ins(operation, Operand::Reg64((bytes@[offset as int] - base) as u8), Operand::Nothing, offset as int, 1)),
{
    let reg = bytes[offset] - base;
    Some(ins_dest_src(offset, 1, operation, Operand::Reg64(reg), Operand::Nothing))
}

fn disassemble_x86_call(bytes: &[u8], offset: usize) -> (r: Option<Instruction>)
    requires
        offset < bytes@.len(),
    ensures
        r == (if offset + 4 >= bytes@.len() || call_target(bytes@, offset as int) > i64::MAX {
            None
        } else {
            Some(ins(Operation::Call, Operand::Target(call_target(bytes@, offset as int) as i64), Operand::Nothing, offset as int, 5))
        }),
{
    if bytes.len() - offset <= 4 {
        return None;
    }
    let disp = read_u32_from_slice(bytes, offset + 1, LITTLE_ENDIAN) as i32;
    let t: i128 = offset as i128 + 5 + disp as i128;
    if t > i64::MAX as i128 {
        return None;
    }
    Some(ins_dest_src(offset, 5, Operation::Call, Operand::Target(t as i64), Operand::Nothing))
}

fn disassemble_x86_mov_imm(bytes: &[u8], offset: usize, op_size: u8) -> (r: Option<Instruction>)
    requires
        offset < bytes@.len(),
        op_size == 1 ==> OPCODE_MOV_REG_IMM8 <= bytes@[offset as int] < OPCODE_MOV_REG_IMM,
        op_size != 1 ==> OPCODE_MOV_REG_IMM <= bytes@[offset as int] < 0xc0,
    ensures
        r == decode_op(bytes@, offset as int, 0),
{
    let opc = bytes[offset];
    if op_size == 1 {
        if bytes.len() - offset <= 1 {
            return None;
        }
        Some(ins_dest_src(offset, 2, Operation::Mov, Operand::Reg8(opc - OPCODE_MOV_REG_IMM8), Operand::ImmU8(bytes[offset + 1])))
    } else {
        if bytes.len() - offset <= 4 {
            return None;
        }
        let imm = read_u32_from_slice(bytes, offset + 1, LITTLE_ENDIAN);
        Some(ins_dest_src(offset, 5, Operation::Mov, Operand::Reg32(opc - OPCODE_MOV_REG_IMM), Operand::ImmU32(imm)))
    }
}

fn rex_w_qword_or_dword(prefix: u8) -> (r: u8)
    ensures
        r == rex_size(prefix),
{
    if (prefix & PREFIX_REX_W) != 0 {
        8
    } else {
        4
    }
}

fn disassemble_x86_opcode(bytes: &[u8], offset: usize, prefix: u8) -> (r: Option<Instruction>)
    requires
        offset < bytes@.len(),
    ensures
        r == decode_op(bytes@, offset as int, prefix),
{
    let opcode = bytes[offset];
    if opcode < 0x40 && (opcode & 7u8) <= 4 {
        let op = group_operation(opcode >> 3u8);
        match opcode & 7u8 {
            0 => disassemble_x86_op_op(op, bytes, offset, 1, false),
            1 => disassemble_x86_op_op(op, bytes, offset, 4, false),
            2 => disassemble_x86_op_op(op, bytes, offset, 1, true),
            3 => disassemble_x86_op_op(op, bytes, offset, 4, true),
            _ => disassemble_x86_al_imm8(op, bytes, offset),
        }
    } else if OPCODE_PUSH_REG <= opcode && opcode < OPCODE_POP_REG {
        disassemble_x86_push_pop(Operation::Push, bytes, offset, OPCODE_PUSH_REG)
    } else if OPCODE_POP_REG <= opcode && opcode < 0x60 {
        disassemble_x86_push_pop(Operation::Pop, bytes, offset, OPCODE_POP_REG)
    } else if OPCODE_MOV_REG_IMM8 <= opcode && opcode < OPCODE_MOV_REG_IMM {
        disassemble_x86_mov_imm(bytes, offset, 1)
    } else if OPCODE_MOV_REG_IMM <= opcode && opcode < 0xc0 {
        disassemble_x86_mov_imm(bytes, offset, 4)
    } else {
        match opcode {
            OPCODE_OP_BYTE_IMM => disassemble_x86_op_imm(bytes, offset, 1),
            OPCODE_OP_DWORD_IMM => disassemble_x86_op_imm(bytes, offset, rex_w_qword_or_dword(prefix)),
            OPCODE_TEST_BYTE_STR => disassemble_x86_op_op(Operation::Test, bytes, offset, 1, false),
            OPCODE_TEST_DWORD_STR => disassemble_x86_op_op(Operation::Test, bytes, offset, rex_w_qword_or_dword(prefix), false),
            OPCODE_MOV_BYTE_STR => disassemble_x86_op_op(Operation::Mov, bytes, offset, 1, false),
            OPCODE_MOV_DWORD_STR => disassemble_x86_op_op(Operation::Mov, bytes, offset, rex_w_qword_or_dword(prefix), false),
            OPCODE_MOV_BYTE_LD => disassemble_x86_op_op(Operation::Mov, bytes, offset, 1, true),
            OPCODE_MOV_DWORD_LD => disassemble_x86_op_op(Operation::Mov, bytes, offset, rex_w_qword_or_dword(prefix), true),
            OPCODE_NOP => Some(ins_dest_src(offset, 1, Operation::Nop, Operand::Nothing, Operand::Nothing)),
            OPCODE_RET => Some(ins_dest_src(offset, 1, Operation::Ret, Operand::Nothing, Operand::Nothing)),
            OPCODE_CALL => disassemble_x86_call(bytes, offset),
            _ => None,
        }
    }
}

/// Decodes the instruction at `offset`, following REX.W prefixes.
fn disassemble_x86_instruction(bytes: &[u8], offset: usize, prefix: u8) -> (r: Option<Instruction>)
    ensures
        r == decode(bytes@, offset as int, prefix),
{
    let len = bytes.len();
    if offset >= len {
        return None;
    }
    let mut r: usize = 0;
    while r < len - offset && bytes[offset + r] == OPCODE_REX_W
        invariant
            offset < len,
            len == bytes@.len(),
            r <= len - offset,
            rex_run(bytes@, offset as int) == r + rex_run(bytes@, offset + r),
        decreases len - offset - r,
    {
        r = r + 1;
    }
    if r == 0 {
        return disassemble_x86_opcode(bytes, offset, prefix);
    }
    if r >= len - offset {
        return None;
    }
    assert(rex_run(bytes@, offset as int) == r);
    match disassemble_x86_opcode(bytes, offset + r, prefix | PREFIX_REX_W) {
        Some(i) => {
            proof {
                lemma_decode_op_bounds(bytes@, offset + r, prefix | PREFIX_REX_W);
            }
            Some(Instruction { offset, ins_size: i.ins_size + r, ..i })
        },
        None => None,
    }
}

/// An instruction decoded from its opcode byte starts there, is 1 to 6
/// bytes long, and lies within `b`.
pub proof fn lemma_decode_op_bounds(b: Seq<u8>, off: int, prefix: u8)
    requires
        0 <= off < b.len(),
        decode_op(b, off, prefix) is Some,
    ensures
        ({
            let i = decode_op(b, off, prefix)->Some_0;
            i.offset == off as usize && 1 <= i.ins_size <= 6 && off + i.ins_size <= b.len()
        }),
{
}

/// A decoded instruction starts at `off`, takes its prefixes and at most
/// six more bytes, and lies within `b`.
pub proof fn lemma_decode_bounds(b: Seq<u8>, off: int, prefix: u8)
    requires
        decode(b, off, prefix) is Some,
        b.len() <= usize::MAX,
    ensures
        ({
            let i = decode(b, off, prefix)->Some_0;
            i.offset == off as usize && 1 <= i.ins_size <= rex_run(b, off) + 6 && off + i.ins_size <= b.len()
                && rex_run(b, off) < i.ins_size
        }),
{
    let r = rex_run(b, off) as int;
    if r == 0 {
        lemma_decode_op_bounds(b, off, prefix);
    } else {
        lemma_decode_op_bounds(b, off + r, prefix | PREFIX_REX_W);
    }
}

/// A REX.W byte decodes what follows it with the REX.W flag set, one byte
/// longer and at the prefix's offset.
pub proof fn lemma_rex_prefix(b: Seq<u8>, off: int, p: u8)
    requires
        0 <= off < b.len(),
        b[off] == OPCODE_REX_W,
        b.len() <= usize::MAX,
    ensures
        decode(b, off, p) == match decode(b, off + 1, p | PREFIX_REX_W) {
            Some(j) => Some(Instruction { offset: off as usize, ins_size: (j.ins_size + 1) as usize, ..j }),
            None => None,
        },
{
    let p1 = p | PREFIX_REX_W;
    assert(p1 | PREFIX_REX_W == p1) by (bit_vector)
        requires
            p1 == p | 1u8,
    ;
    assert(rex_run(b, off) == 1 + rex_run(b, off + 1));
    let r = rex_run(b, off) as int;
    if off + r < b.len() {
        if decode_op(b, off + r, p1) is Some {
            lemma_decode_op_bounds(b, off + r, p1);
        }
    }
}

// ---- driver ----

/// An undecodable byte at `off`.
pub open spec fn unknown(off: int) -> Instruction {
    ins(Operation::Unknown, Operand::Nothing, Operand::Nothing, off, 1)
}

/// The instruction that the driver records at `off`.
#[verifier::opaque]
pub open spec fn step(b: Seq<u8>, off: int) -> Instruction {
    match decode(b, off, 0) {
        Some(i) => i,
        None => unknown(off),
    }
}

/// The instructions of `b` from `off` to its end.
pub open spec fn listing(b: Seq<u8>, off: int) -> Seq<Instruction>
    decreases b.len() - off,
{
    if off < 0 || off >= b.len() || step(b, off).ins_size == 0 || off + step(b, off).ins_size > b.len() {
        Seq::empty()
    } else {
        seq![step(b, off)] + listing(b, off + step(b, off).ins_size)
    }
}

/// Offsets and sizes of a list of instructions.
pub open spec fn spans(s: Seq<Instruction>) -> Seq<(int, int)> {
    Seq::new(s.len(), |i: int| (s[i].offset as int, s[i].ins_size as int))
}

proof fn lemma_step(b: Seq<u8>, off: int)
    requires
        0 <= off < b.len(),
        b.len() <= usize::MAX,
    ensures
        step(b, off).offset == off,
        1 <= step(b, off).ins_size,
        off + step(b, off).ins_size <= b.len(),
{
    reveal(step);
    if decode(b, off, 0) is Some {
        lemma_decode_bounds(b, off, 0);
    }
}

/// The listing of `b` from `off` covers `[off, b.len())` without gap.
pub proof fn lemma_listing_tiles(b: Seq<u8>, off: int)
    requires
        0 <= off <= b.len(),
        b.len() <= usize::MAX,
    ensures
        tiles(spans(listing(b, off)), off, b.len() as int),
    decreases b.len() - off,
{
    if off >= b.len() {
        assert(spans(listing(b, off)) =~= Seq::<(int, int)>::empty());
    } else {
        lemma_step(b, off);
        let n = step(b, off).ins_size as int;
        lemma_listing_tiles(b, off + n);
        let rest = spans(listing(b, off + n));
        assert(spans(listing(b, off)) =~= seq![(off, n)] + rest);
        lemma_tiles_cons((off, n), rest, off + n, b.len() as int);
    }
}

/// Decodes a whole byte range; an undecodable byte becomes a one-byte
/// `Unknown` entry.
pub fn decode_all(bytes: &[u8]) -> (r: Vec<Instruction>)
    ensures
        r@ == listing(bytes@, 0),
        tiles(spans(r@), 0, bytes@.len() as int),
{
    let mut instrs: Vec<Instruction> = Vec::new();
    let mut offset: usize = 0;
    let len = bytes.len();
    while offset < len
        invariant
            len == bytes@.len(),
            offset <= len,
            instrs@ + listing(bytes@, offset as int) == listing(bytes@, 0),
        decreases len - offset,
    {
        proof {
            lemma_step(bytes@, offset as int);
        }
        let ghost before = instrs@;
        let ins = match disassemble_x86_instruction(bytes, offset, 0) {
            Some(i) => i,
            None => Instruction {
                operation: Operation::Unknown,
                reg1: Operand::Nothing,
                reg2: Operand::Nothing,
                offset,
                ins_size: 1,
            },
        };
        assert(ins == step(bytes@, offset as int)) by {
            reveal(step);
        }
        instrs.push(ins);
        offset = offset + ins.ins_size;
        assert(instrs@ + listing(bytes@, offset as int) =~= before + listing(bytes@, (offset - ins.ins_size) as int));
    }
    assert(listing(bytes@, offset as int) =~= Seq::<Instruction>::empty());
    assert(instrs@ =~= listing(bytes@, 0));
    proof {
        lemma_listing_tiles(bytes@, 0);
    }
    instrs
}

/// Disassembles an x86 or x86-64 section.
pub fn disassemble_x86(section: &Section, section_name: &String, _program: &Program) -> (r: DisassemblySection)
    ensures
        r.section_name@ == section_name@,
        r.instructions matches InstructionListing::X86(v) && v@ == listing(section.bytes@, 0) && tiles(
            spans(v@),
            0,
            section.bytes@.len() as int,
        ),
{
    DisassemblySection {
        section_name: section_name.clone(),
        instructions: InstructionListing::X86(decode_all(section.bytes.as_slice())),
    }
}
// ---- shared form ----

/// Whether `d` is the shared form of operand `o`: registers by name,
/// immediates and targets as values, memory by base, index and access size.
pub open spec fn operand_converted(o: Operand, d: &dis::Operand) -> bool {
    match (o, d) {
        (Operand::Reg8(x), dis::Operand::Register(n)) => n@ == reg_name(0, x),
        (Operand::Reg8H(x), dis::Operand::Register(n)) => n@ == reg_name(4, x),
        (Operand::Reg16(x), dis::Operand::Register(n)) => n@ == reg_name(1, x),
        (Operand::Reg32(x), dis::Operand::Register(n)) => n@ == reg_name(2, x),
        (Operand::Reg64(x), dis::Operand::Register(n)) => n@ == reg_name(3, x),
        (Operand::ImmU8(x), dis::Operand::Immediate(v)) => *v == x as i64,
        (Operand::ImmU32(x), dis::Operand::Immediate(v)) => *v == x as i64,
        (Operand::ImmS8(x), dis::Operand::Immediate(v)) => *v == x as i64,
        (Operand::Target(t), dis::Operand::Immediate(v)) => *v == t,
        (Operand::PtrReg(size, r, disp), dis::Operand::Memory(b, i, off, sz)) => b@ == reg_name(3, r) && i@.len() == 0
            && *off == disp as i64 && *sz == size,
        (Operand::PtrRel(size, rel), dis::Operand::Memory(b, i, off, sz)) => b@ == "."@ && i@.len() == 0 && *off
            == rel as i64 && *sz == size,
        (Operand::PtrRegReg(size, base, index, _), dis::Operand::Memory(b, i, off, sz)) => b@ == reg_name(3, base)
            && i@ == reg_name(3, index) && *off == 0 && *sz == size,
        (Operand::Nothing, dis::Operand::Nothing) => true,
        _ => false,
    }
}

/// Whether `d` is the shared form of `i`: its mnemonic and its operands (the
/// destination twice for the arithmetic forms that also read it).
pub open spec fn converted(i: Instruction, d: dis::Instruction) -> bool {
    &&& d.opcode@ == mnemonic(i.operation)
    &&& d.flags == 0
    &&& match i.operation {
        Operation::Add | Operation::Sub | Operation::And | Operation::Or | Operation::Xor => d.operands@.len() == 3
            && operand_converted(i.reg1, &d.operands@[0]) && operand_converted(i.reg1, &d.operands@[1])
            && operand_converted(i.reg2, &d.operands@[2]),
        Operation::Call | Operation::Push | Operation::Pop => d.operands@.len() == 1 && operand_converted(
            i.reg1,
            &d.operands@[0],
        ),
        Operation::Nop | Operation::Ret | Operation::Unknown => d.operands@.len() == 0,
        _ => d.operands@.len() == 2 && operand_converted(i.reg1, &d.operands@[0]) && operand_converted(
            i.reg2,
            &d.operands@[1],
        ),
    }
}

impl Operand {
    pub fn into(self) -> (d: dis::Operand)
        ensures
            operand_converted(self, &d),
    {
        match self {
            Operand::Reg8(x) => dis::Operand::Register(print_reg(0, x)),
            Operand::Reg8H(x) => dis::Operand::Register(print_reg(4, x)),
            Operand::Reg16(x) => dis::Operand::Register(print_reg(1, x)),
            Operand::Reg32(x) => dis::Operand::Register(print_reg(2, x)),
            Operand::Reg64(x) => dis::Operand::Register(print_reg(3, x)),
            Operand::ImmU8(x) => dis::Operand::Immediate(x as i64),
            Operand::ImmU32(x) => dis::Operand::Immediate(x as i64),
            Operand::ImmS8(x) => dis::Operand::Immediate(x as i64),
            Operand::Target(t) => dis::Operand::Immediate(t),
            Operand::PtrReg(size, r, disp) => {
                proof {
                    reveal_strlit("");
                }
                dis::Operand::Memory(print_reg(3, r), "", disp as i64, size)
            },
            Operand::PtrRel(size, rel) => {
                proof {
                    reveal_strlit("");
                }
                dis::Operand::Memory(".", "", rel as i64, size)
            },
            Operand::PtrRegReg(size, base, index, _) => dis::Operand::Memory(
                print_reg(3, base),
                print_reg(3, index),
                0,
                size,
            ),
            Operand::Nothing => dis::Operand::Nothing,
        }
    }
}

impl Instruction {
    /// The instruction in the form shared by all instruction sets.
    pub fn into(&self) -> (d: dis::Instruction)
        ensures
            converted(*self, d),
    {
        let opcode = mnemonic_str(self.operation);
        let operands = match self.operation {
            Operation::Add | Operation::Sub | Operation::And | Operation::Or | Operation::Xor => vec![
                self.reg1.into(),
                self.reg1.into(),
                self.reg2.into(),
            ],
            Operation::Call | Operation::Push | Operation::Pop => vec![self.reg1.into()],
            Operation::Nop | Operation::Ret | Operation::Unknown => Vec::new(),
            _ => vec![self.reg1.into(), self.reg2.into()],
        };
        dis::Instruction { opcode, operands, flags: 0 }
    }
}


// ---- laws ----

/// The register names that the lifter may emit: the register table and the
/// synthesised program counter.
pub open spec fn register_set() -> Set<Seq<char>> {
    Set::new(|s: Seq<char>| exists|slot: u8, x: u8| slot < 5 && x < 16 && s == reg_name(slot, x)).insert("pc"@)
}

/// Whether the register numbers of an operand index the register table.
pub open spec fn operand_ok(o: Operand) -> bool {
    match o {
        Operand::Reg8(x) | Operand::Reg8H(x) | Operand::Reg16(x) | Operand::Reg32(x) | Operand::Reg64(x) => x < 16,
        Operand::PtrReg(_, r, _) => r < 16,
        Operand::PtrRegReg(_, b, i, _) => b < 16 && i < 16,
        _ => true,
    }
}

pub open spec fn operands_ok(i: Instruction) -> bool {
    operand_ok(i.reg1) && operand_ok(i.reg2)
}

proof fn lemma_modrm_fields(x: u8)
    ensures
        low(x) < 8,
        mid(x) < 8,
{
    assert(x & 7u8 < 8) by (bit_vector);
    assert((x >> 3u8) & 7u8 < 8) by (bit_vector);
}

proof fn lemma_decode_op_operands(b: Seq<u8>, off: int, prefix: u8)
    requires
        0 <= off < b.len(),
        decode_op(b, off, prefix) is Some,
    ensures
        operands_ok(decode_op(b, off, prefix)->Some_0),
{
    if off + 1 < b.len() {
        lemma_modrm_fields(b[off + 1]);
    }
    if off + 2 < b.len() {
        lemma_modrm_fields(b[off + 2]);
    }
}

proof fn lemma_decode_operands(b: Seq<u8>, off: int, prefix: u8)
    requires
        decode(b, off, prefix) is Some,
    ensures
        operands_ok(decode(b, off, prefix)->Some_0),
{
    let r = rex_run(b, off) as int;
    if r == 0 {
        lemma_decode_op_operands(b, off, prefix);
    } else {
        lemma_decode_op_operands(b, off + r, prefix | PREFIX_REX_W);
    }
}

proof fn lemma_listing_operands(b: Seq<u8>, off: int)
    requires
        0 <= off,
    ensures
        forall|k: int| 0 <= k < listing(b, off).len() ==> operands_ok(#[trigger] listing(b, off)[k]),
    decreases b.len() - off,
{
    if off < b.len() && step(b, off).ins_size != 0 && off + step(b, off).ins_size <= b.len() {
        reveal(step);
        if decode(b, off, 0) is Some {
            lemma_decode_operands(b, off, 0);
        }
        let n = step(b, off).ins_size as int;
        lemma_listing_operands(b, off + n);
        let l = listing(b, off);
        assert forall|k: int| 0 <= k < l.len() implies operands_ok(#[trigger] l[k]) by {
            if k > 0 {
                assert(l[k] == listing(b, off + n)[k - 1]);
            }
        }
    }
}

proof fn lemma_name_in_set(slot: u8, x: u8)
    requires
        slot < 5,
        x < 16,
    ensures
        register_set().contains(reg_name(slot, x)),
{
    assert(Set::new(|s: Seq<char>| exists|sl: u8, y: u8| sl < 5 && y < 16 && s == reg_name(sl, y)).contains(
        reg_name(slot, x),
    ));
}

proof fn lemma_operand_registers(o: Operand)
    requires
        operand_ok(o),
    ensures
        regs_within(operand_expr(o), register_set()),
{
    let names = register_set();
    assert(names.contains("pc"@));
    match o {
        Operand::Reg8(x) => {
            lemma_name_in_set(0, x);
        },
        Operand::Reg8H(x) => {
            lemma_name_in_set(4, x);
        },
        Operand::Reg16(x) => {
            lemma_name_in_set(1, x);
        },
        Operand::Reg32(x) => {
            lemma_name_in_set(2, x);
        },
        Operand::Reg64(x) => {
            lemma_name_in_set(3, x);
        },
        Operand::PtrReg(size, r, d) => {
            lemma_name_in_set(3, r);
            assert(regs_within(reg_v(3, r), names));
            assert(regs_within(ExprV::Constant(d as int), names));
            assert(regs_within(bin_v(OP_ADD, reg_v(3, r), ExprV::Constant(d as int)), names));
            assert(regs_within(deref_v(size, bin_v(OP_ADD, reg_v(3, r), ExprV::Constant(d as int))), names));
            assert(regs_within(deref_v(size, reg_v(3, r)), names));
        },
        Operand::PtrRegReg(size, b, i, s) => {
            lemma_name_in_set(3, b);
            lemma_name_in_set(3, i);
            assert(regs_within(reg_v(3, b), names));
            assert(regs_within(reg_v(3, i), names));
            assert(regs_within(ExprV::Constant(s as int), names));
            assert(regs_within(bin_v(OP_MUL, reg_v(3, i), ExprV::Constant(s as int)), names));
            assert(regs_within(bin_v(OP_ADD, reg_v(3, b), reg_v(3, i)), names));
            assert(regs_within(bin_v(OP_ADD, reg_v(3, b), bin_v(OP_MUL, reg_v(3, i), ExprV::Constant(s as int))), names));
            assert(regs_within(deref_v(size, bin_v(OP_ADD, reg_v(3, b), reg_v(3, i))), names));
            assert(regs_within(deref_v(size, bin_v(OP_ADD, reg_v(3, b), bin_v(OP_MUL, reg_v(3, i), ExprV::Constant(s as int)))), names));
        },
        Operand::PtrRel(size, rel) => {
            assert(regs_within(ExprV::Register("pc"@), names));
            assert(regs_within(ExprV::Constant(rel as int), names));
            assert(regs_within(bin_v(OP_ADD, ExprV::Register("pc"@), ExprV::Constant(rel as int)), names));
            assert(regs_within(deref_v(size, bin_v(OP_ADD, ExprV::Register("pc"@), ExprV::Constant(rel as int))), names));
        },
        _ => {
            assert(regs_within(ExprV::Constant(imm_value(o)), names));
        },
    }
}

proof fn lemma_lift_registers(i: Instruction)
    requires
        operands_ok(i),
    ensures
        regs_within(lift(i), register_set()),
{
    let names = register_set();
    lemma_operand_registers(i.reg1);
    lemma_operand_registers(i.reg2);
    lemma_name_in_set(3, 4);
    let a = operand_expr(i.reg1);
    let b = operand_expr(i.reg2);
    assert(regs_within(rsp_v(), names));
    assert(regs_within(ExprV::Constant(8), names));
    assert(regs_within(deref_v(8, rsp_v()), names));
    match i.operation {
        Operation::Add | Operation::Sub | Operation::And | Operation::Or | Operation::Xor => {
            assert(regs_within(bin_v(alu_op(i.operation)->Some_0, a, b), names));
        },
        Operation::Test => {
            let args = seq![a, b];
            assert(forall|k: int| 0 <= k < args.len() ==> regs_within(#[trigger] args[k], names));
            assert(regs_within(ExprV::Special("test"@, args), names));
        },
        Operation::Push => {
            let g = seq![store_v(rsp_v(), bin_v(OP_SUB, rsp_v(), ExprV::Constant(8))), store_v(deref_v(8, rsp_v()), a)];
            assert(regs_within(bin_v(OP_SUB, rsp_v(), ExprV::Constant(8)), names));
            assert(regs_within(g[0], names));
            assert(regs_within(g[1], names));
            assert(forall|k: int| 0 <= k < g.len() ==> regs_within(#[trigger] g[k], names));
            assert(regs_within(ExprV::Group(g), names));
        },
        Operation::Pop => {
            let g = seq![store_v(a, deref_v(8, rsp_v())), store_v(rsp_v(), bin_v(OP_ADD, rsp_v(), ExprV::Constant(8)))];
            assert(regs_within(bin_v(OP_ADD, rsp_v(), ExprV::Constant(8)), names));
            assert(regs_within(g[0], names));
            assert(regs_within(g[1], names));
            assert(forall|k: int| 0 <= k < g.len() ==> regs_within(#[trigger] g[k], names));
            assert(regs_within(ExprV::Group(g), names));
        },
        _ => {},
    }
}

/// Every statement lifted from an x86 listing names only registers of the
/// register table and `pc`.
pub proof fn lemma_lifted_registers(b: Seq<u8>, k: int)
    requires
        0 <= k < listing(b, 0).len(),
    ensures
        regs_within(lift(listing(b, 0)[k]), register_set()),
{
    lemma_listing_operands(b, 0);
    lemma_lift_registers(listing(b, 0)[k]);
}

/// Decoding depends only on the bytes an instruction takes: the same bytes
/// at another place, with nothing after them, decode to the same instruction
/// at that place (a call only at the same place, as its target depends on
/// it).
#[verifier::rlimit(60)]
proof fn lemma_decode_op_local(b: Seq<u8>, off: int, p: u8, c: Seq<u8>, s: int)
    requires
        0 <= off < b.len(),
        0 <= s,
        s <= usize::MAX,
        decode_op(b, off, p) is Some,
        decode_op(b, off, p)->Some_0.operation != Operation::Call || s == off,
        c.len() == s + decode_op(b, off, p)->Some_0.ins_size,
        c.subrange(s, c.len() as int) == b.subrange(off, off + decode_op(b, off, p)->Some_0.ins_size),
    ensures
        decode_op(c, s, p) == Some(Instruction { offset: s as usize, ..decode_op(b, off, p)->Some_0 }),
{
    lemma_decode_op_bounds(b, off, p);
    let n = decode_op(b, off, p)->Some_0.ins_size as int;
    let w = c.subrange(s, c.len() as int);
    assert(w[0] == c[s] && w[0] == b[off]);
    if n > 1 {
        assert(w[1] == c[s + 1] && w[1] == b[off + 1]);
    }
    if n > 2 {
        assert(w[2] == c[s + 2] && w[2] == b[off + 2]);
    }
    if n >= 5 {
        assert(w[3] == c[s + 3] && w[3] == b[off + 3]);
        assert(w[4] == c[s + 4] && w[4] == b[off + 4]);
        assert(le32(c, s + 1) == le32(b, off + 1));
    }
    if n >= 6 {
        assert(w[5] == c[s + 5] && w[5] == b[off + 5]);
        assert(le32(c, s + 2) == le32(b, off + 2));
    }
}

/// Equal bytes hold equally long runs of REX.W prefixes.
proof fn lemma_rex_run_local(b: Seq<u8>, x: int, c: Seq<u8>, y: int, len: int)
    requires
        0 <= x,
        0 <= y,
        x + len <= b.len(),
        y + len <= c.len(),
        rex_run(b, x) < len,
        c.subrange(y, y + len) == b.subrange(x, x + len),
    ensures
        rex_run(c, y) == rex_run(b, x),
    decreases len,
{
    assert(c.subrange(y, y + len)[0] == c[y]);
    assert(b.subrange(x, x + len)[0] == b[x]);
    if b[x] == OPCODE_REX_W {
        assert(c.subrange(y + 1, y + len) =~= b.subrange(x + 1, x + len)) by {
            assert forall|j: int| 0 <= j < len - 1 implies #[trigger] c.subrange(y + 1, y + len)[j] == b.subrange(x + 1, x + len)[j] by {
                assert(c.subrange(y, y + len)[j + 1] == c[y + 1 + j]);
                assert(b.subrange(x, x + len)[j + 1] == b[x + 1 + j]);
            }
        }
        lemma_rex_run_local(b, x + 1, c, y + 1, len - 1);
    }
}

/// The bytes of an instruction, placed at `s` with nothing after them,
/// decode to the same instruction at `s` (a call only when `s` is its own
/// offset).
proof fn lemma_decode_local(b: Seq<u8>, off: int, p: u8, c: Seq<u8>, s: int)
    requires
        0 <= s,
        b.len() <= usize::MAX,
        c.len() <= usize::MAX,
        decode(b, off, p) is Some,
        decode(b, off, p)->Some_0.operation != Operation::Call || s == off,
        c.len() == s + decode(b, off, p)->Some_0.ins_size,
        c.subrange(s, c.len() as int) == b.subrange(off, off + decode(b, off, p)->Some_0.ins_size),
    ensures
        decode(c, s, p) == Some(Instruction { offset: s as usize, ..decode(b, off, p)->Some_0 }),
{
    lemma_decode_bounds(b, off, p);
    let i = decode(b, off, p)->Some_0;
    let n = i.ins_size as int;
    let r = rex_run(b, off) as int;
    lemma_rex_run_local(b, off, c, s, n);
    if r == 0 {
        lemma_decode_op_local(b, off, p, c, s);
    } else {
        let p2 = p | PREFIX_REX_W;
        lemma_decode_op_bounds(b, off + r, p2);
        assert(c.subrange(s + r, c.len() as int) =~= b.subrange(off + r, off + n)) by {
            assert forall|j: int| 0 <= j < n - r implies #[trigger] c.subrange(s + r, c.len() as int)[j] == b.subrange(off + r, off + n)[j] by {
                assert(c.subrange(s, c.len() as int)[j + r] == c[s + r + j]);
                assert(b.subrange(off, off + n)[j + r] == b[off + r + j]);
            }
        }
        lemma_decode_op_local(b, off + r, p2, c, s + r);
    }
}

/// Decoding the bytes of a decoded instruction (other than a call) on their
/// own gives an instruction with the same text.
#[verifier::rlimit(60)]
pub proof fn lemma_redecode_same_text(b: Seq<u8>, k: int)
    requires
        0 <= k < listing(b, 0).len(),
        listing(b, 0)[k].operation != Operation::Unknown,
        listing(b, 0)[k].operation != Operation::Call,
        b.len() <= usize::MAX,
    ensures
        ({
            let i = listing(b, 0)[k];
            let own = b.subrange(i.offset as int, i.offset + i.ins_size);
            listing(own, 0).len() == 1 && ins_text(listing(own, 0)[0]) == ins_text(i)
        }),
{
    lemma_listing_at(b, 0, k);
    let i = listing(b, 0)[k];
    let off = i.offset as int;
    reveal(step);
    assert(decode(b, off, 0) is Some);
    let own = b.subrange(off, off + i.ins_size);
    lemma_decode_bounds(b, off, 0);
    assert(own.subrange(0, own.len() as int) =~= own);
    assert(own.len() == i.ins_size);
    lemma_decode_local(b, off, 0, own, 0);
    lemma_step(own, 0);
    assert(listing(own, i.ins_size as int) =~= Seq::<Instruction>::empty());
}

proof fn lemma_listing_at(b: Seq<u8>, off: int, k: int)
    requires
        0 <= off,
        0 <= k < listing(b, off).len(),
        b.len() <= usize::MAX,
    ensures
        off <= listing(b, off)[k].offset < b.len(),
        listing(b, off)[k] == step(b, listing(b, off)[k].offset as int),
    decreases k,
{
    lemma_step(b, off);
    if k > 0 {
        lemma_listing_at(b, off + step(b, off).ins_size, k - 1);
    }
}

proof fn lemma_nop_step(c: Seq<u8>, j: int)
    requires
        0 <= j < c.len(),
        c[j] == OPCODE_NOP,
        c.len() <= usize::MAX,
    ensures
        step(c, j) == ins(Operation::Nop, Operand::Nothing, Operand::Nothing, j, 1),
{
    reveal(step);
    assert(rex_run(c, j) == 0);
}

proof fn lemma_padded_listing(c: Seq<u8>, off: int, i: Instruction, j: int)
    requires
        0 <= j <= off,
        off < c.len() <= usize::MAX,
        forall|t: int| 0 <= t < off ==> c[t] == OPCODE_NOP,
        step(c, off) == i,
        i.ins_size >= 1,
        off + i.ins_size == c.len(),
    ensures
        listing(c, j).len() == off - j + 1,
        listing(c, j).last() == i,
    decreases off - j,
{
    if j == off {
        assert(listing(c, off + i.ins_size) =~= Seq::<Instruction>::empty());
        assert(listing(c, off) =~= seq![i]);
    } else {
        lemma_nop_step(c, j);
        lemma_padded_listing(c, off, i, j + 1);
    }
}

/// Decoding the bytes of a decoded instruction again at its own offset,
/// after one-byte `nop`s, gives the same instruction last.
pub proof fn lemma_redecode_at_same_offset(b: Seq<u8>, k: int)
    requires
        0 <= k < listing(b, 0).len(),
        listing(b, 0)[k].operation != Operation::Unknown,
        b.len() <= usize::MAX,
    ensures
        ({
            let i = listing(b, 0)[k];
            let c = Seq::new(i.offset as nat, |_t: int| OPCODE_NOP) + b.subrange(i.offset as int, i.offset + i.ins_size);
            listing(c, 0).len() == i.offset + 1 && listing(c, 0).last() == i
        }),
{
    lemma_listing_at(b, 0, k);
    let i = listing(b, 0)[k];
    let off = i.offset as int;
    reveal(step);
    assert(decode(b, off, 0) is Some);
    lemma_decode_bounds(b, off, 0);
    let own = b.subrange(off, off + i.ins_size);
    let c = Seq::new(i.offset as nat, |_t: int| OPCODE_NOP) + own;
    assert(c.subrange(off, c.len() as int) =~= own);
    lemma_decode_local(b, off, 0, c, off);
    assert(step(c, off) == i);
    lemma_padded_listing(c, off, i, 0);
}

} // verus!
