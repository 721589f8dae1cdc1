//! RISC-V RV32I/RV64I with the M extension and compressed instructions:
//! decoding, printing and lifting.

use vstd::prelude::*;
use crate::ir::{
    Expr, ExprV, expr_binary, expr_call, expr_constant, expr_dereference, expr_goto, expr_if,
    expr_nop, expr_register, expr_ret, expr_special, expr_store, regs_within, views, OP_ADD, OP_AND, OP_EQ,
    OP_GTE, OP_LT, OP_MUL, OP_NEQ, OP_OR, OP_SUB, OP_XOR,
};
use crate::text::{dec, sdec, push_dec, push_sdec};
use crate::util::{
    bits16, bits32, le16, le32, read_u16_from_slice, read_u32_from_slice, sbits32, BitExtr,
    LITTLE_ENDIAN,
};
use crate::dis::{tiles, lemma_tiles_cons, DisassemblySection, InstructionListing};
use crate::prog::{Program, Section};

verus! {

pub const REG_ZERO: u8 = 0;

pub const REG_RA: u8 = 1;

pub const REG_SP: u8 = 2;

pub const REG_S0: u8 = 8;

/// The ABI name of integer register `r`.
pub open spec fn reg_name(r: u8) -> Seq<char> {
    match r {
        0 => "Zero"@,
        1 => "ra"@,
        2 => "sp"@,
        3 => "gp"@,
        4 => "tp"@,
        5 => "t0"@,
        6 => "t1"@,
        7 => "t2"@,
        8 => "s0"@,
        9 => "s1"@,
        10 => "a0"@,
        11 => "a1"@,
        12 => "a2"@,
        13 => "a3"@,
        14 => "a4"@,
        15 => "a5"@,
        16 => "a6"@,
        17 => "a7"@,
        18 => "s2"@,
        19 => "s3"@,
        20 => "s4"@,
        21 => "s5"@,
        22 => "s6"@,
        23 => "s7"@,
        24 => "s8"@,
        25 => "s9"@,
        26 => "s10"@,
        27 => "s11"@,
        28 => "t3"@,
        29 => "t4"@,
        30 => "t5"@,
        31 => "t6"@,
        _ => "?"@,
    }
}

fn reg_str(r: u8) -> (s: &'static str)
    ensures
        s@ == reg_name(r),
{
    match r {
        0 => "Zero",
        1 => "ra",
        2 => "sp",
        3 => "gp",
        4 => "tp",
        5 => "t0",
        6 => "t1",
        7 => "t2",
        8 => "s0",
        9 => "s1",
        10 => "a0",
        11 => "a1",
        12 => "a2",
        13 => "a3",
        14 => "a4",
        15 => "a5",
        16 => "a6",
        17 => "a7",
        18 => "s2",
        19 => "s3",
        20 => "s4",
        21 => "s5",
        22 => "s6",
        23 => "s7",
        24 => "s8",
        25 => "s9",
        26 => "s10",
        27 => "s11",
        28 => "t3",
        29 => "t4",
        30 => "t5",
        31 => "t6",
        _ => "?",
    }
}

/// The register names that the lifter may emit: the 32 ABI names and the
/// synthesised program counter.
pub open spec fn register_set() -> Set<Seq<char>> {
    Set::new(|s: Seq<char>| exists|r: u8| r < 32 && s == reg_name(r)).insert("pc"@)
}

#[derive(Clone, Copy, PartialEq, Eq, Structural)]
pub enum Operation {
    Add,
    Sub,
    And,
    Or,
    Xor,
    Slt,
    Sltu,
    Sll,
    Srl,
    Sra,
    Mul,
    Addi,
    Addiw,
    Andi,
    Ori,
    Xori,
    Slti,
    Sltui,
    Slli,
    Slliw,
    Srli,
    Srliw,
    Srai,
    Sraiw,
    Addw,
    Subw,
    Sllw,
    Srlw,
    Sraw,
    Mulw,
    Auipc,
    Lui,
    Li,
    Jal,
    Jalr,
    Beq,
    Bne,
    Blt,
    Bge,
    Bltu,
    Bgeu,
    Lbu,
    Lb,
    Lhu,
    Lh,
    Lwu,
    Lw,
    Ld,
    Sb,
    Sh,
    Sw,
    Sd,
    Csrrw,
    Unknown,
}

/// The mnemonic of an operation as printed.
pub open spec fn mnemonic(op: Operation) -> Seq<char> {
    match op {
        Operation::Add => "add"@,
        Operation::Sub => "sub"@,
        Operation::And => "and"@,
        Operation::Or => "or"@,
        Operation::Xor => "xor"@,
        Operation::Slt => "slt"@,
        Operation::Sltu => "sltu"@,
        Operation::Sll => "sll"@,
        Operation::Srl => "srl"@,
        Operation::Sra => "sra"@,
        Operation::Mul => "mul"@,
        Operation::Addi => "addi"@,
        Operation::Addiw => "addiw"@,
        Operation::Andi => "andi"@,
        Operation::Ori => "ori"@,
        Operation::Xori => "xori"@,
        Operation::Slti => "slti"@,
        Operation::Sltui => "sltui"@,
        Operation::Slli => "slli"@,
        Operation::Slliw => "slliw"@,
        Operation::Srli => "srli"@,
        Operation::Srliw => "srliw"@,
        Operation::Srai => "srai"@,
        Operation::Sraiw => "sraiw"@,
        Operation::Addw => "addw"@,
        Operation::Subw => "subw"@,
        Operation::Sllw => "sllw"@,
        Operation::Srlw => "srlw"@,
        Operation::Sraw => "sraw"@,
        Operation::Mulw => "mulw"@,
        Operation::Auipc => "auipc"@,
        Operation::Lui => "lui"@,
        Operation::Li => "li"@,
        Operation::Jal => "jal"@,
        Operation::Jalr => "jalr"@,
        Operation::Beq => "beq"@,
        Operation::Bne => "bne"@,
        Operation::Blt => "blt"@,
        Operation::Bge => "bge"@,
        Operation::Bltu => "bltu"@,
        Operation::Bgeu => "bgeu"@,
        Operation::Lbu => "lbu"@,
        Operation::Lb => "lb"@,
        Operation::Lhu => "lhu"@,
        Operation::Lh => "lh"@,
        Operation::Lwu => "lwu"@,
        Operation::Lw => "lw"@,
        Operation::Ld => "ld"@,
        Operation::Sb => "sb"@,
        Operation::Sh => "sh"@,
        Operation::Sw => "sw"@,
        Operation::Sd => "sd"@,
        Operation::Csrrw => "csrrw"@,
        Operation::Unknown => "???"@,
    }
}

fn mnemonic_str(op: Operation) -> (s: &'static str)
    ensures
        s@ == mnemonic(op),
{
    match op {
        Operation::Add => "add",
        Operation::Sub => "sub",
        Operation::And => "and",
        Operation::Or => "or",
        Operation::Xor => "xor",
        Operation::Slt => "slt",
        Operation::Sltu => "sltu",
        Operation::Sll => "sll",
        Operation::Srl => "srl",
        Operation::Sra => "sra",
        Operation::Mul => "mul",
        Operation::Addi => "addi",
        Operation::Addiw => "addiw",
        Operation::Andi => "andi",
        Operation::Ori => "ori",
        Operation::Xori => "xori",
        Operation::Slti => "slti",
        Operation::Sltui => "sltui",
        Operation::Slli => "slli",
        Operation::Slliw => "slliw",
        Operation::Srli => "srli",
        Operation::Srliw => "srliw",
        Operation::Srai => "srai",
        Operation::Sraiw => "sraiw",
        Operation::Addw => "addw",
        Operation::Subw => "subw",
        Operation::Sllw => "sllw",
        Operation::Srlw => "srlw",
        Operation::Sraw => "sraw",
        Operation::Mulw => "mulw",
        Operation::Auipc => "auipc",
        Operation::Lui => "lui",
        Operation::Li => "li",
        Operation::Jal => "jal",
        Operation::Jalr => "jalr",
        Operation::Beq => "beq",
        Operation::Bne => "bne",
        Operation::Blt => "blt",
        Operation::Bge => "bge",
        Operation::Bltu => "bltu",
        Operation::Bgeu => "bgeu",
        Operation::Lbu => "lbu",
        Operation::Lb => "lb",
        Operation::Lhu => "lhu",
        Operation::Lh => "lh",
        Operation::Lwu => "lwu",
        Operation::Lw => "lw",
        Operation::Ld => "ld",
        Operation::Sb => "sb",
        Operation::Sh => "sh",
        Operation::Sw => "sw",
        Operation::Sd => "sd",
        Operation::Csrrw => "csrrw",
        Operation::Unknown => "???",
    }
}

#[derive(Clone, Copy, PartialEq, Eq, Structural)]
pub enum Operand {
    Nothing,
    Reg(u8),
    ImmU16(u16),
    ImmU32(u32),
    ImmS16(i16),
    ImmS32(i32),
}

/// Whether an operand is register zero or an immediate zero.
pub open spec fn spec_is_zero(o: Operand) -> bool {
    match o {
        Operand::Reg(r) => r == 0,
        Operand::ImmU16(x) => x == 0,
        Operand::ImmU32(x) => x == 0,
        Operand::ImmS16(x) => x == 0,
        Operand::ImmS32(x) => x == 0,
        Operand::Nothing => false,
    }
}

/// The numeric value of an immediate operand (0 for the others).
pub open spec fn spec_value(o: Operand) -> int {
    match o {
        Operand::ImmU16(x) => x as int,
        Operand::ImmU32(x) => x as int,
        Operand::ImmS16(x) => x as int,
        Operand::ImmS32(x) => x as int,
        _ => 0,
    }
}

/// The text of an operand.
pub open spec fn operand_text(o: Operand) -> Seq<char> {
    match o {
        Operand::Reg(r) => reg_name(r),
        Operand::ImmU16(x) => dec(x as nat),
        Operand::ImmU32(x) => dec(x as nat),
        Operand::ImmS16(x) => sdec(x as int),
        Operand::ImmS32(x) => sdec(x as int),
        Operand::Nothing => "???"@,
    }
}

/// The IR for an operand.
pub open spec fn operand_expr(o: Operand) -> ExprV {
    match o {
        Operand::Reg(r) => ExprV::Register(reg_name(r)),
        Operand::Nothing => ExprV::Nop,
        _ => ExprV::Constant(spec_value(o)),
    }
}

impl Operand {
    pub fn is_zero(self) -> (r: bool)
        ensures
            r == spec_is_zero(self),
    {
        match self {
            Operand::Reg(r) => r == 0,
            Operand::ImmU16(x) => x == 0,
            Operand::ImmU32(x) => x == 0,
            Operand::ImmS16(x) => x == 0,
            Operand::ImmS32(x) => x == 0,
            Operand::Nothing => false,
        }
    }

    pub fn is_register(self, reg: u8) -> (r: bool)
        ensures
            r == (self == Operand::Reg(reg)),
    {
        match self {
            Operand::Reg(r) => r == reg,
            _ => false,
        }
    }

    pub fn value(self) -> (r: i64)
        ensures
            r as int == spec_value(self),
    {
        match self {
            Operand::ImmU16(x) => x as i64,
            Operand::ImmU32(x) => x as i64,
            Operand::ImmS16(x) => x as i64,
            Operand::ImmS32(x) => x as i64,
            _ => 0,
        }
    }

    pub fn print(self) -> (s: String)
        ensures
            s@ == operand_text(self),
    {
        let mut s = String::new();
        match self {
            Operand::Reg(r) => s.append(reg_str(r)),
            Operand::ImmU16(x) => push_dec(&mut s, x as u64),
            Operand::ImmU32(x) => push_dec(&mut s, x as u64),
            Operand::ImmS16(x) => push_sdec(&mut s, x as i64),
            Operand::ImmS32(x) => push_sdec(&mut s, x as i64),
            Operand::Nothing => s.append("???"),
        }
        s
    }

    pub fn into_expr(&self) -> (e: Box<Expr>)
        ensures
            e@ == operand_expr(*self),
    {
        match *self {
            Operand::Reg(r) => expr_register(String::from_str(reg_str(r))),
            Operand::Nothing => expr_nop(),
            _ => expr_constant(self.value()),
        }
    }
}

/// One decoded RISC-V instruction; `offset` is its position in the section.
#[derive(Clone, Copy, PartialEq, Eq, Structural)]
pub struct Instruction {
    pub operation: Operation,
    pub rd: Operand,
    pub rs1: Operand,
    pub rs2: Operand,
    pub rs3: Operand,
    pub imm: Operand,
    pub offset: usize,
    pub ins_size: u8,
}

/// `mn a, b, c`
pub open spec fn line3(mn: Seq<char>, a: Seq<char>, b: Seq<char>, c: Seq<char>) -> Seq<char> {
    mn + " "@ + a + ", "@ + b + ", "@ + c
}

/// `mn a, b`
pub open spec fn line2(mn: Seq<char>, a: Seq<char>, b: Seq<char>) -> Seq<char> {
    mn + " "@ + a + ", "@ + b
}

/// `mn a`
pub open spec fn line1(mn: Seq<char>, a: Seq<char>) -> Seq<char> {
    mn + " "@ + a
}

/// A memory operand: `[base]`, `[base + n]` or `[base - n]`.
pub open spec fn mem_text(base: Operand, imm: Operand) -> Seq<char> {
    if spec_is_zero(imm) {
        "["@ + operand_text(base) + "]"@
    } else if spec_value(imm) < 0 {
        "["@ + operand_text(base) + " - "@ + dec((-spec_value(imm)) as nat) + "]"@
    } else {
        "["@ + operand_text(base) + " + "@ + dec(spec_value(imm) as nat) + "]"@
    }
}

pub open spec fn is_load(op: Operation) -> bool {
    op == Operation::Lb || op == Operation::Lbu || op == Operation::Lh || op == Operation::Lhu
        || op == Operation::Lw || op == Operation::Lwu || op == Operation::Ld
}

pub open spec fn is_store(op: Operation) -> bool {
    op == Operation::Sb || op == Operation::Sh || op == Operation::Sw || op == Operation::Sd
}

pub open spec fn is_reg_reg(op: Operation) -> bool {
    op == Operation::Add || op == Operation::Sub || op == Operation::Xor || op == Operation::And
        || op == Operation::Or || op == Operation::Slt || op == Operation::Sltu || op
        == Operation::Sll || op == Operation::Srl || op == Operation::Sra || op == Operation::Mul
        || op == Operation::Addw || op == Operation::Subw || op == Operation::Sllw || op
        == Operation::Srlw || op == Operation::Sraw || op == Operation::Mulw
}

pub open spec fn is_reg_imm(op: Operation) -> bool {
    op == Operation::Addi || op == Operation::Xori || op == Operation::Ori || op == Operation::Andi
        || op == Operation::Slti || op == Operation::Sltui || op == Operation::Slli || op
        == Operation::Srli || op == Operation::Srai || op == Operation::Slliw || op
        == Operation::Srliw || op == Operation::Sraiw
}

pub open spec fn is_branch(op: Operation) -> bool {
    op == Operation::Beq || op == Operation::Bne || op == Operation::Blt || op == Operation::Bge
        || op == Operation::Bltu || op == Operation::Bgeu
}

/// The assembly text of an instruction, with the usual idioms (`sext.w`,
/// `j`, `jr`, `ret`, `beqz`, `bnez`).
pub open spec fn ins_text(i: Instruction) -> Seq<char> {
    let op = i.operation;
    let rd = operand_text(i.rd);
    let rs1 = operand_text(i.rs1);
    let rs2 = operand_text(i.rs2);
    let imm = operand_text(i.imm);
    if is_reg_reg(op) {
        line3(mnemonic(op), rd, rs1, rs2)
    } else if is_reg_imm(op) {
        line3(mnemonic(op), rd, rs1, imm)
    } else if op == Operation::Addiw {
        if spec_is_zero(i.imm) {
            line2("sext.w"@, rd, rs1)
        } else {
            line3(mnemonic(op), rd, rs1, imm)
        }
    } else if is_load(op) {
        line2(mnemonic(op), rd, mem_text(i.rs1, i.imm))
    } else if is_store(op) {
        line2(mnemonic(op), rs1, mem_text(i.rs2, i.imm))
    } else if op == Operation::Li || op == Operation::Lui || op == Operation::Auipc {
        line2(mnemonic(op), rd, imm)
    } else if op == Operation::Csrrw {
        line3(mnemonic(op), rd, imm, rs1)
    } else if op == Operation::Jal {
        if spec_is_zero(i.rd) {
            line1("j"@, imm)
        } else {
            line2(mnemonic(op), rd, imm)
        }
    } else if op == Operation::Jalr {
        if spec_is_zero(i.rd) {
            if i.rs1 == Operand::Reg(REG_RA) {
                "ret"@
            } else {
                line1("jr"@, rs1)
            }
        } else {
            line2(mnemonic(op), rd, rs1)
        }
    } else if op == Operation::Beq && spec_is_zero(i.rs2) {
        line2("beqz"@, rs1, imm)
    } else if op == Operation::Bne && spec_is_zero(i.rs2) {
        line2("bnez"@, rs1, imm)
    } else if is_branch(op) {
        line3(mnemonic(op), rs1, rs2, imm)
    } else {
        "???"@
    }
}

fn put3(mn: &str, a: String, b: String, c: String) -> (s: String)
    ensures
        s@ == line3(mn@, a@, b@, c@),
{
    let mut s = String::from_str(mn);
    s.append(" ");
    s.append(a.as_str());
    s.append(", ");
    s.append(b.as_str());
    s.append(", ");
    s.append(c.as_str());
    s
}

fn put2(mn: &str, a: String, b: String) -> (s: String)
    ensures
        s@ == line2(mn@, a@, b@),
{
    let mut s = String::from_str(mn);
    s.append(" ");
    s.append(a.as_str());
    s.append(", ");
    s.append(b.as_str());
    s
}

fn put1(mn: &str, a: String) -> (s: String)
    ensures
        s@ == line1(mn@, a@),
{
    let mut s = String::from_str(mn);
    s.append(" ");
    s.append(a.as_str());
    s
}

fn print_mem(base: Operand, imm: Operand) -> (s: String)
    ensures
        s@ == mem_text(base, imm),
{
    let mut s = String::from_str("[");
    s.append(base.print().as_str());
    if imm.is_zero() {
    } else {
        let v = imm.value();
        if v < 0 {
            s.append(" - ");
            push_dec(&mut s, (-v) as u64);
        } else {
            s.append(" + ");
            push_dec(&mut s, v as u64);
        }
    }
    s.append("]");
    s
}

fn op_kind(op: Operation) -> (k: u8)
    ensures
        k == 0 <==> is_reg_reg(op),
        k == 1 <==> is_reg_imm(op),
        k == 2 <==> is_load(op),
        k == 3 <==> is_store(op),
        k == 4 <==> is_branch(op),
{
    match op {
        Operation::Add | Operation::Sub | Operation::Xor | Operation::And | Operation::Or
        | Operation::Slt | Operation::Sltu | Operation::Sll | Operation::Srl | Operation::Sra
        | Operation::Mul | Operation::Addw | Operation::Subw | Operation::Sllw | Operation::Srlw
        | Operation::Sraw | Operation::Mulw => 0,
        Operation::Addi | Operation::Xori | Operation::Ori | Operation::Andi | Operation::Slti
        | Operation::Sltui | Operation::Slli | Operation::Srli | Operation::Srai
        | Operation::Slliw | Operation::Srliw | Operation::Sraiw => 1,
        Operation::Lb | Operation::Lbu | Operation::Lh | Operation::Lhu | Operation::Lw
        | Operation::Lwu | Operation::Ld => 2,
        Operation::Sb | Operation::Sh | Operation::Sw | Operation::Sd => 3,
        Operation::Beq | Operation::Bne | Operation::Blt | Operation::Bge | Operation::Bltu
        | Operation::Bgeu => 4,
        _ => 5,
    }
}

/// The IR binary operator of an arithmetic operation.
pub open spec fn alu_op(op: Operation) -> u8 {
    match op {
        Operation::Add | Operation::Addi => OP_ADD,
        Operation::Sub => OP_SUB,
        Operation::Xor | Operation::Xori => OP_XOR,
        Operation::And | Operation::Andi => OP_AND,
        Operation::Or | Operation::Ori => OP_OR,
        _ => OP_MUL,
    }
}

/// Access width in bytes of a load or store.
pub open spec fn access_size(op: Operation) -> u8 {
    match op {
        Operation::Lb | Operation::Sb => 1,
        Operation::Lh | Operation::Sh => 2,
        Operation::Lw | Operation::Sw => 4,
        _ => 8,
    }
}

/// The comparison of a conditional branch.
pub open spec fn branch_op(op: Operation) -> u8 {
    match op {
        Operation::Beq => OP_EQ,
        Operation::Bne => OP_NEQ,
        Operation::Blt => OP_LT,
        _ => OP_GTE,
    }
}

pub open spec fn pc_expr() -> ExprV {
    ExprV::Register("pc"@)
}

/// `pc + imm`
pub open spec fn pc_rel(imm: Operand) -> ExprV {
    ExprV::Binary(OP_ADD, Box::new(pc_expr()), Box::new(operand_expr(imm)))
}

/// `base` or `base + imm` when the immediate is not zero.
pub open spec fn address(base: Operand, imm: Operand) -> ExprV {
    if spec_is_zero(imm) {
        operand_expr(base)
    } else {
        ExprV::Binary(OP_ADD, Box::new(operand_expr(base)), Box::new(operand_expr(imm)))
    }
}

pub open spec fn store_v(d: ExprV, s: ExprV) -> ExprV {
    ExprV::Store(Box::new(d), Box::new(s))
}

pub open spec fn binary_v(op: u8, l: ExprV, r: ExprV) -> ExprV {
    ExprV::Binary(op, Box::new(l), Box::new(r))
}

/// The mask that `auipc` applies to the program counter.
pub const PC_PAGE_MASK: i64 = -0x10_0000;

/// The IR of one instruction. Operations that have no lowering yet become
/// `Nop`.
pub open spec fn lift(i: Instruction) -> ExprV {
    let op = i.operation;
    let rd = operand_expr(i.rd);
    let rs1 = operand_expr(i.rs1);
    let rs2 = operand_expr(i.rs2);
    let imm = operand_expr(i.imm);
    match op {
        Operation::Add | Operation::Sub | Operation::Xor | Operation::And | Operation::Or
        | Operation::Mul => store_v(rd, binary_v(alu_op(op), rs1, rs2)),
        Operation::Addi | Operation::Xori | Operation::Ori | Operation::Andi => store_v(
            rd,
            binary_v(alu_op(op), rs1, imm),
        ),
        Operation::Lb | Operation::Lh | Operation::Lw | Operation::Ld => store_v(
            rd,
            ExprV::Dereference(access_size(op), Box::new(address(i.rs1, i.imm))),
        ),
        Operation::Sb | Operation::Sh | Operation::Sw | Operation::Sd => store_v(
            ExprV::Dereference(access_size(op), Box::new(address(i.rs2, i.imm))),
            rs1,
        ),
        Operation::Li | Operation::Lui => store_v(rd, imm),
        Operation::Auipc => store_v(
            rd,
            binary_v(OP_ADD, binary_v(OP_AND, pc_expr(), ExprV::Constant(PC_PAGE_MASK as int)), imm),
        ),
        Operation::Jal => if spec_is_zero(i.rd) {
            ExprV::Goto(Box::new(pc_rel(i.imm)))
        } else if i.rd == Operand::Reg(REG_RA) {
            ExprV::Call(Box::new(pc_rel(i.imm)))
        } else {
            ExprV::Special("jal"@, seq![rd, pc_rel(i.imm)])
        },
        Operation::Jalr => if spec_is_zero(i.rd) {
            if i.rs1 == Operand::Reg(REG_RA) {
                ExprV::Return
            } else {
                ExprV::Goto(Box::new(rs1))
            }
        } else if i.rd == Operand::Reg(REG_RA) {
            ExprV::Call(Box::new(rs1))
        } else {
            ExprV::Special("jalr"@, seq![rd, rs1])
        },
        Operation::Beq | Operation::Bne | Operation::Blt | Operation::Bge => ExprV::If(
            Box::new(
                binary_v(
                    branch_op(op),
                    rs1,
                    if spec_is_zero(i.rs2) {
                        ExprV::Constant(0)
                    } else {
                        rs2
                    },
                ),
            ),
            Box::new(ExprV::Goto(Box::new(pc_rel(i.imm)))),
            None,
        ),
        _ => ExprV::Nop,
    }
}

fn pc_plus(imm: Operand) -> (e: Box<Expr>)
    ensures
        e@ == pc_rel(imm),
{
    expr_binary(OP_ADD, expr_register(String::from_str("pc")), imm.into_expr())
}

fn address_of(base: Operand, imm: Operand) -> (e: Box<Expr>)
    ensures
        e@ == address(base, imm),
{
    if imm.is_zero() {
        base.into_expr()
    } else {
        expr_binary(OP_ADD, base.into_expr(), imm.into_expr())
    }
}

impl Instruction {
    pub fn print(self) -> (s: String)
        ensures
            s@ == ins_text(self),
    {
        let op = self.operation;
        let k = op_kind(op);
        let mn = mnemonic_str(op);
        if k == 0 {
            put3(mn, self.rd.print(), self.rs1.print(), self.rs2.print())
        } else if k == 1 {
            put3(mn, self.rd.print(), self.rs1.print(), self.imm.print())
        } else if k == 2 {
            put2(mn, self.rd.print(), print_mem(self.rs1, self.imm))
        } else if k == 3 {
            put2(mn, self.rs1.print(), print_mem(self.rs2, self.imm))
        } else {
            match op {
                Operation::Addiw => if self.imm.is_zero() {
                    put2("sext.w", self.rd.print(), self.rs1.print())
                } else {
                    put3(mn, self.rd.print(), self.rs1.print(), self.imm.print())
                },
                Operation::Li | Operation::Lui | Operation::Auipc => put2(
                    mn,
                    self.rd.print(),
                    self.imm.print(),
                ),
                Operation::Csrrw => put3(mn, self.rd.print(), self.imm.print(), self.rs1.print()),
                Operation::Jal => if self.rd.is_zero() {
                    put1("j", self.imm.print())
                } else {
                    put2(mn, self.rd.print(), self.imm.print())
                },
                Operation::Jalr => if self.rd.is_zero() {
                    if self.rs1.is_register(REG_RA) {
                        String::from_str("ret")
                    } else {
                        put1("jr", self.rs1.print())
                    }
                } else {
                    put2(mn, self.rd.print(), self.rs1.print())
                },
                Operation::Beq | Operation::Bne | Operation::Blt | Operation::Bge
                | Operation::Bltu | Operation::Bgeu => {
                    if self.rs2.is_zero() && op == Operation::Beq {
                        put2("beqz", self.rs1.print(), self.imm.print())
                    } else if self.rs2.is_zero() && op == Operation::Bne {
                        put2("bnez", self.rs1.print(), self.imm.print())
                    } else {
                        put3(mn, self.rs1.print(), self.rs2.print(), self.imm.print())
                    }
                },
                _ => String::from_str("???"),
            }
        }
    }

    pub fn offset(self) -> (r: usize)
        ensures
            r == self.offset,
    {
        self.offset
    }

    pub fn size(self) -> (r: usize)
        ensures
            r == self.ins_size,
    {
        self.ins_size as usize
    }

    pub fn into_expr(&self) -> (e: Box<Expr>)
        ensures
            e@ == lift(*self),
    {
        let op = self.operation;
        match op {
            Operation::Add | Operation::Sub | Operation::Xor | Operation::And | Operation::Or
            | Operation::Mul => {
                let bop = match op {
                    Operation::Add => OP_ADD,
                    Operation::Sub => OP_SUB,
                    Operation::Xor => OP_XOR,
                    Operation::And => OP_AND,
                    Operation::Or => OP_OR,
                    _ => OP_MUL,
                };
                expr_store(
                    self.rd.into_expr(),
                    expr_binary(bop, self.rs1.into_expr(), self.rs2.into_expr()),
                )
            },
            Operation::Addi | Operation::Xori | Operation::Ori | Operation::Andi => {
                let bop = match op {
                    Operation::Addi => OP_ADD,
                    Operation::Xori => OP_XOR,
                    Operation::Andi => OP_AND,
                    _ => OP_OR,
                };
                expr_store(
                    self.rd.into_expr(),
                    expr_binary(bop, self.rs1.into_expr(), self.imm.into_expr()),
                )
            },
            Operation::Lb | Operation::Lh | Operation::Lw | Operation::Ld => {
                let size: u8 = match op {
                    Operation::Lb => 1,
                    Operation::Lh => 2,
                    Operation::Lw => 4,
                    _ => 8,
                };
                expr_store(self.rd.into_expr(), expr_dereference(size, address_of(self.rs1, self.imm)))
            },
            Operation::Sb | Operation::Sh | Operation::Sw | Operation::Sd => {
                let size: u8 = match op {
                    Operation::Sb => 1,
                    Operation::Sh => 2,
                    Operation::Sw => 4,
                    _ => 8,
                };
                expr_store(expr_dereference(size, address_of(self.rs2, self.imm)), self.rs1.into_expr())
            },
            Operation::Li | Operation::Lui => expr_store(self.rd.into_expr(), self.imm.into_expr()),
            Operation::Auipc => expr_store(
                self.rd.into_expr(),
                expr_binary(
                    OP_ADD,
                    expr_binary(OP_AND, expr_register(String::from_str("pc")), expr_constant(PC_PAGE_MASK)),
                    self.imm.into_expr(),
                ),
            ),
            Operation::Jal => {
                if self.rd.is_zero() {
                    expr_goto(pc_plus(self.imm))
                } else if self.rd.is_register(REG_RA) {
                    expr_call(pc_plus(self.imm))
                } else {
                    let args = vec![self.rd.into_expr(), pc_plus(self.imm)];
                    let e = expr_special("jal", args);
                    assert(views(args@) =~= seq![operand_expr(self.rd), pc_rel(self.imm)]);
                    e
                }
            },
            Operation::Jalr => {
                if self.rd.is_zero() {
                    if self.rs1.is_register(REG_RA) {
                        expr_ret()
                    } else {
                        expr_goto(self.rs1.into_expr())
                    }
                } else if self.rd.is_register(REG_RA) {
                    expr_call(self.rs1.into_expr())
                } else {
                    let args = vec![self.rd.into_expr(), self.rs1.into_expr()];
                    let e = expr_special("jalr", args);
                    assert(views(args@) =~= seq![operand_expr(self.rd), operand_expr(self.rs1)]);
                    e
                }
            },
            Operation::Beq | Operation::Bne | Operation::Blt | Operation::Bge => {
                let cmp = match op {
                    Operation::Beq => OP_EQ,
                    Operation::Bne => OP_NEQ,
                    Operation::Blt => OP_LT,
                    _ => OP_GTE,
                };
                let rhs = if self.rs2.is_zero() {
                    expr_constant(0)
                } else {
                    self.rs2.into_expr()
                };
                expr_if(expr_binary(cmp, self.rs1.into_expr(), rhs), expr_goto(pc_plus(self.imm)))
            },
            _ => expr_nop(),
        }
    }
}

// ---- 32-bit encodings ----

pub open spec fn spec_opcode(ins: u32) -> u32 {
    bits32(ins, 6, 0)
}

pub open spec fn spec_rd(ins: u32) -> u32 {
    bits32(ins, 11, 7)
}

pub open spec fn spec_rs1(ins: u32) -> u32 {
    bits32(ins, 19, 15)
}

pub open spec fn spec_rs2(ins: u32) -> u32 {
    bits32(ins, 24, 20)
}

pub open spec fn spec_funct3(ins: u32) -> u32 {
    bits32(ins, 14, 12)
}

pub open spec fn spec_funct7(ins: u32) -> u32 {
    bits32(ins, 31, 25)
}

/// U-type immediate: bits 31..12, sign-extended, not shifted.
pub open spec fn spec_imm20(ins: u32) -> i32 {
    sbits32(ins as i32, 31, 12)
}

/// I-type immediate: bits 31..20, sign-extended.
pub open spec fn spec_imm12(ins: u32) -> i32 {
    sbits32(ins as i32, 31, 20)
}

/// The high bits that sign extension sets when bit 31 of `ins` is one.
pub open spec fn sign_fill(ins: u32, fill: u32) -> u32 {
    if bits32(ins, 31, 31) == 1 {
        fill
    } else {
        0
    }
}

/// S-type immediate `{ins[31:25], ins[11:7]}`, sign-extended.
pub open spec fn spec_imm12_s(ins: u32) -> i32 {
    (sign_fill(ins, 0xffff_f000u32) | (bits32(ins, 31, 25) << 5u32) | bits32(ins, 11, 7)) as i32
}

/// J-type offset `{ins[31], ins[19:12], ins[20], ins[30:21], 0}`, sign-extended.
pub open spec fn spec_jimm20(ins: u32) -> i32 {
    (sign_fill(ins, 0xfff0_0000u32) | (bits32(ins, 30, 21) << 1u32) | (bits32(ins, 20, 20) << 11u32)
        | (bits32(ins, 19, 12) << 12u32)) as i32
}

/// B-type offset `{ins[31], ins[7], ins[30:25], ins[11:8], 0}`, sign-extended.
pub open spec fn spec_branch(ins: u32) -> i32 {
    (sign_fill(ins, 0xffff_f000u32) | (bits32(ins, 30, 25) << 5u32) | (bits32(ins, 11, 8) << 1u32)
        | (bits32(ins, 7, 7) << 11u32)) as i32
}

fn opcode(ins: u32) -> (r: u32)
    ensures
        r == spec_opcode(ins),
{
    ins.bextr(6, 0)
}

fn rd(ins: u32) -> (r: u32)
    ensures
        r == spec_rd(ins),
{
    ins.bextr(11, 7)
}

fn rs1(ins: u32) -> (r: u32)
    ensures
        r == spec_rs1(ins),
{
    ins.bextr(19, 15)
}

fn rs2(ins: u32) -> (r: u32)
    ensures
        r == spec_rs2(ins),
{
    ins.bextr(24, 20)
}

fn funct3(ins: u32) -> (r: u32)
    ensures
        r == spec_funct3(ins),
{
    ins.bextr(14, 12)
}

fn funct7(ins: u32) -> (r: u32)
    ensures
        r == spec_funct7(ins),
{
    ins.bextr(31, 25)
}

fn imm20(ins: u32) -> (r: i32)
    ensures
        r == spec_imm20(ins),
{
    (ins as i32).bextr(31, 12)
}

fn shamt(ins: u32) -> (r: u32)
    ensures
        r == spec_rs2(ins),
{
    ins.bextr(24, 20)
}

fn fill(ins: u32, f: u32) -> (r: u32)
    ensures
        r == sign_fill(ins, f),
{
    if ins.bextr(31, 31) == 1 {
        f
    } else {
        0
    }
}

fn jimm20(ins: u32) -> (r: i32)
    ensures
        r == spec_jimm20(ins),
{
    (fill(ins, 0xfff0_0000u32) | (ins.bextr(30, 21) << 1u32) | (ins.bextr(20, 20) << 11u32) | (
    ins.bextr(19, 12) << 12u32)) as i32
}

fn branch(ins: u32) -> (r: i32)
    ensures
        r == spec_branch(ins),
{
    (fill(ins, 0xffff_f000u32) | (ins.bextr(30, 25) << 5u32) | (ins.bextr(11, 8) << 1u32) | (
    ins.bextr(7, 7) << 11u32)) as i32
}

fn imm12(ins: u32) -> (r: i32)
    ensures
        r == spec_imm12(ins),
{
    (ins as i32).bextr(31, 20)
}

fn imm12_s(ins: u32) -> (r: i32)
    ensures
        r == spec_imm12_s(ins),
{
    (fill(ins, 0xffff_f000u32) | (ins.bextr(31, 25) << 5u32) | ins.bextr(11, 7)) as i32
}

fn csr(ins: u32) -> (r: u32)
    ensures
        r == bits32(ins, 31, 20),
{
    ins.bextr(31, 20)
}

pub open spec fn reg(x: u32) -> Operand {
    Operand::Reg(x as u8)
}

pub open spec fn make(
    op: Operation,
    rd: Operand,
    rs1: Operand,
    rs2: Operand,
    imm: Operand,
    offset: usize,
    size: u8,
) -> Instruction {
    Instruction { operation: op, rd, rs1, rs2, rs3: Operand::Nothing, imm, offset, ins_size: size }
}

/// R-type: `rd, rs1, rs2`.
pub open spec fn r_type(op: Operation, ins: u32, offset: usize) -> Instruction {
    make(op, reg(spec_rd(ins)), reg(spec_rs1(ins)), reg(spec_rs2(ins)), Operand::Nothing, offset, 4)
}

/// I-type: `rd, rs1, imm12`.
pub open spec fn i_type(op: Operation, ins: u32, offset: usize) -> Instruction {
    make(op, reg(spec_rd(ins)), reg(spec_rs1(ins)), Operand::Nothing, Operand::ImmS32(spec_imm12(ins)), offset, 4)
}

/// Shift by immediate: `rd, rs1, shamt`.
pub open spec fn sh_type(op: Operation, ins: u32, offset: usize) -> Instruction {
    make(op, reg(spec_rd(ins)), reg(spec_rs1(ins)), Operand::Nothing, Operand::ImmU32(spec_rs2(ins)), offset, 4)
}

/// S-type: the stored register goes to `rs1`, the base register to `rs2`.
pub open spec fn s_type(op: Operation, ins: u32, offset: usize) -> Instruction {
    make(op, Operand::Nothing, reg(spec_rs2(ins)), reg(spec_rs1(ins)), Operand::ImmS32(spec_imm12_s(ins)), offset, 4)
}

/// U-type: `rd, imm20`.
pub open spec fn u_type(op: Operation, ins: u32, offset: usize) -> Instruction {
    make(op, reg(spec_rd(ins)), Operand::Nothing, Operand::Nothing, Operand::ImmS32(spec_imm20(ins)), offset, 4)
}

/// J-type: `rd, offset`.
pub open spec fn j_type(op: Operation, ins: u32, offset: usize) -> Instruction {
    make(op, reg(spec_rd(ins)), Operand::Nothing, Operand::Nothing, Operand::ImmS32(spec_jimm20(ins)), offset, 4)
}

/// B-type: `rs1, rs2, offset`.
pub open spec fn b_type(op: Operation, ins: u32, offset: usize) -> Instruction {
    make(op, Operand::Nothing, reg(spec_rs1(ins)), reg(spec_rs2(ins)), Operand::ImmS32(spec_branch(ins)), offset, 4)
}

/// CSR access: `rd, csr, rs1`.
pub open spec fn csr_type(op: Operation, ins: u32, offset: usize) -> Instruction {
    make(op, reg(spec_rd(ins)), reg(spec_rs1(ins)), Operand::Nothing, Operand::ImmU32(bits32(ins, 31, 20)), offset, 4)
}

fn instr_op_rd_rs1_rs2(op: Operation, ins: u32, offset: usize) -> (r: Instruction)
    ensures
        r == r_type(op, ins, offset),
{
    Instruction {
        operation: op,
        rd: Operand::Reg(rd(ins) as u8),
        rs1: Operand::Reg(rs1(ins) as u8),
        rs2: Operand::Reg(rs2(ins) as u8),
        rs3: Operand::Nothing,
        imm: Operand::Nothing,
        offset,
        ins_size: 4,
    }
}

fn instr_op_rd_rs1_imm12(op: Operation, ins: u32, offset: usize) -> (r: Instruction)
    ensures
        r == i_type(op, ins, offset),
{
    Instruction {
        operation: op,
        rd: Operand::Reg(rd(ins) as u8),
        rs1: Operand::Reg(rs1(ins) as u8),
        rs2: Operand::Nothing,
        rs3: Operand::Nothing,
        imm: Operand::ImmS32(imm12(ins)),
        offset,
        ins_size: 4,
    }
}

fn instr_op_rd_rs1_shamt(op: Operation, ins: u32, offset: usize) -> (r: Instruction)
    ensures
        r == sh_type(op, ins, offset),
{
    Instruction {
        operation: op,
        rd: Operand::Reg(rd(ins) as u8),
        rs1: Operand::Reg(rs1(ins) as u8),
        rs2: Operand::Nothing,
        rs3: Operand::Nothing,
        imm: Operand::ImmU32(shamt(ins)),
        offset,
        ins_size: 4,
    }
}

fn instr_op_rs1_rs2_imm12_s(op: Operation, ins: u32, offset: usize) -> (r: Instruction)
    ensures
        r == s_type(op, ins, offset),
{
    Instruction {
        operation: op,
        rd: Operand::Nothing,
        rs1: Operand::Reg(rs2(ins) as u8),
        rs2: Operand::Reg(rs1(ins) as u8),
        rs3: Operand::Nothing,
        imm: Operand::ImmS32(imm12_s(ins)),
        offset,
        ins_size: 4,
    }
}

fn instr_op_rd_imm20(op: Operation, ins: u32, offset: usize) -> (r: Instruction)
    ensures
        r == u_type(op, ins, offset),
{
    Instruction {
        operation: op,
        rd: Operand::Reg(rd(ins) as u8),
        rs1: Operand::Nothing,
        rs2: Operand::Nothing,
        rs3: Operand::Nothing,
        imm: Operand::ImmS32(imm20(ins)),
        offset,
        ins_size: 4,
    }
}

fn instr_op_rd_jimm20(op: Operation, ins: u32, offset: usize) -> (r: Instruction)
    ensures
        r == j_type(op, ins, offset),
{
    Instruction {
        operation: op,
        rd: Operand::Reg(rd(ins) as u8),
        rs1: Operand::Nothing,
        rs2: Operand::Nothing,
        rs3: Operand::Nothing,
        imm: Operand::ImmS32(jimm20(ins)),
        offset,
        ins_size: 4,
    }
}

fn instr_op_rs1_rs2_branch(op: Operation, ins: u32, offset: usize) -> (r: Instruction)
    ensures
        r == b_type(op, ins, offset),
{
    Instruction {
        operation: op,
        rd: Operand::Nothing,
        rs1: Operand::Reg(rs1(ins) as u8),
        rs2: Operand::Reg(rs2(ins) as u8),
        rs3: Operand::Nothing,
        imm: Operand::ImmS32(branch(ins)),
        offset,
        ins_size: 4,
    }
}

fn instr_op_rs1_csr(op: Operation, ins: u32, offset: usize) -> (r: Instruction)
    ensures
        r == csr_type(op, ins, offset),
{
    Instruction {
        operation: op,
        rd: Operand::Reg(rd(ins) as u8),
        rs1: Operand::Reg(rs1(ins) as u8),
        rs2: Operand::Nothing,
        rs3: Operand::Nothing,
        imm: Operand::ImmU32(csr(ins)),
        offset,
        ins_size: 4,
    }
}

fn disassemble_lui(ins: u32, offset: usize) -> (r: Instruction)
    ensures
        r == u_type(Operation::Lui, ins, offset),
{
    instr_op_rd_imm20(Operation::Lui, ins, offset)
}

fn disassemble_auipc(ins: u32, offset: usize) -> (r: Instruction)
    ensures
        r == u_type(Operation::Auipc, ins, offset),
{
    instr_op_rd_imm20(Operation::Auipc, ins, offset)
}

fn disassemble_jal(ins: u32, offset: usize) -> (r: Instruction)
    ensures
        r == j_type(Operation::Jal, ins, offset),
{
    instr_op_rd_jimm20(Operation::Jal, ins, offset)
}

fn disassemble_jalr(ins: u32, offset: usize) -> (r: Instruction)
    ensures
        r == i_type(Operation::Jalr, ins, offset),
{
    instr_op_rd_rs1_imm12(Operation::Jalr, ins, offset)
}

fn disassemble_beq(ins: u32, offset: usize) -> (r: Instruction)
    ensures
        r == b_type(Operation::Beq, ins, offset),
{
    instr_op_rs1_rs2_branch(Operation::Beq, ins, offset)
}

fn disassemble_bne(ins: u32, offset: usize) -> (r: Instruction)
    ensures
        r == b_type(Operation::Bne, ins, offset),
{
    instr_op_rs1_rs2_branch(Operation::Bne, ins, offset)
}

fn disassemble_blt(ins: u32, offset: usize) -> (r: Instruction)
    ensures
        r == b_type(Operation::Blt, ins, offset),
{
    instr_op_rs1_rs2_branch(Operation::Blt, ins, offset)
}

fn disassemble_bge(ins: u32, offset: usize) -> (r: Instruction)
    ensures
        r == b_type(Operation::Bge, ins, offset),
{
    instr_op_rs1_rs2_branch(Operation::Bge, ins, offset)
}

fn disassemble_bltu(ins: u32, offset: usize) -> (r: Instruction)
    ensures
        r == b_type(Operation::Bltu, ins, offset),
{
    instr_op_rs1_rs2_branch(Operation::Bltu, ins, offset)
}

fn disassemble_bgeu(ins: u32, offset: usize) -> (r: Instruction)
    ensures
        r == b_type(Operation::Bgeu, ins, offset),
{
    instr_op_rs1_rs2_branch(Operation::Bgeu, ins, offset)
}

fn disassemble_addi(ins: u32, offset: usize) -> (r: Instruction)
    ensures
        r == i_type(Operation::Addi, ins, offset),
{
    instr_op_rd_rs1_imm12(Operation::Addi, ins, offset)
}

fn disassemble_addiw(ins: u32, offset: usize) -> (r: Instruction)
    ensures
        r == i_type(Operation::Addiw, ins, offset),
{
    instr_op_rd_rs1_imm12(Operation::Addiw, ins, offset)
}

fn disassemble_xori(ins: u32, offset: usize) -> (r: Instruction)
    ensures
        r == i_type(Operation::Xori, ins, offset),
{
    instr_op_rd_rs1_imm12(Operation::Xori, ins, offset)
}

fn disassemble_ori(ins: u32, offset: usize) -> (r: Instruction)
    ensures
        r == i_type(Operation::Ori, ins, offset),
{
    instr_op_rd_rs1_imm12(Operation::Ori, ins, offset)
}

fn disassemble_slti(ins: u32, offset: usize) -> (r: Instruction)
    ensures
        r == i_type(Operation::Slti, ins, offset),
{
    instr_op_rd_rs1_imm12(Operation::Slti, ins, offset)
}

fn disassemble_sltui(ins: u32, offset: usize) -> (r: Instruction)
    ensures
        r == i_type(Operation::Sltui, ins, offset),
{
    instr_op_rd_rs1_imm12(Operation::Sltui, ins, offset)
}

fn disassemble_andi(ins: u32, offset: usize) -> (r: Instruction)
    ensures
        r == i_type(Operation::Andi, ins, offset),
{
    instr_op_rd_rs1_imm12(Operation::Andi, ins, offset)
}

fn disassemble_slli(ins: u32, offset: usize) -> (r: Instruction)
    ensures
        r == sh_type(Operation::Slli, ins, offset),
{
    instr_op_rd_rs1_shamt(Operation::Slli, ins, offset)
}

fn disassemble_slliw(ins: u32, offset: usize) -> (r: Instruction)
    ensures
        r == sh_type(Operation::Slliw, ins, offset),
{
    instr_op_rd_rs1_shamt(Operation::Slliw, ins, offset)
}

fn disassemble_srli(ins: u32, offset: usize) -> (r: Instruction)
    ensures
        r == sh_type(Operation::Srli, ins, offset),
{
    instr_op_rd_rs1_shamt(Operation::Srli, ins, offset)
}

fn disassemble_srliw(ins: u32, offset: usize) -> (r: Instruction)
    ensures
        r == sh_type(Operation::Srliw, ins, offset),
{
    instr_op_rd_rs1_shamt(Operation::Srliw, ins, offset)
}

fn disassemble_srai(ins: u32, offset: usize) -> (r: Instruction)
    ensures
        r == sh_type(Operation::Srai, ins, offset),
{
    instr_op_rd_rs1_shamt(Operation::Srai, ins, offset)
}

fn disassemble_sraiw(ins: u32, offset: usize) -> (r: Instruction)
    ensures
        r == sh_type(Operation::Sraiw, ins, offset),
{
    instr_op_rd_rs1_shamt(Operation::Sraiw, ins, offset)
}

fn disassemble_add(ins: u32, offset: usize) -> (r: Instruction)
    ensures
        r == r_type(Operation::Add, ins, offset),
{
    instr_op_rd_rs1_rs2(Operation::Add, ins, offset)
}

fn disassemble_sub(ins: u32, offset: usize) -> (r: Instruction)
    ensures
        r == r_type(Operation::Sub, ins, offset),
{
    instr_op_rd_rs1_rs2(Operation::Sub, ins, offset)
}

fn disassemble_xor(ins: u32, offset: usize) -> (r: Instruction)
    ensures
        r == r_type(Operation::Xor, ins, offset),
{
    instr_op_rd_rs1_rs2(Operation::Xor, ins, offset)
}

fn disassemble_and(ins: u32, offset: usize) -> (r: Instruction)
    ensures
        r == r_type(Operation::And, ins, offset),
{
    instr_op_rd_rs1_rs2(Operation::And, ins, offset)
}

fn disassemble_or(ins: u32, offset: usize) -> (r: Instruction)
    ensures
        r == r_type(Operation::Or, ins, offset),
{
    instr_op_rd_rs1_rs2(Operation::Or, ins, offset)
}

fn disassemble_slt(ins: u32, offset: usize) -> (r: Instruction)
    ensures
        r == r_type(Operation::Slt, ins, offset),
{
    instr_op_rd_rs1_rs2(Operation::Slt, ins, offset)
}

fn disassemble_sltu(ins: u32, offset: usize) -> (r: Instruction)
    ensures
        r == r_type(Operation::Sltu, ins, offset),
{
    instr_op_rd_rs1_rs2(Operation::Sltu, ins, offset)
}

fn disassemble_sll(ins: u32, offset: usize) -> (r: Instruction)
    ensures
        r == r_type(Operation::Sll, ins, offset),
{
    instr_op_rd_rs1_rs2(Operation::Sll, ins, offset)
}

fn disassemble_srl(ins: u32, offset: usize) -> (r: Instruction)
    ensures
        r == r_type(Operation::Srl, ins, offset),
{
    instr_op_rd_rs1_rs2(Operation::Srl, ins, offset)
}

fn disassemble_sra(ins: u32, offset: usize) -> (r: Instruction)
    ensures
        r == r_type(Operation::Sra, ins, offset),
{
    instr_op_rd_rs1_rs2(Operation::Sra, ins, offset)
}

fn disassemble_mul(ins: u32, offset: usize) -> (r: Instruction)
    ensures
        r == r_type(Operation::Mul, ins, offset),
{
    instr_op_rd_rs1_rs2(Operation::Mul, ins, offset)
}

fn disassemble_addw(ins: u32, offset: usize) -> (r: Instruction)
    ensures
        r == r_type(Operation::Addw, ins, offset),
{
    instr_op_rd_rs1_rs2(Operation::Addw, ins, offset)
}

fn disassemble_subw(ins: u32, offset: usize) -> (r: Instruction)
    ensures
        r == r_type(Operation::Subw, ins, offset),
{
    instr_op_rd_rs1_rs2(Operation::Subw, ins, offset)
}

fn disassemble_sllw(ins: u32, offset: usize) -> (r: Instruction)
    ensures
        r == r_type(Operation::Sllw, ins, offset),
{
    instr_op_rd_rs1_rs2(Operation::Sllw, ins, offset)
}

fn disassemble_srlw(ins: u32, offset: usize) -> (r: Instruction)
    ensures
        r == r_type(Operation::Srlw, ins, offset),
{
    instr_op_rd_rs1_rs2(Operation::Srlw, ins, offset)
}

fn disassemble_sraw(ins: u32, offset: usize) -> (r: Instruction)
    ensures
        r == r_type(Operation::Sraw, ins, offset),
{
    instr_op_rd_rs1_rs2(Operation::Sraw, ins, offset)
}

fn disassemble_mulw(ins: u32, offset: usize) -> (r: Instruction)
    ensures
        r == r_type(Operation::Mulw, ins, offset),
{
    instr_op_rd_rs1_rs2(Operation::Mulw, ins, offset)
}

fn disassemble_lb(ins: u32, offset: usize) -> (r: Instruction)
    ensures
        r == i_type(Operation::Lb, ins, offset),
{
    instr_op_rd_rs1_imm12(Operation::Lb, ins, offset)
}

fn disassemble_lbu(ins: u32, offset: usize) -> (r: Instruction)
    ensures
        r == i_type(Operation::Lbu, ins, offset),
{
    instr_op_rd_rs1_imm12(Operation::Lbu, ins, offset)
}

fn disassemble_lh(ins: u32, offset: usize) -> (r: Instruction)
    ensures
        r == i_type(Operation::Lh, ins, offset),
{
    instr_op_rd_rs1_imm12(Operation::Lh, ins, offset)
}

fn disassemble_lhu(ins: u32, offset: usize) -> (r: Instruction)
    ensures
        r == i_type(Operation::Lhu, ins, offset),
{
    instr_op_rd_rs1_imm12(Operation::Lhu, ins, offset)
}

fn disassemble_lw(ins: u32, offset: usize) -> (r: Instruction)
    ensures
        r == i_type(Operation::Lw, ins, offset),
{
    instr_op_rd_rs1_imm12(Operation::Lw, ins, offset)
}

fn disassemble_lwu(ins: u32, offset: usize) -> (r: Instruction)
    ensures
        r == i_type(Operation::Lwu, ins, offset),
{
    instr_op_rd_rs1_imm12(Operation::Lwu, ins, offset)
}

fn disassemble_ld(ins: u32, offset: usize) -> (r: Instruction)
    ensures
        r == i_type(Operation::Ld, ins, offset),
{
    instr_op_rd_rs1_imm12(Operation::Ld, ins, offset)
}

fn disassemble_sb(ins: u32, offset: usize) -> (r: Instruction)
    ensures
        r == s_type(Operation::Sb, ins, offset),
{
    instr_op_rs1_rs2_imm12_s(Operation::Sb, ins, offset)
}

fn disassemble_sh(ins: u32, offset: usize) -> (r: Instruction)
    ensures
        r == s_type(Operation::Sh, ins, offset),
{
    instr_op_rs1_rs2_imm12_s(Operation::Sh, ins, offset)
}

fn disassemble_sw(ins: u32, offset: usize) -> (r: Instruction)
    ensures
        r == s_type(Operation::Sw, ins, offset),
{
    instr_op_rs1_rs2_imm12_s(Operation::Sw, ins, offset)
}

fn disassemble_sd(ins: u32, offset: usize) -> (r: Instruction)
    ensures
        r == s_type(Operation::Sd, ins, offset),
{
    instr_op_rs1_rs2_imm12_s(Operation::Sd, ins, offset)
}

fn disassemble_csrrw(ins: u32, offset: usize) -> (r: Instruction)
    ensures
        r == csr_type(Operation::Csrrw, ins, offset),
{
    instr_op_rs1_csr(Operation::Csrrw, ins, offset)
}

/// Decoding of a 32-bit instruction word (low two bits `11`).
pub open spec fn decode32(ins: u32, offset: usize) -> Option<Instruction> {
    let f3 = spec_funct3(ins);
    let f7 = spec_funct7(ins);
    match spec_opcode(ins) {
        0b0110111 => Some(u_type(Operation::Lui, ins, offset)),
        0b0010111 => Some(u_type(Operation::Auipc, ins, offset)),
        0b1101111 => Some(j_type(Operation::Jal, ins, offset)),
        0b1100111 => Some(i_type(Operation::Jalr, ins, offset)),
        0b1100011 => match f3 {
            0b000 => Some(b_type(Operation::Beq, ins, offset)),
            0b001 => Some(b_type(Operation::Bne, ins, offset)),
            0b100 => Some(b_type(Operation::Blt, ins, offset)),
            0b101 => Some(b_type(Operation::Bge, ins, offset)),
            0b110 => Some(b_type(Operation::Bltu, ins, offset)),
            0b111 => Some(b_type(Operation::Bgeu, ins, offset)),
            _ => None,
        },
        0b0000011 => match f3 {
            0b000 => Some(i_type(Operation::Lb, ins, offset)),
            0b001 => Some(i_type(Operation::Lh, ins, offset)),
            0b010 => Some(i_type(Operation::Lw, ins, offset)),
            0b011 => Some(i_type(Operation::Ld, ins, offset)),
            0b100 => Some(i_type(Operation::Lbu, ins, offset)),
            0b101 => Some(i_type(Operation::Lhu, ins, offset)),
            0b110 => Some(i_type(Operation::Lwu, ins, offset)),
            _ => None,
        },
        0b0100011 => match f3 {
            0b000 => Some(s_type(Operation::Sb, ins, offset)),
            0b001 => Some(s_type(Operation::Sh, ins, offset)),
            0b010 => Some(s_type(Operation::Sw, ins, offset)),
            0b011 => Some(s_type(Operation::Sd, ins, offset)),
            _ => None,
        },
        0b0010011 => match f3 {
            0b000 => Some(i_type(Operation::Addi, ins, offset)),
            0b001 => Some(sh_type(Operation::Slli, ins, offset)),
            0b010 => Some(i_type(Operation::Slti, ins, offset)),
            0b011 => Some(i_type(Operation::Sltui, ins, offset)),
            0b100 => Some(i_type(Operation::Xori, ins, offset)),
            0b101 => match f7 {
                0b0000000 => Some(sh_type(Operation::Srli, ins, offset)),
                0b0100000 => Some(sh_type(Operation::Srai, ins, offset)),
                _ => None,
            },
            0b110 => Some(i_type(Operation::Ori, ins, offset)),
            0b111 => Some(i_type(Operation::Andi, ins, offset)),
            _ => None,
        },
        0b0011011 => match f3 {
            0b000 => Some(i_type(Operation::Addiw, ins, offset)),
            0b001 => Some(sh_type(Operation::Slliw, ins, offset)),
            0b101 => match f7 {
                0b0000000 => Some(sh_type(Operation::Srliw, ins, offset)),
                0b0100000 => Some(sh_type(Operation::Sraiw, ins, offset)),
                _ => None,
            },
            _ => None,
        },
        0b0110011 => match f3 {
            0b000 => match f7 {
                0b0000000 => Some(r_type(Operation::Add, ins, offset)),
                0b0000001 => Some(r_type(Operation::Mul, ins, offset)),
                0b0100000 => Some(r_type(Operation::Sub, ins, offset)),
                _ => None,
            },
            0b001 => Some(r_type(Operation::Sll, ins, offset)),
            0b010 => Some(r_type(Operation::Slt, ins, offset)),
            0b011 => Some(r_type(Operation::Sltu, ins, offset)),
            0b100 => Some(r_type(Operation::Xor, ins, offset)),
            0b101 => match f7 {
                0b0000000 => Some(r_type(Operation::Srl, ins, offset)),
                0b0100000 => Some(r_type(Operation::Sra, ins, offset)),
                _ => None,
            },
            0b110 => Some(r_type(Operation::Or, ins, offset)),
            0b111 => Some(r_type(Operation::And, ins, offset)),
            _ => None,
        },
        0b0111011 => match f3 {
            0b000 => match f7 {
                0b0000000 => Some(r_type(Operation::Addw, ins, offset)),
                0b0000001 => Some(r_type(Operation::Mulw, ins, offset)),
                0b0100000 => Some(r_type(Operation::Subw, ins, offset)),
                _ => None,
            },
            0b001 => Some(r_type(Operation::Sllw, ins, offset)),
            0b101 => match f7 {
                0b0000000 => Some(r_type(Operation::Srlw, ins, offset)),
                0b0100000 => Some(r_type(Operation::Sraw, ins, offset)),
                _ => None,
            },
            _ => None,
        },
        0b1110011 => match f3 {
            0b001 => Some(csr_type(Operation::Csrrw, ins, offset)),
            _ => None,
        },
        _ => None,
    }
}

fn disassemble_32(ins: u32, offset: usize) -> (r: Option<Instruction>)
    ensures
        r == decode32(ins, offset),
{
    let opcode = opcode(ins);
    let funct3 = funct3(ins);
    match opcode {
        0b0110111 => Some(disassemble_lui(ins, offset)),
        0b0010111 => Some(disassemble_auipc(ins, offset)),
        0b1101111 => Some(disassemble_jal(ins, offset)),
        0b1100111 => Some(disassemble_jalr(ins, offset)),
        0b1100011 => match funct3 {
            0b000 => Some(disassemble_beq(ins, offset)),
            0b001 => Some(disassemble_bne(ins, offset)),
            0b100 => Some(disassemble_blt(ins, offset)),
            0b101 => Some(disassemble_bge(ins, offset)),
            0b110 => Some(disassemble_bltu(ins, offset)),
            0b111 => Some(disassemble_bgeu(ins, offset)),
            _ => None,
        },
        0b0000011 => match funct3 {
            0b000 => Some(disassemble_lb(ins, offset)),
            0b001 => Some(disassemble_lh(ins, offset)),
            0b010 => Some(disassemble_lw(ins, offset)),
            0b011 => Some(disassemble_ld(ins, offset)),
            0b100 => Some(disassemble_lbu(ins, offset)),
            0b101 => Some(disassemble_lhu(ins, offset)),
            0b110 => Some(disassemble_lwu(ins, offset)),
            _ => None,
        },
        0b0100011 => match funct3 {
            0b000 => Some(disassemble_sb(ins, offset)),
            0b001 => Some(disassemble_sh(ins, offset)),
            0b010 => Some(disassemble_sw(ins, offset)),
            0b011 => Some(disassemble_sd(ins, offset)),
            _ => None,
        },
        0b0010011 => match funct3 {
            0b000 => Some(disassemble_addi(ins, offset)),
            0b001 => Some(disassemble_slli(ins, offset)),
            0b010 => Some(disassemble_slti(ins, offset)),
            0b011 => Some(disassemble_sltui(ins, offset)),
            0b100 => Some(disassemble_xori(ins, offset)),
            0b101 => match funct7(ins) {
                0b0000000 => Some(disassemble_srli(ins, offset)),
                0b0100000 => Some(disassemble_srai(ins, offset)),
                _ => None,
            },
            0b110 => Some(disassemble_ori(ins, offset)),
            0b111 => Some(disassemble_andi(ins, offset)),
            _ => None,
        },
        0b0011011 => match funct3 {
            0b000 => Some(disassemble_addiw(ins, offset)),
            0b001 => Some(disassemble_slliw(ins, offset)),
            0b101 => match funct7(ins) {
                0b0000000 => Some(disassemble_srliw(ins, offset)),
                0b0100000 => Some(disassemble_sraiw(ins, offset)),
                _ => None,
            },
            _ => None,
        },
        0b0110011 => match funct3 {
            0b000 => match funct7(ins) {
                0b0000000 => Some(disassemble_add(ins, offset)),
                0b0000001 => Some(disassemble_mul(ins, offset)),
                0b0100000 => Some(disassemble_sub(ins, offset)),
                _ => None,
            },
            0b001 => Some(disassemble_sll(ins, offset)),
            0b010 => Some(disassemble_slt(ins, offset)),
            0b011 => Some(disassemble_sltu(ins, offset)),
            0b100 => Some(disassemble_xor(ins, offset)),
            0b101 => match funct7(ins) {
                0b0000000 => Some(disassemble_srl(ins, offset)),
                0b0100000 => Some(disassemble_sra(ins, offset)),
                _ => None,
            },
            0b110 => Some(disassemble_or(ins, offset)),
            0b111 => Some(disassemble_and(ins, offset)),
            _ => None,
        },
        0b0111011 => match funct3 {
            0b000 => match funct7(ins) {
                0b0000000 => Some(disassemble_addw(ins, offset)),
                0b0000001 => Some(disassemble_mulw(ins, offset)),
                0b0100000 => Some(disassemble_subw(ins, offset)),
                _ => None,
            },
            0b001 => Some(disassemble_sllw(ins, offset)),
            0b101 => match funct7(ins) {
                0b0000000 => Some(disassemble_srlw(ins, offset)),
                0b0100000 => Some(disassemble_sraw(ins, offset)),
                _ => None,
            },
            _ => None,
        },
        0b1110011 => match funct3 {
            0b001 => Some(disassemble_csrrw(ins, offset)),
            _ => None,
        },
        _ => None,
    }
}

// ---- 16-bit (compressed) encodings ----

/// `rd'`/`rs2'` field, bits 4..2 (a register among x8..x15).
pub open spec fn spec_rd_rs2_p(ins: u16) -> u16 {
    bits16(ins, 4, 2)
}

/// `rs1'` field, bits 9..7 (a register among x8..x15).
pub open spec fn spec_rs1_p(ins: u16) -> u16 {
    bits16(ins, 9, 7)
}

/// Full `rs2` field, bits 6..2.
pub open spec fn spec_c_rs2(ins: u16) -> u16 {
    bits16(ins, 6, 2)
}

/// Full `rd`/`rs1` field, bits 11..7.
pub open spec fn spec_c_rd(ins: u16) -> u32 {
    bits32(ins as u32, 11, 7)
}

/// C.LW offset: bit 6 to 2, bits 12..10 to 5..3, bit 5 to 6.
pub open spec fn spec_c_uimm7(ins: u16) -> u16 {
    (bits16(ins, 6, 6) << 2u16) | (bits16(ins, 12, 10) << 3u16) | (bits16(ins, 5, 5) << 6u16)
}

/// Six-bit immediate `{ins[12], ins[6:2]}`, sign-extended.
pub open spec fn spec_c_imm6(ins: u16) -> i16 {
    ((if bits16(ins, 12, 12) == 1 {
        0xffe0u16
    } else {
        0u16
    }) | bits16(ins, 6, 2)) as i16
}

/// C.LWSP offset: bits 6..4 to 4..2, bits 3..2 to 7..6, bit 12 to 5.
pub open spec fn spec_c_uimm8sp(ins: u16) -> u16 {
    (bits16(ins, 6, 4) << 2u16) | (bits16(ins, 3, 2) << 6u16) | (bits16(ins, 12, 12) << 5u16)
}

/// C.SWSP offset: bits 12..9 to 5..2, bits 8..7 to 7..6.
pub open spec fn spec_c_uimm8sp_s(ins: u16) -> u16 {
    (bits16(ins, 12, 9) << 2u16) | (bits16(ins, 8, 7) << 6u16)
}

/// C.BEQZ/C.BNEZ offset, nine bits, not sign-extended.
pub open spec fn spec_c_bimm9(ins: u16) -> i16 {
    ((bits16(ins, 12, 12) << 8u16) | (bits16(ins, 11, 10) << 3u16) | (bits16(ins, 6, 5) << 6u16) | (
    bits16(ins, 4, 3) << 1u16) | (bits16(ins, 2, 2) << 5u16)) as i16
}

/// C.J offset, twelve bits, sign-extended.
pub open spec fn spec_c_jimm(ins: u16) -> i16 {
    ((if bits16(ins, 12, 12) == 1 {
        0xf800u16
    } else {
        0u16
    }) | (bits16(ins, 11, 11) << 4u16) | (bits16(ins, 10, 9) << 8u16) | (bits16(ins, 8, 8) << 10u16)
        | (bits16(ins, 7, 7) << 6u16) | (bits16(ins, 6, 6) << 7u16) | (bits16(ins, 5, 3) << 1u16) | (
    bits16(ins, 2, 2) << 5u16)) as i16
}

/// C.LUI immediate: bit 12 to 17, bits 6..2 to 16..12.
pub open spec fn spec_c_lui_imm(ins: u16) -> u32 {
    ((bits16(ins, 12, 12) as u32) << 17u32) | ((bits16(ins, 6, 2) as u32) << 12u32)
}

pub open spec fn c_make(op: Operation, rd: Operand, rs1: Operand, rs2: Operand, imm: Operand, offset: usize) -> Instruction {
    make(op, rd, rs1, rs2, imm, offset, 2)
}

/// A compressed register in x8..x15.
pub open spec fn creg(x: u16) -> Operand {
    Operand::Reg((x + 8) as u8)
}

/// The two-register arithmetic forms: the register of bits 4..2 is both
/// destination and first source, the register of bits 9..7 the second
/// source.
pub open spec fn c_arith(op: Operation, ins: u16, offset: usize) -> Instruction {
    c_make(op, creg(spec_rd_rs2_p(ins)), creg(spec_rd_rs2_p(ins)), creg(spec_rs1_p(ins)), Operand::Nothing, offset)
}

/// Decoding of a 16-bit compressed instruction (low two bits not `11`).
pub open spec fn decode16(ins: u16, offset: usize) -> Option<Instruction> {
    let op = bits16(ins, 1, 0);
    let funct = bits16(ins, 15, 13);
    let rd = reg(spec_c_rd(ins));
    if op == 0 {
        if funct == 0b010 {
            Some(c_make(Operation::Lw, creg(spec_rd_rs2_p(ins)), creg(spec_rs1_p(ins)), Operand::Nothing, Operand::ImmU16(spec_c_uimm7(ins)), offset))
        } else {
            None
        }
    } else if op == 1 {
        if funct == 0b000 {
            Some(c_make(Operation::Addi, rd, rd, Operand::Nothing, Operand::ImmS16(spec_c_imm6(ins)), offset))
        } else if funct == 0b010 {
            Some(c_make(Operation::Li, rd, Operand::Nothing, Operand::Nothing, Operand::ImmS16(spec_c_imm6(ins)), offset))
        } else if funct == 0b011 {
            Some(c_make(Operation::Lui, rd, Operand::Nothing, Operand::Nothing, Operand::ImmU32(spec_c_lui_imm(ins)), offset))
        } else if funct == 0b100 {
            if bits16(ins, 11, 10) != 0b11 {
                None
            } else if bits16(ins, 12, 12) == 0 {
                let sel = bits16(ins, 6, 5);
                Some(c_arith(if sel == 0 { Operation::Sub } else if sel == 1 { Operation::Xor } else if sel == 2 { Operation::Or } else { Operation::And }, ins, offset))
            } else {
                let sel = bits16(ins, 6, 5);
                if sel == 0 {
                    Some(c_arith(Operation::Subw, ins, offset))
                } else if sel == 1 {
                    Some(c_arith(Operation::Addw, ins, offset))
                } else {
                    None
                }
            }
        } else if funct == 0b101 {
            Some(c_make(Operation::Jal, Operand::Reg(REG_ZERO), Operand::Nothing, Operand::Nothing, Operand::ImmS16(spec_c_jimm(ins)), offset))
        } else if funct == 0b110 || funct == 0b111 {
            Some(c_make(if funct == 0b110 { Operation::Beq } else { Operation::Bne }, Operand::Nothing, creg(spec_rs1_p(ins)), Operand::Reg(REG_ZERO), Operand::ImmS16(spec_c_bimm9(ins)), offset))
        } else {
            None
        }
    } else if op == 2 {
        if funct == 0b010 {
            Some(c_make(Operation::Lw, rd, Operand::Reg(REG_SP), Operand::Nothing, Operand::ImmU16(spec_c_uimm8sp(ins)), offset))
        } else if funct == 0b100 {
            let sel = bits16(ins, 12, 11);
            let rs2 = spec_c_rs2(ins);
            if sel == 0 {
                if rs2 == 0 {
                    Some(c_make(Operation::Jalr, Operand::Reg(REG_ZERO), rd, Operand::Nothing, Operand::ImmS16(0), offset))
                } else {
                    Some(c_make(Operation::Add, rd, Operand::Reg(REG_ZERO), Operand::Reg(rs2 as u8), Operand::Nothing, offset))
                }
            } else if sel == 1 {
                if rs2 == 0 {
                    Some(c_make(Operation::Jalr, Operand::Reg(REG_RA), rd, Operand::Nothing, Operand::ImmS16(0), offset))
                } else {
                    Some(c_make(Operation::Add, rd, rd, Operand::Reg(rs2 as u8), Operand::Nothing, offset))
                }
            } else {
                None
            }
        } else if funct == 0b110 {
            Some(c_make(Operation::Sw, Operand::Nothing, Operand::Reg(spec_c_rs2(ins) as u8), Operand::Reg(REG_SP), Operand::ImmU16(spec_c_uimm8sp_s(ins)), offset))
        } else {
            None
        }
    } else {
        None
    }
}

fn rd_rs2_p(ins: u16) -> (r: u16)
    ensures
        r == spec_rd_rs2_p(ins),
        r < 8,
{
    let r = ins.bextr(4, 2);
    assert(r < 8) by (bit_vector)
        requires
            r == (ins >> 2u16) & (0xffffu16 >> 13u16),
    ;
    r
}

fn rs1_p(ins: u16) -> (r: u16)
    ensures
        r == spec_rs1_p(ins),
        r < 8,
{
    let r = ins.bextr(9, 7);
    assert(r < 8) by (bit_vector)
        requires
            r == (ins >> 7u16) & (0xffffu16 >> 13u16),
    ;
    r
}

fn c_rs2(ins: u16) -> (r: u16)
    ensures
        r == spec_c_rs2(ins),
{
    ins.bextr(6, 2)
}

fn c_rd(ins: u16) -> (r: u32)
    ensures
        r == spec_c_rd(ins),
{
    (ins as u32).bextr(11, 7)
}

fn c_uimm7(ins: u16) -> (r: u16)
    ensures
        r == spec_c_uimm7(ins),
{
    (ins.bextr(6, 6) << 2u16) | (ins.bextr(12, 10) << 3u16) | (ins.bextr(5, 5) << 6u16)
}

fn c_imm6(ins: u16) -> (r: i16)
    ensures
        r == spec_c_imm6(ins),
{
    let hi: u16 = if ins.bextr(12, 12) == 1 {
        0xffe0u16
    } else {
        0u16
    };
    (hi | ins.bextr(6, 2)) as i16
}

fn c_uimm8sp(ins: u16) -> (r: u16)
    ensures
        r == spec_c_uimm8sp(ins),
{
    (ins.bextr(6, 4) << 2u16) | (ins.bextr(3, 2) << 6u16) | (ins.bextr(12, 12) << 5u16)
}

fn c_uimm8sp_s(ins: u16) -> (r: u16)
    ensures
        r == spec_c_uimm8sp_s(ins),
{
    (ins.bextr(12, 9) << 2u16) | (ins.bextr(8, 7) << 6u16)
}

fn c_bimm9(ins: u16) -> (r: i16)
    ensures
        r == spec_c_bimm9(ins),
{
    ((ins.bextr(12, 12) << 8u16) | (ins.bextr(11, 10) << 3u16) | (ins.bextr(6, 5) << 6u16) | (ins.bextr(4, 3)
        << 1u16) | (ins.bextr(2, 2) << 5u16)) as i16
}

fn c_jimm(ins: u16) -> (r: i16)
    ensures
        r == spec_c_jimm(ins),
{
    let hi: u16 = if ins.bextr(12, 12) == 1 {
        0xf800u16
    } else {
        0u16
    };
    (hi | (ins.bextr(11, 11) << 4u16) | (ins.bextr(10, 9) << 8u16) | (ins.bextr(8, 8) << 10u16) | (ins.bextr(
        7,
        7,
    ) << 6u16) | (ins.bextr(6, 6) << 7u16) | (ins.bextr(5, 3) << 1u16) | (ins.bextr(2, 2) << 5u16)) as i16
}

fn c_ins(op: Operation, rd: Operand, rs1: Operand, rs2: Operand, imm: Operand, offset: usize) -> (r: Instruction)
    ensures
        r == c_make(op, rd, rs1, rs2, imm, offset),
{
    Instruction { operation: op, rd, rs1, rs2, rs3: Operand::Nothing, imm, offset, ins_size: 2 }
}

fn disassemble_c_lw(ins: u16, offset: usize) -> (r: Instruction)
    ensures
        r == c_make(Operation::Lw, creg(spec_rd_rs2_p(ins)), creg(spec_rs1_p(ins)), Operand::Nothing, Operand::ImmU16(spec_c_uimm7(ins)), offset),
{
    c_ins(Operation::Lw, Operand::Reg(rd_rs2_p(ins) as u8 + REG_S0), Operand::Reg(rs1_p(ins) as u8 + REG_S0), Operand::Nothing, Operand::ImmU16(c_uimm7(ins)), offset)
}

fn disassemble_c_li(ins: u16, offset: usize) -> (r: Instruction)
    ensures
        r == c_make(Operation::Li, reg(spec_c_rd(ins)), Operand::Nothing, Operand::Nothing, Operand::ImmS16(spec_c_imm6(ins)), offset),
{
    c_ins(Operation::Li, Operand::Reg(c_rd(ins) as u8), Operand::Nothing, Operand::Nothing, Operand::ImmS16(c_imm6(ins)), offset)
}

fn disassemble_c_lui(ins: u16, offset: usize) -> (r: Instruction)
    ensures
        r == c_make(Operation::Lui, reg(spec_c_rd(ins)), Operand::Nothing, Operand::Nothing, Operand::ImmU32(spec_c_lui_imm(ins)), offset),
{
    c_ins(Operation::Lui, Operand::Reg(c_rd(ins) as u8), Operand::Nothing, Operand::Nothing, Operand::ImmU32(((ins.bextr(12, 12) as u32) << 17u32) | ((ins.bextr(6, 2) as u32) << 12u32)), offset)
}

fn disassemble_c_addi(ins: u16, offset: usize) -> (r: Instruction)
    ensures
        r == c_make(Operation::Addi, reg(spec_c_rd(ins)), reg(spec_c_rd(ins)), Operand::Nothing, Operand::ImmS16(spec_c_imm6(ins)), offset),
{
    c_ins(Operation::Addi, Operand::Reg(c_rd(ins) as u8), Operand::Reg(c_rd(ins) as u8), Operand::Nothing, Operand::ImmS16(c_imm6(ins)), offset)
}

fn disassemble_c_jr(ins: u16, offset: usize) -> (r: Instruction)
    ensures
        r == c_make(Operation::Jalr, Operand::Reg(REG_ZERO), reg(spec_c_rd(ins)), Operand::Nothing, Operand::ImmS16(0), offset),
{
    c_ins(Operation::Jalr, Operand::Reg(REG_ZERO), Operand::Reg(c_rd(ins) as u8), Operand::Nothing, Operand::ImmS16(0), offset)
}

fn disassemble_c_jalr(ins: u16, offset: usize) -> (r: Instruction)
    ensures
        r == c_make(Operation::Jalr, Operand::Reg(REG_RA), reg(spec_c_rd(ins)), Operand::Nothing, Operand::ImmS16(0), offset),
{
    c_ins(Operation::Jalr, Operand::Reg(REG_RA), Operand::Reg(c_rd(ins) as u8), Operand::Nothing, Operand::ImmS16(0), offset)
}

fn disassemble_c_mv(ins: u16, offset: usize) -> (r: Instruction)
    ensures
        r == c_make(Operation::Add, reg(spec_c_rd(ins)), Operand::Reg(REG_ZERO), Operand::Reg(spec_c_rs2(ins) as u8), Operand::Nothing, offset),
{
    c_ins(Operation::Add, Operand::Reg(c_rd(ins) as u8), Operand::Reg(REG_ZERO), Operand::Reg(c_rs2(ins) as u8), Operand::Nothing, offset)
}

fn disassemble_c_add(ins: u16, offset: usize) -> (r: Instruction)
    ensures
        r == c_make(Operation::Add, reg(spec_c_rd(ins)), reg(spec_c_rd(ins)), Operand::Reg(spec_c_rs2(ins) as u8), Operand::Nothing, offset),
{
    c_ins(Operation::Add, Operand::Reg(c_rd(ins) as u8), Operand::Reg(c_rd(ins) as u8), Operand::Reg(c_rs2(ins) as u8), Operand::Nothing, offset)
}

fn disassemble_c_j(ins: u16, offset: usize) -> (r: Instruction)
    ensures
        r == c_make(Operation::Jal, Operand::Reg(REG_ZERO), Operand::Nothing, Operand::Nothing, Operand::ImmS16(spec_c_jimm(ins)), offset),
{
    c_ins(Operation::Jal, Operand::Reg(REG_ZERO), Operand::Nothing, Operand::Nothing, Operand::ImmS16(c_jimm(ins)), offset)
}

fn disassemble_c_lwsp(ins: u16, offset: usize) -> (r: Instruction)
    ensures
        r == c_make(Operation::Lw, reg(spec_c_rd(ins)), Operand::Reg(REG_SP), Operand::Nothing, Operand::ImmU16(spec_c_uimm8sp(ins)), offset),
{
    c_ins(Operation::Lw, Operand::Reg(c_rd(ins) as u8), Operand::Reg(REG_SP), Operand::Nothing, Operand::ImmU16(c_uimm8sp(ins)), offset)
}

fn disassemble_c_swsp(ins: u16, offset: usize) -> (r: Instruction)
    ensures
        r == c_make(Operation::Sw, Operand::Nothing, Operand::Reg(spec_c_rs2(ins) as u8), Operand::Reg(REG_SP), Operand::ImmU16(spec_c_uimm8sp_s(ins)), offset),
{
    c_ins(Operation::Sw, Operand::Nothing, Operand::Reg(c_rs2(ins) as u8), Operand::Reg(REG_SP), Operand::ImmU16(c_uimm8sp_s(ins)), offset)
}

fn disassemble_c_beqz(ins: u16, offset: usize) -> (r: Instruction)
    ensures
        r == c_make(Operation::Beq, Operand::Nothing, creg(spec_rs1_p(ins)), Operand::Reg(REG_ZERO), Operand::ImmS16(spec_c_bimm9(ins)), offset),
{
    c_ins(Operation::Beq, Operand::Nothing, Operand::Reg(rs1_p(ins) as u8 + REG_S0), Operand::Reg(REG_ZERO), Operand::ImmS16(c_bimm9(ins)), offset)
}

fn disassemble_c_bnez(ins: u16, offset: usize) -> (r: Instruction)
    ensures
        r == c_make(Operation::Bne, Operand::Nothing, creg(spec_rs1_p(ins)), Operand::Reg(REG_ZERO), Operand::ImmS16(spec_c_bimm9(ins)), offset),
{
    c_ins(Operation::Bne, Operand::Nothing, Operand::Reg(rs1_p(ins) as u8 + REG_S0), Operand::Reg(REG_ZERO), Operand::ImmS16(c_bimm9(ins)), offset)
}

fn disassemble_c_sub(ins: u16, offset: usize) -> (r: Instruction)
    ensures
        r == c_arith(Operation::Sub, ins, offset),
{
    let rd = Operand::Reg(rd_rs2_p(ins) as u8 + REG_S0);
    c_ins(Operation::Sub, rd, rd, Operand::Reg(rs1_p(ins) as u8 + REG_S0), Operand::Nothing, offset)
}

fn disassemble_c_xor(ins: u16, offset: usize) -> (r: Instruction)
    ensures
        r == c_arith(Operation::Xor, ins, offset),
{
    let rd = Operand::Reg(rd_rs2_p(ins) as u8 + REG_S0);
    c_ins(Operation::Xor, rd, rd, Operand::Reg(rs1_p(ins) as u8 + REG_S0), Operand::Nothing, offset)
}

fn disassemble_c_or(ins: u16, offset: usize) -> (r: Instruction)
    ensures
        r == c_arith(Operation::Or, ins, offset),
{
    let rd = Operand::Reg(rd_rs2_p(ins) as u8 + REG_S0);
    c_ins(Operation::Or, rd, rd, Operand::Reg(rs1_p(ins) as u8 + REG_S0), Operand::Nothing, offset)
}

fn disassemble_c_and(ins: u16, offset: usize) -> (r: Instruction)
    ensures
        r == c_arith(Operation::And, ins, offset),
{
    let rd = Operand::Reg(rd_rs2_p(ins) as u8 + REG_S0);
    c_ins(Operation::And, rd, rd, Operand::Reg(rs1_p(ins) as u8 + REG_S0), Operand::Nothing, offset)
}

fn disassemble_c_subw(ins: u16, offset: usize) -> (r: Instruction)
    ensures
        r == c_arith(Operation::Subw, ins, offset),
{
    let rd = Operand::Reg(rd_rs2_p(ins) as u8 + REG_S0);
    c_ins(Operation::Subw, rd, rd, Operand::Reg(rs1_p(ins) as u8 + REG_S0), Operand::Nothing, offset)
}

fn disassemble_c_addw(ins: u16, offset: usize) -> (r: Instruction)
    ensures
        r == c_arith(Operation::Addw, ins, offset),
{
    let rd = Operand::Reg(rd_rs2_p(ins) as u8 + REG_S0);
    c_ins(Operation::Addw, rd, rd, Operand::Reg(rs1_p(ins) as u8 + REG_S0), Operand::Nothing, offset)
}

fn disassemble_16(ins: u16, offset: usize) -> (r: Option<Instruction>)
    ensures
        r == decode16(ins, offset),
{
    let op = ins.bextr(1, 0);
    let funct = ins.bextr(15, 13);
    match op {
        0b00 => match funct {
            0b010 => Some(disassemble_c_lw(ins, offset)),
            _ => None,
        },
        0b01 => match funct {
            0b000 => Some(disassemble_c_addi(ins, offset)),
            0b010 => Some(disassemble_c_li(ins, offset)),
            0b011 => Some(disassemble_c_lui(ins, offset)),
            0b100 => match ins.bextr(11, 10) {
                0b11 => match ins.bextr(12, 12) {
                    0b0 => match ins.bextr(6, 5) {
                        0b00 => Some(disassemble_c_sub(ins, offset)),
                        0b01 => Some(disassemble_c_xor(ins, offset)),
                        0b10 => Some(disassemble_c_or(ins, offset)),
                        _ => Some(disassemble_c_and(ins, offset)),
                    },
                    _ => match ins.bextr(6, 5) {
                        0b00 => Some(disassemble_c_subw(ins, offset)),
                        0b01 => Some(disassemble_c_addw(ins, offset)),
                        _ => None,
                    },
                },
                _ => None,
            },
            0b101 => Some(disassemble_c_j(ins, offset)),
            0b110 => Some(disassemble_c_beqz(ins, offset)),
            0b111 => Some(disassemble_c_bnez(ins, offset)),
            _ => None,
        },
        0b10 => match funct {
            0b010 => Some(disassemble_c_lwsp(ins, offset)),
            0b100 => match ins.bextr(12, 11) {
                0b00 => if c_rs2(ins) == 0 {
                    Some(disassemble_c_jr(ins, offset))
                } else {
                    Some(disassemble_c_mv(ins, offset))
                },
                0b01 => if c_rs2(ins) == 0 {
                    Some(disassemble_c_jalr(ins, offset))
                } else {
                    Some(disassemble_c_add(ins, offset))
                },
                _ => None,
            },
            0b110 => Some(disassemble_c_swsp(ins, offset)),
            _ => None,
        },
        _ => None,
    }
}

// ---- driver ----

/// An undecodable stretch of `size` bytes at `offset`.
pub open spec fn unknown(offset: usize, size: u8) -> Instruction {
    make(Operation::Unknown, Operand::Nothing, Operand::Nothing, Operand::Nothing, Operand::Nothing, offset, size)
}

/// Whether the halfword at `off` announces a 32-bit instruction.
pub open spec fn is_wide(b: Seq<u8>, off: int) -> bool {
    (le16(b, off) as u16) & 3u16 == 3u16
}

/// Decoding at `off`: a 32-bit instruction if the low two bits are `11` and
/// four bytes remain, a compressed one otherwise. `None` where nothing
/// decodes.
pub open spec fn decode_at(b: Seq<u8>, off: int) -> Option<Instruction> {
    if is_wide(b, off) {
        if off + 4 <= b.len() {
            decode32(le32(b, off) as u32, off as usize)
        } else {
            None
        }
    } else {
        decode16(le16(b, off) as u16, off as usize)
    }
}

/// How far the driver advances from `off`.
pub open spec fn step_size(b: Seq<u8>, off: int) -> int {
    if is_wide(b, off) && off + 4 <= b.len() {
        4
    } else {
        2
    }
}

/// The instruction that the driver records at `off`.
#[verifier::opaque]
pub open spec fn step(b: Seq<u8>, off: int) -> Instruction {
    match decode_at(b, off) {
        Some(i) => i,
        None => unknown(off as usize, step_size(b, off) as u8),
    }
}

/// The instructions of `b` from `off` on, while two bytes remain.
pub open spec fn listing(b: Seq<u8>, off: int) -> Seq<Instruction>
    decreases b.len() - off,
{
    if off < 0 || off + 2 > b.len() {
        Seq::empty()
    } else {
        seq![step(b, off)] + listing(b, off + step_size(b, off))
    }
}

/// Offsets and sizes of a list of instructions.
pub open spec fn spans(s: Seq<Instruction>) -> Seq<(int, int)> {
    Seq::new(s.len(), |i: int| (s[i].offset as int, s[i].ins_size as int))
}

proof fn lemma_step(b: Seq<u8>, off: int)
    requires
        0 <= off,
        off + 2 <= b.len(),
        off <= usize::MAX,
    ensures
        step(b, off).offset == off,
        step(b, off).ins_size == step_size(b, off),
{
    reveal(step);
}

/// The listing of `b` from `off` covers `[off, end)` without gap, where `end`
/// is the last position of the same parity as `off` not beyond `b.len()`.
pub proof fn lemma_listing_tiles(b: Seq<u8>, off: int)
    requires
        0 <= off <= b.len(),
        b.len() <= usize::MAX,
    ensures
        tiles(spans(listing(b, off)), off, b.len() - (b.len() - off) % 2),
    decreases b.len() - off,
{
    if off + 2 > b.len() {
        assert(spans(listing(b, off)) =~= Seq::<(int, int)>::empty());
    } else {
        let n = step_size(b, off);
        lemma_step(b, off);
        lemma_listing_tiles(b, off + n);
        let rest = spans(listing(b, off + n));
        assert(spans(listing(b, off)) =~= seq![(off, n)] + rest);
        lemma_tiles_cons((off, n), rest, off + n, b.len() - (b.len() - off - n) % 2);
    }
}

/// Decodes the instruction at `offset`.
fn disassemble_instruction(bytes: &[u8], offset: usize) -> (r: Option<Instruction>)
    requires
        offset + 2 <= bytes@.len(),
    ensures
        r == decode_at(bytes@, offset as int),
{
    let ins = read_u16_from_slice(bytes, offset, LITTLE_ENDIAN);
    if (ins & 3) == 3 {
        if bytes.len() - offset >= 4 {
            return disassemble_32(read_u32_from_slice(bytes, offset, LITTLE_ENDIAN), offset);
        }
        return None;
    }
    disassemble_16(ins, offset)
}

/// Decodes a whole byte range; unknown encodings become `Unknown` entries of
/// 4 bytes (low bits `11`) or 2 bytes.
pub fn decode_all(bytes: &[u8]) -> (r: Vec<Instruction>)
    ensures
        r@ == listing(bytes@, 0),
        tiles(spans(r@), 0, bytes@.len() - bytes@.len() % 2),
{
    let mut instrs: Vec<Instruction> = Vec::new();
    let mut offset: usize = 0;
    let len = bytes.len();
    while offset < len && len - offset >= 2
        invariant
            len == bytes@.len(),
            offset <= len,
            instrs@ + listing(bytes@, offset as int) == listing(bytes@, 0),
        decreases len - offset,
    {
        proof {
            lemma_step(bytes@, offset as int);
        }
        let ghost before = instrs@;
        let ins = match disassemble_instruction(bytes, offset) {
            Some(i) => i,
            None => {
                let h = read_u16_from_slice(bytes, offset, LITTLE_ENDIAN);
                let size: u8 = if (h & 3) == 3 && len - offset >= 4 {
                    4
                } else {
                    2
                };
                Instruction {
                    operation: Operation::Unknown,
                    rd: Operand::Nothing,
                    rs1: Operand::Nothing,
                    rs2: Operand::Nothing,
                    rs3: Operand::Nothing,
                    imm: Operand::Nothing,
                    offset,
                    ins_size: size,
                }
            },
        };
        assert(ins == step(bytes@, offset as int)) by {
            reveal(step);
        }
        instrs.push(ins);
        offset = offset + ins.ins_size as usize;
        assert(instrs@ + listing(bytes@, offset as int) =~= before + listing(bytes@, (offset - ins.ins_size) as int));
    }
    assert(listing(bytes@, offset as int) =~= Seq::<Instruction>::empty());
    assert(instrs@ =~= listing(bytes@, 0));
    proof {
        lemma_listing_tiles(bytes@, 0);
    }
    instrs
}

/// Disassembles a RISC-V section.
pub fn disassemble_riscv(section: &Section, section_name: &String, _program: &Program) -> (r: DisassemblySection)
    ensures
        r.section_name@ == section_name@,
        r.instructions matches InstructionListing::Rv(v) && v@ == listing(section.bytes@, 0) && tiles(
            spans(v@),
            0,
            section.bytes@.len() - section.bytes@.len() % 2,
        ),
{
    DisassemblySection {
        section_name: section_name.clone(),
        instructions: InstructionListing::Rv(decode_all(section.bytes.as_slice())),
    }
}

// ---- laws ----

/// `C.JR rs1` and `JALR x0, rs1, 0` lift to the same statement (`Goto(rs1)`,
/// or `Return` for `ra`), for every register whose compressed encoding has
/// bit 11 clear.
pub proof fn lemma_compressed_jr_lifts_as_jalr(r: u16, o1: usize, o2: usize)
    requires
        r < 16,
    ensures
        ({
            let c = 0x8002u16 | (r << 7u16);
            let w = 0x67u32 | ((r as u32) << 15u32);
            &&& decode16(c, o1) is Some
            &&& decode32(w, o2) is Some
            &&& lift(decode16(c, o1)->Some_0) == lift(decode32(w, o2)->Some_0)
        }),
{
    let c = 0x8002u16 | (r << 7u16);
    let w = 0x67u32 | ((r as u32) << 15u32);
    assert((c >> 0u16) & (0xffffu16 >> 14u16) == 2) by (bit_vector)
        requires
            c == 0x8002u16 | (r << 7u16),
            r < 16,
    ;
    assert((c >> 13u16) & (0xffffu16 >> 13u16) == 4) by (bit_vector)
        requires
            c == 0x8002u16 | (r << 7u16),
            r < 16,
    ;
    assert((c >> 11u16) & (0xffffu16 >> 14u16) == 0) by (bit_vector)
        requires
            c == 0x8002u16 | (r << 7u16),
            r < 16,
    ;
    assert((c >> 2u16) & (0xffffu16 >> 11u16) == 0) by (bit_vector)
        requires
            c == 0x8002u16 | (r << 7u16),
            r < 16,
    ;
    let cw = c as u32;
    assert((cw >> 7u32) & (0xffff_ffffu32 >> 27u32) == r as u32) by (bit_vector)
        requires
            cw == (0x8002u16 | (r << 7u16)) as u32,
            r < 16,
    ;
    assert((w >> 0u32) & (0xffff_ffffu32 >> 25u32) == 0x67) by (bit_vector)
        requires
            w == 0x67u32 | ((r as u32) << 15u32),
            r < 16,
    ;
    assert((w >> 12u32) & (0xffff_ffffu32 >> 29u32) == 0) by (bit_vector)
        requires
            w == 0x67u32 | ((r as u32) << 15u32),
            r < 16,
    ;
    assert((w >> 7u32) & (0xffff_ffffu32 >> 27u32) == 0) by (bit_vector)
        requires
            w == 0x67u32 | ((r as u32) << 15u32),
            r < 16,
    ;
    assert((w >> 15u32) & (0xffff_ffffu32 >> 27u32) == r as u32) by (bit_vector)
        requires
            w == 0x67u32 | ((r as u32) << 15u32),
            r < 16,
    ;
    let wi = w as i32;
    let f = (wi as u32 >> 20u32) & (0xffff_ffffu32 >> 20u32);
    assert(f == 0 && (f >> 11u32) & 1 == 0) by (bit_vector)
        requires
            w == 0x67u32 | ((r as u32) << 15u32),
            wi == w as i32,
            f == (wi as u32 >> 20u32) & (0xffff_ffffu32 >> 20u32),
            r < 16,
    ;
    assert(spec_imm12(w) == 0);
}

/// Whether the register operands of `i` are architectural registers.
pub open spec fn operands_ok(i: Instruction) -> bool {
    &&& (i.rd matches Operand::Reg(x) ==> x < 32)
    &&& (i.rs1 matches Operand::Reg(x) ==> x < 32)
    &&& (i.rs2 matches Operand::Reg(x) ==> x < 32)
    &&& !(i.imm is Reg)
}

proof fn lemma_fields_bounded(ins: u32, c: u16)
    ensures
        spec_rd(ins) < 32,
        spec_rs1(ins) < 32,
        spec_rs2(ins) < 32,
        spec_rd_rs2_p(c) < 8,
        spec_rs1_p(c) < 8,
        spec_c_rs2(c) < 32,
        spec_c_rd(c) < 32,
{
    assert((ins >> 7u32) & (0xffff_ffffu32 >> 27u32) < 32) by (bit_vector);
    assert((ins >> 15u32) & (0xffff_ffffu32 >> 27u32) < 32) by (bit_vector);
    assert((ins >> 20u32) & (0xffff_ffffu32 >> 27u32) < 32) by (bit_vector);
    assert((c >> 2u16) & (0xffffu16 >> 13u16) < 8) by (bit_vector);
    assert((c >> 7u16) & (0xffffu16 >> 13u16) < 8) by (bit_vector);
    assert((c >> 2u16) & (0xffffu16 >> 11u16) < 32) by (bit_vector);
    let cw = c as u32;
    assert((cw >> 7u32) & (0xffff_ffffu32 >> 27u32) < 32) by (bit_vector);
}

proof fn lemma_step_operands(b: Seq<u8>, off: int)
    requires
        0 <= off,
        off + 2 <= b.len(),
    ensures
        operands_ok(step(b, off)),
{
    reveal(step);
    lemma_fields_bounded(le32(b, off) as u32, le16(b, off) as u16);
}

proof fn lemma_listing_operands(b: Seq<u8>, off: int)
    requires
        0 <= off,
    ensures
        forall|k: int| 0 <= k < listing(b, off).len() ==> operands_ok(#[trigger] listing(b, off)[k]),
    decreases b.len() - off,
{
    if off + 2 <= b.len() {
        lemma_step_operands(b, off);
        lemma_listing_operands(b, off + step_size(b, off));
        let l = listing(b, off);
        assert forall|k: int| 0 <= k < l.len() implies operands_ok(#[trigger] l[k]) by {
            if k > 0 {
                assert(l[k] == listing(b, off + step_size(b, off))[k - 1]);
            }
        }
    }
}

proof fn lemma_name_in_set(r: u8)
    requires
        r < 32,
    ensures
        register_set().contains(reg_name(r)),
{
    assert(Set::new(|s: Seq<char>| exists|x: u8| x < 32 && s == reg_name(x)).contains(reg_name(r)));
}

proof fn lemma_operand_registers(o: Operand)
    requires
        o matches Operand::Reg(x) ==> x < 32,
    ensures
        regs_within(operand_expr(o), register_set()),
{
    if let Operand::Reg(x) = o {
        lemma_name_in_set(x);
    }
}

proof fn lemma_lift_registers(i: Instruction)
    requires
        operands_ok(i),
    ensures
        regs_within(lift(i), register_set()),
{
    let names = register_set();
    assert(names.contains("pc"@));
    lemma_operand_registers(i.rd);
    lemma_operand_registers(i.rs1);
    lemma_operand_registers(i.rs2);
    lemma_operand_registers(i.imm);
    let rd = operand_expr(i.rd);
    let rs1 = operand_expr(i.rs1);
    let rs2 = operand_expr(i.rs2);
    let imm = operand_expr(i.imm);
    assert(regs_within(pc_expr(), names));
    assert(regs_within(pc_rel(i.imm), names));
    assert(regs_within(address(i.rs1, i.imm), names));
    assert(regs_within(address(i.rs2, i.imm), names));
    assert(regs_within(ExprV::Constant(0), names));
    assert(regs_within(ExprV::Constant(PC_PAGE_MASK as int), names));
    assert(regs_within(binary_v(OP_AND, pc_expr(), ExprV::Constant(PC_PAGE_MASK as int)), names));
    match i.operation {
        Operation::Jal => {
            let args = seq![rd, pc_rel(i.imm)];
            assert(forall|k: int| 0 <= k < args.len() ==> regs_within(#[trigger] args[k], names));
            assert(regs_within(ExprV::Special("jal"@, args), names));
            assert(regs_within(ExprV::Goto(Box::new(pc_rel(i.imm))), names));
            assert(regs_within(ExprV::Call(Box::new(pc_rel(i.imm))), names));
            if spec_is_zero(i.rd) {
                assert(lift(i) == ExprV::Goto(Box::new(pc_rel(i.imm))));
                assert(regs_within(lift(i), names));
            } else if i.rd == Operand::Reg(REG_RA) {
                assert(lift(i) == ExprV::Call(Box::new(pc_rel(i.imm))));
                assert(regs_within(lift(i), names));
            } else {
                assert(lift(i) == ExprV::Special("jal"@, args));
                assert(regs_within(lift(i), names));
            }
        },
        Operation::Jalr => {
            let args = seq![rd, rs1];
            assert(forall|k: int| 0 <= k < args.len() ==> regs_within(#[trigger] args[k], names));
            assert(regs_within(ExprV::Special("jalr"@, args), names));
            assert(regs_within(ExprV::Goto(Box::new(rs1)), names));
            assert(regs_within(ExprV::Call(Box::new(rs1)), names));
            assert(regs_within(ExprV::Goto(Box::new(rs1)), names));
            if spec_is_zero(i.rd) {
                if i.rs1 == Operand::Reg(REG_RA) {
                    assert(lift(i) == ExprV::Return);
                } else {
                    assert(lift(i) == ExprV::Goto(Box::new(rs1)));
                }
            } else if i.rd == Operand::Reg(REG_RA) {
                assert(lift(i) == ExprV::Call(Box::new(rs1)));
            } else {
                assert(lift(i) == ExprV::Special("jalr"@, args));
            }
            assert(regs_within(lift(i), names));
        },
        Operation::Beq | Operation::Bne | Operation::Blt | Operation::Bge => {
            assert(regs_within(ExprV::Goto(Box::new(pc_rel(i.imm))), names));
            let rhs = if spec_is_zero(i.rs2) {
                ExprV::Constant(0)
            } else {
                rs2
            };
            assert(regs_within(rhs, names));
            assert(regs_within(binary_v(branch_op(i.operation), rs1, rhs), names));
            assert(regs_within(lift(i), names));
        },
        Operation::Add | Operation::Sub | Operation::Xor | Operation::And | Operation::Or | Operation::Mul => {
            assert(regs_within(binary_v(alu_op(i.operation), rs1, rs2), names));
        },
        Operation::Addi | Operation::Xori | Operation::Ori | Operation::Andi => {
            assert(regs_within(binary_v(alu_op(i.operation), rs1, imm), names));
        },
        Operation::Lb | Operation::Lh | Operation::Lw | Operation::Ld | Operation::Sb | Operation::Sh
        | Operation::Sw | Operation::Sd => {
            assert(regs_within(ExprV::Dereference(access_size(i.operation), Box::new(address(i.rs1, i.imm))), names));
            assert(regs_within(ExprV::Dereference(access_size(i.operation), Box::new(address(i.rs2, i.imm))), names));
        },
        Operation::Auipc => {
            assert(regs_within(binary_v(OP_ADD, binary_v(OP_AND, pc_expr(), ExprV::Constant(PC_PAGE_MASK as int)), imm), names));
        },
        _ => {},
    }
}

/// Every statement lifted from a RISC-V listing names only ABI registers and
/// `pc`.
pub proof fn lemma_lifted_registers(b: Seq<u8>, k: int)
    requires
        0 <= k < listing(b, 0).len(),
    ensures
        regs_within(lift(listing(b, 0)[k]), register_set()),
{
    lemma_listing_operands(b, 0);
    lemma_lift_registers(listing(b, 0)[k]);
}

proof fn lemma_decode32_offset(w: u32, o1: usize, o2: usize)
    ensures
        decode32(w, o1) is Some <==> decode32(w, o2) is Some,
        decode32(w, o1) is Some ==> ins_text(decode32(w, o1)->Some_0) == ins_text(decode32(w, o2)->Some_0),
{
}

proof fn lemma_decode16_offset(c: u16, o1: usize, o2: usize)
    ensures
        decode16(c, o1) is Some <==> decode16(c, o2) is Some,
        decode16(c, o1) is Some ==> ins_text(decode16(c, o1)->Some_0) == ins_text(decode16(c, o2)->Some_0),
{
}

/// Decoding the bytes of a decoded instruction on their own gives an
/// instruction with the same text.
pub proof fn lemma_redecode_same_text(b: Seq<u8>, k: int)
    requires
        0 <= k < listing(b, 0).len(),
        listing(b, 0)[k].operation != Operation::Unknown,
        b.len() <= usize::MAX,
    ensures
        ({
            let i = listing(b, 0)[k];
            let own = b.subrange(i.offset as int, i.offset + i.ins_size);
            listing(own, 0).len() == 1 && listing(own, 0)[0].ins_size == i.ins_size && ins_text(listing(own, 0)[0])
                == ins_text(i)
        }),
{
    lemma_listing_at(b, 0, k);
    let i = listing(b, 0)[k];
    let off = i.offset as int;
    lemma_step(b, off);
    let n = step_size(b, off);
    let own = b.subrange(off, off + n);
    assert(le16(own, 0) == le16(b, off));
    lemma_step(own, 0);
    reveal(step);
    if is_wide(b, off) && off + 4 <= b.len() {
        assert(le32(own, 0) == le32(b, off));
        lemma_decode32_offset(le32(b, off) as u32, off as usize, 0);
    } else {
        lemma_decode16_offset(le16(b, off) as u16, off as usize, 0);
    }
    assert(listing(own, n) =~= Seq::<Instruction>::empty());
}

/// The `k`-th instruction of the listing from `off` is the step at its own
/// offset, which lies at or after `off` and leaves room for two bytes.
proof fn lemma_listing_at(b: Seq<u8>, off: int, k: int)
    requires
        0 <= off,
        0 <= k < listing(b, off).len(),
        b.len() <= usize::MAX,
    ensures
        off <= listing(b, off)[k].offset,
        listing(b, off)[k].offset + 2 <= b.len(),
        listing(b, off)[k] == step(b, listing(b, off)[k].offset as int),
    decreases k,
{
    lemma_step(b, off);
    if k > 0 {
        lemma_listing_at(b, off + step_size(b, off), k - 1);
    }
}

} // verus!
