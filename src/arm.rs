//! ARM A32: decoding and printing.

use vstd::prelude::*;
use crate::dis::{tiles, lemma_tiles_cons, DisassemblySection, InstructionListing};
use crate::ir::{
    Expr, ExprV, expr_binary, expr_call, expr_constant, expr_goto, expr_nop, expr_register, expr_ret,
    expr_store, regs_within, OP_ADD, OP_AND, OP_ASR, OP_LSL, OP_LSR, OP_OR, OP_ROR, OP_SUB, OP_XOR,
};
use crate::prog::{Program, Section};
use crate::text::{dec, hex_pad, join, sdec, push_dec, push_hex, push_sdec};
use crate::util::{bits32, le32, read_u32_from_slice, sbits32, BitExtr, LITTLE_ENDIAN};

verus! {

pub const COND_AL: u32 = 0b1110;

pub const ST_LSL: u8 = 0b00;

pub const ST_LSR: u8 = 0b01;

pub const ST_ASR: u8 = 0b10;

pub const ST_ROR: u8 = 0b11;

pub const BLTAM_DA: u8 = 0b00;

pub const BLTAM_IA: u8 = 0b01;

pub const BLTAM_DB: u8 = 0b10;

pub const BLTAM_IB: u8 = 0b11;

pub const PSR_CPSR: u8 = 0;

pub const PSR_SPSR: u8 = 1;

pub const PSR_MODE_ALL: u8 = 0;

pub const PSR_MODE_FLAG: u8 = 1;

pub const PSR_MODE_C: u8 = 2;

pub const REG_SP: u8 = 13;

pub const REG_LR: u8 = 14;

pub const REG_PC: u8 = 15;

/// The suffix of a condition code; `al` prints as nothing.
pub open spec fn cond_text(c: u32) -> Seq<char> {
    match c {
        0 => "eq"@,
        1 => "ne"@,
        2 => "cs"@,
        3 => "cc"@,
        4 => "mi"@,
        5 => "pl"@,
        6 => "vs"@,
        7 => "vc"@,
        8 => "hi"@,
        9 => "ls"@,
        10 => "ge"@,
        11 => "lt"@,
        12 => "gt"@,
        13 => "le"@,
        14 => ""@,
        _ => "??"@,
    }
}

fn condstr(c: u32) -> (s: &'static str)
    ensures
        s@ == cond_text(c),
{
    match c {
        0 => "eq",
        1 => "ne",
        2 => "cs",
        3 => "cc",
        4 => "mi",
        5 => "pl",
        6 => "vs",
        7 => "vc",
        8 => "hi",
        9 => "ls",
        10 => "ge",
        11 => "lt",
        12 => "gt",
        13 => "le",
        14 => "",
        _ => "??",
    }
}

/// The data-processing operations, by their 4-bit opcode.
#[derive(Clone, Copy, PartialEq, Eq, Structural)]
pub enum DpOp {
    And,
    Eor,
    Sub,
    Rsb,
    Add,
    Adc,
    Sbc,
    Rsc,
    Tst,
    Teq,
    Cmp,
    Cmn,
    Orr,
    Mov,
    Bic,
    Mvn,
}

pub open spec fn dp_op(k: u32) -> DpOp {
    match k {
        0 => DpOp::And,
        1 => DpOp::Eor,
        2 => DpOp::Sub,
        3 => DpOp::Rsb,
        4 => DpOp::Add,
        5 => DpOp::Adc,
        6 => DpOp::Sbc,
        7 => DpOp::Rsc,
        8 => DpOp::Tst,
        9 => DpOp::Teq,
        10 => DpOp::Cmp,
        11 => DpOp::Cmn,
        12 => DpOp::Orr,
        13 => DpOp::Mov,
        14 => DpOp::Bic,
        _ => DpOp::Mvn,
    }
}

fn dp_operation(k: u32) -> (r: DpOp)
    ensures
        r == dp_op(k),
{
    match k {
        0 => DpOp::And,
        1 => DpOp::Eor,
        2 => DpOp::Sub,
        3 => DpOp::Rsb,
        4 => DpOp::Add,
        5 => DpOp::Adc,
        6 => DpOp::Sbc,
        7 => DpOp::Rsc,
        8 => DpOp::Tst,
        9 => DpOp::Teq,
        10 => DpOp::Cmp,
        11 => DpOp::Cmn,
        12 => DpOp::Orr,
        13 => DpOp::Mov,
        14 => DpOp::Bic,
        _ => DpOp::Mvn,
    }
}

pub open spec fn dp_mnemonic(op: DpOp) -> Seq<char> {
    match op {
        DpOp::And => "and"@,
        DpOp::Eor => "eor"@,
        DpOp::Sub => "sub"@,
        DpOp::Rsb => "rsb"@,
        DpOp::Add => "add"@,
        DpOp::Adc => "adc"@,
        DpOp::Sbc => "sbc"@,
        DpOp::Rsc => "rsc"@,
        DpOp::Tst => "tst"@,
        DpOp::Teq => "teq"@,
        DpOp::Cmp => "cmp"@,
        DpOp::Cmn => "cmn"@,
        DpOp::Orr => "orr"@,
        DpOp::Mov => "mov"@,
        DpOp::Bic => "bic"@,
        DpOp::Mvn => "mvn"@,
    }
}

fn dp_str(op: DpOp) -> (s: &'static str)
    ensures
        s@ == dp_mnemonic(op),
{
    match op {
        DpOp::And => "and",
        DpOp::Eor => "eor",
        DpOp::Sub => "sub",
        DpOp::Rsb => "rsb",
        DpOp::Add => "add",
        DpOp::Adc => "adc",
        DpOp::Sbc => "sbc",
        DpOp::Rsc => "rsc",
        DpOp::Tst => "tst",
        DpOp::Teq => "teq",
        DpOp::Cmp => "cmp",
        DpOp::Cmn => "cmn",
        DpOp::Orr => "orr",
        DpOp::Mov => "mov",
        DpOp::Bic => "bic",
        DpOp::Mvn => "mvn",
    }
}

pub open spec fn shift_text(x: u8) -> Seq<char> {
    if x == ST_LSL {
        "lsl"@
    } else if x == ST_LSR {
        "lsr"@
    } else if x == ST_ASR {
        "asr"@
    } else if x == ST_ROR {
        "ror"@
    } else {
        "?"@
    }
}

fn shtystr(x: u8) -> (s: &'static str)
    ensures
        s@ == shift_text(x),
{
    if x == ST_LSL {
        "lsl"
    } else if x == ST_LSR {
        "lsr"
    } else if x == ST_ASR {
        "asr"
    } else if x == ST_ROR {
        "ror"
    } else {
        "?"
    }
}

pub open spec fn mode_text(x: u8) -> Seq<char> {
    if x == BLTAM_DA {
        "da"@
    } else if x == BLTAM_IA {
        "ia"@
    } else if x == BLTAM_DB {
        "db"@
    } else if x == BLTAM_IB {
        "ib"@
    } else {
        "?"@
    }
}

fn bltamstr(x: u8) -> (s: &'static str)
    ensures
        s@ == mode_text(x),
{
    if x == BLTAM_DA {
        "da"
    } else if x == BLTAM_IA {
        "ia"
    } else if x == BLTAM_DB {
        "db"
    } else if x == BLTAM_IB {
        "ib"
    } else {
        "?"
    }
}

fn fstr(x: bool) -> (s: &'static str)
    ensures
        s@ == (if x { "s"@ } else { ""@ }),
{
    if x {
        "s"
    } else {
        ""
    }
}

fn wbstr(x: bool) -> (s: &'static str)
    ensures
        s@ == (if x { "!"@ } else { ""@ }),
{
    if x {
        "!"
    } else {
        ""
    }
}

#[derive(Clone, Copy, PartialEq, Eq, Structural)]
pub enum Operand {
    /// Register, shift amount, shift type.
    Reg(u8, u8, u8),
    /// An 8-bit or 12-bit value and a rotation: the value is rotated right by
    /// twice the rotation.
    Imm(u32, u8),
    /// A register set, one bit per register.
    RegList(u32),
    /// Status register (CPSR or SPSR) and the part accessed.
    Psr(u8, u8),
    SImm(i32),
}

/// The name of register `r` where no shift applies.
pub open spec fn reg_text(r: u8) -> Seq<char> {
    if r == REG_SP {
        "sp"@
    } else if r == REG_LR {
        "lr"@
    } else if r == REG_PC {
        "pc"@
    } else {
        "r"@ + dec(r as nat)
    }
}

/// `x` rotated right by `n` bits.
pub open spec fn ror(x: u32, n: u32) -> u32 {
    if n == 0 || n >= 32 {
        x
    } else {
        (x >> n) | (x << ((32 - n) as u32))
    }
}

/// The value of an immediate operand.
pub open spec fn imm_value(x: u32, rot: u8) -> u32 {
    ror(x, (2 * rot) as u32)
}

/// Whether register `i` is in the set `x`.
pub open spec fn has_reg(x: u32, i: nat) -> bool {
    (x >> (i as u32)) & 1u32 == 1u32
}

/// The names in a register list, among registers `0..n`.
pub open spec fn list_names(x: u32, n: nat) -> Seq<Seq<char>>
    decreases n,
{
    if n == 0 {
        Seq::empty()
    } else {
        let prev = list_names(x, (n - 1) as nat);
        let i = (n - 1) as nat;
        if has_reg(x, i) {
            prev.push(if i == 14 { "lr"@ } else { "r"@ + dec(i) })
        } else {
            prev
        }
    }
}

pub open spec fn operand_text(o: Operand) -> Seq<char> {
    match o {
        Operand::Reg(r, s, st) => if s != 0 {
            "r"@ + dec(r as nat) + " "@ + shift_text(st) + " #"@ + dec(s as nat)
        } else {
            reg_text(r)
        },
        Operand::RegList(x) => "{"@ + join(list_names(x, 16), ", "@) + "}"@,
        Operand::Imm(x, rot) => "#"@ + dec(imm_value(x, rot) as nat),
        Operand::SImm(x) => "#"@ + sdec(x as int),
        Operand::Psr(which, state) => if which == PSR_CPSR {
            if state == PSR_MODE_FLAG {
                "CPSR_flg"@
            } else if state == PSR_MODE_C {
                "CPSR_c"@
            } else {
                "CPSR"@
            }
        } else if which == PSR_SPSR {
            if state == PSR_MODE_FLAG {
                "SPSR_flg"@
            } else if state == PSR_MODE_C {
                "SPSR_c"@
            } else {
                "SPSR"@
            }
        } else {
            "???"@
        },
    }
}

/// The numeric value of an operand (0 for registers).
pub open spec fn operand_value(o: Operand) -> int {
    match o {
        Operand::Imm(x, rot) => imm_value(x, rot) as int,
        Operand::SImm(x) => x as int,
        _ => 0,
    }
}

fn rotate_right(x: u32, n: u32) -> (r: u32)
    ensures
        r == ror(x, n),
{
    if n == 0 || n >= 32 {
        x
    } else {
        (x >> n) | (x << (32 - n))
    }
}

fn psr_str(which: u8, state: u8) -> (s: &'static str)
    ensures
        s@ == operand_text(Operand::Psr(which, state)),
{
    if which == PSR_CPSR {
        if state == PSR_MODE_FLAG {
            "CPSR_flg"
        } else if state == PSR_MODE_C {
            "CPSR_c"
        } else {
            "CPSR"
        }
    } else if which == PSR_SPSR {
        if state == PSR_MODE_FLAG {
            "SPSR_flg"
        } else if state == PSR_MODE_C {
            "SPSR_c"
        } else {
            "SPSR"
        }
    } else {
        "???"
    }
}

fn print_reg_list(x: u32) -> (s: String)
    ensures
        s@ == "{"@ + join(list_names(x, 16), ", "@) + "}"@,
{
    let mut out = String::from_str("{");
    let mut i: u32 = 0;
    let mut first = true;
    while i < 16
        invariant
            i <= 16,
            out@ == "{"@ + join(list_names(x, i as nat), ", "@),
            first == (list_names(x, i as nat).len() == 0),
        decreases 16 - i,
    {
        let ghost prev = list_names(x, i as nat);
        if (x >> i) & 1 == 1 {
            if !first {
                out.append(", ");
            }
            first = false;
            if i == 14 {
                out.append("lr");
            } else {
                out.append("r");
                push_dec(&mut out, i as u64);
            }
            proof {
                let next = list_names(x, (i + 1) as nat);
                assert(next.drop_last() =~= prev);
                if prev.len() == 0 {
                    assert(join(next, ", "@) == next[0]);
                }
            }
        }
        i = i + 1;
    }
    out.append("}");
    out
}

impl Operand {
    pub fn print(self) -> (s: String)
        ensures
            s@ == operand_text(self),
    {
        match self {
            Operand::Reg(r, s, st) => {
                if s != 0 {
                    let mut out = String::from_str("r");
                    push_dec(&mut out, r as u64);
                    out.append(" ");
                    out.append(shtystr(st));
                    out.append(" #");
                    push_dec(&mut out, s as u64);
                    out
                } else if r == REG_SP {
                    String::from_str("sp")
                } else if r == REG_LR {
                    String::from_str("lr")
                } else if r == REG_PC {
                    String::from_str("pc")
                } else {
                    let mut out = String::from_str("r");
                    push_dec(&mut out, r as u64);
                    out
                }
            },
            Operand::RegList(x) => print_reg_list(x),
            Operand::Imm(x, rot) => {
                let mut out = String::from_str("#");
                push_dec(&mut out, rotate_right(x, 2 * rot as u32) as u64);
                out
            },
            Operand::SImm(x) => {
                let mut out = String::from_str("#");
                push_sdec(&mut out, x as i64);
                out
            },
            Operand::Psr(which, state) => String::from_str(psr_str(which, state)),
        }
    }

    pub fn value(self) -> (r: i64)
        ensures
            r == operand_value(self),
    {
        match self {
            Operand::Imm(x, rot) => rotate_right(x, 2 * rot as u32) as i64,
            Operand::SImm(x) => x as i64,
            _ => 0,
        }
    }
}

#[derive(Clone, Copy, PartialEq, Eq, Structural)]
pub enum Opcode {
    Unknown,
    Bx(Operand),
    B(Operand),
    Bl(Operand),
    /// `rd, rm, rs`
    Mul(Operand, Operand, Operand),
    /// `rd, rm, rs, rn`
    MulA(Operand, Operand, Operand, Operand),
    Mrs(Operand, Operand),
    Msr(Operand, Operand),
    Ldr(Operand, Operand, Operand),
    Str(Operand, Operand, Operand),
    /// Base, register list, write-back, addressing mode.
    Ldm(Operand, Operand, bool, u8),
    Stm(Operand, Operand, bool, u8),
    /// Operation, `rd`, `rn`, second operand.
    Dp(DpOp, Operand, Operand, Operand),
    Swi,
}

/// One decoded instruction; `offset` is its position in the section.
#[derive(Clone, Copy, PartialEq, Eq, Structural)]
pub struct Instruction {
    pub opcode: Opcode,
    pub offset: usize,
    pub cond: u32,
    pub set_flags: bool,
    pub ins_size: u8,
}

pub open spec fn flag_text(x: bool) -> Seq<char> {
    if x {
        "s"@
    } else {
        ""@
    }
}

pub open spec fn wb_text(x: bool) -> Seq<char> {
    if x {
        "!"@
    } else {
        ""@
    }
}

/// A branch target reduced modulo 2^64.
pub open spec fn wrap64(t: int) -> nat {
    if t < 0 {
        (t + 0x1_0000_0000_0000_0000) as nat
    } else if t >= 0x1_0000_0000_0000_0000 {
        (t - 0x1_0000_0000_0000_0000) as nat
    } else {
        t as nat
    }
}

/// The target of a branch at `offset`: the instruction address plus 8 plus
/// the displacement.
pub open spec fn branch_target(offset: usize, disp: Operand) -> nat {
    wrap64(offset + 8 + operand_value(disp))
}

pub open spec fn base_reg(o: Operand) -> u8 {
    match o {
        Operand::Reg(r, _, _) => r,
        _ => 0,
    }
}

/// The assembly text of an instruction, with the `nop`, `push` and `pop`
/// idioms.
pub open spec fn ins_text(i: Instruction) -> Seq<char> {
    let c = cond_text(i.cond);
    let f = flag_text(i.set_flags);
    match i.opcode {
        Opcode::Swi => "swi"@ + c,
        Opcode::Bx(rn) => "bx"@ + c + " "@ + operand_text(rn),
        Opcode::B(d) => "b"@ + c + " _"@ + hex_pad(branch_target(i.offset, d), 8),
        Opcode::Bl(d) => "bl"@ + c + " _"@ + hex_pad(branch_target(i.offset, d), 8),
        Opcode::Mrs(rm, psr) => "mrs"@ + c + " "@ + operand_text(rm) + ", "@ + operand_text(psr),
        Opcode::Msr(psr, rm) => "msr"@ + c + " "@ + operand_text(psr) + ", "@ + operand_text(rm),
        Opcode::Mul(a, b, d) => "mul"@ + c + f + " "@ + operand_text(a) + ", "@ + operand_text(b) + ", "@
            + operand_text(d),
        Opcode::MulA(a, b, d, e) => "mla"@ + c + f + " "@ + operand_text(a) + ", "@ + operand_text(b)
            + ", "@ + operand_text(d) + ", "@ + operand_text(e),
        Opcode::Str(a, b, d) => "str"@ + c + " "@ + operand_text(a) + ", ["@ + operand_text(b) + ", "@
            + operand_text(d) + "]"@,
        Opcode::Ldr(a, b, d) => "ldr"@ + c + " "@ + operand_text(a) + ", ["@ + operand_text(b) + ", "@
            + operand_text(d) + "]"@,
        Opcode::Dp(op, rd, rn, op2) => match op {
            DpOp::Tst | DpOp::Teq | DpOp::Cmp | DpOp::Cmn => dp_mnemonic(op) + c + " "@ + operand_text(rn)
                + ", "@ + operand_text(op2),
            DpOp::Mov => if rd is Reg && op2 == Operand::Reg(base_reg(rd), 0, op2->Reg_2) {
                "nop"@
            } else {
                "mov"@ + c + " "@ + operand_text(rd) + ", "@ + operand_text(op2)
            },
            DpOp::Mvn => "mvn"@ + c + " "@ + operand_text(rd) + ", "@ + operand_text(op2),
            _ => dp_mnemonic(op) + c + f + " "@ + operand_text(rd) + ", "@ + operand_text(rn) + ", "@
                + operand_text(op2),
        },
        Opcode::Stm(rn, list, wb, am) => if base_reg(rn) == REG_SP && wb && am == BLTAM_DB && i.cond
            == COND_AL {
            "push "@ + operand_text(list)
        } else {
            "stm"@ + c + mode_text(am) + " "@ + operand_text(rn) + wb_text(wb) + ", "@ + operand_text(list)
        },
        Opcode::Ldm(rn, list, wb, am) => if base_reg(rn) == REG_SP && wb && am == BLTAM_IA && i.cond
            == COND_AL {
            "pop "@ + operand_text(list)
        } else {
            "ldm"@ + c + mode_text(am) + " "@ + operand_text(rn) + wb_text(wb) + ", "@ + operand_text(list)
        },
        Opcode::Unknown => "???"@,
    }
}

fn join2(head: &str, a: String, b: String) -> (s: String)
    ensures
        s@ == head@ + " "@ + a@ + ", "@ + b@,
{
    let mut s = String::from_str(head);
    s.append(" ");
    s.append(a.as_str());
    s.append(", ");
    s.append(b.as_str());
    s
}

fn join3(head: &str, a: String, b: String, c: String) -> (s: String)
    ensures
        s@ == head@ + " "@ + a@ + ", "@ + b@ + ", "@ + c@,
{
    let mut s = join2(head, a, b);
    s.append(", ");
    s.append(c.as_str());
    s
}

/// `mn` followed by the condition suffix.
fn head(mn: &str, cond: u32) -> (s: String)
    ensures
        s@ == mn@ + cond_text(cond),
{
    let mut s = String::from_str(mn);
    s.append(condstr(cond));
    s
}

/// `mn` followed by the condition and flag suffixes.
fn headf(mn: &str, cond: u32, f: bool) -> (s: String)
    ensures
        s@ == mn@ + cond_text(cond) + flag_text(f),
{
    let mut s = head(mn, cond);
    s.append(fstr(f));
    s
}

fn print_target(offset: usize, disp: Operand) -> (s: String)
    ensures
        s@ == hex_pad(branch_target(offset, disp), 8),
{
    let t: i128 = offset as i128 + 8 + disp.value() as i128;
    let w: u64 = if t < 0 {
        (t + 0x1_0000_0000_0000_0000i128) as u64
    } else if t >= 0x1_0000_0000_0000_0000i128 {
        (t - 0x1_0000_0000_0000_0000i128) as u64
    } else {
        t as u64
    };
    let mut s = String::new();
    push_hex(&mut s, w, 8);
    s
}

impl Instruction {
    pub fn print(&self) -> (s: String)
        ensures
            s@ == ins_text(*self),
    {
        let c = self.cond;
        let f = self.set_flags;
        match self.opcode {
            Opcode::Swi => head("swi", c),
            Opcode::Bx(rn) => {
                let mut s = head("bx", c);
                s.append(" ");
                s.append(rn.print().as_str());
                s
            },
            Opcode::B(d) => {
                let mut s = head("b", c);
                s.append(" _");
                s.append(print_target(self.offset, d).as_str());
                s
            },
            Opcode::Bl(d) => {
                let mut s = head("bl", c);
                s.append(" _");
                s.append(print_target(self.offset, d).as_str());
                s
            },
            Opcode::Mrs(rm, psr) => join2(head("mrs", c).as_str(), rm.print(), psr.print()),
            Opcode::Msr(psr, rm) => join2(head("msr", c).as_str(), psr.print(), rm.print()),
            Opcode::Mul(a, b, d) => join3(headf("mul", c, f).as_str(), a.print(), b.print(), d.print()),
            Opcode::MulA(a, b, d, e) => {
                let mut s = join3(headf("mla", c, f).as_str(), a.print(), b.print(), d.print());
                s.append(", ");
                s.append(e.print().as_str());
                s
            },
            Opcode::Str(a, b, d) | Opcode::Ldr(a, b, d) => {
                let mn = if matches!(self.opcode, Opcode::Str(..)) {
                    "str"
                } else {
                    "ldr"
                };
                let mut s = head(mn, c);
                s.append(" ");
                s.append(a.print().as_str());
                s.append(", [");
                s.append(b.print().as_str());
                s.append(", ");
                s.append(d.print().as_str());
                s.append("]");
                s
            },
            Opcode::Dp(op, rd, rn, op2) => match op {
                DpOp::Tst | DpOp::Teq | DpOp::Cmp | DpOp::Cmn => join2(
                    head(dp_str(op), c).as_str(),
                    rn.print(),
                    op2.print(),
                ),
                DpOp::Mov => {
                    let same = match (rd, op2) {
                        (Operand::Reg(a, _, _), Operand::Reg(b, shift, _)) => a == b && shift == 0,
                        _ => false,
                    };
                    if same {
                        String::from_str("nop")
                    } else {
                        join2(head("mov", c).as_str(), rd.print(), op2.print())
                    }
                },
                DpOp::Mvn => join2(head("mvn", c).as_str(), rd.print(), op2.print()),
                _ => join3(headf(dp_str(op), c, f).as_str(), rd.print(), rn.print(), op2.print()),
            },
            Opcode::Stm(rn, list, wb, am) | Opcode::Ldm(rn, list, wb, am) => {
                let is_store = matches!(self.opcode, Opcode::Stm(..));
                let base = match rn {
                    Operand::Reg(r, _, _) => r,
                    _ => 0,
                };
                if base == REG_SP && wb && c == COND_AL && ((is_store && am == BLTAM_DB) || (!is_store
                    && am == BLTAM_IA)) {
                    let mut s = String::from_str(if is_store {
                        "push "
                    } else {
                        "pop "
                    });
                    s.append(list.print().as_str());
                    s
                } else {
                    let mut s = head(if is_store {
                        "stm"
                    } else {
                        "ldm"
                    }, c);
                    s.append(bltamstr(am));
                    s.append(" ");
                    s.append(rn.print().as_str());
                    s.append(wbstr(wb));
                    s.append(", ");
                    s.append(list.print().as_str());
                    s
                }
            },
            Opcode::Unknown => String::from_str("???"),
        }
    }

    pub fn offset(&self) -> (r: usize)
        ensures
            r == self.offset,
    {
        self.offset
    }

    pub fn size(&self) -> (r: usize)
        ensures
            r == self.ins_size,
    {
        self.ins_size as usize
    }
}

// ---- decoding ----

pub open spec fn spec_cond(x: u32) -> u32 {
    bits32(x, 31, 28)
}

pub open spec fn bit(x: u32, i: u32) -> bool {
    bits32(x, i, i) == 1
}

pub open spec fn spec_rn(x: u32) -> Operand {
    Operand::Reg(bits32(x, 19, 16) as u8, 0, 0)
}

pub open spec fn spec_rd(x: u32) -> Operand {
    Operand::Reg(bits32(x, 15, 12) as u8, 0, 0)
}

/// Operand 2 of data processing: a shifted register (bit 25 clear) or a
/// rotated 8-bit immediate.
pub open spec fn spec_op2(x: u32) -> Operand {
    if !bit(x, 25) {
        Operand::Reg(bits32(x, 3, 0) as u8, bits32(x, 11, 7) as u8, bits32(x, 6, 5) as u8)
    } else {
        Operand::Imm(bits32(x, 7, 0), bits32(x, 11, 8) as u8)
    }
}

/// Branch displacement: bits 23..0, sign-extended, times four.
pub open spec fn spec_bl_offset(x: u32) -> i32 {
    let f = bits32(x, 23, 0) as int;
    ((if f >= 0x80_0000 {
        f - 0x100_0000
    } else {
        f
    }) * 4) as i32
}

pub open spec fn psr_of(x: u32) -> u8 {
    if bit(x, 22) {
        PSR_SPSR
    } else {
        PSR_CPSR
    }
}

pub open spec fn mk(opcode: Opcode, offset: usize, cond: u32, set_flags: bool) -> Instruction {
    Instruction { opcode, offset, cond, set_flags, ins_size: 4 }
}

/// Decoding of one instruction word; the forms are tried in order and the
/// first that matches wins.
pub open spec fn decode(x: u32, offset: usize) -> Option<Instruction> {
    let c = spec_cond(x);
    let sf = bit(x, 20);
    if bits32(x, 27, 4) == 0b000100101111111111110001 {
        Some(mk(Opcode::Bx(Operand::Reg(bits32(x, 3, 0) as u8, 0, 0)), offset, c, false))
    } else if bits32(x, 27, 25) == 0b101 {
        let d = Operand::SImm(spec_bl_offset(x));
        Some(mk(if bit(x, 24) { Opcode::Bl(d) } else { Opcode::B(d) }, offset, c, false))
    } else if bits32(x, 27, 25) == 0b100 {
        let wb = bit(x, 21);
        let am = bits32(x, 24, 23) as u8;
        let list = Operand::RegList(bits32(x, 15, 0));
        Some(mk(if bit(x, 20) { Opcode::Ldm(spec_rn(x), list, wb, am) } else { Opcode::Stm(spec_rn(x), list, wb, am) }, offset, c, false))
    } else if bits32(x, 27, 22) == 0 && bits32(x, 7, 4) == 0b1001 {
        let rd = Operand::Reg(bits32(x, 19, 16) as u8, 0, 0);
        let rn = Operand::Reg(bits32(x, 15, 12) as u8, 0, 0);
        let rs = Operand::Reg(bits32(x, 11, 8) as u8, 0, 0);
        let rm = Operand::Reg(bits32(x, 3, 0) as u8, 0, 0);
        Some(mk(if bit(x, 21) { Opcode::MulA(rd, rm, rs, rn) } else { Opcode::Mul(rd, rm, rs) }, offset, c, sf))
    } else if bits32(x, 27, 23) == 0b00010 && bits32(x, 21, 16) == 0b001111 && bits32(x, 11, 0) == 0 {
        Some(mk(Opcode::Mrs(spec_rd(x), Operand::Psr(psr_of(x), PSR_MODE_ALL)), offset, c, false))
    } else if bits32(x, 27, 23) == 0b00010 && bits32(x, 21, 12) == 0b1010011111 && bits32(x, 11, 4) == 0 {
        Some(mk(Opcode::Msr(Operand::Psr(psr_of(x), PSR_MODE_ALL), Operand::Reg(bits32(x, 3, 0) as u8, 0, 0)), offset, c, false))
    } else if bits32(x, 27, 23) == 0b00010 && bits32(x, 21, 12) == 0b1000011111 && bits32(x, 11, 4) == 0 {
        Some(mk(Opcode::Msr(Operand::Psr(psr_of(x), PSR_MODE_C), Operand::Reg(bits32(x, 3, 0) as u8, 0, 0)), offset, c, false))
    } else if bits32(x, 27, 23) == 0b00010 && bits32(x, 21, 12) == 0b1010001111 {
        Some(mk(Opcode::Msr(Operand::Psr(psr_of(x), PSR_MODE_FLAG), Operand::Reg(bits32(x, 3, 0) as u8, 0, 0)), offset, c, false))
    } else if bits32(x, 27, 23) == 0b00110 && bits32(x, 21, 12) == 0b1010001111 {
        Some(mk(Opcode::Msr(Operand::Psr(psr_of(x), PSR_MODE_FLAG), Operand::Imm(bits32(x, 7, 0), bits32(x, 11, 8) as u8)), offset, c, false))
    } else if bits32(x, 27, 24) == 0b1111 {
        Some(mk(Opcode::Swi, offset, c, false))
    } else if bits32(x, 27, 26) == 0b01 {
        let off2 = if !bit(x, 25) {
            Operand::Imm(bits32(x, 11, 0), 0)
        } else {
            Operand::Reg(bits32(x, 3, 0) as u8, bits32(x, 11, 7) as u8, bits32(x, 6, 5) as u8)
        };
        Some(mk(if bit(x, 20) { Opcode::Ldr(spec_rd(x), spec_rn(x), off2) } else { Opcode::Str(spec_rd(x), spec_rn(x), off2) }, offset, c, false))
    } else if bits32(x, 27, 26) == 0 {
        Some(mk(Opcode::Dp(dp_op(bits32(x, 24, 21)), spec_rd(x), spec_rn(x), spec_op2(x)), offset, c, sf))
    } else {
        None
    }
}

fn cond(x: u32) -> (r: u32)
    ensures
        r == spec_cond(x),
{
    x.bextr(31, 28)
}

fn opcode(x: u32) -> (r: u32)
    ensures
        r == bits32(x, 24, 21),
{
    x.bextr(24, 21)
}

fn flag(x: u32, i: u32) -> (r: bool)
    requires
        i < 32,
    ensures
        r == bit(x, i),
{
    x.bextr(i, i) == 1
}

fn op2(x: u32) -> (r: Operand)
    ensures
        r == spec_op2(x),
{
    if !flag(x, 25) {
        Operand::Reg(x.bextr(3, 0) as u8, x.bextr(11, 7) as u8, x.bextr(6, 5) as u8)
    } else {
        Operand::Imm(x.bextr(7, 0), x.bextr(11, 8) as u8)
    }
}

fn rn(x: u32) -> (r: Operand)
    ensures
        r == spec_rn(x),
{
    Operand::Reg(x.bextr(19, 16) as u8, 0, 0)
}

fn rd(x: u32) -> (r: Operand)
    ensures
        r == spec_rd(x),
{
    Operand::Reg(x.bextr(15, 12) as u8, 0, 0)
}

fn reg_at(x: u32, lo: u32) -> (r: Operand)
    requires
        lo <= 28,
    ensures
        r == Operand::Reg(bits32(x, (lo + 3) as u32, lo) as u8, 0, 0),
{
    Operand::Reg(x.bextr(lo + 3, lo) as u8, 0, 0)
}

fn bl_offset(x: u32) -> (r: i32)
    ensures
        r == spec_bl_offset(x),
{
    let f = x.bextr(23, 0);
    assert(f < 0x100_0000) by (bit_vector)
        requires
            f == (x >> 0u32) & (0xffff_ffffu32 >> 8u32),
    ;
    let v: i32 = if f >= 0x80_0000 {
        f as i32 - 0x100_0000
    } else {
        f as i32
    };
    v * 4
}

fn psr(x: u32) -> (r: u8)
    ensures
        r == psr_of(x),
{
    if flag(x, 22) {
        PSR_SPSR
    } else {
        PSR_CPSR
    }
}

fn ins4(opcode: Opcode, offset: usize, cond: u32, set_flags: bool) -> (r: Instruction)
    ensures
        r == mk(opcode, offset, cond, set_flags),
{
    Instruction { opcode, offset, cond, set_flags, ins_size: 4 }
}

fn disassemble_arm_ins(ins: u32, offset: usize) -> (r: Option<Instruction>)
    ensures
        r == decode(ins, offset),
{
    let c = cond(ins);
    let sf = flag(ins, 20);
    if ins.bextr(27, 4) == 0b000100101111111111110001 {
        return Some(ins4(Opcode::Bx(reg_at(ins, 0)), offset, c, false));
    }
    if ins.bextr(27, 25) == 0b101 {
        let d = Operand::SImm(bl_offset(ins));
        return Some(ins4(if flag(ins, 24) { Opcode::Bl(d) } else { Opcode::B(d) }, offset, c, false));
    }
    if ins.bextr(27, 25) == 0b100 {
        let base = rn(ins);
        let wb = flag(ins, 21);
        let am = ins.bextr(24, 23) as u8;
        let reg_list = Operand::RegList(ins.bextr(15, 0));
        if flag(ins, 20) {
            return Some(ins4(Opcode::Ldm(base, reg_list, wb, am), offset, c, false));
        } else {
            return Some(ins4(Opcode::Stm(base, reg_list, wb, am), offset, c, false));
        }
    }
    if ins.bextr(27, 22) == 0 && ins.bextr(7, 4) == 0b1001 {
        let rd = reg_at(ins, 16);
        let rn = reg_at(ins, 12);
        let rs = reg_at(ins, 8);
        let rm = reg_at(ins, 0);
        if flag(ins, 21) {
            return Some(ins4(Opcode::MulA(rd, rm, rs, rn), offset, c, sf));
        } else {
            return Some(ins4(Opcode::Mul(rd, rm, rs), offset, c, sf));
        }
    }
    let top = ins.bextr(27, 23);
    let mid = ins.bextr(21, 12);
    if top == 0b00010 && ins.bextr(21, 16) == 0b001111 && ins.bextr(11, 0) == 0 {
        return Some(ins4(Opcode::Mrs(rd(ins), Operand::Psr(psr(ins), PSR_MODE_ALL)), offset, c, false));
    }
    if top == 0b00010 && mid == 0b1010011111 && ins.bextr(11, 4) == 0 {
        return Some(ins4(Opcode::Msr(Operand::Psr(psr(ins), PSR_MODE_ALL), reg_at(ins, 0)), offset, c, false));
    }
    if top == 0b00010 && mid == 0b1000011111 && ins.bextr(11, 4) == 0 {
        return Some(ins4(Opcode::Msr(Operand::Psr(psr(ins), PSR_MODE_C), reg_at(ins, 0)), offset, c, false));
    }
    if top == 0b00010 && mid == 0b1010001111 {
        return Some(ins4(Opcode::Msr(Operand::Psr(psr(ins), PSR_MODE_FLAG), reg_at(ins, 0)), offset, c, false));
    }
    if top == 0b00110 && mid == 0b1010001111 {
        let imm = Operand::Imm(ins.bextr(7, 0), ins.bextr(11, 8) as u8);
        return Some(ins4(Opcode::Msr(Operand::Psr(psr(ins), PSR_MODE_FLAG), imm), offset, c, false));
    }
    if ins.bextr(27, 24) == 0b1111 {
        return Some(ins4(Opcode::Swi, offset, c, false));
    }
    if ins.bextr(27, 26) == 0b01 {
        let offset2 = if !flag(ins, 25) {
            Operand::Imm(ins.bextr(11, 0), 0)
        } else {
            Operand::Reg(ins.bextr(3, 0) as u8, ins.bextr(11, 7) as u8, ins.bextr(6, 5) as u8)
        };
        if flag(ins, 20) {
            return Some(ins4(Opcode::Ldr(rd(ins), rn(ins), offset2), offset, c, false));
        } else {
            return Some(ins4(Opcode::Str(rd(ins), rn(ins), offset2), offset, c, false));
        }
    }
    if ins.bextr(27, 26) == 0b00 {
        return Some(ins4(Opcode::Dp(dp_operation(opcode(ins)), rd(ins), rn(ins), op2(ins)), offset, c, sf));
    }
    None
}

// ---- driver ----

pub open spec fn unknown(offset: usize) -> Instruction {
    Instruction { opcode: Opcode::Unknown, offset, cond: 0, set_flags: false, ins_size: 4 }
}

/// The instruction that the driver records at `off`.
#[verifier::opaque]
pub open spec fn step(b: Seq<u8>, off: int) -> Instruction {
    match decode(le32(b, off) as u32, off as usize) {
        Some(i) => i,
        None => unknown(off as usize),
    }
}

/// The instructions of `b` from `off` on, while four bytes remain.
pub open spec fn listing(b: Seq<u8>, off: int) -> Seq<Instruction>
    decreases b.len() - off,
{
    if off < 0 || off + 4 > b.len() {
        Seq::empty()
    } else {
        seq![step(b, off)] + listing(b, off + 4)
    }
}

pub open spec fn spans(s: Seq<Instruction>) -> Seq<(int, int)> {
    Seq::new(s.len(), |i: int| (s[i].offset as int, s[i].ins_size as int))
}

proof fn lemma_step(b: Seq<u8>, off: int)
    requires
        0 <= off <= usize::MAX,
    ensures
        step(b, off).offset == off,
        step(b, off).ins_size == 4,
{
    reveal(step);
}

/// The listing from `off` covers `[off, end)` without gap, where `end` is the
/// last position four-byte steps reach within `b`.
pub proof fn lemma_listing_tiles(b: Seq<u8>, off: int)
    requires
        0 <= off <= b.len(),
        b.len() <= usize::MAX,
    ensures
        tiles(spans(listing(b, off)), off, b.len() - (b.len() - off) % 4),
    decreases b.len() - off,
{
    if off + 4 > b.len() {
        assert(spans(listing(b, off)) =~= Seq::<(int, int)>::empty());
    } else {
        lemma_listing_tiles(b, off + 4);
        let rest = spans(listing(b, off + 4));
        lemma_step(b, off);
        assert(spans(listing(b, off)) =~= seq![(off, 4int)] + rest);
        lemma_tiles_cons((off, 4), rest, off + 4, b.len() - (b.len() - off - 4) % 4);
    }
}

fn disassemble_ins(bytes: &[u8], offset: usize) -> (r: Option<Instruction>)
    requires
        offset + 4 <= bytes@.len(),
    ensures
        r == decode(le32(bytes@, offset as int) as u32, offset),
{
    let ins = read_u32_from_slice(bytes, offset, LITTLE_ENDIAN);
    disassemble_arm_ins(ins, offset)
}

/// Decodes a whole byte range in four-byte words; an undecodable word becomes
/// an `Unknown` entry, and fewer than four trailing bytes are left out.
pub fn decode_all(bytes: &[u8]) -> (r: Vec<Instruction>)
    ensures
        r@ == listing(bytes@, 0),
        tiles(spans(r@), 0, bytes@.len() - bytes@.len() % 4),
{
    let mut instrs: Vec<Instruction> = Vec::new();
    let mut offset: usize = 0;
    let len = bytes.len();
    while offset < len && len - offset >= 4
        invariant
            len == bytes@.len(),
            offset <= len,
            instrs@ + listing(bytes@, offset as int) == listing(bytes@, 0),
        decreases len - offset,
    {
        let ghost before = instrs@;
        let ins = match disassemble_ins(bytes, offset) {
            Some(i) => i,
            None => Instruction { opcode: Opcode::Unknown, offset, cond: 0, set_flags: false, ins_size: 4 },
        };
        assert(ins == step(bytes@, offset as int)) by {
            reveal(step);
        }
        instrs.push(ins);
        offset = offset + 4;
        assert(instrs@ + listing(bytes@, offset as int) =~= before + listing(bytes@, (offset - 4) as int));
    }
    assert(listing(bytes@, offset as int) =~= Seq::<Instruction>::empty());
    assert(instrs@ =~= listing(bytes@, 0));
    proof {
        lemma_listing_tiles(bytes@, 0);
    }
    instrs
}

/// Disassembles an ARM section.
pub fn disassemble_arm(section: &Section, section_name: &String, _program: &Program) -> (r: DisassemblySection)
    ensures
        r.section_name@ == section_name@,
        r.instructions matches InstructionListing::Arm(v) && v@ == listing(section.bytes@, 0) && tiles(
            spans(v@),
            0,
            section.bytes@.len() - section.bytes@.len() % 4,
        ),
{
    DisassemblySection {
        section_name: section_name.clone(),
        instructions: InstructionListing::Arm(decode_all(section.bytes.as_slice())),
    }
}

// ---- lifting ----

pub open spec fn reg_v(r: u8) -> ExprV {
    ExprV::Register(reg_text(r))
}

pub open spec fn shift_op(st: u8) -> u8 {
    if st == ST_LSL {
        OP_LSL
    } else if st == ST_LSR {
        OP_LSR
    } else if st == ST_ASR {
        OP_ASR
    } else {
        OP_ROR
    }
}

/// The IR of an operand: registers by name (shifted registers as a shift),
/// immediates as constants.
pub open spec fn operand_expr(o: Operand) -> ExprV {
    match o {
        Operand::Reg(r, s, st) => if s == 0 {
            reg_v(r)
        } else {
            ExprV::Binary(shift_op(st), Box::new(reg_v(r)), Box::new(ExprV::Constant(s as int)))
        },
        Operand::Imm(_, _) | Operand::SImm(_) => ExprV::Constant(operand_value(o)),
        _ => ExprV::Nop,
    }
}

/// The IR operator of a data-processing operation that writes `rd` from
/// `rn` and operand 2.
pub open spec fn dp_binary(op: DpOp) -> Option<u8> {
    match op {
        DpOp::And => Some(OP_AND),
        DpOp::Eor => Some(OP_XOR),
        DpOp::Sub => Some(OP_SUB),
        DpOp::Add => Some(OP_ADD),
        DpOp::Orr => Some(OP_OR),
        _ => None,
    }
}

/// `pc + disp` (the ARM program counter reads eight bytes ahead).
pub open spec fn pc_rel(d: Operand) -> ExprV {
    ExprV::Binary(OP_ADD, Box::new(ExprV::Register("pc"@)), Box::new(operand_expr(d)))
}

/// The IR of one instruction. Only unconditional moves, arithmetic and
/// branches are lowered; the rest becomes `Nop`.
pub open spec fn lift(i: Instruction) -> ExprV {
    if i.cond != COND_AL {
        ExprV::Nop
    } else {
        match i.opcode {
            Opcode::Dp(op, rd, rn, op2) => if op == DpOp::Mov {
                ExprV::Store(Box::new(operand_expr(rd)), Box::new(operand_expr(op2)))
            } else if dp_binary(op) is Some {
                ExprV::Store(
                    Box::new(operand_expr(rd)),
                    Box::new(ExprV::Binary(dp_binary(op)->Some_0, Box::new(operand_expr(rn)), Box::new(operand_expr(op2)))),
                )
            } else {
                ExprV::Nop
            },
            Opcode::B(d) => ExprV::Goto(Box::new(pc_rel(d))),
            Opcode::Bl(d) => ExprV::Call(Box::new(pc_rel(d))),
            Opcode::Bx(r) => if base_reg(r) == REG_LR {
                ExprV::Return
            } else {
                ExprV::Goto(Box::new(operand_expr(r)))
            },
            _ => ExprV::Nop,
        }
    }
}

fn reg_str(r: u8) -> (s: String)
    ensures
        s@ == reg_text(r),
{
    if r == REG_SP {
        String::from_str("sp")
    } else if r == REG_LR {
        String::from_str("lr")
    } else if r == REG_PC {
        String::from_str("pc")
    } else {
        let mut s = String::from_str("r");
        push_dec(&mut s, r as u64);
        s
    }
}

impl Operand {
    pub fn into_expr(&self) -> (e: Box<Expr>)
        ensures
            e@ == operand_expr(*self),
    {
        match *self {
            Operand::Reg(r, s, st) => {
                if s == 0 {
                    expr_register(reg_str(r))
                } else {
                    let op = if st == ST_LSL {
                        OP_LSL
                    } else if st == ST_LSR {
                        OP_LSR
                    } else if st == ST_ASR {
                        OP_ASR
                    } else {
                        OP_ROR
                    };
                    expr_binary(op, expr_register(reg_str(r)), expr_constant(s as i64))
                }
            },
            Operand::Imm(_, _) | Operand::SImm(_) => expr_constant(self.value()),
            _ => expr_nop(),
        }
    }
}

fn pc_plus(d: Operand) -> (e: Box<Expr>)
    ensures
        e@ == pc_rel(d),
{
    expr_binary(OP_ADD, expr_register(String::from_str("pc")), d.into_expr())
}

impl Instruction {
    pub fn into_expr(&self) -> (e: Box<Expr>)
        ensures
            e@ == lift(*self),
    {
        if self.cond != COND_AL {
            return expr_nop();
        }
        match self.opcode {
            Opcode::Dp(op, rd, rn, op2) => {
                let bop: Option<u8> = match op {
                    DpOp::And => Some(OP_AND),
                    DpOp::Eor => Some(OP_XOR),
                    DpOp::Sub => Some(OP_SUB),
                    DpOp::Add => Some(OP_ADD),
                    DpOp::Orr => Some(OP_OR),
                    _ => None,
                };
                if op == DpOp::Mov {
                    expr_store(rd.into_expr(), op2.into_expr())
                } else {
                    match bop {
                        Some(b) => expr_store(rd.into_expr(), expr_binary(b, rn.into_expr(), op2.into_expr())),
                        None => expr_nop(),
                    }
                }
            },
            Opcode::B(d) => expr_goto(pc_plus(d)),
            Opcode::Bl(d) => expr_call(pc_plus(d)),
            Opcode::Bx(r) => {
                let is_lr = match r {
                    Operand::Reg(x, _, _) => x == REG_LR,
                    _ => false,
                };
                if is_lr {
                    expr_ret()
                } else {
                    expr_goto(r.into_expr())
                }
            },
            _ => expr_nop(),
        }
    }
}

// ---- laws ----

/// The register names that the lifter may emit: `r0` to `r12`, `sp`, `lr`
/// and `pc`.
pub open spec fn register_set() -> Set<Seq<char>> {
    Set::new(|s: Seq<char>| exists|r: u8| r < 16 && s == reg_text(r)).insert("pc"@)
}

pub open spec fn operand_ok(o: Operand) -> bool {
    o matches Operand::Reg(r, _, _) ==> r < 16
}

/// Whether the register operands that lifting reads are architectural.
pub open spec fn operands_ok(i: Instruction) -> bool {
    match i.opcode {
        Opcode::Dp(_, rd, rn, op2) => operand_ok(rd) && operand_ok(rn) && operand_ok(op2),
        Opcode::Bx(r) => operand_ok(r),
        Opcode::B(d) => operand_ok(d),
        Opcode::Bl(d) => operand_ok(d),
        _ => true,
    }
}

proof fn lemma_step_operands(b: Seq<u8>, off: int)
    requires
        0 <= off,
    ensures
        operands_ok(step(b, off)),
{
    reveal(step);
    let x = le32(b, off) as u32;
    assert((x >> 12u32) & (0xffff_ffffu32 >> 28u32) < 16) by (bit_vector);
    assert((x >> 16u32) & (0xffff_ffffu32 >> 28u32) < 16) by (bit_vector);
    assert((x >> 0u32) & (0xffff_ffffu32 >> 28u32) < 16) by (bit_vector);
}

proof fn lemma_listing_operands(b: Seq<u8>, off: int)
    requires
        0 <= off,
    ensures
        forall|k: int| 0 <= k < listing(b, off).len() ==> operands_ok(#[trigger] listing(b, off)[k]),
    decreases b.len() - off,
{
    if off + 4 <= b.len() {
        lemma_step_operands(b, off);
        lemma_listing_operands(b, off + 4);
        let l = listing(b, off);
        assert forall|k: int| 0 <= k < l.len() implies operands_ok(#[trigger] l[k]) by {
            if k > 0 {
                assert(l[k] == listing(b, off + 4)[k - 1]);
            }
        }
    }
}

proof fn lemma_operand_registers(o: Operand)
    requires
        operand_ok(o),
    ensures
        regs_within(operand_expr(o), register_set()),
{
    let names = register_set();
    if let Operand::Reg(r, s, st) = o {
        assert(Set::new(|s: Seq<char>| exists|x: u8| x < 16 && s == reg_text(x)).contains(reg_text(r)));
        assert(regs_within(reg_v(r), names));
        assert(regs_within(ExprV::Constant(s as int), names));
        assert(regs_within(ExprV::Binary(shift_op(st), Box::new(reg_v(r)), Box::new(ExprV::Constant(s as int))), names));
    } else {
        assert(regs_within(ExprV::Constant(operand_value(o)), names));
    }
}

/// Every statement lifted from an ARM listing names only `r0` to `r12`,
/// `sp`, `lr` and `pc`.
pub proof fn lemma_lifted_registers(b: Seq<u8>, k: int)
    requires
        0 <= k < listing(b, 0).len(),
    ensures
        regs_within(lift(listing(b, 0)[k]), register_set()),
{
    lemma_listing_operands(b, 0);
    let i = listing(b, 0)[k];
    let names = register_set();
    assert(names.contains("pc"@));
    assert(regs_within(ExprV::Register("pc"@), names));
    match i.opcode {
        Opcode::Dp(op, rd, rn, op2) => {
            lemma_operand_registers(rd);
            lemma_operand_registers(rn);
            lemma_operand_registers(op2);
            if dp_binary(op) is Some {
                assert(regs_within(ExprV::Binary(dp_binary(op)->Some_0, Box::new(operand_expr(rn)), Box::new(operand_expr(op2))), names));
            }
        },
        Opcode::B(d) | Opcode::Bl(d) => {
            lemma_operand_registers(d);
            assert(regs_within(pc_rel(d), names));
        },
        Opcode::Bx(r) => {
            lemma_operand_registers(r);
        },
        _ => {},
    }
}

/// Decoding the four bytes of an instruction at its own offset gives the
/// instruction again.
pub proof fn lemma_redecode(b: Seq<u8>, k: int)
    requires
        0 <= k < listing(b, 0).len(),
        listing(b, 0)[k].opcode != Opcode::Unknown,
        b.len() <= usize::MAX,
    ensures
        ({
            let i = listing(b, 0)[k];
            decode(le32(b.subrange(i.offset as int, i.offset + 4), 0) as u32, i.offset) == Some(i)
        }),
{
    lemma_listing_at(b, 0, k);
    let i = listing(b, 0)[k];
    let own = b.subrange(i.offset as int, i.offset + 4);
    assert(le32(own, 0) == le32(b, i.offset as int));
    reveal(step);
}

proof fn lemma_listing_at(b: Seq<u8>, off: int, k: int)
    requires
        0 <= off,
        0 <= k < listing(b, off).len(),
        b.len() <= usize::MAX,
    ensures
        off <= listing(b, off)[k].offset,
        listing(b, off)[k].offset + 4 <= b.len(),
        listing(b, off)[k] == step(b, listing(b, off)[k].offset as int),
    decreases k,
{
    lemma_step(b, off);
    if k > 0 {
        lemma_listing_at(b, off + 4, k - 1);
    }
}

} // verus!
