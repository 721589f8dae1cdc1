//! Disassembly results shared by the three instruction sets.

use vstd::prelude::*;
use crate::arm;
use crate::prog::{self, find_key, keys, named_addrs, symbols_in, Program};
use crate::riscv;
use crate::text::{concat_all, hex_pad, join, pad_right, push_hex, push_sdec, sdec};
use crate::x86;

verus! {

/// Whether `spans` (pairs of offset and size) lie back to back from `start`
/// to `end`: the first starts at `start`, each next one starts where the
/// previous one ends, the last ends at `end`, and none is empty.
pub open spec fn tiles(spans: Seq<(int, int)>, start: int, end: int) -> bool {
    &&& spans.len() == 0 ==> start == end
    &&& spans.len() > 0 ==> spans[0].0 == start && spans.last().0 + spans.last().1 == end
    &&& forall|i: int| 0 < i < spans.len() ==> #[trigger] spans[i].0 == spans[i - 1].0 + spans[i - 1].1
    &&& forall|i: int| 0 <= i < spans.len() ==> #[trigger] spans[i].1 > 0
}

/// Prepending a span that ends where a tiling starts extends the tiling.
pub proof fn lemma_tiles_cons(x: (int, int), rest: Seq<(int, int)>, mid: int, end: int)
    requires
        x.1 > 0,
        x.0 + x.1 == mid,
        tiles(rest, mid, end),
    ensures
        tiles(seq![x] + rest, x.0, end),
{
    let s = seq![x] + rest;
    assert forall|i: int| 0 < i < s.len() implies #[trigger] s[i].0 == s[i - 1].0 + s[i - 1].1 by {
        assert(s[i] == rest[i - 1]);
        if i > 1 {
            assert(s[i - 1] == rest[i - 2]);
        }
    }
    assert forall|i: int| 0 <= i < s.len() implies #[trigger] s[i].1 > 0 by {
        if i > 0 {
            assert(s[i] == rest[i - 1]);
        }
    }
    if rest.len() > 0 {
        assert(s.last() == rest.last());
    }
}

/// An operand in the form shared by all instruction sets.
pub enum Operand {
    Nothing,
    Register(&'static str),
    /// Base register (`""` for none, `"."` for the program counter), index
    /// register (`""` for none), displacement or scale, access size.
    Memory(&'static str, &'static str, i64, u8),
    Immediate(i64),
}

pub open spec fn size_word(size: u8) -> Seq<char> {
    if size == 1 {
        "BYTE"@
    } else if size == 2 {
        "WORD"@
    } else if size == 4 {
        "DWORD"@
    } else if size == 8 {
        "QWORD"@
    } else {
        "?"@
    }
}

pub open spec fn operand_text(o: &Operand) -> Seq<char> {
    match o {
        Operand::Register(name) => name@,
        Operand::Memory(base, index, offset, size) => if base@.len() == 0 {
            size_word(*size) + " ["@ + sdec(*offset as int) + "]"@
        } else if base@ == "."@ {
            size_word(*size) + " [pc+"@ + sdec(*offset as int) + "]"@
        } else if index@.len() != 0 {
            size_word(*size) + " ["@ + base@ + "+"@ + index@ + "*"@ + sdec(*offset as int) + "]"@
        } else {
            size_word(*size) + " ["@ + base@ + "+"@ + sdec(*offset as int) + "]"@
        },
        Operand::Immediate(i) => sdec(*i as int),
        Operand::Nothing => "()"@,
    }
}

fn size_str(size: u8) -> (s: &'static str)
    ensures
        s@ == size_word(size),
{
    if size == 1 {
        "BYTE"
    } else if size == 2 {
        "WORD"
    } else if size == 4 {
        "DWORD"
    } else if size == 8 {
        "QWORD"
    } else {
        "?"
    }
}

impl Operand {
    pub fn print(&self) -> (s: String)
        ensures
            s@ == operand_text(self),
    {
        match self {
            Operand::Register(name) => String::from_str(name),
            Operand::Memory(base, index, offset, size) => {
                let mut s = String::from_str(size_str(*size));
                proof {
                    reveal_strlit(".");
                }
                if base.unicode_len() == 0 {
                    s.append(" [");
                } else if base.unicode_len() == 1 && base.get_char(0) == '.' {
                    assert(base@ =~= "."@);
                    s.append(" [pc+");
                } else {
                    assert(base@ != "."@);
                    s.append(" [");
                    s.append(base);
                    s.append("+");
                    if index.unicode_len() != 0 {
                        s.append(index);
                        s.append("*");
                    }
                }
                push_sdec(&mut s, *offset);
                s.append("]");
                s
            },
            Operand::Immediate(i) => {
                let mut s = String::new();
                push_sdec(&mut s, *i);
                s
            },
            Operand::Nothing => String::from_str("()"),
        }
    }
}

/// An instruction in the form shared by all instruction sets.
pub struct Instruction {
    pub opcode: &'static str,
    pub operands: Vec<Operand>,
    pub flags: u64,
}

/// The mnemonic followed by the operands, separated by commas.
pub open spec fn instruction_text(i: &Instruction) -> Seq<char> {
    i.opcode@ + join(Seq::new(i.operands@.len(), |k: int| " "@ + operand_text(&i.operands@[k])), ","@)
}

impl Instruction {
    pub fn print(&self) -> (s: String)
        ensures
            s@ == instruction_text(self),
    {
        let ghost pieces = Seq::new(self.operands@.len(), |k: int| " "@ + operand_text(&self.operands@[k]));
        let mut s = String::from_str(self.opcode);
        let ghost head = s@;
        let mut i: usize = 0;
        assert(pieces.take(0) =~= Seq::<Seq<char>>::empty());
        while i < self.operands.len()
            invariant
                i <= self.operands@.len(),
                pieces == Seq::new(self.operands@.len(), |k: int| " "@ + operand_text(&self.operands@[k])),
                s@ == head + join(pieces.take(i as int), ","@),
            decreases self.operands@.len() - i,
        {
            if i > 0 {
                s.append(",");
            }
            s.append(" ");
            s.append(self.operands[i].print().as_str());
            proof {
                assert(pieces.take(i + 1).drop_last() =~= pieces.take(i as int));
                assert(s@ =~= head + join(pieces.take(i + 1), ","@));
            }
            i = i + 1;
        }
        assert(pieces.take(i as int) =~= pieces);
        s
    }
}

pub enum InstructionListing {
    Rv(Vec<riscv::Instruction>),
    X86(Vec<x86::Instruction>),
    Arm(Vec<arm::Instruction>),
    Unknown,
}

pub struct DisassemblySection {
    pub section_name: String,
    pub instructions: InstructionListing,
}

/// One printed row: offset, size and assembly text of an instruction.
pub type Row = (int, int, Seq<char>);

pub open spec fn rv_rows(v: Seq<riscv::Instruction>) -> Seq<Row> {
    Seq::new(v.len(), |i: int| (v[i].offset as int, v[i].ins_size as int, riscv::ins_text(v[i])))
}

pub open spec fn x86_rows(v: Seq<x86::Instruction>) -> Seq<Row> {
    Seq::new(v.len(), |i: int| (v[i].offset as int, v[i].ins_size as int, x86::ins_text(v[i])))
}

pub open spec fn arm_rows(v: Seq<arm::Instruction>) -> Seq<Row> {
    Seq::new(v.len(), |i: int| (v[i].offset as int, v[i].ins_size as int, arm::ins_text(v[i])))
}

/// The rows of a listing.
pub open spec fn rows(l: &InstructionListing) -> Seq<Row> {
    match l {
        InstructionListing::Rv(v) => rv_rows(v@),
        InstructionListing::X86(v) => x86_rows(v@),
        InstructionListing::Arm(v) => arm_rows(v@),
        InstructionListing::Unknown => Seq::empty(),
    }
}

/// Whether printed rows `r` stand for the rows `m`.
pub open spec fn rows_match(r: Seq<(usize, usize, String)>, m: Seq<Row>) -> bool {
    r.len() == m.len() && forall|i: int| 0 <= i < r.len() ==> (r[i].0 as int, r[i].1 as int, #[trigger] r[i].2@) == m[i]
}

/// The bytes `b[off..off + n]` in hexadecimal, separated by spaces.
pub open spec fn bytes_text(b: Seq<u8>, off: int, n: nat) -> Seq<char>
    decreases n,
{
    if n == 0 {
        Seq::empty()
    } else {
        let k = off + n - 1;
        bytes_text(b, off, (n - 1) as nat) + (if n > 1 { " "@ } else { ""@ }) + (if 0 <= k < b.len() {
            hex_pad(b[k] as nat, 2)
        } else {
            "??"@
        })
    }
}

/// The bytes of an optional slice.
pub open spec fn opt_bytes(b: Option<&[u8]>) -> Option<Seq<u8>> {
    match b {
        Some(x) => Some(x@),
        None => None,
    }
}

/// A label line `name:` for each symbol at `addr`, in table order.
pub open spec fn label_line(syms: Seq<(u64, Seq<char>)>, addr: int) -> Seq<char>
    decreases syms.len(),
{
    if syms.len() == 0 {
        Seq::empty()
    } else {
        label_line(syms.drop_last(), addr) + if syms.last().0 == addr {
            syms.last().1 + ":\n"@
        } else {
            Seq::empty()
        }
    }
}

/// The printed line of one row: a label line for each symbol at its
/// address, then `_<offset>: <text>` and, when bytes are given, the bytes.
pub open spec fn row_text(r: Row, addr: int, bytes: Option<Seq<u8>>, syms: Seq<(u64, Seq<char>)>) -> Seq<char> {
    label_line(syms, addr + r.0) + "_"@ + hex_pad(r.0 as nat, 8) + ": "@ + match bytes {
        Some(b) => pad_right(r.2, 32) + "("@ + bytes_text(b, r.0, r.1 as nat) + ")"@,
        None => r.2,
    } + "\n"@
}

/// The text of a listing.
pub open spec fn listing_text(rs: Seq<Row>, addr: int, bytes: Option<Seq<u8>>, syms: Seq<(u64, Seq<char>)>) -> Seq<char>
    decreases rs.len(),
{
    if rs.len() == 0 {
        Seq::empty()
    } else {
        listing_text(rs.drop_last(), addr, bytes, syms) + row_text(rs.last(), addr, bytes, syms)
    }
}

/// The text of a listing: `unknown` for no listing.
pub open spec fn listing_print(l: &InstructionListing, addr: int, bytes: Option<Seq<u8>>, syms: Seq<(u64, Seq<char>)>) -> Seq<char> {
    if l is Unknown {
        "unknown\n"@
    } else {
        listing_text(rows(l), addr, bytes, syms)
    }
}

fn push_label(out: &mut String, symbols: &Vec<(u64, String)>, addr: u64)
    ensures
        final(out)@ == old(out)@ + label_line(named_addrs(symbols@), addr as int),
{
    let ghost syms = named_addrs(symbols@);
    let ghost start = out@;
    let mut i: usize = 0;
    assert(syms.take(0) =~= Seq::<(u64, Seq<char>)>::empty());
    while i < symbols.len()
        invariant
            i <= symbols@.len(),
            syms == named_addrs(symbols@),
            out@ == start + label_line(syms.take(i as int), addr as int),
        decreases symbols@.len() - i,
    {
        assert(syms.take(i + 1).drop_last() =~= syms.take(i as int));
        let ghost before = out@;
        if symbols[i].0 == addr {
            out.append(symbols[i].1.as_str());
            out.append(":\n");
        }
        assert(out@ =~= start + label_line(syms.take(i + 1), addr as int));
        i = i + 1;
    }
    assert(syms.take(i as int) =~= syms);
}

pub(crate) fn push_pad_right(out: &mut String, s: &String, width: usize)
    ensures
        final(out)@ == old(out)@ + pad_right(s@, width as nat),
{
    out.append(s.as_str());
    let len = s.as_str().unicode_len();
    let mut k = len;
    let ghost start = out@;
    let ghost mut pad: Seq<char> = Seq::empty();
    while k < width
        invariant
            len == s@.len(),
            len <= k,
            k <= width || k == len,
            pad.len() == k - len,
            forall|i: int| 0 <= i < pad.len() ==> pad[i] == ' ',
            out@ == start + pad,
        decreases width - k,
    {
        out.append(" ");
        proof {
            reveal_strlit(" ");
            pad = pad.push(' ');
            assert(out@ =~= start + pad);
        }
        k = k + 1;
    }
    proof {
        if len < width {
            assert(pad =~= Seq::new((width - len) as nat, |_i: int| ' '));
        } else {
            assert(pad =~= Seq::<char>::empty());
        }
        assert(out@ =~= old(out)@ + pad_right(s@, width as nat));
    }
}

fn push_bytes(out: &mut String, b: &[u8], off: usize, n: usize)
    ensures
        final(out)@ == old(out)@ + bytes_text(b@, off as int, n as nat),
{
    let ghost start = out@;
    let mut k: usize = 0;
    while k < n
        invariant
            k <= n,
            out@ == start + bytes_text(b@, off as int, k as nat),
        decreases n - k,
    {
        if k > 0 {
            out.append(" ");
        }
        if off < b.len() && k < b.len() - off {
            push_hex(out, b[off + k] as u64, 2);
        } else {
            out.append("??");
        }
        k = k + 1;
        proof {
            reveal_strlit("");
            assert(out@ =~= start + bytes_text(b@, off as int, k as nat));
        }
    }
}


fn rv_row_vec(v: &Vec<riscv::Instruction>) -> (out: Vec<(usize, usize, String)>)
    ensures
        rows_match(out@, rv_rows(v@)),
{
    let mut out: Vec<(usize, usize, String)> = Vec::new();
    let mut i: usize = 0;
    while i < v.len()
        invariant
            i <= v@.len(),
            out@.len() == i,
            forall|j: int| 0 <= j < i ==> (out@[j].0 as int, out@[j].1 as int, #[trigger] out@[j].2@) == rv_rows(v@)[j],
        decreases v@.len() - i,
    {
        let ins = v[i];
        out.push((ins.offset(), ins.size(), ins.print()));
        i = i + 1;
    }
    out
}

fn x86_row_vec(v: &Vec<x86::Instruction>) -> (out: Vec<(usize, usize, String)>)
    ensures
        rows_match(out@, x86_rows(v@)),
{
    let mut out: Vec<(usize, usize, String)> = Vec::new();
    let mut i: usize = 0;
    while i < v.len()
        invariant
            i <= v@.len(),
            out@.len() == i,
            forall|j: int| 0 <= j < i ==> (out@[j].0 as int, out@[j].1 as int, #[trigger] out@[j].2@) == x86_rows(v@)[j],
        decreases v@.len() - i,
    {
        let ins = v[i];
        out.push((ins.offset(), ins.size(), ins.print()));
        i = i + 1;
    }
    out
}

fn arm_row_vec(v: &Vec<arm::Instruction>) -> (out: Vec<(usize, usize, String)>)
    ensures
        rows_match(out@, arm_rows(v@)),
{
    let mut out: Vec<(usize, usize, String)> = Vec::new();
    let mut i: usize = 0;
    while i < v.len()
        invariant
            i <= v@.len(),
            out@.len() == i,
            forall|j: int| 0 <= j < i ==> (out@[j].0 as int, out@[j].1 as int, #[trigger] out@[j].2@) == arm_rows(v@)[j],
        decreases v@.len() - i,
    {
        let ins = v[i];
        out.push((ins.offset(), ins.size(), ins.print()));
        i = i + 1;
    }
    out
}

/// No symbol sits beyond the 64-bit address range.
proof fn lemma_no_label_beyond(syms: Seq<(u64, Seq<char>)>, a: int)
    requires
        a > u64::MAX,
    ensures
        label_line(syms, a) == Seq::<char>::empty(),
    decreases syms.len(),
{
    if syms.len() > 0 {
        lemma_no_label_beyond(syms.drop_last(), a);
    }
}

fn print_row(off: usize, size: usize, text: &String, addr: u64, bytes: Option<&[u8]>, symbols: &Vec<(u64, String)>) -> (s: String)
    ensures
        s@ == row_text((off as int, size as int, text@), addr as int, opt_bytes(bytes), named_addrs(symbols@)),
{
    let mut out = String::new();
    if off as u128 + addr as u128 <= u64::MAX as u128 {
        push_label(&mut out, symbols, addr + off as u64);
    } else {
        proof {
            lemma_no_label_beyond(named_addrs(symbols@), addr + off);
            assert(out@ =~= Seq::<char>::empty() + label_line(named_addrs(symbols@), addr + off));
        }
    }
    out.append("_");
    push_hex(&mut out, off as u64, 8);
    out.append(": ");
    let mut tail = String::new();
    match bytes {
        Some(b) => {
            push_pad_right(&mut tail, text, 32);
            tail.append("(");
            push_bytes(&mut tail, b, off, size);
            tail.append(")");
        },
        None => tail.append(text.as_str()),
    }
    out.append(tail.as_str());
    out.append("\n");
    proof {
        reveal_strlit("");
    }
    out
}

impl InstructionListing {
    /// The rows of the listing, one per instruction.
    pub fn row_vec(&self) -> (r: Vec<(usize, usize, String)>)
        ensures
            rows_match(r@, rows(self)),
    {
        match self {
            InstructionListing::Rv(v) => rv_row_vec(v),
            InstructionListing::X86(v) => x86_row_vec(v),
            InstructionListing::Arm(v) => arm_row_vec(v),
            InstructionListing::Unknown => Vec::new(),
        }
    }

    /// The instructions in the shared form; x86 listings only, the other
    /// listings give none.
    pub fn instruction_vec(&self) -> (r: Vec<Instruction>)
        ensures
            self matches InstructionListing::X86(v) ==> r@.len() == v@.len() && forall|i: int|
                0 <= i < r@.len() ==> x86::converted(v@[i], #[trigger] r@[i]),
            !(self is X86) ==> r@.len() == 0,
    {
        let mut out: Vec<Instruction> = Vec::new();
        if let InstructionListing::X86(v) = self {
            let mut i: usize = 0;
            while i < v.len()
                invariant
                    i <= v@.len(),
                    out@.len() == i,
                    forall|j: int| 0 <= j < i ==> x86::converted(v@[j], #[trigger] out@[j]),
                decreases v@.len() - i,
            {
                out.push(x86::Instruction::into(&v[i]));
                i = i + 1;
            }
        }
        out
    }

    /// The listing as text, one line per instruction, each preceded by a
    /// label line for every symbol at its address (`addr` plus its offset).
    pub fn print(&self, addr: u64, bytes: Option<&[u8]>, symbols: Vec<(u64, String)>) -> (s: String)
        ensures
            s@ == listing_print(self, addr as int, opt_bytes(bytes), named_addrs(symbols@)),
    {
        if let InstructionListing::Unknown = self {
            return String::from_str("unknown\n");
        }
        let rs = self.row_vec();
        assert(rows_match(rs@, rows(self)));
        let ghost bv: Option<Seq<u8>> = opt_bytes(bytes);
        let ghost syms = named_addrs(symbols@);
        let ghost spec_rows = rows(self);
        let mut out = String::new();
        let mut i: usize = 0;
        while i < rs.len()
            invariant
                i <= rs@.len(),
                rs@.len() == spec_rows.len(),
                spec_rows == rows(self),
                forall|j: int| 0 <= j < rs@.len() ==> (rs@[j].0 as int, rs@[j].1 as int, #[trigger] rs@[j].2@) == spec_rows[j],
                out@ == listing_text(spec_rows.subrange(0, i as int), addr as int, bv, syms),
                bv == opt_bytes(bytes),
                syms == named_addrs(symbols@),
            decreases rs@.len() - i,
        {
            let row = &rs[i];
            let ghost before = out@;
            assert((row.0 as int, row.1 as int, row.2@) == spec_rows[i as int]);
            let line = print_row(row.0, row.1, &row.2, addr, bytes, &symbols);
            out.append(line.as_str());
            proof {
                let sub = spec_rows.subrange(0, i + 1);
                assert(sub.last() == spec_rows[i as int]);
                assert((row.0 as int, row.1 as int, row.2@) == spec_rows[i as int]);
                assert(line@ == row_text(spec_rows[i as int], addr as int, bv, syms));
                assert(out@ == before + row_text(sub.last(), addr as int, bv, syms));
                assert(spec_rows.subrange(0, i + 1).drop_last() =~= spec_rows.subrange(0, i as int));
            }
            i = i + 1;
        }
        assert(spec_rows.subrange(0, i as int) =~= spec_rows);
        out
    }
}

pub struct Disassembly {
    pub program: Program,
    pub section: DisassemblySection,
}

/// The decoder that a machine tag selects: 1 ARM, 2 x86 (also for amd64),
/// 3 RISC-V, 0 none.
pub open spec fn machine_kind(m: Seq<char>) -> u8 {
    if m == "arm"@ {
        1
    } else if m == "x86"@ || m == "amd64"@ {
        2
    } else if m == "riscv"@ {
        3
    } else {
        0
    }
}

fn machine_of(m: &String) -> (k: u8)
    ensures
        k == machine_kind(m@),
{
    if *m == String::from_str("arm") {
        1
    } else if *m == String::from_str("x86") || *m == String::from_str("amd64") {
        2
    } else if *m == String::from_str("riscv") {
        3
    } else {
        0
    }
}

/// Whether `i` is the first index of `name` in `names`.
pub open spec fn first_at(names: Seq<Seq<char>>, name: Seq<char>, i: int) -> bool {
    0 <= i < names.len() && names[i] == name && forall|j: int| 0 <= j < i ==> names[j] != name
}

/// The section that is decoded: `.text` if the program has one, else `file`.
pub open spec fn chosen_name(p: Program) -> Seq<char> {
    if exists|i: int| 0 <= i < p.section_table@.len() && p.section_table@[i].0@ == ".text"@ {
        ".text"@
    } else {
        "file"@
    }
}

/// What the decoder of the program's machine makes of `bytes`.
pub open spec fn listing_matches(l: &InstructionListing, kind: u8, bytes: Seq<u8>) -> bool {
    match l {
        InstructionListing::Arm(v) => kind == 1 && v@ == arm::listing(bytes, 0),
        InstructionListing::X86(v) => kind == 2 && v@ == x86::listing(bytes, 0),
        InstructionListing::Rv(v) => kind == 3 && v@ == riscv::listing(bytes, 0),
        InstructionListing::Unknown => kind == 0,
    }
}

impl Disassembly {
    pub open spec fn spec_program(&self) -> Program {
        self.program
    }

    pub open spec fn spec_section(&self) -> &DisassemblySection {
        &self.section
    }

    pub fn program(&self) -> (r: &Program)
        ensures
            *r == self.spec_program(),
    {
        &self.program
    }

    pub fn section(&self) -> (r: &DisassemblySection)
        ensures
            r == self.spec_section(),
    {
        &self.section
    }

    /// The listing as text: a `.section` line, an `.org` line with the
    /// section's address, then the instructions with their labels and, if
    /// asked, their bytes.
    pub fn print(&self, show_bytes: bool) -> (s: String)
        ensures
            forall|i: int| #[trigger] first_at(keys(self.program.section_table@), self.section.section_name@, i) ==> s@
                == ".section "@ + self.section.section_name@ + "\n"@ + ".org 0x"@ + hex_pad(
                self.program.section_table@[i].1.addr as nat,
                8,
            ) + "\n"@ + listing_print(
                &self.section.instructions,
                self.program.section_table@[i].1.addr as int,
                if show_bytes {
                    Some(self.program.section_table@[i].1.bytes@)
                } else {
                    None
                },
                section_symbols(self.program, self.program.section_table@[i].1),
            ),
            (forall|i: int| !#[trigger] first_at(keys(self.program.section_table@), self.section.section_name@, i)) ==> s@
                == ".section "@ + self.section.section_name@ + "\n"@ + listing_print(
                &self.section.instructions,
                0,
                None,
                Seq::empty(),
            ),
    {
        let mut out = String::from_str(".section ");
        out.append(self.section.section_name.as_str());
        out.append("\n");
        let names = Ghost(keys(self.program.section_table@));
        match find_key(&self.program.section_table, self.section.section_name.as_str()) {
            Some(i) => {
                proof {
                    assert(first_at(names@, self.section.section_name@, i as int));
                    assert forall|j: int| #[trigger] first_at(names@, self.section.section_name@, j) implies j == i by {
                        if j < i {
                            assert(names@[j] == self.program.section_table@[j].0@);
                        } else if j > i {
                            assert(names@[i as int] == self.program.section_table@[i as int].0@);
                        }
                    }
                }
                let section = &self.program.section_table[i].1;
                out.append(".org 0x");
                push_hex(&mut out, section.addr, 8);
                out.append("\n");
                let len = section.bytes.len() as u64;
                let stop = if section.addr <= u64::MAX - len {
                    section.addr + len
                } else {
                    u64::MAX
                };
                let symbols = self.program.get_symbols_in_section(section.addr, stop);
                let bytes = if show_bytes {
                    Some(section.bytes.as_slice())
                } else {
                    None
                };
                out.append(self.section.instructions.print(section.addr, bytes, symbols).as_str());
            },
            None => {
                proof {
                    assert forall|j: int| !#[trigger] first_at(names@, self.section.section_name@, j) by {
                        if 0 <= j < names@.len() {
                            assert(names@[j] == self.program.section_table@[j].0@);
                        }
                    }
                }
                let empty: Vec<(u64, String)> = Vec::new();
                assert(named_addrs(empty@) =~= Seq::<(u64, Seq<char>)>::empty());
                out.append(self.section.instructions.print(0, None, empty).as_str());
            },
        }
        out
    }
}

/// The end of a section's address range, capped at the largest address.
pub open spec fn section_end(s: prog::Section) -> u64 {
    if s.addr + s.bytes@.len() <= u64::MAX {
        (s.addr + s.bytes@.len()) as u64
    } else {
        u64::MAX
    }
}

/// The symbols of the program that lie in section `s`.
pub open spec fn section_symbols(p: Program, s: prog::Section) -> Seq<(u64, Seq<char>)> {
    symbols_in(p.symbol_table@, s.addr, section_end(s))
}

/// Whether `d` is the disassembly of `program`: the chosen section decoded
/// by the decoder of its machine, or no listing when the program lacks that
/// section.
pub open spec fn disassembly_of(program: Program, d: &Disassembly) -> bool {
    &&& d.program == program
    &&& d.section.section_name@ == chosen_name(program)
    &&& forall|i: int| #[trigger] first_at(keys(program.section_table@), chosen_name(program), i) ==> listing_matches(
        &d.section.instructions,
        machine_kind(program.machine_type@),
        program.section_table@[i].1.bytes@,
    )
    &&& (forall|i: int| !#[trigger] first_at(keys(program.section_table@), chosen_name(program), i)) ==> d.section.instructions is Unknown
}

/// Decodes the chosen section of `program` with the decoder its machine tag
/// selects.
pub fn disassemble_program(program: Program) -> (d: Disassembly)
    ensures
        disassembly_of(program, &d),
{
    let name = match find_key(&program.section_table, ".text") {
        Some(_) => ".text",
        None => "file",
    };
    proof {
        reveal_strlit(".text");
        reveal_strlit("file");
    }
    let section_name = String::from_str(name);
    let kind = machine_of(&program.machine_type);
    let section = match find_key(&program.section_table, name) {
        Some(i) => {
            proof {
                assert(first_at(keys(program.section_table@), chosen_name(program), i as int));
                assert forall|j: int| first_at(keys(program.section_table@), chosen_name(program), j) implies j == i by {
                    if j < i {
                    } else if j > i {
                    }
                }
            }
            let sec = &program.section_table[i].1;
            if kind == 1 {
                arm::disassemble_arm(sec, &section_name, &program)
            } else if kind == 2 {
                x86::disassemble_x86(sec, &section_name, &program)
            } else if kind == 3 {
                riscv::disassemble_riscv(sec, &section_name, &program)
            } else {
                DisassemblySection { section_name, instructions: InstructionListing::Unknown }
            }
        },
        None => {
            proof {
                assert forall|j: int| !first_at(keys(program.section_table@), chosen_name(program), j) by {
                    if 0 <= j < program.section_table@.len() {
                        assert(keys(program.section_table@)[j] == program.section_table@[j].0@);
                    }
                }
            }
            DisassemblySection { section_name, instructions: InstructionListing::Unknown }
        },
    };
    Disassembly { program, section }
}

/// Loads a program from raw bytes and disassembles it.
pub fn disassemble(bytes: &[u8]) -> (d: Disassembly)
    ensures
        disassembly_of(d.spec_program(), &d),
        prog::loaded_from(bytes@, d.spec_program()),
        crate::query::file_type(bytes@) == crate::query::FileType::RawBinary ==> prog::is_raw_program(d.spec_program(), bytes@),
{
    disassemble_program(prog::load_program_from_bytes(bytes))
}

} // verus!
