//! The program model that the decoders consume: sections, segments and
//! symbols.

use vstd::prelude::*;
use crate::elf;
use crate::pe;
use crate::query::{file_type, get_file_type, FileType};
use crate::util::{le16, word16, LITTLE_ENDIAN};

verus! {

/// A contiguous named byte range with its load address.
#[derive(Clone)]
pub struct Section {
    pub addr: u64,
    pub bytes: Vec<u8>,
}

/// A loadable region.
#[derive(Clone, Copy)]
pub struct Segment {
    pub perm: u8,
    pub offset: u64,
    pub vaddr: u64,
    pub paddr: u64,
    pub size: usize,
}

#[derive(Clone, Copy)]
pub struct Symbol {
    pub addr: u64,
    pub size: u64,
}

/// A loaded program. Sections and symbols are kept in name order of
/// insertion; a name occurs at most once in each table.
#[derive(Clone)]
pub struct Program {
    pub bits: u8,
    pub endianess: u8,
    pub machine_type: String,
    pub entry_point: u64,
    pub program_table: Vec<Segment>,
    pub section_table: Vec<(String, Section)>,
    pub symbol_table: Vec<(String, Symbol)>,
}

/// The names of a table's entries.
pub open spec fn keys<T>(t: Seq<(String, T)>) -> Seq<Seq<char>> {
    Seq::new(t.len(), |i: int| t[i].0@)
}

/// The first index at which `name` occurs in `names`.
pub open spec fn index_of(names: Seq<Seq<char>>, name: Seq<char>) -> Option<int> {
    if exists|i: int| 0 <= i < names.len() && names[i] == name {
        Some(choose|i: int| 0 <= i < names.len() && names[i] == name && forall|j: int| 0 <= j < i ==> names[j] != name)
    } else {
        None
    }
}

/// Whether no name occurs twice.
pub open spec fn unique_names(names: Seq<Seq<char>>) -> bool {
    forall|i: int, j: int| 0 <= i < j < names.len() ==> names[i] != names[j]
}

/// `(address, name)` of each symbol whose address lies in `[start, stop)`, in
/// table order.
pub open spec fn symbols_in(t: Seq<(String, Symbol)>, start: u64, stop: u64) -> Seq<(u64, Seq<char>)>
    decreases t.len(),
{
    if t.len() == 0 {
        Seq::empty()
    } else {
        let rest = symbols_in(t.drop_last(), start, stop);
        let s = t.last();
        if start <= s.1.addr && s.1.addr < stop {
            rest.push((s.1.addr, s.0@))
        } else {
            rest
        }
    }
}

/// A list of `(address, name)` pairs as values.
pub open spec fn named_addrs(v: Seq<(u64, String)>) -> Seq<(u64, Seq<char>)> {
    Seq::new(v.len(), |i: int| (v[i].0, v[i].1@))
}

/// A section whose name is `name`: the first in the table.
pub fn find_key<T>(table: &Vec<(String, T)>, name: &str) -> (r: Option<usize>)
    ensures
        match r {
            Some(i) => i < table@.len() && table@[i as int].0@ == name@ && forall|j: int|
                0 <= j < i ==> table@[j].0@ != name@,
            None => forall|j: int| 0 <= j < table@.len() ==> table@[j].0@ != name@,
        },
{
    let key = String::from_str(name);
    let mut i: usize = 0;
    while i < table.len()
        invariant
            i <= table@.len(),
            key@ == name@,
            forall|j: int| 0 <= j < i ==> table@[j].0@ != name@,
        decreases table@.len() - i,
    {
        if table[i].0 == key {
            return Some(i);
        }
        i = i + 1;
    }
    None
}

/// Copies a byte slice into a vector.
pub fn copy_bytes(b: &[u8]) -> (v: Vec<u8>)
    ensures
        v@ == b@,
{
    let mut v: Vec<u8> = Vec::new();
    let mut i: usize = 0;
    while i < b.len()
        invariant
            i <= b@.len(),
            v@ == b@.subrange(0, i as int),
        decreases b@.len() - i,
    {
        v.push(b[i]);
        i = i + 1;
        assert(v@ =~= b@.subrange(0, i as int));
    }
    assert(v@ =~= b@);
    v
}

/// Whether no two entries of an address and name list share a name.
pub open spec fn distinct_names(s: Seq<(u64, Seq<char>)>) -> bool {
    forall|i: int, j: int| 0 <= i < j < s.len() ==> s[i].1 != s[j].1
}

/// Each entry of `symbols_in(t, ..)` is an entry of `t`, and the entries keep
/// distinct names when `t` does.
pub proof fn lemma_symbols_in_names(t: Seq<(String, Symbol)>, start: u64, stop: u64)
    ensures
        forall|i: int| 0 <= i < symbols_in(t, start, stop).len() ==> exists|j: int| 0 <= j < t.len() && t[j].0@ == (
        #[trigger] symbols_in(t, start, stop)[i]).1 && t[j].1.addr == symbols_in(t, start, stop)[i].0,
        unique_names(keys(t)) ==> distinct_names(symbols_in(t, start, stop)),
    decreases t.len(),
{
    if t.len() > 0 {
        let d = t.drop_last();
        lemma_symbols_in_names(d, start, stop);
        let rest = symbols_in(d, start, stop);
        let r = symbols_in(t, start, stop);
        assert forall|i: int| 0 <= i < r.len() implies exists|j: int| 0 <= j < t.len() && t[j].0@ == (#[trigger] r[i]).1
            && t[j].1.addr == r[i].0 by {
            if i < rest.len() {
                assert(r[i] == rest[i]);
                let j = choose|j: int| 0 <= j < d.len() && d[j].0@ == rest[i].1 && d[j].1.addr == rest[i].0;
                assert(t[j] == d[j]);
            } else {
                assert(t[t.len() - 1] == t.last());
            }
        }
        if unique_names(keys(t)) {
            assert(keys(d) =~= keys(t).drop_last());
            assert(unique_names(keys(d)));
            assert forall|a: int, b: int| 0 <= a < b < r.len() implies r[a].1 != r[b].1 by {
                if b >= rest.len() {
                    assert(r[a] == rest[a]);
                    let j = choose|j: int| 0 <= j < d.len() && d[j].0@ == rest[a].1 && d[j].1.addr == rest[a].0;
                    assert(keys(t)[j] == t[j].0@);
                    assert(keys(t)[t.len() - 1] == t.last().0@);
                } else {
                    assert(r[a] == rest[a] && r[b] == rest[b]);
                }
            }
        }
    }
}

impl Program {
    /// Section names and symbol names each occur at most once.
    pub open spec fn wf(&self) -> bool {
        unique_names(keys(self.section_table@)) && unique_names(keys(self.symbol_table@))
    }

    /// The section and the segment that contain `addr`, each the first found.
    pub fn find_section_and_segment(&self, addr: u64) -> (r: (Option<usize>, Option<usize>))
        ensures
            match r.0 {
                Some(i) => i < self.section_table@.len() && contains(self.section_table@[i as int].1, addr)
                    && forall|j: int| 0 <= j < i ==> !contains(self.section_table@[j].1, addr),
                None => forall|j: int| 0 <= j < self.section_table@.len() ==> !contains(self.section_table@[j].1, addr),
            },
            match r.1 {
                Some(i) => i < self.program_table@.len() && in_segment(self.program_table@[i as int], addr)
                    && forall|j: int| 0 <= j < i ==> !in_segment(self.program_table@[j], addr),
                None => forall|j: int| 0 <= j < self.program_table@.len() ==> !in_segment(self.program_table@[j], addr),
            },
    {
        (self.section_at(addr), self.segment_at(addr))
    }

    fn section_at(&self, addr: u64) -> (r: Option<usize>)
        ensures
            match r {
                Some(i) => i < self.section_table@.len() && contains(self.section_table@[i as int].1, addr)
                    && forall|j: int| 0 <= j < i ==> !contains(self.section_table@[j].1, addr),
                None => forall|j: int| 0 <= j < self.section_table@.len() ==> !contains(self.section_table@[j].1, addr),
            },
    {
        let mut i: usize = 0;
        while i < self.section_table.len()
            invariant
                i <= self.section_table@.len(),
                forall|j: int| 0 <= j < i ==> !contains(self.section_table@[j].1, addr),
            decreases self.section_table@.len() - i,
        {
            let s = &self.section_table[i].1;
            if addr >= s.addr && (addr - s.addr) < s.bytes.len() as u64 {
                return Some(i);
            }
            i = i + 1;
        }
        None
    }

    fn segment_at(&self, addr: u64) -> (r: Option<usize>)
        ensures
            match r {
                Some(i) => i < self.program_table@.len() && in_segment(self.program_table@[i as int], addr)
                    && forall|j: int| 0 <= j < i ==> !in_segment(self.program_table@[j], addr),
                None => forall|j: int| 0 <= j < self.program_table@.len() ==> !in_segment(self.program_table@[j], addr),
            },
    {
        let mut k: usize = 0;
        while k < self.program_table.len()
            invariant
                k <= self.program_table@.len(),
                forall|j: int| 0 <= j < k ==> !in_segment(self.program_table@[j], addr),
            decreases self.program_table@.len() - k,
        {
            let g = &self.program_table[k];
            if addr >= g.vaddr && (addr - g.vaddr) < g.size as u64 {
                return Some(k);
            }
            k = k + 1;
        }
        None
    }

    /// The symbols whose address lies in `[start, stop)`, as `(address, name)`.
    pub fn get_symbols_in_section(&self, start: u64, stop: u64) -> (r: Vec<(u64, String)>)
        ensures
            named_addrs(r@) == symbols_in(self.symbol_table@, start, stop),
            self.wf() ==> distinct_names(named_addrs(r@)),
    {
        let mut out: Vec<(u64, String)> = Vec::new();
        let mut i: usize = 0;
        while i < self.symbol_table.len()
            invariant
                i <= self.symbol_table@.len(),
                named_addrs(out@) == symbols_in(self.symbol_table@.subrange(0, i as int), start, stop),
            decreases self.symbol_table@.len() - i,
        {
            let ghost prev = out@;
            let a = self.symbol_table[i].1.addr;
            proof {
                assert(self.symbol_table@.subrange(0, i + 1).drop_last() =~= self.symbol_table@.subrange(0, i as int));
            }
            if a >= start && a < stop {
                out.push((a, self.symbol_table[i].0.clone()));
                assert(named_addrs(out@) =~= named_addrs(prev).push((a, self.symbol_table@[i as int].0@)));
            }
            i = i + 1;
        }
        assert(self.symbol_table@.subrange(0, i as int) =~= self.symbol_table@);
        proof {
            lemma_symbols_in_names(self.symbol_table@, start, stop);
        }
        out
    }
}

/// Whether `addr` lies in a section's address range.
pub open spec fn contains(s: Section, addr: u64) -> bool {
    s.addr <= addr && addr - s.addr < s.bytes@.len()
}

/// Whether `addr` lies in a segment's virtual address range.
pub open spec fn in_segment(g: Segment, addr: u64) -> bool {
    g.vaddr <= addr && addr - g.vaddr < g.size
}

/// A program made of one section, `file`, holding all of `bytes` at address
/// zero, and one segment covering it with all permissions.
pub fn build_program_from_binary(
    bytes: &[u8],
    bits: Option<u8>,
    endianess: Option<u8>,
    machine_type: Option<String>,
) -> (p: Program)
    ensures
        p.section_table@.len() == 1,
        p.section_table@[0].0@ == "file"@,
        p.section_table@[0].1.addr == 0,
        p.section_table@[0].1.bytes@ == bytes@,
        p.program_table@.len() == 1,
        p.program_table@[0] == (Segment { perm: 0x7, offset: 0, vaddr: 0, paddr: 0, size: bytes@.len() as usize }),
        p.symbol_table@.len() == 0,
        p.bits == (match bits { Some(b) => b, None => 0 }),
        p.endianess == (match endianess { Some(e) => e, None => 0 }),
        p.machine_type@ == (match machine_type { Some(m) => m@, None => "unknown"@ }),
        p.entry_point == 0,
        p.wf(),
{
    let mut section_table: Vec<(String, Section)> = Vec::new();
    section_table.push((String::from_str("file"), Section { addr: 0, bytes: copy_bytes(bytes) }));
    let mut program_table: Vec<Segment> = Vec::new();
    program_table.push(Segment { perm: 0x7, offset: 0, vaddr: 0, paddr: 0, size: bytes.len() });
    let machine_type = match machine_type {
        Some(m) => m,
        None => String::from_str("unknown"),
    };
    Program {
        bits: match bits {
            Some(b) => b,
            None => 0,
        },
        endianess: match endianess {
            Some(e) => e,
            None => 0,
        },
        machine_type,
        entry_point: 0,
        program_table,
        section_table,
        symbol_table: Vec::new(),
    }
}

/// Whether `p` is the program that raw bytes `b` make: one section `file`
/// with all of `b` at address zero, one segment over it, machine unknown.
pub open spec fn is_raw_program(p: Program, b: Seq<u8>) -> bool {
    &&& p.section_table@.len() == 1
    &&& p.section_table@[0].0@ == "file"@
    &&& p.section_table@[0].1.addr == 0
    &&& p.section_table@[0].1.bytes@ == b
    &&& p.symbol_table@.len() == 0
    &&& p.bits == 0
    &&& p.endianess == 0
    &&& p.machine_type@ == "unknown"@
}

/// What loading `b` gives: the raw binary for raw input and for containers
/// whose headers do not fit; for ELF and PE files, the word size, byte
/// order, machine tag (and for ELF the entry point) and segments read from
/// their headers, sections that section headers describe, and (ELF) symbols
/// that symbol tables hold; in every case unique section and symbol names.
pub open spec fn loaded_from(b: Seq<u8>, p: Program) -> bool {
    &&& p.wf()
    &&& file_type(b) == FileType::RawBinary ==> is_raw_program(p, b)
    &&& file_type(b) == FileType::Elf && !elf::headers_fit(b) ==> is_raw_program(p, b)
    &&& file_type(b) == FileType::PE && !pe::headers_fit(b) ==> is_raw_program(p, b)
    &&& file_type(b) == FileType::Elf && elf::headers_fit(b) ==> {
        &&& p.bits == (if b[4] == 1 { 32u8 } else { 64u8 })
        &&& p.endianess == elf::order(b)
        &&& p.machine_type@ == elf::machine_name(word16(b, 0x12, p.endianess) as u16)
        &&& p.entry_point as nat == elf::word_of_class(b, 0x18, p.endianess, elf::is_wide(b))
        &&& forall|j: int| 0 <= j < p.section_table@.len() ==> elf::from_section_header(b, #[trigger] p.section_table@[j].1)
        &&& forall|j: int| 0 <= j < p.symbol_table@.len() ==> elf::from_symbol_table(b, #[trigger] p.symbol_table@[j].1)
        &&& p.program_table@.len() == elf::ph_count(b)
        &&& forall|k: int| 0 <= k < elf::ph_count(b) ==> #[trigger] p.program_table@[k] == elf::segment_at(
            b,
            elf::ph_offset(b) + k * elf::ph_entry_size(b),
            elf::order(b),
            elf::is_wide(b),
        )
    }
    &&& file_type(b) == FileType::PE && pe::headers_fit(b) ==> {
        &&& p.endianess == LITTLE_ENDIAN
        &&& p.machine_type@ == pe::machine_name(le16(b, pe::coff_at(b) + 4int) as u16)
        &&& p.bits == pe::pe_bits(b)
        &&& p.program_table@.len() == le16(b, pe::coff_at(b) + 6int)
        &&& forall|j: int| 0 <= j < p.program_table@.len() ==> #[trigger] p.program_table@[j] == pe::pe_segment(b, j)
        &&& forall|j: int| 0 <= j < p.section_table@.len() ==> pe::pe_from_one_of(
            b,
            #[trigger] p.section_table@[j].1,
            le16(b, pe::coff_at(b) + 6int) as int,
        )
        &&& p.symbol_table@.len() == 0
    }
}

/// Loads a program: an ELF or PE container when the bytes hold one whose
/// headers lie within them, else the raw binary.
pub fn load_program_from_bytes(bytes: &[u8]) -> (p: Program)
    ensures
        loaded_from(bytes@, p),
{
    let v = copy_bytes(bytes);
    let parsed = match get_file_type(&v) {
        FileType::Elf => elf::load_program_from_bytes(bytes),
        FileType::PE => pe::load_program_from_bytes(bytes),
        FileType::RawBinary => None,
    };
    match parsed {
        Some(p) => p,
        None => {
            let p = build_program_from_binary(bytes, None, None, None);
            proof {
                assert(unique_names(keys(p.section_table@)));
                assert(unique_names(keys(p.symbol_table@)));
            }
            p
        },
    }
}

} // verus!
