//! ELF containers: the sections, segments and symbols that the decoders use.
//! Malformed input yields no program; the caller then treats the bytes as a
//! raw binary.

use vstd::prelude::*;
use crate::prog::{find_key, keys, unique_names, Program, Section, Segment, Symbol};
use crate::text::{push_char, push_dec};
use crate::util::{
    read_u16_from_slice, read_u32_from_slice, read_u64_from_slice, word16, word32, word64, BIG_ENDIAN,
    LITTLE_ENDIAN,
};

verus! {

pub const SHT_SYMTAB: u32 = 2;

/// The machine tag for ELF `e_machine`.
pub open spec fn machine_name(m: u16) -> Seq<char> {
    if m == 0x3 {
        "x86"@
    } else if m == 0x28 {
        "arm"@
    } else if m == 0x3e {
        "amd64"@
    } else if m == 0xf3 {
        "riscv"@
    } else {
        "unknown"@
    }
}

fn machine_type_string(m: u16) -> (s: &'static str)
    ensures
        s@ == machine_name(m),
{
    if m == 0x3 {
        "x86"
    } else if m == 0x28 {
        "arm"
    } else if m == 0x3e {
        "amd64"
    } else if m == 0xf3 {
        "riscv"
    } else {
        "unknown"
    }
}

/// The file-type name for ELF `e_type`.
pub open spec fn file_type_name(t: u16) -> Seq<char> {
    if t == 0 {
        "none"@
    } else if t == 1 {
        "Relocatable"@
    } else if t == 2 {
        "Executable"@
    } else if t == 3 {
        "Shared object"@
    } else if t == 4 {
        "Core"@
    } else {
        "unknown"@
    }
}

pub fn elf_file_type_string(t: u16) -> (s: &'static str)
    ensures
        s@ == file_type_name(t),
{
    if t == 0 {
        "none"
    } else if t == 1 {
        "Relocatable"
    } else if t == 2 {
        "Executable"
    } else if t == 3 {
        "Shared object"
    } else if t == 4 {
        "Core"
    } else {
        "unknown"
    }
}

/// The word of the file's class at `i`: 4 bytes for 32-bit files, 8 for
/// 64-bit ones.
pub open spec fn word_of_class(b: Seq<u8>, i: int, e: u8, wide: bool) -> nat {
    if wide {
        word64(b, i, e)
    } else {
        word32(b, i, e)
    }
}

/// Bytes in a word of the file's class.
pub open spec fn class_width(wide: bool) -> int {
    if wide {
        8
    } else {
        4
    }
}

/// The field offset for the file's class.
pub open spec fn pick(wide: bool, k32: int, k64: int) -> int {
    if wide {
        k64
    } else {
        k32
    }
}

/// Bytes a section header needs in the file.
pub open spec fn section_header_len(wide: bool) -> int {
    pick(wide, 0x28, 0x40)
}

/// Bytes a program header needs in the file.
pub open spec fn program_header_len(wide: bool) -> int {
    pick(wide, 0x1c, 0x28)
}

/// Whether the file holds 64-bit words.
pub open spec fn is_wide(b: Seq<u8>) -> bool {
    b[4] != 1
}

/// The file's byte order.
pub open spec fn order(b: Seq<u8>) -> u8 {
    if b[5] == 1 {
        LITTLE_ENDIAN
    } else {
        BIG_ENDIAN
    }
}

/// Offset of the program header table.
pub open spec fn ph_offset(b: Seq<u8>) -> int {
    word_of_class(b, pick(is_wide(b), 0x1c, 0x20), order(b), is_wide(b)) as int
}

/// Size of one program header entry.
pub open spec fn ph_entry_size(b: Seq<u8>) -> int {
    word16(b, pick(is_wide(b), 0x2a, 0x36), order(b)) as int
}

/// Offset of the section header table.
pub open spec fn sh_offset(b: Seq<u8>) -> int {
    word_of_class(b, pick(is_wide(b), 0x20, 0x28), order(b), is_wide(b)) as int
}

/// Size of one section header entry.
pub open spec fn sh_entry_size(b: Seq<u8>) -> int {
    word16(b, pick(is_wide(b), 0x2e, 0x3a), order(b)) as int
}

/// Number of section headers.
pub open spec fn sh_count(b: Seq<u8>) -> int {
    word16(b, pick(is_wide(b), 0x30, 0x3c), order(b)) as int
}

/// Number of program headers.
pub open spec fn ph_count(b: Seq<u8>) -> int {
    word16(b, pick(is_wide(b), 0x2c, 0x38), order(b)) as int
}

/// The segment described by the program header at `at`: flags (low byte as
/// permissions), file offset, virtual and physical address, file size.
pub open spec fn segment_at(b: Seq<u8>, at: int, e: u8, w: bool) -> Segment {
    Segment {
        perm: ((word32(b, at + pick(w, 0x18, 0x4), e) as u32) & 0xff) as u8,
        offset: word_of_class(b, at + pick(w, 0x4, 0x8), e, w) as u64,
        vaddr: word_of_class(b, at + pick(w, 0x8, 0x10), e, w) as u64,
        paddr: word_of_class(b, at + pick(w, 0xc, 0x18), e, w) as u64,
        size: word_of_class(b, at + pick(w, 0x10, 0x20), e, w) as usize,
    }
}

/// Whether the ELF header and every section and program header lie within
/// the file.
pub open spec fn headers_fit(b: Seq<u8>) -> bool {
    b.len() >= 0x34 && {
        let w = b[4] != 1;
        let e = if b[5] == 1 {
            LITTLE_ENDIAN
        } else {
            BIG_ENDIAN
        };
        let phoff = word_of_class(b, pick(w, 0x1c, 0x20), e, w) as int;
        let shoff = word_of_class(b, pick(w, 0x20, 0x28), e, w) as int;
        let phentsize = word16(b, pick(w, 0x2a, 0x36), e) as int;
        let phnum = word16(b, pick(w, 0x2c, 0x38), e) as int;
        let shentsize = word16(b, pick(w, 0x2e, 0x3a), e) as int;
        let shnum = word16(b, pick(w, 0x30, 0x3c), e) as int;
        &&& b.len() >= pick(w, 0x34, 0x40)
        &&& shnum == 0 || shoff + (shnum - 1) * shentsize + section_header_len(w) <= b.len()
        &&& phnum == 0 || phoff + (phnum - 1) * phentsize + program_header_len(w) <= b.len()
    }
}

/// The characters of the NUL-terminated string at `i`, each byte taken as
/// one character.
pub open spec fn c_string_at(b: Seq<u8>, i: int) -> Seq<char>
    decreases b.len() - i,
{
    if i < 0 || i >= b.len() || b[i] == 0 {
        Seq::empty()
    } else {
        seq![b[i] as char] + c_string_at(b, i + 1)
    }
}

/// A bounds-checked reader over the file.
struct Reader<'a> {
    b: &'a [u8],
    e: u8,
    wide: bool,
}

impl<'a> Reader<'a> {
    fn u8_at(&self, off: u64) -> (r: Option<u8>)
        ensures
            r matches Some(v) ==> off < self.b@.len() && v == self.b@[off as int],
    {
        if off < self.b.len() as u64 {
            Some(self.b[off as usize])
        } else {
            None
        }
    }

    fn u16_at(&self, off: u64) -> (r: Option<u16>)
        ensures
            r is Some <==> off + 2 <= self.b@.len(),
            r matches Some(v) ==> v as nat == word16(self.b@, off as int, self.e),
    {
        let len = self.b.len() as u64;
        if off <= len && len - off >= 2 {
            Some(read_u16_from_slice(self.b, off as usize, self.e))
        } else {
            None
        }
    }

    fn u32_at(&self, off: u64) -> (r: Option<u32>)
        ensures
            r is Some <==> off + 4 <= self.b@.len(),
            r matches Some(v) ==> v as nat == word32(self.b@, off as int, self.e),
    {
        let len = self.b.len() as u64;
        if off <= len && len - off >= 4 {
            Some(read_u32_from_slice(self.b, off as usize, self.e))
        } else {
            None
        }
    }

    /// A word of the file's class: 4 bytes for 32-bit files, 8 for 64-bit.
    fn addr_at(&self, off: u64) -> (r: Option<u64>)
        ensures
            r is Some <==> off + class_width(self.wide) <= self.b@.len(),
            r matches Some(v) ==> v as nat == word_of_class(self.b@, off as int, self.e, self.wide),
    {
        let len = self.b.len() as u64;
        if self.wide {
            if off <= len && len - off >= 8 {
                Some(read_u64_from_slice(self.b, off as usize, self.e))
            } else {
                None
            }
        } else {
            match self.u32_at(off) {
                Some(v) => Some(v as u64),
                None => None,
            }
        }
    }

    /// `off + k` for a field offset chosen by the file's class.
    fn field(&self, off: u64, k32: u64, k64: u64) -> (r: Option<u64>)
        ensures
            r is Some <==> off + pick(self.wide, k32 as int, k64 as int) <= u64::MAX,
            r matches Some(v) ==> v == off + pick(self.wide, k32 as int, k64 as int),
    {
        let k = if self.wide {
            k64
        } else {
            k32
        };
        if off <= u64::MAX - k {
            Some(off + k)
        } else {
            None
        }
    }

    /// The NUL-terminated string at `off`.
    fn c_string(&self, off: u64) -> (s: String)
        ensures
            s@ == c_string_at(self.b@, off as int),
    {
        let mut s = String::new();
        let len = self.b.len();
        if off >= len as u64 {
            return s;
        }
        let mut i = off as usize;
        while i < len && self.b[i] != 0
            invariant
                off <= i <= len,
                len == self.b@.len(),
                s@ + c_string_at(self.b@, i as int) == c_string_at(self.b@, off as int),
            decreases len - i,
        {
            let ghost before = s@;
            push_char(&mut s, self.b[i]);
            assert(s@ + c_string_at(self.b@, i + 1) =~= before + c_string_at(self.b@, i as int));
            i = i + 1;
        }
        assert(c_string_at(self.b@, i as int) =~= Seq::<char>::empty());
        assert(s@ =~= c_string_at(self.b@, off as int));
        s
    }
}

/// Whether `h` holds the section header at `at`: its kind, address, offset,
/// size and entry size.
spec fn header_matches(b: Seq<u8>, at: int, e: u8, w: bool, h: SectionHeader) -> bool {
    &&& h.kind as nat == word32(b, at + 4, e)
    &&& h.addr as nat == word_of_class(b, at + pick(w, 0xc, 0x10), e, w)
    &&& h.offset as nat == word_of_class(b, at + pick(w, 0x10, 0x18), e, w)
    &&& h.size as nat == word_of_class(b, at + pick(w, 0x14, 0x20), e, w)
    &&& h.entsize as nat == word_of_class(b, at + pick(w, 0x24, 0x38), e, w)
}

/// Whether `sym` is entry `n` of the symbol table that header `h` describes:
/// its value and size.
spec fn symbol_entry(b: Seq<u8>, w: bool, e: u8, sym: Symbol, h: SectionHeader, n: int) -> bool {
    let at = h.offset + n * h.entsize;
    &&& h.kind == SHT_SYMTAB
    &&& h.entsize > 0
    &&& 0 <= n < h.size / h.entsize
    &&& sym.addr as nat == word_of_class(b, at + pick(w, 0x4, 0x8), e, w)
    &&& sym.size as nat == word_of_class(b, at + pick(w, 0x8, 0x10), e, w)
}

/// Whether `sym` is an entry of the symbol table of one of the first `m`
/// headers of `hs`.
spec fn symbol_of_one_of(b: Seq<u8>, w: bool, e: u8, sym: Symbol, hs: Seq<SectionHeader>, m: int) -> bool {
    exists|i: int, n: int| 0 <= i < m && i < hs.len() && #[trigger] symbol_entry(b, w, e, sym, hs[i], n)
}

/// Whether `sym` is entry `n` of the symbol table of the `k`-th section
/// header: its value and size.
pub open spec fn symbol_from(b: Seq<u8>, sym: Symbol, k: int, n: int) -> bool {
    let w = is_wide(b);
    let e = order(b);
    let h = sh_offset(b) + k * sh_entry_size(b);
    let off = word_of_class(b, h + pick(w, 0x10, 0x18), e, w) as int;
    let size = word_of_class(b, h + pick(w, 0x14, 0x20), e, w) as int;
    let ent = word_of_class(b, h + pick(w, 0x24, 0x38), e, w) as int;
    let at = off + n * ent;
    &&& 0 <= k < sh_count(b)
    &&& word32(b, h + 4, e) == SHT_SYMTAB
    &&& ent > 0
    &&& 0 <= n < size / ent
    &&& sym.addr as nat == word_of_class(b, at + pick(w, 0x4, 0x8), e, w)
    &&& sym.size as nat == word_of_class(b, at + pick(w, 0x8, 0x10), e, w)
}

/// Whether `sym` is an entry of one of the file's symbol tables.
pub open spec fn from_symbol_table(b: Seq<u8>, sym: Symbol) -> bool {
    exists|k: int, n: int| #[trigger] symbol_from(b, sym, k, n)
}

/// Whether `s` is the section that header `h` describes.
spec fn from_header(b: Seq<u8>, s: Section, h: SectionHeader) -> bool {
    s.addr == h.addr && s.bytes@ == file_bytes(b, h.offset as int, h.size as int)
}

/// Whether `s` is the section of one of the first `n` headers of `hs`.
spec fn from_one_of(b: Seq<u8>, s: Section, hs: Seq<SectionHeader>, n: int) -> bool {
    exists|i: int| 0 <= i < n && i < hs.len() && #[trigger] from_header(b, s, hs[i])
}

/// Whether `s` is the section of some section header of the file.
pub open spec fn from_section_header(b: Seq<u8>, s: Section) -> bool {
    exists|k: int| #[trigger] section_from(b, s, k)
}

/// Whether `s` is the section of the `k`-th section header: its address, and
/// the bytes its offset and size designate.
pub open spec fn section_from(b: Seq<u8>, s: Section, k: int) -> bool {
    let at = sh_offset(b) + k * sh_entry_size(b);
    let w = is_wide(b);
    let e = order(b);
    &&& 0 <= k < sh_count(b)
    &&& s.addr as nat == word_of_class(b, at + pick(w, 0xc, 0x10), e, w)
    &&& s.bytes@ == file_bytes(
        b,
        word_of_class(b, at + pick(w, 0x10, 0x18), e, w) as int,
        word_of_class(b, at + pick(w, 0x14, 0x20), e, w) as int,
    )
}

struct SectionHeader {
    name: u32,
    kind: u32,
    addr: u64,
    offset: u64,
    size: u64,
    entsize: u64,
}

fn read_section_header(r: &Reader, at: u64) -> (h: Option<SectionHeader>)
    requires
        r.b@.len() <= u64::MAX,
    ensures
        h is Some <==> at + section_header_len(r.wide) <= r.b@.len(),
        h matches Some(v) ==> header_matches(r.b@, at as int, r.e, r.wide, v),
{
    let name = r.u32_at(at)?;
    let kind = r.u32_at(r.field(at, 0x4, 0x4)?)?;
    let addr = r.addr_at(r.field(at, 0xc, 0x10)?)?;
    let offset = r.addr_at(r.field(at, 0x10, 0x18)?)?;
    let size = r.addr_at(r.field(at, 0x14, 0x20)?)?;
    let entsize = r.addr_at(r.field(at, 0x24, 0x38)?)?;
    Some(SectionHeader { name, kind, addr, offset, size, entsize })
}

/// Flags, offset, virtual address, physical address and file size of the
/// program header at `at`.
fn read_program_header(r: &Reader, at: u64) -> (h: Option<(u32, u64, u64, u64, u64)>)
    requires
        r.b@.len() <= u64::MAX,
    ensures
        h is Some <==> at + program_header_len(r.wide) <= r.b@.len(),
        h matches Some(v) ==> (Segment {
            perm: ((v.0 & 0xff) as u8),
            offset: v.1,
            vaddr: v.2,
            paddr: v.3,
            size: v.4 as usize,
        }) == segment_at(r.b@, at as int, r.e, r.wide),
{
    let flags = r.u32_at(r.field(at, 0x18, 0x4)?)?;
    let offset = r.addr_at(r.field(at, 0x4, 0x8)?)?;
    let vaddr = r.addr_at(r.field(at, 0x8, 0x10)?)?;
    let paddr = r.addr_at(r.field(at, 0xc, 0x18)?)?;
    let filesz = r.addr_at(r.field(at, 0x10, 0x20)?)?;
    Some((flags, offset, vaddr, paddr, filesz))
}

/// The bytes `b[off..off + size]`, or nothing where they are not in the file.
/// The bytes `b[off..off + size]`, or none where they are not all in `b`.
pub open spec fn file_bytes(b: Seq<u8>, off: int, size: int) -> Seq<u8> {
    if off + size <= b.len() {
        b.subrange(off, off + size)
    } else {
        Seq::empty()
    }
}

pub(crate) fn slice_bytes(b: &[u8], off: u64, size: u64) -> (v: Vec<u8>)
    ensures
        v@ == file_bytes(b@, off as int, size as int),
        off + size <= b@.len() ==> v@ == b@.subrange(off as int, off + size),
        off + size > b@.len() ==> v@.len() == 0,
{
    let mut v: Vec<u8> = Vec::new();
    let len = b.len();
    if off > len as u64 || (len as u64) - off < size {
        return v;
    }
    let start = off as usize;
    let n = size as usize;
    let mut i: usize = 0;
    while i < n
        invariant
            i <= n,
            start + n <= len,
            len == b@.len(),
            start == off,
            n == size,
            v@ == b@.subrange(off as int, off + i),
        decreases n - i,
    {
        v.push(b[start + i]);
        i = i + 1;
        assert(v@ =~= b@.subrange(off as int, off + i));
    }
    v
}

/// Inserts or replaces the entry named `key`, keeping names unique.
pub(crate) fn put<T>(table: &mut Vec<(String, T)>, key: String, value: T)
    requires
        unique_names(keys(old(table)@)),
    ensures
        unique_names(keys(final(table)@)),
        forall|j: int| 0 <= j < final(table)@.len() ==> final(table)@[j].1 == value || exists|m: int|
            0 <= m < old(table)@.len() && #[trigger] old(table)@[m].1 == final(table)@[j].1,
{
    match find_key(table, key.as_str()) {
        Some(i) => {
            let ghost before = keys(table@);
            let ghost k = key@;
            table.set(i, (key, value));
            proof {
                assert(before[i as int] == k);
                assert(keys(table@) =~= before);
            }
        },
        None => {
            let ghost before = keys(table@);
            let ghost k = key@;
            table.push((key, value));
            proof {
                assert(forall|j: int| 0 <= j < before.len() ==> before[j] != k);
                assert(keys(table@) =~= before.push(k));
            }
        },
    }
}

/// Decimal text of a symbol value, the name of an unnamed symbol.
fn value_name(v: u64) -> String {
    let mut s = String::new();
    push_dec(&mut s, v);
    s
}

/// Parses an ELF file. The machine tag, word size and byte order come from
/// the header; sections are named through the section-name table; symbols
/// come from the symbol tables, named through `.strtab`. There is a program
/// exactly when the headers lie within the file.
/// The section headers, or nothing where one lies beyond the file.
fn read_section_headers(r: &Reader, shoff: u64, shentsize: u64, shnum: u64) -> (h: Option<Vec<SectionHeader>>)
    requires
        r.b@.len() <= u64::MAX,
        shnum < 0x1_0000,
        shentsize < 0x1_0000,
    ensures
        h is Some <==> (shnum == 0 || shoff + (shnum - 1) * shentsize + section_header_len(r.wide) <= r.b@.len()),
        h matches Some(v) ==> v@.len() == shnum && forall|k: int| 0 <= k < shnum ==> header_matches(
            r.b@,
            shoff + k * shentsize,
            r.e,
            r.wide,
            #[trigger] v@[k],
        ),
{
    let mut headers: Vec<SectionHeader> = Vec::new();
    let mut k: u64 = 0;
    while k < shnum
        invariant
            r.b@.len() <= u64::MAX,
            shnum < 0x1_0000,
            shentsize < 0x1_0000,
            k <= shnum,
            k == 0 || shoff + (k - 1) * shentsize + section_header_len(r.wide) <= r.b@.len(),
            headers@.len() == k,
            forall|j: int| 0 <= j < k ==> header_matches(r.b@, shoff + j * shentsize, r.e, r.wide, #[trigger] headers@[j]),
        decreases shnum - k,
    {
        assert(k * shentsize < 0x1_0000 * 0x1_0000) by (nonlinear_arith)
            requires
                k < 0x1_0000,
                shentsize < 0x1_0000,
        ;
        assert(k * shentsize <= (shnum - 1) * shentsize) by (nonlinear_arith)
            requires
                k <= shnum - 1,
        ;
        let at = shoff.checked_add(k * shentsize)?;
        headers.push(read_section_header(r, at)?);
        k = k + 1;
    }
    Some(headers)
}

/// One segment per program header, or nothing where one lies beyond the
/// file.
fn build_program_table(r: &Reader, phoff: u64, phentsize: u64, phnum: u64) -> (t: Option<Vec<Segment>>)
    requires
        r.b@.len() <= u64::MAX,
        phnum < 0x1_0000,
        phentsize < 0x1_0000,
    ensures
        t is Some <==> (phnum == 0 || phoff + (phnum - 1) * phentsize + program_header_len(r.wide) <= r.b@.len()),
        t matches Some(v) ==> v@.len() == phnum && forall|k: int| 0 <= k < phnum ==> #[trigger] v@[k] == segment_at(
            r.b@,
            phoff + k * phentsize,
            r.e,
            r.wide,
        ),
{
    let mut program_table: Vec<Segment> = Vec::new();
    let mut m: u64 = 0;
    while m < phnum
        invariant
            r.b@.len() <= u64::MAX,
            phnum < 0x1_0000,
            phentsize < 0x1_0000,
            m <= phnum,
            m == 0 || phoff + (m - 1) * phentsize + program_header_len(r.wide) <= r.b@.len(),
            program_table@.len() == m,
            forall|k: int| 0 <= k < m ==> #[trigger] program_table@[k] == segment_at(r.b@, phoff + k * phentsize, r.e, r.wide),
        decreases phnum - m,
    {
        assert(m * phentsize < 0x1_0000 * 0x1_0000) by (nonlinear_arith)
            requires
                m < 0x1_0000,
                phentsize < 0x1_0000,
        ;
        assert(m * phentsize <= (phnum - 1) * phentsize) by (nonlinear_arith)
            requires
                m <= phnum - 1,
        ;
        let at = phoff.checked_add(m * phentsize)?;
        let (flags, offset, vaddr, paddr, filesz) = read_program_header(r, at)?;
        program_table.push(Segment { perm: (flags & 0xff) as u8, offset, vaddr, paddr, size: filesz as usize });
        m = m + 1;
    }
    Some(program_table)
}

/// One section per header, named through the section-name table at
/// `names_at`; also the offset of the first section named `.strtab`.
fn build_section_table(r: &Reader, headers: &Vec<SectionHeader>, names_at: u64) -> (t: (Vec<(String, Section)>, Option<u64>))
    ensures
        unique_names(keys(t.0@)),
        forall|j: int| 0 <= j < t.0@.len() ==> from_one_of(r.b@, #[trigger] t.0@[j].1, headers@, headers@.len() as int),
{
    let mut section_table: Vec<(String, Section)> = Vec::new();
    let mut strtab: Option<u64> = None;
    let mut i: usize = 0;
    while i < headers.len()
        invariant
            unique_names(keys(section_table@)),
            forall|j: int| 0 <= j < section_table@.len() ==> from_one_of(r.b@, #[trigger] section_table@[j].1, headers@, i as int),
        decreases headers@.len() - i,
    {
        let h = &headers[i];
        let name = match names_at.checked_add(h.name as u64) {
            Some(at) => r.c_string(at),
            None => String::new(),
        };
        if strtab.is_none() && name == String::from_str(".strtab") {
            strtab = Some(h.offset);
        }
        let sec = Section { addr: h.addr, bytes: slice_bytes(r.b, h.offset, h.size) };
        let ghost sv = sec;
        let ghost before = section_table@;
        assert(from_header(r.b@, sv, headers@[i as int]));
        put(&mut section_table, name, sec);
        proof {
            assert forall|j: int| 0 <= j < section_table@.len() implies from_one_of(
                r.b@,
                #[trigger] section_table@[j].1,
                headers@,
                i + 1,
            ) by {
                if section_table@[j].1 == sv {
                    assert(from_header(r.b@, sv, headers@[i as int]));
                } else {
                    let m = choose|m: int| 0 <= m < before.len() && #[trigger] before[m].1 == section_table@[j].1;
                    assert(from_one_of(r.b@, before[m].1, headers@, i as int));
                }
            }
        }
        i = i + 1;
    }
    (section_table, strtab)
}

/// The symbols of every symbol table, named through the string table at
/// `strtab` (an unnamed symbol by its value in decimal); a later symbol of
/// the same name replaces an earlier one.
fn build_symbol_table(r: &Reader, headers: &Vec<SectionHeader>, strtab: Option<u64>) -> (t: Vec<(String, Symbol)>)
    requires
        r.b@.len() <= u64::MAX,
    ensures
        unique_names(keys(t@)),
        forall|j: int| 0 <= j < t@.len() ==> symbol_of_one_of(r.b@, r.wide, r.e, #[trigger] t@[j].1, headers@, headers@.len() as int),
{
    let mut symbol_table: Vec<(String, Symbol)> = Vec::new();
    let mut j: usize = 0;
    while j < headers.len()
        invariant
            unique_names(keys(symbol_table@)),
            forall|q: int| 0 <= q < symbol_table@.len() ==> symbol_of_one_of(r.b@, r.wide, r.e, #[trigger] symbol_table@[q].1, headers@, j as int),
            r.b@.len() <= u64::MAX,
        decreases headers@.len() - j,
    {
        let h = &headers[j];
        if h.kind == SHT_SYMTAB && h.entsize > 0 {
            let count = h.size / h.entsize;
            let mut n: u64 = 0;
            while n < count
                invariant
                    unique_names(keys(symbol_table@)),
                    r.b@.len() <= u64::MAX,
                    j < headers@.len(),
                    h == &headers@[j as int],
                    h.kind == SHT_SYMTAB,
                    h.entsize > 0,
                    count == h.size / h.entsize,
                    forall|q: int| 0 <= q < symbol_table@.len() ==> symbol_of_one_of(r.b@, r.wide, r.e, #[trigger] symbol_table@[q].1, headers@, j + 1),
                decreases count - n,
            {
                let step = match n.checked_mul(h.entsize) {
                    Some(x) => x,
                    None => break,
                };
                let at = match h.offset.checked_add(step) {
                    Some(a) => a,
                    None => break,
                };
                let st_name = r.u32_at(at);
                let value_at = r.field(at, 0x4, 0x8);
                let size_at = r.field(at, 0x8, 0x10);
                let value = r.addr_at(value_at.unwrap_or(u64::MAX));
                let size = r.addr_at(size_at.unwrap_or(u64::MAX));
                match (st_name, value, size) {
                    (Some(sn), Some(v), Some(sz)) => {
                        let name = match strtab {
                            Some(base) => match base.checked_add(sn as u64) {
                                Some(a) => r.c_string(a),
                                None => String::new(),
                            },
                            None => String::new(),
                        };
                        let key = if name.as_str().unicode_len() == 0 {
                            value_name(v)
                        } else {
                            name
                        };
                                assert(value_at is Some && size_at is Some);
                        assert(at == h.offset + n * h.entsize);
                        let sym = Symbol { addr: v, size: sz };
                        let ghost before = symbol_table@;
                        assert(symbol_entry(r.b@, r.wide, r.e, sym, headers@[j as int], n as int));
                        put(&mut symbol_table, key, sym);
                        proof {
                            assert forall|q: int| 0 <= q < symbol_table@.len() implies symbol_of_one_of(
                                r.b@,
                                r.wide,
                                r.e,
                                #[trigger] symbol_table@[q].1,
                                headers@,
                                j + 1,
                            ) by {
                                if symbol_table@[q].1 == sym {
                                    assert(symbol_entry(r.b@, r.wide, r.e, sym, headers@[j as int], n as int));
                                } else {
                                    let m = choose|m: int| 0 <= m < before.len() && #[trigger] before[m].1 == symbol_table@[q].1;
                                    assert(symbol_of_one_of(r.b@, r.wide, r.e, before[m].1, headers@, j + 1));
                                }
                            }
                        }
                    },
                    _ => {},
                }
                n = n + 1;
            }
        }
        proof {
            assert forall|q: int| 0 <= q < symbol_table@.len() implies symbol_of_one_of(
                r.b@,
                r.wide,
                r.e,
                #[trigger] symbol_table@[q].1,
                headers@,
                j + 1,
            ) by {
                let e = symbol_table@[q].1;
                if symbol_of_one_of(r.b@, r.wide, r.e, e, headers@, j as int) {
                    let (i, n) = choose|i: int, n: int| 0 <= i < j && i < headers@.len() && #[trigger] symbol_entry(r.b@, r.wide, r.e, e, headers@[i], n);
                    assert(symbol_entry(r.b@, r.wide, r.e, e, headers@[i], n));
                }
            }
        }
        j = j + 1;
    }
    symbol_table
}

/// Parses an ELF file. The machine tag, word size and byte order come from
/// the header; sections are named through the section-name table; symbols
/// come from the symbol tables, named through `.strtab`. There is a program
/// exactly when the headers lie within the file.
pub fn load_program_from_bytes(bytes: &[u8]) -> (r: Option<Program>)
    ensures
        r is Some <==> headers_fit(bytes@),
        r matches Some(p) ==> {
            &&& bytes@.len() >= 0x34
            &&& p.bits == (if bytes@[4] == 1 { 32u8 } else { 64u8 })
            &&& p.endianess == (if bytes@[5] == 1 { LITTLE_ENDIAN } else { BIG_ENDIAN })
            &&& p.machine_type@ == machine_name(word16(bytes@, 0x12, p.endianess) as u16)
            &&& p.entry_point as nat == word_of_class(bytes@, 0x18, p.endianess, bytes@[4] != 1)
            &&& p.wf()
            &&& forall|j: int| 0 <= j < p.section_table@.len() ==> from_section_header(bytes@, #[trigger] p.section_table@[j].1)
            &&& forall|j: int| 0 <= j < p.symbol_table@.len() ==> from_symbol_table(bytes@, #[trigger] p.symbol_table@[j].1)
            &&& p.program_table@.len() == ph_count(bytes@)
            &&& forall|k: int| 0 <= k < ph_count(bytes@) ==> #[trigger] p.program_table@[k] == segment_at(
                bytes@,
                ph_offset(bytes@) + k * ph_entry_size(bytes@),
                order(bytes@),
                is_wide(bytes@),
            )
        },
{
    if bytes.len() < 0x34 {
        return None;
    }
    let wide = bytes[4] != 1;
    let e = if bytes[5] == 1 {
        LITTLE_ENDIAN
    } else {
        BIG_ENDIAN
    };
    let r = Reader { b: bytes, e, wide };
    assert(bytes@.len() <= u64::MAX);
    if (bytes.len() as u64) < (if wide { 0x40 } else { 0x34 }) {
        return None;
    }
    let machine = r.u16_at(0x12)?;
    let entry = r.addr_at(0x18)?;
    let phoff = r.addr_at(r.field(0, 0x1c, 0x20)?)?;
    let shoff = r.addr_at(r.field(0, 0x20, 0x28)?)?;
    let phentsize = r.u16_at(r.field(0, 0x2a, 0x36)?)? as u64;
    let phnum = r.u16_at(r.field(0, 0x2c, 0x38)?)? as u64;
    let shentsize = r.u16_at(r.field(0, 0x2e, 0x3a)?)? as u64;
    let shnum = r.u16_at(r.field(0, 0x30, 0x3c)?)? as u64;
    let shstrndx = r.u16_at(r.field(0, 0x32, 0x3e)?)? as u64;
    let headers = read_section_headers(&r, shoff, shentsize, shnum)?;
    let program_table = build_program_table(&r, phoff, phentsize, phnum)?;
    let names_at: u64 = if shstrndx < headers.len() as u64 {
        headers[shstrndx as usize].offset
    } else {
        u64::MAX
    };
    let (section_table, strtab) = build_section_table(&r, &headers, names_at);
    proof {
        assert forall|j: int| 0 <= j < section_table@.len() implies from_section_header(
            bytes@,
            #[trigger] section_table@[j].1,
        ) by {
            let s = section_table@[j].1;
            let i = choose|i: int| 0 <= i < headers@.len() && i < headers@.len() && #[trigger] from_header(bytes@, s, headers@[i]);
            assert(header_matches(bytes@, shoff + i * shentsize, e, wide, headers@[i]));
            assert(section_from(bytes@, s, i));
        }
    }
    let symbol_table = build_symbol_table(&r, &headers, strtab);
    proof {
        assert forall|j: int| 0 <= j < symbol_table@.len() implies from_symbol_table(bytes@, #[trigger] symbol_table@[j].1) by {
            let sym = symbol_table@[j].1;
            let (i, n) = choose|i: int, n: int| 0 <= i < headers@.len() && i < headers@.len() && #[trigger] symbol_entry(bytes@, wide, e, sym, headers@[i], n);
            assert(header_matches(bytes@, shoff + i * shentsize, e, wide, headers@[i]));
            assert(symbol_from(bytes@, sym, i, n));
        }
    }
    Some(Program {
        bits: if wide {
            64
        } else {
            32
        },
        endianess: e,
        machine_type: String::from_str(machine_type_string(machine)),
        entry_point: entry,
        program_table,
        section_table,
        symbol_table,
    })
}

} // verus!
