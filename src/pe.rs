//! PE/COFF containers.

use vstd::prelude::*;
use crate::prog::{find_key, keys, unique_names, Program, Section, Segment};
use crate::elf::file_bytes;
use crate::text::{join, push_char};
use crate::util::{le16, le32, read_u16_from_slice, read_u32_from_slice, LITTLE_ENDIAN, RWX_EXEC, RWX_READ, RWX_WRITE};

verus! {

/// Offset of the field that holds the PE header's position.
pub const PE_OFFSET_OFFSET: usize = 0x3c;

/// Whether `b` has a DOS header (`MZ`) whose PE offset points at `PE\0\0`.
pub open spec fn is_pe(b: Seq<u8>) -> bool {
    &&& b.len() >= 0x40
    &&& b[0] == 0x4d && b[1] == 0x5a
    &&& le32(b, 0x3c) + 4 <= b.len()
    &&& b[le32(b, 0x3c) as int] == 0x50 && b[le32(b, 0x3c) + 1int] == 0x45 && b[le32(b, 0x3c) + 2int] == 0
        && b[le32(b, 0x3c) + 3int] == 0
}

pub fn check_is_pe_executable(bytes: &Vec<u8>) -> (r: bool)
    ensures
        r == is_pe(bytes@),
{
    if bytes.len() < PE_OFFSET_OFFSET + 4 || bytes[0] != 0x4d || bytes[1] != 0x5a {
        return false;
    }
    let offset = read_u32_from_slice(bytes.as_slice(), PE_OFFSET_OFFSET, LITTLE_ENDIAN) as usize;
    if offset > bytes.len() || bytes.len() - offset < 4 {
        return false;
    }
    bytes[offset] == 0x50 && bytes[offset + 1] == 0x45 && bytes[offset + 2] == 0 && bytes[offset + 3] == 0
}

/// The machine tag for a COFF machine number.
pub open spec fn machine_name(m: u16) -> Seq<char> {
    if m == 0 {
        "unknown"@
    } else if m == 0x5032 {
        "riscv32"@
    } else if m == 0x5064 {
        "riscv64"@
    } else if m == 0x14c {
        "x86"@
    } else if m == 0x8664 {
        "amd64"@
    } else {
        "?"@
    }
}

fn get_machine_type_string(m: u16) -> (s: &'static str)
    ensures
        s@ == machine_name(m),
{
    if m == 0 {
        "unknown"
    } else if m == 0x5032 {
        "riscv32"
    } else if m == 0x5064 {
        "riscv64"
    } else if m == 0x14c {
        "x86"
    } else if m == 0x8664 {
        "amd64"
    } else {
        "?"
    }
}

pub const IMAGE_SCN_MEM_EXECUTE: u32 = 0x2000_0000;

pub const IMAGE_SCN_MEM_READ: u32 = 0x4000_0000;

pub const IMAGE_SCN_MEM_WRITE: u32 = 0x8000_0000;

/// The permission bits of a section's characteristics.
pub open spec fn rwx_perm(flags: u32) -> u8 {
    let x: u8 = if flags & IMAGE_SCN_MEM_EXECUTE != 0 { RWX_EXEC } else { 0 };
    let w: u8 = if flags & IMAGE_SCN_MEM_WRITE != 0 { RWX_WRITE } else { 0 };
    let r: u8 = if flags & IMAGE_SCN_MEM_READ != 0 { RWX_READ } else { 0 };
    x | w | r
}

fn get_rwx_perm(flags: u32) -> (r: u8)
    ensures
        r == rwx_perm(flags),
{
    let x: u8 = if (flags & IMAGE_SCN_MEM_EXECUTE) != 0 {
        RWX_EXEC
    } else {
        0
    };
    let w: u8 = if (flags & IMAGE_SCN_MEM_WRITE) != 0 {
        RWX_WRITE
    } else {
        0
    };
    let r: u8 = if (flags & IMAGE_SCN_MEM_READ) != 0 {
        RWX_READ
    } else {
        0
    };
    x | w | r
}

/// COFF characteristics flags.
#[derive(Clone, Copy, PartialEq, Eq, Structural)]
pub struct MachChar(pub u16);

pub const RELOCS_STRIPPED: u16 = 0x1;

pub const EXECUTABLE_IMAGE: u16 = 0x2;

pub const LARGE_ADDRESS_AWARE: u16 = 0x20;

impl MachChar {
    pub fn is_large_address_aware(self) -> (r: bool)
        ensures
            r == (self.0 & LARGE_ADDRESS_AWARE != 0),
    {
        (self.0 & LARGE_ADDRESS_AWARE) != 0
    }

    pub fn is_executable(self) -> (r: bool)
        ensures
            r == (self.0 & EXECUTABLE_IMAGE != 0),
    {
        (self.0 & EXECUTABLE_IMAGE) != 0
    }

    pub fn is_relocs_stripped(self) -> (r: bool)
        ensures
            r == (self.0 & RELOCS_STRIPPED != 0),
    {
        (self.0 & RELOCS_STRIPPED) != 0
    }
}

/// The names of the characteristics set in `c`: executable, stripped, large
/// address aware, in that order.
pub open spec fn characteristic_names(c: u16) -> Seq<Seq<char>> {
    (if c & EXECUTABLE_IMAGE != 0 { seq!["executable"@] } else { Seq::empty() }) + (if c & RELOCS_STRIPPED != 0 {
        seq!["stripped"@]
    } else {
        Seq::empty()
    }) + (if c & LARGE_ADDRESS_AWARE != 0 { seq!["large address aware"@] } else { Seq::empty() })
}

/// The characteristics as text, separated by commas.
pub fn characteristics_string(c: u16) -> (s: String)
    ensures
        s@ == join(characteristic_names(c), ", "@),
{
    let cs = MachChar(c);
    let mut s = String::new();
    let mut any = false;
    let ghost mut names: Seq<Seq<char>> = Seq::empty();
    if cs.is_executable() {
        s.append("executable");
        any = true;
        proof {
            names = names.push("executable"@);
        }
    }
    if cs.is_relocs_stripped() {
        if any {
            s.append(", ");
        }
        s.append("stripped");
        any = true;
        proof {
            names = names.push("stripped"@);
        }
    }
    if cs.is_large_address_aware() {
        if any {
            s.append(", ");
        }
        s.append("large address aware");
        proof {
            names = names.push("large address aware"@);
        }
    }
    proof {
        reveal_with_fuel(join, 4);
        reveal_strlit("");
        assert(names =~= characteristic_names(c));
        assert(s@ =~= join(names, ", "@));
    }
    s
}

/// The name in an 8-byte section-header name field: its ASCII characters up
/// to the first NUL or non-ASCII byte.
fn get_name_from_section_header(b: &[u8], at: usize) -> (s: String)
    requires
        at + 8 <= b@.len(),
{
    let mut s = String::new();
    let len = b.len();
    let mut i: usize = 0;
    while i < 8
        invariant
            at + 8 <= b@.len(),
            len == b@.len(),
        decreases 8 - i,
    {
        let c = b[at + i];
        if c == 0 || c > 0x7f {
            return s;
        }
        push_char(&mut s, c);
        i = i + 1;
    }
    s
}

/// Whether the headers of a PE file lie within it: the PE offset field, the
/// COFF header, the optional header and every 40-byte section header.
pub open spec fn headers_fit(b: Seq<u8>) -> bool {
    let o = le32(b, 0x3c) as int;
    let table = o + 0x18 + le16(b, o + 0x14int);
    &&& b.len() >= 0x40
    &&& o + 0x18 <= b.len()
    &&& table + 40 * le16(b, o + 6int) <= b.len()
}

/// Offset of the COFF header.
pub open spec fn coff_at(b: Seq<u8>) -> int {
    le32(b, 0x3c) as int
}

/// Offset of the section table.
pub open spec fn table_at(b: Seq<u8>) -> int {
    coff_at(b) + 0x18 + le16(b, coff_at(b) + 0x14int)
}

/// 64 for a PE32+ optional header, else 32.
pub open spec fn pe_bits(b: Seq<u8>) -> u8 {
    let o = coff_at(b);
    if le16(b, o + 0x14int) >= 2 && o + 0x1a <= b.len() && le16(b, o + 0x18int) == 0x20b {
        64
    } else {
        32
    }
}

/// The segment of the `j`-th section header: its permissions, file offset,
/// virtual address and data size.
pub open spec fn pe_segment(b: Seq<u8>, j: int) -> Segment {
    let at = table_at(b) + 40 * j;
    Segment {
        perm: rwx_perm(le32(b, at + 0x24) as u32),
        offset: le32(b, at + 0x14) as u64,
        paddr: le32(b, at + 0x14) as u64,
        vaddr: le32(b, at + 0xc) as u64,
        size: le32(b, at + 0x10) as usize,
    }
}

/// Whether `s` is the section of the `j`-th section header: its data
/// pointer as address, and the bytes its data pointer and size designate.
pub open spec fn pe_section_from(b: Seq<u8>, s: Section, j: int) -> bool {
    let at = table_at(b) + 40 * j;
    &&& s.addr == le32(b, at + 0x14) as u64
    &&& s.bytes@ == file_bytes(b, le32(b, at + 0x14) as int, le32(b, at + 0x10) as int)
}

/// Whether `s` is the section of one of the first `n` section headers.
pub open spec fn pe_from_one_of(b: Seq<u8>, s: Section, n: int) -> bool {
    exists|j: int| 0 <= j < n && #[trigger] pe_section_from(b, s, j)
}

/// Parses a PE file: the COFF header's machine, the optional header's
/// magic (PE32 or PE32+), and one section and one segment per section
/// header. There is a program exactly when the headers lie within the file.
pub fn load_program_from_bytes(bytes: &[u8]) -> (r: Option<Program>)
    ensures
        r is Some <==> headers_fit(bytes@),
        r matches Some(p) ==> {
            &&& p.wf()
            &&& p.endianess == LITTLE_ENDIAN
            &&& p.machine_type@ == machine_name(le16(bytes@, coff_at(bytes@) + 4int) as u16)
            &&& p.bits == pe_bits(bytes@)
            &&& p.program_table@.len() == le16(bytes@, coff_at(bytes@) + 6int)
            &&& forall|j: int| 0 <= j < p.program_table@.len() ==> #[trigger] p.program_table@[j] == pe_segment(bytes@, j)
            &&& forall|j: int| 0 <= j < p.section_table@.len() ==> pe_from_one_of(
                bytes@,
                #[trigger] p.section_table@[j].1,
                le16(bytes@, coff_at(bytes@) + 6int) as int,
            )
            &&& p.symbol_table@.len() == 0
        },
{
    let len = bytes.len();
    if len < PE_OFFSET_OFFSET + 4 {
        return None;
    }
    let offset = read_u32_from_slice(bytes, PE_OFFSET_OFFSET, LITTLE_ENDIAN) as usize;
    if offset > len || len - offset < 0x18 {
        return None;
    }
    let machine = read_u16_from_slice(bytes, offset + 0x4, LITTLE_ENDIAN);
    let num_sections = read_u16_from_slice(bytes, offset + 0x6, LITTLE_ENDIAN) as usize;
    let optional_header_size = read_u16_from_slice(bytes, offset + 0x14, LITTLE_ENDIAN) as usize;
    let bits: u8 = if optional_header_size >= 2 && len - offset >= 0x1a {
        let magic = read_u16_from_slice(bytes, offset + 0x18, LITTLE_ENDIAN);
        if magic == 0x20b {
            64
        } else {
            32
        }
    } else {
        32
    };
    if optional_header_size > len - offset - 0x18 {
        return None;
    }
    let table = offset + 0x18 + optional_header_size;
    assert(table == le32(bytes@, 0x3c) + 0x18 + le16(bytes@, le32(bytes@, 0x3c) + 0x14int));
    assert(num_sections == le16(bytes@, le32(bytes@, 0x3c) + 6int));
    let mut section_table: Vec<(String, Section)> = Vec::new();
    let mut program_table: Vec<Segment> = Vec::new();
    let mut i: usize = 0;
    while i < num_sections
        invariant
            unique_names(keys(section_table@)),
            num_sections < 0x1_0000,
            table <= len,
            len == bytes@.len(),
            i <= num_sections,
            table + 40 * i <= len,
            table == le32(bytes@, 0x3c) + 0x18 + le16(bytes@, le32(bytes@, 0x3c) + 0x14int),
            num_sections == le16(bytes@, le32(bytes@, 0x3c) + 6int),
            le32(bytes@, 0x3c) + 0x18 <= len,
            len >= 0x40,
            program_table@.len() == i,
            forall|j: int| 0 <= j < section_table@.len() ==> pe_from_one_of(bytes@, #[trigger] section_table@[j].1, i as int),
            forall|j: int| 0 <= j < i ==> #[trigger] program_table@[j] == pe_segment(bytes@, j),
        decreases num_sections - i,
    {
        if i * 40 > len - table {
            return None;
        }
        let at = table + i * 40;
        if len - at < 40 {
            return None;
        }
        let name = get_name_from_section_header(bytes, at);
        let vaddr = read_u32_from_slice(bytes, at + 0xc, LITTLE_ENDIAN);
        let data_size = read_u32_from_slice(bytes, at + 0x10, LITTLE_ENDIAN);
        let data_ptr = read_u32_from_slice(bytes, at + 0x14, LITTLE_ENDIAN);
        let flags = read_u32_from_slice(bytes, at + 0x24, LITTLE_ENDIAN);
        let data = crate::elf::slice_bytes(bytes, data_ptr as u64, data_size as u64);
        let sec = Section { addr: data_ptr as u64, bytes: data };
        let ghost sv = sec;
        let ghost before = section_table@;
        assert(pe_section_from(bytes@, sv, i as int));
        crate::elf::put(&mut section_table, name, sec);
        proof {
            assert forall|j: int| 0 <= j < section_table@.len() implies pe_from_one_of(
                bytes@,
                #[trigger] section_table@[j].1,
                i + 1,
            ) by {
                if section_table@[j].1 == sv {
                    assert(pe_section_from(bytes@, sv, i as int));
                } else {
                    let m = choose|m: int| 0 <= m < before.len() && #[trigger] before[m].1 == section_table@[j].1;
                    assert(pe_from_one_of(bytes@, before[m].1, i as int));
                }
            }
        }
        program_table.push(Segment {
            perm: get_rwx_perm(flags),
            offset: data_ptr as u64,
            paddr: data_ptr as u64,
            vaddr: vaddr as u64,
            size: data_size as usize,
        });
        i = i + 1;
    }
    let symbol_table: Vec<(String, crate::prog::Symbol)> = Vec::new();
    assert(keys(symbol_table@) =~= Seq::<Seq<char>>::empty());
    Some(Program {
        bits,
        endianess: LITTLE_ENDIAN,
        machine_type: String::from_str(get_machine_type_string(machine)),
        entry_point: 0,
        program_table,
        section_table,
        symbol_table,
    })
}

} // verus!
