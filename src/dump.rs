//! A textual summary of a program's layout.

use vstd::prelude::*;
use crate::dis::push_pad_right;
use crate::prog::{Program, Segment};
use crate::text::{concat_all, dec, hex_pad, pad_right, push_dec, push_hex};
use crate::util::{BIG_ENDIAN, LITTLE_ENDIAN};

verus! {

/// Permission letters `RWX`, a space for each missing permission.
pub open spec fn rwx_text(flags: u32) -> Seq<char> {
    (if flags & 0x4 != 0 { "R"@ } else { " "@ }) + (if flags & 0x2 != 0 { "W"@ } else { " "@ }) + (if flags & 0x1
        != 0 { "X"@ } else { " "@ })
}

pub fn rwx_string(flags: u32) -> (s: String)
    ensures
        s@ == rwx_text(flags),
{
    let mut s = String::from_str(if (flags & 0x4) != 0 {
        "R"
    } else {
        " "
    });
    s.append(if (flags & 0x2) != 0 {
        "W"
    } else {
        " "
    });
    s.append(if (flags & 0x1) != 0 {
        "X"
    } else {
        " "
    });
    s
}

pub open spec fn endian_name(e: u8) -> Seq<char> {
    if e == LITTLE_ENDIAN {
        "little-endian"@
    } else if e == BIG_ENDIAN {
        "big-endian"@
    } else {
        "?-endian"@
    }
}

pub open spec fn segment_line(g: Segment) -> Seq<char> {
    "  "@ + pad_right(rwx_text(g.perm as u32), 6) + " "@ + hex_pad(g.offset as nat, 8) + " "@ + hex_pad(
        g.paddr as nat,
        8,
    ) + " "@ + hex_pad(g.vaddr as nat, 8) + " "@ + hex_pad(g.size as nat, 8) + "\n"@
}

pub open spec fn section_line(name: Seq<char>, addr: u64, len: nat) -> Seq<char> {
    "  "@ + pad_right(name, 16) + " "@ + hex_pad(addr as nat, 8) + " "@ + hex_pad(len, 8) + "\n"@
}

/// The heading of the segment table.
pub const SEGMENT_HEADING: &'static str = "Segments:\n   Perm  Offset   PAddr    VAddr    Size    \n";

/// The heading of the section table.
pub const SECTION_HEADING: &'static str = "Sections:\n   Name            Offset   Size    \n";

/// The summary: word size, byte order and machine, then one line per
/// segment and one per section.
pub open spec fn dump_text(p: Program) -> Seq<char> {
    dec(p.bits as nat) + "-bit, "@ + endian_name(p.endianess) + ", "@ + p.machine_type@ + " executable\n"@
        + SEGMENT_HEADING@ + concat_all(Seq::new(p.program_table@.len(), |i: int| segment_line(p.program_table@[i])))
        + SECTION_HEADING@ + concat_all(
        Seq::new(
            p.section_table@.len(),
            |i: int|
                section_line(
                    p.section_table@[i].0@,
                    p.section_table@[i].1.addr,
                    p.section_table@[i].1.bytes@.len(),
                ),
        ),
    )
}

fn push_segment(out: &mut String, g: &Segment)
    ensures
        final(out)@ == old(out)@ + segment_line(*g),
{
    let ghost start = out@;
    out.append("  ");
    push_pad_right(out, &rwx_string(g.perm as u32), 6);
    out.append(" ");
    push_hex(out, g.offset, 8);
    out.append(" ");
    push_hex(out, g.paddr, 8);
    out.append(" ");
    push_hex(out, g.vaddr, 8);
    out.append(" ");
    push_hex(out, g.size as u64, 8);
    out.append("\n");
    assert(out@ =~= start + segment_line(*g));
}

fn push_section(out: &mut String, name: &String, addr: u64, len: usize)
    ensures
        final(out)@ == old(out)@ + section_line(name@, addr, len as nat),
{
    let ghost start = out@;
    out.append("  ");
    push_pad_right(out, name, 16);
    out.append(" ");
    push_hex(out, addr, 8);
    out.append(" ");
    push_hex(out, len as u64, 8);
    out.append("\n");
    assert(out@ =~= start + section_line(name@, addr, len as nat));
}

pub fn dump_program(program: &Program) -> (s: String)
    ensures
        s@ == dump_text(*program),
{
    let mut s = String::new();
    push_dec(&mut s, program.bits as u64);
    s.append("-bit, ");
    s.append(if program.endianess == LITTLE_ENDIAN {
        "little-endian"
    } else if program.endianess == BIG_ENDIAN {
        "big-endian"
    } else {
        "?-endian"
    });
    s.append(", ");
    s.append(program.machine_type.as_str());
    s.append(" executable\n");
    s.append(SEGMENT_HEADING);
    let ghost head = s@;
    let ghost segs = Seq::new(program.program_table@.len(), |i: int| segment_line(program.program_table@[i]));
    let mut i: usize = 0;
    assert(segs.take(0) =~= Seq::<Seq<char>>::empty());
    while i < program.program_table.len()
        invariant
            i <= program.program_table@.len(),
            segs == Seq::new(program.program_table@.len(), |i: int| segment_line(program.program_table@[i])),
            s@ == head + concat_all(segs.take(i as int)),
        decreases program.program_table@.len() - i,
    {
        push_segment(&mut s, &program.program_table[i]);
        proof {
            assert(segs.take(i + 1).drop_last() =~= segs.take(i as int));
        }
        i = i + 1;
    }
    assert(segs.take(i as int) =~= segs);
    s.append(SECTION_HEADING);
    let ghost head2 = s@;
    let ghost secs = Seq::new(
        program.section_table@.len(),
        |i: int|
            section_line(
                program.section_table@[i].0@,
                program.section_table@[i].1.addr,
                program.section_table@[i].1.bytes@.len(),
            ),
    );
    let mut k: usize = 0;
    assert(secs.take(0) =~= Seq::<Seq<char>>::empty());
    while k < program.section_table.len()
        invariant
            k <= program.section_table@.len(),
            secs == Seq::new(
                program.section_table@.len(),
                |i: int|
                    section_line(
                        program.section_table@[i].0@,
                        program.section_table@[i].1.addr,
                        program.section_table@[i].1.bytes@.len(),
                    ),
            ),
            s@ == head2 + concat_all(secs.take(k as int)),
        decreases program.section_table@.len() - k,
    {
        let entry = &program.section_table[k];
        push_section(&mut s, &entry.0, entry.1.addr, entry.1.bytes.len());
        proof {
            assert(secs.take(k + 1).drop_last() =~= secs.take(k as int));
        }
        k = k + 1;
    }
    assert(secs.take(k as int) =~= secs);
    proof {
        assert(s@ =~= dump_text(*program));
    }
    s
}

} // verus!
