//! File-type detection and printable-string extraction.

use vstd::prelude::*;
use crate::pe::{check_is_pe_executable, is_pe};
use crate::text::push_char;

verus! {

#[derive(Clone, Copy, PartialEq, Eq, Structural)]
pub enum FileType {
    RawBinary,
    Elf,
    PE,
}

/// Whether `b` starts with the ELF magic `7F 45 4C 46`.
pub open spec fn is_elf(b: Seq<u8>) -> bool {
    b.len() >= 4 && b[0] == 0x7f && b[1] == 0x45 && b[2] == 0x4c && b[3] == 0x46
}

/// The container format of `b`: ELF by its magic, else PE by its DOS and PE
/// signatures, else raw.
pub open spec fn file_type(b: Seq<u8>) -> FileType {
    if is_elf(b) {
        FileType::Elf
    } else if is_pe(b) {
        FileType::PE
    } else {
        FileType::RawBinary
    }
}

pub fn get_file_type(bytes: &Vec<u8>) -> (t: FileType)
    ensures
        t == file_type(bytes@),
{
    if bytes.len() >= 4 && bytes[0] == 0x7f && bytes[1] == 0x45 && bytes[2] == 0x4c && bytes[3] == 0x46 {
        return FileType::Elf;
    } else if check_is_pe_executable(bytes) {
        return FileType::PE;
    }
    FileType::RawBinary
}

/// Whether byte `c` may stand in a string.
pub open spec fn string_byte(c: u8, printable: bool) -> bool {
    c != 0 && c <= 0x7f && !(printable && c < 0x20)
}

/// Length of the run of string bytes from `i`.
pub open spec fn run_len(b: Seq<u8>, i: int, printable: bool) -> nat
    decreases b.len() - i,
{
    if i < 0 || i >= b.len() || !string_byte(b[i], printable) {
        0
    } else {
        1 + run_len(b, i + 1, printable)
    }
}

/// Whether the run from `i` ends at a byte above 0x7f (which rejects it).
pub open spec fn run_rejected(b: Seq<u8>, i: int, printable: bool) -> bool {
    let e = i + run_len(b, i, printable);
    e < b.len() && b[e] > 0x7f && !(printable && b[e] < 0x20)
}

/// The strings of `b` from `i` on: each run of at least `min_len` string
/// bytes that ends at a zero byte, a non-printable byte (when `printable`)
/// or the end of input; a run that ends at a byte above 0x7f is dropped.
pub open spec fn strings_from(b: Seq<u8>, i: int, min_len: nat, printable: bool) -> Seq<Seq<char>>
    decreases b.len() - i,
{
    if i < 0 || i >= b.len() {
        Seq::empty()
    } else {
        let n = run_len(b, i, printable);
        let rest = if i + n + 1 >= b.len() {
            Seq::empty()
        } else {
            strings_from(b, i + n + 1, min_len, printable)
        };
        if !run_rejected(b, i, printable) && n >= min_len {
            seq![Seq::new(n, |k: int| b[i + k] as char)] + rest
        } else {
            rest
        }
    }
}

proof fn lemma_run_bound(b: Seq<u8>, i: int, printable: bool)
    requires
        0 <= i <= b.len(),
    ensures
        i + run_len(b, i, printable) <= b.len(),
        forall|k: int| i <= k < i + run_len(b, i, printable) ==> string_byte(#[trigger] b[k], printable),
        i + run_len(b, i, printable) < b.len() ==> !string_byte(b[i + run_len(b, i, printable)], printable),
    decreases b.len() - i,
{
    if i < b.len() && string_byte(b[i], printable) {
        lemma_run_bound(b, i + 1, printable);
    }
}

fn try_ascii_string(index: usize, bytes: &Vec<u8>, min_len: usize, printable: bool) -> (r: (Option<String>, usize))
    requires
        index < bytes@.len(),
    ensures
        r.1 == run_len(bytes@, index as int, printable),
        r.0 is Some <==> (!run_rejected(bytes@, index as int, printable) && run_len(bytes@, index as int, printable) >= min_len),
        r.0 matches Some(s) ==> s@ == Seq::new(run_len(bytes@, index as int, printable), |k: int| bytes@[index + k] as char),
{
    proof {
        lemma_run_bound(bytes@, index as int, printable);
    }
    let ghost n = run_len(bytes@, index as int, printable);
    let mut len: usize = 0;
    let mut s = String::new();
    while len < bytes.len() - index && string_byte_exec(bytes[index + len], printable)
        invariant
            index < bytes@.len(),
            len <= n,
            n == run_len(bytes@, index as int, printable),
            index + n <= bytes@.len(),
            forall|k: int| index <= k < index + n ==> string_byte(#[trigger] bytes@[k], printable),
            index + n < bytes@.len() ==> !string_byte(bytes@[index + n], printable),
            s@ == Seq::new(len as nat, |k: int| bytes@[index + k] as char),
        decreases bytes@.len() - index - len,
    {
        push_char(&mut s, bytes[index + len]);
        len = len + 1;
        assert(s@ =~= Seq::new(len as nat, |k: int| bytes@[index + k] as char));
    }
    if len < bytes.len() - index && bytes[index + len] > 0x7f && !(printable && bytes[index + len] < 0x20) {
        return (None, len);
    }
    if len >= min_len {
        (Some(s), len)
    } else {
        (None, len)
    }
}

fn string_byte_exec(c: u8, printable: bool) -> (r: bool)
    ensures
        r == string_byte(c, printable),
{
    c != 0 && c <= 0x7f && !(printable && c < 0x20)
}

/// The texts of a list of strings.
pub open spec fn texts(v: Seq<String>) -> Seq<Seq<char>> {
    Seq::new(v.len(), |i: int| v[i]@)
}

/// The ASCII strings of `bytes` of at least `min_len` characters.
pub fn get_strings(bytes: &Vec<u8>, min_len: usize, printable: bool) -> (r: Vec<String>)
    ensures
        texts(r@) == strings_from(bytes@, 0, min_len as nat, printable),
{
    let mut index: usize = 0;
    let mut strings: Vec<String> = Vec::new();
    let ghost all = strings_from(bytes@, 0, min_len as nat, printable);
    while index < bytes.len()
        invariant
            all == strings_from(bytes@, 0, min_len as nat, printable),
            index <= bytes@.len(),
            texts(strings@) + strings_from(bytes@, index as int, min_len as nat, printable) == all,
        decreases bytes@.len() - index,
    {
        proof {
            lemma_run_bound(bytes@, index as int, printable);
        }
        let ghost before = texts(strings@);
        let ghost here = strings_from(bytes@, index as int, min_len as nat, printable);
        let (found, n) = try_ascii_string(index, bytes, min_len, printable);
        let ghost rest = if index + n + 1 >= bytes@.len() {
            Seq::<Seq<char>>::empty()
        } else {
            strings_from(bytes@, index + n + 1, min_len as nat, printable)
        };
        if let Some(s) = found {
            strings.push(s);
            assert(here == seq![s@] + rest);
            assert(texts(strings@) =~= before.push(s@));
            assert(texts(strings@) + rest =~= before + here);
        } else {
            assert(here == rest);
            assert(texts(strings@) =~= before);
        }
        index = if n < bytes.len() - index - 1 {
            index + n + 1
        } else {
            bytes.len()
        };
        assert(strings_from(bytes@, index as int, min_len as nat, printable) == rest);
    }
    assert(strings_from(bytes@, index as int, min_len as nat, printable) =~= Seq::<Seq<char>>::empty());
    assert(texts(strings@) =~= all);
    strings
}

} // verus!
