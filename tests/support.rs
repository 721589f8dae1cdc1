use baretk::dump::{dump_program, rwx_string};
use baretk::prog::{build_program_from_binary, load_program_from_bytes};
use baretk::query::{get_file_type, get_strings, FileType};
use baretk::util::{read_u16_from_u8_vec, read_u32_from_u8_vec, read_u32_to_u64_from_u8_vec, read_u64_from_u8_vec, BitExtr, BIG_ENDIAN, LITTLE_ENDIAN};

#[test]
fn bextr_unsigned_is_shift_and_mask() {
    let x: u32 = 0xabcd_1234;
    assert_eq!(x.bextr(15, 8), 0x12);
    assert_eq!(x.bextr(31, 0), x);
    assert_eq!(x.bextr(31, 28), 0xa);
    for hi in 0..32u32 {
        for lo in 0..=hi {
            let mask: u64 = (1u64 << (hi - lo + 1)) - 1;
            assert_eq!(x.bextr(hi, lo) as u64, ((x as u64) >> lo) & mask);
        }
    }
    assert_eq!(0x8082u16.bextr(1, 0), 2);
}

#[test]
fn bextr_signed_extends() {
    assert_eq!((0x00ff_fff9u32 as i32).bextr(23, 0), -7);
    assert_eq!((0x8000_0000u32 as i32).bextr(31, 31), -1);
    assert_eq!(0x1000i16.bextr(12, 12), -1);
    assert_eq!(0x0800i16.bextr(12, 12), 0);
}

#[test]
fn word_reads() {
    let v = vec![1u8, 2, 3, 4, 5, 6, 7, 8];
    assert_eq!(read_u16_from_u8_vec(&v, 0, LITTLE_ENDIAN), 0x0201);
    assert_eq!(read_u16_from_u8_vec(&v, 0, BIG_ENDIAN), 0x0102);
    assert_eq!(read_u32_from_u8_vec(&v, 1, LITTLE_ENDIAN), 0x0504_0302);
    assert_eq!(read_u32_from_u8_vec(&v, 1, BIG_ENDIAN), 0x0203_0405);
    assert_eq!(read_u64_from_u8_vec(&v, 0, LITTLE_ENDIAN), 0x0807_0605_0403_0201);
    assert_eq!(read_u32_to_u64_from_u8_vec(&vec![0xff, 0xff, 0xff, 0xff], 0, LITTLE_ENDIAN), 0xffff_ffff);
}

#[test]
fn file_types() {
    assert!(matches!(get_file_type(&vec![0x7f, 0x45, 0x4c, 0x46, 0]), FileType::Elf));
    assert!(matches!(get_file_type(&vec![1, 2, 3]), FileType::RawBinary));
    let mut pe = vec![0u8; 0x48];
    pe[0] = 0x4d;
    pe[1] = 0x5a;
    pe[0x3c] = 0x40;
    pe[0x40] = 0x50;
    pe[0x41] = 0x45;
    assert!(matches!(get_file_type(&pe), FileType::PE));
    pe[0x3c] = 0x46;
    assert!(matches!(get_file_type(&pe), FileType::RawBinary));
}

#[test]
fn strings_in_bytes() {
    let bytes = b"ab\0hello\0wor\x01ld\0\x80xyz\0long enough".to_vec();
    assert_eq!(get_strings(&bytes, 4, false), vec!["hello".to_string(), "wor\u{1}ld".to_string(), "long enough".to_string()]);
    assert_eq!(get_strings(&bytes, 4, true), vec!["hello".to_string(), "long enough".to_string()]);
    assert_eq!(
        get_strings(&bytes, 2, true),
        vec!["ab", "hello", "wor", "ld", "xyz", "long enough"].iter().map(|s| s.to_string()).collect::<Vec<_>>()
    );
}

#[test]
fn dump_layout() {
    assert_eq!(rwx_string(7), "RWX");
    assert_eq!(rwx_string(5), "R X");
    assert_eq!(rwx_string(0), "   ");
    let p = build_program_from_binary(&[1, 2, 3], Some(32), Some(1), Some("arm".to_string()));
    let expected = format!(
        "32-bit, little-endian, arm executable\nSegments:\n  {:<6} {:<8} {:<8} {:<8} {:<8}\n  {:<6} {:08x} {:08x} {:08x} {:08x}\nSections:\n  {:<16} {:<8} {:<8}\n  {:<16} {:08x} {:08x}\n",
        " Perm", "Offset", "PAddr", "VAddr", "Size", "RWX", 0, 0, 0, 3, " Name", "Offset", "Size", "file", 0, 3
    );
    assert_eq!(dump_program(&p), expected);
}

#[test]
fn raw_bytes_load_as_one_file_section() {
    let p = load_program_from_bytes(&[0x90, 0xc3]);
    assert_eq!(p.section_table.len(), 1);
    assert_eq!(p.section_table[0].0, "file");
    assert_eq!(p.section_table[0].1.bytes, vec![0x90, 0xc3]);
    assert_eq!(p.machine_type, "unknown");
}
