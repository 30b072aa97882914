//! The debug-split transform, exercised on hand-assembled images.

use sprinkle::elf::{debug_split, ElfError};

fn push_u16_le(v: &mut Vec<u8>, x: u16) {
    v.push((x & 0xff) as u8);
    v.push((x >> 8) as u8);
}

fn push_u32_le(v: &mut Vec<u8>, x: u32) {
    push_u16_le(v, (x & 0xffff) as u16);
    push_u16_le(v, (x >> 16) as u16);
}

fn push_u64_le(v: &mut Vec<u8>, x: u64) {
    push_u32_le(v, (x & 0xffff_ffff) as u32);
    push_u32_le(v, (x >> 32) as u32);
}

fn read_u64_le(v: &[u8], off: usize) -> u64 {
    let mut x: u64 = 0;
    for i in (0..8).rev() {
        x = (x << 8) | v[off + i] as u64;
    }
    x
}

fn read_u32_le(v: &[u8], off: usize) -> u32 {
    let mut x: u32 = 0;
    for i in (0..4).rev() {
        x = (x << 8) | v[off + i] as u32;
    }
    x
}

struct Sec64 {
    name: u32,
    kind: u32,
    offset: u64,
    size: u64,
}

/// Assembles a 64-bit little-endian image: header, one program header of
/// marker bytes, the payloads, the name table, then the section table.
fn build_elf64(secs: &[Sec64], payload: &[&[u8]], strtab: &[u8], shstrndx: u16) -> Vec<u8> {
    let shnum = secs.len() as u16;
    let mut v = Vec::new();
    v.extend_from_slice(&[0x7f, 0x45, 0x4c, 0x46, 2, 1, 1, 0, 0, 0, 0, 0, 0, 0, 0, 0]);
    push_u16_le(&mut v, 2); // e_type
    push_u16_le(&mut v, 0xb7); // e_machine
    push_u32_le(&mut v, 1); // e_version
    push_u64_le(&mut v, 0x1000); // e_entry
    push_u64_le(&mut v, 64); // e_phoff
    // e_shoff: filled below
    let mut data_len = 0u64;
    for p in payload {
        data_len += p.len() as u64;
    }
    let shoff = 64 + 56 + data_len + strtab.len() as u64;
    push_u64_le(&mut v, shoff);
    push_u32_le(&mut v, 0); // e_flags
    push_u16_le(&mut v, 64); // e_ehsize
    push_u16_le(&mut v, 56); // e_phentsize
    push_u16_le(&mut v, 1); // e_phnum
    push_u16_le(&mut v, 64); // e_shentsize
    push_u16_le(&mut v, shnum); // e_shnum
    push_u16_le(&mut v, shstrndx); // e_shstrndx
    assert_eq!(v.len(), 64);
    for i in 0..56u8 {
        v.push(0xa0 ^ i); // program-header marker bytes
    }
    for p in payload {
        v.extend_from_slice(p);
    }
    v.extend_from_slice(strtab);
    assert_eq!(v.len() as u64, shoff);
    for s in secs {
        push_u32_le(&mut v, s.name);
        push_u32_le(&mut v, s.kind);
        push_u64_le(&mut v, 0); // sh_flags
        push_u64_le(&mut v, 0); // sh_addr
        push_u64_le(&mut v, s.offset);
        push_u64_le(&mut v, s.size);
        push_u32_le(&mut v, 0); // sh_link
        push_u32_le(&mut v, 0); // sh_info
        push_u64_le(&mut v, 0); // sh_addralign
        push_u64_le(&mut v, 0); // sh_entsize
    }
    v
}

/// An image with {.text, .debug_info, .symtab, .comment}: only `.text` (and
/// the empty null section) is demoted; the three named keepers and the name
/// table round-trip byte for byte, and the table-offset fields follow the
/// layout formula.
#[test]
fn demotes_only_text() {
    // name table: \0 .text \0 .debug_info \0 .symtab \0 .comment \0 .shstrtab \0
    let strtab = b"\0.text\0.debug_info\0.symtab\0.comment\0.shstrtab\0";
    assert_eq!(strtab.len(), 46);
    let secs = [
        Sec64 { name: 0, kind: 0, offset: 0, size: 0 },
        Sec64 { name: 1, kind: 1, offset: 120, size: 4 },   // .text
        Sec64 { name: 7, kind: 1, offset: 124, size: 4 },   // .debug_info
        Sec64 { name: 19, kind: 2, offset: 128, size: 4 },  // .symtab
        Sec64 { name: 27, kind: 1, offset: 132, size: 4 },  // .comment
        Sec64 { name: 36, kind: 3, offset: 136, size: 46 }, // .shstrtab
    ];
    let input = build_elf64(
        &secs,
        &[b"TEXT", b"DBGi", b"SYMS", b"CMnt"],
        strtab,
        5,
    );
    let out = debug_split(&input).expect("well-formed image");

    // program headers: identical count and content
    assert_eq!(read_u64_le(&out, 32), 64); // e_phoff: right after the header
    assert_eq!(&out[64..120], &input[64..120]);

    // section-header count and order are unchanged
    assert_eq!(&out[58..64], &input[58..64]); // e_shentsize, e_shnum, e_shstrndx

    // table-offset formula: header + program headers + kept payloads,
    // the latter being .debug_info(4) + .symtab(4) + .comment(4) + .shstrtab(46)
    let kept_total: u64 = 4 + 4 + 4 + 46;
    let new_shoff = 64 + 56 + kept_total;
    assert_eq!(read_u64_le(&out, 40), new_shoff);
    assert_eq!(out.len() as u64, new_shoff + 6 * 64);

    // kept payloads are byte-identical, packed in original order
    assert_eq!(&out[120..124], b"DBGi");
    assert_eq!(&out[124..128], b"SYMS");
    assert_eq!(&out[128..132], b"CMnt");
    assert_eq!(&out[132..178], &strtab[..]);

    let entry = |k: usize| new_shoff as usize + k * 64;
    // the null section and .text are retyped to no-payload (8)
    assert_eq!(read_u32_le(&out, entry(0) + 4), 8);
    assert_eq!(read_u32_le(&out, entry(1) + 4), 8);
    // keepers keep their types
    assert_eq!(read_u32_le(&out, entry(2) + 4), 1);
    assert_eq!(read_u32_le(&out, entry(3) + 4), 2);
    assert_eq!(read_u32_le(&out, entry(4) + 4), 1);
    assert_eq!(read_u32_le(&out, entry(5) + 4), 3);
    // declared sizes are untouched, including the demoted .text
    for k in 0..6 {
        assert_eq!(read_u64_le(&out, entry(k) + 32), secs[k].size);
        assert_eq!(read_u32_le(&out, entry(k)), secs[k].name);
    }
    // kept sections point at their new payload positions; .text keeps its old field
    assert_eq!(read_u64_le(&out, entry(1) + 24), 120);
    assert_eq!(read_u64_le(&out, entry(2) + 24), 120);
    assert_eq!(read_u64_le(&out, entry(3) + 24), 124);
    assert_eq!(read_u64_le(&out, entry(4) + 24), 128);
    assert_eq!(read_u64_le(&out, entry(5) + 24), 132);
}

/// Running the transform twice on the same bytes gives the same bytes.
#[test]
fn split_is_reproducible() {
    let strtab = b"\0.text\0.shstrtab\0";
    let secs = [
        Sec64 { name: 0, kind: 0, offset: 0, size: 0 },
        Sec64 { name: 1, kind: 1, offset: 120, size: 4 },
        Sec64 { name: 7, kind: 3, offset: 124, size: 17 },
    ];
    let input = build_elf64(&secs, &[b"TEXT"], strtab, 2);
    let a = debug_split(&input).unwrap();
    let b = debug_split(&input).unwrap();
    assert_eq!(a, b);
}

/// A section whose name offset lies outside the name table has nothing to
/// exempt it: it is demoted like any other non-keeper.
#[test]
fn demotes_sections_with_unresolvable_names() {
    let strtab = b"\0.shstrtab\0";
    assert_eq!(strtab.len(), 11);
    let secs = [
        Sec64 { name: 0, kind: 0, offset: 0, size: 0 },
        Sec64 { name: 999, kind: 1, offset: 120, size: 4 }, // name beyond the table
        Sec64 { name: 1, kind: 3, offset: 124, size: 11 },
    ];
    let input = build_elf64(&secs, &[b"DATA"], strtab, 2);
    let out = debug_split(&input).unwrap();
    let new_shoff: usize = 64 + 56 + 11; // only the name table keeps payload
    assert_eq!(read_u64_le(&out, 40), new_shoff as u64);
    assert_eq!(out.len(), new_shoff + 3 * 64);
    let e1 = new_shoff + 64;
    assert_eq!(read_u32_le(&out, e1 + 4), 8); // demoted to no-payload
    assert_eq!(read_u64_le(&out, e1 + 32), 4); // declared size untouched
}

/// An image whose name-table index points at no section has no names at
/// all: only the type-exempt sections keep their payload.
#[test]
fn demotes_when_name_table_is_missing() {
    let secs = [
        Sec64 { name: 0, kind: 0, offset: 0, size: 0 },
        Sec64 { name: 1, kind: 1, offset: 120, size: 4 },
        Sec64 { name: 7, kind: 2, offset: 124, size: 4 }, // symbol table: kept by type
    ];
    let input = build_elf64(&secs, &[b"DATA", b"SYMS"], b"", 9); // index out of range
    let out = debug_split(&input).unwrap();
    let new_shoff: usize = 64 + 56 + 4;
    assert_eq!(read_u64_le(&out, 40), new_shoff as u64);
    assert_eq!(&out[120..124], b"SYMS");
    let e1 = new_shoff + 64;
    assert_eq!(read_u32_le(&out, e1 + 4), 8);
}

#[test]
fn rejects_bad_magic() {
    assert_eq!(debug_split(&vec![]), Err(ElfError::BadHeader));
    let mut v = vec![0u8; 64];
    v[0] = 0x7f;
    v[1] = 0x45;
    v[2] = 0x4c;
    v[3] = 0x47; // wrong final magic byte
    assert_eq!(debug_split(&v), Err(ElfError::BadHeader));
}

#[test]
fn rejects_tables_outside_image() {
    let strtab = b"\0.shstrtab\0";
    let secs = [
        Sec64 { name: 0, kind: 0, offset: 0, size: 0 },
        Sec64 { name: 1, kind: 3, offset: 120, size: 11 },
    ];
    let mut input = build_elf64(&secs, &[], strtab, 1);
    // push e_shoff far beyond the end of the image
    let bad = (input.len() as u64) + 1000;
    input[40..48].copy_from_slice(&bad.to_le_bytes());
    assert_eq!(debug_split(&input), Err(ElfError::BadTables));
}

#[test]
fn rejects_kept_payload_outside_image() {
    let strtab = b"\0.keep\0.shstrtab\0";
    let secs = [
        Sec64 { name: 0, kind: 0, offset: 0, size: 0 },
        // a symbol table (always kept) whose payload runs past the image
        Sec64 { name: 1, kind: 2, offset: 120, size: 0x10000 },
        Sec64 { name: 7, kind: 3, offset: 124, size: 17 },
    ];
    let input = build_elf64(&secs, &[b"KEEP"], strtab, 2);
    assert_eq!(debug_split(&input), Err(ElfError::SectionOutOfRange));
}

/// A 32-bit big-endian image goes through the same transform.
#[test]
fn handles_narrow_big_endian() {
    let strtab: &[u8] = b"\0.text\0.shstrtab\0";
    let mut v: Vec<u8> = Vec::new();
    v.extend_from_slice(&[0x7f, 0x45, 0x4c, 0x46, 1, 2, 1, 0, 0, 0, 0, 0, 0, 0, 0, 0]);
    let pb = |x: u16| -> [u8; 2] { x.to_be_bytes() };
    let pw = |x: u32| -> [u8; 4] { x.to_be_bytes() };
    v.extend_from_slice(&pb(2)); // e_type
    v.extend_from_slice(&pb(0x28)); // e_machine
    v.extend_from_slice(&pw(1)); // e_version
    v.extend_from_slice(&pw(0x8000)); // e_entry
    v.extend_from_slice(&pw(52)); // e_phoff
    let shoff: u32 = 52 + 32 + 4 + 17; // header, one phdr, .text payload, names
    v.extend_from_slice(&pw(shoff));
    v.extend_from_slice(&pw(0)); // e_flags
    v.extend_from_slice(&pb(52)); // e_ehsize
    v.extend_from_slice(&pb(32)); // e_phentsize
    v.extend_from_slice(&pb(1)); // e_phnum
    v.extend_from_slice(&pb(40)); // e_shentsize
    v.extend_from_slice(&pb(3)); // e_shnum
    v.extend_from_slice(&pb(2)); // e_shstrndx
    assert_eq!(v.len(), 52);
    for i in 0..32u8 {
        v.push(0xc0 ^ i);
    }
    v.extend_from_slice(b"TEXT"); // .text payload at 84
    v.extend_from_slice(strtab); // names at 88
    assert_eq!(v.len() as u32, shoff);
    let sec32 = |name: u32, kind: u32, off: u32, size: u32, v: &mut Vec<u8>| {
        v.extend_from_slice(&pw(name));
        v.extend_from_slice(&pw(kind));
        v.extend_from_slice(&pw(0)); // sh_flags
        v.extend_from_slice(&pw(0)); // sh_addr
        v.extend_from_slice(&pw(off));
        v.extend_from_slice(&pw(size));
        v.extend_from_slice(&pw(0)); // sh_link
        v.extend_from_slice(&pw(0)); // sh_info
        v.extend_from_slice(&pw(0)); // sh_addralign
        v.extend_from_slice(&pw(0)); // sh_entsize
    };
    sec32(0, 0, 0, 0, &mut v);
    sec32(1, 1, 84, 4, &mut v); // .text
    sec32(7, 3, 88, 17, &mut v); // .shstrtab
    let out = debug_split(&v).expect("well-formed image");
    // only the name table keeps payload: new table offset is 52 + 32 + 17
    let new_shoff = u32::from_be_bytes(out[32..36].try_into().unwrap());
    assert_eq!(new_shoff, 52 + 32 + 17);
    assert_eq!(u32::from_be_bytes(out[28..32].try_into().unwrap()), 52);
    assert_eq!(&out[52..84], &v[52..84]); // program header verbatim
    assert_eq!(&out[84..101], strtab); // the kept name table
    // .text is retyped to no-payload, its declared size untouched
    let e1 = new_shoff as usize + 40;
    assert_eq!(u32::from_be_bytes(out[e1 + 4..e1 + 8].try_into().unwrap()), 8);
    assert_eq!(u32::from_be_bytes(out[e1 + 20..e1 + 24].try_into().unwrap()), 4);
}
