//! The debug-split transform over executable images.
//!
//! [`debug_split`] rewrites one fully linked image into a structurally
//! parallel companion: section count and order are untouched, every section
//! that carries neither debug information nor symbol/string data is demoted to
//! the no-payload type (its declared size field left as-is), and the surviving
//! payloads are packed back to back behind the program-header table.  Only the
//! header fields that locate the two tables are recomputed.

use vstd::prelude::*;
use crate::bytes::u16_at;
use crate::bytes::u32_at;
use crate::bytes::u64_at;
use crate::bytes::read_u16;
use crate::bytes::read_u32;
use crate::bytes::read_u64;
use crate::bytes::write_u32;
use crate::bytes::write_u64;
use crate::bytes::append_range;

verus! {

/// Section type code for symbol tables.
pub const SHT_SYMTAB: u32 = 2;

/// Section type code for string tables.
pub const SHT_STRTAB: u32 = 3;

/// Section type code for sections that occupy no bytes in the file.
pub const SHT_NOBITS: u32 = 8;

// ---------------------------------------------------------------------------
// Image geometry, read straight off the byte sequence.
// ---------------------------------------------------------------------------

/// The image starts with the fixed four-byte magic.
pub open spec fn has_magic(b: Seq<u8>) -> bool {
    b.len() >= 52 && b[0] == 0x7fu8 && b[1] == 0x45u8 && b[2] == 0x4cu8 && b[3] == 0x46u8
}

/// Addressing width: the fifth byte selects the wide layout.
pub open spec fn is_64(b: Seq<u8>) -> bool {
    b[4] == 2u8
}

/// Byte order: the sixth byte selects little-endian.
pub open spec fn is_le(b: Seq<u8>) -> bool {
    b[5] == 1u8
}

/// Size of the image header for the image's addressing width.
pub open spec fn ehsize(b: Seq<u8>) -> int {
    if is_64(b) { 64 } else { 52 }
}

/// Size of one program-header entry.
pub open spec fn phentsize(b: Seq<u8>) -> int {
    if is_64(b) { 56 } else { 32 }
}

/// Size of one section-header entry.
pub open spec fn shentsize(b: Seq<u8>) -> int {
    if is_64(b) { 64 } else { 40 }
}

/// Position inside the header of the program-header-table offset field.
pub open spec fn phoff_pos(b: Seq<u8>) -> int {
    if is_64(b) { 32 } else { 28 }
}

/// Width of the offset fields: 8 bytes in the wide layout, else 4.
pub open spec fn word(b: Seq<u8>) -> int {
    if is_64(b) { 8 } else { 4 }
}

/// An unsigned field at `off` in `t`: 8 bytes when `wide`, else 4.
pub open spec fn word_at_sel(t: Seq<u8>, off: int, wide: bool, le: bool) -> int {
    if wide { u64_at(t, off, le) } else { u32_at(t, off, le) }
}

/// A size-`word` unsigned field at `off`.
pub open spec fn word_at(b: Seq<u8>, off: int) -> int {
    word_at_sel(b, off, is_64(b), is_le(b))
}

/// File offset of the program-header table.
pub open spec fn phoff(b: Seq<u8>) -> int {
    word_at(b, phoff_pos(b))
}

/// File offset of the section-header table.
pub open spec fn shoff(b: Seq<u8>) -> int {
    word_at(b, phoff_pos(b) + word(b))
}

/// Declared size of one program-header entry.
pub open spec fn e_phentsize(b: Seq<u8>) -> int {
    u16_at(b, if is_64(b) { 54 } else { 42 }, is_le(b))
}

/// Number of program-header entries.
pub open spec fn phnum(b: Seq<u8>) -> int {
    u16_at(b, if is_64(b) { 56 } else { 44 }, is_le(b))
}

/// Declared size of one section-header entry.
pub open spec fn e_shentsize(b: Seq<u8>) -> int {
    u16_at(b, if is_64(b) { 58 } else { 46 }, is_le(b))
}

/// Number of section-header entries.
pub open spec fn shnum(b: Seq<u8>) -> int {
    u16_at(b, if is_64(b) { 60 } else { 48 }, is_le(b))
}

/// Index of the section holding the section names.
pub open spec fn shstrndx(b: Seq<u8>) -> int {
    u16_at(b, if is_64(b) { 62 } else { 50 }, is_le(b))
}

// ---------------------------------------------------------------------------
// Section-header entries.
// ---------------------------------------------------------------------------

/// File position of section-header entry `k`.
pub open spec fn sh_entry(b: Seq<u8>, k: int) -> int {
    shoff(b) + k * shentsize(b)
}

/// Name offset of section `k` (into the section-name table).
pub open spec fn sh_name(b: Seq<u8>, k: int) -> int {
    u32_at(b, sh_entry(b, k), is_le(b))
}

/// Type code of section `k`.
pub open spec fn sh_type(b: Seq<u8>, k: int) -> int {
    u32_at(b, sh_entry(b, k) + 4, is_le(b))
}

/// Position of the file-offset field inside a section-header entry.
pub open spec fn sh_off_pos(b: Seq<u8>) -> int {
    if is_64(b) { 24 } else { 16 }
}

/// Position of the size field inside a section-header entry.
pub open spec fn sh_size_pos(b: Seq<u8>) -> int {
    if is_64(b) { 32 } else { 20 }
}

/// File offset of section `k`'s payload.
pub open spec fn sh_offset(b: Seq<u8>, k: int) -> int {
    word_at(b, sh_entry(b, k) + sh_off_pos(b))
}

/// Declared size of section `k`.
pub open spec fn sh_size(b: Seq<u8>, k: int) -> int {
    word_at(b, sh_entry(b, k) + sh_size_pos(b))
}

// ---------------------------------------------------------------------------
// Section names.
// ---------------------------------------------------------------------------

/// The image names its sections through the section at `shstrndx`.
pub open spec fn has_strtab(b: Seq<u8>) -> bool {
    0 <= shstrndx(b) < shnum(b)
}

/// First byte of the section-name table.
pub open spec fn strtab_lo(b: Seq<u8>) -> int {
    sh_offset(b, shstrndx(b))
}

/// Length of the section-name table.
pub open spec fn strtab_len(b: Seq<u8>) -> int {
    sh_size(b, shstrndx(b))
}

/// Position of the terminator scan: first zero byte at or after `i`, or `hi`.
pub open spec fn name_end(b: Seq<u8>, i: int, hi: int) -> int
    decreases hi - i,
{
    if i >= hi {
        hi
    } else if b[i] == 0 {
        i
    } else {
        name_end(b, i + 1, hi)
    }
}

/// Section `k` has a name: the name table exists and the offset is inside it.
pub open spec fn name_resolvable(b: Seq<u8>, k: int) -> bool {
    has_strtab(b) && 0 <= sh_name(b, k) < strtab_len(b)
}

/// The name bytes of section `k`: from its name offset to the terminator.
pub open spec fn name_of(b: Seq<u8>, k: int) -> Seq<u8> {
    let lo = strtab_lo(b) + sh_name(b, k);
    b.subrange(lo, name_end(b, lo, strtab_lo(b) + strtab_len(b)))
}

/// The bytes of the debug-section name prefix.
pub open spec fn debug_prefix() -> Seq<u8> {
    seq![0x2eu8, 0x64u8, 0x65u8, 0x62u8, 0x75u8, 0x67u8]
}

/// The bytes of the fixed comment-section name.
pub open spec fn comment_name() -> Seq<u8> {
    seq![0x2eu8, 0x63u8, 0x6fu8, 0x6du8, 0x6du8, 0x65u8, 0x6eu8, 0x74u8]
}

// ---------------------------------------------------------------------------
// Classification.
// ---------------------------------------------------------------------------

/// Section types that keep their payload regardless of name: already
/// no-payload, symbol tables, string tables.
pub open spec fn keep_type(t: int) -> bool {
    t == SHT_NOBITS || t == SHT_SYMTAB || t == SHT_STRTAB
}

/// Names that keep their payload: the debug prefix or the comment name.
pub open spec fn keep_name(n: Seq<u8>) -> bool {
    (n.len() >= 6 && n.subrange(0, 6) == debug_prefix()) || n == comment_name()
}

/// Section `k` is demoted to the no-payload type: it is not of a kept type,
/// and no resolvable kept name exempts it.  A section whose name cannot be
/// resolved has nothing to exempt it, so it is demoted like any other.
pub open spec fn demoted(b: Seq<u8>, k: int) -> bool {
    &&& !keep_type(sh_type(b, k))
    &&& !(name_resolvable(b, k) && keep_name(name_of(b, k)))
}

/// Type code of section `k` in the output image.
pub open spec fn out_type(b: Seq<u8>, k: int) -> int {
    if demoted(b, k) { SHT_NOBITS as int } else { sh_type(b, k) }
}

/// Section `k` contributes payload bytes to the output image.
pub open spec fn payload_kept(b: Seq<u8>, k: int) -> bool {
    out_type(b, k) != SHT_NOBITS
}

// ---------------------------------------------------------------------------
// Output layout.
// ---------------------------------------------------------------------------

/// Length of the program-header table.
pub open spec fn ph_table_len(b: Seq<u8>) -> int {
    phnum(b) * phentsize(b)
}

/// Output position of the first payload byte: header, then program headers.
pub open spec fn data_off(b: Seq<u8>) -> int {
    ehsize(b) + ph_table_len(b)
}

/// Total payload of the kept sections among the first `k`.
pub open spec fn kept_before(b: Seq<u8>, k: int) -> int
    decreases k,
{
    if k <= 0 {
        0
    } else {
        kept_before(b, k - 1) + if payload_kept(b, k - 1) { sh_size(b, k - 1) } else { 0 }
    }
}

/// Output file offset of section `k`'s payload.
pub open spec fn new_sh_offset(b: Seq<u8>, k: int) -> int {
    data_off(b) + kept_before(b, k)
}

/// Output position of the section-header table: right after the payloads.
pub open spec fn new_shoff(b: Seq<u8>) -> int {
    data_off(b) + kept_before(b, shnum(b))
}

/// Total length of the output image.
pub open spec fn out_len(b: Seq<u8>) -> int {
    new_shoff(b) + shnum(b) * shentsize(b)
}

// ---------------------------------------------------------------------------
// Well-formedness of the input.
// ---------------------------------------------------------------------------

/// The fixed part of the header is present and plausible.
pub open spec fn wf_ident(b: Seq<u8>) -> bool {
    &&& has_magic(b)
    &&& (b[4] == 1u8 || b[4] == 2u8)
    &&& (b[5] == 1u8 || b[5] == 2u8)
    &&& b.len() >= ehsize(b)
}

/// Both tables lie inside the image, entry sizes are the standard ones, and
/// the section-name table (when indexed) lies inside the image too.
pub open spec fn wf_tables(b: Seq<u8>) -> bool {
    &&& phoff(b) + phnum(b) * phentsize(b) <= b.len()
    &&& shoff(b) + shnum(b) * shentsize(b) <= b.len()
    &&& (phnum(b) > 0 ==> e_phentsize(b) == phentsize(b))
    &&& (shnum(b) > 0 ==> e_shentsize(b) == shentsize(b))
    &&& (has_strtab(b) ==> strtab_lo(b) + strtab_len(b) <= b.len())
}

/// Every kept payload lies inside the image.
pub open spec fn payloads_ok(b: Seq<u8>) -> bool {
    forall|k: int|
        0 <= k < shnum(b) && payload_kept(b, k) ==> sh_offset(b, k) + sh_size(b, k) <= b.len()
}

/// The output image fits in memory, and in the narrow layout the relocated
/// section-header table still fits its 32-bit offset field.
pub open spec fn output_fits(b: Seq<u8>) -> bool {
    out_len(b) <= usize::MAX && (is_64(b) || new_shoff(b) <= u32::MAX)
}

/// The transform succeeds exactly on these images.
pub open spec fn wf_image(b: Seq<u8>) -> bool {
    wf_ident(b) && wf_tables(b) && payloads_ok(b) && output_fits(b)
}

/// Why the transform refuses an image.
#[derive(Debug, Clone, Copy, PartialEq, Eq, Structural)]
pub enum ElfError {
    /// The fixed header is missing, too short, or not an executable image.
    BadHeader,
    /// A table or the section-name table reaches outside the image.
    BadTables,
    /// A kept section's payload reaches outside the image.
    SectionOutOfRange,
    /// The rewritten image would not fit in memory.
    TooLarge,
}

/// The error reported for a rejected image: the first failing stage.
pub open spec fn split_error(b: Seq<u8>) -> ElfError {
    if !wf_ident(b) {
        ElfError::BadHeader
    } else if !wf_tables(b) {
        ElfError::BadTables
    } else if !payloads_ok(b) {
        ElfError::SectionOutOfRange
    } else {
        ElfError::TooLarge
    }
}

// ---------------------------------------------------------------------------
// Parsing.
// ---------------------------------------------------------------------------

/// Exec-side copy of the header geometry of a well-formed image.
struct Geom {
    is64: bool,
    le: bool,
    phoff: usize,
    shoff: usize,
    phnum: usize,
    shnum: usize,
    shstrndx: usize,
}

/// The geometry values match the byte sequence they were read from.
spec fn geom_ok(b: Seq<u8>, g: Geom) -> bool {
    &&& g.is64 == is_64(b)
    &&& g.le == is_le(b)
    &&& g.phoff == phoff(b)
    &&& g.shoff == shoff(b)
    &&& g.phnum == phnum(b)
    &&& g.shnum == shnum(b)
    &&& g.shstrndx == shstrndx(b)
}

/// Checks the fixed header and the placement of both tables.
#[verifier::rlimit(60)]
fn check_header(b: &Vec<u8>) -> (r: Result<Geom, ElfError>)
    ensures
        r is Ok <==> wf_ident(b@) && wf_tables(b@),
        r matches Ok(g) ==> geom_ok(b@, g),
        r matches Err(e) ==> e == split_error(b@),
{
    if b.len() < 52 || b[0] != 0x7f || b[1] != 0x45 || b[2] != 0x4c || b[3] != 0x46 {
        return Err(ElfError::BadHeader);
    }
    if !(b[4] == 1 || b[4] == 2) || !(b[5] == 1 || b[5] == 2) {
        return Err(ElfError::BadHeader);
    }
    let is64 = b[4] == 2;
    let le = b[5] == 1;
    if is64 && b.len() < 64 {
        return Err(ElfError::BadHeader);
    }
    let pent: u64 = if is64 { 56 } else { 32 };
    let sent: u64 = if is64 { 64 } else { 40 };
    let po: u64 = if is64 { read_u64(b, 32, le) } else { read_u32(b, 28, le) as u64 };
    let so: u64 = if is64 { read_u64(b, 40, le) } else { read_u32(b, 32, le) as u64 };
    let e_pent = read_u16(b, if is64 { 54 } else { 42 }, le);
    let pn = read_u16(b, if is64 { 56 } else { 44 }, le);
    let e_sent = read_u16(b, if is64 { 58 } else { 46 }, le);
    let sn = read_u16(b, if is64 { 60 } else { 48 }, le);
    let sx = read_u16(b, if is64 { 62 } else { 50 }, le);
    let blen = b.len() as u128;
    if po as u128 + pn as u128 * pent as u128 > blen {
        return Err(ElfError::BadTables);
    }
    if so as u128 + sn as u128 * sent as u128 > blen {
        return Err(ElfError::BadTables);
    }
    if pn > 0 && e_pent as u64 != pent {
        return Err(ElfError::BadTables);
    }
    if sn > 0 && e_sent as u64 != sent {
        return Err(ElfError::BadTables);
    }
    let g = Geom {
        is64,
        le,
        phoff: po as usize,
        shoff: so as usize,
        phnum: pn as usize,
        shnum: sn as usize,
        shstrndx: sx as usize,
    };
    if g.shstrndx < g.shnum {
        let ent = sec_entry_pos(b, &g, g.shstrndx);
        let lo: u64 = if is64 { read_u64(b, ent + 24, le) } else { read_u32(b, ent + 16, le) as u64 };
        let ln: u64 = if is64 { read_u64(b, ent + 32, le) } else { read_u32(b, ent + 20, le) as u64 };
        if lo as u128 + ln as u128 > blen {
            return Err(ElfError::BadTables);
        }
    }
    Ok(g)
}

/// Position of section-header entry `k`, as a machine index.
fn sec_entry_pos(b: &Vec<u8>, g: &Geom, k: usize) -> (r: usize)
    requires
        geom_ok(b@, *g),
        wf_ident(b@),
        shoff(b@) + shnum(b@) * shentsize(b@) <= b@.len(),
        k < g.shnum,
    ensures
        r == sh_entry(b@, k as int),
        r + shentsize(b@) <= b@.len(),
{
    let ent: usize = if g.is64 { 64 } else { 40 };
    proof {
        assert(ent == shentsize(b@));
        assert((k + 1) * shentsize(b@) <= shnum(b@) * shentsize(b@)) by (nonlinear_arith)
            requires
                k + 1 <= shnum(b@),
                shentsize(b@) >= 0,
        ;
        assert((k + 1) * shentsize(b@) == k * shentsize(b@) + shentsize(b@)) by (nonlinear_arith);
        assert(k * shentsize(b@) >= 0) by (nonlinear_arith)
            requires
                k >= 0,
                shentsize(b@) >= 0,
        ;
        assert(b@.len() <= usize::MAX) by {
            assert(b.len() == b@.len());
        }
        assert(g.shoff + k * ent + ent <= b@.len());
    }
    g.shoff + k * ent
}

/// Section fields that the transform reads.
struct Sec {
    name: u32,
    kind: u32,
    offset: u64,
    size: u64,
}

/// The recorded fields of entry `k` match the byte sequence.
spec fn sec_ok(b: Seq<u8>, s: Sec, k: int) -> bool {
    &&& s.name == sh_name(b, k)
    &&& s.kind == sh_type(b, k)
    &&& s.offset == sh_offset(b, k)
    &&& s.size == sh_size(b, k)
}

/// Reads the fields of every section-header entry, in table order.
fn read_sections(b: &Vec<u8>, g: &Geom) -> (r: Vec<Sec>)
    requires
        geom_ok(b@, *g),
        wf_ident(b@),
        wf_tables(b@),
    ensures
        r.len() == shnum(b@),
        forall|k: int| 0 <= k < r.len() ==> sec_ok(b@, #[trigger] r@[k], k),
{
    let mut v: Vec<Sec> = Vec::new();
    let mut k: usize = 0;
    while k < g.shnum
        invariant
            geom_ok(b@, *g),
            wf_ident(b@),
            wf_tables(b@),
            k <= g.shnum,
            v.len() == k,
            forall|j: int| 0 <= j < k ==> sec_ok(b@, #[trigger] v@[j], j),
        decreases g.shnum - k,
    {
        let ent = sec_entry_pos(b, g, k);
        proof {
            assert(b.len() == b@.len());
            assert(ent + shentsize(b@) <= b@.len());
        }
        let s = if g.is64 {
            Sec {
                name: read_u32(b, ent, g.le),
                kind: read_u32(b, ent + 4, g.le),
                offset: read_u64(b, ent + 24, g.le),
                size: read_u64(b, ent + 32, g.le),
            }
        } else {
            Sec {
                name: read_u32(b, ent, g.le),
                kind: read_u32(b, ent + 4, g.le),
                offset: read_u32(b, ent + 16, g.le) as u64,
                size: read_u32(b, ent + 20, g.le) as u64,
            }
        };
        v.push(s);
        k = k + 1;
    }
    v
}

// ---------------------------------------------------------------------------
// Classification, exec side.
// ---------------------------------------------------------------------------

/// Scans for the name terminator: first zero byte at or after `i`, up to `hi`.
fn find_name_end(b: &Vec<u8>, i: usize, hi: usize) -> (r: usize)
    requires
        i <= hi <= b.len(),
    ensures
        r == name_end(b@, i as int, hi as int),
        i <= r <= hi,
{
    let mut j: usize = i;
    while j < hi
        invariant
            i <= j <= hi <= b.len(),
            name_end(b@, i as int, hi as int) == name_end(b@, j as int, hi as int),
        decreases hi - j,
    {
        if b[j] == 0 {
            proof {
                assert(name_end(b@, j as int, hi as int) == j);
            }
            return j;
        }
        proof {
            assert(name_end(b@, j as int, hi as int) == name_end(b@, j + 1, hi as int));
        }
        j = j + 1;
    }
    j
}

/// Does the name `b[abs .. nend]` mark its section as kept?
#[verifier::rlimit(60)]
fn name_keeps(b: &Vec<u8>, abs: usize, nend: usize) -> (r: bool)
    requires
        abs <= nend <= b.len(),
    ensures
        r == keep_name(b@.subrange(abs as int, nend as int)),
{
    let len = nend - abs;
    let dbg = len >= 6 && b[abs] == 0x2e && b[abs + 1] == 0x64 && b[abs + 2] == 0x65
        && b[abs + 3] == 0x62 && b[abs + 4] == 0x75 && b[abs + 5] == 0x67;
    let cmt = len == 8 && b[abs] == 0x2e && b[abs + 1] == 0x63 && b[abs + 2] == 0x6f
        && b[abs + 3] == 0x6d && b[abs + 4] == 0x6d && b[abs + 5] == 0x65 && b[abs + 6] == 0x6e
        && b[abs + 7] == 0x74;
    proof {
        let n = b@.subrange(abs as int, nend as int);
        assert(forall|i: int| 0 <= i < n.len() ==> n[i] == b@[abs + i]);
        if dbg {
            assert(n.subrange(0, 6) =~= debug_prefix());
        }
        if n.len() >= 6 && n.subrange(0, 6) == debug_prefix() {
            assert(forall|i: int| 0 <= i < 6 ==> n.subrange(0, 6)[i] == n[i]);
            assert(n[0] == debug_prefix()[0]);
            assert(n[1] == debug_prefix()[1]);
            assert(n[2] == debug_prefix()[2]);
            assert(n[3] == debug_prefix()[3]);
            assert(n[4] == debug_prefix()[4]);
            assert(n[5] == debug_prefix()[5]);
            assert(dbg);
        }
        if cmt {
            assert(n =~= comment_name());
        }
        if n == comment_name() {
            assert(n.len() == 8);
            assert(n[0] == comment_name()[0]);
            assert(n[1] == comment_name()[1]);
            assert(n[2] == comment_name()[2]);
            assert(n[3] == comment_name()[3]);
            assert(n[4] == comment_name()[4]);
            assert(n[5] == comment_name()[5]);
            assert(n[6] == comment_name()[6]);
            assert(n[7] == comment_name()[7]);
            assert(cmt);
        }
    }
    dbg || cmt
}

/// Decides for every section whether the transform demotes it.
fn classify(b: &Vec<u8>, g: &Geom, secs: &Vec<Sec>) -> (r: Vec<bool>)
    requires
        geom_ok(b@, *g),
        wf_ident(b@),
        wf_tables(b@),
        secs.len() == shnum(b@),
        forall|k: int| 0 <= k < secs.len() ==> sec_ok(b@, #[trigger] secs@[k], k),
    ensures
        r.len() == shnum(b@),
        forall|k: int| 0 <= k < r.len() ==> r@[k] == demoted(b@, k),
{
    let mut flags: Vec<bool> = Vec::new();
    let mut k: usize = 0;
    while k < g.shnum
        invariant
            geom_ok(b@, *g),
            wf_ident(b@),
            wf_tables(b@),
            secs.len() == shnum(b@),
            forall|j: int| 0 <= j < secs.len() ==> sec_ok(b@, #[trigger] secs@[j], j),
            k <= g.shnum,
            flags.len() == k,
            forall|j: int| 0 <= j < k ==> flags@[j] == demoted(b@, j),
        decreases g.shnum - k,
    {
        let kind = secs[k].kind;
        let d: bool = if kind == SHT_NOBITS || kind == SHT_SYMTAB || kind == SHT_STRTAB {
            false
        } else if g.shstrndx >= g.shnum {
            true
        } else {
            let st = &secs[g.shstrndx];
            let name = secs[k].name as u64;
            if name >= st.size {
                true
            } else {
                proof {
                    assert(b.len() == b@.len());
                    assert(strtab_lo(b@) == st.offset && strtab_len(b@) == st.size);
                    assert(strtab_lo(b@) + strtab_len(b@) <= b@.len());
                }
                let abs = st.offset as usize + name as usize;
                let hi = st.offset as usize + st.size as usize;
                let nend = find_name_end(b, abs, hi);
                !name_keeps(b, abs, nend)
            }
        };
        proof {
            assert(d == demoted(b@, k as int));
        }
        flags.push(d);
        k = k + 1;
    }
    flags
}

// ---------------------------------------------------------------------------
// Output layout, exec side.
// ---------------------------------------------------------------------------

/// `kept_before` grows with the section index.
proof fn lemma_kept_before_mono(b: Seq<u8>, i: int, j: int)
    requires
        0 <= i <= j,
    ensures
        kept_before(b, i) <= kept_before(b, j),
    decreases j - i,
{
    if i < j {
        lemma_kept_before_mono(b, i, j - 1);
    }
}

/// Machine-word positions of the rewritten image.
struct Layout {
    data_off: usize,
    new_offs: Vec<usize>,
    new_shoff: usize,
    out_len: usize,
}

/// The layout values match the specification.
spec fn layout_ok(b: Seq<u8>, l: Layout) -> bool {
    &&& l.data_off == data_off(b)
    &&& l.new_offs.len() == shnum(b)
    &&& forall|k: int| 0 <= k < shnum(b) ==> #[trigger] l.new_offs[k] == new_sh_offset(b, k)
    &&& l.new_shoff == new_shoff(b)
    &&& l.out_len == out_len(b)
}

/// Validates the kept payloads and computes where everything lands.
#[verifier::rlimit(60)]
fn compute_layout(b: &Vec<u8>, g: &Geom, secs: &Vec<Sec>, flags: &Vec<bool>) -> (r: Result<
    Layout,
    ElfError,
>)
    requires
        geom_ok(b@, *g),
        wf_ident(b@),
        wf_tables(b@),
        secs.len() == shnum(b@),
        forall|k: int| 0 <= k < secs.len() ==> sec_ok(b@, #[trigger] secs@[k], k),
        flags.len() == shnum(b@),
        forall|k: int| 0 <= k < flags.len() ==> flags@[k] == demoted(b@, k),
    ensures
        r is Ok <==> payloads_ok(b@) && output_fits(b@),
        r matches Ok(l) ==> layout_ok(b@, l),
        r matches Err(e) ==> e == split_error(b@),
{
    let eh: usize = if g.is64 { 64 } else { 52 };
    let pent: usize = if g.is64 { 56 } else { 32 };
    let sent: usize = if g.is64 { 64 } else { 40 };
    proof {
        assert(phnum(b@) < 0x1_0000 && shnum(b@) < 0x1_0000);
    }
    let doff: usize = eh + g.phnum * pent;
    let mut acc: u128 = 0;
    let mut k: usize = 0;
    while k < g.shnum
        invariant
            geom_ok(b@, *g),
            wf_ident(b@),
            wf_tables(b@),
            secs.len() == shnum(b@),
            forall|j: int| 0 <= j < secs.len() ==> sec_ok(b@, #[trigger] secs@[j], j),
            flags.len() == shnum(b@),
            forall|j: int| 0 <= j < flags.len() ==> flags@[j] == demoted(b@, j),
            k <= g.shnum,
            acc == kept_before(b@, k as int),
            acc <= k as u128 * 0xffff_ffff_ffff_ffffu128,
            forall|j: int|
                0 <= j < k && payload_kept(b@, j) ==> sh_offset(b@, j) + sh_size(b@, j)
                    <= b@.len(),
        decreases g.shnum - k,
    {
        let kept = secs[k].kind != SHT_NOBITS && !flags[k];
        proof {
            assert(kept == payload_kept(b@, k as int));
        }
        if kept {
            if secs[k].offset as u128 + secs[k].size as u128 > b.len() as u128 {
                return Err(ElfError::SectionOutOfRange);
            }
            proof {
                assert(acc + secs@[k as int].size as u128 <= (k + 1) as u128
                    * 0xffff_ffff_ffff_ffffu128) by (nonlinear_arith)
                    requires
                        acc <= k as u128 * 0xffff_ffff_ffff_ffffu128,
                        secs@[k as int].size <= 0xffff_ffff_ffff_ffffu64,
                        k < 0x1_0000,
                ;
            }
            acc = acc + secs[k].size as u128;
        } else {
            proof {
                assert(kept_before(b@, k + 1) == kept_before(b@, k as int));
                assert(acc <= (k + 1) as u128 * 0xffff_ffff_ffff_ffffu128) by (nonlinear_arith)
                    requires
                        acc <= k as u128 * 0xffff_ffff_ffff_ffffu128,
                        k < 0x1_0000,
                ;
            }
        }
        k = k + 1;
    }
    let table_len: u128 = g.shnum as u128 * sent as u128;
    proof {
        assert(table_len == shnum(b@) * shentsize(b@));
        assert(out_len(b@) == doff + acc + table_len);
    }
    if doff as u128 + acc + table_len > usize::MAX as u128 {
        return Err(ElfError::TooLarge);
    }
    let nso_wide: u128 = doff as u128 + acc;
    if !g.is64 && nso_wide > 0xffff_ffffu128 {
        return Err(ElfError::TooLarge);
    }
    let nso: usize = nso_wide as usize;
    let olen: usize = nso + g.shnum * sent;
    let mut offs: Vec<usize> = Vec::new();
    let mut cur: usize = doff;
    let mut k2: usize = 0;
    while k2 < g.shnum
        invariant
            geom_ok(b@, *g),
            wf_ident(b@),
            secs.len() == shnum(b@),
            forall|j: int| 0 <= j < secs.len() ==> sec_ok(b@, #[trigger] secs@[j], j),
            flags.len() == shnum(b@),
            forall|j: int| 0 <= j < flags.len() ==> flags@[j] == demoted(b@, j),
            k2 <= g.shnum,
            doff == data_off(b@),
            nso == new_shoff(b@),
            cur == data_off(b@) + kept_before(b@, k2 as int),
            cur <= nso,
            offs.len() == k2,
            forall|j: int| 0 <= j < k2 ==> #[trigger] offs[j] == new_sh_offset(b@, j),
        decreases g.shnum - k2,
    {
        offs.push(cur);
        let kept = secs[k2].kind != SHT_NOBITS && !flags[k2];
        proof {
            assert(kept == payload_kept(b@, k2 as int));
            lemma_kept_before_mono(b@, k2 + 1, shnum(b@));
        }
        if kept {
            cur = cur + secs[k2].size as usize;
        }
        k2 = k2 + 1;
    }
    Ok(Layout { data_off: doff, new_offs: offs, new_shoff: nso, out_len: olen })
}

// ---------------------------------------------------------------------------
// Building the rewritten image.
// ---------------------------------------------------------------------------

/// Entry `k` of a freshly built section-header table `t`: a copy of the
/// input's entry with the type retyped and the kept payload relocated.
spec fn entry_built(b: Seq<u8>, t: Seq<u8>, k: int) -> bool {
    let base = k * shentsize(b);
    let src = sh_entry(b, k);
    &&& forall|i: int|
        0 <= i < shentsize(b) && !(4 <= i < 8) && !(sh_off_pos(b) <= i < sh_off_pos(b) + word(b))
            ==> #[trigger] t[base + i] == b[src + i]
    &&& u32_at(t, base, is_le(b)) == sh_name(b, k)
    &&& u32_at(t, base + 4, is_le(b)) == out_type(b, k)
    &&& word_at_sel(t, base + sh_size_pos(b), is_64(b), is_le(b)) == sh_size(b, k)
    &&& word_at_sel(t, base + sh_off_pos(b), is_64(b), is_le(b)) == (if payload_kept(b, k) {
        new_sh_offset(b, k)
    } else {
        sh_offset(b, k)
    })
}

/// Builds the rewritten section-header table.
#[verifier::rlimit(100)]
fn build_table(b: &Vec<u8>, g: &Geom, secs: &Vec<Sec>, flags: &Vec<bool>, l: &Layout) -> (t: Vec<
    u8,
>)
    requires
        geom_ok(b@, *g),
        wf_ident(b@),
        wf_tables(b@),
        secs.len() == shnum(b@),
        forall|k: int| 0 <= k < secs.len() ==> sec_ok(b@, #[trigger] secs@[k], k),
        flags.len() == shnum(b@),
        forall|k: int| 0 <= k < flags.len() ==> flags@[k] == demoted(b@, k),
        layout_ok(b@, *l),
        output_fits(b@),
    ensures
        t.len() == shnum(b@) * shentsize(b@),
        forall|k: int| 0 <= k < shnum(b@) ==> #[trigger] entry_built(b@, t@, k),
{
    let sent: usize = if g.is64 { 64 } else { 40 };
    let mut t: Vec<u8> = Vec::new();
    let mut k: usize = 0;
    proof {
        assert(shnum(b@) * shentsize(b@) <= usize::MAX) by {
            assert(out_len(b@) <= usize::MAX);
            lemma_kept_before_mono(b@, 0, shnum(b@));
        }
    }
    while k < g.shnum
        invariant
            geom_ok(b@, *g),
            wf_ident(b@),
            wf_tables(b@),
            secs.len() == shnum(b@),
            forall|j: int| 0 <= j < secs.len() ==> sec_ok(b@, #[trigger] secs@[j], j),
            flags.len() == shnum(b@),
            forall|j: int| 0 <= j < flags.len() ==> flags@[j] == demoted(b@, j),
            layout_ok(b@, *l),
            output_fits(b@),
            k <= g.shnum,
            sent == shentsize(b@),
            t.len() == k * shentsize(b@),
            shnum(b@) * shentsize(b@) <= usize::MAX,
            forall|j: int| 0 <= j < k ==> #[trigger] entry_built(b@, t@, j),
        decreases g.shnum - k,
    {
        let ghost prev = t@;
        let ghost base_g = k as int * shentsize(b@);
        proof {
            assert((k + 1) * shentsize(b@) == k * shentsize(b@) + shentsize(b@)) by (nonlinear_arith);
            assert((k + 1) * shentsize(b@) <= shnum(b@) * shentsize(b@)) by (nonlinear_arith)
                requires
                    k + 1 <= shnum(b@),
                    shentsize(b@) >= 0,
            ;
        }
        let src = sec_entry_pos(b, g, k);
        append_range(&mut t, b, src, sent);
        let base = t.len() - sent;
        proof {
            assert(base == base_g);
            assert(forall|i: int| 0 <= i < sent ==> #[trigger] t@[base_g + i] == b@[sh_entry(b@, k as int) + i]);
            assert(t@[base_g] == b@[sh_entry(b@, k as int)]);
            assert(u32_at(t@, base_g, is_le(b@)) == sh_name(b@, k as int));
            assert(word_at_sel(t@, base_g + sh_size_pos(b@), is_64(b@), is_le(b@)) == sh_size(
                b@,
                k as int,
            ));
        }
        let otype: u32 = if flags[k] { SHT_NOBITS } else { secs[k].kind };
        write_u32(&mut t, base + 4, otype, g.le);
        let kept = secs[k].kind != SHT_NOBITS && !flags[k];
        proof {
            assert(kept == payload_kept(b@, k as int));
            if kept {
                lemma_kept_before_mono(b@, k as int, shnum(b@));
                assert(l.new_offs[k as int] == new_sh_offset(b@, k as int));
                assert(new_sh_offset(b@, k as int) <= new_shoff(b@));
            }
        }
        if kept {
            if g.is64 {
                write_u64(&mut t, base + 24, l.new_offs[k] as u64, g.le);
            } else {
                write_u32(&mut t, base + 16, l.new_offs[k] as u32, g.le);
            }
        }
        proof {
            let le = is_le(b@);
            let sp = sh_off_pos(b@);
            // bytes below this entry are untouched by this iteration
            assert(forall|i: int| 0 <= i < base_g ==> #[trigger] t@[i] == prev[i]);
            // the unpatched bytes of this entry still show the input
            assert(forall|i: int|
                0 <= i < shentsize(b@) && !(4 <= i < 8) && !(sp <= i < sp + word(b@))
                    ==> #[trigger] t@[base_g + i] == b@[sh_entry(b@, k as int) + i]);
            // the name and size fields still show the input
            assert(u32_at(t@, base_g, le) == sh_name(b@, k as int));
            assert(word_at_sel(t@, base_g + sh_size_pos(b@), is_64(b@), le) == sh_size(
                b@,
                k as int,
            ));
            // the type field holds the retyped value
            assert(u32_at(t@, base_g + 4, le) == out_type(b@, k as int));
            // the offset field holds the relocated or original offset
            if kept {
                assert(word_at_sel(t@, base_g + sp, is_64(b@), le) == new_sh_offset(b@, k as int));
            } else {
                assert(word_at_sel(t@, base_g + sp, is_64(b@), le) == word_at_sel(
                    b@,
                    sh_entry(b@, k as int) + sp,
                    is_64(b@),
                    le,
                ));
            }
            assert(entry_built(b@, t@, k as int));
            assert forall|j: int| 0 <= j < k implies #[trigger] entry_built(b@, t@, j) by {
                assert((j + 1) * shentsize(b@) <= k * shentsize(b@)) by (nonlinear_arith)
                    requires
                        j + 1 <= k,
                        shentsize(b@) >= 0,
                ;
                assert(j * shentsize(b@) >= 0) by (nonlinear_arith)
                    requires
                        j >= 0,
                        shentsize(b@) >= 0,
                ;
                assert(entry_built(b@, prev, j));
                assert(u32_at(t@, j * shentsize(b@), le) == u32_at(prev, j * shentsize(b@), le));
                assert(u32_at(t@, j * shentsize(b@) + 4, le) == u32_at(prev, j * shentsize(b@) + 4, le));
                assert(word_at_sel(t@, j * shentsize(b@) + sh_size_pos(b@), is_64(b@), le)
                    == word_at_sel(prev, j * shentsize(b@) + sh_size_pos(b@), is_64(b@), le));
                assert(word_at_sel(t@, j * shentsize(b@) + sp, is_64(b@), le) == word_at_sel(
                    prev,
                    j * shentsize(b@) + sp,
                    is_64(b@),
                    le,
                ));
            }
        }
        k = k + 1;
    }
    t
}

/// Position of byte `i` of output section-header entry `k`: the table sits
/// at `new_shoff`, one entry every `shentsize` bytes.
pub open spec fn out_entry_pos(b: Seq<u8>, k: int, i: int) -> int {
    new_shoff(b) + k * shentsize(b) + i
}

/// What the rewritten image `v` guarantees about the input image `b`:
///
/// - the program-header table is copied verbatim, and section count and order
///   are unchanged;
/// - every demoted section is retyped to no-payload with its declared size
///   and name fields untouched; every other byte of every section-header
///   entry outside the type and file-offset fields is copied from the input;
/// - every kept section's payload bytes round-trip, at its relocated offset;
/// - the table-offset header fields point at the relocated tables: the
///   program headers right behind the header, the section headers behind the
///   kept payloads, so the section-table offset equals header size plus
///   program-header-table size plus the sum of the kept sections' sizes.
pub open spec fn split_post(b: Seq<u8>, v: Seq<u8>) -> bool {
    &&& v.len() == out_len(b)
    &&& is_64(v) == is_64(b)
    &&& is_le(v) == is_le(b)
    &&& forall|i: int|
        0 <= i < ehsize(b) && !(phoff_pos(b) <= i < phoff_pos(b) + 2 * word(b))
            ==> #[trigger] v[i] == b[i]
    &&& phoff(v) == ehsize(b)
    &&& shoff(v) == new_shoff(b)
    &&& phnum(v) == phnum(b)
    &&& shnum(v) == shnum(b)
    &&& shstrndx(v) == shstrndx(b)
    &&& v.subrange(ehsize(b), data_off(b)) == b.subrange(phoff(b), phoff(b) + ph_table_len(b))
    &&& forall|k: int|
        0 <= k < shnum(b) && #[trigger] payload_kept(b, k) ==> v.subrange(
            new_sh_offset(b, k),
            new_sh_offset(b, k) + sh_size(b, k),
        ) == b.subrange(sh_offset(b, k), sh_offset(b, k) + sh_size(b, k))
    &&& forall|k: int| 0 <= k < shnum(b) ==> #[trigger] sh_type(v, k) == out_type(b, k)
    &&& forall|k: int| 0 <= k < shnum(b) ==> #[trigger] sh_name(v, k) == sh_name(b, k)
    &&& forall|k: int| 0 <= k < shnum(b) ==> #[trigger] sh_size(v, k) == sh_size(b, k)
    &&& forall|k: int|
        0 <= k < shnum(b) ==> #[trigger] sh_offset(v, k) == (if payload_kept(b, k) {
            new_sh_offset(b, k)
        } else {
            sh_offset(b, k)
        })
    &&& forall|k: int, i: int|
        0 <= k < shnum(b) && 0 <= i < shentsize(b) && !(4 <= i < 8) && !(sh_off_pos(b) <= i
            < sh_off_pos(b) + word(b)) ==> #[trigger] v[out_entry_pos(b, k, i)] == b[sh_entry(
            b,
            k,
        ) + i]
}

/// Carries the facts about one built table entry over to the assembled
/// image, where the table sits at `new_shoff(b)`.
proof fn lemma_entry_readers(b: Seq<u8>, v: Seq<u8>, t: Seq<u8>, k: int)
    requires
        wf_ident(b),
        wf_tables(b),
        0 <= k < shnum(b),
        v.len() == out_len(b),
        is_64(v) == is_64(b),
        is_le(v) == is_le(b),
        shoff(v) == new_shoff(b),
        t.len() == shnum(b) * shentsize(b),
        t == v.subrange(new_shoff(b), out_len(b)),
        entry_built(b, t, k),
    ensures
        sh_type(v, k) == out_type(b, k),
        sh_name(v, k) == sh_name(b, k),
        sh_size(v, k) == sh_size(b, k),
        sh_offset(v, k) == (if payload_kept(b, k) { new_sh_offset(b, k) } else { sh_offset(b, k) }),
        forall|i: int|
            0 <= i < shentsize(b) && !(4 <= i < 8) && !(sh_off_pos(b) <= i < sh_off_pos(b) + word(
                b,
            )) ==> #[trigger] v[out_entry_pos(b, k, i)] == b[sh_entry(b, k) + i],
{
    let le = is_le(b);
    let sent = shentsize(b);
    let base = k * sent;
    assert((k + 1) * sent == k * sent + sent) by (nonlinear_arith);
    assert((k + 1) * sent <= shnum(b) * sent) by (nonlinear_arith)
        requires
            k + 1 <= shnum(b),
            sent >= 0,
    ;
    assert(k * sent >= 0) by (nonlinear_arith)
        requires
            k >= 0,
            sent >= 0,
    ;
    assert(shentsize(v) == shentsize(b));
    assert(sh_entry(v, k) == new_shoff(b) + base);
    assert(forall|x: int| 0 <= x < t.len() ==> #[trigger] t[x] == v[new_shoff(b) + x]);
    assert(u32_at(v, new_shoff(b) + base, le) == u32_at(t, base, le));
    assert(u32_at(v, new_shoff(b) + (base + 4), le) == u32_at(t, base + 4, le));
    assert(word_at_sel(v, new_shoff(b) + (base + sh_size_pos(b)), is_64(b), le) == word_at_sel(
        t,
        base + sh_size_pos(b),
        is_64(b),
        le,
    ));
    assert(word_at_sel(v, new_shoff(b) + (base + sh_off_pos(b)), is_64(b), le) == word_at_sel(
        t,
        base + sh_off_pos(b),
        is_64(b),
        le,
    ));
    assert forall|i: int|
        0 <= i < shentsize(b) && !(4 <= i < 8) && !(sh_off_pos(b) <= i < sh_off_pos(b) + word(b))
        implies #[trigger] v[out_entry_pos(b, k, i)] == b[sh_entry(b, k) + i] by {
        assert(t[k * shentsize(b) + i] == b[sh_entry(b, k) + i]);
        assert(t[k * shentsize(b) + i] == v[new_shoff(b) + (k * shentsize(b) + i)]);
    }
}

/// The facts that hold of the partly built image once the header and the
/// program-header table are in place.
spec fn prefix_built(b: Seq<u8>, o: Seq<u8>) -> bool {
    &&& forall|i: int|
        0 <= i < ehsize(b) && !(phoff_pos(b) <= i < phoff_pos(b) + 2 * word(b))
            ==> #[trigger] o[i] == b[i]
    &&& word_at_sel(o, phoff_pos(b), is_64(b), is_le(b)) == ehsize(b)
    &&& word_at_sel(o, phoff_pos(b) + word(b), is_64(b), is_le(b)) == new_shoff(b)
    &&& o.subrange(ehsize(b), data_off(b)) == b.subrange(phoff(b), phoff(b) + ph_table_len(b))
}

/// The program-header table is never shorter than nothing.
proof fn lemma_ph_table_nonneg(b: Seq<u8>)
    ensures
        ph_table_len(b) >= 0,
{
    assert(phnum(b) * phentsize(b) >= 0) by (nonlinear_arith)
        requires
            phnum(b) >= 0,
            phentsize(b) >= 0,
    ;
}

/// Writes the patched header and the verbatim program-header table.
#[verifier::rlimit(100)]
fn write_prefix(b: &Vec<u8>, g: &Geom, l: &Layout) -> (out: Vec<u8>)
    requires
        geom_ok(b@, *g),
        wf_image(b@),
        layout_ok(b@, *l),
    ensures
        out@.len() == data_off(b@),
        prefix_built(b@, out@),
{
    let eh: usize = if g.is64 { 64 } else { 52 };
    let pent: usize = if g.is64 { 56 } else { 32 };
    let pp: usize = if g.is64 { 32 } else { 28 };
    let w: usize = if g.is64 { 8 } else { 4 };
    proof {
        assert(b.len() == b@.len());
        lemma_kept_before_mono(b@, 0, shnum(b@));
        lemma_ph_table_nonneg(b@);
    }
    let mut out: Vec<u8> = Vec::new();
    append_range(&mut out, b, 0, eh);
    if g.is64 {
        write_u64(&mut out, 32, 64u64, g.le);
        write_u64(&mut out, 40, l.new_shoff as u64, g.le);
    } else {
        write_u32(&mut out, 28, 52u32, g.le);
        write_u32(&mut out, 32, l.new_shoff as u32, g.le);
    }
    proof {
        assert(forall|i: int|
            0 <= i < eh && !(pp <= i < pp + 2 * w) ==> #[trigger] out@[i] == b@[i]);
        assert(word_at_sel(out@, pp as int, is_64(b@), is_le(b@)) == ehsize(b@));
        assert(word_at_sel(out@, pp + w, is_64(b@), is_le(b@)) == new_shoff(b@));
    }
    let ghost h1 = out@;
    let ph_len: usize = g.phnum * pent;
    proof {
        assert(out@.len() + ph_len == data_off(b@));
        assert(data_off(b@) <= new_shoff(b@) <= out_len(b@) <= usize::MAX);
    }
    append_range(&mut out, b, g.phoff, ph_len);
    proof {
        assert(forall|i: int| 0 <= i < eh ==> #[trigger] out@[i] == h1[i]);
        assert(out@.subrange(eh as int, data_off(b@)) =~= b@.subrange(
            phoff(b@),
            phoff(b@) + ph_table_len(b@),
        ));
        assert(word_at_sel(out@, pp as int, is_64(b@), is_le(b@)) == ehsize(b@));
        assert(word_at_sel(out@, pp + w, is_64(b@), is_le(b@)) == new_shoff(b@));
    }
    out
}

/// Appends the payloads of the kept sections, in original section order.
#[verifier::rlimit(100)]
fn write_payloads(out: &mut Vec<u8>, b: &Vec<u8>, g: &Geom, secs: &Vec<Sec>, flags: &Vec<bool>, l: &Layout)
    requires
        geom_ok(b@, *g),
        wf_image(b@),
        secs.len() == shnum(b@),
        forall|k: int| 0 <= k < secs.len() ==> sec_ok(b@, #[trigger] secs@[k], k),
        flags.len() == shnum(b@),
        forall|k: int| 0 <= k < flags.len() ==> flags@[k] == demoted(b@, k),
        layout_ok(b@, *l),
        old(out)@.len() == data_off(b@),
        prefix_built(b@, old(out)@),
    ensures
        final(out)@.len() == new_shoff(b@),
        prefix_built(b@, final(out)@),
        forall|j: int|
            0 <= j < shnum(b@) && #[trigger] payload_kept(b@, j) ==> final(out)@.subrange(
                new_sh_offset(b@, j),
                new_sh_offset(b@, j) + sh_size(b@, j),
            ) == b@.subrange(sh_offset(b@, j), sh_offset(b@, j) + sh_size(b@, j)),
{
    let mut k: usize = 0;
    proof {
        lemma_ph_table_nonneg(b@);
        lemma_kept_before_mono(b@, 0, shnum(b@));
        assert(b.len() == b@.len());
    }
    while k < g.shnum
        invariant
            geom_ok(b@, *g),
            wf_image(b@),
            secs.len() == shnum(b@),
            forall|j: int| 0 <= j < secs.len() ==> sec_ok(b@, #[trigger] secs@[j], j),
            flags.len() == shnum(b@),
            forall|j: int| 0 <= j < flags.len() ==> flags@[j] == demoted(b@, j),
            layout_ok(b@, *l),
            ph_table_len(b@) >= 0,
            k <= g.shnum,
            out@.len() == data_off(b@) + kept_before(b@, k as int),
            out@.len() <= new_shoff(b@),
            prefix_built(b@, out@),
            forall|j: int|
                0 <= j < k && #[trigger] payload_kept(b@, j) ==> out@.subrange(
                    new_sh_offset(b@, j),
                    new_sh_offset(b@, j) + sh_size(b@, j),
                ) == b@.subrange(sh_offset(b@, j), sh_offset(b@, j) + sh_size(b@, j)),
        decreases g.shnum - k,
    {
        let ghost prev = out@;
        let kept = secs[k].kind != SHT_NOBITS && !flags[k];
        proof {
            assert(kept == payload_kept(b@, k as int));
            lemma_kept_before_mono(b@, 0, k as int);
        }
        if kept {
            proof {
                lemma_kept_before_mono(b@, k + 1, shnum(b@));
                assert(sh_offset(b@, k as int) + sh_size(b@, k as int) <= b@.len());
                assert(b.len() == b@.len());
            }
            append_range(out, b, secs[k].offset as usize, secs[k].size as usize);
            proof {
                assert(out@.subrange(new_sh_offset(b@, k as int), new_sh_offset(b@, k as int)
                    + sh_size(b@, k as int)) =~= b@.subrange(
                    sh_offset(b@, k as int),
                    sh_offset(b@, k as int) + sh_size(b@, k as int),
                ));
            }
        } else {
            proof {
                assert(kept_before(b@, k + 1) == kept_before(b@, k as int));
            }
        }
        proof {
            assert(forall|i: int| 0 <= i < prev.len() ==> #[trigger] out@[i] == prev[i]);
            assert(prev.len() >= ehsize(b@));
            assert(word_at_sel(out@, phoff_pos(b@), is_64(b@), is_le(b@)) == ehsize(b@));
            assert(word_at_sel(out@, phoff_pos(b@) + word(b@), is_64(b@), is_le(b@)) == new_shoff(
                b@,
            ));
            assert(out@.subrange(ehsize(b@), data_off(b@)) =~= prev.subrange(
                ehsize(b@),
                data_off(b@),
            ));
            assert forall|j: int| 0 <= j < k && #[trigger] payload_kept(b@, j) implies out@
                .subrange(new_sh_offset(b@, j), new_sh_offset(b@, j) + sh_size(b@, j))
                == b@.subrange(sh_offset(b@, j), sh_offset(b@, j) + sh_size(b@, j)) by {
                lemma_kept_before_mono(b@, 0, j);
                lemma_kept_before_mono(b@, j + 1, k as int);
                assert(new_sh_offset(b@, j) >= 0);
                assert(new_sh_offset(b@, j) + sh_size(b@, j) <= data_off(b@) + kept_before(
                    b@,
                    k as int,
                ));
                assert(out@.subrange(new_sh_offset(b@, j), new_sh_offset(b@, j) + sh_size(b@, j))
                    =~= prev.subrange(new_sh_offset(b@, j), new_sh_offset(b@, j) + sh_size(
                    b@,
                    j,
                )));
            }
        }
        k = k + 1;
    }
}

/// Assembles the rewritten image.
#[verifier::rlimit(100)]
fn build_image(b: &Vec<u8>, g: &Geom, secs: &Vec<Sec>, flags: &Vec<bool>, l: &Layout) -> (out: Vec<
    u8,
>)
    requires
        geom_ok(b@, *g),
        wf_image(b@),
        secs.len() == shnum(b@),
        forall|k: int| 0 <= k < secs.len() ==> sec_ok(b@, #[trigger] secs@[k], k),
        flags.len() == shnum(b@),
        forall|k: int| 0 <= k < flags.len() ==> flags@[k] == demoted(b@, k),
        layout_ok(b@, *l),
    ensures
        split_post(b@, out@),
{
    let mut out = write_prefix(b, g, l);
    write_payloads(&mut out, b, g, secs, flags, l);
    let table = build_table(b, g, secs, flags, l);
    let ghost pre = out@;
    proof {
        assert(out@.len() == new_shoff(b@));
        assert(table.len() + out@.len() == out_len(b@));
        assert(out@.len() + table.len() <= usize::MAX) by {
            assert(out.len() == out@.len());
        }
    }
    append_range(&mut out, &table, 0, table.len());
    proof {
        let bb = b@;
        let v = out@;
        lemma_ph_table_nonneg(bb);
        lemma_kept_before_mono(bb, 0, shnum(bb));
        assert(ehsize(bb) <= data_off(bb) <= new_shoff(bb));
        assert(table@.subrange(0, table@.len() as int) =~= table@);
        assert(v.len() == out_len(bb));
        assert(v.subrange(new_shoff(bb), out_len(bb)) =~= table@);
        assert(forall|i: int| 0 <= i < pre.len() ==> #[trigger] v[i] == pre[i]);
        assert(pre.len() >= ehsize(bb));
        assert(forall|i: int|
            0 <= i < ehsize(bb) && !(phoff_pos(bb) <= i < phoff_pos(bb) + 2 * word(bb))
                ==> #[trigger] v[i] == bb[i]);
        assert(is_64(v) == is_64(bb) && is_le(v) == is_le(bb));
        assert(word_at_sel(v, phoff_pos(bb), is_64(bb), is_le(bb)) == ehsize(bb));
        assert(word_at_sel(v, phoff_pos(bb) + word(bb), is_64(bb), is_le(bb)) == new_shoff(bb));
        assert(phoff(v) == ehsize(bb));
        assert(shoff(v) == new_shoff(bb));
        assert(phnum(v) == phnum(bb) && shnum(v) == shnum(bb) && shstrndx(v) == shstrndx(bb));
        assert(v.subrange(ehsize(bb), data_off(bb)) =~= pre.subrange(ehsize(bb), data_off(bb)));
        assert forall|j: int| 0 <= j < shnum(bb) && #[trigger] payload_kept(bb, j) implies v
            .subrange(new_sh_offset(bb, j), new_sh_offset(bb, j) + sh_size(bb, j)) == bb.subrange(
            sh_offset(bb, j),
            sh_offset(bb, j) + sh_size(bb, j),
        ) by {
            lemma_kept_before_mono(bb, 0, j);
            lemma_kept_before_mono(bb, j + 1, shnum(bb));
            assert(new_sh_offset(bb, j) >= 0);
            assert(new_sh_offset(bb, j) + sh_size(bb, j) <= new_shoff(bb));
            assert(v.subrange(new_sh_offset(bb, j), new_sh_offset(bb, j) + sh_size(bb, j))
                =~= pre.subrange(new_sh_offset(bb, j), new_sh_offset(bb, j) + sh_size(bb, j)));
        }
        assert forall|j: int| 0 <= j < shnum(bb) implies #[trigger] sh_type(v, j) == out_type(
            bb,
            j,
        ) by {
            lemma_entry_readers(bb, v, table@, j);
        }
        assert forall|j: int| 0 <= j < shnum(bb) implies #[trigger] sh_name(v, j) == sh_name(
            bb,
            j,
        ) by {
            lemma_entry_readers(bb, v, table@, j);
        }
        assert forall|j: int| 0 <= j < shnum(bb) implies #[trigger] sh_size(v, j) == sh_size(
            bb,
            j,
        ) by {
            lemma_entry_readers(bb, v, table@, j);
        }
        assert forall|j: int| 0 <= j < shnum(bb) implies #[trigger] sh_offset(v, j) == (
        if payload_kept(bb, j) {
            new_sh_offset(bb, j)
        } else {
            sh_offset(bb, j)
        }) by {
            lemma_entry_readers(bb, v, table@, j);
        }
        assert forall|j: int, i: int|
            0 <= j < shnum(bb) && 0 <= i < shentsize(bb) && !(4 <= i < 8) && !(sh_off_pos(bb) <= i
                < sh_off_pos(bb) + word(bb)) implies #[trigger] v[out_entry_pos(bb, j, i)] == bb[
            sh_entry(bb, j) + i] by {
            lemma_entry_readers(bb, v, table@, j);
        }
    }
    out
}

/// Rewrites one fully linked executable image into a payload-stripped debug
/// companion.  The input bytes are never modified; on success the returned
/// bytes are the complete companion image, and [`split_post`] relates the two
/// byte-for-byte.  The transform succeeds exactly on the images that
/// [`wf_image`] admits; a rejected image is reported with the first failing
/// stage, per [`split_error`].
pub fn debug_split(input: &Vec<u8>) -> (r: Result<Vec<u8>, ElfError>)
    ensures
        r is Ok <==> wf_image(input@),
        r matches Ok(v) ==> split_post(input@, v@),
        r matches Err(e) ==> e == split_error(input@),
{
    let g = match check_header(input) {
        Ok(g) => g,
        Err(e) => {
            return Err(e);
        },
    };
    let secs = read_sections(input, &g);
    let flags = classify(input, &g, &secs);
    let l = match compute_layout(input, &g, &secs, &flags) {
        Ok(l) => l,
        Err(e) => {
            return Err(e);
        },
    };
    Ok(build_image(input, &g, &secs, &flags, &l))
}

} // verus!
