//! Path arithmetic over byte strings.
//!
//! The pipelines name their outputs next to the compiled image, so they need
//! a little path algebra: the directory part of a path, joining a name onto a
//! directory, and swapping the extension of the final component.  Paths are
//! byte strings with `/` as separator; the functions here define the exact
//! semantics the pipelines rely on.

use vstd::prelude::*;

verus! {

/// The last index below `i` where `c` occurs in `p`, or -1.
pub open spec fn last_pos(p: Seq<u8>, c: u8, i: int) -> int
    decreases i,
{
    if i <= 0 {
        -1
    } else if p[i - 1] == c {
        i - 1
    } else {
        last_pos(p, c, i - 1)
    }
}

/// `last_pos` stays below its bound and at or above -1.
pub proof fn lemma_last_pos_range(p: Seq<u8>, c: u8, i: int)
    requires
        i >= 0,
    ensures
        -1 <= last_pos(p, c, i) < i || (i == 0 && last_pos(p, c, i) == -1),
        last_pos(p, c, i) < i || i == 0,
        -1 <= last_pos(p, c, i),
    decreases i,
{
    if i > 0 {
        lemma_last_pos_range(p, c, i - 1);
    }
}

/// The directory part: everything before the last separator, empty when the
/// path has no separator.
pub open spec fn parent_of(p: Seq<u8>) -> Seq<u8> {
    let s = last_pos(p, 0x2f, p.len() as int);
    if s < 0 {
        Seq::empty()
    } else {
        p.subrange(0, s)
    }
}

/// `dir` with `name` appended as one more component.  An empty `dir` stands
/// for the current directory and contributes no separator.
pub open spec fn joined(dir: Seq<u8>, name: Seq<u8>) -> Seq<u8> {
    if dir.len() == 0 {
        name
    } else {
        dir + seq![0x2fu8] + name
    }
}

/// The final component of `p`.
pub open spec fn file_name_of(p: Seq<u8>) -> Seq<u8> {
    p.subrange(last_pos(p, 0x2f, p.len() as int) + 1, p.len() as int)
}

/// A component that names no file: empty, the current or the parent
/// directory.
pub open spec fn no_file_name(n: Seq<u8>) -> bool {
    n.len() == 0 || n == seq![0x2eu8] || n == seq![0x2eu8, 0x2eu8]
}

/// `p` with the extension of its final component replaced by `e`: what
/// follows the last dot goes, unless that dot starts the component; `.` and
/// `e` are appended either way.  `None` when the path has no final component
/// to rename.
pub open spec fn with_extension(p: Seq<u8>, e: Seq<u8>) -> Option<Seq<u8>> {
    let n0 = last_pos(p, 0x2f, p.len() as int) + 1;
    if no_file_name(file_name_of(p)) {
        None
    } else {
        let d = last_pos(p, 0x2e, p.len() as int);
        let stem_end = if d > n0 { d } else { p.len() as int };
        Some(p.subrange(0, stem_end) + seq![0x2eu8] + e)
    }
}

/// Finds the last occurrence of `c` in `p`.
pub fn rfind_byte(p: &Vec<u8>, c: u8) -> (r: Option<usize>)
    ensures
        r matches Some(j) ==> j == last_pos(p@, c, p@.len() as int) && j < p@.len(),
        r is None <==> last_pos(p@, c, p@.len() as int) == -1,
{
    let mut i: usize = p.len();
    while i > 0
        invariant
            i <= p.len(),
            last_pos(p@, c, p@.len() as int) == last_pos(p@, c, i as int),
        decreases i,
    {
        if p[i - 1] == c {
            return Some(i - 1);
        }
        i = i - 1;
    }
    None
}

/// Copies a byte string.
pub fn copy_bytes(p: &Vec<u8>) -> (r: Vec<u8>)
    ensures
        r@ == p@,
{
    let mut r: Vec<u8> = Vec::new();
    crate::bytes::append_range(&mut r, p, 0, p.len());
    proof {
        assert(r@ =~= p@);
    }
    r
}

/// The directory part of `p`; empty when `p` is a bare name.
pub fn parent_dir(p: &Vec<u8>) -> (r: Vec<u8>)
    ensures
        r@ == parent_of(p@),
{
    match rfind_byte(p, 0x2f) {
        Some(s) => {
            let mut r: Vec<u8> = Vec::new();
            crate::bytes::append_range(&mut r, p, 0, s);
            proof {
                assert(r@ =~= p@.subrange(0, last_pos(p@, 0x2f, p@.len() as int)));
            }
            r
        },
        None => Vec::new(),
    }
}

/// Joins `name` onto `dir`.
pub fn join(dir: &Vec<u8>, name: &Vec<u8>) -> (r: Vec<u8>)
    requires
        dir@.len() + 1 + name@.len() <= usize::MAX,
    ensures
        r@ == joined(dir@, name@),
{
    if dir.len() == 0 {
        return copy_bytes(name);
    }
    let mut r = copy_bytes(dir);
    r.push(0x2f);
    crate::bytes::append_range(&mut r, name, 0, name.len());
    proof {
        assert(r@ =~= dir@ + seq![0x2fu8] + name@);
    }
    r
}

/// Replaces the extension of `p`'s final component with `e`.
pub fn set_extension(p: &Vec<u8>, e: &Vec<u8>) -> (r: Option<Vec<u8>>)
    requires
        p@.len() + 1 + e@.len() <= usize::MAX,
    ensures
        r matches Some(q) ==> with_extension(p@, e@) == Some(q@),
        r is None <==> with_extension(p@, e@) is None,
{
    let n0: usize = match rfind_byte(p, 0x2f) {
        Some(s) => s + 1,
        None => 0,
    };
    proof {
        assert(n0 == last_pos(p@, 0x2f, p@.len() as int) + 1);
        assert(file_name_of(p@) == p@.subrange(n0 as int, p@.len() as int));
    }
    let nlen = p.len() - n0;
    let dot1 = nlen == 1 && p[n0] == 0x2e;
    let dot2 = nlen == 2 && p[n0] == 0x2e && p[n0 + 1] == 0x2e;
    proof {
        let n = p@.subrange(n0 as int, p@.len() as int);
        if dot1 {
            assert(n =~= seq![0x2eu8]);
        }
        if n == seq![0x2eu8] {
            assert(n[0] == 0x2eu8 && n.len() == 1);
        }
        if dot2 {
            assert(n =~= seq![0x2eu8, 0x2eu8]);
        }
        if n == seq![0x2eu8, 0x2eu8] {
            assert(n[0] == 0x2eu8 && n[1] == 0x2eu8 && n.len() == 2);
        }
    }
    if nlen == 0 || dot1 || dot2 {
        return None;
    }
    let stem_end: usize = match rfind_byte(p, 0x2e) {
        Some(d) if d > n0 => d,
        _ => p.len(),
    };
    proof {
        let d = last_pos(p@, 0x2e, p@.len() as int);
        assert(stem_end == (if d > n0 { d } else { p@.len() as int }));
    }
    let mut r: Vec<u8> = Vec::new();
    crate::bytes::append_range(&mut r, p, 0, stem_end);
    r.push(0x2e);
    crate::bytes::append_range(&mut r, e, 0, e.len());
    proof {
        let d = last_pos(p@, 0x2e, p@.len() as int);
        let se: int = if d > n0 { d } else { p@.len() as int };
        assert(r@ =~= p@.subrange(0, se) + seq![0x2eu8] + e@);
    }
    Some(r)
}

} // verus!
