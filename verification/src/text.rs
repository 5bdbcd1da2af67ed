//! Byte-string primitives: searching, slicing, case folding, trimming and
//! integer parsing. Names and mapping-table text travel through the crate as
//! byte strings, exactly as the operating system reports them; these are the
//! verified building blocks the locator and the path builder share.

use vstd::prelude::*;

verus! {

/// Index of the first occurrence of `b` in `s`, or -1 if there is none.
pub open spec fn spec_first_index_of(s: Seq<u8>, b: u8) -> int
    decreases s.len(),
{
    if s.len() == 0 {
        -1
    } else if s[0] == b {
        0
    } else {
        let r = spec_first_index_of(s.subrange(1, s.len() as int), b);
        if r == -1 {
            -1
        } else {
            r + 1
        }
    }
}

/// Index of the last occurrence of `b` in `s`, or -1 if there is none.
pub open spec fn spec_last_index_of(s: Seq<u8>, b: u8) -> int
    decreases s.len(),
{
    if s.len() == 0 {
        -1
    } else if s[s.len() - 1] == b {
        s.len() - 1
    } else {
        spec_last_index_of(s.drop_last(), b)
    }
}

pub proof fn lemma_first_index_found(s: Seq<u8>, b: u8, t: int)
    requires
        0 <= t < s.len(),
        s[t] == b,
        forall|j: int| 0 <= j < t ==> s[j] != b,
    ensures
        spec_first_index_of(s, b) == t,
    decreases t,
{
    if t > 0 {
        lemma_first_index_found(s.subrange(1, s.len() as int), b, t - 1);
    }
}

pub proof fn lemma_first_index_missing(s: Seq<u8>, b: u8)
    requires
        forall|j: int| 0 <= j < s.len() ==> s[j] != b,
    ensures
        spec_first_index_of(s, b) == -1,
    decreases s.len(),
{
    if s.len() > 0 {
        lemma_first_index_missing(s.subrange(1, s.len() as int), b);
    }
}

pub proof fn lemma_last_index_found(s: Seq<u8>, b: u8, t: int)
    requires
        0 <= t < s.len(),
        s[t] == b,
        forall|j: int| t < j < s.len() ==> s[j] != b,
    ensures
        spec_last_index_of(s, b) == t,
    decreases s.len(),
{
    if t < s.len() - 1 {
        lemma_last_index_found(s.drop_last(), b, t);
    }
}

pub proof fn lemma_last_index_missing(s: Seq<u8>, b: u8)
    requires
        forall|j: int| 0 <= j < s.len() ==> s[j] != b,
    ensures
        spec_last_index_of(s, b) == -1,
    decreases s.len(),
{
    if s.len() > 0 {
        lemma_last_index_missing(s.drop_last(), b);
    }
}

/// First index at or after `from` holding `b`, with nothing before it.
pub fn find_byte(v: &Vec<u8>, from: usize, b: u8) -> (r: Option<usize>)
    requires
        from <= v.len(),
    ensures
        r is Some ==> {
            &&& from <= r->0 < v.len()
            &&& v@[r->0 as int] == b
            &&& forall|j: int| from <= j < r->0 ==> v@[j] != b
        },
        r is None ==> forall|j: int| from <= j < v.len() ==> v@[j] != b,
{
    let mut i: usize = from;
    while i < v.len()
        invariant
            from <= i <= v.len(),
            forall|j: int| from <= j < i ==> v@[j] != b,
        decreases v.len() - i,
    {
        if v[i] == b {
            return Some(i);
        }
        i = i + 1;
    }
    None
}

/// Last index holding `b`, with nothing after it.
pub fn find_last_byte(v: &Vec<u8>, b: u8) -> (r: Option<usize>)
    ensures
        r is Some ==> {
            &&& r->0 < v.len()
            &&& v@[r->0 as int] == b
            &&& forall|j: int| r->0 < j < v.len() ==> v@[j] != b
        },
        r is None ==> forall|j: int| 0 <= j < v.len() ==> v@[j] != b,
{
    let mut i: usize = v.len();
    while i > 0
        invariant
            i <= v.len(),
            forall|j: int| i <= j < v.len() ==> v@[j] != b,
        decreases i,
    {
        i = i - 1;
        if v[i] == b {
            return Some(i);
        }
    }
    None
}

/// A copy of the bytes in `[a, b)`.
pub fn slice_range(v: &Vec<u8>, a: usize, b: usize) -> (r: Vec<u8>)
    requires
        a <= b <= v.len(),
    ensures
        r@ == v@.subrange(a as int, b as int),
{
    let mut r: Vec<u8> = Vec::new();
    let mut i: usize = a;
    while i < b
        invariant
            a <= i <= b <= v.len(),
            r@.len() == i - a,
            forall|j: int| 0 <= j < r@.len() ==> r@[j] == v@[a + j],
        decreases b - i,
    {
        r.push(v[i]);
        i = i + 1;
    }
    proof {
        assert(r@ =~= v@.subrange(a as int, b as int));
    }
    r
}

/// Whether two byte strings hold the same bytes.
pub fn eq_bytes(a: &Vec<u8>, b: &Vec<u8>) -> (r: bool)
    ensures
        r <==> a@ == b@,
{
    if a.len() != b.len() {
        proof {
            assert(a@ != b@);
        }
        return false;
    }
    let mut i: usize = 0;
    while i < a.len()
        invariant
            i <= a.len(),
            a@.len() == b@.len(),
            forall|j: int| 0 <= j < i ==> a@[j] == b@[j],
        decreases a.len() - i,
    {
        if a[i] != b[i] {
            proof {
                assert(a@ != b@);
            }
            return false;
        }
        i = i + 1;
    }
    proof {
        assert(a@ =~= b@);
    }
    true
}

/// An upper-case ASCII letter folded to lower case; any other byte unchanged.
pub open spec fn lower_byte(b: u8) -> u8 {
    if 0x41 <= b <= 0x5a {
        (b + 0x20) as u8
    } else {
        b
    }
}

/// The byte string with every ASCII letter folded to lower case.
pub open spec fn lower_seq(s: Seq<u8>) -> Seq<u8> {
    Seq::new(s.len(), |i: int| lower_byte(s[i]))
}

/// A lower-case copy of `v`.
pub fn to_lower(v: &Vec<u8>) -> (r: Vec<u8>)
    ensures
        r@ == lower_seq(v@),
{
    let mut r: Vec<u8> = Vec::new();
    let mut i: usize = 0;
    while i < v.len()
        invariant
            i <= v.len(),
            r@.len() == i,
            forall|j: int| 0 <= j < i ==> r@[j] == lower_byte(v@[j]),
        decreases v.len() - i,
    {
        let b = v[i];
        if 0x41 <= b && b <= 0x5a {
            r.push(b + 0x20);
        } else {
            r.push(b);
        }
        i = i + 1;
    }
    proof {
        assert(r@ =~= lower_seq(v@));
    }
    r
}

/// The byte string with its leading spaces removed.
pub open spec fn spec_trim_start(s: Seq<u8>) -> Seq<u8>
    decreases s.len(),
{
    if s.len() > 0 && s[0] == 0x20 {
        spec_trim_start(s.subrange(1, s.len() as int))
    } else {
        s
    }
}

proof fn lemma_trim_start_at(s: Seq<u8>, i: int)
    requires
        0 <= i <= s.len(),
        forall|j: int| 0 <= j < i ==> s[j] == 0x20,
        i == s.len() || s[i] != 0x20,
    ensures
        spec_trim_start(s) == s.subrange(i, s.len() as int),
    decreases i,
{
    if i == 0 {
        assert(s =~= s.subrange(0, s.len() as int));
    } else {
        let tail = s.subrange(1, s.len() as int);
        lemma_trim_start_at(tail, i - 1);
        assert(tail.subrange(i - 1, tail.len() as int) =~= s.subrange(i, s.len() as int));
    }
}

/// A copy of `v` with its leading spaces removed.
pub fn trim_start(v: &Vec<u8>) -> (r: Vec<u8>)
    ensures
        r@ == spec_trim_start(v@),
{
    let mut i: usize = 0;
    while i < v.len() && v[i] == 0x20
        invariant
            i <= v.len(),
            forall|j: int| 0 <= j < i ==> v@[j] == 0x20,
        decreases v.len() - i,
    {
        i = i + 1;
    }
    proof {
        lemma_trim_start_at(v@, i as int);
    }
    slice_range(v, i, v.len())
}

/// The value of a hexadecimal digit, or -1 for any other byte.
pub open spec fn spec_hex_digit(b: u8) -> int {
    if 0x30 <= b <= 0x39 {
        b - 0x30
    } else if 0x61 <= b <= 0x66 {
        b - 0x57
    } else if 0x41 <= b <= 0x46 {
        b - 0x37
    } else {
        -1
    }
}

/// Folds hexadecimal digits over an accumulator; -1 on a bad digit or once
/// the value no longer fits a machine word.
pub open spec fn spec_hex_fold(s: Seq<u8>, acc: int) -> int
    decreases s.len(),
{
    if s.len() == 0 {
        acc
    } else {
        let d = spec_hex_digit(s[0]);
        if d < 0 {
            -1
        } else if acc * 16 + d > usize::MAX {
            -1
        } else {
            spec_hex_fold(s.subrange(1, s.len() as int), acc * 16 + d)
        }
    }
}

/// The value of a non-empty string of hexadecimal digits that fits a machine
/// word, or -1.
pub open spec fn spec_hex_val(s: Seq<u8>) -> int {
    if s.len() == 0 {
        -1
    } else {
        spec_hex_fold(s, 0)
    }
}

/// Parses `v` as a hexadecimal machine word; `None` exactly when `v` is
/// empty, holds a byte that is no hexadecimal digit, or overflows.
pub fn parse_hex(v: &Vec<u8>) -> (r: Option<usize>)
    ensures
        r is Some <==> spec_hex_val(v@) >= 0,
        r is Some ==> r->0 == spec_hex_val(v@),
{
    if v.len() == 0 {
        return None;
    }
    let mut acc: usize = 0;
    let mut i: usize = 0;
    proof {
        assert(v@.subrange(0, v@.len() as int) =~= v@);
    }
    while i < v.len()
        invariant
            i <= v.len(),
            spec_hex_fold(v@, 0) == spec_hex_fold(v@.subrange(i as int, v@.len() as int), acc as int),
        decreases v.len() - i,
    {
        let b = v[i];
        let d: usize = if 0x30 <= b && b <= 0x39 {
            (b - 0x30) as usize
        } else if 0x61 <= b && b <= 0x66 {
            (b - 0x57) as usize
        } else if 0x41 <= b && b <= 0x46 {
            (b - 0x37) as usize
        } else {
            proof {
                assert(spec_hex_fold(v@.subrange(i as int, v@.len() as int), acc as int) == -1);
            }
            return None;
        };
        proof {
            assert(d == spec_hex_digit(v@[i as int]));
        }
        let wide: u128 = (acc as u128) * 16 + (d as u128);
        if wide > usize::MAX as u128 {
            proof {
                assert(spec_hex_fold(v@.subrange(i as int, v@.len() as int), acc as int) == -1);
            }
            return None;
        }
        let next: usize = acc * 16 + d;
        proof {
            let rest = v@.subrange(i as int, v@.len() as int);
            assert(rest.subrange(1, rest.len() as int) =~= v@.subrange(
                i + 1,
                v@.len() as int,
            ));
            assert(spec_hex_fold(rest, acc as int) == spec_hex_fold(
                v@.subrange(i + 1, v@.len() as int),
                acc as int * 16 + d,
            ));
        }
        acc = next;
        i = i + 1;
    }
    proof {
        assert(v@.subrange(v@.len() as int, v@.len() as int).len() == 0);
        assert(spec_hex_val(v@) == acc as int);
    }
    Some(acc)
}

/// The value of a decimal digit, or -1 for any other byte.
pub open spec fn spec_dec_digit(b: u8) -> int {
    if 0x30 <= b <= 0x39 {
        b - 0x30
    } else {
        -1
    }
}

/// Folds decimal digits over an accumulator; -1 on a bad digit or once the
/// value no longer fits 32 bits.
pub open spec fn spec_dec_fold(s: Seq<u8>, acc: int) -> int
    decreases s.len(),
{
    if s.len() == 0 {
        acc
    } else {
        let d = spec_dec_digit(s[0]);
        if d < 0 {
            -1
        } else if acc * 10 + d > u32::MAX {
            -1
        } else {
            spec_dec_fold(s.subrange(1, s.len() as int), acc * 10 + d)
        }
    }
}

/// The value of a non-empty string of decimal digits that fits 32 bits, or
/// -1.
pub open spec fn spec_dec_val(s: Seq<u8>) -> int {
    if s.len() == 0 {
        -1
    } else {
        spec_dec_fold(s, 0)
    }
}

/// Parses `v` as a decimal 32-bit number; `None` exactly when `v` is empty,
/// holds a byte that is no decimal digit, or overflows.
pub fn parse_dec_u32(v: &Vec<u8>) -> (r: Option<u32>)
    ensures
        r is Some <==> spec_dec_val(v@) >= 0,
        r is Some ==> r->0 == spec_dec_val(v@),
{
    if v.len() == 0 {
        return None;
    }
    let mut acc: u32 = 0;
    let mut i: usize = 0;
    proof {
        assert(v@.subrange(0, v@.len() as int) =~= v@);
    }
    while i < v.len()
        invariant
            i <= v.len(),
            spec_dec_fold(v@, 0) == spec_dec_fold(v@.subrange(i as int, v@.len() as int), acc as int),
        decreases v.len() - i,
    {
        let b = v[i];
        if !(0x30 <= b && b <= 0x39) {
            proof {
                assert(spec_dec_fold(v@.subrange(i as int, v@.len() as int), acc as int) == -1);
            }
            return None;
        }
        let d: u32 = (b - 0x30) as u32;
        let wide: u64 = (acc as u64) * 10 + (d as u64);
        if wide > u32::MAX as u64 {
            proof {
                assert(spec_dec_fold(v@.subrange(i as int, v@.len() as int), acc as int) == -1);
            }
            return None;
        }
        let next: u32 = acc * 10 + d;
        proof {
            let rest = v@.subrange(i as int, v@.len() as int);
            assert(rest.subrange(1, rest.len() as int) =~= v@.subrange(
                i + 1,
                v@.len() as int,
            ));
            assert(spec_dec_fold(rest, acc as int) == spec_dec_fold(
                v@.subrange(i + 1, v@.len() as int),
                acc as int * 10 + d,
            ));
        }
        acc = next;
        i = i + 1;
    }
    proof {
        assert(v@.subrange(v@.len() as int, v@.len() as int).len() == 0);
        assert(spec_dec_val(v@) == acc as int);
    }
    Some(acc)
}

} // verus!
