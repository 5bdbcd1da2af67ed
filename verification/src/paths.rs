//! Output path construction: one directory per module, one dated file per
//! module per calendar day. For a module name `n` with stem `s` and
//! extension `e` the image is persisted under
//! `output/modules/s/s_DD_MM_YYYY.e` — day and month zero-padded to two
//! digits, the year to four.

use vstd::prelude::*;

use crate::text::spec_last_index_of;

verus! {

/// The decimal digits of `v`, most significant first.
pub open spec fn spec_dec_digits(v: nat) -> Seq<u8>
    decreases v,
{
    if v < 10 {
        seq![(0x30 + v) as u8]
    } else {
        spec_dec_digits(v / 10) + seq![(0x30 + v % 10) as u8]
    }
}

/// `s` left-padded with ASCII zeroes to at least `w` bytes.
pub open spec fn spec_zero_pad(s: Seq<u8>, w: nat) -> Seq<u8> {
    if s.len() >= w {
        s
    } else {
        Seq::new((w - s.len()) as nat, |i: int| 0x30u8) + s
    }
}

/// `v` in decimal, zero-padded to at least `w` digits.
pub open spec fn spec_padded_dec(v: nat, w: nat) -> Seq<u8> {
    spec_zero_pad(spec_dec_digits(v), w)
}

/// The module name up to its last extension. A dot in first position starts
/// no extension.
pub open spec fn spec_stem(name: Seq<u8>) -> Seq<u8> {
    let ld = spec_last_index_of(name, 0x2e);
    if ld <= 0 {
        name
    } else {
        name.subrange(0, ld)
    }
}

/// The module name's last extension with its leading dot, or nothing where
/// the name has none.
pub open spec fn spec_ext(name: Seq<u8>) -> Seq<u8> {
    let ld = spec_last_index_of(name, 0x2e);
    if ld <= 0 {
        Seq::empty()
    } else {
        let e = name.subrange(ld + 1, name.len() as int);
        if e.len() == 0 {
            Seq::empty()
        } else {
            seq![0x2eu8] + e
        }
    }
}

/// The fixed root every dump lands under.
pub open spec fn spec_output_prefix() -> Seq<u8> {
    seq![
        0x6fu8,
        0x75,
        0x74,
        0x70,
        0x75,
        0x74,
        0x2f,
        0x6d,
        0x6f,
        0x64,
        0x75,
        0x6c,
        0x65,
        0x73,
        0x2f,
    ]
}

/// The directory a module's dumps land in.
pub open spec fn spec_dump_dir(name: Seq<u8>) -> Seq<u8> {
    spec_output_prefix() + spec_stem(name)
}

/// The dated file name of one dump.
pub open spec fn spec_dump_file_name(name: Seq<u8>, year: nat, month: nat, day: nat) -> Seq<u8> {
    spec_stem(name) + seq![0x5fu8] + spec_padded_dec(day, 2) + seq![0x5fu8] + spec_padded_dec(
        month,
        2,
    ) + seq![0x5fu8] + spec_padded_dec(year, 4) + spec_ext(name)
}

/// The full path of one dump.
pub open spec fn spec_dump_path(name: Seq<u8>, year: nat, month: nat, day: nat) -> Seq<u8> {
    spec_dump_dir(name) + seq![0x2fu8] + spec_dump_file_name(name, year, month, day)
}

/// The output path depends on the module name and the calendar date alone:
/// a second run for the same module on the same day computes the same path,
/// so the exclusive-create open underneath reports it as already dumped
/// rather than writing a second file.
pub proof fn lemma_dump_path_deterministic(
    n1: Seq<u8>,
    n2: Seq<u8>,
    year: nat,
    month: nat,
    day: nat,
)
    requires
        n1 == n2,
    ensures
        spec_dump_path(n1, year, month, day) == spec_dump_path(n2, year, month, day),
{
}

/// Appends every byte of `src` to `dst`.
pub fn append_bytes(dst: &mut Vec<u8>, src: &Vec<u8>)
    ensures
        final(dst)@ == old(dst)@ + src@,
{
    let mut i: usize = 0;
    while i < src.len()
        invariant
            i <= src.len(),
            dst@ == old(dst)@ + src@.subrange(0, i as int),
        decreases src.len() - i,
    {
        dst.push(src[i]);
        proof {
            assert(old(dst)@ + src@.subrange(0, i as int) + seq![src@[i as int]] =~= old(dst)@
                + src@.subrange(0, i + 1));
        }
        i = i + 1;
    }
    proof {
        assert(src@.subrange(0, src@.len() as int) =~= src@);
    }
}

/// The decimal digits of `v`.
pub fn dec_digits(v: u64) -> (r: Vec<u8>)
    ensures
        r@ == spec_dec_digits(v as nat),
    decreases v,
{
    if v < 10 {
        let mut r: Vec<u8> = Vec::new();
        r.push(0x30 + (v as u8));
        proof {
            assert(r@ =~= spec_dec_digits(v as nat));
        }
        r
    } else {
        let mut r = dec_digits(v / 10);
        r.push(0x30 + ((v % 10) as u8));
        proof {
            assert(r@ =~= spec_dec_digits(v as nat));
        }
        r
    }
}

/// `v` in decimal, zero-padded to at least `w` digits.
pub fn padded_dec(v: u64, w: usize) -> (r: Vec<u8>)
    ensures
        r@ == spec_padded_dec(v as nat, w as nat),
{
    let d = dec_digits(v);
    let mut r: Vec<u8> = Vec::new();
    let mut k: usize = d.len();
    while k < w
        invariant
            d.len() <= k <= vstd::math::max(w as int, d.len() as int),
            r@ =~= Seq::new((k - d.len()) as nat, |i: int| 0x30u8),
        decreases w - k,
    {
        r.push(0x30);
        proof {
            assert(r@ =~= Seq::new((k + 1 - d@.len()) as nat, |i: int| 0x30u8));
        }
        k = k + 1;
    }
    append_bytes(&mut r, &d);
    proof {
        assert(r@ =~= spec_padded_dec(v as nat, w as nat));
    }
    r
}

/// Computes the directory and the full file path one dump is persisted
/// under: the module's stem names the directory, and the file name carries
/// the stem, the zero-padded capture date, and the module's original
/// extension.
pub fn dump_paths(name: &Vec<u8>, year: u64, month: u64, day: u64) -> (r: (Vec<u8>, Vec<u8>))
    ensures
        r.0@ == spec_dump_dir(name@),
        r.1@ == spec_dump_path(name@, year as nat, month as nat, day as nat),
{
    let stem: Vec<u8>;
    let ext: Vec<u8>;
    match crate::text::find_last_byte(name, 0x2e) {
        Some(ld) => {
            proof {
                crate::text::lemma_last_index_found(name@, 0x2e, ld as int);
            }
            if ld == 0 {
                stem = crate::text::slice_range(name, 0, name.len());
                ext = Vec::new();
                proof {
                    assert(stem@ =~= spec_stem(name@));
                }
            } else {
                stem = crate::text::slice_range(name, 0, ld);
                let e = crate::text::slice_range(name, ld + 1, name.len());
                if e.len() == 0 {
                    ext = Vec::new();
                } else {
                    let mut dotted: Vec<u8> = Vec::new();
                    dotted.push(0x2e);
                    let mut dotted = dotted;
                    append_bytes(&mut dotted, &e);
                    proof {
                        assert(dotted@ =~= seq![0x2eu8] + e@);
                    }
                    ext = dotted;
                }
            }
        },
        None => {
            proof {
                crate::text::lemma_last_index_missing(name@, 0x2e);
            }
            stem = crate::text::slice_range(name, 0, name.len());
            ext = Vec::new();
            proof {
                assert(stem@ =~= spec_stem(name@));
            }
        },
    }
    let mut dir: Vec<u8> = Vec::new();
    dir.push(0x6f);
    dir.push(0x75);
    dir.push(0x74);
    dir.push(0x70);
    dir.push(0x75);
    dir.push(0x74);
    dir.push(0x2f);
    dir.push(0x6d);
    dir.push(0x6f);
    dir.push(0x64);
    dir.push(0x75);
    dir.push(0x6c);
    dir.push(0x65);
    dir.push(0x73);
    dir.push(0x2f);
    proof {
        assert(dir@ =~= spec_output_prefix());
    }
    append_bytes(&mut dir, &stem);
    let mut file: Vec<u8> = Vec::new();
    append_bytes(&mut file, &stem);
    file.push(0x5f);
    let dd = padded_dec(day, 2);
    append_bytes(&mut file, &dd);
    file.push(0x5f);
    let mm = padded_dec(month, 2);
    append_bytes(&mut file, &mm);
    file.push(0x5f);
    let yy = padded_dec(year, 4);
    append_bytes(&mut file, &yy);
    append_bytes(&mut file, &ext);
    proof {
        assert(file@ =~= spec_dump_file_name(name@, year as nat, month as nat, day as nat));
    }
    let mut path: Vec<u8> = Vec::new();
    append_bytes(&mut path, &dir);
    path.push(0x2f);
    append_bytes(&mut path, &file);
    proof {
        assert(path@ =~= spec_dump_path(name@, year as nat, month as nat, day as nat));
    }
    (dir, path)
}

} // verus!
