//! Module location on a mapping-table platform.
//!
//! The operating system exposes a process's memory layout as an ordered text
//! table: one line per region, holding an address range and, for file-backed
//! regions, the backing file's path. A single loaded module spans several
//! such regions, individually reported but contiguous in virtual address
//! space, so the locator collects every region whose normalized backing-file
//! name matches the normalized query, in table order, and treats the span
//! from the first match's start to the last match's end as the module.

use vstd::prelude::*;

use crate::error::Error;
use crate::process::ProcessModule;
use crate::text::{
    eq_bytes, find_byte, find_last_byte, lemma_first_index_found, lemma_first_index_missing,
    lower_seq, parse_hex, slice_range, spec_first_index_of, spec_hex_val, spec_last_index_of,
    spec_trim_start, to_lower, trim_start,
};

verus! {

/// One mapping-table region, as the locator sees it: an address range and
/// the normalized name of the backing file.
pub struct MapRegion {
    pub start: usize,
    pub end: usize,
    pub name: Vec<u8>,
}

/// The mathematical shadow of a region: unbounded addresses and the name as
/// a byte sequence.
pub ghost struct RegionModel {
    pub start: int,
    pub end: int,
    pub name: Seq<u8>,
}

/// The model of one parsed region.
pub open spec fn abs_region(r: MapRegion) -> RegionModel {
    RegionModel { start: r.start as int, end: r.end as int, name: r.name@ }
}

/// The models of a parsed region table, in table order.
pub open spec fn abs_regions(rs: Seq<MapRegion>) -> Seq<RegionModel> {
    rs.map_values(|r: MapRegion| abs_region(r))
}

/// The text before the first space, or the whole text without one.
pub open spec fn piece_of(s: Seq<u8>) -> Seq<u8> {
    let f = spec_first_index_of(s, 0x20);
    if f == -1 {
        s
    } else {
        s.subrange(0, f)
    }
}

/// The text after the first space, if there is one.
pub open spec fn space_rest(s: Seq<u8>) -> Option<Seq<u8>> {
    let f = spec_first_index_of(s, 0x20);
    if f == -1 {
        None
    } else {
        Some(s.subrange(f + 1, s.len() as int))
    }
}

/// The final path segment: everything after the last path separator.
pub open spec fn spec_last_segment(s: Seq<u8>) -> Seq<u8> {
    s.subrange(spec_last_index_of(s, 0x2f) + 1, s.len() as int)
}

/// A region's normalized backing-file name: the final path segment, folded
/// to lower case and truncated at its first dot. An empty segment disqualifies
/// the region.
pub open spec fn spec_region_name(path: Seq<u8>) -> Option<Seq<u8>> {
    let seg = spec_last_segment(path);
    if seg.len() == 0 {
        None
    } else {
        let low = lower_seq(seg);
        let fd = spec_first_index_of(low, 0x2e);
        if fd == -1 {
            Some(low)
        } else {
            Some(low.subrange(0, fd))
        }
    }
}

/// A query's normalized form: folded to lower case, with the last extension
/// stripped. A dot in first position starts no extension.
pub open spec fn spec_normalize_query(name: Seq<u8>) -> Seq<u8> {
    let low = lower_seq(name);
    let ld = spec_last_index_of(low, 0x2e);
    if ld <= 0 {
        low
    } else {
        low.subrange(0, ld)
    }
}

/// What one line of the mapping table contributes: a region when the line
/// carries six space-separated fields, its first field is a pair of
/// hexadecimal addresses joined by a dash, and its last field is a path with
/// a non-empty final segment; nothing otherwise.
pub open spec fn spec_parse_line(line: Seq<u8>) -> Option<RegionModel> {
    if space_rest(line) is None {
        None
    } else {
        let s1 = space_rest(line)->0;
        if space_rest(s1) is None {
            None
        } else {
            let s2 = space_rest(s1)->0;
            if space_rest(s2) is None {
                None
            } else {
                let s3 = space_rest(s2)->0;
                if space_rest(s3) is None {
                    None
                } else {
                    let s4 = space_rest(s3)->0;
                    if space_rest(s4) is None {
                        None
                    } else {
                        let s5 = space_rest(s4)->0;
                        let p0 = spec_trim_start(piece_of(line));
                        let path = spec_trim_start(s5);
                        let d = spec_first_index_of(p0, 0x2d);
                        if d == -1 {
                            None
                        } else {
                            let a = spec_hex_val(p0.subrange(0, d));
                            let b = spec_hex_val(p0.subrange(d + 1, p0.len() as int));
                            if spec_region_name(path) is None {
                                None
                            } else if a < 0 || b < 0 {
                                None
                            } else {
                                Some(
                                    RegionModel {
                                        start: a,
                                        end: b,
                                        name: spec_region_name(path)->0,
                                    },
                                )
                            }
                        }
                    }
                }
            }
        }
    }
}

/// The regions of a whole mapping table: its lines, split on newlines, each
/// contributing what `spec_parse_line` says, in table order.
pub open spec fn spec_regions(s: Seq<u8>) -> Seq<RegionModel>
    decreases s.len(),
{
    let f = spec_first_index_of(s, 0x0a);
    if 0 <= f < s.len() {
        spec_line_regions(s.subrange(0, f)) + spec_regions(s.subrange(f + 1, s.len() as int))
    } else {
        spec_line_regions(s)
    }
}

/// Zero or one region out of one line.
pub open spec fn spec_line_regions(line: Seq<u8>) -> Seq<RegionModel> {
    match spec_parse_line(line) {
        Some(r) => seq![r],
        None => Seq::empty(),
    }
}

/// `f` is the table-order first region whose name is `q`.
pub open spec fn is_first_match(rs: Seq<RegionModel>, q: Seq<u8>, f: int) -> bool {
    &&& 0 <= f < rs.len()
    &&& rs[f].name == q
    &&& forall|j: int| 0 <= j < f ==> rs[j].name != q
}

/// `l` is the table-order last region whose name is `q`.
pub open spec fn is_last_match(rs: Seq<RegionModel>, q: Seq<u8>, l: int) -> bool {
    &&& 0 <= l < rs.len()
    &&& rs[l].name == q
    &&& forall|j: int| l < j < rs.len() ==> rs[j].name != q
}

/// Table order decides the span. In a table of three regions where the
/// first and the third carry the queried name and the middle one does not,
/// the first region is the first match and the third is the last: together
/// with the locator's contract, the module's base is the first region's
/// start and its size runs to the third region's end.
pub proof fn lemma_three_region_span(rs: Seq<RegionModel>, q: Seq<u8>)
    requires
        rs.len() == 3,
        rs[0].name == q,
        rs[1].name != q,
        rs[2].name == q,
    ensures
        is_first_match(rs, q, 0),
        is_last_match(rs, q, 2),
{
}

/// A normalized copy of a query name.
pub fn normalize_query(name: &Vec<u8>) -> (r: Vec<u8>)
    ensures
        r@ == spec_normalize_query(name@),
{
    let low = to_lower(name);
    match find_last_byte(&low, 0x2e) {
        Some(ld) => {
            proof {
                crate::text::lemma_last_index_found(low@, 0x2e, ld as int);
            }
            if ld == 0 {
                low
            } else {
                slice_range(&low, 0, ld)
            }
        },
        None => {
            proof {
                crate::text::lemma_last_index_missing(low@, 0x2e);
            }
            low
        },
    }
}

/// Whether two module names agree once both are normalized as queries — the
/// comparison a snapshot-table platform applies to each inventory entry.
pub fn module_names_match(entry: &Vec<u8>, query: &Vec<u8>) -> (r: bool)
    ensures
        r <==> spec_normalize_query(entry@) == spec_normalize_query(query@),
{
    let a = normalize_query(entry);
    let b = normalize_query(query);
    eq_bytes(&a, &b)
}

/// The normalized backing-file name of a region's path, if any.
pub fn region_name_of_path(path: &Vec<u8>) -> (r: Option<Vec<u8>>)
    ensures
        r is Some <==> spec_region_name(path@) is Some,
        r is Some ==> r->0@ == spec_region_name(path@)->0,
{
    let seg_start: usize = match find_last_byte(path, 0x2f) {
        Some(sl) => {
            proof {
                crate::text::lemma_last_index_found(path@, 0x2f, sl as int);
            }
            sl + 1
        },
        None => {
            proof {
                crate::text::lemma_last_index_missing(path@, 0x2f);
            }
            0
        },
    };
    let seg = slice_range(path, seg_start, path.len());
    if seg.len() == 0 {
        return None;
    }
    let low = to_lower(&seg);
    match find_byte(&low, 0, 0x2e) {
        Some(fd) => {
            proof {
                lemma_first_index_found(low@, 0x2e, fd as int);
            }
            Some(slice_range(&low, 0, fd))
        },
        None => {
            proof {
                lemma_first_index_missing(low@, 0x2e);
            }
            Some(low)
        },
    }
}

/// Position just past the first space at or after `pos`, if any — the start
/// of the next space-separated field.
fn next_rest(line: &Vec<u8>, pos: usize) -> (r: Option<usize>)
    requires
        pos <= line.len(),
    ensures
        ({
            let suffix = line@.subrange(pos as int, line@.len() as int);
            &&& (r is Some <==> spec_first_index_of(suffix, 0x20) != -1)
            &&& (r is Some ==> r->0 == pos + spec_first_index_of(suffix, 0x20) + 1 && pos < r->0
                <= line.len())
        }),
{
    let ghost suffix = line@.subrange(pos as int, line@.len() as int);
    match find_byte(line, pos, 0x20) {
        Some(f) => {
            proof {
                lemma_first_index_found(suffix, 0x20, f - pos);
            }
            Some(f + 1)
        },
        None => {
            proof {
                lemma_first_index_missing(suffix, 0x20);
            }
            None
        },
    }
}

/// Parses one mapping-table line; returns exactly the region
/// `spec_parse_line` assigns to it, if any.
pub fn parse_region_line(line: &Vec<u8>) -> (r: Option<MapRegion>)
    ensures
        r is Some <==> spec_parse_line(line@) is Some,
        r is Some ==> abs_region(r->0) == spec_parse_line(line@)->0,
{
    proof {
        assert(line@.subrange(0, line@.len() as int) =~= line@);
    }
    let r1 = match next_rest(line, 0) {
        Some(p) => p,
        None => {
            return None;
        },
    };
    proof {
        assert(line@.subrange(r1 as int, line@.len() as int) =~= space_rest(line@)->0);
    }
    let r2 = match next_rest(line, r1) {
        Some(p) => p,
        None => {
            return None;
        },
    };
    proof {
        assert(line@.subrange(r2 as int, line@.len() as int) =~= space_rest(
            space_rest(line@)->0,
        )->0);
    }
    let r3 = match next_rest(line, r2) {
        Some(p) => p,
        None => {
            return None;
        },
    };
    proof {
        assert(line@.subrange(r3 as int, line@.len() as int) =~= space_rest(
            space_rest(space_rest(line@)->0)->0,
        )->0);
    }
    let r4 = match next_rest(line, r3) {
        Some(p) => p,
        None => {
            return None;
        },
    };
    proof {
        assert(line@.subrange(r4 as int, line@.len() as int) =~= space_rest(
            space_rest(space_rest(space_rest(line@)->0)->0)->0,
        )->0);
    }
    let r5 = match next_rest(line, r4) {
        Some(p) => p,
        None => {
            return None;
        },
    };
    proof {
        assert(line@.subrange(r5 as int, line@.len() as int) =~= space_rest(
            space_rest(space_rest(space_rest(space_rest(line@)->0)->0)->0)->0,
        )->0);
    }
    let p0raw = slice_range(line, 0, r1 - 1);
    proof {
        assert(p0raw@ =~= piece_of(line@));
    }
    let p0 = trim_start(&p0raw);
    let path_raw = slice_range(line, r5, line.len());
    let path = trim_start(&path_raw);
    let d = match find_byte(&p0, 0, 0x2d) {
        Some(d) => {
            proof {
                lemma_first_index_found(p0@, 0x2d, d as int);
            }
            d
        },
        None => {
            proof {
                lemma_first_index_missing(p0@, 0x2d);
            }
            return None;
        },
    };
    let astart = slice_range(&p0, 0, d);
    let aend = slice_range(&p0, d + 1, p0.len());
    let a = parse_hex(&astart);
    let b = parse_hex(&aend);
    let nm = region_name_of_path(&path);
    match (a, b, nm) {
        (Some(a), Some(b), Some(nm)) => Some(MapRegion { start: a, end: b, name: nm }),
        _ => None,
    }
}

/// Parses a whole mapping table into its regions, in table order: exactly
/// the regions `spec_regions` assigns to the text.
pub fn parse_maps(maps: &Vec<u8>) -> (r: Vec<MapRegion>)
    ensures
        abs_regions(r@) == spec_regions(maps@),
{
    let mut out: Vec<MapRegion> = Vec::new();
    let mut pos: usize = 0;
    proof {
        assert(abs_regions(out@) =~= Seq::<RegionModel>::empty());
        assert(maps@.subrange(0, maps@.len() as int) =~= maps@);
    }
    loop
        invariant
            pos <= maps.len(),
            abs_regions(out@) + spec_regions(maps@.subrange(pos as int, maps@.len() as int))
                =~= spec_regions(maps@),
        decreases maps.len() - pos,
    {
        let ghost rest = maps@.subrange(pos as int, maps@.len() as int);
        match find_byte(maps, pos, 0x0a) {
            Some(f) => {
                proof {
                    lemma_first_index_found(rest, 0x0a, f - pos);
                }
                let line = slice_range(maps, pos, f);
                proof {
                    assert(line@ =~= rest.subrange(0, f - pos));
                    assert(maps@.subrange(f + 1, maps@.len() as int) =~= rest.subrange(
                        f - pos + 1,
                        rest.len() as int,
                    ));
                }
                if let Some(r) = parse_region_line(&line) {
                    let ghost prev = out@;
                    out.push(r);
                    proof {
                        assert(abs_regions(out@) =~= abs_regions(prev) + spec_line_regions(
                            line@,
                        ));
                    }
                } else {
                    proof {
                        assert(abs_regions(out@) + spec_line_regions(line@) =~= abs_regions(
                            out@,
                        ));
                    }
                }
                pos = f + 1;
            },
            None => {
                proof {
                    lemma_first_index_missing(rest, 0x0a);
                }
                let line = slice_range(maps, pos, maps.len());
                proof {
                    assert(line@ =~= rest);
                }
                if let Some(r) = parse_region_line(&line) {
                    let ghost prev = out@;
                    out.push(r);
                    proof {
                        assert(abs_regions(out@) =~= abs_regions(prev) + spec_line_regions(
                            line@,
                        ));
                    }
                } else {
                    proof {
                        assert(abs_regions(out@) + spec_line_regions(line@) =~= abs_regions(
                            out@,
                        ));
                    }
                }
                return out;
            },
        }
    }
}

/// The module span a region table assigns to a query: base is the start of
/// the table-order first matching region, size spans to the end of the
/// table-order last matching region. No match is `NotFound`; a last end
/// before the first start is a malformed table, `InvalidImage`.
pub fn find_module_span(regions: &Vec<MapRegion>, query: &Vec<u8>) -> (r: Result<
    ProcessModule,
    Error,
>)
    ensures
        (r == Err::<ProcessModule, Error>(Error::NotFound)) <==> (forall|i: int|
            0 <= i < regions@.len() ==> abs_regions(regions@)[i].name != spec_normalize_query(
                query@,
            )),
        forall|f: int, l: int|
            #[trigger] is_first_match(abs_regions(regions@), spec_normalize_query(query@), f)
                && #[trigger] is_last_match(
                abs_regions(regions@),
                spec_normalize_query(query@),
                l,
            ) ==> if abs_regions(regions@)[l].end >= abs_regions(regions@)[f].start {
                r == Ok::<ProcessModule, Error>(
                    ProcessModule {
                        module_base: regions@[f].start,
                        module_size: (regions@[l].end - regions@[f].start) as usize,
                    },
                )
            } else {
                r == Err::<ProcessModule, Error>(Error::InvalidImage)
            },
{
    let q = normalize_query(query);
    let ghost models = abs_regions(regions@);
    let mut first: usize = 0;
    let mut last: usize = 0;
    let mut found = false;
    let mut i: usize = 0;
    while i < regions.len()
        invariant
            i <= regions.len(),
            models == abs_regions(regions@),
            models.len() == regions@.len(),
            q@ == spec_normalize_query(query@),
            !found ==> forall|j: int| 0 <= j < i ==> models[j].name != q@,
            found ==> {
                &&& first <= last < i
                &&& models[first as int].name == q@
                &&& models[last as int].name == q@
                &&& forall|j: int| 0 <= j < first ==> models[j].name != q@
                &&& forall|j: int| last < j < i ==> models[j].name != q@
            },
        decreases regions.len() - i,
    {
        if eq_bytes(&regions[i].name, &q) {
            if !found {
                first = i;
                found = true;
            }
            last = i;
        }
        i = i + 1;
    }
    if !found {
        return Err(Error::NotFound);
    }
    let base = regions[first].start;
    let end = regions[last].end;
    proof {
        assert forall|f: int, l: int|
            #[trigger] is_first_match(models, q@, f) && #[trigger] is_last_match(
                models,
                q@,
                l,
            ) implies f == first && l == last by {
            if f < first {
                assert(models[f].name != q@);
            }
            if f > first {
                assert(models[first as int].name != q@);
            }
            if l < last {
                assert(models[last as int].name != q@);
            }
            if l > last {
                assert(models[l].name != q@);
            }
        }
        assert(is_first_match(models, q@, first as int));
        assert(is_last_match(models, q@, last as int));
    }
    if end >= base {
        Ok(ProcessModule { module_base: base, module_size: end - base })
    } else {
        Err(Error::InvalidImage)
    }
}

/// Locates a module inside a mapping table given as raw text: parses the
/// table and takes the span of the regions matching the normalized name.
pub fn locate_in_maps(maps: &Vec<u8>, name: &Vec<u8>) -> (r: Result<ProcessModule, Error>)
    ensures
        (r == Err::<ProcessModule, Error>(Error::NotFound)) <==> (forall|i: int|
            0 <= i < spec_regions(maps@).len() ==> spec_regions(maps@)[i].name
                != spec_normalize_query(name@)),
        forall|f: int, l: int|
            #[trigger] is_first_match(spec_regions(maps@), spec_normalize_query(name@), f)
                && #[trigger] is_last_match(
                spec_regions(maps@),
                spec_normalize_query(name@),
                l,
            ) ==> if spec_regions(maps@)[l].end >= spec_regions(maps@)[f].start {
                r is Ok && r->Ok_0.module_base == spec_regions(maps@)[f].start
                    && r->Ok_0.module_size == spec_regions(maps@)[l].end - spec_regions(
                    maps@,
                )[f].start
            } else {
                r == Err::<ProcessModule, Error>(Error::InvalidImage)
            },
{
    let regions = parse_maps(maps);
    find_module_span(&regions, name)
}

} // verus!
