use memdump::error::Error;
use memdump::locate::{
    find_module_span, locate_in_maps, module_names_match, normalize_query, parse_maps,
    parse_region_line,
};
use memdump::process::{cmdline_path, path_matches_name, ProcessModule};
use memdump::text::{parse_dec_u32, parse_hex, to_lower, trim_start};

fn bytes(s: &str) -> Vec<u8> {
    s.as_bytes().to_vec()
}

#[test]
fn three_regions_span_first_to_last_match() {
    // table order decides: base is the first match's start, the size spans
    // to the last match's end
    let maps = bytes(
        "1000-2000 r-xp 00000000 08:01 111    /usr/lib/x.so\n\
         3000-4000 r--p 00000000 08:01 112    /usr/lib/y.so\n\
         5000-6000 rw-p 00000000 08:01 111    /usr/lib/x.so\n",
    );
    let r = locate_in_maps(&maps, &bytes("x.so"));
    assert_eq!(r, Ok(ProcessModule { module_base: 0x1000, module_size: 0x5000 }));
    let r = locate_in_maps(&maps, &bytes("y.so"));
    assert_eq!(r, Ok(ProcessModule { module_base: 0x3000, module_size: 0x1000 }));
    assert_eq!(locate_in_maps(&maps, &bytes("z.so")), Err(Error::NotFound));
}

#[test]
fn matching_is_case_insensitive_and_extension_blind() {
    let maps = bytes("7f00-8f00 r-xp 00000000 08:01 1    /lib/LIBC.SO.6\n");
    // the region name is folded and truncated at its first dot; the query
    // loses its last extension
    assert!(locate_in_maps(&maps, &bytes("libc.so")).is_ok());
    assert!(locate_in_maps(&maps, &bytes("LIBC.dll")).is_ok());
    assert_eq!(locate_in_maps(&maps, &bytes("libc.so.6")), Err(Error::NotFound));
}

#[test]
fn short_and_malformed_lines_contribute_nothing() {
    let maps = bytes(
        "1000-2000 rw-p 00000000 00:00 0\n\
         not an address x y    /lib/a.so\n\
         zz00-4000 r--p 00000000 08:01 2    /lib/a.so\n\
         5000-6000 r--p 00000000 08:01 2    /lib/\n\
         7000-8000 r-xp 00000000 08:01 3    /lib/a.so\n",
    );
    let rs = parse_maps(&maps);
    assert_eq!(rs.len(), 1);
    assert_eq!(rs[0].start, 0x7000);
    assert_eq!(rs[0].end, 0x8000);
    assert_eq!(rs[0].name, bytes("a"));
}

#[test]
fn a_backing_path_may_hold_spaces() {
    let line = bytes("1000-2000 r-xp 00000000 08:01 42    /opt/some dir/My Lib.SO");
    let r = parse_region_line(&line).unwrap();
    assert_eq!(r.start, 0x1000);
    assert_eq!(r.end, 0x2000);
    assert_eq!(r.name, bytes("my lib"));
}

#[test]
fn a_span_running_backwards_is_refused() {
    let maps = bytes(
        "5000-6000 r-xp 00000000 08:01 1    /lib/x.so\n\
         1000-2000 rw-p 00000000 08:01 1    /lib/x.so\n",
    );
    assert_eq!(locate_in_maps(&maps, &bytes("x.so")), Err(Error::InvalidImage));
}

#[test]
fn find_module_span_reports_not_found_on_an_empty_table() {
    let rs = parse_maps(&bytes(""));
    assert_eq!(rs.len(), 0);
    assert_eq!(find_module_span(&rs, &bytes("x.so")), Err(Error::NotFound));
}

#[test]
fn query_normalization_folds_case_and_strips_the_last_extension() {
    assert_eq!(normalize_query(&bytes("LibFoo.SO")), bytes("libfoo"));
    assert_eq!(normalize_query(&bytes("cs2")), bytes("cs2"));
    assert_eq!(normalize_query(&bytes("libc.so.6")), bytes("libc.so"));
    assert_eq!(normalize_query(&bytes(".hidden")), bytes(".hidden"));
    assert!(module_names_match(&bytes("CLIENT.DLL"), &bytes("client.dll")));
    assert!(module_names_match(&bytes("client.so"), &bytes("client.dll")));
    assert!(!module_names_match(&bytes("client2.dll"), &bytes("client.dll")));
}

#[test]
fn hex_and_decimal_parsing_match_the_table_grammar() {
    assert_eq!(parse_hex(&bytes("1f")), Some(0x1f));
    assert_eq!(parse_hex(&bytes("0")), Some(0));
    assert_eq!(parse_hex(&bytes("DEAD")), Some(0xdead));
    assert_eq!(parse_hex(&bytes("")), None);
    assert_eq!(parse_hex(&bytes("12g4")), None);
    assert_eq!(parse_hex(&bytes("1ffffffffffffffff")), None);
    assert_eq!(parse_dec_u32(&bytes("1234")), Some(1234));
    assert_eq!(parse_dec_u32(&bytes("")), None);
    assert_eq!(parse_dec_u32(&bytes("12a")), None);
    assert_eq!(parse_dec_u32(&bytes("4294967295")), Some(u32::MAX));
    assert_eq!(parse_dec_u32(&bytes("4294967296")), None);
}

#[test]
fn text_helpers_behave() {
    assert_eq!(to_lower(&bytes("AbC-Z[")), bytes("abc-z["));
    assert_eq!(trim_start(&bytes("   x y")), bytes("x y"));
    assert_eq!(trim_start(&bytes("xy ")), bytes("xy "));
    assert_eq!(trim_start(&bytes("")), bytes(""));
}

#[test]
fn process_lookup_reads_the_command_line_record() {
    let mut cmdline = bytes("/usr/bin/target");
    cmdline.push(0);
    cmdline.extend_from_slice(b"--flag\0");
    let path = cmdline_path(&cmdline);
    assert_eq!(path, bytes("/usr/bin/target"));
    assert!(path_matches_name(&path, &bytes("target")));
    assert!(!path_matches_name(&path, &bytes("other")));
    assert!(path_matches_name(&bytes("target"), &bytes("target")));
}
