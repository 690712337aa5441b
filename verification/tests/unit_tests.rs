//! Unit tests for the byte scanners, the base64 decoder, attribute and
//! cvParam lookup, the offset-index reader, and the element tree.
use ulcms::attrs::{
    find_attr_ascii, find_attr_string, find_attr_usize, find_attr_value_in_tag, find_cv_value,
    find_cv_value_u32, has_cv_name,
};
use ulcms::base64::{build_b64_inv, decode_base64_ws_into};
use ulcms::binary::{bda_flags, bytes_to_u32_bits, bytes_to_u64_bits, decode_binary_arrays,
    BinaryArray};
use ulcms::index::{
    extract_index_list_offset, find_spectrum_end_in, parse_spectrum_offsets_from_index,
    read_spectrum_offsets,
};
use ulcms::scan::{
    bytes_eq, is_ws, memchr, memmem, parse_u32_ascii, parse_u64_ascii, parse_usize_ascii,
    strip_ws, tag_body,
};
use ulcms::spectrum::parse_spectrum_block;
use ulcms::tree::{Element, Node};

#[test]
fn memmem_finds_first_occurrence() {
    assert_eq!(memmem(b"abcabc", b"bc"), Some(1));
    assert_eq!(memmem(b"abcabc", b"ca"), Some(2));
    assert_eq!(memmem(b"abcabc", b"zz"), None);
    assert_eq!(memmem(b"abc", b""), Some(0));
    assert_eq!(memmem(b"ab", b"abc"), None);
}

#[test]
fn memchr_finds_first_byte() {
    assert_eq!(memchr(b"hello", b'l'), Some(2));
    assert_eq!(memchr(b"hello", b'z'), None);
    assert_eq!(memchr(b"", b'a'), None);
}

#[test]
fn strip_ws_trims_both_ends() {
    assert_eq!(strip_ws(b"  \t42 \r\n"), b"42");
    assert_eq!(strip_ws(b"42"), b"42");
    assert_eq!(strip_ws(b" \n\t "), b"");
    assert_eq!(strip_ws(b"a b"), b"a b");
}

#[test]
fn is_ws_recognizes_the_four_whitespace_bytes() {
    assert!(is_ws(b' ') && is_ws(b'\n') && is_ws(b'\r') && is_ws(b'\t'));
    assert!(!is_ws(b'0') && !is_ws(0));
}

#[test]
fn parse_u64_ascii_digits_only() {
    assert_eq!(parse_u64_ascii(b" 1234 "), Some(1234));
    assert_eq!(parse_u64_ascii(b"0"), Some(0));
    assert_eq!(parse_u64_ascii(b"0018"), Some(18));
    assert_eq!(parse_u64_ascii(b""), None);
    assert_eq!(parse_u64_ascii(b"  "), None);
    assert_eq!(parse_u64_ascii(b"12a"), None);
    assert_eq!(parse_u64_ascii(b"+12"), None);
    assert_eq!(parse_u64_ascii(b"18446744073709551615"), Some(u64::MAX));
    assert_eq!(parse_u64_ascii(b"18446744073709551616"), None);
}

#[test]
fn parse_sized_ascii_accepts_leading_plus() {
    assert_eq!(parse_usize_ascii(b"+5"), Some(5));
    assert_eq!(parse_usize_ascii(b"5"), Some(5));
    assert_eq!(parse_usize_ascii(b"-5"), None);
    assert_eq!(parse_usize_ascii(b"+"), None);
    assert_eq!(parse_usize_ascii(b" 5"), None);
    assert_eq!(parse_u32_ascii(b"4294967295"), Some(u32::MAX));
    assert_eq!(parse_u32_ascii(b"4294967296"), None);
}

#[test]
fn bytes_eq_compares_contents() {
    assert!(bytes_eq(b"abc", b"abc"));
    assert!(!bytes_eq(b"abc", b"abd"));
    assert!(!bytes_eq(b"abc", b"ab"));
    assert!(bytes_eq(b"", b""));
}

#[test]
fn tag_body_returns_enclosed_range() {
    let hay = b"xx<binary>PAYLOAD</binary>yy";
    let (a, b) = tag_body(hay, b"<binary>", b"</binary>").expect("body");
    assert_eq!(&hay[a..b], b"PAYLOAD");
    assert_eq!(tag_body(hay, b"<b>", b"</b>"), None);
    assert_eq!(tag_body(b"<binary>x", b"<binary>", b"</binary>"), None);
}

#[test]
fn base64_table_inverts_the_alphabet() {
    let t = build_b64_inv();
    assert_eq!(t.len(), 256);
    assert_eq!(t[b'A' as usize], 0);
    assert_eq!(t[b'Z' as usize], 25);
    assert_eq!(t[b'a' as usize], 26);
    assert_eq!(t[b'z' as usize], 51);
    assert_eq!(t[b'0' as usize], 52);
    assert_eq!(t[b'9' as usize], 61);
    assert_eq!(t[b'+' as usize], 62);
    assert_eq!(t[b'/' as usize], 63);
    assert_eq!(t[b'=' as usize], 255);
    assert_eq!(t[b' ' as usize], 255);
}

#[test]
fn base64_decode_basic() {
    let mut out = Vec::new();
    assert!(decode_base64_ws_into(b"QUJD", &mut out));
    assert_eq!(out, b"ABC");
}

#[test]
fn base64_decode_with_padding() {
    let mut out = Vec::new();
    assert!(decode_base64_ws_into(b"QUI=", &mut out));
    assert_eq!(out, b"AB");
    let mut out2 = Vec::new();
    assert!(decode_base64_ws_into(b"QQ==", &mut out2));
    assert_eq!(out2, b"A");
}

#[test]
fn base64_decode_skips_interior_whitespace() {
    let mut out = Vec::new();
    assert!(decode_base64_ws_into(b"Q U\nJ\tD\r", &mut out));
    assert_eq!(out, b"ABC");
}

#[test]
fn base64_decode_empty_and_whitespace_only() {
    let mut out = vec![9u8];
    assert!(decode_base64_ws_into(b"", &mut out));
    assert_eq!(out, vec![9u8]);
    assert!(decode_base64_ws_into(b" \n\t\r ", &mut out));
    assert_eq!(out, vec![9u8]);
}

#[test]
fn base64_decode_rejects_misalignment_and_bad_bytes() {
    let mut out = Vec::new();
    assert!(!decode_base64_ws_into(b"QUJ", &mut out));
    out.clear();
    assert!(!decode_base64_ws_into(b"QU!D", &mut out));
    out.clear();
    assert!(!decode_base64_ws_into(b"====", &mut out));
}

#[test]
fn base64_decode_appends_to_existing_output() {
    let mut out = vec![1u8];
    assert!(decode_base64_ws_into(b"QUJD", &mut out));
    assert_eq!(out, vec![1u8, b'A', b'B', b'C']);
}

#[test]
fn word_grouping_little_and_big_endian() {
    let b = [1u8, 2, 3, 4, 5, 6, 7, 8];
    assert_eq!(bytes_to_u64_bits(&b, true, 9), vec![0x0807060504030201u64]);
    assert_eq!(bytes_to_u64_bits(&b, false, 9), vec![0x0102030405060708u64]);
    assert_eq!(bytes_to_u32_bits(&b, true, 9), vec![0x04030201u32, 0x08070605u32]);
    assert_eq!(bytes_to_u32_bits(&b, false, 1), vec![0x01020304u32]);
    assert_eq!(bytes_to_u64_bits(&b[..7], true, 9), Vec::<u64>::new());
}

#[test]
fn attr_lookup_in_tag_text() {
    let head = b"<spectrum index=\"42\" id='scan=1' empty=\"\"";
    assert_eq!(find_attr_value_in_tag(head, b"index"), Some(&b"42"[..]));
    assert_eq!(find_attr_value_in_tag(head, b"id"), Some(&b"scan=1"[..]));
    assert_eq!(find_attr_value_in_tag(head, b"empty"), Some(&b""[..]));
    assert_eq!(find_attr_value_in_tag(head, b"missing"), None);
    assert_eq!(find_attr_value_in_tag(b"a=42", b"a"), None);
}

#[test]
fn attr_lookup_on_named_tag() {
    let buf = b"<other id=\"x\"/><spectrum index=\"7\" id=\"s\">body</spectrum>";
    assert_eq!(find_attr_ascii(buf, b"spectrum", b"id"), Some(&b"s"[..]));
    assert_eq!(find_attr_usize(buf, b"spectrum", b"index"), Some(7));
    assert_eq!(find_attr_string(buf, b"spectrum", b"id"), Some("s".to_string()));
    assert_eq!(find_attr_usize(buf, b"spectrum", b"missing"), None);
    assert_eq!(find_attr_ascii(buf, b"nothere", b"id"), None);
}

#[test]
fn cv_param_scanning() {
    let buf = b"<cvParam name=\"ms level\" value=\"2\"/>\
                <cvParam name=\"positive scan\"/>\
                <cvParam name=\"ms level\" value=\"9\"/>";
    assert!(has_cv_name(buf, b"positive scan"));
    assert!(!has_cv_name(buf, b"negative scan"));
    assert_eq!(find_cv_value(buf, b"ms level"), Some(&b"2"[..]));
    assert_eq!(find_cv_value_u32(buf, b"ms level"), Some(2));
    assert_eq!(find_cv_value(buf, b"positive scan"), None);
    assert_eq!(find_cv_value(buf, b"nothing"), None);
}

#[test]
fn bda_flags_classification() {
    let b = b"<binaryDataArray>\
              <cvParam name=\"64-bit float\"/>\
              <cvParam name=\"zlib compression\"/>\
              <cvParam name=\"m/z array\"/>\
              <binary>QUJD</binary></binaryDataArray>";
    assert_eq!(bda_flags(b), (true, false, true, true, false, true));
    let b2 = b"<cvParam name=\"32-bit float\"/><cvParam name=\"big endian\"/>\
               <cvParam name=\"intensity array\"/>";
    assert_eq!(bda_flags(b2), (false, true, false, false, true, false));
}

#[test]
fn bda_flags_ignore_params_after_binary_tag() {
    let b = b"<cvParam name=\"64-bit float\"/><binary>QUJD</binary>\
              <cvParam name=\"zlib compression\"/>";
    assert_eq!(bda_flags(b), (false, false, false, true, false, true));
}

#[test]
fn decode_binary_arrays_without_width_flag_is_empty() {
    let block = b"<spectrum index=\"0\" id=\"s\"><binaryDataArrayList>\
                  <binaryDataArray><cvParam name=\"m/z array\"/>\
                  <binary>QUJDREVGR0g=</binary></binaryDataArray>\
                  </binaryDataArrayList></spectrum>";
    let (mz, inten) = decode_binary_arrays(block, 0);
    assert_eq!(mz, Some(BinaryArray::Bits64(vec![])));
    assert_eq!(inten, None);
}

#[test]
fn index_list_offset_extraction() {
    assert_eq!(
        extract_index_list_offset(b"...<indexListOffset> 1234 </indexListOffset>..."),
        Some(1234)
    );
    assert_eq!(extract_index_list_offset(b"<indexListOffset>12"), None);
    assert_eq!(extract_index_list_offset(b"no offset here"), None);
    assert_eq!(extract_index_list_offset(b"<indexListOffset>x</indexListOffset>"), None);
}

#[test]
fn offsets_from_index_block() {
    let buf = b"<indexList><index name=\"spectrum\">\
                <offset idRef=\"a\"> 10 </offset>\
                <offset idRef=\"b\">20</offset>\
                <offset idRef=\"c\">bad</offset>\
                <offset idRef=\"d\">30</offset>\
                </index></indexList>";
    assert_eq!(parse_spectrum_offsets_from_index(buf), vec![10, 20, 30]);
    assert_eq!(parse_spectrum_offsets_from_index(b"<index name=\"other\"></index>"), Vec::<u64>::new());
}

#[test]
fn spectrum_end_scanning() {
    let hay = b"<spectrum>a</spectrum><spectrum>b</spectrum>";
    let first_end = find_spectrum_end_in(hay, 0).expect("end");
    assert_eq!(&hay[..first_end], b"<spectrum>a</spectrum>");
    let second_end = find_spectrum_end_in(hay, first_end).expect("end");
    assert_eq!(second_end, hay.len());
    assert_eq!(find_spectrum_end_in(b"<spectrum>", 0), None);
    assert_eq!(find_spectrum_end_in(b"ab", 9), None);
}

#[test]
fn read_offsets_from_whole_document() {
    let mut doc = String::from("<mzML>padding padding</mzML>");
    let index_pos = doc.len();
    doc.push_str(
        "<indexList><index name=\"spectrum\"><offset>5</offset><offset>11</offset>\
         </index></indexList>",
    );
    doc.push_str(&format!("<indexListOffset>{}</indexListOffset>", index_pos));
    assert_eq!(read_spectrum_offsets(doc.as_bytes()), Some(vec![5, 11]));
    assert_eq!(read_spectrum_offsets(b"<mzML>no index</mzML>"), None);
}

#[test]
fn read_offsets_with_pointer_past_end() {
    let doc = b"<x><indexListOffset>99999</indexListOffset>";
    assert_eq!(read_spectrum_offsets(doc), Some(vec![]));
}

#[test]
fn spectrum_block_without_arrays() {
    let block = b"<spectrum index=\"4\" id=\"scan=5\" defaultArrayLength=\"0\"></spectrum>";
    let s = parse_spectrum_block(block).expect("record");
    assert_eq!(s.index, 4);
    assert_eq!(s.id, "scan=5");
    assert_eq!(s.array_length, 0);
    assert_eq!(s.ms_level, None);
    assert_eq!(s.scan_type, None);
    assert_eq!(s.polarity, None);
    assert_eq!(s.spectrum_type, None);
    assert_eq!(s.retention_time, None);
    assert_eq!(s.mz_array, None);
    assert_eq!(s.intensity_array, None);
}

#[test]
fn single_quoted_attributes_parse() {
    let block = b"<spectrum index='5' id='q' defaultArrayLength='1'></spectrum>";
    let s = parse_spectrum_block(block).expect("record");
    assert_eq!(s.index, 5);
    assert_eq!(s.id, "q");
    assert_eq!(s.array_length, 1);
}

#[test]
fn attributes_come_from_the_opening_tag_only() {
    let block = b"<spectrum index=\"1\" id=\"outer\"><ref id=\"inner\"/></spectrum>";
    let s = parse_spectrum_block(block).expect("record");
    assert_eq!(s.id, "outer");
}

#[test]
fn element_attribute_last_occurrence_wins() {
    let e = Element {
        name: "spectrum".to_string(),
        attrs: vec![
            ("id".to_string(), "first".to_string()),
            ("index".to_string(), "0".to_string()),
            ("id".to_string(), "second".to_string()),
        ],
        children: vec![Node::Text("t".to_string()), Node::Comment("c".to_string())],
    };
    assert_eq!(e.attr("id"), Some(&"second".to_string()));
    assert_eq!(e.attr("index"), Some(&"0".to_string()));
    assert_eq!(e.attr("missing"), None);
}
