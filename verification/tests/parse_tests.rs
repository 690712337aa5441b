//! End-to-end scenarios over whole documents: both indexed strategies, the
//! linear fallback, binary round trips, and the error paths.
use ulcms::binary::BinaryArray;
use ulcms::parse::{parse_mzml, ParseError};
use ulcms::spectrum::{Polarity, ScanStartTime, ScanType, SpectrumType};

const B64_ALPHABET: &[u8; 64] = b"ABCDEFGHIJKLMNOPQRSTUVWXYZabcdefghijklmnopqrstuvwxyz0123456789+/";

fn b64_encode(data: &[u8]) -> String {
    let mut out = String::new();
    for chunk in data.chunks(3) {
        let b0 = chunk[0] as u32;
        let b1 = chunk.get(1).copied().unwrap_or(0) as u32;
        let b2 = chunk.get(2).copied().unwrap_or(0) as u32;
        let n = (b0 << 16) | (b1 << 8) | b2;
        out.push(B64_ALPHABET[(n >> 18) as usize & 63] as char);
        out.push(B64_ALPHABET[(n >> 12) as usize & 63] as char);
        if chunk.len() > 1 {
            out.push(B64_ALPHABET[(n >> 6) as usize & 63] as char);
        } else {
            out.push('=');
        }
        if chunk.len() > 2 {
            out.push(B64_ALPHABET[n as usize & 63] as char);
        } else {
            out.push('=');
        }
    }
    out
}

fn doubles_le(vals: &[f64]) -> Vec<u8> {
    let mut out = Vec::new();
    for v in vals {
        out.extend_from_slice(&v.to_bits().to_le_bytes());
    }
    out
}

fn bits_of(vals: &[f64]) -> Vec<u64> {
    vals.iter().map(|v| v.to_bits()).collect()
}

fn bda(kind: &str, extra_params: &str, payload: &str) -> String {
    format!(
        "<binaryDataArray encodedLength=\"{len}\">\
         <cvParam cvRef=\"MS\" accession=\"X\" name=\"64-bit float\"/>\
         {extra}\
         <cvParam cvRef=\"MS\" accession=\"X\" name=\"{kind}\"/>\
         <binary>{payload}</binary>\
         </binaryDataArray>",
        len = payload.len(),
        extra = extra_params,
        kind = kind,
        payload = payload
    )
}

fn spectrum_block(index: usize, id: &str, array_len: usize, header: &str, arrays: &str) -> String {
    format!(
        "<spectrum index=\"{index}\" id=\"{id}\" defaultArrayLength=\"{alen}\">\
         {header}\
         <binaryDataArrayList count=\"2\">{arrays}</binaryDataArrayList>\
         </spectrum>",
        index = index,
        id = id,
        alen = array_len,
        header = header,
        arrays = arrays
    )
}

fn doc_without_index(spectra: &[String]) -> Vec<u8> {
    let mut doc = String::from(
        "<?xml version=\"1.0\" encoding=\"utf-8\"?><mzML><run><spectrumList count=\"9\">",
    );
    for s in spectra {
        doc.push_str(s);
        doc.push('\n');
    }
    doc.push_str("</spectrumList></run></mzML>");
    doc.into_bytes()
}

fn doc_with_index(spectra: &[String]) -> Vec<u8> {
    let mut doc = String::from(
        "<?xml version=\"1.0\" encoding=\"utf-8\"?><indexedmzML><mzML><run><spectrumList>",
    );
    let mut offsets = Vec::new();
    for s in spectra {
        offsets.push(doc.len());
        doc.push_str(s);
        doc.push('\n');
    }
    doc.push_str("</spectrumList></run></mzML>");
    let index_pos = doc.len();
    doc.push_str("<indexList count=\"1\"><index name=\"spectrum\">");
    for (k, off) in offsets.iter().enumerate() {
        doc.push_str(&format!("<offset idRef=\"s{}\">{}</offset>", k, off));
    }
    doc.push_str("</index></indexList>");
    doc.push_str(&format!("<indexListOffset>{}</indexListOffset>", index_pos));
    doc.push_str("</indexedmzML>");
    doc.into_bytes()
}

fn minimal_two_array_spectrum() -> String {
    let mz = b64_encode(&doubles_le(&[100.0, 200.0]));
    let inten = b64_encode(&doubles_le(&[10.0, 20.0]));
    spectrum_block(
        0,
        "scan=1",
        2,
        "",
        &format!("{}{}", bda("m/z array", "", &mz), bda("intensity array", "", &inten)),
    )
}

#[test]
fn minimal_document_end_to_end() {
    let doc = doc_without_index(&[minimal_two_array_spectrum()]);
    let out = parse_mzml(&doc).expect("parse");
    assert_eq!(out.len(), 1);
    let s = &out[0];
    assert_eq!(s.index, 0);
    assert_eq!(s.id, "scan=1");
    assert_eq!(s.array_length, 2);
    assert_eq!(s.mz_array, Some(BinaryArray::Bits64(bits_of(&[100.0, 200.0]))));
    assert_eq!(s.intensity_array, Some(BinaryArray::Bits64(bits_of(&[10.0, 20.0]))));
}

#[test]
fn minimal_document_end_to_end_indexed() {
    let doc = doc_with_index(&[minimal_two_array_spectrum()]);
    let out = parse_mzml(&doc).expect("parse");
    assert_eq!(out.len(), 1);
    let s = &out[0];
    assert_eq!(s.index, 0);
    assert_eq!(s.id, "scan=1");
    assert_eq!(s.array_length, 2);
    assert_eq!(s.mz_array, Some(BinaryArray::Bits64(bits_of(&[100.0, 200.0]))));
    assert_eq!(s.intensity_array, Some(BinaryArray::Bits64(bits_of(&[10.0, 20.0]))));
}

#[test]
fn round_trip_uncompressed_bit_for_bit() {
    let vals = [
        1.5,
        -0.0,
        3.141592653589793,
        1.0e300,
        5.0e-324,
        f64::INFINITY,
        -2.2250738585072014e-308,
    ];
    let mz = b64_encode(&doubles_le(&vals));
    let sp = spectrum_block(0, "s", vals.len(), "", &bda("m/z array", "", &mz));
    let doc = doc_without_index(&[sp]);
    let out = parse_mzml(&doc).expect("parse");
    assert_eq!(out[0].mz_array, Some(BinaryArray::Bits64(bits_of(&vals))));
    assert_eq!(out[0].intensity_array, None);
}

#[test]
fn round_trip_zlib_bit_for_bit() {
    let vals = [100.25, 200.5, 300.75, 1.0e-12];
    let raw = doubles_le(&vals);
    let compressed = miniz_oxide::deflate::compress_to_vec_zlib(&raw, 6);
    let payload = b64_encode(&compressed);
    let zlib_param = "<cvParam cvRef=\"MS\" accession=\"X\" name=\"zlib compression\"/>";
    let sp = spectrum_block(0, "s", vals.len(), "", &bda("m/z array", zlib_param, &payload));
    let doc = doc_without_index(&[sp]);
    let out = parse_mzml(&doc).expect("parse");
    assert_eq!(out[0].mz_array, Some(BinaryArray::Bits64(bits_of(&vals))));
}

#[test]
fn corrupt_zlib_clears_only_that_array() {
    let inten = b64_encode(&doubles_le(&[7.0]));
    let zlib_param = "<cvParam cvRef=\"MS\" accession=\"X\" name=\"zlib compression\"/>";
    let bad = b64_encode(b"this is not a zlib stream");
    let sp = spectrum_block(
        0,
        "s",
        1,
        "",
        &format!(
            "{}{}",
            bda("m/z array", zlib_param, &bad),
            bda("intensity array", "", &inten)
        ),
    );
    let doc = doc_without_index(&[sp]);
    let out = parse_mzml(&doc).expect("parse");
    assert_eq!(out[0].mz_array, None);
    assert_eq!(out[0].intensity_array, Some(BinaryArray::Bits64(bits_of(&[7.0]))));
}

#[test]
fn empty_payload_is_empty_array_not_error() {
    let sp = spectrum_block(0, "s", 2, "", &bda("m/z array", "", ""));
    let doc = doc_without_index(&[sp]);
    let out = parse_mzml(&doc).expect("parse");
    assert_eq!(out[0].mz_array, Some(BinaryArray::Bits64(vec![])));
}

#[test]
fn whitespace_only_payload_is_empty_array() {
    let sp = spectrum_block(0, "s", 2, "", &bda("m/z array", "", " \n\t \r "));
    let doc = doc_without_index(&[sp]);
    let out = parse_mzml(&doc).expect("parse");
    assert_eq!(out[0].mz_array, Some(BinaryArray::Bits64(vec![])));
}

#[test]
fn misaligned_payload_fails_that_array_only() {
    let good = b64_encode(&doubles_le(&[4.0]));
    let sp = spectrum_block(
        0,
        "s",
        1,
        "",
        &format!(
            "{}{}",
            bda("m/z array", "", "QUJ"),
            bda("intensity array", "", &good)
        ),
    );
    let doc = doc_without_index(&[sp]);
    let out = parse_mzml(&doc).expect("parse");
    assert_eq!(out[0].mz_array, None);
    assert_eq!(out[0].intensity_array, Some(BinaryArray::Bits64(bits_of(&[4.0]))));
}

#[test]
fn truncation_short_buffer_wins_over_declared_length() {
    let vals = [1.0, 2.0, 3.0];
    let payload = b64_encode(&doubles_le(&vals));
    let sp = spectrum_block(0, "s", 5, "", &bda("m/z array", "", &payload));
    let doc = doc_without_index(&[sp]);
    let out = parse_mzml(&doc).expect("parse");
    assert_eq!(out[0].array_length, 5);
    assert_eq!(out[0].mz_array, Some(BinaryArray::Bits64(bits_of(&vals))));
}

#[test]
fn declared_length_clamps_longer_buffer() {
    let vals = [1.0, 2.0, 3.0];
    let payload = b64_encode(&doubles_le(&vals));
    let sp = spectrum_block(0, "s", 2, "", &bda("m/z array", "", &payload));
    let doc = doc_without_index(&[sp]);
    let out = parse_mzml(&doc).expect("parse");
    assert_eq!(out[0].mz_array, Some(BinaryArray::Bits64(bits_of(&[1.0, 2.0]))));
}

#[test]
fn order_preserved_with_index() {
    let spectra: Vec<String> = (0..3)
        .map(|k| {
            let payload = b64_encode(&doubles_le(&[k as f64]));
            spectrum_block(k, &format!("scan={}", k + 1), 1, "", &bda("m/z array", "", &payload))
        })
        .collect();
    let doc = doc_with_index(&spectra);
    let out = parse_mzml(&doc).expect("parse");
    assert_eq!(out.len(), 3);
    for k in 0..3 {
        assert_eq!(out[k].index, k);
        assert_eq!(out[k].id, format!("scan={}", k + 1));
        assert_eq!(out[k].mz_array, Some(BinaryArray::Bits64(bits_of(&[k as f64]))));
    }
}

#[test]
fn order_preserved_without_index() {
    let spectra: Vec<String> = (0..4)
        .map(|k| spectrum_block(10 + k, &format!("id{}", k), 0, "", ""))
        .collect();
    let doc = doc_without_index(&spectra);
    let out = parse_mzml(&doc).expect("parse");
    assert_eq!(out.len(), 4);
    for k in 0..4 {
        assert_eq!(out[k].index, 10 + k);
        assert_eq!(out[k].id, format!("id{}", k));
    }
}

#[test]
fn scan_start_time_in_seconds() {
    let header = "<scanList count=\"1\"><scan><cvParam cvRef=\"MS\" accession=\"X\" \
                  name=\"scan start time\" value=\"30\" unitName=\"second\"/></scan></scanList>";
    let sp = spectrum_block(0, "s", 0, header, "");
    let doc = doc_without_index(&[sp]);
    let out = parse_mzml(&doc).expect("parse");
    let rt = out[0].retention_time.clone().expect("retention time");
    assert_eq!(
        rt,
        ScanStartTime { value: "30".to_string(), unit_is_second: true }
    );
    let minutes: f64 = rt.value.parse::<f64>().unwrap() / 60.0;
    assert_eq!(minutes, 0.5);
}

#[test]
fn scan_start_time_in_minutes() {
    let header = "<cvParam cvRef=\"MS\" accession=\"X\" name=\"scan start time\" \
                  value=\"30\" unitName=\"minute\"/>";
    let sp = spectrum_block(0, "s", 0, header, "");
    let doc = doc_without_index(&[sp]);
    let out = parse_mzml(&doc).expect("parse");
    let rt = out[0].retention_time.clone().expect("retention time");
    assert_eq!(rt.value, "30");
    assert!(!rt.unit_is_second);
    assert_eq!(rt.value.parse::<f64>().unwrap(), 30.0);
}

#[test]
fn scan_start_time_without_unit() {
    let header = "<cvParam cvRef=\"MS\" accession=\"X\" name=\"scan start time\" value=\"12.5\"/>";
    let sp = spectrum_block(0, "s", 0, header, "");
    let doc = doc_without_index(&[sp]);
    let out = parse_mzml(&doc).expect("parse");
    let rt = out[0].retention_time.clone().expect("retention time");
    assert_eq!(rt.value, "12.5");
    assert!(!rt.unit_is_second);
}

fn polarity_of(header: &str) -> Option<Polarity> {
    let sp = spectrum_block(0, "s", 0, header, "");
    let doc = doc_without_index(&[sp]);
    let out = parse_mzml(&doc).expect("parse");
    out[0].polarity
}

#[test]
fn polarity_negative_only() {
    let h = "<cvParam cvRef=\"MS\" accession=\"X\" name=\"negative scan\"/>";
    assert_eq!(polarity_of(h), Some(Polarity::Negative));
}

#[test]
fn polarity_positive_only() {
    let h = "<cvParam cvRef=\"MS\" accession=\"X\" name=\"positive scan\"/>";
    assert_eq!(polarity_of(h), Some(Polarity::Positive));
}

#[test]
fn polarity_both_is_absent() {
    let h = "<cvParam cvRef=\"MS\" accession=\"X\" name=\"positive scan\"/>\
             <cvParam cvRef=\"MS\" accession=\"X\" name=\"negative scan\"/>";
    assert_eq!(polarity_of(h), None);
}

#[test]
fn polarity_neither_is_absent() {
    assert_eq!(polarity_of(""), None);
}

#[test]
fn header_metadata_extraction() {
    let header = "<cvParam cvRef=\"MS\" accession=\"X\" name=\"ms level\" value=\"2\"/>\
                  <cvParam cvRef=\"MS\" accession=\"X\" name=\"MSn spectrum\"/>\
                  <cvParam cvRef=\"MS\" accession=\"X\" name=\"centroid spectrum\"/>\
                  <cvParam cvRef=\"MS\" accession=\"X\" name=\"total ion current\" value=\"1234.5\"/>\
                  <cvParam cvRef=\"MS\" accession=\"X\" name=\"base peak intensity\" value=\"99.5\"/>\
                  <cvParam cvRef=\"MS\" accession=\"X\" name=\"base peak m/z\" value=\"445.12\"/>\
                  <cvParam cvRef=\"MS\" accession=\"X\" name=\"scan window lower limit\" value=\"50\"/>\
                  <cvParam cvRef=\"MS\" accession=\"X\" name=\"scan window upper limit\" value=\"1500\"/>";
    let sp = spectrum_block(7, "scan=8", 0, header, "");
    let doc = doc_without_index(&[sp]);
    let out = parse_mzml(&doc).expect("parse");
    let s = &out[0];
    assert_eq!(s.index, 7);
    assert_eq!(s.ms_level, Some(2));
    assert_eq!(s.scan_type, Some(ScanType::Msn));
    assert_eq!(s.spectrum_type, Some(SpectrumType::Centroid));
    assert_eq!(s.total_ion_current.as_deref(), Some("1234.5"));
    assert_eq!(s.base_peak_intensity.as_deref(), Some("99.5"));
    assert_eq!(s.base_peak_mz.as_deref(), Some("445.12"));
    assert_eq!(s.scan_window_lower_limit.as_deref(), Some("50"));
    assert_eq!(s.scan_window_upper_limit.as_deref(), Some("1500"));
}

#[test]
fn thirty_two_bit_arrays_keep_their_width() {
    let vals32: [f32; 3] = [1.5, -2.25, 1.0e-7];
    let mut payload_bytes = Vec::new();
    for v in &vals32 {
        payload_bytes.extend_from_slice(&v.to_bits().to_le_bytes());
    }
    let payload = b64_encode(&payload_bytes);
    let sp = format!(
        "<spectrum index=\"0\" id=\"s\" defaultArrayLength=\"3\">\
         <binaryDataArrayList count=\"1\"><binaryDataArray>\
         <cvParam cvRef=\"MS\" accession=\"X\" name=\"32-bit float\"/>\
         <cvParam cvRef=\"MS\" accession=\"X\" name=\"intensity array\"/>\
         <binary>{}</binary>\
         </binaryDataArray></binaryDataArrayList></spectrum>",
        payload
    );
    let doc = doc_without_index(&[sp]);
    let out = parse_mzml(&doc).expect("parse");
    let bits: Vec<u32> = vals32.iter().map(|v| v.to_bits()).collect();
    assert_eq!(out[0].intensity_array, Some(BinaryArray::Bits32(bits)));
    assert_eq!(out[0].mz_array, None);
}

#[test]
fn big_endian_doubles_decode() {
    let vals: [f64; 2] = [6.25, -7.5];
    let mut payload_bytes = Vec::new();
    for v in &vals {
        payload_bytes.extend_from_slice(&v.to_bits().to_be_bytes());
    }
    let payload = b64_encode(&payload_bytes);
    let be_param = "<cvParam cvRef=\"MS\" accession=\"X\" name=\"big endian\"/>";
    let sp = spectrum_block(0, "s", 2, "", &bda("m/z array", be_param, &payload));
    let doc = doc_without_index(&[sp]);
    let out = parse_mzml(&doc).expect("parse");
    assert_eq!(out[0].mz_array, Some(BinaryArray::Bits64(bits_of(&vals))));
}

#[test]
fn array_flagged_as_both_kinds_is_discarded() {
    let payload = b64_encode(&doubles_le(&[5.0]));
    let both = "<cvParam cvRef=\"MS\" accession=\"X\" name=\"intensity array\"/>";
    let sp = spectrum_block(0, "s", 1, "", &bda("m/z array", both, &payload));
    let doc = doc_without_index(&[sp]);
    let out = parse_mzml(&doc).expect("parse");
    assert_eq!(out[0].mz_array, None);
    assert_eq!(out[0].intensity_array, None);
}

#[test]
fn unterminated_spectrum_is_fatal() {
    let doc = b"<mzML><spectrumList><spectrum index=\"0\" id=\"s\">".to_vec();
    assert_eq!(parse_mzml(&doc), Err(ParseError::UnterminatedSpectrum));
}

#[test]
fn empty_document_has_no_spectra() {
    let doc = b"<mzML><run><spectrumList count=\"0\"></spectrumList></run></mzML>".to_vec();
    assert_eq!(parse_mzml(&doc).expect("parse").len(), 0);
}

#[test]
fn descending_index_offsets_are_rejected() {
    let sp0 = spectrum_block(0, "a", 0, "", "");
    let sp1 = spectrum_block(1, "b", 0, "", "");
    let mut doc = String::from("<mzML><run><spectrumList>");
    let off0 = doc.len();
    doc.push_str(&sp0);
    let off1 = doc.len();
    doc.push_str(&sp1);
    doc.push_str("</spectrumList></run></mzML>");
    let index_pos = doc.len();
    doc.push_str(&format!(
        "<indexList><index name=\"spectrum\"><offset>{}</offset><offset>{}</offset>\
         </index></indexList><indexListOffset>{}</indexListOffset>",
        off1, off0, index_pos
    ));
    assert_eq!(parse_mzml(doc.as_bytes()), Err(ParseError::SpanOutOfRange));
}

#[test]
fn missing_final_close_tag_with_index_is_fatal() {
    let mut doc = String::from("<mzML><run><spectrumList>");
    let off0 = doc.len();
    doc.push_str("<spectrum index=\"0\" id=\"s\">");
    doc.push_str("</spectrumList></run></mzML>");
    let index_pos = doc.len();
    doc.push_str(&format!(
        "<indexList><index name=\"spectrum\"><offset>{}</offset></index></indexList>\
         <indexListOffset>{}</indexListOffset>",
        off0, index_pos
    ));
    assert_eq!(parse_mzml(doc.as_bytes()), Err(ParseError::NoSpectrumEnd));
}

#[test]
fn invalid_utf8_id_defaults_to_empty() {
    let mut doc = Vec::new();
    doc.extend_from_slice(b"<mzML><spectrumList><spectrum index=\"3\" id=\"");
    doc.push(0xFF);
    doc.extend_from_slice(b"\" defaultArrayLength=\"0\"></spectrum></spectrumList></mzML>");
    let out = parse_mzml(&doc).expect("parse");
    assert_eq!(out[0].index, 3);
    assert_eq!(out[0].id, "");
}

#[test]
fn unparsable_index_attribute_defaults_to_zero() {
    let sp = String::from(
        "<spectrum index=\"x9\" id=\"s\" defaultArrayLength=\"nope\"></spectrum>",
    );
    let doc = doc_without_index(&[sp]);
    let out = parse_mzml(&doc).expect("parse");
    assert_eq!(out[0].index, 0);
    assert_eq!(out[0].array_length, 0);
}
