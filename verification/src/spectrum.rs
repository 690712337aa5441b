//! One record per `<spectrum>` element, extracted from the element's raw
//! bytes without building a tree. Numeric parameter values that the
//! document writes as decimal floating-point text are kept as their raw
//! text; peak arrays are kept as IEEE-754 bit patterns.
use vstd::prelude::*;

use crate::attrs::{
    attr_in_tag, attr_string_of, attr_usize_of, cv_head, cv_u32, cv_value, find_attr_string,
    find_attr_usize, find_attr_value_in_tag, find_cv_value, find_cv_value_u32, has_cv_name,
    has_cv_name_spec,
};
use crate::binary::{bda_scan, decode_binary_arrays, opt_bits, ArrayBits, BinaryArray};
use crate::pat::{
    spec_attr_default_array_length, spec_attr_id, spec_attr_index, spec_attr_unit_name,
    spec_attr_value, spec_bdal_open, spec_cv_bpi, spec_cv_bpmz, spec_cv_centroid, spec_cv_lower,
    spec_cv_ms1, spec_cv_ms_level, spec_cv_msn, spec_cv_negative, spec_cv_positive,
    spec_cv_profile, spec_cv_scan_start, spec_cv_tic, spec_cv_upper, spec_spectrum_tag,
    spec_unit_second,
};
use crate::scan::{
    find_sub, lemma_find_byte_from_correct, lemma_find_byte_skip, lemma_find_sub_from_correct,
    lemma_find_sub_skip, memchr, memmem,
};

verus! {

/// Primary scan versus fragmentation scan.
#[derive(Clone, Copy, Debug, PartialEq, Eq, Structural)]
pub enum ScanType {
    Ms1,
    Msn,
}

#[derive(Clone, Copy, Debug, PartialEq, Eq, Structural)]
pub enum Polarity {
    Positive,
    Negative,
}

/// Raw waveform versus peak-picked representation.
#[derive(Clone, Copy, Debug, PartialEq, Eq, Structural)]
pub enum SpectrumType {
    Profile,
    Centroid,
}

/// The raw "scan start time" parameter: its value text and whether its
/// declared unit is seconds (in which case minutes require dividing by 60).
#[derive(Clone, Debug, PartialEq, Eq)]
pub struct ScanStartTime {
    pub value: String,
    pub unit_is_second: bool,
}

/// One record per `<spectrum>` element. Optional numeric parameters keep
/// the exact value text the document carried; absent parameters are `None`.
#[derive(Clone, Debug, PartialEq, Eq)]
pub struct SpectrumSummary {
    pub index: usize,
    pub id: String,
    pub array_length: usize,
    pub ms_level: Option<u32>,
    pub scan_type: Option<ScanType>,
    pub polarity: Option<Polarity>,
    pub spectrum_type: Option<SpectrumType>,
    pub retention_time: Option<ScanStartTime>,
    pub scan_window_lower_limit: Option<String>,
    pub scan_window_upper_limit: Option<String>,
    pub total_ion_current: Option<String>,
    pub base_peak_intensity: Option<String>,
    pub base_peak_mz: Option<String>,
    pub mz_array: Option<BinaryArray>,
    pub intensity_array: Option<BinaryArray>,
}

// ---------------------------------------------------------------------------
// Field specifications
// ---------------------------------------------------------------------------

/// Where the parameter header of a spectrum block ends: at its
/// `<binaryDataArrayList`, or at the end of the block if there is none.
pub open spec fn spec_header_end(block: Seq<u8>) -> int {
    match find_sub(block, spec_bdal_open()) {
        Some(p) => p,
        None => block.len() as int,
    }
}

pub open spec fn spec_header(block: Seq<u8>) -> Seq<u8> {
    block.subrange(0, spec_header_end(block))
}

/// The `index` attribute of the opening tag, defaulting to 0 when absent or
/// unparsable.
pub open spec fn spec_index(block: Seq<u8>) -> usize {
    match attr_usize_of(block, spec_spectrum_tag(), spec_attr_index()) {
        Some(v) => v,
        None => 0,
    }
}

/// The `id` attribute, defaulting to the empty string.
pub open spec fn spec_id(block: Seq<u8>) -> Seq<char> {
    match attr_string_of(block, spec_spectrum_tag(), spec_attr_id()) {
        Some(s) => s,
        None => Seq::empty(),
    }
}

/// The declared `defaultArrayLength`, defaulting to 0.
pub open spec fn spec_array_length(block: Seq<u8>) -> usize {
    match attr_usize_of(block, spec_spectrum_tag(), spec_attr_default_array_length()) {
        Some(v) => v,
        None => 0,
    }
}

pub open spec fn spec_ms_level(block: Seq<u8>) -> Option<u32> {
    cv_u32(spec_header(block), spec_cv_ms_level())
}

/// "MS1 spectrum" wins over "MSn spectrum"; neither present means absent.
pub open spec fn spec_scan_type(block: Seq<u8>) -> Option<ScanType> {
    if has_cv_name_spec(spec_header(block), spec_cv_ms1()) {
        Some(ScanType::Ms1)
    } else if has_cv_name_spec(spec_header(block), spec_cv_msn()) {
        Some(ScanType::Msn)
    } else {
        None
    }
}

/// Exactly one of "positive scan" / "negative scan" present names the
/// polarity; both or neither present means absent.
pub open spec fn spec_polarity(block: Seq<u8>) -> Option<Polarity> {
    let pos = has_cv_name_spec(spec_header(block), spec_cv_positive());
    let neg = has_cv_name_spec(spec_header(block), spec_cv_negative());
    if pos && !neg {
        Some(Polarity::Positive)
    } else if neg && !pos {
        Some(Polarity::Negative)
    } else {
        None
    }
}

pub open spec fn spec_spectrum_type(block: Seq<u8>) -> Option<SpectrumType> {
    if has_cv_name_spec(spec_header(block), spec_cv_profile()) {
        Some(SpectrumType::Profile)
    } else if has_cv_name_spec(spec_header(block), spec_cv_centroid()) {
        Some(SpectrumType::Centroid)
    } else {
        None
    }
}

/// UTF-8 decoding of an optional raw value; invalid bytes collapse to
/// absent.
pub open spec fn spec_opt_text(v: Option<Seq<u8>>) -> Option<Seq<char>> {
    match v {
        None => None,
        Some(b) => if vstd::utf8::valid_utf8(b) {
            Some(vstd::utf8::decode_utf8(b))
        } else {
            None
        },
    }
}

/// Raw value text of the first header parameter with the given name.
pub open spec fn spec_cv_text(block: Seq<u8>, name: Seq<u8>) -> Option<Seq<char>> {
    spec_opt_text(cv_value(spec_header(block), name))
}

/// The first "scan start time" parameter: its value text and whether its
/// `unitName` is `second`.
pub open spec fn spec_retention(block: Seq<u8>) -> Option<(Seq<char>, bool)> {
    match cv_head(spec_header(block), spec_cv_scan_start()) {
        None => None,
        Some(h) => match attr_in_tag(h, spec_attr_value()) {
            None => None,
            Some(v) => if vstd::utf8::valid_utf8(v) {
                Some(
                    (
                        vstd::utf8::decode_utf8(v),
                        attr_in_tag(h, spec_attr_unit_name()) == Some(spec_unit_second()),
                    ),
                )
            } else {
                None
            },
        },
    }
}

/// Both array slots after decoding every `<binaryDataArray>` in the block,
/// clamped to the declared array length.
pub open spec fn spec_arrays(block: Seq<u8>) -> (Option<ArrayBits>, Option<ArrayBits>) {
    bda_scan(block, spec_array_length(block) as int, 0, None, None)
}

pub open spec fn opt_string_view(o: Option<String>) -> Option<Seq<char>> {
    match o {
        Some(s) => Some(s@),
        None => None,
    }
}

pub open spec fn sst_view(o: Option<ScanStartTime>) -> Option<(Seq<char>, bool)> {
    match o {
        Some(t) => Some((t.value@, t.unit_is_second)),
        None => None,
    }
}

/// Every field of `s` equals what the block's bytes prescribe.
pub open spec fn summary_matches(block: Seq<u8>, s: SpectrumSummary) -> bool {
    &&& s.index == spec_index(block)
    &&& s.id@ == spec_id(block)
    &&& s.array_length == spec_array_length(block)
    &&& s.ms_level == spec_ms_level(block)
    &&& s.scan_type == spec_scan_type(block)
    &&& s.polarity == spec_polarity(block)
    &&& s.spectrum_type == spec_spectrum_type(block)
    &&& sst_view(s.retention_time) == spec_retention(block)
    &&& opt_string_view(s.scan_window_lower_limit) == spec_cv_text(block, spec_cv_lower())
    &&& opt_string_view(s.scan_window_upper_limit) == spec_cv_text(block, spec_cv_upper())
    &&& opt_string_view(s.total_ion_current) == spec_cv_text(block, spec_cv_tic())
    &&& opt_string_view(s.base_peak_intensity) == spec_cv_text(block, spec_cv_bpi())
    &&& opt_string_view(s.base_peak_mz) == spec_cv_text(block, spec_cv_bpmz())
    &&& opt_bits(s.mz_array) == spec_arrays(block).0
    &&& opt_bits(s.intensity_array) == spec_arrays(block).1
}

// ---------------------------------------------------------------------------
// Executable extraction
// ---------------------------------------------------------------------------

/// Raw text value of the first header parameter named `name`, as a string.
fn cv_text(header: &[u8], name: &[u8]) -> (r: Option<String>)
    ensures
        opt_string_view(r) == spec_opt_text(cv_value(header@, name@)),
{
    match find_cv_value(header, name) {
        None => None,
        Some(v) => crate::foreign::utf8_to_string(vstd::slice::slice_to_vec(v)),
    }
}

/// First "scan start time" parameter of the header: the raw value and
/// whether the declared unit is seconds.
#[verifier::loop_isolation(false)]
pub fn find_scan_start_time_raw(buf: &[u8]) -> (r: Option<ScanStartTime>)
    ensures
        sst_view(r) == match cv_head(buf@, spec_cv_scan_start()) {
            None => None,
            Some(h) => match attr_in_tag(h, spec_attr_value()) {
                None => None,
                Some(v) => if vstd::utf8::valid_utf8(v) {
                    Some(
                        (
                            vstd::utf8::decode_utf8(v),
                            attr_in_tag(h, spec_attr_unit_name()) == Some(spec_unit_second()),
                        ),
                    )
                } else {
                    None
                },
            },
        },
{
    let tag = crate::pat::cvparam_open();
    let nm_attr = crate::pat::attr_name();
    let target = crate::pat::cv_scan_start();
    let mut cur: usize = 0;
    loop
        invariant
            0 <= cur <= buf@.len(),
            crate::attrs::cv_head_from(buf@, spec_cv_scan_start(), 0)
                == crate::attrs::cv_head_from(buf@, spec_cv_scan_start(), cur as int),
        decreases buf@.len() - cur,
    {
        let rest = vstd::slice::slice_subrange(buf, cur, buf.len());
        let p_rel = match memmem(rest, tag.as_slice()) {
            Some(p) => p,
            None => {
                proof {
                    lemma_find_sub_skip(buf@, tag@, cur as int);
                }
                return None;
            },
        };
        proof {
            lemma_find_sub_skip(buf@, tag@, cur as int);
            lemma_find_sub_from_correct(buf@, tag@, cur as int);
        }
        let from = cur + p_rel;
        let rest2 = vstd::slice::slice_subrange(buf, from, buf.len());
        let gt_rel = match memchr(rest2, 62) {
            Some(x) => x,
            None => {
                proof {
                    lemma_find_byte_skip(buf@, 62, from as int);
                }
                return None;
            },
        };
        proof {
            lemma_find_byte_skip(buf@, 62, from as int);
            lemma_find_byte_from_correct(buf@, 62, from as int);
        }
        let gt = from + gt_rel;
        let head = vstd::slice::slice_subrange(buf, from, gt);
        let is_named = match find_attr_value_in_tag(head, nm_attr.as_slice()) {
            Some(nm) => crate::scan::bytes_eq(nm, target.as_slice()),
            None => false,
        };
        if is_named {
            let v = match find_attr_value_in_tag(head, crate::pat::attr_value().as_slice()) {
                Some(v) => v,
                None => {
                    return None;
                },
            };
            let unit_is_second = match find_attr_value_in_tag(
                head,
                crate::pat::attr_unit_name().as_slice(),
            ) {
                Some(u) => crate::scan::bytes_eq(u, crate::pat::unit_second().as_slice()),
                None => false,
            };
            match crate::foreign::utf8_to_string(vstd::slice::slice_to_vec(v)) {
                Some(s) => {
                    return Some(ScanStartTime { value: s, unit_is_second });
                },
                None => {
                    return None;
                },
            }
        }
        cur = gt + 1;
    }
}

/// Extracts one `SpectrumSummary` from the raw bytes of a single
/// `<spectrum>` element. Header attributes come from the opening tag,
/// named parameters from a linear scan of the text before the block's
/// `<binaryDataArrayList`, and the two peak arrays from decoding each
/// embedded `<binaryDataArray>`.
pub fn parse_spectrum_block(block: &[u8]) -> (r: Option<SpectrumSummary>)
    ensures
        r matches Some(s) && summary_matches(block@, s),
{
    let spectrum_tag = crate::pat::spectrum_tag();
    let index = match find_attr_usize(block, spectrum_tag.as_slice(), crate::pat::attr_index().as_slice()) {
        Some(v) => v,
        None => 0,
    };
    let id = match find_attr_string(block, spectrum_tag.as_slice(), crate::pat::attr_id().as_slice()) {
        Some(s) => s,
        None => String::new(),
    };
    let array_length = match find_attr_usize(
        block,
        spectrum_tag.as_slice(),
        crate::pat::attr_default_array_length().as_slice(),
    ) {
        Some(v) => v,
        None => 0,
    };
    let bdal = crate::pat::bdal_open();
    let header_end = match memmem(block, bdal.as_slice()) {
        Some(p) => p,
        None => block.len(),
    };
    proof {
        lemma_find_sub_from_correct(block@, bdal@, 0);
    }
    let header = vstd::slice::slice_subrange(block, 0, header_end);
    let ms_level = find_cv_value_u32(header, crate::pat::cv_ms_level().as_slice());
    let scan_type = if has_cv_name(header, crate::pat::cv_ms1().as_slice()) {
        Some(ScanType::Ms1)
    } else if has_cv_name(header, crate::pat::cv_msn().as_slice()) {
        Some(ScanType::Msn)
    } else {
        None
    };
    let has_pos = has_cv_name(header, crate::pat::cv_positive().as_slice());
    let has_neg = has_cv_name(header, crate::pat::cv_negative().as_slice());
    let polarity = if has_pos && !has_neg {
        Some(Polarity::Positive)
    } else if has_neg && !has_pos {
        Some(Polarity::Negative)
    } else {
        None
    };
    let spectrum_type = if has_cv_name(header, crate::pat::cv_profile().as_slice()) {
        Some(SpectrumType::Profile)
    } else if has_cv_name(header, crate::pat::cv_centroid().as_slice()) {
        Some(SpectrumType::Centroid)
    } else {
        None
    };
    let total_ion_current = cv_text(header, crate::pat::cv_tic().as_slice());
    let base_peak_intensity = cv_text(header, crate::pat::cv_bpi().as_slice());
    let base_peak_mz = cv_text(header, crate::pat::cv_bpmz().as_slice());
    let retention_time = find_scan_start_time_raw(header);
    let scan_window_lower_limit = cv_text(header, crate::pat::cv_lower().as_slice());
    let scan_window_upper_limit = cv_text(header, crate::pat::cv_upper().as_slice());
    let arrays = decode_binary_arrays(block, array_length);
    Some(
        SpectrumSummary {
            index,
            id,
            array_length,
            ms_level,
            scan_type,
            polarity,
            spectrum_type,
            retention_time,
            scan_window_lower_limit,
            scan_window_upper_limit,
            total_ion_current,
            base_peak_intensity,
            base_peak_mz,
            mz_array: arrays.0,
            intensity_array: arrays.1,
        },
    )
}

} // verus!
