//! Decoding of `<binaryDataArray>` payloads: base64 text, optionally
//! zlib-compressed, reinterpreted as 64-bit or 32-bit IEEE-754 values. The
//! crate keeps the raw bit patterns; turning them into floating-point
//! numbers is the caller's last, trivial step.
use vstd::prelude::*;

use crate::attrs::attr_in_tag;
use crate::base64::{b64_groups_bytes, b64_groups_ok, strip_all_ws};
use crate::foreign::zlib_inflate;
use crate::pat::{
    spec_attr_name, spec_bda_close, spec_bda_open, spec_binary_close, spec_binary_open,
    spec_cv_big, spec_cv_f32, spec_cv_f64, spec_cv_intensity_array, spec_cv_little,
    spec_cv_mz_array, spec_cv_zlib, spec_cvparam_open,
};
use crate::scan::{
    find_byte_from, find_sub, find_sub_from, lemma_find_byte_from_correct, lemma_find_byte_skip,
    lemma_find_sub_from_correct, lemma_find_sub_skip, memchr, memmem, tag_body, tag_body_spec,
};

verus! {

// ---------------------------------------------------------------------------
// Raw IEEE-754 bit patterns
// ---------------------------------------------------------------------------

/// One decoded numeric array, kept as raw bit patterns at the width the
/// document declared.
#[derive(Clone, Debug, PartialEq, Eq)]
pub enum BinaryArray {
    Bits64(Vec<u64>),
    Bits32(Vec<u32>),
}

/// Mathematical image of a `BinaryArray`.
pub ghost enum ArrayBits {
    Bits64(Seq<u64>),
    Bits32(Seq<u32>),
}

impl View for BinaryArray {
    type V = ArrayBits;

    open spec fn view(&self) -> ArrayBits {
        match self {
            BinaryArray::Bits64(v) => ArrayBits::Bits64(v@),
            BinaryArray::Bits32(v) => ArrayBits::Bits32(v@),
        }
    }
}

pub open spec fn opt_bits(o: Option<BinaryArray>) -> Option<ArrayBits> {
    match o {
        Some(a) => Some(a@),
        None => None,
    }
}

/// The 64-bit word whose little-endian bytes sit at `off`.
pub open spec fn le_u64_at(b: Seq<u8>, off: int) -> u64 {
    (b[off] as u64) | ((b[off + 1] as u64) << 8) | ((b[off + 2] as u64) << 16) | ((b[off
        + 3] as u64) << 24) | ((b[off + 4] as u64) << 32) | ((b[off + 5] as u64) << 40) | ((b[off
        + 6] as u64) << 48) | ((b[off + 7] as u64) << 56)
}

/// The 64-bit word whose big-endian bytes sit at `off`.
pub open spec fn be_u64_at(b: Seq<u8>, off: int) -> u64 {
    (b[off + 7] as u64) | ((b[off + 6] as u64) << 8) | ((b[off + 5] as u64) << 16) | ((b[off
        + 4] as u64) << 24) | ((b[off + 3] as u64) << 32) | ((b[off + 2] as u64) << 40) | ((b[off
        + 1] as u64) << 48) | ((b[off] as u64) << 56)
}

pub open spec fn le_u32_at(b: Seq<u8>, off: int) -> u32 {
    (b[off] as u32) | ((b[off + 1] as u32) << 8) | ((b[off + 2] as u32) << 16) | ((b[off
        + 3] as u32) << 24)
}

pub open spec fn be_u32_at(b: Seq<u8>, off: int) -> u32 {
    (b[off + 3] as u32) | ((b[off + 2] as u32) << 8) | ((b[off + 1] as u32) << 16) | ((b[off
        ] as u32) << 24)
}

/// The first `min(want, b.len() / 8)` 64-bit words of `b`.
pub open spec fn u64s_of(b: Seq<u8>, little: bool, want: int) -> Seq<u64> {
    let n = if want <= b.len() / 8 {
        want
    } else {
        b.len() as int / 8
    };
    Seq::new(n as nat, |i: int| if little {
        le_u64_at(b, 8 * i)
    } else {
        be_u64_at(b, 8 * i)
    })
}

/// The first `min(want, b.len() / 4)` 32-bit words of `b`.
pub open spec fn u32s_of(b: Seq<u8>, little: bool, want: int) -> Seq<u32> {
    let n = if want <= b.len() / 4 {
        want
    } else {
        b.len() as int / 4
    };
    Seq::new(n as nat, |i: int| if little {
        le_u32_at(b, 4 * i)
    } else {
        be_u32_at(b, 4 * i)
    })
}

/// Groups `b` into 8-byte words with the given endianness, producing at
/// most `want` words; a short buffer truncates the result.
#[verifier::loop_isolation(false)]
pub fn bytes_to_u64_bits(b: &[u8], little: bool, want: usize) -> (r: Vec<u64>)
    ensures
        r@ == u64s_of(b@, little, want as int),
{
    let avail = b.len() / 8;
    let n = if want <= avail {
        want
    } else {
        avail
    };
    let mut r: Vec<u64> = Vec::new();
    let mut i: usize = 0;
    while i < n
        invariant
            0 <= i <= n,
            n == u64s_of(b@, little, want as int).len(),
            n <= b@.len() / 8,
            r@.len() == i,
            forall|k: int| 0 <= k < i ==> r@[k] == u64s_of(b@, little, want as int)[k],
        decreases n - i,
    {
        let off = 8 * i;
        let x: u64 = if little {
            (b[off] as u64) | ((b[off + 1] as u64) << 8u64) | ((b[off + 2] as u64) << 16u64) | ((
            b[off + 3] as u64) << 24u64) | ((b[off + 4] as u64) << 32u64) | ((b[off
                + 5] as u64) << 40u64) | ((b[off + 6] as u64) << 48u64) | ((b[off
                + 7] as u64) << 56u64)
        } else {
            (b[off + 7] as u64) | ((b[off + 6] as u64) << 8u64) | ((b[off + 5] as u64) << 16u64)
                | ((b[off + 4] as u64) << 24u64) | ((b[off + 3] as u64) << 32u64) | ((b[off
                + 2] as u64) << 40u64) | ((b[off + 1] as u64) << 48u64) | ((b[off] as u64) << 56u64)
        };
        r.push(x);
        i = i + 1;
    }
    proof {
        assert(r@ =~= u64s_of(b@, little, want as int));
    }
    r
}

/// Groups `b` into 4-byte words with the given endianness, producing at
/// most `want` words.
#[verifier::loop_isolation(false)]
pub fn bytes_to_u32_bits(b: &[u8], little: bool, want: usize) -> (r: Vec<u32>)
    ensures
        r@ == u32s_of(b@, little, want as int),
{
    let avail = b.len() / 4;
    let n = if want <= avail {
        want
    } else {
        avail
    };
    let mut r: Vec<u32> = Vec::new();
    let mut i: usize = 0;
    while i < n
        invariant
            0 <= i <= n,
            n == u32s_of(b@, little, want as int).len(),
            n <= b@.len() / 4,
            r@.len() == i,
            forall|k: int| 0 <= k < i ==> r@[k] == u32s_of(b@, little, want as int)[k],
        decreases n - i,
    {
        let off = 4 * i;
        let x: u32 = if little {
            (b[off] as u32) | ((b[off + 1] as u32) << 8u32) | ((b[off + 2] as u32) << 16u32) | ((
            b[off + 3] as u32) << 24u32)
        } else {
            (b[off + 3] as u32) | ((b[off + 2] as u32) << 8u32) | ((b[off + 1] as u32) << 16u32)
                | ((b[off] as u32) << 24u32)
        };
        r.push(x);
        i = i + 1;
    }
    proof {
        assert(r@ =~= u32s_of(b@, little, want as int));
    }
    r
}

// ---------------------------------------------------------------------------
// Round trip of the word codec
// ---------------------------------------------------------------------------

/// The little-endian bytes of one 64-bit word.
pub open spec fn le_bytes_of_u64(x: u64) -> Seq<u8> {
    seq![
        (x & 0xFF) as u8,
        ((x >> 8) & 0xFF) as u8,
        ((x >> 16) & 0xFF) as u8,
        ((x >> 24) & 0xFF) as u8,
        ((x >> 32) & 0xFF) as u8,
        ((x >> 40) & 0xFF) as u8,
        ((x >> 48) & 0xFF) as u8,
        ((x >> 56) & 0xFF) as u8,
    ]
}

/// The little-endian bytes of a word sequence, concatenated.
pub open spec fn le_bytes_of_u64s(vs: Seq<u64>) -> Seq<u8>
    decreases vs.len(),
{
    if vs.len() == 0 {
        seq![]
    } else {
        le_bytes_of_u64(vs[0]) + le_bytes_of_u64s(vs.drop_first())
    }
}

/// Reassembling one word from its little-endian bytes gives the word back.
proof fn lemma_le_u64_one(x: u64)
    ensures
        le_u64_at(le_bytes_of_u64(x), 0) == x,
{
    let b = le_bytes_of_u64(x);
    assert(((x & 0xFF) as u8 as u64) | ((((x >> 8) & 0xFF) as u8 as u64) << 8) | ((((x >> 16)
        & 0xFF) as u8 as u64) << 16) | ((((x >> 24) & 0xFF) as u8 as u64) << 24) | ((((x >> 32)
        & 0xFF) as u8 as u64) << 32) | ((((x >> 40) & 0xFF) as u8 as u64) << 40) | ((((x >> 48)
        & 0xFF) as u8 as u64) << 48) | ((((x >> 56) & 0xFF) as u8 as u64) << 56) == x)
        by (bit_vector);
}

/// Round trip of the word codec: grouping the little-endian bytes of any
/// word sequence yields exactly those words.
pub proof fn lemma_le_u64s_round_trip(vs: Seq<u64>)
    ensures
        le_bytes_of_u64s(vs).len() == 8 * vs.len(),
        u64s_of(le_bytes_of_u64s(vs), true, vs.len() as int) == vs,
    decreases vs.len(),
{
    let b = le_bytes_of_u64s(vs);
    if vs.len() == 0 {
        assert(u64s_of(b, true, 0) =~= vs);
    } else {
        lemma_le_u64s_round_trip(vs.drop_first());
        let tail = le_bytes_of_u64s(vs.drop_first());
        assert(b.len() == 8 * vs.len());
        assert forall|i: int| 0 <= i < vs.len() implies u64s_of(b, true, vs.len() as int)[i]
            == vs[i] by {
            if i == 0 {
                lemma_le_u64_one(vs[0]);
                assert(b.subrange(0, 8) =~= le_bytes_of_u64(vs[0]));
                assert(le_u64_at(b, 0) == le_u64_at(le_bytes_of_u64(vs[0]), 0));
            } else {
                assert(b[8 * i] == tail[8 * (i - 1)]);
                assert(b[8 * i + 1] == tail[8 * (i - 1) + 1]);
                assert(b[8 * i + 2] == tail[8 * (i - 1) + 2]);
                assert(b[8 * i + 3] == tail[8 * (i - 1) + 3]);
                assert(b[8 * i + 4] == tail[8 * (i - 1) + 4]);
                assert(b[8 * i + 5] == tail[8 * (i - 1) + 5]);
                assert(b[8 * i + 6] == tail[8 * (i - 1) + 6]);
                assert(b[8 * i + 7] == tail[8 * (i - 1) + 7]);
                assert(le_u64_at(b, 8 * i) == le_u64_at(tail, 8 * (i - 1)));
                assert(u64s_of(tail, true, vs.drop_first().len() as int)[i - 1] == vs.drop_first()[
                    i - 1
                ]);
            }
        }
        assert(u64s_of(b, true, vs.len() as int) =~= vs);
    }
}

/// Round trip of a whole payload (the text codec composed with the word
/// codec): base64 text encoding the little-endian bytes of any words
/// decodes, and grouping the decoded bytes yields exactly those words.
pub proof fn lemma_payload_round_trip(vs: Seq<u64>)
    ensures
        b64_groups_ok(crate::base64::b64_encode(le_bytes_of_u64s(vs))),
        strip_all_ws(crate::base64::b64_encode(le_bytes_of_u64s(vs)))
            == crate::base64::b64_encode(le_bytes_of_u64s(vs)),
        u64s_of(
            b64_groups_bytes(crate::base64::b64_encode(le_bytes_of_u64s(vs))),
            true,
            vs.len() as int,
        ) == vs,
{
    crate::base64::lemma_b64_round_trip(le_bytes_of_u64s(vs));
    crate::base64::lemma_encode_no_ws(le_bytes_of_u64s(vs));
    crate::base64::lemma_strip_ws_id(crate::base64::b64_encode(le_bytes_of_u64s(vs)));
    lemma_le_u64s_round_trip(vs);
}

// ---------------------------------------------------------------------------
// Per-array flags
// ---------------------------------------------------------------------------

/// Flags in the order the extractor reports them:
/// (is m/z, is intensity, zlib-compressed, 64-bit, 32-bit, little-endian).
pub open spec fn flag_step(
    acc: (bool, bool, bool, bool, bool, bool),
    nm: Option<Seq<u8>>,
) -> (bool, bool, bool, bool, bool, bool) {
    match nm {
        None => acc,
        Some(n) => if n == spec_cv_mz_array() {
            (true, acc.1, acc.2, acc.3, acc.4, acc.5)
        } else if n == spec_cv_intensity_array() {
            (acc.0, true, acc.2, acc.3, acc.4, acc.5)
        } else if n == spec_cv_zlib() {
            (acc.0, acc.1, true, acc.3, acc.4, acc.5)
        } else if n == spec_cv_f64() {
            (acc.0, acc.1, acc.2, true, acc.4, acc.5)
        } else if n == spec_cv_f32() {
            (acc.0, acc.1, acc.2, acc.3, true, acc.5)
        } else if n == spec_cv_little() {
            (acc.0, acc.1, acc.2, acc.3, acc.4, true)
        } else if n == spec_cv_big() {
            (acc.0, acc.1, acc.2, acc.3, acc.4, false)
        } else {
            acc
        },
    }
}

/// Folds `flag_step` over every complete `<cvParam ...>` tag at or after
/// `from`.
pub open spec fn flags_scan(
    head: Seq<u8>,
    from: int,
    acc: (bool, bool, bool, bool, bool, bool),
) -> (bool, bool, bool, bool, bool, bool)
    decreases head.len() - from,
    via flags_scan_dec
{
    match find_sub_from(head, spec_cvparam_open(), from) {
        None => acc,
        Some(p) => match find_byte_from(head, 62, p) {
            None => acc,
            Some(g) => flags_scan(
                head,
                g + 1,
                flag_step(acc, attr_in_tag(head.subrange(p, g), spec_attr_name())),
            ),
        },
    }
}

#[via_fn]
proof fn flags_scan_dec(head: Seq<u8>, from: int, acc: (bool, bool, bool, bool, bool, bool)) {
    if from >= 0 {
        lemma_find_sub_from_correct(head, spec_cvparam_open(), from);
        if let Some(p) = find_sub_from(head, spec_cvparam_open(), from) {
            lemma_find_byte_from_correct(head, 62, p);
        }
    }
}

/// Flags of one `<binaryDataArray>` span: its parameters are scanned up to
/// its `<binary>` payload; endianness defaults to little.
pub open spec fn bda_flags_spec(b: Seq<u8>) -> (bool, bool, bool, bool, bool, bool) {
    let stop = match find_sub(b, spec_binary_open()) {
        Some(p) => p,
        None => b.len() as int,
    };
    flags_scan(b.subrange(0, stop), 0, (false, false, false, false, false, true))
}

/// Classifies one `<binaryDataArray>` span by its parameter names:
/// (is m/z, is intensity, zlib-compressed, 64-bit, 32-bit, little-endian).
#[verifier::loop_isolation(false)]
#[verifier::rlimit(60)]
pub fn bda_flags(b: &[u8]) -> (r: (bool, bool, bool, bool, bool, bool))
    ensures
        r == bda_flags_spec(b@),
{
    let binary_pat = crate::pat::binary_open();
    let stop = match memmem(b, binary_pat.as_slice()) {
        Some(p) => p,
        None => b.len(),
    };
    proof {
        lemma_find_sub_from_correct(b@, binary_pat@, 0);
    }
    let head = vstd::slice::slice_subrange(b, 0, stop);
    let tag = crate::pat::cvparam_open();
    let nm_attr = crate::pat::attr_name();
    let p_mz = crate::pat::cv_mz_array();
    let p_int = crate::pat::cv_intensity_array();
    let p_zlib = crate::pat::cv_zlib();
    let p_f64 = crate::pat::cv_f64();
    let p_f32 = crate::pat::cv_f32();
    let p_little = crate::pat::cv_little();
    let p_big = crate::pat::cv_big();
    let mut kind_mz = false;
    let mut kind_int = false;
    let mut is_zlib = false;
    let mut is_f64 = false;
    let mut is_f32 = false;
    let mut little = true;
    let mut cur: usize = 0;
    proof {
        assert(flags_scan(head@, 0, (false, false, false, false, false, true)) == bda_flags_spec(
            b@,
        ));
    }
    loop
        invariant
            0 <= cur <= head@.len(),
            flags_scan(head@, cur as int, (kind_mz, kind_int, is_zlib, is_f64, is_f32, little))
                == bda_flags_spec(b@),
        decreases head@.len() - cur,
    {
        let rest = vstd::slice::slice_subrange(head, cur, head.len());
        let p_rel = match memmem(rest, tag.as_slice()) {
            Some(p) => p,
            None => {
                proof {
                    lemma_find_sub_skip(head@, tag@, cur as int);
                }
                break ;
            },
        };
        proof {
            lemma_find_sub_skip(head@, tag@, cur as int);
            lemma_find_sub_from_correct(head@, tag@, cur as int);
        }
        let from = cur + p_rel;
        let rest2 = vstd::slice::slice_subrange(head, from, head.len());
        let gt_rel = match memchr(rest2, 62) {
            Some(x) => x,
            None => {
                proof {
                    lemma_find_byte_skip(head@, 62, from as int);
                }
                break ;
            },
        };
        proof {
            lemma_find_byte_skip(head@, 62, from as int);
            lemma_find_byte_from_correct(head@, 62, from as int);
        }
        let gt = from + gt_rel;
        let tag_head = vstd::slice::slice_subrange(head, from, gt);
        if let Some(nm) = crate::attrs::find_attr_value_in_tag(tag_head, nm_attr.as_slice()) {
            if crate::scan::bytes_eq(nm, p_mz.as_slice()) {
                kind_mz = true;
            } else if crate::scan::bytes_eq(nm, p_int.as_slice()) {
                kind_int = true;
            } else if crate::scan::bytes_eq(nm, p_zlib.as_slice()) {
                is_zlib = true;
            } else if crate::scan::bytes_eq(nm, p_f64.as_slice()) {
                is_f64 = true;
            } else if crate::scan::bytes_eq(nm, p_f32.as_slice()) {
                is_f32 = true;
            } else if crate::scan::bytes_eq(nm, p_little.as_slice()) {
                little = true;
            } else if crate::scan::bytes_eq(nm, p_big.as_slice()) {
                little = false;
            }
        }
        cur = gt + 1;
    }
    (kind_mz, kind_int, is_zlib, is_f64, is_f32, little)
}

// ---------------------------------------------------------------------------
// Decoding all arrays of one spectrum block
// ---------------------------------------------------------------------------

/// Effect of one `<binaryDataArray>` span on the (m/z, intensity) slots:
/// the payload is base64-decoded, inflated if flagged zlib-compressed,
/// grouped into words, clamped to the declared length, and assigned to the
/// slot its kind flags pick; a span flagged as both kinds or neither, or
/// whose payload fails to decode, changes nothing.
pub open spec fn bda_step(
    b: Seq<u8>,
    expected: int,
    mz: Option<ArrayBits>,
    inten: Option<ArrayBits>,
) -> (Option<ArrayBits>, Option<ArrayBits>) {
    let f = bda_flags_spec(b);
    match tag_body_spec(b, spec_binary_open(), spec_binary_close()) {
        None => (mz, inten),
        Some(pair) => {
            let t = strip_all_ws(b.subrange(pair.0, pair.1));
            if !b64_groups_ok(t) {
                (mz, inten)
            } else {
                let raw = b64_groups_bytes(t);
                let bytes_opt = if f.2 {
                    zlib_inflate(raw)
                } else {
                    Some(raw)
                };
                match bytes_opt {
                    None => (mz, inten),
                    Some(bytes) => {
                        let want = if expected > 0 {
                            expected
                        } else if f.3 {
                            bytes.len() as int / 8
                        } else {
                            bytes.len() as int / 4
                        };
                        let vals = if f.3 {
                            ArrayBits::Bits64(u64s_of(bytes, f.5, want))
                        } else if f.4 {
                            ArrayBits::Bits32(u32s_of(bytes, f.5, want))
                        } else {
                            ArrayBits::Bits64(Seq::empty())
                        };
                        if f.0 && !f.1 {
                            (Some(vals), inten)
                        } else if !f.0 && f.1 {
                            (mz, Some(vals))
                        } else {
                            (mz, inten)
                        }
                    },
                }
            }
        },
    }
}

/// Folds `bda_step` over every `<binaryDataArray ...> ... </binaryDataArray>`
/// span at or after `from`, in document order.
pub open spec fn bda_scan(
    block: Seq<u8>,
    expected: int,
    from: int,
    mz: Option<ArrayBits>,
    inten: Option<ArrayBits>,
) -> (Option<ArrayBits>, Option<ArrayBits>)
    decreases block.len() - from,
    via bda_scan_dec
{
    match find_sub_from(block, spec_bda_open(), from) {
        None => (mz, inten),
        Some(start) => match find_sub_from(block, spec_bda_close(), start) {
            None => (mz, inten),
            Some(e) => {
                let st = bda_step(block.subrange(start, e), expected, mz, inten);
                bda_scan(block, expected, e + spec_bda_close().len(), st.0, st.1)
            },
        },
    }
}

#[via_fn]
proof fn bda_scan_dec(
    block: Seq<u8>,
    expected: int,
    from: int,
    mz: Option<ArrayBits>,
    inten: Option<ArrayBits>,
) {
    if from >= 0 {
        lemma_find_sub_from_correct(block, spec_bda_open(), from);
        if let Some(start) = find_sub_from(block, spec_bda_open(), from) {
            lemma_find_sub_from_correct(block, spec_bda_close(), start);
        }
    }
}

/// Applies one array span to the two slots.
fn bda_apply(
    bspan: &[u8],
    expected_len: usize,
    mz: Option<BinaryArray>,
    inten: Option<BinaryArray>,
) -> (r: (Option<BinaryArray>, Option<BinaryArray>))
    ensures
        (opt_bits(r.0), opt_bits(r.1)) == bda_step(
            bspan@,
            expected_len as int,
            opt_bits(mz),
            opt_bits(inten),
        ),
{
    let f = bda_flags(bspan);
    let open_pat = crate::pat::binary_open();
    let close_pat = crate::pat::binary_close();
    let pair = match tag_body(bspan, open_pat.as_slice(), close_pat.as_slice()) {
        Some(p) => p,
        None => {
            return (mz, inten);
        },
    };
    let payload = vstd::slice::slice_subrange(bspan, pair.0, pair.1);
    let mut buf: Vec<u8> = Vec::new();
    let ok = crate::base64::decode_base64_ws_into(payload, &mut buf);
    if !ok {
        return (mz, inten);
    }
    proof {
        assert(buf@ =~= b64_groups_bytes(strip_all_ws(payload@)));
    }
    let bytes: Vec<u8> = if f.2 {
        match crate::foreign::inflate_zlib(buf.as_slice()) {
            Some(v) => v,
            None => {
                return (mz, inten);
            },
        }
    } else {
        buf
    };
    let want: usize = if expected_len > 0 {
        expected_len
    } else if f.3 {
        bytes.len() / 8
    } else {
        bytes.len() / 4
    };
    let vals: BinaryArray = if f.3 {
        BinaryArray::Bits64(bytes_to_u64_bits(bytes.as_slice(), f.5, want))
    } else if f.4 {
        BinaryArray::Bits32(bytes_to_u32_bits(bytes.as_slice(), f.5, want))
    } else {
        let empty: Vec<u64> = Vec::new();
        proof {
            assert(empty@ =~= Seq::<u64>::empty());
        }
        BinaryArray::Bits64(empty)
    };
    if f.0 && !f.1 {
        (Some(vals), inten)
    } else if !f.0 && f.1 {
        (mz, Some(vals))
    } else {
        (mz, inten)
    }
}

/// Decodes every binary array in one spectrum block, assigning each to the
/// m/z or intensity slot its kind flags pick. Later arrays of the same kind
/// overwrite earlier ones; decode failures leave their slot untouched.
#[verifier::loop_isolation(false)]
pub fn decode_binary_arrays(block: &[u8], expected_len: usize) -> (r: (
    Option<BinaryArray>,
    Option<BinaryArray>,
))
    ensures
        (opt_bits(r.0), opt_bits(r.1)) == bda_scan(block@, expected_len as int, 0, None, None),
{
    let open_pat = crate::pat::bda_open();
    let close_pat = crate::pat::bda_close();
    let mut mz: Option<BinaryArray> = None;
    let mut inten: Option<BinaryArray> = None;
    let mut cur: usize = 0;
    loop
        invariant
            0 <= cur <= block@.len(),
            bda_scan(block@, expected_len as int, cur as int, opt_bits(mz), opt_bits(inten))
                == bda_scan(block@, expected_len as int, 0, None, None),
        decreases block@.len() - cur,
    {
        let rest = vstd::slice::slice_subrange(block, cur, block.len());
        let p_rel = match memmem(rest, open_pat.as_slice()) {
            Some(p) => p,
            None => {
                proof {
                    lemma_find_sub_skip(block@, open_pat@, cur as int);
                }
                return (mz, inten);
            },
        };
        proof {
            lemma_find_sub_skip(block@, open_pat@, cur as int);
            lemma_find_sub_from_correct(block@, open_pat@, cur as int);
        }
        let start = cur + p_rel;
        let rest2 = vstd::slice::slice_subrange(block, start, block.len());
        let e_rel = match memmem(rest2, close_pat.as_slice()) {
            Some(v) => v,
            None => {
                proof {
                    lemma_find_sub_skip(block@, close_pat@, start as int);
                }
                return (mz, inten);
            },
        };
        proof {
            lemma_find_sub_skip(block@, close_pat@, start as int);
            lemma_find_sub_from_correct(block@, close_pat@, start as int);
        }
        let e = start + e_rel;
        let bspan = vstd::slice::slice_subrange(block, start, e);
        let pair = bda_apply(bspan, expected_len, mz, inten);
        mz = pair.0;
        inten = pair.1;
        cur = e + close_pat.len();
    }
}

} // verus!
