//! Attribute lookup inside raw tag text, and the linear scan over
//! `<cvParam>` annotations that the spectrum extractor uses. The scan is
//! deliberately nesting-unaware: the first matching parameter name in the
//! searched text wins, which suffices for mzML's flat parameter layout.
use vstd::prelude::*;

use crate::pat::{attr_name, cvparam_open, spec_attr_name, spec_attr_value, spec_cvparam_open};
use crate::scan::{
    find_byte_from, find_sub, find_sub_from, lemma_find_byte_from_correct, lemma_find_byte_skip,
    lemma_find_sub_from_correct, lemma_find_sub_skip, memchr, memmem, opt_seq, parse_u32_ascii,
    parse_u32_rust, parse_usize_ascii, parse_usize_rust,
};

verus! {

// ---------------------------------------------------------------------------
// Attribute lookup within one tag's text
// ---------------------------------------------------------------------------

/// Value of `attr="..."` (or single-quoted) at its first occurrence inside
/// the tag text `head`.
pub open spec fn attr_in_tag(head: Seq<u8>, attr: Seq<u8>) -> Option<Seq<u8>> {
    let pat = attr + seq![61u8];
    match find_sub(head, pat) {
        None => None,
        Some(p) => {
            let q = p + pat.len();
            if q >= head.len() {
                None
            } else {
                let quote = head[q];
                if quote != 34 && quote != 39 {
                    None
                } else {
                    match find_byte_from(head, quote, q + 1) {
                        None => None,
                        Some(e) => Some(head.subrange(q + 1, e)),
                    }
                }
            }
        },
    }
}

/// Looks up `attr=` inside one tag's text and returns the quoted value.
#[verifier::loop_isolation(false)]
pub fn find_attr_value_in_tag<'a>(head: &'a [u8], attr: &[u8]) -> (r: Option<&'a [u8]>)
    ensures
        opt_seq(r) == attr_in_tag(head@, attr@),
{
    let pat = crate::scan::bytes_then(attr, 61);
    let p = match memmem(head, pat.as_slice()) {
        Some(p) => p,
        None => {
            return None;
        },
    };
    let hl = head.len();
    proof {
        lemma_find_sub_from_correct(head@, pat@, 0);
    }
    let q = p + pat.len();
    if q >= hl {
        return None;
    }
    let quote = head[q];
    if quote != 34 && quote != 39 {
        return None;
    }
    let rest = vstd::slice::slice_subrange(head, q + 1, head.len());
    match memchr(rest, quote) {
        None => {
            proof {
                lemma_find_byte_skip(head@, quote, q as int + 1);
            }
            None
        },
        Some(e) => {
            proof {
                lemma_find_byte_skip(head@, quote, q as int + 1);
                lemma_find_byte_from_correct(head@, quote, q as int + 1);
            }
            let v = vstd::slice::slice_subrange(head, q + 1, q + 1 + e);
            Some(v)
        },
    }
}

// ---------------------------------------------------------------------------
// Attribute lookup on the first occurrence of a named tag
// ---------------------------------------------------------------------------

/// Value of `attr` within the first `<tag ...>` in `buf`.
pub open spec fn attr_of_tag(buf: Seq<u8>, tag: Seq<u8>, attr: Seq<u8>) -> Option<Seq<u8>> {
    let pat = seq![60u8] + tag;
    match find_sub(buf, pat) {
        None => None,
        Some(start) => match find_byte_from(buf, 62, start) {
            None => None,
            Some(gt) => attr_in_tag(buf.subrange(start, gt), attr),
        },
    }
}

/// Finds the first `<tag`, cuts its text at the closing `>`, and reads the
/// requested attribute from it.
#[verifier::loop_isolation(false)]
pub fn find_attr_ascii<'a>(buf: &'a [u8], tag: &[u8], attr: &[u8]) -> (r: Option<&'a [u8]>)
    ensures
        opt_seq(r) == attr_of_tag(buf@, tag@, attr@),
{
    let pat = crate::scan::byte_then(60, tag);
    let start = match memmem(buf, pat.as_slice()) {
        Some(p) => p,
        None => {
            return None;
        },
    };
    proof {
        lemma_find_sub_from_correct(buf@, pat@, 0);
    }
    let rest = vstd::slice::slice_subrange(buf, start, buf.len());
    let gt_rel = match memchr(rest, 62) {
        Some(x) => x,
        None => {
            proof {
                lemma_find_byte_skip(buf@, 62, start as int);
            }
            return None;
        },
    };
    proof {
        lemma_find_byte_skip(buf@, 62, start as int);
        lemma_find_byte_from_correct(buf@, 62, start as int);
    }
    let gt = start + gt_rel;
    let head = vstd::slice::slice_subrange(buf, start, gt);
    find_attr_value_in_tag(head, attr)
}

/// `attr` of the first `<tag ...>`, parsed as `usize` the way `std` parses.
pub open spec fn attr_usize_of(buf: Seq<u8>, tag: Seq<u8>, attr: Seq<u8>) -> Option<usize> {
    match attr_of_tag(buf, tag, attr) {
        None => None,
        Some(v) => parse_usize_rust(v),
    }
}

pub fn find_attr_usize(buf: &[u8], tag: &[u8], attr: &[u8]) -> (r: Option<usize>)
    ensures
        r == attr_usize_of(buf@, tag@, attr@),
{
    match find_attr_ascii(buf, tag, attr) {
        None => None,
        Some(v) => parse_usize_ascii(v),
    }
}

/// `attr` of the first `<tag ...>`, decoded from UTF-8; `None` where the
/// attribute is missing or its bytes are not valid UTF-8.
pub open spec fn attr_string_of(buf: Seq<u8>, tag: Seq<u8>, attr: Seq<u8>) -> Option<Seq<char>> {
    match attr_of_tag(buf, tag, attr) {
        None => None,
        Some(v) => if vstd::utf8::valid_utf8(v) {
            Some(vstd::utf8::decode_utf8(v))
        } else {
            None
        },
    }
}

pub fn find_attr_string(buf: &[u8], tag: &[u8], attr: &[u8]) -> (r: Option<String>)
    ensures
        match r {
            Some(s) => attr_string_of(buf@, tag@, attr@) == Some(s@),
            None => attr_string_of(buf@, tag@, attr@) is None,
        },
{
    match find_attr_ascii(buf, tag, attr) {
        None => None,
        Some(v) => crate::foreign::utf8_to_string(vstd::slice::slice_to_vec(v)),
    }
}

// ---------------------------------------------------------------------------
// Linear scan over <cvParam> tags
// ---------------------------------------------------------------------------

/// Text of the first complete `<cvParam ...>` tag at or after `from` whose
/// `name` attribute equals `name`. The scan stops at a `<cvParam` with no
/// closing `>`.
pub open spec fn cv_head_from(buf: Seq<u8>, name: Seq<u8>, from: int) -> Option<Seq<u8>>
    decreases buf.len() - from,
    via cv_head_from_dec
{
    match find_sub_from(buf, spec_cvparam_open(), from) {
        None => None,
        Some(p) => match find_byte_from(buf, 62, p) {
            None => None,
            Some(g) => {
                let head = buf.subrange(p, g);
                if attr_in_tag(head, spec_attr_name()) == Some(name) {
                    Some(head)
                } else {
                    cv_head_from(buf, name, g + 1)
                }
            },
        },
    }
}

#[via_fn]
proof fn cv_head_from_dec(buf: Seq<u8>, name: Seq<u8>, from: int) {
    if from >= 0 {
        lemma_find_sub_from_correct(buf, spec_cvparam_open(), from);
        if let Some(p) = find_sub_from(buf, spec_cvparam_open(), from) {
            lemma_find_byte_from_correct(buf, 62, p);
        }
    }
}

pub open spec fn cv_head(buf: Seq<u8>, name: Seq<u8>) -> Option<Seq<u8>> {
    cv_head_from(buf, name, 0)
}

/// Some `<cvParam ...>` in `buf` carries this `name` attribute.
pub open spec fn has_cv_name_spec(buf: Seq<u8>, name: Seq<u8>) -> bool {
    cv_head(buf, name) is Some
}

/// `value` attribute of the first `<cvParam>` named `name`, if that tag
/// carries one.
pub open spec fn cv_value(buf: Seq<u8>, name: Seq<u8>) -> Option<Seq<u8>> {
    match cv_head(buf, name) {
        None => None,
        Some(h) => attr_in_tag(h, spec_attr_value()),
    }
}

/// Whether any `<cvParam>` in `buf` is named `name`.
#[verifier::loop_isolation(false)]
pub fn has_cv_name(buf: &[u8], name: &[u8]) -> (r: bool)
    ensures
        r == has_cv_name_spec(buf@, name@),
{
    let tag = cvparam_open();
    let nm_attr = attr_name();
    let mut cur: usize = 0;
    loop
        invariant
            0 <= cur <= buf@.len(),
            tag@ == spec_cvparam_open(),
            nm_attr@ == spec_attr_name(),
            cv_head_from(buf@, name@, 0) == cv_head_from(buf@, name@, cur as int),
        decreases buf@.len() - cur,
    {
        let rest = vstd::slice::slice_subrange(buf, cur, buf.len());
        let p_rel = match memmem(rest, tag.as_slice()) {
            Some(p) => p,
            None => {
                proof {
                    lemma_find_sub_skip(buf@, tag@, cur as int);
                }
                return false;
            },
        };
        proof {
            lemma_find_sub_skip(buf@, tag@, cur as int);
            lemma_find_sub_from_correct(buf@, tag@, cur as int);
        }
        let from = cur + p_rel;
        let rest2 = vstd::slice::slice_subrange(buf, from, buf.len());
        let gt_rel = match memchr(rest2, 62) {
            Some(x) => x,
            None => {
                proof {
                    lemma_find_byte_skip(buf@, 62, from as int);
                }
                return false;
            },
        };
        proof {
            lemma_find_byte_skip(buf@, 62, from as int);
            lemma_find_byte_from_correct(buf@, 62, from as int);
        }
        let gt = from + gt_rel;
        let head = vstd::slice::slice_subrange(buf, from, gt);
        if let Some(v) = find_attr_value_in_tag(head, nm_attr.as_slice()) {
            if crate::scan::bytes_eq(v, name) {
                return true;
            }
        }
        cur = gt + 1;
    }
}

/// `value` attribute of the first `<cvParam>` whose `name` equals `name`.
#[verifier::loop_isolation(false)]
pub fn find_cv_value<'a>(buf: &'a [u8], name: &[u8]) -> (r: Option<&'a [u8]>)
    ensures
        opt_seq(r) == cv_value(buf@, name@),
{
    let tag = cvparam_open();
    let nm_attr = attr_name();
    let mut cur: usize = 0;
    loop
        invariant
            0 <= cur <= buf@.len(),
            tag@ == spec_cvparam_open(),
            nm_attr@ == spec_attr_name(),
            cv_head_from(buf@, name@, 0) == cv_head_from(buf@, name@, cur as int),
        decreases buf@.len() - cur,
    {
        let rest = vstd::slice::slice_subrange(buf, cur, buf.len());
        let p_rel = match memmem(rest, tag.as_slice()) {
            Some(p) => p,
            None => {
                proof {
                    lemma_find_sub_skip(buf@, tag@, cur as int);
                }
                return None;
            },
        };
        proof {
            lemma_find_sub_skip(buf@, tag@, cur as int);
            lemma_find_sub_from_correct(buf@, tag@, cur as int);
        }
        let from = cur + p_rel;
        let rest2 = vstd::slice::slice_subrange(buf, from, buf.len());
        let gt_rel = match memchr(rest2, 62) {
            Some(x) => x,
            None => {
                proof {
                    lemma_find_byte_skip(buf@, 62, from as int);
                }
                return None;
            },
        };
        proof {
            lemma_find_byte_skip(buf@, 62, from as int);
            lemma_find_byte_from_correct(buf@, 62, from as int);
        }
        let gt = from + gt_rel;
        let head = vstd::slice::slice_subrange(buf, from, gt);
        let is_named = match find_attr_value_in_tag(head, nm_attr.as_slice()) {
            Some(v) => crate::scan::bytes_eq(v, name),
            None => false,
        };
        if is_named {
            let value_attr = crate::pat::attr_value();
            return find_attr_value_in_tag(head, value_attr.as_slice());
        }
        cur = gt + 1;
    }
}

/// First `name`-matching `<cvParam>` value parsed as `u32`.
pub open spec fn cv_u32(buf: Seq<u8>, name: Seq<u8>) -> Option<u32> {
    match cv_value(buf, name) {
        None => None,
        Some(v) => parse_u32_rust(v),
    }
}

pub fn find_cv_value_u32(buf: &[u8], name: &[u8]) -> (r: Option<u32>)
    ensures
        r == cv_u32(buf@, name@),
{
    match find_cv_value(buf, name) {
        None => None,
        Some(v) => parse_u32_ascii(v),
    }
}

} // verus!
