//! The trailing offset index of an mzML document: a `<indexListOffset>`
//! pointer in the last 64 KiB, and inside the block it points at, an
//! `<index name="spectrum">` element whose `<offset>` children list the
//! byte position of every `<spectrum>` start tag, in document order.
use vstd::prelude::*;

use crate::pat::{
    spec_ilo_close, spec_ilo_open, spec_index_close, spec_index_spectrum_open, spec_offset_close,
    spec_offset_open, spec_spectrum_close,
};
use crate::scan::{
    find_byte_from, find_sub, find_sub_from, lemma_find_byte_from_correct, lemma_find_byte_skip,
    lemma_find_sub_from_correct, lemma_find_sub_skip, memchr, memmem, opt_int, parse_u64_ascii,
    parse_u64_digits, trim_spec,
};

verus! {

// ---------------------------------------------------------------------------
// <indexListOffset>
// ---------------------------------------------------------------------------

/// The decimal value between the first `<indexListOffset>` and the next
/// `</indexListOffset>` in `tail`.
pub open spec fn spec_index_list_offset(tail: Seq<u8>) -> Option<u64> {
    match find_sub(tail, spec_ilo_open()) {
        None => None,
        Some(p) => {
            let a = p + spec_ilo_open().len();
            match find_sub_from(tail, spec_ilo_close(), a) {
                None => None,
                Some(e) => parse_u64_digits(trim_spec(tail.subrange(a, e))),
            }
        },
    }
}

/// Reads the absolute file offset of the index block out of the document's
/// tail bytes.
pub fn extract_index_list_offset(tail: &[u8]) -> (r: Option<u64>)
    ensures
        r == spec_index_list_offset(tail@),
{
    let open_pat = crate::pat::ilo_open();
    let close_pat = crate::pat::ilo_close();
    let p = match memmem(tail, open_pat.as_slice()) {
        Some(p) => p,
        None => {
            return None;
        },
    };
    let tl = tail.len();
    proof {
        lemma_find_sub_from_correct(tail@, open_pat@, 0);
    }
    let a = p + open_pat.len();
    let rest = vstd::slice::slice_subrange(tail, a, tl);
    let e_rel = match memmem(rest, close_pat.as_slice()) {
        Some(e) => e,
        None => {
            proof {
                lemma_find_sub_skip(tail@, close_pat@, a as int);
            }
            return None;
        },
    };
    proof {
        lemma_find_sub_skip(tail@, close_pat@, a as int);
        lemma_find_sub_from_correct(tail@, close_pat@, a as int);
    }
    let num = vstd::slice::slice_subrange(tail, a, a + e_rel);
    parse_u64_ascii(num)
}

// ---------------------------------------------------------------------------
// <index name="spectrum"> ... <offset>NNN</offset> ... </index>
// ---------------------------------------------------------------------------

/// The offsets listed by each complete `<offset ...>NNN</offset>` entry at
/// or after `from`, in order; entries whose text does not parse are
/// skipped.
pub open spec fn spec_offsets_scan(block: Seq<u8>, from: int) -> Seq<u64>
    decreases block.len() - from,
    via spec_offsets_scan_dec
{
    match find_sub_from(block, spec_offset_open(), from) {
        None => seq![],
        Some(p) => match find_byte_from(block, 62, p) {
            None => seq![],
            Some(gm) => {
                let g = gm + 1;
                match find_sub_from(block, spec_offset_close(), g) {
                    None => seq![],
                    Some(e) => {
                        let rest = spec_offsets_scan(block, e + spec_offset_close().len());
                        match parse_u64_digits(trim_spec(block.subrange(g, e))) {
                            Some(v) => seq![v] + rest,
                            None => rest,
                        }
                    },
                }
            },
        },
    }
}

#[via_fn]
proof fn spec_offsets_scan_dec(block: Seq<u8>, from: int) {
    if from >= 0 {
        lemma_find_sub_from_correct(block, spec_offset_open(), from);
        if let Some(p) = find_sub_from(block, spec_offset_open(), from) {
            lemma_find_byte_from_correct(block, 62, p);
            if let Some(gm) = find_byte_from(block, 62, p) {
                lemma_find_sub_from_correct(block, spec_offset_close(), gm + 1);
            }
        }
    }
}

/// All spectrum offsets of `buf`: the `<offset>` entries inside the first
/// `<index name="spectrum">` ... `</index>` block, or none without one.
pub open spec fn spec_spectrum_offsets(buf: Seq<u8>) -> Seq<u64> {
    match find_sub(buf, spec_index_spectrum_open()) {
        None => seq![],
        Some(ix) => match find_sub_from(buf, spec_index_close(), ix) {
            None => seq![],
            Some(e) => spec_offsets_scan(buf.subrange(ix, e), 0),
        },
    }
}

/// Collects the spectrum offsets listed in an index buffer.
#[verifier::loop_isolation(false)]
#[verifier::rlimit(80)]
pub fn parse_spectrum_offsets_from_index(buf: &[u8]) -> (r: Vec<u64>)
    ensures
        r@ == spec_spectrum_offsets(buf@),
{
    let mut out: Vec<u64> = Vec::new();
    let ix_open = crate::pat::index_spectrum_open();
    let ix_close = crate::pat::index_close();
    let ix_start = match memmem(buf, ix_open.as_slice()) {
        Some(p) => p,
        None => {
            return out;
        },
    };
    proof {
        lemma_find_sub_from_correct(buf@, ix_open@, 0);
    }
    let rest = vstd::slice::slice_subrange(buf, ix_start, buf.len());
    let ix_end_rel = match memmem(rest, ix_close.as_slice()) {
        Some(e) => e,
        None => {
            proof {
                lemma_find_sub_skip(buf@, ix_close@, ix_start as int);
            }
            return out;
        },
    };
    proof {
        lemma_find_sub_skip(buf@, ix_close@, ix_start as int);
        lemma_find_sub_from_correct(buf@, ix_close@, ix_start as int);
    }
    let block = vstd::slice::slice_subrange(buf, ix_start, ix_start + ix_end_rel);
    let off_open = crate::pat::offset_open();
    let off_close = crate::pat::offset_close();
    let mut cur: usize = 0;
    loop
        invariant
            0 <= cur <= block@.len(),
            spec_spectrum_offsets(buf@) == out@ + spec_offsets_scan(block@, cur as int),
        decreases block@.len() - cur,
    {
        let rest1 = vstd::slice::slice_subrange(block, cur, block.len());
        let p_rel = match memmem(rest1, off_open.as_slice()) {
            Some(p) => p,
            None => {
                proof {
                    lemma_find_sub_skip(block@, off_open@, cur as int);
                    assert(out@ + spec_offsets_scan(block@, cur as int) =~= out@);
                }
                return out;
            },
        };
        proof {
            lemma_find_sub_skip(block@, off_open@, cur as int);
            lemma_find_sub_from_correct(block@, off_open@, cur as int);
        }
        let from = cur + p_rel;
        let rest2 = vstd::slice::slice_subrange(block, from, block.len());
        let g_rel = match memchr(rest2, 62) {
            Some(x) => x,
            None => {
                proof {
                    lemma_find_byte_skip(block@, 62, from as int);
                    assert(out@ + spec_offsets_scan(block@, cur as int) =~= out@);
                }
                return out;
            },
        };
        proof {
            lemma_find_byte_skip(block@, 62, from as int);
            lemma_find_byte_from_correct(block@, 62, from as int);
        }
        let g = from + g_rel + 1;
        let rest3 = vstd::slice::slice_subrange(block, g, block.len());
        let endp_rel = match memmem(rest3, off_close.as_slice()) {
            Some(v) => v,
            None => {
                proof {
                    lemma_find_sub_skip(block@, off_close@, g as int);
                    assert(out@ + spec_offsets_scan(block@, cur as int) =~= out@);
                }
                return out;
            },
        };
        proof {
            lemma_find_sub_skip(block@, off_close@, g as int);
            lemma_find_sub_from_correct(block@, off_close@, g as int);
        }
        let num = vstd::slice::slice_subrange(block, g, g + endp_rel);
        if let Some(v) = parse_u64_ascii(num) {
            out.push(v);
            proof {
                assert(out@ + spec_offsets_scan(block@, (g + endp_rel + off_close@.len()) as int)
                    =~= spec_spectrum_offsets(buf@));
            }
        }
        cur = g + endp_rel + off_close.len();
    }
}

// ---------------------------------------------------------------------------
// Locating the end of a spectrum element
// ---------------------------------------------------------------------------

/// Position one past the first `</spectrum>` at or after `start`.
pub open spec fn spec_spectrum_end(hay: Seq<u8>, start: int) -> Option<int> {
    match find_sub_from(hay, spec_spectrum_close(), start) {
        None => None,
        Some(p) => Some(p + spec_spectrum_close().len()),
    }
}

/// Scans forward from `start` for `</spectrum>` and returns the position
/// just past it.
pub fn find_spectrum_end_in(hay: &[u8], start: usize) -> (r: Option<usize>)
    ensures
        opt_int(r) == spec_spectrum_end(hay@, start as int),
{
    let close_pat = crate::pat::spectrum_close();
    if start > hay.len() {
        return None;
    }
    let rest = vstd::slice::slice_subrange(hay, start, hay.len());
    match memmem(rest, close_pat.as_slice()) {
        Some(p) => {
            proof {
                lemma_find_sub_skip(hay@, close_pat@, start as int);
                lemma_find_sub_from_correct(hay@, close_pat@, start as int);
            }
            Some(start + p + close_pat.len())
        },
        None => {
            proof {
                lemma_find_sub_skip(hay@, close_pat@, start as int);
            }
            None
        },
    }
}

// ---------------------------------------------------------------------------
// Reading the whole index from a document
// ---------------------------------------------------------------------------

/// The spectrum offsets of a document, or `None` where the last 64 KiB
/// carry no index pointer. The index block read at the pointer is capped at
/// one million bytes; a pointer past the end of the document reads as an
/// empty block and so yields an empty offset list.
pub open spec fn spec_read_offsets(bytes: Seq<u8>) -> Option<Seq<u64>> {
    let end = bytes.len() as int;
    let start = if end >= 65536 {
        end - 65536
    } else {
        0
    };
    match spec_index_list_offset(bytes.subrange(start, end)) {
        None => None,
        Some(off) => {
            let o = if off <= end {
                off as int
            } else {
                end
            };
            let n = if end - o <= 1000000 {
                end - o
            } else {
                1000000
            };
            Some(spec_spectrum_offsets(bytes.subrange(o, o + n)))
        },
    }
}

/// Locates and parses the trailing spectrum index of a document held in
/// memory.
pub fn read_spectrum_offsets(bytes: &[u8]) -> (r: Option<Vec<u64>>)
    ensures
        match r {
            Some(v) => spec_read_offsets(bytes@) == Some(v@),
            None => spec_read_offsets(bytes@) is None,
        },
{
    let end = bytes.len();
    let start = if end >= 65536 {
        end - 65536
    } else {
        0
    };
    let tail = vstd::slice::slice_subrange(bytes, start, end);
    let off = match extract_index_list_offset(tail) {
        Some(off) => off,
        None => {
            return None;
        },
    };
    let o: usize = if off <= end as u64 {
        off as usize
    } else {
        end
    };
    let n: usize = if end - o <= 1000000 {
        end - o
    } else {
        1000000
    };
    let ibuf = vstd::slice::slice_subrange(bytes, o, o + n);
    Some(parse_spectrum_offsets_from_index(ibuf))
}

} // verus!
