//! The strategy selector: produce the ordered sequence of spectrum records
//! for a whole document. With a trailing index, each spectrum's byte span
//! runs from its offset to the next offset (the last one to its closing
//! tag); documents over 1 GiB avoid whole-spans-at-once slicing and cap the
//! final spectrum's size. Without an index, a linear scan pairs
//! `<spectrum ` with `</spectrum>`.
use vstd::prelude::*;

use crate::index::{
    find_spectrum_end_in, read_spectrum_offsets, spec_read_offsets, spec_spectrum_end,
};
use crate::pat::{spec_spectrum_close, spec_spectrum_open_sp};
use crate::scan::{
    find_sub, find_sub_from, lemma_find_sub_from_correct, lemma_find_sub_skip, memmem,
};
use crate::spectrum::{parse_spectrum_block, summary_matches, SpectrumSummary};

verus! {

/// Why a parse aborted. Decode and decompression problems never abort: they
/// clear one array slot and the parse continues.
#[derive(Clone, Copy, Debug, PartialEq, Eq, Structural)]
pub enum ParseError {
    /// No `</spectrum>` was found after the last indexed offset.
    NoSpectrumEnd,
    /// An indexed byte span does not lie inside the document.
    SpanOutOfRange,
    /// A streamed final spectrum exceeded the 32 MiB size cap.
    SpectrumTooLarge,
    /// A `<spectrum ` opening tag has no matching `</spectrum>`.
    UnterminatedSpectrum,
}

// ---------------------------------------------------------------------------
// Byte spans per strategy
// ---------------------------------------------------------------------------

/// Spans of the in-memory indexed strategy, for offsets `i` onward: each
/// offset up to the next one, the last up to the end of its closing tag.
pub open spec fn spec_blocks_mem(bytes: Seq<u8>, offs: Seq<u64>, i: int) -> Result<
    Seq<Seq<u8>>,
    ParseError,
>
    decreases offs.len() - i,
{
    if i < 0 || i >= offs.len() {
        Ok(seq![])
    } else {
        let start = offs[i] as int;
        let end_r: Result<int, ParseError> = if i + 1 < offs.len() {
            Ok(offs[i + 1] as int)
        } else {
            match spec_spectrum_end(bytes, start) {
                Some(e) => Ok(e),
                None => Err(ParseError::NoSpectrumEnd),
            }
        };
        match end_r {
            Err(e) => Err(e),
            Ok(end) => if 0 <= start <= end <= bytes.len() {
                match spec_blocks_mem(bytes, offs, i + 1) {
                    Ok(rest) => Ok(seq![bytes.subrange(start, end)] + rest),
                    Err(e) => Err(e),
                }
            } else {
                Err(ParseError::SpanOutOfRange)
            },
        }
    }
}

/// Span of one indexed spectrum with a known successor offset: exactly the
/// bytes between the offsets, trimmed to the first `</spectrum>` inside.
pub open spec fn spec_span_next(bytes: Seq<u8>, start: int, next: int) -> Result<
    Seq<u8>,
    ParseError,
> {
    if 0 <= start <= next <= bytes.len() {
        let span = bytes.subrange(start, next);
        match find_sub(span, spec_spectrum_close()) {
            Some(p) => Ok(span.subrange(0, p + spec_spectrum_close().len())),
            None => Ok(span),
        }
    } else {
        Err(ParseError::SpanOutOfRange)
    }
}

/// Span of the final indexed spectrum, streamed in 128 KiB chunks with a
/// 32 MiB accumulation cap checked after each chunk: the close tag is
/// found as long as it ends within 32 MiB plus one chunk; with no close
/// tag the remainder is used whole if it stays under the cap.
pub open spec fn spec_span_tail(bytes: Seq<u8>, start: int) -> Result<Seq<u8>, ParseError> {
    let s0 = if 0 <= start <= bytes.len() {
        start
    } else {
        bytes.len() as int
    };
    match find_sub_from(bytes, spec_spectrum_close(), s0) {
        Some(p) => {
            let e = p + spec_spectrum_close().len();
            if e - s0 <= 33685504 {
                Ok(bytes.subrange(s0, e))
            } else {
                Err(ParseError::SpectrumTooLarge)
            }
        },
        None => {
            if bytes.len() - s0 <= 33554432 {
                Ok(bytes.subrange(s0, bytes.len() as int))
            } else {
                Err(ParseError::SpectrumTooLarge)
            }
        },
    }
}

pub open spec fn spec_span(bytes: Seq<u8>, start: u64, next: Option<u64>) -> Result<
    Seq<u8>,
    ParseError,
> {
    match next {
        Some(nx) => spec_span_next(bytes, start as int, nx as int),
        None => spec_span_tail(bytes, start as int),
    }
}

/// Spans of the streaming indexed strategy, for offsets `i` onward.
pub open spec fn spec_blocks_stream(bytes: Seq<u8>, offs: Seq<u64>, i: int) -> Result<
    Seq<Seq<u8>>,
    ParseError,
>
    decreases offs.len() - i,
{
    if i < 0 || i >= offs.len() {
        Ok(seq![])
    } else {
        let span_r = if i + 1 < offs.len() {
            spec_span(bytes, offs[i], Some(offs[i + 1]))
        } else {
            spec_span(bytes, offs[i], None)
        };
        match span_r {
            Err(e) => Err(e),
            Ok(span) => match spec_blocks_stream(bytes, offs, i + 1) {
                Ok(rest) => Ok(seq![span] + rest),
                Err(e) => Err(e),
            },
        }
    }
}

/// Spans of the linear fallback: successive `<spectrum ` ... `</spectrum>`
/// pairs; an opening tag without a close is a format error.
pub open spec fn spec_blocks_linear(bytes: Seq<u8>, from: int) -> Result<Seq<Seq<u8>>, ParseError>
    decreases bytes.len() - from,
    via spec_blocks_linear_dec
{
    match find_sub_from(bytes, spec_spectrum_open_sp(), from) {
        None => Ok(seq![]),
        Some(p) => match find_sub_from(bytes, spec_spectrum_close(), p) {
            None => Err(ParseError::UnterminatedSpectrum),
            Some(er) => {
                let end = er + spec_spectrum_close().len();
                match spec_blocks_linear(bytes, end) {
                    Ok(rest) => Ok(seq![bytes.subrange(p, end)] + rest),
                    Err(e) => Err(e),
                }
            },
        },
    }
}

#[via_fn]
proof fn spec_blocks_linear_dec(bytes: Seq<u8>, from: int) {
    if from >= 0 {
        lemma_find_sub_from_correct(bytes, spec_spectrum_open_sp(), from);
        if let Some(p) = find_sub_from(bytes, spec_spectrum_open_sp(), from) {
            lemma_find_sub_from_correct(bytes, spec_spectrum_close(), p);
        }
    }
}

/// The byte spans the document's strategy hands to the block extractor, in
/// output order.
pub open spec fn spec_blocks(bytes: Seq<u8>) -> Result<Seq<Seq<u8>>, ParseError> {
    match spec_read_offsets(bytes) {
        Some(offs) => if bytes.len() <= 1073741824 {
            spec_blocks_mem(bytes, offs, 0)
        } else {
            spec_blocks_stream(bytes, offs, 0)
        },
        None => spec_blocks_linear(bytes, 0),
    }
}

// ---------------------------------------------------------------------------
// Executable strategies
// ---------------------------------------------------------------------------

/// In-memory indexed extraction.
#[verifier::loop_isolation(false)]
#[verifier::rlimit(80)]
fn parse_indexed_mem(bytes: &[u8], offs: &Vec<u64>) -> (r: Result<Vec<SpectrumSummary>, ParseError>)
    ensures
        match r {
            Ok(out) => spec_blocks_mem(bytes@, offs@, 0) matches Ok(blocks) && out@.len()
                == blocks.len() && forall|k: int|
                0 <= k < blocks.len() ==> summary_matches(blocks[k], #[trigger] out@[k]),
            Err(e) => spec_blocks_mem(bytes@, offs@, 0) == Err::<Seq<Seq<u8>>, ParseError>(e),
        },
{
    let ln = bytes.len();
    let n = offs.len();
    let mut out: Vec<SpectrumSummary> = Vec::new();
    let ghost mut pb = Seq::<Seq<u8>>::empty();
    let mut i: usize = 0;
    while i < n
        invariant
            0 <= i <= n,
            out@.len() == pb.len() == i as int,
            forall|k: int| 0 <= k < i ==> summary_matches(pb[k], #[trigger] out@[k]),
            match spec_blocks_mem(bytes@, offs@, i as int) {
                Ok(rest) => spec_blocks_mem(bytes@, offs@, 0) == Ok::<Seq<Seq<u8>>, ParseError>(
                    pb + rest,
                ),
                Err(e) => spec_blocks_mem(bytes@, offs@, 0) == Err::<Seq<Seq<u8>>, ParseError>(e),
            },
        decreases n - i,
    {
        let start64 = offs[i];
        let end: usize;
        let start: usize;
        if i + 1 < n {
            let end64 = offs[i + 1];
            if !(start64 <= end64 && end64 <= ln as u64) {
                return Err(ParseError::SpanOutOfRange);
            }
            start = start64 as usize;
            end = end64 as usize;
            proof {
                assert(start64 <= ln as u64);
                assert(start as int == offs@[i as int] as int);
                assert(end as int == offs@[i as int + 1] as int);
            }
        } else {
            if start64 > ln as u64 {
                proof {
                    assert(spec_spectrum_end(bytes@, offs@[i as int] as int) is None);
                }
                return Err(ParseError::NoSpectrumEnd);
            }
            start = start64 as usize;
            match find_spectrum_end_in(bytes, start) {
                Some(e) => {
                    proof {
                        lemma_find_sub_from_correct(bytes@, spec_spectrum_close(), start as int);
                    }
                    end = e;
                },
                None => {
                    return Err(ParseError::NoSpectrumEnd);
                },
            }
            proof {
                assert(start as int == offs@[i as int] as int);
                assert(spec_spectrum_end(bytes@, start as int) == Some(end as int));
            }
        }
        let ghost blk = bytes@.subrange(start as int, end as int);
        proof {
            assert(spec_blocks_mem(bytes@, offs@, i as int) == (match spec_blocks_mem(
                bytes@,
                offs@,
                i as int + 1,
            ) {
                Ok(rest2) => Ok::<Seq<Seq<u8>>, ParseError>(seq![blk] + rest2),
                Err(e) => Err::<Seq<Seq<u8>>, ParseError>(e),
            }));
        }
        let block = vstd::slice::slice_subrange(bytes, start, end);
        let ghost pb0 = pb;
        if let Some(s) = parse_spectrum_block(block) {
            out.push(s);
            proof {
                pb = pb.push(blk);
            }
        }
        proof {
            if let Ok(rest2) = spec_blocks_mem(bytes@, offs@, i as int + 1) {
                assert(pb + rest2 =~= pb0 + (seq![blk] + rest2));
            }
        }
        i = i + 1;
    }
    proof {
        assert(pb + spec_blocks_mem(bytes@, offs@, n as int).unwrap() =~= pb);
    }
    Ok(out)
}

/// Extracts one indexed spectrum from its byte span. With a successor
/// offset the span is sliced directly and trimmed to its close tag; the
/// final spectrum is taken up to its close tag, subject to the 32 MiB cap.
fn read_one_spectrum_span(bytes: &[u8], start: u64, next: Option<u64>) -> (r: Result<
    Option<SpectrumSummary>,
    ParseError,
>)
    ensures
        match r {
            Ok(opt) => spec_span(bytes@, start, next) matches Ok(span) && opt matches Some(s)
                && summary_matches(span, s),
            Err(e) => spec_span(bytes@, start, next) == Err::<Seq<u8>, ParseError>(e),
        },
{
    let ln = bytes.len();
    let close_pat = crate::pat::spectrum_close();
    match next {
        Some(nx) => {
            if !(start <= nx && nx <= ln as u64) {
                return Err(ParseError::SpanOutOfRange);
            }
            let a = start as usize;
            let b = nx as usize;
            let span0 = vstd::slice::slice_subrange(bytes, a, b);
            let span = match memmem(span0, close_pat.as_slice()) {
                Some(p) => {
                    proof {
                        lemma_find_sub_from_correct(span0@, close_pat@, 0);
                    }
                    vstd::slice::slice_subrange(span0, 0, p + close_pat.len())
                },
                None => span0,
            };
            Ok(parse_spectrum_block(span))
        },
        None => {
            let s0: usize = if start <= ln as u64 {
                start as usize
            } else {
                ln
            };
            let rest = vstd::slice::slice_subrange(bytes, s0, ln);
            match memmem(rest, close_pat.as_slice()) {
                Some(p_rel) => {
                    proof {
                        lemma_find_sub_skip(bytes@, close_pat@, s0 as int);
                        lemma_find_sub_from_correct(bytes@, close_pat@, s0 as int);
                    }
                    let e_rel = p_rel + close_pat.len();
                    // 32 MiB plus one 128 KiB chunk: the last whole chunk a
                    // capped reader would still have searched.
                    if e_rel <= 33685504 {
                        let span = vstd::slice::slice_subrange(rest, 0, e_rel);
                        proof {
                            assert(span@ =~= bytes@.subrange(s0 as int, s0 as int + e_rel as int));
                        }
                        Ok(parse_spectrum_block(span))
                    } else {
                        Err(ParseError::SpectrumTooLarge)
                    }
                },
                None => {
                    proof {
                        lemma_find_sub_skip(bytes@, close_pat@, s0 as int);
                    }
                    if rest.len() <= 33554432 {
                        Ok(parse_spectrum_block(rest))
                    } else {
                        Err(ParseError::SpectrumTooLarge)
                    }
                },
            }
        },
    }
}

/// Streaming indexed extraction for documents over 1 GiB.
#[verifier::loop_isolation(false)]
#[verifier::rlimit(80)]
fn parse_indexed_stream(bytes: &[u8], offs: &Vec<u64>) -> (r: Result<
    Vec<SpectrumSummary>,
    ParseError,
>)
    ensures
        match r {
            Ok(out) => spec_blocks_stream(bytes@, offs@, 0) matches Ok(blocks) && out@.len()
                == blocks.len() && forall|k: int|
                0 <= k < blocks.len() ==> summary_matches(blocks[k], #[trigger] out@[k]),
            Err(e) => spec_blocks_stream(bytes@, offs@, 0) == Err::<Seq<Seq<u8>>, ParseError>(e),
        },
{
    let n = offs.len();
    let mut out: Vec<SpectrumSummary> = Vec::new();
    let ghost mut pb = Seq::<Seq<u8>>::empty();
    let mut i: usize = 0;
    while i < n
        invariant
            0 <= i <= n,
            out@.len() == pb.len() == i as int,
            forall|k: int| 0 <= k < i ==> summary_matches(pb[k], #[trigger] out@[k]),
            match spec_blocks_stream(bytes@, offs@, i as int) {
                Ok(rest) => spec_blocks_stream(bytes@, offs@, 0) == Ok::<Seq<Seq<u8>>, ParseError>(
                    pb + rest,
                ),
                Err(e) => spec_blocks_stream(bytes@, offs@, 0) == Err::<
                    Seq<Seq<u8>>,
                    ParseError,
                >(e),
            },
        decreases n - i,
    {
        let start = offs[i];
        let next: Option<u64> = if i + 1 < n {
            Some(offs[i + 1])
        } else {
            None
        };
        proof {
            assert(next == (if i as int + 1 < offs@.len() {
                Some(offs@[i as int + 1])
            } else {
                None::<u64>
            }));
        }
        match read_one_spectrum_span(bytes, start, next) {
            Ok(opt) => {
                let ghost span = spec_span(bytes@, start, next).unwrap();
                proof {
                    assert(spec_blocks_stream(bytes@, offs@, i as int) == (
                    match spec_blocks_stream(bytes@, offs@, i as int + 1) {
                        Ok(rest2) => Ok::<Seq<Seq<u8>>, ParseError>(seq![span] + rest2),
                        Err(e) => Err::<Seq<Seq<u8>>, ParseError>(e),
                    }));
                }
                let ghost pb0 = pb;
                if let Some(s) = opt {
                    out.push(s);
                    proof {
                        pb = pb.push(span);
                    }
                }
                proof {
                    if let Ok(rest2) = spec_blocks_stream(bytes@, offs@, i as int + 1) {
                        assert(pb + rest2 =~= pb0 + (seq![span] + rest2));
                    }
                }
            },
            Err(e) => {
                return Err(e);
            },
        }
        i = i + 1;
    }
    proof {
        assert(pb + spec_blocks_stream(bytes@, offs@, n as int).unwrap() =~= pb);
    }
    Ok(out)
}

/// Linear fallback extraction for documents without an index.
#[verifier::loop_isolation(false)]
#[verifier::rlimit(80)]
pub fn linear_scan_spectra(bytes: &[u8]) -> (r: Result<Vec<SpectrumSummary>, ParseError>)
    ensures
        match r {
            Ok(out) => spec_blocks_linear(bytes@, 0) matches Ok(blocks) && out@.len()
                == blocks.len() && forall|k: int|
                0 <= k < blocks.len() ==> summary_matches(blocks[k], #[trigger] out@[k]),
            Err(e) => spec_blocks_linear(bytes@, 0) == Err::<Seq<Seq<u8>>, ParseError>(e),
        },
{
    let open_pat = crate::pat::spectrum_open_sp();
    let close_pat = crate::pat::spectrum_close();
    let ln = bytes.len();
    let mut out: Vec<SpectrumSummary> = Vec::new();
    let ghost mut pb = Seq::<Seq<u8>>::empty();
    let mut cur: usize = 0;
    loop
        invariant
            0 <= cur <= ln,
            out@.len() == pb.len(),
            forall|k: int| 0 <= k < pb.len() ==> summary_matches(pb[k], #[trigger] out@[k]),
            match spec_blocks_linear(bytes@, cur as int) {
                Ok(rest) => spec_blocks_linear(bytes@, 0) == Ok::<Seq<Seq<u8>>, ParseError>(
                    pb + rest,
                ),
                Err(e) => spec_blocks_linear(bytes@, 0) == Err::<Seq<Seq<u8>>, ParseError>(e),
            },
        decreases ln - cur,
    {
        let rest1 = vstd::slice::slice_subrange(bytes, cur, ln);
        let p_rel = match memmem(rest1, open_pat.as_slice()) {
            Some(p) => p,
            None => {
                proof {
                    lemma_find_sub_skip(bytes@, open_pat@, cur as int);
                    assert(pb + spec_blocks_linear(bytes@, cur as int).unwrap() =~= pb);
                }
                return Ok(out);
            },
        };
        proof {
            lemma_find_sub_skip(bytes@, open_pat@, cur as int);
            lemma_find_sub_from_correct(bytes@, open_pat@, cur as int);
        }
        let p = cur + p_rel;
        let rest2 = vstd::slice::slice_subrange(bytes, p, ln);
        let er_rel = match memmem(rest2, close_pat.as_slice()) {
            Some(v) => v,
            None => {
                proof {
                    lemma_find_sub_skip(bytes@, close_pat@, p as int);
                }
                return Err(ParseError::UnterminatedSpectrum);
            },
        };
        proof {
            lemma_find_sub_skip(bytes@, close_pat@, p as int);
            lemma_find_sub_from_correct(bytes@, close_pat@, p as int);
        }
        let end = p + er_rel + close_pat.len();
        let ghost blk = bytes@.subrange(p as int, end as int);
        proof {
            assert(find_sub_from(bytes@, spec_spectrum_open_sp(), cur as int) == Some(p as int));
            assert(find_sub_from(bytes@, spec_spectrum_close(), p as int) == Some(
                p as int + er_rel as int,
            ));
            assert(spec_blocks_linear(bytes@, cur as int) == (match spec_blocks_linear(
                bytes@,
                end as int,
            ) {
                Ok(rest2) => Ok::<Seq<Seq<u8>>, ParseError>(seq![blk] + rest2),
                Err(e) => Err::<Seq<Seq<u8>>, ParseError>(e),
            }));
        }
        let block = vstd::slice::slice_subrange(bytes, p, end);
        let ghost pb0 = pb;
        if let Some(s) = parse_spectrum_block(block) {
            out.push(s);
            proof {
                pb = pb.push(blk);
            }
        }
        proof {
            if let Ok(rest2) = spec_blocks_linear(bytes@, end as int) {
                assert(pb + rest2 =~= pb0 + (seq![blk] + rest2));
            }
        }
        cur = end;
    }
}

/// Parses a whole mzML document held in memory into its ordered sequence
/// of spectrum records. Offset-table order (or, without an index, document
/// encounter order) is preserved; a format problem aborts the whole parse
/// with no partial results.
pub fn parse_mzml(bytes: &[u8]) -> (r: Result<Vec<SpectrumSummary>, ParseError>)
    ensures
        match r {
            Ok(out) => spec_blocks(bytes@) matches Ok(blocks) && out@.len() == blocks.len()
                && forall|k: int|
                0 <= k < blocks.len() ==> summary_matches(blocks[k], #[trigger] out@[k]),
            Err(e) => spec_blocks(bytes@) == Err::<Seq<Seq<u8>>, ParseError>(e),
        },
{
    match read_spectrum_offsets(bytes) {
        Some(offsets) => {
            if bytes.len() <= 1073741824 {
                parse_indexed_mem(bytes, &offsets)
            } else {
                parse_indexed_stream(bytes, &offsets)
            }
        },
        None => linear_scan_spectra(bytes),
    }
}

} // verus!
