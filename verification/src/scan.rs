//! Stateless byte-scanning primitives: substring search, whitespace
//! trimming, and ASCII decimal parsing. Everything else is built on these.
use vstd::prelude::*;

verus! {

// ---------------------------------------------------------------------------
// Whitespace
// ---------------------------------------------------------------------------

/// Space, newline, carriage return, or tab.
pub open spec fn is_ws_spec(b: u8) -> bool {
    b == 32 || b == 10 || b == 13 || b == 9
}

pub fn is_ws(b: u8) -> (r: bool)
    ensures
        r == is_ws_spec(b),
{
    b == 32 || b == 10 || b == 13 || b == 9
}

// ---------------------------------------------------------------------------
// Substring and byte search
// ---------------------------------------------------------------------------

/// The needle `nd` occurs in `hay` starting at position `i`.
pub open spec fn matches_at(hay: Seq<u8>, nd: Seq<u8>, i: int) -> bool {
    0 <= i && i + nd.len() <= hay.len() && hay.subrange(i, i + nd.len() as int) == nd
}

/// Position of the first occurrence of `nd` in `hay` at or after `from`.
pub open spec fn find_sub_from(hay: Seq<u8>, nd: Seq<u8>, from: int) -> Option<int>
    decreases hay.len() - from,
    via find_sub_from_dec
{
    if from < 0 || from + nd.len() > hay.len() {
        None
    } else if matches_at(hay, nd, from) {
        Some(from)
    } else {
        find_sub_from(hay, nd, from + 1)
    }
}

#[via_fn]
proof fn find_sub_from_dec(hay: Seq<u8>, nd: Seq<u8>, from: int) {
    if 0 <= from && from + nd.len() <= hay.len() && nd.len() == 0 {
        assert(hay.subrange(from, from + nd.len() as int) =~= nd);
    }
}

pub open spec fn find_sub(hay: Seq<u8>, nd: Seq<u8>) -> Option<int> {
    find_sub_from(hay, nd, 0)
}

/// Position of the first occurrence of byte `b` in `hay` at or after `from`.
pub open spec fn find_byte_from(hay: Seq<u8>, b: u8, from: int) -> Option<int>
    decreases hay.len() - from,
{
    if from < 0 || from >= hay.len() {
        None
    } else if hay[from] == b {
        Some(from)
    } else {
        find_byte_from(hay, b, from + 1)
    }
}

pub open spec fn find_byte(hay: Seq<u8>, b: u8) -> Option<int> {
    find_byte_from(hay, b, 0)
}

/// `find_sub_from` returns the first match at or after `from`, or reports
/// that there is none.
pub proof fn lemma_find_sub_from_correct(hay: Seq<u8>, nd: Seq<u8>, from: int)
    requires
        0 <= from,
    ensures
        match find_sub_from(hay, nd, from) {
            Some(i) => from <= i && matches_at(hay, nd, i) && (forall|j: int|
                from <= j < i ==> !matches_at(hay, nd, j)),
            None => forall|j: int| from <= j ==> !matches_at(hay, nd, j),
        },
    decreases hay.len() - from,
{
    if from + nd.len() > hay.len() {
        assert forall|j: int| from <= j implies !matches_at(hay, nd, j) by {
            assert(j + nd.len() > hay.len());
        }
    } else if matches_at(hay, nd, from) {
    } else {
        assert(nd.len() > 0) by {
            if nd.len() == 0 {
                assert(hay.subrange(from, from + nd.len() as int) =~= nd);
            }
        }
        lemma_find_sub_from_correct(hay, nd, from + 1);
    }
}

/// If `i` is a match and nothing matches between `from` and `i`, the search
/// from `from` finds exactly `i`.
pub proof fn lemma_find_sub_from_unique(hay: Seq<u8>, nd: Seq<u8>, from: int, i: int)
    requires
        0 <= from <= i,
        matches_at(hay, nd, i),
        forall|j: int| from <= j < i ==> !matches_at(hay, nd, j),
    ensures
        find_sub_from(hay, nd, from) == Some(i),
{
    lemma_find_sub_from_correct(hay, nd, from);
    match find_sub_from(hay, nd, from) {
        None => {
            assert(!matches_at(hay, nd, i));
        },
        Some(k) => {
            if k < i {
                assert(!matches_at(hay, nd, k));
            } else if k > i {
                assert(!matches_at(hay, nd, i));
            }
        },
    }
}

/// If nothing matches at or after `from`, the search fails.
pub proof fn lemma_find_sub_from_none(hay: Seq<u8>, nd: Seq<u8>, from: int)
    requires
        0 <= from,
        forall|j: int| from <= j ==> !matches_at(hay, nd, j),
    ensures
        find_sub_from(hay, nd, from) is None,
{
    lemma_find_sub_from_correct(hay, nd, from);
    if let Some(k) = find_sub_from(hay, nd, from) {
        assert(!matches_at(hay, nd, k));
    }
}

pub proof fn lemma_find_byte_from_correct(hay: Seq<u8>, b: u8, from: int)
    requires
        0 <= from,
    ensures
        match find_byte_from(hay, b, from) {
            Some(i) => from <= i < hay.len() && hay[i] == b && (forall|j: int|
                from <= j < i ==> hay[j] != b),
            None => forall|j: int| from <= j < hay.len() ==> hay[j] != b,
        },
    decreases hay.len() - from,
{
    if from >= hay.len() {
    } else if hay[from] == b {
    } else {
        lemma_find_byte_from_correct(hay, b, from + 1);
    }
}

pub proof fn lemma_find_byte_from_unique(hay: Seq<u8>, b: u8, from: int, i: int)
    requires
        0 <= from <= i < hay.len(),
        hay[i] == b,
        forall|j: int| from <= j < i ==> hay[j] != b,
    ensures
        find_byte_from(hay, b, from) == Some(i),
{
    lemma_find_byte_from_correct(hay, b, from);
    match find_byte_from(hay, b, from) {
        None => {
            assert(hay[i] == b);
        },
        Some(k) => {
            if k < i {
                assert(hay[k] != b);
            } else if k > i {
                assert(hay[i] != b);
            }
        },
    }
}

pub proof fn lemma_find_byte_from_none(hay: Seq<u8>, b: u8, from: int)
    requires
        0 <= from,
        forall|j: int| from <= j < hay.len() ==> hay[j] != b,
    ensures
        find_byte_from(hay, b, from) is None,
{
    lemma_find_byte_from_correct(hay, b, from);
    if let Some(k) = find_byte_from(hay, b, from) {
        assert(hay[k] != b);
    }
}

/// A match inside `hay.skip(from)` is a match inside `hay`, shifted.
pub proof fn lemma_matches_at_skip(hay: Seq<u8>, nd: Seq<u8>, from: int, j: int)
    requires
        0 <= from <= hay.len(),
        0 <= j,
    ensures
        matches_at(hay.skip(from), nd, j) == matches_at(hay, nd, from + j),
{
    if j + nd.len() <= hay.len() - from {
        assert(hay.skip(from).subrange(j, j + nd.len() as int) =~= hay.subrange(
            from + j,
            from + j + nd.len(),
        ));
    }
}

/// Searching a suffix is the same as searching from an offset.
pub proof fn lemma_find_sub_skip(hay: Seq<u8>, nd: Seq<u8>, from: int)
    requires
        0 <= from <= hay.len(),
    ensures
        find_sub_from(hay, nd, from) == match find_sub(hay.skip(from), nd) {
            Some(i) => Some(i + from),
            None => None::<int>,
        },
{
    lemma_find_sub_from_correct(hay.skip(from), nd, 0);
    match find_sub(hay.skip(from), nd) {
        Some(i) => {
            lemma_matches_at_skip(hay, nd, from, i);
            assert forall|j: int| from <= j < from + i implies !matches_at(hay, nd, j) by {
                lemma_matches_at_skip(hay, nd, from, j - from);
            }
            lemma_find_sub_from_unique(hay, nd, from, from + i);
        },
        None => {
            assert forall|j: int| from <= j implies !matches_at(hay, nd, j) by {
                lemma_matches_at_skip(hay, nd, from, j - from);
            }
            lemma_find_sub_from_none(hay, nd, from);
        },
    }
}

pub proof fn lemma_find_byte_skip(hay: Seq<u8>, b: u8, from: int)
    requires
        0 <= from <= hay.len(),
    ensures
        find_byte_from(hay, b, from) == match find_byte(hay.skip(from), b) {
            Some(i) => Some(i + from),
            None => None::<int>,
        },
{
    lemma_find_byte_from_correct(hay.skip(from), b, 0);
    match find_byte(hay.skip(from), b) {
        Some(i) => {
            assert(hay.skip(from)[i] == hay[from + i]);
            assert forall|j: int| from <= j < from + i implies hay[j] != b by {
                assert(hay.skip(from)[j - from] == hay[j]);
            }
            lemma_find_byte_from_unique(hay, b, from, from + i);
        },
        None => {
            assert forall|j: int| from <= j < hay.len() implies hay[j] != b by {
                assert(hay.skip(from)[j - from] == hay[j]);
            }
            lemma_find_byte_from_none(hay, b, from);
        },
    }
}

/// Spec-level conversion of a position result to mathematical integers.
pub open spec fn opt_int(r: Option<usize>) -> Option<int> {
    match r {
        Some(i) => Some(i as int),
        None => None,
    }
}

/// Spec-level view of an optional borrowed byte span.
pub open spec fn opt_seq(r: Option<&[u8]>) -> Option<Seq<u8>> {
    match r {
        Some(s) => Some(s@),
        None => None,
    }
}

#[verifier::loop_isolation(false)]
pub fn bytes_eq(a: &[u8], b: &[u8]) -> (r: bool)
    ensures
        r == (a@ == b@),
{
    if a.len() != b.len() {
        return false;
    }
    let n = a.len();
    let mut k: usize = 0;
    while k < n
        invariant
            0 <= k <= n,
            n == a@.len() == b@.len(),
            forall|j: int| 0 <= j < k ==> a@[j] == b@[j],
        decreases n - k,
    {
        if a[k] != b[k] {
            return false;
        }
        k = k + 1;
    }
    proof {
        assert(a@ =~= b@);
    }
    true
}

/// First occurrence of `needle` in `hay`; an empty needle matches at 0.
#[verifier::loop_isolation(false)]
pub fn memmem(hay: &[u8], needle: &[u8]) -> (r: Option<usize>)
    ensures
        opt_int(r) == find_sub(hay@, needle@),
{
    let h = hay.len();
    let n = needle.len();
    if n > h {
        proof {
            lemma_find_sub_from_none(hay@, needle@, 0);
        }
        return None;
    }
    if n == 0 {
        proof {
            assert(hay@.subrange(0, 0) =~= needle@);
            lemma_find_sub_from_unique(hay@, needle@, 0, 0);
        }
        return Some(0);
    }
    let mut i: usize = 0;
    while i <= h - n
        invariant
            0 <= i <= h - n + 1,
            n <= h,
            h == hay@.len(),
            n == needle@.len(),
            forall|j: int| 0 <= j < i ==> !matches_at(hay@, needle@, j),
        decreases h - i,
    {
        let w = vstd::slice::slice_subrange(hay, i, i + n);
        if bytes_eq(w, needle) {
            proof {
                lemma_find_sub_from_unique(hay@, needle@, 0, i as int);
            }
            return Some(i);
        }
        i = i + 1;
    }
    proof {
        assert forall|j: int| 0 <= j implies !matches_at(hay@, needle@, j) by {
            if j < i {
            } else {
                assert(j + needle@.len() > hay@.len());
            }
        }
        lemma_find_sub_from_none(hay@, needle@, 0);
    }
    None
}

/// First occurrence of the byte `byte` in `hay`.
#[verifier::loop_isolation(false)]
pub fn memchr(hay: &[u8], byte: u8) -> (r: Option<usize>)
    ensures
        opt_int(r) == find_byte(hay@, byte),
{
    let h = hay.len();
    let mut i: usize = 0;
    while i < h
        invariant
            0 <= i <= h,
            h == hay@.len(),
            forall|j: int| 0 <= j < i ==> hay@[j] != byte,
        decreases h - i,
    {
        if hay[i] == byte {
            proof {
                lemma_find_byte_from_unique(hay@, byte, 0, i as int);
            }
            return Some(i);
        }
        i = i + 1;
    }
    proof {
        lemma_find_byte_from_none(hay@, byte, 0);
    }
    None
}

// ---------------------------------------------------------------------------
// Whitespace trimming
// ---------------------------------------------------------------------------

/// `s` with leading and trailing whitespace removed.
pub open spec fn trim_spec(s: Seq<u8>) -> Seq<u8>
    decreases s.len(),
{
    if s.len() > 0 && is_ws_spec(s[0]) {
        trim_spec(s.drop_first())
    } else if s.len() > 0 && is_ws_spec(s.last()) {
        trim_spec(s.drop_last())
    } else {
        s
    }
}

/// Borrowed view of `s` with surrounding whitespace removed.
#[verifier::loop_isolation(false)]
pub fn strip_ws(s: &[u8]) -> (r: &[u8])
    ensures
        r@ == trim_spec(s@),
{
    let mut a: usize = 0;
    let mut b: usize = s.len();
    proof {
        assert(s@.subrange(0, s@.len() as int) =~= s@);
    }
    while a < b && is_ws(s[a])
        invariant
            0 <= a <= b <= s@.len(),
            trim_spec(s@) == trim_spec(s@.subrange(a as int, b as int)),
        decreases b - a,
    {
        proof {
            assert(s@.subrange(a as int, b as int).drop_first() =~= s@.subrange(
                a as int + 1,
                b as int,
            ));
        }
        a = a + 1;
    }
    while b > a && is_ws(s[b - 1])
        invariant
            0 <= a <= b <= s@.len(),
            trim_spec(s@) == trim_spec(s@.subrange(a as int, b as int)),
            a < b ==> !is_ws_spec(s@[a as int]),
        decreases b - a,
    {
        proof {
            assert(s@.subrange(a as int, b as int).drop_last() =~= s@.subrange(
                a as int,
                b as int - 1,
            ));
        }
        b = b - 1;
    }
    let r = vstd::slice::slice_subrange(s, a, b);
    proof {
        assert(trim_spec(s@.subrange(a as int, b as int)) == s@.subrange(a as int, b as int));
    }
    r
}

// ---------------------------------------------------------------------------
// ASCII decimal parsing
// ---------------------------------------------------------------------------

pub open spec fn is_digit(b: u8) -> bool {
    48 <= b <= 57
}

pub open spec fn all_digits(s: Seq<u8>) -> bool {
    forall|i: int| 0 <= i < s.len() ==> is_digit(#[trigger] s[i])
}

/// Value of a digit string read in base ten.
pub open spec fn dec_val(s: Seq<u8>) -> int
    decreases s.len(),
{
    if s.len() == 0 {
        0
    } else {
        dec_val(s.drop_last()) * 10 + (s.last() - 48)
    }
}

pub proof fn lemma_dec_val_nonneg(s: Seq<u8>)
    requires
        all_digits(s),
    ensures
        dec_val(s) >= 0,
    decreases s.len(),
{
    if s.len() > 0 {
        assert(all_digits(s.drop_last()));
        lemma_dec_val_nonneg(s.drop_last());
    }
}

/// A digit string is worth at least any of its prefixes.
pub proof fn lemma_dec_val_prefix_le(s: Seq<u8>, k: int)
    requires
        all_digits(s),
        0 <= k <= s.len(),
    ensures
        dec_val(s.subrange(0, k)) <= dec_val(s),
    decreases s.len() - k,
{
    if k == s.len() {
        assert(s.subrange(0, k) =~= s);
    } else {
        let p = s.subrange(0, k + 1);
        assert(p.drop_last() =~= s.subrange(0, k));
        assert(all_digits(s.subrange(0, k)));
        lemma_dec_val_nonneg(s.subrange(0, k));
        assert(dec_val(p) == dec_val(s.subrange(0, k)) * 10 + (p.last() - 48));
        lemma_dec_val_prefix_le(s, k + 1);
    }
}

/// The number a nonempty all-digit string denotes, if it fits in 64 bits.
pub open spec fn parse_u64_digits(t: Seq<u8>) -> Option<u64> {
    if t.len() > 0 && all_digits(t) && dec_val(t) <= u64::MAX {
        Some(dec_val(t) as u64)
    } else {
        None
    }
}

/// Unsigned 64-bit value of `s` after trimming whitespace: all bytes must be
/// decimal digits and the value must fit.
#[verifier::loop_isolation(false)]
pub fn parse_u64_ascii(s: &[u8]) -> (r: Option<u64>)
    ensures
        r == parse_u64_digits(trim_spec(s@)),
{
    let t = strip_ws(s);
    let n = t.len();
    if n == 0 {
        return None;
    }
    let mut v: u64 = 0;
    let mut i: usize = 0;
    while i < n
        invariant
            0 <= i <= n,
            n == t@.len(),
            all_digits(t@.subrange(0, i as int)),
            v == dec_val(t@.subrange(0, i as int)),
        decreases n - i,
    {
        let c = t[i];
        if c < 48 || c > 57 {
            proof {
                assert(!is_digit(t@[i as int]));
            }
            return None;
        }
        let d = (c - 48) as u64;
        proof {
            assert(t@.subrange(0, i as int + 1).drop_last() =~= t@.subrange(0, i as int));
            assert(t@.subrange(0, i as int + 1).last() == t@[i as int]);
        }
        let ghost prefix1 = t@.subrange(0, i as int + 1);
        match v.checked_mul(10) {
            Some(m) => {
                match m.checked_add(d) {
                    Some(w) => {
                        v = w;
                    },
                    None => {
                        proof {
                            overflow_means_none(t@, i as int);
                        }
                        return None;
                    },
                }
            },
            None => {
                proof {
                    overflow_means_none(t@, i as int);
                }
                return None;
            },
        }
        i = i + 1;
    }
    proof {
        assert(t@.subrange(0, n as int) =~= t@);
    }
    Some(v)
}

/// If the value of some digit prefix already exceeds `u64::MAX`, the whole
/// string cannot parse.
proof fn overflow_means_none(t: Seq<u8>, i: int)
    requires
        0 <= i < t.len(),
        all_digits(t.subrange(0, i)),
        is_digit(t[i]),
        dec_val(t.subrange(0, i + 1)) > u64::MAX,
    ensures
        parse_u64_digits(t) is None,
{
    if t.len() > 0 && all_digits(t) && dec_val(t) <= u64::MAX {
        lemma_dec_val_prefix_le(t, i + 1);
    }
}

/// The grammar `std` uses for unsigned integers: an optional leading plus
/// sign, then one or more decimal digits.
pub open spec fn rust_uint_val(s: Seq<u8>) -> Option<int> {
    let t = if s.len() > 0 && s[0] == 43 {
        s.drop_first()
    } else {
        s
    };
    if t.len() > 0 && all_digits(t) {
        Some(dec_val(t))
    } else {
        None
    }
}

pub open spec fn parse_usize_rust(s: Seq<u8>) -> Option<usize> {
    match rust_uint_val(s) {
        Some(v) => if v <= usize::MAX {
            Some(v as usize)
        } else {
            None
        },
        None => None,
    }
}

pub open spec fn parse_u32_rust(s: Seq<u8>) -> Option<u32> {
    match rust_uint_val(s) {
        Some(v) => if v <= u32::MAX {
            Some(v as u32)
        } else {
            None
        },
        None => None,
    }
}

/// Parses `s` exactly as `usize::from_str` would: an optional `+`, then
/// decimal digits, rejecting overflow.
#[verifier::loop_isolation(false)]
pub fn parse_usize_ascii(s: &[u8]) -> (r: Option<usize>)
    ensures
        r == parse_usize_rust(s@),
{
    let t = skip_plus(s);
    let n = t.len();
    if n == 0 {
        return None;
    }
    let mut v: usize = 0;
    let mut i: usize = 0;
    while i < n
        invariant
            0 <= i <= n,
            n == t@.len(),
            all_digits(t@.subrange(0, i as int)),
            v == dec_val(t@.subrange(0, i as int)),
        decreases n - i,
    {
        let c = t[i];
        if c < 48 || c > 57 {
            proof {
                assert(!is_digit(t@[i as int]));
            }
            return None;
        }
        let d = (c - 48) as usize;
        proof {
            assert(t@.subrange(0, i as int + 1).drop_last() =~= t@.subrange(0, i as int));
            assert(t@.subrange(0, i as int + 1).last() == t@[i as int]);
        }
        match v.checked_mul(10) {
            Some(m) => {
                match m.checked_add(d) {
                    Some(w) => {
                        v = w;
                    },
                    None => {
                        proof {
                            usize_overflow_means_none(t@, i as int);
                        }
                        return None;
                    },
                }
            },
            None => {
                proof {
                    usize_overflow_means_none(t@, i as int);
                }
                return None;
            },
        }
        i = i + 1;
    }
    proof {
        assert(t@.subrange(0, n as int) =~= t@);
    }
    Some(v)
}

proof fn usize_overflow_means_none(t: Seq<u8>, i: int)
    requires
        0 <= i < t.len(),
        all_digits(t.subrange(0, i)),
        is_digit(t[i]),
        dec_val(t.subrange(0, i + 1)) > usize::MAX,
    ensures
        !(t.len() > 0 && all_digits(t) && dec_val(t) <= usize::MAX),
{
    if t.len() > 0 && all_digits(t) && dec_val(t) <= usize::MAX {
        lemma_dec_val_prefix_le(t, i + 1);
    }
}

/// Parses `s` exactly as `u32::from_str` would.
#[verifier::loop_isolation(false)]
pub fn parse_u32_ascii(s: &[u8]) -> (r: Option<u32>)
    ensures
        r == parse_u32_rust(s@),
{
    let t = skip_plus(s);
    let n = t.len();
    if n == 0 {
        return None;
    }
    let mut v: u32 = 0;
    let mut i: usize = 0;
    while i < n
        invariant
            0 <= i <= n,
            n == t@.len(),
            all_digits(t@.subrange(0, i as int)),
            v == dec_val(t@.subrange(0, i as int)),
        decreases n - i,
    {
        let c = t[i];
        if c < 48 || c > 57 {
            proof {
                assert(!is_digit(t@[i as int]));
            }
            return None;
        }
        let d = (c - 48) as u32;
        proof {
            assert(t@.subrange(0, i as int + 1).drop_last() =~= t@.subrange(0, i as int));
            assert(t@.subrange(0, i as int + 1).last() == t@[i as int]);
        }
        match v.checked_mul(10) {
            Some(m) => {
                match m.checked_add(d) {
                    Some(w) => {
                        v = w;
                    },
                    None => {
                        proof {
                            u32_overflow_means_none(t@, i as int);
                        }
                        return None;
                    },
                }
            },
            None => {
                proof {
                    u32_overflow_means_none(t@, i as int);
                }
                return None;
            },
        }
        i = i + 1;
    }
    proof {
        assert(t@.subrange(0, n as int) =~= t@);
    }
    Some(v)
}

proof fn u32_overflow_means_none(t: Seq<u8>, i: int)
    requires
        0 <= i < t.len(),
        all_digits(t.subrange(0, i)),
        is_digit(t[i]),
        dec_val(t.subrange(0, i + 1)) > u32::MAX,
    ensures
        !(t.len() > 0 && all_digits(t) && dec_val(t) <= u32::MAX),
{
    if t.len() > 0 && all_digits(t) && dec_val(t) <= u32::MAX {
        lemma_dec_val_prefix_le(t, i + 1);
    }
}

// ---------------------------------------------------------------------------
// Delimited spans
// ---------------------------------------------------------------------------

/// Half-open range of the text between the first `open` tag and the first
/// `close` tag after it.
pub open spec fn tag_body_spec(hay: Seq<u8>, open: Seq<u8>, close: Seq<u8>) -> Option<(int, int)> {
    match find_sub(hay, open) {
        None => None,
        Some(s) => match find_sub_from(hay, close, s + open.len()) {
            None => None,
            Some(e) => Some((s + open.len(), e)),
        },
    }
}

/// Spec-level view of an optional pair of positions.
pub open spec fn opt_int2(r: Option<(usize, usize)>) -> Option<(int, int)> {
    match r {
        Some((a, b)) => Some((a as int, b as int)),
        None => None,
    }
}

/// Range of the body enclosed by the first `open` ... `close` pair.
#[verifier::loop_isolation(false)]
pub fn tag_body(hay: &[u8], open: &[u8], close: &[u8]) -> (r: Option<(usize, usize)>)
    ensures
        opt_int2(r) == tag_body_spec(hay@, open@, close@),
        r matches Some(p) ==> p.0 <= p.1 <= hay@.len(),
{
    let s = match memmem(hay, open) {
        Some(s) => s,
        None => {
            return None;
        },
    };
    let hl = hay.len();
    proof {
        lemma_find_sub_from_correct(hay@, open@, 0);
    }
    let b = s + open.len();
    let rest = vstd::slice::slice_subrange(hay, b, hl);
    let e_rel = match memmem(rest, close) {
        Some(e) => e,
        None => {
            proof {
                lemma_find_sub_skip(hay@, close@, b as int);
            }
            return None;
        },
    };
    proof {
        lemma_find_sub_skip(hay@, close@, b as int);
        lemma_find_sub_from_correct(hay@, close@, b as int);
    }
    Some((b, b + e_rel))
}

/// Copies `a` and appends the single byte `b`.
pub fn bytes_then(a: &[u8], b: u8) -> (v: Vec<u8>)
    ensures
        v@ == a@ + seq![b],
{
    let mut v = vstd::slice::slice_to_vec(a);
    v.push(b);
    proof {
        assert(v@ =~= a@ + seq![b]);
    }
    v
}

/// Makes the single byte `a` followed by a copy of `b`.
#[verifier::loop_isolation(false)]
pub fn byte_then(a: u8, b: &[u8]) -> (v: Vec<u8>)
    ensures
        v@ == seq![a] + b@,
{
    let mut v: Vec<u8> = Vec::new();
    v.push(a);
    let n = b.len();
    let mut i: usize = 0;
    while i < n
        invariant
            0 <= i <= n,
            v@ == seq![a] + b@.subrange(0, i as int),
        decreases n - i,
    {
        v.push(b[i]);
        proof {
            assert(seq![a] + b@.subrange(0, i as int) + seq![b@[i as int]] =~= seq![a]
                + b@.subrange(0, i as int + 1));
        }
        i = i + 1;
    }
    proof {
        assert(b@.subrange(0, n as int) =~= b@);
    }
    v
}

/// Drops one leading `+`, the sign `std`'s unsigned parsers accept.
fn skip_plus(s: &[u8]) -> (r: &[u8])
    ensures
        r@ == if s@.len() > 0 && s@[0] == 43 {
            s@.drop_first()
        } else {
            s@
        },
{
    if s.len() > 0 && s[0] == 43 {
        let t = vstd::slice::slice_subrange(s, 1, s.len());
        proof {
            assert(t@ =~= s@.drop_first());
        }
        t
    } else {
        s
    }
}

} // verus!
