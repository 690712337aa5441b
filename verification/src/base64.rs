//! Base64 decoding as mzML payloads use it: the standard alphabet with `+`
//! and `/`, `=` padding, and interior whitespace skipped without breaking
//! quartet alignment. A quartet with `=` in its third or fourth position
//! contributes fewer bytes; any byte outside the alphabet fails the decode.
use vstd::prelude::*;

use crate::scan::is_ws_spec;

verus! {

/// Value of one base64 alphabet byte, or 255 for a byte outside the
/// alphabet (including `=`).
pub open spec fn b64_inv_spec(c: u8) -> u8 {
    if 65 <= c <= 90 {
        (c - 65) as u8
    } else if 97 <= c <= 122 {
        (c - 71) as u8
    } else if 48 <= c <= 57 {
        (c + 4) as u8
    } else if c == 43 {
        62
    } else if c == 47 {
        63
    } else {
        255
    }
}

/// The 256-entry decode table for the base64 alphabet: alphabet bytes map
/// to their 6-bit value, everything else to 255.
pub fn build_b64_inv() -> (v: Vec<u8>)
    ensures
        v@.len() == 256,
        forall|k: int| 0 <= k < 256 ==> v@[k] == b64_inv_spec(k as u8),
{
    let mut v: Vec<u8> = Vec::new();
    let mut c: usize = 0;
    while c < 256
        invariant
            0 <= c <= 256,
            v@.len() == c,
            forall|k: int| 0 <= k < c ==> v@[k] == b64_inv_spec(k as u8),
        decreases 256 - c,
    {
        let b = c as u8;
        let x: u8 = if b >= 65 && b <= 90 {
            b - 65
        } else if b >= 97 && b <= 122 {
            b - 71
        } else if b >= 48 && b <= 57 {
            b + 4
        } else if b == 43 {
            62
        } else if b == 47 {
            63
        } else {
            255
        };
        v.push(x);
        c = c + 1;
    }
    v
}

/// `s` with every whitespace byte removed.
pub open spec fn strip_all_ws(s: Seq<u8>) -> Seq<u8>
    decreases s.len(),
{
    if s.len() == 0 {
        seq![]
    } else if is_ws_spec(s[0]) {
        strip_all_ws(s.drop_first())
    } else {
        seq![s[0]] + strip_all_ws(s.drop_first())
    }
}

/// One quartet is decodable: the first two bytes are alphabet bytes, the
/// last two are alphabet bytes or `=` padding.
pub open spec fn b64_quad_ok(a: u8, b: u8, c: u8, d: u8) -> bool {
    b64_inv_spec(a) != 255 && b64_inv_spec(b) != 255 && (c == 61 || b64_inv_spec(c) != 255) && (d
        == 61 || b64_inv_spec(d) != 255)
}

/// Bytes one quartet contributes: always the high byte, the middle byte
/// unless the third character is `=`, the low byte unless the fourth is.
pub open spec fn b64_quad_bytes(a: u8, b: u8, c: u8, d: u8) -> Seq<u8> {
    let v2: u8 = if c == 61 {
        0
    } else {
        b64_inv_spec(c)
    };
    let v3: u8 = if d == 61 {
        0
    } else {
        b64_inv_spec(d)
    };
    let n: u32 = ((b64_inv_spec(a) as u32) << 18) | ((b64_inv_spec(b) as u32) << 12) | ((
    v2 as u32) << 6) | (v3 as u32);
    let s0 = seq![((n >> 16) & 0xFF) as u8];
    let s1 = if c != 61 {
        s0 + seq![((n >> 8) & 0xFF) as u8]
    } else {
        s0
    };
    if d != 61 {
        s1 + seq![(n & 0xFF) as u8]
    } else {
        s1
    }
}

/// The whitespace-free text splits into decodable quartets.
pub open spec fn b64_groups_ok(t: Seq<u8>) -> bool
    decreases t.len(),
{
    if t.len() < 4 {
        t.len() == 0
    } else {
        b64_quad_ok(t[0], t[1], t[2], t[3]) && b64_groups_ok(t.skip(4))
    }
}

/// Concatenated bytes of all quartets.
pub open spec fn b64_groups_bytes(t: Seq<u8>) -> Seq<u8>
    decreases t.len(),
{
    if t.len() < 4 {
        seq![]
    } else {
        b64_quad_bytes(t[0], t[1], t[2], t[3]) + b64_groups_bytes(t.skip(4))
    }
}

/// An empty or all-whitespace payload decodes successfully, to no bytes at
/// all: it is never a decode failure.
pub proof fn lemma_ws_only_decodes_empty(s: Seq<u8>)
    requires
        forall|i: int| 0 <= i < s.len() ==> is_ws_spec(#[trigger] s[i]),
    ensures
        b64_groups_ok(strip_all_ws(s)),
        b64_groups_bytes(strip_all_ws(s)) == Seq::<u8>::empty(),
    decreases s.len(),
{
    if s.len() > 0 {
        lemma_ws_only_decodes_empty(s.drop_first());
    }
}

/// Text whose length is not a multiple of four never decodes.
pub proof fn lemma_groups_ok_mod(t: Seq<u8>)
    requires
        t.len() % 4 != 0,
    ensures
        !b64_groups_ok(t),
    decreases t.len(),
{
    if t.len() >= 4 {
        assert(t.skip(4).len() % 4 != 0);
        lemma_groups_ok_mod(t.skip(4));
    }
}

// ---------------------------------------------------------------------------
// The encoding direction, and the round-trip law
// ---------------------------------------------------------------------------

/// Alphabet byte of one 6-bit value.
pub open spec fn b64_chr(v: u8) -> u8 {
    if v < 26 {
        (65 + v) as u8
    } else if v < 52 {
        (71 + v) as u8
    } else if v < 62 {
        (v - 4) as u8
    } else if v == 62 {
        43
    } else {
        47
    }
}

/// Standard base64 encoding of a byte sequence, with `=` padding.
pub open spec fn b64_encode(bs: Seq<u8>) -> Seq<u8>
    decreases bs.len(),
{
    if bs.len() == 0 {
        seq![]
    } else if bs.len() == 1 {
        let n = (bs[0] as u32) << 16;
        seq![
            b64_chr(((n >> 18) & 63) as u8),
            b64_chr(((n >> 12) & 63) as u8),
            61u8,
            61u8,
        ]
    } else if bs.len() == 2 {
        let n = ((bs[0] as u32) << 16) | ((bs[1] as u32) << 8);
        seq![
            b64_chr(((n >> 18) & 63) as u8),
            b64_chr(((n >> 12) & 63) as u8),
            b64_chr(((n >> 6) & 63) as u8),
            61u8,
        ]
    } else {
        let n = ((bs[0] as u32) << 16) | ((bs[1] as u32) << 8) | (bs[2] as u32);
        seq![
            b64_chr(((n >> 18) & 63) as u8),
            b64_chr(((n >> 12) & 63) as u8),
            b64_chr(((n >> 6) & 63) as u8),
            b64_chr((n & 63) as u8),
        ] + b64_encode(bs.skip(3))
    }
}

/// The decode table inverts the alphabet; no alphabet byte is padding.
pub proof fn lemma_b64_chr_inv(v: u8)
    requires
        v < 64,
    ensures
        b64_inv_spec(b64_chr(v)) == v,
        b64_chr(v) != 61,
        !is_ws_spec(b64_chr(v)),
{
}

/// Any 6-bit mask of a word is below 64.
proof fn lemma_mask63(y: u32)
    ensures
        (y & 63) < 64,
{
    assert((y & 63) < 64) by (bit_vector);
}

/// Encoded text contains no whitespace.
pub proof fn lemma_encode_no_ws(bs: Seq<u8>)
    ensures
        forall|i: int| 0 <= i < b64_encode(bs).len() ==> !is_ws_spec(#[trigger] b64_encode(bs)[i]),
    decreases bs.len(),
{
    if bs.len() == 0 {
    } else if bs.len() == 1 {
        let n = (bs[0] as u32) << 16;
        lemma_mask63(n >> 18);
        lemma_mask63(n >> 12);
        lemma_b64_chr_inv(((n >> 18) & 63) as u8);
        lemma_b64_chr_inv(((n >> 12) & 63) as u8);
    } else if bs.len() == 2 {
        let n = ((bs[0] as u32) << 16) | ((bs[1] as u32) << 8);
        lemma_mask63(n >> 18);
        lemma_mask63(n >> 12);
        lemma_mask63(n >> 6);
        lemma_b64_chr_inv(((n >> 18) & 63) as u8);
        lemma_b64_chr_inv(((n >> 12) & 63) as u8);
        lemma_b64_chr_inv(((n >> 6) & 63) as u8);
    } else {
        let n = ((bs[0] as u32) << 16) | ((bs[1] as u32) << 8) | (bs[2] as u32);
        lemma_mask63(n >> 18);
        lemma_mask63(n >> 12);
        lemma_mask63(n >> 6);
        lemma_mask63(n);
        lemma_b64_chr_inv(((n >> 18) & 63) as u8);
        lemma_b64_chr_inv(((n >> 12) & 63) as u8);
        lemma_b64_chr_inv(((n >> 6) & 63) as u8);
        lemma_b64_chr_inv((n & 63) as u8);
        lemma_encode_no_ws(bs.skip(3));
        assert forall|i: int| 0 <= i < b64_encode(bs).len() implies !is_ws_spec(
            #[trigger] b64_encode(bs)[i],
        ) by {
            if i >= 4 {
                assert(b64_encode(bs)[i] == b64_encode(bs.skip(3))[i - 4]);
            }
        }
    }
}

/// Whitespace removal leaves whitespace-free text unchanged.
pub proof fn lemma_strip_ws_id(s: Seq<u8>)
    requires
        forall|i: int| 0 <= i < s.len() ==> !is_ws_spec(#[trigger] s[i]),
    ensures
        strip_all_ws(s) == s,
    decreases s.len(),
{
    if s.len() > 0 {
        lemma_strip_ws_id(s.drop_first());
        assert(seq![s[0]] + s.drop_first() =~= s);
    }
}

/// Round trip of the text codec: encoding any byte sequence yields
/// decodable quartets whose decoding is exactly the original bytes.
pub proof fn lemma_b64_round_trip(bs: Seq<u8>)
    ensures
        b64_groups_ok(b64_encode(bs)),
        b64_groups_bytes(b64_encode(bs)) == bs,
    decreases bs.len(),
{
    let t = b64_encode(bs);
    reveal_with_fuel(b64_groups_ok, 3);
    reveal_with_fuel(b64_groups_bytes, 3);
    if bs.len() == 0 {
        assert(b64_groups_bytes(t) =~= bs);
    } else if bs.len() == 1 {
        let b0 = bs[0];
        let n = (b0 as u32) << 16;
        let v0 = ((n >> 18) & 63) as u8;
        let v1 = ((n >> 12) & 63) as u8;
        lemma_mask63(n >> 18);
        lemma_mask63(n >> 12);
        lemma_b64_chr_inv(v0);
        lemma_b64_chr_inv(v1);
        assert(t.skip(4) =~= Seq::<u8>::empty());
        let w = ((v0 as u32) << 18) | ((v1 as u32) << 12) | ((0u8 as u32) << 6) | (0u8 as u32);
        assert(((w >> 16) & 0xFF) as u8 == b0) by (bit_vector)
            requires
                v0 == ((((b0 as u32) << 16) >> 18) & 63) as u8,
                v1 == ((((b0 as u32) << 16) >> 12) & 63) as u8,
                w == ((v0 as u32) << 18) | ((v1 as u32) << 12) | ((0u8 as u32) << 6) | (0u8 as u32),
        ;
        assert(t.len() == 4);
        assert(t[0] == b64_chr(v0) && t[1] == b64_chr(v1) && t[2] == 61u8 && t[3] == 61u8);
        assert(b64_inv_spec(t[0]) == v0 && b64_inv_spec(t[1]) == v1);
        assert(b64_quad_bytes(t[0], t[1], t[2], t[3]) == seq![((w >> 16) & 0xFF) as u8]);
        assert(b64_groups_bytes(t) =~= bs);
    } else if bs.len() == 2 {
        let b0 = bs[0];
        let b1 = bs[1];
        let n = ((b0 as u32) << 16) | ((b1 as u32) << 8);
        let v0 = ((n >> 18) & 63) as u8;
        let v1 = ((n >> 12) & 63) as u8;
        let v2 = ((n >> 6) & 63) as u8;
        lemma_mask63(n >> 18);
        lemma_mask63(n >> 12);
        lemma_mask63(n >> 6);
        lemma_b64_chr_inv(v0);
        lemma_b64_chr_inv(v1);
        lemma_b64_chr_inv(v2);
        assert(t.skip(4) =~= Seq::<u8>::empty());
        let w = ((v0 as u32) << 18) | ((v1 as u32) << 12) | ((v2 as u32) << 6) | (0u8 as u32);
        assert(((w >> 16) & 0xFF) as u8 == b0 && ((w >> 8) & 0xFF) as u8 == b1) by (bit_vector)
            requires
                v0 == (((((b0 as u32) << 16) | ((b1 as u32) << 8)) >> 18) & 63) as u8,
                v1 == (((((b0 as u32) << 16) | ((b1 as u32) << 8)) >> 12) & 63) as u8,
                v2 == (((((b0 as u32) << 16) | ((b1 as u32) << 8)) >> 6) & 63) as u8,
                w == ((v0 as u32) << 18) | ((v1 as u32) << 12) | ((v2 as u32) << 6) | (0u8 as u32),
        ;
        assert(b64_groups_bytes(t) =~= bs);
    } else {
        let b0 = bs[0];
        let b1 = bs[1];
        let b2 = bs[2];
        let n = ((b0 as u32) << 16) | ((b1 as u32) << 8) | (b2 as u32);
        let v0 = ((n >> 18) & 63) as u8;
        let v1 = ((n >> 12) & 63) as u8;
        let v2 = ((n >> 6) & 63) as u8;
        let v3 = (n & 63) as u8;
        lemma_mask63(n >> 18);
        lemma_mask63(n >> 12);
        lemma_mask63(n >> 6);
        lemma_mask63(n);
        lemma_b64_chr_inv(v0);
        lemma_b64_chr_inv(v1);
        lemma_b64_chr_inv(v2);
        lemma_b64_chr_inv(v3);
        lemma_b64_round_trip(bs.skip(3));
        assert(t.skip(4) =~= b64_encode(bs.skip(3)));
        let w = ((v0 as u32) << 18) | ((v1 as u32) << 12) | ((v2 as u32) << 6) | (v3 as u32);
        assert(((w >> 16) & 0xFF) as u8 == b0 && ((w >> 8) & 0xFF) as u8 == b1 && (w & 0xFF) as u8
            == b2) by (bit_vector)
            requires
                v0 == (((((b0 as u32) << 16) | ((b1 as u32) << 8) | (b2 as u32)) >> 18) & 63) as u8,
                v1 == (((((b0 as u32) << 16) | ((b1 as u32) << 8) | (b2 as u32)) >> 12) & 63) as u8,
                v2 == (((((b0 as u32) << 16) | ((b1 as u32) << 8) | (b2 as u32)) >> 6) & 63) as u8,
                v3 == ((((b0 as u32) << 16) | ((b1 as u32) << 8) | (b2 as u32)) & 63) as u8,
                w == ((v0 as u32) << 18) | ((v1 as u32) << 12) | ((v2 as u32) << 6) | (v3 as u32),
        ;
        assert(b64_quad_bytes(t[0], t[1], t[2], t[3]) =~= seq![b0, b1, b2]);
        assert(b64_groups_bytes(t) =~= bs);
    }
}

/// Decodes base64 text (whitespace tolerated anywhere), appending the bytes
/// to `out`. Returns false — leaving `out` in an unspecified intermediate
/// state — if the non-whitespace text is not a sequence of decodable
/// quartets; an empty or all-whitespace input succeeds with no bytes.
#[verifier::loop_isolation(false)]
#[verifier::rlimit(100)]
pub fn decode_base64_ws_into(s: &[u8], out: &mut Vec<u8>) -> (r: bool)
    ensures
        r == b64_groups_ok(strip_all_ws(s@)),
        r ==> final(out)@ == old(out)@ + b64_groups_bytes(strip_all_ws(s@)),
{
    let n = s.len();
    let mut t: Vec<u8> = Vec::new();
    let mut i: usize = 0;
    proof {
        assert(s@.skip(0) =~= s@);
    }
    while i < n
        invariant
            0 <= i <= n,
            n == s@.len(),
            t@ + strip_all_ws(s@.skip(i as int)) == strip_all_ws(s@),
        decreases n - i,
    {
        let c = s[i];
        proof {
            assert(s@.skip(i as int).drop_first() =~= s@.skip(i as int + 1));
            assert(s@.skip(i as int)[0] == s@[i as int]);
        }
        if !crate::scan::is_ws(c) {
            t.push(c);
            proof {
                assert(t@ + strip_all_ws(s@.skip(i as int + 1)) =~= strip_all_ws(s@));
            }
        }
        i = i + 1;
    }
    proof {
        assert(s@.skip(n as int) =~= Seq::<u8>::empty());
        assert(t@ + strip_all_ws(s@.skip(n as int)) =~= t@);
        assert(t@ == strip_all_ws(s@));
    }
    let m = t.len();
    if m == 0 {
        proof {
            assert(out@ =~= old(out)@ + b64_groups_bytes(strip_all_ws(s@)));
        }
        return true;
    }
    if m % 4 != 0 {
        proof {
            lemma_groups_ok_mod(t@);
        }
        return false;
    }
    let inv = build_b64_inv();
    let ghost t0 = t@;
    let mut j: usize = 0;
    proof {
        assert(t0.skip(0) =~= t0);
    }
    while j < m
        invariant
            0 <= j <= m,
            j % 4 == 0,
            m % 4 == 0,
            m == t@.len(),
            t@ == t0,
            inv@.len() == 256,
            forall|k: int| 0 <= k < 256 ==> inv@[k] == b64_inv_spec(k as u8),
            b64_groups_ok(t0) == b64_groups_ok(t0.skip(j as int)),
            b64_groups_ok(t0.skip(j as int)) ==> out@ + b64_groups_bytes(t0.skip(j as int)) == old(
                out,
            )@ + b64_groups_bytes(t0),
        decreases m - j,
    {
        let q0 = t[j];
        let q1 = t[j + 1];
        let q2 = t[j + 2];
        let q3 = t[j + 3];
        proof {
            assert(t0.skip(j as int)[0] == t0[j as int]);
            assert(t0.skip(j as int)[1] == t0[j as int + 1]);
            assert(t0.skip(j as int)[2] == t0[j as int + 2]);
            assert(t0.skip(j as int)[3] == t0[j as int + 3]);
            assert(t0.skip(j as int).skip(4) =~= t0.skip(j as int + 4));
        }
        let v0 = inv[q0 as usize];
        if v0 == 255 {
            return false;
        }
        let v1 = inv[q1 as usize];
        if v1 == 255 {
            return false;
        }
        let v2: u8 = if q2 == 61 {
            0
        } else {
            let v = inv[q2 as usize];
            if v == 255 {
                return false;
            }
            v
        };
        let v3: u8 = if q3 == 61 {
            0
        } else {
            let v = inv[q3 as usize];
            if v == 255 {
                return false;
            }
            v
        };
        let w: u32 = ((v0 as u32) << 18) | ((v1 as u32) << 12) | ((v2 as u32) << 6) | (v3 as u32);
        let ghost out_before = out@;
        out.push(((w >> 16) & 0xFF) as u8);
        if q2 != 61 {
            out.push(((w >> 8) & 0xFF) as u8);
        }
        if q3 != 61 {
            out.push((w & 0xFF) as u8);
        }
        proof {
            assert(b64_quad_ok(t0[j as int], t0[j as int + 1], t0[j as int + 2], t0[j as int + 3]));
            assert(out@ =~= out_before + b64_quad_bytes(
                t0[j as int],
                t0[j as int + 1],
                t0[j as int + 2],
                t0[j as int + 3],
            ));
        }
        j = j + 4;
    }
    proof {
        assert(t0.skip(m as int) =~= Seq::<u8>::empty());
        assert(out@ + b64_groups_bytes(t0.skip(m as int)) =~= out@);
    }
    true
}

} // verus!
