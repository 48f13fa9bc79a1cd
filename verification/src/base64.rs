//! Standard base64 encoding (alphabet `A-Z a-z 0-9 + /`, `=` padding, no
//! line wrapping), with a spec-level decoder and a proof that decoding an
//! encoded sequence gives the original bytes back.
use crate::ascii::{ascii_chars, string_from_ascii};
use vstd::prelude::*;

verus! {

/// ASCII code of the padding character `=`.
pub const PAD: u8 = 61;

/// ASCII code of the alphabet character for a six-bit value.
pub open spec fn b64_byte(v: u8) -> u8 {
    if v < 26 {
        (65 + v) as u8
    } else if v < 52 {
        (71 + v) as u8
    } else if v < 62 {
        (v - 4) as u8
    } else if v == 62 {
        43u8
    } else {
        47u8
    }
}

/// Six-bit value of an alphabet character, `None` for anything else
/// (including the padding character).
pub open spec fn b64_val(c: u8) -> Option<u8> {
    if 65 <= c && c <= 90 {
        Some((c - 65) as u8)
    } else if 97 <= c && c <= 122 {
        Some((c - 71) as u8)
    } else if 48 <= c && c <= 57 {
        Some((c + 4) as u8)
    } else if c == 43 {
        Some(62u8)
    } else if c == 47 {
        Some(63u8)
    } else {
        None
    }
}

/// Four output characters of a full three-byte group.
pub open spec fn enc3(a: u8, b: u8, c: u8) -> Seq<u8> {
    let n = ((a as u32) << 16) | ((b as u32) << 8) | (c as u32);
    seq![
        b64_byte(((n >> 18) & 63) as u8),
        b64_byte(((n >> 12) & 63) as u8),
        b64_byte(((n >> 6) & 63) as u8),
        b64_byte((n & 63) as u8),
    ]
}

/// Output of a final two-byte group: three characters and one `=`.
pub open spec fn enc2(a: u8, b: u8) -> Seq<u8> {
    let n = ((a as u32) << 16) | ((b as u32) << 8);
    seq![
        b64_byte(((n >> 18) & 63) as u8),
        b64_byte(((n >> 12) & 63) as u8),
        b64_byte(((n >> 6) & 63) as u8),
        PAD,
    ]
}

/// Output of a final one-byte group: two characters and two `=`.
pub open spec fn enc1(a: u8) -> Seq<u8> {
    let n = (a as u32) << 16;
    seq![
        b64_byte(((n >> 18) & 63) as u8),
        b64_byte(((n >> 12) & 63) as u8),
        PAD,
        PAD,
    ]
}

/// The base64 encoding of a byte sequence, as ASCII codes.
pub open spec fn b64_encode(s: Seq<u8>) -> Seq<u8>
    decreases s.len(),
{
    if s.len() >= 3 {
        enc3(s[0], s[1], s[2]) + b64_encode(s.skip(3))
    } else if s.len() == 2 {
        enc2(s[0], s[1])
    } else if s.len() == 1 {
        enc1(s[0])
    } else {
        Seq::empty()
    }
}

/// Decoding of one full (unpadded) four-character group.
pub open spec fn dec4(x1: u8, x2: u8, x3: u8, x4: u8) -> Option<Seq<u8>> {
    match (b64_val(x1), b64_val(x2), b64_val(x3), b64_val(x4)) {
        (Some(v1), Some(v2), Some(v3), Some(v4)) => {
            let m = ((v1 as u32) << 18) | ((v2 as u32) << 12) | ((v3 as u32) << 6) | (v4 as u32);
            Some(seq![((m >> 16) & 255) as u8, ((m >> 8) & 255) as u8, (m & 255) as u8])
        },
        _ => None,
    }
}

/// Decoding of the final four-character group, which may carry padding.
pub open spec fn dec_tail(x1: u8, x2: u8, x3: u8, x4: u8) -> Option<Seq<u8>> {
    if x3 == PAD && x4 == PAD {
        match (b64_val(x1), b64_val(x2)) {
            (Some(v1), Some(v2)) => {
                let m = ((v1 as u32) << 18) | ((v2 as u32) << 12);
                Some(seq![((m >> 16) & 255) as u8])
            },
            _ => None,
        }
    } else if x4 == PAD {
        match (b64_val(x1), b64_val(x2), b64_val(x3)) {
            (Some(v1), Some(v2), Some(v3)) => {
                let m = ((v1 as u32) << 18) | ((v2 as u32) << 12) | ((v3 as u32) << 6);
                Some(seq![((m >> 16) & 255) as u8, ((m >> 8) & 255) as u8])
            },
            _ => None,
        }
    } else {
        dec4(x1, x2, x3, x4)
    }
}

/// Standard decoding of a padded base64 text given as ASCII codes.
pub open spec fn b64_decode(t: Seq<u8>) -> Option<Seq<u8>>
    decreases t.len(),
{
    if t.len() == 0 {
        Some(Seq::empty())
    } else if t.len() < 4 {
        None
    } else if t.len() == 4 {
        dec_tail(t[0], t[1], t[2], t[3])
    } else {
        match dec4(t[0], t[1], t[2], t[3]) {
            Some(bs) => match b64_decode(t.skip(4)) {
                Some(rest) => Some(bs + rest),
                None => None,
            },
            None => None,
        }
    }
}

/// An alphabet character round-trips through the value table, is never the
/// padding character, and is ASCII.
proof fn lemma_b64_byte_val(v: u8)
    requires
        v < 64,
    ensures
        b64_val(b64_byte(v)) == Some(v),
        b64_byte(v) != PAD,
        b64_byte(v) < 128,
{
}

/// A full group decodes back to its three source bytes, and its four
/// characters are ASCII alphabet characters.
proof fn lemma_group3(a: u8, b: u8, c: u8)
    ensures
        enc3(a, b, c).len() == 4,
        dec4(enc3(a, b, c)[0], enc3(a, b, c)[1], enc3(a, b, c)[2], enc3(a, b, c)[3])
            == Some(seq![a, b, c]),
        forall|j: int| 0 <= j < 4 ==> enc3(a, b, c)[j] != PAD && enc3(a, b, c)[j] < 128,
{
    let n = ((a as u32) << 16) | ((b as u32) << 8) | (c as u32);
    assert(((n >> 18) & 63) < 64 && ((n >> 12) & 63) < 64 && ((n >> 6) & 63) < 64 && (n & 63)
        < 64 && (((((n >> 18) & 63) << 18) | (((n >> 12) & 63) << 12) | (((n >> 6) & 63) << 6)
        | (n & 63)) >> 16) & 255 == a as u32 && (((((n >> 18) & 63) << 18) | (((n >> 12) & 63)
        << 12) | (((n >> 6) & 63) << 6) | (n & 63)) >> 8) & 255 == b as u32 && ((((n >> 18)
        & 63) << 18) | (((n >> 12) & 63) << 12) | (((n >> 6) & 63) << 6) | (n & 63)) & 255
        == c as u32) by (bit_vector)
        requires
            n == ((a as u32) << 16) | ((b as u32) << 8) | (c as u32),
    ;
    let v1 = ((n >> 18) & 63) as u8;
    let v2 = ((n >> 12) & 63) as u8;
    let v3 = ((n >> 6) & 63) as u8;
    let v4 = (n & 63) as u8;
    lemma_b64_byte_val(v1);
    lemma_b64_byte_val(v2);
    lemma_b64_byte_val(v3);
    lemma_b64_byte_val(v4);
    let m = ((v1 as u32) << 18) | ((v2 as u32) << 12) | ((v3 as u32) << 6) | (v4 as u32);
    assert(m == ((((n >> 18) & 63) << 18) | (((n >> 12) & 63) << 12) | (((n >> 6) & 63) << 6)
        | (n & 63)));
    assert(dec4(enc3(a, b, c)[0], enc3(a, b, c)[1], enc3(a, b, c)[2], enc3(a, b, c)[3])
        =~= Some(seq![a, b, c]));
}

/// A final two-byte group decodes back to its two source bytes.
proof fn lemma_group2(a: u8, b: u8)
    ensures
        enc2(a, b).len() == 4,
        dec_tail(enc2(a, b)[0], enc2(a, b)[1], enc2(a, b)[2], enc2(a, b)[3])
            == Some(seq![a, b]),
        forall|j: int| 0 <= j < 3 ==> enc2(a, b)[j] != PAD && enc2(a, b)[j] < 128,
        enc2(a, b)[3] == PAD,
{
    let n = ((a as u32) << 16) | ((b as u32) << 8);
    assert(((n >> 18) & 63) < 64 && ((n >> 12) & 63) < 64 && ((n >> 6) & 63) < 64 && (((((n
        >> 18) & 63) << 18) | (((n >> 12) & 63) << 12) | (((n >> 6) & 63) << 6)) >> 16) & 255
        == a as u32 && (((((n >> 18) & 63) << 18) | (((n >> 12) & 63) << 12) | (((n >> 6)
        & 63) << 6)) >> 8) & 255 == b as u32) by (bit_vector)
        requires
            n == ((a as u32) << 16) | ((b as u32) << 8),
    ;
    let v1 = ((n >> 18) & 63) as u8;
    let v2 = ((n >> 12) & 63) as u8;
    let v3 = ((n >> 6) & 63) as u8;
    lemma_b64_byte_val(v1);
    lemma_b64_byte_val(v2);
    lemma_b64_byte_val(v3);
    let m = ((v1 as u32) << 18) | ((v2 as u32) << 12) | ((v3 as u32) << 6);
    assert(m == ((((n >> 18) & 63) << 18) | (((n >> 12) & 63) << 12) | (((n >> 6) & 63)
        << 6)));
    assert(dec_tail(enc2(a, b)[0], enc2(a, b)[1], enc2(a, b)[2], enc2(a, b)[3])
        =~= Some(seq![a, b]));
}

/// A final one-byte group decodes back to its source byte.
proof fn lemma_group1(a: u8)
    ensures
        enc1(a).len() == 4,
        dec_tail(enc1(a)[0], enc1(a)[1], enc1(a)[2], enc1(a)[3]) == Some(seq![a]),
        forall|j: int| 0 <= j < 2 ==> enc1(a)[j] != PAD && enc1(a)[j] < 128,
        enc1(a)[2] == PAD,
        enc1(a)[3] == PAD,
{
    let n = (a as u32) << 16;
    assert(((n >> 18) & 63) < 64 && ((n >> 12) & 63) < 64 && (((((n >> 18) & 63) << 18)
        | (((n >> 12) & 63) << 12)) >> 16) & 255 == a as u32) by (bit_vector)
        requires
            n == (a as u32) << 16,
    ;
    let v1 = ((n >> 18) & 63) as u8;
    let v2 = ((n >> 12) & 63) as u8;
    lemma_b64_byte_val(v1);
    lemma_b64_byte_val(v2);
    let m = ((v1 as u32) << 18) | ((v2 as u32) << 12);
    assert(m == ((((n >> 18) & 63) << 18) | (((n >> 12) & 63) << 12)));
    assert(dec_tail(enc1(a)[0], enc1(a)[1], enc1(a)[2], enc1(a)[3]) =~= Some(seq![a]));
}

/// Output length: four characters for every started three-byte group.
pub proof fn lemma_b64_encode_len(s: Seq<u8>)
    ensures
        b64_encode(s).len() == 4 * ((s.len() + 2) / 3),
    decreases s.len(),
{
    if s.len() >= 3 {
        lemma_b64_encode_len(s.skip(3));
    }
}

/// Every character of an encoding is ASCII.
pub proof fn lemma_b64_encode_ascii(s: Seq<u8>)
    ensures
        forall|j: int| 0 <= j < b64_encode(s).len() ==> b64_encode(s)[j] < 128,
    decreases s.len(),
{
    if s.len() >= 3 {
        lemma_group3(s[0], s[1], s[2]);
        lemma_b64_encode_ascii(s.skip(3));
        assert forall|j: int| 0 <= j < b64_encode(s).len() implies b64_encode(s)[j] < 128 by {
            if j >= 4 {
                assert(b64_encode(s)[j] == b64_encode(s.skip(3))[j - 4]);
            }
        }
    } else if s.len() == 2 {
        lemma_group2(s[0], s[1]);
    } else if s.len() == 1 {
        lemma_group1(s[0]);
    }
}

/// Round trip: standard-decoding an encoded byte sequence of any length
/// reproduces the original bytes.
pub proof fn lemma_b64_round_trip(s: Seq<u8>)
    ensures
        b64_decode(b64_encode(s)) == Some(s),
    decreases s.len(),
{
    let t = b64_encode(s);
    if s.len() == 0 {
        assert(b64_decode(t) =~= Some(s));
    } else if s.len() == 1 {
        lemma_group1(s[0]);
        assert(b64_decode(t) == dec_tail(t[0], t[1], t[2], t[3]));
        assert(seq![s[0]] =~= s);
    } else if s.len() == 2 {
        lemma_group2(s[0], s[1]);
        assert(b64_decode(t) == dec_tail(t[0], t[1], t[2], t[3]));
        assert(seq![s[0], s[1]] =~= s);
    } else if s.len() == 3 {
        lemma_group3(s[0], s[1], s[2]);
        assert(b64_encode(s.skip(3)).len() == 0);
        assert(t =~= enc3(s[0], s[1], s[2]));
        assert(t[3] != PAD);
        assert(b64_decode(t) == dec_tail(t[0], t[1], t[2], t[3]));
        assert(dec_tail(t[0], t[1], t[2], t[3]) == dec4(t[0], t[1], t[2], t[3]));
        assert(seq![s[0], s[1], s[2]] =~= s);
    } else {
        lemma_group3(s[0], s[1], s[2]);
        lemma_b64_round_trip(s.skip(3));
        lemma_b64_encode_len(s.skip(3));
        let g = enc3(s[0], s[1], s[2]);
        assert(t == g + b64_encode(s.skip(3)));
        assert(t.len() > 4);
        assert(t[0] == g[0] && t[1] == g[1] && t[2] == g[2] && t[3] == g[3]);
        assert(t.skip(4) =~= b64_encode(s.skip(3)));
        assert(dec4(t[0], t[1], t[2], t[3]) == Some(seq![s[0], s[1], s[2]]));
        assert(b64_decode(t) == Some(seq![s[0], s[1], s[2]] + s.skip(3)));
        assert(seq![s[0], s[1], s[2]] + s.skip(3) =~= s);
    }
}

/// Padding rule: no `=` when the input length is a multiple of three, two
/// trailing `=` when one byte remains, one trailing `=` when two remain.
pub proof fn lemma_b64_padding(s: Seq<u8>)
    ensures
        s.len() % 3 == 0 ==> forall|j: int|
            0 <= j < b64_encode(s).len() ==> b64_encode(s)[j] != PAD,
        s.len() % 3 == 1 ==> b64_encode(s).len() >= 4
            && b64_encode(s)[b64_encode(s).len() - 1] == PAD
            && b64_encode(s)[b64_encode(s).len() - 2] == PAD
            && forall|j: int| 0 <= j < b64_encode(s).len() - 2 ==> b64_encode(s)[j] != PAD,
        s.len() % 3 == 2 ==> b64_encode(s).len() >= 4
            && b64_encode(s)[b64_encode(s).len() - 1] == PAD
            && forall|j: int| 0 <= j < b64_encode(s).len() - 1 ==> b64_encode(s)[j] != PAD,
    decreases s.len(),
{
    if s.len() >= 3 {
        lemma_group3(s[0], s[1], s[2]);
        lemma_b64_padding(s.skip(3));
        lemma_b64_encode_len(s.skip(3));
        assert(s.skip(3).len() % 3 == s.len() % 3);
    } else if s.len() == 2 {
        lemma_group2(s[0], s[1]);
    } else if s.len() == 1 {
        lemma_group1(s[0]);
    }
}

/// Executable form of the alphabet table.
fn b64_byte_exec(v: u8) -> (r: u8)
    requires
        v < 64,
    ensures
        r == b64_byte(v),
{
    if v < 26 {
        65 + v
    } else if v < 52 {
        71 + v
    } else if v < 62 {
        v - 4
    } else if v == 62 {
        43
    } else {
        47
    }
}

/// Encode a byte slice as base64 text: three-byte groups become four
/// characters, a final short group is right-padded with `=`.
pub fn encode_to_base64(data: &[u8]) -> (r: String)
    ensures
        r@ == ascii_chars(b64_encode(data@)),
        r@.len() == 4 * ((data@.len() + 2) / 3),
{
    let mut out: Vec<u8> = Vec::new();
    let mut i: usize = 0;
    proof {
        assert(data@.skip(0) =~= data@);
        assert(out@ + b64_encode(data@) =~= b64_encode(data@));
    }
    while data.len() - i >= 3
        invariant
            i <= data@.len(),
            out@ + b64_encode(data@.skip(i as int)) == b64_encode(data@),
        decreases data@.len() - i,
    {
        let a = data[i];
        let b = data[i + 1];
        let c = data[i + 2];
        let n: u32 = ((a as u32) << 16) | ((b as u32) << 8) | (c as u32);
        let ghost prev = out@;
        proof {
            let rest = data@.skip(i as int);
            assert(rest[0] == a && rest[1] == b && rest[2] == c);
            assert(rest.skip(3) =~= data@.skip(i + 3));
            assert(((n >> 18) & 63) < 64 && ((n >> 12) & 63) < 64 && ((n >> 6) & 63) < 64
                && (n & 63) < 64) by (bit_vector);
        }
        out.push(b64_byte_exec(((n >> 18) & 63) as u8));
        out.push(b64_byte_exec(((n >> 12) & 63) as u8));
        out.push(b64_byte_exec(((n >> 6) & 63) as u8));
        out.push(b64_byte_exec((n & 63) as u8));
        proof {
            assert(out@ =~= prev + enc3(a, b, c));
            assert(b64_encode(data@.skip(i as int)) == enc3(a, b, c) + b64_encode(
                data@.skip(i + 3)));
            assert(out@ + b64_encode(data@.skip(i + 3)) =~= prev + b64_encode(
                data@.skip(i as int)));
        }
        i += 3;
    }
    if data.len() - i == 1 {
        let a = data[i];
        let n: u32 = (a as u32) << 16;
        let ghost prev = out@;
        proof {
            assert(data@.skip(i as int) =~= seq![a]);
            assert(((n >> 18) & 63) < 64 && ((n >> 12) & 63) < 64) by (bit_vector);
        }
        out.push(b64_byte_exec(((n >> 18) & 63) as u8));
        out.push(b64_byte_exec(((n >> 12) & 63) as u8));
        out.push(PAD);
        out.push(PAD);
        proof {
            assert(out@ =~= prev + enc1(a));
            assert(out@ =~= b64_encode(data@));
        }
    } else if data.len() - i == 2 {
        let a = data[i];
        let b = data[i + 1];
        let n: u32 = ((a as u32) << 16) | ((b as u32) << 8);
        let ghost prev = out@;
        proof {
            assert(data@.skip(i as int) =~= seq![a, b]);
            assert(((n >> 18) & 63) < 64 && ((n >> 12) & 63) < 64 && ((n >> 6) & 63) < 64)
                by (bit_vector);
        }
        out.push(b64_byte_exec(((n >> 18) & 63) as u8));
        out.push(b64_byte_exec(((n >> 12) & 63) as u8));
        out.push(b64_byte_exec(((n >> 6) & 63) as u8));
        out.push(PAD);
        proof {
            assert(out@ =~= prev + enc2(a, b));
            assert(out@ =~= b64_encode(data@));
        }
    } else {
        proof {
            assert(data@.skip(i as int) =~= Seq::<u8>::empty());
            assert(out@ =~= b64_encode(data@));
        }
    }
    proof {
        lemma_b64_encode_ascii(data@);
        lemma_b64_encode_len(data@);
    }
    string_from_ascii(out)
}

} // verus!
