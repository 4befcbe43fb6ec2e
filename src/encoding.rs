use vstd::prelude::*;
use base64::Engine as _;

verus! {

/// The padding character `=`.
pub const PAD: u8 = 61;

/// The character of the standard base64 alphabet for a 6-bit value.
pub open spec fn b64_char(v: u8) -> u8 {
    if v < 26 {
        (65 + v) as u8
    } else if v < 52 {
        (97 + (v - 26)) as u8
    } else if v < 62 {
        (48 + (v - 52)) as u8
    } else if v == 62 {
        43
    } else {
        47
    }
}

/// The 6-bit value of a character of the standard base64 alphabet.
pub open spec fn b64_index(c: u8) -> Option<u8> {
    if 65 <= c && c <= 90 {
        Some((c - 65) as u8)
    } else if 97 <= c && c <= 122 {
        Some((c - 71) as u8)
    } else if 48 <= c && c <= 57 {
        Some((c + 4) as u8)
    } else if c == 43 {
        Some(62u8)
    } else if c == 47 {
        Some(63u8)
    } else {
        None
    }
}

pub open spec fn sextet0(b0: u8) -> u8 {
    b0 >> 2
}

pub open spec fn sextet1(b0: u8, b1: u8) -> u8 {
    ((b0 & 3) << 4) | (b1 >> 4)
}

pub open spec fn sextet2(b1: u8, b2: u8) -> u8 {
    ((b1 & 15) << 2) | (b2 >> 6)
}

pub open spec fn sextet3(b2: u8) -> u8 {
    b2 & 63
}

/// Standard base64 with padding, three bytes to four characters.
pub open spec fn b64_encode(s: Seq<u8>) -> Seq<u8>
    decreases s.len(),
{
    if s.len() == 0 {
        seq![]
    } else if s.len() == 1 {
        seq![b64_char(sextet0(s[0])), b64_char(sextet1(s[0], 0)), PAD, PAD]
    } else if s.len() == 2 {
        seq![
            b64_char(sextet0(s[0])),
            b64_char(sextet1(s[0], s[1])),
            b64_char(sextet2(s[1], 0)),
            PAD,
        ]
    } else {
        seq![
            b64_char(sextet0(s[0])),
            b64_char(sextet1(s[0], s[1])),
            b64_char(sextet2(s[1], s[2])),
            b64_char(sextet3(s[2])),
        ] + b64_encode(s.subrange(3, s.len() as int))
    }
}

/// Three bytes from four 6-bit values.
pub open spec fn join_sextets(v0: u8, v1: u8, v2: u8, v3: u8) -> Seq<u8> {
    seq![((v0 << 2) | (v1 >> 4)) as u8, ((v1 << 4) | (v2 >> 2)) as u8, ((v2 << 6) | v3) as u8]
}

/// A group of four alphabet characters.
pub open spec fn decode_full_group(c0: u8, c1: u8, c2: u8, c3: u8) -> Option<Seq<u8>> {
    match (b64_index(c0), b64_index(c1), b64_index(c2), b64_index(c3)) {
        (Some(v0), Some(v1), Some(v2), Some(v3)) => Some(join_sextets(v0, v1, v2, v3)),
        _ => None,
    }
}

/// The last group: full, or padded with one or two `=`, whose unused bits are zero.
pub open spec fn decode_last_group(c0: u8, c1: u8, c2: u8, c3: u8) -> Option<Seq<u8>> {
    if c3 != PAD {
        decode_full_group(c0, c1, c2, c3)
    } else if c2 == PAD {
        match (b64_index(c0), b64_index(c1)) {
            (Some(v0), Some(v1)) => if v1 & 15 == 0 {
                Some(join_sextets(v0, v1, 0, 0).subrange(0, 1))
            } else {
                None
            },
            _ => None,
        }
    } else {
        match (b64_index(c0), b64_index(c1), b64_index(c2)) {
            (Some(v0), Some(v1), Some(v2)) => if v2 & 3 == 0 {
                Some(join_sextets(v0, v1, v2, 0).subrange(0, 2))
            } else {
                None
            },
            _ => None,
        }
    }
}

/// Decoding of standard padded base64; `None` for text that no byte string encodes to.
pub open spec fn b64_decode(t: Seq<u8>) -> Option<Seq<u8>>
    decreases t.len(),
{
    if t.len() == 0 {
        Some(seq![])
    } else if t.len() < 4 {
        None
    } else if t.len() == 4 {
        decode_last_group(t[0], t[1], t[2], t[3])
    } else {
        match decode_full_group(t[0], t[1], t[2], t[3]) {
            Some(g) => match b64_decode(t.subrange(4, t.len() as int)) {
                Some(rest) => Some(g + rest),
                None => None,
            },
            None => None,
        }
    }
}

proof fn lemma_char_index(v: u8)
    requires
        v < 64,
    ensures
        b64_index(b64_char(v)) == Some(v),
        b64_char(v) != PAD,
{
}

proof fn lemma_group_bits(b0: u8, b1: u8, b2: u8)
    ensures
        sextet0(b0) < 64,
        sextet1(b0, b1) < 64,
        sextet2(b1, b2) < 64,
        sextet3(b2) < 64,
        sextet1(b0, 0) & 15 == 0,
        sextet2(b1, 0) & 3 == 0,
        ((sextet0(b0) << 2) | (sextet1(b0, b1) >> 4)) == b0,
        ((sextet1(b0, b1) << 4) | (sextet2(b1, b2) >> 2)) == b1,
        ((sextet2(b1, b2) << 6) | sextet3(b2)) == b2,
{
    assert(b0 >> 2 < 64) by (bit_vector);
    assert(((b0 & 3) << 4) | (b1 >> 4) < 64) by (bit_vector);
    assert(((b1 & 15) << 2) | (b2 >> 6) < 64) by (bit_vector);
    assert(b2 & 63 < 64) by (bit_vector);
    assert((((b0 & 3) << 4) | (0u8 >> 4)) & 15 == 0) by (bit_vector);
    assert((((b1 & 15) << 2) | (0u8 >> 6)) & 3 == 0) by (bit_vector);
    assert(((b0 >> 2) << 2) | ((((b0 & 3) << 4) | (b1 >> 4)) >> 4) == b0) by (bit_vector);
    assert(((((b0 & 3) << 4) | (b1 >> 4)) << 4) | ((((b1 & 15) << 2) | (b2 >> 6)) >> 2) == b1)
        by (bit_vector);
    assert(((((b1 & 15) << 2) | (b2 >> 6)) << 6) | (b2 & 63) == b2) by (bit_vector);
}

pub proof fn lemma_encode_len(s: Seq<u8>)
    ensures
        b64_encode(s).len() == 4 * ((s.len() + 2) / 3),
    decreases s.len(),
{
    if s.len() >= 3 {
        lemma_encode_len(s.subrange(3, s.len() as int));
    }
}

/// Decoding the padded base64 text of any byte string gives back that byte string.
pub proof fn lemma_decode_encode(s: Seq<u8>)
    ensures
        b64_decode(b64_encode(s)) == Some(s),
    decreases s.len(),
{
    let e = b64_encode(s);
    if s.len() == 0 {
    } else if s.len() == 1 {
        lemma_group_bits(s[0], 0, 0);
        lemma_char_index(sextet0(s[0]));
        lemma_char_index(sextet1(s[0], 0));
        assert(join_sextets(sextet0(s[0]), sextet1(s[0], 0), 0, 0).subrange(0, 1) =~= s);
    } else if s.len() == 2 {
        lemma_group_bits(s[0], s[1], 0);
        lemma_char_index(sextet0(s[0]));
        lemma_char_index(sextet1(s[0], s[1]));
        lemma_char_index(sextet2(s[1], 0));
        assert(join_sextets(sextet0(s[0]), sextet1(s[0], s[1]), sextet2(s[1], 0), 0).subrange(0, 2)
            =~= s);
    } else {
        let rest = s.subrange(3, s.len() as int);
        lemma_group_bits(s[0], s[1], s[2]);
        lemma_char_index(sextet0(s[0]));
        lemma_char_index(sextet1(s[0], s[1]));
        lemma_char_index(sextet2(s[1], s[2]));
        lemma_char_index(sextet3(s[2]));
        lemma_decode_encode(rest);
        lemma_encode_len(rest);
        let g = join_sextets(
            sextet0(s[0]),
            sextet1(s[0], s[1]),
            sextet2(s[1], s[2]),
            sextet3(s[2]),
        );
        assert(g =~= s.subrange(0, 3));
        assert(e.subrange(4, e.len() as int) =~= b64_encode(rest));
        assert(s =~= g + rest);
        if rest.len() == 0 {
            assert(g + rest =~= g);
        }
    }
}

/// `a` in front of the decoded bytes, if any.
pub open spec fn prepend(a: Seq<u8>, o: Option<Seq<u8>>) -> Option<Seq<u8>> {
    match o {
        Some(x) => Some(a + x),
        None => None,
    }
}

fn index_of(c: u8) -> (r: Option<u8>)
    ensures
        r == b64_index(c),
{
    if 65 <= c && c <= 90 {
        Some(c - 65)
    } else if 97 <= c && c <= 122 {
        Some(c - 71)
    } else if 48 <= c && c <= 57 {
        Some(c + 4)
    } else if c == 43 {
        Some(62)
    } else if c == 47 {
        Some(63)
    } else {
        None
    }
}

fn push_joined(out: &mut Vec<u8>, v0: u8, v1: u8, v2: u8, v3: u8, count: usize)
    requires
        1 <= count <= 3,
    ensures
        final(out)@ == old(out)@ + join_sextets(v0, v1, v2, v3).subrange(0, count as int),
{
    let ghost j = join_sextets(v0, v1, v2, v3);
    out.push((v0 << 2) | (v1 >> 4));
    if count >= 2 {
        out.push((v1 << 4) | (v2 >> 2));
    }
    if count >= 3 {
        out.push((v2 << 6) | v3);
    }
    assert(out@ =~= old(out)@ + j.subrange(0, count as int));
}

/// Decodes padded standard base64 text; `None` exactly where no byte string encodes to it.
pub fn decode_text(t: &[u8]) -> (r: Option<Vec<u8>>)
    ensures
        match r {
            Some(v) => b64_decode(t@) == Some(v@),
            None => b64_decode(t@) is None,
        },
{
    let n = t.len();
    if n == 0 {
        return Some(Vec::new());
    }
    let mut out: Vec<u8> = Vec::new();
    let mut i: usize = 0;
    proof {
        assert(t@.subrange(0, n as int) =~= t@);
        match b64_decode(t@) {
            Some(x) => {
                assert(out@ + x =~= x);
            },
            None => {},
        }
    }
    while n - i > 4
        invariant
            n == t@.len(),
            i < n,
            b64_decode(t@) == prepend(out@, b64_decode(t@.subrange(i as int, n as int))),
        decreases n - i,
    {
        let ghost rest = t@.subrange(i as int, n as int);
        assert(rest.subrange(4, rest.len() as int) =~= t@.subrange(i + 4, n as int));
        match (index_of(t[i]), index_of(t[i + 1]), index_of(t[i + 2]), index_of(t[i + 3])) {
            (Some(v0), Some(v1), Some(v2), Some(v3)) => {
                let ghost before = out@;
                push_joined(&mut out, v0, v1, v2, v3, 3);
                proof {
                    let g = join_sextets(v0, v1, v2, v3);
                    assert(g.subrange(0, 3) =~= g);
                    match b64_decode(t@.subrange(i + 4, n as int)) {
                        Some(x) => {
                            assert(before + (g + x) =~= (before + g) + x);
                        },
                        None => {},
                    }
                }
            },
            _ => {
                return None;
            },
        }
        i = i + 4;
    }
    let ghost rest = t@.subrange(i as int, n as int);
    if n - i < 4 {
        return None;
    }
    let (c0, c1, c2, c3) = (t[i], t[i + 1], t[i + 2], t[i + 3]);
    assert(rest[0] == c0 && rest[1] == c1 && rest[2] == c2 && rest[3] == c3);
    let ghost before = out@;
    if c3 != PAD {
        match (index_of(c0), index_of(c1), index_of(c2), index_of(c3)) {
            (Some(v0), Some(v1), Some(v2), Some(v3)) => {
                push_joined(&mut out, v0, v1, v2, v3, 3);
                assert(join_sextets(v0, v1, v2, v3).subrange(0, 3) =~= join_sextets(v0, v1, v2, v3));
            },
            _ => {
                return None;
            },
        }
    } else if c2 == PAD {
        match (index_of(c0), index_of(c1)) {
            (Some(v0), Some(v1)) => {
                if v1 & 15 != 0 {
                    return None;
                }
                push_joined(&mut out, v0, v1, 0, 0, 1);
            },
            _ => {
                return None;
            },
        }
    } else {
        match (index_of(c0), index_of(c1), index_of(c2)) {
            (Some(v0), Some(v1), Some(v2)) => {
                if v2 & 3 != 0 {
                    return None;
                }
                push_joined(&mut out, v0, v1, v2, 0, 2);
            },
            _ => {
                return None;
            },
        }
    }
    Some(out)
}

/// Relies on `sha2::Sha256::digest`: the SHA-256 digest of a byte string.
pub uninterp spec fn sha256_of(s: Seq<u8>) -> Seq<u8>;

/// Relies on `sha2::Sha256::digest`: the 32-byte SHA-256 digest of the bytes.
#[verifier::external_body]
pub(crate) fn sha256_bytes(data: &[u8]) -> (r: Vec<u8>)
    ensures
        r@ == sha256_of(data@),
        r@.len() == 32,
{
    <sha2::Sha256 as sha2::Digest>::digest(data).to_vec()
}

/// Relies on `base64::engine::general_purpose::STANDARD.encode`: standard alphabet, with padding.
#[verifier::external_body]
fn standard_b64_encode(data: &[u8]) -> (r: Vec<u8>)
    requires
        data@.len() < usize::MAX / 2,
    ensures
        r@ == b64_encode(data@),
{
    base64::engine::general_purpose::STANDARD.encode(data).into_bytes()
}

/// The padded base64 text of a digest, the auxiliary witness of the text-encoding link.
pub fn encode_digest_text(digest: &[u8]) -> (r: Vec<u8>)
    requires
        digest@.len() < usize::MAX / 2,
    ensures
        r@ == b64_encode(digest@),
        r@.len() == 4 * ((digest@.len() + 2) / 3),
{
    proof {
        lemma_encode_len(digest@);
    }
    standard_b64_encode(digest)
}

} // verus!
