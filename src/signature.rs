use vstd::prelude::*;
use vstd::arithmetic::power::pow;
use crate::encoding::{sha256_bytes, sha256_of};

verus! {

/// The value of a big-endian byte string.
pub open spec fn be_value(s: Seq<u8>) -> nat
    decreases s.len(),
{
    if s.len() == 0 {
        0
    } else {
        be_value(s.drop_last()) * 256 + s.last() as nat
    }
}

/// The public exponent that keys of this kind use unless another is given.
pub const DEFAULT_E: u64 = 65537;

/// The DER prefix of a SHA-256 `DigestInfo`.
pub open spec fn sha256_digest_info() -> Seq<u8> {
    seq![
        0x30u8, 0x31, 0x30, 0x0d, 0x06, 0x09, 0x60, 0x86, 0x48, 0x01, 0x65, 0x03, 0x04, 0x02,
        0x01, 0x05, 0x00, 0x04, 0x20,
    ]
}

/// The least modulus length, in bytes, that leaves eight bytes of `0xff` padding.
pub const MIN_MODULUS_BYTES: usize = 62;

/// The PKCS#1 v1.5 encoding of a SHA-256 digest in `k` bytes.
pub open spec fn pkcs1_encoding(d: Seq<u8>, k: nat) -> Seq<u8> {
    seq![0x00u8, 0x01] + Seq::new((k - 3 - 19 - d.len()) as nat, |i: int| 0xffu8) + seq![0x00u8]
        + sha256_digest_info() + d
}

/// The signature relation: the signature to the exponent, modulo the modulus, is the
/// encoded digest.
pub open spec fn rsa_relation(n: Seq<u8>, e: Seq<u8>, s: Seq<u8>, d: Seq<u8>) -> bool {
    pow(be_value(s) as int, be_value(e)) % (be_value(n) as int) == be_value(
        pkcs1_encoding(d, n.len()),
    ) as int
}

/// Relies on `num_bigint::BigUint::modpow` (with `from_bytes_be` and `to_bytes_be` to convert):
/// `(base ^ exponent) % modulus`, which panics on a zero modulus.
#[verifier::external_body]
fn mod_pow_be(base: &[u8], exponent: &[u8], modulus: &[u8]) -> (r: Vec<u8>)
    requires
        be_value(modulus@) > 0,
    ensures
        be_value(r@) as int == pow(be_value(base@) as int, be_value(exponent@)) % (be_value(
            modulus@,
        ) as int),
{
    let b = num_bigint::BigUint::from_bytes_be(base);
    let e = num_bigint::BigUint::from_bytes_be(exponent);
    let m = num_bigint::BigUint::from_bytes_be(modulus);
    b.modpow(&e, &m).to_bytes_be()
}

proof fn lemma_be_positive(s: Seq<u8>, i: int)
    requires
        0 <= i < s.len(),
        s[i] != 0,
    ensures
        be_value(s) > 0,
    decreases s.len(),
{
    if i < s.len() - 1 {
        lemma_be_positive(s.drop_last(), i);
    }
}

proof fn lemma_be_zeros_prefix(m: nat, s: Seq<u8>)
    ensures
        be_value(Seq::new(m, |i: int| 0u8) + s) == be_value(s),
    decreases s.len(),
{
    let z = Seq::new(m, |i: int| 0u8);
    if s.len() == 0 {
        assert(z + s =~= z);
        lemma_be_zeros(m);
    } else {
        lemma_be_zeros_prefix(m, s.drop_last());
        assert((z + s).drop_last() =~= z + s.drop_last());
    }
}

proof fn lemma_be_zeros(m: nat)
    ensures
        be_value(Seq::new(m, |i: int| 0u8)) == 0,
    decreases m,
{
    if m > 0 {
        lemma_be_zeros((m - 1) as nat);
        assert(Seq::new(m, |i: int| 0u8).drop_last() =~= Seq::new((m - 1) as nat, |i: int| 0u8));
    }
}

/// Byte strings of one length are equal exactly when their values are.
pub proof fn lemma_be_injective(a: Seq<u8>, b: Seq<u8>)
    requires
        a.len() == b.len(),
        be_value(a) == be_value(b),
    ensures
        a == b,
    decreases a.len(),
{
    if a.len() > 0 {
        let x = be_value(a.drop_last());
        let y = be_value(b.drop_last());
        let c = a.last() as nat;
        let d = b.last() as nat;
        assert(x * 256 + c == y * 256 + d);
        assert(c == d && x == y) by (nonlinear_arith)
            requires
                x * 256 + c == y * 256 + d,
                c < 256,
                d < 256,
        ;
        lemma_be_injective(a.drop_last(), b.drop_last());
        assert(a =~= a.drop_last().push(a.last()));
        assert(b =~= b.drop_last().push(b.last()));
    }
}

/// `s` with leading zeros up to `len` bytes.
fn left_pad(s: &[u8], len: usize) -> (r: Vec<u8>)
    requires
        s@.len() <= len,
    ensures
        r@ == Seq::new((len - s@.len()) as nat, |i: int| 0u8) + s@,
        be_value(r@) == be_value(s@),
        r@.len() == len,
{
    let ghost z = Seq::new((len - s@.len()) as nat, |i: int| 0u8);
    let mut r: Vec<u8> = Vec::new();
    let mut i: usize = 0;
    let lead = len - s.len();
    while i < len
        invariant
            i <= len,
            lead == len - s@.len(),
            s@.len() <= len,
            z == Seq::new(lead as nat, |i: int| 0u8),
            r@ == (z + s@).subrange(0, i as int),
        decreases len - i,
    {
        if i < lead {
            r.push(0);
        } else {
            r.push(s[i - lead]);
        }
        assert(r@ =~= (z + s@).subrange(0, i + 1));
        i = i + 1;
    }
    assert(r@ =~= z + s@);
    proof {
        lemma_be_zeros_prefix((len - s@.len()) as nat, s@);
    }
    r
}

/// Whether two big-endian byte strings have the same value.
pub fn be_equal(a: &[u8], b: &[u8]) -> (r: bool)
    ensures
        r == (be_value(a@) == be_value(b@)),
{
    let len = if a.len() >= b.len() {
        a.len()
    } else {
        b.len()
    };
    let pa = left_pad(a, len);
    let pb = left_pad(b, len);
    let mut i: usize = 0;
    while i < len
        invariant
            i <= len,
            pa@.len() == len,
            pb@.len() == len,
            be_value(pa@) == be_value(a@),
            be_value(pb@) == be_value(b@),
            forall|j: int| 0 <= j < i ==> pa@[j] == pb@[j],
        decreases len - i,
    {
        if pa[i] != pb[i] {
            proof {
                if be_value(pa@) == be_value(pb@) {
                    lemma_be_injective(pa@, pb@);
                }
            }
            return false;
        }
        i = i + 1;
    }
    assert(pa@ =~= pb@);
    true
}

/// The PKCS#1 v1.5 encoding of a 32-byte digest in `k` bytes.
pub fn encode_pkcs1(digest: &[u8], k: usize) -> (r: Vec<u8>)
    requires
        digest@.len() == 32,
        k >= MIN_MODULUS_BYTES,
    ensures
        r@ == pkcs1_encoding(digest@, k as nat),
        r@.len() == k,
{
    let mut r: Vec<u8> = Vec::new();
    r.push(0x00);
    r.push(0x01);
    let ps_len = k - 3 - 19 - 32;
    let mut i: usize = 0;
    while i < ps_len
        invariant
            i <= ps_len,
            r@ == seq![0x00u8, 0x01] + Seq::new(i as nat, |j: int| 0xffu8),
        decreases ps_len - i,
    {
        r.push(0xff);
        assert(r@ =~= seq![0x00u8, 0x01] + Seq::new((i + 1) as nat, |j: int| 0xffu8));
        i = i + 1;
    }
    r.push(0x00);
    let info: [u8; 19] = [
        0x30, 0x31, 0x30, 0x0d, 0x06, 0x09, 0x60, 0x86, 0x48, 0x01, 0x65, 0x03, 0x04, 0x02,
        0x01, 0x05, 0x00, 0x04, 0x20,
    ];
    let ghost head = r@;
    let mut j: usize = 0;
    while j < 19
        invariant
            j <= 19,
            info@ == sha256_digest_info(),
            r@ == head + sha256_digest_info().subrange(0, j as int),
        decreases 19 - j,
    {
        r.push(info[j]);
        assert(r@ =~= head + sha256_digest_info().subrange(0, j + 1));
        j = j + 1;
    }
    let ghost head2 = r@;
    let mut t: usize = 0;
    while t < 32
        invariant
            t <= 32,
            digest@.len() == 32,
            r@ == head2 + digest@.subrange(0, t as int),
        decreases 32 - t,
    {
        r.push(digest[t]);
        assert(r@ =~= head2 + digest@.subrange(0, t + 1));
        t = t + 1;
    }
    assert(sha256_digest_info().subrange(0, 19) =~= sha256_digest_info());
    assert(digest@.subrange(0, 32) =~= digest@);
    assert(r@ =~= pkcs1_encoding(digest@, k as nat));
    r
}

#[derive(Clone, Copy, Debug, PartialEq, Eq, Structural)]
pub enum SignatureError {
    /// The modulus has a leading zero byte or too few bytes for the encoded digest.
    ModulusTooShort,
    /// The digest is not 32 bytes long.
    DigestLength,
}

/// Whether the modulus can carry an encoded SHA-256 digest.
pub open spec fn modulus_ok(n: Seq<u8>) -> bool {
    n.len() >= MIN_MODULUS_BYTES && n[0] != 0
}

/// Checks a PKCS#1 v1.5 signature over a SHA-256 digest, with all numbers big-endian.
pub fn verify_pkcs1v15(modulus: &[u8], exponent: &[u8], signature: &[u8], digest: &[u8]) -> (r:
    Result<bool, SignatureError>)
    ensures
        r == Err::<bool, SignatureError>(SignatureError::ModulusTooShort) <==> !modulus_ok(
            modulus@,
        ),
        r == Err::<bool, SignatureError>(SignatureError::DigestLength) <==> (modulus_ok(modulus@)
            && digest@.len() != 32),
        r is Ok <==> (modulus_ok(modulus@) && digest@.len() == 32),
        r matches Ok(b) ==> b == rsa_relation(modulus@, exponent@, signature@, digest@),
{
    if modulus.len() < MIN_MODULUS_BYTES || modulus[0] == 0 {
        return Err(SignatureError::ModulusTooShort);
    }
    if digest.len() != 32 {
        return Err(SignatureError::DigestLength);
    }
    proof {
        lemma_be_positive(modulus@, 0);
    }
    let em = encode_pkcs1(digest, modulus.len());
    let m = mod_pow_be(signature, exponent, modulus);
    Ok(be_equal(m.as_slice(), em.as_slice()))
}

/// Hashes the signed header and checks the signature over its digest.
pub fn verify_header_signature(header: &[u8], modulus: &[u8], exponent: &[u8], signature: &[u8]) -> (r:
    Result<bool, SignatureError>)
    ensures
        r == Err::<bool, SignatureError>(SignatureError::ModulusTooShort) <==> !modulus_ok(
            modulus@,
        ),
        r is Ok <==> modulus_ok(modulus@),
        r matches Ok(b) ==> b == rsa_relation(modulus@, exponent@, signature@, sha256_of(header@)),
{
    let digest = sha256_bytes(header);
    verify_pkcs1v15(modulus, exponent, signature, digest.as_slice())
}

/// One signature and key cannot satisfy the relation for two different digests: changing
/// any bit of a digest that verifies makes the relation fail.
pub proof fn lemma_relation_pins_digest(
    n: Seq<u8>,
    e: Seq<u8>,
    s: Seq<u8>,
    d1: Seq<u8>,
    d2: Seq<u8>,
)
    requires
        modulus_ok(n),
        d1.len() == 32,
        d2.len() == 32,
        d1 != d2,
        rsa_relation(n, e, s, d1),
    ensures
        !rsa_relation(n, e, s, d2),
{
    if rsa_relation(n, e, s, d2) {
        let k = n.len();
        lemma_be_injective(pkcs1_encoding(d1, k), pkcs1_encoding(d2, k));
        let p = seq![0x00u8, 0x01] + Seq::new((k - 3 - 19 - 32) as nat, |i: int| 0xffu8)
            + seq![0x00u8] + sha256_digest_info();
        assert(pkcs1_encoding(d1, k) == p + d1);
        assert(pkcs1_encoding(d2, k) == p + d2);
        assert(d1 =~= (p + d1).subrange(p.len() as int, k as int));
        assert(d2 =~= (p + d2).subrange(p.len() as int, k as int));
    }
}

} // verus!
