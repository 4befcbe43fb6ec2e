use vstd::prelude::*;
use crate::encoding::{sha256_bytes, sha256_of};

verus! {

/// The bytes of `s` followed by zeros up to `cap` positions.
pub open spec fn padded(s: Seq<u8>, cap: nat) -> Seq<u8> {
    s + Seq::new((cap - s.len()) as nat, |i: int| 0u8)
}

/// The bytes that the digest covers: the real content after the skipped prefix.
pub open spec fn hashed_region(input: Seq<u8>, skip: nat) -> Seq<u8> {
    input.subrange(skip as int, input.len() as int)
}

/// What the hash sub-circuit assigns for one input.
pub struct HashWitness {
    /// The input, padded with zeros to the capacity.
    pub input_bytes: Vec<u8>,
    /// The real length of the input.
    pub input_len: usize,
    /// The digest of the hashed region.
    pub output_bytes: Vec<u8>,
}

#[derive(Clone, Copy, Debug, PartialEq, Eq, Structural)]
pub enum HashError {
    /// The input is longer than the capacity fixed for the circuit.
    InputTooLong,
    /// The skipped prefix is longer than the input.
    PrefixTooLong,
}

/// Fills the hash sub-circuit's wires: the padded input, its real length and the digest
/// of the content after the first `skip_prefix` bytes.
pub fn assign_hash(input: &[u8], capacity: usize, skip_prefix: usize) -> (r: Result<
    HashWitness,
    HashError,
>)
    ensures
        input@.len() > capacity <==> r == Err::<HashWitness, HashError>(HashError::InputTooLong),
        (input@.len() <= capacity && skip_prefix > input@.len()) <==> r == Err::<
            HashWitness,
            HashError,
        >(HashError::PrefixTooLong),
        r matches Ok(w) ==> {
            &&& w.input_bytes@ == padded(input@, capacity as nat)
            &&& w.input_len == input@.len()
            &&& w.output_bytes@ == sha256_of(hashed_region(input@, skip_prefix as nat))
            &&& w.output_bytes@.len() == 32
        },
{
    if input.len() > capacity {
        return Err(HashError::InputTooLong);
    }
    if skip_prefix > input.len() {
        return Err(HashError::PrefixTooLong);
    }
    let mut input_bytes: Vec<u8> = Vec::new();
    let mut i: usize = 0;
    while i < capacity
        invariant
            i <= capacity,
            input@.len() <= capacity,
            input_bytes@ == padded(input@, capacity as nat).subrange(0, i as int),
        decreases capacity - i,
    {
        let ghost p = padded(input@, capacity as nat);
        if i < input.len() {
            input_bytes.push(input[i]);
        } else {
            input_bytes.push(0);
        }
        assert(input_bytes@ =~= p.subrange(0, i + 1));
        i = i + 1;
    }
    assert(input_bytes@ =~= padded(input@, capacity as nat));
    let region = slice_from(input, skip_prefix);
    let output_bytes = sha256_bytes(region.as_slice());
    Ok(HashWitness { input_bytes, input_len: input.len(), output_bytes })
}

/// The input bytes that the hash-only circuit reveals: the first `input_len - skip_prefix`
/// positions of the padded input, and zero after them.
pub open spec fn revealed_spec(w: HashWitness, skip: nat) -> Seq<u8> {
    Seq::new(
        w.input_bytes@.len(),
        |i: int|
            if i < w.input_len - skip {
                w.input_bytes@[i]
            } else {
                0u8
            },
    )
}

/// Masks the padded input down to the bytes that are revealed.
pub fn reveal_input(w: &HashWitness, skip_prefix: usize) -> (r: Vec<u8>)
    requires
        skip_prefix <= w.input_len,
    ensures
        r@ == revealed_spec(*w, skip_prefix as nat),
{
    let expected_len = w.input_len - skip_prefix;
    let mut r: Vec<u8> = Vec::new();
    let mut is_input_revealed = true;
    let mut idx: usize = 0;
    while idx < w.input_bytes.len()
        invariant
            idx <= w.input_bytes@.len(),
            expected_len == w.input_len - skip_prefix,
            is_input_revealed == (idx <= expected_len),
            r@ == revealed_spec(*w, skip_prefix as nat).subrange(0, idx as int),
        decreases w.input_bytes@.len() - idx,
    {
        if idx == expected_len {
            is_input_revealed = false;
        }
        r.push(if is_input_revealed {
            w.input_bytes[idx]
        } else {
            0
        });
        assert(r@ =~= revealed_spec(*w, skip_prefix as nat).subrange(0, idx + 1));
        idx = idx + 1;
    }
    assert(r@ =~= revealed_spec(*w, skip_prefix as nat));
    r
}

/// The bytes of `s` from position `start` on.
pub fn slice_from(s: &[u8], start: usize) -> (r: Vec<u8>)
    requires
        start <= s@.len(),
    ensures
        r@ == s@.subrange(start as int, s@.len() as int),
{
    let mut r: Vec<u8> = Vec::new();
    let mut i: usize = start;
    while i < s.len()
        invariant
            start <= i <= s@.len(),
            r@ == s@.subrange(start as int, i as int),
        decreases s@.len() - i,
    {
        r.push(s[i]);
        assert(r@ =~= s@.subrange(start as int, i + 1));
        i = i + 1;
    }
    r
}

} // verus!
