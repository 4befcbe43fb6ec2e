use vstd::prelude::*;
use crate::encoding::{b64_decode, decode_text};

verus! {

/// A byte wire multiplied by its enable flag.
pub open spec fn masked_spec(flag: bool, b: u8) -> u8 {
    if flag {
        b
    } else {
        0
    }
}

/// A byte wire multiplied by its enable flag.
pub fn masked(flag: bool, b: u8) -> (r: u8)
    ensures
        r == masked_spec(flag, b),
{
    if flag {
        b
    } else {
        0
    }
}

/// At every position, the two sub-circuits' masked bytes are equal.
pub open spec fn inputs_agree(flags: Seq<bool>, chars: Seq<u8>, bytes: Seq<u8>) -> bool {
    forall|i: int|
        0 <= i < flags.len() ==> #[trigger] masked_spec(flags[i], chars[i]) == masked_spec(
            flags[i],
            bytes[i],
        )
}

/// The sum of the enable flags.
pub open spec fn flag_count(flags: Seq<bool>) -> nat
    decreases flags.len(),
{
    if flags.len() == 0 {
        0
    } else {
        flag_count(flags.drop_last()) + if flags.last() {
            1nat
        } else {
            0nat
        }
    }
}

#[derive(Clone, Copy, Debug, PartialEq, Eq, Structural)]
pub enum BindError {
    /// The wire vectors do not all have the same width.
    WidthMismatch,
    /// At some enabled position the two sub-circuits hold different bytes.
    ByteMismatch,
    /// The number of enabled positions differs from the hashed length.
    LengthMismatch,
    /// The text does not decode to the digest.
    DigestMismatch,
}

/// Whether the three wire vectors have one width.
pub open spec fn same_width(flags: Seq<bool>, chars: Seq<u8>, bytes: Seq<u8>) -> bool {
    chars.len() == flags.len() && bytes.len() == flags.len()
}

/// Asserts that the pattern-match and hash sub-circuits read the same input: equal masked
/// bytes at every position, and as many enabled positions as the hash's real length.
pub fn bind_inputs(flags: &[bool], chars: &[u8], bytes: &[u8], input_len: usize) -> (r: Result<
    (),
    BindError,
>)
    ensures
        r == Err::<(), BindError>(BindError::WidthMismatch) <==> !same_width(flags@, chars@, bytes@),
        r == Err::<(), BindError>(BindError::ByteMismatch) <==> (same_width(flags@, chars@, bytes@)
            && !inputs_agree(flags@, chars@, bytes@)),
        r == Err::<(), BindError>(BindError::LengthMismatch) <==> (same_width(
            flags@,
            chars@,
            bytes@,
        ) && inputs_agree(flags@, chars@, bytes@) && flag_count(flags@) != input_len),
        r is Ok <==> (same_width(flags@, chars@, bytes@) && inputs_agree(flags@, chars@, bytes@)
            && flag_count(flags@) == input_len),
{
    if chars.len() != flags.len() || bytes.len() != flags.len() {
        return Err(BindError::WidthMismatch);
    }
    let mut agree = true;
    let mut sum: usize = 0;
    let mut i: usize = 0;
    while i < flags.len()
        invariant
            i <= flags@.len(),
            same_width(flags@, chars@, bytes@),
            sum == flag_count(flags@.subrange(0, i as int)),
            sum <= i,
            agree == inputs_agree(
                flags@.subrange(0, i as int),
                chars@.subrange(0, i as int),
                bytes@.subrange(0, i as int),
            ),
        decreases flags@.len() - i,
    {
        let flag = flags[i];
        let regex_input = masked(flag, chars[i]);
        let sha2_input = masked(flag, bytes[i]);
        let ghost f = flags@.subrange(0, i + 1);
        let ghost c = chars@.subrange(0, i + 1);
        let ghost b = bytes@.subrange(0, i + 1);
        assert(f.drop_last() =~= flags@.subrange(0, i as int));
        if regex_input != sha2_input {
            agree = false;
            assert(masked_spec(f[i as int], c[i as int]) != masked_spec(f[i as int], b[i as int]));
        } else {
            if agree {
                assert forall|j: int| 0 <= j < f.len() implies #[trigger] masked_spec(f[j], c[j])
                    == masked_spec(f[j], b[j]) by {
                    if j < i {
                        assert(masked_spec(
                            flags@.subrange(0, i as int)[j],
                            chars@.subrange(0, i as int)[j],
                        ) == masked_spec(
                            flags@.subrange(0, i as int)[j],
                            bytes@.subrange(0, i as int)[j],
                        ));
                    }
                }
            } else {
                let ghost j = choose|j: int|
                    0 <= j < i && !(#[trigger] masked_spec(
                        flags@.subrange(0, i as int)[j],
                        chars@.subrange(0, i as int)[j],
                    ) == masked_spec(
                        flags@.subrange(0, i as int)[j],
                        bytes@.subrange(0, i as int)[j],
                    ));
                assert(masked_spec(f[j], c[j]) != masked_spec(f[j], b[j]));
            }
        }
        if flag {
            sum = sum + 1;
        }
        i = i + 1;
    }
    assert(flags@.subrange(0, flags@.len() as int) =~= flags@);
    assert(chars@.subrange(0, flags@.len() as int) =~= chars@);
    assert(bytes@.subrange(0, flags@.len() as int) =~= bytes@);
    if !agree {
        return Err(BindError::ByteMismatch);
    }
    if sum != input_len {
        return Err(BindError::LengthMismatch);
    }
    Ok(())
}

/// Whether two byte strings are equal.
pub(crate) fn bytes_equal(a: &[u8], b: &[u8]) -> (r: bool)
    ensures
        r == (a@ == b@),
{
    if a.len() != b.len() {
        return false;
    }
    let mut i: usize = 0;
    while i < a.len()
        invariant
            i <= a@.len(),
            a@.len() == b@.len(),
            forall|j: int| 0 <= j < i ==> a@[j] == b@[j],
        decreases a@.len() - i,
    {
        if a[i] != b[i] {
            return false;
        }
        i = i + 1;
    }
    assert(a@ =~= b@);
    true
}

/// Asserts that the text decodes, byte for byte, to the digest of the hash sub-circuit.
pub fn link_digest(digest: &[u8], text: &[u8]) -> (r: Result<(), BindError>)
    ensures
        r is Ok <==> b64_decode(text@) == Some(digest@),
        r matches Err(e) ==> e == BindError::DigestMismatch,
{
    match decode_text(text) {
        Some(decoded) => {
            if bytes_equal(decoded.as_slice(), digest) {
                Ok(())
            } else {
                Err(BindError::DigestMismatch)
            }
        },
        None => Err(BindError::DigestMismatch),
    }
}

/// The enable flags of a padded input count its real length.
pub proof fn lemma_flag_count_prefix(len: nat, cap: nat)
    requires
        len <= cap,
    ensures
        flag_count(crate::pattern::flags_for(len, cap)) == len,
    decreases cap,
{
    let f = crate::pattern::flags_for(len, cap);
    if cap > 0 {
        if len == cap {
            lemma_flag_count_prefix((len - 1) as nat, (cap - 1) as nat);
        } else {
            lemma_flag_count_prefix(len, (cap - 1) as nat);
        }
        assert(f.drop_last() =~= crate::pattern::flags_for(
            if len == cap {
                (len - 1) as nat
            } else {
                len
            },
            (cap - 1) as nat,
        ));
    }
}

} // verus!
