use vstd::prelude::*;
use crate::binding::bytes_equal;
use crate::circuit::{run_of, CircuitError, RegexSha2Base64Config, RegexSha2Base64Result};
use crate::encoding::{b64_encode, sha256_of};
use crate::hash::hashed_region;
use crate::pattern::{is_extraction, SubstrDef};
use crate::signature::{modulus_ok, rsa_relation, verify_pkcs1v15, SignatureError};

verus! {

#[derive(Clone, Copy, Debug, PartialEq, Eq, Structural)]
pub enum EmailError {
    Header(CircuitError),
    Body(CircuitError),
    /// The header's first substring is not the text of the body's digest.
    BodyHashNotInHeader,
    Signature(SignatureError),
    /// The signature does not satisfy the relation over the header's digest.
    InvalidSignature,
}

/// The outputs of a whole email witness.
pub struct EmailResult {
    pub header: RegexSha2Base64Result,
    pub body: RegexSha2Base64Result,
}

/// Whether one composed sub-circuit has a satisfying witness.
pub open spec fn part_ok(
    c: RegexSha2Base64Config,
    input: Seq<u8>,
    defs: Seq<SubstrDef>,
    subs: Seq<Vec<u8>>,
) -> bool {
    c.loaded && defs.len() == subs.len() && c.satisfiable(input, defs, subs)
}

/// What a composed sub-circuit hands out for a satisfying witness: each substring at its
/// first allowed position, the digest, and the digest's base64 text.
pub open spec fn part_result(
    c: RegexSha2Base64Config,
    input: Seq<u8>,
    defs: Seq<SubstrDef>,
    subs: Seq<Vec<u8>>,
    res: RegexSha2Base64Result,
) -> bool {
    &&& res.substrs@.len() == defs.len()
    &&& forall|k: int|
        0 <= k < defs.len() ==> is_extraction(
            defs[k]@,
            input,
            run_of(c.automaton, input),
            subs[k]@,
            #[trigger] res.substrs@[k],
        )
    &&& res.hash@ == part_digest(c, input)
    &&& res.encoded_hash@ == b64_encode(part_digest(c, input))
}

/// The digest of what a composed sub-circuit hashes.
pub open spec fn part_digest(c: RegexSha2Base64Config, input: Seq<u8>) -> Seq<u8> {
    sha256_of(hashed_region(input, c.skip_prefix as nat))
}

/// Assigns the witness of a whole email: the header and the body each through their
/// composed sub-circuits, the body digest's text as the header's first substring, and the
/// signature over the header's digest.
pub fn verify_email(
    header_config: &RegexSha2Base64Config,
    body_config: &RegexSha2Base64Config,
    header: &[u8],
    body: &[u8],
    header_defs: &[SubstrDef],
    header_substrings: &[Vec<u8>],
    body_defs: &[SubstrDef],
    body_substrings: &[Vec<u8>],
    modulus: &[u8],
    exponent: &[u8],
    signature: &[u8],
) -> (r: Result<EmailResult, EmailError>)
    ensures
        r is Ok <==> {
            &&& part_ok(*header_config, header@, header_defs@, header_substrings@)
            &&& part_ok(*body_config, body@, body_defs@, body_substrings@)
            &&& header_substrings@.len() >= 1
            &&& header_substrings@[0]@ == b64_encode(part_digest(*body_config, body@))
            &&& modulus_ok(modulus@)
            &&& rsa_relation(modulus@, exponent@, signature@, part_digest(*header_config, header@))
        },
        r matches Err(EmailError::Header(_)) ==> !part_ok(
            *header_config,
            header@,
            header_defs@,
            header_substrings@,
        ),
        r matches Err(EmailError::Body(_)) ==> !part_ok(
            *body_config,
            body@,
            body_defs@,
            body_substrings@,
        ),
        r matches Err(EmailError::InvalidSignature) ==> !rsa_relation(
            modulus@,
            exponent@,
            signature@,
            part_digest(*header_config, header@),
        ),
        r matches Ok(res) ==> {
            &&& part_result(*header_config, header@, header_defs@, header_substrings@, res.header)
            &&& part_result(*body_config, body@, body_defs@, body_substrings@, res.body)
        },
{
    let header_result = match header_config.match_hash_and_base64(
        header,
        header_defs,
        header_substrings,
    ) {
        Ok(h) => h,
        Err(e) => {
            return Err(EmailError::Header(e));
        },
    };
    let body_result = match body_config.match_hash_and_base64(body, body_defs, body_substrings) {
        Ok(b) => b,
        Err(e) => {
            return Err(EmailError::Body(e));
        },
    };
    if header_substrings.len() == 0 || !bytes_equal(
        header_substrings[0].as_slice(),
        body_result.encoded_hash.as_slice(),
    ) {
        return Err(EmailError::BodyHashNotInHeader);
    }
    match verify_pkcs1v15(modulus, exponent, signature, header_result.hash.as_slice()) {
        Ok(true) => {},
        Ok(false) => {
            return Err(EmailError::InvalidSignature);
        },
        Err(e) => {
            return Err(EmailError::Signature(e));
        },
    }
    Ok(EmailResult { header: header_result, body: body_result })
}

} // verus!
