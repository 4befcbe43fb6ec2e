use num_bigint::BigUint;
use sha2::Digest;
use zk_email::circuit::{CircuitError, RegexSha2Base64Config};
use zk_email::email::{verify_email, EmailError};
use zk_email::pattern::{MatchError, StatePair, SubstrDef, Transition};
use zk_email::signature::{encode_pkcs1, SignatureError};

const BODY: &[u8] = b"email was meant for @zkemailverify.";
const BODY_TEXT: &str = "HtrCaDHm2IQmPxA6ii9DckD1ExV023FUKvKRJ1YXWaU=";

fn config(capacity: usize) -> RegexSha2Base64Config {
    let table: Vec<Transition> =
        (0u16..256).map(|c| Transition { from: 0, byte: c as u8, to: 0 }).collect();
    let mut c = RegexSha2Base64Config::construct(capacity, 0);
    c.load(&table, &[0]);
    c
}

fn window(max_length: usize) -> SubstrDef {
    SubstrDef {
        max_length,
        min_position: 0,
        max_position: 127,
        transitions: vec![StatePair { from: 0, to: 0 }],
    }
}

/// A modulus under which `s = 2^248 - 1` squared is the encoded digest of `signed`.
fn square_key(signed: &[u8]) -> (Vec<u8>, Vec<u8>) {
    let d = sha2::Sha256::digest(signed).to_vec();
    let em = BigUint::from_bytes_be(&encode_pkcs1(&d, 62));
    let s = (BigUint::from(1u8) << 248usize) - BigUint::from(1u8);
    let n = &s * &s - em;
    (n.to_bytes_be(), s.to_bytes_be())
}

fn header_with(text: &str) -> Vec<u8> {
    format!("From: alice@zkemail.com\r\nbh={}\r\n", text).into_bytes()
}

fn run(
    header: &[u8],
    body: &[u8],
    header_subs: &[Vec<u8>],
    n: &[u8],
    s: &[u8],
) -> Result<zk_email::email::EmailResult, EmailError> {
    let hdefs = vec![window(44), window(32)];
    verify_email(
        &config(128),
        &config(128),
        header,
        body,
        &hdefs[..header_subs.len()],
        header_subs,
        &[window(32)],
        &[b"zkemailverify".to_vec()],
        n,
        &[2],
        s,
    )
}

fn header_subs(text: &str) -> Vec<Vec<u8>> {
    vec![text.as_bytes().to_vec(), b"alice@zkemail.com".to_vec()]
}

#[test]
fn whole_email_verifies() {
    let header = header_with(BODY_TEXT);
    let (n, s) = square_key(&header);
    let r = run(&header, BODY, &header_subs(BODY_TEXT), &n, &s).unwrap();
    assert_eq!((r.header.substrs[0].start, r.header.substrs[0].end), (28, 72));
    assert_eq!((r.header.substrs[1].start, r.header.substrs[1].end), (6, 23));
    assert_eq!((r.body.substrs[0].start, r.body.substrs[0].end), (21, 34));
    assert_eq!(r.body.encoded_hash, BODY_TEXT.as_bytes().to_vec());
    assert_eq!(r.header.hash, sha2::Sha256::digest(&header).to_vec());
}

#[test]
fn whole_email_fails_without_body_substring() {
    let header = header_with(BODY_TEXT);
    let (n, s) = square_key(&header);
    let r = run(&header, b"email was meant for @.", &header_subs(BODY_TEXT), &n, &s);
    assert!(matches!(r, Err(EmailError::Body(CircuitError::Match(MatchError::NotFound)))));
}

#[test]
fn whole_email_fails_on_other_body_digest() {
    let other = "AAAAaDHm2IQmPxA6ii9DckD1ExV023FUKvKRJ1YXWaU=";
    let header = header_with(other);
    let (n, s) = square_key(&header);
    let r = run(&header, BODY, &header_subs(other), &n, &s);
    assert!(matches!(r, Err(EmailError::BodyHashNotInHeader)));
    let missing = run(&header, BODY, &header_subs(BODY_TEXT), &n, &s);
    assert!(matches!(missing, Err(EmailError::Header(CircuitError::Match(MatchError::NotFound)))));
    let none = run(&header, BODY, &[], &n, &s);
    assert!(matches!(none, Err(EmailError::BodyHashNotInHeader)));
}

#[test]
fn whole_email_fails_on_bad_signature() {
    let header = header_with(BODY_TEXT);
    let (n, s) = square_key(b"some other header");
    let r = run(&header, BODY, &header_subs(BODY_TEXT), &n, &s);
    assert!(matches!(r, Err(EmailError::InvalidSignature)));
    let short = vec![0xffu8; 32];
    let r2 = run(&header, BODY, &header_subs(BODY_TEXT), &short, &s);
    assert!(matches!(r2, Err(EmailError::Signature(SignatureError::ModulusTooShort))));
}
