use zk_email::circuit::{CircuitError, RegexSha2Base64Config};
use zk_email::hash::HashError;
use zk_email::pattern::{MatchError, StatePair, SubstrDef, Transition};

fn any_text_table() -> Vec<Transition> {
    (0u16..256).map(|c| Transition { from: 0, byte: c as u8, to: 0 }).collect()
}

fn loaded(capacity: usize, skip: usize) -> RegexSha2Base64Config {
    let mut config = RegexSha2Base64Config::construct(capacity, skip);
    config.load(&any_text_table(), &[0]);
    config
}

fn window(capacity: usize, max_length: usize) -> SubstrDef {
    SubstrDef {
        max_length,
        min_position: 0,
        max_position: capacity - 1,
        transitions: vec![StatePair { from: 0, to: 0 }],
    }
}

const BODY_TEXT: &str = "HtrCaDHm2IQmPxA6ii9DckD1ExV023FUKvKRJ1YXWaU=";

#[test]
fn email_scenario_extracts_substrings() {
    let header = b"From: alice@zkemail.com\r\n";
    let body = b"email was meant for @zkemailverify.";
    let header_config = loaded(128, 0);
    let body_config = loaded(128, 0);

    let body_result = body_config
        .match_hash_and_base64(body, &[window(128, 32)], &[b"zkemailverify".to_vec()])
        .unwrap();
    assert_eq!(body_result.substrs.len(), 1);
    assert_eq!((body_result.substrs[0].start, body_result.substrs[0].end), (21, 34));
    assert_eq!(&body[21..34], b"zkemailverify");
    assert_eq!(body_result.encoded_hash, BODY_TEXT.as_bytes().to_vec());

    let header_result = header_config
        .match_hash_and_base64(header, &[window(128, 32)], &[b"alice@zkemail.com".to_vec()])
        .unwrap();
    assert_eq!((header_result.substrs[0].start, header_result.substrs[0].end), (6, 23));
    assert_eq!(&header[6..23], b"alice@zkemail.com");
}

#[test]
fn email_scenario_extracts_digest_text_from_header() {
    let header = format!("From: alice@zkemail.com\r\nbh={}\r\n", BODY_TEXT);
    let config = loaded(128, 0);
    let subs = vec![BODY_TEXT.as_bytes().to_vec(), b"alice@zkemail.com".to_vec()];
    let r = config
        .match_hash_and_base64(header.as_bytes(), &[window(128, 44), window(128, 32)], &subs)
        .unwrap();
    assert_eq!((r.substrs[0].start, r.substrs[0].end), (28, 72));
    assert_eq!((r.substrs[1].start, r.substrs[1].end), (6, 23));
    assert_eq!(r.substrs[0].bytes, BODY_TEXT.as_bytes().to_vec());
}

#[test]
fn email_scenario_fails_without_substring() {
    let body = b"email was meant for @.";
    let config = loaded(128, 0);
    let r = config.match_hash_and_base64(body, &[window(128, 32)], &[b"zkemailverify".to_vec()]);
    assert!(matches!(r, Err(CircuitError::Match(MatchError::NotFound))));
}

#[test]
fn composed_witness_requires_loaded_tables() {
    let config = RegexSha2Base64Config::construct(64, 0);
    let r = config.match_hash_and_base64(b"abc", &[], &[]);
    assert!(matches!(r, Err(CircuitError::NotLoaded)));
}

#[test]
fn composed_witness_checks_pattern_count() {
    let config = loaded(64, 0);
    let r = config.match_hash_and_base64(b"abc", &[window(64, 4)], &[]);
    assert!(matches!(r, Err(CircuitError::PatternCountMismatch)));
}

#[test]
fn composed_witness_respects_capacity() {
    let config = loaded(4, 0);
    let r = config.match_hash_and_base64(b"abcde", &[], &[]);
    assert!(matches!(r, Err(CircuitError::Match(MatchError::InputTooLong))));
    let ok = config.match_hash_and_base64(b"abcd", &[], &[]).unwrap();
    assert!(ok.substrs.is_empty());
}

#[test]
fn composed_witness_refuses_rejected_input() {
    let mut config = RegexSha2Base64Config::construct(16, 0);
    config.load(&[Transition { from: 0, byte: b'a', to: 0 }], &[0]);
    assert!(config.match_hash_and_base64(b"aaa", &[], &[]).is_ok());
    let r = config.match_hash_and_base64(b"aba", &[], &[]);
    assert!(matches!(r, Err(CircuitError::Match(MatchError::NoTransition))));
}

#[test]
fn composed_witness_hashes_after_prefix() {
    let config = loaded(32, 3);
    let r = config.match_hash_and_base64(b"hello, world", &[], &[]).unwrap();
    let digest = hex::decode("68f340812c2fbdba06b5e04ca5e94c58d4cc997c3b119d853d883be90d475776").unwrap();
    assert_eq!(r.encoded_hash, zk_email::encoding::encode_digest_text(&digest));
    let short = loaded(32, 20);
    let e = short.match_hash_and_base64(b"hello, world", &[], &[]);
    assert!(matches!(e, Err(CircuitError::Hash(HashError::PrefixTooLong))));
}

#[test]
fn composed_witness_extracts_by_automaton_moves() {
    let mut config = RegexSha2Base64Config::construct(16, 0);
    config.load(
        &[
            Transition { from: 0, byte: b'a', to: 1 },
            Transition { from: 1, byte: b'b', to: 2 },
            Transition { from: 2, byte: b'b', to: 2 },
        ],
        &[2],
    );
    let tail = SubstrDef {
        max_length: 4,
        min_position: 0,
        max_position: 15,
        transitions: vec![StatePair { from: 2, to: 2 }],
    };
    let r = config.match_hash_and_base64(b"abb", &[tail], &[b"b".to_vec()]).unwrap();
    assert_eq!((r.substrs[0].start, r.substrs[0].end), (2, 3));
    let tail2 = SubstrDef {
        max_length: 4,
        min_position: 0,
        max_position: 15,
        transitions: vec![StatePair { from: 2, to: 2 }],
    };
    let e = config.match_hash_and_base64(b"abb", &[tail2], &[b"ab".to_vec()]);
    assert!(matches!(e, Err(CircuitError::Match(MatchError::NotFound))));
}
