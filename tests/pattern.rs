use zk_email::pattern::{
    assign_all_string, match_substr, Automaton, MatchError, StatePair, SubstrDef, Transition,
};

fn any_def(max_length: usize, min_position: usize, max_position: usize) -> SubstrDef {
    SubstrDef {
        max_length,
        min_position,
        max_position,
        transitions: vec![StatePair { from: 0, to: 0 }],
    }
}

fn any_text() -> Automaton {
    let transitions = (0u16..256).map(|c| Transition { from: 0, byte: c as u8, to: 0 }).collect();
    Automaton { initial: 0, transitions, accepting: vec![0] }
}

/// Accepts `a` followed by one or more `b`.
fn ab_plus() -> Automaton {
    Automaton {
        initial: 0,
        transitions: vec![
            Transition { from: 0, byte: b'a', to: 1 },
            Transition { from: 1, byte: b'b', to: 2 },
            Transition { from: 2, byte: b'b', to: 2 },
        ],
        accepting: vec![2],
    }
}

#[test]
fn automaton_records_states() {
    assert_eq!(ab_plus().run(b"abb"), Some(vec![0, 1, 2, 2]));
    assert_eq!(ab_plus().run(b""), Some(vec![0]));
    assert_eq!(ab_plus().run(b"ba"), None);
}

#[test]
fn all_string_pads_and_flags() {
    let s = assign_all_string(&ab_plus(), b"ab", 4).unwrap();
    assert_eq!(s.characters, vec![b'a', b'b', 0, 0]);
    assert_eq!(s.enable_flags, vec![true, true, false, false]);
    assert_eq!(s.states, vec![0, 1, 2]);
    assert_eq!(s.input_len, 2);
}

#[test]
fn all_string_errors() {
    assert!(matches!(assign_all_string(&ab_plus(), b"abbbb", 4), Err(MatchError::InputTooLong)));
    assert!(matches!(assign_all_string(&ab_plus(), b"abc", 4), Err(MatchError::NoTransition)));
    assert!(matches!(assign_all_string(&ab_plus(), b"a", 4), Err(MatchError::NotAccepted)));
}

#[test]
fn substring_found_at_first_allowed_position() {
    let s = assign_all_string(&any_text(), b"xx@a.com yy@a.com", 32).unwrap();
    let def = any_def(8, 0, 31);
    let e = match_substr(&def, &s, b"@a.com").unwrap();
    assert_eq!((e.start, e.end), (2, 8));
    assert_eq!(e.bytes, b"@a.com".to_vec());
    let later = any_def(8, 3, 31);
    let e2 = match_substr(&later, &s, b"@a.com").unwrap();
    assert_eq!((e2.start, e2.end), (11, 17));
}

#[test]
fn substring_errors() {
    let s = assign_all_string(&any_text(), b"hello", 8).unwrap();
    let def = any_def(3, 0, 7);
    assert!(matches!(match_substr(&def, &s, b""), Err(MatchError::LengthOutOfBounds)));
    assert!(matches!(match_substr(&def, &s, b"hell"), Err(MatchError::LengthOutOfBounds)));
    assert!(matches!(match_substr(&def, &s, b"xyz"), Err(MatchError::NotFound)));
    let narrow = any_def(3, 0, 1);
    assert!(matches!(match_substr(&narrow, &s, b"llo"), Err(MatchError::NotFound)));
    // Padding is not content.
    assert!(matches!(match_substr(&def, &s, b"o\0"), Err(MatchError::NotFound)));
}

#[test]
fn substring_must_be_read_with_its_moves() {
    let s = assign_all_string(&ab_plus(), b"abbb", 8).unwrap();
    let bs = SubstrDef {
        max_length: 4,
        min_position: 0,
        max_position: 7,
        transitions: vec![StatePair { from: 1, to: 2 }, StatePair { from: 2, to: 2 }],
    };
    let e = match_substr(&bs, &s, b"bb").unwrap();
    assert_eq!((e.start, e.end), (1, 3));
    assert!(matches!(match_substr(&bs, &s, b"ab"), Err(MatchError::NotFound)));
    let tail = SubstrDef {
        max_length: 4,
        min_position: 0,
        max_position: 7,
        transitions: vec![StatePair { from: 2, to: 2 }],
    };
    let t = match_substr(&tail, &s, b"b").unwrap();
    assert_eq!((t.start, t.end), (2, 3));
    let none = SubstrDef { max_length: 4, min_position: 0, max_position: 7, transitions: vec![] };
    assert!(matches!(match_substr(&none, &s, b"b"), Err(MatchError::NotFound)));
}
