use zk_email::binding::{bind_inputs, link_digest, masked, BindError};

#[test]
fn masking_keeps_enabled_bytes_only() {
    assert_eq!(masked(true, 7), 7);
    assert_eq!(masked(false, 7), 0);
}

#[test]
fn binding_accepts_agreeing_inputs() {
    let flags = [true, true, false, false];
    assert_eq!(bind_inputs(&flags, b"ab\0\0", b"ab\0\0", 2), Ok(()));
    // Padding positions may differ: they are masked out.
    assert_eq!(bind_inputs(&flags, b"abxy", b"abzw", 2), Ok(()));
}

#[test]
fn binding_rejects_disagreeing_bytes() {
    let flags = [true, true, false];
    assert_eq!(bind_inputs(&flags, b"abc", b"axc", 2), Err(BindError::ByteMismatch));
}

#[test]
fn binding_rejects_wrong_length() {
    let flags = [true, true, false];
    assert_eq!(bind_inputs(&flags, b"abc", b"abc", 3), Err(BindError::LengthMismatch));
}

#[test]
fn binding_rejects_unequal_widths() {
    let flags = [true, true];
    assert_eq!(bind_inputs(&flags, b"abc", b"ab", 2), Err(BindError::WidthMismatch));
}

#[test]
fn digest_link_checks_text_against_digest() {
    assert_eq!(link_digest(b"foo", b"Zm9v"), Ok(()));
    assert_eq!(link_digest(b"fop", b"Zm9v"), Err(BindError::DigestMismatch));
    assert_eq!(link_digest(b"foo", b"Zm9v!"), Err(BindError::DigestMismatch));
}
