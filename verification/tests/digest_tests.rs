use ratel::digest::{calculate_hash, to_hex_lower};

#[test]
fn digest_of_known_inputs() {
    assert_eq!(
        calculate_hash(b""),
        "e3b0c44298fc1c149afbf4c8996fb92427ae41e4649b934ca495991b7852b855"
    );
    assert_eq!(
        calculate_hash(b"hello world"),
        "b94d27b9934d3e08a52e52d7da7dabfac484efe37a5380ee9088f7ace2efcde9"
    );
    assert_eq!(
        calculate_hash(b"abc"),
        "ba7816bf8f01cfea414140de5dae2223b00361a396177a9cb410ff61f20015ad"
    );
}

#[test]
fn digest_is_deterministic() {
    let content = b"SCENARIO \"x\"\r\nTARGET \"y\"\r\n".to_vec();
    assert_eq!(calculate_hash(&content), calculate_hash(&content));
    assert_eq!(calculate_hash(&content), calculate_hash(&content.clone()));
}

#[test]
fn digest_has_fixed_shape() {
    for content in [&b""[..], &b"a"[..], &[0u8, 255, 128][..], &[7u8; 1000][..]] {
        let digest = calculate_hash(content);
        assert_eq!(digest.len(), 64);
        assert!(digest.chars().all(|c| matches!(c, '0'..='9' | 'a'..='f')));
    }
}

#[test]
fn one_changed_byte_changes_the_digest() {
    let a = b"CHECK response.status BE 200".to_vec();
    let mut b = a.clone();
    b[27] = b'1';
    assert_ne!(calculate_hash(&a), calculate_hash(&b));
}

#[test]
fn digest_does_not_normalise_line_endings() {
    assert_ne!(calculate_hash(b"a\nb"), calculate_hash(b"a\r\nb"));
    assert_ne!(calculate_hash(b"a"), calculate_hash(b"a "));
}

#[test]
fn digest_is_not_the_content() {
    let content = b"e3b0c44298fc1c149afbf4c8996fb92427ae41e4649b934ca495991b7852b855";
    assert_ne!(calculate_hash(content).as_bytes(), &content[..]);
}

#[test]
fn hex_is_lowercase_and_two_digits_per_byte() {
    assert_eq!(to_hex_lower(&[]), "");
    assert_eq!(to_hex_lower(&[0x00, 0x0f, 0xf0, 0xff, 0xab, 0x9c]), "000ff0ffab9c");
    assert_eq!(to_hex_lower(&[0x01, 0x23, 0x45, 0x67, 0x89, 0xab, 0xcd, 0xef]), "0123456789abcdef");
}
