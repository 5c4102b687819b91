use assetsync::digest::{ci_eq, hex_digest_matches, hex_of, strip_tag, verify_checksum};
use sha2::Digest;

const EMPTY_SHA256: &str = "e3b0c44298fc1c149afbf4c8996fb92427ae41e4649b934ca495991b7852b855";

#[test]
fn empty_input_has_the_known_digest() {
    let data: Vec<u8> = Vec::new();
    assert!(verify_checksum(&data, EMPTY_SHA256).is_ok());
    assert!(verify_checksum(&data, &format!("sha256:{}", EMPTY_SHA256)).is_ok());
}

#[test]
fn digest_agrees_with_the_sha2_crate() {
    let data: Vec<u8> = vec![0, 1, 2, 3, 254, 255];
    let expected = hex_of(&sha2::Sha256::digest(&data).to_vec());
    assert!(verify_checksum(&data, &expected).is_ok());
}

#[test]
fn comparison_is_case_insensitive() {
    let data: Vec<u8> = Vec::new();
    assert!(verify_checksum(&data, &EMPTY_SHA256.to_uppercase()).is_ok());
    assert!(verify_checksum(&data, &format!("sha256:{}", EMPTY_SHA256.to_uppercase())).is_ok());
}

#[test]
fn mismatch_names_both_digests() {
    let data: Vec<u8> = vec![1, 2, 3];
    let wrong = format!("sha256:{}", EMPTY_SHA256);
    let (expected, actual) = verify_checksum(&data, &wrong).unwrap_err();
    assert_eq!(expected, EMPTY_SHA256);
    assert_eq!(actual, hex_of(&sha2::Sha256::digest(&data).to_vec()));
    assert_ne!(expected, actual);
}

#[test]
fn hex_rendering_is_two_lowercase_digits_per_byte() {
    assert_eq!(hex_of(&vec![]), "");
    assert_eq!(hex_of(&vec![0x00, 0x0f, 0xa5, 0xff]), "000fa5ff");
}

#[test]
fn tag_stripping_only_removes_the_exact_tag() {
    assert_eq!(strip_tag("sha256:abc"), "abc");
    assert_eq!(strip_tag("abc"), "abc");
    assert_eq!(strip_tag("sha512:abc"), "sha512:abc");
    assert_eq!(strip_tag("sha256"), "sha256");
    assert_eq!(strip_tag(""), "");
}

#[test]
fn case_insensitive_equality_folds_ascii_only() {
    assert!(ci_eq("AbC", "aBc"));
    assert!(!ci_eq("abc", "abd"));
    assert!(!ci_eq("abc", "ab"));
    assert!(ci_eq("", ""));
}

#[test]
fn precomputed_digest_comparison_matches() {
    let digest = sha2::Sha256::digest(b"xyz").to_vec();
    let hex = hex_of(&digest);
    assert!(hex_digest_matches(&digest, &hex));
    assert!(hex_digest_matches(&digest, &format!("sha256:{}", hex.to_uppercase())));
    assert!(!hex_digest_matches(&digest, EMPTY_SHA256));
}
