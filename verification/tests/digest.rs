use merkle_lab::digest::mock_hash;
use merkle_lab::digest::u64_to_dec;
use merkle_lab::digest::u64_to_hex;

#[test]
fn hex_rendering_matches_std_formatting() {
    let samples: [u64; 10] = [0, 1, 9, 10, 15, 16, 255, 256, 48879, u64::MAX];
    for n in samples {
        assert_eq!(u64_to_hex(n), format!("{:x}", n));
    }
}

#[test]
fn dec_rendering_matches_std_formatting() {
    let samples: [u64; 9] = [0, 1, 9, 10, 99, 100, 21000, 1024, u64::MAX];
    for n in samples {
        assert_eq!(u64_to_dec(n), format!("{}", n));
    }
}

#[test]
fn mock_hash_is_deterministic() {
    assert_eq!(mock_hash("Tx1: Alice->Bob"), mock_hash("Tx1: Alice->Bob"));
    assert_eq!(mock_hash(""), mock_hash(""));
}

#[test]
fn mock_hash_depends_on_the_input() {
    assert_ne!(mock_hash("Tx1"), mock_hash("Tx2"));
}

#[test]
fn mock_hash_output_is_lowercase_hex() {
    let digest = mock_hash("block");
    assert!(!digest.is_empty());
    assert!(digest.chars().all(|c| c.is_ascii_hexdigit() && !c.is_ascii_uppercase()));
}
