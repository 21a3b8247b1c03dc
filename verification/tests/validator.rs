use merkle_lab::validator::ConsensusConfig;
use merkle_lab::validator::Validator;

#[test]
fn matching_chain_id_is_valid() {
    let config = ConsensusConfig { chain_id: 1024, magic_bytes: "ZK_ROLLUP".to_string() };
    let validator = Validator::new(&config);
    assert!(validator.validate_block(1024));
}

#[test]
fn mismatched_chain_id_is_invalid() {
    let config = ConsensusConfig { chain_id: 1024, magic_bytes: "ZK_ROLLUP".to_string() };
    let validator = Validator::new(&config);
    assert!(!validator.validate_block(999));
}

#[test]
fn validator_borrows_the_config() {
    let config = ConsensusConfig { chain_id: 7, magic_bytes: "MAGIC".to_string() };
    {
        let validator = Validator::new(&config);
        assert!(validator.validate_block(7));
    }
    assert_eq!(config.chain_id, 7);
}
