use sla_calculator::config_version_hash::{compute_config_version_hash, get_config_version_hash};
use soroban_sdk::Env;

#[test]
fn the_version_hash_is_the_sha256_digest() {
    let env = Env::default();
    let hash = compute_config_version_hash(&env, &b"abc".to_vec());
    let expected: [u8; 32] = [
        0xba, 0x78, 0x16, 0xbf, 0x8f, 0x01, 0xcf, 0xea, 0x41, 0x41, 0x40, 0xde, 0x5d, 0xae, 0x22,
        0x23, 0xb0, 0x03, 0x61, 0xa3, 0x96, 0x17, 0x7a, 0x9c, 0xb4, 0x10, 0xff, 0x61, 0xf2, 0x00,
        0x15, 0xad,
    ];
    assert_eq!(hash, expected.to_vec());
}

#[test]
fn the_getter_agrees_and_different_configs_differ() {
    let env = Env::default();
    let first = get_config_version_hash(&env, &vec![15, 0, 0, 0]);
    let again = compute_config_version_hash(&env, &vec![15, 0, 0, 0]);
    let other = compute_config_version_hash(&env, &vec![30, 0, 0, 0]);
    assert_eq!(first.len(), 32);
    assert_eq!(first, again);
    assert_ne!(first, other);
}
