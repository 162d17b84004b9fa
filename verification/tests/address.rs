use pallet_contracts::address::{
    account_from_digest, generate_trie_id, hash_code, AddressGenerator, DefaultAddressGenerator,
};
use pallet_contracts::pallet::Pallet;

const ALICE: [u8; 32] = [1u8; 32];

fn hex(digest: &[u8]) -> String {
    let mut out = String::new();
    for b in digest {
        out.push_str(&format!("{:02x}", b));
    }
    out
}

#[test]
fn code_hash_is_the_blake2_digest_of_the_bytes() {
    assert_eq!(
        hex(&hash_code(b"abc")),
        "bddd813c634239723171ef3fee98579b94964e3bb1cb3e427262c8c068d52319"
    );
    assert_eq!(hash_code(b"abc"), sp_crypto_hashing::blake2_256(b"abc"));
    assert_ne!(hash_code(b"abc"), hash_code(b"abd"));
}

#[test]
fn default_address_is_the_digest_of_prefix_deployer_hash_input_salt() {
    let code_hash = hash_code(&[0u8, 1, 2]);
    let input: Vec<u8> = vec![];
    let salt = vec![0u8];
    let mut preimage: Vec<u8> = b"contract_addr_v1".to_vec();
    preimage.extend_from_slice(&ALICE);
    preimage.extend_from_slice(&code_hash);
    preimage.extend_from_slice(&input);
    preimage.extend_from_slice(&salt);
    let expected = sp_crypto_hashing::blake2_256(&preimage);
    let address = DefaultAddressGenerator::generate_address(&ALICE, &code_hash, &input, &salt);
    assert_eq!(address, expected);
    assert_eq!(
        Pallet::contract_address::<DefaultAddressGenerator>(&ALICE, &code_hash, &input, &salt),
        expected
    );
}

#[test]
fn default_address_depends_on_every_argument() {
    let h1 = hash_code(&[1u8]);
    let h2 = hash_code(&[2u8]);
    let base = DefaultAddressGenerator::generate_address(&ALICE, &h1, &[7], &[9]);
    assert_eq!(base, DefaultAddressGenerator::generate_address(&ALICE, &h1, &[7], &[9]));
    assert_ne!(base, DefaultAddressGenerator::generate_address(&[2u8; 32], &h1, &[7], &[9]));
    assert_ne!(base, DefaultAddressGenerator::generate_address(&ALICE, &h2, &[7], &[9]));
    assert_ne!(base, DefaultAddressGenerator::generate_address(&ALICE, &h1, &[8], &[9]));
    assert_ne!(base, DefaultAddressGenerator::generate_address(&ALICE, &h1, &[7], &[10]));
}

#[test]
fn account_is_read_off_a_digest_with_trailing_zeros() {
    let short = [5u8, 6, 7];
    let account = account_from_digest(&short);
    assert_eq!(&account[..3], &short);
    assert_eq!(&account[3..], &[0u8; 29]);
    let long = [9u8; 40];
    assert_eq!(account_from_digest(&long), [9u8; 32]);
}

#[test]
fn trie_id_is_the_digest_of_account_and_little_endian_nonce() {
    let mut preimage = ALICE.to_vec();
    preimage.extend_from_slice(&258u64.to_le_bytes());
    assert_eq!(generate_trie_id(&ALICE, 258), sp_crypto_hashing::blake2_256(&preimage));
    assert_ne!(generate_trie_id(&ALICE, 1), generate_trie_id(&ALICE, 2));
}
