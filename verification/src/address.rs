//! Derivation of contract addresses and of the identifiers of their storage tries.
//!
//! Both are digests of a preimage that is built here byte by byte. The digest itself is
//! computed by an outside crate.

use vstd::prelude::*;
use vstd::bytes::{spec_u64_to_le_bytes, u64_to_le_bytes};
use sp_runtime::traits::BlakeTwo256;
use crate::primitives::{AccountId, CodeHash};

verus! {

/// The Blake2b digest of 256 bits of a byte string.
pub uninterp spec fn blake2_256_digest(data: Seq<u8>) -> Seq<u8>;

/// Calls `BlakeTwo256::hash` of `sp_runtime`. The digest is a function of the bytes alone;
/// nothing else is claimed of it.
#[verifier::external_body]
pub(crate) fn blake2_256(data: &[u8]) -> (digest: [u8; 32])
    ensures
        digest@ == blake2_256_digest(data@),
{
    <BlakeTwo256 as sp_runtime::traits::Hash>::hash(data).0
}

/// The sixteen bytes that every address preimage starts with.
pub open spec fn address_prefix() -> Seq<u8> {
    seq![
        0x63u8, 0x6f, 0x6e, 0x74, 0x72, 0x61, 0x63, 0x74,
        0x5f, 0x61, 0x64, 0x64, 0x72, 0x5f, 0x76, 0x31,
    ]
}

/// What is hashed to derive an address: the prefix `contract_addr_v1`, the deployer, the
/// code hash, the input and the salt, one after the other.
pub open spec fn address_preimage(
    deployer: Seq<u8>,
    code_hash: Seq<u8>,
    input: Seq<u8>,
    salt: Seq<u8>,
) -> Seq<u8> {
    address_prefix() + deployer + code_hash + input + salt
}

/// The account that a digest stands for: its first 32 bytes, followed by zeros where the
/// digest is shorter.
pub open spec fn account_of_digest(digest: Seq<u8>) -> Seq<u8> {
    Seq::new(
        32,
        |i: int|
            if i < digest.len() {
                digest[i]
            } else {
                0u8
            },
    )
}

/// The address at which the default generator puts a contract.
pub open spec fn default_address(
    deployer: Seq<u8>,
    code_hash: Seq<u8>,
    input: Seq<u8>,
    salt: Seq<u8>,
) -> Seq<u8> {
    account_of_digest(blake2_256_digest(address_preimage(deployer, code_hash, input, salt)))
}

/// What is hashed to derive a trie id: the account, then the nonce in little endian.
pub open spec fn trie_id_preimage(account: Seq<u8>, nonce: u64) -> Seq<u8> {
    account + spec_u64_to_le_bytes(nonce)
}

/// The identifier of the storage trie of the contract created at `account` under `nonce`.
pub open spec fn trie_id_of(account: Seq<u8>, nonce: u64) -> Seq<u8> {
    blake2_256_digest(trie_id_preimage(account, nonce))
}

/// Appends `src` to `dst`.
pub fn extend(dst: &mut Vec<u8>, src: &[u8])
    ensures
        final(dst)@ == old(dst)@ + src@,
{
    let mut i: usize = 0;
    while i < src.len()
        invariant
            i <= src.len(),
            dst@ == old(dst)@ + src@.subrange(0, i as int),
        decreases src.len() - i,
    {
        dst.push(src[i]);
        assert(src@.subrange(0, i + 1) == src@.subrange(0, i as int).push(src@[i as int]));
        i += 1;
    }
    assert(src@.subrange(0, src@.len() as int) == src@);
}

/// Reads an account id off a digest of any length.
pub fn account_from_digest(digest: &[u8]) -> (account: AccountId)
    ensures
        account@ == account_of_digest(digest@),
{
    let mut account: AccountId = [0u8; 32];
    let mut i: usize = 0;
    while i < 32
        invariant
            i <= 32,
            forall|j: int| 0 <= j < i ==> account@[j] == account_of_digest(digest@)[j],
            forall|j: int| i <= j < 32 ==> account@[j] == 0u8,
        decreases 32 - i,
    {
        if i < digest.len() {
            account[i] = digest[i];
        }
        i += 1;
    }
    assert(account@ =~= account_of_digest(digest@));
    account
}

/// Derives the address of a contract from what it is instantiated with.
///
/// An implementation must map equal arguments to equal addresses, and should map different
/// arguments to different ones.
pub trait AddressGenerator {
    /// The address as a function of the arguments.
    spec fn address(
        deployer: Seq<u8>,
        code_hash: Seq<u8>,
        input: Seq<u8>,
        salt: Seq<u8>,
    ) -> Seq<u8>;

    fn generate_address(
        deploying_address: &AccountId,
        code_hash: &CodeHash,
        input_data: &[u8],
        salt: &[u8],
    ) -> (address: AccountId)
        ensures
            address@ == Self::address(deploying_address@, code_hash@, input_data@, salt@),
    ;
}

/// The generator used unless another is chosen: the digest of the prefix, the deployer, the
/// code hash, the input and the salt. The address depends on nothing else, so that it can be
/// predicted before the contract exists.
pub struct DefaultAddressGenerator;

impl AddressGenerator for DefaultAddressGenerator {
    open spec fn address(
        deployer: Seq<u8>,
        code_hash: Seq<u8>,
        input: Seq<u8>,
        salt: Seq<u8>,
    ) -> Seq<u8> {
        default_address(deployer, code_hash, input, salt)
    }

    fn generate_address(
        deploying_address: &AccountId,
        code_hash: &CodeHash,
        input_data: &[u8],
        salt: &[u8],
    ) -> (address: AccountId) {
        let prefix: [u8; 16] = [
            0x63, 0x6f, 0x6e, 0x74, 0x72, 0x61, 0x63, 0x74,
            0x5f, 0x61, 0x64, 0x64, 0x72, 0x5f, 0x76, 0x31,
        ];
        let mut preimage: Vec<u8> = Vec::new();
        extend(&mut preimage, prefix.as_slice());
        assert(preimage@ =~= address_prefix());
        extend(&mut preimage, deploying_address.as_slice());
        extend(&mut preimage, code_hash.as_slice());
        extend(&mut preimage, input_data);
        extend(&mut preimage, salt);
        let digest = blake2_256(preimage.as_slice());
        account_from_digest(digest.as_slice())
    }
}

/// The identifier of the storage trie of a contract created at `account` under `nonce`.
pub fn generate_trie_id(account: &AccountId, nonce: u64) -> (id: [u8; 32])
    ensures
        id@ == trie_id_of(account@, nonce),
{
    let mut preimage: Vec<u8> = Vec::new();
    extend(&mut preimage, account.as_slice());
    let le = u64_to_le_bytes(nonce);
    extend(&mut preimage, le.as_slice());
    assert(preimage@ =~= trie_id_preimage(account@, nonce));
    blake2_256(preimage.as_slice())
}

/// The digest of a code blob, under which the code is stored.
pub fn hash_code(code: &[u8]) -> (h: CodeHash)
    ensures
        h@ == blake2_256_digest(code@),
{
    blake2_256(code)
}

/// Two trie ids are derived from the same preimage only if account and nonce are the same.
pub proof fn lemma_trie_id_preimage_injective(a1: Seq<u8>, n1: u64, a2: Seq<u8>, n2: u64)
    requires
        a1.len() == 32,
        a2.len() == 32,
        trie_id_preimage(a1, n1) == trie_id_preimage(a2, n2),
    ensures
        a1 == a2,
        n1 == n2,
{
    vstd::bytes::lemma_auto_spec_u64_to_from_le_bytes();
    let left = trie_id_preimage(a1, n1);
    let right = trie_id_preimage(a2, n2);
    assert(a1 =~= left.subrange(0, 32));
    assert(a2 =~= right.subrange(0, 32));
    assert(spec_u64_to_le_bytes(n1) =~= left.subrange(32, left.len() as int));
    assert(spec_u64_to_le_bytes(n2) =~= right.subrange(32, right.len() as int));
}

/// The preimage of an address tells deployer, code hash, input and salt apart as long as
/// the inputs are equally long: input and salt follow each other without a mark between
/// them. Two such addresses of the default generator can only fall together where the
/// digests of two different preimages do.
pub proof fn lemma_address_preimage_is_injective(
    deployer1: Seq<u8>,
    code_hash1: Seq<u8>,
    input1: Seq<u8>,
    salt1: Seq<u8>,
    deployer2: Seq<u8>,
    code_hash2: Seq<u8>,
    input2: Seq<u8>,
    salt2: Seq<u8>,
)
    requires
        deployer1.len() == 32,
        deployer2.len() == 32,
        code_hash1.len() == 32,
        code_hash2.len() == 32,
        input1.len() == input2.len(),
        address_preimage(deployer1, code_hash1, input1, salt1) == address_preimage(
            deployer2,
            code_hash2,
            input2,
            salt2,
        ),
    ensures
        deployer1 == deployer2,
        code_hash1 == code_hash2,
        input1 == input2,
        salt1 == salt2,
{
    let left = address_preimage(deployer1, code_hash1, input1, salt1);
    let right = address_preimage(deployer2, code_hash2, input2, salt2);
    let n = input1.len() as int;
    assert(address_prefix().len() == 16);
    assert(deployer1 =~= left.subrange(16, 48));
    assert(deployer2 =~= right.subrange(16, 48));
    assert(code_hash1 =~= left.subrange(48, 80));
    assert(code_hash2 =~= right.subrange(48, 80));
    assert(input1 =~= left.subrange(80, 80 + n));
    assert(input2 =~= right.subrange(80, 80 + n));
    assert(salt1 =~= left.subrange(80 + n, left.len() as int));
    assert(salt2 =~= right.subrange(80 + n, right.len() as int));
}

/// The address of the default generator depends on its arguments alone: equal arguments
/// give equal addresses.
pub proof fn lemma_default_address_is_a_function(
    deployer1: Seq<u8>,
    code_hash1: Seq<u8>,
    input1: Seq<u8>,
    salt1: Seq<u8>,
    deployer2: Seq<u8>,
    code_hash2: Seq<u8>,
    input2: Seq<u8>,
    salt2: Seq<u8>,
)
    requires
        deployer1 == deployer2,
        code_hash1 == code_hash2,
        input1 == input2,
        salt1 == salt2,
    ensures
        default_address(deployer1, code_hash1, input1, salt1) == default_address(
            deployer2,
            code_hash2,
            input2,
            salt2,
        ),
{
}

} // verus!
