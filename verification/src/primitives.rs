//! Plain data shared by all parts of the executor.

use vstd::prelude::*;

verus! {

/// Amount of native currency.
pub type Balance = u128;

/// Identifier of an account: 32 opaque bytes.
pub type AccountId = [u8; 32];

/// Digest of the pristine bytes of a code blob.
pub type CodeHash = [u8; 32];

/// Whether a code blob may contain instructions whose result differs between machines.
#[derive(Clone, Copy, Debug, PartialEq, Eq, Structural)]
pub enum Determinism {
    /// Only deterministic instructions. Callable everywhere.
    Deterministic,
    /// May be indeterministic. Reachable only by delegate calls from dry runs.
    AllowIndeterminism,
}

/// The entry point of a contract that a frame runs.
#[derive(Clone, Copy, Debug, PartialEq, Eq, Structural)]
pub enum ExportedFunction {
    /// The constructor, run once at instantiation.
    Constructor,
    /// The entry point of every later call.
    Call,
}

/// Bit of the return flags that asks for all changes of the frame to be discarded.
pub const RETURN_FLAG_REVERT: u32 = 1;

/// What a contract hands back when it returns.
#[derive(Clone, Debug)]
pub struct ExecReturnValue {
    /// The flags passed by the contract; only the revert bit has a meaning.
    pub flags: u32,
    /// The output buffer of the contract.
    pub data: Vec<u8>,
}

impl ExecReturnValue {
    pub open spec fn spec_did_revert(self) -> bool {
        self.flags % 2 == 1
    }

    /// Whether the contract asked for its changes to be discarded.
    pub fn did_revert(&self) -> (r: bool)
        ensures
            r == self.spec_did_revert(),
    {
        self.flags % 2 == 1
    }
}

/// Code to instantiate a contract from: new bytes, or the hash of code already stored.
#[derive(Clone, Debug)]
pub enum Code {
    Upload(Vec<u8>),
    Existing(CodeHash),
}

/// Model of `Code`.
pub enum CodeView {
    Upload(Seq<u8>),
    Existing(CodeHash),
}

impl View for Code {
    type V = CodeView;

    open spec fn view(&self) -> CodeView {
        match *self {
            Code::Upload(binary) => CodeView::Upload(binary@),
            Code::Existing(hash) => CodeView::Existing(hash),
        }
    }
}

/// Who asks for a dispatchable operation.
#[derive(Clone, Copy, Debug)]
pub enum Origin {
    /// The chain itself.
    Root,
    /// An account that signed the request.
    Signed(AccountId),
    /// Nobody.
    Unsigned,
}

/// What an upload of code returns: the hash under which the code is stored, and the deposit
/// that was reserved for it.
#[derive(Clone, Copy, Debug)]
pub struct CodeUploadReturnValue {
    pub code_hash: CodeHash,
    pub deposit: Balance,
}

/// Why the storage of a contract could not be read.
#[derive(Clone, Copy, Debug, PartialEq, Eq, Structural)]
pub enum ContractAccessError {
    /// There is no contract at the address.
    DoesntExist,
    /// The key is longer than a storage key may be.
    KeyDecodingFailed,
}

/// What the instantiation of a contract returns: what its constructor returned, and where
/// the contract is.
#[derive(Clone, Debug)]
pub struct InstantiateReturnValue {
    pub result: ExecReturnValue,
    pub account_id: AccountId,
}

/// Copies a slice into a fresh vector.
pub fn to_vec(bytes: &[u8]) -> (v: Vec<u8>)
    ensures
        v@ == bytes@,
{
    vstd::slice::slice_to_vec(bytes)
}

} // verus!
