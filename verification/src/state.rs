//! The ledger that contracts act on, with a journal of every change.
//!
//! All that a call can change lives here: balances, contracts with their storage, stored
//! code, the instantiation nonce, the deletion queue and the pending events. Every change
//! goes through one of a few primitive operations, and each of them notes in the journal how
//! to undo itself. A checkpoint is a position in the journal; reverting to it undoes what
//! came after, most recent first.

use vstd::prelude::*;
use crate::event::{EventRecord, EventRecordView};
use crate::primitives::{to_vec, AccountId, Balance, CodeHash, Determinism};
use crate::table::{Stored, Table};

verus! {

/// Identifier of the storage trie of a contract.
pub type TrieId = [u8; 32];

/// Balance of one account.
#[derive(Clone, Copy, Debug, PartialEq, Eq, Structural)]
pub struct AccountData {
    /// Balance that the account can spend.
    pub free: Balance,
    /// Balance that is set aside and cannot be spent.
    pub reserved: Balance,
}

impl View for AccountData {
    type V = AccountData;

    open spec fn view(&self) -> AccountData {
        *self
    }
}

impl Stored for AccountData {
    open spec fn valid(&self) -> bool {
        true
    }
}

/// What the ledger knows of a contract besides its storage.
#[derive(Clone, Copy, Debug)]
pub struct ContractInfo {
    /// Identifier of the storage trie.
    pub trie_id: TrieId,
    /// The code that runs when the contract is called.
    pub code_hash: CodeHash,
    /// Sum of the lengths of all keys and values in storage.
    pub storage_bytes: u64,
    /// Number of values in storage.
    pub storage_items: u32,
    /// Deposit held for `storage_bytes`.
    pub storage_byte_deposit: Balance,
    /// Deposit held for `storage_items`.
    pub storage_item_deposit: Balance,
}

/// A contract: its record and its storage.
pub struct Contract {
    pub info: ContractInfo,
    pub storage: Table<Vec<u8>>,
}

/// Model of a contract.
pub struct ContractView {
    pub info: ContractInfo,
    pub storage: Map<Seq<u8>, Seq<u8>>,
}

impl View for Contract {
    type V = ContractView;

    open spec fn view(&self) -> ContractView {
        ContractView { info: self.info, storage: self.storage@ }
    }
}

impl Stored for Contract {
    open spec fn valid(&self) -> bool {
        self.storage.wf()
    }
}

/// A stored code blob with its owner and the number of contracts that use it.
#[derive(Clone, Debug)]
pub struct CodeEntry {
    /// The bytes as they were uploaded.
    pub pristine: Vec<u8>,
    /// The bytes as they are executed, with metering injected.
    pub instrumented: Vec<u8>,
    /// Version of the instruction weights that the instrumentation was made with.
    pub instruction_weights_version: u32,
    /// The account that uploaded the code and holds the deposit for it.
    pub owner: AccountId,
    /// The deposit reserved from the owner.
    pub deposit: Balance,
    /// Number of contracts that run this code.
    pub refcount: u64,
    /// Whether the code may hold indeterministic instructions.
    pub determinism: Determinism,
}

/// Model of a stored code blob.
pub struct CodeEntryView {
    pub pristine: Seq<u8>,
    pub instrumented: Seq<u8>,
    pub instruction_weights_version: u32,
    pub owner: AccountId,
    pub deposit: Balance,
    pub refcount: u64,
    pub determinism: Determinism,
}

impl View for CodeEntry {
    type V = CodeEntryView;

    open spec fn view(&self) -> CodeEntryView {
        CodeEntryView {
            pristine: self.pristine@,
            instrumented: self.instrumented@,
            instruction_weights_version: self.instruction_weights_version,
            owner: self.owner,
            deposit: self.deposit,
            refcount: self.refcount,
            determinism: self.determinism,
        }
    }
}

impl Stored for CodeEntry {
    open spec fn valid(&self) -> bool {
        true
    }
}

/// The storage of a terminated contract, waiting to be deleted.
pub struct DeletedContract {
    pub trie_id: TrieId,
    pub storage: Table<Vec<u8>>,
}

/// Model of an entry of the deletion queue.
pub struct DeletedView {
    pub trie_id: TrieId,
    pub storage: Map<Seq<u8>, Seq<u8>>,
}

impl View for DeletedContract {
    type V = DeletedView;

    open spec fn view(&self) -> DeletedView {
        DeletedView { trie_id: self.trie_id, storage: self.storage@ }
    }
}

/// Model of the ledger.
pub struct StateView {
    pub balances: Map<Seq<u8>, AccountData>,
    pub contracts: Map<Seq<u8>, ContractView>,
    pub codes: Map<Seq<u8>, CodeEntryView>,
    pub nonce: u64,
    pub queue: Seq<DeletedView>,
    pub events: Seq<EventRecordView>,
}

impl StateView {
    /// The balance of an account; an account that was never touched has none.
    pub open spec fn balance(self, who: Seq<u8>) -> AccountData {
        if self.balances.contains_key(who) {
            self.balances[who]
        } else {
            AccountData { free: 0, reserved: 0 }
        }
    }

    /// The value that the contract at `who` stores under `key`; none where there is no such
    /// contract.
    pub open spec fn storage_value(self, who: Seq<u8>, key: Seq<u8>) -> Option<Seq<u8>> {
        if self.contracts.contains_key(who) && self.contracts[who].storage.contains_key(key) {
            Some(self.contracts[who].storage[key])
        } else {
            None
        }
    }

    pub open spec fn set_balance(self, who: Seq<u8>, data: AccountData) -> StateView {
        StateView { balances: self.balances.insert(who, data), ..self }
    }

    pub open spec fn set_contract(self, who: Seq<u8>, c: ContractView) -> StateView {
        StateView { contracts: self.contracts.insert(who, c), ..self }
    }

    pub open spec fn remove_contract(self, who: Seq<u8>) -> StateView {
        StateView { contracts: self.contracts.remove(who), ..self }
    }

    /// The ledger with the record of the contract at `who` replaced.
    pub open spec fn set_info(self, who: Seq<u8>, info: ContractInfo) -> StateView {
        self.set_contract(who, ContractView { info, storage: self.contracts[who].storage })
    }

    /// The ledger with one storage value of the contract at `who` set or cleared.
    pub open spec fn set_storage(
        self,
        who: Seq<u8>,
        key: Seq<u8>,
        value: Option<Seq<u8>>,
    ) -> StateView {
        let c = self.contracts[who];
        let storage = match value {
            Some(v) => c.storage.insert(key, v),
            None => c.storage.remove(key),
        };
        self.set_contract(who, ContractView { info: c.info, storage })
    }

    pub open spec fn set_code(self, hash: Seq<u8>, entry: Option<CodeEntryView>) -> StateView {
        match entry {
            Some(e) => StateView { codes: self.codes.insert(hash, e), ..self },
            None => StateView { codes: self.codes.remove(hash), ..self },
        }
    }

    /// The ledger with the number of users of the code under `hash` replaced.
    pub open spec fn set_refcount(self, hash: Seq<u8>, refcount: u64) -> StateView {
        StateView {
            codes: self.codes.insert(hash, CodeEntryView { refcount, ..self.codes[hash] }),
            ..self
        }
    }

    /// The ledger after the contract at `who` was removed and its storage queued for deletion.
    pub open spec fn terminate(self, who: Seq<u8>) -> StateView {
        let c = self.contracts[who];
        StateView {
            contracts: self.contracts.remove(who),
            queue: self.queue.push(DeletedView { trie_id: c.info.trie_id, storage: c.storage }),
            ..self
        }
    }
}

/// How to take back one change of the ledger.
#[allow(inconsistent_fields)]
pub enum Undo {
    Balance { account: AccountId, old: Option<AccountData> },
    Created { account: AccountId },
    Terminated { account: AccountId, info: ContractInfo },
    Info { account: AccountId, old: ContractInfo },
    Storage { account: AccountId, key: Vec<u8>, old: Option<Vec<u8>> },
    Code { hash: CodeHash, old: Option<CodeEntry> },
    Refcount { hash: CodeHash, old: u64 },
    Nonce { old: u64 },
    Event,
}

/// The view of an optional byte string.
pub open spec fn opt_view(v: Option<Vec<u8>>) -> Option<Seq<u8>> {
    match v {
        Some(b) => Some(b@),
        None => None,
    }
}

/// The view of an optional code entry.
pub open spec fn opt_code_view(v: Option<CodeEntry>) -> Option<CodeEntryView> {
    match v {
        Some(e) => Some(e@),
        None => None,
    }
}

/// The ledger as it was before the change that `e` takes back.
pub open spec fn undo_one(e: Undo, s: StateView) -> StateView {
    match e {
        Undo::Balance { account, old } => match old {
            Some(d) => s.set_balance(account@, d),
            None => StateView { balances: s.balances.remove(account@), ..s },
        },
        Undo::Created { account } => s.remove_contract(account@),
        Undo::Terminated { account, info } => if s.queue.len() > 0 {
            StateView {
                contracts: s.contracts.insert(
                    account@,
                    ContractView { info, storage: s.queue.last().storage },
                ),
                queue: s.queue.drop_last(),
                ..s
            }
        } else {
            s
        },
        Undo::Info { account, old } => if s.contracts.contains_key(account@) {
            s.set_info(account@, old)
        } else {
            s
        },
        Undo::Storage { account, key, old } => if s.contracts.contains_key(account@) {
            s.set_storage(account@, key@, opt_view(old))
        } else {
            s
        },
        Undo::Code { hash, old } => s.set_code(hash@, opt_code_view(old)),
        Undo::Refcount { hash, old } => if s.codes.contains_key(hash@) {
            s.set_refcount(hash@, old)
        } else {
            s
        },
        Undo::Nonce { old } => StateView { nonce: old, ..s },
        Undo::Event => if s.events.len() > 0 {
            StateView { events: s.events.drop_last(), ..s }
        } else {
            s
        },
    }
}

/// The ledger after the entries of `journal` from position `mark` on are taken back, the
/// last first.
pub open spec fn replay(journal: Seq<Undo>, mark: int, s: StateView) -> StateView
    decreases journal.len(),
{
    if journal.len() <= mark || journal.len() == 0 {
        s
    } else {
        replay(journal.drop_last(), mark, undo_one(journal.last(), s))
    }
}

/// Number of values in the storage of a queue entry.
pub open spec fn queued_keys(d: DeletedView) -> nat {
    d.storage.dom().len()
}

/// Number of entries at the head of `queue` that a budget of `budget` deletions removes:
/// an entry goes when all its values are deleted and budget was left to look at it.
pub open spec fn drained_entries(queue: Seq<DeletedView>, budget: nat) -> nat
    decreases queue.len(),
{
    if queue.len() == 0 || budget == 0 {
        0
    } else if queued_keys(queue[0]) <= budget {
        1 + drained_entries(
            queue.subrange(1, queue.len() as int),
            (budget - queued_keys(queue[0])) as nat,
        )
    } else {
        0
    }
}

/// Number of values that a budget of `budget` deletions deletes from `queue`.
pub open spec fn drained_keys(queue: Seq<DeletedView>, budget: nat) -> nat
    decreases queue.len(),
{
    if queue.len() == 0 || budget == 0 {
        0
    } else if queued_keys(queue[0]) <= budget {
        queued_keys(queue[0]) + drained_keys(
            queue.subrange(1, queue.len() as int),
            (budget - queued_keys(queue[0])) as nat,
        )
    } else {
        budget
    }
}

/// Number of values that a budget of `budget` deletions deletes from the entry that is at
/// the head afterwards.
pub open spec fn partly_drained_keys(queue: Seq<DeletedView>, budget: nat) -> nat
    decreases queue.len(),
{
    if queue.len() == 0 || budget == 0 {
        0
    } else if queued_keys(queue[0]) <= budget {
        partly_drained_keys(
            queue.subrange(1, queue.len() as int),
            (budget - queued_keys(queue[0])) as nat,
        )
    } else {
        budget
    }
}

/// Whether `after` is `before` once a budget of `budget` deletions was spent on it, first in
/// first out: the entries that were emptied are gone from the head; the entry now at the
/// head has lost the values that the rest of the budget paid for, and no others; all
/// entries behind it are untouched.
pub open spec fn is_drained(before: Seq<DeletedView>, after: Seq<DeletedView>,
    budget: nat) -> bool {
    let gone = drained_entries(before, budget);
    &&& after.len() + gone == before.len()
    &&& forall|i: int| 1 <= i < after.len() ==> #[trigger] after[i] == before[gone + i]
    &&& after.len() > 0 ==> {
        &&& after[0].trie_id == before[gone as int].trie_id
        &&& after[0].storage.submap_of(before[gone as int].storage)
        &&& after[0].storage.dom().finite()
        &&& queued_keys(after[0]) + partly_drained_keys(before, budget) == queued_keys(
            before[gone as int],
        )
    }
}

/// The ledger and its journal.
pub struct State {
    balances: Table<AccountData>,
    contracts: Table<Contract>,
    codes: Table<CodeEntry>,
    nonce: u64,
    queue: Vec<DeletedContract>,
    events: Vec<EventRecord>,
    journal: Vec<Undo>,
}

impl View for State {
    type V = StateView;

    closed spec fn view(&self) -> StateView {
        StateView {
            balances: self.balances@,
            contracts: self.contracts@,
            codes: self.codes@,
            nonce: self.nonce,
            queue: Seq::new(self.queue@.len(), |i: int| self.queue@[i]@),
            events: Seq::new(self.events@.len(), |i: int| self.events@[i]@),
        }
    }
}

impl State {
    /// Representation invariant.
    pub closed spec fn wf(self) -> bool {
        &&& self.balances.wf()
        &&& self.contracts.wf()
        &&& self.codes.wf()
        &&& forall|i: int| 0 <= i < self.queue@.len() ==> (#[trigger] self.queue@[i]).storage.wf()
    }

    /// Number of entries in the journal. A checkpoint is such a number.
    pub closed spec fn journal_len(self) -> nat {
        self.journal@.len()
    }

    /// The ledger as it was at the checkpoint `mark`.
    pub closed spec fn reverts_to(self, mark: int) -> StateView {
        replay(self.journal@, mark, self@)
    }

    /// `self` came out of `before` by changes that the journal can take back: every
    /// checkpoint of `before` is a checkpoint of `self`, for the same ledger.
    pub open spec fn extends(self, before: State) -> bool {
        &&& before.journal_len() <= self.journal_len()
        &&& forall|m: int|
            0 <= m <= before.journal_len() ==> #[trigger] self.reverts_to(m) == before.reverts_to(m)
    }

    /// A ledger holds balances of finitely many accounts.
    pub proof fn lemma_finitely_many_accounts(self)
        requires
            self.wf(),
        ensures
            self@.balances.dom().finite(),
    {
        self.balances.lemma_finite();
    }

    /// A ledger holds no more contracts than a machine can count.
    pub proof fn lemma_contracts_fit(self)
        requires
            self.wf(),
        ensures
            self@.contracts.dom().finite(),
            self@.contracts.dom().len() <= usize::MAX,
    {
        self.contracts.lemma_fits();
    }

    /// At the newest checkpoint the ledger is as it is now.
    pub proof fn lemma_reverts_to_now(self)
        ensures
            self.reverts_to(self.journal_len() as int) == self@,
    {
    }

    proof fn lemma_pushed(before: State, after: State, e: Undo)
        requires
            after.journal@ == before.journal@.push(e),
            undo_one(e, after@) == before@,
        ensures
            after.extends(before),
    {
        assert(after.journal@.drop_last() =~= before.journal@);
        assert forall|m: int| 0 <= m <= before.journal_len() implies #[trigger] after.reverts_to(m)
            == before.reverts_to(m) by {
            assert(after.journal@.last() == e);
        }
    }

    /// An empty ledger.
    pub fn new() -> (s: State)
        ensures
            s.wf(),
            s.journal_len() == 0,
            s@.balances == Map::<Seq<u8>, AccountData>::empty(),
            s@.contracts == Map::<Seq<u8>, ContractView>::empty(),
            s@.codes == Map::<Seq<u8>, CodeEntryView>::empty(),
            s@.nonce == 0,
            s@.queue == Seq::<DeletedView>::empty(),
            s@.events == Seq::<EventRecordView>::empty(),
    {
        let s = State {
            balances: Table::new(),
            contracts: Table::new(),
            codes: Table::new(),
            nonce: 0,
            queue: Vec::new(),
            events: Vec::new(),
            journal: Vec::new(),
        };
        assert(s@.queue =~= Seq::<DeletedView>::empty());
        assert(s@.events =~= Seq::<EventRecordView>::empty());
        s
    }

    /// An empty ledger that has counted `nonce` instantiations already.
    pub fn with_nonce(nonce: u64) -> (s: State)
        ensures
            s.wf(),
            s.journal_len() == 0,
            s@.balances == Map::<Seq<u8>, AccountData>::empty(),
            s@.contracts == Map::<Seq<u8>, ContractView>::empty(),
            s@.codes == Map::<Seq<u8>, CodeEntryView>::empty(),
            s@.nonce == nonce,
            s@.queue == Seq::<DeletedView>::empty(),
            s@.events == Seq::<EventRecordView>::empty(),
    {
        let mut s = State::new();
        s.nonce = nonce;
        assert(s@.queue =~= Seq::<DeletedView>::empty());
        assert(s@.events =~= Seq::<EventRecordView>::empty());
        s
    }

    /// The current position in the journal.
    pub fn checkpoint(&self) -> (mark: usize)
        ensures
            mark == self.journal_len(),
            self.reverts_to(mark as int) == self@,
    {
        self.journal.len()
    }

    /// Forgets how to undo anything. The ledger stays as it is.
    pub fn commit(&mut self)
        requires
            old(self).wf(),
        ensures
            final(self).wf(),
            final(self)@ == old(self)@,
            final(self).journal_len() == 0,
    {
        self.journal = Vec::new();
    }

    /// The balance of `who`.
    pub fn balance(&self, who: &AccountId) -> (r: AccountData)
        requires
            self.wf(),
        ensures
            r == self@.balance(who@),
    {
        match self.balances.get(who.as_slice()) {
            Some(d) => *d,
            None => AccountData { free: 0, reserved: 0 },
        }
    }

    /// The record of the contract at `who`, if there is a contract.
    pub fn contract_info(&self, who: &AccountId) -> (r: Option<ContractInfo>)
        requires
            self.wf(),
        ensures
            r.is_some() == self@.contracts.contains_key(who@),
            r matches Some(info) ==> info == self@.contracts[who@].info,
    {
        match self.contracts.get(who.as_slice()) {
            Some(c) => Some(c.info),
            None => None,
        }
    }

    /// The value that the contract at `who` stores under `key`.
    pub fn storage_get(&self, who: &AccountId, key: &[u8]) -> (r: Option<Vec<u8>>)
        requires
            self.wf(),
        ensures
            opt_view(r) == self@.storage_value(who@, key@),
    {
        match self.contracts.get(who.as_slice()) {
            Some(c) => match c.storage.get(key) {
                Some(v) => Some(to_vec(v.as_slice())),
                None => None,
            },
            None => None,
        }
    }

    /// The length of the value that the contract at `who` stores under `key`.
    pub fn storage_len(&self, who: &AccountId, key: &[u8]) -> (r: Option<usize>)
        requires
            self.wf(),
        ensures
            match self@.storage_value(who@, key@) {
                Some(v) => (r matches Some(n) && n == v.len()),
                None => r.is_none(),
            },
    {
        match self.contracts.get(who.as_slice()) {
            Some(c) => match c.storage.get(key) {
                Some(v) => Some(v.len()),
                None => None,
            },
            None => None,
        }
    }

    /// The code stored under `hash`.
    pub fn code(&self, hash: &CodeHash) -> (r: Option<&CodeEntry>)
        requires
            self.wf(),
        ensures
            r.is_some() == self@.codes.contains_key(hash@),
            r matches Some(e) ==> e@ == self@.codes[hash@],
    {
        self.codes.get(hash.as_slice())
    }

    /// All contracts of the ledger, to be walked one by one.
    pub fn contracts(&self) -> (t: &Table<Contract>)
        requires
            self.wf(),
        ensures
            t.wf(),
            t@ == self@.contracts,
    {
        &self.contracts
    }

    /// All stored code of the ledger, to be walked one by one.
    pub fn codes(&self) -> (t: &Table<CodeEntry>)
        requires
            self.wf(),
        ensures
            t.wf(),
            t@ == self@.codes,
    {
        &self.codes
    }

    /// The number of instantiations so far.
    pub fn nonce(&self) -> (n: u64)
        ensures
            n == self@.nonce,
    {
        self.nonce
    }

    /// The number of entries in the deletion queue.
    pub fn queue_len(&self) -> (n: usize)
        ensures
            n == self@.queue.len(),
    {
        self.queue.len()
    }

    /// The trie id and the number of values of the entry at `index` of the deletion queue.
    pub fn queued(&self, index: usize) -> (r: Option<(TrieId, usize)>)
        requires
            self.wf(),
        ensures
            match r {
                Some((id, n)) => index < self@.queue.len() && id
                    == self@.queue[index as int].trie_id
                    && n == queued_keys(self@.queue[index as int]),
                None => index >= self@.queue.len(),
            },
    {
        if index < self.queue.len() {
            Some((self.queue[index].trie_id, self.queue[index].storage.len()))
        } else {
            None
        }
    }

    /// The events deposited so far.
    pub fn events(&self) -> (r: &Vec<EventRecord>)
        ensures
            r@.len() == self@.events.len(),
            forall|i: int| 0 <= i < r@.len() ==> (#[trigger] r@[i])@ == self@.events[i],
    {
        &self.events
    }

    /// Sets the balance of `who`.
    pub fn set_balance(&mut self, who: &AccountId, data: AccountData)
        requires
            old(self).wf(),
        ensures
            final(self).wf(),
            final(self)@ == old(self)@.set_balance(who@, data),
            final(self).extends(*old(self)),
    {
        let ghost before = *self;
        let old_data = self.balances.insert(who.as_slice(), data);
        let e = Undo::Balance {
            account: *who,
            old: match old_data {
                Some(d) => Some(d),
                None => None,
            },
        };
        self.journal.push(e);
        proof {
            assert(undo_one(e, self@).balances =~= before@.balances);
            Self::lemma_pushed(before, *self, e);
        }
    }

    /// Creates a contract with empty storage at `who`, where there is none.
    pub fn create_contract(&mut self, who: &AccountId, info: ContractInfo)
        requires
            old(self).wf(),
            !old(self)@.contracts.contains_key(who@),
        ensures
            final(self).wf(),
            final(self)@ == old(self)@.set_contract(
                who@,
                ContractView { info, storage: Map::empty() },
            ),
            final(self).extends(*old(self)),
    {
        let ghost before = *self;
        self.contracts.insert(who.as_slice(), Contract { info, storage: Table::new() });
        let e = Undo::Created { account: *who };
        self.journal.push(e);
        proof {
            assert(undo_one(e, self@).contracts =~= before@.contracts);
            Self::lemma_pushed(before, *self, e);
        }
    }

    /// Replaces the record of the contract at `who`.
    pub fn set_info(&mut self, who: &AccountId, info: ContractInfo)
        requires
            old(self).wf(),
            old(self)@.contracts.contains_key(who@),
        ensures
            final(self).wf(),
            final(self)@ == old(self)@.set_info(who@, info),
            final(self).extends(*old(self)),
    {
        let ghost before = *self;
        let c = self.contracts.remove(who.as_slice()).unwrap();
        self.contracts.insert(who.as_slice(), Contract { info, storage: c.storage });
        let e = Undo::Info { account: *who, old: c.info };
        self.journal.push(e);
        proof {
            assert(self.contracts@ =~= before@.set_info(who@, info).contracts);
            assert(undo_one(e, self@).contracts =~= before@.contracts);
            Self::lemma_pushed(before, *self, e);
        }
    }

    /// Sets or clears one storage value of the contract at `who`, and returns the value that
    /// was there.
    pub fn set_storage(&mut self, who: &AccountId, key: &[u8], value: Option<Vec<u8>>) -> (r:
        Option<Vec<u8>>)
        requires
            old(self).wf(),
            old(self)@.contracts.contains_key(who@),
        ensures
            final(self).wf(),
            final(self)@ == old(self)@.set_storage(who@, key@, opt_view(value)),
            final(self).extends(*old(self)),
            opt_view(r) == old(self)@.storage_value(who@, key@),
    {
        let ghost before = *self;
        let mut c = self.contracts.remove(who.as_slice()).unwrap();
        let ghost old_storage = c.storage@;
        let old_value = match value {
            Some(v) => c.storage.insert(key, v),
            None => c.storage.remove(key),
        };
        let copy = match &old_value {
            Some(v) => Some(to_vec(v.as_slice())),
            None => None,
        };
        self.contracts.insert(who.as_slice(), c);
        let e = Undo::Storage { account: *who, key: to_vec(key), old: old_value };
        self.journal.push(e);
        proof {
            assert(self.contracts@ =~= before@.set_storage(
                who@,
                key@,
                opt_view(value),
            ).contracts);
            let undone = undo_one(e, self@);
            assert(undone.contracts[who@].storage =~= old_storage);
            assert(undone.contracts =~= before@.contracts);
            Self::lemma_pushed(before, *self, e);
        }
        copy
    }

    /// Stores `entry` under `hash`, or removes what is stored there.
    pub fn set_code(&mut self, hash: &CodeHash, entry: Option<CodeEntry>)
        requires
            old(self).wf(),
        ensures
            final(self).wf(),
            final(self)@ == old(self)@.set_code(hash@, opt_code_view(entry)),
            final(self).extends(*old(self)),
    {
        let ghost before = *self;
        let old_entry = match entry {
            Some(e) => self.codes.insert(hash.as_slice(), e),
            None => self.codes.remove(hash.as_slice()),
        };
        let e = Undo::Code { hash: *hash, old: old_entry };
        self.journal.push(e);
        proof {
            assert(undo_one(e, self@).codes =~= before@.codes);
            Self::lemma_pushed(before, *self, e);
        }
    }

    /// Replaces the number of users of the code under `hash`.
    pub fn set_refcount(&mut self, hash: &CodeHash, refcount: u64)
        requires
            old(self).wf(),
            old(self)@.codes.contains_key(hash@),
        ensures
            final(self).wf(),
            final(self)@ == old(self)@.set_refcount(hash@, refcount),
            final(self).extends(*old(self)),
    {
        let ghost before = *self;
        let mut entry = self.codes.remove(hash.as_slice()).unwrap();
        let e = Undo::Refcount { hash: *hash, old: entry.refcount };
        entry.refcount = refcount;
        self.codes.insert(hash.as_slice(), entry);
        self.journal.push(e);
        proof {
            assert(self.codes@ =~= before@.set_refcount(hash@, refcount).codes);
            assert(undo_one(e, self@).codes =~= before@.codes);
            Self::lemma_pushed(before, *self, e);
        }
    }

    /// Counts one more instantiation and returns the new count. The count never falls: at
    /// `u64::MAX` it stays.
    pub fn bump_nonce(&mut self) -> (n: u64)
        requires
            old(self).wf(),
        ensures
            final(self).wf(),
            n == if old(self)@.nonce == u64::MAX {
                u64::MAX
            } else {
                (old(self)@.nonce + 1) as u64
            },
            final(self)@ == (StateView { nonce: n, ..old(self)@ }),
            final(self).extends(*old(self)),
    {
        let ghost before = *self;
        let e = Undo::Nonce { old: self.nonce };
        self.nonce = self.nonce.saturating_add(1);
        self.journal.push(e);
        proof {
            Self::lemma_pushed(before, *self, e);
        }
        self.nonce
    }

    /// Appends an event to the pending events.
    pub fn deposit_event(&mut self, record: EventRecord)
        requires
            old(self).wf(),
        ensures
            final(self).wf(),
            final(self)@ == (StateView { events: old(self)@.events.push(record@), ..old(self)@ }),
            final(self).extends(*old(self)),
    {
        let ghost before = *self;
        self.events.push(record);
        let e = Undo::Event;
        self.journal.push(e);
        proof {
            assert(self@.queue =~= before@.queue);
            assert(self@.events =~= before@.events.push(record@));
            assert(undo_one(e, self@).events =~= before@.events);
            Self::lemma_pushed(before, *self, e);
        }
    }

    /// Removes the contract at `who` and queues its storage for deletion.
    pub fn terminate(&mut self, who: &AccountId)
        requires
            old(self).wf(),
            old(self)@.contracts.contains_key(who@),
        ensures
            final(self).wf(),
            final(self)@ == old(self)@.terminate(who@),
            final(self).extends(*old(self)),
    {
        let ghost before = *self;
        let c = self.contracts.remove(who.as_slice()).unwrap();
        self.queue.push(DeletedContract { trie_id: c.info.trie_id, storage: c.storage });
        let e = Undo::Terminated { account: *who, info: c.info };
        self.journal.push(e);
        proof {
            assert(self@.queue =~= before@.terminate(who@).queue);
            let undone = undo_one(e, self@);
            assert(undone.queue =~= before@.queue);
            assert(undone.contracts =~= before@.contracts);
            Self::lemma_pushed(before, *self, e);
        }
    }

    fn apply_undo(&mut self, e: Undo)
        requires
            old(self).wf(),
        ensures
            final(self).wf(),
            final(self)@ == undo_one(e, old(self)@),
            final(self).journal@ == old(self).journal@,
    {
        let ghost before = *self;
        match e {
            Undo::Balance { account, old } => {
                match old {
                    Some(d) => {
                        self.balances.insert(account.as_slice(), d);
                    },
                    None => {
                        self.balances.remove(account.as_slice());
                    },
                }
            },
            Undo::Created { account } => {
                self.contracts.remove(account.as_slice());
            },
            Undo::Terminated { account, info } => {
                match self.queue.pop() {
                    Some(d) => {
                        self.contracts.insert(
                            account.as_slice(),
                            Contract { info, storage: d.storage },
                        );
                        assert(self@.queue =~= before@.queue.drop_last());
                    },
                    None => {},
                }
            },
            Undo::Info { account, old } => {
                match self.contracts.remove(account.as_slice()) {
                    Some(c) => {
                        self.contracts.insert(
                            account.as_slice(),
                            Contract { info: old, storage: c.storage },
                        );
                        assert(self.contracts@ =~= before.contracts@.insert(
                            account@,
                            ContractView { info: old,
                                storage: before.contracts@[account@].storage },
                        ));
                    },
                    None => {
                        assert(self.contracts@ =~= before.contracts@);
                    },
                }
            },
            Undo::Storage { account, key, old } => {
                match self.contracts.remove(account.as_slice()) {
                    Some(c) => {
                        let mut c = c;
                        match old {
                            Some(v) => {
                                c.storage.insert(key.as_slice(), v);
                            },
                            None => {
                                c.storage.remove(key.as_slice());
                            },
                        }
                        self.contracts.insert(account.as_slice(), c);
                        assert(self.contracts@ =~= before@.set_storage(
                            account@,
                            key@,
                            opt_view(old),
                        ).contracts);
                    },
                    None => {
                        assert(self.contracts@ =~= before.contracts@);
                    },
                }
            },
            Undo::Code { hash, old } => {
                match old {
                    Some(entry) => {
                        self.codes.insert(hash.as_slice(), entry);
                    },
                    None => {
                        self.codes.remove(hash.as_slice());
                    },
                }
            },
            Undo::Refcount { hash, old } => {
                match self.codes.remove(hash.as_slice()) {
                    Some(entry) => {
                        let mut entry = entry;
                        entry.refcount = old;
                        self.codes.insert(hash.as_slice(), entry);
                        assert(self.codes@ =~= before@.set_refcount(hash@, old).codes);
                    },
                    None => {
                        assert(self.codes@ =~= before.codes@);
                    },
                }
            },
            Undo::Nonce { old } => {
                self.nonce = old;
            },
            Undo::Event => {
                self.events.pop();
            },
        }
        assert(self@.queue =~= undo_one(e, before@).queue);
        assert(self@.events =~= undo_one(e, before@).events);
    }

    /// Spends up to `budget` deletions on the deletion queue, first in first out, and returns
    /// what is left of the budget. Only to be used while no frame is open: the journal must
    /// be empty.
    pub fn delete_queued(&mut self, budget: u32) -> (left: u32)
        requires
            old(self).wf(),
            old(self).journal_len() == 0,
        ensures
            final(self).wf(),
            final(self).journal_len() == 0,
            left + drained_keys(old(self)@.queue, budget as nat) == budget,
            is_drained(old(self)@.queue, final(self)@.queue, budget as nat),
            final(self)@ == (StateView { queue: final(self)@.queue, ..old(self)@ }),
    {
        let ghost q0 = self@.queue;
        let ghost mut gone: int = 0;
        let mut left = budget;
        let mut partial = false;
        while self.queue.len() > 0 && left > 0 && !partial
            invariant
                self.wf(),
                self.journal_len() == 0,
                self@ == (StateView { queue: self@.queue, ..old(self)@ }),
                0 <= gone <= q0.len(),
                left <= budget,
                !partial ==> {
                    &&& self@.queue == q0.subrange(gone, q0.len() as int)
                    &&& drained_entries(q0, budget as nat) == gone + drained_entries(
                        self@.queue,
                        left as nat,
                    )
                    &&& drained_keys(q0, budget as nat) == (budget - left) + drained_keys(
                        self@.queue,
                        left as nat,
                    )
                    &&& partly_drained_keys(q0, budget as nat) == partly_drained_keys(
                        self@.queue,
                        left as nat,
                    )
                },
                partial ==> {
                    &&& left == 0
                    &&& drained_keys(q0, budget as nat) == budget
                    &&& is_drained(q0, self@.queue, budget as nat)
                },
            decreases self.queue.len() + (if partial { 0int } else { 1int }),
        {
            let ghost q = self@.queue;
            let ghost before = *self;
            let mut head = self.queue.remove(0);
            let n = head.storage.len();
            proof {
                assert(head@ == q[0]);
                assert(self@.queue =~= q.subrange(1, q.len() as int));
                assert(q.subrange(1, q.len() as int) =~= q0.subrange(gone + 1, q0.len() as int));
            }
            if n <= left as usize {
                left = left - n as u32;
                proof {
                    gone = gone + 1;
                }
            } else {
                let ghost full = head.storage@;
                let ghost trie_id = head.trie_id;
                let mut j: u32 = 0;
                while j < left
                    invariant
                        head.trie_id == trie_id,
                        head.storage.wf(),
                        j <= left,
                        head.storage@.submap_of(full),
                        head.storage@.dom().finite(),
                        head.storage@.dom().len() + j == full.dom().len(),
                        full.dom().len() > left,
                    decreases left - j,
                {
                    let ghost len_before = head.storage@.dom().len();
                    let popped = head.storage.pop();
                    assert(popped.is_some()) by {
                        if popped.is_none() {
                            assert(len_before == 0);
                        }
                    }
                    j = j + 1;
                }
                let ghost rest = self@.queue;
                self.queue.insert(0, head);
                proof {
                    let after = self@.queue;
                    assert(after.len() == rest.len() + 1);
                    assert(after[0] == head@);
                    assert forall|i: int| 1 <= i < after.len() implies #[trigger] after[i]
                        == q0[gone
                        + i] by {
                        assert(after[i] == rest[i - 1]);
                    }
                    assert(queued_keys(q[0]) > left);
                    assert(drained_entries(q, left as nat) == 0);
                    assert(drained_keys(q, left as nat) == left);
                    assert(partly_drained_keys(q, left as nat) == left);
                    assert(q[0] == q0[gone]);
                }
                left = 0;
                partial = true;
            }
        }
        proof {
            if !partial {
                let q = self@.queue;
                assert(drained_entries(q, left as nat) == 0);
                assert(drained_keys(q, left as nat) == 0) by {
                    if q.len() > 0 && left > 0 {
                    }
                }
                assert(partly_drained_keys(q, left as nat) == 0);
                if q.len() > 0 {
                    assert(q[0] == q0[gone]);
                    assert(self.queue@[0].storage.wf());
                    self.queue@[0].storage.lemma_finite();
                }
            }
        }
        left
    }

    /// Takes back every change since the checkpoint `mark`.
    pub fn revert_to(&mut self, mark: usize)
        requires
            old(self).wf(),
        ensures
            final(self).wf(),
            mark <= old(self).journal_len() ==> final(self)@ == old(self).reverts_to(mark as int)
                && final(self).journal_len() == mark,
            mark > old(self).journal_len() ==> final(self)@ == old(self)@
                && final(self).journal_len() == old(self).journal_len(),
            forall|m: int|
                0 <= m <= mark && m <= old(self).journal_len()
                    ==> #[trigger] final(self).reverts_to(
                    m,
                ) == old(self).reverts_to(m),
    {
        while self.journal.len() > mark
            invariant
                self.wf(),
                self.journal_len() <= old(self).journal_len(),
                mark <= old(self).journal_len() ==> mark <= self.journal_len(),
                mark > old(self).journal_len() ==> *self == *old(self),
                forall|m: int|
                    0 <= m <= self.journal_len() ==> #[trigger] self.reverts_to(m)
                        == old(self).reverts_to(m),
            decreases self.journal.len(),
        {
            let ghost before = *self;
            let e = self.journal.pop().unwrap();
            self.apply_undo(e);
            proof {
                assert(self.journal@ =~= before.journal@.drop_last());
                assert forall|m: int| 0 <= m <= self.journal_len(
                    ) implies #[trigger] self.reverts_to(
                    m,
                ) == before.reverts_to(m) by {
                    assert(before.journal@.last() == e);
                }
            }
        }
        assert(self.reverts_to(self.journal_len() as int) == self@);
    }
}

} // verus!
