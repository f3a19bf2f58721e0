//! Instruction and transaction account compilation: turning a key map into
//! byte-sized account indices, per-index privilege records, and the
//! concrete ordered account list handed to the executor.
//!
//! Account resolution is a three-tier waterfall: an exact match among the
//! caller-provided accounts wins; otherwise a fallback source is consulted;
//! otherwise a stub policy may synthesize a placeholder; otherwise the key
//! is reported missing.

use vstd::prelude::*;

use crate::keys::entries_contain;
use crate::keys::entry_index;
use crate::keys::lemma_entry_index;
use crate::keys::KeyMap;
use crate::keys::KeyMapEntry;
use crate::types::accounts_view;
use crate::types::find_account;
use crate::types::keys_of;
use crate::types::spec_contains_key;
use crate::types::spec_lookup;
use crate::types::Account;
use crate::types::AccountMeta;
use crate::types::AccountView;
use crate::types::Instruction;
use crate::types::InstructionView;
use crate::types::Key;

verus! {

/// A typed compilation failure. All are fatal for the call being built:
/// the caller cannot construct a correct execution context without fixing
/// its inputs.
#[derive(Clone, Copy, PartialEq, Eq, Structural, Debug)]
pub enum MolluskError {
    /// An account required by the instruction was not provided by any
    /// resolution tier.
    AccountMissing(Key),
    /// The program id required by the instruction is not in the key map.
    ProgramIdNotMapped(Key),
    /// A key's position exceeds the largest index that fits in a byte.
    AccountIndexOverflow(usize),
}

/// A compiled instruction, without a copy of its data: the program id and
/// each account reference replaced by byte-sized positions into the
/// transaction account list.
#[derive(Clone, PartialEq, Eq, Debug)]
pub struct CompiledInstructionWithoutData {
    pub program_id_index: u8,
    pub accounts: Vec<u8>,
}

/// One account reference of a compiled instruction: its position in the
/// transaction account list and its merged privilege.
#[derive(Clone, Copy, PartialEq, Eq, Structural, Debug)]
pub struct InstructionAccount {
    pub index_in_transaction: u16,
    pub is_signer: bool,
    pub is_writable: bool,
}

impl InstructionAccount {
    pub fn new(index_in_transaction: u16, is_signer: bool, is_writable: bool) -> (r:
        InstructionAccount)
        ensures
            r == (InstructionAccount { index_in_transaction, is_signer, is_writable }),
    {
        InstructionAccount { index_in_transaction, is_signer, is_writable }
    }
}

/// Whether `k` is registered at a position that fits in a byte.
pub open spec fn meta_ok(s: Seq<KeyMapEntry>, k: Key) -> bool {
    entries_contain(s, k) && entry_index(s, k) <= 255
}

/// The failure produced by a reference to `k` that is not `meta_ok`.
pub open spec fn meta_err(s: Seq<KeyMapEntry>, k: Key) -> MolluskError {
    if !entries_contain(s, k) {
        MolluskError::AccountMissing(k)
    } else {
        MolluskError::AccountIndexOverflow(entry_index(s, k) as usize)
    }
}

/// The first failure among an instruction's account references, scanned in
/// order, or `None` when every reference compiles.
pub open spec fn metas_error(s: Seq<KeyMapEntry>, metas: Seq<AccountMeta>) -> Option<MolluskError>
    decreases metas.len(),
{
    if metas.len() == 0 {
        None
    } else if !meta_ok(s, metas[0].pubkey) {
        Some(meta_err(s, metas[0].pubkey))
    } else {
        metas_error(s, metas.drop_first())
    }
}

/// The failure produced by compiling `ix` against the key map `s`, or
/// `None` when the compilation succeeds: the program id must be mapped at
/// a byte-sized position, and then every account reference must compile.
pub open spec fn instruction_error(s: Seq<KeyMapEntry>, ix: InstructionView) -> Option<MolluskError> {
    if !entries_contain(s, ix.program_id) {
        Some(MolluskError::ProgramIdNotMapped(ix.program_id))
    } else if entry_index(s, ix.program_id) > 255 {
        Some(MolluskError::AccountIndexOverflow(entry_index(s, ix.program_id) as usize))
    } else {
        metas_error(s, ix.accounts)
    }
}

/// When every reference compiles, the scan reports no failure.
pub proof fn lemma_metas_error_none(s: Seq<KeyMapEntry>, metas: Seq<AccountMeta>)
    requires
        forall|j: int| 0 <= j < metas.len() ==> meta_ok(s, #[trigger] metas[j].pubkey),
    ensures
        metas_error(s, metas) is None,
    decreases metas.len(),
{
    if metas.len() > 0 {
        assert forall|j: int| 0 <= j < metas.drop_first().len() implies meta_ok(
            s,
            #[trigger] metas.drop_first()[j].pubkey,
        ) by {
            assert(metas.drop_first()[j] == metas[j + 1]);
        }
        lemma_metas_error_none(s, metas.drop_first());
    }
}

/// When the first failing reference is at `i`, the scan reports its
/// failure.
pub proof fn lemma_metas_error_at(s: Seq<KeyMapEntry>, metas: Seq<AccountMeta>, i: int)
    requires
        0 <= i < metas.len(),
        forall|j: int| 0 <= j < i ==> meta_ok(s, #[trigger] metas[j].pubkey),
        !meta_ok(s, metas[i].pubkey),
    ensures
        metas_error(s, metas) == Some(meta_err(s, metas[i].pubkey)),
    decreases i,
{
    if i > 0 {
        let d = metas.drop_first();
        assert forall|j: int| 0 <= j < i - 1 implies meta_ok(s, #[trigger] d[j].pubkey) by {
            assert(d[j] == metas[j + 1]);
        }
        assert(d[i - 1] == metas[i]);
        lemma_metas_error_at(s, d, i - 1);
    }
}

/// Compile an instruction's account references into byte-sized positions
/// in the key map. Fails when the program id is not mapped, or when any
/// required position does not fit in a byte.
pub fn compile_instruction_without_data(key_map: &KeyMap, instruction: &Instruction) -> (r: Result<
    CompiledInstructionWithoutData,
    MolluskError,
>)
    ensures
        match r {
            Ok(c) => instruction_error(key_map@, instruction@) is None && entries_contain(
                key_map@,
                instruction@.program_id,
            ) && c.program_id_index as int == entry_index(key_map@, instruction@.program_id)
                && c.accounts@.len() == instruction@.accounts.len() && forall|i: int|
                0 <= i < c.accounts@.len() ==> c.accounts@[i] as int == entry_index(
                    key_map@,
                    instruction@.accounts[i].pubkey,
                ),
            Err(e) => instruction_error(key_map@, instruction@) == Some(e),
        },
{
    let program_id_index: u8 = match key_map.position(&instruction.program_id) {
        None => {
            return Err(MolluskError::ProgramIdNotMapped(instruction.program_id));
        },
        Some(p) => {
            if p > 255 {
                return Err(MolluskError::AccountIndexOverflow(p));
            }
            p as u8
        },
    };
    let n = instruction.accounts.len();
    let mut accounts: Vec<u8> = Vec::new();
    let mut i: usize = 0;
    while i < n
        invariant
            i <= n,
            n == instruction.accounts.len(),
            accounts@.len() == i,
            entries_contain(key_map@, instruction@.program_id),
            entry_index(key_map@, instruction@.program_id) <= 255,
            forall|j: int| 0 <= j < i ==> meta_ok(key_map@, #[trigger] instruction@.accounts[j].pubkey),
            forall|j: int|
                0 <= j < i ==> accounts@[j] as int == entry_index(
                    key_map@,
                    instruction@.accounts[j].pubkey,
                ),
        decreases n - i,
    {
        let key = instruction.accounts[i].pubkey;
        match key_map.position(&key) {
            None => {
                proof {
                    lemma_metas_error_at(key_map@, instruction@.accounts, i as int);
                }
                return Err(MolluskError::AccountMissing(key));
            },
            Some(p) => {
                if p > 255 {
                    proof {
                        lemma_metas_error_at(key_map@, instruction@.accounts, i as int);
                    }
                    return Err(MolluskError::AccountIndexOverflow(p));
                }
                accounts.push(p as u8);
            },
        }
        i += 1;
    }
    proof {
        lemma_metas_error_none(key_map@, instruction@.accounts);
    }
    Ok(CompiledInstructionWithoutData { program_id_index, accounts })
}

/// Attach the merged privilege recorded in the key map to each compiled
/// account position.
pub fn compile_instruction_accounts(
    key_map: &KeyMap,
    compiled_instruction: &CompiledInstructionWithoutData,
) -> (r: Vec<InstructionAccount>)
    requires
        forall|i: int|
            0 <= i < compiled_instruction.accounts@.len()
                ==> (compiled_instruction.accounts@[i] as int) < key_map@.len(),
    ensures
        r@.len() == compiled_instruction.accounts@.len(),
        forall|i: int|
            0 <= i < r@.len() ==> {
                let p = compiled_instruction.accounts@[i] as int;
                (#[trigger] r@[i]).index_in_transaction == compiled_instruction.accounts@[i]
                    && r@[i].is_signer == key_map@[p].is_signer && r@[i].is_writable
                    == key_map@[p].is_writable
            },
{
    let n = compiled_instruction.accounts.len();
    let mut r: Vec<InstructionAccount> = Vec::new();
    let mut i: usize = 0;
    while i < n
        invariant
            i <= n,
            n == compiled_instruction.accounts@.len(),
            forall|j: int|
                0 <= j < n ==> (compiled_instruction.accounts@[j] as int) < key_map@.len(),
            r@.len() == i,
            forall|j: int|
                0 <= j < i ==> {
                    let p = compiled_instruction.accounts@[j] as int;
                    (#[trigger] r@[j]).index_in_transaction == compiled_instruction.accounts@[j]
                        && r@[j].is_signer == key_map@[p].is_signer && r@[j].is_writable
                        == key_map@[p].is_writable
                },
        decreases n - i,
    {
        let index = compiled_instruction.accounts[i] as usize;
        r.push(
            InstructionAccount::new(
                index as u16,
                key_map.is_signer_at_index(index),
                key_map.is_writable_at_index(index),
            ),
        );
        i += 1;
    }
    r
}

/// A source of accounts consulted when a key has no entry among the
/// caller-provided accounts; typically backs program and sysvar accounts.
pub trait FallbackSource {
    /// The account this source holds for `key`, if any.
    spec fn lookup_spec(&self, key: Key) -> Option<AccountView>;

    /// Look up `key` in this source.
    fn lookup(&self, key: &Key) -> (r: Option<Account>)
        ensures
            match r {
                Some(a) => self.lookup_spec(*key) == Some(a@),
                None => self.lookup_spec(*key) is None,
            },
    ;
}

/// A policy that may synthesize a placeholder account for a key that no
/// other tier resolved.
pub trait StubPolicy {
    /// The stub this policy synthesizes for `key`, if any.
    spec fn stub_spec(&self, key: Key) -> Option<AccountView>;

    /// Synthesize a stub for `key`, where the policy allows one.
    fn maybe_stub(&self, key: &Key) -> (r: Option<Account>)
        ensures
            match r {
                Some(a) => self.stub_spec(*key) == Some(a@),
                None => self.stub_spec(*key) is None,
            },
    ;
}

/// A simple ordered key-to-account map, usable as a fallback source.
/// Inserting for a key already present replaces its account.
#[derive(Clone, Debug)]
pub struct AccountMap {
    entries: Vec<(Key, Account)>,
}

impl View for AccountMap {
    type V = Seq<(Key, AccountView)>;

    closed spec fn view(&self) -> Seq<(Key, AccountView)> {
        accounts_view(self.entries@)
    }
}

impl Default for AccountMap {
    /// An empty map.
    fn default() -> (r: AccountMap)
        ensures
            r@ =~= Seq::<(Key, AccountView)>::empty(),
    {
        AccountMap { entries: Vec::new() }
    }
}

impl AccountMap {
    /// An empty map.
    pub fn new() -> (r: AccountMap)
        ensures
            r@ =~= Seq::<(Key, AccountView)>::empty(),
    {
        AccountMap { entries: Vec::new() }
    }

    /// Bind `key` to `account`, replacing any earlier binding.
    pub fn insert(&mut self, key: Key, account: Account)
        ensures
            spec_contains_key(final(self)@, key),
            spec_lookup(final(self)@, key) == account@,
            forall|k: Key|
                k != key ==> #[trigger] spec_contains_key(final(self)@, k) == spec_contains_key(
                    old(self)@,
                    k,
                ),
            forall|k: Key|
                k != key && spec_contains_key(old(self)@, k) ==> #[trigger] spec_lookup(
                    final(self)@,
                    k,
                ) == spec_lookup(old(self)@, k),
    {
        let ghost orig = accounts_view(self.entries@);
        let n = self.entries.len();
        let mut i: usize = 0;
        let mut found: Option<usize> = None;
        while i < n
            invariant
                i <= n,
                n == self.entries.len(),
                self.entries@ == old(self).entries@,
                match found {
                    Some(p) => p < i && orig[p as int].0 == key && forall|j: int|
                        0 <= j < p ==> orig[j].0 != key,
                    None => forall|j: int| 0 <= j < i ==> orig[j].0 != key,
                },
                orig == accounts_view(self.entries@),
            decreases n - i,
        {
            if found.is_none() && self.entries[i].0 == key {
                found = Some(i);
            }
            i += 1;
        }
        match found {
            Some(p) => {
                proof {
                    crate::types::lemma_first_index_found(orig, key, p as int);
                }
                self.entries[p] = (key, account);
                proof {
                    let now = accounts_view(self.entries@);
                    assert(now =~= orig.update(p as int, (key, account@)));
                    lemma_insert_updated(orig, now, key, account@, p as int);
                }
            },
            None => {
                self.entries.push((key, account));
                proof {
                    let now = accounts_view(self.entries@);
                    assert(now =~= orig.push((key, account@)));
                    lemma_insert_pushed(orig, now, key, account@);
                }
            },
        }
    }

    /// The account bound to `key`, if any.
    pub fn get(&self, key: &Key) -> (r: Option<&Account>)
        ensures
            match r {
                Some(a) => spec_contains_key(self@, *key) && a@ == spec_lookup(self@, *key),
                None => !spec_contains_key(self@, *key),
            },
    {
        find_account(&self.entries, key)
    }
}

impl FallbackSource for AccountMap {
    open spec fn lookup_spec(&self, key: Key) -> Option<AccountView> {
        if spec_contains_key(self@, key) {
            Some(spec_lookup(self@, key))
        } else {
            None
        }
    }

    fn lookup(&self, key: &Key) -> (r: Option<Account>) {
        match self.get(key) {
            Some(a) => Some(a.duplicate()),
            None => None,
        }
    }
}

/// A stub policy that synthesizes nothing.
#[derive(Clone, Copy, Debug)]
pub struct NoStubs;

impl StubPolicy for NoStubs {
    open spec fn stub_spec(&self, key: Key) -> Option<AccountView> {
        None
    }

    fn maybe_stub(&self, key: &Key) -> (r: Option<Account>) {
        None
    }
}

/// A stub policy for program ids: for each registered program key it
/// synthesizes a minimal executable-marked placeholder owned by the
/// loader, so callers can exercise a program without hand-constructing its
/// account.
#[derive(Clone, Debug)]
pub struct ProgramStubs {
    loader: Key,
    programs: Vec<Key>,
}

/// The placeholder account synthesized for a program id: executable, one
/// lamport, no data, owned by the loader.
pub open spec fn program_stub_account(loader: Key) -> AccountView {
    AccountView { lamports: 1, data: Seq::empty(), owner: loader, executable: true, rent_epoch: 0 }
}

impl ProgramStubs {
    /// A policy that stubs the given program keys with placeholders owned
    /// by `loader`.
    pub fn new(loader: Key, programs: Vec<Key>) -> (r: ProgramStubs)
        ensures
            r.loader_key() == loader,
            r.program_keys() == programs@,
    {
        ProgramStubs { loader, programs }
    }

    /// The loader that owns every synthesized placeholder.
    pub closed spec fn loader_key(&self) -> Key {
        self.loader
    }

    /// The program keys this policy stubs.
    pub closed spec fn program_keys(&self) -> Seq<Key> {
        self.programs@
    }
}

impl StubPolicy for ProgramStubs {
    open spec fn stub_spec(&self, key: Key) -> Option<AccountView> {
        if self.program_keys().contains(key) {
            Some(program_stub_account(self.loader_key()))
        } else {
            None
        }
    }

    fn maybe_stub(&self, key: &Key) -> (r: Option<Account>) {
        let n = self.programs.len();
        let mut i: usize = 0;
        while i < n
            invariant
                i <= n,
                n == self.programs.len(),
                forall|j: int| 0 <= j < i ==> self.programs@[j] != *key,
            decreases n - i,
        {
            if self.programs[i] == *key {
                let a = Account {
                    lamports: 1,
                    data: Vec::new(),
                    owner: self.loader,
                    executable: true,
                    rent_epoch: 0,
                };
                proof {
                    assert(a@ =~= program_stub_account(self.loader_key()));
                }
                return Some(a);
            }
            i += 1;
        }
        proof {
            if self.program_keys().contains(*key) {
                let j = choose|j: int|
                    0 <= j < self.programs@.len() && self.programs@[j] == *key;
                assert(false);
            }
        }
        None
    }
}

/// The account that the three-tier waterfall resolves for `k`: the first
/// match among the provided accounts wins; otherwise the fallback source;
/// otherwise the stub policy; otherwise nothing.
pub open spec fn resolve_account_spec<F: FallbackSource, S: StubPolicy>(
    k: Key,
    provided: Seq<(Key, AccountView)>,
    fallback: &F,
    stubs: &S,
) -> Option<AccountView> {
    if spec_contains_key(provided, k) {
        Some(spec_lookup(provided, k))
    } else if fallback.lookup_spec(k) is Some {
        fallback.lookup_spec(k)
    } else {
        stubs.stub_spec(k)
    }
}

/// The position of the first key-map entry whose key no tier resolves, or
/// -1 when every entry resolves.
pub open spec fn first_unresolved<F: FallbackSource, S: StubPolicy>(
    entries: Seq<KeyMapEntry>,
    provided: Seq<(Key, AccountView)>,
    fallback: &F,
    stubs: &S,
) -> int
    decreases entries.len(),
{
    if entries.len() == 0 {
        -1
    } else if resolve_account_spec(entries[0].key, provided, fallback, stubs) is None {
        0
    } else {
        let r = first_unresolved(entries.drop_first(), provided, fallback, stubs);
        if r < 0 {
            -1
        } else {
            r + 1
        }
    }
}

/// When every entry resolves, no entry is reported unresolved.
pub proof fn lemma_first_unresolved_none<F: FallbackSource, S: StubPolicy>(
    entries: Seq<KeyMapEntry>,
    provided: Seq<(Key, AccountView)>,
    fallback: &F,
    stubs: &S,
)
    requires
        forall|j: int|
            0 <= j < entries.len() ==> resolve_account_spec(
                #[trigger] entries[j].key,
                provided,
                fallback,
                stubs,
            ) is Some,
    ensures
        first_unresolved(entries, provided, fallback, stubs) == -1,
    decreases entries.len(),
{
    if entries.len() > 0 {
        let d = entries.drop_first();
        assert forall|j: int| 0 <= j < d.len() implies resolve_account_spec(
            #[trigger] d[j].key,
            provided,
            fallback,
            stubs,
        ) is Some by {
            assert(d[j] == entries[j + 1]);
        }
        lemma_first_unresolved_none(d, provided, fallback, stubs);
    }
}

/// When the first unresolvable entry is at `i`, the scan reports `i`.
pub proof fn lemma_first_unresolved_at<F: FallbackSource, S: StubPolicy>(
    entries: Seq<KeyMapEntry>,
    provided: Seq<(Key, AccountView)>,
    fallback: &F,
    stubs: &S,
    i: int,
)
    requires
        0 <= i < entries.len(),
        forall|j: int|
            0 <= j < i ==> resolve_account_spec(
                #[trigger] entries[j].key,
                provided,
                fallback,
                stubs,
            ) is Some,
        resolve_account_spec(entries[i].key, provided, fallback, stubs) is None,
    ensures
        first_unresolved(entries, provided, fallback, stubs) == i,
    decreases i,
{
    if i > 0 {
        let d = entries.drop_first();
        assert forall|j: int| 0 <= j < i - 1 implies resolve_account_spec(
            #[trigger] d[j].key,
            provided,
            fallback,
            stubs,
        ) is Some by {
            assert(d[j] == entries[j + 1]);
        }
        assert(d[i - 1] == entries[i]);
        lemma_first_unresolved_at(d, provided, fallback, stubs, i - 1);
    }
}

/// Whether the waterfall can resolve a key depends only on which keys the
/// provided accounts carry, not on their states.
pub proof fn lemma_resolvable_same_keys<F: FallbackSource, S: StubPolicy>(
    p1: Seq<(Key, AccountView)>,
    p2: Seq<(Key, AccountView)>,
    fallback: &F,
    stubs: &S,
    k: Key,
)
    requires
        keys_of(p1) == keys_of(p2),
    ensures
        resolve_account_spec(k, p1, fallback, stubs) is None <==> resolve_account_spec(
            k,
            p2,
            fallback,
            stubs,
        ) is None,
{
    assert(keys_of(p1).len() == p1.len());
    assert(keys_of(p2).len() == p2.len());
    assert(spec_contains_key(p1, k) <==> spec_contains_key(p2, k)) by {
        if spec_contains_key(p1, k) {
            let i = choose|i: int| 0 <= i < p1.len() && p1[i].0 == k;
            assert(keys_of(p1)[i] == p1[i].0);
            assert(keys_of(p2)[i] == p2[i].0);
        }
        if spec_contains_key(p2, k) {
            let i = choose|i: int| 0 <= i < p2.len() && p2[i].0 == k;
            assert(keys_of(p2)[i] == p2[i].0);
            assert(keys_of(p1)[i] == p1[i].0);
        }
    }
}

/// The first unresolvable position depends only on which keys the
/// provided accounts carry, not on their states.
pub proof fn lemma_first_unresolved_same_keys<F: FallbackSource, S: StubPolicy>(
    entries: Seq<KeyMapEntry>,
    p1: Seq<(Key, AccountView)>,
    p2: Seq<(Key, AccountView)>,
    fallback: &F,
    stubs: &S,
)
    requires
        keys_of(p1) == keys_of(p2),
    ensures
        first_unresolved(entries, p1, fallback, stubs) == first_unresolved(
            entries,
            p2,
            fallback,
            stubs,
        ),
    decreases entries.len(),
{
    if entries.len() > 0 {
        lemma_resolvable_same_keys(p1, p2, fallback, stubs, entries[0].key);
        lemma_first_unresolved_same_keys(entries.drop_first(), p1, p2, fallback, stubs);
    }
}

/// Resolve the concrete ordered account list for a compiled key map,
/// aligned one-to-one with the key map's positions. For each key, the
/// waterfall is: provided account (first occurrence), then fallback
/// source, then stub policy; a key no tier resolves fails the whole call
/// with `AccountMissing`.
pub fn compile_transaction_accounts<F: FallbackSource, S: StubPolicy>(
    key_map: &KeyMap,
    accounts: &Vec<(Key, Account)>,
    fallback: &F,
    stubs: &S,
) -> (r: Result<Vec<(Key, Account)>, MolluskError>)
    ensures
        match r {
            Ok(v) => first_unresolved(key_map@, accounts_view(accounts@), fallback, stubs) == -1
                && v@.len() == key_map@.len() && forall|i: int|
                0 <= i < v@.len() ==> (#[trigger] v@[i]).0 == key_map@[i].key && Some(v@[i].1@)
                    == resolve_account_spec(
                    key_map@[i].key,
                    accounts_view(accounts@),
                    fallback,
                    stubs,
                ),
            Err(e) => {
                let i = first_unresolved(key_map@, accounts_view(accounts@), fallback, stubs);
                0 <= i && e == MolluskError::AccountMissing(key_map@[i].key)
            },
        },
{
    let n = key_map.len();
    let mut v: Vec<(Key, Account)> = Vec::new();
    let mut i: usize = 0;
    while i < n
        invariant
            i <= n,
            n == key_map@.len(),
            v@.len() == i,
            forall|j: int|
                0 <= j < i ==> (#[trigger] v@[j]).0 == key_map@[j].key && Some(v@[j].1@)
                    == resolve_account_spec(
                    key_map@[j].key,
                    accounts_view(accounts@),
                    fallback,
                    stubs,
                ),
        decreases n - i,
    {
        let key = key_map.key_at(i);
        let resolved: Account = match find_account(accounts, &key) {
            Some(a) => a.duplicate(),
            None => {
                match fallback.lookup(&key) {
                    Some(a) => a,
                    None => {
                        match stubs.maybe_stub(&key) {
                            Some(a) => a,
                            None => {
                                proof {
                                    assert forall|j: int| 0 <= j < i implies resolve_account_spec(
                                        #[trigger] key_map@[j].key,
                                        accounts_view(accounts@),
                                        fallback,
                                        stubs,
                                    ) is Some by {
                                        assert(Some(v@[j].1@) == resolve_account_spec(
                                            key_map@[j].key,
                                            accounts_view(accounts@),
                                            fallback,
                                            stubs,
                                        ));
                                    }
                                    lemma_first_unresolved_at(
                                        key_map@,
                                        accounts_view(accounts@),
                                        fallback,
                                        stubs,
                                        i as int,
                                    );
                                }
                                return Err(MolluskError::AccountMissing(key));
                            },
                        }
                    },
                }
            },
        };
        v.push((key, resolved));
        i += 1;
    }
    proof {
        assert forall|j: int| 0 <= j < key_map@.len() implies resolve_account_spec(
            #[trigger] key_map@[j].key,
            accounts_view(accounts@),
            fallback,
            stubs,
        ) is Some by {
            assert(v@[j].0 == key_map@[j].key);
        }
        lemma_first_unresolved_none(key_map@, accounts_view(accounts@), fallback, stubs);
    }
    Ok(v)
}

/// Two stub policies consulted in order: the first policy's stub wins
/// where it synthesizes one; otherwise the second policy is consulted.
#[derive(Clone, Debug)]
pub struct StubChain<A: StubPolicy, B: StubPolicy> {
    pub first: A,
    pub second: B,
}

impl<A: StubPolicy, B: StubPolicy> StubPolicy for StubChain<A, B> {
    open spec fn stub_spec(&self, key: Key) -> Option<AccountView> {
        if self.first.stub_spec(key) is Some {
            self.first.stub_spec(key)
        } else {
            self.second.stub_spec(key)
        }
    }

    fn maybe_stub(&self, key: &Key) -> (r: Option<Account>) {
        match self.first.maybe_stub(key) {
            Some(a) => Some(a),
            None => self.second.maybe_stub(key),
        }
    }
}

/// The fully compiled execution context for one instruction: the program
/// id's position, the per-reference privilege records, and the ordered
/// transaction account list.
#[derive(Clone, PartialEq, Eq, Debug)]
pub struct CompiledAccounts {
    pub program_id_index: u16,
    pub instruction_accounts: Vec<InstructionAccount>,
    pub transaction_accounts: Vec<(Key, Account)>,
}

/// Compile one instruction end to end: deduplicate its keys, compile its
/// account references to byte-sized positions with merged privileges, and
/// resolve the ordered transaction account list through the three-tier
/// waterfall.
pub fn compile_accounts<F: FallbackSource, S: StubPolicy>(
    instruction: &Instruction,
    accounts: &Vec<(Key, Account)>,
    fallback: &F,
    stubs: &S,
) -> (r: Result<CompiledAccounts, MolluskError>)
    ensures
        ({
            let km = crate::keys::compile_spec(seq![instruction@]);
            match r {
                Ok(c) => instruction_error(km, instruction@) is None && first_unresolved(
                    km,
                    accounts_view(accounts@),
                    fallback,
                    stubs,
                ) == -1 && c.program_id_index as int == entry_index(km, instruction@.program_id)
                    && c.instruction_accounts@.len() == instruction@.accounts.len() && (forall|
                    i: int,
                |
                    0 <= i < c.instruction_accounts@.len() ==> {
                        let p = entry_index(km, instruction@.accounts[i].pubkey);
                        (#[trigger] c.instruction_accounts@[i]).index_in_transaction == p
                            && c.instruction_accounts@[i].is_signer == km[p].is_signer
                            && c.instruction_accounts@[i].is_writable == km[p].is_writable
                    }) && c.transaction_accounts@.len() == km.len() && (forall|i: int|
                    0 <= i < c.transaction_accounts@.len() ==> (
                    #[trigger] c.transaction_accounts@[i]).0 == km[i].key && Some(
                        c.transaction_accounts@[i].1@,
                    ) == resolve_account_spec(km[i].key, accounts_view(accounts@), fallback, stubs)),
                Err(e) => match instruction_error(km, instruction@) {
                    Some(e0) => e == e0,
                    None => {
                        let i = first_unresolved(km, accounts_view(accounts@), fallback, stubs);
                        0 <= i && e == MolluskError::AccountMissing(km[i].key)
                    },
                },
            }
        }),
{
    let key_map = KeyMap::compile_from_instruction(instruction);
    let compiled_instruction = match compile_instruction_without_data(&key_map, instruction) {
        Ok(c) => c,
        Err(e) => {
            return Err(e);
        },
    };
    proof {
        assert forall|i: int| 0 <= i < compiled_instruction.accounts@.len() implies ((
        #[trigger] compiled_instruction.accounts@[i]) as int) < key_map@.len() by {
            lemma_entry_index(key_map@, instruction@.accounts[i].pubkey);
            assert(compiled_instruction.accounts@[i] as int == entry_index(
                key_map@,
                instruction@.accounts[i].pubkey,
            ));
        }
    }
    let instruction_accounts = compile_instruction_accounts(&key_map, &compiled_instruction);
    let transaction_accounts = match compile_transaction_accounts(
        &key_map,
        accounts,
        fallback,
        stubs,
    ) {
        Ok(v) => v,
        Err(e) => {
            return Err(e);
        },
    };
    Ok(
        CompiledAccounts {
            program_id_index: compiled_instruction.program_id_index as u16,
            instruction_accounts,
            transaction_accounts,
        },
    )
}

/// Resolution order: when a key is present among the provided accounts,
/// the provided account wins, whatever the other tiers hold; when it is
/// absent there but the fallback holds it, the fallback account wins,
/// whatever the stub policy holds; the stub policy is consulted only when
/// both earlier tiers miss; and the key is unresolvable exactly when all
/// three tiers miss.
pub proof fn lemma_resolution_order<F: FallbackSource, S: StubPolicy>(
    k: Key,
    provided: Seq<(Key, AccountView)>,
    fallback: &F,
    stubs: &S,
)
    ensures
        spec_contains_key(provided, k) ==> resolve_account_spec(k, provided, fallback, stubs)
            == Some(spec_lookup(provided, k)),
        !spec_contains_key(provided, k) && fallback.lookup_spec(k) is Some
            ==> resolve_account_spec(k, provided, fallback, stubs) == fallback.lookup_spec(k),
        !spec_contains_key(provided, k) && fallback.lookup_spec(k) is None
            ==> resolve_account_spec(k, provided, fallback, stubs) == stubs.stub_spec(k),
        resolve_account_spec(k, provided, fallback, stubs) is None <==> !spec_contains_key(
            provided,
            k,
        ) && fallback.lookup_spec(k) is None && stubs.stub_spec(k) is None,
{
}

/// Resolution is a pure function of its inputs: two resolutions of the
/// same key against the same provided accounts, fallback source, and stub
/// policy give the same account (idempotence of account resolution).
pub proof fn lemma_resolution_idempotent<F: FallbackSource, S: StubPolicy>(
    k: Key,
    provided1: Seq<(Key, AccountView)>,
    provided2: Seq<(Key, AccountView)>,
    fallback: &F,
    stubs: &S,
)
    requires
        provided1 == provided2,
    ensures
        resolve_account_spec(k, provided1, fallback, stubs) == resolve_account_spec(
            k,
            provided2,
            fallback,
            stubs,
        ),
{
}

/// The byte-sized index invariant: compiling an instruction whose metas
/// reference 255 or fewer distinct keys (besides its program id) succeeds,
/// while one that references 256 or more fails with an index overflow at
/// position 256 — never a silent truncation.
pub proof fn lemma_account_index_overflow(ix: InstructionView)
    requires
        forall|i: int, j: int|
            0 <= i < j < ix.accounts.len() ==> ix.accounts[i].pubkey != ix.accounts[j].pubkey,
        forall|i: int|
            0 <= i < ix.accounts.len() ==> (#[trigger] ix.accounts[i]).pubkey != ix.program_id,
    ensures
        ix.accounts.len() <= 255 ==> instruction_error(
            crate::keys::compile_spec(seq![ix]),
            ix,
        ) is None,
        ix.accounts.len() >= 256 ==> instruction_error(crate::keys::compile_spec(seq![ix]), ix)
            == Some(MolluskError::AccountIndexOverflow(256)),
{
    let refs = crate::keys::instruction_refs(ix);
    let km = crate::keys::compile_spec(seq![ix]);
    assert(crate::keys::chain_refs(seq![ix]) == refs) by {
        let instrs = seq![ix];
        assert(instrs[0] == ix);
        assert(instrs.drop_first() =~= Seq::<InstructionView>::empty());
        assert(crate::keys::chain_refs(Seq::<InstructionView>::empty()) == Seq::<
            crate::keys::KeyRef,
        >::empty());
        assert(crate::keys::chain_refs(instrs) == crate::keys::instruction_refs(instrs[0])
            + crate::keys::chain_refs(instrs.drop_first()));
        assert(crate::keys::chain_refs(instrs) =~= refs);
    }
    let mapped = ix.accounts.map_values(
        |m: AccountMeta| (m.pubkey, m.is_signer, m.is_writable),
    );
    assert(refs.len() == 1 + ix.accounts.len());
    assert(refs[0] == (ix.program_id, false, false));
    assert forall|i: int| 1 <= i < refs.len() implies #[trigger] refs[i] == (
        ix.accounts[i - 1].pubkey,
        ix.accounts[i - 1].is_signer,
        ix.accounts[i - 1].is_writable,
    ) by {
        assert(refs[i] == mapped[i - 1]);
    }
    assert forall|i: int, j: int| 0 <= i < j < refs.len() implies refs[i].0 != refs[j].0 by {
        if i == 0 {
            assert(refs[j].0 == ix.accounts[j - 1].pubkey);
        } else {
            assert(refs[i].0 == ix.accounts[i - 1].pubkey);
            assert(refs[j].0 == ix.accounts[j - 1].pubkey);
        }
    }
    assert forall|i: int| 0 <= i < refs.len() implies !entries_contain(
        Seq::<KeyMapEntry>::empty(),
        #[trigger] refs[i].0,
    ) by {
        if entries_contain(Seq::<KeyMapEntry>::empty(), refs[i].0) {
            let j = choose|j: int|
                0 <= j < Seq::<KeyMapEntry>::empty().len() && Seq::<KeyMapEntry>::empty()[j].key
                    == refs[i].0;
            assert(false);
        }
    }
    crate::keys::lemma_fresh_positions(Seq::<KeyMapEntry>::empty(), refs);
    assert(entry_index(km, ix.program_id) == 0);
    lemma_entry_index(km, ix.program_id);
    assert forall|i: int| 0 <= i < ix.accounts.len() implies entry_index(
        km,
        (#[trigger] ix.accounts[i]).pubkey,
    ) == i + 1 && entries_contain(km, ix.accounts[i].pubkey) by {
        assert(refs[i + 1].0 == ix.accounts[i].pubkey);
        assert(entry_index(km, refs[i + 1].0) == i + 1);
        lemma_entry_index(km, ix.accounts[i].pubkey);
    }
    if ix.accounts.len() <= 255 {
        assert forall|j: int| 0 <= j < ix.accounts.len() implies meta_ok(
            km,
            #[trigger] ix.accounts[j].pubkey,
        ) by {
            assert(entry_index(km, ix.accounts[j].pubkey) == j + 1);
        }
        lemma_metas_error_none(km, ix.accounts);
    } else {
        assert forall|j: int| 0 <= j < 255 implies meta_ok(km, #[trigger] ix.accounts[j].pubkey) by {
            assert(entry_index(km, ix.accounts[j].pubkey) == j + 1);
        }
        assert(entry_index(km, ix.accounts[255].pubkey) == 256);
        assert(!meta_ok(km, ix.accounts[255].pubkey));
        lemma_metas_error_at(km, ix.accounts, 255);
        assert(meta_err(km, ix.accounts[255].pubkey) == MolluskError::AccountIndexOverflow(256));
    }
}

/// What `AccountMap::insert` does when it overwrites the entry at `p`.
proof fn lemma_insert_updated(
    orig: Seq<(Key, AccountView)>,
    now: Seq<(Key, AccountView)>,
    key: Key,
    account: AccountView,
    p: int,
)
    requires
        0 <= p < orig.len(),
        orig[p].0 == key,
        forall|j: int| 0 <= j < p ==> orig[j].0 != key,
        now == orig.update(p, (key, account)),
    ensures
        spec_contains_key(now, key),
        spec_lookup(now, key) == account,
        forall|k: Key|
            k != key ==> #[trigger] spec_contains_key(now, k) == spec_contains_key(orig, k),
        forall|k: Key|
            k != key && spec_contains_key(orig, k) ==> #[trigger] spec_lookup(now, k)
                == spec_lookup(orig, k),
{
    assert(now[p].0 == key);
    assert(spec_contains_key(now, key));
    crate::types::lemma_first_index_found(now, key, p);
    assert forall|k: Key|
        k != key implies #[trigger] spec_contains_key(now, k) == spec_contains_key(orig, k) by {
        if spec_contains_key(orig, k) {
            let j = choose|j: int| 0 <= j < orig.len() && orig[j].0 == k;
            assert(now[j].0 == k);
        }
        if spec_contains_key(now, k) {
            let j = choose|j: int| 0 <= j < now.len() && now[j].0 == k;
            assert(orig[j].0 == k);
        }
    }
    assert forall|k: Key|
        k != key && spec_contains_key(orig, k) implies #[trigger] spec_lookup(now, k)
        == spec_lookup(orig, k) by {
        crate::types::lemma_first_index(orig, k);
        let j = crate::types::spec_first_index(orig, k);
        assert(now[j] == orig[j]);
        assert forall|l: int| 0 <= l < j implies now[l].0 != k by {
            assert(orig[l].0 != k);
            if l == p {
                assert(now[l].0 == key);
            } else {
                assert(now[l] == orig[l]);
            }
        }
        crate::types::lemma_first_index_found(now, k, j);
    }
}

/// What `AccountMap::insert` does when it appends a new entry.
proof fn lemma_insert_pushed(
    orig: Seq<(Key, AccountView)>,
    now: Seq<(Key, AccountView)>,
    key: Key,
    account: AccountView,
)
    requires
        forall|j: int| 0 <= j < orig.len() ==> orig[j].0 != key,
        now == orig.push((key, account)),
    ensures
        spec_contains_key(now, key),
        spec_lookup(now, key) == account,
        forall|k: Key|
            k != key ==> #[trigger] spec_contains_key(now, k) == spec_contains_key(orig, k),
        forall|k: Key|
            k != key && spec_contains_key(orig, k) ==> #[trigger] spec_lookup(now, k)
                == spec_lookup(orig, k),
{
    assert(now[orig.len() as int].0 == key);
    assert(spec_contains_key(now, key));
    crate::types::lemma_first_index_found(now, key, orig.len() as int);
    assert forall|k: Key|
        k != key implies #[trigger] spec_contains_key(now, k) == spec_contains_key(orig, k) by {
        if spec_contains_key(orig, k) {
            let j = choose|j: int| 0 <= j < orig.len() && orig[j].0 == k;
            assert(now[j].0 == k);
        }
        if spec_contains_key(now, k) {
            let j = choose|j: int| 0 <= j < now.len() && now[j].0 == k;
            assert(j < orig.len());
            assert(orig[j].0 == k);
        }
    }
    assert forall|k: Key|
        k != key && spec_contains_key(orig, k) implies #[trigger] spec_lookup(now, k)
        == spec_lookup(orig, k) by {
        crate::types::lemma_first_index(orig, k);
        let j = crate::types::spec_first_index(orig, k);
        assert(now[j] == orig[j]);
        assert forall|l: int| 0 <= l < j implies now[l].0 != k by {
            assert(orig[l].0 != k);
        }
        crate::types::lemma_first_index_found(now, k, j);
    }
}

} // verus!
