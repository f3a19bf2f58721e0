//! Stateful testing: an account store capability and a context that loads
//! unseen keys from it before each call and writes resulting accounts back
//! after a successful call only.

use vstd::prelude::*;

use crate::accounts::FallbackSource;
use crate::accounts::MolluskError;
use crate::accounts::StubPolicy;
use crate::check::checks_failures;
use crate::check::Check;
use crate::check::CheckFailure;
use crate::config::CheckContext;
use crate::harness::Executor;
use crate::harness::Mollusk;
use crate::types::accounts_view;
use crate::types::clone_accounts;
use crate::types::empty_account;
use crate::types::spec_contains_key;
use crate::types::spec_lookup;
use crate::types::Account;
use crate::types::AccountView;
use crate::types::Instruction;
use crate::types::keys_of;
use crate::types::InstructionResult;
use crate::types::InstructionResultView;
use crate::types::InstructionView;
use crate::types::Key;

verus! {

/// A store of accounts, driven by one logical caller at a time. The
/// context reads unseen keys from it and writes results back through it.
pub trait AccountStore {
    /// The accounts this store currently holds.
    spec fn contents(&self) -> Map<Key, AccountView>;

    /// The account handed out for a key the store does not hold.
    spec fn default_account_spec(&self, key: Key) -> AccountView;

    /// The default account to be used when an account is not found.
    fn default_account(&self, key: &Key) -> (r: Account)
        ensures
            r@ == self.default_account_spec(*key),
    ;

    /// Get an account at the given key.
    fn get_account(&self, key: &Key) -> (r: Option<Account>)
        ensures
            match r {
                Some(a) => self.contents().contains_key(*key) && a@ == self.contents()[*key],
                None => !self.contents().contains_key(*key),
            },
    ;

    /// Store an account at the given key.
    fn store_account(&mut self, key: Key, account: Account)
        ensures
            final(self).contents() == old(self).contents().insert(key, account@),
            forall|k: Key| #[trigger]
                final(self).default_account_spec(k) == old(self).default_account_spec(k),
    ;
}

/// A simple in-memory account store whose default account is the
/// canonical empty account.
#[derive(Clone, Debug)]
pub struct InMemoryAccountStore {
    entries: crate::accounts::AccountMap,
}

impl InMemoryAccountStore {
    /// An empty store.
    pub fn new() -> (r: InMemoryAccountStore)
        ensures
            r.contents() =~= Map::<Key, AccountView>::empty(),
    {
        let r = InMemoryAccountStore { entries: crate::accounts::AccountMap::new() };
        proof {
            assert forall|k: Key| !(#[trigger] r.contents().contains_key(k)) by {
                if spec_contains_key(r.entries@, k) {
                    let j = choose|j: int| 0 <= j < r.entries@.len() && r.entries@[j].0 == k;
                    assert(false);
                }
            }
        }
        r
    }
}

impl AccountStore for InMemoryAccountStore {
    closed spec fn contents(&self) -> Map<Key, AccountView> {
        Map::new(
            |k: Key| spec_contains_key(self.entries@, k),
            |k: Key| spec_lookup(self.entries@, k),
        )
    }

    closed spec fn default_account_spec(&self, key: Key) -> AccountView {
        empty_account()
    }

    fn default_account(&self, key: &Key) -> (r: Account) {
        Account::default()
    }

    fn get_account(&self, key: &Key) -> (r: Option<Account>) {
        match self.entries.get(key) {
            Some(a) => Some(a.duplicate()),
            None => None,
        }
    }

    fn store_account(&mut self, key: Key, account: Account) {
        self.entries.insert(key, account);
        proof {
            assert(self.contents() =~= old(self).contents().insert(key, account@));
        }
    }
}

/// The meta keys referenced by a chain of instructions, in reference
/// order. Program-id keys are not among them: the store never backs the
/// program account itself, which the resolver's later tiers synthesize.
pub open spec fn meta_keys(instrs: Seq<InstructionView>) -> Seq<Key>
    decreases instrs.len(),
{
    if instrs.len() == 0 {
        Seq::empty()
    } else {
        meta_keys(instrs.drop_last()) + instrs.last().accounts.map_values(
            |m: crate::types::AccountMeta| m.pubkey,
        )
    }
}

/// The first-seen-order deduplication of a key sequence.
pub open spec fn dedup_keys(s: Seq<Key>) -> Seq<Key>
    decreases s.len(),
{
    if s.len() == 0 {
        Seq::empty()
    } else {
        let d = dedup_keys(s.drop_last());
        if d.contains(s.last()) {
            d
        } else {
            d.push(s.last())
        }
    }
}

/// The keys of `s` that are not the excluded key, in order. The
/// instructions-introspection pseudo-account's key is excluded from store
/// loading: the stub tier synthesizes it instead.
pub open spec fn retained_keys(s: Seq<Key>, excluded: Option<Key>) -> Seq<Key>
    decreases s.len(),
{
    if s.len() == 0 {
        Seq::empty()
    } else {
        let d = retained_keys(s.drop_last(), excluded);
        if excluded == Some(s.last()) {
            d
        } else {
            d.push(s.last())
        }
    }
}

/// The account the store supplies for `k`: its stored account, or its
/// default for an unseen key.
pub open spec fn store_or_default<AS: AccountStore>(store: &AS, k: Key) -> AccountView {
    if store.contents().contains_key(k) {
        store.contents()[k]
    } else {
        store.default_account_spec(k)
    }
}

/// The account list a context loads for a chain of instructions: the
/// hydration accounts (when hydration is on), followed by every distinct
/// meta key in first-seen order, each backed by the store or its default.
pub open spec fn loaded_accounts_spec<AS: AccountStore>(
    store: &AS,
    hydration: Seq<(Key, AccountView)>,
    hydrate: bool,
    instrs: Seq<InstructionView>,
    excluded: Option<Key>,
) -> Seq<(Key, AccountView)> {
    (if hydrate {
        hydration
    } else {
        Seq::empty()
    }) + dedup_keys(retained_keys(meta_keys(instrs), excluded)).map_values(
        |k: Key| (k, store_or_default(store, k)),
    )
}

/// Writing a result back: every resulting account is stored in order, a
/// later entry for the same key overwriting an earlier one.
pub open spec fn store_all_spec(
    m: Map<Key, AccountView>,
    accs: Seq<(Key, AccountView)>,
) -> Map<Key, AccountView>
    decreases accs.len(),
{
    if accs.len() == 0 {
        m
    } else {
        store_all_spec(m, accs.drop_last()).insert(accs.last().0, accs.last().1)
    }
}

/// A stateful wrapper around the orchestrator: it loads the accounts each
/// call needs from an account store, and persists resulting accounts back
/// into the store after successful calls only.
pub struct MolluskContext<AS: AccountStore, E: Executor, F: FallbackSource, S: StubPolicy> {
    pub mollusk: Mollusk<E, F, S>,
    pub account_store: AS,
    /// Load the hydration accounts ahead of every call.
    pub hydrate_store: bool,
    /// Accounts the caller wants present regardless of the store: program
    /// and sysvar accounts, supplied explicitly by the caller.
    pub hydration_accounts: Vec<(Key, Account)>,
    /// The key of the instructions-introspection pseudo-account, if the
    /// caller's stub policy synthesizes one: meta references to it are
    /// never loaded from the store.
    pub instructions_sysvar_id: Option<Key>,
}

impl<E: Executor, F: FallbackSource, S: StubPolicy> Mollusk<E, F, S> {
    /// Convert this orchestrator into a stateful context over the given
    /// account store, with the given hydration accounts. Each hydration
    /// account is seeded into the store exactly where the store does not
    /// hold its key yet — an entry already in the store is never
    /// overwritten; for a key the hydration list repeats, its first entry
    /// wins.
    pub fn with_context<AS: AccountStore>(
        self,
        account_store: AS,
        hydration_accounts: Vec<(Key, Account)>,
    ) -> (r: MolluskContext<AS, E, F, S>)
        ensures
            r.mollusk == self,
            r.hydrate_store,
            r.instructions_sysvar_id is None,
            accounts_view(r.hydration_accounts@) == accounts_view(hydration_accounts@),
            forall|k: Key| #[trigger]
                r.account_store.contents().contains_key(k)
                    <==> account_store.contents().contains_key(k) || spec_contains_key(
                    accounts_view(hydration_accounts@),
                    k,
                ),
            forall|k: Key|
                account_store.contents().contains_key(k) ==> #[trigger] r.account_store.contents()[k]
                    == account_store.contents()[k],
            forall|k: Key|
                !account_store.contents().contains_key(k) && spec_contains_key(
                    accounts_view(hydration_accounts@),
                    k,
                ) ==> #[trigger] r.account_store.contents()[k] == spec_lookup(
                    accounts_view(hydration_accounts@),
                    k,
                ),
            forall|k: Key| #[trigger]
                r.account_store.default_account_spec(k) == account_store.default_account_spec(k),
    {
        let ghost store0 = account_store;
        let ghost orig = account_store.contents();
        let ghost hv = accounts_view(hydration_accounts@);
        let mut store = account_store;
        let n = hydration_accounts.len();
        let mut i: usize = 0;
        while i < n
            invariant
                i <= n,
                n == hydration_accounts.len(),
                hv == accounts_view(hydration_accounts@),
                hv.len() == n,
                orig == store0.contents(),
                forall|k: Key| #[trigger]
                    store.contents().contains_key(k) <==> orig.contains_key(k)
                        || spec_contains_key(hv.take(i as int), k),
                forall|k: Key|
                    orig.contains_key(k) ==> #[trigger] store.contents()[k] == orig[k],
                forall|k: Key|
                    !orig.contains_key(k) && spec_contains_key(hv.take(i as int), k)
                        ==> #[trigger] store.contents()[k] == spec_lookup(hv, k),
                forall|k: Key| #[trigger]
                    store.default_account_spec(k) == store0.default_account_spec(k),
            decreases n - i,
        {
            let key = hydration_accounts[i].0;
            proof {
                assert(hv[i as int].0 == key);
                assert(hv[i as int].1 == hydration_accounts@[i as int].1@);
                assert forall|k: Key|
                    spec_contains_key(hv.take(i + 1 as int), k) <==> (spec_contains_key(
                        hv.take(i as int),
                        k,
                    ) || k == key) by {
                    let t1 = hv.take(i + 1 as int);
                    let t0 = hv.take(i as int);
                    if spec_contains_key(t1, k) {
                        let j = choose|j: int| 0 <= j < t1.len() && t1[j].0 == k;
                        if j < i {
                            assert(t0[j].0 == k);
                        }
                    }
                    if spec_contains_key(t0, k) {
                        let j = choose|j: int| 0 <= j < t0.len() && t0[j].0 == k;
                        assert(t1[j].0 == k);
                    }
                    if k == key {
                        assert(t1[i as int].0 == k);
                    }
                }
            }
            match store.get_account(&key) {
                Some(_) => {
                },
                None => {
                    let account = hydration_accounts[i].1.duplicate();
                    proof {
                        assert(!orig.contains_key(key));
                        assert(!spec_contains_key(hv.take(i as int), key));
                        assert forall|j: int| 0 <= j < i implies hv[j].0 != key by {
                            if hv[j].0 == key {
                                assert(hv.take(i as int)[j].0 == key);
                            }
                        }
                        crate::types::lemma_first_index_found(hv, key, i as int);
                    }
                    store.store_account(key, account);
                },
            }
            i += 1;
        }
        proof {
            assert(hv.take(n as int) =~= hv);
        }
        MolluskContext {
            mollusk: self,
            account_store: store,
            hydrate_store: true,
            hydration_accounts,
            instructions_sysvar_id: None,
        }
    }
}

impl<AS: AccountStore, E: Executor, F: FallbackSource, S: StubPolicy> MolluskContext<AS, E, F, S> {
    /// Load the accounts a chain of instructions needs: the hydration
    /// accounts when hydration is on, then each distinct meta key in
    /// first-seen order — skipping the instructions-sysvar key, whose
    /// pseudo-account the stub tier synthesizes — from the store where it
    /// holds the key and from the store's default otherwise.
    pub fn load_accounts_for_instructions(&self, instructions: &Vec<Instruction>) -> (r: Vec<
        (Key, Account),
    >)
        ensures
            accounts_view(r@) == loaded_accounts_spec(
                &self.account_store,
                accounts_view(self.hydration_accounts@),
                self.hydrate_store,
                instructions@.map_values(|ix: Instruction| ix@),
                self.instructions_sysvar_id,
            ),
    {
        let ghost views = instructions@.map_values(|ix: Instruction| ix@);
        let ghost base: Seq<(Key, AccountView)> = if self.hydrate_store {
            accounts_view(self.hydration_accounts@)
        } else {
            Seq::empty()
        };
        let mut accounts: Vec<(Key, Account)> = if self.hydrate_store {
            clone_accounts(&self.hydration_accounts)
        } else {
            Vec::new()
        };
        let mut seen: Vec<Key> = Vec::new();
        let ghost mut stream: Seq<Key> = Seq::empty();
        let ghost mut processed: Seq<Key> = Seq::empty();
        proof {
            assert(retained_keys(stream, self.instructions_sysvar_id) =~= Seq::<Key>::empty());
            assert(dedup_keys(processed) =~= Seq::<Key>::empty());
            assert(accounts_view(accounts@) =~= base + dedup_keys(processed).map_values(
                |k: Key| (k, store_or_default(&self.account_store, k)),
            ));
            assert(meta_keys(views.take(0)) =~= Seq::<Key>::empty());
        }
        let n = instructions.len();
        let mut i: usize = 0;
        while i < n
            invariant
                i <= n,
                n == instructions.len(),
                views == instructions@.map_values(|ix: Instruction| ix@),
                views.len() == n,
                base == (if self.hydrate_store {
                    accounts_view(self.hydration_accounts@)
                } else {
                    Seq::<(Key, AccountView)>::empty()
                }),
                stream == meta_keys(views.take(i as int)),
                processed == retained_keys(stream, self.instructions_sysvar_id),
                seen@ == dedup_keys(processed),
                accounts_view(accounts@) == base + dedup_keys(processed).map_values(
                    |k: Key| (k, store_or_default(&self.account_store, k)),
                ),
            decreases n - i,
        {
            let metas = &instructions[i].accounts;
            let m = metas.len();
            let mut j: usize = 0;
            while j < m
                invariant
                    j <= m,
                    i < n,
                    n == instructions.len(),
                    views == instructions@.map_values(|ix: Instruction| ix@),
                    views.len() == n,
                    metas == &instructions[i as int].accounts,
                    m == metas.len(),
                    base == (if self.hydrate_store {
                        accounts_view(self.hydration_accounts@)
                    } else {
                        Seq::<(Key, AccountView)>::empty()
                    }),
                    stream == meta_keys(views.take(i as int)) + views[i as int].accounts.take(
                        j as int,
                    ).map_values(|mt: crate::types::AccountMeta| mt.pubkey),
                    processed == retained_keys(stream, self.instructions_sysvar_id),
                    seen@ == dedup_keys(processed),
                    accounts_view(accounts@) == base + dedup_keys(processed).map_values(
                        |k: Key| (k, store_or_default(&self.account_store, k)),
                    ),
                decreases m - j,
            {
                let key = metas[j].pubkey;
                proof {
                    assert(views[i as int].accounts.take(j + 1 as int) =~= views[
                        i as int
                    ].accounts.take(j as int).push(views[i as int].accounts[j as int]));
                    assert(views[i as int].accounts.take(j + 1 as int).map_values(
                        |mt: crate::types::AccountMeta| mt.pubkey,
                    ) =~= views[i as int].accounts.take(j as int).map_values(
                        |mt: crate::types::AccountMeta| mt.pubkey,
                    ).push(key));
                    assert((meta_keys(views.take(i as int)) + views[i as int].accounts.take(
                        j + 1 as int,
                    ).map_values(|mt: crate::types::AccountMeta| mt.pubkey)) =~= stream.push(
                        key,
                    ));
                    assert(stream.push(key).drop_last() =~= stream);
                }
                let skip = match &self.instructions_sysvar_id {
                    Some(ex) => *ex == key,
                    None => false,
                };
                if skip {
                    proof {
                        assert(retained_keys(stream.push(key), self.instructions_sysvar_id)
                            =~= processed);
                        stream = stream.push(key);
                    }
                    j += 1;
                    continue ;
                }
                proof {
                    assert(retained_keys(stream.push(key), self.instructions_sysvar_id)
                        =~= processed.push(key));
                    assert(processed.push(key).drop_last() =~= processed);
                }
                let is_new = !contains_key_vec(&seen, &key);
                if is_new {
                    let account: Account = match self.account_store.get_account(&key) {
                        Some(a) => a,
                        None => self.account_store.default_account(&key),
                    };
                    let ghost av = account@;
                    let ghost prev_view = accounts_view(accounts@);
                    proof {
                        assert(av == store_or_default(&self.account_store, key));
                    }
                    seen.push(key);
                    accounts.push((key, account));
                    proof {
                        assert(dedup_keys(processed.push(key)) =~= dedup_keys(processed).push(
                            key,
                        ));
                        assert(accounts_view(accounts@) =~= prev_view.push((key, av)));
                        assert(prev_view.push((key, av)) =~= base + dedup_keys(
                            processed.push(key),
                        ).map_values(|k: Key| (k, store_or_default(&self.account_store, k))));
                    }
                } else {
                    proof {
                        assert(dedup_keys(processed.push(key)) =~= dedup_keys(processed));
                    }
                }
                proof {
                    processed = processed.push(key);
                    stream = stream.push(key);
                }
                j += 1;
            }
            proof {
                lemma_meta_keys_snoc(views, i as int);
                assert(views[i as int].accounts.take(m as int) =~= views[i as int].accounts);
                assert(stream =~= meta_keys(views.take(i + 1 as int)));
            }
            i += 1;
        }
        proof {
            assert(views.take(n as int) =~= views);
        }
        accounts
    }

    /// Persist a result: after a successful execution every resulting
    /// account is written back to the store, in order; a failed execution
    /// changes nothing.
    pub fn consume_mollusk_result(&mut self, result: &InstructionResult)
        ensures
            result@.program_result is Success ==> final(self).account_store.contents()
                == store_all_spec(
                old(self).account_store.contents(),
                result@.resulting_accounts,
            ),
            !(result@.program_result is Success) ==> final(self).account_store.contents() == old(
                self,
            ).account_store.contents(),
            final(self).mollusk == old(self).mollusk,
            final(self).hydrate_store == old(self).hydrate_store,
            final(self).hydration_accounts == old(self).hydration_accounts,
            final(self).instructions_sysvar_id == old(self).instructions_sysvar_id,
            forall|k: Key| #[trigger]
                final(self).account_store.default_account_spec(k) == old(
                    self,
                ).account_store.default_account_spec(k),
    {
        if result.program_result.is_ok() {
            let ghost accs = result@.resulting_accounts;
            let ghost orig = self.account_store.contents();
            let n = result.resulting_accounts.len();
            let mut i: usize = 0;
            while i < n
                invariant
                    i <= n,
                    n == result.resulting_accounts.len(),
                    accs == result@.resulting_accounts,
                    accs.len() == n,
                    self.account_store.contents() == store_all_spec(orig, accs.take(i as int)),
                    self.mollusk == old(self).mollusk,
                    self.hydrate_store == old(self).hydrate_store,
                    self.hydration_accounts == old(self).hydration_accounts,
                    self.instructions_sysvar_id == old(self).instructions_sysvar_id,
                    forall|k: Key| #[trigger]
                        self.account_store.default_account_spec(k) == old(
                            self,
                        ).account_store.default_account_spec(k),
                decreases n - i,
            {
                proof {
                    assert(accs.take(i + 1 as int).drop_last() =~= accs.take(i as int));
                    assert(accs.take(i + 1 as int).last() == accs[i as int]);
                }
                let key = result.resulting_accounts[i].0;
                let account = result.resulting_accounts[i].1.duplicate();
                self.account_store.store_account(key, account);
                i += 1;
            }
            proof {
                assert(accs.take(n as int) =~= accs);
            }
        }
    }

    /// Process one instruction over accounts loaded from the store, and
    /// persist its resulting accounts when it succeeds: success writes
    /// every resulting account back in order; a failed execution changes
    /// the store not at all. Fails exactly when the instruction does not
    /// compile against the loaded account list, with the exact
    /// compilation error, leaving the store unchanged.
    pub fn process_instruction(&mut self, instruction: &Instruction) -> (r: Result<
        InstructionResult,
        MolluskError,
    >)
        ensures
            ({
                let loaded = loaded_accounts_spec(
                    &old(self).account_store,
                    accounts_view(old(self).hydration_accounts@),
                    old(self).hydrate_store,
                    seq![instruction@],
                    old(self).instructions_sysvar_id,
                );
                let fb = &old(self).mollusk.fallback;
                let st = &old(self).mollusk.stubs;
                match r {
                    Ok(res) => crate::harness::process_ok_spec(fb, st, instruction@, loaded, res@)
                        && (res@.program_result is Success
                        ==> final(self).account_store.contents() == store_all_spec(
                        old(self).account_store.contents(),
                        res@.resulting_accounts,
                    )) && (!(res@.program_result is Success)
                        ==> final(self).account_store.contents() == old(
                        self,
                    ).account_store.contents()),
                    Err(e) => crate::harness::process_err_spec(fb, st, instruction@, loaded, e)
                        && final(self).account_store.contents() == old(
                        self,
                    ).account_store.contents(),
                }
            }),
            final(self).mollusk.config == old(self).mollusk.config,
            final(self).mollusk.fallback == old(self).mollusk.fallback,
            final(self).mollusk.stubs == old(self).mollusk.stubs,
            final(self).hydrate_store == old(self).hydrate_store,
            final(self).hydration_accounts == old(self).hydration_accounts,
            final(self).instructions_sysvar_id == old(self).instructions_sysvar_id,
    {
        let mut instructions: Vec<Instruction> = Vec::new();
        instructions.push(instruction.duplicate());
        proof {
            assert(instructions@.map_values(|ix: Instruction| ix@) =~= seq![instruction@]);
        }
        let accounts = self.load_accounts_for_instructions(&instructions);
        let result = match self.mollusk.process_instruction(instruction, &accounts) {
            Ok(res) => res,
            Err(e) => {
                return Err(e);
            },
        };
        self.consume_mollusk_result(&result);
        Ok(result)
    }

    /// Process a chain of instructions over accounts loaded from the
    /// store, and persist the cumulative resulting accounts when the
    /// chain's final result is success; otherwise the store is unchanged.
    /// The chain's semantics are those of the orchestrator's chain, over
    /// the loaded account list.
    pub fn process_instruction_chain(&mut self, instructions: &Vec<Instruction>) -> (r: Result<
        InstructionResult,
        MolluskError,
    >)
        ensures
            ({
                let views = instructions@.map_values(|ix: Instruction| ix@);
                let loaded = loaded_accounts_spec(
                    &old(self).account_store,
                    accounts_view(old(self).hydration_accounts@),
                    old(self).hydrate_store,
                    views,
                    old(self).instructions_sysvar_id,
                );
                let fb = &old(self).mollusk.fallback;
                let st = &old(self).mollusk.stubs;
                match r {
                    Ok(res) => keys_of(res@.resulting_accounts) == keys_of(loaded) && (views.len()
                        == 0 ==> res@ == crate::harness::initial_chain_result(loaded))
                        && crate::harness::chain_ok_spec(fb, st, views, loaded, res@) && (
                    res@.program_result is Success ==> final(self).account_store.contents()
                        == store_all_spec(
                        old(self).account_store.contents(),
                        res@.resulting_accounts,
                    )) && (!(res@.program_result is Success)
                        ==> final(self).account_store.contents() == old(
                        self,
                    ).account_store.contents()),
                    Err(e) => views.len() > 0 && (exists|k: int|
                        0 <= k < views.len() && #[trigger] crate::harness::process_err_spec(
                            fb,
                            st,
                            views[k],
                            loaded,
                            e,
                        )) && final(self).account_store.contents() == old(
                        self,
                    ).account_store.contents(),
                }
            }),
            ({
                let views = instructions@.map_values(|ix: Instruction| ix@);
                let loaded = loaded_accounts_spec(
                    &old(self).account_store,
                    accounts_view(old(self).hydration_accounts@),
                    old(self).hydrate_store,
                    views,
                    old(self).instructions_sysvar_id,
                );
                (forall|k: int|
                    0 <= k < views.len() ==> crate::harness::step_compiles(
                        &old(self).mollusk.fallback,
                        &old(self).mollusk.stubs,
                        #[trigger] views[k],
                        loaded,
                    )) ==> r is Ok
            }),
            final(self).mollusk.config == old(self).mollusk.config,
            final(self).mollusk.fallback == old(self).mollusk.fallback,
            final(self).mollusk.stubs == old(self).mollusk.stubs,
            final(self).hydrate_store == old(self).hydrate_store,
            final(self).hydration_accounts == old(self).hydration_accounts,
            final(self).instructions_sysvar_id == old(self).instructions_sysvar_id,
    {
        let accounts = self.load_accounts_for_instructions(instructions);
        let result = match self.mollusk.process_instruction_chain(instructions, &accounts) {
            Ok(res) => res,
            Err(e) => {
                return Err(e);
            },
        };
        self.consume_mollusk_result(&result);
        Ok(result)
    }

    /// Process one instruction over accounts loaded from the store,
    /// evaluate the given checks against the result under the validation
    /// policy, and persist its resulting accounts when execution
    /// succeeded and no check was fatal. A fatal check (fail-fast policy)
    /// surfaces the first violation and leaves the store unchanged, as
    /// does a compilation failure.
    pub fn process_and_validate_instruction<C: CheckContext>(
        &mut self,
        instruction: &Instruction,
        checks: &Vec<Check>,
        context: &C,
    ) -> (r: Result<(InstructionResult, Vec<CheckFailure>), crate::harness::HarnessError>)
        ensures
            ({
                let loaded = loaded_accounts_spec(
                    &old(self).account_store,
                    accounts_view(old(self).hydration_accounts@),
                    old(self).hydrate_store,
                    seq![instruction@],
                    old(self).instructions_sysvar_id,
                );
                let fb = &old(self).mollusk.fallback;
                let st = &old(self).mollusk.stubs;
                let cfg = old(self).mollusk.config;
                match r {
                    Ok(p) => crate::harness::process_ok_spec(fb, st, instruction@, loaded, p.0@)
                        && p.1@ == checks_failures(context, p.0@, checks@) && (cfg.panic_on_failure
                        ==> p.1@.len() == 0) && (p.0@.program_result is Success
                        ==> final(self).account_store.contents() == store_all_spec(
                        old(self).account_store.contents(),
                        p.0@.resulting_accounts,
                    )) && (!(p.0@.program_result is Success)
                        ==> final(self).account_store.contents() == old(
                        self,
                    ).account_store.contents()),
                    Err(crate::harness::HarnessError::Compile(e)) => crate::harness::process_err_spec(
                        fb,
                        st,
                        instruction@,
                        loaded,
                        e,
                    ) && final(self).account_store.contents() == old(self).account_store.contents(),
                    Err(crate::harness::HarnessError::CheckFailed(f)) => cfg.panic_on_failure && (
                    exists|res: InstructionResultView|
                        #[trigger] crate::harness::process_ok_spec(fb, st, instruction@, loaded, res)
                            && checks_failures(context, res, checks@).len() > 0 && f
                            == checks_failures(context, res, checks@)[0]) && final(self).account_store.contents() == old(self).account_store.contents(),
                    Err(crate::harness::HarnessError::CompareFailed(f)) => false,
                }
            }),
            final(self).mollusk.config == old(self).mollusk.config,
            final(self).mollusk.fallback == old(self).mollusk.fallback,
            final(self).mollusk.stubs == old(self).mollusk.stubs,
            final(self).hydrate_store == old(self).hydrate_store,
            final(self).hydration_accounts == old(self).hydration_accounts,
            final(self).instructions_sysvar_id == old(self).instructions_sysvar_id,
    {
        let mut instructions: Vec<Instruction> = Vec::new();
        instructions.push(instruction.duplicate());
        proof {
            assert(instructions@.map_values(|ix: Instruction| ix@) =~= seq![instruction@]);
        }
        let accounts = self.load_accounts_for_instructions(&instructions);
        let p = match self.mollusk.process_and_validate_instruction(
            instruction,
            &accounts,
            checks,
            context,
        ) {
            Ok(p) => p,
            Err(e) => {
                return Err(e);
            },
        };
        self.consume_mollusk_result(&p.0);
        Ok(p)
    }

    /// Process a chain over accounts loaded from the store, evaluating
    /// each step's checks against that step's own result under the
    /// validation policy, and persist the cumulative resulting accounts
    /// when the chain's final result is success and no check was fatal.
    /// A fatal check or a compilation failure leaves the store unchanged.
    pub fn process_and_validate_instruction_chain<C: CheckContext>(
        &mut self,
        instructions: &Vec<(Instruction, Vec<Check>)>,
        context: &C,
    ) -> (r: Result<(InstructionResult, Vec<CheckFailure>), crate::harness::HarnessError>)
        ensures
            ({
                let views = instructions@.map_values(|q: (Instruction, Vec<Check>)| q.0@);
                let checklists = instructions@.map_values(|q: (Instruction, Vec<Check>)| q.1);
                let loaded = loaded_accounts_spec(
                    &old(self).account_store,
                    accounts_view(old(self).hydration_accounts@),
                    old(self).hydrate_store,
                    views,
                    old(self).instructions_sysvar_id,
                );
                let fb = &old(self).mollusk.fallback;
                let st = &old(self).mollusk.stubs;
                let cfg = old(self).mollusk.config;
                match r {
                    Ok(p) => keys_of(p.0@.resulting_accounts) == keys_of(loaded) && (views.len()
                        == 0 ==> p.0@ == crate::harness::initial_chain_result(loaded) && p.1@
                        == Seq::<CheckFailure>::empty()) && (exists|
                        steps: Seq<InstructionResultView>,
                    |
                        p.0@ == #[trigger] crate::harness::chain_fold(
                            crate::harness::initial_chain_result(loaded),
                            steps,
                        ) && crate::harness::chain_steps_spec(fb, st, views, loaded, steps)
                            && p.1@ == crate::harness::chain_checks(context, steps, checklists))
                        && (cfg.panic_on_failure ==> p.1@.len() == 0) && (p.0@.program_result
                        is Success ==> final(self).account_store.contents() == store_all_spec(
                        old(self).account_store.contents(),
                        p.0@.resulting_accounts,
                    )) && (!(p.0@.program_result is Success)
                        ==> final(self).account_store.contents() == old(
                        self,
                    ).account_store.contents()),
                    Err(crate::harness::HarnessError::Compile(e)) => views.len() > 0 && (exists|
                        k: int,
                    |
                        0 <= k < views.len() && #[trigger] crate::harness::process_err_spec(
                            fb,
                            st,
                            views[k],
                            loaded,
                            e,
                        )) && final(self).account_store.contents() == old(
                        self,
                    ).account_store.contents(),
                    Err(crate::harness::HarnessError::CheckFailed(f)) => cfg.panic_on_failure && (
                    exists|steps: Seq<InstructionResultView>|
                        #[trigger] crate::harness::chain_steps_partial(fb, st, views, loaded, steps)
                            && crate::harness::chain_checks(context, steps, checklists).len() > 0
                            && f == crate::harness::chain_checks(context, steps, checklists)[0])
                        && final(self).account_store.contents() == old(
                        self,
                    ).account_store.contents(),
                    Err(crate::harness::HarnessError::CompareFailed(f)) => false,
                }
            }),
            final(self).mollusk.config == old(self).mollusk.config,
            final(self).mollusk.fallback == old(self).mollusk.fallback,
            final(self).mollusk.stubs == old(self).mollusk.stubs,
            final(self).hydrate_store == old(self).hydrate_store,
            final(self).hydration_accounts == old(self).hydration_accounts,
            final(self).instructions_sysvar_id == old(self).instructions_sysvar_id,
    {
        let mut bare: Vec<Instruction> = Vec::new();
        let n = instructions.len();
        let mut i: usize = 0;
        while i < n
            invariant
                i <= n,
                n == instructions.len(),
                bare@.len() == i,
                forall|j: int| 0 <= j < i ==> (#[trigger] bare@[j])@ == instructions@[j].0@,
            decreases n - i,
        {
            bare.push(instructions[i].0.duplicate());
            i += 1;
        }
        proof {
            assert(bare@.map_values(|ix: Instruction| ix@) =~= instructions@.map_values(
                |q: (Instruction, Vec<Check>)| q.0@,
            ));
        }
        let accounts = self.load_accounts_for_instructions(&bare);
        let p = match self.mollusk.process_and_validate_instruction_chain(
            instructions,
            &accounts,
            context,
        ) {
            Ok(p) => p,
            Err(e) => {
                return Err(e);
            },
        };
        self.consume_mollusk_result(&p.0);
        Ok(p)
    }
}

/// Whether a key vector holds `k`.
fn contains_key_vec(v: &Vec<Key>, k: &Key) -> (r: bool)
    ensures
        r == v@.contains(*k),
{
    let n = v.len();
    let mut i: usize = 0;
    while i < n
        invariant
            i <= n,
            n == v.len(),
            forall|j: int| 0 <= j < i ==> v@[j] != *k,
        decreases n - i,
    {
        if v[i] == *k {
            return true;
        }
        i += 1;
    }
    proof {
        if v@.contains(*k) {
            let j = choose|j: int| 0 <= j < v@.len() && v@[j] == *k;
            assert(false);
        }
    }
    false
}

/// The meta keys of the first `i + 1` instructions are those of the first
/// `i` followed by instruction `i`'s.
pub proof fn lemma_meta_keys_snoc(instrs: Seq<InstructionView>, i: int)
    requires
        0 <= i < instrs.len(),
    ensures
        meta_keys(instrs.take(i + 1)) == meta_keys(instrs.take(i)) + instrs[i].accounts.map_values(
            |m: crate::types::AccountMeta| m.pubkey,
        ),
{
    let t1 = instrs.take(i + 1);
    assert(t1.drop_last() =~= instrs.take(i));
    assert(t1.last() == instrs[i]);
}

} // verus!
