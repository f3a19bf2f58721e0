//! Core data model: account keys, account state, instructions, and the
//! result of one program execution.

use vstd::prelude::*;

verus! {

/// An account address: an opaque 256-bit identifier. Equality is exact
/// equality of all four words.
#[derive(Clone, Copy, PartialEq, Eq, Structural, Debug, Hash)]
pub struct Key(pub u64, pub u64, pub u64, pub u64);

impl Default for Key {
    /// The all-zero key, which also owns the canonical empty account.
    fn default() -> (r: Key)
        ensures
            r == Key(0, 0, 0, 0),
    {
        Key(0, 0, 0, 0)
    }
}

/// The signer/writable access flags requested for a key by one reference.
#[derive(Clone, Copy, PartialEq, Eq, Structural, Debug)]
pub struct AccountMeta {
    pub pubkey: Key,
    pub is_signer: bool,
    pub is_writable: bool,
}

impl AccountMeta {
    /// A writable account reference.
    pub fn new(pubkey: Key, is_signer: bool) -> (r: AccountMeta)
        ensures
            r == (AccountMeta { pubkey, is_signer, is_writable: true }),
    {
        AccountMeta { pubkey, is_signer, is_writable: true }
    }

    /// A read-only account reference.
    pub fn new_readonly(pubkey: Key, is_signer: bool) -> (r: AccountMeta)
        ensures
            r == (AccountMeta { pubkey, is_signer, is_writable: false }),
    {
        AccountMeta { pubkey, is_signer, is_writable: false }
    }
}

/// The state of one account: a plain value type with no aliasing.
#[derive(Clone, PartialEq, Eq, Debug)]
pub struct Account {
    pub lamports: u64,
    pub data: Vec<u8>,
    pub owner: Key,
    pub executable: bool,
    pub rent_epoch: u64,
}

/// The mathematical value of an [`Account`].
#[verifier::ext_equal]
pub struct AccountView {
    pub lamports: u64,
    pub data: Seq<u8>,
    pub owner: Key,
    pub executable: bool,
    pub rent_epoch: u64,
}

impl View for Account {
    type V = AccountView;

    open spec fn view(&self) -> AccountView {
        AccountView {
            lamports: self.lamports,
            data: self.data@,
            owner: self.owner,
            executable: self.executable,
            rent_epoch: self.rent_epoch,
        }
    }
}

/// The canonical empty account: zero lamports, no data, owned by the
/// all-zero key, not executable.
pub open spec fn empty_account() -> AccountView {
    AccountView {
        lamports: 0,
        data: Seq::empty(),
        owner: Key(0, 0, 0, 0),
        executable: false,
        rent_epoch: 0,
    }
}

impl Account {
    /// Construct an account with the given lamports, a zero-filled data
    /// region of the given size, and the given owner.
    pub fn new(lamports: u64, space: usize, owner: Key) -> (r: Account)
        ensures
            r@.lamports == lamports,
            r@.data =~= Seq::new(space as nat, |i: int| 0u8),
            r@.owner == owner,
            !r@.executable,
            r@.rent_epoch == 0,
    {
        let mut data: Vec<u8> = Vec::new();
        let mut i: usize = 0;
        while i < space
            invariant
                i <= space,
                data@ =~= Seq::new(i as nat, |j: int| 0u8),
            decreases space - i,
        {
            data.push(0);
            i += 1;
        }
        Account { lamports, data, owner, executable: false, rent_epoch: 0 }
    }

    /// An exact copy of this account.
    pub fn duplicate(&self) -> (r: Account)
        ensures
            r@ =~= self@,
    {
        Account {
            lamports: self.lamports,
            data: clone_bytes(&self.data),
            owner: self.owner,
            executable: self.executable,
            rent_epoch: self.rent_epoch,
        }
    }
}

impl Default for Account {
    /// The canonical empty account.
    fn default() -> (r: Account)
        ensures
            r@ =~= empty_account(),
    {
        Account {
            lamports: 0,
            data: Vec::new(),
            owner: Key(0, 0, 0, 0),
            executable: false,
            rent_epoch: 0,
        }
    }
}

/// An exact copy of a byte vector.
pub fn clone_bytes(v: &Vec<u8>) -> (r: Vec<u8>)
    ensures
        r@ == v@,
{
    let mut r: Vec<u8> = Vec::new();
    let mut i: usize = 0;
    while i < v.len()
        invariant
            i <= v.len(),
            r@ =~= v@.subrange(0, i as int),
        decreases v.len() - i,
    {
        r.push(v[i]);
        i += 1;
    }
    proof {
        assert(r@ =~= v@);
    }
    r
}

/// Whether two byte vectors hold the same bytes.
pub fn bytes_equal(a: &Vec<u8>, b: &Vec<u8>) -> (r: bool)
    ensures
        r == (a@ =~= b@),
{
    if a.len() != b.len() {
        return false;
    }
    let mut i: usize = 0;
    while i < a.len()
        invariant
            i <= a.len(),
            a.len() == b.len(),
            forall|j: int| 0 <= j < i ==> a@[j] == b@[j],
        decreases a.len() - i,
    {
        if a[i] != b[i] {
            return false;
        }
        i += 1;
    }
    true
}

/// Whether two accounts hold equal state in every field.
pub fn accounts_equal(a: &Account, b: &Account) -> (r: bool)
    ensures
        r == (a@ =~= b@),
{
    a.lamports == b.lamports && a.owner == b.owner && a.executable == b.executable
        && a.rent_epoch == b.rent_epoch && bytes_equal(&a.data, &b.data)
}

/// One instruction: the program to invoke, the account references it makes,
/// and its input bytes.
#[derive(Clone, PartialEq, Eq, Debug)]
pub struct Instruction {
    pub program_id: Key,
    pub accounts: Vec<AccountMeta>,
    pub data: Vec<u8>,
}

/// The mathematical value of an [`Instruction`].
#[verifier::ext_equal]
pub struct InstructionView {
    pub program_id: Key,
    pub accounts: Seq<AccountMeta>,
    pub data: Seq<u8>,
}

impl View for Instruction {
    type V = InstructionView;

    open spec fn view(&self) -> InstructionView {
        InstructionView {
            program_id: self.program_id,
            accounts: self.accounts@,
            data: self.data@,
        }
    }
}

impl Instruction {
    /// Construct an instruction from its program id, input bytes, and
    /// account references.
    pub fn new_with_bytes(program_id: Key, data: Vec<u8>, accounts: Vec<AccountMeta>) -> (r:
        Instruction)
        ensures
            r@.program_id == program_id,
            r@.data == data@,
            r@.accounts == accounts@,
    {
        Instruction { program_id, accounts, data }
    }

    /// An exact copy of this instruction.
    pub fn duplicate(&self) -> (r: Instruction)
        ensures
            r@ =~= self@,
    {
        let mut accounts: Vec<AccountMeta> = Vec::new();
        let mut i: usize = 0;
        while i < self.accounts.len()
            invariant
                i <= self.accounts.len(),
                accounts@ =~= self.accounts@.subrange(0, i as int),
            decreases self.accounts.len() - i,
        {
            accounts.push(self.accounts[i]);
            i += 1;
        }
        proof {
            assert(accounts@ =~= self.accounts@);
        }
        Instruction {
            program_id: self.program_id,
            accounts,
            data: clone_bytes(&self.data),
        }
    }
}

/// The raw low-level outcome of one execution: success, or a low-level
/// error code.
#[derive(Clone, Copy, PartialEq, Eq, Structural, Debug)]
pub enum RawResult {
    Success,
    Error(u64),
}

/// The result code of the program's execution.
#[derive(Clone, Copy, PartialEq, Eq, Structural, Debug)]
pub enum ProgramResult {
    /// The program executed successfully.
    Success,
    /// The program returned an error, given by its domain error code.
    Failure(u64),
    /// The runtime failed to execute the program; the low-level error code.
    UnknownError(u64),
}

impl ProgramResult {
    /// Returns `true` if the program succeeded.
    pub fn is_ok(&self) -> (r: bool)
        ensures
            r == (*self is Success),
    {
        matches!(self, ProgramResult::Success)
    }

    /// Returns `true` if the program returned an error.
    pub fn is_err(&self) -> (r: bool)
        ensures
            r == !(*self is Success),
    {
        !self.is_ok()
    }
}

/// The view of a sequence of keyed accounts.
pub open spec fn accounts_view(s: Seq<(Key, Account)>) -> Seq<(Key, AccountView)> {
    s.map_values(|p: (Key, Account)| (p.0, p.1@))
}

/// Whether some entry of `s` carries the key `k`.
pub open spec fn spec_contains_key(s: Seq<(Key, AccountView)>, k: Key) -> bool {
    exists|i: int| 0 <= i < s.len() && s[i].0 == k
}

/// The index of the first entry of `s` carrying the key `k`, or -1 when
/// there is none.
pub open spec fn spec_first_index(s: Seq<(Key, AccountView)>, k: Key) -> int
    decreases s.len(),
{
    if s.len() == 0 {
        -1
    } else if s[0].0 == k {
        0
    } else {
        let r = spec_first_index(s.drop_first(), k);
        if r < 0 {
            -1
        } else {
            r + 1
        }
    }
}

/// The state at the first entry of `s` carrying the key `k`.
pub open spec fn spec_lookup(s: Seq<(Key, AccountView)>, k: Key) -> AccountView {
    s[spec_first_index(s, k)].1
}

/// `spec_first_index` returns a sound index: nonnegative exactly when the
/// key occurs, in range, carrying the key, and first among the entries
/// that carry it.
pub proof fn lemma_first_index(s: Seq<(Key, AccountView)>, k: Key)
    ensures
        spec_contains_key(s, k) <==> 0 <= spec_first_index(s, k),
        0 <= spec_first_index(s, k) ==> spec_first_index(s, k) < s.len() && s[spec_first_index(
            s,
            k,
        )].0 == k && forall|j: int| 0 <= j < spec_first_index(s, k) ==> s[j].0 != k,
    decreases s.len(),
{
    if s.len() > 0 && s[0].0 != k {
        let d = s.drop_first();
        lemma_first_index(d, k);
        assert forall|i: int| 0 <= i < s.len() && s[i].0 == k implies 0 <= spec_first_index(
            s,
            k,
        ) by {
            assert(d[i - 1] == s[i]);
        }
        let r = spec_first_index(d, k);
        if r >= 0 {
            assert(s[r + 1] == d[r]);
            assert forall|j: int| 0 <= j < r + 1 implies s[j].0 != k by {
                if j > 0 {
                    assert(d[j - 1] == s[j]);
                }
            }
        }
    }
}

/// An exact copy of a keyed account list.
pub fn clone_accounts(v: &Vec<(Key, Account)>) -> (r: Vec<(Key, Account)>)
    ensures
        accounts_view(r@) == accounts_view(v@),
{
    let mut r: Vec<(Key, Account)> = Vec::new();
    let mut i: usize = 0;
    while i < v.len()
        invariant
            i <= v.len(),
            r@.len() == i,
            forall|j: int|
                0 <= j < i ==> (#[trigger] r@[j]).0 == v@[j].0 && r@[j].1@ == v@[j].1@,
        decreases v.len() - i,
    {
        let key = v[i].0;
        r.push((key, v[i].1.duplicate()));
        i += 1;
    }
    proof {
        assert(accounts_view(r@) =~= accounts_view(v@));
    }
    r
}

/// Get a reference to the account at the first entry for `key` in a keyed
/// account list, if present.
pub fn find_account<'a>(accounts: &'a Vec<(Key, Account)>, key: &Key) -> (r: Option<&'a Account>)
    ensures
        match r {
            Some(a) => spec_contains_key(accounts_view(accounts@), *key) && a@ == spec_lookup(
                accounts_view(accounts@),
                *key,
            ),
            None => !spec_contains_key(accounts_view(accounts@), *key),
        },
{
    let ghost accs = accounts_view(accounts@);
    let n = accounts.len();
    let mut i: usize = 0;
    while i < n
        invariant
            i <= n,
            n == accounts.len(),
            accs == accounts_view(accounts@),
            accs.len() == n,
            forall|j: int| 0 <= j < i ==> accs[j].0 != *key,
        decreases n - i,
    {
        if accounts[i].0 == *key {
            proof {
                assert(accs[i as int].0 == accounts@[i as int].0);
                assert(accs[i as int].1 == accounts@[i as int].1@);
                lemma_first_index_found(accs, *key, i as int);
            }
            return Some(&accounts[i].1);
        }
        i += 1;
    }
    proof {
        lemma_first_index(accs, *key);
    }
    None
}

/// The keys of a keyed account list, in order.
pub open spec fn keys_of(s: Seq<(Key, AccountView)>) -> Seq<Key> {
    s.map_values(|p: (Key, AccountView)| p.0)
}

/// The overall result of one instruction (or of a folded chain).
#[derive(Clone, PartialEq, Eq, Debug)]
pub struct InstructionResult {
    /// The number of compute units consumed by the instruction.
    pub compute_units_consumed: u64,
    /// The time taken to execute the instruction.
    pub execution_time: u64,
    /// The result code of the program's execution.
    pub program_result: ProgramResult,
    /// The raw low-level outcome of the execution.
    pub raw_result: RawResult,
    /// The return data produced by the instruction, if any.
    pub return_data: Vec<u8>,
    /// The resulting accounts after executing the instruction, in the order
    /// the caller provided them, whether or not they were touched.
    pub resulting_accounts: Vec<(Key, Account)>,
}

/// The mathematical value of an [`InstructionResult`].
#[verifier::ext_equal]
pub struct InstructionResultView {
    pub compute_units_consumed: u64,
    pub execution_time: u64,
    pub program_result: ProgramResult,
    pub raw_result: RawResult,
    pub return_data: Seq<u8>,
    pub resulting_accounts: Seq<(Key, AccountView)>,
}

impl View for InstructionResult {
    type V = InstructionResultView;

    open spec fn view(&self) -> InstructionResultView {
        InstructionResultView {
            compute_units_consumed: self.compute_units_consumed,
            execution_time: self.execution_time,
            program_result: self.program_result,
            raw_result: self.raw_result,
            return_data: self.return_data@,
            resulting_accounts: accounts_view(self.resulting_accounts@),
        }
    }
}

impl Default for InstructionResult {
    /// A successful result with nothing consumed, no return data, and no
    /// accounts.
    fn default() -> (r: InstructionResult)
        ensures
            r@.compute_units_consumed == 0,
            r@.execution_time == 0,
            r@.program_result == ProgramResult::Success,
            r@.raw_result == RawResult::Success,
            r@.return_data =~= Seq::<u8>::empty(),
            r@.resulting_accounts =~= Seq::<(Key, AccountView)>::empty(),
    {
        InstructionResult {
            compute_units_consumed: 0,
            execution_time: 0,
            program_result: ProgramResult::Success,
            raw_result: RawResult::Success,
            return_data: Vec::new(),
            resulting_accounts: Vec::new(),
        }
    }
}

/// Addition on u64 that stops at the largest representable value.
pub open spec fn sat_add_u64(a: u64, b: u64) -> u64 {
    if a + b <= u64::MAX {
        (a + b) as u64
    } else {
        u64::MAX
    }
}

impl InstructionResult {
    /// Get a reference to the account at the first entry for `key` among
    /// the resulting accounts, if present.
    pub fn get_account(&self, key: &Key) -> (r: Option<&Account>)
        ensures
            match r {
                Some(a) => spec_contains_key(self@.resulting_accounts, *key) && a@ == spec_lookup(
                    self@.resulting_accounts,
                    *key,
                ),
                None => !spec_contains_key(self@.resulting_accounts, *key),
            },
{
        find_account(&self.resulting_accounts, key)
    }

    /// Fold another step's result into this one: compute units and
    /// execution time accumulate by saturating sum; every other field is
    /// overwritten with the latest step's value.
    pub fn absorb(&mut self, other: InstructionResult)
        ensures
            final(self)@.compute_units_consumed == sat_add_u64(
                old(self)@.compute_units_consumed,
                other@.compute_units_consumed,
            ),
            final(self)@.execution_time == sat_add_u64(
                old(self)@.execution_time,
                other@.execution_time,
            ),
            final(self)@.program_result == other@.program_result,
            final(self)@.raw_result == other@.raw_result,
            final(self)@.return_data == other@.return_data,
            final(self)@.resulting_accounts == other@.resulting_accounts,
    {
        self.compute_units_consumed = sat_add(
            self.compute_units_consumed,
            other.compute_units_consumed,
        );
        self.execution_time = sat_add(self.execution_time, other.execution_time);
        self.program_result = other.program_result;
        self.raw_result = other.raw_result;
        self.return_data = other.return_data;
        self.resulting_accounts = other.resulting_accounts;
    }
}

/// If entry `i` carries `k` and no earlier entry does, then `i` is the
/// first index for `k`.
pub proof fn lemma_first_index_found(s: Seq<(Key, AccountView)>, k: Key, i: int)
    requires
        0 <= i < s.len(),
        s[i].0 == k,
        forall|j: int| 0 <= j < i ==> s[j].0 != k,
    ensures
        spec_first_index(s, k) == i,
    decreases s.len(),
{
    if i > 0 {
        assert forall|j: int| 0 <= j < i - 1 implies s.drop_first()[j].0 != k by {
            assert(s.drop_first()[j] == s[j + 1]);
        }
        assert(s.drop_first()[i - 1] == s[i]);
        lemma_first_index_found(s.drop_first(), k, i - 1);
    }
}

/// Saturating addition on u64.
pub fn sat_add(a: u64, b: u64) -> (r: u64)
    ensures
        r == sat_add_u64(a, b),
{
    if a <= u64::MAX - b {
        a + b
    } else {
        u64::MAX
    }
}

} // verus!
