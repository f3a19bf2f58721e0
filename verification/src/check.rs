//! The check engine: declarative field-level assertions evaluated against
//! one execution result. Every check is evaluated independently; a failed
//! comparison yields one typed failure naming the field, the offending key,
//! and the values compared, so a soft-fail run enumerates every violation.

use vstd::prelude::*;

use crate::config::CheckContext;
use crate::config::Config;
use crate::types::accounts_view;
use crate::types::bytes_equal;
use crate::types::empty_account;
use crate::types::find_account;
use crate::types::spec_contains_key;
use crate::types::spec_lookup;
use crate::types::Account;
use crate::types::AccountView;
use crate::types::InstructionResult;
use crate::types::InstructionResultView;
use crate::types::Key;
use crate::types::ProgramResult;

verus! {

/// A state assertion on one account.
#[derive(Clone, Copy, PartialEq, Eq, Structural, Debug)]
pub enum AccountStateCheck {
    /// The account's full state equals the canonical empty account.
    Closed,
    /// The account satisfies the context's rent-exemption rule.
    RentExempt,
}

/// A set of optional field assertions on one account.
#[derive(Clone, PartialEq, Eq, Debug)]
pub struct AccountCheck {
    pub pubkey: Key,
    pub check_data: Option<Vec<u8>>,
    pub check_executable: Option<bool>,
    pub check_lamports: Option<u64>,
    pub check_owner: Option<Key>,
    pub check_space: Option<usize>,
    pub check_state: Option<AccountStateCheck>,
    pub check_data_slice: Option<(usize, Vec<u8>)>,
}

impl AccountCheck {
    /// An account check with no field assertions yet.
    pub fn new(pubkey: Key) -> (r: AccountCheck)
        ensures
            r == (AccountCheck {
                pubkey,
                check_data: None,
                check_executable: None,
                check_lamports: None,
                check_owner: None,
                check_space: None,
                check_state: None,
                check_data_slice: None,
            }),
    {
        AccountCheck {
            pubkey,
            check_data: None,
            check_executable: None,
            check_lamports: None,
            check_owner: None,
            check_space: None,
            check_state: None,
            check_data_slice: None,
        }
    }
}

/// One declarative assertion on an execution result.
#[derive(Clone, PartialEq, Eq, Debug)]
pub enum CheckType {
    /// The number of compute units consumed by the instruction.
    ComputeUnitsConsumed(u64),
    /// The time taken to execute the instruction.
    ExecutionTime(u64),
    /// The result code of the program's execution.
    ProgramResult(ProgramResult),
    /// The return data produced by executing the instruction.
    ReturnData(Vec<u8>),
    /// A resulting account after executing the instruction.
    ResultingAccount(AccountCheck),
    /// Every resulting account satisfies the rent-exemption rule.
    AllRentExempt,
}

/// A check to run against an execution result.
#[derive(Clone, PartialEq, Eq, Debug)]
pub struct Check {
    pub check: CheckType,
}

impl Check {
    /// Check the number of compute units consumed by the instruction.
    pub fn compute_units(units: u64) -> (r: Check)
        ensures
            r.check == CheckType::ComputeUnitsConsumed(units),
    {
        Check { check: CheckType::ComputeUnitsConsumed(units) }
    }

    /// Check the time taken to execute the instruction.
    pub fn time(time: u64) -> (r: Check)
        ensures
            r.check == CheckType::ExecutionTime(time),
    {
        Check { check: CheckType::ExecutionTime(time) }
    }

    /// Assert that the program executed successfully.
    pub fn success() -> (r: Check)
        ensures
            r.check == CheckType::ProgramResult(ProgramResult::Success),
    {
        Check { check: CheckType::ProgramResult(ProgramResult::Success) }
    }

    /// Assert that the program returned the given domain error.
    pub fn err(error: u64) -> (r: Check)
        ensures
            r.check == CheckType::ProgramResult(ProgramResult::Failure(error)),
    {
        Check { check: CheckType::ProgramResult(ProgramResult::Failure(error)) }
    }

    /// Assert that the runtime failed with the given low-level error.
    pub fn instruction_err(error: u64) -> (r: Check)
        ensures
            r.check == CheckType::ProgramResult(ProgramResult::UnknownError(error)),
    {
        Check { check: CheckType::ProgramResult(ProgramResult::UnknownError(error)) }
    }

    /// Assert that the instruction returned the provided result.
    pub fn program_result(result: ProgramResult) -> (r: Check)
        ensures
            r.check == CheckType::ProgramResult(result),
    {
        Check { check: CheckType::ProgramResult(result) }
    }

    /// Check the return data produced by executing the instruction.
    pub fn return_data(return_data: Vec<u8>) -> (r: Check)
        ensures
            r.check == CheckType::ReturnData(return_data),
    {
        Check { check: CheckType::ReturnData(return_data) }
    }

    /// Check a resulting account after executing the instruction.
    pub fn account(pubkey: &Key) -> (r: AccountCheckBuilder)
        ensures
            r.check == AccountCheck::spec_new(*pubkey),
    {
        AccountCheckBuilder::new(pubkey)
    }

    /// Check that all resulting accounts are rent exempt.
    pub fn all_rent_exempt() -> (r: Check)
        ensures
            r.check == CheckType::AllRentExempt,
    {
        Check { check: CheckType::AllRentExempt }
    }
}

impl AccountCheck {
    /// The value `AccountCheck::new` constructs.
    pub open spec fn spec_new(pubkey: Key) -> AccountCheck {
        AccountCheck {
            pubkey,
            check_data: None,
            check_executable: None,
            check_lamports: None,
            check_owner: None,
            check_space: None,
            check_state: None,
            check_data_slice: None,
        }
    }
}

/// A fluent builder for the optional field assertions of one account
/// check.
#[derive(Clone, PartialEq, Eq, Debug)]
pub struct AccountCheckBuilder {
    pub check: AccountCheck,
}

impl AccountCheckBuilder {
    /// Start a builder for assertions on the account at `pubkey`.
    pub fn new(pubkey: &Key) -> (r: AccountCheckBuilder)
        ensures
            r.check == AccountCheck::spec_new(*pubkey),
    {
        AccountCheckBuilder { check: AccountCheck::new(*pubkey) }
    }

    /// Assert that the account was closed.
    pub fn closed(self) -> (r: AccountCheckBuilder)
        ensures
            r.check == (AccountCheck {
                check_state: Some(AccountStateCheck::Closed),
                ..self.check
            }),
    {
        let mut c = self;
        c.check.check_state = Some(AccountStateCheck::Closed);
        c
    }

    /// Assert the account's data bytes.
    pub fn data(self, data: Vec<u8>) -> (r: AccountCheckBuilder)
        ensures
            r.check == (AccountCheck { check_data: Some(data), ..self.check }),
    {
        let mut c = self;
        c.check.check_data = Some(data);
        c
    }

    /// Assert the account's executable flag.
    pub fn executable(self, executable: bool) -> (r: AccountCheckBuilder)
        ensures
            r.check == (AccountCheck { check_executable: Some(executable), ..self.check }),
    {
        let mut c = self;
        c.check.check_executable = Some(executable);
        c
    }

    /// Assert the account's lamports.
    pub fn lamports(self, lamports: u64) -> (r: AccountCheckBuilder)
        ensures
            r.check == (AccountCheck { check_lamports: Some(lamports), ..self.check }),
    {
        let mut c = self;
        c.check.check_lamports = Some(lamports);
        c
    }

    /// Assert the account's owner.
    pub fn owner(self, owner: &Key) -> (r: AccountCheckBuilder)
        ensures
            r.check == (AccountCheck { check_owner: Some(*owner), ..self.check }),
    {
        let mut c = self;
        c.check.check_owner = Some(*owner);
        c
    }

    /// Assert that the account is rent exempt.
    pub fn rent_exempt(self) -> (r: AccountCheckBuilder)
        ensures
            r.check == (AccountCheck {
                check_state: Some(AccountStateCheck::RentExempt),
                ..self.check
            }),
    {
        let mut c = self;
        c.check.check_state = Some(AccountStateCheck::RentExempt);
        c
    }

    /// Assert the account's data size.
    pub fn space(self, space: usize) -> (r: AccountCheckBuilder)
        ensures
            r.check == (AccountCheck { check_space: Some(space), ..self.check }),
    {
        let mut c = self;
        c.check.check_space = Some(space);
        c
    }

    /// Assert a byte range of the account's data, starting at `offset`.
    pub fn data_slice(self, offset: usize, data: Vec<u8>) -> (r: AccountCheckBuilder)
        ensures
            r.check == (AccountCheck { check_data_slice: Some((offset, data)), ..self.check }),
    {
        let mut c = self;
        c.check.check_data_slice = Some((offset, data));
        c
    }

    /// Finish the builder.
    pub fn build(self) -> (r: Check)
        ensures
            r.check == CheckType::ResultingAccount(self.check),
    {
        Check { check: CheckType::ResultingAccount(self.check) }
    }
}

/// One violated comparison: the field compared, the offending key where
/// one exists, and the values compared where they are scalar.
#[derive(Clone, Copy, PartialEq, Eq, Structural, Debug)]
pub enum CheckFailure {
    ComputeUnits { expected: u64, actual: u64 },
    ExecutionTime { expected: u64, actual: u64 },
    ProgramResult { expected: ProgramResult, actual: ProgramResult },
    ReturnData,
    AccountNotFound(Key),
    AccountData(Key),
    AccountExecutable { key: Key, expected: bool, actual: bool },
    AccountLamports { key: Key, expected: u64, actual: u64 },
    AccountOwner { key: Key, expected: Key, actual: Key },
    AccountSpace { key: Key, expected: usize, actual: usize },
    AccountNotClosed(Key),
    AccountNotRentExempt(Key),
    /// A data-slice assertion whose range exceeds the account's data
    /// length: reported as a failure, never read out of bounds.
    DataSliceOutOfRange { key: Key, offset: usize, slice_len: usize, data_len: usize },
    DataSliceMismatch(Key),
    NotRentExempt { key: Key, lamports: u64, space: usize },
}

/// Whether `exp` occurs in `data` at `offset`.
pub open spec fn slice_matches(data: Seq<u8>, offset: int, exp: Seq<u8>) -> bool {
    forall|j: int| 0 <= j < exp.len() ==> data[offset + j] == exp[j]
}

/// The failure, if any, of the data assertion.
pub open spec fn data_check_part(a: AccountView, k: Key, c: Option<Vec<u8>>) -> Seq<CheckFailure> {
    match c {
        Some(d) => if a.data == d@ {
            Seq::empty()
        } else {
            seq![CheckFailure::AccountData(k)]
        },
        None => Seq::empty(),
    }
}

/// The failure, if any, of the executable-flag assertion.
pub open spec fn executable_check_part(a: AccountView, k: Key, c: Option<bool>) -> Seq<
    CheckFailure,
> {
    match c {
        Some(e) => if a.executable == e {
            Seq::empty()
        } else {
            seq![CheckFailure::AccountExecutable { key: k, expected: e, actual: a.executable }]
        },
        None => Seq::empty(),
    }
}

/// The failure, if any, of the lamports assertion.
pub open spec fn lamports_check_part(a: AccountView, k: Key, c: Option<u64>) -> Seq<CheckFailure> {
    match c {
        Some(l) => if a.lamports == l {
            Seq::empty()
        } else {
            seq![CheckFailure::AccountLamports { key: k, expected: l, actual: a.lamports }]
        },
        None => Seq::empty(),
    }
}

/// The failure, if any, of the owner assertion.
pub open spec fn owner_check_part(a: AccountView, k: Key, c: Option<Key>) -> Seq<CheckFailure> {
    match c {
        Some(o) => if a.owner == o {
            Seq::empty()
        } else {
            seq![CheckFailure::AccountOwner { key: k, expected: o, actual: a.owner }]
        },
        None => Seq::empty(),
    }
}

/// The failure, if any, of the data-size assertion.
pub open spec fn space_check_part(a: AccountView, k: Key, c: Option<usize>) -> Seq<CheckFailure> {
    match c {
        Some(sp) => if a.data.len() == sp as nat {
            Seq::empty()
        } else {
            seq![CheckFailure::AccountSpace { key: k, expected: sp, actual: a.data.len() as usize }]
        },
        None => Seq::empty(),
    }
}

/// The failure, if any, of the account-state assertion. A closed-account
/// assertion holds only when the full state equals the canonical empty
/// account.
pub open spec fn state_check_part<C: CheckContext>(
    ctx: &C,
    a: AccountView,
    k: Key,
    c: Option<AccountStateCheck>,
) -> Seq<CheckFailure> {
    match c {
        Some(AccountStateCheck::Closed) => if a == empty_account() {
            Seq::empty()
        } else {
            seq![CheckFailure::AccountNotClosed(k)]
        },
        Some(AccountStateCheck::RentExempt) => if ctx.rent_exempt_spec(
            a.lamports,
            a.data.len(),
            a.owner,
        ) {
            Seq::empty()
        } else {
            seq![CheckFailure::AccountNotRentExempt(k)]
        },
        None => Seq::empty(),
    }
}

/// The failure, if any, of the data-slice assertion. A range that exceeds
/// the account's data length is itself a failure, never an out-of-bounds
/// read or a silent truncation.
pub open spec fn slice_check_part(a: AccountView, k: Key, c: Option<(usize, Vec<u8>)>) -> Seq<
    CheckFailure,
> {
    match c {
        Some((off, d)) => if off + d@.len() > a.data.len() {
            seq![
                CheckFailure::DataSliceOutOfRange {
                    key: k,
                    offset: off,
                    slice_len: d@.len() as usize,
                    data_len: a.data.len() as usize,
                },
            ]
        } else if slice_matches(a.data, off as int, d@) {
            Seq::empty()
        } else {
            seq![CheckFailure::DataSliceMismatch(k)]
        },
        None => Seq::empty(),
    }
}

/// The failures produced by one account check: a key absent from the
/// resulting accounts is itself a failure; otherwise each requested field
/// assertion is evaluated in order.
pub open spec fn account_check_failures<C: CheckContext>(
    ctx: &C,
    accs: Seq<(Key, AccountView)>,
    ac: AccountCheck,
) -> Seq<CheckFailure> {
    if !spec_contains_key(accs, ac.pubkey) {
        seq![CheckFailure::AccountNotFound(ac.pubkey)]
    } else {
        let a = spec_lookup(accs, ac.pubkey);
        let k = ac.pubkey;
        data_check_part(a, k, ac.check_data) + executable_check_part(a, k, ac.check_executable)
            + lamports_check_part(a, k, ac.check_lamports) + owner_check_part(
            a,
            k,
            ac.check_owner,
        ) + space_check_part(a, k, ac.check_space) + state_check_part(ctx, a, k, ac.check_state)
            + slice_check_part(a, k, ac.check_data_slice)
    }
}

/// The rent failures among `accs`: one per entry that violates the rule,
/// in order.
pub open spec fn rent_failures<C: CheckContext>(ctx: &C, accs: Seq<(Key, AccountView)>) -> Seq<
    CheckFailure,
>
    decreases accs.len(),
{
    if accs.len() == 0 {
        Seq::empty()
    } else {
        let last = accs.last();
        rent_failures(ctx, accs.drop_last()) + (if ctx.rent_exempt_spec(
            last.1.lamports,
            last.1.data.len(),
            last.1.owner,
        ) {
            Seq::empty()
        } else {
            seq![
                CheckFailure::NotRentExempt {
                    key: last.0,
                    lamports: last.1.lamports,
                    space: last.1.data.len() as usize,
                },
            ]
        })
    }
}

/// The failures produced by one check against a result.
pub open spec fn one_check_failures<C: CheckContext>(
    ctx: &C,
    res: InstructionResultView,
    check: CheckType,
) -> Seq<CheckFailure> {
    match check {
        CheckType::ComputeUnitsConsumed(u) => if res.compute_units_consumed == u {
            Seq::empty()
        } else {
            seq![
                CheckFailure::ComputeUnits { expected: u, actual: res.compute_units_consumed },
            ]
        },
        CheckType::ExecutionTime(t) => if res.execution_time == t {
            Seq::empty()
        } else {
            seq![CheckFailure::ExecutionTime { expected: t, actual: res.execution_time }]
        },
        CheckType::ProgramResult(pr) => if res.program_result == pr {
            Seq::empty()
        } else {
            seq![CheckFailure::ProgramResult { expected: pr, actual: res.program_result }]
        },
        CheckType::ReturnData(d) => if res.return_data == d@ {
            Seq::empty()
        } else {
            seq![CheckFailure::ReturnData]
        },
        CheckType::ResultingAccount(ac) => account_check_failures(ctx, res.resulting_accounts, ac),
        CheckType::AllRentExempt => rent_failures(ctx, res.resulting_accounts),
    }
}

/// Whether a check passes against a result: it contributes no failure.
pub open spec fn check_passes<C: CheckContext>(
    ctx: &C,
    res: InstructionResultView,
    check: Check,
) -> bool {
    one_check_failures(ctx, res, check.check).len() == 0
}

/// The failures produced by a list of checks, each evaluated
/// independently, concatenated in order.
pub open spec fn checks_failures<C: CheckContext>(
    ctx: &C,
    res: InstructionResultView,
    checks: Seq<Check>,
) -> Seq<CheckFailure>
    decreases checks.len(),
{
    if checks.len() == 0 {
        Seq::empty()
    } else {
        checks_failures(ctx, res, checks.drop_last()) + one_check_failures(
            ctx,
            res,
            checks.last().check,
        )
    }
}

/// Evaluate the data assertion of one account check.
fn eval_data_part(a: &Account, k: Key, c: &Option<Vec<u8>>) -> (failures: Vec<CheckFailure>)
    ensures
        failures@ == data_check_part(a@, k, *c),
{
    let mut failures: Vec<CheckFailure> = Vec::new();
    match c {
        Some(d) => {
            if !bytes_equal(&a.data, d) {
                failures.push(CheckFailure::AccountData(k));
            }
        },
        None => {},
    }
    proof {
        assert(failures@ =~= data_check_part(a@, k, *c));
    }
    failures
}

/// Evaluate the executable-flag assertion of one account check.
fn eval_executable_part(a: &Account, k: Key, c: &Option<bool>) -> (failures: Vec<CheckFailure>)
    ensures
        failures@ == executable_check_part(a@, k, *c),
{
    let mut failures: Vec<CheckFailure> = Vec::new();
    match c {
        Some(e) => {
            if a.executable != *e {
                failures.push(
                    CheckFailure::AccountExecutable { key: k, expected: *e, actual: a.executable },
                );
            }
        },
        None => {},
    }
    proof {
        assert(failures@ =~= executable_check_part(a@, k, *c));
    }
    failures
}

/// Evaluate the lamports assertion of one account check.
fn eval_lamports_part(a: &Account, k: Key, c: &Option<u64>) -> (failures: Vec<CheckFailure>)
    ensures
        failures@ == lamports_check_part(a@, k, *c),
{
    let mut failures: Vec<CheckFailure> = Vec::new();
    match c {
        Some(l) => {
            if a.lamports != *l {
                failures.push(
                    CheckFailure::AccountLamports { key: k, expected: *l, actual: a.lamports },
                );
            }
        },
        None => {},
    }
    proof {
        assert(failures@ =~= lamports_check_part(a@, k, *c));
    }
    failures
}

/// Evaluate the owner assertion of one account check.
fn eval_owner_part(a: &Account, k: Key, c: &Option<Key>) -> (failures: Vec<CheckFailure>)
    ensures
        failures@ == owner_check_part(a@, k, *c),
{
    let mut failures: Vec<CheckFailure> = Vec::new();
    match c {
        Some(o) => {
            if a.owner != *o {
                failures.push(CheckFailure::AccountOwner { key: k, expected: *o, actual: a.owner });
            }
        },
        None => {},
    }
    proof {
        assert(failures@ =~= owner_check_part(a@, k, *c));
    }
    failures
}

/// Evaluate the data-size assertion of one account check.
fn eval_space_part(a: &Account, k: Key, c: &Option<usize>) -> (failures: Vec<CheckFailure>)
    ensures
        failures@ == space_check_part(a@, k, *c),
{
    let mut failures: Vec<CheckFailure> = Vec::new();
    match c {
        Some(sp) => {
            if a.data.len() != *sp {
                failures.push(
                    CheckFailure::AccountSpace { key: k, expected: *sp, actual: a.data.len() },
                );
            }
        },
        None => {},
    }
    proof {
        assert(failures@ =~= space_check_part(a@, k, *c));
    }
    failures
}

/// Evaluate the account-state assertion of one account check.
fn eval_state_part<C: CheckContext>(
    context: &C,
    a: &Account,
    k: Key,
    c: &Option<AccountStateCheck>,
) -> (failures: Vec<CheckFailure>)
    ensures
        failures@ == state_check_part(context, a@, k, *c),
{
    let mut failures: Vec<CheckFailure> = Vec::new();
    match c {
        Some(AccountStateCheck::Closed) => {
            let closed = crate::types::accounts_equal(a, &Account::default());
            if !closed {
                failures.push(CheckFailure::AccountNotClosed(k));
            }
        },
        Some(AccountStateCheck::RentExempt) => {
            if !context.is_rent_exempt(a.lamports, a.data.len(), a.owner) {
                failures.push(CheckFailure::AccountNotRentExempt(k));
            }
        },
        None => {},
    }
    proof {
        assert(failures@ =~= state_check_part(context, a@, k, *c));
    }
    failures
}

/// Evaluate the data-slice assertion of one account check.
fn eval_slice_part(a: &Account, k: Key, c: &Option<(usize, Vec<u8>)>) -> (failures: Vec<
    CheckFailure,
>)
    ensures
        failures@ == slice_check_part(a@, k, *c),
{
    let mut failures: Vec<CheckFailure> = Vec::new();
    match c {
        Some((off, d)) => {
            let off = *off;
            if off > a.data.len() || d.len() > a.data.len() - off {
                failures.push(
                    CheckFailure::DataSliceOutOfRange {
                        key: k,
                        offset: off,
                        slice_len: d.len(),
                        data_len: a.data.len(),
                    },
                );
            } else {
                let mut j: usize = 0;
                let mut matches = true;
                while j < d.len()
                    invariant
                        j <= d.len(),
                        off + d@.len() <= a.data@.len(),
                        a.data@.len() <= usize::MAX,
                        matches == (forall|l: int| 0 <= l < j ==> a.data@[off + l] == d@[l]),
                    decreases d.len() - j,
                {
                    if a.data[off + j] != d[j] {
                        matches = false;
                    }
                    j += 1;
                }
                if !matches {
                    failures.push(CheckFailure::DataSliceMismatch(k));
                }
            }
        },
        None => {},
    }
    proof {
        assert(failures@ =~= slice_check_part(a@, k, *c));
    }
    failures
}

/// Evaluate one account check; see `account_check_failures`.
fn evaluate_account_check<C: CheckContext>(
    resulting_accounts: &Vec<(Key, Account)>,
    ac: &AccountCheck,
    context: &C,
) -> (failures: Vec<CheckFailure>)
    ensures
        failures@ == account_check_failures(context, accounts_view(resulting_accounts@), *ac),
{
    let ghost accs = accounts_view(resulting_accounts@);
    let a: &Account = match find_account(resulting_accounts, &ac.pubkey) {
        Some(a) => a,
        None => {
            let mut failures: Vec<CheckFailure> = Vec::new();
            failures.push(CheckFailure::AccountNotFound(ac.pubkey));
            proof {
                assert(failures@ =~= account_check_failures(context, accs, *ac));
            }
            return failures;
        },
    };
    let k = ac.pubkey;
    let mut failures = eval_data_part(a, k, &ac.check_data);
    let mut f = eval_executable_part(a, k, &ac.check_executable);
    failures.append(&mut f);
    let mut f = eval_lamports_part(a, k, &ac.check_lamports);
    failures.append(&mut f);
    let mut f = eval_owner_part(a, k, &ac.check_owner);
    failures.append(&mut f);
    let mut f = eval_space_part(a, k, &ac.check_space);
    failures.append(&mut f);
    let mut f = eval_state_part(context, a, k, &ac.check_state);
    failures.append(&mut f);
    let mut f = eval_slice_part(a, k, &ac.check_data_slice);
    failures.append(&mut f);
    failures
}

/// Evaluate the all-rent-exempt check; see `rent_failures`.
fn evaluate_all_rent_exempt<C: CheckContext>(
    resulting_accounts: &Vec<(Key, Account)>,
    context: &C,
) -> (failures: Vec<CheckFailure>)
    ensures
        failures@ == rent_failures(context, accounts_view(resulting_accounts@)),
{
    let ghost accs = accounts_view(resulting_accounts@);
    let mut failures: Vec<CheckFailure> = Vec::new();
    let n = resulting_accounts.len();
    let mut i: usize = 0;
    while i < n
        invariant
            i <= n,
            n == resulting_accounts.len(),
            accs == accounts_view(resulting_accounts@),
            accs.len() == n,
            failures@ == rent_failures(context, accs.take(i as int)),
        decreases n - i,
    {
        let a = &resulting_accounts[i].1;
        proof {
            assert(accs.take(i + 1 as int).drop_last() =~= accs.take(i as int));
            assert(accs.take(i + 1 as int).last() == accs[i as int]);
        }
        if !context.is_rent_exempt(a.lamports, a.data.len(), a.owner) {
            failures.push(
                CheckFailure::NotRentExempt {
                    key: resulting_accounts[i].0,
                    lamports: a.lamports,
                    space: a.data.len(),
                },
            );
        }
        i += 1;
    }
    proof {
        assert(accs.take(n as int) =~= accs);
    }
    failures
}

impl InstructionResult {
    /// Evaluate every check independently against this result and return
    /// every violated comparison, in evaluation order.
    pub fn evaluate_checks<C: CheckContext>(&self, checks: &Vec<Check>, context: &C) -> (failures:
        Vec<CheckFailure>)
        ensures
            failures@ == checks_failures(context, self@, checks@),
    {
        let mut failures: Vec<CheckFailure> = Vec::new();
        let n = checks.len();
        let mut i: usize = 0;
        while i < n
            invariant
                i <= n,
                n == checks.len(),
                failures@ == checks_failures(context, self@, checks@.take(i as int)),
            decreases n - i,
        {
            proof {
                assert(checks@.take(i + 1 as int).drop_last() =~= checks@.take(i as int));
                assert(checks@.take(i + 1 as int).last() == checks@[i as int]);
            }
            let mut f: Vec<CheckFailure> = match &checks[i].check {
                CheckType::ComputeUnitsConsumed(u) => {
                    let mut f: Vec<CheckFailure> = Vec::new();
                    if self.compute_units_consumed != *u {
                        f.push(
                            CheckFailure::ComputeUnits {
                                expected: *u,
                                actual: self.compute_units_consumed,
                            },
                        );
                    }
                    f
                },
                CheckType::ExecutionTime(t) => {
                    let mut f: Vec<CheckFailure> = Vec::new();
                    if self.execution_time != *t {
                        f.push(
                            CheckFailure::ExecutionTime {
                                expected: *t,
                                actual: self.execution_time,
                            },
                        );
                    }
                    f
                },
                CheckType::ProgramResult(pr) => {
                    let mut f: Vec<CheckFailure> = Vec::new();
                    if !program_results_equal(&self.program_result, pr) {
                        f.push(
                            CheckFailure::ProgramResult {
                                expected: *pr,
                                actual: self.program_result,
                            },
                        );
                    }
                    f
                },
                CheckType::ReturnData(d) => {
                    let mut f: Vec<CheckFailure> = Vec::new();
                    if !bytes_equal(&self.return_data, d) {
                        f.push(CheckFailure::ReturnData);
                    }
                    f
                },
                CheckType::ResultingAccount(ac) => {
                    evaluate_account_check(&self.resulting_accounts, ac, context)
                },
                CheckType::AllRentExempt => {
                    evaluate_all_rent_exempt(&self.resulting_accounts, context)
                },
            };
            failures.append(&mut f);
            i += 1;
        }
        proof {
            assert(checks@.take(n as int) =~= checks@);
        }
        failures
    }

    /// Run the checks under the given policy. With soft-fail configuration
    /// the outcome is `Ok` carrying whether every check passed, after all
    /// checks were evaluated. With fail-fast configuration a violated
    /// check is fatal: the outcome surfaces the first violation as `Err`,
    /// for the caller to abort with.
    pub fn run_checks<C: CheckContext>(
        &self,
        checks: &Vec<Check>,
        config: &Config,
        context: &C,
    ) -> (r: Result<bool, CheckFailure>)
        ensures
            ({
                let fs = checks_failures(context, self@, checks@);
                if config.panic_on_failure {
                    if fs.len() == 0 {
                        r == Result::<bool, CheckFailure>::Ok(true)
                    } else {
                        r == Result::<bool, CheckFailure>::Err(fs[0])
                    }
                } else {
                    r == Result::<bool, CheckFailure>::Ok(fs.len() == 0)
                }
            }),
    {
        let failures = self.evaluate_checks(checks, context);
        if config.panic_on_failure {
            if failures.len() == 0 {
                Ok(true)
            } else {
                Err(failures[0])
            }
        } else {
            Ok(failures.len() == 0)
        }
    }
}

/// Whether two program results are equal.
pub fn program_results_equal(a: &ProgramResult, b: &ProgramResult) -> (r: bool)
    ensures
        r == (a == b),
{
    match (a, b) {
        (ProgramResult::Success, ProgramResult::Success) => true,
        (ProgramResult::Failure(x), ProgramResult::Failure(y)) => x == y,
        (ProgramResult::UnknownError(x), ProgramResult::UnknownError(y)) => x == y,
        _ => false,
    }
}

/// The number of failing checks in a list.
pub open spec fn failing_count<C: CheckContext>(
    ctx: &C,
    res: InstructionResultView,
    checks: Seq<Check>,
) -> nat
    decreases checks.len(),
{
    if checks.len() == 0 {
        0
    } else {
        failing_count(ctx, res, checks.drop_last()) + (if check_passes(ctx, res, checks.last()) {
            0nat
        } else {
            1nat
        })
    }
}

/// A soft-fail evaluation reports every violation: the failure list is
/// empty exactly when every check passes, and it holds at least one entry
/// per failing check — N independently failing checks yield at least N
/// reported failures, never just the first.
pub proof fn lemma_all_failures_reported<C: CheckContext>(
    ctx: &C,
    res: InstructionResultView,
    checks: Seq<Check>,
)
    ensures
        checks_failures(ctx, res, checks).len() == 0 <==> (forall|i: int|
            0 <= i < checks.len() ==> check_passes(ctx, res, #[trigger] checks[i])),
        checks_failures(ctx, res, checks).len() >= failing_count(ctx, res, checks),
    decreases checks.len(),
{
    if checks.len() > 0 {
        let d = checks.drop_last();
        lemma_all_failures_reported(ctx, res, d);
        assert(checks.last() == checks[checks.len() - 1]);
        assert forall|i: int| 0 <= i < d.len() implies d[i] == checks[i] by {}
        if checks_failures(ctx, res, checks).len() == 0 {
            assert forall|i: int| 0 <= i < checks.len() implies check_passes(
                ctx,
                res,
                #[trigger] checks[i],
            ) by {
                if i < checks.len() - 1 {
                    assert(checks[i] == d[i]);
                }
            }
        }
        if forall|i: int| 0 <= i < checks.len() ==> check_passes(ctx, res, #[trigger] checks[i]) {
            assert forall|i: int| 0 <= i < d.len() implies check_passes(
                ctx,
                res,
                #[trigger] d[i],
            ) by {
                assert(d[i] == checks[i]);
            }
        }
    }
}

} // verus!
