//! The compare engine: structural comparison of two execution results,
//! field by field, per an explicit selector set. Used to compare a run
//! against externally supplied expected effects, or two runs against each
//! other. Account comparison matches by key, not position, and reports a
//! key present on only one side by naming the side that misses it.

use vstd::prelude::*;

use crate::check::program_results_equal;
use crate::config::Config;
use crate::types::accounts_view;
use crate::types::bytes_equal;
use crate::types::find_account;
use crate::types::spec_contains_key;
use crate::types::spec_lookup;
use crate::types::Account;
use crate::types::AccountView;
use crate::types::InstructionResult;
use crate::types::InstructionResultView;
use crate::types::Key;
use crate::types::ProgramResult;

verus! {

/// One dimension along which two execution results are compared.
#[derive(Clone, PartialEq, Eq, Debug)]
pub enum Compare {
    /// Compare the compute units consumed.
    ComputeUnits,
    /// Compare the execution time.
    ExecutionTime,
    /// Compare the program result codes.
    ProgramResult,
    /// Compare the return data.
    ReturnData,
    /// Compare every resulting account, matched by key from both sides.
    AllResultingAccounts,
    /// Compare the resulting account at one key.
    ResultingAccount(Key),
}

impl Compare {
    /// Every comparison dimension.
    pub fn everything() -> (r: Vec<Compare>)
        ensures
            r@ =~= seq![
                Compare::ComputeUnits,
                Compare::ExecutionTime,
                Compare::ProgramResult,
                Compare::ReturnData,
                Compare::AllResultingAccounts,
            ],
    {
        let mut r: Vec<Compare> = Vec::new();
        r.push(Compare::ComputeUnits);
        r.push(Compare::ExecutionTime);
        r.push(Compare::ProgramResult);
        r.push(Compare::ReturnData);
        r.push(Compare::AllResultingAccounts);
        r
    }
}

/// One violated comparison between an expected and an actual result.
#[derive(Clone, Copy, PartialEq, Eq, Structural, Debug)]
pub enum CompareFailure {
    ComputeUnits { expected: u64, actual: u64 },
    ExecutionTime { expected: u64, actual: u64 },
    ProgramResult { expected: ProgramResult, actual: ProgramResult },
    ReturnData,
    /// The actual result has no account at a key the expected side holds.
    AccountMissingFromActual(Key),
    /// The expected result has no account at a key the actual side holds.
    AccountMissingFromExpected(Key),
    /// Both sides hold the key, with different account state.
    AccountMismatch(Key),
}

/// The comparison failures charged to the expected side's entries: one per
/// expected entry whose key the actual side misses or holds with different
/// state, in order.
pub open spec fn expected_entries_failures(
    exp: Seq<(Key, AccountView)>,
    act: Seq<(Key, AccountView)>,
) -> Seq<CompareFailure>
    decreases exp.len(),
{
    if exp.len() == 0 {
        Seq::empty()
    } else {
        let e = exp.last();
        expected_entries_failures(exp.drop_last(), act) + (if !spec_contains_key(act, e.0) {
            seq![CompareFailure::AccountMissingFromActual(e.0)]
        } else if spec_lookup(act, e.0) != e.1 {
            seq![CompareFailure::AccountMismatch(e.0)]
        } else {
            Seq::empty()
        })
    }
}

/// The comparison failures charged to the actual side's entries: one per
/// actual entry whose key the expected side misses, in order.
pub open spec fn actual_entries_failures(
    exp: Seq<(Key, AccountView)>,
    act: Seq<(Key, AccountView)>,
) -> Seq<CompareFailure>
    decreases act.len(),
{
    if act.len() == 0 {
        Seq::empty()
    } else {
        let a = act.last();
        actual_entries_failures(exp, act.drop_last()) + (if !spec_contains_key(exp, a.0) {
            seq![CompareFailure::AccountMissingFromExpected(a.0)]
        } else {
            Seq::empty()
        })
    }
}

/// The failures of the whole-account-list comparison: both sides' entries
/// are matched by key, in whatever order and number each side holds them.
pub open spec fn all_accounts_failures(
    exp: Seq<(Key, AccountView)>,
    act: Seq<(Key, AccountView)>,
) -> Seq<CompareFailure> {
    expected_entries_failures(exp, act) + actual_entries_failures(exp, act)
}

/// The failures of the single-account comparison at `k`: a side missing
/// the key while the other holds it is a failure; both sides missing it
/// agree.
pub open spec fn one_account_failures(
    exp: Seq<(Key, AccountView)>,
    act: Seq<(Key, AccountView)>,
    k: Key,
) -> Seq<CompareFailure> {
    if spec_contains_key(exp, k) {
        if !spec_contains_key(act, k) {
            seq![CompareFailure::AccountMissingFromActual(k)]
        } else if spec_lookup(act, k) != spec_lookup(exp, k) {
            seq![CompareFailure::AccountMismatch(k)]
        } else {
            Seq::empty()
        }
    } else if spec_contains_key(act, k) {
        seq![CompareFailure::AccountMissingFromExpected(k)]
    } else {
        Seq::empty()
    }
}

/// The failures produced by one comparison dimension.
pub open spec fn one_compare_failures(
    exp: InstructionResultView,
    act: InstructionResultView,
    c: Compare,
) -> Seq<CompareFailure> {
    match c {
        Compare::ComputeUnits => if exp.compute_units_consumed == act.compute_units_consumed {
            Seq::empty()
        } else {
            seq![
                CompareFailure::ComputeUnits {
                    expected: exp.compute_units_consumed,
                    actual: act.compute_units_consumed,
                },
            ]
        },
        Compare::ExecutionTime => if exp.execution_time == act.execution_time {
            Seq::empty()
        } else {
            seq![
                CompareFailure::ExecutionTime {
                    expected: exp.execution_time,
                    actual: act.execution_time,
                },
            ]
        },
        Compare::ProgramResult => if exp.program_result == act.program_result {
            Seq::empty()
        } else {
            seq![
                CompareFailure::ProgramResult {
                    expected: exp.program_result,
                    actual: act.program_result,
                },
            ]
        },
        Compare::ReturnData => if exp.return_data == act.return_data {
            Seq::empty()
        } else {
            seq![CompareFailure::ReturnData]
        },
        Compare::AllResultingAccounts => all_accounts_failures(
            exp.resulting_accounts,
            act.resulting_accounts,
        ),
        Compare::ResultingAccount(k) => one_account_failures(
            exp.resulting_accounts,
            act.resulting_accounts,
            k,
        ),
    }
}

/// The failures produced by a selector set, each dimension evaluated
/// independently, concatenated in order.
pub open spec fn compares_failures(
    exp: InstructionResultView,
    act: InstructionResultView,
    compares: Seq<Compare>,
) -> Seq<CompareFailure>
    decreases compares.len(),
{
    if compares.len() == 0 {
        Seq::empty()
    } else {
        compares_failures(exp, act, compares.drop_last()) + one_compare_failures(
            exp,
            act,
            compares.last(),
        )
    }
}

/// Evaluate the failures charged to the expected side's entries.
fn eval_expected_entries(
    expected_accounts: &Vec<(Key, Account)>,
    actual_accounts: &Vec<(Key, Account)>,
) -> (failures: Vec<CompareFailure>)
    ensures
        failures@ == expected_entries_failures(
            accounts_view(expected_accounts@),
            accounts_view(actual_accounts@),
        ),
{
    let ghost exp = accounts_view(expected_accounts@);
    let ghost act = accounts_view(actual_accounts@);
    let mut failures: Vec<CompareFailure> = Vec::new();
    let n = expected_accounts.len();
    let mut i: usize = 0;
    while i < n
        invariant
            i <= n,
            n == expected_accounts.len(),
            exp == accounts_view(expected_accounts@),
            act == accounts_view(actual_accounts@),
            exp.len() == n,
            failures@ == expected_entries_failures(exp.take(i as int), act),
        decreases n - i,
    {
        proof {
            assert(exp.take(i + 1 as int).drop_last() =~= exp.take(i as int));
            assert(exp.take(i + 1 as int).last() == exp[i as int]);
        }
        let key = expected_accounts[i].0;
        match find_account(actual_accounts, &key) {
            None => {
                failures.push(CompareFailure::AccountMissingFromActual(key));
            },
            Some(a) => {
                if !crate::types::accounts_equal(a, &expected_accounts[i].1) {
                    failures.push(CompareFailure::AccountMismatch(key));
                }
            },
        }
        i += 1;
    }
    proof {
        assert(exp.take(n as int) =~= exp);
    }
    failures
}

/// Evaluate the failures charged to the actual side's entries.
fn eval_actual_entries(
    expected_accounts: &Vec<(Key, Account)>,
    actual_accounts: &Vec<(Key, Account)>,
) -> (failures: Vec<CompareFailure>)
    ensures
        failures@ == actual_entries_failures(
            accounts_view(expected_accounts@),
            accounts_view(actual_accounts@),
        ),
{
    let ghost exp = accounts_view(expected_accounts@);
    let ghost act = accounts_view(actual_accounts@);
    let mut failures: Vec<CompareFailure> = Vec::new();
    let n = actual_accounts.len();
    let mut i: usize = 0;
    while i < n
        invariant
            i <= n,
            n == actual_accounts.len(),
            exp == accounts_view(expected_accounts@),
            act == accounts_view(actual_accounts@),
            act.len() == n,
            failures@ == actual_entries_failures(exp, act.take(i as int)),
        decreases n - i,
    {
        proof {
            assert(act.take(i + 1 as int).drop_last() =~= act.take(i as int));
            assert(act.take(i + 1 as int).last() == act[i as int]);
        }
        let key = actual_accounts[i].0;
        match find_account(expected_accounts, &key) {
            None => {
                failures.push(CompareFailure::AccountMissingFromExpected(key));
            },
            Some(_) => {},
        }
        i += 1;
    }
    proof {
        assert(act.take(n as int) =~= act);
    }
    failures
}

/// Evaluate the single-account comparison at `k`.
fn eval_one_account(
    expected_accounts: &Vec<(Key, Account)>,
    actual_accounts: &Vec<(Key, Account)>,
    k: &Key,
) -> (failures: Vec<CompareFailure>)
    ensures
        failures@ == one_account_failures(
            accounts_view(expected_accounts@),
            accounts_view(actual_accounts@),
            *k,
        ),
{
    let mut failures: Vec<CompareFailure> = Vec::new();
    match find_account(expected_accounts, k) {
        Some(e) => {
            match find_account(actual_accounts, k) {
                None => {
                    failures.push(CompareFailure::AccountMissingFromActual(*k));
                },
                Some(a) => {
                    if !crate::types::accounts_equal(a, e) {
                        failures.push(CompareFailure::AccountMismatch(*k));
                    }
                },
            }
        },
        None => {
            match find_account(actual_accounts, k) {
                Some(_) => {
                    failures.push(CompareFailure::AccountMissingFromExpected(*k));
                },
                None => {},
            }
        },
    }
    proof {
        assert(failures@ =~= one_account_failures(
            accounts_view(expected_accounts@),
            accounts_view(actual_accounts@),
            *k,
        ));
    }
    failures
}

impl InstructionResult {
    /// Evaluate every selected comparison dimension between this result
    /// (the expected side) and `actual`, and return every violation, in
    /// evaluation order.
    pub fn evaluate_comparison(&self, actual: &InstructionResult, compares: &Vec<Compare>) -> (r:
        Vec<CompareFailure>)
        ensures
            r@ == compares_failures(self@, actual@, compares@),
    {
        let mut failures: Vec<CompareFailure> = Vec::new();
        let n = compares.len();
        let mut i: usize = 0;
        while i < n
            invariant
                i <= n,
                n == compares.len(),
                failures@ == compares_failures(self@, actual@, compares@.take(i as int)),
            decreases n - i,
        {
            proof {
                assert(compares@.take(i + 1 as int).drop_last() =~= compares@.take(i as int));
                assert(compares@.take(i + 1 as int).last() == compares@[i as int]);
            }
            let mut f: Vec<CompareFailure> = match &compares[i] {
                Compare::ComputeUnits => {
                    let mut f: Vec<CompareFailure> = Vec::new();
                    if self.compute_units_consumed != actual.compute_units_consumed {
                        f.push(
                            CompareFailure::ComputeUnits {
                                expected: self.compute_units_consumed,
                                actual: actual.compute_units_consumed,
                            },
                        );
                    }
                    f
                },
                Compare::ExecutionTime => {
                    let mut f: Vec<CompareFailure> = Vec::new();
                    if self.execution_time != actual.execution_time {
                        f.push(
                            CompareFailure::ExecutionTime {
                                expected: self.execution_time,
                                actual: actual.execution_time,
                            },
                        );
                    }
                    f
                },
                Compare::ProgramResult => {
                    let mut f: Vec<CompareFailure> = Vec::new();
                    if !program_results_equal(&self.program_result, &actual.program_result) {
                        f.push(
                            CompareFailure::ProgramResult {
                                expected: self.program_result,
                                actual: actual.program_result,
                            },
                        );
                    }
                    f
                },
                Compare::ReturnData => {
                    let mut f: Vec<CompareFailure> = Vec::new();
                    if !bytes_equal(&self.return_data, &actual.return_data) {
                        f.push(CompareFailure::ReturnData);
                    }
                    f
                },
                Compare::AllResultingAccounts => {
                    let mut f = eval_expected_entries(
                        &self.resulting_accounts,
                        &actual.resulting_accounts,
                    );
                    let mut g = eval_actual_entries(
                        &self.resulting_accounts,
                        &actual.resulting_accounts,
                    );
                    f.append(&mut g);
                    f
                },
                Compare::ResultingAccount(k) => {
                    eval_one_account(&self.resulting_accounts, &actual.resulting_accounts, k)
                },
            };
            failures.append(&mut f);
            i += 1;
        }
        proof {
            assert(compares@.take(n as int) =~= compares@);
        }
        failures
    }

    /// Compare this result (the expected side) against `actual` under the
    /// given policy. With soft-fail configuration the outcome is `Ok`
    /// carrying whether every selected dimension matched, after all were
    /// evaluated. With fail-fast configuration a mismatch is fatal: the
    /// outcome surfaces the first violation as `Err`, for the caller to
    /// abort with.
    pub fn compare_with_config(
        &self,
        actual: &InstructionResult,
        compares: &Vec<Compare>,
        config: &Config,
    ) -> (r: Result<bool, CompareFailure>)
        ensures
            ({
                let fs = compares_failures(self@, actual@, compares@);
                if config.panic_on_failure {
                    if fs.len() == 0 {
                        r == Result::<bool, CompareFailure>::Ok(true)
                    } else {
                        r == Result::<bool, CompareFailure>::Err(fs[0])
                    }
                } else {
                    r == Result::<bool, CompareFailure>::Ok(fs.len() == 0)
                }
            }),
    {
        let failures = self.evaluate_comparison(actual, compares);
        if config.panic_on_failure {
            if failures.len() == 0 {
                Ok(true)
            } else {
                Err(failures[0])
            }
        } else {
            Ok(failures.len() == 0)
        }
    }
}

} // verus!
