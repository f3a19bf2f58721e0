//! The execution orchestrator: for a single instruction or an ordered
//! chain, compile the execution context, hand it to the external executor
//! capability, and reconcile the final account states back onto the
//! caller's original account ordering, folding per-step results into a
//! cumulative result with early exit on the first failing step.
//!
//! The executor is an opaque capability: nothing is assumed of what it
//! returns, and every contract here holds for every possible outcome.

use vstd::prelude::*;

use crate::accounts::compile_accounts;
use crate::accounts::first_unresolved;
use crate::accounts::instruction_error;
use crate::accounts::FallbackSource;
use crate::accounts::InstructionAccount;
use crate::accounts::MolluskError;
use crate::accounts::StubPolicy;
use crate::check::checks_failures;
use crate::check::Check;
use crate::check::CheckFailure;
use crate::config::CheckContext;
use crate::config::Config;
use crate::types::accounts_view;
use crate::types::clone_accounts;
use crate::types::find_account;
use crate::types::keys_of;
use crate::types::sat_add_u64;
use crate::types::spec_contains_key;
use crate::types::spec_lookup;
use crate::types::Account;
use crate::types::AccountView;
use crate::types::Instruction;
use crate::types::InstructionResult;
use crate::types::InstructionView;
use crate::types::InstructionResultView;
use crate::types::Key;
use crate::types::ProgramResult;
use crate::types::RawResult;

verus! {

/// What the external executor hands back for one invocation: consumed
/// resources, the outcome codes, the return data, and the final state of
/// the accounts it touched (keyed, in its own order).
#[derive(Clone, PartialEq, Eq, Debug)]
pub struct ExecutorOutput {
    pub compute_units_consumed: u64,
    pub execution_time: u64,
    pub program_result: ProgramResult,
    pub raw_result: RawResult,
    pub return_data: Vec<u8>,
    pub resulting_accounts: Vec<(Key, Account)>,
}

impl Default for ExecutorOutput {
    /// A successful invocation that consumed nothing and touched nothing.
    fn default() -> (r: ExecutorOutput)
        ensures
            r.compute_units_consumed == 0,
            r.execution_time == 0,
            r.program_result == ProgramResult::Success,
            r.raw_result == RawResult::Success,
            r.return_data@ =~= Seq::<u8>::empty(),
            r.resulting_accounts@ =~= Seq::<(Key, Account)>::empty(),
    {
        ExecutorOutput {
            compute_units_consumed: 0,
            execution_time: 0,
            program_result: ProgramResult::Success,
            raw_result: RawResult::Success,
            return_data: Vec::new(),
            resulting_accounts: Vec::new(),
        }
    }
}

/// The external capability that performs the actual program invocation.
/// It consumes a compiled account list and instruction bytes; nothing is
/// assumed about what it returns.
pub trait Executor {
    /// Invoke the program at `program_id_index` over the compiled account
    /// list with the given instruction data.
    fn invoke(
        &mut self,
        program_id_index: u16,
        transaction_accounts: &Vec<(Key, Account)>,
        instruction_data: &Vec<u8>,
        instruction_accounts: &Vec<InstructionAccount>,
    ) -> ExecutorOutput;
}

/// An executor that replays a fixed queue of outputs, one per invocation,
/// and reports an empty successful invocation once the queue is spent.
#[derive(Clone, Debug)]
pub struct ScriptedExecutor {
    outputs: Vec<ExecutorOutput>,
}

impl ScriptedExecutor {
    /// An executor that will hand back the given outputs in order.
    pub fn new(outputs: Vec<ExecutorOutput>) -> (r: ScriptedExecutor) {
        ScriptedExecutor { outputs }
    }
}

impl Executor for ScriptedExecutor {
    fn invoke(
        &mut self,
        program_id_index: u16,
        transaction_accounts: &Vec<(Key, Account)>,
        instruction_data: &Vec<u8>,
        instruction_accounts: &Vec<InstructionAccount>,
    ) -> ExecutorOutput {
        if self.outputs.len() == 0 {
            ExecutorOutput::default()
        } else {
            self.outputs.remove(0)
        }
    }
}

/// The caller-aligned resulting accounts: every provided key keeps its
/// position; a successful execution takes the executor's final state for
/// the keys it reported; a failed execution leaves every account at its
/// pre-call state.
pub open spec fn reconcile_spec(
    provided: Seq<(Key, AccountView)>,
    success: bool,
    finals: Seq<(Key, AccountView)>,
) -> Seq<(Key, AccountView)> {
    Seq::new(
        provided.len(),
        |i: int|
            (
                provided[i].0,
                if success && spec_contains_key(finals, provided[i].0) {
                    spec_lookup(finals, provided[i].0)
                } else {
                    provided[i].1
                },
            ),
    )
}

/// Reconciliation reproduces the caller's original key ordering exactly,
/// whatever the executor reported and in whatever order — the round trip
/// from the caller's accounts through compilation, execution, and
/// reconciliation preserves the caller's ordering.
pub proof fn lemma_reconcile_preserves_ordering(
    provided: Seq<(Key, AccountView)>,
    success: bool,
    finals: Seq<(Key, AccountView)>,
)
    ensures
        reconcile_spec(provided, success, finals).len() == provided.len(),
        keys_of(reconcile_spec(provided, success, finals)) == keys_of(provided),
{
    assert(keys_of(reconcile_spec(provided, success, finals)) =~= keys_of(provided));
}

/// A failed execution reconciles to the provided accounts unchanged:
/// nothing is reverted or advanced.
pub proof fn lemma_reconcile_failure_identity(
    provided: Seq<(Key, AccountView)>,
    finals: Seq<(Key, AccountView)>,
)
    ensures
        reconcile_spec(provided, false, finals) == provided,
{
    assert(reconcile_spec(provided, false, finals) =~= provided);
}

/// Assemble the result of one invocation, re-aligning the executor's
/// final account states back onto the caller's original ordering.
fn build_result(provided: &Vec<(Key, Account)>, output: ExecutorOutput) -> (r: InstructionResult)
    ensures
        r@.compute_units_consumed == output.compute_units_consumed,
        r@.execution_time == output.execution_time,
        r@.program_result == output.program_result,
        r@.raw_result == output.raw_result,
        r@.return_data == output.return_data@,
        r@.resulting_accounts == reconcile_spec(
            accounts_view(provided@),
            output.program_result is Success,
            accounts_view(output.resulting_accounts@),
        ),
{
    let ghost prov = accounts_view(provided@);
    let ghost fins = accounts_view(output.resulting_accounts@);
    let success = output.program_result.is_ok();
    let mut resulting: Vec<(Key, Account)> = Vec::new();
    let n = provided.len();
    let mut i: usize = 0;
    while i < n
        invariant
            i <= n,
            n == provided.len(),
            prov == accounts_view(provided@),
            fins == accounts_view(output.resulting_accounts@),
            prov.len() == n,
            success == (output.program_result is Success),
            resulting@.len() == i,
            forall|j: int|
                0 <= j < i ==> (#[trigger] resulting@[j]).0 == prov[j].0 && resulting@[j].1@ == (
                if success && spec_contains_key(fins, prov[j].0) {
                    spec_lookup(fins, prov[j].0)
                } else {
                    prov[j].1
                }),
        decreases n - i,
    {
        let key = provided[i].0;
        let state: Account = if success {
            match find_account(&output.resulting_accounts, &key) {
                Some(a) => a.duplicate(),
                None => provided[i].1.duplicate(),
            }
        } else {
            provided[i].1.duplicate()
        };
        resulting.push((key, state));
        i += 1;
    }
    proof {
        assert(accounts_view(resulting@) =~= reconcile_spec(prov, success, fins));
    }
    InstructionResult {
        compute_units_consumed: output.compute_units_consumed,
        execution_time: output.execution_time,
        program_result: output.program_result,
        raw_result: output.raw_result,
        return_data: output.return_data,
        resulting_accounts: resulting,
    }
}

/// Folding one step into a cumulative result: compute units and execution
/// time accumulate by saturating sum, every other field takes the step's
/// value.
pub open spec fn absorb_spec(
    acc: InstructionResultView,
    step: InstructionResultView,
) -> InstructionResultView {
    InstructionResultView {
        compute_units_consumed: sat_add_u64(acc.compute_units_consumed, step.compute_units_consumed),
        execution_time: sat_add_u64(acc.execution_time, step.execution_time),
        program_result: step.program_result,
        raw_result: step.raw_result,
        return_data: step.return_data,
        resulting_accounts: step.resulting_accounts,
    }
}

/// The chain fold: steps are absorbed in order, and the chain stops after
/// the first step whose result is not success. The cumulative result
/// reflects execution up to and including that failing step.
pub open spec fn chain_fold(
    acc: InstructionResultView,
    steps: Seq<InstructionResultView>,
) -> InstructionResultView
    decreases steps.len(),
{
    if steps.len() == 0 {
        acc
    } else {
        let a2 = absorb_spec(acc, steps[0]);
        if !(a2.program_result is Success) {
            a2
        } else {
            chain_fold(a2, steps.drop_first())
        }
    }
}

/// The cumulative result a chain starts from: a successful empty result
/// holding the caller's accounts.
pub open spec fn initial_chain_result(accs: Seq<(Key, AccountView)>) -> InstructionResultView {
    InstructionResultView {
        compute_units_consumed: 0,
        execution_time: 0,
        program_result: ProgramResult::Success,
        raw_result: RawResult::Success,
        return_data: Seq::empty(),
        resulting_accounts: accs,
    }
}

/// Chain semantics over a successful step followed by a failing step:
/// the fold of the two steps consumes the sum of both steps' compute
/// units and execution times (the failing step's cost is counted), takes
/// the failing step's result code, and takes the failing step's
/// resulting accounts. Since a failed invocation reconciles to its input
/// unchanged, and the failing step's input is the successful step's
/// output, the chain's resulting accounts equal the post-first-step
/// state: the second step's failure does not revert the first step.
///
/// The sums are exact whenever they fit in 64 bits; an input on which
/// they would overflow saturates instead.
pub proof fn lemma_chain_two_steps(
    init: InstructionResultView,
    s1: InstructionResultView,
    s2: InstructionResultView,
)
    requires
        s1.program_result is Success,
        !(s2.program_result is Success),
        s2.resulting_accounts == s1.resulting_accounts,
        init.compute_units_consumed + s1.compute_units_consumed + s2.compute_units_consumed
            <= u64::MAX,
        init.execution_time + s1.execution_time + s2.execution_time <= u64::MAX,
    ensures
        chain_fold(init, seq![s1, s2]).compute_units_consumed == init.compute_units_consumed
            + s1.compute_units_consumed + s2.compute_units_consumed,
        chain_fold(init, seq![s1, s2]).execution_time == init.execution_time + s1.execution_time
            + s2.execution_time,
        chain_fold(init, seq![s1, s2]).program_result == s2.program_result,
        chain_fold(init, seq![s1, s2]).resulting_accounts == s1.resulting_accounts,
{
    let steps = seq![s1, s2];
    let a1 = absorb_spec(init, s1);
    assert(steps[0] == s1);
    assert(steps.drop_first() =~= seq![s2]);
    assert(seq![s2][0] == s2);
    assert(seq![s2].drop_first() =~= Seq::<InstructionResultView>::empty());
    let a2 = absorb_spec(a1, s2);
    assert(chain_fold(a1, seq![s2]) == a2);
    assert(chain_fold(init, steps) == a2);
}

/// The sum of a stake distribution.
pub open spec fn stake_sum(s: Seq<u64>) -> int
    decreases s.len(),
{
    if s.len() == 0 {
        0
    } else {
        stake_sum(s.drop_last()) + s.last()
    }
}

/// Split a target total of epoch stake over mock vote accounts: one
/// account per started billion lamports, each carrying the even share,
/// with the division remainder on the last. The shares sum exactly to the
/// target; a zero target yields no accounts.
pub fn mock_epoch_stake_distribution(target_total: u64) -> (r: Vec<u64>)
    ensures
        stake_sum(r@) == target_total,
        target_total == 0 ==> r@.len() == 0,
        target_total > 0 ==> r@.len() == (target_total + 999_999_999) / 1_000_000_000,
        forall|j: int|
            0 <= j < r@.len() - 1 ==> #[trigger] r@[j] == target_total as int / r@.len() as int,
        target_total > 0 ==> r@.last() == target_total as int / r@.len() as int
            + target_total as int % r@.len() as int,
{
    let mut r: Vec<u64> = Vec::new();
    if target_total == 0 {
        return r;
    }
    let num_accounts: u64 = if target_total % 1_000_000_000 == 0 {
        target_total / 1_000_000_000
    } else {
        target_total / 1_000_000_000 + 1
    };
    proof {
        assert(1 <= num_accounts && num_accounts == (target_total + 999_999_999)
            / 1_000_000_000) by (nonlinear_arith)
            requires
                target_total > 0,
                num_accounts as int == if target_total % 1_000_000_000 == 0 {
                    (target_total as int) / 1_000_000_000
                } else {
                    (target_total as int) / 1_000_000_000 + 1
                },
        ;
    }
    let base_stake = target_total / num_accounts;
    let remainder = target_total % num_accounts;
    proof {
        assert(num_accounts * base_stake + remainder == target_total && 0 <= remainder && 0
            <= base_stake) by (nonlinear_arith)
            requires
                num_accounts >= 1,
                base_stake == target_total / num_accounts,
                remainder == target_total % num_accounts,
        ;
    }
    let mut i: u64 = 0;
    while i < num_accounts - 1
        invariant
            1 <= num_accounts,
            i <= num_accounts - 1,
            0 <= base_stake,
            0 <= remainder,
            num_accounts * base_stake + remainder == target_total,
            r@.len() == i,
            stake_sum(r@) == i * base_stake,
            forall|j: int| 0 <= j < r@.len() ==> #[trigger] r@[j] == base_stake,
        decreases num_accounts - 1 - i,
    {
        proof {
            assert(i * base_stake + base_stake == (i + 1) * base_stake && (i + 1) * base_stake
                + remainder <= target_total) by (nonlinear_arith)
                requires
                    0 <= i,
                    i + 1 <= num_accounts,
                    0 <= base_stake,
                    0 <= remainder,
                    num_accounts * base_stake + remainder == target_total,
            ;
        }
        let ghost prev = r@;
        r.push(base_stake);
        proof {
            assert(r@.drop_last() =~= prev);
            assert(r@.last() == base_stake);
        }
        i += 1;
    }
    proof {
        assert((num_accounts - 1) * base_stake + (base_stake + remainder) == target_total)
            by (nonlinear_arith)
            requires
                1 <= num_accounts,
                num_accounts * base_stake + remainder == target_total,
        ;
        assert(0 <= (num_accounts - 1) * base_stake) by (nonlinear_arith)
            requires
                1 <= num_accounts,
                0 <= base_stake,
        ;
    }
    let last = base_stake + remainder;
    let ghost prev = r@;
    r.push(last);
    proof {
        assert(r@.drop_last() =~= prev);
        assert(r@.last() == last);
    }
    r
}

/// Whether one instruction compiles against the given provided accounts:
/// every required position fits in a byte, and every key resolves through
/// some tier. This depends only on the instruction and on which keys the
/// provided accounts carry.
pub open spec fn step_compiles<F: FallbackSource, S: StubPolicy>(
    fallback: &F,
    stubs: &S,
    ix: InstructionView,
    provided: Seq<(Key, AccountView)>,
) -> bool {
    let km = crate::keys::compile_spec(seq![ix]);
    instruction_error(km, ix) is None && first_unresolved(km, provided, fallback, stubs) == -1
}

/// What holds of a successfully processed instruction, whatever the
/// executor returned: it compiled against the provided accounts; the
/// resulting accounts carry the provided keys in the provided order; a
/// non-success result leaves every account at its pre-call state; and the
/// resulting accounts reconcile the provided accounts with some
/// executor-reported final states.
pub open spec fn process_ok_spec<F: FallbackSource, S: StubPolicy>(
    fallback: &F,
    stubs: &S,
    ix: InstructionView,
    provided: Seq<(Key, AccountView)>,
    res: InstructionResultView,
) -> bool {
    &&& step_compiles(fallback, stubs, ix, provided)
    &&& keys_of(res.resulting_accounts) == keys_of(provided)
    &&& (!(res.program_result is Success) ==> res.resulting_accounts == provided)
    &&& (exists|finals: Seq<(Key, AccountView)>|
        res.resulting_accounts == #[trigger] reconcile_spec(
            provided,
            res.program_result is Success,
            finals,
        ))
}

/// The exact failure of an instruction that does not compile against the
/// provided accounts: the instruction's own compilation error where it
/// has one, otherwise the first unresolvable key. False whenever the
/// instruction compiles.
pub open spec fn process_err_spec<F: FallbackSource, S: StubPolicy>(
    fallback: &F,
    stubs: &S,
    ix: InstructionView,
    provided: Seq<(Key, AccountView)>,
    e: MolluskError,
) -> bool {
    let km = crate::keys::compile_spec(seq![ix]);
    match instruction_error(km, ix) {
        Some(e0) => e == e0,
        None => {
            let i = first_unresolved(km, provided, fallback, stubs);
            0 <= i && e == MolluskError::AccountMissing(km[i].key)
        },
    }
}

/// What holds of the executed steps of a chain, apart from why execution
/// stopped: at most one step per instruction, every step before the last
/// succeeded, and each step is a processed instruction (in the sense of
/// `process_ok_spec`) over the accounts the fold of the previous steps
/// left behind — step one over the caller's accounts, each later step
/// over its predecessor's resulting accounts.
pub open spec fn chain_steps_partial<F: FallbackSource, S: StubPolicy>(
    fallback: &F,
    stubs: &S,
    instrs: Seq<InstructionView>,
    provided: Seq<(Key, AccountView)>,
    steps: Seq<InstructionResultView>,
) -> bool {
    &&& steps.len() <= instrs.len()
    &&& (forall|j: int| 0 <= j < steps.len() - 1 ==> (#[trigger] steps[j]).program_result is Success)
    &&& (forall|j: int|
        0 <= j < steps.len() ==> process_ok_spec(
            fallback,
            stubs,
            instrs[j],
            chain_fold(initial_chain_result(provided), steps.take(j)).resulting_accounts,
            #[trigger] steps[j],
        ))
}

/// What holds of the executed steps of a completed chain: additionally,
/// execution stopped before the last instruction only because the last
/// executed step failed.
pub open spec fn chain_steps_spec<F: FallbackSource, S: StubPolicy>(
    fallback: &F,
    stubs: &S,
    instrs: Seq<InstructionView>,
    provided: Seq<(Key, AccountView)>,
    steps: Seq<InstructionResultView>,
) -> bool {
    &&& chain_steps_partial(fallback, stubs, instrs, provided, steps)
    &&& (steps.len() < instrs.len() ==> steps.len() > 0 && !(steps.last().program_result
        is Success))
}

/// What holds of a successful chain over `instrs`: the result is the
/// chain fold of a step sequence that `chain_steps_spec` ties to the
/// instructions and to the accounts threaded between the steps.
pub open spec fn chain_ok_spec<F: FallbackSource, S: StubPolicy>(
    fallback: &F,
    stubs: &S,
    instrs: Seq<InstructionView>,
    provided: Seq<(Key, AccountView)>,
    res: InstructionResultView,
) -> bool {
    exists|steps: Seq<InstructionResultView>|
        res == #[trigger] chain_fold(initial_chain_result(provided), steps) && chain_steps_spec(
            fallback,
            stubs,
            instrs,
            provided,
            steps,
        )
}

/// A failure of a validated processing call: either the execution context
/// could not be compiled, or the validation policy made a mismatch fatal.
#[derive(Clone, Copy, PartialEq, Eq, Structural, Debug)]
pub enum HarnessError {
    /// The execution context could not be compiled.
    Compile(MolluskError),
    /// A check failed under the fail-fast policy; carries the first
    /// violation.
    CheckFailed(CheckFailure),
    /// A comparison failed under the fail-fast policy; carries the first
    /// violation.
    CompareFailed(crate::compare::CompareFailure),
}

/// The orchestrator: compiles each instruction against the caller's
/// current accounts, invokes the executor, and reconciles. It owns the
/// validation policy and the two resolution capabilities.
pub struct Mollusk<E: Executor, F: FallbackSource, S: StubPolicy> {
    pub config: Config,
    pub executor: E,
    pub fallback: F,
    pub stubs: S,
}

impl<E: Executor, F: FallbackSource, S: StubPolicy> Mollusk<E, F, S> {
    /// An orchestrator over the given capabilities, with the default
    /// validation policy.
    pub fn new(executor: E, fallback: F, stubs: S) -> (r: Mollusk<E, F, S>)
        ensures
            r.config == (Config { panic_on_failure: true, verbose: false }),
    {
        Mollusk { config: Config::default(), executor, fallback, stubs }
    }

    /// Process one instruction: compile its execution context, invoke the
    /// executor, and reconcile the final account states onto the caller's
    /// original ordering. Fails exactly when compilation fails: when the
    /// instruction's keys cannot be given byte-sized positions, or when
    /// some key resolves through no tier.
    ///
    /// Whatever the executor returns: the resulting accounts carry the
    /// caller's keys in the caller's order, and an unsuccessful program
    /// result leaves every account at its pre-call state.
    pub fn process_instruction(
        &mut self,
        instruction: &Instruction,
        accounts: &Vec<(Key, Account)>,
    ) -> (r: Result<InstructionResult, MolluskError>)
        ensures
            match r {
                Ok(res) => process_ok_spec(
                    &old(self).fallback,
                    &old(self).stubs,
                    instruction@,
                    accounts_view(accounts@),
                    res@,
                ),
                Err(e) => process_err_spec(
                    &old(self).fallback,
                    &old(self).stubs,
                    instruction@,
                    accounts_view(accounts@),
                    e,
                ),
            },
            final(self).config == old(self).config,
            final(self).fallback == old(self).fallback,
            final(self).stubs == old(self).stubs,
    {
        let compiled = match compile_accounts(instruction, accounts, &self.fallback, &self.stubs) {
            Ok(c) => c,
            Err(e) => {
                return Err(e);
            },
        };
        let output = self.executor.invoke(
            compiled.program_id_index,
            &compiled.transaction_accounts,
            &instruction.data,
            &compiled.instruction_accounts,
        );
        let result = build_result(accounts, output);
        proof {
            lemma_reconcile_preserves_ordering(
                accounts_view(accounts@),
                result@.program_result is Success,
                accounts_view(output.resulting_accounts@),
            );
            if !(result@.program_result is Success) {
                lemma_reconcile_failure_identity(
                    accounts_view(accounts@),
                    accounts_view(output.resulting_accounts@),
                );
            }
        }
        Ok(result)
    }

    /// Process an ordered chain of instructions. Each step is compiled
    /// against the accounts produced by the previous successful step;
    /// compute units and execution time accumulate by sum while the other
    /// fields take the latest step's values; the chain stops after the
    /// first step whose result is not success, and the returned result
    /// reflects execution up to and including that step. A chain is not an
    /// atomic transaction: a later failure does not roll back earlier
    /// steps' account states.
    ///
    /// An empty chain returns the initial result holding the caller's
    /// accounts. Success is owed whenever every instruction compiles
    /// against the caller's key set; a failure carries the compilation
    /// error of one of the instructions, and the first instruction's
    /// compilation error whenever it has one.
    pub fn process_instruction_chain(
        &mut self,
        instructions: &Vec<Instruction>,
        accounts: &Vec<(Key, Account)>,
    ) -> (r: Result<InstructionResult, MolluskError>)
        ensures
            ({
                let provided = accounts_view(accounts@);
                let views = instructions@.map_values(|ix: Instruction| ix@);
                let fb = &old(self).fallback;
                let st = &old(self).stubs;
                match r {
                    Ok(res) => keys_of(res@.resulting_accounts) == keys_of(provided) && (views.len()
                        == 0 ==> res@ == initial_chain_result(provided)) && chain_ok_spec(
                        fb,
                        st,
                        views,
                        provided,
                        res@,
                    ),
                    Err(e) => views.len() > 0 && (exists|k: int|
                        0 <= k < views.len() && #[trigger] process_err_spec(
                            fb,
                            st,
                            views[k],
                            provided,
                            e,
                        )),
                }
            }),
            ({
                let provided = accounts_view(accounts@);
                let views = instructions@.map_values(|ix: Instruction| ix@);
                views.len() > 0 && !step_compiles(
                    &old(self).fallback,
                    &old(self).stubs,
                    views[0],
                    provided,
                ) ==> match r {
                    Ok(res) => false,
                    Err(e) => process_err_spec(
                        &old(self).fallback,
                        &old(self).stubs,
                        views[0],
                        provided,
                        e,
                    ),
                }
            }),
            ({
                let provided = accounts_view(accounts@);
                let views = instructions@.map_values(|ix: Instruction| ix@);
                (forall|k: int|
                    0 <= k < views.len() ==> step_compiles(
                        &old(self).fallback,
                        &old(self).stubs,
                        #[trigger] views[k],
                        provided,
                    )) ==> r is Ok
            }),
            final(self).config == old(self).config,
            final(self).fallback == old(self).fallback,
            final(self).stubs == old(self).stubs,
    {
        let ghost provided = accounts_view(accounts@);
        let ghost views = instructions@.map_values(|ix: Instruction| ix@);
        let mut composite = InstructionResult::default();
        composite.resulting_accounts = clone_accounts(accounts);
        let ghost init = initial_chain_result(provided);
        let ghost mut steps: Seq<InstructionResultView> = Seq::empty();
        proof {
            assert(composite@ =~= init);
            assert(chain_fold(init, steps) == init);
        }
        let n = instructions.len();
        let mut i: usize = 0;
        while i < n
            invariant
                i <= n,
                n == instructions.len(),
                provided == accounts_view(accounts@),
                views == instructions@.map_values(|ix: Instruction| ix@),
                views.len() == n,
                init == initial_chain_result(provided),
                steps.len() == i,
                composite@ == chain_fold(init, steps),
                composite@.program_result is Success,
                keys_of(composite@.resulting_accounts) == keys_of(provided),
                forall|j: int| 0 <= j < steps.len() ==> (#[trigger] steps[j]).program_result
                    is Success,
                forall|j: int|
                    0 <= j < steps.len() ==> process_ok_spec(
                        &old(self).fallback,
                        &old(self).stubs,
                        views[j],
                        chain_fold(init, steps.take(j)).resulting_accounts,
                        #[trigger] steps[j],
                    ),
                self.config == old(self).config,
                self.fallback == old(self).fallback,
                self.stubs == old(self).stubs,
            decreases n - i,
        {
            let ghost before = composite@;
            let step = match self.process_instruction(
                &instructions[i],
                &composite.resulting_accounts,
            ) {
                Ok(s) => s,
                Err(e) => {
                    proof {
                        chain_err_exit_facts(
                            &old(self).fallback,
                            &old(self).stubs,
                            views,
                            provided,
                            init,
                            steps,
                            before,
                            i as int,
                            e,
                        );
                    }
                    return Err(e);
                },
            };
            proof {
                lemma_chain_fold_snoc(init, steps, step@);
            }
            composite.absorb(step);
            proof {
                assert(composite@ =~= absorb_spec(chain_fold(init, steps), step@));
                chain_push_facts(
                    &old(self).fallback,
                    &old(self).stubs,
                    views,
                    provided,
                    init,
                    steps,
                    before,
                    step@,
                    i as int,
                );
                steps = steps.push(step@);
                assert(composite@ == chain_fold(init, steps));
                assert(keys_of(composite@.resulting_accounts) == keys_of(provided));
            }
            if composite.program_result.is_err() {
                proof {
                    assert(chain_steps_spec(
                        &old(self).fallback,
                        &old(self).stubs,
                        views,
                        provided,
                        steps,
                    ));
                    assert(composite@ == chain_fold(initial_chain_result(provided), steps));
                    chain_step0_ok_facts(&old(self).fallback, &old(self).stubs, views, provided, init, steps);
                }
                return Ok(composite);
            }
            i += 1;
        }
        proof {
            assert(chain_steps_spec(
                &old(self).fallback,
                &old(self).stubs,
                views,
                provided,
                steps,
            ));
            assert(composite@ == chain_fold(initial_chain_result(provided), steps));
            if views.len() > 0 {
                chain_step0_ok_facts(&old(self).fallback, &old(self).stubs, views, provided, init, steps);
            }
        }
        Ok(composite)
    }

    /// Process one instruction, then evaluate the given checks against the
    /// result, honoring the validation policy: with soft-fail
    /// configuration every violated comparison is enumerated in the
    /// returned list; with fail-fast configuration a violated check is
    /// fatal and surfaces the first violation as an error.
    pub fn process_and_validate_instruction<C: CheckContext>(
        &mut self,
        instruction: &Instruction,
        accounts: &Vec<(Key, Account)>,
        checks: &Vec<Check>,
        context: &C,
    ) -> (r: Result<(InstructionResult, Vec<CheckFailure>), HarnessError>)
        ensures
            ({
                let provided = accounts_view(accounts@);
                let fb = &old(self).fallback;
                let st = &old(self).stubs;
                match r {
                    Ok(p) => process_ok_spec(fb, st, instruction@, provided, p.0@) && p.1@
                        == checks_failures(context, p.0@, checks@) && (old(
                        self,
                    ).config.panic_on_failure ==> p.1@.len() == 0),
                    Err(HarnessError::Compile(e)) => process_err_spec(
                        fb,
                        st,
                        instruction@,
                        provided,
                        e,
                    ),
                    Err(HarnessError::CheckFailed(f)) => old(self).config.panic_on_failure && (
                    exists|res: InstructionResultView|
                        #[trigger] process_ok_spec(fb, st, instruction@, provided, res)
                            && checks_failures(context, res, checks@).len() > 0 && f
                            == checks_failures(context, res, checks@)[0]),
                    Err(HarnessError::CompareFailed(f)) => false,
                }
            }),
            final(self).config == old(self).config,
            final(self).fallback == old(self).fallback,
            final(self).stubs == old(self).stubs,
    {
        let result = match self.process_instruction(instruction, accounts) {
            Ok(res) => res,
            Err(e) => {
                return Err(HarnessError::Compile(e));
            },
        };
        let failures = result.evaluate_checks(checks, context);
        if self.config.panic_on_failure && failures.len() > 0 {
            return Err(HarnessError::CheckFailed(failures[0]));
        }
        Ok((result, failures))
    }

    /// Process one instruction and compare the result against externally
    /// supplied expected effects — the expected side of a fixture, decoded
    /// by the caller — along the selected dimensions, honoring the
    /// validation policy: with soft-fail configuration every violation is
    /// enumerated; with fail-fast configuration a mismatch is fatal and
    /// surfaces the first violation as an error.
    pub fn process_and_compare_instruction(
        &mut self,
        instruction: &Instruction,
        accounts: &Vec<(Key, Account)>,
        expected: &InstructionResult,
        compares: &Vec<crate::compare::Compare>,
    ) -> (r: Result<
        (InstructionResult, Vec<crate::compare::CompareFailure>),
        HarnessError,
    >)
        ensures
            ({
                let provided = accounts_view(accounts@);
                let fb = &old(self).fallback;
                let st = &old(self).stubs;
                match r {
                    Ok(p) => process_ok_spec(fb, st, instruction@, provided, p.0@) && p.1@
                        == crate::compare::compares_failures(expected@, p.0@, compares@) && (old(
                        self,
                    ).config.panic_on_failure ==> p.1@.len() == 0),
                    Err(HarnessError::Compile(e)) => process_err_spec(
                        fb,
                        st,
                        instruction@,
                        provided,
                        e,
                    ),
                    Err(HarnessError::CompareFailed(f)) => old(self).config.panic_on_failure && (
                    exists|res: InstructionResultView|
                        #[trigger] process_ok_spec(fb, st, instruction@, provided, res)
                            && crate::compare::compares_failures(expected@, res, compares@).len()
                            > 0 && f == crate::compare::compares_failures(
                            expected@,
                            res,
                            compares@,
                        )[0]),
                    Err(HarnessError::CheckFailed(f)) => false,
                }
            }),
            final(self).config == old(self).config,
            final(self).fallback == old(self).fallback,
            final(self).stubs == old(self).stubs,
    {
        let result = match self.process_instruction(instruction, accounts) {
            Ok(res) => res,
            Err(e) => {
                return Err(HarnessError::Compile(e));
            },
        };
        let failures = expected.evaluate_comparison(&result, compares);
        if self.config.panic_on_failure && failures.len() > 0 {
            return Err(HarnessError::CompareFailed(failures[0]));
        }
        Ok((result, failures))
    }

    /// Process a chain, evaluating each step's checks against that step's
    /// own result and honoring the validation policy: with soft-fail
    /// configuration the returned list concatenates, in step order, the
    /// violations of every executed step; with fail-fast configuration the
    /// first violated check is fatal and surfaces as an error, before any
    /// later step runs. Steps after the first failing step are neither
    /// executed nor checked.
    pub fn process_and_validate_instruction_chain<C: CheckContext>(
        &mut self,
        instructions: &Vec<(Instruction, Vec<Check>)>,
        accounts: &Vec<(Key, Account)>,
        context: &C,
    ) -> (r: Result<(InstructionResult, Vec<CheckFailure>), HarnessError>)
        ensures
            ({
                let provided = accounts_view(accounts@);
                let views = instructions@.map_values(|q: (Instruction, Vec<Check>)| q.0@);
                let checklists = instructions@.map_values(|q: (Instruction, Vec<Check>)| q.1);
                let fb = &old(self).fallback;
                let st = &old(self).stubs;
                match r {
                    Ok(p) => keys_of(p.0@.resulting_accounts) == keys_of(provided) && (views.len()
                        == 0 ==> p.0@ == initial_chain_result(provided) && p.1@ == Seq::<
                        CheckFailure,
                    >::empty()) && (exists|steps: Seq<InstructionResultView>|
                        p.0@ == #[trigger] chain_fold(initial_chain_result(provided), steps)
                            && chain_steps_spec(fb, st, views, provided, steps) && p.1@
                            == chain_checks(context, steps, checklists)) && (old(
                        self,
                    ).config.panic_on_failure ==> p.1@.len() == 0),
                    Err(HarnessError::Compile(e)) => views.len() > 0 && (exists|k: int|
                        0 <= k < views.len() && #[trigger] process_err_spec(
                            fb,
                            st,
                            views[k],
                            provided,
                            e,
                        )),
                    Err(HarnessError::CheckFailed(f)) => old(self).config.panic_on_failure && (
                    exists|steps: Seq<InstructionResultView>|
                        #[trigger] chain_steps_partial(fb, st, views, provided, steps)
                            && chain_checks(context, steps, checklists).len() > 0 && f
                            == chain_checks(context, steps, checklists)[0]),
                    Err(HarnessError::CompareFailed(f)) => false,
                }
            }),
            ({
                let provided = accounts_view(accounts@);
                let views = instructions@.map_values(|q: (Instruction, Vec<Check>)| q.0@);
                (forall|k: int|
                    0 <= k < views.len() ==> step_compiles(
                        &old(self).fallback,
                        &old(self).stubs,
                        #[trigger] views[k],
                        provided,
                    )) && !old(self).config.panic_on_failure ==> r is Ok
            }),
            final(self).config == old(self).config,
            final(self).fallback == old(self).fallback,
            final(self).stubs == old(self).stubs,
    {
        let ghost provided = accounts_view(accounts@);
        let ghost views = instructions@.map_values(|q: (Instruction, Vec<Check>)| q.0@);
        let ghost checklists = instructions@.map_values(|q: (Instruction, Vec<Check>)| q.1);
        let mut composite = InstructionResult::default();
        composite.resulting_accounts = clone_accounts(accounts);
        let mut failures: Vec<CheckFailure> = Vec::new();
        let ghost init = initial_chain_result(provided);
        let ghost mut steps: Seq<InstructionResultView> = Seq::empty();
        proof {
            assert(composite@ =~= init);
            assert(chain_fold(init, steps) == init);
            assert(chain_checks(context, steps, checklists) == Seq::<CheckFailure>::empty());
        }
        let n = instructions.len();
        let mut i: usize = 0;
        while i < n
            invariant
                i <= n,
                n == instructions.len(),
                provided == accounts_view(accounts@),
                views == instructions@.map_values(|q: (Instruction, Vec<Check>)| q.0@),
                checklists == instructions@.map_values(|q: (Instruction, Vec<Check>)| q.1),
                views.len() == n,
                checklists.len() == n,
                init == initial_chain_result(provided),
                steps.len() == i,
                composite@ == chain_fold(init, steps),
                composite@.program_result is Success,
                failures@ == chain_checks(context, steps, checklists),
                old(self).config.panic_on_failure ==> failures@.len() == 0,
                keys_of(composite@.resulting_accounts) == keys_of(provided),
                forall|j: int| 0 <= j < steps.len() ==> (#[trigger] steps[j]).program_result
                    is Success,
                forall|j: int|
                    0 <= j < steps.len() ==> process_ok_spec(
                        &old(self).fallback,
                        &old(self).stubs,
                        views[j],
                        chain_fold(init, steps.take(j)).resulting_accounts,
                        #[trigger] steps[j],
                    ),
                self.config == old(self).config,
                self.fallback == old(self).fallback,
                self.stubs == old(self).stubs,
            decreases n - i,
        {
            let ghost before = composite@;
            let step = match self.process_instruction(
                &instructions[i].0,
                &composite.resulting_accounts,
            ) {
                Ok(s) => s,
                Err(e) => {
                    proof {
                        assert(views[i as int] == instructions@[i as int].0@);
                        chain_err_exit_facts(
                            &old(self).fallback,
                            &old(self).stubs,
                            views,
                            provided,
                            init,
                            steps,
                            before,
                            i as int,
                            e,
                        );
                    }
                    return Err(HarnessError::Compile(e));
                },
            };
            let mut step_failures = step.evaluate_checks(&instructions[i].1, context);
            proof {
                assert(checklists[i as int] == instructions@[i as int].1);
                lemma_chain_checks_snoc(context, steps, step@, checklists);
            }
            failures.append(&mut step_failures);
            proof {
                lemma_chain_fold_snoc(init, steps, step@);
            }
            composite.absorb(step);
            proof {
                assert(composite@ =~= absorb_spec(chain_fold(init, steps), step@));
                assert(views[i as int] == instructions@[i as int].0@);
                chain_push_facts(
                    &old(self).fallback,
                    &old(self).stubs,
                    views,
                    provided,
                    init,
                    steps,
                    before,
                    step@,
                    i as int,
                );
                steps = steps.push(step@);
                assert(composite@ == chain_fold(init, steps));
                assert(failures@ == chain_checks(context, steps, checklists));
                assert(keys_of(composite@.resulting_accounts) == keys_of(provided));
            }
            if self.config.panic_on_failure && failures.len() > 0 {
                proof {
                    assert(chain_steps_partial(
                        &old(self).fallback,
                        &old(self).stubs,
                        views,
                        provided,
                        steps,
                    ));
                }
                return Err(HarnessError::CheckFailed(failures[0]));
            }
            if composite.program_result.is_err() {
                proof {
                    assert(chain_steps_spec(
                        &old(self).fallback,
                        &old(self).stubs,
                        views,
                        provided,
                        steps,
                    ));
                    assert(composite@ == chain_fold(initial_chain_result(provided), steps));
                }
                return Ok((composite, failures));
            }
            i += 1;
        }
        proof {
            assert(chain_steps_spec(
                &old(self).fallback,
                &old(self).stubs,
                views,
                provided,
                steps,
            ));
            assert(composite@ == chain_fold(initial_chain_result(provided), steps));
        }
        Ok((composite, failures))
    }
}

/// At a chain's compile-failure exit: translate the step's exact failure
/// from the step's own accounts (whose keys are the caller's) back to the
/// caller's accounts, and rule the exit out where the first instruction,
/// or every instruction, compiles against the caller's accounts.
proof fn chain_err_exit_facts<F: FallbackSource, S: StubPolicy>(
    fallback: &F,
    stubs: &S,
    views: Seq<InstructionView>,
    provided: Seq<(Key, AccountView)>,
    init: InstructionResultView,
    steps: Seq<InstructionResultView>,
    before: InstructionResultView,
    i: int,
    e: MolluskError,
)
    requires
        0 <= i < views.len(),
        init == initial_chain_result(provided),
        steps.len() == i,
        before == chain_fold(init, steps),
        keys_of(before.resulting_accounts) == keys_of(provided),
        process_err_spec(fallback, stubs, views[i], before.resulting_accounts, e),
        forall|j: int|
            0 <= j < steps.len() ==> process_ok_spec(
                fallback,
                stubs,
                views[j],
                chain_fold(init, steps.take(j)).resulting_accounts,
                #[trigger] steps[j],
            ),
    ensures
        process_err_spec(fallback, stubs, views[i], provided, e),
        !step_compiles(fallback, stubs, views[i], provided),
        views.len() > 0 && !step_compiles(fallback, stubs, views[0], provided) ==> i == 0,
{
    let km = crate::keys::compile_spec(seq![views[i]]);
    crate::accounts::lemma_first_unresolved_same_keys(
        km,
        before.resulting_accounts,
        provided,
        fallback,
        stubs,
    );
    if i > 0 {
        assert(process_ok_spec(
            fallback,
            stubs,
            views[0],
            chain_fold(init, steps.take(0)).resulting_accounts,
            steps[0],
        ));
        assert(steps.take(0) =~= Seq::<InstructionResultView>::empty());
        assert(chain_fold(init, steps.take(0)) == init);
        assert(step_compiles(fallback, stubs, views[0], provided));
    }
}

/// Pushing a freshly processed step onto a chain's executed steps: the
/// per-step conditions carry over to the extended sequence.
proof fn chain_push_facts<F: FallbackSource, S: StubPolicy>(
    fallback: &F,
    stubs: &S,
    views: Seq<InstructionView>,
    provided: Seq<(Key, AccountView)>,
    init: InstructionResultView,
    steps: Seq<InstructionResultView>,
    before: InstructionResultView,
    step: InstructionResultView,
    i: int,
)
    requires
        0 <= i < views.len(),
        init == initial_chain_result(provided),
        steps.len() == i,
        before == chain_fold(init, steps),
        process_ok_spec(fallback, stubs, views[i], before.resulting_accounts, step),
        forall|j: int|
            0 <= j < steps.len() ==> process_ok_spec(
                fallback,
                stubs,
                views[j],
                chain_fold(init, steps.take(j)).resulting_accounts,
                #[trigger] steps[j],
            ),
    ensures
        forall|j: int|
            0 <= j < steps.push(step).len() ==> process_ok_spec(
                fallback,
                stubs,
                views[j],
                chain_fold(init, steps.push(step).take(j)).resulting_accounts,
                #[trigger] steps.push(step)[j],
            ),
{
    assert forall|j: int| 0 <= j < steps.push(step).len() implies process_ok_spec(
        fallback,
        stubs,
        views[j],
        chain_fold(init, steps.push(step).take(j)).resulting_accounts,
        #[trigger] steps.push(step)[j],
    ) by {
        if j < steps.len() {
            assert(steps.push(step).take(j) =~= steps.take(j));
            assert(steps.push(step)[j] == steps[j]);
        } else {
            assert(steps.push(step).take(j) =~= steps);
            assert(steps.push(step)[j] == step);
        }
    }
}

/// In a non-empty run of executed steps whose first step is a processed
/// instruction over the caller's accounts, the first instruction compiles
/// against the caller's accounts.
proof fn chain_step0_ok_facts<F: FallbackSource, S: StubPolicy>(
    fallback: &F,
    stubs: &S,
    views: Seq<InstructionView>,
    provided: Seq<(Key, AccountView)>,
    init: InstructionResultView,
    steps: Seq<InstructionResultView>,
)
    requires
        init == initial_chain_result(provided),
        steps.len() > 0,
        views.len() > 0,
        process_ok_spec(
            fallback,
            stubs,
            views[0],
            chain_fold(init, steps.take(0)).resulting_accounts,
            steps[0],
        ),
    ensures
        step_compiles(fallback, stubs, views[0], provided),
{
    assert(steps.take(0) =~= Seq::<InstructionResultView>::empty());
    assert(chain_fold(init, steps.take(0)) == init);
}

/// The check failures a validated chain reports: each executed step's
/// checks are evaluated against that step's own result, in step order,
/// and evaluation stops with the first failing step (later steps are
/// neither executed nor checked).
pub open spec fn chain_checks<C: CheckContext>(
    ctx: &C,
    steps: Seq<InstructionResultView>,
    checklists: Seq<Vec<Check>>,
) -> Seq<CheckFailure>
    decreases steps.len(),
{
    if steps.len() == 0 {
        Seq::empty()
    } else {
        let fs = checks_failures(ctx, steps[0], checklists[0]@);
        if !(steps[0].program_result is Success) {
            fs
        } else {
            fs + chain_checks(ctx, steps.drop_first(), checklists.drop_first())
        }
    }
}

/// Extending a run of successful steps by one more step appends that
/// step's check failures.
pub proof fn lemma_chain_checks_snoc<C: CheckContext>(
    ctx: &C,
    steps: Seq<InstructionResultView>,
    step: InstructionResultView,
    checklists: Seq<Vec<Check>>,
)
    requires
        steps.len() < checklists.len(),
        forall|j: int| 0 <= j < steps.len() ==> (#[trigger] steps[j]).program_result is Success,
    ensures
        chain_checks(ctx, steps.push(step), checklists) == chain_checks(ctx, steps, checklists)
            + checks_failures(ctx, step, checklists[steps.len() as int]@),
    decreases steps.len(),
{
    if steps.len() == 0 {
        assert(steps.push(step)[0] == step);
        assert(steps.push(step).drop_first() =~= Seq::<InstructionResultView>::empty());
        if step.program_result is Success {
            assert(chain_checks(ctx, Seq::<InstructionResultView>::empty(), checklists.drop_first())
                == Seq::<CheckFailure>::empty());
        }
        assert(chain_checks(ctx, steps, checklists) == Seq::<CheckFailure>::empty());
        assert(chain_checks(ctx, steps.push(step), checklists) =~= Seq::<
            CheckFailure,
        >::empty() + checks_failures(ctx, step, checklists[0]@));
    } else {
        assert(steps.push(step)[0] == steps[0]);
        assert(steps[0].program_result is Success);
        assert(steps.push(step).drop_first() =~= steps.drop_first().push(step));
        assert forall|j: int| 0 <= j < steps.drop_first().len() implies (#[trigger] steps.drop_first()[j]).program_result is Success by {
            assert(steps.drop_first()[j] == steps[j + 1]);
        }
        lemma_chain_checks_snoc(ctx, steps.drop_first(), step, checklists.drop_first());
        assert(checklists.drop_first()[steps.len() - 1] == checklists[steps.len() as int]);
        let fs0 = checks_failures(ctx, steps[0], checklists[0]@);
        assert(fs0 + (chain_checks(ctx, steps.drop_first(), checklists.drop_first())
            + checks_failures(ctx, step, checklists[steps.len() as int]@)) =~= (fs0
            + chain_checks(ctx, steps.drop_first(), checklists.drop_first())) + checks_failures(
            ctx,
            step,
            checklists[steps.len() as int]@,
        ));
    }
}

/// Extending a chain that has not yet failed by one more step folds that
/// step at the end.
pub proof fn lemma_chain_fold_snoc(
    init: InstructionResultView,
    steps: Seq<InstructionResultView>,
    step: InstructionResultView,
)
    requires
        chain_fold(init, steps).program_result is Success,
    ensures
        chain_fold(init, steps.push(step)) == absorb_spec(chain_fold(init, steps), step),
    decreases steps.len(),
{
    if steps.len() == 0 {
        assert(steps.push(step)[0] == step);
        assert(steps.push(step).drop_first() =~= Seq::<InstructionResultView>::empty());
        let a2 = absorb_spec(init, step);
        if a2.program_result is Success {
            assert(chain_fold(a2, Seq::<InstructionResultView>::empty()) == a2);
        }
    } else {
        let a2 = absorb_spec(init, steps[0]);
        assert(steps.push(step)[0] == steps[0]);
        assert(steps.push(step).drop_first() =~= steps.drop_first().push(step));
        if !(a2.program_result is Success) {
            assert(chain_fold(init, steps) == a2);
            assert(false);
        } else {
            lemma_chain_fold_snoc(a2, steps.drop_first(), step);
        }
    }
}

} // verus!
