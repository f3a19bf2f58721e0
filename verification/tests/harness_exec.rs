use mollusk_svm::accounts::AccountMap;
use mollusk_svm::accounts::compile_transaction_accounts;
use mollusk_svm::accounts::MolluskError;
use mollusk_svm::accounts::StubChain;
use mollusk_svm::instructions_sysvar::InstructionsSysvar;
use mollusk_svm::keys::KeyMap;
use mollusk_svm::accounts::ProgramStubs;
use mollusk_svm::check::Check;
use mollusk_svm::config::Config;
use mollusk_svm::config::LinearRent;
use mollusk_svm::harness::HarnessError;
use mollusk_svm::harness::mock_epoch_stake_distribution;
use mollusk_svm::harness::ExecutorOutput;
use mollusk_svm::harness::Mollusk;
use mollusk_svm::harness::ScriptedExecutor;
use mollusk_svm::types::Account;
use mollusk_svm::types::AccountMeta;
use mollusk_svm::types::Instruction;
use mollusk_svm::types::InstructionResult;
use mollusk_svm::types::Key;
use mollusk_svm::types::ProgramResult;
use mollusk_svm::types::RawResult;

fn key(n: u64) -> Key {
    Key(n, 0, 0, 0)
}

fn rent() -> LinearRent {
    LinearRent { base_lamports: 890_880, lamports_per_byte: 6_960 }
}

fn system_key() -> Key {
    key(99)
}

fn loader_key() -> Key {
    key(98)
}

fn transfer_instruction(from: Key, to: Key) -> Instruction {
    Instruction::new_with_bytes(
        system_key(),
        vec![2, 0, 0, 0],
        vec![AccountMeta::new(from, true), AccountMeta::new(to, false)],
    )
}

fn mollusk_with(outputs: Vec<ExecutorOutput>) -> Mollusk<ScriptedExecutor, AccountMap, ProgramStubs>
{
    Mollusk::new(
        ScriptedExecutor::new(outputs),
        AccountMap::new(),
        ProgramStubs::new(loader_key(), vec![system_key()]),
    )
}

fn success_output(cus: u64, accounts: Vec<(Key, Account)>) -> ExecutorOutput {
    let mut output = ExecutorOutput::default();
    output.compute_units_consumed = cus;
    output.resulting_accounts = accounts;
    output
}

fn failure_output(cus: u64, code: u64) -> ExecutorOutput {
    let mut output = ExecutorOutput::default();
    output.compute_units_consumed = cus;
    output.program_result = ProgramResult::Failure(code);
    output.raw_result = RawResult::Error(code);
    output
}

#[test]
fn test_transfer_scenario_with_checks() {
    // Two accounts with 100 lamports each; a transfer of 42 moves the
    // sender to 58 and the recipient to 142.
    let a = key(1);
    let b = key(2);
    let accounts = vec![
        (a, Account::new(100, 0, system_key())),
        (b, Account::new(100, 0, system_key())),
    ];
    let mut mollusk = mollusk_with(vec![success_output(
        150,
        vec![
            (a, Account::new(58, 0, system_key())),
            (b, Account::new(142, 0, system_key())),
        ],
    )]);

    let checks = vec![
        Check::success(),
        Check::account(&a).lamports(58).build(),
        Check::account(&b).lamports(142).build(),
    ];
    let (result, failures) = mollusk
        .process_and_validate_instruction(&transfer_instruction(a, b), &accounts, &checks, &rent())
        .unwrap();
    assert!(failures.is_empty());
    assert_eq!(result.program_result, ProgramResult::Success);
    assert_eq!(result.get_account(&a).unwrap().lamports, 58);
    assert_eq!(result.get_account(&b).unwrap().lamports, 142);
}

#[test]
fn test_resulting_accounts_keep_caller_ordering() {
    // The executor reports final states in its own (here: reversed)
    // order; the result realigns them onto the caller's ordering.
    let a = key(1);
    let b = key(2);
    let c = key(3);
    let accounts = vec![
        (a, Account::new(10, 0, system_key())),
        (b, Account::new(20, 0, system_key())),
        (c, Account::new(30, 0, system_key())),
    ];
    let mut mollusk = mollusk_with(vec![success_output(
        1,
        vec![
            (c, Account::new(33, 0, system_key())),
            (a, Account::new(11, 0, system_key())),
        ],
    )]);

    let ix = Instruction::new_with_bytes(
        system_key(),
        Vec::new(),
        vec![
            AccountMeta::new(a, false),
            AccountMeta::new(b, false),
            AccountMeta::new(c, false),
        ],
    );
    let result = mollusk.process_instruction(&ix, &accounts).unwrap();
    let resulting: Vec<Key> = result.resulting_accounts.iter().map(|(k, _)| *k).collect();
    assert_eq!(resulting, vec![a, b, c]);
    assert_eq!(result.resulting_accounts[0].1.lamports, 11);
    // An account the executor did not report keeps its pre-call state.
    assert_eq!(result.resulting_accounts[1].1.lamports, 20);
    assert_eq!(result.resulting_accounts[2].1.lamports, 33);
}

#[test]
fn test_failed_execution_leaves_accounts_unchanged() {
    let a = key(1);
    let b = key(2);
    let accounts = vec![
        (a, Account::new(10, 0, system_key())),
        (b, Account::new(20, 0, system_key())),
    ];
    let mut mollusk = mollusk_with(vec![failure_output(42, 5)]);
    let result = mollusk
        .process_instruction(&transfer_instruction(a, b), &accounts)
        .unwrap();
    assert_eq!(result.program_result, ProgramResult::Failure(5));
    assert_eq!(result.compute_units_consumed, 42);
    assert_eq!(result.resulting_accounts, accounts);
}

#[test]
fn test_chain_stops_after_failure_and_sums_units() {
    // Step one succeeds, step two fails: the chain's compute units are
    // the sum of both, its resulting accounts are the post-step-one
    // state (the failure does not revert step one), and a third step is
    // never executed.
    let a = key(1);
    let b = key(2);
    let accounts = vec![
        (a, Account::new(100, 0, system_key())),
        (b, Account::new(100, 0, system_key())),
    ];
    let post_s1 = vec![
        (a, Account::new(58, 0, system_key())),
        (b, Account::new(142, 0, system_key())),
    ];
    let mut mollusk = mollusk_with(vec![
        success_output(150, post_s1.clone()),
        failure_output(90, 7),
        success_output(1000, vec![]),
    ]);

    let instructions = vec![
        transfer_instruction(a, b),
        transfer_instruction(a, b),
        transfer_instruction(a, b),
    ];
    let result = mollusk.process_instruction_chain(&instructions, &accounts).unwrap();
    assert_eq!(result.compute_units_consumed, 240);
    assert_eq!(result.program_result, ProgramResult::Failure(7));
    assert_eq!(result.resulting_accounts, post_s1);
}

#[test]
fn test_chain_threads_accounts_between_steps() {
    // Each step observes the accounts produced by the previous step; the
    // final result carries the last step's states and the summed units.
    let a = key(1);
    let b = key(2);
    let accounts = vec![
        (a, Account::new(100, 0, system_key())),
        (b, Account::new(100, 0, system_key())),
    ];
    let mut mollusk = mollusk_with(vec![
        success_output(150, vec![(a, Account::new(90, 0, system_key()))]),
        success_output(150, vec![(b, Account::new(110, 0, system_key()))]),
    ]);
    let instructions = vec![transfer_instruction(a, b), transfer_instruction(a, b)];
    let result = mollusk.process_instruction_chain(&instructions, &accounts).unwrap();
    assert_eq!(result.compute_units_consumed, 300);
    assert_eq!(result.program_result, ProgramResult::Success);
    assert_eq!(result.get_account(&a).unwrap().lamports, 90);
    assert_eq!(result.get_account(&b).unwrap().lamports, 110);
}

#[test]
fn test_empty_chain_returns_initial_accounts() {
    let a = key(1);
    let accounts = vec![(a, Account::new(10, 0, system_key()))];
    let mut mollusk = mollusk_with(vec![]);
    let result = mollusk.process_instruction_chain(&vec![], &accounts).unwrap();
    assert_eq!(result.compute_units_consumed, 0);
    assert_eq!(result.program_result, ProgramResult::Success);
    assert_eq!(result.resulting_accounts, accounts);
}

#[test]
fn test_process_instruction_missing_account_fails() {
    // A meta key no tier resolves fails compilation with the offending
    // key, before any execution.
    let a = key(1);
    let mut mollusk = mollusk_with(vec![]);
    let err = mollusk
        .process_instruction(&transfer_instruction(a, key(2)), &vec![])
        .unwrap_err();
    assert_eq!(err, MolluskError::AccountMissing(a));
}

#[test]
fn test_chain_validation_collects_per_step_failures() {
    let a = key(1);
    let accounts = vec![(a, Account::new(100, 0, system_key()))];
    let mut mollusk = mollusk_with(vec![
        success_output(10, vec![]),
        success_output(20, vec![]),
    ]);
    let ix = Instruction::new_with_bytes(
        system_key(),
        Vec::new(),
        vec![AccountMeta::new(a, false)],
    );
    let per_step = vec![
        (ix.clone(), vec![Check::compute_units(10)]),
        (ix, vec![Check::compute_units(21)]),
    ];
    mollusk.config = Config { panic_on_failure: false, verbose: false };
    let (result, failures) = mollusk
        .process_and_validate_instruction_chain(&per_step, &accounts, &rent())
        .unwrap();
    assert_eq!(result.compute_units_consumed, 30);
    assert_eq!(
        failures,
        vec![mollusk_svm::check::CheckFailure::ComputeUnits { expected: 21, actual: 20 }]
    );
}

#[test]
fn test_absorb_accumulates_and_overwrites() {
    let mut composite = InstructionResult::default();
    composite.compute_units_consumed = 100;
    composite.execution_time = 5;
    composite.return_data = vec![1];

    let mut step = InstructionResult::default();
    step.compute_units_consumed = 50;
    step.execution_time = 2;
    step.program_result = ProgramResult::Failure(9);
    step.raw_result = RawResult::Error(9);
    step.return_data = vec![2, 3];
    step.resulting_accounts = vec![(key(1), Account::new(7, 0, key(9)))];

    composite.absorb(step.clone());
    assert_eq!(composite.compute_units_consumed, 150);
    assert_eq!(composite.execution_time, 7);
    assert_eq!(composite.program_result, ProgramResult::Failure(9));
    assert_eq!(composite.raw_result, RawResult::Error(9));
    assert_eq!(composite.return_data, vec![2, 3]);
    assert_eq!(composite.resulting_accounts, step.resulting_accounts);
}

#[test]
fn test_absorb_saturates_at_the_limit() {
    let mut composite = InstructionResult::default();
    composite.compute_units_consumed = u64::MAX - 10;
    let mut step = InstructionResult::default();
    step.compute_units_consumed = 100;
    composite.absorb(step);
    assert_eq!(composite.compute_units_consumed, u64::MAX);
}

#[test]
fn test_mock_epoch_stake_distribution() {
    assert_eq!(mock_epoch_stake_distribution(0), Vec::<u64>::new());
    assert_eq!(mock_epoch_stake_distribution(500), vec![500]);
    assert_eq!(
        mock_epoch_stake_distribution(2_500_000_000),
        vec![833_333_333, 833_333_333, 833_333_334]
    );
    let total: u64 = mock_epoch_stake_distribution(7_777_777_777).iter().sum();
    assert_eq!(total, 7_777_777_777);
}

#[test]
fn test_process_and_compare_against_expected_effects() {
    // Compare a run against externally supplied expected effects, as a
    // fixture's decoded expected side would be.
    let a = key(1);
    let accounts = vec![(a, Account::new(100, 0, system_key()))];
    let mut mollusk = mollusk_with(vec![success_output(
        75,
        vec![(a, Account::new(60, 0, system_key()))],
    )]);

    let mut expected = InstructionResult::default();
    expected.compute_units_consumed = 75;
    expected.resulting_accounts = vec![(a, Account::new(60, 0, system_key()))];

    let ix = Instruction::new_with_bytes(
        system_key(),
        Vec::new(),
        vec![AccountMeta::new(a, true)],
    );
    let (_, failures) = mollusk
        .process_and_compare_instruction(
            &ix,
            &accounts,
            &expected,
            &mollusk_svm::compare::Compare::everything(),
        )
        .unwrap();
    assert!(failures.is_empty());

    // A wrong expectation is reported: enumerated under the soft policy,
    // fatal under the fail-fast policy.
    let mut mollusk = mollusk_with(vec![success_output(75, vec![]), success_output(75, vec![])]);
    mollusk.config = Config { panic_on_failure: false, verbose: false };
    expected.compute_units_consumed = 76;
    let (_, failures) = mollusk
        .process_and_compare_instruction(
            &ix,
            &accounts,
            &expected,
            &mollusk_svm::compare::Compare::everything(),
        )
        .unwrap();
    assert_eq!(
        failures[0],
        mollusk_svm::compare::CompareFailure::ComputeUnits { expected: 76, actual: 75 }
    );
    mollusk.config = Config { panic_on_failure: true, verbose: false };
    let err = mollusk
        .process_and_compare_instruction(
            &ix,
            &accounts,
            &expected,
            &mollusk_svm::compare::Compare::everything(),
        )
        .unwrap_err();
    assert_eq!(
        err,
        HarnessError::CompareFailed(mollusk_svm::compare::CompareFailure::ComputeUnits {
            expected: 76,
            actual: 75,
        })
    );
}

#[test]
fn test_fail_fast_policy_surfaces_first_check_failure() {
    // Under the fail-fast policy (the default), a violated check is fatal
    // and surfaces the first violation; under the soft policy all
    // violations are enumerated.
    let a = key(1);
    let b = key(2);
    let accounts = vec![
        (a, Account::new(100, 0, system_key())),
        (b, Account::new(100, 0, system_key())),
    ];
    let checks = vec![Check::compute_units(11), Check::time(5)];

    let mut mollusk = mollusk_with(vec![success_output(10, vec![])]);
    let err = mollusk
        .process_and_validate_instruction(
            &transfer_instruction(a, b),
            &accounts,
            &checks,
            &rent(),
        )
        .unwrap_err();
    assert_eq!(
        err,
        HarnessError::CheckFailed(mollusk_svm::check::CheckFailure::ComputeUnits {
            expected: 11,
            actual: 10,
        })
    );

    let mut mollusk = mollusk_with(vec![success_output(10, vec![])]);
    mollusk.config = Config { panic_on_failure: false, verbose: false };
    let (_, failures) = mollusk
        .process_and_validate_instruction(
            &transfer_instruction(a, b),
            &accounts,
            &checks,
            &rent(),
        )
        .unwrap();
    assert_eq!(failures.len(), 2);
}

#[test]
fn test_validate_compile_error_is_surfaced() {
    // A compilation failure on the validate path carries the exact
    // compile error.
    let a = key(1);
    let mut mollusk = mollusk_with(vec![]);
    let err = mollusk
        .process_and_validate_instruction(
            &transfer_instruction(a, key(2)),
            &vec![],
            &vec![Check::success()],
            &rent(),
        )
        .unwrap_err();
    assert_eq!(
        err,
        HarnessError::Compile(MolluskError::AccountMissing(a))
    );
}

#[test]
fn test_instructions_sysvar_stub_resolves_pseudo_account() {
    // An instruction referencing the instructions-sysvar key resolves it
    // through the sysvar stub policy: the synthesized account is owned by
    // the sysvar owner, carries no lamports, and holds the encoded
    // instruction sequence.
    let sysvar_id = key(77);
    let sysvar_owner = key(78);
    let a = key(1);
    let ix = Instruction::new_with_bytes(
        system_key(),
        vec![1, 2],
        vec![
            AccountMeta::new(a, true),
            AccountMeta::new_readonly(sysvar_id, false),
        ],
    );

    let key_map = KeyMap::compile_from_instruction(&ix);
    let provided = vec![(a, Account::new(5, 0, system_key()))];
    let stubs = StubChain {
        first: ProgramStubs::new(key(98), vec![system_key()]),
        second: InstructionsSysvar::new(sysvar_id, sysvar_owner, vec![ix.clone()]),
    };
    let resolved =
        compile_transaction_accounts(&key_map, &provided, &AccountMap::new(), &stubs).unwrap();

    let sysvar_account = resolved.iter().find(|(k, _)| k == &sysvar_id).unwrap();
    assert_eq!(sysvar_account.1.lamports, 0);
    assert_eq!(sysvar_account.1.owner, sysvar_owner);
    assert!(!sysvar_account.1.executable);
    // The encoding of a non-empty sequence is non-empty, and equal
    // sequences encode equally.
    let direct = mollusk_svm::instructions_sysvar::instructions_sysvar_account(
        &vec![ix],
        sysvar_id,
        sysvar_owner,
    );
    assert_eq!(sysvar_account.1.data, direct.1.data);
    assert!(!sysvar_account.1.data.is_empty());
}
