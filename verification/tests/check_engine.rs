use mollusk_svm::check::Check;
use mollusk_svm::check::CheckFailure;
use mollusk_svm::config::Config;
use mollusk_svm::config::LinearRent;
use mollusk_svm::types::Account;
use mollusk_svm::types::InstructionResult;
use mollusk_svm::types::Key;
use mollusk_svm::types::ProgramResult;

fn key(n: u64) -> Key {
    Key(n, 0, 0, 0)
}

fn rent() -> LinearRent {
    LinearRent { base_lamports: 890_880, lamports_per_byte: 6_960 }
}

fn soft() -> Config {
    Config { panic_on_failure: false, verbose: false }
}

fn result_with_accounts(accounts: Vec<(Key, Account)>) -> InstructionResult {
    let mut result = InstructionResult::default();
    result.compute_units_consumed = 150;
    result.resulting_accounts = accounts;
    result
}

#[test]
fn test_passing_checks() {
    let a = key(1);
    let account = Account::new(58, 0, key(9));
    let result = result_with_accounts(vec![(a, account)]);

    let checks = vec![
        Check::success(),
        Check::compute_units(150),
        Check::time(0),
        Check::return_data(Vec::new()),
        Check::account(&a).lamports(58).owner(&key(9)).space(0).executable(false).build(),
    ];
    assert_eq!(result.run_checks(&checks, &soft(), &rent()), Ok(true));
    assert_eq!(result.run_checks(&checks, &Config::default(), &rent()), Ok(true));
}

#[test]
fn test_all_failures_reported_soft_fail() {
    // Several independently failing checks are all enumerated, not just
    // the first.
    let a = key(1);
    let account = Account::new(58, 0, key(9));
    let result = result_with_accounts(vec![(a, account)]);

    let checks = vec![
        Check::compute_units(151),
        Check::time(5),
        Check::err(3),
        Check::account(&a).lamports(59).build(),
    ];
    let failures = result.evaluate_checks(&checks, &rent());
    assert_eq!(failures.len(), 4);
    assert_eq!(failures[0], CheckFailure::ComputeUnits { expected: 151, actual: 150 });
    assert_eq!(failures[1], CheckFailure::ExecutionTime { expected: 5, actual: 0 });
    assert_eq!(
        failures[2],
        CheckFailure::ProgramResult {
            expected: ProgramResult::Failure(3),
            actual: ProgramResult::Success,
        }
    );
    assert_eq!(
        failures[3],
        CheckFailure::AccountLamports { key: a, expected: 59, actual: 58 }
    );
    assert_eq!(result.run_checks(&checks, &soft(), &rent()), Ok(false));
    // Fail-fast configuration surfaces the first violation.
    assert_eq!(
        result.run_checks(&checks, &Config::default(), &rent()),
        Err(CheckFailure::ComputeUnits { expected: 151, actual: 150 })
    );
}

#[test]
fn test_account_not_found_is_a_failure() {
    let result = result_with_accounts(vec![]);
    let missing = key(4);
    let checks = vec![Check::account(&missing).lamports(1).build()];
    let failures = result.evaluate_checks(&checks, &rent());
    assert_eq!(failures, vec![CheckFailure::AccountNotFound(missing)]);
}

#[test]
fn test_data_slice_pass_and_out_of_range() {
    // A slice that fits and matches passes; against data that is too
    // short the check reports the exceeded range instead of reading out
    // of bounds.
    let a = key(1);
    let mut account = Account::new(10, 0, key(9));
    account.data = vec![1, 2, 9, 9, 5];
    let result = result_with_accounts(vec![(a, account)]);

    let pass_checks = vec![Check::account(&a).data_slice(2, vec![9, 9]).build()];
    assert_eq!(result.run_checks(&pass_checks, &soft(), &rent()), Ok(true));

    let mut short = Account::new(10, 0, key(9));
    short.data = vec![1, 2];
    let short_result = result_with_accounts(vec![(a, short)]);
    let failures = short_result.evaluate_checks(&pass_checks, &rent());
    assert_eq!(
        failures,
        vec![CheckFailure::DataSliceOutOfRange { key: a, offset: 2, slice_len: 2, data_len: 2 }]
    );
}

#[test]
fn test_data_slice_mismatch() {
    let a = key(1);
    let mut account = Account::new(10, 0, key(9));
    account.data = vec![1, 2, 9, 8, 5];
    let result = result_with_accounts(vec![(a, account)]);
    let checks = vec![Check::account(&a).data_slice(2, vec![9, 9]).build()];
    let failures = result.evaluate_checks(&checks, &rent());
    assert_eq!(failures, vec![CheckFailure::DataSliceMismatch(a)]);
}

#[test]
fn test_closed_account_check() {
    let a = key(1);
    let result = result_with_accounts(vec![(a, Account::default())]);
    let checks = vec![Check::account(&a).closed().build()];
    assert_eq!(result.run_checks(&checks, &soft(), &rent()), Ok(true));

    // An account with any lamports is not closed.
    let open_result = result_with_accounts(vec![(a, Account::new(1, 0, Key::default()))]);
    let failures = open_result.evaluate_checks(&checks, &rent());
    assert_eq!(failures, vec![CheckFailure::AccountNotClosed(a)]);
}

#[test]
fn test_rent_exempt_account_check() {
    let a = key(1);
    // 10 bytes of data: exemption needs the base plus ten times the
    // per-byte price.
    let exempt = Account::new(890_880 + 6_960 * 10, 10, key(9));
    let result = result_with_accounts(vec![(a, exempt)]);
    let checks = vec![Check::account(&a).rent_exempt().build()];
    assert_eq!(result.run_checks(&checks, &soft(), &rent()), Ok(true));

    let not_exempt = Account::new(890_880 + 6_960 * 10 - 1, 10, key(9));
    let result = result_with_accounts(vec![(a, not_exempt)]);
    let failures = result.evaluate_checks(&checks, &rent());
    assert_eq!(failures, vec![CheckFailure::AccountNotRentExempt(a)]);
}

#[test]
fn test_all_rent_exempt_reports_each_violation() {
    let a = key(1);
    let b = key(2);
    let c = key(3);
    let exempt = Account::new(890_880, 0, key(9));
    let poor_a = Account::new(100, 0, key(9));
    let poor_c = Account::new(200, 0, key(9));
    let result =
        result_with_accounts(vec![(a, poor_a), (b, exempt), (c, poor_c)]);
    let checks = vec![Check::all_rent_exempt()];
    let failures = result.evaluate_checks(&checks, &rent());
    assert_eq!(
        failures,
        vec![
            CheckFailure::NotRentExempt { key: a, lamports: 100, space: 0 },
            CheckFailure::NotRentExempt { key: c, lamports: 200, space: 0 },
        ]
    );
}

#[test]
fn test_closed_account_counts_as_rent_exempt() {
    // The canonical closed account (zero lamports, all-zero owner) passes
    // the rent rule.
    let a = key(1);
    let result = result_with_accounts(vec![(a, Account::default())]);
    let checks = vec![Check::all_rent_exempt()];
    assert_eq!(result.run_checks(&checks, &soft(), &rent()), Ok(true));
}

#[test]
fn test_return_data_and_program_result_checks() {
    let mut result = InstructionResult::default();
    result.program_result = ProgramResult::UnknownError(12);
    result.return_data = vec![1, 2, 3];

    let checks = vec![
        Check::instruction_err(12),
        Check::return_data(vec![1, 2, 3]),
        Check::program_result(ProgramResult::UnknownError(12)),
    ];
    assert_eq!(result.run_checks(&checks, &soft(), &rent()), Ok(true));

    let failing = vec![Check::return_data(vec![1, 2])];
    let failures = result.evaluate_checks(&failing, &rent());
    assert_eq!(failures, vec![CheckFailure::ReturnData]);
}

#[test]
fn test_account_data_and_space_checks() {
    let a = key(1);
    let mut account = Account::new(5, 0, key(9));
    account.data = vec![7, 7, 7];
    let result = result_with_accounts(vec![(a, account)]);

    let pass = vec![Check::account(&a).data(vec![7, 7, 7]).space(3).build()];
    assert_eq!(result.run_checks(&pass, &soft(), &rent()), Ok(true));

    let fail = vec![Check::account(&a).data(vec![7, 7]).space(2).executable(true).build()];
    let failures = result.evaluate_checks(&fail, &rent());
    assert_eq!(
        failures,
        vec![
            CheckFailure::AccountData(a),
            CheckFailure::AccountExecutable { key: a, expected: true, actual: false },
            CheckFailure::AccountSpace { key: a, expected: 2, actual: 3 },
        ]
    );
}

#[test]
fn test_owner_check_failure() {
    let a = key(1);
    let result = result_with_accounts(vec![(a, Account::new(5, 0, key(9)))]);
    let checks = vec![Check::account(&a).owner(&key(8)).build()];
    let failures = result.evaluate_checks(&checks, &rent());
    assert_eq!(
        failures,
        vec![CheckFailure::AccountOwner { key: a, expected: key(8), actual: key(9) }]
    );
}
