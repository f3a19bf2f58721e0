use mollusk_svm::compare::Compare;
use mollusk_svm::compare::CompareFailure;
use mollusk_svm::config::Config;
use mollusk_svm::types::Account;
use mollusk_svm::types::InstructionResult;
use mollusk_svm::types::Key;
use mollusk_svm::types::ProgramResult;

fn key(n: u64) -> Key {
    Key(n, 0, 0, 0)
}

fn soft() -> Config {
    Config { panic_on_failure: false, verbose: false }
}

fn sample_result() -> InstructionResult {
    let mut r = InstructionResult::default();
    r.compute_units_consumed = 100;
    r.execution_time = 7;
    r.return_data = vec![1, 2];
    r.resulting_accounts = vec![
        (key(1), Account::new(10, 0, key(9))),
        (key(2), Account::new(20, 0, key(9))),
    ];
    r
}

#[test]
fn test_compare_equal_results() {
    let expected = sample_result();
    let actual = sample_result();
    assert_eq!(
        expected.compare_with_config(&actual, &Compare::everything(), &soft()),
        Ok(true)
    );
    assert_eq!(
        expected.compare_with_config(&actual, &Compare::everything(), &Config::default()),
        Ok(true)
    );
}

#[test]
fn test_compare_accounts_matched_by_key_not_position() {
    let expected = sample_result();
    let mut actual = sample_result();
    // Same accounts in the other order still compare equal.
    actual.resulting_accounts.reverse();
    assert_eq!(
        expected.compare_with_config(&actual, &Compare::everything(), &soft()),
        Ok(true)
    );
}

#[test]
fn test_compare_field_mismatches() {
    let expected = sample_result();
    let mut actual = sample_result();
    actual.compute_units_consumed = 101;
    actual.program_result = ProgramResult::Failure(1);
    actual.return_data = vec![1];

    let failures = expected.evaluate_comparison(&actual, &Compare::everything());
    assert_eq!(
        failures,
        vec![
            CompareFailure::ComputeUnits { expected: 100, actual: 101 },
            CompareFailure::ProgramResult {
                expected: ProgramResult::Success,
                actual: ProgramResult::Failure(1),
            },
            CompareFailure::ReturnData,
        ]
    );
    assert_eq!(
        expected.compare_with_config(&actual, &Compare::everything(), &Config::default()),
        Err(CompareFailure::ComputeUnits { expected: 100, actual: 101 })
    );
}

#[test]
fn test_compare_names_the_side_missing_a_key() {
    let expected = sample_result();
    let mut actual = sample_result();
    // The actual side misses key 2 and holds an extra key 3.
    actual.resulting_accounts.remove(1);
    actual.resulting_accounts.push((key(3), Account::new(30, 0, key(9))));

    let failures =
        expected.evaluate_comparison(&actual, &vec![Compare::AllResultingAccounts]);
    assert_eq!(
        failures,
        vec![
            CompareFailure::AccountMissingFromActual(key(2)),
            CompareFailure::AccountMissingFromExpected(key(3)),
        ]
    );
}

#[test]
fn test_compare_account_state_mismatch() {
    let expected = sample_result();
    let mut actual = sample_result();
    actual.resulting_accounts[1].1.lamports = 21;

    let failures =
        expected.evaluate_comparison(&actual, &vec![Compare::AllResultingAccounts]);
    assert_eq!(failures, vec![CompareFailure::AccountMismatch(key(2))]);
}

#[test]
fn test_compare_single_account_selector() {
    let expected = sample_result();
    let mut actual = sample_result();
    actual.resulting_accounts[0].1.executable = true;

    let failures = expected.evaluate_comparison(&actual, &vec![Compare::ResultingAccount(key(1))]);
    assert_eq!(failures, vec![CompareFailure::AccountMismatch(key(1))]);

    // A key both sides miss compares equal.
    let failures = expected.evaluate_comparison(&actual, &vec![Compare::ResultingAccount(key(5))]);
    assert_eq!(failures, vec![]);

    // A key only the expected side holds names the actual side.
    let mut shorter = sample_result();
    shorter.resulting_accounts.remove(1);
    let failures =
        expected.evaluate_comparison(&shorter, &vec![Compare::ResultingAccount(key(2))]);
    assert_eq!(failures, vec![CompareFailure::AccountMissingFromActual(key(2))]);
}

#[test]
fn test_compare_execution_time_selector() {
    let expected = sample_result();
    let mut actual = sample_result();
    actual.execution_time = 8;
    let failures = expected.evaluate_comparison(&actual, &vec![Compare::ExecutionTime]);
    assert_eq!(failures, vec![CompareFailure::ExecutionTime { expected: 7, actual: 8 }]);

    // An unselected dimension is not compared.
    let failures = expected.evaluate_comparison(&actual, &vec![Compare::ComputeUnits]);
    assert_eq!(failures, vec![]);
}
