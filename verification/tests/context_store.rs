use mollusk_svm::accounts::AccountMap;
use mollusk_svm::accounts::ProgramStubs;
use mollusk_svm::check::Check;
use mollusk_svm::config::LinearRent;
use mollusk_svm::context::AccountStore;
use mollusk_svm::context::InMemoryAccountStore;
use mollusk_svm::harness::ExecutorOutput;
use mollusk_svm::harness::Mollusk;
use mollusk_svm::harness::ScriptedExecutor;
use mollusk_svm::types::Account;
use mollusk_svm::types::AccountMeta;
use mollusk_svm::types::Instruction;
use mollusk_svm::types::Key;
use mollusk_svm::types::ProgramResult;
use mollusk_svm::types::RawResult;

fn key(n: u64) -> Key {
    Key(n, 0, 0, 0)
}

fn rent() -> LinearRent {
    LinearRent { base_lamports: 890_880, lamports_per_byte: 6_960 }
}

fn system_key() -> Key {
    key(99)
}

fn transfer_instruction(from: Key, to: Key) -> Instruction {
    Instruction::new_with_bytes(
        system_key(),
        vec![2, 0, 0, 0],
        vec![AccountMeta::new(from, true), AccountMeta::new(to, false)],
    )
}

fn mollusk_with(outputs: Vec<ExecutorOutput>) -> Mollusk<ScriptedExecutor, AccountMap, ProgramStubs>
{
    Mollusk::new(
        ScriptedExecutor::new(outputs),
        AccountMap::new(),
        ProgramStubs::new(key(98), vec![system_key()]),
    )
}

fn success_output(cus: u64, accounts: Vec<(Key, Account)>) -> ExecutorOutput {
    let mut output = ExecutorOutput::default();
    output.compute_units_consumed = cus;
    output.resulting_accounts = accounts;
    output
}

#[test]
fn test_transfer_with_context() {
    let sender = key(1);
    let recipient = key(2);

    let base_lamports = 100_000_000u64;
    let transfer_amount = 42_000u64;

    let mut account_store = InMemoryAccountStore::new();
    account_store.store_account(sender, Account::new(base_lamports, 0, system_key()));
    account_store.store_account(recipient, Account::new(base_lamports, 0, system_key()));

    let mollusk = mollusk_with(vec![success_output(
        150,
        vec![
            (sender, Account::new(base_lamports - transfer_amount, 0, system_key())),
            (recipient, Account::new(base_lamports + transfer_amount, 0, system_key())),
        ],
    )]);
    let mut context = mollusk.with_context(account_store, Vec::new());

    let (result, failures) = context
        .process_and_validate_instruction(
            &transfer_instruction(sender, recipient),
            &vec![Check::success(), Check::compute_units(150)],
            &rent(),
        )
        .unwrap();

    assert!(failures.is_empty());
    assert!(!result.program_result.is_err());

    // The account states were persisted back into the store.
    let sender_account = context.account_store.get_account(&sender).unwrap();
    assert_eq!(sender_account.lamports, base_lamports - transfer_amount);

    let recipient_account = context.account_store.get_account(&recipient).unwrap();
    assert_eq!(recipient_account.lamports, base_lamports + transfer_amount);
}

#[test]
fn test_multiple_transfers_with_persistent_state() {
    let alice = key(1);
    let bob = key(2);
    let charlie = key(3);

    let initial_lamports = 1_000_000u64;
    let transfer1_amount = 200_000u64;
    let transfer2_amount = 150_000u64;

    let mut account_store = InMemoryAccountStore::new();
    account_store.store_account(alice, Account::new(initial_lamports, 0, system_key()));
    account_store.store_account(bob, Account::new(initial_lamports, 0, system_key()));
    account_store.store_account(charlie, Account::new(initial_lamports, 0, system_key()));

    let mollusk = mollusk_with(vec![
        success_output(
            150,
            vec![
                (alice, Account::new(initial_lamports - transfer1_amount, 0, system_key())),
                (bob, Account::new(initial_lamports + transfer1_amount, 0, system_key())),
            ],
        ),
        success_output(
            150,
            vec![
                (
                    bob,
                    Account::new(
                        initial_lamports + transfer1_amount - transfer2_amount,
                        0,
                        system_key(),
                    ),
                ),
                (charlie, Account::new(initial_lamports + transfer2_amount, 0, system_key())),
            ],
        ),
    ]);
    let mut context = mollusk.with_context(account_store, Vec::new());

    let checks = vec![Check::success(), Check::compute_units(150)];

    // First transfer: Alice -> Bob.
    let instruction1 = transfer_instruction(alice, bob);
    let (result1, failures1) = context
        .process_and_validate_instruction(&instruction1, &checks, &rent())
        .unwrap();
    assert!(failures1.is_empty());
    assert!(!result1.program_result.is_err());

    // Second transfer: Bob -> Charlie.
    let instruction2 = transfer_instruction(bob, charlie);
    let (result2, failures2) = context
        .process_and_validate_instruction(&instruction2, &checks, &rent())
        .unwrap();
    assert!(failures2.is_empty());
    assert!(!result2.program_result.is_err());

    // Verify final account states.
    let alice_account = context.account_store.get_account(&alice).unwrap();
    assert_eq!(alice_account.lamports, initial_lamports - transfer1_amount);

    let bob_account = context.account_store.get_account(&bob).unwrap();
    assert_eq!(
        bob_account.lamports,
        initial_lamports + transfer1_amount - transfer2_amount
    );

    let charlie_account = context.account_store.get_account(&charlie).unwrap();
    assert_eq!(charlie_account.lamports, initial_lamports + transfer2_amount);
}

#[test]
fn test_account_store_default_account() {
    let non_existent_key = key(1);
    let recipient = key(2);

    // The store holds neither account: both load as the default account
    // with zero lamports, and the scripted execution reports the error a
    // transfer from an empty account produces.
    let account_store = InMemoryAccountStore::new();
    let mut output = ExecutorOutput::default();
    output.program_result = ProgramResult::Failure(1);
    output.raw_result = RawResult::Error(1);
    let mollusk = mollusk_with(vec![output]);
    let mut context = mollusk.with_context(account_store, Vec::new());

    let instruction = transfer_instruction(non_existent_key, recipient);
    let (_, failures) = context
        .process_and_validate_instruction(&instruction, &vec![Check::err(1)], &rent())
        .unwrap();
    assert!(failures.is_empty());

    // The failed call persisted nothing.
    assert!(context.account_store.get_account(&non_existent_key).is_none());
}

#[test]
fn test_failed_execution_not_persisted() {
    let a = key(1);
    let b = key(2);
    let mut account_store = InMemoryAccountStore::new();
    account_store.store_account(a, Account::new(500, 0, system_key()));
    account_store.store_account(b, Account::new(500, 0, system_key()));

    let mut output = success_output(10, vec![(a, Account::new(0, 0, system_key()))]);
    output.program_result = ProgramResult::Failure(3);
    output.raw_result = RawResult::Error(3);
    let mollusk = mollusk_with(vec![output]);
    let mut context = mollusk.with_context(account_store, Vec::new());

    let result = context.process_instruction(&transfer_instruction(a, b)).unwrap();
    assert!(result.program_result.is_err());
    // The store keeps the pre-call states.
    assert_eq!(context.account_store.get_account(&a).unwrap().lamports, 500);
    assert_eq!(context.account_store.get_account(&b).unwrap().lamports, 500);
}

#[test]
fn test_hydration_accounts_are_loaded() {
    let a = key(1);
    let program_account_key = system_key();
    let hydration = vec![(program_account_key, Account::new(1, 0, key(98)))];

    let mut account_store = InMemoryAccountStore::new();
    account_store.store_account(a, Account::new(100, 0, system_key()));

    let mollusk = mollusk_with(vec![success_output(5, vec![])]);
    let mut context = mollusk.with_context(account_store, hydration);

    let ix = Instruction::new_with_bytes(
        system_key(),
        Vec::new(),
        vec![AccountMeta::new(a, false)],
    );
    let result = context.process_instruction(&ix).unwrap();
    // The loaded account list starts with the hydration account, then the
    // meta key; a successful call persists both back.
    let keys: Vec<Key> = result.resulting_accounts.iter().map(|(k, _)| *k).collect();
    assert_eq!(keys, vec![program_account_key, a]);
    assert!(context.account_store.get_account(&program_account_key).is_some());
}

#[test]
fn test_chain_with_context() {
    let a = key(1);
    let b = key(2);
    let mut account_store = InMemoryAccountStore::new();
    account_store.store_account(a, Account::new(300, 0, system_key()));
    account_store.store_account(b, Account::new(0, 0, system_key()));

    let mollusk = mollusk_with(vec![
        success_output(10, vec![(a, Account::new(200, 0, system_key()))]),
        success_output(10, vec![(b, Account::new(100, 0, system_key()))]),
    ]);
    let mut context = mollusk.with_context(account_store, Vec::new());

    let instructions = vec![transfer_instruction(a, b), transfer_instruction(a, b)];
    let result = context.process_instruction_chain(&instructions).unwrap();
    assert_eq!(result.compute_units_consumed, 20);
    assert_eq!(context.account_store.get_account(&b).unwrap().lamports, 100);
}

#[test]
fn test_with_context_seeds_store_iff_absent() {
    // Hydration accounts are seeded into the store exactly where the
    // store does not hold the key yet: a pre-existing entry is kept.
    let held = key(1);
    let fresh = key(2);
    let mut account_store = InMemoryAccountStore::new();
    account_store.store_account(held, Account::new(123, 0, system_key()));

    let hydration = vec![
        (held, Account::new(999, 0, system_key())),
        (fresh, Account::new(7, 0, system_key())),
    ];
    let context = mollusk_with(vec![]).with_context(account_store, hydration);

    // The held key keeps its original state; the fresh key was seeded.
    assert_eq!(context.account_store.get_account(&held).unwrap().lamports, 123);
    assert_eq!(context.account_store.get_account(&fresh).unwrap().lamports, 7);
}

#[test]
fn test_instructions_sysvar_key_not_loaded_from_store() {
    // A meta reference to the instructions-sysvar key is skipped at load
    // time: the store's entry (or default) for it never shadows the stub
    // tier's synthesized pseudo-account.
    let a = key(1);
    let sysvar_id = key(77);
    let mut account_store = InMemoryAccountStore::new();
    account_store.store_account(a, Account::new(10, 0, system_key()));

    let mut context = mollusk_with(vec![]).with_context(account_store, Vec::new());
    context.instructions_sysvar_id = Some(sysvar_id);

    let ix = Instruction::new_with_bytes(
        system_key(),
        Vec::new(),
        vec![
            AccountMeta::new(a, false),
            AccountMeta::new_readonly(sysvar_id, false),
        ],
    );
    let loaded = context.load_accounts_for_instructions(&vec![ix]);
    let keys: Vec<Key> = loaded.iter().map(|(k, _)| *k).collect();
    assert_eq!(keys, vec![a]);
}
