use mollusk_svm::accounts::compile_instruction_accounts;
use mollusk_svm::accounts::compile_instruction_without_data;
use mollusk_svm::accounts::compile_transaction_accounts;
use mollusk_svm::accounts::AccountMap;
use mollusk_svm::accounts::MolluskError;
use mollusk_svm::accounts::NoStubs;
use mollusk_svm::accounts::ProgramStubs;
use mollusk_svm::keys::KeyMap;
use mollusk_svm::types::Account;
use mollusk_svm::types::AccountMeta;
use mollusk_svm::types::Instruction;
use mollusk_svm::types::Key;

fn key(n: u64) -> Key {
    Key(n, 0, 0, 0)
}

fn test_instruction(program_id: Key, account_keys: &[Key]) -> Instruction {
    Instruction::new_with_bytes(
        program_id,
        Vec::new(),
        account_keys.iter().map(|pk| AccountMeta::new(*pk, false)).collect(),
    )
}

#[test]
fn test_compile_instruction_without_data() {
    let program_id = key(1);
    let account1 = key(2);
    let account2 = key(3);

    let instruction = test_instruction(program_id, &[account1, account2]);
    let key_map = KeyMap::compile_from_instruction(&instruction);

    let compiled = compile_instruction_without_data(&key_map, &instruction).unwrap();

    assert_eq!(
        compiled.program_id_index,
        key_map.position(&program_id).unwrap() as u8
    );
    assert_eq!(compiled.accounts.len(), 2);
    assert_eq!(
        compiled.accounts[0],
        key_map.position(&account1).unwrap() as u8
    );
    assert_eq!(
        compiled.accounts[1],
        key_map.position(&account2).unwrap() as u8
    );
}

#[test]
fn test_compile_instruction_accounts() {
    let program_id = key(1);
    let account1 = key(2);
    let account2 = key(3);

    let instruction = Instruction::new_with_bytes(
        program_id,
        Vec::new(),
        vec![
            AccountMeta::new(account1, true),           // signer, writable
            AccountMeta::new_readonly(account2, false), // not signer, not writable
        ],
    );
    let key_map = KeyMap::compile_from_instruction(&instruction);
    let compiled_ix = compile_instruction_without_data(&key_map, &instruction).unwrap();

    let instruction_accounts = compile_instruction_accounts(&key_map, &compiled_ix);

    assert_eq!(instruction_accounts.len(), 2);
    assert!(instruction_accounts[0].is_signer);
    assert!(instruction_accounts[0].is_writable);
    assert!(!instruction_accounts[1].is_signer);
    assert!(!instruction_accounts[1].is_writable);
}

#[test]
fn test_compile_transaction_accounts_for_instruction_basic() {
    let program_id = key(1);
    let account1 = key(2);
    let account2 = key(3);

    let instruction = test_instruction(program_id, &[account1, account2]);
    let key_map = KeyMap::compile_from_instruction(&instruction);

    let accounts = vec![
        (program_id, Account::new(1000, 0, Key::default())),
        (account1, Account::new(100, 10, Key::default())),
        (account2, Account::new(200, 20, Key::default())),
    ];

    let fallbacks = AccountMap::new();

    let result = compile_transaction_accounts(&key_map, &accounts, &fallbacks, &NoStubs).unwrap();

    assert_eq!(result.len(), 3);
    // Verify accounts are present (order depends on KeyMap).
    assert!(result.iter().any(|(pk, _)| pk == &program_id));
    assert!(result.iter().any(|(pk, _)| pk == &account1));
    assert!(result.iter().any(|(pk, _)| pk == &account2));
}

#[test]
fn test_compile_transaction_accounts_for_instruction_with_stub() {
    let program_id = key(1);
    let account1 = key(2);

    let instruction = test_instruction(program_id, &[account1]);
    let key_map = KeyMap::compile_from_instruction(&instruction);

    // Only provide account1, not program_id.
    let accounts = vec![(account1, Account::new(100, 10, Key::default()))];

    let mut fallbacks = AccountMap::new();
    fallbacks.insert(program_id, Account::new(999, 0, Key::default()));

    let result = compile_transaction_accounts(&key_map, &accounts, &fallbacks, &NoStubs).unwrap();

    assert_eq!(result.len(), 2);
    // Program account should have 999 lamports from the fallback entry.
    let program_account = result.iter().find(|(pk, _)| pk == &program_id).unwrap();
    assert_eq!(program_account.1.lamports, 999);
}

#[test]
fn test_compile_transaction_accounts_for_instruction_with_fallback() {
    let program_id = key(1);
    let account1 = key(2);
    let fallback_key = key(3);

    let instruction = test_instruction(program_id, &[account1, fallback_key]);
    let key_map = KeyMap::compile_from_instruction(&instruction);

    // Only provide program_id and account1, not fallback_key.
    let accounts = vec![
        (program_id, Account::new(1000, 0, Key::default())),
        (account1, Account::new(100, 10, Key::default())),
    ];

    let mut fallbacks = AccountMap::new();
    fallbacks.insert(fallback_key, Account::new(555, 5, Key::default()));

    let result = compile_transaction_accounts(&key_map, &accounts, &fallbacks, &NoStubs).unwrap();

    assert_eq!(result.len(), 3);
    // Fallback account should have 555 lamports.
    let fb_account = result.iter().find(|(pk, _)| pk == &fallback_key).unwrap();
    assert_eq!(fb_account.1.lamports, 555);
}

#[test]
fn test_compile_transaction_accounts_basic() {
    let program_id = key(1);
    let account1 = key(2);

    let instructions = vec![test_instruction(program_id, &[account1])];
    let key_map = KeyMap::compile_from_instructions(&instructions);

    let accounts = vec![
        (program_id, Account::new(1000, 0, Key::default())),
        (account1, Account::new(100, 10, Key::default())),
    ];

    let fallbacks = AccountMap::new();

    let result = compile_transaction_accounts(&key_map, &accounts, &fallbacks, &NoStubs).unwrap();

    assert_eq!(result.len(), 2);
    assert!(result.iter().any(|(pk, _)| pk == &program_id));
    assert!(result.iter().any(|(pk, _)| pk == &account1));
}

#[test]
fn test_compile_transaction_accounts_with_fallback() {
    let program_id = key(1);
    let account1 = key(2);
    let fallback_key = key(3);

    let instructions = vec![test_instruction(program_id, &[account1, fallback_key])];
    let key_map = KeyMap::compile_from_instructions(&instructions);

    // Only provide program_id and account1.
    let accounts = vec![
        (program_id, Account::new(1000, 0, Key::default())),
        (account1, Account::new(100, 10, Key::default())),
    ];

    let mut fallbacks = AccountMap::new();
    fallbacks.insert(fallback_key, Account::new(777, 7, Key::default()));

    let result = compile_transaction_accounts(&key_map, &accounts, &fallbacks, &NoStubs).unwrap();

    assert_eq!(result.len(), 3);
    let fb_account = result.iter().find(|(pk, _)| pk == &fallback_key).unwrap();
    assert_eq!(fb_account.1.lamports, 777);
}

#[test]
fn test_fallback_not_called_when_account_present() {
    let program_id = key(1);
    let account1 = key(2);

    let instruction = test_instruction(program_id, &[account1]);
    let key_map = KeyMap::compile_from_instruction(&instruction);

    let accounts = vec![
        (program_id, Account::new(1000, 0, Key::default())),
        (account1, Account::new(100, 10, Key::default())),
    ];

    let mut fallbacks = AccountMap::new();
    fallbacks.insert(account1, Account::new(999, 99, Key::default()));

    let result = compile_transaction_accounts(&key_map, &accounts, &fallbacks, &NoStubs).unwrap();

    // account1 should have original 100 lamports, not 999 from fallback.
    let acc = result.iter().find(|(pk, _)| pk == &account1).unwrap();
    assert_eq!(acc.1.lamports, 100);
}

#[test]
fn test_compile_instruction_without_data_deterministic() {
    let program_id = key(1);
    let account1 = key(2);
    let account2 = key(3);
    let account3 = key(4);

    let instruction = test_instruction(program_id, &[account1, account2, account3]);

    let key_map1 = KeyMap::compile_from_instruction(&instruction);
    let compiled1 = compile_instruction_without_data(&key_map1, &instruction).unwrap();

    let key_map2 = KeyMap::compile_from_instruction(&instruction);
    let compiled2 = compile_instruction_without_data(&key_map2, &instruction).unwrap();

    assert_eq!(compiled1.program_id_index, compiled2.program_id_index);
    assert_eq!(compiled1.accounts, compiled2.accounts);
}

#[test]
fn test_compile_instruction_without_data_account_index_overflow() {
    let mut key_map = KeyMap::default();

    for n in 0..256u64 {
        key_map.add_program(key(1000 + n));
    }

    let program_id = key(5);
    key_map.add_program(program_id);

    let instruction = Instruction::new_with_bytes(program_id, Vec::new(), vec![]);

    let err = compile_instruction_without_data(&key_map, &instruction).unwrap_err();
    assert_eq!(err, MolluskError::AccountIndexOverflow(256));
}

#[test]
fn test_compile_instruction_without_data_missing_program_id() {
    let program_id = key(1);
    let account1 = key(2);
    let instruction = test_instruction(program_id, &[account1]);

    let mut key_map = KeyMap::default();
    key_map.add_account(&AccountMeta::new(account1, false));

    let err = compile_instruction_without_data(&key_map, &instruction).unwrap_err();
    assert_eq!(err, MolluskError::ProgramIdNotMapped(program_id));
}

#[test]
fn test_compile_instruction_without_data_missing_account() {
    let program_id = key(1);
    let account1 = key(2);
    let account_missing = key(3);
    let instruction = Instruction::new_with_bytes(
        program_id,
        Vec::new(),
        vec![
            AccountMeta::new(account1, false),
            AccountMeta::new(account_missing, false),
        ],
    );

    let mut key_map = KeyMap::default();
    key_map.add_program(program_id);
    key_map.add_account(&AccountMeta::new(account1, false));

    let err = compile_instruction_without_data(&key_map, &instruction).unwrap_err();
    assert_eq!(err, MolluskError::AccountMissing(account_missing));
}

#[test]
fn test_account_missing_from_every_tier() {
    let program_id = key(1);
    let account1 = key(2);

    let instruction = test_instruction(program_id, &[account1]);
    let key_map = KeyMap::compile_from_instruction(&instruction);

    // Provide nothing; no fallback; no stubs. The first unresolvable key
    // is the program id.
    let accounts: Vec<(Key, Account)> = vec![];
    let fallbacks = AccountMap::new();

    let err =
        compile_transaction_accounts(&key_map, &accounts, &fallbacks, &NoStubs).unwrap_err();
    assert_eq!(err, MolluskError::AccountMissing(program_id));
}

#[test]
fn test_program_stub_resolves_program_id() {
    let program_id = key(1);
    let loader = key(9);
    let account1 = key(2);

    let instruction = test_instruction(program_id, &[account1]);
    let key_map = KeyMap::compile_from_instruction(&instruction);

    let accounts = vec![(account1, Account::new(100, 0, Key::default()))];
    let fallbacks = AccountMap::new();
    let stubs = ProgramStubs::new(loader, vec![program_id]);

    let result = compile_transaction_accounts(&key_map, &accounts, &fallbacks, &stubs).unwrap();
    let program_account = result.iter().find(|(pk, _)| pk == &program_id).unwrap();
    assert!(program_account.1.executable);
    assert_eq!(program_account.1.owner, loader);
    assert_eq!(program_account.1.lamports, 1);
}

#[test]
fn test_index_overflow_boundary() {
    // 255 distinct meta keys compile; 256 fail with an index overflow.
    let program_id = key(1);
    let metas_255: Vec<Key> = (0..255u64).map(|n| key(1000 + n)).collect();
    let instruction = test_instruction(program_id, &metas_255);
    let key_map = KeyMap::compile_from_instruction(&instruction);
    let compiled = compile_instruction_without_data(&key_map, &instruction).unwrap();
    assert_eq!(compiled.accounts.len(), 255);
    assert_eq!(compiled.accounts[254], 255);

    let metas_256: Vec<Key> = (0..256u64).map(|n| key(1000 + n)).collect();
    let instruction = test_instruction(program_id, &metas_256);
    let key_map = KeyMap::compile_from_instruction(&instruction);
    let err = compile_instruction_without_data(&key_map, &instruction).unwrap_err();
    assert_eq!(err, MolluskError::AccountIndexOverflow(256));
}

#[test]
fn test_resolution_order_highest_tier_wins() {
    // One key present at every tier resolves from the provided accounts;
    // absent there, from the fallback; absent from both, from the stubs.
    let program_id = key(1);
    let contested = key(2);
    let loader = key(9);

    let instruction = test_instruction(program_id, &[contested]);
    let key_map = KeyMap::compile_from_instruction(&instruction);

    let mut fallbacks = AccountMap::new();
    fallbacks.insert(program_id, Account::new(11, 0, Key::default()));
    fallbacks.insert(contested, Account::new(22, 0, Key::default()));
    let stubs = ProgramStubs::new(loader, vec![program_id, contested]);

    // All three tiers hold `contested`: the provided account wins.
    let provided = vec![(contested, Account::new(33, 0, Key::default()))];
    let result = compile_transaction_accounts(&key_map, &provided, &fallbacks, &stubs).unwrap();
    let acc = result.iter().find(|(pk, _)| pk == &contested).unwrap();
    assert_eq!(acc.1.lamports, 33);

    // Fallback and stubs hold it: the fallback wins.
    let result =
        compile_transaction_accounts(&key_map, &vec![], &fallbacks, &stubs).unwrap();
    let acc = result.iter().find(|(pk, _)| pk == &contested).unwrap();
    assert_eq!(acc.1.lamports, 22);

    // Only the stubs hold it: the stub is synthesized.
    let empty_fallbacks = AccountMap::new();
    let result =
        compile_transaction_accounts(&key_map, &vec![], &empty_fallbacks, &stubs).unwrap();
    let acc = result.iter().find(|(pk, _)| pk == &contested).unwrap();
    assert_eq!(acc.1.lamports, 1);
    assert!(acc.1.executable);

    // Resolution is a pure function: resolving the same inputs twice
    // yields identical account lists.
    let again =
        compile_transaction_accounts(&key_map, &vec![], &empty_fallbacks, &stubs).unwrap();
    assert_eq!(result, again);
}
