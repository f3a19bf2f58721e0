use mollusk_svm::keys::KeyMap;
use mollusk_svm::types::AccountMeta;
use mollusk_svm::types::Instruction;
use mollusk_svm::types::Key;

fn key(n: u64) -> Key {
    Key(n, 0, 0, 0)
}

#[test]
fn test_privilege_merge_across_references() {
    // One key referenced as signer-readonly in one meta and as
    // non-signer-writable in another ends up with both privileges, in
    // either reference order.
    let program_id = key(1);
    let shared = key(2);

    let forward = Instruction::new_with_bytes(
        program_id,
        Vec::new(),
        vec![
            AccountMeta::new_readonly(shared, true),
            AccountMeta::new(shared, false),
        ],
    );
    let km = KeyMap::compile_from_instruction(&forward);
    let pos = km.position(&shared).unwrap();
    assert!(km.is_signer_at_index(pos));
    assert!(km.is_writable_at_index(pos));
    assert_eq!(km.len(), 2);

    let backward = Instruction::new_with_bytes(
        program_id,
        Vec::new(),
        vec![
            AccountMeta::new(shared, false),
            AccountMeta::new_readonly(shared, true),
        ],
    );
    let km2 = KeyMap::compile_from_instruction(&backward);
    let pos2 = km2.position(&shared).unwrap();
    assert!(km2.is_signer_at_index(pos2));
    assert!(km2.is_writable_at_index(pos2));
    assert_eq!(km2.len(), 2);
}

#[test]
fn test_privilege_never_lowered() {
    let mut km = KeyMap::default();
    let k = key(7);
    km.add_account(&AccountMeta::new(k, true));
    // A later weaker reference does not lower the recorded privilege.
    km.add_account(&AccountMeta::new_readonly(k, false));
    let pos = km.position(&k).unwrap();
    assert!(km.is_signer_at_index(pos));
    assert!(km.is_writable_at_index(pos));
}

#[test]
fn test_position_stability() {
    // Positions are first-seen insertion indices and never reassigned.
    let program_id = key(1);
    let a = key(2);
    let b = key(3);

    let ix = Instruction::new_with_bytes(
        program_id,
        Vec::new(),
        vec![
            AccountMeta::new(a, false),
            AccountMeta::new(b, false),
            AccountMeta::new(a, true),
        ],
    );
    let km = KeyMap::compile_from_instruction(&ix);
    assert_eq!(km.position(&program_id), Some(0));
    assert_eq!(km.position(&a), Some(1));
    assert_eq!(km.position(&b), Some(2));
    assert_eq!(km.len(), 3);
    assert_eq!(km.keys(), vec![program_id, a, b]);
}

#[test]
fn test_compile_from_instructions_chain_dedup() {
    // The same key referenced by two instructions of a chain has one
    // entry, at its first-seen position, with merged privileges.
    let p1 = key(1);
    let p2 = key(2);
    let shared = key(3);
    let only_second = key(4);

    let ix1 = Instruction::new_with_bytes(
        p1,
        Vec::new(),
        vec![AccountMeta::new_readonly(shared, false)],
    );
    let ix2 = Instruction::new_with_bytes(
        p2,
        Vec::new(),
        vec![
            AccountMeta::new(shared, true),
            AccountMeta::new(only_second, false),
        ],
    );
    let km = KeyMap::compile_from_instructions(&vec![ix1, ix2]);
    assert_eq!(km.position(&p1), Some(0));
    assert_eq!(km.position(&shared), Some(1));
    assert_eq!(km.position(&p2), Some(2));
    assert_eq!(km.position(&only_second), Some(3));
    let pos = km.position(&shared).unwrap();
    assert!(km.is_signer_at_index(pos));
    assert!(km.is_writable_at_index(pos));
}

#[test]
fn test_compile_deterministic_positions() {
    // Compiling the same instructions twice from scratch yields identical
    // position assignments.
    let p = key(1);
    let keys: Vec<Key> = (0..10u64).map(|n| key(100 + n)).collect();
    let ix = Instruction::new_with_bytes(
        p,
        Vec::new(),
        keys.iter().map(|k| AccountMeta::new(*k, false)).collect(),
    );
    let km1 = KeyMap::compile_from_instructions(&vec![ix.clone()]);
    let km2 = KeyMap::compile_from_instructions(&vec![ix]);
    for k in keys.iter() {
        assert_eq!(km1.position(k), km2.position(k));
    }
    assert_eq!(km1.keys(), km2.keys());
}

#[test]
fn test_program_id_always_present() {
    // The program-id key is registered even when it appears among no
    // account metas.
    let program_id = key(1);
    let ix = Instruction::new_with_bytes(program_id, Vec::new(), vec![]);
    let km = KeyMap::compile_from_instruction(&ix);
    let pos = km.position(&program_id).unwrap();
    assert_eq!(pos, 0);
    assert!(!km.is_signer_at_index(pos));
    assert!(!km.is_writable_at_index(pos));
}
