//! The instructions-introspection pseudo-account: its data is the outside
//! encoding of the full instruction sequence being compiled, and the stub
//! policy here synthesizes the account for the resolver's stub tier.

use vstd::prelude::*;

use crate::accounts::StubPolicy;
use crate::types::Account;
use crate::types::AccountView;
use crate::types::Instruction;
use crate::types::InstructionView;
use crate::types::Key;

verus! {

/// The bytes `solana_instructions_sysvar::construct_instructions_data`
/// encodes an instruction sequence into. The encoding is a function of
/// the instructions alone; its layout is the outside crate's and is not
/// restated here.
pub uninterp spec fn instructions_data_of(instrs: Seq<InstructionView>) -> Seq<u8>;

#[verifier::external_type_specification]
#[verifier::external_body]
pub struct ExPubkey(solana_pubkey::Pubkey);

/// Relies on Pubkey::new_from_array: the address made of a key's 32
/// little-endian bytes.
#[verifier::external_body]
fn pubkey_of(k: &Key) -> (r: solana_pubkey::Pubkey) {
    let b: Vec<u8> = [k.0, k.1, k.2, k.3].iter().flat_map(|w| w.to_le_bytes()).collect();
    solana_pubkey::Pubkey::new_from_array(b.try_into().unwrap())
}

/// Relies on solana_instructions_sysvar::construct_instructions_data: the
/// encoded bytes are a function of the instruction sequence alone.
#[verifier::external_body]
fn encode_instructions(instructions: &Vec<Instruction>) -> (r: Vec<u8>)
    ensures
        r@ == instructions_data_of(instructions@.map_values(|ix: Instruction| ix@)),
{
    let owned: Vec<(solana_pubkey::Pubkey, Vec<solana_instruction::AccountMeta>, &Vec<u8>)> =
        instructions.iter().map(|ix| (pubkey_of(&ix.program_id), ix.accounts.iter().map(|m| solana_instruction::AccountMeta { pubkey: pubkey_of(&m.pubkey), is_signer: m.is_signer, is_writable: m.is_writable }).collect(), &ix.data)).collect();
    let borrowed: Vec<solana_instruction::BorrowedInstruction> =
        owned.iter().map(|(pid, metas, data)| solana_instruction::BorrowedInstruction { program_id: pid, accounts: metas.iter().map(|m| solana_instruction::BorrowedAccountMeta { pubkey: &m.pubkey, is_signer: m.is_signer, is_writable: m.is_writable }).collect(), data }).collect();
    solana_instructions_sysvar::construct_instructions_data(&borrowed)
}

/// The instructions-introspection pseudo-account for an instruction
/// sequence: no lamports, not executable, owned by the given sysvar
/// owner, its data the outside encoding of the sequence.
pub fn instructions_sysvar_account(
    instructions: &Vec<Instruction>,
    sysvar_id: Key,
    owner: Key,
) -> (r: (Key, Account))
    ensures
        r.0 == sysvar_id,
        r.1@.lamports == 0,
        !r.1@.executable,
        r.1@.rent_epoch == 0,
        r.1@.owner == owner,
        r.1@.data == instructions_data_of(instructions@.map_values(|ix: Instruction| ix@)),
{
    let data = encode_instructions(instructions);
    (sysvar_id, Account { lamports: 0, data, owner, executable: false, rent_epoch: 0 })
}

/// A stub policy that synthesizes the instructions-introspection
/// pseudo-account: for the sysvar's own key it produces the account whose
/// data encodes the instruction sequence being compiled; for every other
/// key it synthesizes nothing.
pub struct InstructionsSysvar {
    sysvar_id: Key,
    owner: Key,
    instructions: Vec<Instruction>,
}

impl InstructionsSysvar {
    /// A policy for the given sysvar key and owner, over the instruction
    /// sequence being compiled.
    pub fn new(sysvar_id: Key, owner: Key, instructions: Vec<Instruction>) -> (r:
        InstructionsSysvar)
        ensures
            r.sysvar_key() == sysvar_id,
            r.owner_key() == owner,
            r.instruction_views() == instructions@.map_values(|ix: Instruction| ix@),
    {
        InstructionsSysvar { sysvar_id, owner, instructions }
    }

    /// The key the pseudo-account is synthesized for.
    pub closed spec fn sysvar_key(&self) -> Key {
        self.sysvar_id
    }

    /// The owner recorded on the synthesized pseudo-account.
    pub closed spec fn owner_key(&self) -> Key {
        self.owner
    }

    /// The instruction sequence the pseudo-account encodes.
    pub closed spec fn instruction_views(&self) -> Seq<InstructionView> {
        self.instructions@.map_values(|ix: Instruction| ix@)
    }
}

impl StubPolicy for InstructionsSysvar {
    open spec fn stub_spec(&self, key: Key) -> Option<AccountView> {
        if key == self.sysvar_key() {
            Some(
                AccountView {
                    lamports: 0,
                    data: instructions_data_of(self.instruction_views()),
                    owner: self.owner_key(),
                    executable: false,
                    rent_epoch: 0,
                },
            )
        } else {
            None
        }
    }

    fn maybe_stub(&self, key: &Key) -> (r: Option<Account>) {
        if *key == self.sysvar_id {
            let account = instructions_sysvar_account(
                &self.instructions,
                self.sysvar_id,
                self.owner,
            ).1;
            proof {
                assert(account@ =~= self.stub_spec(*key)->Some_0);
            }
            Some(account)
        } else {
            None
        }
    }
}

} // verus!
