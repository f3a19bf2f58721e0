//! Key deduplication: the `KeyMap` collapses every account reference made
//! by one or more instructions into an ordered list of unique keys, merging
//! the signer/writable privileges of repeated references.

use vstd::prelude::*;

use crate::types::AccountMeta;
use crate::types::Instruction;
use crate::types::InstructionView;
use crate::types::Key;

verus! {

/// One entry of a [`KeyMap`]: a key and the merged privilege of every
/// reference to it seen so far. The entry's position in the map is its
/// index.
#[derive(Clone, Copy, PartialEq, Eq, Structural, Debug)]
pub struct KeyMapEntry {
    pub key: Key,
    pub is_signer: bool,
    pub is_writable: bool,
}

/// One account reference: a key and the privilege requested for it.
/// A program-id reference requests no privilege.
pub type KeyRef = (Key, bool, bool);

/// Whether some entry of `s` carries the key `k`.
pub open spec fn entries_contain(s: Seq<KeyMapEntry>, k: Key) -> bool {
    exists|i: int| 0 <= i < s.len() && s[i].key == k
}

/// The index of the first entry of `s` carrying the key `k`, or -1 when
/// there is none.
pub open spec fn entry_index(s: Seq<KeyMapEntry>, k: Key) -> int
    decreases s.len(),
{
    if s.len() == 0 {
        -1
    } else if s[0].key == k {
        0
    } else {
        let r = entry_index(s.drop_first(), k);
        if r < 0 {
            -1
        } else {
            r + 1
        }
    }
}

/// The merged signer flag recorded for `k`, or false when `k` is absent.
pub open spec fn signer_flag(s: Seq<KeyMapEntry>, k: Key) -> bool {
    entries_contain(s, k) && s[entry_index(s, k)].is_signer
}

/// The merged writable flag recorded for `k`, or false when `k` is absent.
pub open spec fn writable_flag(s: Seq<KeyMapEntry>, k: Key) -> bool {
    entries_contain(s, k) && s[entry_index(s, k)].is_writable
}

/// No two entries carry the same key.
pub open spec fn unique_keys(s: Seq<KeyMapEntry>) -> bool {
    forall|i: int, j: int| 0 <= i < j < s.len() ==> s[i].key != s[j].key
}

/// Register one reference: a key not yet present is appended with the
/// stated privilege; a key already present has its privilege raised by
/// boolean OR, in place, and its position is never reassigned.
pub open spec fn add_key_spec(s: Seq<KeyMapEntry>, r: KeyRef) -> Seq<KeyMapEntry> {
    let i = entry_index(s, r.0);
    if i < 0 {
        s.push(KeyMapEntry { key: r.0, is_signer: r.1, is_writable: r.2 })
    } else {
        s.update(
            i,
            KeyMapEntry {
                key: r.0,
                is_signer: s[i].is_signer || r.1,
                is_writable: s[i].is_writable || r.2,
            },
        )
    }
}

/// Register a sequence of references in order.
pub open spec fn add_refs_spec(s: Seq<KeyMapEntry>, refs: Seq<KeyRef>) -> Seq<KeyMapEntry>
    decreases refs.len(),
{
    if refs.len() == 0 {
        s
    } else {
        add_refs_spec(add_key_spec(s, refs[0]), refs.drop_first())
    }
}

/// The references one instruction makes, in order: first its program id
/// (with no privilege), then each account meta as given.
pub open spec fn instruction_refs(ix: InstructionView) -> Seq<KeyRef> {
    seq![(ix.program_id, false, false)] + ix.accounts.map_values(
        |m: AccountMeta| (m.pubkey, m.is_signer, m.is_writable),
    )
}

/// The references a chain of instructions makes, in order.
pub open spec fn chain_refs(instrs: Seq<InstructionView>) -> Seq<KeyRef>
    decreases instrs.len(),
{
    if instrs.len() == 0 {
        Seq::empty()
    } else {
        instruction_refs(instrs[0]) + chain_refs(instrs.drop_first())
    }
}

/// The key map compiled from a chain of instructions.
pub open spec fn compile_spec(instrs: Seq<InstructionView>) -> Seq<KeyMapEntry> {
    add_refs_spec(Seq::empty(), chain_refs(instrs))
}

/// `entry_index` returns a sound index: nonnegative exactly when the key
/// occurs, in range, carrying the key, and first among the entries that
/// carry it.
pub proof fn lemma_entry_index(s: Seq<KeyMapEntry>, k: Key)
    ensures
        entries_contain(s, k) <==> 0 <= entry_index(s, k),
        0 <= entry_index(s, k) ==> entry_index(s, k) < s.len() && s[entry_index(s, k)].key == k
            && forall|j: int| 0 <= j < entry_index(s, k) ==> s[j].key != k,
    decreases s.len(),
{
    if s.len() > 0 && s[0].key != k {
        let d = s.drop_first();
        lemma_entry_index(d, k);
        assert forall|i: int| 0 <= i < s.len() && s[i].key == k implies 0 <= entry_index(s, k) by {
            assert(d[i - 1] == s[i]);
        }
        let r = entry_index(d, k);
        if r >= 0 {
            assert(s[r + 1] == d[r]);
            assert forall|j: int| 0 <= j < r + 1 implies s[j].key != k by {
                if j > 0 {
                    assert(d[j - 1] == s[j]);
                }
            }
        }
    }
}

/// If entry `i` carries `k` and no earlier entry does, then `i` is the
/// first index for `k`.
pub proof fn lemma_entry_index_found(s: Seq<KeyMapEntry>, k: Key, i: int)
    requires
        0 <= i < s.len(),
        s[i].key == k,
        forall|j: int| 0 <= j < i ==> s[j].key != k,
    ensures
        entry_index(s, k) == i,
    decreases s.len(),
{
    if i > 0 {
        let d = s.drop_first();
        assert forall|j: int| 0 <= j < i - 1 implies d[j].key != k by {
            assert(d[j] == s[j + 1]);
        }
        assert(d[i - 1] == s[i]);
        lemma_entry_index_found(d, k, i - 1);
    }
}

/// What registering one reference does: uniqueness is preserved, existing
/// entries keep their position and key, flags of other keys are untouched,
/// and the reference's own key ends up present with its flags OR-merged.
pub proof fn lemma_add_key(s: Seq<KeyMapEntry>, r: KeyRef)
    requires
        unique_keys(s),
    ensures
        unique_keys(add_key_spec(s, r)),
        add_key_spec(s, r).len() == if entries_contain(s, r.0) {
            s.len()
        } else {
            s.len() + 1
        },
        forall|k: Key| #[trigger]
            entries_contain(add_key_spec(s, r), k) <==> entries_contain(s, k) || k == r.0,
        forall|k: Key| #[trigger]
            entry_index(add_key_spec(s, r), k) == if entries_contain(s, k) || k != r.0 {
                entry_index(s, k)
            } else {
                s.len() as int
            },
        forall|k: Key|
            k != r.0 ==> #[trigger] signer_flag(add_key_spec(s, r), k) == signer_flag(s, k),
        forall|k: Key|
            k != r.0 ==> #[trigger] writable_flag(add_key_spec(s, r), k) == writable_flag(s, k),
        signer_flag(add_key_spec(s, r), r.0) == (signer_flag(s, r.0) || r.1),
        writable_flag(add_key_spec(s, r), r.0) == (writable_flag(s, r.0) || r.2),
{
    let t = add_key_spec(s, r);
    lemma_entry_index(s, r.0);
    let i = entry_index(s, r.0);
    assert forall|k: Key| true implies #[trigger] entry_index(t, k) == if entries_contain(s, k)
        || k != r.0 {
        entry_index(s, k)
    } else {
        s.len() as int
    } by {
        lemma_entry_index(s, k);
        let ik = entry_index(s, k);
        if i < 0 {
            // t == s.push(new entry)
            if entries_contain(s, k) {
                lemma_entry_index_found(t, k, ik);
            } else if k == r.0 {
                lemma_entry_index_found(t, k, s.len() as int);
            } else {
                lemma_entry_index(t, k);
                if entries_contain(t, k) {
                    let j = entry_index(t, k);
                    assert(t[j].key == k);
                    assert(false);
                }
            }
        } else {
            // t == s.update(i, merged entry)
            if k == r.0 {
                lemma_entry_index_found(t, k, i);
            } else if entries_contain(s, k) {
                assert(t[ik].key == k);
                lemma_entry_index_found(t, k, ik);
            } else {
                lemma_entry_index(t, k);
                if entries_contain(t, k) {
                    let j = entry_index(t, k);
                    assert(s[j].key == if j == i {
                        r.0
                    } else {
                        s[j].key
                    });
                    assert(false);
                }
            }
        }
    }
    assert forall|k: Key| true implies (#[trigger] entries_contain(t, k) <==> entries_contain(s, k)
        || k == r.0) by {
        lemma_entry_index(s, k);
        lemma_entry_index(t, k);
    }
    assert forall|k: Key| k != r.0 implies #[trigger] signer_flag(t, k) == signer_flag(s, k) by {
        lemma_entry_index(s, k);
        lemma_entry_index(t, k);
        if entries_contain(s, k) {
            let ik = entry_index(s, k);
            assert(s[ik].key == k);
            if i >= 0 {
                assert(s[i].key == r.0);
                assert(ik != i);
            }
            assert(t[ik] == s[ik]);
        }
    }
    assert forall|k: Key| k != r.0 implies #[trigger] writable_flag(t, k) == writable_flag(s, k) by {
        lemma_entry_index(s, k);
        lemma_entry_index(t, k);
        if entries_contain(s, k) {
            let ik = entry_index(s, k);
            assert(s[ik].key == k);
            if i >= 0 {
                assert(s[i].key == r.0);
                assert(ik != i);
            }
            assert(t[ik] == s[ik]);
        }
    }
    assert(signer_flag(t, r.0) == (signer_flag(s, r.0) || r.1) && writable_flag(t, r.0) == (
    writable_flag(s, r.0) || r.2)) by {
        lemma_entry_index(s, r.0);
        lemma_entry_index(t, r.0);
        if i < 0 {
            assert(t[s.len() as int].key == r.0);
            assert(entry_index(t, r.0) == s.len() as int) by {
                lemma_entry_index_found(t, r.0, s.len() as int);
            }
        }
    }
}

/// Registering a concatenation of reference lists is registering the
/// first, then the second.
pub proof fn lemma_add_refs_concat(s: Seq<KeyMapEntry>, a: Seq<KeyRef>, b: Seq<KeyRef>)
    ensures
        add_refs_spec(s, a + b) == add_refs_spec(add_refs_spec(s, a), b),
    decreases a.len(),
{
    if a.len() == 0 {
        assert(a + b =~= b);
    } else {
        assert((a + b).drop_first() =~= a.drop_first() + b);
        lemma_add_refs_concat(add_key_spec(s, a[0]), a.drop_first(), b);
    }
}

/// Whether `refs` holds a reference to `k`, and whether one of them
/// requests the signer or the writable privilege.
pub open spec fn refs_contain(refs: Seq<KeyRef>, k: Key) -> bool {
    exists|i: int| 0 <= i < refs.len() && refs[i].0 == k
}

pub open spec fn refs_request_signer(refs: Seq<KeyRef>, k: Key) -> bool {
    exists|i: int| 0 <= i < refs.len() && refs[i].0 == k && refs[i].1
}

pub open spec fn refs_request_writable(refs: Seq<KeyRef>, k: Key) -> bool {
    exists|i: int| 0 <= i < refs.len() && refs[i].0 == k && refs[i].2
}

/// What registering a whole reference list does to each key's entry:
/// a key is present exactly when it was present before or is referenced;
/// its recorded privilege is the boolean OR of its previous privilege and
/// of every privilege requested for it, however the references are
/// ordered; positions of keys already present never change; uniqueness is
/// preserved.
pub proof fn lemma_add_refs(s: Seq<KeyMapEntry>, refs: Seq<KeyRef>)
    requires
        unique_keys(s),
    ensures
        unique_keys(add_refs_spec(s, refs)),
        forall|k: Key| #[trigger]
            entries_contain(add_refs_spec(s, refs), k) <==> entries_contain(s, k) || refs_contain(
                refs,
                k,
            ),
        forall|k: Key| #[trigger]
            signer_flag(add_refs_spec(s, refs), k) == (signer_flag(s, k) || refs_request_signer(
                refs,
                k,
            )),
        forall|k: Key| #[trigger]
            writable_flag(add_refs_spec(s, refs), k) == (writable_flag(s, k)
                || refs_request_writable(refs, k)),
        forall|k: Key|
            entries_contain(s, k) ==> #[trigger] entry_index(add_refs_spec(s, refs), k)
                == entry_index(s, k),
        s.len() <= add_refs_spec(s, refs).len(),
    decreases refs.len(),
{
    if refs.len() > 0 {
        let r = refs[0];
        let s1 = add_key_spec(s, r);
        let d = refs.drop_first();
        lemma_add_key(s, r);
        lemma_add_refs(s1, d);
        assert forall|k: Key| true implies (#[trigger] refs_contain(refs, k) <==> (k == r.0
            || refs_contain(d, k))) by {
            if refs_contain(refs, k) {
                let i = choose|i: int| 0 <= i < refs.len() && refs[i].0 == k;
                if i > 0 {
                    assert(d[i - 1] == refs[i]);
                }
            }
            if refs_contain(d, k) {
                let i = choose|i: int| 0 <= i < d.len() && d[i].0 == k;
                assert(refs[i + 1] == d[i]);
            }
        }
        assert forall|k: Key| true implies (#[trigger] refs_request_signer(refs, k) <==> ((k == r.0
            && r.1) || refs_request_signer(d, k))) by {
            if refs_request_signer(refs, k) {
                let i = choose|i: int| 0 <= i < refs.len() && refs[i].0 == k && refs[i].1;
                if i > 0 {
                    assert(d[i - 1] == refs[i]);
                }
            }
            if refs_request_signer(d, k) {
                let i = choose|i: int| 0 <= i < d.len() && d[i].0 == k && d[i].1;
                assert(refs[i + 1] == d[i]);
            }
        }
        assert forall|k: Key| true implies (#[trigger] refs_request_writable(refs, k) <==> ((k
            == r.0 && r.2) || refs_request_writable(d, k))) by {
            if refs_request_writable(refs, k) {
                let i = choose|i: int| 0 <= i < refs.len() && refs[i].0 == k && refs[i].2;
                if i > 0 {
                    assert(d[i - 1] == refs[i]);
                }
            }
            if refs_request_writable(d, k) {
                let i = choose|i: int| 0 <= i < d.len() && d[i].0 == k && d[i].2;
                assert(refs[i + 1] == d[i]);
            }
        }
        assert forall|k: Key| true implies #[trigger] signer_flag(add_refs_spec(s, refs), k) == (
        signer_flag(s, k) || refs_request_signer(refs, k)) by {
            assert(add_refs_spec(s, refs) == add_refs_spec(s1, d));
            assert(signer_flag(add_refs_spec(s1, d), k) == (signer_flag(s1, k)
                || refs_request_signer(d, k)));
        }
        assert forall|k: Key| true implies #[trigger] writable_flag(add_refs_spec(s, refs), k) == (
        writable_flag(s, k) || refs_request_writable(refs, k)) by {
            assert(add_refs_spec(s, refs) == add_refs_spec(s1, d));
            assert(writable_flag(add_refs_spec(s1, d), k) == (writable_flag(s1, k)
                || refs_request_writable(d, k)));
        }
    }
}

/// A deduplicated, ordered, privilege-merged view of all keys referenced
/// by one or more instructions. Keys are unique; a key's position is the
/// index at which it was first seen and never changes afterwards.
#[derive(Clone, Debug)]
pub struct KeyMap {
    entries: Vec<KeyMapEntry>,
}

impl View for KeyMap {
    type V = Seq<KeyMapEntry>;

    closed spec fn view(&self) -> Seq<KeyMapEntry> {
        self.entries@
    }
}

impl Default for KeyMap {
    /// An empty key map.
    fn default() -> (r: KeyMap)
        ensures
            r@ =~= Seq::<KeyMapEntry>::empty(),
    {
        KeyMap { entries: Vec::new() }
    }
}

impl KeyMap {
    /// The number of unique keys registered.
    pub fn len(&self) -> (r: usize)
        ensures
            r == self@.len(),
    {
        self.entries.len()
    }

    /// Register one reference to `key` with the given requested privilege.
    fn add_key(&mut self, key: Key, is_signer: bool, is_writable: bool)
        ensures
            final(self)@ == add_key_spec(old(self)@, (key, is_signer, is_writable)),
    {
        match self.position(&key) {
            Some(i) => {
                proof {
                    lemma_entry_index(self.entries@, key);
                }
                let e = self.entries[i];
                let merged = KeyMapEntry {
                    key,
                    is_signer: e.is_signer || is_signer,
                    is_writable: e.is_writable || is_writable,
                };
                self.entries[i] = merged;
            },
            None => {
                proof {
                    lemma_entry_index(self.entries@, key);
                }
                self.entries.push(KeyMapEntry { key, is_signer, is_writable });
            },
        }
    }

    /// Register an instruction's program-id key, with no privilege.
    pub fn add_program(&mut self, program_id: Key)
        ensures
            final(self)@ == add_key_spec(old(self)@, (program_id, false, false)),
    {
        self.add_key(program_id, false, false)
    }

    /// Register one account reference with its stated privilege.
    pub fn add_account(&mut self, meta: &AccountMeta)
        ensures
            final(self)@ == add_key_spec(
                old(self)@,
                (meta.pubkey, meta.is_signer, meta.is_writable),
            ),
    {
        self.add_key(meta.pubkey, meta.is_signer, meta.is_writable)
    }

    /// Register every reference one instruction makes: first its program
    /// id, then each account meta in the order given.
    pub fn add_instruction(&mut self, instruction: &Instruction)
        ensures
            final(self)@ == add_refs_spec(old(self)@, instruction_refs(instruction@)),
    {
        let ghost s0 = self@;
        let ghost refs = instruction_refs(instruction@);
        self.add_program(instruction.program_id);
        let ghost metas = instruction@.accounts.map_values(
            |m: AccountMeta| (m.pubkey, m.is_signer, m.is_writable),
        );
        let mut i: usize = 0;
        while i < instruction.accounts.len()
            invariant
                i <= instruction.accounts.len(),
                metas == instruction@.accounts.map_values(
                    |m: AccountMeta| (m.pubkey, m.is_signer, m.is_writable),
                ),
                metas.len() == instruction.accounts.len(),
                self@ == add_refs_spec(add_key_spec(s0, (instruction.program_id, false, false)), metas.take(i as int)),
            decreases instruction.accounts.len() - i,
        {
            let meta = instruction.accounts[i];
            proof {
                let t = metas.take(i as int);
                let t1 = metas.take(i + 1 as int);
                assert(t1 =~= t.push(metas[i as int]));
                assert(metas[i as int] == (meta.pubkey, meta.is_signer, meta.is_writable));
                lemma_add_refs_snoc(
                    add_key_spec(s0, (instruction.program_id, false, false)),
                    t,
                    metas[i as int],
                );
            }
            self.add_account(&meta);
            i += 1;
        }
        proof {
            assert(metas.take(instruction.accounts.len() as int) =~= metas);
            assert(refs.drop_first() =~= metas);
            assert(refs[0] == (instruction@.program_id, false, false));
        }
    }

    /// Compile a key map from a single instruction.
    pub fn compile_from_instruction(instruction: &Instruction) -> (r: KeyMap)
        ensures
            r@ == compile_spec(seq![instruction@]),
    {
        let mut km = KeyMap { entries: Vec::new() };
        km.add_instruction(instruction);
        proof {
            let instrs = seq![instruction@];
            assert(instrs[0] == instruction@);
            assert(instrs.drop_first() =~= Seq::<InstructionView>::empty());
            assert(chain_refs(Seq::<InstructionView>::empty()) == Seq::<KeyRef>::empty());
            assert(chain_refs(instrs) == instruction_refs(instrs[0]) + chain_refs(
                instrs.drop_first(),
            ));
            assert(chain_refs(instrs) =~= instruction_refs(instruction@));
        }
        km
    }

    /// Compile a key map from an ordered chain of instructions.
    pub fn compile_from_instructions(instructions: &Vec<Instruction>) -> (r: KeyMap)
        ensures
            r@ == compile_spec(instructions@.map_values(|ix: Instruction| ix@)),
    {
        let ghost views = instructions@.map_values(|ix: Instruction| ix@);
        let mut km = KeyMap { entries: Vec::new() };
        let mut i: usize = 0;
        while i < instructions.len()
            invariant
                i <= instructions.len(),
                views == instructions@.map_values(|ix: Instruction| ix@),
                views.len() == instructions.len(),
                km@ == add_refs_spec(Seq::empty(), chain_refs(views.take(i as int))),
            decreases instructions.len() - i,
        {
            proof {
                lemma_chain_refs_snoc(views, i as int);
                lemma_add_refs_concat(
                    Seq::empty(),
                    chain_refs(views.take(i as int)),
                    instruction_refs(views[i as int]),
                );
            }
            km.add_instruction(&instructions[i]);
            i += 1;
        }
        proof {
            assert(views.take(instructions.len() as int) =~= views);
        }
        km
    }

    /// The position assigned to `key`, if it is registered.
    pub fn position(&self, key: &Key) -> (r: Option<usize>)
        ensures
            match r {
                Some(p) => entries_contain(self@, *key) && p == entry_index(self@, *key),
                None => !entries_contain(self@, *key),
            },
    {
        let n = self.entries.len();
        let mut i: usize = 0;
        while i < n
            invariant
                i <= n,
                n == self.entries.len(),
                forall|j: int| 0 <= j < i ==> self.entries@[j].key != *key,
            decreases n - i,
        {
            if self.entries[i].key == *key {
                proof {
                    lemma_entry_index_found(self.entries@, *key, i as int);
                }
                return Some(i);
            }
            i += 1;
        }
        proof {
            lemma_entry_index(self.entries@, *key);
            if entries_contain(self.entries@, *key) {
                let j = entry_index(self.entries@, *key);
                assert(self.entries@[j].key == *key);
                assert(false);
            }
        }
        None
    }

    /// The key of the entry at `index`.
    pub fn key_at(&self, index: usize) -> (r: Key)
        requires
            index < self@.len(),
        ensures
            r == self@[index as int].key,
    {
        self.entries[index].key
    }

    /// The merged signer flag of the entry at `index`.
    pub fn is_signer_at_index(&self, index: usize) -> (r: bool)
        requires
            index < self@.len(),
        ensures
            r == self@[index as int].is_signer,
    {
        self.entries[index].is_signer
    }

    /// The merged writable flag of the entry at `index`.
    pub fn is_writable_at_index(&self, index: usize) -> (r: bool)
        requires
            index < self@.len(),
        ensures
            r == self@[index as int].is_writable,
    {
        self.entries[index].is_writable
    }

    /// The registered keys, in position order.
    pub fn keys(&self) -> (r: Vec<Key>)
        ensures
            r@ == self@.map_values(|e: KeyMapEntry| e.key),
    {
        let mut r: Vec<Key> = Vec::new();
        let mut i: usize = 0;
        while i < self.entries.len()
            invariant
                i <= self.entries.len(),
                r@ =~= self.entries@.take(i as int).map_values(|e: KeyMapEntry| e.key),
            decreases self.entries.len() - i,
        {
            proof {
                assert(self.entries@.take(i + 1 as int).drop_last() =~= self.entries@.take(
                    i as int,
                ));
            }
            r.push(self.entries[i].key);
            proof {
                assert(r@ =~= self.entries@.take(i + 1 as int).map_values(
                    |e: KeyMapEntry| e.key,
                ));
            }
            i += 1;
        }
        proof {
            assert(self.entries@.take(self.entries@.len() as int) =~= self.entries@);
        }
        r
    }
}

/// Registering `refs` then one more reference is registering
/// `refs.push(r)`.
pub proof fn lemma_add_refs_snoc(s: Seq<KeyMapEntry>, refs: Seq<KeyRef>, r: KeyRef)
    ensures
        add_refs_spec(s, refs.push(r)) == add_key_spec(add_refs_spec(s, refs), r),
{
    lemma_add_refs_concat(s, refs, seq![r]);
    assert(refs.push(r) =~= refs + seq![r]);
    let s1 = add_key_spec(add_refs_spec(s, refs), r);
    assert(seq![r][0] == r);
    assert(seq![r].drop_first() =~= Seq::<KeyRef>::empty());
    assert(add_refs_spec(s1, Seq::<KeyRef>::empty()) == s1);
    assert(add_refs_spec(add_refs_spec(s, refs), seq![r]) == add_refs_spec(
        s1,
        seq![r].drop_first(),
    ));
}

/// The references of the first `i + 1` instructions are the references of
/// the first `i` followed by those of instruction `i`.
pub proof fn lemma_chain_refs_snoc(instrs: Seq<InstructionView>, i: int)
    requires
        0 <= i < instrs.len(),
    ensures
        chain_refs(instrs.take(i + 1)) == chain_refs(instrs.take(i)) + instruction_refs(instrs[i]),
    decreases i,
{
    if i == 0 {
        let t1 = instrs.take(1);
        assert(t1[0] == instrs[0]);
        assert(t1.drop_first() =~= Seq::<InstructionView>::empty());
        assert(chain_refs(Seq::<InstructionView>::empty()) == Seq::<KeyRef>::empty());
        assert(chain_refs(t1) == instruction_refs(t1[0]) + chain_refs(t1.drop_first()));
        assert(instrs.take(0) =~= Seq::<InstructionView>::empty());
        assert(chain_refs(instrs.take(0)) == Seq::<KeyRef>::empty());
        assert(chain_refs(t1) =~= chain_refs(instrs.take(0)) + instruction_refs(instrs[0]));
    } else {
        let t1 = instrs.take(i + 1);
        let t0 = instrs.take(i);
        assert(t1.drop_first() =~= instrs.drop_first().take(i));
        assert(t0.drop_first() =~= instrs.drop_first().take(i - 1));
        assert(t1[0] == instrs[0]);
        assert(t0[0] == instrs[0]);
        lemma_chain_refs_snoc(instrs.drop_first(), i - 1);
        assert(instrs.drop_first()[i - 1] == instrs[i]);
        assert(chain_refs(t1) =~= instruction_refs(instrs[0]) + chain_refs(
            instrs.drop_first().take(i),
        ));
        assert(chain_refs(t0) =~= instruction_refs(instrs[0]) + chain_refs(
            instrs.drop_first().take(i - 1),
        ));
        assert(instruction_refs(instrs[0]) + (chain_refs(instrs.drop_first().take(i - 1))
            + instruction_refs(instrs[i])) =~= (instruction_refs(instrs[0]) + chain_refs(
            instrs.drop_first().take(i - 1),
        )) + instruction_refs(instrs[i]));
    }
}

/// Registering references whose keys are pairwise distinct and all new
/// appends them in order: each gets the next position.
pub proof fn lemma_fresh_positions(s: Seq<KeyMapEntry>, refs: Seq<KeyRef>)
    requires
        unique_keys(s),
        forall|i: int, j: int| 0 <= i < j < refs.len() ==> refs[i].0 != refs[j].0,
        forall|i: int| 0 <= i < refs.len() ==> !entries_contain(s, #[trigger] refs[i].0),
    ensures
        add_refs_spec(s, refs).len() == s.len() + refs.len(),
        forall|i: int|
            0 <= i < refs.len() ==> #[trigger] entry_index(add_refs_spec(s, refs), refs[i].0)
                == s.len() + i,
    decreases refs.len(),
{
    if refs.len() > 0 {
        let r = refs[0];
        let s1 = add_key_spec(s, r);
        let d = refs.drop_first();
        lemma_add_key(s, r);
        assert forall|i: int, j: int| 0 <= i < j < d.len() implies d[i].0 != d[j].0 by {
            assert(d[i] == refs[i + 1]);
            assert(d[j] == refs[j + 1]);
        }
        assert forall|i: int| 0 <= i < d.len() implies !entries_contain(s1, #[trigger] d[i].0) by {
            assert(d[i] == refs[i + 1]);
            assert(refs[i + 1].0 != r.0);
        }
        lemma_fresh_positions(s1, d);
        lemma_add_refs(s1, d);
        let t = add_refs_spec(s, refs);
        assert(t == add_refs_spec(s1, d));
        assert(entry_index(t, r.0) == entry_index(s1, r.0));
        assert(entry_index(s1, r.0) == s.len() as int);
        assert forall|i: int| 0 <= i < refs.len() implies #[trigger] entry_index(t, refs[i].0)
            == s.len() + i by {
            if i > 0 {
                assert(d[i - 1] == refs[i]);
                assert(entry_index(add_refs_spec(s1, d), d[i - 1].0) == s1.len() + (i - 1));
            }
        }
    }
}

/// Key-map compilation is deterministic: compiling the same instruction
/// sequence from scratch twice yields identical entries, positions and
/// privileges included.
pub proof fn lemma_compile_deterministic(a: Seq<InstructionView>, b: Seq<InstructionView>)
    requires
        a == b,
    ensures
        compile_spec(a) == compile_spec(b),
{
}

/// The compiled key map of any instruction chain has unique keys, holds
/// exactly the referenced keys, and records for each key the boolean OR of
/// every privilege requested for it — however often and in whatever order
/// the key is referenced (deduplication with privilege merge).
pub proof fn lemma_compile_privileges(instrs: Seq<InstructionView>)
    ensures
        unique_keys(compile_spec(instrs)),
        forall|k: Key| #[trigger]
            entries_contain(compile_spec(instrs), k) <==> refs_contain(chain_refs(instrs), k),
        forall|k: Key| #[trigger]
            signer_flag(compile_spec(instrs), k) == refs_request_signer(chain_refs(instrs), k),
        forall|k: Key| #[trigger]
            writable_flag(compile_spec(instrs), k) == refs_request_writable(chain_refs(instrs), k),
{
    lemma_add_refs(Seq::empty(), chain_refs(instrs));
}

} // verus!
