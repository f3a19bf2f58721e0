//! Validation policy and the context supplied to account checks.

use vstd::prelude::*;

use crate::types::Key;

verus! {

/// Process-wide validation policy, supplied by the caller per validation
/// call: whether a mismatch is fatal at once or accumulated into a report,
/// and whether detail should be printed by the caller.
#[derive(Clone, Copy, PartialEq, Eq, Structural, Debug)]
pub struct Config {
    /// Surface the first mismatch as a fatal failure instead of
    /// accumulating a report.
    pub panic_on_failure: bool,
    /// Ask the caller to print detail for every mismatch.
    pub verbose: bool,
}

impl Default for Config {
    /// Mismatches are fatal, without verbose detail.
    fn default() -> (r: Config)
        ensures
            r == (Config { panic_on_failure: true, verbose: false }),
    {
        Config { panic_on_failure: true, verbose: false }
    }
}

/// The context a check evaluation runs under. It supplies the one injected
/// predicate the engine does not own: the rent-exemption rule.
pub trait CheckContext {
    /// The rent-exemption rule this context applies.
    spec fn rent_exempt_spec(&self, lamports: u64, space: nat, owner: Key) -> bool;

    /// Whether an account with the given lamports, data size, and owner is
    /// rent exempt.
    fn is_rent_exempt(&self, lamports: u64, space: usize, owner: Key) -> (r: bool)
        ensures
            r == self.rent_exempt_spec(lamports, space as nat, owner),
    ;
}

/// A linear rent rule: an account is exempt when it is the canonical
/// closed account (zero lamports owned by the all-zero key), or when its
/// lamports reach a flat base plus a per-byte price on its data size.
#[derive(Clone, Copy, PartialEq, Eq, Structural, Debug)]
pub struct LinearRent {
    pub base_lamports: u64,
    pub lamports_per_byte: u64,
}

impl CheckContext for LinearRent {
    open spec fn rent_exempt_spec(&self, lamports: u64, space: nat, owner: Key) -> bool {
        (owner == Key(0, 0, 0, 0) && lamports == 0) || lamports >= self.base_lamports
            + self.lamports_per_byte * space
    }

    fn is_rent_exempt(&self, lamports: u64, space: usize, owner: Key) -> (r: bool) {
        if owner == Key(0, 0, 0, 0) && lamports == 0 {
            true
        } else {
            let per = self.lamports_per_byte as u128;
            let sp = space as u128;
            proof {
                assert(per * sp <= 0xFFFF_FFFF_FFFF_FFFFu128 * 0xFFFF_FFFF_FFFF_FFFFu128)
                    by (nonlinear_arith)
                    requires
                        per <= 0xFFFF_FFFF_FFFF_FFFFu128,
                        sp <= 0xFFFF_FFFF_FFFF_FFFFu128,
                ;
            }
            let need: u128 = self.base_lamports as u128 + per * sp;
            lamports as u128 >= need
        }
    }
}

} // verus!
