//! Compute-unit benchmarking results: the data a bench run accumulates
//! per instruction and per program. Rendering and persisting a report are
//! the caller's concern; the delta against a previous run is computed
//! here.

use vstd::prelude::*;

use crate::types::InstructionResult;

verus! {

/// The compute units one named bench case consumed.
#[derive(Clone, PartialEq, Eq, Debug)]
pub struct MolluskComputeUnitBenchResult {
    pub name: String,
    pub cus_consumed: u64,
}

impl MolluskComputeUnitBenchResult {
    /// Record a bench case from an execution result.
    pub fn new(name: String, result: InstructionResult) -> (r: MolluskComputeUnitBenchResult)
        ensures
            r.name@ == name@,
            r.cus_consumed == result@.compute_units_consumed,
    {
        let cus_consumed = result.compute_units_consumed;
        MolluskComputeUnitBenchResult { name, cus_consumed }
    }
}

/// The bench cases recorded for one program, for a table that compares
/// several programs case by case.
#[derive(Clone, PartialEq, Eq, Debug)]
pub struct MolluskComputeUnitMatrixBenchResult {
    pub program_name: String,
    pub results: Vec<MolluskComputeUnitBenchResult>,
}

impl MolluskComputeUnitMatrixBenchResult {
    /// An empty record for the named program.
    pub fn new(program_name: String) -> (r: MolluskComputeUnitMatrixBenchResult)
        ensures
            r.program_name@ == program_name@,
            r.results@ =~= Seq::<MolluskComputeUnitBenchResult>::empty(),
    {
        MolluskComputeUnitMatrixBenchResult { program_name, results: Vec::new() }
    }

    /// Record one bench case.
    pub fn add_result(&mut self, name: String, result: InstructionResult)
        ensures
            final(self).program_name == old(self).program_name,
            final(self).results@.len() == old(self).results@.len() + 1,
            final(self).results@.drop_last() == old(self).results@,
            final(self).results@.last().name@ == name@,
            final(self).results@.last().cus_consumed == result@.compute_units_consumed,
    {
        let entry = MolluskComputeUnitBenchResult::new(name, result);
        self.results.push(entry);
        proof {
            assert(self.results@.drop_last() =~= old(self).results@);
        }
    }
}

/// The change of a bench case against a previous run: absent before, the
/// same as before, or changed by a signed difference.
#[derive(Clone, Copy, PartialEq, Eq, Structural, Debug)]
pub enum CuDelta {
    /// The case did not occur in the previous run.
    New,
    /// The case consumed exactly as many compute units as before.
    Unchanged,
    /// The case's compute units changed by this signed amount.
    Changed(i128),
}

/// The delta of one bench case against its previous measurement, if any.
pub fn cu_delta(cus_consumed: u64, previous: Option<u64>) -> (r: CuDelta)
    ensures
        match previous {
            None => r == CuDelta::New,
            Some(p) => if p == cus_consumed {
                r == CuDelta::Unchanged
            } else {
                r == CuDelta::Changed((cus_consumed - p) as i128)
            },
        },
{
    match previous {
        None => CuDelta::New,
        Some(p) => {
            if p == cus_consumed {
                CuDelta::Unchanged
            } else {
                CuDelta::Changed(cus_consumed as i128 - p as i128)
            }
        },
    }
}

} // verus!
