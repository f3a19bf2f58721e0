use mollusk_svm::bench::cu_delta;
use mollusk_svm::bench::CuDelta;
use mollusk_svm::bench::MolluskComputeUnitBenchResult;
use mollusk_svm::bench::MolluskComputeUnitMatrixBenchResult;
use mollusk_svm::types::InstructionResult;

fn result_with_units(cus: u64) -> InstructionResult {
    let mut r = InstructionResult::default();
    r.compute_units_consumed = cus;
    r
}

#[test]
fn test_bench_result_records_units() {
    let r = MolluskComputeUnitBenchResult::new(String::from("transfer"), result_with_units(150));
    assert_eq!(r.name, "transfer");
    assert_eq!(r.cus_consumed, 150);
}

#[test]
fn test_matrix_bench_result_accumulates() {
    let mut m = MolluskComputeUnitMatrixBenchResult::new(String::from("primary"));
    assert_eq!(m.program_name, "primary");
    assert!(m.results.is_empty());

    m.add_result(String::from("first"), result_with_units(10));
    m.add_result(String::from("second"), result_with_units(20));
    assert_eq!(m.results.len(), 2);
    assert_eq!(m.results[0].name, "first");
    assert_eq!(m.results[0].cus_consumed, 10);
    assert_eq!(m.results[1].name, "second");
    assert_eq!(m.results[1].cus_consumed, 20);
}

#[test]
fn test_cu_delta_values() {
    assert_eq!(cu_delta(100, None), CuDelta::New);
    assert_eq!(cu_delta(100, Some(100)), CuDelta::Unchanged);
    assert_eq!(cu_delta(120, Some(100)), CuDelta::Changed(20));
    assert_eq!(cu_delta(80, Some(100)), CuDelta::Changed(-20));
}
