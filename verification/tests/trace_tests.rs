use zkp_circuits::BabyBearField;
use zkp_circuits::ExecutionTrace;

#[test]
fn new_trace_is_zero_filled() {
    let trace = ExecutionTrace::new(3, 4);
    assert_eq!(trace.width, 3);
    assert_eq!(trace.height, 4);
    assert_eq!(trace.data.len(), 4);
    for row in &trace.data {
        assert_eq!(row.len(), 3);
        for cell in row {
            assert_eq!(*cell, BabyBearField(0));
        }
    }
}

#[test]
fn empty_traces() {
    let no_rows = ExecutionTrace::new(5, 0);
    assert_eq!(no_rows.data.len(), 0);
    assert_eq!(no_rows.get(0, 0), BabyBearField(0));
    let no_columns = ExecutionTrace::new(0, 2);
    assert_eq!(no_columns.data.len(), 2);
    assert_eq!(no_columns.get(1, 0), BabyBearField(0));
}

#[test]
fn set_then_get() {
    let mut trace = ExecutionTrace::new(3, 2);
    trace.set(1, 2, BabyBearField::new(42));
    assert_eq!(trace.get(1, 2), BabyBearField(42));
    assert_eq!(trace.get(0, 2), BabyBearField(0));
    assert_eq!(trace.get(1, 1), BabyBearField(0));
    trace.set(1, 2, BabyBearField::new(7));
    assert_eq!(trace.get(1, 2), BabyBearField(7));
}

#[test]
fn get_out_of_bounds_is_zero() {
    let mut trace = ExecutionTrace::new(2, 2);
    trace.set(1, 1, BabyBearField::new(9));
    assert_eq!(trace.get(2, 1), BabyBearField(0));
    assert_eq!(trace.get(1, 2), BabyBearField(0));
    assert_eq!(trace.get(usize::MAX, usize::MAX), BabyBearField(0));
}

#[test]
fn set_out_of_bounds_is_ignored() {
    let mut trace = ExecutionTrace::new(2, 2);
    trace.set(0, 0, BabyBearField::new(1));
    trace.set(2, 0, BabyBearField::new(5));
    trace.set(0, 2, BabyBearField::new(5));
    trace.set(usize::MAX, usize::MAX, BabyBearField::new(5));
    assert_eq!(trace.width, 2);
    assert_eq!(trace.height, 2);
    assert_eq!(trace.data, vec![
        vec![BabyBearField(1), BabyBearField(0)],
        vec![BabyBearField(0), BabyBearField(0)],
    ]);
}

#[test]
fn cells_that_are_not_stored_read_zero_and_are_not_written() {
    let mut trace = ExecutionTrace {
        width: 3,
        height: 3,
        data: vec![vec![BabyBearField(1); 3], vec![BabyBearField(2)]],
    };
    assert!(!trace.is_well_formed());
    assert_eq!(trace.get(0, 2), BabyBearField(1));
    assert_eq!(trace.get(1, 0), BabyBearField(2));
    assert_eq!(trace.get(1, 1), BabyBearField(0));
    assert_eq!(trace.get(2, 0), BabyBearField(0));
    trace.set(1, 1, BabyBearField(9));
    trace.set(2, 0, BabyBearField(9));
    trace.set(1, 0, BabyBearField(7));
    assert_eq!(trace.data, vec![vec![BabyBearField(1); 3], vec![BabyBearField(7)]]);
    let narrow = ExecutionTrace { width: 1, height: 1, data: vec![vec![BabyBearField(4), BabyBearField(5)]] };
    assert_eq!(narrow.get(0, 0), BabyBearField(4));
    assert_eq!(narrow.get(0, 1), BabyBearField(0));
}
