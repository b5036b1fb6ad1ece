use comm_harness::collective::announced_value;
use comm_harness::collective::broadcast_into;
use comm_harness::collective::broadcast_scalar;
use comm_harness::collective::placeholder;
use comm_harness::collective::run_broadcast;
use comm_harness::collective::run_scatter;
use comm_harness::collective::run_value_broadcast;
use comm_harness::collective::scatter_chunk;
use comm_harness::collective::scatter_into;
use comm_harness::error::CommError;

#[test]
fn broadcast_replicates_root_value() {
    let value = vec![2, 4, 8, 16];
    let rows = run_broadcast(&value, 4).unwrap();
    assert_eq!(rows.len(), 4);
    for row in &rows {
        assert_eq!(row, &vec![2, 4, 8, 16]);
    }
}

#[test]
fn broadcast_twice_is_idempotent() {
    let value = vec![2, 4, 8, 16];
    let first = run_broadcast(&value, 4).unwrap();
    let second = run_broadcast(&value, 4).unwrap();
    assert_eq!(first, second);
    for row in &first {
        assert_eq!(row, &value);
    }
}

#[test]
fn broadcast_into_fills_placeholder() {
    let value = vec![2, 4, 8, 16];
    let mut buf = placeholder(4, 0);
    assert_eq!(broadcast_into(&value, &mut buf), Ok(()));
    assert_eq!(buf, value);
}

#[test]
fn broadcast_shape_mismatch_leaves_buffer() {
    let value = vec![2, 4, 8, 16];
    let mut buf = vec![7, 7, 7];
    assert_eq!(broadcast_into(&value, &mut buf), Err(CommError::ShapeMismatch));
    assert_eq!(buf, vec![7, 7, 7]);
}

#[test]
fn broadcast_rejects_empty_group() {
    let value = vec![1];
    assert_eq!(run_broadcast(&value, 0), Err(CommError::InvalidRank));
}

#[test]
fn scalar_broadcast_overwrites_placeholder() {
    let mut local = announced_value(3);
    assert_eq!(local, 0);
    broadcast_scalar(announced_value(0), &mut local);
    assert_eq!(local, 100);
}

#[test]
fn value_broadcast_reaches_every_rank() {
    let rows = run_value_broadcast(3).unwrap();
    assert_eq!(rows, vec![100, 100, 100]);
}

#[test]
fn placeholder_has_shape_and_fill() {
    let buf = placeholder(4, 0u32);
    assert_eq!(buf, vec![0, 0, 0, 0]);
}

#[test]
fn scatter_divides_twenty_over_four() {
    let numbers: Vec<u32> = (0..20).collect();
    let rows = run_scatter(&numbers, 4).unwrap();
    assert_eq!(rows.len(), 4);
    let mut gathered: Vec<u32> = Vec::new();
    for (t, row) in rows.iter().enumerate() {
        assert_eq!(row.len(), 5);
        let start = t as u32 * 5;
        let expected: Vec<u32> = (start..start + 5).collect();
        assert_eq!(row, &expected);
        gathered.extend_from_slice(row);
    }
    assert_eq!(gathered, numbers);
}

#[test]
fn scatter_chunk_per_rank() {
    let numbers: Vec<u32> = (0..20).collect();
    assert_eq!(scatter_chunk(&numbers, 0, 4), Ok(vec![0, 1, 2, 3, 4]));
    assert_eq!(scatter_chunk(&numbers, 3, 4), Ok(vec![15, 16, 17, 18, 19]));
}

#[test]
fn scatter_chunk_rejects_bad_rank() {
    let numbers: Vec<u32> = (0..20).collect();
    assert_eq!(scatter_chunk(&numbers, 4, 4), Err(CommError::InvalidRank));
    assert_eq!(scatter_chunk(&numbers, -1, 4), Err(CommError::InvalidRank));
}

#[test]
fn scatter_into_fills_agreed_buffer() {
    let numbers: Vec<u32> = (0..20).collect();
    let mut buf = placeholder(5, 0u32);
    assert_eq!(scatter_into(&numbers, 2, 4, &mut buf), Ok(()));
    assert_eq!(buf, vec![10, 11, 12, 13, 14]);
}

#[test]
fn scatter_into_shape_mismatch_leaves_buffer() {
    let numbers: Vec<u32> = (0..20).collect();
    let mut buf = vec![9, 9, 9];
    assert_eq!(scatter_into(&numbers, 2, 4, &mut buf), Err(CommError::ShapeMismatch));
    assert_eq!(buf, vec![9, 9, 9]);
}

#[test]
fn scatter_keeps_remainder_at_root() {
    let numbers: Vec<u32> = (0..7).collect();
    let rows = run_scatter(&numbers, 2).unwrap();
    assert_eq!(rows, vec![vec![0, 1, 2], vec![3, 4, 5]]);
}

#[test]
fn scatter_rejects_empty_group() {
    let numbers: Vec<u32> = (0..4).collect();
    assert_eq!(run_scatter(&numbers, 0), Err(CommError::InvalidRank));
}
