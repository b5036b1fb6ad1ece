use comm_harness::error::CommError;
use comm_harness::group::ProcessGroup;
use comm_harness::group::ProcessHandle;
use comm_harness::group::Role;
use comm_harness::group::role_of;

#[test]
fn group_accessors() {
    let g = ProcessGroup::new(2, 5).unwrap();
    assert_eq!(g.rank(), 2);
    assert_eq!(g.size(), 5);
}

#[test]
fn group_rejects_bad_rank() {
    assert_eq!(ProcessGroup::new(5, 5), Err(CommError::InvalidRank));
    assert_eq!(ProcessGroup::new(-1, 5), Err(CommError::InvalidRank));
    assert_eq!(ProcessGroup::new(0, 0), Err(CommError::InvalidRank));
}

#[test]
fn ring_neighbors_wrap() {
    let first = ProcessGroup::new(0, 4).unwrap();
    assert_eq!(first.next_rank(), 1);
    assert_eq!(first.previous_rank(), 3);

    let last = ProcessGroup::new(3, 4).unwrap();
    assert_eq!(last.next_rank(), 0);
    assert_eq!(last.previous_rank(), 2);
}

#[test]
fn ring_of_two_neighbors_coincide() {
    let g = ProcessGroup::new(1, 2).unwrap();
    assert_eq!(g.next_rank(), 0);
    assert_eq!(g.previous_rank(), 0);
}

#[test]
fn process_at_checks_rank() {
    let g = ProcessGroup::new(0, 4).unwrap();
    assert_eq!(g.process_at(3), Ok(ProcessHandle::AtRank(3)));
    assert_eq!(g.process_at(4), Err(CommError::InvalidRank));
    assert_eq!(g.process_at(-1), Err(CommError::InvalidRank));
}

#[test]
fn wildcard_handle() {
    let g = ProcessGroup::new(0, 4).unwrap();
    assert_eq!(g.any_process(), ProcessHandle::AnySource);
}

#[test]
fn roles_from_rank() {
    assert_eq!(role_of(0, 2), Role::Root);
    assert_eq!(role_of(1, 2), Role::NonRoot);
    assert_eq!(role_of(2, 2), Role::Idle);
    assert_eq!(role_of(7, 2), Role::Idle);
}

#[test]
fn error_descriptions() {
    assert_eq!(CommError::InvalidRank.describe(), "invalid rank");
    assert_eq!(CommError::TransportError.describe(), "transport error");
    assert_eq!(CommError::ShapeMismatch.describe(), "shape mismatch");
    assert_eq!(CommError::ContractViolation.describe(), "contract violation");
}
