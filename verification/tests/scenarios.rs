use comm_harness::channel::RequestScope;
use comm_harness::channel::SendRequest;
use comm_harness::channel::deliver;
use comm_harness::directed::directed_payload;
use comm_harness::directed::directed_role;
use comm_harness::directed::run_directed_send;
use comm_harness::group::Role;
use comm_harness::neighbor::check_fingerprint;
use comm_harness::neighbor::fingerprint;
use comm_harness::neighbor::run_neighbor_exchange;
use comm_harness::ping_pong::MAX_SHOTS;
use comm_harness::ping_pong::PingPongAction;
use comm_harness::ping_pong::ping_pong_step;
use comm_harness::ping_pong::run_ping_pong;
use comm_harness::random_transfer::iota;
use comm_harness::random_transfer::run_random_transfer;
use comm_harness::random_transfer::shuffled_pool;
use comm_harness::token_ring::TOKEN_SENTINEL;
use comm_harness::token_ring::originate_token;
use comm_harness::token_ring::relay_token;
use comm_harness::token_ring::run_token_ring;

#[test]
fn fingerprint_values() {
    assert_eq!(fingerprint(3), vec![3, 6, 12]);
    assert_eq!(fingerprint(0), vec![0, 0, 0]);
}

#[test]
fn fingerprint_check_accepts_and_rejects() {
    let msg = fingerprint(3);
    assert!(check_fingerprint(&msg, 3));
    assert!(!check_fingerprint(&msg, 2));
    assert!(!check_fingerprint(&vec![3, 6], 3));
    assert!(!check_fingerprint(&vec![3, 6, 13], 3));
}

#[test]
fn neighbor_exchange_reports_predecessor() {
    let size = 4;
    let rows = run_neighbor_exchange(size);
    assert_eq!(rows.len(), size as usize);
    for (t, (msg, status)) in rows.iter().enumerate() {
        let origin = (t as i32 - 1 + size) % size;
        assert_eq!(status.source_rank, origin);
        assert_eq!(status.count, 3);
        assert_eq!(msg, &vec![origin, 2 * origin, 4 * origin]);
        assert!(check_fingerprint(msg, status.source_rank));
    }
}

#[test]
fn neighbor_exchange_successor_sees_sender() {
    let size = 5;
    let rows = run_neighbor_exchange(size);
    for r in 0..size {
        let successor = (r + 1) % size;
        let (msg, status) = &rows[successor as usize];
        assert_eq!(status.source_rank, r);
        assert_eq!(msg, &vec![r, 2 * r, 4 * r]);
    }
}

#[test]
fn directed_send_crosses_pair() {
    let (msg, status) = run_directed_send();
    assert_eq!(msg, vec![-1]);
    assert_eq!(status.source_rank, 0);
    assert_eq!(status.count, 1);
    assert_eq!(directed_payload(), vec![-1]);
}

#[test]
fn directed_roles() {
    assert_eq!(directed_role(0), Role::Root);
    assert_eq!(directed_role(1), Role::NonRoot);
    assert_eq!(directed_role(2), Role::Idle);
}

#[test]
fn ping_pong_counts_every_shot() {
    let observed = run_ping_pong(MAX_SHOTS);
    assert_eq!(observed.len(), 100);
    for (i, count) in observed.iter().enumerate() {
        assert_eq!(*count, i as i32 + 1);
    }
    assert_eq!(*observed.last().unwrap(), MAX_SHOTS);
}

#[test]
fn ping_pong_turns_follow_parity() {
    assert_eq!(ping_pong_step(0, 0), PingPongAction::Shoot { target: 1, next_count: 1 });
    assert_eq!(ping_pong_step(1, 0), PingPongAction::Await { from: 0 });
    assert_eq!(ping_pong_step(1, 1), PingPongAction::Shoot { target: 0, next_count: 2 });
    assert_eq!(ping_pong_step(0, 1), PingPongAction::Await { from: 1 });
}

#[test]
fn ping_pong_bystanders_idle() {
    for count in 0..5 {
        assert_eq!(ping_pong_step(2, count), PingPongAction::Idle);
        assert_eq!(ping_pong_step(9, count), PingPongAction::Idle);
    }
}

#[test]
fn token_ring_closes_circuit() {
    let size = 5;
    let (closing, forwarded) = run_token_ring(size);
    assert_eq!(forwarded.len(), size as usize);
    assert_eq!(forwarded[0], TOKEN_SENTINEL);
    for i in 1..size as usize {
        assert_eq!(forwarded[i], forwarded[i - 1]);
    }
    assert_eq!(closing, forwarded[size as usize - 1]);
    assert_eq!(closing, TOKEN_SENTINEL);
}

#[test]
fn token_passes_unmodified() {
    assert_eq!(originate_token(), -1);
    assert_eq!(relay_token(-1), -1);
    assert_eq!(relay_token(42), 42);
}

#[test]
fn random_transfer_reports_true_count() {
    for _ in 0..20 {
        let (msg, status) = run_random_transfer(10);
        assert_eq!(status.count, msg.len());
        assert_eq!(status.source_rank, 0);
        assert!(msg.len() < 10);
        for v in &msg {
            assert!(*v < 10);
        }
        let mut seen = msg.clone();
        seen.sort();
        seen.dedup();
        assert_eq!(seen.len(), msg.len());
    }
}

#[test]
fn random_transfer_of_one_is_empty() {
    let (msg, status) = run_random_transfer(1);
    assert_eq!(msg.len(), 0);
    assert_eq!(status.count, 0);
}

#[test]
fn shuffle_keeps_the_numbers() {
    let mut pool = shuffled_pool(30);
    assert_eq!(pool.len(), 30);
    pool.sort();
    assert_eq!(pool, (0..30).collect::<Vec<u32>>());
}

#[test]
fn iota_counts_up() {
    assert_eq!(iota(5), vec![0, 1, 2, 3, 4]);
    assert_eq!(iota(0), Vec::<u32>::new());
}

#[test]
fn delivery_reports_origin_tag_count() {
    let (msg, status) = deliver(3, 5, vec![1, 2]);
    assert_eq!(msg, vec![1, 2]);
    assert_eq!(status.source_rank, 3);
    assert_eq!(status.tag, 5);
    assert_eq!(status.count, 2);
}

#[test]
fn request_waits_release_payload() {
    let req = SendRequest::issue(1, 7, vec![9, 8]);
    assert_eq!(req.wait(), vec![9, 8]);
}

#[test]
fn scope_completes_requests_in_issue_order() {
    let mut scope: RequestScope<i32> = RequestScope::open();
    assert_eq!(scope.outstanding(), 0);
    scope.attach(SendRequest::issue(1, 0, vec![10]));
    scope.attach(SendRequest::issue(2, 0, vec![20, 21]));
    assert_eq!(scope.outstanding(), 2);
    let released = scope.close();
    assert_eq!(released, vec![vec![10], vec![20, 21]]);
}
