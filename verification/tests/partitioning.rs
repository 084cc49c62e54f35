use ip_sniffer::report::{sort_ports, Aggregation};
use ip_sniffer::scan::{
    classify_attempt, effective_timeout_millis, partition, PortState, WorkerAssignment,
};

#[test]
fn single_worker_visits_every_port_in_order() {
    let assignments = partition(1);
    assert_eq!(assignments.len(), 1);
    assert_eq!(assignments[0].start_port, 1);
    assert_eq!(assignments[0].stride, 1);
    let ports = assignments[0].ports();
    assert_eq!(ports.len(), 65535);
    for (k, port) in ports.iter().enumerate() {
        assert_eq!(*port as usize, k + 1);
    }
}

#[test]
fn four_workers_cover_every_port_exactly_once() {
    let mut seen = vec![0u32; 65536];
    for assignment in partition(4) {
        for port in assignment.ports() {
            seen[port as usize] += 1;
        }
    }
    assert_eq!(seen[0], 0);
    for port in 1..=65535usize {
        assert_eq!(seen[port], 1, "port {port} not covered exactly once");
    }
}

#[test]
fn four_workers_start_where_assigned() {
    let assignments = partition(4);
    assert_eq!(assignments.len(), 4);
    for (i, assignment) in assignments.iter().enumerate() {
        assert_eq!(assignment.start_port as usize, i + 1);
        assert_eq!(assignment.stride, 4);
        let ports = assignment.ports();
        assert_eq!(ports[0] as usize, i + 1);
        assert_eq!(ports[1] as usize, i + 5);
    }
}

#[test]
fn worker_visits_at_most_ceiling_of_range_over_stride() {
    // ⌈65535 / 7⌉ = 9363
    for assignment in partition(7) {
        let ports = assignment.ports();
        assert!(ports.len() <= 9363);
        for port in &ports {
            assert!(*port >= 1);
        }
        for pair in ports.windows(2) {
            assert!(pair[0] < pair[1]);
        }
    }
}

#[test]
fn oversized_worker_count_gives_one_or_zero_ports_each() {
    let assignments = partition(70000);
    assert_eq!(assignments.len(), 70000);
    let mut total = 0usize;
    for (i, assignment) in assignments.iter().enumerate() {
        let ports = assignment.ports();
        if i < 65535 {
            assert_eq!(ports.len(), 1);
            assert_eq!(ports[0] as usize, i + 1);
        } else {
            assert_eq!(ports.len(), 0);
        }
        total += ports.len();
    }
    assert_eq!(total, 65535);
}

#[test]
fn assignment_above_port_space_is_empty() {
    let assignment = WorkerAssignment::new(65536, 70000);
    assert_eq!(assignment.ports().len(), 0);
    let last = WorkerAssignment::new(65535, 70000);
    assert_eq!(last.ports(), vec![65535]);
}

#[test]
fn any_connection_failure_is_closed() {
    assert_eq!(classify_attempt(false), PortState::Closed);
    assert_eq!(classify_attempt(true), PortState::Open);
}

#[test]
fn zero_timeout_is_raised_to_one_millisecond() {
    assert_eq!(effective_timeout_millis(0), 1);
    assert_eq!(effective_timeout_millis(1), 1);
    assert_eq!(effective_timeout_millis(3000), 3000);
}

#[test]
fn sorting_orders_and_keeps_every_port() {
    let ports = vec![8080u16, 80, 443, 80, 1];
    let sorted = sort_ports(&ports);
    assert_eq!(sorted, vec![1, 80, 80, 443, 8080]);
    assert_eq!(sort_ports(&Vec::new()), Vec::<u16>::new());
}

#[test]
fn aggregation_counts_and_sorts() {
    let mut aggregation = Aggregation::new();
    aggregation.record_failure();
    aggregation.record_success(443);
    aggregation.record_failure();
    aggregation.record_success(80);
    aggregation.record_failure();
    let result = aggregation.finish();
    assert_eq!(result.total_processed, 5);
    assert_eq!(result.open_ports, vec![80, 443]);
}

#[test]
fn aggregation_of_failures_alone_is_empty() {
    let mut aggregation = Aggregation::new();
    for _ in 0..100 {
        aggregation.record_failure();
    }
    let result = aggregation.finish();
    assert_eq!(result.total_processed, 100);
    assert!(result.open_ports.is_empty());
}
