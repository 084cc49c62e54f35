use ip_sniffer::notification::NotificationFactory;
use ip_sniffer::scan::{partition, PortOutcome, PortState};

#[test]
fn sent_port_is_received_then_stream_ends() {
    let factory = NotificationFactory::new();
    let producer = factory.new_notification_producer();
    assert!(producer.connection_succeeded(80));
    assert!(producer.connection_failed(81));
    drop(producer);
    let consumer = factory.new_notification_consumer();
    assert_eq!(consumer.receive_success(), Some(80));
    assert_eq!(consumer.receive_success(), None);
    assert_eq!(consumer.receive_failure(), Some(81));
    assert_eq!(consumer.receive_failure(), None);
}

#[test]
fn notify_routes_by_state() {
    let factory = NotificationFactory::new();
    let producer = factory.new_notification_producer();
    assert!(producer.notify(PortOutcome { port: 22, state: PortState::Open }));
    assert!(producer.notify(PortOutcome { port: 23, state: PortState::Closed }));
    drop(producer);
    let consumer = factory.new_notification_consumer();
    assert_eq!(consumer.receive_success(), Some(22));
    assert_eq!(consumer.receive_success(), None);
    assert_eq!(consumer.receive_failure(), Some(23));
    assert_eq!(consumer.receive_failure(), None);
}

#[test]
fn send_fails_once_consumer_is_gone() {
    let factory = NotificationFactory::new();
    let producer = factory.new_notification_producer();
    let consumer = factory.new_notification_consumer();
    drop(consumer);
    assert!(!producer.connection_succeeded(80));
    assert!(!producer.connection_failed(81));
}

#[test]
fn stream_ends_exactly_when_last_producer_is_dropped() {
    let factory = NotificationFactory::new();
    let first = factory.new_notification_producer();
    let second = factory.new_notification_producer();
    assert!(first.connection_failed(1));
    drop(first);
    let consumer = factory.new_notification_consumer();
    assert!(second.connection_failed(2));
    drop(second);
    let result = consumer.collect_result();
    assert_eq!(result.total_processed, 2);
    assert!(result.open_ports.is_empty());
}

#[test]
fn full_scan_with_three_open_ports() {
    let factory = NotificationFactory::new();
    for assignment in partition(4) {
        let producer = factory.new_notification_producer();
        for port in assignment.ports() {
            let delivered = if port == 80 || port == 443 || port == 8080 {
                producer.connection_succeeded(port)
            } else {
                producer.connection_failed(port)
            };
            assert!(delivered);
        }
    }
    let consumer = factory.new_notification_consumer();
    let result = consumer.collect_result();
    assert_eq!(result.total_processed, 65535);
    assert_eq!(result.open_ports, vec![80, 443, 8080]);
}

#[test]
fn full_scan_with_every_port_closed() {
    let factory = NotificationFactory::new();
    for assignment in partition(3) {
        let producer = factory.new_notification_producer();
        for port in assignment.ports() {
            assert!(producer.connection_failed(port));
        }
    }
    let consumer = factory.new_notification_consumer();
    let result = consumer.collect_result();
    assert_eq!(result.total_processed, 65535);
    assert_eq!(result.open_ports, Vec::<u16>::new());
}

#[test]
fn oversized_worker_count_still_processes_every_port() {
    let factory = NotificationFactory::new();
    for assignment in partition(70000) {
        let producer = factory.new_notification_producer();
        for port in assignment.ports() {
            assert!(producer.connection_failed(port));
        }
    }
    let consumer = factory.new_notification_consumer();
    let result = consumer.collect_result();
    assert_eq!(result.total_processed, 65535);
    assert!(result.open_ports.is_empty());
}
