//! The notification channel: a many-producer/one-consumer conduit that
//! carries per-port outcomes from the scan workers to the single
//! consumer.
//!
//! Closure protocol: every worker holds one producer handle; the
//! channel reaches end-of-stream only once all producer handles have
//! been dropped. That reference-counted handshake is the consumer's
//! sole termination signal — there is no separate "done" message and
//! the consumer is never told the worker count.

use vstd::prelude::*;

use std::sync::mpsc::Receiver;
use std::sync::mpsc::Sender;

use crate::report::sorted;
use crate::report::Aggregation;
use crate::report::ScanResult;
use crate::scan::PortOutcome;
use crate::scan::PortState;

verus! {

#[verifier::external_type_specification]
#[verifier::external_body]
#[verifier::reject_recursive_types(T)]
pub struct ExSender<T>(Sender<T>);

#[verifier::external_type_specification]
#[verifier::external_body]
#[verifier::reject_recursive_types(T)]
pub struct ExReceiver<T>(Receiver<T>);

/// Relies on std::sync::mpsc::channel: returns the sending and
/// receiving halves of a new unbounded channel; what is sent on the
/// first can be received, in send order per sender, on the second.
#[verifier::external_body]
fn new_channel() -> (Sender<u16>, Receiver<u16>) {
    std::sync::mpsc::channel()
}

/// Relies on Clone for std::sync::mpsc::Sender: returns another
/// sending handle on the same channel.
#[verifier::external_body]
fn clone_sender(sender: &Sender<u16>) -> Sender<u16> {
    sender.clone()
}

/// Relies on std::sync::mpsc::Sender::send: queues the value for the
/// receiver and returns `Ok` unless the receiving half was dropped; it
/// never blocks. Whether delivery succeeds depends on the receiver's
/// concurrent state, so nothing more is promised of the result.
#[verifier::external_body]
fn send_value(sender: &Sender<u16>, value: u16) -> bool {
    sender.send(value).is_ok()
}

/// Relies on std::sync::mpsc::Receiver::recv: blocks until a value is
/// available or every sending handle has been dropped and the queue is
/// empty; `None` is the end-of-stream signal. Which value arrives
/// depends on the producers' concurrent interleaving, so nothing more
/// is promised of the result.
#[verifier::external_body]
fn recv_value(receiver: &Receiver<u16>) -> Option<u16> {
    receiver.recv().ok()
}

/// Creates the two notification channels of one scan run (successful
/// probes on one, failed probes on the other) and hands out their
/// producer and consumer ends.
pub struct NotificationFactory {
    success_channels: (Sender<u16>, Receiver<u16>),
    failure_channels: (Sender<u16>, Receiver<u16>),
}

impl NotificationFactory {
    /// Creates a new `NotificationFactory` with fresh channels.
    pub fn new() -> Self {
        NotificationFactory { success_channels: new_channel(), failure_channels: new_channel() }
    }

    /// Intermediate operation.
    ///
    /// Creates a new [`NotificationProducer`]: one more live sending
    /// handle on both channels, for one worker to own.
    pub fn new_notification_producer(&self) -> NotificationProducer {
        NotificationProducer {
            success_channel: clone_sender(&self.success_channels.0),
            failure_channel: clone_sender(&self.failure_channels.0),
        }
    }

    /// Terminal operation.
    ///
    /// Creates the single [`NotificationConsumer`] and destroys this
    /// factory, dropping the factory's own sending handles: from here
    /// on only the producers keep the channels open, so end-of-stream
    /// arrives exactly when the last producer is dropped.
    pub fn new_notification_consumer(self) -> NotificationConsumer {
        let NotificationFactory { success_channels, failure_channels } = self;
        NotificationConsumer::from(success_channels.1, failure_channels.1)
    }
}

/// One worker's write end of the notification channels.
pub struct NotificationProducer {
    success_channel: Sender<u16>,
    failure_channel: Sender<u16>,
}

impl NotificationProducer {
    /// Notifies that a connection to the given `port` has been
    /// successfully established. Returns whether the notification was
    /// delivered; `false` means the consumer is gone and the worker
    /// should stop.
    pub fn connection_succeeded(&self, port: u16) -> bool {
        send_value(&self.success_channel, port)
    }

    /// Notifies that a connection to the given `port` has failed.
    /// Returns whether the notification was delivered; `false` means
    /// the consumer is gone and the worker should stop.
    pub fn connection_failed(&self, port: u16) -> bool {
        send_value(&self.failure_channel, port)
    }

    /// Emits one notification for one probe outcome, on the channel its
    /// state selects. Returns whether it was delivered.
    pub fn notify(&self, outcome: PortOutcome) -> bool {
        match outcome.state {
            PortState::Open => self.connection_succeeded(outcome.port),
            PortState::Closed => self.connection_failed(outcome.port),
        }
    }
}

/// The single consumer's read end of the notification channels.
pub struct NotificationConsumer {
    success_channel: Receiver<u16>,
    failure_channel: Receiver<u16>,
}

impl NotificationConsumer {
    /// Creates a new `NotificationConsumer` from the given channels.
    pub fn from(success_channel: Receiver<u16>, failure_channel: Receiver<u16>) -> Self {
        NotificationConsumer { success_channel, failure_channel }
    }

    /// Receives one failed-probe notification, blocking until one is
    /// available; `None` means every producer has finished and the
    /// failure stream is drained.
    pub fn receive_failure(&self) -> Option<u16> {
        recv_value(&self.failure_channel)
    }

    /// Receives one successful-probe notification, blocking until one
    /// is available; `None` means every producer has finished and the
    /// success stream is drained.
    pub fn receive_success(&self) -> Option<u16> {
        recv_value(&self.success_channel)
    }

    /// Drains both channels to end-of-stream and returns the finished
    /// result: every notification counts toward `total_processed`, the
    /// ports of the successful ones come back sorted ascending. Blocks
    /// until every producer has been dropped; each drain phase accepts
    /// up to `u64::MAX` notifications, more than any scan can produce.
    pub fn collect_result(self) -> (r: ScanResult)
        ensures
            sorted(r.open_ports@),
            r.open_ports@.len() <= r.total_processed,
    {
        let mut aggregation = Aggregation::new();
        let mut received: u64 = 0;
        while received < u64::MAX
            invariant
                aggregation.opens().len() == 0,
                aggregation.total() == received,
            decreases u64::MAX - received,
        {
            match self.receive_failure() {
                Some(_) => {
                    aggregation.record_failure();
                    received = received + 1;
                },
                None => {
                    break ;
                },
            }
        }
        let mut accepted: u64 = 0;
        while accepted < u64::MAX
            invariant
                aggregation.opens().len() <= accepted,
                aggregation.opens().len() <= aggregation.total(),
            decreases u64::MAX - accepted,
        {
            match self.receive_success() {
                Some(port) => {
                    aggregation.record_success(port);
                    accepted = accepted + 1;
                },
                None => {
                    break ;
                },
            }
        }
        aggregation.finish()
    }
}

} // verus!
