use dstate::sim::interceptor::{CorruptBytes, DelayTicks, DropAll, DuplicateAll};
use dstate::sim::transport::MockTransport;
use dstate::{Generation, NodeId, SyncMessage, WireMessage};

fn test_msg() -> WireMessage {
    WireMessage::Sync(SyncMessage::RequestSnapshot {
        state_name: "test".into(),
        requester: NodeId(1),
    })
}

#[test]
fn send_and_deliver() {
    let mut transport = MockTransport::new(42);
    transport.send(NodeId(1), NodeId(2), &test_msg());

    // Not delivered yet (deliver at tick 1, currently tick 0)
    let result = transport.deliver_due();
    assert!(result.delivered.is_empty());

    // Advance tick and deliver
    transport.advance_tick();
    let result = transport.deliver_due();
    assert_eq!(result.delivered.len(), 1);
    assert_eq!(result.delivered[0].from, NodeId(1));
    assert_eq!(result.delivered[0].to, NodeId(2));
}

#[test]
fn broadcast_sends_to_all_except_self() {
    let mut transport = MockTransport::new(42);
    let all = vec![NodeId(1), NodeId(2), NodeId(3)];
    transport.broadcast(NodeId(1), &test_msg(), &all);

    assert_eq!(transport.in_flight_count(), 2); // to 2 and 3

    transport.advance_tick();
    let result = transport.deliver_due();
    assert_eq!(result.delivered.len(), 2);
}

#[test]
fn drop_all_interceptor() {
    let mut transport = MockTransport::new(42);
    transport.add_interceptor(Box::new(DropAll));
    transport.send(NodeId(1), NodeId(2), &test_msg());

    assert_eq!(transport.in_flight_count(), 0);
    transport.advance_tick();
    let result = transport.deliver_due();
    assert!(result.delivered.is_empty());
}

#[test]
fn delay_interceptor() {
    let mut transport = MockTransport::new(42);
    transport.add_interceptor(Box::new(DelayTicks(3)));
    transport.send(NodeId(1), NodeId(2), &test_msg());

    // Baseline 1 tick + 3 extra = deliver at tick 4
    // Not delivered for ticks 1..3
    for _ in 0..3 {
        transport.advance_tick();
        assert!(transport.deliver_due().delivered.is_empty());
    }

    // Delivered on tick 4
    transport.advance_tick();
    let result = transport.deliver_due();
    assert_eq!(result.delivered.len(), 1);
}

#[test]
fn duplicate_interceptor() {
    let mut transport = MockTransport::new(42);
    transport.add_interceptor(Box::new(DuplicateAll));
    transport.send(NodeId(1), NodeId(2), &test_msg());

    assert_eq!(transport.in_flight_count(), 2);
    transport.advance_tick();
    let result = transport.deliver_due();
    assert_eq!(result.delivered.len(), 2);
}

#[test]
fn clear_interceptors_restores_clean_network() {
    let mut transport = MockTransport::new(42);
    transport.add_interceptor(Box::new(DropAll));
    transport.send(NodeId(1), NodeId(2), &test_msg());
    assert_eq!(transport.in_flight_count(), 0);

    transport.clear_interceptors();
    transport.send(NodeId(1), NodeId(2), &test_msg());
    assert_eq!(transport.in_flight_count(), 1);
}

#[test]
fn corrupted_message_detected() {
    let mut transport = MockTransport::new(42);
    transport.add_interceptor(Box::new(CorruptBytes::new(99)));

    // Send a real message
    let msg = WireMessage::Sync(SyncMessage::FullSnapshot {
        state_name: "test".into(),
        source_node: NodeId(1),
        generation: Generation::new(1, 1),
        wire_version: 1,
        data: vec![1, 2, 3],
    });
    transport.send(NodeId(1), NodeId(2), &msg);

    transport.advance_tick();
    let result = transport.deliver_due();
    // The message may or may not deserialize depending on which bit was flipped.
    // Either way, we should get exactly 1 result total.
    assert_eq!(result.delivered.len() + result.corrupted.len(), 1);
}

#[test]
fn duplicate_then_delay_preserves_both_copies() {
    let mut transport = MockTransport::new(42);
    transport.add_interceptor(Box::new(DuplicateAll));
    transport.add_interceptor(Box::new(DelayTicks(2)));
    transport.send(NodeId(1), NodeId(2), &test_msg());

    // Both copies should be delayed: baseline 1 + 2 extra = tick 3
    for _ in 0..2 {
        transport.advance_tick();
        assert!(transport.deliver_due().delivered.is_empty());
    }
    transport.advance_tick();
    let result = transport.deliver_due();
    assert_eq!(result.delivered.len(), 2, "both duplicated copies must survive delay");
}

#[test]
fn delay_zero_delivers_next_tick() {
    let mut transport = MockTransport::new(42);
    transport.add_interceptor(Box::new(DelayTicks(0)));
    transport.send(NodeId(1), NodeId(2), &test_msg());

    // DelayTicks(0) = baseline only = deliver at tick 1
    let result = transport.deliver_due();
    assert!(result.delivered.is_empty(), "not yet at tick 1");
    transport.advance_tick();
    let result = transport.deliver_due();
    assert_eq!(result.delivered.len(), 1);
}

#[test]
fn drop_in_flight_for_node() {
    let mut transport = MockTransport::new(42);
    transport.send(NodeId(1), NodeId(2), &test_msg());
    transport.send(NodeId(3), NodeId(2), &test_msg());
    assert_eq!(transport.in_flight_count(), 2);

    transport.drop_in_flight_for(NodeId(1));
    assert_eq!(transport.in_flight_count(), 1);

    transport.advance_tick();
    let result = transport.deliver_due();
    assert_eq!(result.delivered.len(), 1);
    assert_eq!(result.delivered[0].from, NodeId(3));
}
