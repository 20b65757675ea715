use vidodo::ipc::{channel, create_runtime_channels, peer_alive, take_outcome, Dispatch, RecvError2, RuntimeEvent, SchedulerIpc, SendError};

fn make_event(id: &str, channel: &str) -> RuntimeEvent {
    RuntimeEvent {
        correlation_id: id.to_string(),
        channel: channel.to_string(),
        payload_json: format!("{{\"id\":\"{id}\"}}"),
    }
}

#[test]
fn send_and_receive_100_messages_in_order() {
    let (tx, rx) = channel::<u32>(128);
    for i in 0..100 {
        tx.send(i).unwrap();
    }
    for i in 0..100 {
        assert_eq!(rx.try_recv().unwrap(), i);
    }
    assert_eq!(rx.try_recv(), Err(RecvError2::Empty));
}

#[test]
fn back_pressure_when_full() {
    let (tx, _rx) = channel::<u32>(4);
    for i in 0..4 {
        tx.send(i).unwrap();
    }
    assert_eq!(tx.send(99), Err(SendError::BackPressure));
}

#[test]
fn receiver_disconnect_detected() {
    let (tx, rx) = channel::<u32>(4);
    drop(rx);
    assert_eq!(tx.send(1), Err(SendError::Disconnected));
}

#[test]
fn sender_disconnect_detected() {
    let (tx, rx) = channel::<u32>(4);
    tx.send(42).unwrap();
    drop(tx);
    assert_eq!(rx.try_recv().unwrap(), 42);
    assert_eq!(rx.try_recv(), Err(RecvError2::Disconnected));
}

#[test]
fn drain_collects_all_pending() {
    let (tx, rx) = channel::<u32>(16);
    for i in 0..10 {
        tx.send(i).unwrap();
    }
    let all = rx.drain();
    assert_eq!(all, (0..10).collect::<Vec<_>>());
}

#[test]
fn recv_after_sender_dropped_reports_disconnect() {
    let (tx, rx) = channel::<String>(4);
    tx.send("hello".into()).unwrap();
    assert!(tx.is_connected());
    drop(tx);
    assert_eq!(rx.recv().unwrap(), "hello");
    assert_eq!(rx.recv(), Err(RecvError2::Disconnected));
}

#[test]
fn unknown_channel_returns_false() {
    let ipc = SchedulerIpc::new();
    assert!(!ipc.dispatch(&make_event("x", "nonexistent")));
}

#[test]
fn dispatch_routes_by_name_and_collects_acks() {
    let (audio, audio_events, audio_acks) = create_runtime_channels("audio", 4);
    let (visual, visual_events, _visual_acks) = create_runtime_channels("visual", 4);
    let mut ipc = SchedulerIpc::default();
    ipc.register(audio);
    ipc.register(visual);
    assert_eq!(ipc.runtime_count(), 2);
    assert_eq!(ipc.route_index("visual"), Some(1));
    assert!(ipc.dispatch(&make_event("v1", "visual")));
    assert!(ipc.dispatch(&make_event("a1", "audio")));
    assert_eq!(visual_events.try_recv().unwrap().correlation_id, "v1");
    assert_eq!(audio_events.try_recv().unwrap().correlation_id, "a1");
    audio_acks
        .try_send(vidodo::ipc::RuntimeAckMsg {
            correlation_id: String::from("a1"),
            runtime_name: String::from("audio"),
            success: true,
            detail: String::from("ok"),
        })
        .unwrap();
    let acks = ipc.collect_acks();
    assert_eq!(acks.len(), 1);
    assert_eq!(acks[0].runtime_name, "audio");
    assert!(ipc.collect_acks().is_empty());
}

#[test]
fn sender_sees_receiver_dropped() {
    let (tx, rx) = channel::<u32>(4);
    assert!(tx.is_connected());
    drop(rx);
    assert!(!tx.is_connected());
}

#[test]
fn drain_then_channel_is_empty() {
    let (tx, rx) = channel::<u32>(4);
    tx.send(7).unwrap();
    tx.send(8).unwrap();
    assert_eq!(rx.drain(), vec![7, 8]);
    assert_eq!(rx.try_recv(), Err(RecvError2::Empty));
    assert!(rx.drain().is_empty());
}

#[test]
fn take_outcome_keeps_messages_and_stops_on_failure() {
    let mut out: Vec<u32> = vec![1];
    assert!(take_outcome(&mut out, Ok(2)));
    assert_eq!(out, vec![1, 2]);
    assert!(!take_outcome(&mut out, Err(RecvError2::Empty)));
    assert!(!take_outcome(&mut out, Err(RecvError2::Disconnected)));
    assert_eq!(out, vec![1, 2]);
}

#[test]
fn dispatch_reports_first_runtime_with_the_name() {
    let (a, a_events, _a_acks) = create_runtime_channels("fx", 1);
    let (b, b_events, _b_acks) = create_runtime_channels("fx", 1);
    let (c, _c_events, _c_acks) = create_runtime_channels("light", 1);
    let mut ipc = SchedulerIpc::new();
    ipc.register(c);
    ipc.register(a);
    ipc.register(b);
    assert_eq!(ipc.dispatch_routed(&make_event("e1", "fx")), Dispatch { runtime: Some(1), sent: true });
    assert_eq!(a_events.try_recv().unwrap().correlation_id, "e1");
    assert!(b_events.try_recv().is_err());
    assert_eq!(ipc.dispatch_routed(&make_event("e2", "fx")), Dispatch { runtime: Some(1), sent: true });
    assert_eq!(ipc.dispatch_routed(&make_event("e3", "fx")), Dispatch { runtime: Some(1), sent: false });
    assert_eq!(ipc.dispatch_routed(&make_event("e4", "none")), Dispatch { runtime: None, sent: false });
}

#[test]
fn collect_acks_with_no_runtimes_is_empty() {
    let ipc = SchedulerIpc::new();
    assert!(ipc.collect_acks().is_empty());
}

#[test]
fn peer_alive_needs_a_second_holder() {
    assert!(!peer_alive(1));
    assert!(peer_alive(2));
    assert!(peer_alive(3));
}
