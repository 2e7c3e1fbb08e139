use ephemeral_chat::ids::RoomId;
use ephemeral_chat::registry::Registry;
use ephemeral_chat::session::{
    build_chat_payload, greeting_text, publish_and_decide, publish_join, reader_step,
    session_step, FrameKind, ReaderAction, Session, SessionEvent, SessionPhase, TxCommand,
};
use ephemeral_chat::store::{Binds, Message};

#[test]
fn chat_payload_shape() {
    let payload = build_chat_payload("anonymous_ab12cd34ef", "hi");
    assert_eq!(payload, "{\"user\":\"anonymous_ab12cd34ef\",\"message\":\"hi\"}");
}

#[test]
fn chat_payload_escapes_message() {
    let payload = build_chat_payload("u", "say \"hi\"\nback\\now");
    assert_eq!(payload, "{\"user\":\"u\",\"message\":\"say \\\"hi\\\"\\nback\\\\now\"}");
}

#[test]
fn greeting_is_connected() {
    assert_eq!(greeting_text(), "Connected");
}

#[test]
fn join_announcement_text() {
    let mut reg = Registry::new();
    let hub = reg.join(RoomId { value: 20 });
    let out = publish_join(&hub, "anonymous_xyz");
    assert_eq!(out.text, "user anonymous_xyz joined to room");
}

#[test]
fn reader_routes_frames() {
    assert!(matches!(reader_step(FrameKind::TextFrame, true), ReaderAction::PersistAndFanOut));
    assert!(matches!(reader_step(FrameKind::TextFrame, false), ReaderAction::DropFrame));
    assert!(matches!(reader_step(FrameKind::CloseFrame, true), ReaderAction::EndSession));
    assert!(matches!(reader_step(FrameKind::CloseFrame, false), ReaderAction::EndSession));
    assert!(matches!(reader_step(FrameKind::OtherFrame, true), ReaderAction::Ignore));
}

#[test]
fn session_emits_one_leave_announcement() {
    let mut reg = Registry::new();
    let room = RoomId { value: 21 };
    let hub = reg.join(room);

    let mut s = Session::joining(room, 9);
    assert!(matches!(s.phase, SessionPhase::Joining));
    let handle = s.handle.clone();

    assert!(session_step(&mut s, SessionEvent::HubJoined, &hub).is_none());
    assert!(matches!(s.phase, SessionPhase::Serving));

    let leave = session_step(&mut s, SessionEvent::CloseFrame, &hub).unwrap();
    assert_eq!(leave.text, format!("user {} leave the room", handle));
    assert!(matches!(s.phase, SessionPhase::Closing));

    // a second ending event publishes nothing further
    assert!(session_step(&mut s, SessionEvent::PeerClosed, &hub).is_none());
    assert!(matches!(s.phase, SessionPhase::Closing));
}

#[test]
fn send_failure_also_closes_with_one_announcement() {
    let mut reg = Registry::new();
    let room = RoomId { value: 22 };
    let hub = reg.join(room);

    let mut s = Session::joining(room, 1);
    session_step(&mut s, SessionEvent::HubJoined, &hub);
    let leave = session_step(&mut s, SessionEvent::SendFailed, &hub).unwrap();
    assert!(leave.text.starts_with("user anonymous_"));
    assert!(leave.text.ends_with(" leave the room"));
    assert!(session_step(&mut s, SessionEvent::LaggedOut, &hub).is_none());
}

#[test]
fn fan_out_between_two_sessions() {
    let mut reg = Registry::new();
    let room = RoomId { value: 30 };
    let hub_a = reg.join(room);
    let hub_b = reg.join(room);
    let mut rx_b = hub_b.subscribe();

    // session A sends "hi": the same payload is bound for the store and
    // fanned out, and session B receives it verbatim
    let payload = build_chat_payload("anonymous_aaaa000000", "hi");
    let plan = Message::create_plan(payload.clone(), 5);
    let (delivered, cmd) = publish_and_decide(&hub_a, payload.clone());
    assert!(delivered);
    assert!(matches!(cmd, TxCommand::Commit));
    assert_eq!(
        rx_b.try_recv().unwrap(),
        "{\"user\":\"anonymous_aaaa000000\",\"message\":\"hi\"}"
    );
    assert!(matches!(plan.binds[0], Binds::Text(ref m) if m.as_str() == payload));
    assert!(matches!(plan.binds[1], Binds::Int32(5)));
}

#[test]
fn leave_announcement_is_fanned_out() {
    let mut reg = Registry::new();
    let room = RoomId { value: 23 };
    let hub = reg.join(room);
    let mut rx = hub.subscribe();

    let mut s = Session::joining(room, 1);
    session_step(&mut s, SessionEvent::HubJoined, &hub);
    let leave = session_step(&mut s, SessionEvent::CloseFrame, &hub).unwrap();
    assert!(leave.delivered);
    assert_eq!(rx.try_recv().unwrap(), leave.text);
}
