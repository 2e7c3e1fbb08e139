use ephemeral_chat::admission::{
    admission_begin, admission_route, lookup_verdict, promote_verdict, reservation_key, Admission,
    AdmissionPath, AdmissionStart, ReservationProbe,
};
use ephemeral_chat::ids::RoomId;
use ephemeral_chat::registry::Registry;
use ephemeral_chat::requests::{
    list_denied_response, list_response, list_rooms, reserve_denied_response,
    reserve_granted_response, reserve_room_limiter, reserve_room_plan, rooms_array_json,
    version_response, ApiResponse, RoomResponse,
};
use ephemeral_chat::store::Room;

#[test]
fn envelope_shape() {
    let (body, status) = ApiResponse::build(true, "\"abc\"", 200);
    assert_eq!(body, "{\"success\":true,\"data\":\"abc\"}");
    assert_eq!(status, 200);

    let (body, status) = ApiResponse::build(false, "[]", 429);
    assert_eq!(body, "{\"success\":false,\"data\":[]}");
    assert_eq!(status, 429);
}

#[test]
fn reserve_and_list() {
    // reserving writes `room:<id>` with the identifier text and an hour to live
    let plan = reserve_room_plan();
    let text = plan.room.canonical_text();
    assert_eq!(plan.cache_key, format!("room:{}", text));
    assert_eq!(plan.cache_value, text);
    assert_eq!(plan.ttl_seconds, 3600);

    // the identifier is a fresh random one in canonical form, version 4
    assert_eq!(text.chars().count(), 36);
    assert_eq!(text.chars().nth(14).unwrap(), '4');
    let back = RoomId::parse_text(&text).unwrap();
    assert_eq!(back.value, plan.room.value);

    let (body, status) = reserve_granted_response(&plan.room);
    assert_eq!(status, 200);
    assert_eq!(body, format!("{{\"success\":true,\"data\":\"{}\"}}", text));

    // with no live hubs the listing is empty
    let reg = Registry::new();
    let (body, status) = list_response(&reg);
    assert_eq!(status, 200);
    assert_eq!(body, "{\"success\":true,\"data\":[]}");
}

#[test]
fn promotion_on_first_connect() {
    let room = RoomId { value: 0xabcdef0123456789abcdef0123456789u128 };
    let text = room.canonical_text();

    match admission_begin(&text) {
        AdmissionStart::CheckReservation { room: r, cache_key } => {
            assert_eq!(r.value, room.value);
            assert_eq!(cache_key, format!("room:{}", text));
        },
        _ => panic!("a well-formed identifier must reach the reservation probe"),
    }

    match admission_route(room, ReservationProbe::Reserved) {
        AdmissionPath::Promote { room: r } => assert_eq!(r.value, room.value),
        _ => panic!("a reservation must promote"),
    }

    // the row was created, the reservation deleted, the insert committed
    match promote_verdict(Some(7), true, true) {
        Admission::Proceed { room_key } => assert_eq!(room_key, 7),
        _ => panic!("promotion with every step succeeding must admit"),
    }

    // any failed step is an internal error
    assert!(matches!(promote_verdict(None, true, true), Admission::Reject { status: 500 }));
    assert!(matches!(promote_verdict(Some(7), false, true), Admission::Reject { status: 500 }));
    assert!(matches!(promote_verdict(Some(7), true, false), Admission::Reject { status: 500 }));
}

#[test]
fn unknown_room_is_not_found() {
    // well-formed, but neither reserved nor stored
    let room = RoomId { value: 42 };
    match admission_route(room, ReservationProbe::Absent) {
        AdmissionPath::Lookup { room: r } => assert_eq!(r.value, 42),
        _ => panic!("no reservation must fall back to the store"),
    }
    let no_rows: Vec<Room> = Vec::new();
    assert!(matches!(lookup_verdict(Some(&no_rows)), Admission::Reject { status: 404 }));

    // malformed identifiers never reach the cache
    assert!(matches!(admission_begin("not-an-identifier"), AdmissionStart::Reject { status: 404 }));
}

#[test]
fn stored_room_admits_with_its_key() {
    let rows = vec![Room { id: 31, uuid: RoomId { value: 9 }, created_at: 0 }];
    match lookup_verdict(Some(&rows)) {
        Admission::Proceed { room_key } => assert_eq!(room_key, 31),
        _ => panic!("a stored room must admit"),
    }
    // a store fault is an internal error
    assert!(matches!(lookup_verdict(None), Admission::Reject { status: 500 }));
}

#[test]
fn cache_fault_is_internal_error() {
    let room = RoomId { value: 5 };
    assert!(matches!(
        admission_route(room, ReservationProbe::Fault),
        AdmissionPath::Reject { status: 500 }
    ));
}

#[test]
fn rate_limit_trip() {
    let limiter = reserve_room_limiter("10.0.0.3");
    assert_eq!(limiter.key, "rate_limiter:10.0.0.3");
    assert_eq!(limiter.limit, 10);
    assert_eq!(limiter.seconds, 600);

    // the counter forced to zero denies, and the reply is 429 with empty data
    let step = limiter.check_decision(Some("0"));
    assert!(!ephemeral_chat::limiter::step_admits(&step));
    let (body, status) = reserve_denied_response();
    assert_eq!(status, 429);
    assert_eq!(body, "{\"success\":false,\"data\":\"\"}");

    let (body, status) = list_denied_response();
    assert_eq!(status, 429);
    assert_eq!(body, "{\"success\":false,\"data\":[]}");
}

#[test]
fn listing_sorts_by_falling_room_size() {
    let mut reg = Registry::new();
    let a = RoomId { value: 1 };
    let b = RoomId { value: 2 };
    let c = RoomId { value: 3 };
    let _h1 = reg.join(a);
    let _h2 = reg.join(b);
    let _h3 = reg.join(b);
    let _h4 = reg.join(c);
    let _h5 = reg.join(c);
    let _h6 = reg.join(c);

    let rooms = list_rooms(&reg);
    let sizes: Vec<usize> = rooms.iter().map(|r| r.room_size).collect();
    assert_eq!(sizes, vec![3, 2, 1]);
    assert_eq!(rooms[0].uuid, c.canonical_text());
    assert_eq!(rooms[0].connect_url, format!("ws://domain.com/room/{}", c.canonical_text()));
}

#[test]
fn listing_json_shape() {
    let rooms = vec![
        RoomResponse::new("id-a".to_string(), 2, "ws://domain.com/room/id-a".to_string()),
        RoomResponse::new("id-b".to_string(), 1, "ws://domain.com/room/id-b".to_string()),
    ];
    let json = rooms_array_json(&rooms);
    assert_eq!(
        json,
        "[{\"uuid\":\"id-a\",\"room_size\":2,\"connect_url\":\"ws://domain.com/room/id-a\"},\
         {\"uuid\":\"id-b\",\"room_size\":1,\"connect_url\":\"ws://domain.com/room/id-b\"}]"
    );
}

#[test]
fn version_reply() {
    let (body, status) = version_response("0.1.0");
    assert_eq!(status, 200);
    assert_eq!(body, "{\"success\":true,\"data\":\"0.1.0\"}");
}

#[test]
fn reservation_key_is_prefixed_identifier() {
    let room = RoomId { value: 0x2a };
    assert_eq!(reservation_key(&room), "room:00000000-0000-0000-0000-00000000002a");
}
