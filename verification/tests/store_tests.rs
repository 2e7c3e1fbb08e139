use ephemeral_chat::ids::RoomId;
use ephemeral_chat::json::{envelope_text, json_quote};
use ephemeral_chat::store::{
    database_env_var, pool_plan, should_create_database, Binds, Message, Room,
};

#[test]
fn test_create_room_provide_uuid() {
    let uuid = RoomId { value: 77 };
    let (id, plan) = Room::create_plan(Some(uuid));
    assert_eq!(id.value, 77);
    assert_eq!(plan.sql, "INSERT INTO room (uuid) VALUES ($1) RETURNING *");
    assert!(matches!(plan.binds[0], Binds::Room(r) if r.value == 77));
}

#[test]
fn test_create_room_not_provide_uuid() {
    let (id, plan) = Room::create_plan(None);
    // a fresh identifier is minted and bound
    assert!(matches!(plan.binds[0], Binds::Room(r) if r.value == id.value));
    assert_eq!(plan.binds.len(), 1);
}

#[test]
fn test_read_single_room() {
    let uuid = RoomId { value: 5 };
    let plan = Room::read_plan(Some(uuid));
    assert_eq!(plan.sql, "SELECT * FROM room WHERE uuid = $1");
    assert!(matches!(plan.binds[0], Binds::Room(r) if r.value == 5));
}

#[test]
fn test_read_all_rooms() {
    let plan = Room::read_plan(None);
    assert_eq!(plan.sql, "SELECT * FROM room");
    assert!(plan.binds.is_empty());
}

#[test]
fn test_delete_one_room() {
    let plan = Room::delete_plan(12);
    assert_eq!(plan.sql, "DELETE FROM room WHERE id = $1");
    assert!(matches!(plan.binds[0], Binds::Int32(12)));
}

#[test]
fn test_create_message() {
    let plan = Message::create_plan("hello-rust".to_string(), 3);
    assert_eq!(plan.sql, "INSERT INTO message (message, room_id) VALUES ($1, $2) RETURNING *");
    assert!(matches!(plan.binds[0], Binds::Text(ref m) if m.as_str() == "hello-rust"));
    assert!(matches!(plan.binds[1], Binds::Int32(3)));
}

#[test]
fn test_read_single_message() {
    let plan = Message::read_plan(4, 10);
    assert_eq!(plan.sql, "SELECT * FROM message WHERE room_id = $1 LIMIT $2");
    assert!(matches!(plan.binds[0], Binds::Int32(4)));
    assert!(matches!(plan.binds[1], Binds::Int32(10)));
}

#[test]
fn test_delete_one_message() {
    let plan = Message::delete_plan(8);
    assert_eq!(plan.sql, "DELETE FROM message WHERE id = $1");
    assert!(matches!(plan.binds[0], Binds::Int32(8)));
}

#[test]
fn history_replay() {
    // a new peer is served at most the replay bound of prior messages
    let plan = Message::replay_plan(6);
    assert_eq!(plan.sql, "SELECT * FROM message WHERE room_id = $1 LIMIT $2");
    assert!(matches!(plan.binds[0], Binds::Int32(6)));
    assert!(matches!(plan.binds[1], Binds::Int32(100)));
}

#[test]
fn model_getters() {
    let room = Room { id: 1, uuid: RoomId { value: 9 }, created_at: 0 };
    assert_eq!(room.get_id(), 1);
    assert_eq!(room.get_uuid().value, 9);
    let msg = Message { id: 2, room_id: 1, message: "m".to_string(), created_at: 0 };
    assert_eq!(msg.get_id(), 2);
    assert_eq!(msg.get_message(), "m");
}

#[test]
fn pool_plans() {
    let prod = pool_plan(false);
    assert_eq!((prod.max_connections, prod.min_connections), (30, 5));
    assert_eq!(prod.acquire_timeout_seconds, 2);
    assert_eq!(prod.idle_timeout_seconds, 300);
    assert!(prod.test_before_acquire);

    let test = pool_plan(true);
    assert_eq!((test.max_connections, test.min_connections), (1, 0));

    assert_eq!(database_env_var(false), "DATABASE_URL");
    assert_eq!(database_env_var(true), "TEST_DATABASE_URL");
}

#[test]
fn database_bootstrap_condition() {
    assert!(should_create_database(Some("3D000")));
    assert!(!should_create_database(Some("42P01")));
    assert!(!should_create_database(None));
}

#[test]
fn json_escaping() {
    assert_eq!(json_quote(""), "\"\"");
    assert_eq!(json_quote("plain"), "\"plain\"");
    assert_eq!(json_quote("a\"b"), "\"a\\\"b\"");
    assert_eq!(json_quote("a\\b"), "\"a\\\\b\"");
    assert_eq!(json_quote("a\nb\rc\td"), "\"a\\nb\\rc\\td\"");
    assert_eq!(json_quote("\u{1}"), "\"\\u0001\"");
    assert_eq!(json_quote("\u{1f}"), "\"\\u001f\"");
    assert_eq!(json_quote("héllo"), "\"héllo\"");
}

#[test]
fn envelope_wraps_data_verbatim() {
    assert_eq!(envelope_text(true, "[1,2]"), "{\"success\":true,\"data\":[1,2]}");
    assert_eq!(envelope_text(false, "null"), "{\"success\":false,\"data\":null}");
}
