//! The relational gateway's verified half: the rooms and messages
//! repositories as exact query plans, and the models their rows map to.
//!
//! A query plan is the SQL text plus the bound values, which this module
//! pins down exactly; running a plan against the store is I/O and happens
//! outside, handing back plain rows.

use vstd::prelude::*;
use crate::ids::{fresh_identifier_value, RoomId};
use vstd::string::StringExecFns;

verus! {

/// One bound query parameter.
pub enum Binds {
    Text(String),
    Int32(i32),
    Int64(i64),
    Flag(bool),
    Room(RoomId),
}

/// A query ready to run: SQL text and its parameters in order.
pub struct QueryPlan {
    pub sql: String,
    pub binds: Vec<Binds>,
}

/// A durable room row: surrogate key, identifier, and the creation instant
/// the store assigned, in microseconds since the epoch.
pub struct Room {
    pub id: i32,
    pub uuid: RoomId,
    pub created_at: i64,
}

/// A persisted message row: surrogate key, its room's surrogate key, the
/// opaque payload, and the creation instant in microseconds since the epoch.
pub struct Message {
    pub id: i32,
    pub room_id: i32,
    pub message: String,
    pub created_at: i64,
}

impl Room {
    /// The surrogate key of this room.
    pub fn get_id(&self) -> (r: i32)
        ensures
            r == self.id,
    {
        self.id
    }

    /// The identifier of this room.
    pub fn get_uuid(&self) -> (r: RoomId)
        ensures
            r == self.uuid,
    {
        self.uuid
    }

    /// The plan that inserts one room, with the supplied identifier or a
    /// freshly minted one, and returns the stored row.
    pub fn create_plan(uuid: Option<RoomId>) -> (r: (RoomId, QueryPlan))
        ensures
            uuid matches Option::Some(u) ==> r.0 == u,
            r.1.sql@ == "INSERT INTO room (uuid) VALUES ($1) RETURNING *"@,
            r.1.binds@.len() == 1,
            r.1.binds@[0] matches Binds::Room(b) && b == r.0,
    {
        let id = match uuid {
            Option::Some(u) => u,
            Option::None => RoomId { value: fresh_identifier_value() },
        };
        let mut binds: Vec<Binds> = Vec::new();
        binds.push(Binds::Room(id));
        (id, QueryPlan { sql: String::from_str("INSERT INTO room (uuid) VALUES ($1) RETURNING *"), binds })
    }

    /// The plan that reads rooms: all of them, or only the one with the
    /// given identifier.
    pub fn read_plan(uuid: Option<RoomId>) -> (r: QueryPlan)
        ensures
            uuid matches Option::Some(u) ==> r.sql@ == "SELECT * FROM room WHERE uuid = $1"@
                && r.binds@.len() == 1
                && (r.binds@[0] matches Binds::Room(b) && b == u),
            uuid is None ==> r.sql@ == "SELECT * FROM room"@ && r.binds@.len() == 0,
    {
        match uuid {
            Option::Some(u) => {
                let mut binds: Vec<Binds> = Vec::new();
                binds.push(Binds::Room(u));
                QueryPlan { sql: String::from_str("SELECT * FROM room WHERE uuid = $1"), binds }
            },
            Option::None => QueryPlan {
                sql: String::from_str("SELECT * FROM room"),
                binds: Vec::new(),
            },
        }
    }

    /// The plan that deletes one room by surrogate key.
    pub fn delete_plan(id: i32) -> (r: QueryPlan)
        ensures
            r.sql@ == "DELETE FROM room WHERE id = $1"@,
            r.binds@.len() == 1,
            r.binds@[0] matches Binds::Int32(b) && b == id,
    {
        let mut binds: Vec<Binds> = Vec::new();
        binds.push(Binds::Int32(id));
        QueryPlan { sql: String::from_str("DELETE FROM room WHERE id = $1"), binds }
    }
}

impl Message {
    /// The surrogate key of this message.
    pub fn get_id(&self) -> (r: i32)
        ensures
            r == self.id,
    {
        self.id
    }

    /// The payload of this message.
    pub fn get_message(&self) -> (r: String)
        ensures
            r@ == self.message@,
    {
        self.message.clone()
    }

    /// The plan that inserts one message for a room and returns the stored
    /// row.
    pub fn create_plan(message: String, room_id: i32) -> (r: QueryPlan)
        ensures
            r.sql@ == "INSERT INTO message (message, room_id) VALUES ($1, $2) RETURNING *"@,
            r.binds@.len() == 2,
            r.binds@[0] matches Binds::Text(m) && m@ == message@,
            r.binds@[1] matches Binds::Int32(b) && b == room_id,
    {
        let mut binds: Vec<Binds> = Vec::new();
        binds.push(Binds::Text(message));
        binds.push(Binds::Int32(room_id));
        QueryPlan {
            sql: String::from_str("INSERT INTO message (message, room_id) VALUES ($1, $2) RETURNING *"),
            binds,
        }
    }

    /// The plan that reads up to `limit` messages of one room.
    pub fn read_plan(room_id: i32, limit: i32) -> (r: QueryPlan)
        ensures
            r.sql@ == "SELECT * FROM message WHERE room_id = $1 LIMIT $2"@,
            r.binds@.len() == 2,
            r.binds@[0] matches Binds::Int32(b) && b == room_id,
            r.binds@[1] matches Binds::Int32(l) && l == limit,
    {
        let mut binds: Vec<Binds> = Vec::new();
        binds.push(Binds::Int32(room_id));
        binds.push(Binds::Int32(limit));
        QueryPlan { sql: String::from_str("SELECT * FROM message WHERE room_id = $1 LIMIT $2"), binds }
    }

    /// The plan that replays recent history to a newly joined peer: the
    /// room's messages up to the replay bound.
    pub fn replay_plan(room_id: i32) -> (r: QueryPlan)
        ensures
            r.sql@ == "SELECT * FROM message WHERE room_id = $1 LIMIT $2"@,
            r.binds@.len() == 2,
            r.binds@[0] matches Binds::Int32(b) && b == room_id,
            r.binds@[1] matches Binds::Int32(l) && l == crate::REPLAY_LIMIT as i32,
    {
        Self::read_plan(room_id, 100)
    }

    /// The plan that deletes one message by surrogate key.
    pub fn delete_plan(id: i32) -> (r: QueryPlan)
        ensures
            r.sql@ == "DELETE FROM message WHERE id = $1"@,
            r.binds@.len() == 1,
            r.binds@[0] matches Binds::Int32(b) && b == id,
    {
        let mut binds: Vec<Binds> = Vec::new();
        binds.push(Binds::Int32(id));
        QueryPlan { sql: String::from_str("DELETE FROM message WHERE id = $1"), binds }
    }
}

/// How the connection pool is configured: bounds, timeouts, and the
/// liveness probe before each acquisition.
pub struct PoolPlan {
    pub max_connections: u32,
    pub min_connections: u32,
    pub acquire_timeout_seconds: u64,
    pub idle_timeout_seconds: u64,
    pub test_before_acquire: bool,
}

/// The pool configuration for one mode: a small floor and short acquire
/// ceiling in production, no floor and one connection under test.
pub fn pool_plan(test_mode: bool) -> (r: PoolPlan)
    ensures
        r.max_connections == if test_mode { 1u32 } else { 30u32 },
        r.min_connections == if test_mode { 0u32 } else { 5u32 },
        r.acquire_timeout_seconds == 2,
        r.idle_timeout_seconds == 300,
        r.test_before_acquire,
{
    if test_mode {
        PoolPlan {
            max_connections: 1,
            min_connections: 0,
            acquire_timeout_seconds: 2,
            idle_timeout_seconds: 300,
            test_before_acquire: true,
        }
    } else {
        PoolPlan {
            max_connections: 30,
            min_connections: 5,
            acquire_timeout_seconds: 2,
            idle_timeout_seconds: 300,
            test_before_acquire: true,
        }
    }
}

/// The environment variable naming the store's DSN for one mode.
pub fn database_env_var(test_mode: bool) -> (r: &'static str)
    ensures
        test_mode ==> r@ == "TEST_DATABASE_URL"@,
        !test_mode ==> r@ == "DATABASE_URL"@,
{
    if test_mode {
        "TEST_DATABASE_URL"
    } else {
        "DATABASE_URL"
    }
}

/// Whether startup should create the database and run migrations after a
/// failed connection: only when the driver reports the "database does not
/// exist" condition; any other startup fault is fatal.
pub fn should_create_database(error_code: Option<&str>) -> (r: bool)
    ensures
        r <==> (error_code matches Option::Some(c) && c@ == "3D000"@),
{
    match error_code {
        Option::Some(c) => {
            let lhs = String::from_str(c);
            let rhs = String::from_str("3D000");
            lhs == rhs
        },
        Option::None => false,
    }
}

} // verus!
