//! The request surface: reserve-room, the active-rooms listing, and the
//! envelope every reply wears.
//!
//! Each operation is rate-limited first; the decisions and every piece of
//! the reply — the envelope, the listing's entries, their descending order
//! by room size — are produced and pinned down here.  The HTTP layer only
//! ships the bytes.

use vstd::prelude::*;
use vstd::seq_lib::group_to_multiset_ensures;
use crate::ids::{canonical_chars, RoomId, fresh_identifier_value};
use crate::json::{envelope_chars, envelope_text, json_quote, json_string, push_json_string};
use crate::limiter::{rate_limit_key, RateLimiter};
use crate::registry::{Registry, RegistryEntry};
use crate::text::{dec_rep, push_decimal};
use vstd::string::StringExecFns;

verus! {

/// Builds the `{success, data}` envelope reply: the body text around an
/// already-serialized data value, and the HTTP status to send it with.
pub struct ApiResponse;

impl ApiResponse {
    /// The reply body and status for one response.
    pub fn build(success: bool, data_json: &str, status_code: u16) -> (r: (String, u16))
        ensures
            r.0@ == envelope_chars(success, data_json@),
            r.1 == status_code,
    {
        (envelope_text(success, data_json), status_code)
    }
}

/// One row of the active-rooms listing: the room's identifier text, its
/// current subscriber count, and the URL a client connects to.
pub struct RoomResponse {
    pub uuid: String,
    pub room_size: usize,
    pub connect_url: String,
}

impl RoomResponse {
    /// A listing row from its parts.
    pub fn new(uuid: String, room_size: usize, connect_url: String) -> (r: Self)
        ensures
            r.uuid == uuid,
            r.room_size == room_size,
            r.connect_url == connect_url,
    {
        Self { uuid, room_size, connect_url }
    }
}

/// The template ahead of the identifier in a room's connect URL.
pub open spec fn connect_url_prefix() -> Seq<char> {
    "ws://domain.com/room/"@
}

/// What one listing row holds, as plain values.
pub open spec fn response_view(r: RoomResponse) -> (Seq<char>, nat, Seq<char>) {
    (r.uuid@, r.room_size as nat, r.connect_url@)
}

/// The listing row owed to one registry entry, as plain values.
pub open spec fn entry_view(e: RegistryEntry) -> (Seq<char>, nat, Seq<char>) {
    (
        canonical_chars(e.room.value),
        e.subscribers as nat,
        connect_url_prefix() + canonical_chars(e.room.value),
    )
}

/// The rows of a listing, as plain values.
pub open spec fn response_views(s: Seq<RoomResponse>) -> Seq<(Seq<char>, nat, Seq<char>)> {
    s.map_values(|r: RoomResponse| response_view(r))
}

/// The rows owed to a registry's entries, as plain values.
pub open spec fn entry_views(s: Seq<RegistryEntry>) -> Seq<(Seq<char>, nat, Seq<char>)> {
    s.map_values(|e: RegistryEntry| entry_view(e))
}

/// Listing order: subscriber counts never grow along the list.
pub open spec fn sorted_desc(s: Seq<RoomResponse>) -> bool {
    forall|i: int, j: int|
        0 <= i < j < s.len() ==> #[trigger] s[i].room_size >= #[trigger] s[j].room_size
}

fn snapshot_rooms(reg: &Registry) -> (r: Vec<RoomResponse>)
    ensures
        response_views(r@) == entry_views(reg.entries@),
{
    let n = reg.entries.len();
    let mut out: Vec<RoomResponse> = Vec::new();
    let mut i: usize = 0;
    while i < n
        invariant
            n == reg.entries@.len(),
            i <= n,
            out@.len() == i,
            response_views(out@) == entry_views(reg.entries@.subrange(0, i as int)),
        decreases n - i,
    {
        let room = reg.entries[i].room;
        let size = reg.entries[i].subscribers;
        let uuid_text = room.canonical_text();
        let url = String::from_str("ws://domain.com/room/").concat(uuid_text.as_str());
        let ghost out0 = out@;
        out.push(RoomResponse { uuid: uuid_text, room_size: size, connect_url: url });
        proof {
            let pre = reg.entries@.subrange(0, (i + 1) as int);
            assert(response_view(out@[i as int]) == entry_view(reg.entries@[i as int]));
            assert forall|k: int| 0 <= k < out@.len() implies response_views(out@)[k]
                == entry_views(pre)[k] by {
                if k < i {
                    assert(out@[k] == out0[k]);
                    assert(response_views(out0)[k]
                        == entry_views(reg.entries@.subrange(0, i as int))[k]);
                    assert(pre[k] == reg.entries@.subrange(0, i as int)[k]);
                }
            }
            assert(response_views(out@) =~= entry_views(pre));
        }
        i += 1;
    }
    proof {
        assert(reg.entries@.subrange(0, n as int) =~= reg.entries@);
    }
    out
}

fn sort_rooms(rooms: Vec<RoomResponse>) -> (r: Vec<RoomResponse>)
    ensures
        sorted_desc(r@),
        response_views(r@).to_multiset() == response_views(rooms@).to_multiset(),
{
    broadcast use group_to_multiset_ensures;

    let ghost total = response_views(rooms@).to_multiset();
    let mut rest = rooms;
    let mut out: Vec<RoomResponse> = Vec::new();
    proof {
        assert(response_views(out@) =~= Seq::<(Seq<char>, nat, Seq<char>)>::empty());
        assert(response_views(out@).to_multiset().add(response_views(rest@).to_multiset())
            =~= total);
    }
    while rest.len() > 0
        invariant
            sorted_desc(out@),
            forall|i: int, j: int|
                0 <= i < out@.len() && 0 <= j < rest@.len() ==> #[trigger] out@[i].room_size
                    >= #[trigger] rest@[j].room_size,
            response_views(out@).to_multiset().add(response_views(rest@).to_multiset()) == total,
        decreases rest.len(),
    {
        let mut m: usize = 0;
        let mut k: usize = 1;
        while k < rest.len()
            invariant
                rest@.len() > 0,
                m < k <= rest@.len(),
                forall|j: int| 0 <= j < k ==> rest@[m as int].room_size
                    >= #[trigger] rest@[j].room_size,
            decreases rest@.len() - k,
        {
            if rest[k].room_size > rest[m].room_size {
                m = k;
            }
            k += 1;
        }
        let ghost rest0 = rest@;
        let ghost out0 = out@;
        let e = rest.remove(m);
        out.push(e);
        proof {
            broadcast use group_to_multiset_ensures;
            assert(response_views(rest@) =~= response_views(rest0).remove(m as int));
            assert(response_views(out@) =~= response_views(out0).push(response_view(e)));
            assert(response_views(rest0)[m as int] == response_view(e));
            assert(response_views(out@).to_multiset() =~= response_views(out0)
                .to_multiset()
                .insert(response_view(e)));
            assert(response_views(rest@).to_multiset() =~= response_views(rest0)
                .to_multiset()
                .remove(response_view(e)));
            assert(response_views(rest0).to_multiset().count(response_view(e)) >= 1);
            assert(response_views(out@).to_multiset().add(response_views(rest@).to_multiset())
                =~= response_views(out0).to_multiset().add(response_views(rest0).to_multiset()));
        }
    }
    proof {
        assert(response_views(rest@) =~= Seq::<(Seq<char>, nat, Seq<char>)>::empty());
        assert(response_views(out@).to_multiset().add(response_views(rest@).to_multiset())
            =~= response_views(out@).to_multiset());
    }
    out
}

/// The active-rooms listing for one registry: one row per live room, with
/// its current subscriber count and connect URL, sorted by falling room
/// size.
pub fn list_rooms(reg: &Registry) -> (r: Vec<RoomResponse>)
    ensures
        sorted_desc(r@),
        response_views(r@).to_multiset() == entry_views(reg.entries@).to_multiset(),
{
    sort_rooms(snapshot_rooms(reg))
}

/// The serialized listing row for one room.
pub open spec fn room_json_chars(r: RoomResponse) -> Seq<char> {
    "{\"uuid\":"@ + json_string(r.uuid@) + ",\"room_size\":"@ + dec_rep(r.room_size as nat)
        + ",\"connect_url\":"@ + json_string(r.connect_url@) + "}"@
}

/// The serialized rows of a listing, comma-separated.
pub open spec fn rooms_items_chars(s: Seq<RoomResponse>) -> Seq<char>
    decreases s.len(),
{
    if s.len() == 0 {
        Seq::empty()
    } else if s.len() == 1 {
        room_json_chars(s[0])
    } else {
        rooms_items_chars(s.drop_last()) + seq![','] + room_json_chars(s.last())
    }
}

/// The serialized listing: a JSON array of its rows, in order.
pub open spec fn rooms_array_chars(s: Seq<RoomResponse>) -> Seq<char> {
    seq!['['] + rooms_items_chars(s) + seq![']']
}

fn push_room_json(out: &mut String, r: &RoomResponse)
    ensures
        final(out)@ == old(out)@ + room_json_chars(*r),
{
    out.append("{\"uuid\":");
    push_json_string(out, r.uuid.as_str());
    out.append(",\"room_size\":");
    push_decimal(out, r.room_size as u64);
    out.append(",\"connect_url\":");
    push_json_string(out, r.connect_url.as_str());
    out.append("}");
    assert(out@ =~= old(out)@ + room_json_chars(*r));
}

/// The serialized listing for the rows of `rooms`.
pub fn rooms_array_json(rooms: &Vec<RoomResponse>) -> (r: String)
    ensures
        r@ == rooms_array_chars(rooms@),
{
    let mut out = String::new();
    crate::text::push_char(&mut out, '[');
    proof {
        assert(out@ =~= seq!['['] + rooms_items_chars(rooms@.subrange(0, 0)));
    }
    let n = rooms.len();
    let mut i: usize = 0;
    while i < n
        invariant
            n == rooms@.len(),
            i <= n,
            out@ == seq!['['] + rooms_items_chars(rooms@.subrange(0, i as int)),
        decreases n - i,
    {
        if i > 0 {
            crate::text::push_char(&mut out, ',');
        }
        push_room_json(&mut out, &rooms[i]);
        proof {
            let pre = rooms@.subrange(0, (i + 1) as int);
            assert(pre.drop_last() =~= rooms@.subrange(0, i as int));
            assert(pre.last() == rooms@[i as int]);
            if i == 0 {
                assert(out@ =~= seq!['['] + rooms_items_chars(pre));
            } else {
                assert(out@ =~= seq!['['] + rooms_items_chars(pre));
            }
        }
        i += 1;
    }
    crate::text::push_char(&mut out, ']');
    proof {
        assert(rooms@.subrange(0, n as int) =~= rooms@);
        assert(out@ =~= rooms_array_chars(rooms@));
    }
    out
}

/// Budget and window of the reserve-room gate.
pub fn reserve_room_limiter(ip: &str) -> (r: RateLimiter)
    ensures
        r.key@ == "rate_limiter:"@ + ip@,
        r.limit == 10,
        r.seconds == 600,
{
    RateLimiter::new(rate_limit_key(ip), 10, 600)
}

/// Budget and window of the list-rooms gate.
pub fn list_rooms_limiter(ip: &str) -> (r: RateLimiter)
    ensures
        r.key@ == "rate_limiter:"@ + ip@,
        r.limit == 10,
        r.seconds == 60,
{
    RateLimiter::new(rate_limit_key(ip), 10, 60)
}

/// Budget and window of the per-inbound-chat-frame gate.
pub fn chat_frame_limiter(ip: &str) -> (r: RateLimiter)
    ensures
        r.key@ == "rate_limiter:"@ + ip@,
        r.limit == 10,
        r.seconds == 60,
{
    RateLimiter::new(rate_limit_key(ip), 10, 60)
}

/// A freshly minted reservation: the room identifier, the cache key and
/// value to write, and the reservation's lifetime.
pub struct ReservePlan {
    pub room: RoomId,
    pub cache_key: String,
    pub cache_value: String,
    pub ttl_seconds: u64,
}

/// Mints an identifier and lays out its reservation: key `room:<id>`,
/// value the identifier text, lifetime one hour.
pub fn reserve_room_plan() -> (r: ReservePlan)
    ensures
        r.cache_key@ == crate::admission::reservation_key_chars(r.room.value),
        r.cache_value@ == canonical_chars(r.room.value),
        r.ttl_seconds == 3600,
{
    let room = RoomId { value: fresh_identifier_value() };
    let cache_key = crate::admission::reservation_key(&room);
    let cache_value = room.canonical_text();
    ReservePlan { room, cache_key, cache_value, ttl_seconds: 3600 }
}

/// The reply when the reserve-room gate denies: an empty identifier, not
/// successful, with the too-many-requests status.
pub fn reserve_denied_response() -> (r: (String, u16))
    ensures
        r.0@ == envelope_chars(false, json_string(Seq::<char>::empty())),
        r.1 == 429,
{
    let data = json_quote("");
    proof {
        reveal_strlit("");
        assert(""@ =~= Seq::<char>::empty());
    }
    ApiResponse::build(false, data.as_str(), 429)
}

/// The reply when the reservation was written: the identifier text as
/// data, successful, OK.
pub fn reserve_granted_response(room: &RoomId) -> (r: (String, u16))
    ensures
        r.0@ == envelope_chars(true, json_string(canonical_chars(room.value))),
        r.1 == 200,
{
    let text = room.canonical_text();
    let data = json_quote(text.as_str());
    ApiResponse::build(true, data.as_str(), 200)
}

/// The reply when the cache could not be reached while reserving.
pub fn reserve_failed_response() -> (r: (String, u16))
    ensures
        r.0@ == envelope_chars(false, json_string("failed to create room"@)),
        r.1 == 500,
{
    let data = json_quote("failed to create room");
    ApiResponse::build(false, data.as_str(), 500)
}

/// The reply when the list-rooms gate denies: an empty listing, not
/// successful, with the too-many-requests status.
pub fn list_denied_response() -> (r: (String, u16))
    ensures
        r.0@ == envelope_chars(false, rooms_array_chars(Seq::<RoomResponse>::empty())),
        r.1 == 429,
{
    let empty: Vec<RoomResponse> = Vec::new();
    let data = rooms_array_json(&empty);
    proof {
        assert(empty@ =~= Seq::<RoomResponse>::empty());
    }
    ApiResponse::build(false, data.as_str(), 429)
}

/// The listing reply: the registry's rooms, sorted by falling size, as the
/// envelope's data.
pub fn list_response(reg: &Registry) -> (r: (String, u16))
    ensures
        r.1 == 200,
        exists|rooms: Seq<RoomResponse>|
            r.0@ == envelope_chars(true, rooms_array_chars(rooms)) && #[trigger] sorted_desc(
                rooms,
            ) && response_views(rooms).to_multiset() == entry_views(reg.entries@).to_multiset(),
{
    let rooms = list_rooms(reg);
    let data = rooms_array_json(&rooms);
    let r = ApiResponse::build(true, data.as_str(), 200);
    proof {
        assert(r.0@ == envelope_chars(true, rooms_array_chars(rooms@)) && sorted_desc(rooms@)
            && response_views(rooms@).to_multiset() == entry_views(reg.entries@).to_multiset());
    }
    r
}

/// The version reply: the build's version text as data.
pub fn version_response(version: &str) -> (r: (String, u16))
    ensures
        r.0@ == envelope_chars(true, json_string(version@)),
        r.1 == 200,
{
    let data = json_quote(version);
    ApiResponse::build(true, data.as_str(), 200)
}

} // verus!
