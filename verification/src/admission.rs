//! Admission for connect-to-room: the two-phase room materialization.
//!
//! A room identifier arrives as URL text.  Admission parses it, consults the
//! reservation in the cache, and either promotes the room into the store
//! (consuming the reservation, atomically with the insert) or requires the
//! room to exist durably.  The cache and store round trips happen outside;
//! each decision between them is made here, over their observed outcomes.

use vstd::prelude::*;
use crate::ids::{canonical_chars, id_value_of, well_formed_id_text, RoomId};
use crate::store::Room;
use vstd::string::StringExecFns;

verus! {

/// The reservation key for a room identifier.
pub open spec fn reservation_key_chars(v: u128) -> Seq<char> {
    "room:"@ + canonical_chars(v)
}

/// The cache key under which a room's reservation lives.
pub fn reservation_key(room: &RoomId) -> (r: String)
    ensures
        r@ == reservation_key_chars(room.value),
{
    let text = room.canonical_text();
    String::from_str("room:").concat(text.as_str())
}

/// The verdict of admission: reject with an HTTP status, or proceed into a
/// session with the room's surrogate key.
pub enum Admission {
    Reject { status: u16 },
    Proceed { room_key: i32 },
}

/// The first admission step, on the identifier text from the URL: malformed
/// text is rejected as not found, well-formed text names the room whose
/// reservation is then probed.
pub enum AdmissionStart {
    Reject { status: u16 },
    CheckReservation { room: RoomId, cache_key: String },
}

/// Parses the identifier from the URL and composes the reservation key.
pub fn admission_begin(path_id: &str) -> (r: AdmissionStart)
    ensures
        !well_formed_id_text(path_id@) ==> (r matches AdmissionStart::Reject { status }
            && status == 404),
        well_formed_id_text(path_id@) ==> (r matches AdmissionStart::CheckReservation {
            room,
            cache_key,
        } && room.value as int == id_value_of(path_id@)
            && cache_key@ == reservation_key_chars(room.value)),
{
    match RoomId::parse_text(path_id) {
        Option::None => AdmissionStart::Reject { status: 404 },
        Option::Some(room) => {
            let cache_key = reservation_key(&room);
            AdmissionStart::CheckReservation { room, cache_key }
        },
    }
}

/// What the reservation probe observed: a cache fault, a live reservation,
/// or none.
pub enum ReservationProbe {
    Fault,
    Reserved,
    Absent,
}

/// Where admission goes after the probe: cache faults are internal errors,
/// a reservation is promoted, and otherwise the store is consulted.
pub enum AdmissionPath {
    Reject { status: u16 },
    Promote { room: RoomId },
    Lookup { room: RoomId },
}

/// Routes admission after the reservation probe.
pub fn admission_route(room: RoomId, probe: ReservationProbe) -> (r: AdmissionPath)
    ensures
        probe is Fault ==> (r matches AdmissionPath::Reject { status } && status == 500),
        probe is Reserved ==> (r matches AdmissionPath::Promote { room: q } && q == room),
        probe is Absent ==> (r matches AdmissionPath::Lookup { room: q } && q == room),
{
    match probe {
        ReservationProbe::Fault => AdmissionPath::Reject { status: 500 },
        ReservationProbe::Reserved => AdmissionPath::Promote { room },
        ReservationProbe::Absent => AdmissionPath::Lookup { room },
    }
}

/// The verdict after a promotion attempt, as a function of what the outside
/// calls reported.
pub open spec fn spec_promote_verdict(
    created: Option<i32>,
    reservation_deleted: bool,
    committed: bool,
) -> Admission {
    match created {
        Option::Some(key) => if reservation_deleted && committed {
            Admission::Proceed { room_key: key }
        } else {
            Admission::Reject { status: 500 }
        },
        Option::None => Admission::Reject { status: 500 },
    }
}

/// Judges a promotion attempt: the session proceeds only when the room row
/// was created, the reservation key was deleted, and the transaction
/// committed; any failure is an internal error.
pub fn promote_verdict(created: Option<i32>, reservation_deleted: bool, committed: bool) -> (r:
    Admission)
    ensures
        r == spec_promote_verdict(created, reservation_deleted, committed),
{
    match created {
        Option::Some(key) => {
            if reservation_deleted && committed {
                Admission::Proceed { room_key: key }
            } else {
                Admission::Reject { status: 500 }
            }
        },
        Option::None => Admission::Reject { status: 500 },
    }
}

/// After a successful promotion the reservation is consumed and the room is
/// durable: admission proceeds only when the room row was created, the
/// reservation key was deleted from the cache, and the insert committed.
pub proof fn lemma_admission_consumes_reservation(
    created: Option<i32>,
    reservation_deleted: bool,
    committed: bool,
)
    ensures
        spec_promote_verdict(created, reservation_deleted, committed) is Proceed ==> (created
            is Some && reservation_deleted && committed),
{
}

/// Judges a durable lookup for a room with no reservation: a store fault is
/// an internal error, no row is not found, and the first matching row's
/// surrogate key admits the session.
pub fn lookup_verdict(rows: Option<&Vec<Room>>) -> (r: Admission)
    ensures
        rows is None ==> (r matches Admission::Reject { status } && status == 500),
        rows matches Option::Some(v) ==> ((v@.len() == 0 ==> (r matches Admission::Reject {
            status,
        } && status == 404)) && (v@.len() > 0 ==> (r matches Admission::Proceed {
            room_key,
        } && room_key == v@[0].id))),
{
    match rows {
        Option::None => Admission::Reject { status: 500 },
        Option::Some(v) => {
            if v.len() == 0 {
                Admission::Reject { status: 404 }
            } else {
                Admission::Proceed { room_key: v[0].get_id() }
            }
        },
    }
}

} // verus!
