//! The per-room broadcast hub: a bounded publish/subscribe channel.
//!
//! The channel itself comes from tokio's broadcast primitive; a hub value is
//! opaque here.  Everything the library decides about hubs — which rooms
//! have one, how many sessions subscribe, what text is published — is stated
//! over the registry and the session transcripts, not over the channel.

use vstd::prelude::*;

verus! {

#[verifier::external_type_specification]
#[verifier::external_body]
#[verifier::reject_recursive_types(T)]
pub struct ExSender<T>(tokio::sync::broadcast::Sender<T>);

/// Capacity of one hub's publish backlog.
pub const HUB_BACKLOG: usize = 100;

/// Relies on `tokio::sync::broadcast::channel`: a fresh channel with the
/// fixed backlog; the initial receiver half is dropped, so peers subscribe
/// through the returned sender.
#[verifier::external_body]
pub fn new_hub() -> tokio::sync::broadcast::Sender<String> {
    tokio::sync::broadcast::channel(HUB_BACKLOG).0
}

/// Relies on `tokio::sync::broadcast::Sender::clone`: another handle
/// publishing into the same channel.
#[verifier::external_body]
pub fn hub_clone(hub: &tokio::sync::broadcast::Sender<String>) -> tokio::sync::broadcast::Sender<
    String,
> {
    hub.clone()
}

/// Relies on `tokio::sync::broadcast::Sender::send`: the message is queued
/// for every receiver subscribed at the moment of the call, in publish
/// order per receiver; it returns whether at least one active receiver
/// existed.  The verdict depends on concurrent subscribers, so nothing more
/// is promised of it.
#[verifier::external_body]
pub fn hub_publish(hub: &tokio::sync::broadcast::Sender<String>, message: String) -> bool {
    hub.send(message).is_ok()
}

} // verus!
