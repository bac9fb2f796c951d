//! Broadcast dispatch: which connections an arriving message reaches.
//! The pushes themselves are fire-and-forget network sends performed by
//! the surrounding process; a failed push is not an error here, the
//! connection is simply evicted by the next sweep cycle.

use crate::errors::BridgeError;
use crate::registry::{matching, ClientConnection, Registry};
use crate::routing_key::{pad_to, MyString, RoutingKey, MAX_KEY_LEN};
use vstd::prelude::*;

verus! {

/// The delivery callback's decision: given the routing key an upstream
/// message arrived under, the connections its payload must be pushed
/// to — exactly the registered connections subscribed to that key. A
/// delivered key longer than the fixed width cannot name any
/// registered connection and is rejected.
pub fn delivery_targets(reg: &Registry, delivered_key: &MyString) -> (r: Result<
    Vec<ClientConnection>,
    BridgeError,
>)
    ensures
        delivered_key.0@.len() <= MAX_KEY_LEN ==> (r matches Ok(cs) && cs@ == matching(
            reg.connections(),
            pad_to(delivered_key.0@, MAX_KEY_LEN as nat),
        )),
        delivered_key.0@.len() > MAX_KEY_LEN ==> r == Err::<Vec<ClientConnection>, BridgeError>(
            BridgeError::KeyTooLong,
        ),
{
    match RoutingKey::encode(delivered_key) {
        Ok(key) => Ok(reg.connections_for(&key)),
        Err(e) => Err(e),
    }
}

} // verus!
