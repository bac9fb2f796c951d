//! The error taxonomy of the bridge core.

use vstd::prelude::*;

verus! {

/// Every failure the core distinguishes.
///
/// - `KeyTooLong`: a raw topic string exceeded the fixed key width; the
///   caller establishing a connection sees it synchronously.
/// - `SubscriptionFailure`: upstream provisioning failed while a client
///   was connecting; no registry entry is created.
/// - `SendFailure`: a push to one connection's outbound handle failed;
///   absorbed, it only drives eviction.
/// - `CancelFailure`: an upstream cancellation failed during eviction;
///   ignored, it never blocks further eviction progress.
#[derive(Clone, Copy, PartialEq, Eq, Structural, Debug)]
pub enum BridgeError {
    KeyTooLong,
    SubscriptionFailure,
    SendFailure,
    CancelFailure,
}

} // verus!
