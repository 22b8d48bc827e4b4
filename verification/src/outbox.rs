//! The outbound side of a connection: the sending half of the channel that
//! feeds the connection's write loop.

use vstd::prelude::*;

verus! {

/// Trusted: makes `tokio::sync::mpsc::UnboundedSender` known as a type of
/// which nothing is seen.
#[verifier::external_type_specification]
#[verifier::external_body]
#[verifier::reject_recursive_types(T)]
pub struct ExUnboundedSender<T>(tokio::sync::mpsc::UnboundedSender<T>);

/// The sending half of a connection's outbound channel.
pub type Outbound = tokio::sync::mpsc::UnboundedSender<String>;

/// Offers `message` to a connection's outbound channel without waiting, and
/// reports whether the channel took it.
///
/// Trusted: calls `tokio::sync::mpsc::UnboundedSender::send`, which never
/// waits and returns an error once the receiving half has been closed or
/// dropped. Whether that has happened is not a property of the sender's
/// value, so nothing is claimed of the answer.
#[verifier::external_body]
pub(crate) fn offer(outbound: &Outbound, message: String) -> (accepted: bool) {
    outbound.send(message).is_ok()
}

} // verus!
