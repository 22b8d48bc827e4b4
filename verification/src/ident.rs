//! Connection identifiers.
//!
//! An identifier is minted once per accepted connection and is never handed out
//! again while the process runs. The registry only ever compares identifiers.

use vstd::prelude::*;

verus! {

/// Identifies one live connection.
pub type ClientId = snowflake::ProcessUniqueId;

/// Identifies a room.
pub type RoomId = String;

/// Trusted: makes `snowflake::ProcessUniqueId` known as a type of which
/// nothing is seen but that two of its values are equal or not.
#[verifier::external_type_specification]
#[verifier::external_body]
pub struct ExProcessUniqueId(snowflake::ProcessUniqueId);

/// Whether two identifiers are the same one.
///
/// Trusted: calls the `==` that `snowflake::ProcessUniqueId` derives, which
/// compares the two integers an identifier is made of. The contract claims that
/// it answers `true` exactly for equal identifiers.
#[verifier::external_body]
pub(crate) fn same_client(a: ClientId, b: ClientId) -> (same: bool)
    ensures
        same == (a == b),
{
    a == b
}

/// Mints an identifier for a newly accepted connection.
///
/// Trusted: calls `snowflake::ProcessUniqueId::new`. Which identifier comes
/// back depends on how many were minted before, so nothing is claimed of it.
/// The call panics only once the process has run out of identifiers, for
/// which it would have to mint them on more threads than a `usize` counts.
#[verifier::external_body]
pub(crate) fn mint_client_id() -> ClientId {
    snowflake::ProcessUniqueId::new()
}

} // verus!
