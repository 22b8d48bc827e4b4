//! The room catalog: the durable list of room slugs, kept by a store outside
//! this library, and what the endpoints that create and list rooms answer.
//!
//! The catalog knows nothing of who is connected: a room can be listed here
//! and have no member in the registry, and the other way round.

use vstd::prelude::*;
use crate::error::ApiError;

verus! {

/// The body of a request to create a room.
pub struct CreateRoomRequestStruct {
    pub room_slug: String,
    pub created_by: String,
}

/// The answer to a request to create a room.
pub struct CreateRoomResponseStruct {
    pub slug: String,
}

/// The answer to a request for the list of rooms.
pub struct GetRoomsResponse {
    pub rooms: Vec<String>,
}

/// What the store hands back for a room it created.
#[derive(Debug)]
pub struct CreateRoomResponse {
    pub slug: String,
}

/// What the store hands back when asked for its rooms.
#[derive(Debug)]
pub struct GetRoomResponse {
    pub rooms: Vec<String>,
}

/// Answers a request to create a room, given the record that the store
/// created or the reason why it created none.
pub fn create_room(created: Result<CreateRoomResponse, String>) -> (response: Result<
    CreateRoomResponseStruct,
    ApiError,
>)
    ensures
        match created {
            Ok(record) => response matches Ok(room) && room.slug == record.slug,
            Err(reason) => response matches Err(ApiError::Conflict(given)) && given == reason,
        },
{
    match created {
        Ok(record) => Ok(CreateRoomResponseStruct { slug: record.slug }),
        Err(reason) => Err(ApiError::Conflict(reason)),
    }
}

/// Answers a request for the list of rooms, given the slugs that the store
/// listed or the reason why it listed none.
pub fn get_rooms(listed: Result<GetRoomResponse, String>) -> (response: Result<
    GetRoomsResponse,
    ApiError,
>)
    ensures
        match listed {
            Ok(record) => response matches Ok(list) && list.rooms == record.rooms,
            Err(reason) => response matches Err(ApiError::Conflict(given)) && given == reason,
        },
{
    match listed {
        Ok(record) => Ok(GetRoomsResponse { rooms: record.rooms }),
        Err(reason) => Err(ApiError::Conflict(reason)),
    }
}

} // verus!
