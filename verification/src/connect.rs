//! The way into a room: from the query of the connecting request to a
//! session for the room it names.

use crate::room::{RegistryError, RegistryView, RoomOwner};
use crate::websocket::{SessionView, WebSocket};
use crate::worker::{offers, WorkerOwner, WorkerSet};
use actix_web::error::QueryPayloadError;
use actix_web::web::Query;
use std::collections::HashMap;
use vstd::prelude::*;

verus! {

/// Why a connection was not taken into a room.
#[derive(Clone, Copy, Debug, PartialEq, Eq, Structural)]
pub enum ConnectError {
    /// The query of the request could not be read.
    UnparseableQuery,
    /// The query names no room.
    MissingRoom,
    /// The registry had no room to give.
    Registry(RegistryError),
}

#[verifier::external_type_specification]
#[verifier::external_body]
pub struct ExQueryPayloadError(QueryPayloadError);

/// The parameters that `Query::from_query` of `actix-web` reads out of a
/// query string, by name; `None` where it rejects the string.
pub uninterp spec fn query_map(query: Seq<char>) -> Option<Map<Seq<char>, Seq<char>>>;

/// Whether `pairs` lists the entries of `map`: every pair is an entry, and
/// every name in the map has a pair.
pub open spec fn lists(pairs: Seq<(String, String)>, map: Map<Seq<char>, Seq<char>>) -> bool {
    &&& forall|i: int|
        0 <= i < pairs.len() ==> map.contains_key((#[trigger] pairs[i]).0@) && map[pairs[i].0@]
            == pairs[i].1@
    &&& forall|name: Seq<char>| #[trigger]
        map.contains_key(name) ==> exists|i: int|
            0 <= i < pairs.len() && (#[trigger] pairs[i]).0@ == name
}

/// Reads a query string with `Query::<HashMap<String, String>>::from_query`
/// of `actix-web` and hands out the entries of the map it builds.
///
/// The contract names the map and says that the pairs returned are its
/// entries, in no stated order, or that the string was rejected. What the
/// map holds for a given string is not stated here.
#[verifier::external_body]
fn parse_query(query: &str) -> (parsed: Result<Vec<(String, String)>, QueryPayloadError>)
    ensures
        match parsed {
            Ok(pairs) => query_map(query@) is Some && lists(pairs@, query_map(query@)->0),
            Err(_) => query_map(query@) is None,
        },
{
    let parsed = Query::<HashMap<String, String>>::from_query(query)?;
    Ok(parsed.into_inner().into_iter().collect())
}

/// The name of the parameter that selects the room.
pub open spec fn room_param() -> Seq<char> {
    "room"@
}

/// The room that a query's parameters select.
pub open spec fn room_in(parameters: Option<Map<Seq<char>, Seq<char>>>) -> Result<
    Seq<char>,
    ConnectError,
> {
    match parameters {
        None => Err(ConnectError::UnparseableQuery),
        Some(map) => if map.contains_key(room_param()) {
            Ok(map[room_param()])
        } else {
            Err(ConnectError::MissingRoom)
        },
    }
}

/// The value of the first pair called `room`, if there is one.
pub fn room_of(pairs: &Vec<(String, String)>) -> (room: Option<String>)
    ensures
        match room {
            Some(id) => exists|i: int|
                0 <= i < pairs@.len() && (#[trigger] pairs@[i]).0@ == room_param() && pairs@[i].1@
                    == id@ && forall|j: int| 0 <= j < i ==> (#[trigger] pairs@[j]).0@ != room_param(),
            None => forall|i: int| 0 <= i < pairs@.len() ==> (#[trigger] pairs@[i]).0@ != room_param(),
        },
{
    let name = "room".to_owned();
    let mut i: usize = 0;
    while i < pairs.len()
        invariant
            i <= pairs.len(),
            name@ == room_param(),
            forall|j: int| 0 <= j < i ==> (#[trigger] pairs@[j]).0@ != room_param(),
        decreases pairs.len() - i,
    {
        if pairs[i].0 == name {
            return Some(pairs[i].1.clone());
        }
        i += 1;
    }
    None
}

/// The room that the query of a connecting request selects.
///
/// A query that cannot be read, and one without a `room` parameter, is
/// turned down.
pub fn room_of_query(query: &str) -> (room: Result<String, ConnectError>)
    ensures
        match room {
            Ok(id) => room_in(query_map(query@)) == Ok::<Seq<char>, ConnectError>(id@),
            Err(error) => room_in(query_map(query@)) == Err::<Seq<char>, ConnectError>(error),
        },
{
    match parse_query(query) {
        Ok(pairs) => match room_of(&pairs) {
            Some(id) => Ok(id),
            None => Err(ConnectError::MissingRoom),
        },
        Err(_) => Err(ConnectError::UnparseableQuery),
    }
}

/// What `connect` leaves behind for a query that selects `room`, with
/// `offered` as the worker for a new room: the registry after the call, and
/// the session made together with whether its room is new.
pub open spec fn connected(
    registry: RegistryView,
    room: Seq<char>,
    offered: Option<WorkerSet>,
    address: u64,
) -> (RegistryView, Result<(SessionView, bool), ConnectError>) {
    let resolution = registry.find_or_create(room, offered);
    (
        resolution.registry,
        match resolution.found {
            Ok((found, created)) => Ok((SessionView::fresh(address, found.id, found.router), created)),
            Err(error) => Err(ConnectError::Registry(error)),
        },
    )
}

/// What the caller of `connect` holds, with the session as the contracts see
/// it.
pub open spec fn connection_view(connection: Result<(WebSocket, bool), ConnectError>) -> Result<
    (SessionView, bool),
    ConnectError,
> {
    match connection {
        Ok((session, created)) => Ok((session@, created)),
        Err(error) => Err(error),
    }
}

/// Takes a connecting peer into the room that its request selects.
///
/// The room is found, or made on a worker of `pool`, and a session for the
/// peer `address` is set up for it. The session has not joined the room yet.
/// `created` tells whether the room is new, in which case its router has to
/// be set up before the session is used. A request that is turned down
/// leaves the registry as it was.
pub fn connect(owner: &mut RoomOwner, pool: &WorkerOwner, query: &str, address: u64) -> (connection:
    Result<(WebSocket, bool), ConnectError>)
    requires
        old(owner).wf(),
    ensures
        final(owner).wf(),
        match room_in(query_map(query@)) {
            Ok(room) => exists|offered: Option<WorkerSet>| #[trigger]
                offers(pool@, offered) && (final(owner)@, connection_view(connection))
                    == connected(old(owner)@, room, offered, address),
            Err(error) => final(owner)@ == old(owner)@ && connection_view(connection) == Err::<
                (SessionView, bool),
                ConnectError,
            >(error),
        },
{
    let room_id = match room_of_query(query) {
        Ok(room_id) => room_id,
        Err(error) => {
            return Err(error);
        },
    };
    match owner.find_or_create(room_id, pool) {
        Ok((room, created)) => Ok((WebSocket::new(room, address), created)),
        Err(error) => Err(ConnectError::Registry(error)),
    }
}

} // verus!
