//! What holds of the registry and of sessions over more than one step.

use crate::message::{CommandView, EngineEventView, ReceivedMessageView, SendingMessageView};
use crate::message::SessionError;
use crate::ordered::{
    lemma_with_member, lemma_without_members, lemma_without_no_duplicates, with_member, without,
};
use crate::room::{
    lemma_create_wf, lemma_filter_tracks, lemma_owner_at, lemma_register_then_listed,
    lemma_remove_wf, lemma_room_steps_keep_wf, lemma_with_room_wf, not_owned_by, other_track,
    track_ids_distinct, RegistryError, RegistryView, RoomView, TrackView,
};
use crate::websocket::SessionView;
use crate::worker::WorkerSet;
use vstd::prelude::*;

verus! {

/// One room per id. Whoever asks for a room after it was found or made gets
/// that same room, on the same router and worker, and is told that it was
/// not made for them; the registry does not change.
pub proof fn lemma_one_room_per_id(
    registry: RegistryView,
    id: Seq<char>,
    first: Option<WorkerSet>,
    second: Option<WorkerSet>,
)
    requires
        registry.wf(),
    ensures
        registry.find_or_create(id, first).registry.wf(),
        registry.find_or_create(id, first).found matches Ok((room, _)) ==> {
            let after = registry.find_or_create(id, first).registry;
            &&& after.rooms.contains_key(id)
            &&& after.rooms[id] == room
            &&& after.find_or_create(id, second).registry == after
            &&& after.find_or_create(id, second).found == Ok::<_, RegistryError>(
                (room, false),
            )
        },
{
    if !registry.rooms.contains_key(id) && first is Some && registry.next_router < u64::MAX {
        lemma_create_wf(registry, id, first->0);
    }
}

/// Every step of a session keeps the session and the registry well formed.
pub proof fn lemma_steps_keep_wf(
    session: SessionView,
    registry: RegistryView,
    msg: ReceivedMessageView,
    event: EngineEventView,
)
    requires
        session.wf(),
        registry.wf(),
    ensures
        session.started(registry).wf(),
        session.handle(registry, msg) matches Ok(step) ==> step.session.wf() && step.registry.wf(),
        session.engine_event(registry, event).session.wf(),
        session.engine_event(registry, event).registry.wf(),
        session.stopped(registry).session.wf(),
        session.stopped(registry).registry.wf(),
{
    if session.in_live_room(registry) {
        let room = registry.rooms[session.room];
        assert(registry.rooms.contains_key(session.room));
        lemma_room_steps_keep_wf(room, session.address, Seq::empty());
        lemma_room_steps_keep_wf(
            room.release_publishers(session.address),
            session.address,
            Seq::empty(),
        );
        assert(registry.admits(room.add_user(session.address)));
        lemma_with_room_wf(registry, room.add_user(session.address));
        assert(registry.admits(session.room_left(registry)));
        lemma_with_room_wf(registry, session.room_left(registry));
        match msg {
            ReceivedMessageView::StopPublish { publisher_id } => {
                lemma_room_steps_keep_wf(room, session.address, publisher_id);
                assert(registry.admits(room.unregister_publisher(publisher_id)));
                lemma_with_room_wf(registry, room.unregister_publisher(publisher_id));
            },
            _ => {},
        }
        match event {
            EngineEventView::Published { track_id } => {
                lemma_room_steps_keep_wf(room, session.address, track_id);
                assert(registry.admits(room.register_publisher(track_id, session.address)));
                lemma_with_room_wf(registry, room.register_publisher(track_id, session.address));
            },
            _ => {},
        }
    }
    lemma_remove_wf(registry, session.room);
    match msg {
        ReceivedMessageView::StopPublish { publisher_id } => {
            lemma_without_no_duplicates(session.publishers, publisher_id);
        },
        ReceivedMessageView::StopSubscribe { subscriber_id } => {
            lemma_without_no_duplicates(session.subscribers, subscriber_id);
        },
        _ => {},
    }
    match event {
        EngineEventView::Published { track_id } => {
            lemma_with_member(session.publishers, track_id);
        },
        EngineEventView::Subscribed { subscriber_id, offer } => {
            lemma_with_member(session.subscribers, subscriber_id);
        },
        _ => {},
    }
}

/// Whether a command closes something that is closed once in a session's
/// life: one of its transports, or the router of its room.
pub open spec fn closes_for_good(command: CommandView) -> bool {
    command is CloseSubscribeTransport || command is ClosePublishTransport || command
        is CloseRouter
}

/// A room is closed exactly once, by the peer that leaves it empty.
///
/// The end of a connection closes the session's two transports once each.
/// If the session was the last peer of its room, the room is taken off the
/// registry and its router is closed, once; if peers are left, the room
/// stays, without the session, and its router stays open. Stopping the
/// session again closes nothing and changes nothing, and no message and no
/// engine event ever closes a transport or a router.
pub proof fn lemma_closed_exactly_once(
    session: SessionView,
    registry: RegistryView,
    msg: ReceivedMessageView,
    event: EngineEventView,
)
    requires
        session.wf(),
        registry.wf(),
    ensures
        ({
            let end = session.stopped(registry);
            let last = !session.closed && session.leaves_room_empty(registry);
            &&& end.session.closed
            &&& end.commands == if session.closed {
                Seq::<CommandView>::empty()
            } else if last {
                seq![
                    CommandView::CloseSubscribeTransport,
                    CommandView::ClosePublishTransport,
                    CommandView::CloseRouter(session.router),
                ]
            } else {
                seq![CommandView::CloseSubscribeTransport, CommandView::ClosePublishTransport]
            }
            &&& last ==> !end.registry.rooms.contains_key(session.room)
            &&& !session.closed && session.in_live_room(registry) && !last ==> {
                &&& end.registry.is_live(session.room, session.router)
                &&& end.registry.rooms[session.room].users == without(
                    registry.rooms[session.room].users,
                    session.address,
                )
                &&& end.registry.rooms[session.room].users.len() > 0
            }
            &&& end.session.stopped(end.registry) == end.session.yields(
                end.registry,
                Seq::empty(),
            )
        }),
        session.handle(registry, msg) matches Ok(step) ==> forall|i: int|
            0 <= i < step.commands.len() ==> !closes_for_good(#[trigger] step.commands[i]),
        forall|i: int|
            0 <= i < session.engine_event(registry, event).commands.len() ==> !closes_for_good(
                #[trigger] session.engine_event(registry, event).commands[i],
            ),
{
}

/// The commands that answer a subscriber's init: watch the subscribe
/// transport, and tell the client which tracks are published.
pub open spec fn init_reply(publisher_ids: Seq<Seq<char>>) -> Seq<CommandView> {
    seq![
        CommandView::WatchSubscriberIce,
        CommandView::WatchNegotiation,
        CommandView::Send(SendingMessageView::Published { publisher_ids }),
    ]
}

/// A published track is announced to whoever asks, until it is stopped.
///
/// The client's request to publish only reaches the engine. Once the engine
/// forwards the track, the init of any subscriber in the same room lists it.
/// Once the publishing session stops the track, such an init lists it no
/// longer.
pub proof fn lemma_published_until_stopped(
    publisher: SessionView,
    subscriber: SessionView,
    registry: RegistryView,
    track_id: Seq<char>,
)
    requires
        publisher.wf(),
        registry.wf(),
        !publisher.closed,
        !subscriber.closed,
        publisher.in_live_room(registry),
        subscriber.room == publisher.room,
        subscriber.router == publisher.router,
    ensures
        publisher.handle(registry, ReceivedMessageView::Publish { track_id }) == Ok::<
            _,
            SessionError,
        >(publisher.yields(registry, seq![CommandView::Publish(track_id)])),
        ({
            let published = publisher.engine_event(
                registry,
                EngineEventView::Published { track_id },
            );
            let asked = subscriber.handle(published.registry, ReceivedMessageView::SubscriberInit);
            let stopped = published.session.handle(
                published.registry,
                ReceivedMessageView::StopPublish { publisher_id: track_id },
            );
            &&& published.session.publishers.contains(track_id)
            &&& asked is Ok
            &&& asked->Ok_0.commands == init_reply(subscriber.published_around(published.registry))
            &&& subscriber.published_around(published.registry).contains(track_id)
            &&& stopped is Ok
            &&& !stopped->Ok_0.session.publishers.contains(track_id)
            &&& {
                let after = stopped->Ok_0.registry;
                let asked_again = subscriber.handle(after, ReceivedMessageView::SubscriberInit);
                &&& asked_again is Ok
                &&& asked_again->Ok_0.commands == init_reply(subscriber.published_around(after))
                &&& !subscriber.published_around(after).contains(track_id)
            }
        }),
{
    let room = registry.rooms[publisher.room];
    assert(registry.rooms.contains_key(publisher.room));
    lemma_register_then_listed(room, track_id, publisher.address);
    lemma_room_steps_keep_wf(room, publisher.address, track_id);
    lemma_with_member(publisher.publishers, track_id);
    let published = publisher.engine_event(registry, EngineEventView::Published { track_id });
    let listed = room.register_publisher(track_id, publisher.address);
    assert(published.registry.rooms[publisher.room] == listed);
    assert(subscriber.published_around(published.registry) == listed.track_ids());
    lemma_without_members(published.session.publishers, track_id);
    lemma_register_then_listed(listed, track_id, publisher.address);
    let stopped = published.session.handle(
        published.registry,
        ReceivedMessageView::StopPublish { publisher_id: track_id },
    );
    assert(published.session.in_live_room(published.registry));
    assert(stopped->Ok_0.registry.rooms[publisher.room] == listed.unregister_publisher(track_id));
    assert(subscriber.published_around(stopped->Ok_0.registry) == listed.unregister_publisher(
        track_id,
    ).track_ids());
}

/// After the last peer has left, the room is gone, and whoever asks for it
/// next gets a new room on a router that no room had before.
pub proof fn lemma_rejoin_makes_new_room(
    session: SessionView,
    registry: RegistryView,
    worker: WorkerSet,
)
    requires
        registry.wf(),
        !session.closed,
        session.leaves_room_empty(registry),
        registry.next_router < u64::MAX,
    ensures
        ({
            let end = session.stopped(registry);
            let again = end.registry.find_or_create(session.room, Some(worker));
            &&& !end.registry.rooms.contains_key(session.room)
            &&& again.found == Ok::<_, RegistryError>(
                (RoomView::fresh(session.room, registry.next_router, worker), true),
            )
            &&& again.registry.rooms[session.room].router != session.router
        }),
{
    assert(registry.rooms.contains_key(session.room));
}

/// Whether the session holds every track that its room lists under its
/// address.
pub open spec fn holds_its_tracks(session: SessionView, registry: RegistryView) -> bool {
    session.in_live_room(registry) ==> forall|i: int|
        0 <= i < registry.rooms[session.room].tracks.len() && (
        #[trigger] registry.rooms[session.room].tracks[i]).owner == session.address
            ==> session.publishers.contains(registry.rooms[session.room].tracks[i].track_id)
}

/// Whether the room `id` lists no track under `address`.
pub open spec fn lists_nothing_of(registry: RegistryView, id: Seq<char>, address: u64) -> bool {
    registry.rooms.contains_key(id) ==> forall|i: int|
        0 <= i < registry.rooms[id].tracks.len() ==> (#[trigger] registry.rooms[id].tracks[i]).owner
            != address
}

proof fn lemma_tracks_after_filter(
    session: SessionView,
    tracks: Seq<TrackView>,
    keep: spec_fn(TrackView) -> bool,
    held: Seq<Seq<char>>,
)
    requires
        track_ids_distinct(tracks),
        forall|i: int|
            0 <= i < tracks.len() && (#[trigger] tracks[i]).owner == session.address && keep(
                tracks[i],
            ) ==> held.contains(tracks[i].track_id),
    ensures
        forall|i: int|
            0 <= i < tracks.filter(keep).len() && (#[trigger] tracks.filter(keep)[i]).owner
                == session.address ==> held.contains(tracks.filter(keep)[i].track_id),
{
    lemma_filter_tracks(tracks, keep);
    let kept = tracks.filter(keep);
    assert forall|i: int| 0 <= i < kept.len() && (#[trigger] kept[i]).owner
        == session.address implies held.contains(kept[i].track_id) by {
        assert(tracks.contains(kept[i]));
        let j = choose|j: int| 0 <= j < tracks.len() && tracks[j] == kept[i];
        assert(tracks[j].owner == session.address && keep(tracks[j]));
    }
}

/// A session holds what its room lists under its address, whatever step it
/// takes; and once it has stopped, the room lists nothing under its address.
pub proof fn lemma_own_steps_hold_tracks(
    session: SessionView,
    registry: RegistryView,
    msg: ReceivedMessageView,
    event: EngineEventView,
)
    requires
        registry.wf(),
        holds_its_tracks(session, registry),
    ensures
        session.handle(registry, msg) matches Ok(step) ==> holds_its_tracks(
            step.session,
            step.registry,
        ),
        holds_its_tracks(
            session.engine_event(registry, event).session,
            session.engine_event(registry, event).registry,
        ),
        !session.closed && session.in_live_room(registry) ==> lists_nothing_of(
            session.stopped(registry).registry,
            session.room,
            session.address,
        ),
{
    if session.in_live_room(registry) && !session.closed {
        let room = registry.rooms[session.room];
        assert(registry.rooms.contains_key(session.room));
        match msg {
            ReceivedMessageView::StopPublish { publisher_id } => {
                let held = without(session.publishers, publisher_id);
                lemma_without_members(session.publishers, publisher_id);
                if room.owner_of(publisher_id) == Some(session.address) {
                    assert forall|i: int|
                        0 <= i < room.tracks.len() && (#[trigger] room.tracks[i]).owner
                            == session.address && other_track(publisher_id)(
                            room.tracks[i],
                        ) implies held.contains(room.tracks[i].track_id) by {}
                    lemma_tracks_after_filter(session, room.tracks, other_track(publisher_id), held);
                } else if session.publishers.contains(publisher_id) {
                    assert forall|i: int|
                        0 <= i < room.tracks.len() && (#[trigger] room.tracks[i]).owner
                            == session.address implies held.contains(room.tracks[i].track_id) by {
                        if room.tracks[i].track_id == publisher_id {
                            assert(room.has_track(publisher_id));
                            let found = choose|k: int|
                                0 <= k < room.tracks.len() && (#[trigger] room.tracks[k]).track_id
                                    == publisher_id;
                            if found < i {
                                assert(room.tracks[found].track_id != room.tracks[i].track_id);
                            }
                            if i < found {
                                assert(room.tracks[i].track_id != room.tracks[found].track_id);
                            }
                        }
                    }
                }
            },
            _ => {},
        }
        match event {
            EngineEventView::Published { track_id } => {
                let held = with_member(session.publishers, track_id);
                lemma_with_member(session.publishers, track_id);
                let rest = room.tracks.filter(other_track(track_id));
                lemma_tracks_after_filter(session, room.tracks, other_track(track_id), held);
                let grown = rest.push(TrackView { track_id, owner: session.address });
                assert forall|i: int| 0 <= i < grown.len() && (#[trigger] grown[i]).owner
                    == session.address implies held.contains(grown[i].track_id) by {
                    if i < rest.len() {
                        assert(grown[i] == rest[i]);
                    }
                }
            },
            _ => {},
        }
        let released = room.tracks.filter(not_owned_by(session.address));
        lemma_filter_tracks(room.tracks, not_owned_by(session.address));
        assert forall|i: int| 0 <= i < released.len() implies (#[trigger] released[i]).owner
            != session.address by {
            assert(not_owned_by(session.address)(released[i]));
        }
    }
}

/// What another session does never takes from a session what it holds: a
/// session still holds every track that its room lists under its address
/// after any step of a session with another address.
pub proof fn lemma_other_steps_hold_tracks(
    session: SessionView,
    other: SessionView,
    registry: RegistryView,
    msg: ReceivedMessageView,
    event: EngineEventView,
)
    requires
        registry.wf(),
        holds_its_tracks(session, registry),
        other.address != session.address,
    ensures
        holds_its_tracks(session, other.started(registry)),
        other.handle(registry, msg) matches Ok(step) ==> holds_its_tracks(session, step.registry),
        holds_its_tracks(session, other.engine_event(registry, event).registry),
        holds_its_tracks(session, other.stopped(registry).registry),
{
    if session.in_live_room(registry) && other.in_live_room(registry) && other.room
        == session.room {
        let room = registry.rooms[session.room];
        let held = session.publishers;
        assert(registry.rooms.contains_key(session.room));
        match msg {
            ReceivedMessageView::StopPublish { publisher_id } => {
                lemma_tracks_after_filter(session, room.tracks, other_track(publisher_id), held);
            },
            _ => {},
        }
        match event {
            EngineEventView::Published { track_id } => {
                let rest = room.tracks.filter(other_track(track_id));
                lemma_tracks_after_filter(session, room.tracks, other_track(track_id), held);
                let grown = rest.push(TrackView { track_id, owner: other.address });
                assert forall|i: int| 0 <= i < grown.len() && (#[trigger] grown[i]).owner
                    == session.address implies held.contains(grown[i].track_id) by {
                    if i < rest.len() {
                        assert(grown[i] == rest[i]);
                    }
                }
            },
            _ => {},
        }
        lemma_tracks_after_filter(session, room.tracks, not_owned_by(other.address), held);
    }
}

/// A room with peers is never left registered without peers: a step either
/// leaves somebody in it or takes it off the registry.
pub proof fn lemma_rooms_stay_inhabited(
    session: SessionView,
    registry: RegistryView,
    id: Seq<char>,
    msg: ReceivedMessageView,
    event: EngineEventView,
)
    requires
        registry.wf(),
        registry.rooms.contains_key(id),
        registry.rooms[id].users.len() > 0,
    ensures
        session.started(registry).rooms.contains_key(id) && session.started(
            registry,
        ).rooms[id].users.len() > 0,
        session.handle(registry, msg) matches Ok(step) ==> step.registry.rooms.contains_key(id)
            && step.registry.rooms[id].users.len() > 0,
        session.engine_event(registry, event).registry.rooms.contains_key(id)
            && session.engine_event(registry, event).registry.rooms[id].users.len() > 0,
        session.stopped(registry).registry.rooms.contains_key(id) ==> session.stopped(
            registry,
        ).registry.rooms[id].users.len() > 0,
{
}

/// Whether the session's room lists every track that the session holds,
/// under the session's address.
pub open spec fn lists_its_tracks(session: SessionView, registry: RegistryView) -> bool {
    session.in_live_room(registry) ==> forall|track_id: Seq<char>|
        session.publishers.contains(track_id) ==> #[trigger] registry.rooms[session.room].owner_of(
            track_id,
        ) == Some(session.address)
}

/// The room with only the tracks that `keep` lets pass.
spec fn filtered(room: RoomView, keep: spec_fn(TrackView) -> bool) -> RoomView {
    RoomView { tracks: room.tracks.filter(keep), ..room }
}

/// Whether `keep` lets the track `track_id` of `owner` pass.
spec fn passes(keep: spec_fn(TrackView) -> bool, track_id: Seq<char>, owner: u64) -> bool {
    keep(TrackView { track_id, owner })
}

/// A track that is listed under an owner stays listed under that owner when
/// tracks are filtered and the filter lets it pass.
proof fn lemma_owner_after_filter(
    room: RoomView,
    keep: spec_fn(TrackView) -> bool,
    track_id: Seq<char>,
    owner: u64,
)
    requires
        room.wf(),
        room.owner_of(track_id) == Some(owner),
        passes(keep, track_id, owner),
    ensures
        filtered(room, keep).owner_of(track_id) == Some(owner),
{
    let filtered = filtered(room, keep);
    let i = choose|i: int|
        0 <= i < room.tracks.len() && (#[trigger] room.tracks[i]).track_id == track_id;
    assert(room.tracks[i] == TrackView { track_id, owner });
    lemma_filter_tracks(room.tracks, keep);
    assert(filtered.tracks.contains(room.tracks[i]));
    let j = choose|j: int| 0 <= j < filtered.tracks.len() && filtered.tracks[j] == room.tracks[i];
    lemma_owner_at(filtered, j);
}

/// A track that is listed under an owner stays listed under that owner when
/// a track with another id is registered.
proof fn lemma_owner_after_register(
    room: RoomView,
    registered: Seq<char>,
    by: u64,
    track_id: Seq<char>,
    owner: u64,
)
    requires
        room.wf(),
        room.owner_of(track_id) == Some(owner),
        track_id != registered,
    ensures
        room.register_publisher(registered, by).owner_of(track_id) == Some(owner),
{
    let after = room.register_publisher(registered, by);
    let filtered = filtered(room, other_track(registered));
    lemma_owner_after_filter(room, other_track(registered), track_id, owner);
    lemma_room_steps_keep_wf(room, by, registered);
    assert(filtered.has_track(track_id));
    let j = choose|j: int|
        0 <= j < filtered.tracks.len() && (#[trigger] filtered.tracks[j]).track_id == track_id;
    assert(after.tracks[j] == filtered.tracks[j]);
    lemma_owner_at(after, j);
}

/// A room lists what a session holds, whatever step the session takes.
pub proof fn lemma_own_steps_list_tracks(
    session: SessionView,
    registry: RegistryView,
    msg: ReceivedMessageView,
    event: EngineEventView,
)
    requires
        registry.wf(),
        lists_its_tracks(session, registry),
    ensures
        session.handle(registry, msg) matches Ok(step) ==> lists_its_tracks(
            step.session,
            step.registry,
        ),
        lists_its_tracks(
            session.engine_event(registry, event).session,
            session.engine_event(registry, event).registry,
        ),
        lists_its_tracks(session.stopped(registry).session, session.stopped(registry).registry),
{
    if session.in_live_room(registry) && !session.closed {
        let room = registry.rooms[session.room];
        assert(registry.rooms.contains_key(session.room));
        match msg {
            ReceivedMessageView::StopPublish { publisher_id } => {
                if session.publishers.contains(publisher_id) {
                    let after = room.unregister_publisher(publisher_id);
                    lemma_without_members(session.publishers, publisher_id);
                    assert forall|track_id: Seq<char>|
                        without(session.publishers, publisher_id).contains(
                            track_id,
                        ) implies #[trigger] after.owner_of(track_id) == Some(session.address) by {
                        assert(room.owner_of(track_id) == Some(session.address));
                        lemma_owner_after_filter(
                            room,
                            other_track(publisher_id),
                            track_id,
                            session.address,
                        );
                    }
                }
            },
            _ => {},
        }
        match event {
            EngineEventView::Published { track_id } => {
                let after = room.register_publisher(track_id, session.address);
                lemma_register_then_listed(room, track_id, session.address);
                assert forall|held: Seq<char>|
                    with_member(session.publishers, track_id).contains(
                        held,
                    ) implies #[trigger] after.owner_of(held) == Some(session.address) by {
                    if held != track_id {
                        lemma_with_member(session.publishers, track_id);
                        assert(room.owner_of(held) == Some(session.address));
                        lemma_owner_after_register(
                            room,
                            track_id,
                            session.address,
                            held,
                            session.address,
                        );
                    }
                }
            },
            _ => {},
        }
    }
}

/// What another session does leaves a session's tracks listed, as long as
/// the other session does not publish a track under an id that the session
/// holds: then the later registration takes the id over.
pub proof fn lemma_other_steps_list_tracks(
    session: SessionView,
    other: SessionView,
    registry: RegistryView,
    msg: ReceivedMessageView,
    event: EngineEventView,
)
    requires
        registry.wf(),
        lists_its_tracks(session, registry),
        other.address != session.address,
        event matches EngineEventView::Published { track_id } ==> !session.publishers.contains(
            track_id,
        ),
    ensures
        lists_its_tracks(session, other.started(registry)),
        other.handle(registry, msg) matches Ok(step) ==> lists_its_tracks(session, step.registry),
        lists_its_tracks(session, other.engine_event(registry, event).registry),
        lists_its_tracks(session, other.stopped(registry).registry),
{
    if session.in_live_room(registry) && other.in_live_room(registry) && other.room
        == session.room && !other.closed {
        let room = registry.rooms[session.room];
        assert(registry.rooms.contains_key(session.room));
        match msg {
            ReceivedMessageView::StopPublish { publisher_id } => {
                if room.owner_of(publisher_id) == Some(other.address) {
                    let after = room.unregister_publisher(publisher_id);
                    assert forall|track_id: Seq<char>|
                        session.publishers.contains(track_id) implies #[trigger] after.owner_of(
                        track_id,
                    ) == Some(session.address) by {
                        assert(room.owner_of(track_id) == Some(session.address));
                        lemma_owner_after_filter(
                            room,
                            other_track(publisher_id),
                            track_id,
                            session.address,
                        );
                    }
                }
            },
            _ => {},
        }
        match event {
            EngineEventView::Published { track_id } => {
                let after = room.register_publisher(track_id, other.address);
                assert forall|held: Seq<char>|
                    session.publishers.contains(held) implies #[trigger] after.owner_of(held)
                    == Some(session.address) by {
                    assert(room.owner_of(held) == Some(session.address));
                    lemma_owner_after_register(room, track_id, other.address, held, session.address);
                }
            },
            _ => {},
        }
        let released = room.release_publishers(other.address);
        let left = released.remove_user(other.address);
        assert forall|track_id: Seq<char>|
            session.publishers.contains(track_id) implies #[trigger] left.owner_of(track_id)
            == Some(session.address) by {
            assert(room.owner_of(track_id) == Some(session.address));
            lemma_owner_after_filter(room, not_owned_by(other.address), track_id, session.address);
            assert(left.tracks == released.tracks);
        }
        let joined = room.add_user(other.address);
        assert forall|track_id: Seq<char>|
            session.publishers.contains(track_id) implies #[trigger] joined.owner_of(track_id)
            == Some(session.address) by {
            assert(room.owner_of(track_id) == Some(session.address));
            assert(joined.tracks == room.tracks);
        }
    }
}

} // verus!
