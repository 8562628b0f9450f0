//! Rooms, and the registry that holds one room per identifier.

use crate::message::{command_views, Command, CommandView, SendingMessage, SendingMessageView};
use crate::ordered::{
    contains_value, lemma_with_member, lemma_without_absent, lemma_without_len,
    lemma_without_no_duplicates, values_without, with_member, without,
};
use crate::worker::{offers, WorkerOwner, WorkerSet};
use vstd::prelude::*;

verus! {

/// A published track: its id and the peer that publishes it.
pub struct TrackView {
    pub track_id: Seq<char>,
    pub owner: u64,
}

/// A room as the contracts see it.
///
/// `users` are the peers in the order in which they joined, `tracks` the
/// published tracks in the order in which they were registered.
pub struct RoomView {
    pub id: Seq<char>,
    pub router: u64,
    pub worker: WorkerSet,
    pub users: Seq<u64>,
    pub tracks: Seq<TrackView>,
}

/// The test that keeps every track but the one called `track_id`.
pub open spec fn other_track(track_id: Seq<char>) -> spec_fn(TrackView) -> bool {
    |track: TrackView| track.track_id != track_id
}

/// The test that keeps every track but those of `owner`.
pub open spec fn not_owned_by(owner: u64) -> spec_fn(TrackView) -> bool {
    |track: TrackView| track.owner != owner
}

/// No two tracks share an id.
pub open spec fn track_ids_distinct(tracks: Seq<TrackView>) -> bool {
    forall|i: int, j: int|
        0 <= i < j < tracks.len() ==> (#[trigger] tracks[i]).track_id != (
        #[trigger] tracks[j]).track_id
}

/// The notice that `track_id` is now published, as one peer receives it.
pub open spec fn published_notice(peer: u64, track_id: Seq<char>) -> CommandView {
    CommandView::Notify {
        peer,
        message: SendingMessageView::Published { publisher_ids: seq![track_id] },
    }
}

impl RoomView {
    /// A room that nobody has joined yet.
    pub open spec fn fresh(id: Seq<char>, router: u64, worker: WorkerSet) -> RoomView {
        RoomView { id, router, worker, users: Seq::empty(), tracks: Seq::empty() }
    }

    /// No peer is listed twice and no track id is registered twice.
    pub open spec fn wf(self) -> bool {
        &&& self.users.no_duplicates()
        &&& track_ids_distinct(self.tracks)
    }

    /// The room with `user` among its peers, last if the peer is new.
    pub open spec fn add_user(self, user: u64) -> RoomView {
        RoomView { users: with_member(self.users, user), ..self }
    }

    /// The room without `user` among its peers.
    pub open spec fn remove_user(self, user: u64) -> RoomView {
        RoomView { users: without(self.users, user), ..self }
    }

    /// The peers of the room other than `user`, in joining order.
    pub open spec fn peers_excluding(self, user: u64) -> Seq<u64> {
        without(self.users, user)
    }

    /// The ids of the published tracks, in registration order.
    pub open spec fn track_ids(self) -> Seq<Seq<char>> {
        Seq::new(self.tracks.len(), |i: int| self.tracks[i].track_id)
    }

    /// Whether a track is registered under `track_id`.
    pub open spec fn has_track(self, track_id: Seq<char>) -> bool {
        exists|i: int| 0 <= i < self.tracks.len() && (#[trigger] self.tracks[i]).track_id == track_id
    }

    /// The peer that publishes `track_id`, if the track is registered.
    pub open spec fn owner_of(self, track_id: Seq<char>) -> Option<u64> {
        if self.has_track(track_id) {
            let i = choose|i: int|
                0 <= i < self.tracks.len() && (#[trigger] self.tracks[i]).track_id == track_id;
            Some(self.tracks[i].owner)
        } else {
            None
        }
    }

    /// Registers `track_id` for `owner`. An earlier registration of the same
    /// id gives way to the new one.
    pub open spec fn register_publisher(self, track_id: Seq<char>, owner: u64) -> RoomView {
        RoomView {
            tracks: self.tracks.filter(other_track(track_id)).push(TrackView { track_id, owner }),
            ..self
        }
    }

    /// The room without the track `track_id`.
    pub open spec fn unregister_publisher(self, track_id: Seq<char>) -> RoomView {
        RoomView { tracks: self.tracks.filter(other_track(track_id)), ..self }
    }

    /// Drops every track that `owner` publishes.
    pub open spec fn release_publishers(self, owner: u64) -> RoomView {
        RoomView { tracks: self.tracks.filter(not_owned_by(owner)), ..self }
    }

    /// One notice for each peer other than `from`, in joining order.
    pub open spec fn new_publisher_notices(self, from: u64, track_id: Seq<char>) -> Seq<
        CommandView,
    > {
        let peers = self.peers_excluding(from);
        Seq::new(peers.len(), |i: int| published_notice(peers[i], track_id))
    }
}

/// Filtering tracks keeps their ids distinct, and keeps only tracks that were
/// there.
pub proof fn lemma_filter_tracks(tracks: Seq<TrackView>, keep: spec_fn(TrackView) -> bool)
    requires
        track_ids_distinct(tracks),
    ensures
        track_ids_distinct(tracks.filter(keep)),
        forall|i: int|
            0 <= i < tracks.filter(keep).len() ==> tracks.contains(#[trigger] tracks.filter(keep)[i])
                && keep(tracks.filter(keep)[i]),
        forall|i: int|
            0 <= i < tracks.len() && keep(tracks[i]) ==> tracks.filter(keep).contains(
                #[trigger] tracks[i],
            ),
    decreases tracks.len(),
{
    reveal(Seq::filter);
    let kept = tracks.filter(keep);
    if tracks.len() > 0 {
        let front = tracks.drop_last();
        let last = tracks.last();
        lemma_filter_tracks(front, keep);
        let front_kept = front.filter(keep);
        assert forall|i: int| 0 <= i < kept.len() implies tracks.contains(#[trigger] kept[i])
            && keep(kept[i]) by {
            if i < front_kept.len() {
                assert(front.contains(front_kept[i]));
                let j = choose|j: int| 0 <= j < front.len() && front[j] == front_kept[i];
                assert(tracks[j] == kept[i]);
            } else {
                assert(tracks[tracks.len() - 1] == kept[i]);
            }
        }
        assert forall|i: int| 0 <= i < tracks.len() && keep(tracks[i]) implies kept.contains(
            #[trigger] tracks[i],
        ) by {
            if i < front.len() {
                assert(front[i] == tracks[i]);
                assert(front_kept.contains(front[i]));
                let j = choose|j: int| 0 <= j < front_kept.len() && front_kept[j] == front[i];
                assert(kept[j] == tracks[i]);
            } else {
                assert(kept[kept.len() - 1] == tracks[i]);
            }
        }
        assert forall|i: int, j: int| 0 <= i < j < kept.len() implies (#[trigger] kept[i]).track_id
            != (#[trigger] kept[j]).track_id by {
            if j == front_kept.len() {
                assert(front.contains(front_kept[i]));
                let k = choose|k: int| 0 <= k < front.len() && front[k] == front_kept[i];
                assert(tracks[k] == kept[i]);
                assert(tracks[tracks.len() - 1] == kept[j]);
            } else {
                assert(front_kept[i] == kept[i]);
                assert(front_kept[j] == kept[j]);
            }
        }
    }
}

/// Every step a room can take keeps it well formed.
pub proof fn lemma_room_steps_keep_wf(room: RoomView, user: u64, track_id: Seq<char>)
    requires
        room.wf(),
    ensures
        room.add_user(user).wf(),
        room.remove_user(user).wf(),
        room.register_publisher(track_id, user).wf(),
        room.unregister_publisher(track_id).wf(),
        room.release_publishers(user).wf(),
{
    lemma_with_member(room.users, user);
    lemma_without_no_duplicates(room.users, user);
    lemma_filter_tracks(room.tracks, other_track(track_id));
    lemma_filter_tracks(room.tracks, not_owned_by(user));
    let rest = room.tracks.filter(other_track(track_id));
    let grown = rest.push(TrackView { track_id, owner: user });
    assert forall|i: int, j: int| 0 <= i < j < grown.len() implies (#[trigger] grown[i]).track_id
        != (#[trigger] grown[j]).track_id by {
        if j == rest.len() {
            assert(other_track(track_id)(rest[i]));
        } else {
            assert(rest[i] == grown[i] && rest[j] == grown[j]);
        }
    }
}

/// Where no two tracks share an id, a listed track is found under its id
/// with its own owner.
pub proof fn lemma_owner_at(room: RoomView, i: int)
    requires
        track_ids_distinct(room.tracks),
        0 <= i < room.tracks.len(),
    ensures
        room.has_track(room.tracks[i].track_id),
        room.owner_of(room.tracks[i].track_id) == Some(room.tracks[i].owner),
{
    let track_id = room.tracks[i].track_id;
    assert(room.has_track(track_id));
    let found = choose|k: int|
        0 <= k < room.tracks.len() && (#[trigger] room.tracks[k]).track_id == track_id;
    if found < i {
        assert(room.tracks[found].track_id != room.tracks[i].track_id);
    }
    if i < found {
        assert(room.tracks[i].track_id != room.tracks[found].track_id);
    }
}

/// A registered track is listed with its owner until it is unregistered.
pub proof fn lemma_register_then_listed(room: RoomView, track_id: Seq<char>, owner: u64)
    requires
        room.wf(),
    ensures
        room.register_publisher(track_id, owner).track_ids().contains(track_id),
        room.register_publisher(track_id, owner).owner_of(track_id) == Some(owner),
        !room.unregister_publisher(track_id).track_ids().contains(track_id),
        room.unregister_publisher(track_id).owner_of(track_id) == None::<u64>,
{
    lemma_filter_tracks(room.tracks, other_track(track_id));
    lemma_room_steps_keep_wf(room, owner, track_id);
    let registered = room.register_publisher(track_id, owner);
    let last = registered.tracks.len() - 1;
    assert(registered.tracks[last].track_id == track_id);
    assert(registered.track_ids()[last] == track_id);
    assert(registered.has_track(track_id));
    let found = choose|i: int|
        0 <= i < registered.tracks.len() && (#[trigger] registered.tracks[i]).track_id == track_id;
    assert(found == last) by {
        if found < last {
            assert(registered.tracks[found].track_id != registered.tracks[last].track_id);
        }
    }
    let removed = room.unregister_publisher(track_id);
    assert forall|i: int| 0 <= i < removed.tracks.len() implies (#[trigger] removed.tracks[i]).track_id
        != track_id by {
        assert(other_track(track_id)(removed.tracks[i]));
    }
    if removed.track_ids().contains(track_id) {
        let i = choose|i: int| 0 <= i < removed.track_ids().len() && removed.track_ids()[i] == track_id;
        assert(removed.tracks[i].track_id == track_id);
    }
}

struct Track {
    track_id: String,
    owner: u64,
}

impl View for Track {
    type V = TrackView;

    closed spec fn view(&self) -> TrackView {
        TrackView { track_id: self.track_id@, owner: self.owner }
    }
}

spec fn track_views(tracks: Seq<Track>) -> Seq<TrackView> {
    Seq::new(tracks.len(), |i: int| tracks[i]@)
}

/// The tracks that pass: those not called `track_id` where one is given,
/// otherwise those not owned by `owner`.
fn tracks_where(tracks: &Vec<Track>, track_id: Option<&String>, owner: u64) -> (kept: Vec<Track>)
    ensures
        track_views(kept@) == track_views(tracks@).filter(
            match track_id {
                Some(id) => other_track(id@),
                None => not_owned_by(owner),
            },
        ),
{
    let ghost keep = match track_id {
        Some(id) => other_track(id@),
        None => not_owned_by(owner),
    };
    let mut kept: Vec<Track> = Vec::new();
    let mut i: usize = 0;
    assert(track_views(tracks@).take(0) =~= Seq::<TrackView>::empty());
    assert(track_views(kept@) =~= Seq::<TrackView>::empty());
    proof {
        reveal(Seq::filter);
    }
    while i < tracks.len()
        invariant
            i <= tracks.len(),
            keep == match track_id {
                Some(id) => other_track(id@),
                None => not_owned_by(owner),
            },
            track_views(kept@) == track_views(tracks@).take(i as int).filter(keep),
        decreases tracks.len() - i,
    {
        let ghost before = track_views(kept@);
        let ghost seen = track_views(tracks@).take(i as int);
        let track = &tracks[i];
        let passes = match track_id {
            Some(id) => track.track_id != *id,
            None => track.owner != owner,
        };
        if passes {
            kept.push(Track { track_id: track.track_id.clone(), owner: track.owner });
            assert(track_views(kept@) =~= before.push(tracks@[i as int]@));
        }
        proof {
            assert(track_views(tracks@).take(i + 1) =~= seen.push(tracks@[i as int]@));
            seen.lemma_filter_push(tracks@[i as int]@, keep);
        }
        i += 1;
    }
    assert(track_views(tracks@).take(i as int) =~= track_views(tracks@));
    kept
}

/// One routing domain: the peers that joined it and the tracks published
/// into it, bound to the router and the worker it was created on.
pub struct Room {
    id: String,
    router: u64,
    worker: WorkerSet,
    users: Vec<u64>,
    tracks: Vec<Track>,
}

impl View for Room {
    type V = RoomView;

    closed spec fn view(&self) -> RoomView {
        RoomView {
            id: self.id@,
            router: self.router,
            worker: self.worker,
            users: self.users@,
            tracks: track_views(self.tracks@),
        }
    }
}

impl Room {
    /// No peer is listed twice and no track id is registered twice.
    pub open spec fn wf(&self) -> bool {
        self@.wf()
    }

    /// A room without peers or tracks.
    pub fn new(id: String, router: u64, worker: WorkerSet) -> (room: Room)
        ensures
            room@ == RoomView::fresh(id@, router, worker),
            room.wf(),
    {
        let room = Room { id, router, worker, users: Vec::new(), tracks: Vec::new() };
        assert(room@.tracks =~= Seq::<TrackView>::empty());
        room
    }

    /// The id the room is registered under.
    pub fn id(&self) -> (id: &String)
        ensures
            id@ == self@.id,
    {
        &self.id
    }

    /// The number of the room's router.
    pub fn router(&self) -> (router: u64)
        ensures
            router == self@.router,
    {
        self.router
    }

    /// The worker the room is bound to.
    pub fn worker(&self) -> (worker: WorkerSet)
        ensures
            worker == self@.worker,
    {
        self.worker
    }

    /// The number of peers in the room.
    pub fn peer_count(&self) -> (count: usize)
        ensures
            count == self@.users.len(),
    {
        self.users.len()
    }

    /// Adds a peer. A peer that is in the room already stays where it is.
    pub fn add_user(&mut self, user: u64)
        ensures
            final(self)@ == old(self)@.add_user(user),
            old(self).wf() ==> final(self).wf(),
    {
        proof {
            if self.wf() {
                lemma_room_steps_keep_wf(self@, user, Seq::empty());
            }
        }
        if !contains_value(&self.users, user) {
            self.users.push(user);
        }
    }

    /// Removes a peer and returns how many are left.
    pub fn remove_user(&mut self, user: u64) -> (remaining: usize)
        ensures
            final(self)@ == old(self)@.remove_user(user),
            remaining == final(self)@.users.len(),
            old(self).wf() ==> final(self).wf(),
            old(self).wf() && old(self)@.users.contains(user) ==> remaining == old(
                self,
            )@.users.len() - 1,
            !old(self)@.users.contains(user) ==> final(self)@ == old(self)@,
    {
        proof {
            if self.wf() {
                lemma_room_steps_keep_wf(self@, user, Seq::empty());
                lemma_without_len(self@.users, user);
            }
            if !self@.users.contains(user) {
                lemma_without_absent(self@.users, user);
            }
        }
        self.users = values_without(&self.users, user);
        self.users.len()
    }

    /// The peers other than `user`, as they are now. Later changes to the
    /// room do not show in the list returned.
    pub fn get_peers(&self, user: u64) -> (peers: Vec<u64>)
        ensures
            peers@ == self@.peers_excluding(user),
    {
        values_without(&self.users, user)
    }

    /// Registers a track as published by `owner`.
    pub fn register_publisher(&mut self, track_id: String, owner: u64)
        ensures
            final(self)@ == old(self)@.register_publisher(track_id@, owner),
            old(self).wf() ==> final(self).wf(),
    {
        proof {
            if self.wf() {
                lemma_room_steps_keep_wf(self@, owner, track_id@);
            }
        }
        let mut tracks = tracks_where(&self.tracks, Some(&track_id), owner);
        let ghost rest = track_views(tracks@);
        tracks.push(Track { track_id, owner });
        assert(track_views(tracks@) =~= rest.push(TrackView { track_id: track_id@, owner }));
        self.tracks = tracks;
    }

    /// Takes a track off the list of published tracks.
    pub fn unregister_publisher(&mut self, track_id: &String)
        ensures
            final(self)@ == old(self)@.unregister_publisher(track_id@),
            old(self).wf() ==> final(self).wf(),
    {
        proof {
            if self.wf() {
                lemma_room_steps_keep_wf(self@, 0, track_id@);
            }
        }
        self.tracks = tracks_where(&self.tracks, Some(track_id), 0);
    }

    /// Takes every track of `owner` off the list of published tracks.
    pub fn release_publishers(&mut self, owner: u64)
        ensures
            final(self)@ == old(self)@.release_publishers(owner),
            old(self).wf() ==> final(self).wf(),
    {
        proof {
            if self.wf() {
                lemma_room_steps_keep_wf(self@, owner, Seq::empty());
            }
        }
        self.tracks = tracks_where(&self.tracks, None, owner);
    }

    /// The peer that publishes `track_id`, if the track is registered.
    pub fn publisher_of(&self, track_id: &String) -> (owner: Option<u64>)
        requires
            self.wf(),
        ensures
            owner == self@.owner_of(track_id@),
    {
        let mut i: usize = 0;
        while i < self.tracks.len()
            invariant
                i <= self.tracks.len(),
                self.wf(),
                forall|j: int| 0 <= j < i ==> (#[trigger] self@.tracks[j]).track_id != track_id@,
            decreases self.tracks.len() - i,
        {
            if self.tracks[i].track_id == *track_id {
                proof {
                    assert(self@.tracks[i as int].track_id == track_id@);
                    let found = choose|k: int|
                        0 <= k < self@.tracks.len() && (#[trigger] self@.tracks[k]).track_id
                            == track_id@;
                    if found < i {
                        assert(self@.tracks[found].track_id != self@.tracks[i as int].track_id);
                    }
                    if i < found {
                        assert(self@.tracks[i as int].track_id != self@.tracks[found].track_id);
                    }
                }
                return Some(self.tracks[i].owner);
            }
            i += 1;
        }
        None
    }

    /// The ids of the tracks published in the room.
    pub fn publisher_ids(&self) -> (ids: Vec<String>)
        ensures
            ids.deep_view() == self@.track_ids(),
    {
        let mut ids: Vec<String> = Vec::new();
        let mut i: usize = 0;
        while i < self.tracks.len()
            invariant
                i <= self.tracks.len(),
                ids.deep_view() == self@.track_ids().take(i as int),
            decreases self.tracks.len() - i,
        {
            let ghost before = ids.deep_view();
            ids.push(self.tracks[i].track_id.clone());
            assert(ids.deep_view() =~= before.push(self@.track_ids()[i as int]));
            assert(self@.track_ids().take(i + 1) =~= before.push(self@.track_ids()[i as int]));
            i += 1;
        }
        assert(self@.track_ids().take(i as int) =~= self@.track_ids());
        ids
    }

    /// Tells every peer but `from` that `track_id` is now published. The
    /// notices are returned for delivery, one per peer; nothing waits for a
    /// peer to receive its notice.
    pub fn broadcast_new_publisher(&self, from: u64, track_id: &String) -> (notices: Vec<Command>)
        ensures
            command_views(notices@) == self@.new_publisher_notices(from, track_id@),
    {
        let peers = self.get_peers(from);
        let mut notices: Vec<Command> = Vec::new();
        let mut i: usize = 0;
        while i < peers.len()
            invariant
                i <= peers.len(),
                peers@ == self@.peers_excluding(from),
                command_views(notices@) == self@.new_publisher_notices(from, track_id@).take(
                    i as int,
                ),
            decreases peers.len() - i,
        {
            let ghost before = command_views(notices@);
            let mut publisher_ids: Vec<String> = Vec::new();
            publisher_ids.push(track_id.clone());
            assert(publisher_ids.deep_view() =~= seq![track_id@]);
            let notice = Command::Notify {
                peer: peers[i],
                message: SendingMessage::Published { publisher_ids },
            };
            assert(notice@ == published_notice(peers@[i as int], track_id@));
            notices.push(notice);
            assert(command_views(notices@) =~= before.push(
                published_notice(peers@[i as int], track_id@),
            ));
            assert(self@.new_publisher_notices(from, track_id@).take(i + 1) =~= before.push(
                published_notice(peers@[i as int], track_id@),
            ));
            i += 1;
        }
        assert(self@.new_publisher_notices(from, track_id@).take(i as int)
            =~= self@.new_publisher_notices(from, track_id@));
        notices
    }
}

/// Why the registry did not hand out a room.
#[derive(Clone, Copy, Debug, PartialEq, Eq, Structural)]
pub enum RegistryError {
    /// A room with this id is registered already.
    RoomExists,
    /// The pool has no worker to put a new room on.
    NoWorkerAvailable,
    /// Every router number has been given out.
    RoutersExhausted,
}

/// The registry as the contracts see it: the rooms by id, and the number the
/// next router will get.
#[verifier::ext_equal]
pub struct RegistryView {
    pub rooms: Map<Seq<char>, RoomView>,
    pub next_router: u64,
}

/// What a joiner gets: the registry after the call, and the room together
/// with whether it was made for this joiner.
#[verifier::ext_equal]
pub struct Resolution {
    pub registry: RegistryView,
    pub found: Result<(RoomView, bool), RegistryError>,
}

/// What the caller of `find_or_create` holds, with the room as the contracts
/// see it.
pub open spec fn found_view(found: Result<(&Room, bool), RegistryError>) -> Result<
    (RoomView, bool),
    RegistryError,
> {
    match found {
        Ok((room, created)) => Ok((room@, created)),
        Err(error) => Err(error),
    }
}

impl RegistryView {
    /// The registry without rooms, before any router number is given out.
    pub open spec fn empty() -> RegistryView {
        RegistryView { rooms: Map::empty(), next_router: 0 }
    }

    /// Each room is filed under its own id and is well formed, each router
    /// number was given out before `next_router`, and no two rooms share one.
    pub open spec fn wf(self) -> bool {
        &&& forall|id: Seq<char>| #[trigger]
            self.rooms.contains_key(id) ==> {
                &&& self.rooms[id].id == id
                &&& self.rooms[id].wf()
                &&& self.rooms[id].router < self.next_router
            }
        &&& forall|a: Seq<char>, b: Seq<char>|
            #[trigger] self.rooms.contains_key(a) && #[trigger] self.rooms.contains_key(b) && a != b
                ==> self.rooms[a].router != self.rooms[b].router
    }

    /// Whether the room `id` is registered and runs on `router`, that is,
    /// whether the room a holder of `router` once joined is still the one
    /// registered under `id`.
    pub open spec fn is_live(self, id: Seq<char>, router: u64) -> bool {
        self.rooms.contains_key(id) && self.rooms[id].router == router
    }

    /// Registers a new, empty room `id` on `worker`, on the next router.
    pub open spec fn create(self, id: Seq<char>, worker: WorkerSet) -> RegistryView {
        RegistryView {
            rooms: self.rooms.insert(id, RoomView::fresh(id, self.next_router, worker)),
            next_router: (self.next_router + 1) as u64,
        }
    }

    /// Finding the room `id`, or registering it on the worker offered.
    ///
    /// A registered room is found as it is, whatever is offered. For a room
    /// that is not registered a worker is needed, and a router number that is
    /// still free.
    pub open spec fn find_or_create(self, id: Seq<char>, offered: Option<WorkerSet>) -> Resolution {
        if self.rooms.contains_key(id) {
            Resolution { registry: self, found: Ok((self.rooms[id], false)) }
        } else {
            match offered {
                None => Resolution { registry: self, found: Err(RegistryError::NoWorkerAvailable) },
                Some(worker) => if self.next_router == u64::MAX {
                    Resolution { registry: self, found: Err(RegistryError::RoutersExhausted) }
                } else {
                    Resolution {
                        registry: self.create(id, worker),
                        found: Ok((RoomView::fresh(id, self.next_router, worker), true)),
                    }
                },
            }
        }
    }

    /// The registry without the room `id`.
    pub open spec fn remove(self, id: Seq<char>) -> RegistryView {
        RegistryView { rooms: self.rooms.remove(id), ..self }
    }

    /// The registry with `room` filed under its id.
    pub open spec fn with_room(self, room: RoomView) -> RegistryView {
        RegistryView { rooms: self.rooms.insert(room.id, room), ..self }
    }

    /// Whether `room` can be filed without breaking the registry: it is well
    /// formed, its router number was given out, and no other room has it.
    pub open spec fn admits(self, room: RoomView) -> bool {
        &&& room.wf()
        &&& room.router < self.next_router
        &&& forall|id: Seq<char>| #[trigger]
            self.rooms.contains_key(id) && id != room.id ==> self.rooms[id].router != room.router
    }
}

/// Filing a room that the registry admits keeps the registry well formed.
pub proof fn lemma_with_room_wf(registry: RegistryView, room: RoomView)
    requires
        registry.wf(),
        registry.admits(room),
    ensures
        registry.with_room(room).wf(),
{
    let after = registry.with_room(room);
    assert forall|id: Seq<char>| #[trigger] after.rooms.contains_key(id) implies {
        &&& after.rooms[id].id == id
        &&& after.rooms[id].wf()
        &&& after.rooms[id].router < after.next_router
    } by {
        if id != room.id {
            assert(registry.rooms.contains_key(id));
        }
    }
    assert forall|a: Seq<char>, b: Seq<char>|
        #[trigger] after.rooms.contains_key(a) && #[trigger] after.rooms.contains_key(b) && a
            != b implies after.rooms[a].router != after.rooms[b].router by {
        if a != room.id {
            assert(registry.rooms.contains_key(a));
        }
        if b != room.id {
            assert(registry.rooms.contains_key(b));
        }
    }
}

/// Taking a room off the registry keeps the registry well formed.
pub proof fn lemma_remove_wf(registry: RegistryView, id: Seq<char>)
    requires
        registry.wf(),
    ensures
        registry.remove(id).wf(),
{
    let after = registry.remove(id);
    assert forall|k: Seq<char>| #[trigger] after.rooms.contains_key(k) implies {
        &&& after.rooms[k].id == k
        &&& after.rooms[k].wf()
        &&& after.rooms[k].router < after.next_router
    } by {
        assert(registry.rooms.contains_key(k));
    }
    assert forall|a: Seq<char>, b: Seq<char>|
        #[trigger] after.rooms.contains_key(a) && #[trigger] after.rooms.contains_key(b) && a
            != b implies after.rooms[a].router != after.rooms[b].router by {
        assert(registry.rooms.contains_key(a));
        assert(registry.rooms.contains_key(b));
    }
}

/// Registering a new room keeps the registry well formed.
pub proof fn lemma_create_wf(registry: RegistryView, id: Seq<char>, worker: WorkerSet)
    requires
        registry.wf(),
        !registry.rooms.contains_key(id),
        registry.next_router < u64::MAX,
    ensures
        registry.create(id, worker).wf(),
{
    let room = RoomView::fresh(id, registry.next_router, worker);
    let counted = RegistryView { next_router: (registry.next_router + 1) as u64, ..registry };
    assert forall|k: Seq<char>| #[trigger] counted.rooms.contains_key(k) implies {
        &&& counted.rooms[k].id == k
        &&& counted.rooms[k].wf()
        &&& counted.rooms[k].router < counted.next_router
    } by {
        assert(registry.rooms.contains_key(k));
    }
    assert(counted.admits(room)) by {
        assert forall|k: Seq<char>| #[trigger] counted.rooms.contains_key(k) implies counted.rooms[k].router
            != room.router by {
            assert(registry.rooms.contains_key(k));
        }
    }
    lemma_with_room_wf(counted, room);
    assert(registry.create(id, worker) == counted.with_room(room));
}

spec fn has_id(rooms: Seq<Room>, id: Seq<char>) -> bool {
    exists|i: int| 0 <= i < rooms.len() && (#[trigger] rooms[i])@.id == id
}

spec fn index_of_id(rooms: Seq<Room>, id: Seq<char>) -> int {
    choose|i: int| 0 <= i < rooms.len() && (#[trigger] rooms[i])@.id == id
}

spec fn ids_distinct(rooms: Seq<Room>) -> bool {
    forall|i: int, j: int|
        0 <= i < j < rooms.len() ==> (#[trigger] rooms[i])@.id != (#[trigger] rooms[j])@.id
}

spec fn rooms_by_id(rooms: Seq<Room>) -> Map<Seq<char>, RoomView> {
    Map::new(|id: Seq<char>| has_id(rooms, id), |id: Seq<char>| rooms[index_of_id(rooms, id)]@)
}

proof fn lemma_lookup(rooms: Seq<Room>, i: int)
    requires
        ids_distinct(rooms),
        0 <= i < rooms.len(),
    ensures
        has_id(rooms, rooms[i]@.id),
        index_of_id(rooms, rooms[i]@.id) == i,
        rooms_by_id(rooms).contains_key(rooms[i]@.id),
        rooms_by_id(rooms)[rooms[i]@.id] == rooms[i]@,
{
    let id = rooms[i]@.id;
    assert(has_id(rooms, id));
    let found = index_of_id(rooms, id);
    if found < i {
        assert(rooms[found]@.id != rooms[i]@.id);
    }
    if i < found {
        assert(rooms[i]@.id != rooms[found]@.id);
    }
}

proof fn lemma_push(rooms: Seq<Room>, room: Room)
    requires
        ids_distinct(rooms),
        !has_id(rooms, room@.id),
    ensures
        ids_distinct(rooms.push(room)),
        rooms_by_id(rooms.push(room)) == rooms_by_id(rooms).insert(room@.id, room@),
{
    let grown = rooms.push(room);
    assert forall|i: int, j: int| 0 <= i < j < grown.len() implies (#[trigger] grown[i])@.id != (
    #[trigger] grown[j])@.id by {
        if j == rooms.len() {
            assert(rooms[i]@.id != room@.id);
        } else {
            assert(rooms[i]@.id != rooms[j]@.id);
        }
    }
    let before = rooms_by_id(rooms).insert(room@.id, room@);
    let after = rooms_by_id(grown);
    assert forall|id: Seq<char>| before.contains_key(id) <==> after.contains_key(id) by {
        if has_id(rooms, id) {
            let i = index_of_id(rooms, id);
            assert(grown[i]@.id == id);
        }
        if id == room@.id {
            assert(grown[rooms.len() as int]@.id == id);
        }
        if has_id(grown, id) {
            let i = index_of_id(grown, id);
            if i < rooms.len() {
                assert(rooms[i]@.id == id);
            }
        }
    }
    assert forall|id: Seq<char>| after.contains_key(id) implies before[id] == after[id] by {
        let i = index_of_id(grown, id);
        lemma_lookup(grown, i);
        if i < rooms.len() {
            assert(rooms[i]@.id == id);
            lemma_lookup(rooms, i);
        }
    }
    assert(before =~= after);
}

proof fn lemma_remove(rooms: Seq<Room>, i: int)
    requires
        ids_distinct(rooms),
        0 <= i < rooms.len(),
    ensures
        ids_distinct(rooms.remove(i)),
        !has_id(rooms.remove(i), rooms[i]@.id),
        rooms_by_id(rooms.remove(i)) == rooms_by_id(rooms).remove(rooms[i]@.id),
{
    let rest = rooms.remove(i);
    let gone = rooms[i]@.id;
    assert forall|j: int| 0 <= j < rest.len() implies (#[trigger] rest[j]) == rooms[if j < i {
        j
    } else {
        j + 1
    }] by {}
    assert forall|j: int, k: int| 0 <= j < k < rest.len() implies (#[trigger] rest[j])@.id != (
    #[trigger] rest[k])@.id by {
        let a = if j < i { j } else { j + 1 };
        let b = if k < i { k } else { k + 1 };
        assert(rooms[a]@.id != rooms[b]@.id);
    }
    assert forall|j: int| 0 <= j < rest.len() implies (#[trigger] rest[j])@.id != gone by {
        let a = if j < i { j } else { j + 1 };
        if a < i {
            assert(rooms[a]@.id != rooms[i]@.id);
        } else {
            assert(rooms[i]@.id != rooms[a]@.id);
        }
    }
    let before = rooms_by_id(rooms).remove(gone);
    let after = rooms_by_id(rest);
    assert forall|id: Seq<char>| before.contains_key(id) <==> after.contains_key(id) by {
        if has_id(rooms, id) && id != gone {
            let a = index_of_id(rooms, id);
            let j = if a < i { a } else { a - 1 };
            assert(rest[j]@.id == id);
        }
        if has_id(rest, id) {
            let j = index_of_id(rest, id);
            let a = if j < i { j } else { j + 1 };
            assert(rooms[a]@.id == id);
        }
    }
    assert forall|id: Seq<char>| after.contains_key(id) implies before[id] == after[id] by {
        let j = index_of_id(rest, id);
        let a = if j < i { j } else { j + 1 };
        lemma_lookup(rest, j);
        lemma_lookup(rooms, a);
    }
    assert(before =~= after);
}

/// The rooms of one process, one per id.
pub struct RoomOwner {
    rooms: Vec<Room>,
    next_router: u64,
}

impl View for RoomOwner {
    type V = RegistryView;

    closed spec fn view(&self) -> RegistryView {
        RegistryView { rooms: rooms_by_id(self.rooms@), next_router: self.next_router }
    }
}

impl RoomOwner {
    /// The rooms are held one per id, and the registry is well formed as the
    /// contracts see it.
    pub closed spec fn wf(&self) -> bool {
        ids_distinct(self.rooms@) && self@.wf()
    }

    /// A well-formed registry has a well-formed view.
    pub proof fn lemma_wf(&self)
        requires
            self.wf(),
        ensures
            self@.wf(),
    {
    }

    /// A registry without rooms.
    pub fn new() -> (owner: RoomOwner)
        ensures
            owner@ == RegistryView::empty(),
            owner.wf(),
    {
        let owner = RoomOwner { rooms: Vec::new(), next_router: 0 };
        assert(owner@.rooms =~= Map::empty());
        owner
    }

    fn position(&self, id: &String) -> (found: Option<usize>)
        requires
            self.wf(),
        ensures
            match found {
                Some(i) => i < self.rooms@.len() && self.rooms@[i as int]@.id == id@,
                None => !has_id(self.rooms@, id@),
            },
    {
        let mut i: usize = 0;
        while i < self.rooms.len()
            invariant
                i <= self.rooms.len(),
                forall|j: int| 0 <= j < i ==> (#[trigger] self.rooms@[j])@.id != id@,
            decreases self.rooms.len() - i,
        {
            if *self.rooms[i].id() == *id {
                return Some(i);
            }
            i += 1;
        }
        None
    }

    /// The room registered under `id`, if there is one.
    pub fn find_by_id(&self, id: String) -> (found: Option<&Room>)
        requires
            self.wf(),
        ensures
            match found {
                Some(room) => self@.rooms.contains_key(id@) && room@ == self@.rooms[id@],
                None => !self@.rooms.contains_key(id@),
            },
    {
        match self.position(&id) {
            Some(i) => {
                proof {
                    lemma_lookup(self.rooms@, i as int);
                }
                Some(&self.rooms[i])
            },
            None => None,
        }
    }

    /// Registers a new, empty room under `id`, bound to `worker` and to a
    /// router number that no room had before.
    ///
    /// An id that is registered already keeps its room: the call is refused
    /// and nothing changes.
    pub fn create_new_room(&mut self, id: String, worker: WorkerSet) -> (created: Result<
        &Room,
        RegistryError,
    >)
        requires
            old(self).wf(),
        ensures
            final(self).wf(),
            match created {
                Ok(room) => {
                    &&& !old(self)@.rooms.contains_key(id@)
                    &&& old(self)@.next_router < u64::MAX
                    &&& final(self)@ == old(self)@.create(id@, worker)
                    &&& room@ == final(self)@.rooms[id@]
                },
                Err(RegistryError::RoomExists) => {
                    &&& old(self)@.rooms.contains_key(id@)
                    &&& final(self)@ == old(self)@
                },
                Err(RegistryError::RoutersExhausted) => {
                    &&& !old(self)@.rooms.contains_key(id@)
                    &&& old(self)@.next_router == u64::MAX
                    &&& final(self)@ == old(self)@
                },
                Err(RegistryError::NoWorkerAvailable) => false,
            },
    {
        match self.position(&id) {
            Some(i) => {
                proof {
                    lemma_lookup(self.rooms@, i as int);
                }
                return Err(RegistryError::RoomExists);
            },
            None => {},
        }
        if self.next_router == u64::MAX {
            return Err(RegistryError::RoutersExhausted);
        }
        let ghost key = id@;
        let ghost before = self@;
        let room = Room::new(id, self.next_router, worker);
        proof {
            lemma_push(self.rooms@, room);
        }
        self.rooms.push(room);
        self.next_router = self.next_router + 1;
        let last: usize = self.rooms.len() - 1;
        proof {
            lemma_lookup(self.rooms@, last as int);
            lemma_create_wf(before, key, worker);
            assert(self@ == before.create(key, worker));
        }
        Ok(&self.rooms[last])
    }

    /// Takes the room `room_id` off the registry, whatever peers it has.
    pub fn remove_room(&mut self, room_id: String)
        requires
            old(self).wf(),
        ensures
            final(self).wf(),
            final(self)@ == old(self)@.remove(room_id@),
    {
        match self.take_room(&room_id) {
            Some(_) => {},
            None => {
                assert(self@.rooms.remove(room_id@) =~= self@.rooms);
            },
        }
    }

    /// The room `room_id`, for a first or a later joiner, with `offered` as
    /// the worker to put a new room on.
    ///
    /// Finding and registering are one step: a second call for the same id
    /// meets the room that the first one made.
    pub fn find_or_create_with(&mut self, room_id: String, offered: Option<WorkerSet>) -> (found:
        Result<(&Room, bool), RegistryError>)
        requires
            old(self).wf(),
        ensures
            final(self).wf(),
            final(self)@ == old(self)@.find_or_create(room_id@, offered).registry,
            found_view(found) == old(self)@.find_or_create(room_id@, offered).found,
    {
        match self.position(&room_id) {
            Some(i) => {
                proof {
                    lemma_lookup(self.rooms@, i as int);
                }
                return Ok((&self.rooms[i], false));
            },
            None => {},
        }
        let worker = match offered {
            Some(worker) => worker,
            None => {
                return Err(RegistryError::NoWorkerAvailable);
            },
        };
        match self.create_new_room(room_id, worker) {
            Ok(room) => Ok((room, true)),
            Err(error) => Err(error),
        }
    }

    /// The room `room_id`, for a first or a later joiner. A new room is put
    /// on a worker chosen from `pool`.
    ///
    /// The outcome is that of `find_or_create_with` for something the pool
    /// offers: no worker if the pool is empty, otherwise one of its workers.
    pub fn find_or_create(&mut self, room_id: String, pool: &WorkerOwner) -> (found: Result<
        (&Room, bool),
        RegistryError,
    >)
        requires
            old(self).wf(),
        ensures
            final(self).wf(),
            exists|offered: Option<WorkerSet>| #[trigger]
                offers(pool@, offered) && final(self)@ == old(self)@.find_or_create(
                    room_id@,
                    offered,
                ).registry && found_view(found) == old(self)@.find_or_create(
                    room_id@,
                    offered,
                ).found,
    {
        let ghost before = self@;
        match self.position(&room_id) {
            Some(i) => {
                proof {
                    lemma_lookup(self.rooms@, i as int);
                    let any = if pool@.len() == 0 {
                        None
                    } else {
                        Some(pool@[0])
                    };
                    assert(offers(pool@, any));
                    assert(before.find_or_create(room_id@, any).registry == before);
                }
                Ok((&self.rooms[i], false))
            },
            None => {
                let offered = pool.choose_worker();
                self.find_or_create_with(room_id, offered)
            },
        }
    }

    /// Takes the room `id` out of the registry and hands it over.
    pub(crate) fn take_room(&mut self, id: &String) -> (taken: Option<Room>)
        requires
            old(self).wf(),
        ensures
            final(self).wf(),
            match taken {
                Some(room) => {
                    &&& old(self)@.rooms.contains_key(id@)
                    &&& room@ == old(self)@.rooms[id@]
                    &&& final(self)@ == old(self)@.remove(id@)
                },
                None => !old(self)@.rooms.contains_key(id@) && final(self)@ == old(self)@,
            },
    {
        match self.position(id) {
            Some(i) => {
                let ghost before = self@;
                proof {
                    lemma_lookup(self.rooms@, i as int);
                    lemma_remove(self.rooms@, i as int);
                }
                let room = self.rooms.remove(i);
                proof {
                    lemma_remove_wf(before, id@);
                    assert(self@ == before.remove(id@));
                }
                Some(room)
            },
            None => None,
        }
    }

    /// Files `room` under its id.
    pub(crate) fn put_room(&mut self, room: Room)
        requires
            old(self).wf(),
            !old(self)@.rooms.contains_key(room@.id),
            old(self)@.admits(room@),
        ensures
            final(self).wf(),
            final(self)@ == old(self)@.with_room(room@),
    {
        let ghost before = self@;
        proof {
            lemma_push(self.rooms@, room);
        }
        self.rooms.push(room);
        proof {
            lemma_with_room_wf(before, room@);
            assert(self@ == before.with_room(room@));
        }
    }
}

} // verus!
