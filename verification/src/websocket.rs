//! The negotiation state machine of one peer connection.
//!
//! A session takes one input at a time: a message from its client, an event
//! from the media engine, or the opening and closing of its connection. Each
//! step is a function of the session, the registry and the input; it returns
//! the commands that the driver of the session carries out.

use crate::message::{
    command_views, Command, CommandView, EngineEvent, EngineEventView, ReceivedMessage,
    ReceivedMessageView, SendingMessage, SendingMessageView, SessionError,
};
use crate::ordered::{
    contains_id, copy_ids, insert_id, lemma_with_member, lemma_without_no_duplicates, remove_id,
    with_member, without,
};
use crate::room::{RegistryView, Room, RoomOwner, RoomView};
use vstd::prelude::*;

verus! {

/// A session as the contracts see it.
///
/// `room` and `router` name the room the session was made for. `publishers`
/// are the ids of the tracks it publishes and `subscribers` the ids of its
/// subscriptions, each in the order in which they were set up.
#[verifier::ext_equal]
pub struct SessionView {
    pub address: u64,
    pub room: Seq<char>,
    pub router: u64,
    pub closed: bool,
    pub capabilities_known: bool,
    pub publishers: Seq<Seq<char>>,
    pub subscribers: Seq<Seq<char>>,
}

/// What a step leaves behind: the session and the registry after it, and the
/// commands to carry out, in order.
#[verifier::ext_equal]
pub struct Outcome {
    pub session: SessionView,
    pub registry: RegistryView,
    pub commands: Seq<CommandView>,
}

impl SessionView {
    /// A session that has just been made for a room.
    pub open spec fn fresh(address: u64, room: Seq<char>, router: u64) -> SessionView {
        SessionView {
            address,
            room,
            router,
            closed: false,
            capabilities_known: false,
            publishers: Seq::empty(),
            subscribers: Seq::empty(),
        }
    }

    /// No id is held twice, and a closed session holds none.
    pub open spec fn wf(self) -> bool {
        &&& self.publishers.no_duplicates()
        &&& self.subscribers.no_duplicates()
        &&& self.closed ==> self.publishers.len() == 0 && self.subscribers.len() == 0
    }

    /// Whether the room this session was made for is still registered.
    pub open spec fn in_live_room(self, registry: RegistryView) -> bool {
        registry.is_live(self.room, self.router)
    }

    /// The session after its connection has gone.
    pub open spec fn torn_down(self) -> SessionView {
        SessionView { closed: true, publishers: Seq::empty(), subscribers: Seq::empty(), ..self }
    }

    /// A step that changes nothing and yields `commands`.
    pub open spec fn yields(self, registry: RegistryView, commands: Seq<CommandView>) -> Outcome {
        Outcome { session: self, registry, commands }
    }

    /// The ids of the tracks published in the session's room; none where the
    /// room is gone.
    pub open spec fn published_around(self, registry: RegistryView) -> Seq<Seq<char>> {
        if self.in_live_room(registry) {
            registry.rooms[self.room].track_ids()
        } else {
            Seq::empty()
        }
    }

    /// The registry after the session has joined its room. Nothing changes
    /// where the session is closed or its room is gone.
    pub open spec fn started(self, registry: RegistryView) -> RegistryView {
        if !self.closed && self.in_live_room(registry) {
            registry.with_room(registry.rooms[self.room].add_user(self.address))
        } else {
            registry
        }
    }

    /// The registry after the session's track `track_id` has gone: the track
    /// is taken off the room's list if the session is the one registered for
    /// it.
    pub open spec fn unpublished(self, registry: RegistryView, track_id: Seq<char>) -> RegistryView {
        if self.in_live_room(registry) && registry.rooms[self.room].owner_of(track_id) == Some(
            self.address,
        ) {
            registry.with_room(registry.rooms[self.room].unregister_publisher(track_id))
        } else {
            registry
        }
    }

    /// The step for a track of this session that the engine now forwards:
    /// the session holds it, the room lists it, and every other peer of the
    /// room is told.
    pub open spec fn published(self, registry: RegistryView, track_id: Seq<char>) -> Outcome {
        let session = SessionView { publishers: with_member(self.publishers, track_id), ..self };
        if self.in_live_room(registry) {
            let room = registry.rooms[self.room];
            Outcome {
                session,
                registry: registry.with_room(room.register_publisher(track_id, self.address)),
                commands: room.new_publisher_notices(self.address, track_id),
            }
        } else {
            Outcome { session, registry, commands: Seq::empty() }
        }
    }

    /// The step for a message from the client.
    ///
    /// A closed session turns every message down. An open one turns down a
    /// subscription that comes before any init message. Stopping a publisher
    /// or a subscriber that the session does not hold, and setting the layer
    /// of such a subscriber, does nothing.
    pub open spec fn handle(self, registry: RegistryView, msg: ReceivedMessageView) -> Result<
        Outcome,
        SessionError,
    > {
        if self.closed {
            Err(SessionError::Closed)
        } else {
            match msg {
                ReceivedMessageView::Ping => Ok(
                    self.yields(registry, seq![CommandView::Send(SendingMessageView::Pong)]),
                ),
                ReceivedMessageView::PublisherInit => Ok(
                    SessionView { capabilities_known: true, ..self }.yields(
                        registry,
                        seq![CommandView::WatchPublisherIce],
                    ),
                ),
                ReceivedMessageView::SubscriberInit => Ok(
                    SessionView { capabilities_known: true, ..self }.yields(
                        registry,
                        seq![
                            CommandView::WatchSubscriberIce,
                            CommandView::WatchNegotiation,
                            CommandView::Send(
                                SendingMessageView::Published {
                                    publisher_ids: self.published_around(registry),
                                },
                            ),
                        ],
                    ),
                ),
                ReceivedMessageView::RequestPublish => Ok(
                    self.yields(
                        registry,
                        seq![CommandView::Send(SendingMessageView::StartAsPublisher)],
                    ),
                ),
                ReceivedMessageView::PublisherIce { candidate } => Ok(
                    self.yields(registry, seq![CommandView::AddPublisherIce(candidate)]),
                ),
                ReceivedMessageView::SubscriberIce { candidate } => Ok(
                    self.yields(registry, seq![CommandView::AddSubscriberIce(candidate)]),
                ),
                ReceivedMessageView::Offer { sdp } => Ok(
                    self.yields(registry, seq![CommandView::AnswerOffer(sdp)]),
                ),
                ReceivedMessageView::Subscribe { publisher_id } => if self.capabilities_known {
                    Ok(self.yields(registry, seq![CommandView::Subscribe(publisher_id)]))
                } else {
                    Err(SessionError::CapabilitiesUnknown)
                },
                ReceivedMessageView::Answer { sdp } => Ok(
                    self.yields(registry, seq![CommandView::SetAnswer(sdp)]),
                ),
                ReceivedMessageView::Publish { track_id } => Ok(
                    self.yields(registry, seq![CommandView::Publish(track_id)]),
                ),
                ReceivedMessageView::StopPublish { publisher_id } => if self.publishers.contains(
                    publisher_id,
                ) {
                    Ok(
                        Outcome {
                            session: SessionView {
                                publishers: without(self.publishers, publisher_id),
                                ..self
                            },
                            registry: self.unpublished(registry, publisher_id),
                            commands: seq![CommandView::ClosePublisher(publisher_id)],
                        },
                    )
                } else {
                    Ok(self.yields(registry, Seq::empty()))
                },
                ReceivedMessageView::StopSubscribe { subscriber_id } => if self.subscribers.contains(
                    subscriber_id,
                ) {
                    Ok(
                        Outcome {
                            session: SessionView {
                                subscribers: without(self.subscribers, subscriber_id),
                                ..self
                            },
                            registry,
                            commands: seq![CommandView::CloseSubscriber(subscriber_id)],
                        },
                    )
                } else {
                    Ok(self.yields(registry, Seq::empty()))
                },
                ReceivedMessageView::SetPreferredLayer {
                    subscriber_id,
                    sid,
                    tid,
                } => if self.subscribers.contains(subscriber_id) {
                    Ok(
                        self.yields(
                            registry,
                            seq![CommandView::SetPreferredLayer { subscriber_id, sid, tid }],
                        ),
                    )
                } else {
                    Ok(self.yields(registry, Seq::empty()))
                },
                ReceivedMessageView::RestartICE => Ok(
                    self.yields(registry, seq![CommandView::RestartIce]),
                ),
            }
        }
    }

    /// The step for an event from the media engine.
    ///
    /// A closed session lets every event pass. A failure in the engine
    /// changes nothing and asks for nothing: the session stays as it was.
    pub open spec fn engine_event(self, registry: RegistryView, event: EngineEventView) -> Outcome {
        if self.closed {
            self.yields(registry, Seq::empty())
        } else {
            match event {
                EngineEventView::PublisherIceCandidate(candidate) => self.yields(
                    registry,
                    seq![CommandView::Send(SendingMessageView::PublisherIce { candidate })],
                ),
                EngineEventView::SubscriberIceCandidate(candidate) => self.yields(
                    registry,
                    seq![CommandView::Send(SendingMessageView::SubscriberIce { candidate })],
                ),
                EngineEventView::NegotiationNeeded(offer) => self.yields(
                    registry,
                    seq![CommandView::Send(SendingMessageView::Offer { sdp: offer })],
                ),
                EngineEventView::Answered(answer) => self.yields(
                    registry,
                    seq![CommandView::Send(SendingMessageView::Answer { sdp: answer })],
                ),
                EngineEventView::Published { track_id } => self.published(registry, track_id),
                EngineEventView::Subscribed { subscriber_id, offer } => Outcome {
                    session: SessionView {
                        subscribers: with_member(self.subscribers, subscriber_id),
                        ..self
                    },
                    registry,
                    commands: seq![
                        CommandView::Send(SendingMessageView::Offer { sdp: offer }),
                        CommandView::Send(SendingMessageView::Subscribed { subscriber_id }),
                    ],
                },
                EngineEventView::IceRestarted(offer) => self.yields(
                    registry,
                    seq![CommandView::Send(SendingMessageView::Offer { sdp: offer })],
                ),
                EngineEventView::Failed => self.yields(registry, Seq::empty()),
            }
        }
    }

    /// The room of the session once the session has left it: without the
    /// session's tracks and without the session among its peers.
    pub open spec fn room_left(self, registry: RegistryView) -> RoomView {
        registry.rooms[self.room].release_publishers(self.address).remove_user(self.address)
    }

    /// Whether the session's leaving empties its room.
    pub open spec fn leaves_room_empty(self, registry: RegistryView) -> bool {
        self.in_live_room(registry) && self.room_left(registry).users.len() == 0
    }

    /// The step for the end of the connection.
    ///
    /// The first time, both transports are closed and the session leaves its
    /// room; a room that is left without peers is taken off the registry and
    /// its router is closed. Any later time nothing happens.
    pub open spec fn stopped(self, registry: RegistryView) -> Outcome {
        if self.closed {
            self.yields(registry, Seq::empty())
        } else if !self.in_live_room(registry) {
            Outcome {
                session: self.torn_down(),
                registry,
                commands: seq![
                    CommandView::CloseSubscribeTransport,
                    CommandView::ClosePublishTransport,
                ],
            }
        } else if self.leaves_room_empty(registry) {
            Outcome {
                session: self.torn_down(),
                registry: registry.remove(self.room),
                commands: seq![
                    CommandView::CloseSubscribeTransport,
                    CommandView::ClosePublishTransport,
                    CommandView::CloseRouter(self.router),
                ],
            }
        } else {
            Outcome {
                session: self.torn_down(),
                registry: registry.with_room(self.room_left(registry)),
                commands: seq![
                    CommandView::CloseSubscribeTransport,
                    CommandView::ClosePublishTransport,
                ],
            }
        }
    }
}

/// A list of one command.
fn one(command: Command) -> (commands: Vec<Command>)
    ensures
        command_views(commands@) == seq![command@],
{
    let mut commands: Vec<Command> = Vec::new();
    commands.push(command);
    assert(command_views(commands@) =~= seq![command@]);
    commands
}

/// A list of no command.
fn none() -> (commands: Vec<Command>)
    ensures
        command_views(commands@) == Seq::<CommandView>::empty(),
{
    let commands: Vec<Command> = Vec::new();
    assert(command_views(commands@) =~= Seq::<CommandView>::empty());
    commands
}

/// The state of one peer connection.
pub struct WebSocket {
    address: u64,
    room: String,
    router: u64,
    closed: bool,
    capabilities_known: bool,
    publishers: Vec<String>,
    subscribers: Vec<String>,
}

impl View for WebSocket {
    type V = SessionView;

    closed spec fn view(&self) -> SessionView {
        SessionView {
            address: self.address,
            room: self.room@,
            router: self.router,
            closed: self.closed,
            capabilities_known: self.capabilities_known,
            publishers: self.publishers.deep_view(),
            subscribers: self.subscribers.deep_view(),
        }
    }
}

impl WebSocket {
    /// The session of the peer `address` for `room`. It has not joined the
    /// room yet.
    pub fn new(room: &Room, address: u64) -> (session: WebSocket)
        ensures
            session@ == SessionView::fresh(address, room@.id, room@.router),
            session@.wf(),
    {
        let session = WebSocket {
            address,
            room: room.id().clone(),
            router: room.router(),
            closed: false,
            capabilities_known: false,
            publishers: Vec::new(),
            subscribers: Vec::new(),
        };
        assert(session@.publishers =~= Seq::<Seq<char>>::empty());
        assert(session@.subscribers =~= Seq::<Seq<char>>::empty());
        session
    }

    /// The address under which the session is a peer of its room.
    pub fn address(&self) -> (address: u64)
        ensures
            address == self@.address,
    {
        self.address
    }

    /// The id of the room the session was made for.
    pub fn room_id(&self) -> (id: &String)
        ensures
            id@ == self@.room,
    {
        &self.room
    }

    /// The router number of the room the session was made for.
    pub fn router(&self) -> (router: u64)
        ensures
            router == self@.router,
    {
        self.router
    }

    /// Whether the session has been torn down.
    pub fn is_closed(&self) -> (closed: bool)
        ensures
            closed == self@.closed,
    {
        self.closed
    }

    /// Whether the client has announced itself with an init message.
    pub fn capabilities_known(&self) -> (known: bool)
        ensures
            known == self@.capabilities_known,
    {
        self.capabilities_known
    }

    /// The ids of the tracks this session publishes.
    pub fn publisher_ids(&self) -> (ids: Vec<String>)
        ensures
            ids.deep_view() == self@.publishers,
    {
        copy_ids(&self.publishers)
    }

    /// The ids of this session's subscriptions.
    pub fn subscriber_ids(&self) -> (ids: Vec<String>)
        ensures
            ids.deep_view() == self@.subscribers,
    {
        copy_ids(&self.subscribers)
    }

    /// The connection is open: the session joins its room.
    ///
    /// Returns whether it did. It does not where the session is closed, or
    /// where its room has been taken off the registry in the meantime.
    pub fn started(&self, owner: &mut RoomOwner) -> (joined: bool)
        requires
            old(owner).wf(),
        ensures
            final(owner).wf(),
            final(owner)@ == self@.started(old(owner)@),
            joined == (!self@.closed && self@.in_live_room(old(owner)@)),
    {
        if self.closed {
            return false;
        }
        proof {
            owner.lemma_wf();
        }
        let ghost before = owner@;
        match owner.take_room(&self.room) {
            Some(mut room) => {
                let live: bool = room.router() == self.router;
                if live {
                    room.add_user(self.address);
                }
                owner.put_room(room);
                assert(owner@.rooms =~= self@.started(before).rooms);
                live
            },
            None => false,
        }
    }

    /// The ids of the tracks published in the session's room.
    fn published_around(&self, owner: &RoomOwner) -> (ids: Vec<String>)
        requires
            owner.wf(),
        ensures
            ids.deep_view() == self@.published_around(owner@),
    {
        match owner.find_by_id(self.room.clone()) {
            Some(room) => {
                if room.router() == self.router {
                    return room.publisher_ids();
                }
            },
            None => {},
        }
        let ids: Vec<String> = Vec::new();
        assert(ids.deep_view() =~= Seq::<Seq<char>>::empty());
        ids
    }

    /// Takes the session's track off its room's list.
    fn unpublish(&self, owner: &mut RoomOwner, track_id: &String)
        requires
            old(owner).wf(),
        ensures
            final(owner).wf(),
            final(owner)@ == self@.unpublished(old(owner)@, track_id@),
    {
        proof {
            owner.lemma_wf();
        }
        let ghost before = owner@;
        match owner.take_room(&self.room) {
            Some(mut room) => {
                if room.router() == self.router {
                    let registered = room.publisher_of(track_id);
                    if registered == Some(self.address) {
                        room.unregister_publisher(track_id);
                    }
                }
                owner.put_room(room);
                assert(owner@.rooms =~= self@.unpublished(before, track_id@).rooms);
            },
            None => {},
        }
    }

    /// Lists the session's track in its room and tells the other peers.
    fn publish(&self, owner: &mut RoomOwner, track_id: &String) -> (notices: Vec<Command>)
        requires
            old(owner).wf(),
        ensures
            final(owner).wf(),
            final(owner)@ == self@.published(old(owner)@, track_id@).registry,
            command_views(notices@) == self@.published(old(owner)@, track_id@).commands,
    {
        proof {
            owner.lemma_wf();
        }
        let ghost before = owner@;
        match owner.take_room(&self.room) {
            Some(mut room) => {
                let notices = if room.router() == self.router {
                    let notices = room.broadcast_new_publisher(self.address, track_id);
                    room.register_publisher(track_id.clone(), self.address);
                    notices
                } else {
                    none()
                };
                owner.put_room(room);
                assert(owner@.rooms =~= self@.published(before, track_id@).registry.rooms);
                notices
            },
            None => none(),
        }
    }

    /// Takes the session out of its room, and the room off the registry if
    /// nobody is left in it. Returns whether the room went.
    fn leave(&self, owner: &mut RoomOwner) -> (emptied: bool)
        requires
            old(owner).wf(),
        ensures
            final(owner).wf(),
            emptied == self@.leaves_room_empty(old(owner)@),
            final(owner)@ == if !self@.in_live_room(old(owner)@) {
                old(owner)@
            } else if emptied {
                old(owner)@.remove(self@.room)
            } else {
                old(owner)@.with_room(self@.room_left(old(owner)@))
            },
    {
        proof {
            owner.lemma_wf();
        }
        let ghost before = owner@;
        match owner.take_room(&self.room) {
            Some(mut room) => {
                if room.router() != self.router {
                    owner.put_room(room);
                    assert(owner@.rooms =~= before.rooms);
                    return false;
                }
                room.release_publishers(self.address);
                let remaining: usize = room.remove_user(self.address);
                if remaining == 0 {
                    true
                } else {
                    owner.put_room(room);
                    assert(owner@.rooms =~= before.with_room(self@.room_left(before)).rooms);
                    false
                }
            },
            None => false,
        }
    }

    /// Takes one message from the client.
    ///
    /// The commands returned are to be carried out in order. A message that
    /// is turned down leaves the session and the registry as they were.
    pub fn handle(&mut self, owner: &mut RoomOwner, msg: ReceivedMessage) -> (result: Result<
        Vec<Command>,
        SessionError,
    >)
        requires
            old(owner).wf(),
        ensures
            final(owner).wf(),
            old(self)@.wf() ==> final(self)@.wf(),
            match result {
                Ok(commands) => {
                    let step = old(self)@.handle(old(owner)@, msg@);
                    &&& step is Ok
                    &&& final(self)@ == step->Ok_0.session
                    &&& final(owner)@ == step->Ok_0.registry
                    &&& command_views(commands@) == step->Ok_0.commands
                },
                Err(error) => {
                    &&& old(self)@.handle(old(owner)@, msg@) == Err::<Outcome, SessionError>(error)
                    &&& final(self)@ == old(self)@
                    &&& final(owner)@ == old(owner)@
                },
            },
            !old(self)@.closed && !old(self)@.capabilities_known && msg is Subscribe ==> {
                &&& result matches Err(SessionError::CapabilitiesUnknown)
                &&& final(self)@.subscribers == old(self)@.subscribers
            },
            msg matches ReceivedMessage::StopPublish { publisher_id }
                && !old(self)@.publishers.contains(publisher_id@) ==> {
                &&& final(self)@ == old(self)@
                &&& final(owner)@ == old(owner)@
                &&& result matches Ok(commands) ==> commands@.len() == 0
            },
            msg matches ReceivedMessage::StopSubscribe { subscriber_id }
                && !old(self)@.subscribers.contains(subscriber_id@) ==> {
                &&& final(self)@ == old(self)@
                &&& final(owner)@ == old(owner)@
                &&& result matches Ok(commands) ==> commands@.len() == 0
            },
    {
        if self.closed {
            return Err(SessionError::Closed);
        }
        let commands = match msg {
            ReceivedMessage::Ping => one(Command::Send(SendingMessage::Pong)),
            ReceivedMessage::PublisherInit => {
                self.capabilities_known = true;
                one(Command::WatchPublisherIce)
            },
            ReceivedMessage::SubscriberInit => {
                self.capabilities_known = true;
                let publisher_ids = self.published_around(owner);
                let mut commands: Vec<Command> = Vec::new();
                commands.push(Command::WatchSubscriberIce);
                commands.push(Command::WatchNegotiation);
                commands.push(Command::Send(SendingMessage::Published { publisher_ids }));
                assert(command_views(commands@) =~= seq![
                    CommandView::WatchSubscriberIce,
                    CommandView::WatchNegotiation,
                    CommandView::Send(
                        SendingMessageView::Published {
                            publisher_ids: old(self)@.published_around(old(owner)@),
                        },
                    ),
                ]);
                commands
            },
            ReceivedMessage::RequestPublish => one(Command::Send(SendingMessage::StartAsPublisher)),
            ReceivedMessage::PublisherIce { candidate } => one(Command::AddPublisherIce(candidate)),
            ReceivedMessage::SubscriberIce { candidate } => one(
                Command::AddSubscriberIce(candidate),
            ),
            ReceivedMessage::Offer { sdp } => one(Command::AnswerOffer(sdp)),
            ReceivedMessage::Subscribe { publisher_id } => {
                if !self.capabilities_known {
                    return Err(SessionError::CapabilitiesUnknown);
                }
                one(Command::Subscribe(publisher_id))
            },
            ReceivedMessage::Answer { sdp } => one(Command::SetAnswer(sdp)),
            ReceivedMessage::Publish { track_id } => one(Command::Publish(track_id)),
            ReceivedMessage::StopPublish { publisher_id } => {
                if contains_id(&self.publishers, &publisher_id) {
                    proof {
                        lemma_without_no_duplicates(self@.publishers, publisher_id@);
                    }
                    remove_id(&mut self.publishers, &publisher_id);
                    self.unpublish(owner, &publisher_id);
                    one(Command::ClosePublisher(publisher_id))
                } else {
                    none()
                }
            },
            ReceivedMessage::StopSubscribe { subscriber_id } => {
                if contains_id(&self.subscribers, &subscriber_id) {
                    proof {
                        lemma_without_no_duplicates(self@.subscribers, subscriber_id@);
                    }
                    remove_id(&mut self.subscribers, &subscriber_id);
                    one(Command::CloseSubscriber(subscriber_id))
                } else {
                    none()
                }
            },
            ReceivedMessage::SetPreferredLayer { subscriber_id, sid, tid } => {
                if contains_id(&self.subscribers, &subscriber_id) {
                    one(Command::SetPreferredLayer { subscriber_id, sid, tid })
                } else {
                    none()
                }
            },
            ReceivedMessage::RestartICE => one(Command::RestartIce),
        };
        Ok(commands)
    }

    /// Takes one event from the media engine.
    pub fn engine_event(&mut self, owner: &mut RoomOwner, event: EngineEvent) -> (commands: Vec<
        Command,
    >)
        requires
            old(owner).wf(),
        ensures
            final(owner).wf(),
            old(self)@.wf() ==> final(self)@.wf(),
            final(self)@ == old(self)@.engine_event(old(owner)@, event@).session,
            final(owner)@ == old(self)@.engine_event(old(owner)@, event@).registry,
            command_views(commands@) == old(self)@.engine_event(old(owner)@, event@).commands,
    {
        if self.closed {
            return none();
        }
        match event {
            EngineEvent::PublisherIceCandidate(candidate) => one(
                Command::Send(SendingMessage::PublisherIce { candidate }),
            ),
            EngineEvent::SubscriberIceCandidate(candidate) => one(
                Command::Send(SendingMessage::SubscriberIce { candidate }),
            ),
            EngineEvent::NegotiationNeeded(offer) => one(
                Command::Send(SendingMessage::Offer { sdp: offer }),
            ),
            EngineEvent::Answered(answer) => one(Command::Send(SendingMessage::Answer { sdp: answer })),
            EngineEvent::Published { track_id } => {
                proof {
                    lemma_with_member(self@.publishers, track_id@);
                }
                let notices = self.publish(owner, &track_id);
                insert_id(&mut self.publishers, track_id);
                notices
            },
            EngineEvent::Subscribed { subscriber_id, offer } => {
                proof {
                    lemma_with_member(self@.subscribers, subscriber_id@);
                }
                let mut commands: Vec<Command> = Vec::new();
                commands.push(Command::Send(SendingMessage::Offer { sdp: offer }));
                commands.push(
                    Command::Send(SendingMessage::Subscribed { subscriber_id: subscriber_id.clone() }),
                );
                assert(command_views(commands@) =~= seq![
                    CommandView::Send(SendingMessageView::Offer { sdp: offer@ }),
                    CommandView::Send(
                        SendingMessageView::Subscribed { subscriber_id: subscriber_id@ },
                    ),
                ]);
                insert_id(&mut self.subscribers, subscriber_id);
                commands
            },
            EngineEvent::IceRestarted(offer) => one(
                Command::Send(SendingMessage::Offer { sdp: offer }),
            ),
            EngineEvent::Failed => none(),
        }
    }

    /// The connection has gone: the session is torn down.
    ///
    /// The commands returned close what the session held. The session can be
    /// stopped again, and nothing is closed twice.
    pub fn stopped(&mut self, owner: &mut RoomOwner) -> (commands: Vec<Command>)
        requires
            old(owner).wf(),
        ensures
            final(owner).wf(),
            old(self)@.wf() ==> final(self)@.wf(),
            final(self)@ == old(self)@.stopped(old(owner)@).session,
            final(owner)@ == old(self)@.stopped(old(owner)@).registry,
            command_views(commands@) == old(self)@.stopped(old(owner)@).commands,
    {
        if self.closed {
            return none();
        }
        let emptied = self.leave(owner);
        self.closed = true;
        self.publishers = Vec::new();
        self.subscribers = Vec::new();
        assert(self@.publishers =~= Seq::<Seq<char>>::empty());
        assert(self@.subscribers =~= Seq::<Seq<char>>::empty());
        let mut commands: Vec<Command> = Vec::new();
        commands.push(Command::CloseSubscribeTransport);
        commands.push(Command::ClosePublishTransport);
        if emptied {
            commands.push(Command::CloseRouter(self.router));
            assert(command_views(commands@) =~= seq![
                CommandView::CloseSubscribeTransport,
                CommandView::ClosePublishTransport,
                CommandView::CloseRouter(self.router),
            ]);
        } else {
            assert(command_views(commands@) =~= seq![
                CommandView::CloseSubscribeTransport,
                CommandView::ClosePublishTransport,
            ]);
        }
        commands
    }
}

/// Why a socket is being closed.
#[derive(Clone, Debug, PartialEq, Eq)]
pub struct CloseReason {
    pub code: u16,
    pub description: Option<String>,
}

/// A frame that arrived on the socket.
#[derive(Clone, Debug, PartialEq, Eq)]
pub enum Frame {
    Ping(Vec<u8>),
    Pong(Vec<u8>),
    Text(String),
    Binary(Vec<u8>),
    Close(Option<CloseReason>),
    /// Any other frame.
    Other,
}

/// What to do about a frame.
#[derive(Clone, Debug, PartialEq, Eq)]
pub enum FrameReply {
    /// Answer a ping with its own payload.
    Pong(Vec<u8>),
    /// Read the text as a client message and hand it to the session. A text
    /// that is no client message is dropped.
    Decode(String),
    /// Send the bytes back.
    Binary(Vec<u8>),
    /// Close the socket for the reason the peer gave.
    Close(Option<CloseReason>),
    Nothing,
}

/// The reply to a frame: a ping is answered, a text is to be read as a
/// client message, binary data is echoed, a close is followed, and anything
/// else is let pass.
pub open spec fn reply_to(frame: Frame) -> FrameReply {
    match frame {
        Frame::Ping(payload) => FrameReply::Pong(payload),
        Frame::Pong(_) => FrameReply::Nothing,
        Frame::Text(text) => FrameReply::Decode(text),
        Frame::Binary(bytes) => FrameReply::Binary(bytes),
        Frame::Close(reason) => FrameReply::Close(reason),
        Frame::Other => FrameReply::Nothing,
    }
}

/// Decides what to do about a frame from the socket.
pub fn on_frame(frame: Frame) -> (reply: FrameReply)
    ensures
        reply == reply_to(frame),
{
    match frame {
        Frame::Ping(payload) => FrameReply::Pong(payload),
        Frame::Pong(_) => FrameReply::Nothing,
        Frame::Text(text) => FrameReply::Decode(text),
        Frame::Binary(bytes) => FrameReply::Binary(bytes),
        Frame::Close(reason) => FrameReply::Close(reason),
        Frame::Other => FrameReply::Nothing,
    }
}

} // verus!
