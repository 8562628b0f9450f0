//! The messages a client sends and receives, the commands a session hands to
//! its driver, and the events the media engine reports back.

use vstd::prelude::*;

verus! {

/// The role of a session description in an offer/answer exchange.
#[derive(Clone, Copy, Debug, PartialEq, Eq, Structural)]
pub enum SdpKind {
    Unspecified,
    Offer,
    Pranswer,
    Answer,
    Rollback,
}

/// A session description as it travels between client and engine.
#[derive(Clone, Debug, PartialEq, Eq)]
pub struct SessionDescription {
    pub kind: SdpKind,
    pub sdp: String,
}

/// An ICE candidate as it travels between client and engine.
#[derive(Clone, Debug, PartialEq, Eq)]
pub struct IceCandidate {
    pub candidate: String,
    pub sdp_mid: Option<String>,
    pub sdp_mline_index: Option<u16>,
    pub username_fragment: Option<String>,
}

/// A message from the client, one per frame.
#[derive(Clone, Debug, PartialEq, Eq)]
pub enum ReceivedMessage {
    Ping,
    PublisherInit,
    SubscriberInit,
    RequestPublish,
    PublisherIce { candidate: IceCandidate },
    SubscriberIce { candidate: IceCandidate },
    Offer { sdp: SessionDescription },
    Subscribe { publisher_id: String },
    Answer { sdp: SessionDescription },
    Publish { track_id: String },
    StopPublish { publisher_id: String },
    StopSubscribe { subscriber_id: String },
    SetPreferredLayer { subscriber_id: String, sid: u8, tid: Option<u8> },
    RestartICE,
}

/// A message to a client.
#[derive(Clone, Debug, PartialEq, Eq)]
pub enum SendingMessage {
    Pong,
    StartAsPublisher,
    Answer { sdp: SessionDescription },
    Offer { sdp: SessionDescription },
    PublisherIce { candidate: IceCandidate },
    SubscriberIce { candidate: IceCandidate },
    Published { publisher_ids: Vec<String> },
    Subscribed { subscriber_id: String },
}

/// What the driver of a session has to do next. Commands are carried out in
/// the order in which they are returned.
#[derive(Clone, Debug, PartialEq, Eq)]
pub enum Command {
    /// Send a message to this session's own client.
    Send(SendingMessage),
    /// Put a message into the outbound channel of another peer. Delivery is
    /// not confirmed.
    Notify { peer: u64, message: SendingMessage },
    /// Have the publish transport report its ICE candidates.
    WatchPublisherIce,
    /// Have the subscribe transport report its ICE candidates.
    WatchSubscriberIce,
    /// Have the subscribe transport report when it needs a new offer.
    WatchNegotiation,
    /// Add a remote candidate to the publish transport.
    AddPublisherIce(IceCandidate),
    /// Add a remote candidate to the subscribe transport.
    AddSubscriberIce(IceCandidate),
    /// Apply the client's offer to the publish transport and get its answer.
    AnswerOffer(SessionDescription),
    /// Apply the client's answer to the subscribe transport.
    SetAnswer(SessionDescription),
    /// Start forwarding the client's track through the publish transport.
    Publish(String),
    /// Start relaying a published track through the subscribe transport.
    Subscribe(String),
    /// Release a publisher of this session.
    ClosePublisher(String),
    /// Release a subscriber of this session.
    CloseSubscriber(String),
    /// Change the layer a subscriber receives.
    SetPreferredLayer { subscriber_id: String, sid: u8, tid: Option<u8> },
    /// Ask the subscribe transport for a fresh ICE description.
    RestartIce,
    /// Close the subscribe transport.
    CloseSubscribeTransport,
    /// Close the publish transport.
    ClosePublishTransport,
    /// Close the router of a room that has no peer left.
    CloseRouter(u64),
}

/// What the media engine reports to a session: candidates and offers it
/// produces on its own, and the outcome of the commands it was given.
#[derive(Clone, Debug, PartialEq, Eq)]
pub enum EngineEvent {
    /// The publish transport found a local candidate.
    PublisherIceCandidate(IceCandidate),
    /// The subscribe transport found a local candidate.
    SubscriberIceCandidate(IceCandidate),
    /// The subscribe transport needs the client to take a new offer.
    NegotiationNeeded(SessionDescription),
    /// The publish transport answered the client's offer.
    Answered(SessionDescription),
    /// A track is now forwarded under the given id.
    Published { track_id: String },
    /// A subscriber was set up; `offer` has to reach the client.
    Subscribed { subscriber_id: String, offer: SessionDescription },
    /// The subscribe transport restarted ICE and produced a new offer.
    IceRestarted(SessionDescription),
    /// A command failed in the engine, or did not come back in time.
    Failed,
}

/// Why a session turned a client message down. The session stays open.
#[derive(Clone, Copy, Debug, PartialEq, Eq, Structural)]
pub enum SessionError {
    /// A subscription was asked for before the client announced itself with
    /// an init message.
    CapabilitiesUnknown,
    /// The session has been torn down.
    Closed,
}

pub struct SessionDescriptionView {
    pub kind: SdpKind,
    pub sdp: Seq<char>,
}

pub struct IceCandidateView {
    pub candidate: Seq<char>,
    pub sdp_mid: Option<Seq<char>>,
    pub sdp_mline_index: Option<u16>,
    pub username_fragment: Option<Seq<char>>,
}

pub enum ReceivedMessageView {
    Ping,
    PublisherInit,
    SubscriberInit,
    RequestPublish,
    PublisherIce { candidate: IceCandidateView },
    SubscriberIce { candidate: IceCandidateView },
    Offer { sdp: SessionDescriptionView },
    Subscribe { publisher_id: Seq<char> },
    Answer { sdp: SessionDescriptionView },
    Publish { track_id: Seq<char> },
    StopPublish { publisher_id: Seq<char> },
    StopSubscribe { subscriber_id: Seq<char> },
    SetPreferredLayer { subscriber_id: Seq<char>, sid: u8, tid: Option<u8> },
    RestartICE,
}

pub enum SendingMessageView {
    Pong,
    StartAsPublisher,
    Answer { sdp: SessionDescriptionView },
    Offer { sdp: SessionDescriptionView },
    PublisherIce { candidate: IceCandidateView },
    SubscriberIce { candidate: IceCandidateView },
    Published { publisher_ids: Seq<Seq<char>> },
    Subscribed { subscriber_id: Seq<char> },
}

pub enum CommandView {
    Send(SendingMessageView),
    Notify { peer: u64, message: SendingMessageView },
    WatchPublisherIce,
    WatchSubscriberIce,
    WatchNegotiation,
    AddPublisherIce(IceCandidateView),
    AddSubscriberIce(IceCandidateView),
    AnswerOffer(SessionDescriptionView),
    SetAnswer(SessionDescriptionView),
    Publish(Seq<char>),
    Subscribe(Seq<char>),
    ClosePublisher(Seq<char>),
    CloseSubscriber(Seq<char>),
    SetPreferredLayer { subscriber_id: Seq<char>, sid: u8, tid: Option<u8> },
    RestartIce,
    CloseSubscribeTransport,
    ClosePublishTransport,
    CloseRouter(u64),
}

pub enum EngineEventView {
    PublisherIceCandidate(IceCandidateView),
    SubscriberIceCandidate(IceCandidateView),
    NegotiationNeeded(SessionDescriptionView),
    Answered(SessionDescriptionView),
    Published { track_id: Seq<char> },
    Subscribed { subscriber_id: Seq<char>, offer: SessionDescriptionView },
    IceRestarted(SessionDescriptionView),
    Failed,
}

impl View for SessionDescription {
    type V = SessionDescriptionView;

    open spec fn view(&self) -> SessionDescriptionView {
        SessionDescriptionView { kind: self.kind, sdp: self.sdp@ }
    }
}

impl View for IceCandidate {
    type V = IceCandidateView;

    open spec fn view(&self) -> IceCandidateView {
        IceCandidateView {
            candidate: self.candidate@,
            sdp_mid: self.sdp_mid.deep_view(),
            sdp_mline_index: self.sdp_mline_index,
            username_fragment: self.username_fragment.deep_view(),
        }
    }
}

impl View for ReceivedMessage {
    type V = ReceivedMessageView;

    open spec fn view(&self) -> ReceivedMessageView {
        match *self {
            ReceivedMessage::Ping => ReceivedMessageView::Ping,
            ReceivedMessage::PublisherInit => ReceivedMessageView::PublisherInit,
            ReceivedMessage::SubscriberInit => ReceivedMessageView::SubscriberInit,
            ReceivedMessage::RequestPublish => ReceivedMessageView::RequestPublish,
            ReceivedMessage::PublisherIce { candidate } => ReceivedMessageView::PublisherIce {
                candidate: candidate@,
            },
            ReceivedMessage::SubscriberIce { candidate } => ReceivedMessageView::SubscriberIce {
                candidate: candidate@,
            },
            ReceivedMessage::Offer { sdp } => ReceivedMessageView::Offer { sdp: sdp@ },
            ReceivedMessage::Subscribe { publisher_id } => ReceivedMessageView::Subscribe {
                publisher_id: publisher_id@,
            },
            ReceivedMessage::Answer { sdp } => ReceivedMessageView::Answer { sdp: sdp@ },
            ReceivedMessage::Publish { track_id } => ReceivedMessageView::Publish {
                track_id: track_id@,
            },
            ReceivedMessage::StopPublish { publisher_id } => ReceivedMessageView::StopPublish {
                publisher_id: publisher_id@,
            },
            ReceivedMessage::StopSubscribe { subscriber_id } => ReceivedMessageView::StopSubscribe {
                subscriber_id: subscriber_id@,
            },
            ReceivedMessage::SetPreferredLayer {
                subscriber_id,
                sid,
                tid,
            } => ReceivedMessageView::SetPreferredLayer { subscriber_id: subscriber_id@, sid, tid },
            ReceivedMessage::RestartICE => ReceivedMessageView::RestartICE,
        }
    }
}

impl View for SendingMessage {
    type V = SendingMessageView;

    open spec fn view(&self) -> SendingMessageView {
        match *self {
            SendingMessage::Pong => SendingMessageView::Pong,
            SendingMessage::StartAsPublisher => SendingMessageView::StartAsPublisher,
            SendingMessage::Answer { sdp } => SendingMessageView::Answer { sdp: sdp@ },
            SendingMessage::Offer { sdp } => SendingMessageView::Offer { sdp: sdp@ },
            SendingMessage::PublisherIce { candidate } => SendingMessageView::PublisherIce {
                candidate: candidate@,
            },
            SendingMessage::SubscriberIce { candidate } => SendingMessageView::SubscriberIce {
                candidate: candidate@,
            },
            SendingMessage::Published { publisher_ids } => SendingMessageView::Published {
                publisher_ids: publisher_ids.deep_view(),
            },
            SendingMessage::Subscribed { subscriber_id } => SendingMessageView::Subscribed {
                subscriber_id: subscriber_id@,
            },
        }
    }
}

impl View for Command {
    type V = CommandView;

    open spec fn view(&self) -> CommandView {
        match *self {
            Command::Send(message) => CommandView::Send(message@),
            Command::Notify { peer, message } => CommandView::Notify { peer, message: message@ },
            Command::WatchPublisherIce => CommandView::WatchPublisherIce,
            Command::WatchSubscriberIce => CommandView::WatchSubscriberIce,
            Command::WatchNegotiation => CommandView::WatchNegotiation,
            Command::AddPublisherIce(candidate) => CommandView::AddPublisherIce(candidate@),
            Command::AddSubscriberIce(candidate) => CommandView::AddSubscriberIce(candidate@),
            Command::AnswerOffer(sdp) => CommandView::AnswerOffer(sdp@),
            Command::SetAnswer(sdp) => CommandView::SetAnswer(sdp@),
            Command::Publish(track_id) => CommandView::Publish(track_id@),
            Command::Subscribe(track_id) => CommandView::Subscribe(track_id@),
            Command::ClosePublisher(publisher_id) => CommandView::ClosePublisher(publisher_id@),
            Command::CloseSubscriber(subscriber_id) => CommandView::CloseSubscriber(subscriber_id@),
            Command::SetPreferredLayer { subscriber_id, sid, tid } => CommandView::SetPreferredLayer {
                subscriber_id: subscriber_id@,
                sid,
                tid,
            },
            Command::RestartIce => CommandView::RestartIce,
            Command::CloseSubscribeTransport => CommandView::CloseSubscribeTransport,
            Command::ClosePublishTransport => CommandView::ClosePublishTransport,
            Command::CloseRouter(router) => CommandView::CloseRouter(router),
        }
    }
}

impl View for EngineEvent {
    type V = EngineEventView;

    open spec fn view(&self) -> EngineEventView {
        match *self {
            EngineEvent::PublisherIceCandidate(candidate) => EngineEventView::PublisherIceCandidate(
                candidate@,
            ),
            EngineEvent::SubscriberIceCandidate(candidate) => EngineEventView::SubscriberIceCandidate(
                candidate@,
            ),
            EngineEvent::NegotiationNeeded(offer) => EngineEventView::NegotiationNeeded(offer@),
            EngineEvent::Answered(answer) => EngineEventView::Answered(answer@),
            EngineEvent::Published { track_id } => EngineEventView::Published { track_id: track_id@ },
            EngineEvent::Subscribed { subscriber_id, offer } => EngineEventView::Subscribed {
                subscriber_id: subscriber_id@,
                offer: offer@,
            },
            EngineEvent::IceRestarted(offer) => EngineEventView::IceRestarted(offer@),
            EngineEvent::Failed => EngineEventView::Failed,
        }
    }
}

/// The views of a list of commands, in order.
pub open spec fn command_views(commands: Seq<Command>) -> Seq<CommandView> {
    Seq::new(commands.len(), |i: int| commands[i]@)
}

} // verus!
