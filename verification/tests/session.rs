use sfu_server::message::{
    Command, EngineEvent, IceCandidate, ReceivedMessage, SdpKind, SendingMessage, SessionDescription,
    SessionError,
};
use sfu_server::room::RoomOwner;
use sfu_server::websocket::{on_frame, CloseReason, Frame, FrameReply, WebSocket};
use sfu_server::worker::WorkerSet;

const WORKER: WorkerSet = WorkerSet { slot: 0, port: 31300 };

fn join(owner: &mut RoomOwner, room_id: &str, address: u64) -> WebSocket {
    let session = {
        let (room, _) = owner.find_or_create_with(room_id.to_string(), Some(WORKER)).unwrap();
        WebSocket::new(room, address)
    };
    assert!(session.started(owner));
    session
}

fn candidate(text: &str) -> IceCandidate {
    IceCandidate {
        candidate: text.to_string(),
        sdp_mid: Some("0".to_string()),
        sdp_mline_index: Some(0),
        username_fragment: None,
    }
}

fn offer(text: &str) -> SessionDescription {
    SessionDescription { kind: SdpKind::Offer, sdp: text.to_string() }
}

fn answer(text: &str) -> SessionDescription {
    SessionDescription { kind: SdpKind::Answer, sdp: text.to_string() }
}

fn listed(ids: &[&str]) -> Vec<Command> {
    vec![
        Command::WatchSubscriberIce,
        Command::WatchNegotiation,
        Command::Send(SendingMessage::Published {
            publisher_ids: ids.iter().map(|id| id.to_string()).collect(),
        }),
    ]
}

fn peers_of(owner: &RoomOwner, room_id: &str) -> Vec<u64> {
    owner.find_by_id(room_id.to_string()).unwrap().get_peers(u64::MAX)
}

fn tracks_of(owner: &RoomOwner, room_id: &str) -> Vec<String> {
    owner.find_by_id(room_id.to_string()).unwrap().publisher_ids()
}

#[test]
fn new_session_is_open_and_holds_nothing() {
    let mut owner = RoomOwner::new();
    let session = {
        let (room, _) = owner.find_or_create_with("room1".to_string(), Some(WORKER)).unwrap();
        WebSocket::new(room, 7)
    };
    assert_eq!(session.address(), 7);
    assert_eq!(session.room_id(), "room1");
    assert_eq!(session.router(), 0);
    assert!(!session.is_closed());
    assert_eq!(session.publisher_ids(), Vec::<String>::new());
    assert_eq!(session.subscriber_ids(), Vec::<String>::new());
    assert_eq!(peers_of(&owner, "room1"), Vec::<u64>::new());
}

#[test]
fn started_session_is_a_peer_of_its_room() {
    let mut owner = RoomOwner::new();
    let a = join(&mut owner, "room1", 1);
    let _b = join(&mut owner, "room1", 2);
    assert_eq!(peers_of(&owner, "room1"), vec![1, 2]);
    assert!(a.started(&mut owner));
    assert_eq!(peers_of(&owner, "room1"), vec![1, 2]);
}

#[test]
fn session_of_a_removed_room_does_not_join() {
    let mut owner = RoomOwner::new();
    let stale = {
        let (room, _) = owner.find_or_create_with("room1".to_string(), Some(WORKER)).unwrap();
        WebSocket::new(room, 1)
    };
    owner.remove_room("room1".to_string());
    assert!(!stale.started(&mut owner));
    owner.find_or_create_with("room1".to_string(), Some(WORKER)).unwrap();
    assert!(!stale.started(&mut owner));
    assert_eq!(peers_of(&owner, "room1"), Vec::<u64>::new());
}

#[test]
fn ping_is_answered_with_pong() {
    let mut owner = RoomOwner::new();
    let mut session = join(&mut owner, "room1", 1);
    assert_eq!(
        session.handle(&mut owner, ReceivedMessage::Ping),
        Ok(vec![Command::Send(SendingMessage::Pong)])
    );
}

#[test]
fn request_publish_is_answered_with_start() {
    let mut owner = RoomOwner::new();
    let mut session = join(&mut owner, "room1", 1);
    assert_eq!(
        session.handle(&mut owner, ReceivedMessage::RequestPublish),
        Ok(vec![Command::Send(SendingMessage::StartAsPublisher)])
    );
}

#[test]
fn publisher_init_watches_the_publish_transport() {
    let mut owner = RoomOwner::new();
    let mut session = join(&mut owner, "room1", 1);
    assert_eq!(
        session.handle(&mut owner, ReceivedMessage::PublisherInit),
        Ok(vec![Command::WatchPublisherIce])
    );
}

#[test]
fn subscriber_init_lists_what_is_published() {
    let mut owner = RoomOwner::new();
    let mut a = join(&mut owner, "room1", 1);
    let mut b = join(&mut owner, "room1", 2);
    assert_eq!(b.handle(&mut owner, ReceivedMessage::SubscriberInit), Ok(listed(&[])));
    a.engine_event(&mut owner, EngineEvent::Published { track_id: "t1".to_string() });
    a.engine_event(&mut owner, EngineEvent::Published { track_id: "t2".to_string() });
    assert_eq!(b.handle(&mut owner, ReceivedMessage::SubscriberInit), Ok(listed(&["t1", "t2"])));
    assert_eq!(a.handle(&mut owner, ReceivedMessage::SubscriberInit), Ok(listed(&["t1", "t2"])));
}

#[test]
fn candidates_and_descriptions_go_to_the_engine() {
    let mut owner = RoomOwner::new();
    let mut session = join(&mut owner, "room1", 1);
    assert_eq!(
        session.handle(&mut owner, ReceivedMessage::PublisherIce { candidate: candidate("c1") }),
        Ok(vec![Command::AddPublisherIce(candidate("c1"))])
    );
    assert_eq!(
        session.handle(&mut owner, ReceivedMessage::SubscriberIce { candidate: candidate("c2") }),
        Ok(vec![Command::AddSubscriberIce(candidate("c2"))])
    );
    assert_eq!(
        session.handle(&mut owner, ReceivedMessage::Offer { sdp: offer("o") }),
        Ok(vec![Command::AnswerOffer(offer("o"))])
    );
    assert_eq!(
        session.handle(&mut owner, ReceivedMessage::Answer { sdp: answer("a") }),
        Ok(vec![Command::SetAnswer(answer("a"))])
    );
    assert_eq!(session.handle(&mut owner, ReceivedMessage::RestartICE), Ok(vec![Command::RestartIce]));
}

#[test]
fn engine_reports_go_to_the_client() {
    let mut owner = RoomOwner::new();
    let mut session = join(&mut owner, "room1", 1);
    assert_eq!(
        session.engine_event(&mut owner, EngineEvent::PublisherIceCandidate(candidate("c1"))),
        vec![Command::Send(SendingMessage::PublisherIce { candidate: candidate("c1") })]
    );
    assert_eq!(
        session.engine_event(&mut owner, EngineEvent::SubscriberIceCandidate(candidate("c2"))),
        vec![Command::Send(SendingMessage::SubscriberIce { candidate: candidate("c2") })]
    );
    assert_eq!(
        session.engine_event(&mut owner, EngineEvent::NegotiationNeeded(offer("n"))),
        vec![Command::Send(SendingMessage::Offer { sdp: offer("n") })]
    );
    assert_eq!(
        session.engine_event(&mut owner, EngineEvent::Answered(answer("a"))),
        vec![Command::Send(SendingMessage::Answer { sdp: answer("a") })]
    );
    assert_eq!(
        session.engine_event(&mut owner, EngineEvent::IceRestarted(offer("r"))),
        vec![Command::Send(SendingMessage::Offer { sdp: offer("r") })]
    );
}

#[test]
fn subscribe_before_init_is_refused() {
    let mut owner = RoomOwner::new();
    let mut session = join(&mut owner, "room1", 1);
    assert_eq!(
        session.handle(&mut owner, ReceivedMessage::Subscribe { publisher_id: "t1".to_string() }),
        Err(SessionError::CapabilitiesUnknown)
    );
    assert_eq!(session.subscriber_ids(), Vec::<String>::new());
    assert!(!session.is_closed());
    assert_eq!(peers_of(&owner, "room1"), vec![1]);
}

#[test]
fn subscribe_after_subscriber_init_reaches_the_engine() {
    let mut owner = RoomOwner::new();
    let mut session = join(&mut owner, "room1", 1);
    assert!(!session.capabilities_known());
    session.handle(&mut owner, ReceivedMessage::SubscriberInit).unwrap();
    assert!(session.capabilities_known());
    assert_eq!(
        session.handle(&mut owner, ReceivedMessage::Subscribe { publisher_id: "t1".to_string() }),
        Ok(vec![Command::Subscribe("t1".to_string())])
    );
    assert_eq!(session.subscriber_ids(), Vec::<String>::new());
}

#[test]
fn subscribe_after_publisher_init_reaches_the_engine() {
    let mut owner = RoomOwner::new();
    let mut session = join(&mut owner, "room1", 1);
    session.handle(&mut owner, ReceivedMessage::PublisherInit).unwrap();
    assert_eq!(
        session.handle(&mut owner, ReceivedMessage::Subscribe { publisher_id: "t1".to_string() }),
        Ok(vec![Command::Subscribe("t1".to_string())])
    );
}

#[test]
fn subscribed_sends_offer_then_subscriber_id() {
    let mut owner = RoomOwner::new();
    let mut session = join(&mut owner, "room1", 1);
    assert_eq!(
        session.engine_event(
            &mut owner,
            EngineEvent::Subscribed { subscriber_id: "s1".to_string(), offer: offer("o") }
        ),
        vec![
            Command::Send(SendingMessage::Offer { sdp: offer("o") }),
            Command::Send(SendingMessage::Subscribed { subscriber_id: "s1".to_string() }),
        ]
    );
    assert_eq!(session.subscriber_ids(), vec!["s1"]);
}

#[test]
fn publish_request_only_reaches_the_engine() {
    let mut owner = RoomOwner::new();
    let mut session = join(&mut owner, "room1", 1);
    assert_eq!(
        session.handle(&mut owner, ReceivedMessage::Publish { track_id: "t1".to_string() }),
        Ok(vec![Command::Publish("t1".to_string())])
    );
    assert_eq!(session.publisher_ids(), Vec::<String>::new());
    assert_eq!(tracks_of(&owner, "room1"), Vec::<String>::new());
}

#[test]
fn published_track_is_held_listed_and_announced() {
    let mut owner = RoomOwner::new();
    let mut a = join(&mut owner, "room1", 1);
    let _b = join(&mut owner, "room1", 2);
    let _c = join(&mut owner, "room1", 3);
    let _elsewhere = join(&mut owner, "room2", 4);
    let notice = |peer| Command::Notify {
        peer,
        message: SendingMessage::Published { publisher_ids: vec!["t1".to_string()] },
    };
    assert_eq!(
        a.engine_event(&mut owner, EngineEvent::Published { track_id: "t1".to_string() }),
        vec![notice(2), notice(3)]
    );
    assert_eq!(a.publisher_ids(), vec!["t1"]);
    assert_eq!(tracks_of(&owner, "room1"), vec!["t1"]);
    assert_eq!(tracks_of(&owner, "room2"), Vec::<String>::new());
    assert_eq!(
        owner.find_by_id("room1".to_string()).unwrap().publisher_of(&"t1".to_string()),
        Some(1)
    );
}

#[test]
fn published_track_is_listed_until_stopped() {
    let mut owner = RoomOwner::new();
    let mut a = join(&mut owner, "room1", 1);
    let mut b = join(&mut owner, "room1", 2);
    a.handle(&mut owner, ReceivedMessage::Publish { track_id: "t1".to_string() }).unwrap();
    a.engine_event(&mut owner, EngineEvent::Published { track_id: "t1".to_string() });
    assert_eq!(b.handle(&mut owner, ReceivedMessage::SubscriberInit), Ok(listed(&["t1"])));
    assert_eq!(
        a.handle(&mut owner, ReceivedMessage::StopPublish { publisher_id: "t1".to_string() }),
        Ok(vec![Command::ClosePublisher("t1".to_string())])
    );
    assert_eq!(a.publisher_ids(), Vec::<String>::new());
    assert_eq!(b.handle(&mut owner, ReceivedMessage::SubscriberInit), Ok(listed(&[])));
    let mut c = join(&mut owner, "room1", 3);
    assert_eq!(c.handle(&mut owner, ReceivedMessage::SubscriberInit), Ok(listed(&[])));
}

#[test]
fn stop_publish_of_unknown_id_does_nothing() {
    let mut owner = RoomOwner::new();
    let mut a = join(&mut owner, "room1", 1);
    let mut b = join(&mut owner, "room1", 2);
    a.engine_event(&mut owner, EngineEvent::Published { track_id: "t1".to_string() });
    assert_eq!(
        a.handle(&mut owner, ReceivedMessage::StopPublish { publisher_id: "t9".to_string() }),
        Ok(Vec::new())
    );
    assert_eq!(
        b.handle(&mut owner, ReceivedMessage::StopPublish { publisher_id: "t1".to_string() }),
        Ok(Vec::new())
    );
    assert_eq!(a.publisher_ids(), vec!["t1"]);
    assert_eq!(b.publisher_ids(), Vec::<String>::new());
    assert_eq!(tracks_of(&owner, "room1"), vec!["t1"]);
    assert_eq!(peers_of(&owner, "room1"), vec![1, 2]);
}

#[test]
fn stop_publish_twice_closes_once() {
    let mut owner = RoomOwner::new();
    let mut a = join(&mut owner, "room1", 1);
    a.engine_event(&mut owner, EngineEvent::Published { track_id: "t1".to_string() });
    assert_eq!(
        a.handle(&mut owner, ReceivedMessage::StopPublish { publisher_id: "t1".to_string() }),
        Ok(vec![Command::ClosePublisher("t1".to_string())])
    );
    assert_eq!(
        a.handle(&mut owner, ReceivedMessage::StopPublish { publisher_id: "t1".to_string() }),
        Ok(Vec::new())
    );
}

#[test]
fn stop_publish_leaves_a_track_that_another_peer_took_over() {
    let mut owner = RoomOwner::new();
    let mut a = join(&mut owner, "room1", 1);
    let mut b = join(&mut owner, "room1", 2);
    a.engine_event(&mut owner, EngineEvent::Published { track_id: "t1".to_string() });
    b.engine_event(&mut owner, EngineEvent::Published { track_id: "t1".to_string() });
    assert_eq!(
        a.handle(&mut owner, ReceivedMessage::StopPublish { publisher_id: "t1".to_string() }),
        Ok(vec![Command::ClosePublisher("t1".to_string())])
    );
    assert_eq!(tracks_of(&owner, "room1"), vec!["t1"]);
    assert_eq!(
        owner.find_by_id("room1".to_string()).unwrap().publisher_of(&"t1".to_string()),
        Some(2)
    );
}

#[test]
fn stop_subscribe_releases_a_held_subscriber_only() {
    let mut owner = RoomOwner::new();
    let mut session = join(&mut owner, "room1", 1);
    session.engine_event(
        &mut owner,
        EngineEvent::Subscribed { subscriber_id: "s1".to_string(), offer: offer("o") },
    );
    session.engine_event(
        &mut owner,
        EngineEvent::Subscribed { subscriber_id: "s2".to_string(), offer: offer("o") },
    );
    assert_eq!(
        session.handle(&mut owner, ReceivedMessage::StopSubscribe { subscriber_id: "s9".to_string() }),
        Ok(Vec::new())
    );
    assert_eq!(session.subscriber_ids(), vec!["s1", "s2"]);
    assert_eq!(
        session.handle(&mut owner, ReceivedMessage::StopSubscribe { subscriber_id: "s1".to_string() }),
        Ok(vec![Command::CloseSubscriber("s1".to_string())])
    );
    assert_eq!(session.subscriber_ids(), vec!["s2"]);
    assert_eq!(
        session.handle(&mut owner, ReceivedMessage::StopSubscribe { subscriber_id: "s1".to_string() }),
        Ok(Vec::new())
    );
}

#[test]
fn preferred_layer_is_set_on_a_held_subscriber_only() {
    let mut owner = RoomOwner::new();
    let mut session = join(&mut owner, "room1", 1);
    session.engine_event(
        &mut owner,
        EngineEvent::Subscribed { subscriber_id: "s1".to_string(), offer: offer("o") },
    );
    assert_eq!(
        session.handle(
            &mut owner,
            ReceivedMessage::SetPreferredLayer { subscriber_id: "s1".to_string(), sid: 2, tid: Some(1) }
        ),
        Ok(vec![Command::SetPreferredLayer { subscriber_id: "s1".to_string(), sid: 2, tid: Some(1) }])
    );
    assert_eq!(
        session.handle(
            &mut owner,
            ReceivedMessage::SetPreferredLayer { subscriber_id: "s1".to_string(), sid: 0, tid: None }
        ),
        Ok(vec![Command::SetPreferredLayer { subscriber_id: "s1".to_string(), sid: 0, tid: None }])
    );
    assert_eq!(
        session.handle(
            &mut owner,
            ReceivedMessage::SetPreferredLayer { subscriber_id: "s2".to_string(), sid: 2, tid: None }
        ),
        Ok(Vec::new())
    );
}

#[test]
fn engine_failure_changes_nothing() {
    let mut owner = RoomOwner::new();
    let mut session = join(&mut owner, "room1", 1);
    session.handle(&mut owner, ReceivedMessage::Publish { track_id: "t1".to_string() }).unwrap();
    assert_eq!(session.engine_event(&mut owner, EngineEvent::Failed), Vec::new());
    assert!(!session.is_closed());
    assert_eq!(session.publisher_ids(), Vec::<String>::new());
    assert_eq!(peers_of(&owner, "room1"), vec![1]);
    assert_eq!(
        session.handle(&mut owner, ReceivedMessage::Publish { track_id: "t1".to_string() }),
        Ok(vec![Command::Publish("t1".to_string())])
    );
}

#[test]
fn last_peer_closes_the_router_once() {
    let mut owner = RoomOwner::new();
    let mut session = join(&mut owner, "room1", 1);
    let router = session.router();
    assert_eq!(
        session.stopped(&mut owner),
        vec![
            Command::CloseSubscribeTransport,
            Command::ClosePublishTransport,
            Command::CloseRouter(router),
        ]
    );
    assert!(session.is_closed());
    assert!(owner.find_by_id("room1".to_string()).is_none());
    assert_eq!(session.stopped(&mut owner), Vec::new());
    assert!(owner.find_by_id("room1".to_string()).is_none());
}

#[test]
fn leaving_peer_keeps_the_room_for_the_others() {
    let mut owner = RoomOwner::new();
    let mut a = join(&mut owner, "room1", 1);
    let mut b = join(&mut owner, "room1", 2);
    a.engine_event(&mut owner, EngineEvent::Published { track_id: "t1".to_string() });
    b.engine_event(&mut owner, EngineEvent::Published { track_id: "t2".to_string() });
    a.engine_event(
        &mut owner,
        EngineEvent::Subscribed { subscriber_id: "s1".to_string(), offer: offer("o") },
    );
    assert_eq!(
        a.stopped(&mut owner),
        vec![Command::CloseSubscribeTransport, Command::ClosePublishTransport]
    );
    assert!(a.is_closed());
    assert_eq!(a.publisher_ids(), Vec::<String>::new());
    assert_eq!(a.subscriber_ids(), Vec::<String>::new());
    assert_eq!(peers_of(&owner, "room1"), vec![2]);
    assert_eq!(tracks_of(&owner, "room1"), vec!["t2"]);
    assert_eq!(
        b.stopped(&mut owner),
        vec![Command::CloseSubscribeTransport, Command::ClosePublishTransport, Command::CloseRouter(0)]
    );
    assert!(owner.find_by_id("room1".to_string()).is_none());
}

#[test]
fn stale_session_does_not_touch_the_new_room() {
    let mut owner = RoomOwner::new();
    let mut old = join(&mut owner, "room1", 1);
    owner.remove_room("room1".to_string());
    let _new = join(&mut owner, "room1", 2);
    assert_eq!(
        old.engine_event(&mut owner, EngineEvent::Published { track_id: "t1".to_string() }),
        Vec::new()
    );
    assert_eq!(tracks_of(&owner, "room1"), Vec::<String>::new());
    assert_eq!(old.handle(&mut owner, ReceivedMessage::SubscriberInit), Ok(listed(&[])));
    assert_eq!(
        old.stopped(&mut owner),
        vec![Command::CloseSubscribeTransport, Command::ClosePublishTransport]
    );
    assert_eq!(peers_of(&owner, "room1"), vec![2]);
    assert_eq!(owner.find_by_id("room1".to_string()).unwrap().router(), 1);
}

#[test]
fn closed_session_refuses_messages_and_ignores_events() {
    let mut owner = RoomOwner::new();
    let mut a = join(&mut owner, "room1", 1);
    let _b = join(&mut owner, "room1", 2);
    a.stopped(&mut owner);
    assert_eq!(a.handle(&mut owner, ReceivedMessage::Ping), Err(SessionError::Closed));
    assert_eq!(
        a.handle(&mut owner, ReceivedMessage::StopPublish { publisher_id: "t1".to_string() }),
        Err(SessionError::Closed)
    );
    assert_eq!(
        a.engine_event(&mut owner, EngineEvent::Published { track_id: "t1".to_string() }),
        Vec::new()
    );
    assert_eq!(a.publisher_ids(), Vec::<String>::new());
    assert_eq!(tracks_of(&owner, "room1"), Vec::<String>::new());
    assert!(!a.started(&mut owner));
    assert_eq!(peers_of(&owner, "room1"), vec![2]);
}

#[test]
fn frames_are_answered_by_kind() {
    assert_eq!(on_frame(Frame::Ping(vec![1, 2, 3])), FrameReply::Pong(vec![1, 2, 3]));
    assert_eq!(on_frame(Frame::Pong(vec![1])), FrameReply::Nothing);
    assert_eq!(
        on_frame(Frame::Text("{\"action\":\"ping\"}".to_string())),
        FrameReply::Decode("{\"action\":\"ping\"}".to_string())
    );
    assert_eq!(on_frame(Frame::Binary(vec![9, 8])), FrameReply::Binary(vec![9, 8]));
    assert_eq!(on_frame(Frame::Close(None)), FrameReply::Close(None));
    let reason = CloseReason { code: 1000, description: Some("bye".to_string()) };
    assert_eq!(on_frame(Frame::Close(Some(reason.clone()))), FrameReply::Close(Some(reason)));
    assert_eq!(on_frame(Frame::Other), FrameReply::Nothing);
}
