use rml_rtmp::handshake::{Handshake, HandshakeProcessResult, PeerType};
use javelin::config::{capitalize, parse_permitted_stream, ConfigError, RepublishAction};
use javelin::protocol::{
    HandshakeStep, SessionOutput,
    AudioDataReceived, ConnectionRequested, Message, Outgoing, PlaybackFinished, PlaybackRequested, Protocol,
    ProtocolError, PublishingFinished, PublishingRequested, SessionEvent, VideoDataReceived,
};
use javelin::stream::{ReadBuffer, ReadOutcome, StreamError, WriteBuffer};

/// Drives a server protocol through the handshake with rml_rtmp's client
/// handshake, and empties its queue.
fn initialized() -> Protocol {
    let mut client = Handshake::new(PeerType::Client);
    let mut server = Protocol::new();
    let mut to_server = client.generate_outbound_p0_and_p1().unwrap();
    for _ in 0..4 {
        let mut to_client = Vec::new();
        if !to_server.is_empty() {
            for m in server.handle_bytes(&to_server).unwrap() {
                if let Message::Packet { payload, .. } = m {
                    to_client.extend(payload);
                }
            }
        }
        to_server = Vec::new();
        if !to_client.is_empty() {
            match client.process_bytes(&to_client) {
                Ok(HandshakeProcessResult::InProgress { response_bytes }) => to_server = response_bytes,
                Ok(HandshakeProcessResult::Completed { response_bytes, .. }) => to_server = response_bytes,
                Err(_) => {}
            }
        }
    }
    assert!(server.take_messages().is_empty());
    server
}

#[test]
fn events_before_handshake_fail() {
    let mut p = Protocol::new();
    let e = SessionEvent::ConnectionRequested(ConnectionRequested { id: 1, app_name: "live".to_string() });
    assert_eq!(p.handle_event(e), Err(ProtocolError::SessionNotInitialized));
    assert!(p.take_messages().is_empty());
}

#[test]
fn handshake_creates_session_that_takes_input() {
    let mut p = initialized();
    assert!(p.stream_id().is_none());
    // a lone RTMP chunk header byte is incomplete input: nothing comes back yet
    assert!(p.handle_bytes(&[0x03]).unwrap().is_empty());
}

#[test]
fn connection_request_needs_app_name() {
    let mut p = initialized();
    let e = SessionEvent::ConnectionRequested(ConnectionRequested { id: 4, app_name: String::new() });
    assert_eq!(p.handle_event(e), Err(ProtocolError::EmptyApplicationName));
    let e = SessionEvent::ConnectionRequested(ConnectionRequested { id: 4, app_name: "live".to_string() });
    assert_eq!(p.handle_event(e), Ok(Some(4)));
}

#[test]
fn publish_request_emits_authenticate_and_register() {
    let mut p = initialized();
    let e = SessionEvent::PublishingRequested(PublishingRequested {
        id: 9,
        app_name: "live".to_string(),
        stream_key: "secret".to_string(),
    });
    assert_eq!(p.handle_event(e), Ok(Some(9)));
    let msgs = p.take_messages();
    assert_eq!(msgs.len(), 2);
    assert!(matches!(&msgs[0], Message::Authenticate(a, k) if a == "live" && k == "secret"));
    assert!(matches!(&msgs[1], Message::RegisterSource(a) if a == "live"));
    assert_eq!(p.stream_id(), None);
    let v = SessionEvent::VideoDataReceived(VideoDataReceived {
        app_name: "live".to_string(),
        stream_key: "secret".to_string(),
        timestamp: 40,
        payload: vec![0x17, 1],
    });
    assert_eq!(p.handle_event(v), Ok(None));
    let a = SessionEvent::AudioDataReceived(AudioDataReceived {
        app_name: "live".to_string(),
        stream_key: "secret".to_string(),
        timestamp: 41,
        payload: vec![0xAF, 1],
    });
    assert_eq!(p.handle_event(a), Ok(None));
    let f = SessionEvent::PublishingFinished(PublishingFinished { app_name: "live".to_string(), stream_key: "secret".to_string() });
    assert_eq!(p.handle_event(f), Ok(None));
    let msgs = p.take_messages();
    assert!(matches!(&msgs[0], Message::VideoData(d, 40) if d == &vec![0x17, 1]));
    assert!(matches!(&msgs[1], Message::AudioData(d, 41) if d == &vec![0xAF, 1]));
    assert!(matches!(&msgs[2], Message::Finished(a) if a == "live"));
}

#[test]
fn play_request_and_outgoing_media() {
    let mut p = initialized();
    assert_eq!(p.handle_message(Message::AudioData(vec![1], 0)).err(), Some(ProtocolError::SessionNotPlaying));
    assert_eq!(p.outgoing_for(Message::AudioData(vec![1], 0)).err(), Some(ProtocolError::SessionNotPlaying));
    let e = SessionEvent::PlaybackRequested(PlaybackRequested { id: 2, app_name: "live".to_string(), stream_id: 5 });
    assert_eq!(p.handle_event(e), Ok(Some(2)));
    assert!(matches!(&p.take_messages()[0], Message::RegisterSink(a) if a == "live"));
    assert_eq!(p.stream_id(), Some(5));
    match p.outgoing_for(Message::VideoData(vec![7, 8], 33)) {
        Ok(Some(Outgoing::Video(v))) => {
            assert_eq!(v.stream_id, 5);
            assert_eq!(v.payload, vec![7, 8]);
            assert_eq!(v.timestamp, 33);
        }
        _ => panic!("expected video"),
    }
    assert!(matches!(p.outgoing_for(Message::RegisterSink("x".to_string())), Ok(None)));
    assert!(matches!(p.handle_message(Message::RegisterSink("x".to_string())), Ok(None)));
    match p.handle_message(Message::VideoData(vec![0x17, 1, 0, 0, 0], 33)) {
        Ok(Some(Message::Packet { droppable, payload })) => {
            assert!(droppable);
            assert!(payload.len() > 5);
        }
        _ => panic!("expected a packet"),
    }
    match p.handle_message(Message::VideoData(vec![0x17, 0, 0, 0, 0, 1], 0)) {
        Ok(Some(Message::Packet { droppable, .. })) => assert!(!droppable),
        _ => panic!("expected a packet"),
    }
    match p.handle_message(Message::AudioData(vec![0xAF, 0, 0x12, 0x10], 0)) {
        Ok(Some(Message::Packet { droppable, .. })) => assert!(!droppable),
        _ => panic!("expected a packet"),
    }
    let f = SessionEvent::PlaybackFinished(PlaybackFinished { app_name: "live".to_string(), stream_key: String::new() });
    p.handle_event(f).unwrap();
    assert_eq!(p.stream_id(), None);
}

#[test]
fn release_stream_authenticates_and_others_are_ignored() {
    let mut p = initialized();
    let e = SessionEvent::ReleaseStreamRequested { app_name: "live".to_string(), stream_key: "k".to_string() };
    assert_eq!(p.handle_event(e), Ok(None));
    assert_eq!(p.handle_event(SessionEvent::Other), Ok(None));
    let msgs = p.take_messages();
    assert_eq!(msgs.len(), 1);
    assert!(matches!(&msgs[0], Message::Authenticate(a, k) if a == "live" && k == "k"));
}

#[test]
fn republish_action_parses() {
    assert_eq!(RepublishAction::from_str("replace").ok(), Some(RepublishAction::Replace));
    assert_eq!(RepublishAction::from_str("deny").ok(), Some(RepublishAction::Deny));
    match RepublishAction::from_str("Deny") {
        Err(ConfigError::ParseError { what, message }) => {
            assert_eq!(what, "RepublishAction");
            assert_eq!(message, "'Deny' not valid");
        }
        Ok(_) => panic!("not a valid action"),
    }
}

#[test]
fn capitalize_first_letter() {
    assert_eq!(capitalize("rtmp_bind"), "Rtmp_bind");
    assert_eq!(capitalize(""), "");
    assert_eq!(capitalize("élan"), "Élan");
}

#[test]
fn permitted_stream_argument() {
    assert_eq!(parse_permitted_stream("live:secret"), ("live".to_string(), "secret".to_string()));
    assert_eq!(parse_permitted_stream("a:b:c"), ("a".to_string(), "c".to_string()));
    assert_eq!(parse_permitted_stream("solo"), ("solo".to_string(), "solo".to_string()));
}

#[test]
fn read_buffer_hands_up_and_resets() {
    let mut r = ReadBuffer::new();
    assert_eq!(r.reserve(), Ok(()));
    match r.on_read(&[1, 2, 3]).unwrap() {
        ReadOutcome::Data(d) => assert_eq!(d, vec![1, 2, 3]),
        ReadOutcome::EndOfStream => panic!("data expected"),
    }
    assert!(matches!(r.on_read(&[]), Ok(ReadOutcome::EndOfStream)));
}

#[test]
fn write_buffer_drains_and_rejects_zero_writes() {
    let mut w = WriteBuffer::new();
    w.enqueue(&[1, 2, 3, 4]).unwrap();
    assert_eq!(w.written(0), Err(StreamError::InvalidWrite));
    w.written(3).unwrap();
    assert_eq!(w.pending(), &[4]);
    w.written(1).unwrap();
    assert_eq!(w.written(0), Ok(()));
}

#[test]
fn handshake_round_trip_with_client() {
    let mut client = Handshake::new(PeerType::Client);
    let mut server = Protocol::new();
    let mut to_server = client.generate_outbound_p0_and_p1().unwrap();
    let mut client_done = false;
    for _ in 0..4 {
        let mut to_client = Vec::new();
        if !to_server.is_empty() {
            for m in server.handle_bytes(&to_server).unwrap() {
                match m {
                    Message::Packet { payload, .. } => to_client.extend(payload),
                    _ => panic!("only packets expected"),
                }
            }
        }
        to_server = Vec::new();
        if !to_client.is_empty() && !client_done {
            match client.process_bytes(&to_client).unwrap() {
                HandshakeProcessResult::InProgress { response_bytes } => to_server = response_bytes,
                HandshakeProcessResult::Completed { response_bytes, .. } => {
                    client_done = true;
                    to_server = response_bytes;
                }
            }
        }
    }
    assert!(client_done);
    // the session is up: it takes input without a handshake error
    assert!(server.handle_bytes(&[0x03]).is_ok());
}

#[test]
fn handshake_garbage_fails() {
    let mut server = Protocol::new();
    assert_eq!(server.handle_bytes(&[0xFF; 1537]).err(), Some(ProtocolError::HandshakeFailed));
}

#[test]
fn handshake_step_in_progress_queues_one_packet() {
    let mut p = Protocol::new();
    assert_eq!(p.handle_handshake_step(HandshakeStep::InProgress(vec![4, 5])), Ok(()));
    let msgs = p.take_messages();
    assert_eq!(msgs.len(), 1);
    assert!(matches!(&msgs[0], Message::Packet { droppable: false, payload } if payload == &vec![4, 5]));
    // still in the handshake: events are refused
    let e = SessionEvent::ConnectionRequested(ConnectionRequested { id: 1, app_name: "live".to_string() });
    assert_eq!(p.handle_event(e), Err(ProtocolError::SessionNotInitialized));
}

#[test]
fn handshake_step_completed_queues_response_first() {
    let mut p = Protocol::new();
    assert_eq!(p.handle_handshake_step(HandshakeStep::Completed(vec![7], vec![])), Ok(()));
    let msgs = p.take_messages();
    assert!(matches!(&msgs[0], Message::Packet { droppable: false, payload } if payload == &vec![7]));
    assert_eq!(p.handle_output(SessionOutput::Event(SessionEvent::Other)), Ok(()));
}

#[test]
fn session_outputs_run_through_the_pipeline() {
    let mut p = initialized();
    assert_eq!(p.handle_output(SessionOutput::Packet { droppable: true, payload: vec![1] }), Ok(()));
    assert_eq!(p.handle_output(SessionOutput::Unhandled), Ok(()));
    let msgs = p.take_messages();
    assert_eq!(msgs.len(), 1);
    assert!(matches!(&msgs[0], Message::Packet { droppable: true, payload } if payload == &vec![1]));
    let e = SessionEvent::ConnectionRequested(ConnectionRequested { id: 1, app_name: String::new() });
    assert_eq!(p.handle_output(SessionOutput::Event(e)), Err(ProtocolError::EmptyApplicationName));
    // a request the session does not know is refused after the event's messages
    let e = SessionEvent::PublishingRequested(PublishingRequested {
        id: 77,
        app_name: "live".to_string(),
        stream_key: "k".to_string(),
    });
    assert_eq!(p.handle_output(SessionOutput::Event(e)), Err(ProtocolError::RequestRejected));
    let msgs = p.take_messages();
    assert!(matches!(&msgs[0], Message::Authenticate(a, k) if a == "live" && k == "k"));
    assert!(matches!(&msgs[1], Message::RegisterSource(a) if a == "live"));
}
