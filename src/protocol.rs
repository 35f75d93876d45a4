//! The per-connection RTMP state machine: from the events that the RTMP
//! session raises to the internal messages of the server, and from the
//! messages of other connections to what is sent on this one.
use vstd::prelude::*;
use bytes::Bytes;
use rml_rtmp::handshake::{Handshake, HandshakeError, HandshakeProcessResult, PeerType};
use rml_rtmp::sessions::{
    ServerSession, ServerSessionConfig, ServerSessionError, ServerSessionEvent, ServerSessionResult, StreamMetadata,
};
use rml_rtmp::time::RtmpTimestamp;

verus! {

/// Identifies a request of the client that the session must accept.
pub type RequestId = u32;

/// The stream a player's media goes out on.
pub type StreamId = u32;

#[derive(Debug)]
pub struct ConnectionRequested {
    pub id: RequestId,
    pub app_name: String,
}

#[derive(Debug)]
pub struct PublishingRequested {
    pub id: RequestId,
    pub app_name: String,
    pub stream_key: String,
}

#[derive(Debug)]
pub struct PublishingFinished {
    pub app_name: String,
    pub stream_key: String,
}

#[derive(Debug)]
pub struct PlaybackRequested {
    pub id: RequestId,
    pub app_name: String,
    pub stream_id: StreamId,
}

#[derive(Debug)]
pub struct PlaybackFinished {
    pub app_name: String,
    pub stream_key: String,
}

#[derive(Debug)]
pub struct MetadataReceived {
    pub app_name: String,
    pub metadata: StreamMetadata,
}

#[derive(Debug)]
pub struct VideoDataReceived {
    pub app_name: String,
    pub stream_key: String,
    pub timestamp: u32,
    pub payload: Vec<u8>,
}

#[derive(Debug)]
pub struct AudioDataReceived {
    pub app_name: String,
    pub stream_key: String,
    pub timestamp: u32,
    pub payload: Vec<u8>,
}

#[derive(Debug)]
pub struct SendMetadata {
    pub stream_id: StreamId,
    pub metadata: StreamMetadata,
}

#[derive(Debug)]
pub struct SendVideoData {
    pub stream_id: StreamId,
    pub payload: Vec<u8>,
    pub timestamp: u32,
}

#[derive(Debug)]
pub struct SendAudioData {
    pub stream_id: StreamId,
    pub payload: Vec<u8>,
    pub timestamp: u32,
}

/// An event of the RTMP session.
#[derive(Debug)]
pub enum SessionEvent {
    ConnectionRequested(ConnectionRequested),
    PublishingRequested(PublishingRequested),
    PlaybackRequested(PlaybackRequested),
    PublishingFinished(PublishingFinished),
    PlaybackFinished(PlaybackFinished),
    MetadataReceived(MetadataReceived),
    VideoDataReceived(VideoDataReceived),
    AudioDataReceived(AudioDataReceived),
    ReleaseStreamRequested { app_name: String, stream_key: String },
    /// Any event that needs no handling here.
    Other,
}

/// The internal messages a connection hands to the rest of the server.
#[derive(Debug)]
pub enum Message {
    Packet { droppable: bool, payload: Vec<u8> },
    Authenticate(String, String),
    RegisterSource(String),
    RegisterSink(String),
    VideoData(Vec<u8>, u32),
    AudioData(Vec<u8>, u32),
    Metadata(StreamMetadata),
    Finished(String),
}

/// A message as plain values.
pub ghost enum MessageView {
    Packet { droppable: bool, payload: Seq<u8> },
    Authenticate(Seq<char>, Seq<char>),
    RegisterSource(Seq<char>),
    RegisterSink(Seq<char>),
    VideoData(Seq<u8>, u32),
    AudioData(Seq<u8>, u32),
    Metadata(StreamMetadata),
    Finished(Seq<char>),
}

impl View for Message {
    type V = MessageView;

    open spec fn view(&self) -> MessageView {
        match self {
            Message::Packet { droppable, payload } => MessageView::Packet { droppable: *droppable, payload: payload@ },
            Message::Authenticate(a, k) => MessageView::Authenticate(a@, k@),
            Message::RegisterSource(a) => MessageView::RegisterSource(a@),
            Message::RegisterSink(a) => MessageView::RegisterSink(a@),
            Message::VideoData(p, t) => MessageView::VideoData(p@, *t),
            Message::AudioData(p, t) => MessageView::AudioData(p@, *t),
            Message::Metadata(m) => MessageView::Metadata(*m),
            Message::Finished(a) => MessageView::Finished(a@),
        }
    }
}

/// Where a connection stands.
#[derive(Debug)]
pub enum ProtocolState {
    HandshakePending,
    Initialized,
    Publishing(String, String),
    Playing(StreamId),
    Finished,
}

pub ghost enum StateView {
    HandshakePending,
    Initialized,
    Publishing(Seq<char>, Seq<char>),
    Playing(StreamId),
    Finished,
}

impl View for ProtocolState {
    type V = StateView;

    open spec fn view(&self) -> StateView {
        match self {
            ProtocolState::HandshakePending => StateView::HandshakePending,
            ProtocolState::Initialized => StateView::Initialized,
            ProtocolState::Publishing(a, k) => StateView::Publishing(a@, k@),
            ProtocolState::Playing(s) => StateView::Playing(*s),
            ProtocolState::Finished => StateView::Finished,
        }
    }
}

#[derive(Clone, Copy, Debug, PartialEq, Eq, Structural)]
pub enum ProtocolError {
    HandshakeFailed,
    SessionCreationFailed,
    InvalidInput,
    RequestRejected,
    SessionNotInitialized,
    SessionNotPlaying,
    EmptyApplicationName,
}

/// What an event does: the request to accept, or the error; the next state;
/// and the messages it emits.
pub open spec fn event_effect(s: StateView, e: SessionEvent) -> (Result<Option<RequestId>, ProtocolError>, StateView, Seq<MessageView>) {
    if s == StateView::HandshakePending {
        (Err(ProtocolError::SessionNotInitialized), s, Seq::empty())
    } else {
        match e {
            SessionEvent::ConnectionRequested(c) => if c.app_name@.len() == 0 {
                (Err(ProtocolError::EmptyApplicationName), s, Seq::empty())
            } else {
                (Ok(Some(c.id)), s, Seq::empty())
            },
            SessionEvent::PublishingRequested(p) => (
                Ok(Some(p.id)),
                StateView::Publishing(p.app_name@, p.stream_key@),
                seq![MessageView::Authenticate(p.app_name@, p.stream_key@), MessageView::RegisterSource(p.app_name@)],
            ),
            SessionEvent::PlaybackRequested(p) => (
                Ok(Some(p.id)),
                StateView::Playing(p.stream_id),
                seq![MessageView::RegisterSink(p.app_name@)],
            ),
            SessionEvent::PublishingFinished(f) => (Ok(None), StateView::Finished, seq![MessageView::Finished(f.app_name@)]),
            SessionEvent::PlaybackFinished(f) => (Ok(None), StateView::Finished, seq![MessageView::Finished(f.app_name@)]),
            SessionEvent::MetadataReceived(m) => (Ok(None), s, seq![MessageView::Metadata(m.metadata)]),
            SessionEvent::VideoDataReceived(v) => (Ok(None), s, seq![MessageView::VideoData(v.payload@, v.timestamp)]),
            SessionEvent::AudioDataReceived(a) => (Ok(None), s, seq![MessageView::AudioData(a.payload@, a.timestamp)]),
            SessionEvent::ReleaseStreamRequested { app_name, stream_key } => (
                Ok(None),
                s,
                seq![MessageView::Authenticate(app_name@, stream_key@)],
            ),
            SessionEvent::Other => (Ok(None), s, Seq::empty()),
        }
    }
}

#[verifier::external_type_specification]
#[verifier::external_body]
pub struct ExHandshake(Handshake);

/// What one round of the handshake gave.
pub enum HandshakeStep {
    /// Still going: the bytes to answer with.
    InProgress(Vec<u8>),
    /// Done: the bytes to answer with, and what arrived past the handshake.
    Completed(Vec<u8>, Vec<u8>),
}

/// Relies on rml_rtmp's `Handshake::new`: a handshake on the server side,
/// at its start.
#[verifier::external_body]
fn server_handshake() -> (r: Handshake) {
    Handshake::new(PeerType::Server)
}

#[verifier::external_type_specification]
#[verifier::external_body]
pub struct ExHandshakeError(HandshakeError);

/// Relies on rml_rtmp's `Handshake::process_bytes`: one round of the
/// handshake, or the error that ended it.
#[verifier::external_body]
fn process_handshake_bytes(h: &mut Handshake, bytes: &[u8]) -> (r: Result<HandshakeStep, HandshakeError>) {
    match h.process_bytes(bytes) {
        Ok(HandshakeProcessResult::InProgress { response_bytes }) => Ok(HandshakeStep::InProgress(response_bytes)),
        Ok(HandshakeProcessResult::Completed { response_bytes, remaining_bytes }) => Ok(
            HandshakeStep::Completed(response_bytes, remaining_bytes),
        ),
        Err(e) => Err(e),
    }
}

#[verifier::external_type_specification]
#[verifier::external_body]
pub struct ExServerSession(ServerSession);

#[verifier::external_type_specification]
#[verifier::external_body]
pub struct ExServerSessionError(ServerSessionError);

#[verifier::external_type_specification]
#[verifier::external_body]
pub struct ExServerSessionEvent(ServerSessionEvent);

#[verifier::external_type_specification]
#[verifier::external_body]
pub struct ExServerSessionResult(ServerSessionResult);

/// One result of the RTMP session as rml_rtmp hands it over.
enum RawOutput {
    Packet { droppable: bool, payload: Vec<u8> },
    Event(ServerSessionEvent),
    Unhandled,
}

/// One result of the RTMP session, as this library's values.
pub enum SessionOutput {
    /// Bytes for the peer.
    Packet { droppable: bool, payload: Vec<u8> },
    /// An event to dispatch.
    Event(SessionEvent),
    /// A message the session could not handle.
    Unhandled,
}

/// The largest message rml_rtmp's chunk serializer takes.
pub const MAX_MESSAGE_LEN: usize = 16777215;

/// Relies on rml_rtmp's `ServerSession::new`: a server session with the
/// default settings, and the results it starts with.
#[verifier::external_body]
fn create_session() -> (r: Result<(ServerSession, Vec<ServerSessionResult>), ServerSessionError>) {
    ServerSession::new(ServerSessionConfig::new())
}

/// Relies on rml_rtmp's `ServerSession::handle_input`: the results of the
/// bytes that the peer sent.
#[verifier::external_body]
fn session_input(s: &mut ServerSession, bytes: &[u8]) -> (r: Result<Vec<ServerSessionResult>, ServerSessionError>) {
    s.handle_input(bytes)
}

/// Relies on rml_rtmp's `ServerSession::accept_request`: the results of
/// accepting an outstanding request.
#[verifier::external_body]
fn session_accept(s: &mut ServerSession, id: RequestId) -> (r: Result<Vec<ServerSessionResult>, ServerSessionError>) {
    s.accept_request(id)
}

/// Relies on rml_rtmp's `ServerSession::send_video_data`: a video packet
/// on `stream_id`, marked droppable as asked, and its bytes; only a payload
/// longer than the chunk serializer takes fails.
#[verifier::external_body]
fn send_video(s: &mut ServerSession, stream_id: StreamId, payload: Vec<u8>, timestamp: u32, droppable: bool) -> (r: Result<(bool, Vec<u8>), ServerSessionError>)
    ensures
        payload@.len() <= MAX_MESSAGE_LEN ==> r is Ok,
        r matches Ok(p) ==> p.0 == droppable,
{
    s.send_video_data(stream_id, Bytes::from(payload), RtmpTimestamp::new(timestamp), droppable).map(|p| (p.can_be_dropped, p.bytes))
}

/// Relies on rml_rtmp's `ServerSession::send_audio_data`: an audio packet
/// on `stream_id`, marked droppable as asked, and its bytes; only a payload
/// longer than the chunk serializer takes fails.
#[verifier::external_body]
fn send_audio(s: &mut ServerSession, stream_id: StreamId, payload: Vec<u8>, timestamp: u32, droppable: bool) -> (r: Result<(bool, Vec<u8>), ServerSessionError>)
    ensures
        payload@.len() <= MAX_MESSAGE_LEN ==> r is Ok,
        r matches Ok(p) ==> p.0 == droppable,
{
    s.send_audio_data(stream_id, Bytes::from(payload), RtmpTimestamp::new(timestamp), droppable).map(|p| (p.can_be_dropped, p.bytes))
}

/// Relies on rml_rtmp's `ServerSession::send_metadata`: a metadata packet
/// on `stream_id`, never marked droppable, and its bytes.
#[verifier::external_body]
fn send_metadata(s: &mut ServerSession, stream_id: StreamId, m: &StreamMetadata) -> (r: Result<(bool, Vec<u8>), ServerSessionError>)
    ensures
        r matches Ok(p) ==> !p.0,
{
    s.send_metadata(stream_id, m).map(|p| (p.can_be_dropped, p.bytes))
}

/// Takes apart rml_rtmp's `ServerSessionResult`.
#[verifier::external_body]
fn output_of(r: ServerSessionResult) -> (o: RawOutput) {
    match r {
        ServerSessionResult::OutboundResponse(p) => RawOutput::Packet { droppable: p.can_be_dropped, payload: p.bytes },
        ServerSessionResult::RaisedEvent(e) => RawOutput::Event(e),
        ServerSessionResult::UnhandleableMessageReceived(_) => RawOutput::Unhandled,
    }
}

/// Takes apart the request events of rml_rtmp's `ServerSessionEvent`;
/// any other event comes back as it was.
#[verifier::external_body]
fn request_event(e: ServerSessionEvent) -> (r: Result<SessionEvent, ServerSessionEvent>) {
    match e {
        ServerSessionEvent::ConnectionRequested { request_id: id, app_name } => Ok(SessionEvent::ConnectionRequested(ConnectionRequested { id, app_name })),
        ServerSessionEvent::PublishStreamRequested { request_id: id, app_name, stream_key, .. } => Ok(SessionEvent::PublishingRequested(PublishingRequested { id, app_name, stream_key })),
        ServerSessionEvent::PlayStreamRequested { request_id: id, app_name, stream_id, .. } => Ok(SessionEvent::PlaybackRequested(PlaybackRequested { id, app_name, stream_id })),
        ServerSessionEvent::ReleaseStreamRequested { app_name, stream_key, .. } => Ok(SessionEvent::ReleaseStreamRequested { app_name, stream_key }),
        other => Err(other),
    }
}

/// Takes apart the ending and metadata events of rml_rtmp's
/// `ServerSessionEvent`; any other event comes back as it was.
#[verifier::external_body]
fn end_event(e: ServerSessionEvent) -> (r: Result<SessionEvent, ServerSessionEvent>) {
    match e {
        ServerSessionEvent::PublishStreamFinished { app_name, stream_key } => Ok(SessionEvent::PublishingFinished(PublishingFinished { app_name, stream_key })),
        ServerSessionEvent::PlayStreamFinished { app_name, stream_key } => Ok(SessionEvent::PlaybackFinished(PlaybackFinished { app_name, stream_key })),
        ServerSessionEvent::StreamMetadataChanged { app_name, metadata, .. } => Ok(SessionEvent::MetadataReceived(MetadataReceived { app_name, metadata })),
        other => Err(other),
    }
}

/// Takes apart the media events of rml_rtmp's `ServerSessionEvent`; any
/// other event needs no handling.
#[verifier::external_body]
fn media_event(e: ServerSessionEvent) -> (r: SessionEvent) {
    match e {
        ServerSessionEvent::VideoDataReceived { app_name, stream_key, data, timestamp } => SessionEvent::VideoDataReceived(VideoDataReceived { app_name, stream_key, timestamp: timestamp.value, payload: data.to_vec() }),
        ServerSessionEvent::AudioDataReceived { app_name, stream_key, data, timestamp } => SessionEvent::AudioDataReceived(AudioDataReceived { app_name, stream_key, timestamp: timestamp.value, payload: data.to_vec() }),
        _ => SessionEvent::Other,
    }
}

/// A result of the RTMP session as this library's values.
fn session_output(r: ServerSessionResult) -> (o: SessionOutput) {
    match output_of(r) {
        RawOutput::Packet { droppable, payload } => SessionOutput::Packet { droppable, payload },
        RawOutput::Event(e) => SessionOutput::Event(event_of(e)),
        RawOutput::Unhandled => SessionOutput::Unhandled,
    }
}

/// An event of the RTMP session as this library's event.
fn event_of(e: ServerSessionEvent) -> (r: SessionEvent) {
    match request_event(e) {
        Ok(ev) => ev,
        Err(e) => match end_event(e) {
            Ok(ev) => ev,
            Err(e) => media_event(e),
        },
    }
}

/// `longer` starts with `prefix`.
pub open spec fn extends(longer: Seq<MessageView>, prefix: Seq<MessageView>) -> bool {
    longer.len() >= prefix.len() && longer.take(prefix.len() as int) == prefix
}

proof fn lemma_extends_trans(a: Seq<MessageView>, b: Seq<MessageView>, c: Seq<MessageView>)
    requires
        extends(a, b),
        extends(b, c),
    ensures
        extends(a, c),
{
    assert(a.take(c.len() as int) =~= b.take(c.len() as int));
}

/// What dispatching event `e` did, by `event_effect`: its error changes
/// nothing; without a request to accept, its state and messages are
/// taken; with one, its messages come first, before what accepting adds.
pub open spec fn event_handled(
    before_state: StateView,
    before_queue: Seq<MessageView>,
    after_state: StateView,
    after_queue: Seq<MessageView>,
    e: SessionEvent,
    r: Result<(), ProtocolError>,
) -> bool {
    let (res, next, emitted) = event_effect(before_state, e);
    match res {
        Err(x) => r == Err::<(), ProtocolError>(x) && after_state == before_state && after_queue == before_queue,
        Ok(None) => r is Ok && after_state == next && after_queue == before_queue + emitted,
        Ok(Some(_)) => extends(after_queue, before_queue + emitted),
    }
}

/// What a message of another connection becomes on a playing connection.
pub enum Outgoing {
    Audio(SendAudioData),
    Video(SendVideoData),
    Metadata(SendMetadata),
}

pub struct Protocol {
    state: ProtocolState,
    handshake: Handshake,
    session: Option<ServerSession>,
    return_queue: Vec<Message>,
}

impl Protocol {
    pub closed spec fn state_spec(&self) -> StateView {
        self.state@
    }

    pub closed spec fn session_spec(&self) -> Option<ServerSession> {
        self.session
    }

    /// Past the handshake there is a session.
    pub closed spec fn wf(&self) -> bool {
        self.state is HandshakePending || self.session is Some
    }

    /// The messages waiting to be handed out.
    pub closed spec fn queue_spec(&self) -> Seq<MessageView> {
        self.return_queue@.map_values(|m: Message| m@)
    }

    pub fn new() -> (r: Protocol)
        ensures
            r.wf(),
            r.state_spec() == StateView::HandshakePending,
            r.queue_spec().len() == 0,
    {
        let r = Protocol { state: ProtocolState::HandshakePending, handshake: server_handshake(), session: None, return_queue: Vec::new() };
        assert(r.queue_spec() =~= Seq::<MessageView>::empty());
        r
    }

    fn push(&mut self, m: Message)
        ensures
            final(self).queue_spec() == old(self).queue_spec().push(m@),
            final(self).state == old(self).state,
            final(self).session == old(self).session,
    {
        self.return_queue.push(m);
        assert(self.queue_spec() =~= old(self).queue_spec().push(m@));
    }

    /// Runs one result of the session through the pipeline: a packet is
    /// queued, an event dispatched, and a request it raises accepted.
    pub fn handle_output(&mut self, o: SessionOutput) -> (r: Result<(), ProtocolError>)
        requires
            old(self).wf(),
        ensures
            final(self).wf(),
            old(self).state_spec() != StateView::HandshakePending ==> final(self).state_spec() != StateView::HandshakePending,
            extends(final(self).queue_spec(), old(self).queue_spec()),
            o matches SessionOutput::Packet { droppable, payload } ==> r is Ok && final(self).queue_spec()
                == old(self).queue_spec().push(MessageView::Packet { droppable, payload: payload@ })
                && final(self).state_spec() == old(self).state_spec(),
            o is Unhandled ==> r is Ok && final(self).queue_spec() == old(self).queue_spec() && final(self).state_spec()
                == old(self).state_spec(),
            o matches SessionOutput::Event(e) ==> event_handled(
                old(self).state_spec(),
                old(self).queue_spec(),
                final(self).state_spec(),
                final(self).queue_spec(),
                e,
                r,
            ),
    {
        match o {
            SessionOutput::Packet { droppable, payload } => {
                self.push(Message::Packet { droppable, payload });
                assert(self.queue_spec().take(old(self).queue_spec().len() as int) =~= old(self).queue_spec());
                Ok(())
            },
            SessionOutput::Unhandled => {
                assert(self.queue_spec().take(old(self).queue_spec().len() as int) =~= old(self).queue_spec());
                Ok(())
            },
            SessionOutput::Event(e) => {
                let ghost ge = e;
                let ghost eff = event_effect(old(self).state_spec(), e);
                match self.handle_event(e) {
                    Err(x) => {
                        assert(self.queue_spec() =~= old(self).queue_spec());
                        assert(self.queue_spec().take(old(self).queue_spec().len() as int) =~= old(self).queue_spec());
                        Err(x)
                    },
                    Ok(None) => {
                        assert(self.queue_spec().take(old(self).queue_spec().len() as int) =~= old(self).queue_spec());
                        Ok(())
                    },
                    Ok(Some(id)) => {
                        let ghost mid = self.queue_spec();
                        assert(mid.take(old(self).queue_spec().len() as int) =~= old(self).queue_spec());
                        let r = self.accept_request(id);
                        proof {
                            lemma_extends_trans(self.queue_spec(), mid, old(self).queue_spec());
                        }
                        r
                    },
                }
            },
        }
    }

    /// Runs session results through the pipeline, in order.
    fn handle_results(&mut self, results: Vec<ServerSessionResult>) -> (r: Result<(), ProtocolError>)
        requires
            old(self).wf(),
        ensures
            final(self).wf(),
            old(self).state_spec() != StateView::HandshakePending ==> final(self).state_spec() != StateView::HandshakePending,
            extends(final(self).queue_spec(), old(self).queue_spec()),
    {
        let mut results = results;
        assert(self.queue_spec().take(self.queue_spec().len() as int) =~= self.queue_spec());
        while results.len() > 0
            invariant
                self.wf(),
                old(self).state_spec() != StateView::HandshakePending ==> self.state_spec() != StateView::HandshakePending,
                extends(self.queue_spec(), old(self).queue_spec()),
            decreases results@.len(),
        {
            let result = results.remove(0);
            let ghost before = self.queue_spec();
            let step = self.handle_output(session_output(result));
            proof {
                lemma_extends_trans(self.queue_spec(), before, old(self).queue_spec());
            }
            match step {
                Ok(()) => {},
                Err(e) => {
                    return Err(e);
                },
            }
        }
        Ok(())
    }

    /// Accepts a request and runs what the session answers through the
    /// pipeline. Accepting answers with packets; a request raised while
    /// doing so is refused.
    fn accept_request(&mut self, id: RequestId) -> (r: Result<(), ProtocolError>)
        requires
            old(self).wf(),
            old(self).state_spec() != StateView::HandshakePending,
        ensures
            final(self).wf(),
            final(self).state_spec() != StateView::HandshakePending,
            extends(final(self).queue_spec(), old(self).queue_spec()),
    {
        let mut session = self.session.take().unwrap();
        let accepted = session_accept(&mut session, id);
        self.session = Some(session);
        assert(self.queue_spec().take(old(self).queue_spec().len() as int) =~= old(self).queue_spec());
        let mut results = match accepted {
            Ok(rs) => rs,
            Err(_) => {
                return Err(ProtocolError::RequestRejected);
            },
        };
        while results.len() > 0
            invariant
                self.wf(),
                self.state_spec() != StateView::HandshakePending,
                extends(self.queue_spec(), old(self).queue_spec()),
            decreases results@.len(),
        {
            let result = results.remove(0);
            let ghost before = self.queue_spec();
            match session_output(result) {
                SessionOutput::Packet { droppable, payload } => {
                    self.push(Message::Packet { droppable, payload });
                    assert(self.queue_spec().take(old(self).queue_spec().len() as int) =~= before.take(old(self).queue_spec().len() as int));
                },
                SessionOutput::Event(e) => {
                    let res = self.handle_event(e);
                    assert(self.queue_spec().take(old(self).queue_spec().len() as int) =~= before.take(old(self).queue_spec().len() as int));
                    match res {
                        Ok(None) => {},
                        Ok(Some(_)) => {
                            return Err(ProtocolError::RequestRejected);
                        },
                        Err(err) => {
                            return Err(err);
                        },
                    }
                },
                SessionOutput::Unhandled => {},
            }
        }
        Ok(())
    }

    /// Feeds bytes from the peer to the session.
    fn handle_input(&mut self, bytes: &[u8]) -> (r: Result<(), ProtocolError>)
        requires
            old(self).wf(),
        ensures
            final(self).wf(),
            old(self).state_spec() != StateView::HandshakePending ==> final(self).state_spec() != StateView::HandshakePending,
            extends(final(self).queue_spec(), old(self).queue_spec()),
            old(self).session_spec() is None ==> r == Err::<(), ProtocolError>(ProtocolError::SessionNotInitialized),
    {
        assert(self.queue_spec().take(old(self).queue_spec().len() as int) =~= old(self).queue_spec());
        let mut session = match self.session.take() {
            Some(s) => s,
            None => {
                return Err(ProtocolError::SessionNotInitialized);
            },
        };
        let input = session_input(&mut session, bytes);
        self.session = Some(session);
        match input {
            Ok(results) => self.handle_results(results),
            Err(_) => Err(ProtocolError::InvalidInput),
        }
    }

    /// Takes one round of the handshake: an answer while it goes on is
    /// queued as one packet; once it completes its last answer, if any, is
    /// queued, the session is created and runs its first results, what
    /// arrived past the handshake goes to it, and the connection is past the
    /// handshake.
    pub fn handle_handshake_step(&mut self, step: HandshakeStep) -> (r: Result<(), ProtocolError>)
        requires
            old(self).wf(),
            old(self).state_spec() == StateView::HandshakePending,
        ensures
            final(self).wf(),
            extends(final(self).queue_spec(), old(self).queue_spec()),
            step matches HandshakeStep::InProgress(b) ==> r is Ok && final(self).queue_spec()
                == old(self).queue_spec().push(MessageView::Packet { droppable: false, payload: b@ })
                && final(self).state_spec() == StateView::HandshakePending && final(self).session_spec()
                == old(self).session_spec(),
            step matches HandshakeStep::Completed(response, _) ==> extends(
                final(self).queue_spec(),
                if response@.len() > 0 {
                    old(self).queue_spec().push(MessageView::Packet { droppable: false, payload: response@ })
                } else {
                    old(self).queue_spec()
                },
            ) && (r is Ok ==> final(self).state_spec() != StateView::HandshakePending),
    {
        match step {
            HandshakeStep::InProgress(response) => {
                self.push(Message::Packet { droppable: false, payload: response });
                assert(self.queue_spec().take(old(self).queue_spec().len() as int) =~= old(self).queue_spec());
                Ok(())
            },
            HandshakeStep::Completed(response, remaining) => {
                let ghost resp = response@;
                let ghost pushed = old(self).queue_spec().push(MessageView::Packet { droppable: false, payload: resp });
                assert(pushed.take(old(self).queue_spec().len() as int) =~= old(self).queue_spec());
                assert(old(self).queue_spec().take(old(self).queue_spec().len() as int) =~= old(self).queue_spec());
                let r = self.complete_handshake(response, remaining);
                proof {
                    if resp.len() > 0 {
                        lemma_extends_trans(self.queue_spec(), pushed, old(self).queue_spec());
                    }
                }
                r
            },
        }
    }

    fn complete_handshake(&mut self, response: Vec<u8>, remaining: Vec<u8>) -> (r: Result<(), ProtocolError>)
        requires
            old(self).wf(),
            old(self).state_spec() == StateView::HandshakePending,
        ensures
            final(self).wf(),
            extends(
                final(self).queue_spec(),
                if response@.len() > 0 {
                    old(self).queue_spec().push(MessageView::Packet { droppable: false, payload: response@ })
                } else {
                    old(self).queue_spec()
                },
            ),
            r is Ok ==> final(self).state_spec() != StateView::HandshakePending,
    {
        let ghost resp = response@;
        if response.len() > 0 {
            self.push(Message::Packet { droppable: false, payload: response });
        }
        let ghost first = self.queue_spec();
        assert(first.take(first.len() as int) =~= first);
        let (session, results) = match create_session() {
            Ok(x) => x,
            Err(_) => {
                return Err(ProtocolError::SessionCreationFailed);
            },
        };
        self.session = Some(session);
        self.state = ProtocolState::Initialized;
        let ghost mid = self.queue_spec();
        let started = self.handle_results(results);
        proof {
            lemma_extends_trans(self.queue_spec(), mid, first);
        }
        match started {
            Ok(()) => {},
            Err(e) => {
                return Err(e);
            },
        }
        if remaining.len() > 0 {
            let ghost before = self.queue_spec();
            let r = self.handle_input(remaining.as_slice());
            proof {
                lemma_extends_trans(self.queue_spec(), before, first);
            }
            r
        } else {
            Ok(())
        }
    }

    /// Takes bytes from the peer: while the handshake is pending they drive
    /// it (see `handle_handshake_step`), after it they go to the RTMP
    /// session, whose results run through `handle_output`. Returns
    /// everything queued, the earlier messages first, and empties the queue.
    pub fn handle_bytes(&mut self, bytes: &[u8]) -> (r: Result<Vec<Message>, ProtocolError>)
        requires
            old(self).wf(),
        ensures
            final(self).wf(),
            old(self).state_spec() != StateView::HandshakePending ==> final(self).state_spec() != StateView::HandshakePending,
            r matches Ok(v) ==> extends(v@.map_values(|m: Message| m@), old(self).queue_spec())
                && final(self).queue_spec().len() == 0,
    {
        let outcome = match self.state {
            ProtocolState::HandshakePending => {
                match process_handshake_bytes(&mut self.handshake, bytes) {
                    Err(_) => Err(ProtocolError::HandshakeFailed),
                    Ok(step) => self.handle_handshake_step(step),
                }
            },
            _ => self.handle_input(bytes),
        };
        match outcome {
            Ok(()) => {
                let ghost q = self.queue_spec();
                let r = self.take_messages();
                assert(r@.map_values(|m: Message| m@) == q);
                Ok(r)
            },
            Err(e) => Err(e),
        }
    }

    /// Dispatches one session event; returns the request that the session
    /// is to accept, whose results come back through this same path.
    pub fn handle_event(&mut self, event: SessionEvent) -> (r: Result<Option<RequestId>, ProtocolError>)
        ensures
            ({
                let (res, next, emitted) = event_effect(old(self).state_spec(), event);
                &&& r == res
                &&& final(self).state_spec() == next
                &&& final(self).queue_spec() == old(self).queue_spec() + emitted
            }),
            final(self).session_spec() == old(self).session_spec(),
            old(self).wf() ==> final(self).wf(),
            old(self).state_spec() != StateView::HandshakePending ==> final(self).state_spec() != StateView::HandshakePending,
    {
        let ghost e = event;
        if let ProtocolState::HandshakePending = self.state {
            assert(self.queue_spec() =~= old(self).queue_spec() + Seq::<MessageView>::empty());
            return Err(ProtocolError::SessionNotInitialized);
        }
        match event {
            SessionEvent::ConnectionRequested(c) => {
                assert(self.queue_spec() =~= old(self).queue_spec() + Seq::<MessageView>::empty());
                if c.app_name.as_str().is_empty() {
                    Err(ProtocolError::EmptyApplicationName)
                } else {
                    Ok(Some(c.id))
                }
            },
            SessionEvent::PublishingRequested(p) => {
                let app = p.app_name.clone();
                let key = p.stream_key.clone();
                self.push(Message::Authenticate(app, key));
                self.push(Message::RegisterSource(p.app_name.clone()));
                self.state = ProtocolState::Publishing(p.app_name, p.stream_key);
                assert(self.queue_spec() =~= old(self).queue_spec() + event_effect(old(self).state_spec(), e).2);
                Ok(Some(p.id))
            },
            SessionEvent::PlaybackRequested(p) => {
                self.push(Message::RegisterSink(p.app_name));
                self.state = ProtocolState::Playing(p.stream_id);
                assert(self.queue_spec() =~= old(self).queue_spec() + event_effect(old(self).state_spec(), e).2);
                Ok(Some(p.id))
            },
            SessionEvent::PublishingFinished(f) => {
                self.push(Message::Finished(f.app_name));
                self.state = ProtocolState::Finished;
                assert(self.queue_spec() =~= old(self).queue_spec() + event_effect(old(self).state_spec(), e).2);
                Ok(None)
            },
            SessionEvent::PlaybackFinished(f) => {
                self.push(Message::Finished(f.app_name));
                self.state = ProtocolState::Finished;
                assert(self.queue_spec() =~= old(self).queue_spec() + event_effect(old(self).state_spec(), e).2);
                Ok(None)
            },
            SessionEvent::MetadataReceived(m) => {
                self.push(Message::Metadata(m.metadata));
                assert(self.queue_spec() =~= old(self).queue_spec() + event_effect(old(self).state_spec(), e).2);
                Ok(None)
            },
            SessionEvent::VideoDataReceived(v) => {
                self.push(Message::VideoData(v.payload, v.timestamp));
                assert(self.queue_spec() =~= old(self).queue_spec() + event_effect(old(self).state_spec(), e).2);
                Ok(None)
            },
            SessionEvent::AudioDataReceived(a) => {
                self.push(Message::AudioData(a.payload, a.timestamp));
                assert(self.queue_spec() =~= old(self).queue_spec() + event_effect(old(self).state_spec(), e).2);
                Ok(None)
            },
            SessionEvent::ReleaseStreamRequested { app_name, stream_key } => {
                self.push(Message::Authenticate(app_name, stream_key));
                assert(self.queue_spec() =~= old(self).queue_spec() + event_effect(old(self).state_spec(), e).2);
                Ok(None)
            },
            SessionEvent::Other => {
                assert(self.queue_spec() =~= old(self).queue_spec() + Seq::<MessageView>::empty());
                Ok(None)
            },
        }
    }

    /// Hands out the queued messages, in order, and empties the queue.
    pub fn take_messages(&mut self) -> (r: Vec<Message>)
        ensures
            r@.map_values(|m: Message| m@) == old(self).queue_spec(),
            final(self).queue_spec().len() == 0,
            final(self).state_spec() == old(self).state_spec(),
            final(self).session_spec() == old(self).session_spec(),
            old(self).wf() ==> final(self).wf(),
    {
        let mut r: Vec<Message> = Vec::new();
        std::mem::swap(&mut r, &mut self.return_queue);
        assert(self.queue_spec() =~= Seq::<MessageView>::empty());
        r
    }

    /// The stream a playing connection sends on.
    pub fn stream_id(&self) -> (r: Option<StreamId>)
        ensures
            r == (match self.state_spec() {
                StateView::Playing(s) => Some(s),
                _ => None,
            }),
    {
        match self.state {
            ProtocolState::Playing(s) => Some(s),
            _ => None,
        }
    }

    /// Turns media and metadata from the publisher into a packet on this
    /// player's stream; other messages give none. Sequence headers and
    /// metadata go out as packets that must not be dropped; other media as
    /// droppable ones.
    pub fn handle_message(&mut self, message: Message) -> (r: Result<Option<Message>, ProtocolError>)
        requires
            old(self).wf(),
        ensures
            final(self).wf(),
            final(self).state_spec() == old(self).state_spec(),
            final(self).queue_spec() == old(self).queue_spec(),
            !(old(self).state_spec() is Playing) ==> r == Err::<Option<Message>, ProtocolError>(ProtocolError::SessionNotPlaying)
                && final(self).session_spec() == old(self).session_spec(),
            r matches Ok(Some(m)) ==> m is Packet,
            old(self).state_spec() is Playing ==> match message@ {
                MessageView::VideoData(p, _) => (p.len() <= MAX_MESSAGE_LEN ==> r is Ok) && (r is Ok ==> (r matches Ok(Some(Message::Packet { droppable, .. })) && droppable == !crate::media::video_is_sequence_header(p)))
                    && (r is Err ==> r == Err::<Option<Message>, ProtocolError>(ProtocolError::InvalidInput)),
                MessageView::AudioData(p, _) => (p.len() <= MAX_MESSAGE_LEN ==> r is Ok) && (r is Ok ==> (r matches Ok(Some(Message::Packet { droppable, .. })) && droppable == !crate::media::audio_is_sequence_header(p)))
                    && (r is Err ==> r == Err::<Option<Message>, ProtocolError>(ProtocolError::InvalidInput)),
                MessageView::Metadata(_) => (r is Ok ==> (r matches Ok(Some(Message::Packet { droppable, .. })) && !droppable))
                    && (r is Err ==> r == Err::<Option<Message>, ProtocolError>(ProtocolError::InvalidInput)),
                _ => r matches Ok(None),
            },
    {
        let outgoing = match self.outgoing_for(message) {
            Err(e) => {
                return Err(e);
            },
            Ok(None) => {
                return Ok(None);
            },
            Ok(Some(o)) => o,
        };
        let mut session = self.session.take().unwrap();
        let sent = match outgoing {
            Outgoing::Audio(a) => {
                let droppable = !crate::media::is_audio_sequence_header(a.payload.as_slice());
                send_audio(&mut session, a.stream_id, a.payload, a.timestamp, droppable)
            },
            Outgoing::Video(v) => {
                let droppable = !crate::media::is_video_sequence_header(v.payload.as_slice());
                send_video(&mut session, v.stream_id, v.payload, v.timestamp, droppable)
            },
            Outgoing::Metadata(m) => send_metadata(&mut session, m.stream_id, &m.metadata),
        };
        self.session = Some(session);
        match sent {
            Ok((droppable, payload)) => Ok(Some(Message::Packet { droppable, payload })),
            Err(_) => Err(ProtocolError::InvalidInput),
        }
    }

    /// What media and metadata from the publisher become on this player's
    /// stream; other messages give nothing.
    pub fn outgoing_for(&self, message: Message) -> (r: Result<Option<Outgoing>, ProtocolError>)
        ensures
            !(self.state_spec() is Playing) ==> r == Err::<Option<Outgoing>, ProtocolError>(
                ProtocolError::SessionNotPlaying,
            ),
            self.state_spec() matches StateView::Playing(sid) ==> match message@ {
                MessageView::AudioData(p, t) => r matches Ok(Some(Outgoing::Audio(a))) && a.stream_id == sid
                    && a.payload@ == p && a.timestamp == t,
                MessageView::VideoData(p, t) => r matches Ok(Some(Outgoing::Video(v))) && v.stream_id == sid
                    && v.payload@ == p && v.timestamp == t,
                MessageView::Metadata(m) => r matches Ok(Some(Outgoing::Metadata(d))) && d.stream_id == sid
                    && d.metadata == m,
                _ => r matches Ok(None),
            },
    {
        let stream_id = match self.stream_id() {
            Some(s) => s,
            None => {
                return Err(ProtocolError::SessionNotPlaying);
            },
        };
        match message {
            Message::AudioData(payload, timestamp) => Ok(Some(Outgoing::Audio(SendAudioData { stream_id, payload, timestamp }))),
            Message::VideoData(payload, timestamp) => Ok(Some(Outgoing::Video(SendVideoData { stream_id, payload, timestamp }))),
            Message::Metadata(metadata) => Ok(Some(Outgoing::Metadata(SendMetadata { stream_id, metadata }))),
            _ => Ok(None),
        }
    }
}

} // verus!
