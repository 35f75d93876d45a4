//! The fanout channel of one application: who publishes, what a late joiner
//! must be sent first, and which players receive each media unit.
use vstd::prelude::*;
use rml_rtmp::sessions::StreamMetadata;
use crate::config::RepublishAction;
use crate::media::Media;

verus! {

/// A process-unique connection number, assigned in order of arrival.
pub type ConnectionId = u64;

/// A player of the channel, and whether it has been sent a video keyframe.
#[derive(Clone, Copy, Debug, PartialEq, Eq, Structural)]
pub struct Watcher {
    pub id: ConnectionId,
    pub received_keyframe: bool,
}

/// What a player is sent through its connection.
#[derive(Clone, Debug)]
pub enum Outbound {
    Media(Media),
    Metadata(StreamMetadata),
}

/// One unit for one player.
#[derive(Clone, Debug)]
pub struct Delivery {
    pub to: ConnectionId,
    pub item: Outbound,
}

/// Why a publisher was refused by the channel.
#[derive(Clone, Copy, Debug, PartialEq, Eq, Structural)]
pub enum ChannelError {
    RepublishDenied,
}

/// What asking for the publisher slot gives, by the current holder and the
/// policy: the holder to disconnect, or a refusal.
pub open spec fn publish_result(holder: Option<ConnectionId>, policy: RepublishAction) -> Result<
    Option<ConnectionId>,
    ChannelError,
> {
    match holder {
        None => Ok(None),
        Some(p) => if policy == RepublishAction::Replace {
            Ok(Some(p))
        } else {
            Err(ChannelError::RepublishDenied)
        },
    }
}

/// The players, each to be sent a keyframe again before other video.
pub open spec fn regated(ws: Seq<Watcher>) -> Seq<Watcher> {
    ws.map_values(|w: Watcher| Watcher { id: w.id, received_keyframe: false })
}

/// Whether a player is sent `m`: once it has a keyframe it is sent all,
/// before that only what a decoder can start from.
pub open spec fn forwards(w: Watcher, m: Media) -> bool {
    w.received_keyframe || m.is_sendable_spec()
}

/// The player after it was offered `m`.
pub open spec fn after_offer(w: Watcher, m: Media) -> Watcher {
    Watcher {
        id: w.id,
        received_keyframe: w.received_keyframe || (m.is_video() && m.is_keyframe_spec()),
    }
}

/// The deliveries of one media unit to the players `ws`, in their order.
pub open spec fn media_deliveries(ws: Seq<Watcher>, m: Media) -> Seq<(ConnectionId, (bool, u32, Seq<u8>))>
    decreases ws.len(),
{
    if ws.len() == 0 {
        Seq::empty()
    } else {
        let w = ws.last();
        let rest = media_deliveries(ws.drop_last(), m);
        if forwards(w, m) {
            rest.push((w.id, m@))
        } else {
            rest
        }
    }
}

/// A delivery as identity and media, for the units that carry media.
pub open spec fn delivery_view(d: Delivery) -> (ConnectionId, Option<(bool, u32, Seq<u8>)>) {
    match d.item {
        Outbound::Media(m) => (d.to, Some(m@)),
        Outbound::Metadata(_) => (d.to, None),
    }
}

/// `conn` joined: it is a player, with no keyframe yet where it is new, and
/// `r` replays metadata, video and audio sequence header, each at time 0.
pub open spec fn joined(before: FanoutChannel, after: FanoutChannel, conn: ConnectionId, r: Seq<Delivery>) -> bool {
    &&& after.watcher_ids() == before.watcher_ids().insert(conn)
    &&& !before.watcher_ids().contains(conn) ==> after.watchers_spec()
        == before.watchers_spec().push(Watcher { id: conn, received_keyframe: false })
    &&& before.watcher_ids().contains(conn) ==> after.watchers_spec()
        == before.watchers_spec()
    &&& after.publisher_spec() == before.publisher_spec()
    &&& after.publisher_key_spec() == before.publisher_key_spec()
    &&& after.metadata_spec() == before.metadata_spec()
    &&& after.video_seq_header_spec() == before.video_seq_header_spec()
    &&& after.audio_seq_header_spec() == before.audio_seq_header_spec()
    &&& r.len() == (if before.metadata_spec() is Some { 1int } else { 0 })
        + (if before.video_seq_header_spec() is Some { 1int } else { 0 })
        + (if before.audio_seq_header_spec() is Some { 1int } else { 0 })
    &&& forall|i: int| 0 <= i < r.len() ==> #[trigger] r[i].to == conn
    &&& before.metadata_spec() matches Some(m) ==> r[0].item == Outbound::Metadata(m)
    &&& before.video_seq_header_spec() matches Some(v) ==> ({
        let k = if before.metadata_spec() is Some { 1int } else { 0 };
        r[k].item matches Outbound::Media(Media::H264(t, p)) && t == 0 && p@ == v
        })
    &&& before.audio_seq_header_spec() matches Some(a) ==> ({
        let k = r.len() - 1;
        r[k].item matches Outbound::Media(Media::AAC(t, p)) && t == 0 && p@ == a
        })
}

/// `conn` left the players; nothing else changed that a player sees.
pub open spec fn left(before: FanoutChannel, after: FanoutChannel, conn: ConnectionId) -> bool {
    &&& after.watcher_ids() == before.watcher_ids().remove(conn)
    &&& after.publisher_spec() == before.publisher_spec()
    &&& after.publisher_key_spec() == before.publisher_key_spec()
    &&& after.metadata_spec() == before.metadata_spec()
    &&& after.video_seq_header_spec() == before.video_seq_header_spec()
    &&& after.audio_seq_header_spec() == before.audio_seq_header_spec()
}

/// The metadata is `m`, and `r` sends it to each player in order.
pub open spec fn metadata_set(before: FanoutChannel, after: FanoutChannel, m: StreamMetadata, r: Seq<Delivery>) -> bool {
    &&& after.metadata_spec() == Some(m)
    &&& after.publisher_spec() == before.publisher_spec()
    &&& after.publisher_key_spec() == before.publisher_key_spec()
    &&& after.video_seq_header_spec() == before.video_seq_header_spec()
    &&& after.audio_seq_header_spec() == before.audio_seq_header_spec()
    &&& after.watchers_spec() == before.watchers_spec()
    &&& r.len() == before.watchers_spec().len()
    &&& forall|i: int| 0 <= i < r.len() ==> #[trigger] r[i] == (Delivery {
        to: before.watchers_spec()[i].id,
        item: Outbound::Metadata(m),
        })
}

/// `media` was routed: a sequence header was stored and sent to nobody; any
/// other unit went to the players that `forwards` it, in their order.
pub open spec fn routed(before: FanoutChannel, after: FanoutChannel, media: Media, r: Seq<Delivery>) -> bool {
    &&& after.publisher_spec() == before.publisher_spec()
    &&& after.publisher_key_spec() == before.publisher_key_spec()
    &&& after.metadata_spec() == before.metadata_spec()
    &&& media.is_sequence_header_spec() ==> r.len() == 0
        && after.watchers_spec() == before.watchers_spec()
        && (media matches Media::H264(_, p) ==> after.video_seq_header_spec() == Some(p@)
        && after.audio_seq_header_spec() == before.audio_seq_header_spec())
        && (media matches Media::AAC(_, p) ==> after.audio_seq_header_spec() == Some(p@)
        && after.video_seq_header_spec() == before.video_seq_header_spec())
    &&& !media.is_sequence_header_spec() ==> r.map_values(|d: Delivery| delivery_view(d))
        == media_deliveries(before.watchers_spec(), media).map_values(
        |e: (ConnectionId, (bool, u32, Seq<u8>))| (e.0, Some(e.1)),
        ) && after.watchers_spec() == before.watchers_spec().map_values(
        |w: Watcher| after_offer(w, media),
        ) && after.video_seq_header_spec() == before.video_seq_header_spec()
        && after.audio_seq_header_spec() == before.audio_seq_header_spec()
}

/// `conn` asked for the publisher slot with `key` under `policy`, with
/// result `r`.
pub open spec fn publish_applied(before: FanoutChannel, after: FanoutChannel, conn: ConnectionId, key: Seq<char>, policy: RepublishAction, r: Result<Option<ConnectionId>, ChannelError>) -> bool {
    &&& r == publish_result(before.publisher_spec(), policy)
    &&& r is Err ==> after == before
    &&& r is Ok ==> after.publisher_spec() == Some(conn) && after.publisher_key_spec() == Some(key)
    &&& before.publisher_spec() is None ==> r == Ok::<Option<ConnectionId>, ChannelError>(None)
        && after.publisher_spec() == Some(conn)
        && after.publisher_key_spec() == Some(key)
        && after.metadata_spec() == before.metadata_spec()
        && after.video_seq_header_spec() == before.video_seq_header_spec()
        && after.audio_seq_header_spec() == before.audio_seq_header_spec()
        && after.watchers_spec() == before.watchers_spec()
    &&& before.publisher_spec() is Some && policy == RepublishAction::Replace ==> r
        == Ok::<Option<ConnectionId>, ChannelError>(before.publisher_spec())
        && after.publisher_spec() == Some(conn)
        && after.publisher_key_spec() == Some(key)
        && after.metadata_spec() is None
        && after.video_seq_header_spec() is None
        && after.audio_seq_header_spec() is None
        && after.watchers_spec() == regated(before.watchers_spec())
    &&& before.publisher_spec() is Some && policy == RepublishAction::Deny ==> r
        == Err::<Option<ConnectionId>, ChannelError>(ChannelError::RepublishDenied)
        && after == before
}

pub struct FanoutChannel {
    publisher: Option<ConnectionId>,
    publisher_key: Option<String>,
    metadata: Option<StreamMetadata>,
    video_seq_header: Option<Vec<u8>>,
    audio_seq_header: Option<Vec<u8>>,
    watchers: Vec<Watcher>,
}

impl FanoutChannel {
    pub closed spec fn publisher_spec(&self) -> Option<ConnectionId> {
        self.publisher
    }

    pub closed spec fn publisher_key_spec(&self) -> Option<Seq<char>> {
        match self.publisher_key {
            Some(k) => Some(k@),
            None => None,
        }
    }

    pub closed spec fn metadata_spec(&self) -> Option<StreamMetadata> {
        self.metadata
    }

    pub closed spec fn video_seq_header_spec(&self) -> Option<Seq<u8>> {
        match self.video_seq_header {
            Some(v) => Some(v@),
            None => None,
        }
    }

    pub closed spec fn audio_seq_header_spec(&self) -> Option<Seq<u8>> {
        match self.audio_seq_header {
            Some(v) => Some(v@),
            None => None,
        }
    }

    pub closed spec fn watchers_spec(&self) -> Seq<Watcher> {
        self.watchers@
    }

    pub open spec fn watcher_ids(&self) -> Set<ConnectionId> {
        Set::new(|id: ConnectionId| exists|i: int| 0 <= i < self.watchers_spec().len() && #[trigger] self.watchers_spec()[i].id == id)
    }

    /// Each player is listed once.
    pub open spec fn wf(&self) -> bool {
        forall|i: int, j: int|
            #![trigger self.watchers_spec()[i], self.watchers_spec()[j]]
            0 <= i < self.watchers_spec().len() && 0 <= j < self.watchers_spec().len() && i != j
                ==> self.watchers_spec()[i].id != self.watchers_spec()[j].id
    }

    /// The state after `unpublish`: publisher, metadata and sequence headers
    /// cleared, players kept but gated on a keyframe again, so that the next
    /// publisher starts clean.
    pub open spec fn is_unpublished_from(&self, before: &FanoutChannel) -> bool {
        &&& self.publisher_spec() is None
        &&& self.publisher_key_spec() is None
        &&& self.metadata_spec() is None
        &&& self.video_seq_header_spec() is None
        &&& self.audio_seq_header_spec() is None
        &&& self.watchers_spec() == regated(before.watchers_spec())
    }

    pub fn new() -> (r: FanoutChannel)
        ensures
            r.wf(),
            r.publisher_spec() is None,
            r.publisher_key_spec() is None,
            r.metadata_spec() is None,
            r.video_seq_header_spec() is None,
            r.audio_seq_header_spec() is None,
            r.watchers_spec().len() == 0,
    {
        FanoutChannel {
            publisher: None,
            publisher_key: None,
            metadata: None,
            video_seq_header: None,
            audio_seq_header: None,
            watchers: Vec::new(),
        }
    }

    pub fn publisher(&self) -> (r: Option<ConnectionId>)
        ensures
            r == self.publisher_spec(),
    {
        self.publisher
    }

    pub fn watchers(&self) -> (r: &Vec<Watcher>)
        ensures
            r@ == self.watchers_spec(),
    {
        &self.watchers
    }

    /// Clears the publisher, its metadata and its sequence headers; the
    /// players stay, each waiting for a keyframe again.
    pub fn unpublish(&mut self)
        requires
            old(self).wf(),
        ensures
            final(self).wf(),
            final(self).is_unpublished_from(old(self)),
    {
        self.publisher = None;
        self.publisher_key = None;
        self.metadata = None;
        self.video_seq_header = None;
        self.audio_seq_header = None;
        let ghost old_ws = self.watchers@;
        assert(old(self).watchers_spec() == old_ws);
        let mut i: usize = 0;
        while i < self.watchers.len()
            invariant
                i <= self.watchers@.len(),
                self.watchers@.len() == old_ws.len(),
                self.publisher is None,
                self.publisher_key is None,
                self.metadata is None,
                self.video_seq_header is None,
                self.audio_seq_header is None,
                forall|j: int| 0 <= j < i ==> #[trigger] self.watchers@[j] == (Watcher { id: old_ws[j].id, received_keyframe: false }),
                forall|j: int| i <= j < old_ws.len() ==> #[trigger] self.watchers@[j] == old_ws[j],
            decreases self.watchers@.len() - i,
        {
            let id = self.watchers[i].id;
            self.watchers.set(i, Watcher { id, received_keyframe: false });
            i = i + 1;
        }
        assert(self.watchers@ =~= regated(old_ws));
        assert(self.wf()) by {
            assert forall|i: int, j: int|
                0 <= i < self.watchers_spec().len() && 0 <= j < self.watchers_spec().len() && i != j
                implies self.watchers_spec()[i].id != self.watchers_spec()[j].id by {
                assert(old(self).watchers_spec()[i].id != old(self).watchers_spec()[j].id);
            }
        }
    }

    /// Makes `conn` the publisher. Where another holds the slot, `Replace`
    /// unpublishes it first and returns it, to be disconnected; `Deny`
    /// refuses and changes nothing.
    pub fn set_publisher(&mut self, conn: ConnectionId, key: String, policy: RepublishAction) -> (r: Result<
        Option<ConnectionId>,
        ChannelError,
    >)
        requires
            old(self).wf(),
        ensures
            final(self).wf(),
            publish_applied(*old(self), *final(self), conn, key@, policy, r),

    {
        assert(old(self).watchers_spec() == self.watchers@);
        match self.publisher {
            None => {
                self.publisher = Some(conn);
                self.publisher_key = Some(key);
                Ok(None)
            },
            Some(previous) => {
                match policy {
                    RepublishAction::Replace => {
                        self.unpublish();
                        self.publisher = Some(conn);
                        self.publisher_key = Some(key);
                        Ok(Some(previous))
                    },
                    RepublishAction::Deny => Err(ChannelError::RepublishDenied),
                }
            },
        }
    }

    /// The position of player `conn`, if it is one.
    fn watcher_position(&self, conn: ConnectionId) -> (r: Option<usize>)
        ensures
            r is None ==> !self.watcher_ids().contains(conn),
            r matches Some(i) ==> i < self.watchers_spec().len() && self.watchers_spec()[i as int].id == conn,
    {
        let mut i: usize = 0;
        while i < self.watchers.len()
            invariant
                i <= self.watchers@.len(),
                forall|j: int| 0 <= j < i ==> #[trigger] self.watchers@[j].id != conn,
            decreases self.watchers@.len() - i,
        {
            if self.watchers[i].id == conn {
                return Some(i);
            }
            i = i + 1;
        }
        None
    }

    /// Sends a late joiner what it needs before any frame: metadata, then the
    /// video and the audio sequence header, each at time 0, where present.
    fn replay(&self, conn: ConnectionId) -> (r: Vec<Delivery>)
        ensures
            r@.len() == (if self.metadata_spec() is Some { 1int } else { 0 })
                + (if self.video_seq_header_spec() is Some { 1int } else { 0 })
                + (if self.audio_seq_header_spec() is Some { 1int } else { 0 }),
            forall|i: int| 0 <= i < r@.len() ==> #[trigger] r@[i].to == conn,
            self.metadata_spec() matches Some(m) ==> r@[0].item == Outbound::Metadata(m),
            self.video_seq_header_spec() matches Some(v) ==> ({
                let k = if self.metadata_spec() is Some { 1int } else { 0 };
                r@[k].item matches Outbound::Media(Media::H264(t, p)) && t == 0 && p@ == v
            }),
            self.audio_seq_header_spec() matches Some(a) ==> ({
                let k = r@.len() - 1;
                r@[k].item matches Outbound::Media(Media::AAC(t, p)) && t == 0 && p@ == a
            }),
    {
        let mut r: Vec<Delivery> = Vec::new();
        if let Some(m) = &self.metadata {
            r.push(Delivery { to: conn, item: Outbound::Metadata(m.clone()) });
        }
        if let Some(v) = &self.video_seq_header {
            let p = v.clone();
            assert(p@ =~= v@);
            r.push(Delivery { to: conn, item: Outbound::Media(Media::H264(0, p)) });
        }
        if let Some(a) = &self.audio_seq_header {
            let p = a.clone();
            assert(p@ =~= a@);
            r.push(Delivery { to: conn, item: Outbound::Media(Media::AAC(0, p)) });
        }
        r
    }

    /// Adds player `conn`, which has not been sent a keyframe yet, and returns
    /// what it is sent first.
    pub fn add_watcher(&mut self, conn: ConnectionId) -> (r: Vec<Delivery>)
        requires
            old(self).wf(),
        ensures
            final(self).wf(),
            joined(*old(self), *final(self), conn, r@),

    {
        if self.watcher_position(conn).is_none() {
            let ghost old_ws = self.watchers@;
            self.watchers.push(Watcher { id: conn, received_keyframe: false });
            assert(self.watcher_ids() =~= old(self).watcher_ids().insert(conn)) by {
                assert(self.watchers@[old_ws.len() as int].id == conn);
                assert forall|id: ConnectionId| old(self).watcher_ids().contains(id) implies self.watcher_ids().contains(id) by {
                    let i = choose|i: int| 0 <= i < old_ws.len() && #[trigger] old_ws[i].id == id;
                    assert(self.watchers@[i].id == id);
                }
                assert forall|id: ConnectionId| self.watcher_ids().contains(id) implies old(self).watcher_ids().insert(conn).contains(id) by {
                    let i = choose|i: int| 0 <= i < self.watchers@.len() && #[trigger] self.watchers@[i].id == id;
                    if i < old_ws.len() {
                        assert(old_ws[i].id == id);
                    }
                }
            }
        } else {
            assert(self.watcher_ids() =~= old(self).watcher_ids().insert(conn));
        }
        self.replay(conn)
    }

    /// Removes player `conn`.
    pub fn remove_watcher(&mut self, conn: ConnectionId)
        requires
            old(self).wf(),
        ensures
            final(self).wf(),
            left(*old(self), *final(self), conn),

    {
        match self.watcher_position(conn) {
            None => {
                assert(self.watcher_ids() =~= old(self).watcher_ids().remove(conn));
            },
            Some(i) => {
                let ghost old_ws = self.watchers@;
                self.watchers.remove(i);
                assert(self.watchers@ =~= old_ws.remove(i as int));
                assert(self.watcher_ids() =~= old(self).watcher_ids().remove(conn)) by {
                    assert forall|id: ConnectionId| self.watcher_ids().contains(id) implies old(self).watcher_ids().remove(conn).contains(id) by {
                        let j = choose|j: int| 0 <= j < self.watchers@.len() && #[trigger] self.watchers@[j].id == id;
                        if j < i {
                            assert(old_ws[j].id == id);
                        } else {
                            assert(old_ws[j + 1].id == id);
                        }
                    }
                    assert forall|id: ConnectionId| old(self).watcher_ids().remove(conn).contains(id) implies self.watcher_ids().contains(id) by {
                        let j = choose|j: int| 0 <= j < old_ws.len() && #[trigger] old_ws[j].id == id;
                        if j < i {
                            assert(self.watchers@[j].id == id);
                        } else {
                            assert(self.watchers@[j - 1].id == id);
                        }
                    }
                }
            },
        }
    }

    /// Replaces the metadata and sends it to every player, in order.
    pub fn set_metadata(&mut self, m: StreamMetadata) -> (r: Vec<Delivery>)
        requires
            old(self).wf(),
        ensures
            final(self).wf(),
            metadata_set(*old(self), *final(self), m, r@),

    {
        assert(old(self).watchers_spec() == self.watchers@);
        let mut r: Vec<Delivery> = Vec::new();
        let mut i: usize = 0;
        while i < self.watchers.len()
            invariant
                i <= self.watchers@.len(),
                r@.len() == i,
                forall|j: int| 0 <= j < i ==> #[trigger] r@[j] == (Delivery {
                    to: self.watchers@[j].id,
                    item: Outbound::Metadata(m),
                }),
            decreases self.watchers@.len() - i,
        {
            r.push(Delivery { to: self.watchers[i].id, item: Outbound::Metadata(m.clone()) });
            i = i + 1;
        }
        self.metadata = Some(m);
        r
    }

    /// Routes one media unit of the publisher. A sequence header is stored
    /// for late joiners and sent to nobody; anything else is sent to each
    /// player that `forwards` it, and a video keyframe marks its players.
    pub fn route_media(&mut self, media: &Media) -> (r: Vec<Delivery>)
        requires
            old(self).wf(),
        ensures
            final(self).wf(),
            routed(*old(self), *final(self), *media, r@),

    {
        let mut r: Vec<Delivery> = Vec::new();
        if media.is_sequence_header() {
            match media {
                Media::H264(_, p) => {
                    let q = p.clone();
                    assert(q@ =~= p@);
                    self.video_seq_header = Some(q);
                },
                Media::AAC(_, p) => {
                    let q = p.clone();
                    assert(q@ =~= p@);
                    self.audio_seq_header = Some(q);
                },
            }
            assert(self.watchers_spec() == old(self).watchers_spec());
            return r;
        }
        let sendable = media.is_sendable();
        let marks = media.is_keyframe();
        let ghost old_ws = self.watchers@;
        let mut i: usize = 0;
        while i < self.watchers.len()
            invariant
                i <= self.watchers@.len(),
                self.watchers@.len() == old_ws.len(),
                sendable == media.is_sendable_spec(),
                self.publisher == old(self).publisher,
                self.publisher_key == old(self).publisher_key,
                self.metadata == old(self).metadata,
                self.video_seq_header == old(self).video_seq_header,
                self.audio_seq_header == old(self).audio_seq_header,
                marks == (media.is_video() && media.is_keyframe_spec()),
                forall|j: int| 0 <= j < i ==> #[trigger] self.watchers@[j] == after_offer(old_ws[j], *media),
                forall|j: int| i <= j < old_ws.len() ==> #[trigger] self.watchers@[j] == old_ws[j],
                r@.map_values(|d: Delivery| delivery_view(d)) == media_deliveries(old_ws.take(i as int), *media).map_values(
                    |e: (ConnectionId, (bool, u32, Seq<u8>))| (e.0, Some(e.1)),
                ),
            decreases self.watchers@.len() - i,
        {
            let w = self.watchers[i];
            assert(old_ws.take(i as int + 1).drop_last() =~= old_ws.take(i as int));
            let ghost before = r@;
            if w.received_keyframe || sendable {
                r.push(Delivery { to: w.id, item: Outbound::Media(media.duplicate()) });
                assert(r@.map_values(|d: Delivery| delivery_view(d)) =~= before.map_values(|d: Delivery| delivery_view(d)).push((w.id, Some(media@))));
            }
            let updated = Watcher { id: w.id, received_keyframe: w.received_keyframe || marks };
            self.watchers.set(i, updated);
            i = i + 1;
        }
        assert(old_ws.take(old_ws.len() as int) =~= old_ws);
        assert(self.watchers@ =~= old_ws.map_values(|w: Watcher| after_offer(w, *media)));
        assert(self.wf()) by {
            assert forall|i: int, j: int|
                0 <= i < self.watchers_spec().len() && 0 <= j < self.watchers_spec().len() && i != j
                implies self.watchers_spec()[i].id != self.watchers_spec()[j].id by {
                assert(old(self).watchers_spec() == old_ws);
                assert(old(self).watchers_spec()[i].id != old(self).watchers_spec()[j].id);
            }
        }
        r
    }
}

/// What one player is sent of the publisher's media `ms`, by repeated
/// `route_media`, starting with or without a keyframe already sent.
pub open spec fn observed(seen: bool, ms: Seq<Media>) -> Seq<(bool, u32, Seq<u8>)>
    decreases ms.len(),
{
    if ms.len() == 0 {
        Seq::empty()
    } else {
        let m = ms[0];
        if m.is_sequence_header_spec() {
            observed(seen, ms.skip(1))
        } else if seen || m.is_sendable_spec() {
            seq![m@] + observed(seen || (m.is_video() && m.is_keyframe_spec()), ms.skip(1))
        } else {
            observed(seen, ms.skip(1))
        }
    }
}

/// The units of `ms` that are broadcast at all: all but sequence headers.
pub open spec fn broadcast_units(ms: Seq<Media>) -> Seq<(bool, u32, Seq<u8>)>
    decreases ms.len(),
{
    if ms.len() == 0 {
        Seq::empty()
    } else if ms[0].is_sequence_header_spec() {
        broadcast_units(ms.skip(1))
    } else {
        seq![ms[0]@] + broadcast_units(ms.skip(1))
    }
}

/// The audio units of `ms` that are broadcast.
pub open spec fn broadcast_audio(ms: Seq<Media>) -> Seq<(bool, u32, Seq<u8>)>
    decreases ms.len(),
{
    if ms.len() == 0 {
        Seq::empty()
    } else if ms[0].is_sequence_header_spec() || ms[0].is_video() {
        broadcast_audio(ms.skip(1))
    } else {
        seq![ms[0]@] + broadcast_audio(ms.skip(1))
    }
}

/// The video units of `ms` that are keyframes.
pub open spec fn is_video_keyframe(m: Media) -> bool {
    m.is_video() && m.is_keyframe_spec()
}

/// A player that has been sent a keyframe is sent every broadcast unit of
/// the publisher, in the publisher's order.
pub proof fn lemma_keyframe_holder_sees_all(ms: Seq<Media>)
    ensures
        observed(true, ms) == broadcast_units(ms),
    decreases ms.len(),
{
    if ms.len() > 0 {
        lemma_keyframe_holder_sees_all(ms.skip(1));
    }
}

/// A new player is sent the broadcast audio before the publisher's first
/// keyframe, and from that keyframe on every broadcast unit in the
/// publisher's order: its video is a suffix of the publisher's video that
/// starts at a keyframe.
pub proof fn lemma_new_watcher_joins_at_keyframe(ms: Seq<Media>, k: int)
    requires
        0 <= k < ms.len(),
        is_video_keyframe(ms[k]),
        forall|j: int| 0 <= j < k ==> !is_video_keyframe(#[trigger] ms[j]),
    ensures
        observed(false, ms) == broadcast_audio(ms.take(k)) + broadcast_units(ms.skip(k)),
    decreases k,
{
    if k == 0 {
        assert(ms.take(0) =~= Seq::<Media>::empty());
        assert(ms.skip(0) =~= ms);
        let m = ms[0];
        assert(!m.is_sequence_header_spec());
        lemma_keyframe_holder_sees_all(ms.skip(1));
    } else {
        let rest = ms.skip(1);
        assert forall|j: int| 0 <= j < k - 1 implies !is_video_keyframe(#[trigger] rest[j]) by {
            assert(rest[j] == ms[j + 1]);
        }
        assert(rest[k - 1] == ms[k]);
        lemma_new_watcher_joins_at_keyframe(rest, k - 1);
        assert(ms.take(k).skip(1) =~= rest.take(k - 1));
        assert(ms.take(k)[0] == ms[0]);
        assert(rest.skip(k - 1) =~= ms.skip(k));
        assert(!is_video_keyframe(ms[0]));
    }
}

proof fn lemma_no_audio(ms: Seq<Media>)
    requires
        forall|j: int| 0 <= j < ms.len() ==> (#[trigger] ms[j]).is_video() || ms[j].is_sequence_header_spec(),
    ensures
        broadcast_audio(ms) == Seq::<(bool, u32, Seq<u8>)>::empty(),
    decreases ms.len(),
{
    if ms.len() > 0 {
        let rest = ms.skip(1);
        assert forall|j: int| 0 <= j < rest.len() implies (#[trigger] rest[j]).is_video()
            || rest[j].is_sequence_header_spec() by {
            assert(rest[j] == ms[j + 1]);
        }
        lemma_no_audio(rest);
    }
}

/// Where the publisher sends no audio before its first keyframe, a new
/// player is sent exactly the broadcast units from that keyframe on: a
/// suffix of what the publisher sent.
pub proof fn lemma_new_watcher_sees_suffix(ms: Seq<Media>, k: int)
    requires
        0 <= k < ms.len(),
        is_video_keyframe(ms[k]),
        forall|j: int| 0 <= j < k ==> !is_video_keyframe(#[trigger] ms[j]),
        forall|j: int| 0 <= j < k ==> (#[trigger] ms[j]).is_video() || ms[j].is_sequence_header_spec(),
    ensures
        observed(false, ms) == broadcast_units(ms.skip(k)),
{
    lemma_new_watcher_joins_at_keyframe(ms, k);
    let pre = ms.take(k);
    assert forall|j: int| 0 <= j < pre.len() implies (#[trigger] pre[j]).is_video()
        || pre[j].is_sequence_header_spec() by {
        assert(pre[j] == ms[j]);
    }
    lemma_no_audio(pre);
    assert(Seq::<(bool, u32, Seq<u8>)>::empty() + broadcast_units(ms.skip(k)) =~= broadcast_units(ms.skip(k)));
}

/// The first video unit that a new player is sent is a keyframe.
pub proof fn lemma_first_video_is_keyframe(ms: Seq<Media>)
    ensures
        forall|i: int|
            0 <= i < observed(false, ms).len() && (#[trigger] observed(false, ms)[i]).0 && (forall|j: int|
                0 <= j < i ==> !observed(false, ms)[j].0) ==> crate::media::video_is_keyframe(
                observed(false, ms)[i].2,
            ),
    decreases ms.len(),
{
    if ms.len() > 0 {
        let m = ms[0];
        let rest = ms.skip(1);
        lemma_first_video_is_keyframe(rest);
        let obs = observed(false, ms);
        if !m.is_sequence_header_spec() && m.is_sendable_spec() {
            let seen = m.is_video() && m.is_keyframe_spec();
            if seen {
                assert(obs[0] == m@);
                assert forall|i: int|
                    0 <= i < obs.len() && (#[trigger] obs[i]).0 && (forall|j: int| 0 <= j < i ==> !obs[j].0)
                    implies crate::media::video_is_keyframe(obs[i].2) by {
                    if i > 0 {
                        assert(obs[0].0);
                    }
                }
            } else {
                assert(!m.is_video());
                let tail = observed(false, rest);
                assert(obs =~= seq![m@] + tail);
                assert forall|i: int|
                    0 <= i < obs.len() && (#[trigger] obs[i]).0 && (forall|j: int| 0 <= j < i ==> !obs[j].0)
                    implies crate::media::video_is_keyframe(obs[i].2) by {
                    assert(i > 0);
                    assert(obs[i] == tail[i - 1]);
                    assert forall|j: int| 0 <= j < i - 1 implies !tail[j].0 by {
                        assert(obs[j + 1] == tail[j]);
                    }
                }
            }
        } else {
            assert(obs == observed(false, rest));
        }
    }
}

/// The publisher slot holds one connection at most, and a publish that
/// replaces a holder names exactly that holder for disconnection: with the
/// slot empty nobody is disconnected; with `p` in it, `Replace` disconnects
/// `p` alone and `Deny` refuses and disconnects nobody.
pub proof fn lemma_republish_disconnects_holder_once(p: ConnectionId)
    ensures
        publish_result(None, RepublishAction::Replace) == Ok::<Option<ConnectionId>, ChannelError>(None),
        publish_result(None, RepublishAction::Deny) == Ok::<Option<ConnectionId>, ChannelError>(None),
        publish_result(Some(p), RepublishAction::Replace) == Ok::<Option<ConnectionId>, ChannelError>(Some(p)),
        publish_result(Some(p), RepublishAction::Deny) == Err::<Option<ConnectionId>, ChannelError>(
            ChannelError::RepublishDenied,
        ),
{
}

/// After a publish that replaced a holder, every player waits for a
/// keyframe again: by `lemma_first_video_is_keyframe`, the first video each
/// is sent of the new publisher is that publisher's first keyframe.
pub proof fn lemma_replace_regates_players(
    before: FanoutChannel,
    after: FanoutChannel,
    conn: ConnectionId,
    key: Seq<char>,
    r: Result<Option<ConnectionId>, ChannelError>,
)
    requires
        publish_applied(before, after, conn, key, RepublishAction::Replace, r),
        before.publisher_spec() is Some,
    ensures
        after.watchers_spec().len() == before.watchers_spec().len(),
        forall|i: int| 0 <= i < after.watchers_spec().len() ==> !(#[trigger] after.watchers_spec()[i]).received_keyframe
            && after.watchers_spec()[i].id == before.watchers_spec()[i].id,
{
}

/// The media units among deliveries `r`, with their players.
pub open spec fn media_deliveries_of(r: Seq<Delivery>) -> Seq<(ConnectionId, (bool, u32, Seq<u8>))> {
    r.map_values(|d: Delivery| delivery_view(d)).filter(|v: (ConnectionId, Option<(bool, u32, Seq<u8>)>)| v.1 is Some).map_values(
        |v: (ConnectionId, Option<(bool, u32, Seq<u8>)>)| (v.0, v.1->0),
    )
}

/// The media of `ds` that go to player `id`, in order.
pub open spec fn media_for(ds: Seq<(ConnectionId, (bool, u32, Seq<u8>))>, id: ConnectionId) -> Seq<(bool, u32, Seq<u8>)>
    decreases ds.len(),
{
    if ds.len() == 0 {
        Seq::empty()
    } else if ds.last().0 == id {
        media_for(ds.drop_last(), id).push(ds.last().1)
    } else {
        media_for(ds.drop_last(), id)
    }
}

proof fn lemma_media_for_absent(ws: Seq<Watcher>, m: Media, id: ConnectionId)
    requires
        forall|j: int| 0 <= j < ws.len() ==> (#[trigger] ws[j]).id != id,
    ensures
        media_for(media_deliveries(ws, m), id) == Seq::<(bool, u32, Seq<u8>)>::empty(),
    decreases ws.len(),
{
    if ws.len() > 0 {
        let init = ws.drop_last();
        assert forall|j: int| 0 <= j < init.len() implies (#[trigger] init[j]).id != id by {
            assert(init[j] == ws[j]);
        }
        lemma_media_for_absent(init, m, id);
        assert(ws.last() == ws[ws.len() - 1]);
        if forwards(ws.last(), m) {
            assert(media_deliveries(ws, m).drop_last() == media_deliveries(init, m));
        }
    }
}

proof fn lemma_media_for_one(ws: Seq<Watcher>, m: Media, i: int)
    requires
        0 <= i < ws.len(),
        forall|a: int, b: int| 0 <= a < ws.len() && 0 <= b < ws.len() && a != b ==> (#[trigger] ws[a]).id != (#[trigger] ws[b]).id,
    ensures
        media_for(media_deliveries(ws, m), ws[i].id) == if forwards(ws[i], m) {
            seq![m@]
        } else {
            Seq::<(bool, u32, Seq<u8>)>::empty()
        },
    decreases ws.len(),
{
    let init = ws.drop_last();
    let id = ws[i].id;
    if i == ws.len() - 1 {
        assert forall|j: int| 0 <= j < init.len() implies (#[trigger] init[j]).id != id by {
            assert(init[j] == ws[j]);
            assert(ws[j].id != ws[i].id);
        }
        lemma_media_for_absent(init, m, id);
        if forwards(ws.last(), m) {
            assert(media_deliveries(ws, m).drop_last() == media_deliveries(init, m));
            assert(Seq::<(bool, u32, Seq<u8>)>::empty().push(m@) =~= seq![m@]);
        }
    } else {
        assert(init[i] == ws[i]);
        assert forall|a: int, b: int| 0 <= a < init.len() && 0 <= b < init.len() && a != b implies (#[trigger] init[a]).id
            != (#[trigger] init[b]).id by {
            assert(init[a] == ws[a] && init[b] == ws[b]);
        }
        lemma_media_for_one(init, m, i);
        assert(ws.last().id != id) by {
            assert(ws.last() == ws[ws.len() - 1]);
        }
        if forwards(ws.last(), m) {
            assert(media_deliveries(ws, m).drop_last() == media_deliveries(init, m));
        }
    }
}

/// One `route_media` call, seen by one player: what the call delivers to
/// it, followed by what it is sent of the publisher's later media, is what
/// `observed` gives for the whole run. So `observed`, and the laws above,
/// describe what a player receives over a run of `route_media` calls.
pub proof fn lemma_route_step(before: FanoutChannel, after: FanoutChannel, m: Media, r: Seq<Delivery>, i: int, later: Seq<Media>)
    requires
        before.wf(),
        routed(before, after, m, r),
        0 <= i < before.watchers_spec().len(),
    ensures
        after.watchers_spec()[i].id == before.watchers_spec()[i].id,
        media_for(
            media_deliveries_of(r),
            before.watchers_spec()[i].id,
        ) + observed(after.watchers_spec()[i].received_keyframe, later) == observed(
            before.watchers_spec()[i].received_keyframe,
            seq![m] + later,
        ),
{
    let ws = before.watchers_spec();
    let whole = seq![m] + later;
    assert(whole[0] == m);
    assert(whole.skip(1) =~= later);
    let views = r.map_values(|d: Delivery| delivery_view(d));
    let picked = media_deliveries_of(r);
    if m.is_sequence_header_spec() {
        assert(views =~= Seq::<(ConnectionId, Option<(bool, u32, Seq<u8>)>)>::empty());
        assert(views.filter(|v: (ConnectionId, Option<(bool, u32, Seq<u8>)>)| v.1 is Some) =~= Seq::<(ConnectionId, Option<(bool, u32, Seq<u8>)>)>::empty());
        assert(picked =~= Seq::<(ConnectionId, (bool, u32, Seq<u8>))>::empty());
        assert(Seq::<(bool, u32, Seq<u8>)>::empty() + observed(ws[i].received_keyframe, later) =~= observed(ws[i].received_keyframe, later));
    } else {
        let md = media_deliveries(ws, m);
        let lifted = md.map_values(|e: (ConnectionId, (bool, u32, Seq<u8>))| (e.0, Some(e.1)));
        assert(views == lifted);
        assert(lifted.filter(|v: (ConnectionId, Option<(bool, u32, Seq<u8>)>)| v.1 is Some) =~= lifted) by {
            lemma_filter_all_some(lifted);
        }
        assert(picked =~= md);
        assert forall|a: int, b: int| 0 <= a < ws.len() && 0 <= b < ws.len() && a != b implies (#[trigger] ws[a]).id
            != (#[trigger] ws[b]).id by {
            assert(before.watchers_spec()[a].id != before.watchers_spec()[b].id);
        }
        lemma_media_for_one(ws, m, i);
        if forwards(ws[i], m) {
            assert(seq![m@] + observed(after_offer(ws[i], m).received_keyframe, later) =~= observed(ws[i].received_keyframe, whole));
        } else {
            assert(Seq::<(bool, u32, Seq<u8>)>::empty() + observed(ws[i].received_keyframe, later) =~= observed(ws[i].received_keyframe, later));
        }
    }
}

proof fn lemma_filter_all_some(s: Seq<(ConnectionId, Option<(bool, u32, Seq<u8>)>)>)
    requires
        forall|j: int| 0 <= j < s.len() ==> (#[trigger] s[j]).1 is Some,
    ensures
        s.filter(|v: (ConnectionId, Option<(bool, u32, Seq<u8>)>)| v.1 is Some) == s,
    decreases s.len(),
{
    reveal(Seq::filter);
    if s.len() > 0 {
        let init = s.drop_last();
        assert forall|j: int| 0 <= j < init.len() implies (#[trigger] init[j]).1 is Some by {
            assert(init[j] == s[j]);
        }
        lemma_filter_all_some(init);
        assert(s.last() == s[s.len() - 1]);
        assert(init.push(s.last()) =~= s);
    }
}

/// What a run of `route_media` calls delivered to player `id`, in order.
pub open spec fn delivered_run(rs: Seq<Seq<Delivery>>, id: ConnectionId) -> Seq<(bool, u32, Seq<u8>)>
    decreases rs.len(),
{
    if rs.len() == 0 {
        Seq::empty()
    } else {
        media_for(media_deliveries_of(rs[0]), id) + delivered_run(rs.skip(1), id)
    }
}

/// Over a run of `route_media` calls, channel `cs[j]` routing `ms[j]` with
/// deliveries `rs[j]` into `cs[j + 1]`, the player at index `i` is sent
/// exactly `observed` of the publisher's media, from its flag at the start:
/// with the laws on `observed`, its video starts at a keyframe and from
/// there it is sent every broadcast unit in the publisher's order.
pub proof fn lemma_route_run(cs: Seq<FanoutChannel>, ms: Seq<Media>, rs: Seq<Seq<Delivery>>, i: int)
    requires
        cs.len() == ms.len() + 1,
        rs.len() == ms.len(),
        forall|j: int| 0 <= j < cs.len() ==> (#[trigger] cs[j]).wf(),
        forall|j: int| 0 <= j < ms.len() ==> routed(#[trigger] cs[j], cs[j + 1], ms[j], rs[j]),
        0 <= i < cs[0].watchers_spec().len(),
    ensures
        delivered_run(rs, cs[0].watchers_spec()[i].id) == observed(cs[0].watchers_spec()[i].received_keyframe, ms),
    decreases ms.len(),
{
    if ms.len() > 0 {
        let c0 = cs[0];
        let c1 = cs[1];
        assert(routed(cs[0], cs[1], ms[0], rs[0]));
        lemma_route_step(c0, c1, ms[0], rs[0], i, ms.skip(1));
        assert(seq![ms[0]] + ms.skip(1) =~= ms);
        let cs2 = cs.skip(1);
        let ms2 = ms.skip(1);
        let rs2 = rs.skip(1);
        assert(c1.watchers_spec().len() == c0.watchers_spec().len());
        assert forall|j: int| 0 <= j < cs2.len() implies (#[trigger] cs2[j]).wf() by {
            assert(cs2[j] == cs[j + 1]);
        }
        assert forall|j: int| 0 <= j < ms2.len() implies routed(#[trigger] cs2[j], cs2[j + 1], ms2[j], rs2[j]) by {
            assert(cs2[j] == cs[j + 1] && cs2[j + 1] == cs[j + 2] && ms2[j] == ms[j + 1] && rs2[j] == rs[j + 1]);
            assert(routed(cs[j + 1], cs[j + 2], ms[j + 1], rs[j + 1]));
        }
        assert(cs2[0] == c1);
        lemma_route_run(cs2, ms2, rs2, i);
    } else {
        assert(delivered_run(rs, cs[0].watchers_spec()[i].id) == Seq::<(bool, u32, Seq<u8>)>::empty());
    }
}

/// After a publish that replaced a holder, a run of `route_media` calls
/// sends each player what a new player is sent: the first video it gets of
/// the new publisher is a keyframe.
pub proof fn lemma_replace_then_run(
    before: FanoutChannel,
    conn: ConnectionId,
    key: Seq<char>,
    r: Result<Option<ConnectionId>, ChannelError>,
    cs: Seq<FanoutChannel>,
    ms: Seq<Media>,
    rs: Seq<Seq<Delivery>>,
    i: int,
)
    requires
        before.publisher_spec() is Some,
        cs.len() == ms.len() + 1,
        publish_applied(before, cs[0], conn, key, RepublishAction::Replace, r),
        rs.len() == ms.len(),
        forall|j: int| 0 <= j < cs.len() ==> (#[trigger] cs[j]).wf(),
        forall|j: int| 0 <= j < ms.len() ==> routed(#[trigger] cs[j], cs[j + 1], ms[j], rs[j]),
        0 <= i < cs[0].watchers_spec().len(),
    ensures
        delivered_run(rs, cs[0].watchers_spec()[i].id) == observed(false, ms),
        forall|k: int|
            0 <= k < observed(false, ms).len() && (#[trigger] observed(false, ms)[k]).0 && (forall|j: int|
                0 <= j < k ==> !observed(false, ms)[j].0) ==> crate::media::video_is_keyframe(observed(false, ms)[k].2),
{
    lemma_replace_regates_players(before, cs[0], conn, key, r);
    lemma_route_run(cs, ms, rs, i);
    lemma_first_video_is_keyframe(ms);
}

} // verus!
