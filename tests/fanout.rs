use javelin::auth::{AuthError, AuthTable};
use javelin::channel::{ChannelError, Delivery, FanoutChannel, Outbound};
use javelin::config::RepublishAction;
use javelin::media::Media;
use javelin::session::{SessionError, SessionManager};
use rml_rtmp::sessions::StreamMetadata;

fn table() -> AuthTable {
    let mut t = AuthTable::new();
    t.insert("live".to_string(), "secret".to_string());
    t
}

fn metadata() -> StreamMetadata {
    let mut m = StreamMetadata::new();
    m.video_width = Some(1280);
    m.video_height = Some(720);
    m
}

fn video_seq_header() -> Media {
    Media::H264(0, vec![0x17, 0x00, 0x01, 0x64])
}

fn audio_seq_header() -> Media {
    Media::AAC(0, vec![0xAF, 0x00, 0x12, 0x10])
}

fn keyframe(t: u32) -> Media {
    Media::H264(t, vec![0x17, 0x01, 0xAA])
}

fn p_frame(t: u32) -> Media {
    Media::H264(t, vec![0x27, 0x01, 0xBB])
}

fn audio(t: u32) -> Media {
    Media::AAC(t, vec![0xAF, 0x01, 0xCC])
}

fn media_of(d: &Delivery) -> Option<Media> {
    match &d.item {
        Outbound::Media(m) => Some(m.clone()),
        Outbound::Metadata(_) => None,
    }
}

#[test]
fn media_predicates_follow_tag_bytes() {
    assert!(video_seq_header().is_sequence_header());
    assert!(!video_seq_header().is_keyframe());
    assert!(audio_seq_header().is_sequence_header());
    assert!(keyframe(0).is_keyframe());
    assert!(keyframe(0).is_sendable());
    assert!(!p_frame(0).is_keyframe());
    assert!(!p_frame(0).is_sendable());
    assert!(audio(0).is_sendable());
    assert!(!audio(0).is_sequence_header());
    assert!(!Media::H264(0, vec![]).is_keyframe());
    assert_eq!(keyframe(40).timestamp(), 40);
}

#[test]
fn authentication_rule() {
    let t = table();
    assert_eq!(t.authenticate("live", "secret"), Ok(()));
    assert_eq!(
        t.authenticate("live", "wrong"),
        Err(AuthError::UnpermittedStreamKey { app_name: "live".to_string(), stream_key: "wrong".to_string() })
    );
    assert_eq!(
        t.authenticate("unknown", "secret"),
        Err(AuthError::UnknownApplication { app_name: "unknown".to_string() })
    );
    assert_eq!(t.authenticate("live", ""), Err(AuthError::EmptyStreamKey));
    assert_eq!(t.authenticate("", "secret"), Err(AuthError::UnknownApplication { app_name: String::new() }));
}

#[test]
fn auth_table_insert_replaces_key() {
    let mut t = table();
    t.insert("live".to_string(), "other".to_string());
    assert_eq!(t.get("live").map(|s| s.as_str()), Some("other"));
    assert!(t.get("none").is_none());
    assert_eq!(t.authenticate("live", "other"), Ok(()));
}

#[test]
fn s4_auth_fail_through_manager() {
    let mut m = SessionManager::new(table(), RepublishAction::Replace);
    assert!(matches!(m.authenticate(1, "live", "wrong"), Err(AuthError::UnpermittedStreamKey { .. })));
    assert!(matches!(m.authenticate(1, "unknown", "any"), Err(AuthError::UnknownApplication { .. })));
    assert_eq!(m.authenticate(1, "live", ""), Err(AuthError::EmptyStreamKey));
    assert_eq!(m.register_source(1, "live"), Err(SessionError::NotAuthenticated));
}

#[test]
fn s1_publish_and_play() {
    let mut m = SessionManager::new(table(), RepublishAction::Replace);
    assert_eq!(m.authenticate(1, "live", "secret"), Ok(()));
    assert_eq!(m.register_source(1, "live"), Ok(None));
    assert!(m.set_metadata(1, "live", metadata()).is_empty());
    assert!(m.route_media(1, "live", &audio_seq_header()).is_empty());
    assert!(m.route_media(1, "live", &video_seq_header()).is_empty());

    let replay = m.register_sink(2, "live");
    assert_eq!(replay.len(), 3);
    assert!(replay.iter().all(|d| d.to == 2));
    assert!(matches!(&replay[0].item, Outbound::Metadata(md) if *md == metadata()));
    assert_eq!(media_of(&replay[1]), Some(video_seq_header()));
    assert_eq!(media_of(&replay[2]), Some(audio_seq_header()));

    let v1 = m.route_media(1, "live", &keyframe(0));
    assert_eq!(v1.len(), 1);
    assert_eq!(v1[0].to, 2);
    assert_eq!(media_of(&v1[0]), Some(keyframe(0)));
    let v2 = m.route_media(1, "live", &p_frame(40));
    assert_eq!(v2.len(), 1);
    assert_eq!(media_of(&v2[0]), Some(p_frame(40)));
}

#[test]
fn only_the_publisher_routes_media() {
    let mut m = SessionManager::new(table(), RepublishAction::Replace);
    m.authenticate(1, "live", "secret").unwrap();
    m.register_source(1, "live").unwrap();
    m.register_sink(2, "live");
    assert!(m.route_media(3, "live", &keyframe(0)).is_empty());
    assert!(m.route_media(1, "other", &keyframe(0)).is_empty());
    assert_eq!(m.route_media(1, "live", &keyframe(0)).len(), 1);
}

#[test]
fn s2_republish_replace() {
    let mut m = SessionManager::new(table(), RepublishAction::Replace);
    m.authenticate(1, "live", "secret").unwrap();
    m.register_source(1, "live").unwrap();
    m.register_sink(3, "live");
    m.route_media(1, "live", &video_seq_header());
    m.route_media(1, "live", &keyframe(0));
    m.route_media(1, "live", &p_frame(5000));

    m.authenticate(2, "live", "secret").unwrap();
    assert_eq!(m.register_source(2, "live"), Ok(Some(1)));
    // the old publisher no longer routes anything
    assert!(m.route_media(1, "live", &keyframe(5040)).is_empty());
    // the player waits for the new publisher's keyframe: earlier video is held back
    assert!(m.route_media(2, "live", &p_frame(0)).is_empty());
    let d = m.route_media(2, "live", &keyframe(0));
    assert_eq!(d.len(), 1);
    assert_eq!(d[0].to, 3);
    assert_eq!(media_of(&d[0]), Some(keyframe(0)));
}

#[test]
fn s3_republish_deny() {
    let mut m = SessionManager::new(table(), RepublishAction::Deny);
    m.authenticate(1, "live", "secret").unwrap();
    m.register_source(1, "live").unwrap();
    m.register_sink(3, "live");
    m.authenticate(2, "live", "secret").unwrap();
    assert_eq!(m.register_source(2, "live"), Err(SessionError::RepublishDenied { app_name: "live".to_string() }));
    assert_eq!(m.route_media(1, "live", &keyframe(0)).len(), 1);
    assert!(m.route_media(2, "live", &keyframe(0)).is_empty());
}

#[test]
fn channel_replace_returns_previous_publisher_once() {
    let mut c = FanoutChannel::new();
    assert_eq!(c.set_publisher(1, "k".to_string(), RepublishAction::Replace), Ok(None));
    assert_eq!(c.set_publisher(2, "k".to_string(), RepublishAction::Replace), Ok(Some(1)));
    assert_eq!(c.publisher(), Some(2));
    assert_eq!(c.set_publisher(3, "k".to_string(), RepublishAction::Deny), Err(ChannelError::RepublishDenied));
    assert_eq!(c.publisher(), Some(2));
}

#[test]
fn replace_clears_sequence_headers() {
    let mut c = FanoutChannel::new();
    c.set_publisher(1, "k".to_string(), RepublishAction::Replace).unwrap();
    c.route_media(&video_seq_header());
    c.route_media(&audio_seq_header());
    c.set_metadata(metadata());
    assert_eq!(c.add_watcher(5).len(), 3);
    c.set_publisher(2, "k".to_string(), RepublishAction::Replace).unwrap();
    assert_eq!(c.add_watcher(6).len(), 0);
    assert_eq!(c.watchers().len(), 2);
}

#[test]
fn new_watcher_skips_p_frames_until_keyframe() {
    let mut c = FanoutChannel::new();
    c.set_publisher(1, "k".to_string(), RepublishAction::Replace).unwrap();
    c.add_watcher(7);
    assert!(c.route_media(&p_frame(0)).is_empty());
    let a = c.route_media(&audio(10));
    assert_eq!(a.len(), 1);
    assert!(c.route_media(&p_frame(20)).is_empty());
    assert_eq!(c.route_media(&keyframe(40)).len(), 1);
    assert!(c.watchers()[0].received_keyframe);
    assert_eq!(c.route_media(&p_frame(80)).len(), 1);
}

#[test]
fn metadata_goes_to_every_watcher() {
    let mut c = FanoutChannel::new();
    c.add_watcher(1);
    c.add_watcher(2);
    c.add_watcher(2);
    let d = c.set_metadata(metadata());
    assert_eq!(d.iter().map(|x| x.to).collect::<Vec<_>>(), vec![1, 2]);
}

#[test]
fn finished_unpublishes_or_removes_watcher() {
    let mut m = SessionManager::new(table(), RepublishAction::Deny);
    m.authenticate(1, "live", "secret").unwrap();
    m.register_source(1, "live").unwrap();
    m.register_sink(2, "live");
    m.finished(2, "live");
    assert!(m.route_media(1, "live", &keyframe(0)).is_empty());
    m.register_sink(2, "live");
    m.finished(1, "live");
    // slot is free again even under Deny
    m.authenticate(3, "live", "secret").unwrap();
    assert_eq!(m.register_source(3, "live"), Ok(None));
}

#[test]
fn remove_watcher_keeps_others() {
    let mut c = FanoutChannel::new();
    c.add_watcher(1);
    c.add_watcher(2);
    c.add_watcher(3);
    c.remove_watcher(2);
    let ids: Vec<u64> = c.watchers().iter().map(|w| w.id).collect();
    assert_eq!(ids, vec![1, 3]);
    c.unpublish();
    assert_eq!(c.watchers().len(), 2);
}

#[test]
fn is_authenticated_matches_rule() {
    let t = table();
    assert!(t.is_authenticated("live", "secret"));
    assert!(!t.is_authenticated("live", ""));
    assert!(!t.is_authenticated("live", "nope"));
    assert!(!t.is_authenticated("other", "secret"));
}

#[test]
fn unpublish_regates_players() {
    let mut c = FanoutChannel::new();
    c.set_publisher(1, "k".to_string(), RepublishAction::Replace).unwrap();
    c.add_watcher(7);
    c.route_media(&keyframe(0));
    assert!(c.watchers()[0].received_keyframe);
    c.unpublish();
    assert!(!c.watchers()[0].received_keyframe);
    assert_eq!(c.watchers()[0].id, 7);
    c.set_publisher(2, "k".to_string(), RepublishAction::Replace).unwrap();
    assert!(c.route_media(&p_frame(10)).is_empty());
    assert_eq!(c.route_media(&keyframe(20)).len(), 1);
}
