use javelin::decimal::{push_decimal, push_padded};
use javelin::playlist::Playlist;
use javelin::reaper::Reaper;
use javelin::segmenter::{VideoAction, Writer};

#[test]
fn decimal_rendering() {
    let mut s = String::new();
    push_decimal(&mut s, 0);
    assert_eq!(s, "0");
    let mut s = String::from("x");
    push_decimal(&mut s, 1234567890);
    assert_eq!(s, "x1234567890");
    let mut s = String::new();
    push_padded(&mut s, 40, 3);
    assert_eq!(s, "040");
}

#[test]
fn playlist_text_exact() {
    let mut p = Playlist::new();
    p.set_target_duration(6000);
    p.add_media_segment("100-1.ts".to_string(), 2000);
    p.add_media_segment("102-2.ts".to_string(), 2040);
    assert_eq!(
        p.render(),
        "#EXTM3U\n#EXT-X-VERSION:3\n#EXT-X-TARGETDURATION:6\n#EXT-X-MEDIA-SEQUENCE:0\n\
         #EXTINF:2.000,\n100-1.ts\n#EXTINF:2.040,\n102-2.ts\n"
    );
}

#[test]
fn target_duration_rounds_up() {
    let mut p = Playlist::new();
    p.set_target_duration(6001);
    assert!(p.render().contains("#EXT-X-TARGETDURATION:7\n"));
}

#[test]
fn playlist_window_is_six() {
    let mut p = Playlist::new();
    for i in 0..6u64 {
        assert!(p.add_media_segment(format!("{}.ts", i), 2000).is_none());
    }
    assert_eq!(p.len(), 6);
    assert_eq!(p.media_sequence(), 0);
    let evicted = p.add_media_segment("6.ts".to_string(), 2000).unwrap();
    assert_eq!(evicted.filename, "0.ts");
    assert_eq!(p.len(), 6);
    assert_eq!(p.media_sequence(), 1);
    let text = p.render();
    assert!(!text.contains("\n0.ts\n"));
    assert!(text.contains("\n6.ts\n"));
    assert_eq!(text.matches("#EXTINF").count(), 6);
}

#[test]
fn s5_segment_roll() {
    let mut w = Writer::new();
    let mut cuts = Vec::new();
    for t in [0u32, 2000, 4000, 6000, 8000, 10000, 12000, 14000] {
        match w.handle_video_at(t, false, true, 1700000000) {
            VideoAction::CutThenBuffer(c) => cuts.push(c),
            VideoAction::Buffer => assert_eq!(t, 0),
            VideoAction::StoreSequenceHeader => panic!("not a header"),
        }
    }
    let names: Vec<String> = cuts.iter().map(|c| c.filename.clone()).collect();
    assert_eq!(names, (1..=7).map(|n| format!("1700000000-{}.ts", n)).collect::<Vec<_>>());
    assert!(cuts.iter().all(|c| c.duration_ms == 2000));
    assert!(cuts[..6].iter().all(|c| c.evicted.is_none()));
    let last = &cuts[6];
    assert_eq!(last.evicted.as_ref().unwrap().filename, "1700000000-1.ts");
    assert_eq!(last.reap_delay_ms, 2000);
    let text = w.playlist().render();
    assert_eq!(text.matches("#EXTINF").count(), 6);
    assert!(!text.contains("1700000000-1.ts"));
    assert!(text.contains("1700000000-7.ts"));
    assert!(text.contains("#EXT-X-TARGETDURATION:6\n"));
    assert!(text.contains("#EXT-X-MEDIA-SEQUENCE:1\n"));

    let mut r = Reaper::new();
    r.schedule(50_000, last.reap_delay_ms, vec![last.evicted.as_ref().unwrap().filename.clone()]);
    assert!(r.take_due(52_999).is_empty());
    let due = r.take_due(53_000);
    assert_eq!(due.len(), 1);
    assert_eq!(due[0].files, vec!["1700000000-1.ts".to_string()]);
    assert!(r.take_due(99_000).is_empty());
}

#[test]
fn no_segment_before_two_seconds() {
    let mut w = Writer::new();
    assert!(matches!(w.handle_video_at(0, true, false, 1), VideoAction::StoreSequenceHeader));
    assert!(matches!(w.handle_video_at(0, false, true, 1), VideoAction::Buffer));
    assert!(matches!(w.handle_video_at(40, false, false, 1), VideoAction::Buffer));
    assert!(matches!(w.handle_video_at(1960, false, true, 1), VideoAction::Buffer));
    assert_eq!(w.playlist().len(), 0);
}

#[test]
fn audio_waits_for_first_keyframe() {
    let mut w = Writer::new();
    assert!(!w.handle_audio(false));
    w.handle_video_at(0, false, true, 1);
    assert!(w.handle_audio(false));
    assert!(!w.handle_audio(true));
}

#[test]
fn keyframe_gap_wraps_timestamps() {
    let mut w = Writer::new();
    w.handle_video_at(u32::MAX - 999, false, true, 1);
    match w.handle_video_at(1000, false, true, 7) {
        VideoAction::Buffer => {}
        _ => panic!("timestamp below next write"),
    }
    // second keyframe set the target to three times the 2000 ms gap
    assert!(w.playlist().render().contains("#EXT-X-TARGETDURATION:6\n"));
}

#[test]
fn reaper_keeps_order_and_pending() {
    let mut r = Reaper::new();
    r.schedule(0, 1000, vec!["a".to_string()]);
    r.schedule(0, 4000, vec!["b".to_string()]);
    r.schedule(100, 1000, vec!["c".to_string(), "d".to_string()]);
    let due = r.take_due(1600);
    assert_eq!(due.iter().map(|b| b.files.clone()).collect::<Vec<_>>(), vec![vec!["a".to_string()], vec!["c".to_string(), "d".to_string()]]);
    let rest = r.take_due(u64::MAX);
    assert_eq!(rest.len(), 1);
    assert_eq!(rest[0].due_ms, 6000);
}

#[test]
fn reaper_saturates() {
    let mut r = Reaper::new();
    r.schedule(u64::MAX - 10, 1000, vec![]);
    assert_eq!(r.take_due(u64::MAX)[0].due_ms, u64::MAX);
}
