use javelin::codec::{aac_frame, avc_frame, parse_aac_config, parse_avc_config, AacConfig, CodecError, CodecState};
use javelin::transport::{first_chunk_len, pes_packet_len, ts_clock};

fn avc_header() -> Vec<u8> {
    vec![
        0x17, 0x00, 0, 0, 0, // tag, packet type, composition time
        0x01, 0x64, 0x00, 0x1F, 0xFF, // version, profile, compatibility, level, length size 4
        0xE1, 0x00, 0x03, 0x67, 0x64, 0x00, // one SPS
        0x01, 0x00, 0x02, 0x68, 0xEE, // one PPS
    ]
}

#[test]
fn avc_config_is_read() {
    let c = parse_avc_config(&avc_header()).unwrap();
    assert_eq!(c.length_size, 4);
    assert_eq!(c.parameter_sets, vec![0, 0, 0, 1, 0x67, 0x64, 0x00, 0, 0, 0, 1, 0x68, 0xEE]);
}

#[test]
fn avc_config_errors() {
    assert_eq!(parse_avc_config(&[0x27, 0x00]).err(), Some(CodecError::UnexpectedTag));
    let mut cut = avc_header();
    cut.truncate(14);
    assert_eq!(parse_avc_config(&cut).err(), Some(CodecError::Truncated));
}

#[test]
fn avc_frames_become_annexb() {
    let c = parse_avc_config(&avc_header()).unwrap();
    let key = avc_frame(&c, &[0x17, 1, 0, 0, 0, 0, 0, 0, 2, 0x65, 0x88, 0, 0, 0, 1, 0x06]).unwrap();
    assert_eq!(
        key,
        vec![0, 0, 0, 1, 0x67, 0x64, 0x00, 0, 0, 0, 1, 0x68, 0xEE, 0, 0, 0, 1, 0x65, 0x88, 0, 0, 0, 1, 0x06]
    );
    let inter = avc_frame(&c, &[0x27, 1, 0, 0, 0, 0, 0, 0, 1, 0x41]).unwrap();
    assert_eq!(inter, vec![0, 0, 0, 1, 0x41]);
    assert_eq!(avc_frame(&c, &[0x27, 1, 0, 0, 0, 0, 0, 0, 9, 0x41]).err(), Some(CodecError::Truncated));
    assert_eq!(avc_frame(&c, &[0x27, 0, 0, 0, 0]).err(), Some(CodecError::UnexpectedTag));
}

#[test]
fn aac_config_and_adts() {
    let c = parse_aac_config(&[0xAF, 0x00, 0x12, 0x10]).unwrap();
    assert_eq!(c, AacConfig { object_type: 2, sampling_index: 4, channels: 2 });
    let f = aac_frame(c, &[0xAF, 0x01, 0x21, 0x22]).unwrap();
    assert_eq!(f, vec![0xFF, 0xF1, 0x50, 0x80, 0x01, 0x3F, 0xFC, 0x21, 0x22]);
    assert_eq!(parse_aac_config(&[0xAF, 0x00, 0x02, 0x10]).err(), Some(CodecError::Unsupported));
    assert_eq!(aac_frame(c, &[0xAF, 0x00, 0x21]).err(), Some(CodecError::UnexpectedTag));
    let big = vec![0xAFu8; 9000];
    let mut raw = vec![0xAF, 0x01];
    raw.extend_from_slice(&big);
    assert_eq!(aac_frame(c, &raw).err(), Some(CodecError::Unsupported));
}

#[test]
fn codec_state_needs_headers_first() {
    let mut s = CodecState::new();
    assert_eq!(s.handle_video(&[0x27, 1, 0, 0, 0, 0, 0, 0, 1, 0x41]).err(), Some(CodecError::NoConfiguration));
    assert_eq!(s.handle_audio(&[0xAF, 1, 0x21]).err(), Some(CodecError::NoConfiguration));
    assert_eq!(s.handle_video(&avc_header()), Ok(None));
    assert_eq!(s.handle_audio(&[0xAF, 0x00, 0x12, 0x10]), Ok(None));
    assert_eq!(s.handle_video(&[0x27, 1, 0, 0, 0, 0, 0, 0, 1, 0x41]), Ok(Some(vec![0, 0, 0, 1, 0x41])));
    assert_eq!(
        s.handle_audio(&[0xAF, 0x01, 0x21, 0x22]),
        Ok(Some(vec![0xFF, 0xF1, 0x50, 0x80, 0x01, 0x3F, 0xFC, 0x21, 0x22]))
    );
}

#[test]
fn transport_arithmetic() {
    assert_eq!(ts_clock(1000), 90_000);
    assert_eq!(ts_clock(0), 0);
    // wraps at 33 bits
    assert_eq!(ts_clock(95_443_718), (95_443_718u64 * 90) % (1u64 << 33));
    assert_eq!(pes_packet_len(100), 108);
    assert_eq!(pes_packet_len(70_000), 0);
    assert_eq!(first_chunk_len(10, true), 10);
    assert_eq!(first_chunk_len(1000, true), 162);
    assert_eq!(first_chunk_len(1000, false), 170);
}
