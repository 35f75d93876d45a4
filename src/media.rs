//! Media units received from a publisher, and the predicates read from
//! their FLV tag headers.
use vstd::prelude::*;

verus! {

/// A 32-bit RTMP timestamp in milliseconds.
pub type Timestamp = u32;

/// FLV video tag header byte for an AVC keyframe.
pub const AVC_KEYFRAME_TAG: u8 = 0x17;

/// FLV sound format nibble for AAC.
pub const AAC_SOUND_FORMAT: u8 = 10;

/// One unit of publisher media: the FLV tag body and its timestamp.
#[derive(Clone, Debug, PartialEq, Eq)]
pub enum Media {
    H264(Timestamp, Vec<u8>),
    AAC(Timestamp, Vec<u8>),
}

/// An AVC tag whose packet type says it carries the decoder configuration.
pub open spec fn video_is_sequence_header(p: Seq<u8>) -> bool {
    p.len() >= 2 && p[0] == AVC_KEYFRAME_TAG && p[1] == 0
}

/// An AVC tag holding the coded frames of a keyframe.
pub open spec fn video_is_keyframe(p: Seq<u8>) -> bool {
    p.len() >= 2 && p[0] == AVC_KEYFRAME_TAG && p[1] == 1
}

/// An AAC tag whose packet type says it carries the AudioSpecificConfig.
pub open spec fn audio_is_sequence_header(p: Seq<u8>) -> bool {
    p.len() >= 2 && p[0] / 16 == AAC_SOUND_FORMAT && p[1] == 0
}

/// Whether a video tag body is an AVC sequence header.
pub fn is_video_sequence_header(p: &[u8]) -> (r: bool)
    ensures
        r == video_is_sequence_header(p@),
{
    p.len() >= 2 && p[0] == AVC_KEYFRAME_TAG && p[1] == 0
}

/// Whether an audio tag body is an AAC sequence header.
pub fn is_audio_sequence_header(p: &[u8]) -> (r: bool)
    ensures
        r == audio_is_sequence_header(p@),
{
    p.len() >= 2 && p[0] / 16 == AAC_SOUND_FORMAT && p[1] == 0
}

impl View for Media {
    /// Whether it is video, its timestamp and its payload.
    type V = (bool, Timestamp, Seq<u8>);

    open spec fn view(&self) -> (bool, Timestamp, Seq<u8>) {
        (self.is_video(), self.timestamp_spec(), self.payload_spec())
    }
}

impl Media {
    pub open spec fn is_video(&self) -> bool {
        self is H264
    }

    pub open spec fn timestamp_spec(&self) -> Timestamp {
        match self {
            Media::H264(t, _) => *t,
            Media::AAC(t, _) => *t,
        }
    }

    pub open spec fn payload_spec(&self) -> Seq<u8> {
        match self {
            Media::H264(_, p) => p@,
            Media::AAC(_, p) => p@,
        }
    }

    pub open spec fn is_sequence_header_spec(&self) -> bool {
        match self {
            Media::H264(_, p) => video_is_sequence_header(p@),
            Media::AAC(_, p) => audio_is_sequence_header(p@),
        }
    }

    pub open spec fn is_keyframe_spec(&self) -> bool {
        match self {
            Media::H264(_, p) => video_is_keyframe(p@),
            Media::AAC(_, _) => false,
        }
    }

    /// Media that a player may start from: any audio, and video that is a
    /// keyframe or a sequence header.
    pub open spec fn is_sendable_spec(&self) -> bool {
        match self {
            Media::H264(_, _) => self.is_keyframe_spec() || self.is_sequence_header_spec(),
            Media::AAC(_, _) => true,
        }
    }

    /// A copy of this media unit.
    pub fn duplicate(&self) -> (r: Media)
        ensures
            r@ == self@,
            r.is_sequence_header_spec() == self.is_sequence_header_spec(),
            r.is_keyframe_spec() == self.is_keyframe_spec(),
            r.is_sendable_spec() == self.is_sendable_spec(),
    {
        match self {
            Media::H264(t, p) => {
                let q = p.clone();
                assert(q@ =~= p@);
                Media::H264(*t, q)
            },
            Media::AAC(t, p) => {
                let q = p.clone();
                assert(q@ =~= p@);
                Media::AAC(*t, q)
            },
        }
    }

    pub fn timestamp(&self) -> (r: Timestamp)
        ensures
            r == self.timestamp_spec(),
    {
        match self {
            Media::H264(t, _) => *t,
            Media::AAC(t, _) => *t,
        }
    }

    pub fn payload(&self) -> (r: &Vec<u8>)
        ensures
            r@ == self.payload_spec(),
    {
        match self {
            Media::H264(_, p) => p,
            Media::AAC(_, p) => p,
        }
    }

    pub fn is_sequence_header(&self) -> (r: bool)
        ensures
            r == self.is_sequence_header_spec(),
    {
        match self {
            Media::H264(_, p) => p.len() >= 2 && p[0] == AVC_KEYFRAME_TAG && p[1] == 0,
            Media::AAC(_, p) => p.len() >= 2 && p[0] / 16 == AAC_SOUND_FORMAT && p[1] == 0,
        }
    }

    pub fn is_keyframe(&self) -> (r: bool)
        ensures
            r == self.is_keyframe_spec(),
    {
        match self {
            Media::H264(_, p) => p.len() >= 2 && p[0] == AVC_KEYFRAME_TAG && p[1] == 1,
            Media::AAC(_, _) => false,
        }
    }

    pub fn is_sendable(&self) -> (r: bool)
        ensures
            r == self.is_sendable_spec(),
    {
        match self {
            Media::H264(_, _) => self.is_keyframe() || self.is_sequence_header(),
            Media::AAC(_, _) => true,
        }
    }
}

} // verus!
