//! The HLS segmenter of one application: keyframe-aligned, time-gated
//! segment cuts and the playlist they feed.
use vstd::prelude::*;
use vstd::string::StringExecFns;
use crate::decimal::{decimal, push_decimal};
use crate::playlist::{Playlist, Segment};

verus! {

/// Milliseconds of media between two segment cuts at least.
pub const WRITE_INTERVAL_MS: u64 = 2000;

/// A segment to write out: the buffered packets go to `filename`, which
/// joins the playlist; `evicted` left the playlist and is to be deleted
/// after `reap_delay_ms`.
pub struct SegmentCut {
    pub filename: String,
    pub duration_ms: u64,
    pub evicted: Option<Segment>,
    pub reap_delay_ms: u64,
}

/// What to do with one video packet.
pub enum VideoAction {
    /// A sequence header: keep it as codec state, write nothing.
    StoreSequenceHeader,
    /// Add the packet to the segment buffer.
    Buffer,
    /// Write the buffer out as a segment first, then add the packet.
    CutThenBuffer(SegmentCut),
}

pub struct Writer {
    next_write: u64,
    last_keyframe: u32,
    keyframe_counter: u64,
    playlist: Playlist,
}

/// The name of a segment file: the time of the cut and the keyframe count.
pub open spec fn segment_name(unix_secs: u64, counter: u64) -> Seq<char> {
    decimal(unix_secs as nat) + seq!['-'] + decimal(counter as nat) + ".ts"@
}

/// The time between two keyframes, modulo the 32-bit timestamp range.
pub open spec fn keyframe_gap(from: u32, to: u32) -> u64 {
    if to >= from { (to - from) as u64 } else { (to + 0x1_0000_0000 - from) as u64 }
}

/// One video packet's effect on the segmenter, with the clock at `unix_secs`.
pub open spec fn video_step(before: Writer, after: Writer, timestamp: u32, is_sequence_header: bool, is_keyframe: bool, unix_secs: u64, r: VideoAction) -> bool {
    &&& is_sequence_header ==> r is StoreSequenceHeader && after == before
    &&& !is_sequence_header && !is_keyframe ==> r is Buffer && after == before
    &&& !is_sequence_header && is_keyframe ==> ({
            let gap = keyframe_gap(before.last_keyframe_spec(), timestamp);
            let cut = timestamp as u64 >= before.next_write_spec();
            let target = if before.keyframe_counter_spec() == 1 {
                if gap <= u64::MAX / 3 { (3 * gap) as u64 } else { u64::MAX }
            } else {
                before.playlist_spec().target_duration_spec()
            };
            &&& after.last_keyframe_spec() == timestamp
            &&& after.keyframe_counter_spec() == if before.keyframe_counter_spec() < u64::MAX {
                (before.keyframe_counter_spec() + 1) as u64
            } else {
                before.keyframe_counter_spec()
            }
            &&& after.playlist_spec().target_duration_spec() == target
            &&& after.playlist_spec().media_sequence_spec() >= before.playlist_spec().media_sequence_spec()
            &&& !cut ==> r is Buffer && after.next_write_spec() == before.next_write_spec()
                && after.playlist_spec().segments_spec() == before.playlist_spec().segments_spec()
            &&& cut ==> {
                let name = segment_name(unix_secs, before.keyframe_counter_spec());
                let all = before.playlist_spec().segments_spec().push((name, gap));
                &&& r matches VideoAction::CutThenBuffer(c) && c.filename@ == name && c.duration_ms == gap
                    && c.reap_delay_ms == gap
                    && (all.len() > crate::playlist::PLAYLIST_WINDOW ==> (c.evicted matches Some(s) && (s.filename@, s.duration_ms) == all[0]))
                    && (all.len() <= crate::playlist::PLAYLIST_WINDOW ==> c.evicted is None)
                &&& after.playlist_spec().segments_spec() == if all.len() > crate::playlist::PLAYLIST_WINDOW {
                    all.skip(1)
                } else {
                    all
                }
                &&& after.next_write_spec() == if before.next_write_spec() <= u64::MAX - WRITE_INTERVAL_MS {
                    (before.next_write_spec() + WRITE_INTERVAL_MS) as u64
                } else {
                    u64::MAX
                }
            }
        })
}

impl Writer {
    pub closed spec fn next_write_spec(&self) -> u64 {
        self.next_write
    }

    pub closed spec fn last_keyframe_spec(&self) -> u32 {
        self.last_keyframe
    }

    pub closed spec fn keyframe_counter_spec(&self) -> u64 {
        self.keyframe_counter
    }

    pub closed spec fn playlist_spec(&self) -> Playlist {
        self.playlist
    }

    pub open spec fn wf(&self) -> bool {
        self.playlist_spec().wf()
    }

    pub fn new() -> (r: Writer)
        ensures
            r.wf(),
            r.next_write_spec() == WRITE_INTERVAL_MS,
            r.last_keyframe_spec() == 0,
            r.keyframe_counter_spec() == 0,
            r.playlist_spec().segments_spec().len() == 0,
            r.playlist_spec().media_sequence_spec() == 0,
    {
        Writer {
            next_write: WRITE_INTERVAL_MS,
            last_keyframe: 0,
            keyframe_counter: 0,
            playlist: Playlist::new(),
        }
    }

    pub fn playlist(&self) -> (r: &Playlist)
        ensures
            *r == self.playlist_spec(),
    {
        &self.playlist
    }

    /// Decides on a video packet at `timestamp`, with the clock at
    /// `unix_secs`. A keyframe at or past the next write time cuts a segment
    /// named after the clock and the keyframe count; every keyframe counts
    /// and becomes the last one; the second keyframe sets the target
    /// duration to three keyframe intervals.
    pub fn handle_video_at(&mut self, timestamp: u32, is_sequence_header: bool, is_keyframe: bool, unix_secs: u64) -> (r: VideoAction)
        requires
            old(self).wf(),
        ensures
            final(self).wf(),
            video_step(*old(self), *final(self), timestamp, is_sequence_header, is_keyframe, unix_secs, r),

    {
        if is_sequence_header {
            return VideoAction::StoreSequenceHeader;
        }
        if !is_keyframe {
            return VideoAction::Buffer;
        }
        let gap: u64 = if timestamp >= self.last_keyframe {
            (timestamp - self.last_keyframe) as u64
        } else {
            (timestamp as u64 + 0x1_0000_0000u64) - self.last_keyframe as u64
        };
        if self.keyframe_counter == 1 {
            let target = if gap <= u64::MAX / 3 { 3 * gap } else { u64::MAX };
            self.playlist.set_target_duration(target);
        }
        let mut action = VideoAction::Buffer;
        if timestamp as u64 >= self.next_write {
            let mut filename = String::new();
            push_decimal(&mut filename, unix_secs);
            filename.append("-");
            push_decimal(&mut filename, self.keyframe_counter);
            filename.append(".ts");
            proof {
                reveal_strlit("-");
                assert(filename@ =~= segment_name(unix_secs, self.keyframe_counter));
            }
            let name = filename.clone();
            let evicted = self.playlist.add_media_segment(name, gap);
            self.next_write = if self.next_write <= u64::MAX - WRITE_INTERVAL_MS {
                self.next_write + WRITE_INTERVAL_MS
            } else {
                u64::MAX
            };
            action = VideoAction::CutThenBuffer(SegmentCut { filename, duration_ms: gap, evicted, reap_delay_ms: gap });
        }
        if self.keyframe_counter < u64::MAX {
            self.keyframe_counter = self.keyframe_counter + 1;
        }
        self.last_keyframe = timestamp;
        action
    }

    /// Whether an audio packet goes into the buffer: not before the first
    /// keyframe, and never a sequence header.
    pub fn handle_audio(&self, is_sequence_header: bool) -> (r: bool)
        ensures
            r == (self.keyframe_counter_spec() > 0 && !is_sequence_header),
    {
        self.keyframe_counter > 0 && !is_sequence_header
    }
}

} // verus!
