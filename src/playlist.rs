//! The rolling HLS playlist: the newest segments, the sequence number of the
//! first, and their EXTM3U text.
use vstd::prelude::*;
use vstd::string::StringExecFns;
use crate::decimal::{decimal, padded, push_decimal, push_padded};

verus! {

/// How many segments the playlist lists at most.
pub const PLAYLIST_WINDOW: usize = 6;

/// The target duration before the first keyframe interval is known.
pub const DEFAULT_TARGET_DURATION_MS: u64 = 6000;

/// A segment file of the stream directory and how long it plays.
#[derive(Clone, Debug)]
pub struct Segment {
    pub filename: String,
    pub duration_ms: u64,
}

pub struct Playlist {
    segments: Vec<Segment>,
    target_duration_ms: u64,
    media_sequence: u64,
}

/// Whole seconds, rounded up.
pub open spec fn seconds_up(ms: nat) -> nat {
    if ms % 1000 == 0 { ms / 1000 } else { ms / 1000 + 1 }
}

/// A duration in seconds with three decimals.
pub open spec fn seconds_text(ms: nat) -> Seq<char> {
    decimal(ms / 1000) + seq!['.'] + padded(ms % 1000, 3)
}

/// The `#EXTINF` lines of `segs`, in order.
pub open spec fn entries_text(segs: Seq<(Seq<char>, u64)>) -> Seq<char>
    decreases segs.len(),
{
    if segs.len() == 0 {
        Seq::empty()
    } else {
        let (name, d) = segs.last();
        entries_text(segs.drop_last()) + "#EXTINF:"@ + seconds_text(d as nat) + ",\n"@ + name + "\n"@
    }
}

/// The whole playlist file.
pub open spec fn playlist_text(target_ms: u64, sequence: u64, segs: Seq<(Seq<char>, u64)>) -> Seq<char> {
    "#EXTM3U\n#EXT-X-VERSION:3\n#EXT-X-TARGETDURATION:"@ + decimal(seconds_up(target_ms as nat))
        + "\n#EXT-X-MEDIA-SEQUENCE:"@ + decimal(sequence as nat) + "\n"@ + entries_text(segs)
}

impl Playlist {
    pub closed spec fn segments_spec(&self) -> Seq<(Seq<char>, u64)> {
        self.segments@.map_values(|s: Segment| (s.filename@, s.duration_ms))
    }

    pub closed spec fn target_duration_spec(&self) -> u64 {
        self.target_duration_ms
    }

    pub closed spec fn media_sequence_spec(&self) -> u64 {
        self.media_sequence
    }

    /// The window is never exceeded.
    pub open spec fn wf(&self) -> bool {
        self.segments_spec().len() <= PLAYLIST_WINDOW
    }

    pub fn new() -> (r: Playlist)
        ensures
            r.wf(),
            r.segments_spec().len() == 0,
            r.target_duration_spec() == DEFAULT_TARGET_DURATION_MS,
            r.media_sequence_spec() == 0,
    {
        let r = Playlist { segments: Vec::new(), target_duration_ms: DEFAULT_TARGET_DURATION_MS, media_sequence: 0 };
        assert(r.segments_spec() =~= Seq::<(Seq<char>, u64)>::empty());
        r
    }

    pub fn set_target_duration(&mut self, ms: u64)
        requires
            old(self).wf(),
        ensures
            final(self).wf(),
            final(self).target_duration_spec() == ms,
            final(self).segments_spec() == old(self).segments_spec(),
            final(self).media_sequence_spec() == old(self).media_sequence_spec(),
    {
        self.target_duration_ms = ms;
    }

    pub fn len(&self) -> (r: usize)
        ensures
            r == self.segments_spec().len(),
    {
        self.segments.len()
    }

    pub fn media_sequence(&self) -> (r: u64)
        ensures
            r == self.media_sequence_spec(),
    {
        self.media_sequence
    }

    /// Appends a segment; past the window the oldest one leaves, is returned
    /// for deletion, and the media sequence moves on by one.
    pub fn add_media_segment(&mut self, filename: String, duration_ms: u64) -> (r: Option<Segment>)
        requires
            old(self).wf(),
        ensures
            final(self).wf(),
            final(self).target_duration_spec() == old(self).target_duration_spec(),
            final(self).media_sequence_spec() >= old(self).media_sequence_spec(),
            ({
                let all = old(self).segments_spec().push((filename@, duration_ms));
                if all.len() > PLAYLIST_WINDOW {
                    &&& r matches Some(s) && (s.filename@, s.duration_ms) == all[0]
                    &&& final(self).segments_spec() == all.skip(1)
                    &&& final(self).media_sequence_spec() == if old(self).media_sequence_spec() < u64::MAX {
                        (old(self).media_sequence_spec() + 1) as u64
                    } else {
                        old(self).media_sequence_spec()
                    }
                } else {
                    &&& r is None
                    &&& final(self).segments_spec() == all
                    &&& final(self).media_sequence_spec() == old(self).media_sequence_spec()
                }
            }),
    {
        let ghost f = filename@;
        self.segments.push(Segment { filename, duration_ms });
        let ghost all = old(self).segments_spec().push((f, duration_ms));
        assert(self.segments_spec() =~= all);
        if self.segments.len() > PLAYLIST_WINDOW {
            let first = self.segments.remove(0);
            assert(self.segments_spec() =~= all.skip(1));
            if self.media_sequence < u64::MAX {
                self.media_sequence = self.media_sequence + 1;
            }
            Some(first)
        } else {
            None
        }
    }

    /// The EXTM3U text of the playlist.
    pub fn render(&self) -> (r: String)
        ensures
            r@ == playlist_text(self.target_duration_spec(), self.media_sequence_spec(), self.segments_spec()),
    {
        let mut out = String::from_str("#EXTM3U\n#EXT-X-VERSION:3\n#EXT-X-TARGETDURATION:");
        let t = self.target_duration_ms;
        let secs = if t % 1000 == 0 { t / 1000 } else { t / 1000 + 1 };
        push_decimal(&mut out, secs);
        out.append("\n#EXT-X-MEDIA-SEQUENCE:");
        push_decimal(&mut out, self.media_sequence);
        out.append("\n");
        let ghost head = out@;
        let mut i: usize = 0;
        while i < self.segments.len()
            invariant
                i <= self.segments@.len(),
                out@ == head + entries_text(self.segments_spec().take(i as int)),
            decreases self.segments@.len() - i,
        {
            let s = &self.segments[i];
            let ghost before = out@;
            out.append("#EXTINF:");
            push_decimal(&mut out, s.duration_ms / 1000);
            out.append(".");
            push_padded(&mut out, s.duration_ms % 1000, 3);
            out.append(",\n");
            out.append(s.filename.as_str());
            out.append("\n");
            proof {
                reveal_strlit(".");
                let segs = self.segments_spec().take(i as int + 1);
                assert(segs.drop_last() =~= self.segments_spec().take(i as int));
                assert(segs.last() == (s.filename@, s.duration_ms));
                assert(out@ =~= head + entries_text(segs));
            }
            i = i + 1;
        }
        assert(self.segments_spec().take(self.segments@.len() as int) =~= self.segments_spec());
        out
    }
}

} // verus!
