//! Turning FLV audio and video tag bodies into elementary streams for
//! MPEG-TS: AVC frames into Annex B byte streams, AAC frames into ADTS.
use vstd::prelude::*;

verus! {

#[derive(Clone, Copy, Debug, PartialEq, Eq, Structural)]
pub enum CodecError {
    /// Not the tag that was expected (an AVC or AAC tag of the right kind).
    UnexpectedTag,
    /// A length field points past the end of the tag.
    Truncated,
    /// A frame arrived before its sequence header.
    NoConfiguration,
    /// An AAC profile or a frame size that ADTS cannot carry.
    Unsupported,
}

pub open spec fn start_code() -> Seq<u8> {
    seq![0u8, 0u8, 0u8, 1u8]
}

/// The big-endian value of `b`.
pub open spec fn be(b: Seq<u8>) -> nat
    decreases b.len(),
{
    if b.len() == 0 {
        0
    } else {
        be(b.drop_last()) * 256 + b.last() as nat
    }
}

pub open spec fn pow256(k: nat) -> nat
    decreases k,
{
    if k == 0 { 1 } else { 256 * pow256((k - 1) as nat) }
}

/// Length-prefixed units (lengths of `n` bytes) as an Annex B stream, or
/// nothing where a length runs past the end.
pub open spec fn annexb(d: Seq<u8>, n: nat) -> Option<Seq<u8>>
    decreases d.len(),
{
    if d.len() == 0 {
        Some(Seq::empty())
    } else if n == 0 || d.len() < n {
        None
    } else {
        let len = be(d.take(n as int));
        if d.len() < n + len {
            None
        } else {
            match annexb(d.skip((n + len) as int), n) {
                Some(r) => Some(start_code() + d.subrange(n as int, (n + len) as int) + r),
                None => None,
            }
        }
    }
}

/// `k` units with two-byte lengths at the start of `d`, as Annex B, and the
/// bytes they take.
pub open spec fn counted_sets(d: Seq<u8>, k: nat) -> Option<(Seq<u8>, nat)>
    decreases k,
{
    if k == 0 {
        Some((Seq::empty(), 0))
    } else if d.len() < 2 {
        None
    } else {
        let len = be(d.take(2));
        if d.len() < 2 + len {
            None
        } else {
            match counted_sets(d.skip((2 + len) as int), (k - 1) as nat) {
                Some((r, c)) => Some((start_code() + d.subrange(2, (2 + len) as int) + r, 2 + len + c)),
                None => None,
            }
        }
    }
}

/// The NAL length size and the parameter sets (SPS then PPS, as Annex B) of
/// an AVC sequence header tag.
pub open spec fn avc_config_of(p: Seq<u8>) -> Option<(nat, Seq<u8>)> {
    if !(p.len() >= 11 && p[0] == 0x17 && p[1] == 0) {
        None
    } else {
        match counted_sets(p.skip(11), (p[10] % 32) as nat) {
            None => None,
            Some((sps, c)) => {
                let q = p.skip((11 + c) as int);
                if q.len() < 1 {
                    None
                } else {
                    match counted_sets(q.skip(1), q[0] as nat) {
                        None => None,
                        Some((pps, _)) => Some(((p[9] % 4 + 1) as nat, sps + pps)),
                    }
                }
            }
        }
    }
}

/// An AVC frame tag as Annex B: a keyframe is preceded by the parameter sets.
pub open spec fn avc_frame_of(sets: Seq<u8>, n: nat, p: Seq<u8>) -> Option<Seq<u8>> {
    if !(p.len() >= 5 && p[1] == 1 && p[0] % 16 == 7) {
        None
    } else {
        match annexb(p.skip(5), n) {
            None => None,
            Some(units) => Some(if p[0] / 16 == 1 { sets + units } else { units }),
        }
    }
}

/// Parameters of an AVC stream.
pub struct AvcConfig {
    pub length_size: usize,
    pub parameter_sets: Vec<u8>,
}

/// Parameters of an AAC stream, from its AudioSpecificConfig.
#[derive(Clone, Copy, Debug, PartialEq, Eq, Structural)]
pub struct AacConfig {
    pub object_type: u8,
    pub sampling_index: u8,
    pub channels: u8,
}

pub open spec fn aac_config_of(p: Seq<u8>) -> Option<AacConfig> {
    if !(p.len() >= 4 && p[0] / 16 == 10 && p[1] == 0) {
        None
    } else {
        let object_type = (p[2] / 8) as u8;
        if object_type < 1 || object_type > 4 {
            None
        } else {
            Some(AacConfig {
                object_type,
                sampling_index: ((p[2] % 8) * 2 + p[3] / 128) as u8,
                channels: ((p[3] / 8) % 16) as u8,
            })
        }
    }
}

/// The seven-byte ADTS header of a frame of `len` raw bytes.
pub open spec fn adts_header(c: AacConfig, len: nat) -> Seq<u8> {
    let f = len + 7;
    seq![
        0xFFu8,
        0xF1u8,
        ((c.object_type - 1) * 64 + c.sampling_index * 4 + c.channels / 4) as u8,
        ((c.channels % 4) * 64 + f / 2048) as u8,
        ((f / 8) % 256) as u8,
        ((f % 8) * 32 + 31) as u8,
        0xFCu8,
    ]
}

/// An AAC raw frame tag as an ADTS frame.
pub open spec fn aac_frame_of(c: AacConfig, p: Seq<u8>) -> Option<Seq<u8>> {
    if !(p.len() >= 2 && p[0] / 16 == 10 && p[1] == 1) || p.len() - 2 + 7 > 8191 {
        None
    } else {
        Some(adts_header(c, (p.len() - 2) as nat) + p.skip(2))
    }
}

proof fn lemma_be_bound(b: Seq<u8>)
    ensures
        be(b) < pow256(b.len()),
    decreases b.len(),
{
    if b.len() > 0 {
        lemma_be_bound(b.drop_last());
        let x = be(b.drop_last());
        let p = pow256((b.len() - 1) as nat);
        assert(x * 256 + (b.last() as nat) < 256 * p) by (nonlinear_arith)
            requires
                x < p,
                b.last() < 256,
        ;
    }
}

/// The big-endian value of `d[pos..pos + n]`.
fn read_be(d: &[u8], pos: usize, n: usize) -> (r: u64)
    requires
        pos + n <= d@.len(),
        n <= 4,
    ensures
        r as nat == be(d@.subrange(pos as int, pos + n)),
{
    let total = d.len();
    let mut v: u64 = 0;
    let mut i: usize = 0;
    while i < n
        invariant
            i <= n <= 4,
            total == d@.len(),
            pos + n <= d@.len(),
            v as nat == be(d@.subrange(pos as int, pos + i)),
            v as nat <= 0xFFFF_FFFF,
        decreases n - i,
    {
        let b = d[pos + i];
        proof {
            let s = d@.subrange(pos as int, pos + i + 1);
            assert(s.drop_last() =~= d@.subrange(pos as int, pos + i));
            assert(s.last() == b);
            lemma_be_bound(s);
            assert(pow256(0) == 1);
            assert(pow256(1) == 256);
            assert(pow256(2) == 65536);
            assert(pow256(3) == 16777216);
            assert(pow256(4) == 4294967296);
            assert(be(s) == (v as nat) * 256 + (b as nat));
            assert(s.len() == i + 1);
            assert(be(s) <= 0xFFFF_FFFF);
        }
        v = v * 256 + b as u64;
        i = i + 1;
    }
    v
}

/// Appends `d[start..]`, taken as units with `n`-byte lengths, to `out` as
/// Annex B.
fn push_annexb(d: &[u8], start: usize, n: usize, out: &mut Vec<u8>) -> (r: Result<(), CodecError>)
    requires
        start <= d@.len(),
        1 <= n <= 4,
    ensures
        match annexb(d@.skip(start as int), n as nat) {
            Some(units) => r is Ok && final(out)@ == old(out)@ + units,
            None => r == Err::<(), CodecError>(CodecError::Truncated),
        },
{
    let mut pos = start;
    while pos < d.len()
        invariant
            start <= pos <= d@.len(),
            1 <= n <= 4,
            annexb(d@.skip(start as int), n as nat) == match annexb(d@.skip(pos as int), n as nat) {
                Some(rest) => Some(out@.skip(old(out)@.len() as int) + rest),
                None => None::<Seq<u8>>,
            },
            out@.len() >= old(out)@.len(),
            out@.take(old(out)@.len() as int) == old(out)@,
        decreases d@.len() - pos,
    {
        let ghost rest = d@.skip(pos as int);
        if d.len() - pos < n {
            assert(annexb(rest, n as nat) is None);
            return Err(CodecError::Truncated);
        }
        let len = read_be(d, pos, n);
        assert(rest.take(n as int) =~= d@.subrange(pos as int, pos + n));
        if len > (d.len() - pos - n) as u64 {
            assert(annexb(rest, n as nat) is None);
            return Err(CodecError::Truncated);
        }
        let end = pos + n + len as usize;
        let ghost before = out@;
        out.push(0);
        out.push(0);
        out.push(0);
        out.push(1);
        let mut i = pos + n;
        while i < end
            invariant
                pos + n <= i <= end <= d@.len(),
                out@ == before + start_code() + d@.subrange(pos + n, i as int),
            decreases end - i,
        {
            out.push(d[i]);
            assert(d@.subrange(pos + n, i + 1) =~= d@.subrange(pos + n, i as int).push(d@[i as int]));
            i = i + 1;
        }
        proof {
            assert(rest.skip(n + len) =~= d@.skip(end as int));
            assert(rest.subrange(n as int, n + len) =~= d@.subrange(pos + n, end as int));
            let base = old(out)@.len() as int;
            assert(out@.skip(base) =~= before.skip(base) + start_code() + d@.subrange(pos + n, end as int));
            assert(out@.take(base) =~= before.take(base));
            match annexb(d@.skip(end as int), n as nat) {
                Some(r2) => {
                    assert(before.skip(base) + (start_code() + d@.subrange(pos + n, end as int) + r2)
                        =~= out@.skip(base) + r2);
                },
                None => {},
            }
        }
        pos = end;
    }
    proof {
        assert(d@.skip(pos as int) =~= Seq::<u8>::empty());
        assert(out@ =~= out@.take(old(out)@.len() as int) + out@.skip(old(out)@.len() as int));
    }
    Ok(())
}

/// Appends `k` units with two-byte lengths from `d[start..]` to `out` as
/// Annex B, and returns the bytes they took.
fn push_counted_sets(d: &[u8], start: usize, k: usize, out: &mut Vec<u8>) -> (r: Result<usize, CodecError>)
    requires
        start <= d@.len(),
    ensures
        match counted_sets(d@.skip(start as int), k as nat) {
            Some((sets, c)) => r == Ok::<usize, CodecError>(c as usize) && final(out)@ == old(out)@ + sets
                && start + c <= d@.len(),
            None => r == Err::<usize, CodecError>(CodecError::Truncated),
        },
{
    let total = d.len();
    let mut pos = start;
    let mut j: usize = 0;
    while j < k
        invariant
            total == d@.len(),
            start <= pos <= d@.len(),
            j <= k,
            counted_sets(d@.skip(start as int), k as nat) == match counted_sets(d@.skip(pos as int), (k - j) as nat) {
                Some((rest, c)) => Some((out@.skip(old(out)@.len() as int) + rest, ((pos - start) + c) as nat)),
                None => None::<(Seq<u8>, nat)>,
            },
            out@.len() >= old(out)@.len(),
            out@.take(old(out)@.len() as int) == old(out)@,
        decreases k - j,
    {
        let ghost rest = d@.skip(pos as int);
        if total - pos < 2 {
            assert(counted_sets(rest, (k - j) as nat) is None);
            return Err(CodecError::Truncated);
        }
        let len = read_be(d, pos, 2);
        assert(rest.take(2) =~= d@.subrange(pos as int, pos + 2));
        if len > (total - pos - 2) as u64 {
            assert(counted_sets(rest, (k - j) as nat) is None);
            return Err(CodecError::Truncated);
        }
        let end = pos + 2 + len as usize;
        let ghost before = out@;
        out.push(0);
        out.push(0);
        out.push(0);
        out.push(1);
        let mut i = pos + 2;
        while i < end
            invariant
                pos + 2 <= i <= end <= d@.len(),
                out@ == before + start_code() + d@.subrange(pos + 2, i as int),
            decreases end - i,
        {
            out.push(d[i]);
            assert(d@.subrange(pos + 2, i + 1) =~= d@.subrange(pos + 2, i as int).push(d@[i as int]));
            i = i + 1;
        }
        proof {
            assert(rest.skip(2 + len) =~= d@.skip(end as int));
            assert(rest.subrange(2, 2 + len) =~= d@.subrange(pos + 2, end as int));
            let base = old(out)@.len() as int;
            assert(out@.skip(base) =~= before.skip(base) + start_code() + d@.subrange(pos + 2, end as int));
            assert(out@.take(base) =~= before.take(base));
            match counted_sets(d@.skip(end as int), (k - j - 1) as nat) {
                Some((r2, c2)) => {
                    assert(before.skip(base) + (start_code() + d@.subrange(pos + 2, end as int) + r2)
                        =~= out@.skip(base) + r2);
                },
                None => {},
            }
        }
        pos = end;
        j = j + 1;
    }
    proof {
        assert(out@ =~= out@.take(old(out)@.len() as int) + out@.skip(old(out)@.len() as int));
    }
    Ok(pos - start)
}

/// Reads the NAL length size and parameter sets of an AVC sequence header tag.
pub fn parse_avc_config(p: &[u8]) -> (r: Result<AvcConfig, CodecError>)
    ensures
        match avc_config_of(p@) {
            Some((n, sets)) => r matches Ok(c) && c.length_size == n && c.parameter_sets@ == sets,
            None => r is Err,
        },
{
    if !(p.len() >= 11 && p[0] == 0x17 && p[1] == 0) {
        return Err(CodecError::UnexpectedTag);
    }
    let mut sets: Vec<u8> = Vec::new();
    let ghost first = counted_sets(p@.skip(11), (p[10] % 32) as nat);
    let c = match push_counted_sets(p, 11, (p[10] % 32) as usize, &mut sets) {
        Ok(c) => c,
        Err(e) => {
            return Err(e);
        },
    };
    let ghost sps = sets@;
    assert(first == Some((sps, c as nat))) by {
        assert(Seq::<u8>::empty() + (first->0).0 =~= (first->0).0);
    }
    let at = 11 + c;
    let ghost q = p@.skip(at as int);
    if at >= p.len() {
        assert(q.len() < 1);
        return Err(CodecError::Truncated);
    }
    let count = p[at] as usize;
    assert(q[0] == p@[at as int]);
    assert(q.skip(1) =~= p@.skip(at + 1));
    let ghost second = counted_sets(q.skip(1), q[0] as nat);
    match push_counted_sets(p, at + 1, count, &mut sets) {
        Ok(_) => {},
        Err(e) => {
            return Err(e);
        },
    }
    assert(second is Some && sets@ == sps + (second->0).0);
    Ok(AvcConfig { length_size: (p[9] % 4 + 1) as usize, parameter_sets: sets })
}

/// Turns an AVC frame tag into Annex B, with the parameter sets before a
/// keyframe.
pub fn avc_frame(config: &AvcConfig, p: &[u8]) -> (r: Result<Vec<u8>, CodecError>)
    requires
        1 <= config.length_size <= 4,
    ensures
        match avc_frame_of(config.parameter_sets@, config.length_size as nat, p@) {
            Some(f) => r matches Ok(v) && v@ == f,
            None => r is Err,
        },
{
    if !(p.len() >= 5 && p[1] == 1 && p[0] % 16 == 7) {
        return Err(CodecError::UnexpectedTag);
    }
    let mut out: Vec<u8> = if p[0] / 16 == 1 {
        let c = config.parameter_sets.clone();
        assert(c@ =~= config.parameter_sets@);
        c
    } else {
        Vec::new()
    };
    let ghost head = out@;
    match push_annexb(p, 5, config.length_size, &mut out) {
        Ok(()) => Ok(out),
        Err(e) => Err(e),
    }
}

/// Reads the AudioSpecificConfig of an AAC sequence header tag.
pub fn parse_aac_config(p: &[u8]) -> (r: Result<AacConfig, CodecError>)
    ensures
        match aac_config_of(p@) {
            Some(c) => r == Ok::<AacConfig, CodecError>(c),
            None => r is Err,
        },
{
    if !(p.len() >= 4 && p[0] / 16 == 10 && p[1] == 0) {
        return Err(CodecError::UnexpectedTag);
    }
    let object_type = p[2] / 8;
    if object_type < 1 || object_type > 4 {
        return Err(CodecError::Unsupported);
    }
    Ok(AacConfig { object_type, sampling_index: (p[2] % 8) * 2 + p[3] / 128, channels: (p[3] / 8) % 16 })
}

/// Turns an AAC raw frame tag into an ADTS frame.
pub fn aac_frame(config: AacConfig, p: &[u8]) -> (r: Result<Vec<u8>, CodecError>)
    requires
        1 <= config.object_type <= 4,
        config.sampling_index < 16,
        config.channels < 16,
    ensures
        match aac_frame_of(config, p@) {
            Some(f) => r matches Ok(v) && v@ == f,
            None => r is Err,
        },
{
    if !(p.len() >= 2 && p[0] / 16 == 10 && p[1] == 1) {
        return Err(CodecError::UnexpectedTag);
    }
    if p.len() - 2 > 8191 - 7 {
        return Err(CodecError::Unsupported);
    }
    let f = (p.len() - 2 + 7) as u64;
    let mut out: Vec<u8> = Vec::new();
    out.push(0xFF);
    out.push(0xF1);
    out.push(((config.object_type - 1) as u64 * 64 + config.sampling_index as u64 * 4 + config.channels as u64 / 4) as u8);
    out.push(((config.channels % 4) as u64 * 64 + f / 2048) as u8);
    out.push(((f / 8) % 256) as u8);
    out.push(((f % 8) * 32 + 31) as u8);
    out.push(0xFC);
    assert(out@ =~= adts_header(config, (p@.len() - 2) as nat));
    let ghost head = out@;
    let mut i: usize = 2;
    while i < p.len()
        invariant
            2 <= i <= p@.len(),
            out@ == head + p@.subrange(2, i as int),
        decreases p@.len() - i,
    {
        out.push(p[i]);
        assert(p@.subrange(2, i + 1) =~= p@.subrange(2, i as int).push(p@[i as int]));
        i = i + 1;
    }
    assert(p@.subrange(2, p@.len() as int) =~= p@.skip(2));
    Ok(out)
}

/// The codec parameters of one stream, taken from its sequence headers.
pub struct CodecState {
    video: Option<AvcConfig>,
    audio: Option<AacConfig>,
}

impl CodecState {
    pub closed spec fn video_spec(&self) -> Option<(nat, Seq<u8>)> {
        match self.video {
            Some(c) => Some((c.length_size as nat, c.parameter_sets@)),
            None => None,
        }
    }

    pub closed spec fn audio_spec(&self) -> Option<AacConfig> {
        self.audio
    }

    pub open spec fn wf(&self) -> bool {
        &&& self.video_spec() matches Some((n, _)) ==> 1 <= n <= 4
        &&& self.audio_spec() matches Some(c) ==> 1 <= c.object_type <= 4 && c.sampling_index < 16
            && c.channels < 16
    }

    pub fn new() -> (r: CodecState)
        ensures
            r.wf(),
            r.video_spec() is None,
            r.audio_spec() is None,
    {
        CodecState { video: None, audio: None }
    }

    /// A video tag: a sequence header is stored and gives nothing; a frame
    /// gives its Annex B form.
    pub fn handle_video(&mut self, p: &[u8]) -> (r: Result<Option<Vec<u8>>, CodecError>)
        requires
            old(self).wf(),
        ensures
            final(self).wf(),
            final(self).audio_spec() == old(self).audio_spec(),
            crate::media::video_is_sequence_header(p@) ==> match avc_config_of(p@) {
                Some(c) => r matches Ok(None) && final(self).video_spec() == Some(c),
                None => r is Err && final(self).video_spec() == old(self).video_spec(),
            },
            !crate::media::video_is_sequence_header(p@) ==> final(self).video_spec() == old(self).video_spec()
                && match old(self).video_spec() {
                None => r == Err::<Option<Vec<u8>>, CodecError>(CodecError::NoConfiguration),
                Some((n, sets)) => match avc_frame_of(sets, n, p@) {
                    Some(f) => r matches Ok(Some(v)) && v@ == f,
                    None => r is Err,
                },
            },
    {
        if p.len() >= 2 && p[0] == crate::media::AVC_KEYFRAME_TAG && p[1] == 0 {
            match parse_avc_config(p) {
                Ok(c) => {
                    self.video = Some(c);
                    Ok(None)
                },
                Err(e) => Err(e),
            }
        } else {
            match &self.video {
                None => Err(CodecError::NoConfiguration),
                Some(c) => match avc_frame(c, p) {
                    Ok(v) => Ok(Some(v)),
                    Err(e) => Err(e),
                },
            }
        }
    }

    /// An audio tag: a sequence header is stored and gives nothing; a raw
    /// frame gives its ADTS form.
    pub fn handle_audio(&mut self, p: &[u8]) -> (r: Result<Option<Vec<u8>>, CodecError>)
        requires
            old(self).wf(),
        ensures
            final(self).wf(),
            final(self).video_spec() == old(self).video_spec(),
            crate::media::audio_is_sequence_header(p@) ==> match aac_config_of(p@) {
                Some(c) => r matches Ok(None) && final(self).audio_spec() == Some(c),
                None => r is Err && final(self).audio_spec() == old(self).audio_spec(),
            },
            !crate::media::audio_is_sequence_header(p@) ==> final(self).audio_spec() == old(self).audio_spec()
                && match old(self).audio_spec() {
                None => r == Err::<Option<Vec<u8>>, CodecError>(CodecError::NoConfiguration),
                Some(c) => match aac_frame_of(c, p@) {
                    Some(f) => r matches Ok(Some(v)) && v@ == f,
                    None => r is Err,
                },
            },
    {
        if p.len() >= 2 && p[0] / 16 == crate::media::AAC_SOUND_FORMAT && p[1] == 0 {
            match parse_aac_config(p) {
                Ok(c) => {
                    self.audio = Some(c);
                    Ok(None)
                },
                Err(e) => Err(e),
            }
        } else {
            match self.audio {
                None => Err(CodecError::NoConfiguration),
                Some(c) => match aac_frame(c, p) {
                    Ok(v) => Ok(Some(v)),
                    Err(e) => Err(e),
                },
            }
        }
    }
}

} // verus!
