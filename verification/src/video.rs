//! The video player's decisions: the playback clock (an audio sample count,
//! or the wall clock for inputs without sound), play/pause and seeking within
//! the looping clip, which decoded frames are due, and the packing of decoded
//! rows. Decoding, audio output and drawing are the front end's.
use vstd::prelude::*;

use std::collections::VecDeque;
use std::sync::Arc;

verus! {

/// A decoded frame, already converted to tightly-packed RGBA8.
pub struct RgbaFrame {
    pub width: u32,
    pub height: u32,
    pub data: Vec<u8>,
    pub pts_ms: i64,
}

/// What the drawing of one player's current frame needs: the player's id,
/// the version of its current frame (bumped when the frame changes), and
/// the frame.
pub struct VideoProgram {
    pub id: u64,
    pub version: u64,
    pub frame: Option<Arc<RgbaFrame>>,
}

/// One drawing of a player's frame, as handed to the renderer.
pub struct VideoPrimitive {
    id: u64,
    version: u64,
    frame: Option<Arc<RgbaFrame>>,
}

impl VideoPrimitive {
    pub fn new(id: u64, version: u64, frame: Option<Arc<RgbaFrame>>) -> (p: Self)
        ensures
            p.spec_id() == id,
            p.spec_version() == version,
            p.spec_frame() == frame,
    {
        VideoPrimitive { id, version, frame }
    }

    pub closed spec fn spec_id(&self) -> u64 {
        self.id
    }

    pub closed spec fn spec_version(&self) -> u64 {
        self.version
    }

    pub closed spec fn spec_frame(&self) -> Option<Arc<RgbaFrame>> {
        self.frame
    }

    pub fn id(&self) -> (i: u64)
        ensures
            i == self.spec_id(),
    {
        self.id
    }

    pub fn version(&self) -> (v: u64)
        ensures
            v == self.spec_version(),
    {
        self.version
    }

    /// The frame, if one has decoded.
    pub fn frame(&self) -> (f: &Option<Arc<RgbaFrame>>)
        ensures
            *f == self.spec_frame(),
    {
        &self.frame
    }
}

// ---------------------------------------------------------------------------
// Decoded rows
// ---------------------------------------------------------------------------

/// What preparing a frame for drawing does with a player's GPU target, given
/// the target kept so far as (width, height, last uploaded version): the
/// texture is (re)built when there is none or its size differs from the
/// frame's (`r.0`), and the frame is uploaded when its version differs from
/// the one the target last took (`r.1`); a rebuilt texture has taken none,
/// which is marked as version `u64::MAX`.
pub fn plan_upload(old: Option<(u32, u32, u64)>, width: u32, height: u32, version: u64) -> (r: (
    bool,
    bool,
))
    ensures
        r.0 == match old {
            None => true,
            Some((w, h, _)) => w != width || h != height,
        },
        r.1 == match old {
            Some((_, _, v)) if !r.0 => v != version,
            _ => version != u64::MAX,
        },
{
    let rebuild = match old {
        None => true,
        Some((w, h, _)) => w != width || h != height,
    };
    let kept = if rebuild {
        u64::MAX
    } else {
        match old {
            Some((_, _, v)) => v,
            None => u64::MAX,
        }
    };
    (rebuild, kept != version)
}

/// The first `h` rows of `src`, `stride` bytes apart, each cut to `row` bytes
/// and laid end to end.
pub open spec fn packed_rows(src: Seq<u8>, stride: nat, row: nat, h: nat) -> Seq<u8>
    decreases h,
{
    if h == 0 {
        Seq::empty()
    } else {
        packed_rows(src, stride, row, (h - 1) as nat) + src.subrange(
            (h - 1) * stride,
            (h - 1) * stride + row,
        )
    }
}

/// Copy `height` rows of `width` RGBA pixels out of a buffer whose rows are
/// `stride` bytes apart (rows may be padded) into a tight buffer.
pub fn pack_rows(src: &[u8], stride: usize, width: u32, height: u32) -> (r: Vec<u8>)
    requires
        width * 4 <= u32::MAX,
        height == 0 || (height - 1) * stride + width * 4 <= src@.len(),
    ensures
        r@ == packed_rows(src@, stride as nat, (width * 4) as nat, height as nat),
{
    let row = width as usize * 4;
    let n = src.len();
    let mut r: Vec<u8> = Vec::new();
    let mut y: usize = 0;
    while y < height as usize
        invariant
            n == src@.len(),
            row == width * 4,
            height == 0 || (height - 1) * stride + row <= src@.len(),
            y <= height,
            r@ == packed_rows(src@, stride as nat, row as nat, y as nat),
        decreases height - y,
    {
        assert(y * stride <= (height - 1) * stride) by (nonlinear_arith)
            requires
                y <= height - 1,
        ;
        assert(y * stride + row <= n);
        let s = y * stride;
        let ghost before = r@;
        let mut x: usize = 0;
        while x < row
            invariant
                n == src@.len(),
                s + row <= src@.len(),
                x <= row,
                s == y * stride,
                r@ == before + src@.subrange(s as int, s + x),
            decreases row - x,
        {
            r.push(src[s + x]);
            assert(src@.subrange(s as int, s + x + 1) =~= src@.subrange(s as int, s + x).push(
                src@[s + x],
            ));
            x = x + 1;
        }
        assert(packed_rows(src@, stride as nat, row as nat, (y + 1) as nat) == before
            + src@.subrange(s as int, s + row));
        y = y + 1;
    }
    r
}

// ---------------------------------------------------------------------------
// Playback clock
// ---------------------------------------------------------------------------

/// The audio output's count of sample frames played and its sample rate.
#[derive(Debug, Clone, Copy)]
pub struct AudioClock {
    pub frames_played: u64,
    pub sample_rate: u32,
}

/// Milliseconds of audio in a count of sample frames (0 at a zero rate).
pub open spec fn spec_audio_ms(frames: nat, rate: nat) -> nat {
    if rate == 0 {
        0
    } else {
        frames * 1000 / rate
    }
}

/// Playback position of an audio output, in ms.
pub fn audio_clock_ms(frames_played: u64, sample_rate: u32) -> (ms: i64)
    requires
        frames_played * 1000 <= u64::MAX,
    ensures
        ms == spec_audio_ms(frames_played as nat, sample_rate as nat) as i64,
{
    if sample_rate == 0 {
        return 0;
    }
    let num = frames_played * 1000;
    let q = num / sample_rate as u64;
    assert(q <= num) by (nonlinear_arith)
        requires
            sample_rate >= 1,
            q as int == num as int / (sample_rate as int),
    ;
    #[verifier::truncate]
    (q as i64)
}

/// The clock's state. Instants are nanoseconds on the front end's monotonic
/// clock; positions are ms on the playback timeline, which keeps growing
/// across loops of the clip.
#[verifier::ext_equal]
pub struct ClockModel {
    pub playing: bool,
    pub muted: bool,
    /// Position at the last anchor (start, seek, wall-clock resume).
    pub base_ms: int,
    /// Audio frames played at the last anchor.
    pub frames_base: nat,
    /// Instant the wall clock runs from; `None` while paused or not started.
    pub wall_anchor: Option<nat>,
    /// Position computed on the last tick.
    pub last_position_ms: int,
    /// Whether a frame is being shown.
    pub has_frame: bool,
    /// Bumped whenever the shown frame changes.
    pub version: nat,
}

/// A player's playback clock and controls.
pub struct PlaybackClock {
    playing: bool,
    muted: bool,
    base_ms: i64,
    frames_base: u64,
    wall_anchor: Option<u64>,
    last_position_ms: i64,
    has_frame: bool,
    version: u64,
}

impl View for PlaybackClock {
    type V = ClockModel;

    closed spec fn view(&self) -> ClockModel {
        ClockModel {
            playing: self.playing,
            muted: self.muted,
            base_ms: self.base_ms as int,
            frames_base: self.frames_base as nat,
            wall_anchor: match self.wall_anchor {
                Some(t) => Some(t as nat),
                None => None,
            },
            last_position_ms: self.last_position_ms as int,
            has_frame: self.has_frame,
            version: self.version as nat,
        }
    }
}

/// `a - b`, or 0 when `b` is larger.
pub open spec fn sat_sub(a: nat, b: nat) -> nat {
    if a >= b {
        (a - b) as nat
    } else {
        0
    }
}

/// The playback position at `now`. With an audio clock (the input has sound
/// and there is an output) it is the position at the anchor plus the audio
/// played since; otherwise the position at the anchor plus the wall time
/// since it, while playing.
pub open spec fn spec_position(c: ClockModel, now: nat, audio: Option<AudioClock>) -> int {
    match audio {
        Some(a) => c.base_ms + spec_audio_ms(
            sat_sub(a.frames_played as nat, c.frames_base),
            if a.sample_rate == 0 {
                1
            } else {
                a.sample_rate as nat
            },
        ),
        None => match c.wall_anchor {
            Some(t) => if c.playing {
                c.base_ms + sat_sub(now, t) / 1_000_000
            } else {
                c.base_ms
            },
            None => c.base_ms,
        },
    }
}

/// The position at `now` can be computed: the audio milliseconds and the
/// position fit in the machine's integers.
pub open spec fn position_fits(c: ClockModel, now: nat, audio: Option<AudioClock>) -> bool {
    &&& audio matches Some(a) ==> sat_sub(a.frames_played as nat, c.frames_base) * 1000 <= u64::MAX
    &&& spec_position(c, now, audio) <= i64::MAX
}

/// Pausing or resuming. The wall clock is frozen at the position reached and
/// restarted from it on resume; an audio clock follows the output, which the
/// front end pauses.
pub open spec fn spec_toggle_playing(c: ClockModel, now: nat, audio: Option<AudioClock>) -> ClockModel {
    let pos = spec_position(c, now, audio);
    let playing = !c.playing;
    match audio {
        Some(_) => ClockModel { playing, ..c },
        None => ClockModel {
            playing,
            base_ms: pos,
            wall_anchor: if playing {
                Some(now)
            } else {
                None
            },
            ..c
        },
    }
}

/// `x` clamped to `0..=hi`.
pub open spec fn clamp(x: int, hi: int) -> int {
    if x < 0 {
        0
    } else if x > hi {
        hi
    } else {
        x
    }
}

/// Where a seek to `file_ms` into a clip of `duration_ms` lands on the
/// playback timeline: that point of the loop being played.
pub open spec fn seek_target(pos: int, file_ms: int, duration_ms: int) -> int {
    (pos / duration_ms) * duration_ms + clamp(file_ms, duration_ms)
}

/// A seek rebases the clock at the target: the position, and (with an audio
/// output) the audio frames count from there; the wall clock restarts now
/// when playing.
pub open spec fn spec_seek(
    c: ClockModel,
    target: int,
    now: nat,
    output_frames: Option<u64>,
) -> ClockModel {
    ClockModel {
        base_ms: target,
        last_position_ms: target,
        frames_base: match output_frames {
            Some(f) => f as nat,
            None => c.frames_base,
        },
        wall_anchor: if c.playing {
            Some(now)
        } else {
            None
        },
        ..c
    }
}

/// How many frames at the head of `q` are due at `clock`.
pub open spec fn due_count(q: Seq<RgbaFrame>, clock: int) -> nat
    decreases q.len(),
{
    if q.len() == 0 || q[0].pts_ms > clock {
        0
    } else {
        1 + due_count(q.drop_first(), clock)
    }
}

pub proof fn lemma_due_count_bound(q: Seq<RgbaFrame>, clock: int)
    ensures
        due_count(q, clock) <= q.len(),
        forall|i: int| 0 <= i < due_count(q, clock) ==> (#[trigger] q[i]).pts_ms <= clock,
        due_count(q, clock) < q.len() ==> q[due_count(q, clock) as int].pts_ms > clock,
    decreases q.len(),
{
    if q.len() > 0 && q[0].pts_ms <= clock {
        lemma_due_count_bound(q.drop_first(), clock);
        assert forall|i: int| 0 <= i < due_count(q, clock) implies (#[trigger] q[i]).pts_ms
            <= clock by {
            if i > 0 {
                assert(q[i] == q.drop_first()[i - 1]);
            }
        }
        if due_count(q, clock) < q.len() {
            assert(q[due_count(q, clock) as int] == q.drop_first()[due_count(q, clock) - 1]);
        }
    }
}

/// The clock after a tick at `now` (what happens to the queue and what is
/// shown is in [`PlaybackClock::tick`]'s contract): before the first frame
/// shows, or before the input is open, nothing moves; after, an audioless
/// input that is playing anchors its wall clock on the first tick, and the
/// position is recorded.
pub open spec fn spec_tick_clock(c: ClockModel, now: nat, audio: Option<AudioClock>) -> ClockModel {
    let c1 = if c.wall_anchor is None && c.playing && audio is None {
        ClockModel { wall_anchor: Some(now), ..c }
    } else {
        c
    };
    ClockModel { last_position_ms: spec_position(c1, now, audio), ..c1 }
}

impl PlaybackClock {
    /// The clock's invariant: positions are never negative.
    pub closed spec fn wf(&self) -> bool {
        self.base_ms >= 0 && self.last_position_ms >= 0
    }

    /// A clock at the start, playing, unmuted, with no frame shown.
    pub fn new() -> (c: Self)
        ensures
            c.wf(),
            c@ == (ClockModel {
                playing: true,
                muted: false,
                base_ms: 0,
                frames_base: 0,
                wall_anchor: None,
                last_position_ms: 0,
                has_frame: false,
                version: 0,
            }),
    {
        PlaybackClock {
            playing: true,
            muted: false,
            base_ms: 0,
            frames_base: 0,
            wall_anchor: None,
            last_position_ms: 0,
            has_frame: false,
            version: 0,
        }
    }

    pub fn is_playing(&self) -> (b: bool)
        ensures
            b == self@.playing,
    {
        self.playing
    }

    pub fn is_muted(&self) -> (b: bool)
        ensures
            b == self@.muted,
    {
        self.muted
    }

    /// Whether any frame has decoded yet (for a loading placeholder).
    pub fn has_frame(&self) -> (b: bool)
        ensures
            b == self@.has_frame,
    {
        self.has_frame
    }

    /// The version of the frame shown.
    pub fn version(&self) -> (v: u64)
        ensures
            v == self@.version,
    {
        self.version
    }

    /// The playback position at `now` (see [`spec_position`]).
    pub fn position_ms(&self, now: u64, audio: Option<AudioClock>) -> (p: i64)
        requires
            self.wf(),
            position_fits(self@, now as nat, audio),
        ensures
            p == spec_position(self@, now as nat, audio),
            p >= 0,
    {
        match audio {
            Some(a) => {
                let played = if a.frames_played >= self.frames_base {
                    a.frames_played - self.frames_base
                } else {
                    0
                };
                let rate: u32 = if a.sample_rate == 0 {
                    1
                } else {
                    a.sample_rate
                };
                self.base_ms + audio_clock_ms(played, rate)
            },
            None => match self.wall_anchor {
                Some(t) => if self.playing {
                    let elapsed = if now >= t {
                        now - t
                    } else {
                        0
                    };
                    self.base_ms + (elapsed / 1_000_000) as i64
                } else {
                    self.base_ms
                },
                None => self.base_ms,
            },
        }
    }

    /// Pause or resume (see [`spec_toggle_playing`]).
    pub fn toggle_playing(&mut self, now: u64, audio: Option<AudioClock>)
        requires
            old(self).wf(),
            position_fits(old(self)@, now as nat, audio),
        ensures
            final(self).wf(),
            final(self)@ == spec_toggle_playing(old(self)@, now as nat, audio),
    {
        let pos = self.position_ms(now, audio);
        self.playing = !self.playing;
        if audio.is_none() {
            self.base_ms = pos;
            self.wall_anchor = if self.playing {
                Some(now)
            } else {
                None
            };
        }
    }

    pub fn toggle_muted(&mut self)
        requires
            old(self).wf(),
        ensures
            final(self).wf(),
            final(self)@ == (ClockModel { muted: !old(self)@.muted, ..old(self)@ }),
    {
        self.muted = !self.muted;
    }

    /// Seek to `file_ms` within the clip (clamped to `0..=duration_ms`),
    /// staying in the loop being played. Returns the target on the playback
    /// timeline, for the decoder; `None` (and nothing changes) while the
    /// duration is unknown.
    pub fn seek(
        &mut self,
        file_ms: i64,
        duration_ms: i64,
        now: u64,
        audio: Option<AudioClock>,
        output_frames: Option<u64>,
    ) -> (target: Option<i64>)
        requires
            old(self).wf(),
            position_fits(old(self)@, now as nat, audio),
            duration_ms > 0 ==> seek_target(
                spec_position(old(self)@, now as nat, audio),
                file_ms as int,
                duration_ms as int,
            ) <= i64::MAX,
        ensures
            final(self).wf(),
            duration_ms <= 0 ==> target is None && final(self)@ == old(self)@,
            duration_ms > 0 ==> ({
                let t = seek_target(
                    spec_position(old(self)@, now as nat, audio),
                    file_ms as int,
                    duration_ms as int,
                );
                &&& target == Some(t as i64)
                &&& final(self)@ == spec_seek(old(self)@, t, now as nat, output_frames)
            }),
    {
        if duration_ms <= 0 {
            return None;
        }
        let file_t = if file_ms < 0 {
            0
        } else if file_ms > duration_ms {
            duration_ms
        } else {
            file_ms
        };
        let pos = self.position_ms(now, audio);
        let loops = pos / duration_ms;
        assert(loops * duration_ms <= pos) by (nonlinear_arith)
            requires
                loops == pos / duration_ms,
                pos >= 0,
                duration_ms > 0,
        ;
        assert(loops * duration_ms >= 0) by (nonlinear_arith)
            requires
                loops == pos / duration_ms,
                pos >= 0,
                duration_ms > 0,
        ;
        let target = loops * duration_ms + file_t;
        self.base_ms = target;
        self.last_position_ms = target;
        if let Some(f) = output_frames {
            self.frames_base = f;
        }
        self.wall_anchor = if self.playing {
            Some(now)
        } else {
            None
        };
        Some(target)
    }

    /// Position within the current loop (`0..duration`), for the seek bar.
    pub fn position_ms_in_loop(&self, duration_ms: i64) -> (p: i64)
        requires
            self.wf(),
        ensures
            p == if duration_ms <= 0 {
                0
            } else {
                self@.last_position_ms % (duration_ms as int)
            },
    {
        if duration_ms <= 0 {
            return 0;
        }
        self.last_position_ms % duration_ms
    }

    /// Advance toward `now`: take off the queue the frames whose time has
    /// come and return the one to show (`None`: the shown frame stays). The
    /// first decoded frame shows as soon as there is one; after that nothing
    /// moves until the input is open (`opened`).
    pub fn tick(
        &mut self,
        frames: &mut VecDeque<RgbaFrame>,
        opened: bool,
        now: u64,
        audio: Option<AudioClock>,
    ) -> (shown: Option<RgbaFrame>)
        requires
            old(self).wf(),
            old(self)@.version + old(frames)@.len() < u64::MAX,
            position_fits(spec_tick_clock(old(self)@, now as nat, audio), now as nat, audio),
        ensures
            final(self).wf(),
            !old(self)@.has_frame ==> {
                if old(frames)@.len() > 0 {
                    &&& shown == Some(old(frames)@[0])
                    &&& final(frames)@ == old(frames)@.drop_first()
                    &&& final(self)@ == (ClockModel {
                        has_frame: true,
                        version: old(self)@.version + 1,
                        ..old(self)@
                    })
                } else {
                    &&& shown is None
                    &&& final(frames)@ == old(frames)@
                    &&& final(self)@ == old(self)@
                }
            },
            old(self)@.has_frame && !opened ==> shown is None && final(frames)@ == old(frames)@
                && final(self)@ == old(self)@,
            old(self)@.has_frame && opened ==> ({
                let c = spec_tick_clock(old(self)@, now as nat, audio);
                let k = due_count(old(frames)@, c.last_position_ms);
                &&& final(frames)@ == old(frames)@.skip(k as int)
                &&& shown == if k > 0 {
                    Some(old(frames)@[k - 1])
                } else {
                    None
                }
                &&& final(self)@ == (ClockModel { version: c.version + k, ..c })
            }),
    {
        if !self.has_frame {
            match frames.pop_front() {
                Some(f) => {
                    self.has_frame = true;
                    self.version = self.version + 1;
                    return Some(f);
                },
                None => {
                    return None;
                },
            }
        }
        if !opened {
            return None;
        }
        if self.wall_anchor.is_none() && self.playing && audio.is_none() {
            self.wall_anchor = Some(now);
        }
        let clock = self.position_ms(now, audio);
        self.last_position_ms = clock;
        let ghost q = frames@;
        let ghost v0 = self.version;
        let ghost c = self@;
        assert(c == spec_tick_clock(old(self)@, now as nat, audio));
        let n0 = frames.len();
        proof {
            lemma_due_count_bound(q, clock as int);
        }
        let mut shown: Option<RgbaFrame> = None;
        let mut i: usize = 0;
        loop
            invariant
                self.wf(),
                n0 == q.len(),
                self@ == (ClockModel { version: self@.version, ..c }),
                self.last_position_ms == clock,
                i <= due_count(q, clock as int),
                due_count(q, clock as int) <= q.len(),
                v0 + q.len() < u64::MAX,
                self.version == v0 + i,
                frames@ == q.skip(i as int),
                forall|j: int| 0 <= j < due_count(q, clock as int) ==> (#[trigger] q[j]).pts_ms
                    <= clock,
                due_count(q, clock as int) < q.len() ==> q[due_count(q, clock as int) as int].pts_ms
                    > clock,
                shown == if i > 0 {
                    Some(q[i - 1])
                } else {
                    None::<RgbaFrame>
                },
            ensures
                i == due_count(q, clock as int),
                frames@ == q.skip(i as int),
                self.version == v0 + i,
                self.wf(),
                self@ == (ClockModel { version: self@.version, ..c }),
                self.last_position_ms == clock,
                shown == if i > 0 {
                    Some(q[i - 1])
                } else {
                    None::<RgbaFrame>
                },
            decreases q.len() - i,
        {
            let due = frames.len() > 0 && frames[0].pts_ms <= clock;
            if !due {
                break;
            }
            assert(frames@[0] == q[i as int]);
            shown = frames.pop_front();
            assert(frames@ =~= q.skip(i + 1));
            self.version = self.version + 1;
            i = i + 1;
        }
        shown
    }
}

// ---------------------------------------------------------------------------
// Decoder loop
// ---------------------------------------------------------------------------

/// What the decoder thread does next.
#[derive(Debug, Clone, Copy, PartialEq, Eq, Structural)]
pub enum DecodeStep {
    /// The player is gone: stop.
    Quit,
    /// A seek was asked for: jump the input to this point of the clip, flush
    /// the decoders and drop what is buffered.
    Seek { file_ms: i64 },
    /// A seek was asked for but the clip's duration is unknown: nothing to do.
    Skip,
    /// Both buffers are full: wait a little.
    Wait,
    /// Read the next packet.
    Read,
}

/// The decoder's bookkeeping across loops of the clip: which seek request
/// it last answered, and the offset added to the presentation times of the
/// pass being decoded, so that they keep growing with the playback clock.
pub struct DecodeLoop {
    duration_ms: i64,
    seek_gen: u64,
    pts_offset: i64,
}

impl DecodeLoop {
    /// A loop over a clip of `duration_ms` (0 or less: unknown), with the seek
    /// requests counted up to `seek_gen` already seen.
    pub fn new(duration_ms: i64, seek_gen: u64) -> (d: Self)
        ensures
            d.spec_duration() == duration_ms,
            d.spec_seek_gen() == seek_gen,
            d.spec_pts_offset() == 0,
    {
        DecodeLoop { duration_ms, seek_gen, pts_offset: 0 }
    }

    pub closed spec fn spec_duration(&self) -> i64 {
        self.duration_ms
    }

    pub closed spec fn spec_seek_gen(&self) -> u64 {
        self.seek_gen
    }

    pub closed spec fn spec_pts_offset(&self) -> i64 {
        self.pts_offset
    }

    /// The clip's duration (at most 0 when unknown).
    pub fn duration_ms(&self) -> (d: i64)
        ensures
            d == self.spec_duration(),
    {
        self.duration_ms
    }

    /// The offset of the pass being decoded.
    pub fn pts_offset(&self) -> (o: i64)
        ensures
            o == self.spec_pts_offset(),
    {
        self.pts_offset
    }

    /// The next step, given the shared flags: stop when asked to; answer a
    /// new seek request (`seek_gen` moved) by landing at `seek_target_ms`
    /// (at least 0) on the playback timeline, that is at its remainder within
    /// the clip, the pass starting at the rest; wait while both buffers are
    /// full; else read.
    pub fn next(
        &mut self,
        quit: bool,
        seek_gen: u64,
        seek_target_ms: i64,
        video_full: bool,
        audio_full: bool,
    ) -> (step: DecodeStep)
        ensures
            final(self).spec_duration() == old(self).spec_duration(),
            quit ==> step == DecodeStep::Quit && *final(self) == *old(self),
            !quit && seek_gen != old(self).spec_seek_gen() ==> {
                &&& final(self).spec_seek_gen() == seek_gen
                &&& if old(self).spec_duration() > 0 {
                    let t = if seek_target_ms < 0 {
                        0
                    } else {
                        seek_target_ms as int
                    };
                    let d = old(self).spec_duration() as int;
                    &&& step == DecodeStep::Seek { file_ms: (t % d) as i64 }
                    &&& final(self).spec_pts_offset() == t - t % d
                } else {
                    step == DecodeStep::Skip && final(self).spec_pts_offset()
                        == old(self).spec_pts_offset()
                }
            },
            !quit && seek_gen == old(self).spec_seek_gen() ==> {
                &&& *final(self) == *old(self)
                &&& step == if video_full && audio_full {
                    DecodeStep::Wait
                } else {
                    DecodeStep::Read
                }
            },
    {
        if quit {
            return DecodeStep::Quit;
        }
        if seek_gen != self.seek_gen {
            self.seek_gen = seek_gen;
            if self.duration_ms > 0 {
                let target = if seek_target_ms < 0 {
                    0
                } else {
                    seek_target_ms
                };
                let file_t = target % self.duration_ms;
                self.pts_offset = target - file_t;
                return DecodeStep::Seek { file_ms: file_t };
            }
            return DecodeStep::Skip;
        }
        if video_full && audio_full {
            DecodeStep::Wait
        } else {
            DecodeStep::Read
        }
    }

    /// A pass reached the end of the input: with a known duration the clip
    /// loops (answer `true`: rewind), the next pass's times following on;
    /// otherwise decoding is over (`false`).
    pub fn end_of_pass(&mut self) -> (again: bool)
        requires
            old(self).spec_pts_offset() + old(self).spec_duration() <= i64::MAX,
        ensures
            again == (old(self).spec_duration() > 0),
            final(self).spec_duration() == old(self).spec_duration(),
            final(self).spec_seek_gen() == old(self).spec_seek_gen(),
            final(self).spec_pts_offset() == if again {
                old(self).spec_pts_offset() + old(self).spec_duration()
            } else {
                old(self).spec_pts_offset() as int
            },
    {
        if self.duration_ms > 0 {
            self.pts_offset = self.pts_offset + self.duration_ms;
            true
        } else {
            false
        }
    }
}

// ---------------------------------------------------------------------------
// Laws of the clock
// ---------------------------------------------------------------------------

/// The packed rows are `row` bytes each: `h` rows make `row * h` bytes.
pub proof fn lemma_packed_rows_len(src: Seq<u8>, stride: nat, row: nat, h: nat)
    requires
        h == 0 || (h - 1) * stride + row <= src.len(),
    ensures
        packed_rows(src, stride, row, h).len() == row * h,
    decreases h,
{
    if h > 0 {
        if h > 1 {
            assert((h - 2) * stride + row <= (h - 1) * stride + row) by (nonlinear_arith)
                requires
                    h >= 2,
            ;
        }
        lemma_packed_rows_len(src, stride, row, (h - 1) as nat);
        assert(row * (h - 1) + row == row * h) by (nonlinear_arith);
    }
}

/// Without an audio clock, a pause freezes the position: at any later instant
/// it reads what it read when paused.
pub proof fn lemma_pause_freezes(c: ClockModel, paused_at: nat, later: nat)
    requires
        c.playing,
    ensures
        ({
            let p = spec_toggle_playing(c, paused_at, None);
            spec_position(p, later, None) == spec_position(c, paused_at, None)
        }),
{
}

/// Without an audio clock, resuming continues from where the pause left the
/// position, at wall-clock speed.
pub proof fn lemma_resume_continues(c: ClockModel, paused_at: nat, resumed_at: nat, later: nat)
    requires
        c.playing,
        resumed_at <= later,
    ensures
        ({
            let p = spec_toggle_playing(c, paused_at, None);
            let r = spec_toggle_playing(p, resumed_at, None);
            &&& r.playing
            &&& spec_position(r, later, None) == spec_position(c, paused_at, None) + (later
                - resumed_at) / 1_000_000
        }),
{
}

/// A seek lands at the requested point of the clip, clamped to the clip:
/// the position becomes that point of the loop being played, the seek bar
/// then reads it (a seek to the very end reads as the start of the next
/// loop), playing and muting are untouched, and a seek before the end stays
/// in the current loop. `c` is the clock before [`PlaybackClock::seek`], the
/// result is its clock after, and [`PlaybackClock::position_ms_in_loop`] reads
/// `last_position_ms` modulo the duration.
pub proof fn lemma_seek_lands(c: ClockModel, now: nat, audio: Option<AudioClock>, file_ms: int, duration_ms: int, output_frames: Option<u64>)
    requires
        duration_ms > 0,
        spec_position(c, now, audio) >= 0,
    ensures
        ({
            let pos = spec_position(c, now, audio);
            let f = clamp(file_ms, duration_ms);
            let t = seek_target(pos, file_ms, duration_ms);
            let s = spec_seek(c, t, now, output_frames);
            &&& s.last_position_ms == (pos / duration_ms) * duration_ms + f
            &&& s.last_position_ms % duration_ms == f % duration_ms
            &&& f < duration_ms ==> t / duration_ms == pos / duration_ms
            &&& 0 <= file_ms < duration_ms ==> s.last_position_ms % duration_ms == file_ms
            &&& s.playing == c.playing
            &&& s.muted == c.muted
        }),
{
    let pos = spec_position(c, now, audio);
    let l = pos / duration_ms;
    let f = clamp(file_ms, duration_ms);
    if f < duration_ms {
        vstd::arithmetic::div_mod::lemma_fundamental_div_mod_converse(
            l * duration_ms + f,
            duration_ms,
            l,
            f,
        );
        vstd::arithmetic::div_mod::lemma_small_mod(f as nat, duration_ms as nat);
    } else {
        assert((l + 1) * duration_ms == l * duration_ms + duration_ms) by (nonlinear_arith);
        vstd::arithmetic::div_mod::lemma_fundamental_div_mod_converse(
            l * duration_ms + f,
            duration_ms,
            l + 1,
            0,
        );
        vstd::arithmetic::div_mod::lemma_mod_self_0(duration_ms);
    }
}

} // verus!
