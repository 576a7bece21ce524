//! The audio engine's clip and voice logic: which frame of which clip sounds
//! at a given position, how clips are launched, stopped and looped, and how
//! a processing block advances the transport.

use vstd::prelude::*;
use crate::transport::{TransportPosition, TransportPlaybackState, valid_loop, wrapped, initial_transport};
use crate::dms::{DmsVoicePool, DmsVoice, DmsEnvStage, chosen_voice, released, killed};

verus! {

/// Tracks with their own mix state (mute, solo, level meters).
pub const TRACK_COUNT: usize = 16;
/// Length of the crossfade that smooths a clip-loop wrap, in frames.
pub const LOOP_XFADE_FRAMES: u32 = 32;

/// OpenStudio plays clips on the arrangement timeline; OpenLive launches
/// them from the session matrix.
#[derive(Debug, Clone, Copy, PartialEq, Eq, Structural)]
pub enum EngineMode {
    OpenLive,
    OpenStudio,
}

/// Whether a clip voice is still producing frames.
#[derive(Debug, Clone, Copy, PartialEq, Eq, Structural)]
pub enum VoiceState {
    Active,
    Finished,
}

/// A note of a MIDI clip, as the engine receives it.
#[derive(Clone, Debug)]
pub struct MidiNoteInstance {
    pub start_tick: u64,
    pub pitch: u8,
    pub velocity: u8,
    pub duration_ticks: u32,
}

/// A MIDI clip placed in a session slot.
pub struct MidiClipInstance {
    pub track_index: usize,
    pub scene_index: usize,
    pub notes: Vec<MidiNoteInstance>,
    pub is_playing: bool,
}

/// An audio clip known to the engine. `samples` carries the interleaved
/// sample data for the mixer; the logic reads only `sample_len`, the number
/// of interleaved samples it holds.
pub struct AudioClipInstance<S> {
    pub id: usize,
    pub track_index: usize,
    pub scene_index: usize,
    pub samples: S,
    pub sample_len: usize,
    pub start_frame: u64,
    pub start_absolute: u64,
    pub duration_frames: u64,
    pub sample_offset: usize,
    pub channels: usize,
    pub is_playing: bool,
    pub clip_loop_enabled: bool,
    pub clip_loop_start: u64,
    pub clip_loop_end: u64,
    pub is_matrix_clip: bool,
    pub prev_frame: usize,
    pub xfade_remaining: u32,
    pub xfade_len: u32,
}

pub open spec fn max_int(a: int, b: int) -> int {
    if a >= b {
        a
    } else {
        b
    }
}

pub open spec fn min_int(a: int, b: int) -> int {
    if a <= b {
        a
    } else {
        b
    }
}

impl<S> AudioClipInstance<S> {
    /// Frames held by the clip's sample data (channels count as at least one).
    pub open spec fn natural(&self) -> int {
        self.sample_len as int / max_int(self.channels as int, 1)
    }

    /// Whether the clip's own loop is enabled, non-empty and starts inside the data.
    pub open spec fn valid_clip_loop(&self) -> bool {
        self.clip_loop_enabled && self.clip_loop_end > self.clip_loop_start && self.clip_loop_start
            < self.natural()
    }

    /// The end of the clip loop, cut at the end of the data.
    pub open spec fn loop_end_frame(&self) -> int {
        min_int(self.clip_loop_end as int, self.natural())
    }

    /// Frames the clip plays before it ends (no loop) or repeats (loop).
    pub open spec fn playback_len(&self) -> int {
        if self.valid_clip_loop() {
            self.loop_end_frame() - self.clip_loop_start
        } else {
            self.natural()
        }
    }

    /// Frames a non-looping clip emits: its duration, cut at the end of the
    /// data (a zero duration means the whole data).
    pub open spec fn emission_len(&self) -> int {
        if self.duration_frames > 0 {
            min_int(self.duration_frames as int, self.natural())
        } else {
            self.natural()
        }
    }

    /// The clip frame that sounds at timeline position `pos`. A looping clip
    /// plays through to its loop end once and then repeats the loop region,
    /// aligned to the transport loop when one is set; a non-looping clip
    /// sounds for its emission length and is then silent.
    pub open spec fn frame_at(&self, pos: int, t: TransportPosition) -> Option<int> {
        if pos < self.start_frame || self.natural() == 0 {
            None
        } else {
            let e = pos - self.start_frame;
            if self.valid_clip_loop() {
                let ls = self.clip_loop_start as int;
                let len = self.loop_end_frame() - ls;
                if e < self.loop_end_frame() {
                    Some(e)
                } else if valid_loop(t) {
                    Some(ls + max_int(pos - t.loop_start_samples, 0) % len)
                } else {
                    Some(ls + (e - ls) % len)
                }
            } else if e >= self.emission_len() {
                None
            } else {
                Some(e)
            }
        }
    }

    /// The clip frame that sounds at absolute frame `abs` for a launched
    /// voice: a looping clip cycles through its loop region from the launch;
    /// a non-looping clip sounds for its emission length.
    pub open spec fn frame_linear(&self, abs: int) -> Option<int> {
        if abs < self.start_absolute || self.natural() == 0 {
            None
        } else {
            let e = abs - self.start_absolute;
            if self.valid_clip_loop() {
                Some(self.clip_loop_start + e % (self.loop_end_frame() - self.clip_loop_start))
            } else if e >= self.emission_len() {
                None
            } else {
                Some(e)
            }
        }
    }

    pub fn natural_frames(&self) -> (r: u64)
        ensures
            r == self.natural(),
    {
        let ch = if self.channels > 1 { self.channels } else { 1 };
        (self.sample_len / ch) as u64
    }

    pub fn has_valid_clip_loop(&self) -> (b: bool)
        ensures
            b == self.valid_clip_loop(),
    {
        self.clip_loop_enabled && self.clip_loop_end > self.clip_loop_start && self.clip_loop_start
            < self.natural_frames()
    }

    pub fn playback_length_frames(&self) -> (r: u64)
        ensures
            r == self.playback_len(),
            r <= self.natural(),
    {
        let natural = self.natural_frames();
        if self.has_valid_clip_loop() {
            let end = if self.clip_loop_end < natural { self.clip_loop_end } else { natural };
            end - self.clip_loop_start
        } else {
            natural
        }
    }

    pub fn emission_len_frames(&self) -> (r: u64)
        ensures
            r == self.emission_len(),
            r <= self.natural(),
    {
        let natural = self.natural_frames();
        if self.duration_frames > 0 {
            if self.duration_frames < natural { self.duration_frames } else { natural }
        } else {
            natural
        }
    }

    /// The loop region `(start, length)` used while playing a valid clip loop.
    fn loop_region(&self) -> (r: (u64, u64))
        requires
            self.valid_clip_loop(),
        ensures
            r.0 == self.clip_loop_start,
            r.1 == self.loop_end_frame() - self.clip_loop_start,
            r.1 > 0,
            r.0 + r.1 <= self.natural(),
    {
        let natural = self.natural_frames();
        let loop_start = if self.clip_loop_start < natural { self.clip_loop_start } else { natural };
        let capped = if self.clip_loop_end < natural { self.clip_loop_end } else { natural };
        let loop_end = if capped > loop_start + 1 { capped } else { loop_start + 1 };
        let len = loop_end - loop_start;
        let len = if len > 1 { len } else { 1 };
        (loop_start, len)
    }

    /// The clip frame that sounds at timeline position `global_pos`
    /// (see [`AudioClipInstance::frame_at`]).
    pub fn voice_frame(&self, global_pos: u64, transport: &TransportPosition) -> (r: Option<usize>)
        ensures
            r matches Some(f) ==> self.frame_at(global_pos as int, *transport) == Some(f as int),
            r is None ==> self.frame_at(global_pos as int, *transport) is None,
            r matches Some(f) ==> f < self.natural(),
    {
        if global_pos < self.start_frame {
            return None;
        }
        let natural = self.natural_frames();
        if natural == 0 {
            return None;
        }
        let elapsed = global_pos - self.start_frame;
        if self.has_valid_clip_loop() {
            let (loop_start, loop_len) = self.loop_region();
            let loop_end = loop_start + loop_len;
            if elapsed < loop_end {
                return Some(elapsed as usize);
            }
            if transport.has_valid_loop() {
                let since_global = if global_pos > transport.loop_start_samples {
                    global_pos - transport.loop_start_samples
                } else {
                    0
                };
                proof {
                    vstd::arithmetic::div_mod::lemma_mod_pos_bound(since_global as int, loop_len as int);
                }
                return Some((loop_start + (since_global % loop_len)) as usize);
            }
            proof {
                vstd::arithmetic::div_mod::lemma_mod_pos_bound((elapsed - loop_start) as int, loop_len as int);
            }
            return Some((loop_start + ((elapsed - loop_start) % loop_len)) as usize);
        }
        let emission_len = self.emission_len_frames();
        if elapsed >= emission_len {
            return None;
        }
        Some(elapsed as usize)
    }

    /// The clip frame that sounds at absolute frame `abs_pos` for a launched
    /// voice (see [`AudioClipInstance::frame_linear`]).
    pub fn voice_frame_linear(&self, abs_pos: u64) -> (r: Option<usize>)
        ensures
            r matches Some(f) ==> self.frame_linear(abs_pos as int) == Some(f as int),
            r is None ==> self.frame_linear(abs_pos as int) is None,
            r matches Some(f) ==> f < self.natural(),
    {
        if abs_pos < self.start_absolute {
            return None;
        }
        let natural = self.natural_frames();
        if natural == 0 {
            return None;
        }
        let elapsed = abs_pos - self.start_absolute;
        if self.has_valid_clip_loop() {
            let (loop_start, loop_len) = self.loop_region();
            proof {
                vstd::arithmetic::div_mod::lemma_mod_pos_bound(elapsed as int, loop_len as int);
            }
            return Some((loop_start + (elapsed % loop_len)) as usize);
        }
        let emission_len = self.emission_len_frames();
        if elapsed >= emission_len {
            return None;
        }
        Some(elapsed as usize)
    }

    pub fn voice_state_linear(&self, abs_pos: u64) -> (r: VoiceState)
        ensures
            r == (if self.frame_linear(abs_pos as int) is Some {
                VoiceState::Active
            } else {
                VoiceState::Finished
            }),
    {
        match self.voice_frame_linear(abs_pos) {
            Some(_) => VoiceState::Active,
            None => VoiceState::Finished,
        }
    }

    pub fn voice_state(&self, global_pos: u64, transport: &TransportPosition) -> (r: VoiceState)
        ensures
            r == (if self.frame_at(global_pos as int, *transport) is Some {
                VoiceState::Active
            } else {
                VoiceState::Finished
            }),
    {
        match self.voice_frame(global_pos, transport) {
            Some(_) => VoiceState::Active,
            None => VoiceState::Finished,
        }
    }

    /// OpenStudio: the reads of this clip for a block of `buffer_frames`
    /// frames starting at transport position `frame_start` (positions wrap
    /// through the transport loop).
    pub fn studio_block(&self, frame_start: u64, transport: &TransportPosition, buffer_frames: usize) -> (reads: Vec<FrameRead>)
        requires
            frame_start + buffer_frames <= u64::MAX,
        ensures
            reads@ == Seq::new(
                buffer_frames as nat,
                |f: int| studio_read(*self, wrapped(*transport, frame_start + f)),
            ),
    {
        let ch = if self.channels > 1 { self.channels } else { 1 };
        let clip_frame_end = self.start_frame.saturating_add(self.duration_frames);
        let offset_frames = self.sample_offset / ch;
        let mut reads: Vec<FrameRead> = Vec::new();
        let mut f: usize = 0;
        while f < buffer_frames
            invariant
                0 <= f <= buffer_frames,
                frame_start + buffer_frames <= u64::MAX,
                ch == max_int(self.channels as int, 1),
                clip_frame_end == min_int(self.start_frame + self.duration_frames, u64::MAX as int),
                offset_frames == (self.sample_offset as int) / (ch as int),
                reads@ == Seq::new(f as nat, |k: int| studio_read(*self, wrapped(*transport, frame_start + k))),
            decreases buffer_frames - f,
        {
            let global_frame = transport.wrap_sample_count(frame_start + f as u64);
            let read = if global_frame < self.start_frame || global_frame >= clip_frame_end {
                FrameRead::Silent
            } else {
                let rel = global_frame - self.start_frame;
                let frame: u128 = offset_frames as u128 + rel as u128;
                if frame > u64::MAX as u128 {
                    proof {
                        assert(frame * ch >= frame) by (nonlinear_arith)
                            requires
                                ch >= 1,
                                frame >= 0,
                        ;
                    }
                    FrameRead::Silent
                } else {
                    match checked_frame_start(frame as u64, ch, self.sample_len) {
                        Some(src) => FrameRead::Plain { src },
                        None => FrameRead::Silent,
                    }
                }
            };
            reads.push(read);
            proof {
                assert(reads@ =~= Seq::new((f + 1) as nat, |k: int| studio_read(*self, wrapped(*transport, frame_start + k))));
            }
            f = f + 1;
        }
        reads
    }

    /// OpenLive: plays one block of `buffer_frames` frames starting at
    /// absolute frame `abs_start`, returning the reads (see [`live_reads`])
    /// and updating the voice (see [`live_after`]).
    pub fn live_block(&mut self, abs_start: u64, buffer_frames: usize) -> (reads: Vec<FrameRead>)
        requires
            old(self).xfade_remaining <= old(self).xfade_len,
            abs_start + buffer_frames <= u64::MAX,
        ensures
            reads@ == live_reads(*old(self), abs_start as int, buffer_frames as nat),
            *final(self) == live_after(*old(self), abs_start as int, buffer_frames as nat),
            final(self).xfade_remaining <= final(self).xfade_len,
    {
        let ghost c = *self;
        if !self.is_playing || abs_start < self.start_absolute {
            return Vec::new();
        }
        let es = abs_start - self.start_absolute;
        let emission = self.emission_len_frames();
        let has_loop = self.has_valid_clip_loop();
        if !has_loop && es >= emission {
            self.is_playing = false;
            return Vec::new();
        }
        let natural = self.natural_frames();
        if natural == 0 {
            return Vec::new();
        }
        let ch = if self.channels > 1 { self.channels } else { 1 };
        let (loop_start, loop_len) = if has_loop { self.loop_region() } else { (0, 1) };
        let loop_end = loop_start + loop_len;
        let half = emission / 2;
        let mut prev = self.prev_frame;
        let mut xr = self.xfade_remaining;
        let mut xl = self.xfade_len;
        let mut reads: Vec<FrameRead> = Vec::new();
        let mut finished = false;
        let mut f: usize = 0;
        proof {
            lemma_live_run_wf(c, es as int, 0);
        }
        while f < buffer_frames && !finished
            invariant
                *self == c,
                0 <= f <= buffer_frames,
                abs_start + buffer_frames <= u64::MAX,
                es == abs_start - c.start_absolute,
                es <= abs_start,
                emission == c.emission_len(),
                has_loop == c.valid_clip_loop(),
                natural == c.natural(),
                natural > 0,
                emission <= natural,
                ch == max_int(c.channels as int, 1),
                has_loop ==> loop_start == c.clip_loop_start && loop_end == c.loop_end_frame() && loop_len
                    == c.loop_end_frame() - c.clip_loop_start && loop_len > 0 && loop_end <= natural,
                half == emission / 2,
                (reads@, (prev, xr, xl), finished) == live_run(c, es as int, f as nat),
                xr <= xl,
                c.xfade_remaining <= c.xfade_len,
            decreases buffer_frames - f,
        {
            proof {
                lemma_live_run_wf(c, es as int, (f + 1) as nat);
            }
            let e = es + f as u64;
            if !has_loop && e >= emission {
                finished = true;
            } else {
                let rel: u64 = if has_loop && e >= loop_end {
                    proof {
                        vstd::arithmetic::div_mod::lemma_mod_pos_bound((e - loop_end) as int, loop_len as int);
                    }
                    loop_start + (e - loop_end) % loop_len
                } else {
                    e
                };
                assert(rel < natural);
                let rel_u = rel as usize;
                if has_loop && prev != usize::MAX && rel_u < prev && prev - rel_u > half as usize {
                    xr = LOOP_XFADE_FRAMES;
                    xl = LOOP_XFADE_FRAMES;
                }
                match checked_frame_start(rel, ch, self.sample_len) {
                    Some(src) => {
                        if xr > 0 {
                            let old_src = checked_frame_start(prev as u64, ch, self.sample_len);
                            reads.push(FrameRead::Crossfade { src, old_src, fade_pos: xl - xr, fade_len: xl });
                            xr = xr - 1;
                        } else {
                            reads.push(FrameRead::Plain { src });
                        }
                    },
                    None => {
                        reads.push(FrameRead::Silent);
                    },
                }
                prev = rel_u;
            }
            f = f + 1;
        }
        proof {
            if finished {
                lemma_live_run_stable(c, es as int, f as nat, buffer_frames as nat);
            }
        }
        self.prev_frame = prev;
        self.xfade_remaining = xr;
        self.xfade_len = xl;
        if finished {
            self.is_playing = false;
        }
        reads
    }
}

// ---------------------------------------------------------------------------
// Searching and filtering clip lists
// ---------------------------------------------------------------------------

/// The position of the first element satisfying `p`.
pub open spec fn first_index<T>(s: Seq<T>, p: spec_fn(T) -> bool) -> Option<int>
    decreases s.len(),
{
    if s.len() == 0 {
        None
    } else {
        match first_index(s.drop_last(), p) {
            Some(k) => Some(k),
            None => if p(s.last()) {
                Some(s.len() - 1)
            } else {
                None
            },
        }
    }
}

/// The elements satisfying `p`, in order.
pub open spec fn retained<T>(s: Seq<T>, p: spec_fn(T) -> bool) -> Seq<T>
    decreases s.len(),
{
    if s.len() == 0 {
        Seq::empty()
    } else {
        let r = retained(s.drop_last(), p);
        if p(s.last()) {
            r.push(s.last())
        } else {
            r
        }
    }
}

/// `first_index` is the least position whose element satisfies `p`.
pub proof fn lemma_first_index<T>(s: Seq<T>, p: spec_fn(T) -> bool)
    ensures
        first_index(s, p) matches Some(k) ==> 0 <= k < s.len() && p(s[k]) && forall|j: int|
            0 <= j < k ==> !p(#[trigger] s[j]),
        first_index(s, p) is None ==> forall|j: int| 0 <= j < s.len() ==> !p(#[trigger] s[j]),
    decreases s.len(),
{
    if s.len() > 0 {
        let d = s.drop_last();
        lemma_first_index(d, p);
        assert forall|j: int| 0 <= j < d.len() implies d[j] == s[j] by {}
        if first_index(d, p) is None && !p(s.last()) {
            assert forall|j: int| 0 <= j < s.len() implies !p(#[trigger] s[j]) by {
                if j < d.len() {
                    assert(d[j] == s[j]);
                }
            }
        }
        if let Some(k) = first_index(s, p) {
            assert forall|j: int| 0 <= j < k implies !p(#[trigger] s[j]) by {
                assert(d[j] == s[j]);
            }
        }
    }
}

/// A position whose element satisfies `p` and is preceded by none that
/// does is `first_index`.
proof fn lemma_first_index_is<T>(s: Seq<T>, p: spec_fn(T) -> bool, k: int)
    requires
        0 <= k < s.len(),
        p(s[k]),
        forall|j: int| 0 <= j < k ==> !p(#[trigger] s[j]),
    ensures
        first_index(s, p) == Some(k),
{
    lemma_first_index(s, p);
    if let Some(k2) = first_index(s, p) {
        if k2 < k {
            assert(!p(s[k2]));
        }
        if k < k2 {
            assert(!p(s[k]));
        }
    }
}

pub open spec fn in_slot<S>(track: usize, scene: usize) -> spec_fn(AudioClipInstance<S>) -> bool {
    |c: AudioClipInstance<S>| c.track_index == track && c.scene_index == scene
}

/// The clip a bounds/replace/remove request addresses: by id on the
/// OpenStudio timeline, by session slot in OpenLive.
pub open spec fn addressed<S>(mode: EngineMode, id: usize, track: usize, scene: usize) -> spec_fn(
    AudioClipInstance<S>,
) -> bool {
    |c: AudioClipInstance<S>|
        if mode == EngineMode::OpenStudio {
            c.id == id
        } else {
            c.track_index == track && c.scene_index == scene
        }
}

pub open spec fn not_addressed<S>(mode: EngineMode, id: usize, track: usize, scene: usize) -> spec_fn(
    AudioClipInstance<S>,
) -> bool {
    |c: AudioClipInstance<S>| !(addressed(mode, id, track, scene))(c)
}

proof fn lemma_step<T>(s: Seq<T>, i: int)
    requires
        0 <= i < s.len(),
    ensures
        s.take(i + 1).drop_last() == s.take(i),
        s.take(i + 1).last() == s[i],
        s.take(i + 1).len() == i + 1,
{
    assert(s.take(i + 1).drop_last() =~= s.take(i));
}

/// The clip after a bounds update.
pub open spec fn with_bounds<S>(
    c: AudioClipInstance<S>,
    start_frame: u64,
    duration_frames: Option<u64>,
    offset_frames: usize,
) -> AudioClipInstance<S> {
    AudioClipInstance {
        start_frame,
        duration_frames: match duration_frames {
            Some(d) => d,
            None => c.natural() as u64,
        },
        sample_offset: (offset_frames * c.channels) as usize,
        ..c
    }
}

/// The clip after a loop request: the end is cut at the end of the data;
/// the loop is kept only if enabled, non-empty and starting inside the data.
pub open spec fn with_loop<S>(c: AudioClipInstance<S>, start: u64, end: u64, enabled: bool) -> AudioClipInstance<S> {
    let e = if c.natural() > 0 && c.natural() < end {
        c.natural() as u64
    } else {
        end
    };
    if enabled && e > start && start < c.natural() {
        AudioClipInstance { clip_loop_enabled: true, clip_loop_start: start, clip_loop_end: e, ..c }
    } else {
        AudioClipInstance { clip_loop_enabled: false, clip_loop_start: 0, clip_loop_end: 0, ..c }
    }
}

/// A clip after its slot `(track, scene)` was triggered, given whether the
/// slot's clip was playing and the two clocks at the trigger.
pub open spec fn after_trigger_clip<S>(
    c: AudioClipInstance<S>,
    track: usize,
    scene: usize,
    was_playing: bool,
    now: u64,
    now_abs: u64,
) -> AudioClipInstance<S> {
    if c.track_index != track {
        c
    } else if c.scene_index != scene {
        AudioClipInstance { is_playing: false, ..c }
    } else if was_playing {
        AudioClipInstance { is_playing: false, ..c }
    } else {
        AudioClipInstance { is_playing: true, start_frame: now, start_absolute: now_abs, ..c }
    }
}

/// A clip after scene `scene` was launched, given whether its track has a
/// clip in that scene and the two clocks at the launch.
pub open spec fn after_trigger_scene<S>(
    c: AudioClipInstance<S>,
    scene: usize,
    track_covered: bool,
    now: u64,
    now_abs: u64,
) -> AudioClipInstance<S> {
    if c.scene_index == scene {
        if c.is_playing && c.start_absolute == now_abs {
            c
        } else {
            AudioClipInstance { is_playing: true, start_frame: now, start_absolute: now_abs, ..c }
        }
    } else if track_covered {
        AudioClipInstance { is_playing: false, ..c }
    } else {
        c
    }
}

pub open spec fn midi_in_slot(track: usize, scene: usize) -> spec_fn(MidiClipInstance) -> bool {
    |c: MidiClipInstance| c.track_index == track && c.scene_index == scene
}


// ---------------------------------------------------------------------------
// Block rendering plan
// ---------------------------------------------------------------------------

/// What the mixer takes from one clip for one output frame. Sample
/// positions index the clip's interleaved data at the frame's first channel.
#[derive(Debug, Clone, Copy)]
pub enum FrameRead {
    /// Nothing from this clip.
    Silent,
    /// The frame starting at `src`.
    Plain { src: usize },
    /// A loop-wrap crossfade: the frame at `src` enters with weight
    /// `fade_pos / fade_len` while the previous frame, at `old_src` (if it is
    /// inside the data), leaves with the rest.
    Crossfade { src: usize, old_src: Option<usize>, fade_pos: u32, fade_len: u32 },
}

/// The frames a clip contributes to one processing block, one per output
/// frame from the block's start (a clip that ends stops contributing).
pub struct ClipBlock {
    pub reads: Vec<FrameRead>,
}

/// The read of a frame whose first sample sits at `frame * ch`, if the
/// whole frame lies inside `len` samples.
pub open spec fn read_at(frame: int, ch: int, len: int) -> Option<int> {
    if frame * ch + ch <= len {
        Some(frame * ch)
    } else {
        None
    }
}

/// OpenStudio: the read for timeline position `g`. The clip sounds from
/// its start for its duration, reading from its sample offset on.
pub open spec fn studio_read<S>(c: AudioClipInstance<S>, g: int) -> FrameRead {
    let ch = max_int(c.channels as int, 1);
    let end = min_int(c.start_frame + c.duration_frames, u64::MAX as int);
    if g < c.start_frame || g >= end {
        FrameRead::Silent
    } else {
        match read_at((c.sample_offset as int) / ch + (g - c.start_frame), ch, c.sample_len as int) {
            Some(src) => FrameRead::Plain { src: src as usize },
            None => FrameRead::Silent,
        }
    }
}

/// OpenStudio: inside the clip's span, a timeline position whose frame lies
/// in the data reads that frame counted from the trim offset: the frame
/// `sample_offset / ch` plus the distance from the clip's start.
pub proof fn law_studio_read_starts_at_offset<S>(c: AudioClipInstance<S>, g: int)
    requires
        c.start_frame <= g < c.start_frame + c.duration_frames,
        g < u64::MAX,
        ({
            let ch = max_int(c.channels as int, 1);
            ((c.sample_offset as int) / ch + (g - c.start_frame)) * ch + ch <= c.sample_len
        }),
    ensures
        studio_read(c, g) == (FrameRead::Plain {
            src: (((c.sample_offset as int) / max_int(c.channels as int, 1) + (g - c.start_frame)) * max_int(
                c.channels as int,
                1,
            )) as usize,
        }),
{
}

/// OpenLive: the clip frame reached `e` frames after launch. A looping
/// clip plays to its loop end once and then cycles through the loop region.
pub open spec fn live_frame<S>(c: AudioClipInstance<S>, e: int) -> int {
    if c.valid_clip_loop() && e >= c.loop_end_frame() {
        c.clip_loop_start + (e - c.loop_end_frame()) % (c.loop_end_frame() - c.clip_loop_start)
    } else {
        e
    }
}

/// OpenLive: one frame `e` after launch, given the crossfade state
/// `(prev_frame, remaining, len)`. A backward jump of more than half the
/// emission length on a looping clip starts a crossfade; while one runs,
/// each frame blends with the previous one and counts it down.
pub open spec fn live_step<S>(c: AudioClipInstance<S>, e: int, st: (usize, u32, u32)) -> (FrameRead, (usize, u32, u32)) {
    let (p, xr, xl) = st;
    let ch = max_int(c.channels as int, 1);
    let rel = live_frame(c, e);
    let jump = c.valid_clip_loop() && p != usize::MAX && rel < p && p - rel > c.emission_len() / 2;
    let xr1: u32 = if jump { LOOP_XFADE_FRAMES } else { xr };
    let xl1: u32 = if jump { LOOP_XFADE_FRAMES } else { xl };
    match read_at(rel, ch, c.sample_len as int) {
        Some(src) => if xr1 > 0 {
            (
                FrameRead::Crossfade {
                    src: src as usize,
                    old_src: match read_at(p as int, ch, c.sample_len as int) {
                        Some(o) => Some(o as usize),
                        None => None,
                    },
                    fade_pos: (xl1 - xr1) as u32,
                    fade_len: xl1,
                },
                (rel as usize, (xr1 - 1) as u32, xl1),
            )
        } else {
            (FrameRead::Plain { src: src as usize }, (rel as usize, xr1, xl1))
        },
        None => (FrameRead::Silent, (rel as usize, xr1, xl1)),
    }
}

/// OpenLive: the reads and crossfade state after up to `n` frames of a
/// voice whose block starts `es` frames after launch, and whether a
/// non-looping voice ran out.
pub open spec fn live_run<S>(c: AudioClipInstance<S>, es: int, n: nat) -> (Seq<FrameRead>, (usize, u32, u32), bool)
    decreases n,
{
    if n == 0 {
        (Seq::empty(), (c.prev_frame, c.xfade_remaining, c.xfade_len), false)
    } else {
        let (r, st, fin) = live_run(c, es, (n - 1) as nat);
        let e = es + n - 1;
        if fin {
            (r, st, fin)
        } else if !c.valid_clip_loop() && e >= c.emission_len() {
            (r, st, true)
        } else {
            let (fr, st2) = live_step(c, e, st);
            (r.push(fr), st2, false)
        }
    }
}

/// OpenLive: whether the voice takes part in a block starting at absolute
/// frame `abs` (it is playing, launched, and not already past its end).
pub open spec fn live_runs<S>(c: AudioClipInstance<S>, abs: int) -> bool {
    c.is_playing && abs >= c.start_absolute && (c.valid_clip_loop() || abs - c.start_absolute
        < c.emission_len()) && c.natural() > 0
}

/// OpenLive: the reads of a clip for a block of `b` frames at absolute frame `abs`.
pub open spec fn live_reads<S>(c: AudioClipInstance<S>, abs: int, b: nat) -> Seq<FrameRead> {
    if live_runs(c, abs) {
        live_run(c, abs - c.start_absolute, b).0
    } else {
        Seq::empty()
    }
}

/// OpenLive: the clip after a block of `b` frames at absolute frame `abs`:
/// a voice found past its end stops; a running voice keeps its crossfade
/// state and stops if it runs out within the block.
pub open spec fn live_after<S>(c: AudioClipInstance<S>, abs: int, b: nat) -> AudioClipInstance<S> {
    if !c.is_playing || abs < c.start_absolute {
        c
    } else if !c.valid_clip_loop() && abs - c.start_absolute >= c.emission_len() {
        AudioClipInstance { is_playing: false, ..c }
    } else if c.natural() == 0 {
        c
    } else {
        let (r, st, fin) = live_run(c, abs - c.start_absolute, b);
        AudioClipInstance {
            prev_frame: st.0,
            xfade_remaining: st.1,
            xfade_len: st.2,
            is_playing: !fin,
            ..c
        }
    }
}

proof fn lemma_live_run_len<S>(c: AudioClipInstance<S>, es: int, n: nat)
    ensures
        live_run(c, es, n).0.len() <= n,
        !live_run(c, es, n).2 ==> live_run(c, es, n).0.len() == n,
    decreases n,
{
    if n > 0 {
        lemma_live_run_len(c, es, (n - 1) as nat);
    }
}

proof fn lemma_live_run_stable<S>(c: AudioClipInstance<S>, es: int, n: nat, m: nat)
    requires
        n <= m,
        live_run(c, es, n).2,
    ensures
        live_run(c, es, m) == live_run(c, es, n),
    decreases m - n,
{
    if n < m {
        lemma_live_run_stable(c, es, n, (m - 1) as nat);
    }
}

proof fn lemma_live_step_wf<S>(c: AudioClipInstance<S>, e: int, st: (usize, u32, u32))
    requires
        st.1 <= st.2,
    ensures
        live_step(c, e, st).1.1 <= live_step(c, e, st).1.2,
{
}

proof fn lemma_live_run_wf<S>(c: AudioClipInstance<S>, es: int, n: nat)
    requires
        c.xfade_remaining <= c.xfade_len,
    ensures
        live_run(c, es, n).1.1 <= live_run(c, es, n).1.2,
    decreases n,
{
    if n > 0 {
        lemma_live_run_wf(c, es, (n - 1) as nat);
        let (r, st, fin) = live_run(c, es, (n - 1) as nat);
        lemma_live_step_wf(c, es + n - 1, st);
    }
}

/// Multiplies when the product stays within `bound`.
fn checked_frame_start(frame: u64, ch: usize, len: usize) -> (r: Option<usize>)
    requires
        ch >= 1,
    ensures
        r == (match read_at(frame as int, ch as int, len as int) {
            Some(s) => Some(s as usize),
            None => None::<usize>,
        }),
{
    let chu = ch as u64;
    if frame > (len as u64) / chu {
        proof {
            assert(frame * ch >= ((len as int) / (ch as int) + 1) * ch) by (nonlinear_arith)
                requires
                    frame > (len as int) / (ch as int),
                    ch >= 1,
            ;
            vstd::arithmetic::div_mod::lemma_fundamental_div_mod(len as int, ch as int);
            vstd::arithmetic::div_mod::lemma_mod_pos_bound(len as int, ch as int);
            assert(((len as int) / (ch as int) + 1) * ch == (len as int) / (ch as int) * ch + ch) by (nonlinear_arith);
            vstd::arithmetic::mul::lemma_mul_is_commutative((len as int) / (ch as int), ch as int);
        }
        return None;
    }
    proof {
        assert(frame * ch <= (len as int) / (ch as int) * ch) by (nonlinear_arith)
            requires
                frame <= (len as int) / (ch as int),
                ch >= 1,
        ;
        vstd::arithmetic::div_mod::lemma_fundamental_div_mod(len as int, ch as int);
        vstd::arithmetic::div_mod::lemma_mod_pos_bound(len as int, ch as int);
        vstd::arithmetic::mul::lemma_mul_is_commutative((len as int) / (ch as int), ch as int);
    }
    let start = (frame as usize) * ch;
    if start <= len && len - start >= ch {
        Some(start)
    } else {
        None
    }
}

// ---------------------------------------------------------------------------
// The engine
// ---------------------------------------------------------------------------

/// The engine's clip, transport and launch state. Sample data rides along
/// in `S`; levels, gains and the mixer itself are the host's.
pub struct AudioEngine<S> {
    pub transport: TransportPosition,
    pub mode: EngineMode,
    pub clips: Vec<AudioClipInstance<S>>,
    pub absolute_frame: u64,
    pub track_mutes: [bool; TRACK_COUNT],
    pub track_solos: [bool; TRACK_COUNT],
    pub midi_clips: Vec<MidiClipInstance>,
    pub dms_voice_pool: DmsVoicePool,
    pub dms_samples: Vec<Option<S>>,
    pub dms_channels: Vec<usize>,
    pub dms_track_idx: usize,
}

/// A clip as `add_clip` creates it: stopped, unlooped, at `start_frame`,
/// lasting `duration_frames` (its whole data when `None`).
pub open spec fn new_clip<S>(
    id: usize,
    track_index: usize,
    scene_index: usize,
    samples: S,
    sample_len: usize,
    start_frame: u64,
    duration_frames: Option<u64>,
    offset_frames: usize,
    channels: usize,
    is_matrix_clip: bool,
) -> AudioClipInstance<S> {
    let ch = max_int(channels as int, 1);
    AudioClipInstance {
        id,
        track_index,
        scene_index,
        samples,
        sample_len,
        start_frame,
        start_absolute: 0,
        duration_frames: match duration_frames {
            Some(d) => d,
            None => (sample_len as int / ch) as u64,
        },
        sample_offset: (offset_frames * ch) as usize,
        channels: ch as usize,
        is_playing: false,
        clip_loop_enabled: false,
        clip_loop_start: 0,
        clip_loop_end: 0,
        is_matrix_clip,
        prev_frame: usize::MAX,
        xfade_remaining: 0,
        xfade_len: 0,
    }
}

impl<S> AudioEngine<S> {
    /// The engine's standing invariant: crossfade counters never exceed
    /// their length, the DMS tables stay paired and the DMS track is a
    /// mixer track.
    pub open spec fn wf(&self) -> bool {
        &&& forall|i: int| 0 <= i < self.clips@.len() ==> (#[trigger] self.clips@[i]).xfade_remaining
            <= self.clips@[i].xfade_len
        &&& self.dms_samples@.len() == self.dms_channels@.len()
        &&& self.dms_track_idx < TRACK_COUNT
        &&& self.dms_voice_pool.wf()
    }

    /// A stopped OpenStudio engine with no clips.
    pub fn new() -> (e: Self)
        ensures
            e.wf(),
            e.transport == initial_transport(),
            e.mode == EngineMode::OpenStudio,
            e.clips@.len() == 0,
            e.absolute_frame == 0,
            forall|t: int| 0 <= t < TRACK_COUNT ==> !e.track_mutes@[t] && !e.track_solos@[t],
            e.midi_clips@.len() == 0,
            e.dms_samples@.len() == 0,
            e.dms_track_idx == 0,
            e.dms_voice_pool.all_free(),
    {
        AudioEngine {
            transport: TransportPosition::new(),
            mode: EngineMode::OpenStudio,
            clips: Vec::new(),
            absolute_frame: 0,
            track_mutes: [false; TRACK_COUNT],
            track_solos: [false; TRACK_COUNT],
            midi_clips: Vec::new(),
            dms_voice_pool: DmsVoicePool::new(),
            dms_samples: Vec::new(),
            dms_channels: Vec::new(),
            dms_track_idx: 0,
        }
    }

    /// Everything but the clip list is as in `other`.
    pub open spec fn same_but_clips(&self, other: &Self) -> bool {
        &&& self.transport == other.transport
        &&& self.mode == other.mode
        &&& self.absolute_frame == other.absolute_frame
        &&& self.track_mutes == other.track_mutes
        &&& self.track_solos == other.track_solos
        &&& self.midi_clips@ == other.midi_clips@
        &&& self.dms_voice_pool == other.dms_voice_pool
        &&& self.dms_samples@ == other.dms_samples@
        &&& self.dms_channels@ == other.dms_channels@
        &&& self.dms_track_idx == other.dms_track_idx
    }

    /// Everything but the transport is as in `other`.
    pub open spec fn same_but_transport(&self, other: &Self) -> bool {
        &&& self.clips@ == other.clips@
        &&& self.mode == other.mode
        &&& self.absolute_frame == other.absolute_frame
        &&& self.track_mutes == other.track_mutes
        &&& self.track_solos == other.track_solos
        &&& self.midi_clips@ == other.midi_clips@
        &&& self.dms_voice_pool == other.dms_voice_pool
        &&& self.dms_samples@ == other.dms_samples@
        &&& self.dms_channels@ == other.dms_channels@
        &&& self.dms_track_idx == other.dms_track_idx
    }

    pub fn set_mode(&mut self, mode: EngineMode)
        ensures
            *final(self) == (AudioEngine { mode, ..*old(self) }),
    {
        self.mode = mode;
    }

    /// Mutes or unmutes one of the mixer tracks; other indices are ignored.
    pub fn set_track_mute(&mut self, track_idx: usize, mute: bool)
        ensures
            final(self).track_mutes@ == (if track_idx < TRACK_COUNT {
                old(self).track_mutes@.update(track_idx as int, mute)
            } else {
                old(self).track_mutes@
            }),
            final(self).track_solos == old(self).track_solos,
            final(self).clips@ == old(self).clips@,
            final(self).transport == old(self).transport,
            final(self).mode == old(self).mode,
            final(self).absolute_frame == old(self).absolute_frame,
            final(self).dms_voice_pool == old(self).dms_voice_pool,
            final(self).dms_track_idx == old(self).dms_track_idx,
            final(self).dms_samples@ == old(self).dms_samples@,
            final(self).dms_channels@ == old(self).dms_channels@,
            final(self).midi_clips@ == old(self).midi_clips@,
    {
        if track_idx < TRACK_COUNT {
            self.track_mutes[track_idx] = mute;
        }
    }

    /// Solos or unsolos one of the mixer tracks; other indices are ignored.
    pub fn set_track_solo(&mut self, track_idx: usize, solo: bool)
        ensures
            final(self).track_solos@ == (if track_idx < TRACK_COUNT {
                old(self).track_solos@.update(track_idx as int, solo)
            } else {
                old(self).track_solos@
            }),
            final(self).track_mutes == old(self).track_mutes,
            final(self).clips@ == old(self).clips@,
            final(self).transport == old(self).transport,
            final(self).mode == old(self).mode,
            final(self).absolute_frame == old(self).absolute_frame,
            final(self).dms_voice_pool == old(self).dms_voice_pool,
            final(self).dms_track_idx == old(self).dms_track_idx,
            final(self).dms_samples@ == old(self).dms_samples@,
            final(self).dms_channels@ == old(self).dms_channels@,
            final(self).midi_clips@ == old(self).midi_clips@,
    {
        if track_idx < TRACK_COUNT {
            self.track_solos[track_idx] = solo;
        }
    }

    /// Whether some mixer track is soloed.
    pub open spec fn any_solo(&self) -> bool {
        exists|t: int| 0 <= t < TRACK_COUNT && #[trigger] self.track_solos@[t]
    }

    /// Whether a track is heard: not muted, and not silenced by another
    /// track's solo.
    pub open spec fn audible(&self, t: int) -> bool {
        !self.track_mutes@[t] && !(self.any_solo() && !self.track_solos@[t])
    }

    /// Whether mixer track `t` is heard (see [`AudioEngine::audible`]).
    pub fn track_audible(&self, t: usize) -> (b: bool)
        requires
            t < TRACK_COUNT,
        ensures
            b == self.audible(t as int),
    {
        let mut any_solo = false;
        let mut i: usize = 0;
        while i < TRACK_COUNT
            invariant
                0 <= i <= TRACK_COUNT,
                any_solo == exists|u: int| 0 <= u < i && #[trigger] self.track_solos@[u],
            decreases TRACK_COUNT - i,
        {
            if self.track_solos[i] {
                any_solo = true;
            }
            i = i + 1;
        }
        !self.track_mutes[t] && !(any_solo && !self.track_solos[t])
    }

    /// Replaces the whole clip list.
    pub fn sync_clips(&mut self, new_clips: Vec<AudioClipInstance<S>>)
        requires
            forall|i: int| 0 <= i < new_clips@.len() ==> (#[trigger] new_clips@[i]).xfade_remaining
                <= new_clips@[i].xfade_len,
        ensures
            final(self).clips@ == new_clips@,
            final(self).same_but_clips(old(self)),
    {
        self.clips = new_clips;
    }

    /// The first clip in session slot `(track, scene)`.
    pub fn find_slot(&self, track_index: usize, scene_index: usize) -> (r: Option<usize>)
        ensures
            r matches Some(k) ==> first_index(self.clips@, in_slot(track_index, scene_index)) == Some(k as int)
                && k < self.clips@.len(),
            r is None ==> first_index(self.clips@, in_slot::<S>(track_index, scene_index)) is None,
    {
        let n = self.clips.len();
        let mut i: usize = 0;
        while i < n
            invariant
                n == self.clips@.len(),
                0 <= i <= n,
                forall|j: int| 0 <= j < i ==> !(in_slot::<S>(track_index, scene_index))(#[trigger] self.clips@[j]),
            decreases n - i,
        {
            if self.clips[i].track_index == track_index && self.clips[i].scene_index == scene_index {
                proof {
                    lemma_first_index_is(self.clips@, in_slot(track_index, scene_index), i as int);
                }
                return Some(i);
            }
            i = i + 1;
        }
        proof {
            lemma_first_index(self.clips@, in_slot::<S>(track_index, scene_index));
        }
        None
    }

    /// The first clip a request for `(id, track, scene)` addresses in the
    /// current mode.
    pub fn find_addressed(&self, id: usize, track_index: usize, scene_index: usize) -> (r: Option<usize>)
        ensures
            r matches Some(k) ==> first_index(self.clips@, addressed(self.mode, id, track_index, scene_index))
                == Some(k as int) && k < self.clips@.len(),
            r is None ==> first_index(self.clips@, addressed::<S>(self.mode, id, track_index, scene_index)) is None,
    {
        let is_studio = self.mode == EngineMode::OpenStudio;
        let n = self.clips.len();
        let mut i: usize = 0;
        while i < n
            invariant
                n == self.clips@.len(),
                0 <= i <= n,
                is_studio == (self.mode == EngineMode::OpenStudio),
                forall|j: int|
                    0 <= j < i ==> !(addressed::<S>(self.mode, id, track_index, scene_index))(
                        #[trigger] self.clips@[j],
                    ),
            decreases n - i,
        {
            let c = &self.clips[i];
            let hit = if is_studio {
                c.id == id
            } else {
                c.track_index == track_index && c.scene_index == scene_index
            };
            if hit {
                proof {
                    lemma_first_index_is(self.clips@, addressed(self.mode, id, track_index, scene_index), i as int);
                }
                return Some(i);
            }
            i = i + 1;
        }
        proof {
            lemma_first_index(self.clips@, addressed::<S>(self.mode, id, track_index, scene_index));
        }
        None
    }

    /// Moves, resizes and re-offsets the clip the request addresses (by id
    /// in OpenStudio, by slot in OpenLive). A `None` duration restores the
    /// clip's whole data; the offset counts frames and is stored in samples.
    pub fn update_clip_bounds(
        &mut self,
        clip_id: usize,
        track_index: usize,
        scene_index: usize,
        start_frame: u64,
        duration_frames: Option<u64>,
        offset_frames: usize,
    )
        requires
            forall|i: int|
                0 <= i < old(self).clips@.len() ==> offset_frames * (#[trigger] old(self).clips@[i]).channels
                    <= usize::MAX,
        ensures
            final(self).same_but_clips(old(self)),
            final(self).clips@ == (match first_index(
                old(self).clips@,
                addressed(old(self).mode, clip_id, track_index, scene_index),
            ) {
                None => old(self).clips@,
                Some(k) => old(self).clips@.update(
                    k,
                    with_bounds(old(self).clips@[k], start_frame, duration_frames, offset_frames),
                ),
            }),
    {
        if let Some(k) = self.find_addressed(clip_id, track_index, scene_index) {
            proof {
                lemma_first_index(self.clips@, addressed::<S>(self.mode, clip_id, track_index, scene_index));
            }
            let natural = self.clips[k].natural_frames();
            let ch = self.clips[k].channels;
            self.clips[k].start_frame = start_frame;
            self.clips[k].duration_frames = match duration_frames {
                Some(d) => d,
                None => natural,
            };
            self.clips[k].sample_offset = offset_frames * ch;
        }
    }

    /// Sets or clears the own loop of the clip in slot `(track, scene)`.
    /// Frames are cut at the end of the clip's data; a loop that is not
    /// enabled, is empty, or starts past the data is cleared.
    pub fn set_clip_loop(
        &mut self,
        track_index: usize,
        scene_index: usize,
        start_frame: u64,
        end_frame: u64,
        enabled: bool,
    )
        ensures
            final(self).same_but_clips(old(self)),
            final(self).clips@ == (match first_index(old(self).clips@, in_slot(track_index, scene_index)) {
                None => old(self).clips@,
                Some(k) => old(self).clips@.update(
                    k,
                    with_loop(old(self).clips@[k], start_frame, end_frame, enabled),
                ),
            }),
    {
        if let Some(k) = self.find_slot(track_index, scene_index) {
            proof {
                lemma_first_index(self.clips@, in_slot::<S>(track_index, scene_index));
            }
            let natural = self.clips[k].natural_frames();
            let mut end = end_frame;
            if natural > 0 && natural < end {
                end = natural;
            }
            if enabled && end > start_frame && start_frame < natural {
                self.clips[k].clip_loop_enabled = true;
                self.clips[k].clip_loop_start = start_frame;
                self.clips[k].clip_loop_end = end;
            } else {
                self.clips[k].clip_loop_enabled = false;
                self.clips[k].clip_loop_start = 0;
                self.clips[k].clip_loop_end = 0;
            }
        }
    }

    /// Adds a clip, replacing the one the request addresses (same id in
    /// OpenStudio, same slot in OpenLive) or appending it.
    pub fn add_clip(
        &mut self,
        id: usize,
        track_index: usize,
        scene_index: usize,
        samples: S,
        sample_len: usize,
        start_frame: u64,
        duration_frames: Option<u64>,
        offset_frames: usize,
        channels: usize,
        is_matrix_clip: bool,
    )
        requires
            offset_frames * max_int(channels as int, 1) <= usize::MAX,
            old(self).wf(),
        ensures
            final(self).wf(),
            final(self).same_but_clips(old(self)),
            ({
                let c = new_clip(
                    id,
                    track_index,
                    scene_index,
                    samples,
                    sample_len,
                    start_frame,
                    duration_frames,
                    offset_frames,
                    channels,
                    is_matrix_clip,
                );
                final(self).clips@ == match first_index(
                    old(self).clips@,
                    addressed(old(self).mode, id, track_index, scene_index),
                ) {
                    None => old(self).clips@.push(c),
                    Some(k) => old(self).clips@.update(k, c),
                }
            }),
    {
        let ch = if channels > 1 { channels } else { 1 };
        let natural = (sample_len / ch) as u64;
        let duration = match duration_frames {
            Some(d) => d,
            None => natural,
        };
        let instance = AudioClipInstance {
            id,
            track_index,
            scene_index,
            samples,
            sample_len,
            start_frame,
            start_absolute: 0,
            duration_frames: duration,
            sample_offset: offset_frames * ch,
            channels: ch,
            is_playing: false,
            clip_loop_enabled: false,
            clip_loop_start: 0,
            clip_loop_end: 0,
            is_matrix_clip,
            prev_frame: usize::MAX,
            xfade_remaining: 0,
            xfade_len: 0,
        };
        match self.find_addressed(id, track_index, scene_index) {
            Some(k) => {
                proof {
                    lemma_first_index(self.clips@, addressed::<S>(self.mode, id, track_index, scene_index));
                }
                self.clips.set(k, instance);
            },
            None => {
                self.clips.push(instance);
            },
        }
    }

    /// Removes every clip the request addresses (by id in OpenStudio, by
    /// slot in OpenLive), keeping the others in order.
    pub fn remove_clip(&mut self, clip_id: usize, track_index: usize, scene_index: usize)
        requires
            old(self).wf(),
        ensures
            final(self).wf(),
            final(self).same_but_clips(old(self)),
            final(self).clips@ == retained(
                old(self).clips@,
                not_addressed(old(self).mode, clip_id, track_index, scene_index),
            ),
    {
        let is_studio = self.mode == EngineMode::OpenStudio;
        let mut rest: Vec<AudioClipInstance<S>> = Vec::new();
        std::mem::swap(&mut rest, &mut self.clips);
        let ghost orig = rest@;
        let ghost keep = not_addressed::<S>(self.mode, clip_id, track_index, scene_index);
        let n = rest.len();
        let mut i: usize = 0;
        while i < n
            invariant
                n == orig.len(),
                0 <= i <= n,
                rest@ == orig.skip(i as int),
                self.clips@ == retained(orig.take(i as int), keep),
                keep == not_addressed::<S>(self.mode, clip_id, track_index, scene_index),
                is_studio == (self.mode == EngineMode::OpenStudio),
                forall|j: int| 0 <= j < orig.len() ==> (#[trigger] orig[j]).xfade_remaining <= orig[j].xfade_len,
                forall|j: int|
                    0 <= j < self.clips@.len() ==> (#[trigger] self.clips@[j]).xfade_remaining
                        <= self.clips@[j].xfade_len,
                self.dms_samples@.len() == self.dms_channels@.len(),
                self.dms_track_idx < TRACK_COUNT,
                self.dms_voice_pool.wf(),
                self.transport == old(self).transport,
                self.mode == old(self).mode,
                self.absolute_frame == old(self).absolute_frame,
                self.track_mutes == old(self).track_mutes,
                self.track_solos == old(self).track_solos,
                self.midi_clips@ == old(self).midi_clips@,
                self.dms_voice_pool == old(self).dms_voice_pool,
                self.dms_samples@ == old(self).dms_samples@,
                self.dms_channels@ == old(self).dms_channels@,
                self.dms_track_idx == old(self).dms_track_idx,
            decreases n - i,
        {
            proof {
                lemma_step(orig, i as int);
                assert(orig.skip(i as int)[0] == orig[i as int]);
                assert(orig.skip(i as int).remove(0) =~= orig.skip(i as int + 1));
            }
            let c = rest.remove(0);
            let drop = if is_studio {
                c.id == clip_id
            } else {
                c.track_index == track_index && c.scene_index == scene_index
            };
            if !drop {
                self.clips.push(c);
            }
            i = i + 1;
        }
        proof {
            assert(orig.take(n as int) =~= orig);
        }
    }

    /// Starts the transport.
    pub fn play(&mut self)
        ensures
            final(self).transport == (TransportPosition {
                playback_state: TransportPlaybackState::Playing,
                ..old(self).transport
            }),
            final(self).same_but_transport(old(self)),
    {
        self.transport.playback_state = TransportPlaybackState::Playing;
    }

    /// Pauses the transport where it stands.
    pub fn pause(&mut self)
        ensures
            final(self).transport == (TransportPosition {
                playback_state: TransportPlaybackState::Paused,
                ..old(self).transport
            }),
            final(self).same_but_transport(old(self)),
    {
        self.transport.playback_state = TransportPlaybackState::Paused;
    }

    /// Stops the transport and rewinds it to sample 0.
    pub fn stop(&mut self)
        ensures
            final(self).transport == (TransportPosition {
                playback_state: TransportPlaybackState::Stopped,
                sample_count: 0,
                ..old(self).transport
            }),
            final(self).same_but_transport(old(self)),
    {
        self.transport.playback_state = TransportPlaybackState::Stopped;
        self.transport.sample_count = 0;
    }

    /// Sets the transport loop region and whether it is enabled.
    pub fn set_global_loop(&mut self, start_samples: u64, end_samples: u64, enabled: bool)
        ensures
            final(self).transport == (TransportPosition {
                loop_start_samples: start_samples,
                loop_end_samples: end_samples,
                loop_enabled: enabled,
                ..old(self).transport
            }),
            final(self).same_but_transport(old(self)),
    {
        self.transport.set_loop_region_samples(start_samples, end_samples);
        self.transport.set_loop_enabled(enabled);
    }

    /// Moves the transport to a sample position.
    pub fn seek(&mut self, sample_count: u64)
        ensures
            final(self).transport == (TransportPosition { sample_count, ..old(self).transport }),
            final(self).same_but_transport(old(self)),
    {
        self.transport.sample_count = sample_count;
    }

    /// Whether the clip in slot `(track, scene)` (the first, if several)
    /// is playing.
    pub open spec fn slot_playing(&self, track: usize, scene: usize) -> bool {
        match first_index(self.clips@, in_slot(track, scene)) {
            Some(k) => self.clips@[k].is_playing,
            None => false,
        }
    }

    /// Launches or stops the clip in slot `(track, scene)`: if it was
    /// playing it stops, otherwise it starts now (both clocks are stamped).
    /// Every other clip on the track stops. Clips on other tracks are
    /// untouched.
    pub fn trigger_clip(&mut self, track_index: usize, scene_index: usize)
        ensures
            final(self).same_but_clips(old(self)),
            final(self).clips@.len() == old(self).clips@.len(),
            forall|i: int|
                0 <= i < old(self).clips@.len() ==> #[trigger] final(self).clips@[i] == after_trigger_clip(
                    old(self).clips@[i],
                    track_index,
                    scene_index,
                    old(self).slot_playing(track_index, scene_index),
                    old(self).transport.sample_count,
                    old(self).absolute_frame,
                ),
    {
        let now = self.transport.sample_count;
        let now_abs = self.absolute_frame;
        let target_was_playing = match self.find_slot(track_index, scene_index) {
            Some(k) => self.clips[k].is_playing,
            None => false,
        };
        let ghost orig = self.clips@;
        let n = self.clips.len();
        let mut i: usize = 0;
        while i < n
            invariant
                n == orig.len(),
                self.clips@.len() == n,
                0 <= i <= n,
                forall|j: int|
                    0 <= j < i ==> #[trigger] self.clips@[j] == after_trigger_clip(
                        orig[j],
                        track_index,
                        scene_index,
                        target_was_playing,
                        now,
                        now_abs,
                    ),
                forall|j: int| i <= j < n ==> #[trigger] self.clips@[j] == orig[j],
                self.transport == old(self).transport,
                self.mode == old(self).mode,
                self.absolute_frame == old(self).absolute_frame,
                self.track_mutes == old(self).track_mutes,
                self.track_solos == old(self).track_solos,
                self.midi_clips@ == old(self).midi_clips@,
                self.dms_voice_pool == old(self).dms_voice_pool,
                self.dms_samples@ == old(self).dms_samples@,
                self.dms_channels@ == old(self).dms_channels@,
                self.dms_track_idx == old(self).dms_track_idx,
            decreases n - i,
        {
            if self.clips[i].track_index == track_index {
                if self.clips[i].scene_index == scene_index {
                    self.clips[i].is_playing = !target_was_playing;
                    if !target_was_playing {
                        self.clips[i].start_frame = now;
                        self.clips[i].start_absolute = now_abs;
                    }
                } else {
                    self.clips[i].is_playing = false;
                }
            }
            i = i + 1;
        }
    }

    /// Whether some clip of the list sits on `track` in `scene`.
    pub open spec fn track_in_scene(&self, scene: usize, track: usize) -> bool {
        exists|i: int|
            0 <= i < self.clips@.len() && (#[trigger] self.clips@[i]).scene_index == scene
                && self.clips@[i].track_index == track
    }

    /// Launches a whole scene row: every clip of the scene starts now (one
    /// already launched at this very frame is left alone), and the other
    /// clips on the tracks the scene covers stop. Tracks without a clip in
    /// the scene keep playing.
    pub fn trigger_scene(&mut self, scene_index: usize)
        ensures
            final(self).same_but_clips(old(self)),
            final(self).clips@.len() == old(self).clips@.len(),
            forall|i: int|
                0 <= i < old(self).clips@.len() ==> #[trigger] final(self).clips@[i] == after_trigger_scene(
                    old(self).clips@[i],
                    scene_index,
                    old(self).track_in_scene(scene_index, old(self).clips@[i].track_index),
                    old(self).transport.sample_count,
                    old(self).absolute_frame,
                ),
    {
        broadcast use vstd::std_specs::hash::group_hash_axioms;

        let now = self.transport.sample_count;
        let now_abs = self.absolute_frame;
        let ghost orig = self.clips@;
        let n = self.clips.len();
        let mut tracks_with_clip: std::collections::HashSet<usize> = std::collections::HashSet::new();
        let mut i: usize = 0;
        while i < n
            invariant
                n == orig.len(),
                self.clips@ == orig,
                0 <= i <= n,
                forall|t: usize|
                    #[trigger] tracks_with_clip@.contains(t) <==> exists|j: int|
                        0 <= j < i && (#[trigger] orig[j]).scene_index == scene_index && orig[j].track_index == t,
            decreases n - i,
        {
            if self.clips[i].scene_index == scene_index {
                tracks_with_clip.insert(self.clips[i].track_index);
            }
            proof {
                assert forall|t: usize|
                    #[trigger] tracks_with_clip@.contains(t) <==> exists|j: int|
                        0 <= j < i + 1 && (#[trigger] orig[j]).scene_index == scene_index && orig[j].track_index == t by {
                    if tracks_with_clip@.contains(t) && !(exists|j: int|
                        0 <= j < i && (#[trigger] orig[j]).scene_index == scene_index && orig[j].track_index == t) {
                        assert(orig[i as int].scene_index == scene_index && orig[i as int].track_index == t);
                    }
                }
            }
            i = i + 1;
        }
        let mut i: usize = 0;
        while i < n
            invariant
                n == orig.len(),
                self.clips@.len() == n,
                0 <= i <= n,
                forall|t: usize|
                    #[trigger] tracks_with_clip@.contains(t) <==> old(self).track_in_scene(scene_index, t),
                orig == old(self).clips@,
                forall|j: int|
                    0 <= j < i ==> #[trigger] self.clips@[j] == after_trigger_scene(
                        orig[j],
                        scene_index,
                        old(self).track_in_scene(scene_index, orig[j].track_index),
                        now,
                        now_abs,
                    ),
                forall|j: int| i <= j < n ==> #[trigger] self.clips@[j] == orig[j],
                self.transport == old(self).transport,
                self.mode == old(self).mode,
                self.absolute_frame == old(self).absolute_frame,
                self.track_mutes == old(self).track_mutes,
                self.track_solos == old(self).track_solos,
                self.midi_clips@ == old(self).midi_clips@,
                self.dms_voice_pool == old(self).dms_voice_pool,
                self.dms_samples@ == old(self).dms_samples@,
                self.dms_channels@ == old(self).dms_channels@,
                self.dms_track_idx == old(self).dms_track_idx,
            decreases n - i,
        {
            if self.clips[i].scene_index == scene_index {
                if !(self.clips[i].is_playing && self.clips[i].start_absolute == now_abs) {
                    self.clips[i].is_playing = true;
                    self.clips[i].start_frame = now;
                    self.clips[i].start_absolute = now_abs;
                }
            } else if tracks_with_clip.contains(&self.clips[i].track_index) {
                self.clips[i].is_playing = false;
            }
            i = i + 1;
        }
    }

    /// Stops every clip on a track.
    pub fn stop_track(&mut self, track_index: usize)
        ensures
            final(self).same_but_clips(old(self)),
            final(self).clips@.len() == old(self).clips@.len(),
            forall|i: int|
                0 <= i < old(self).clips@.len() ==> #[trigger] final(self).clips@[i] == (if old(self).clips@[i].track_index == track_index {
                    AudioClipInstance { is_playing: false, ..old(self).clips@[i] }
                } else {
                    old(self).clips@[i]
                }),
    {
        let ghost orig = self.clips@;
        let n = self.clips.len();
        let mut i: usize = 0;
        while i < n
            invariant
                n == orig.len(),
                self.clips@.len() == n,
                0 <= i <= n,
                forall|j: int|
                    0 <= j < i ==> #[trigger] self.clips@[j] == (if orig[j].track_index == track_index {
                        AudioClipInstance { is_playing: false, ..orig[j] }
                    } else {
                        orig[j]
                    }),
                forall|j: int| i <= j < n ==> #[trigger] self.clips@[j] == orig[j],
                self.transport == old(self).transport,
                self.mode == old(self).mode,
                self.absolute_frame == old(self).absolute_frame,
                self.track_mutes == old(self).track_mutes,
                self.track_solos == old(self).track_solos,
                self.midi_clips@ == old(self).midi_clips@,
                self.dms_voice_pool == old(self).dms_voice_pool,
                self.dms_samples@ == old(self).dms_samples@,
                self.dms_channels@ == old(self).dms_channels@,
                self.dms_track_idx == old(self).dms_track_idx,
            decreases n - i,
        {
            if self.clips[i].track_index == track_index {
                self.clips[i].is_playing = false;
            }
            i = i + 1;
        }
    }

    /// Whether the voice of slot `(track, scene)` sounds at the current
    /// absolute frame: its clip exists, is playing and has not run out.
    pub open spec fn slot_voice_active(&self, track: usize, scene: usize) -> bool {
        match first_index(self.clips@, in_slot(track, scene)) {
            Some(k) => self.clips@[k].is_playing && self.clips@[k].frame_linear(self.absolute_frame as int) is Some,
            None => false,
        }
    }

    pub fn voice_active(&self, track_index: usize, scene_index: usize) -> (b: bool)
        ensures
            b == self.slot_voice_active(track_index, scene_index),
    {
        match self.find_slot(track_index, scene_index) {
            None => false,
            Some(k) => {
                if !self.clips[k].is_playing {
                    return false;
                }
                self.clips[k].voice_state_linear(self.absolute_frame) == VoiceState::Active
            },
        }
    }

    /// Frames since the slot's voice was launched, while it sounds.
    pub fn voice_elapsed_frames(&self, track_index: usize, scene_index: usize) -> (r: Option<u64>)
        ensures
            r is Some == self.slot_voice_active(track_index, scene_index),
            r matches Some(e) ==> match first_index(self.clips@, in_slot(track_index, scene_index)) {
                Some(k) => e == max_int(self.absolute_frame - self.clips@[k].start_absolute, 0),
                None => false,
            },
    {
        let k = match self.find_slot(track_index, scene_index) {
            Some(k) => k,
            None => {
                return None;
            },
        };
        if !self.clips[k].is_playing {
            return None;
        }
        if self.clips[k].voice_state_linear(self.absolute_frame) != VoiceState::Active {
            return None;
        }
        Some(self.absolute_frame.saturating_sub(self.clips[k].start_absolute))
    }

    /// The exact playhead inside the slot's clip, `(current frame, frames
    /// in the data, at least 1)`, while its voice sounds: the frame the
    /// mixer plays at the current absolute frame (see [`live_frame`]), so a
    /// looping clip plays through to its loop end once and then cycles.
    pub fn voice_playhead_frame(&self, track_index: usize, scene_index: usize) -> (r: Option<(u64, u64)>)
        ensures
            r is Some == self.slot_voice_active(track_index, scene_index),
            r matches Some(p) ==> match first_index(self.clips@, in_slot(track_index, scene_index)) {
                Some(k) => p.0 == live_frame(self.clips@[k], self.absolute_frame - self.clips@[k].start_absolute)
                    && p.1 == max_int(self.clips@[k].natural(), 1),
                None => false,
            },
    {
        let k = match self.find_slot(track_index, scene_index) {
            Some(k) => k,
            None => {
                return None;
            },
        };
        if !self.clips[k].is_playing {
            return None;
        }
        if self.clips[k].voice_state_linear(self.absolute_frame) != VoiceState::Active {
            return None;
        }
        let natural = self.clips[k].natural_frames();
        let elapsed = self.absolute_frame - self.clips[k].start_absolute;
        let frame = if self.clips[k].has_valid_clip_loop() {
            let (loop_start, loop_len) = self.clips[k].loop_region();
            let loop_end = loop_start + loop_len;
            if elapsed < loop_end {
                elapsed
            } else {
                loop_start + (elapsed - loop_end) % loop_len
            }
        } else {
            elapsed
        };
        let total = if natural > 1 { natural } else { 1 };
        Some((frame, total))
    }

    /// Everything but the DMS sample tables and voices is as in `other`.
    pub open spec fn same_but_dms(&self, other: &Self) -> bool {
        &&& self.clips@ == other.clips@
        &&& self.transport == other.transport
        &&& self.mode == other.mode
        &&& self.absolute_frame == other.absolute_frame
        &&& self.track_mutes == other.track_mutes
        &&& self.track_solos == other.track_solos
        &&& self.midi_clips@ == other.midi_clips@
        &&& self.dms_track_idx == other.dms_track_idx
    }

    /// Stores the sample of drum pad `pad_idx`, growing the pad tables with
    /// empty mono pads as needed.
    pub fn load_dms_sample(&mut self, pad_idx: usize, samples: S, channels: usize)
        requires
            old(self).wf(),
            pad_idx < usize::MAX,
        ensures
            final(self).wf(),
            final(self).same_but_dms(old(self)),
            final(self).dms_voice_pool == old(self).dms_voice_pool,
            final(self).dms_samples@.len() == max_int(old(self).dms_samples@.len() as int, pad_idx + 1),
            final(self).dms_samples@[pad_idx as int] == Some(samples),
            final(self).dms_channels@[pad_idx as int] == channels,
            forall|i: int|
                0 <= i < final(self).dms_samples@.len() && i != pad_idx ==> {
                    &&& #[trigger] final(self).dms_samples@[i] == (if i < old(self).dms_samples@.len() {
                        old(self).dms_samples@[i]
                    } else {
                        None
                    })
                    &&& final(self).dms_channels@[i] == (if i < old(self).dms_channels@.len() {
                        old(self).dms_channels@[i]
                    } else {
                        1
                    })
                },
    {
        let ghost s0 = self.dms_samples@;
        let ghost c0 = self.dms_channels@;
        while self.dms_samples.len() <= pad_idx
            invariant
                self.dms_samples@.len() == self.dms_channels@.len(),
                s0.len() <= self.dms_samples@.len() <= max_int(s0.len() as int, pad_idx + 1),
                pad_idx < usize::MAX,
                forall|i: int|
                    0 <= i < self.dms_samples@.len() ==> #[trigger] self.dms_samples@[i] == (if i < s0.len() {
                        s0[i]
                    } else {
                        None
                    }),
                forall|i: int|
                    0 <= i < self.dms_channels@.len() ==> #[trigger] self.dms_channels@[i] == (if i < c0.len() {
                        c0[i]
                    } else {
                        1
                    }),
                s0.len() == c0.len(),
                self.clips@ == old(self).clips@,
                self.transport == old(self).transport,
                self.mode == old(self).mode,
                self.absolute_frame == old(self).absolute_frame,
                self.track_mutes == old(self).track_mutes,
                self.track_solos == old(self).track_solos,
                self.midi_clips@ == old(self).midi_clips@,
                self.dms_track_idx == old(self).dms_track_idx,
                self.dms_voice_pool == old(self).dms_voice_pool,
            decreases pad_idx + 1 - self.dms_samples@.len(),
        {
            self.dms_samples.push(None);
            self.dms_channels.push(1);
        }
        self.dms_channels.set(pad_idx, channels);
        self.dms_samples.set(pad_idx, Some(samples));
    }

    /// Starts a voice for drum pad `pad_idx` if the pad has a sample, and
    /// returns the voice position for the host to load the sound into.
    pub fn trigger_dms_note(&mut self, pad_idx: usize) -> (r: Option<usize>)
        requires
            old(self).wf(),
        ensures
            final(self).wf(),
            final(self).same_but_dms(old(self)),
            final(self).dms_samples@ == old(self).dms_samples@,
            final(self).dms_channels@ == old(self).dms_channels@,
            r is Some <==> pad_idx < old(self).dms_samples@.len() && old(self).dms_samples@[pad_idx as int] is Some,
            r is None ==> final(self).dms_voice_pool == old(self).dms_voice_pool,
            r is Some ==> final(self).dms_voice_pool.voices@ == old(self).dms_voice_pool.voices@.update(
                chosen_voice(old(self).dms_voice_pool.voices@),
                DmsVoice {
                    active: true,
                    pad_idx,
                    env_stage: DmsEnvStage::Attack,
                    age: final(self).dms_voice_pool.global_age,
                },
            ) && r == Some(chosen_voice(old(self).dms_voice_pool.voices@) as usize),
    {
        if pad_idx >= self.dms_samples.len() {
            return None;
        }
        let loaded = match &self.dms_samples[pad_idx] {
            Some(_) => true,
            None => false,
        };
        if loaded {
            self.dms_voice_pool.trigger(pad_idx)
        } else {
            None
        }
    }

    /// Sends the voices of drum pad `pad_idx` into their release.
    pub fn release_dms_note(&mut self, pad_idx: usize)
        requires
            old(self).wf(),
        ensures
            final(self).wf(),
            final(self).same_but_dms(old(self)),
            final(self).dms_samples@ == old(self).dms_samples@,
            final(self).dms_channels@ == old(self).dms_channels@,
            final(self).dms_voice_pool.voices@.len() == old(self).dms_voice_pool.voices@.len(),
            forall|i: int|
                0 <= i < old(self).dms_voice_pool.voices@.len() ==> #[trigger] final(self).dms_voice_pool.voices@[i]
                    == released(old(self).dms_voice_pool.voices@[i], pad_idx),
    {
        self.dms_voice_pool.release_pad(pad_idx);
    }

    /// Silences the voices of drum pad `pad_idx` at once.
    pub fn kill_dms_note(&mut self, pad_idx: usize)
        requires
            old(self).wf(),
        ensures
            final(self).wf(),
            final(self).same_but_dms(old(self)),
            final(self).dms_samples@ == old(self).dms_samples@,
            final(self).dms_channels@ == old(self).dms_channels@,
            final(self).dms_voice_pool.voices@.len() == old(self).dms_voice_pool.voices@.len(),
            forall|i: int|
                0 <= i < old(self).dms_voice_pool.voices@.len() ==> #[trigger] final(self).dms_voice_pool.voices@[i]
                    == killed(old(self).dms_voice_pool.voices@[i], pad_idx),
    {
        self.dms_voice_pool.kill_pad(pad_idx);
    }

    /// Routes the drum sampler to a mixer track (the last one for larger indices).
    pub fn set_dms_track(&mut self, track_idx: usize)
        ensures
            *final(self) == (AudioEngine {
                dms_track_idx: (if track_idx < TRACK_COUNT - 1 {
                    track_idx
                } else {
                    (TRACK_COUNT - 1) as usize
                }),
                ..*old(self)
            }),
    {
        self.dms_track_idx = if track_idx < TRACK_COUNT - 1 { track_idx } else { TRACK_COUNT - 1 };
    }

    /// Replaces the notes of the MIDI clip in slot `(track, scene)`, or adds
    /// a stopped MIDI clip there.
    pub fn update_midi_clip(&mut self, track_index: usize, scene_index: usize, notes: Vec<MidiNoteInstance>)
        ensures
            final(self).clips@ == old(self).clips@,
            final(self).transport == old(self).transport,
            final(self).mode == old(self).mode,
            final(self).absolute_frame == old(self).absolute_frame,
            final(self).dms_voice_pool == old(self).dms_voice_pool,
            final(self).dms_samples@ == old(self).dms_samples@,
            final(self).dms_channels@ == old(self).dms_channels@,
            final(self).dms_track_idx == old(self).dms_track_idx,
            final(self).track_mutes == old(self).track_mutes,
            final(self).track_solos == old(self).track_solos,
            ({
                let p = midi_in_slot(track_index, scene_index);
                match first_index(old(self).midi_clips@, p) {
                    Some(k) => final(self).midi_clips@.len() == old(self).midi_clips@.len() && forall|i: int|
                        0 <= i < old(self).midi_clips@.len() ==> if i == k {
                            (#[trigger] final(self).midi_clips@[i]).notes@ == notes@ && final(self).midi_clips@[i].track_index
                                == old(self).midi_clips@[i].track_index && final(self).midi_clips@[i].scene_index
                                == old(self).midi_clips@[i].scene_index && final(self).midi_clips@[i].is_playing
                                == old(self).midi_clips@[i].is_playing
                        } else {
                            final(self).midi_clips@[i] == old(self).midi_clips@[i]
                        },
                    None => final(self).midi_clips@.len() == old(self).midi_clips@.len() + 1 && final(self).midi_clips@.drop_last() == old(self).midi_clips@ && final(self).midi_clips@.last().notes@
                        == notes@ && final(self).midi_clips@.last().track_index == track_index && final(self).midi_clips@.last().scene_index == scene_index && !final(self).midi_clips@.last().is_playing,
                }
            }),
    {
        let n = self.midi_clips.len();
        let mut i: usize = 0;
        while i < n
            invariant
                n == self.midi_clips@.len(),
                0 <= i <= n,
                forall|j: int| 0 <= j < i ==> !(midi_in_slot(track_index, scene_index))(#[trigger] self.midi_clips@[j]),
                self.midi_clips@ == old(self).midi_clips@,
                self.clips@ == old(self).clips@,
                self.transport == old(self).transport,
                self.mode == old(self).mode,
                self.absolute_frame == old(self).absolute_frame,
                self.dms_voice_pool == old(self).dms_voice_pool,
                self.dms_samples@ == old(self).dms_samples@,
                self.dms_channels@ == old(self).dms_channels@,
                self.dms_track_idx == old(self).dms_track_idx,
                self.track_mutes == old(self).track_mutes,
                self.track_solos == old(self).track_solos,
            decreases n - i,
        {
            if self.midi_clips[i].track_index == track_index && self.midi_clips[i].scene_index == scene_index {
                proof {
                    lemma_first_index_is(self.midi_clips@, midi_in_slot(track_index, scene_index), i as int);
                }
                self.midi_clips[i].notes = notes;
                return;
            }
            i = i + 1;
        }
        proof {
            lemma_first_index(self.midi_clips@, midi_in_slot(track_index, scene_index));
        }
        self.midi_clips.push(MidiClipInstance { track_index, scene_index, notes, is_playing: false });
        proof {
            assert(self.midi_clips@.drop_last() =~= old(self).midi_clips@);
        }
    }

    /// The mixer track a clip feeds (clips on higher tracks share the last one).
    pub open spec fn mix_track(c_track: usize) -> int {
        min_int(c_track as int, TRACK_COUNT as int - 1)
    }

    /// Whether a clip is skipped for a block: its mixer track is not heard
    /// (muted or silenced by a solo) or the host reports its level at zero.
    pub open spec fn clip_silenced(&self, c_track: usize, zero_volume: [bool; TRACK_COUNT]) -> bool {
        let t = Self::mix_track(c_track);
        !self.audible(t) || zero_volume@[t]
    }

    /// Whether a block of `buffer_frames` frames advances anything: the
    /// transport is playing and the block is not empty.
    pub open spec fn renders(&self, buffer_frames: int) -> bool {
        self.transport.playback_state == TransportPlaybackState::Playing && buffer_frames > 0
    }

    /// The reads a clip contributes to a block.
    pub open spec fn block_reads(
        &self,
        c: AudioClipInstance<S>,
        buffer_frames: nat,
        zero_volume: [bool; TRACK_COUNT],
    ) -> Seq<FrameRead> {
        if self.clip_silenced(c.track_index, zero_volume) {
            Seq::empty()
        } else if self.mode == EngineMode::OpenStudio {
            Seq::new(
                buffer_frames,
                |f: int| studio_read(c, wrapped(self.transport, self.transport.sample_count + f)),
            )
        } else {
            live_reads(c, self.absolute_frame as int, buffer_frames)
        }
    }

    /// A clip after a block.
    pub open spec fn block_clip(
        &self,
        c: AudioClipInstance<S>,
        buffer_frames: nat,
        zero_volume: [bool; TRACK_COUNT],
    ) -> AudioClipInstance<S> {
        if self.clip_silenced(c.track_index, zero_volume) || self.mode == EngineMode::OpenStudio {
            c
        } else {
            live_after(c, self.absolute_frame as int, buffer_frames)
        }
    }

    /// Plans one processing block of `buffer_frames` frames. While playing,
    /// it returns, for every clip in order, the frames the mixer takes from
    /// it (see [`AudioEngine::block_reads`]), updates the OpenLive voices
    /// (see [`AudioEngine::block_clip`]), and advances the clocks: the
    /// transport by the block, wrapping through its loop, and the absolute
    /// frame counter. Otherwise nothing changes and the plan is empty.
    /// `zero_volume` tells which mixer tracks the host has at zero level.
    pub fn render_block(&mut self, buffer_frames: usize, zero_volume: &[bool; TRACK_COUNT]) -> (plan: Vec<ClipBlock>)
        requires
            old(self).wf(),
            old(self).renders(buffer_frames as int) ==> old(self).transport.sample_count + buffer_frames
                <= u64::MAX,
            old(self).renders(buffer_frames as int) ==> old(self).absolute_frame + buffer_frames <= u64::MAX,
        ensures
            final(self).wf(),
            !old(self).renders(buffer_frames as int) ==> plan@.len() == 0 && *final(self) == *old(self),
            old(self).renders(buffer_frames as int) ==> {
                &&& plan@.len() == old(self).clips@.len()
                &&& final(self).clips@.len() == old(self).clips@.len()
                &&& forall|i: int|
                    0 <= i < old(self).clips@.len() ==> (#[trigger] plan@[i]).reads@ == old(self).block_reads(
                        old(self).clips@[i],
                        buffer_frames as nat,
                        *zero_volume,
                    ) && final(self).clips@[i] == old(self).block_clip(
                        old(self).clips@[i],
                        buffer_frames as nat,
                        *zero_volume,
                    )
                &&& final(self).transport == (TransportPosition {
                    sample_count: wrapped(old(self).transport, old(self).transport.sample_count + buffer_frames)
                        as u64,
                    ..old(self).transport
                })
                &&& final(self).absolute_frame == old(self).absolute_frame + buffer_frames
                &&& final(self).mode == old(self).mode
                &&& final(self).track_mutes == old(self).track_mutes
                &&& final(self).track_solos == old(self).track_solos
                &&& final(self).midi_clips@ == old(self).midi_clips@
                &&& final(self).dms_voice_pool == old(self).dms_voice_pool
                &&& final(self).dms_samples@ == old(self).dms_samples@
                &&& final(self).dms_channels@ == old(self).dms_channels@
                &&& final(self).dms_track_idx == old(self).dms_track_idx
            },
    {
        if self.transport.playback_state != TransportPlaybackState::Playing || buffer_frames == 0 {
            return Vec::new();
        }
        let frame_start = self.transport.sample_count;
        let abs_start = self.absolute_frame;
        let transport = self.transport;
        let is_studio = self.mode == EngineMode::OpenStudio;
        // Which mixer tracks feed the mix.
        let mut open_track: [bool; TRACK_COUNT] = [false; TRACK_COUNT];
        let mut t: usize = 0;
        while t < TRACK_COUNT
            invariant
                0 <= t <= TRACK_COUNT,
                forall|u: int| 0 <= u < t ==> open_track@[u] == (self.audible(u) && !zero_volume@[u]),
            decreases TRACK_COUNT - t,
        {
            let heard = self.track_audible(t);
            open_track[t] = heard && !zero_volume[t];
            t = t + 1;
        }
        let ghost e0 = *self;
        let n = self.clips.len();
        let mut plan: Vec<ClipBlock> = Vec::new();
        let mut i: usize = 0;
        while i < n
            invariant
                n == e0.clips@.len(),
                self.clips@.len() == n,
                0 <= i <= n,
                e0 == *old(self),
                e0.renders(buffer_frames as int),
                frame_start == e0.transport.sample_count,
                abs_start == e0.absolute_frame,
                transport == e0.transport,
                is_studio == (e0.mode == EngineMode::OpenStudio),
                frame_start + buffer_frames <= u64::MAX,
                abs_start + buffer_frames <= u64::MAX,
                forall|u: int| 0 <= u < TRACK_COUNT ==> open_track@[u] == (e0.audible(u) && !zero_volume@[u]),
                plan@.len() == i,
                forall|j: int|
                    0 <= j < i ==> (#[trigger] plan@[j]).reads@ == e0.block_reads(
                        e0.clips@[j],
                        buffer_frames as nat,
                        *zero_volume,
                    ),
                forall|j: int|
                    0 <= j < i ==> #[trigger] self.clips@[j] == e0.block_clip(
                        e0.clips@[j],
                        buffer_frames as nat,
                        *zero_volume,
                    ),
                forall|j: int| i <= j < n ==> #[trigger] self.clips@[j] == e0.clips@[j],
                forall|j: int| 0 <= j < n ==> (#[trigger] self.clips@[j]).xfade_remaining <= self.clips@[j].xfade_len,
                self.transport == e0.transport,
                self.mode == e0.mode,
                self.absolute_frame == e0.absolute_frame,
                self.track_mutes == e0.track_mutes,
                self.track_solos == e0.track_solos,
                self.midi_clips@ == e0.midi_clips@,
                self.dms_voice_pool == e0.dms_voice_pool,
                self.dms_samples@ == e0.dms_samples@,
                self.dms_channels@ == e0.dms_channels@,
                self.dms_track_idx == e0.dms_track_idx,
            decreases n - i,
        {
            let ti = if self.clips[i].track_index < TRACK_COUNT - 1 {
                self.clips[i].track_index
            } else {
                TRACK_COUNT - 1
            };
            let reads = if !open_track[ti] {
                Vec::new()
            } else if is_studio {
                self.clips[i].studio_block(frame_start, &transport, buffer_frames)
            } else {
                self.clips[i].live_block(abs_start, buffer_frames)
            };
            proof {
                assert(self.clips@[i as int] == e0.block_clip(e0.clips@[i as int], buffer_frames as nat, *zero_volume));
            }
            plan.push(ClipBlock { reads });
            i = i + 1;
        }
        self.transport.sample_count = self.transport.wrap_sample_count(frame_start + buffer_frames as u64);
        self.absolute_frame = self.absolute_frame + buffer_frames as u64;
        plan
    }
}


// ---------------------------------------------------------------------------
// Laws
// ---------------------------------------------------------------------------

/// A clip voice only ever points inside the clip's data.
pub proof fn law_voice_frames_inside_data<S>(c: AudioClipInstance<S>, pos: int, abs: int, t: TransportPosition)
    ensures
        c.frame_at(pos, t) matches Some(f) ==> 0 <= f < c.natural(),
        c.frame_linear(abs) matches Some(f) ==> 0 <= f < c.natural(),
{
    if c.valid_clip_loop() {
        let len = c.loop_end_frame() - c.clip_loop_start;
        if pos >= c.start_frame {
            vstd::arithmetic::div_mod::lemma_mod_pos_bound(max_int(pos - t.loop_start_samples, 0), len);
            if pos - c.start_frame >= c.clip_loop_start {
                vstd::arithmetic::div_mod::lemma_mod_pos_bound(pos - c.start_frame - c.clip_loop_start, len);
            }
        }
        if abs >= c.start_absolute {
            vstd::arithmetic::div_mod::lemma_mod_pos_bound(abs - c.start_absolute, len);
        }
    }
}

/// A clip without a valid loop sounds exactly from its start for its
/// emission length, on the timeline and as a launched voice.
pub proof fn law_unlooped_voice_span<S>(c: AudioClipInstance<S>, pos: int, abs: int, t: TransportPosition)
    requires
        !c.valid_clip_loop(),
    ensures
        c.frame_at(pos, t) is Some <==> c.start_frame <= pos < c.start_frame + c.emission_len(),
        c.frame_at(pos, t) matches Some(f) ==> f == pos - c.start_frame,
        c.frame_linear(abs) is Some <==> c.start_absolute <= abs < c.start_absolute + c.emission_len(),
{
}

/// A clip with a valid loop never stops sounding once it has started.
pub proof fn law_looped_voice_never_ends<S>(c: AudioClipInstance<S>, pos: int, abs: int, t: TransportPosition)
    requires
        c.valid_clip_loop(),
    ensures
        pos >= c.start_frame ==> c.frame_at(pos, t) is Some,
        abs >= c.start_absolute ==> c.frame_linear(abs) is Some,
{
}

/// A looping launched voice repeats its loop region with the loop's period.
pub proof fn law_looped_voice_is_periodic<S>(c: AudioClipInstance<S>, abs: int)
    requires
        c.valid_clip_loop(),
        abs >= c.start_absolute,
    ensures
        c.frame_linear(abs + c.playback_len()) == c.frame_linear(abs),
{
    let len = c.playback_len();
    let e = abs - c.start_absolute;
    vstd::arithmetic::div_mod::lemma_mod_add_multiples_vanish(e, len);
}

/// Every read the mixer is told to make lies wholly inside the clip's data.
pub proof fn law_reads_inside_data<S>(c: AudioClipInstance<S>, g: int, e: int, st: (usize, u32, u32))
    requires
        e >= 0,
    ensures
        studio_read(c, g) matches FrameRead::Plain { src } ==> src + max_int(c.channels as int, 1)
            <= c.sample_len,
        live_step(c, e, st).0 matches FrameRead::Plain { src } ==> src + max_int(c.channels as int, 1)
            <= c.sample_len,
        live_step(c, e, st).0 matches FrameRead::Crossfade { src, old_src, .. } ==> src + max_int(
            c.channels as int,
            1,
        ) <= c.sample_len && (old_src matches Some(o) ==> o + max_int(c.channels as int, 1) <= c.sample_len),
{
    let ch = max_int(c.channels as int, 1);
    if c.valid_clip_loop() && e >= c.loop_end_frame() {
        vstd::arithmetic::div_mod::lemma_mod_pos_bound(e - c.loop_end_frame(), c.loop_end_frame() - c.clip_loop_start);
    }
    let rel = live_frame(c, e);
    assert(rel >= 0);
    assert(rel * ch >= 0) by (nonlinear_arith)
        requires
            rel >= 0,
            ch >= 1,
    ;
    assert(st.0 * ch >= 0) by (nonlinear_arith)
        requires
            st.0 >= 0,
            ch >= 1,
    ;
}

/// A crossfade never runs longer than its length: its position stays
/// below its length.
pub proof fn law_crossfade_position_in_range<S>(c: AudioClipInstance<S>, e: int, st: (usize, u32, u32))
    requires
        st.1 <= st.2,
    ensures
        live_step(c, e, st).0 matches FrameRead::Crossfade { fade_pos, fade_len, .. } ==> fade_pos < fade_len,
{
}

/// Triggering a slot stops every other clip on its track, and the slot's
/// clips end up playing exactly when the slot was not playing before.
pub proof fn law_trigger_clip_is_exclusive<S>(
    c: AudioClipInstance<S>,
    track: usize,
    scene: usize,
    was_playing: bool,
    now: u64,
    now_abs: u64,
)
    requires
        c.track_index == track,
    ensures
        after_trigger_clip(c, track, scene, was_playing, now, now_abs).is_playing == (c.scene_index == scene
            && !was_playing),
{
}

proof fn lemma_first_index_preserved<S>(
    a: Seq<AudioClipInstance<S>>,
    b: Seq<AudioClipInstance<S>>,
    p: spec_fn(AudioClipInstance<S>) -> bool,
)
    requires
        a.len() == b.len(),
        forall|i: int| 0 <= i < a.len() ==> p(#[trigger] a[i]) == p(b[i]),
    ensures
        first_index(a, p) == first_index(b, p),
    decreases a.len(),
{
    if a.len() > 0 {
        let (da, db) = (a.drop_last(), b.drop_last());
        assert forall|i: int| 0 <= i < da.len() implies p(#[trigger] da[i]) == p(db[i]) by {
            assert(da[i] == a[i] && db[i] == b[i]);
        }
        lemma_first_index_preserved(da, db, p);
        assert(a.last() == a[a.len() - 1] && b.last() == b[b.len() - 1]);
    }
}

/// Triggering an occupied slot toggles it: a playing slot stops, a stopped
/// one starts; so triggering twice restores whether it plays.
pub proof fn law_trigger_clip_toggles<S>(before: AudioEngine<S>, after: AudioEngine<S>, track: usize, scene: usize)
    requires
        first_index(before.clips@, in_slot(track, scene)) is Some,
        after.clips@.len() == before.clips@.len(),
        forall|i: int|
            0 <= i < before.clips@.len() ==> #[trigger] after.clips@[i] == after_trigger_clip(
                before.clips@[i],
                track,
                scene,
                before.slot_playing(track, scene),
                before.transport.sample_count,
                before.absolute_frame,
            ),
    ensures
        after.slot_playing(track, scene) == !before.slot_playing(track, scene),
{
    let p = in_slot::<S>(track, scene);
    assert forall|i: int| 0 <= i < before.clips@.len() implies p(#[trigger] before.clips@[i]) == p(after.clips@[i]) by {
        assert(after.clips@[i] == after_trigger_clip(
            before.clips@[i],
            track,
            scene,
            before.slot_playing(track, scene),
            before.transport.sample_count,
            before.absolute_frame,
        ));
    }
    lemma_first_index_preserved(before.clips@, after.clips@, p);
    lemma_first_index(before.clips@, p);
}

/// After a scene launch every clip of the scene plays, and no other clip on
/// a track the scene covers does.
pub proof fn law_scene_launch_plays_row<S>(c: AudioClipInstance<S>, scene: usize, covered: bool, now: u64, now_abs: u64)
    ensures
        c.scene_index == scene ==> after_trigger_scene(c, scene, covered, now, now_abs).is_playing,
        c.scene_index != scene && covered ==> !after_trigger_scene(c, scene, covered, now, now_abs).is_playing,
        c.scene_index != scene && !covered ==> after_trigger_scene(c, scene, covered, now, now_abs) == c,
{
}

/// A scene launch starts every clip of the scene from its first frame: a
/// clip not already launched at this absolute frame is stamped with the
/// transport position and the absolute frame of the launch, so its voice
/// sounds clip frame 0 at the launch frame.
pub proof fn law_scene_launch_starts_from_first_frame<S>(
    c: AudioClipInstance<S>,
    scene: usize,
    covered: bool,
    now: u64,
    now_abs: u64,
)
    requires
        c.scene_index == scene,
    ensures
        after_trigger_scene(c, scene, covered, now, now_abs).is_playing,
        after_trigger_scene(c, scene, covered, now, now_abs).start_absolute == now_abs,
        !(c.is_playing && c.start_absolute == now_abs) ==> after_trigger_scene(
            c,
            scene,
            covered,
            now,
            now_abs,
        ).start_frame == now,
        live_frame(
            after_trigger_scene(c, scene, covered, now, now_abs),
            now_abs - after_trigger_scene(c, scene, covered, now, now_abs).start_absolute,
        ) == 0,
        c.natural() > 0 && !c.valid_clip_loop() ==> after_trigger_scene(
            c,
            scene,
            covered,
            now,
            now_abs,
        ).frame_linear(now_abs as int) == Some(0int),
{
}

/// A loop request leaves either a valid loop or none at all; clearing it
/// makes the clip play its whole data again.
pub proof fn law_clip_loop_is_valid_or_cleared<S>(c: AudioClipInstance<S>, start: u64, end: u64, enabled: bool)
    ensures
        with_loop(c, start, end, enabled).clip_loop_enabled ==> with_loop(c, start, end, enabled).valid_clip_loop(),
        !enabled ==> with_loop(c, start, end, enabled).playback_len() == c.natural(),
        with_loop(c, start, end, enabled).valid_clip_loop() ==> with_loop(c, start, end, enabled).playback_len()
            == with_loop(c, start, end, enabled).clip_loop_end - start,
{
}

proof fn lemma_retained<T>(s: Seq<T>, p: spec_fn(T) -> bool)
    ensures
        forall|i: int| 0 <= i < retained(s, p).len() ==> p(#[trigger] retained(s, p)[i]),
        retained(s, p).len() <= s.len(),
    decreases s.len(),
{
    if s.len() > 0 {
        lemma_retained(s.drop_last(), p);
        let r = retained(s.drop_last(), p);
        assert forall|i: int| 0 <= i < retained(s, p).len() implies p(#[trigger] retained(s, p)[i]) by {
            if i < r.len() {
                assert(retained(s, p)[i] == r[i]);
            }
        }
    }
}

/// After removing a clip, no remaining clip is one the request addressed.
pub proof fn law_removed_clip_is_gone<S>(clips: Seq<AudioClipInstance<S>>, mode: EngineMode, id: usize, track: usize, scene: usize)
    ensures
        forall|i: int|
            0 <= i < retained(clips, not_addressed(mode, id, track, scene)).len() ==> !(addressed(
                mode,
                id,
                track,
                scene,
            ))(#[trigger] retained(clips, not_addressed(mode, id, track, scene))[i]),
{
    lemma_retained(clips, not_addressed::<S>(mode, id, track, scene));
}

/// Removing a clip keeps, in order, exactly the clips the request does not
/// address: on the OpenStudio timeline every clip with another id, in
/// OpenLive every clip in another slot (another track or another scene).
pub proof fn law_remove_keeps_unaddressed<S>(
    clips: Seq<AudioClipInstance<S>>,
    mode: EngineMode,
    id: usize,
    track: usize,
    scene: usize,
)
    ensures
        retained(clips, not_addressed(mode, id, track, scene)) == clips.filter(
            |c: AudioClipInstance<S>|
                if mode == EngineMode::OpenStudio {
                    c.id != id
                } else {
                    c.track_index != track || c.scene_index != scene
                },
        ),
    decreases clips.len(),
{
    let keep = |c: AudioClipInstance<S>|
        if mode == EngineMode::OpenStudio {
            c.id != id
        } else {
            c.track_index != track || c.scene_index != scene
        };
    let na = not_addressed::<S>(mode, id, track, scene);
    reveal(Seq::filter);
    if clips.len() == 0 {
        assert(retained(clips, na) =~= clips.filter(keep));
    } else {
        let d = clips.drop_last();
        law_remove_keeps_unaddressed(d, mode, id, track, scene);
        assert(retained(d, na) == d.filter(keep));
        assert(keep(clips.last()) == na(clips.last()));
        assert(retained(clips, na) == clips.filter(keep));
    }
}

/// In OpenLive, removing the clip of one slot keeps every clip of every
/// other slot, on the same track too.
pub proof fn law_live_remove_keeps_other_slots<S>(
    clips: Seq<AudioClipInstance<S>>,
    track: usize,
    scene: usize,
    i: int,
)
    requires
        0 <= i < clips.len(),
        clips[i].track_index != track || clips[i].scene_index != scene,
    ensures
        retained(clips, not_addressed(EngineMode::OpenLive, 0, track, scene)).contains(clips[i]),
    decreases clips.len(),
{
    let keep = not_addressed::<S>(EngineMode::OpenLive, 0, track, scene);
    let d = clips.drop_last();
    if i == clips.len() - 1 {
        assert(keep(clips.last()));
        let r = retained(clips, keep);
        assert(r[r.len() - 1] == clips[i]);
    } else {
        law_live_remove_keeps_other_slots(d, track, scene, i);
        assert(d[i] == clips[i]);
        let r0 = retained(d, keep);
        let k = choose|k: int| 0 <= k < r0.len() && r0[k] == d[i];
        let r = retained(clips, keep);
        assert(r[k] == clips[i]);
    }
}

/// The clip a request adds is the one later requests with the same key find.
pub proof fn law_added_clip_is_found<S>(before: Seq<AudioClipInstance<S>>, c: AudioClipInstance<S>, mode: EngineMode)
    ensures
        ({
            let p = addressed::<S>(mode, c.id, c.track_index, c.scene_index);
            let after = match first_index(before, p) {
                None => before.push(c),
                Some(k) => before.update(k, c),
            };
            first_index(after, p) matches Some(k) && after[k] == c
        }),
{
    let p = addressed::<S>(mode, c.id, c.track_index, c.scene_index);
    lemma_first_index(before, p);
    match first_index(before, p) {
        None => {
            let after = before.push(c);
            assert forall|j: int| 0 <= j < before.len() implies !p(#[trigger] after[j]) by {
                assert(after[j] == before[j]);
            }
            lemma_first_index_is(after, p, before.len() as int);
        },
        Some(k) => {
            let after = before.update(k, c);
            assert forall|j: int| 0 <= j < k implies !p(#[trigger] after[j]) by {
                assert(after[j] == before[j]);
            }
            lemma_first_index_is(after, p, k);
        },
    }
}

} // verus!
