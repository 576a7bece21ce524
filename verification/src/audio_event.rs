//! An audio event of a clip: a region of a decoded sample buffer placed on
//! the clip's timeline. Trimming is non-destructive: the buffer is never
//! changed, only the window of frames the event shows.

use vstd::prelude::*;

verus! {

/// The frame window of an audio event over its interleaved sample buffer
/// of `sample_len` samples in `channels` channels.
pub struct AudioEvent {
    pub id: u64,
    pub name: String,
    /// Length of the whole (interleaved) sample buffer.
    pub sample_len: usize,
    pub channels: usize,
    pub sample_rate: u32,
    /// Frames hidden at the start of the buffer.
    pub trim_left_frames: usize,
    /// Frames shown from `trim_left_frames` on.
    pub visible_frames: usize,
}

/// The channel count used for frame arithmetic (at least 1).
pub open spec fn frame_width(channels: usize) -> int {
    if channels > 0 {
        channels as int
    } else {
        1
    }
}

/// The abstract view of an audio event: its fields, the name as text.
pub struct EventModel {
    pub id: u64,
    pub name: Seq<char>,
    pub sample_len: usize,
    pub channels: usize,
    pub sample_rate: u32,
    pub trim_left_frames: usize,
    pub visible_frames: usize,
}

/// The views of a list of events.
pub open spec fn event_models(v: Seq<AudioEvent>) -> Seq<EventModel> {
    v.map_values(|e: AudioEvent| e.model())
}

/// A copy of `e`.
pub fn clone_event(e: &AudioEvent) -> (r: AudioEvent)
    ensures
        r.model() == e.model(),
{
    AudioEvent {
        id: e.id,
        name: e.name.clone(),
        sample_len: e.sample_len,
        channels: e.channels,
        sample_rate: e.sample_rate,
        trim_left_frames: e.trim_left_frames,
        visible_frames: e.visible_frames,
    }
}

/// A copy of every event of `events`, in order.
pub fn clone_events(events: &[AudioEvent]) -> (r: Vec<AudioEvent>)
    ensures
        event_models(r@) == event_models(events@),
{
    let mut r: Vec<AudioEvent> = Vec::new();
    let mut i: usize = 0;
    while i < events.len()
        invariant
            0 <= i <= events@.len(),
            r@.len() == i,
            forall|j: int| 0 <= j < i ==> (#[trigger] r@[j]).model() == events@[j].model(),
        decreases events@.len() - i,
    {
        r.push(clone_event(&events[i]));
        i = i + 1;
    }
    assert(event_models(r@) =~= event_models(events@));
    r
}

impl AudioEvent {
    pub open spec fn model(&self) -> EventModel {
        EventModel {
            id: self.id,
            name: self.name@,
            sample_len: self.sample_len,
            channels: self.channels,
            sample_rate: self.sample_rate,
            trim_left_frames: self.trim_left_frames,
            visible_frames: self.visible_frames,
        }
    }

    /// Frames of the whole buffer.
    pub open spec fn total(&self) -> int {
        self.sample_len as int / frame_width(self.channels)
    }

    /// Frames shown: the visible count, cut at the end of the buffer.
    pub open spec fn shown(&self) -> int {
        let avail = if self.total() > self.trim_left_frames {
            self.total() - self.trim_left_frames
        } else {
            0
        };
        if avail < self.visible_frames {
            avail
        } else {
            self.visible_frames as int
        }
    }

    /// First sample of the shown window.
    pub open spec fn window_start(&self) -> int {
        let a = self.trim_left_frames * frame_width(self.channels);
        if a < self.sample_len {
            a
        } else {
            self.sample_len as int
        }
    }

    /// One past the last sample of the shown window.
    pub open spec fn window_end(&self) -> int {
        let b = self.window_start() + self.shown() * frame_width(self.channels);
        if b < self.sample_len {
            b
        } else {
            self.sample_len as int
        }
    }

    /// An event showing the whole buffer.
    pub fn new_full(id: u64, name: String, sample_len: usize, channels: usize, sample_rate: u32) -> (e: Self)
        ensures
            e.id == id,
            e.name@ == name@,
            e.sample_len == sample_len,
            e.channels == channels,
            e.sample_rate == sample_rate,
            e.trim_left_frames == 0,
            e.visible_frames == sample_len as int / frame_width(channels),
    {
        let width = if channels > 0 { channels } else { 1 };
        AudioEvent {
            id,
            name,
            sample_len,
            channels,
            sample_rate,
            trim_left_frames: 0,
            visible_frames: sample_len / width,
        }
    }

    /// Frames of the whole buffer.
    pub fn total_frames(&self) -> (r: usize)
        ensures
            r == self.total(),
    {
        let width = if self.channels > 0 { self.channels } else { 1 };
        self.sample_len / width
    }

    /// Frames shown (the trim window applied).
    pub fn frames(&self) -> (r: u64)
        ensures
            r == self.shown(),
    {
        let avail = self.total_frames().saturating_sub(self.trim_left_frames);
        let shown = if avail < self.visible_frames { avail } else { self.visible_frames };
        shown as u64
    }

    /// The range of the shown window in the interleaved buffer, ready for
    /// the engine or a preview: `samples[start..end]`.
    pub fn window_range(&self) -> (r: (usize, usize))
        requires
            self.trim_left_frames * frame_width(self.channels) <= usize::MAX,
            self.sample_len <= isize::MAX,
        ensures
            r.0 == self.window_start(),
            r.1 == self.window_end(),
            r.0 <= r.1 <= self.sample_len,
    {
        let width = if self.channels > 0 { self.channels } else { 1 };
        let a = self.trim_left_frames * width;
        let start = if a < self.sample_len { a } else { self.sample_len };
        let shown = self.frames() as usize;
        proof {
            let w = frame_width(self.channels);
            assert(shown <= self.total());
            assert(self.total() * w <= self.sample_len) by (nonlinear_arith)
                requires
                    w >= 1,
                    self.total() == self.sample_len as int / w,
            ;
            assert(shown * w <= self.total() * w) by (nonlinear_arith)
                requires
                    w >= 1,
                    0 <= shown <= self.total(),
            ;
        }
        let b = start + shown * width;
        let end = if b < self.sample_len { b } else { self.sample_len };
        (start, end)
    }

    /// Splits the event `cut_frames` frames into its shown window: this
    /// event keeps the first `cut_frames` frames and the returned event,
    /// `new_id` named `new_name`, shows the rest of the window over the
    /// same buffer. Nothing happens (`None`) when the cut is at the start
    /// or at or past the end of the window.
    pub fn split_at_frame(&mut self, cut_frames: usize, new_id: u64, new_name: String) -> (r: Option<AudioEvent>)
        ensures
            cut_frames == 0 || cut_frames >= old(self).shown() ==> r is None && *final(self) == *old(self),
            0 < cut_frames < old(self).shown() ==> {
                &&& r matches Some(right) && {
                    &&& right.id == new_id
                    &&& right.name@ == new_name@
                    &&& right.sample_len == old(self).sample_len
                    &&& right.channels == old(self).channels
                    &&& right.sample_rate == old(self).sample_rate
                    &&& right.trim_left_frames == old(self).trim_left_frames + cut_frames
                    &&& right.visible_frames == old(self).shown() - cut_frames
                }
                &&& final(self).visible_frames == cut_frames
                &&& final(self).trim_left_frames == old(self).trim_left_frames
                &&& final(self).id == old(self).id
                &&& final(self).name == old(self).name
                &&& final(self).sample_len == old(self).sample_len
                &&& final(self).channels == old(self).channels
                &&& final(self).sample_rate == old(self).sample_rate
            },
    {
        let left_visible = self.frames() as usize;
        if cut_frames == 0 || cut_frames >= left_visible {
            return None;
        }
        let abs_cut = self.trim_left_frames + cut_frames;
        let right = AudioEvent {
            id: new_id,
            name: new_name,
            sample_len: self.sample_len,
            channels: self.channels,
            sample_rate: self.sample_rate,
            trim_left_frames: abs_cut,
            visible_frames: left_visible - cut_frames,
        };
        self.visible_frames = cut_frames;
        Some(right)
    }
}

/// Splitting an event `cut` frames into its window (as
/// [`AudioEvent::split_at_frame`] does) leaves two windows over the same
/// buffer that meet exactly where the cut is and together show what the
/// event showed.
pub proof fn law_split_halves_meet(e: AudioEvent, cut: usize)
    requires
        0 < cut < e.shown(),
    ensures
        ({
            let left = AudioEvent { visible_frames: cut, ..e };
            let right = AudioEvent {
                trim_left_frames: (e.trim_left_frames + cut) as usize,
                visible_frames: (e.shown() - cut) as usize,
                ..e
            };
            &&& left.shown() == cut
            &&& right.shown() == e.shown() - cut
            &&& left.window_start() == e.window_start()
            &&& left.window_end() == right.window_start()
            &&& right.window_end() == e.window_end()
        }),
{
    let w = frame_width(e.channels);
    let t = e.trim_left_frames as int;
    let len = e.sample_len as int;
    let total = e.total();
    assert(total * w <= len) by (nonlinear_arith)
        requires
            w >= 1,
            total == len / w,
    ;
    assert(t + e.shown() <= total);
    assert((t + cut) * w <= total * w) by (nonlinear_arith)
        requires
            w >= 1,
            t + cut <= total,
    ;
    assert((t + e.shown()) * w <= total * w) by (nonlinear_arith)
        requires
            w >= 1,
            t + e.shown() <= total,
    ;
    assert(t * w + cut * w == (t + cut) * w) by (nonlinear_arith);
    assert((t + cut) * w + (e.shown() - cut) * w == (t + e.shown()) * w) by (nonlinear_arith);
    assert(t * w + e.shown() * w == (t + e.shown()) * w) by (nonlinear_arith);
    assert(t * w <= (t + cut) * w) by (nonlinear_arith)
        requires
            w >= 1,
            cut >= 0,
    ;
}

/// The events of `s` other than those with id `id`, in order.
pub open spec fn without_id(s: Seq<EventModel>, id: u64) -> Seq<EventModel>
    decreases s.len(),
{
    if s.len() == 0 {
        Seq::empty()
    } else {
        (if s[0].id == id {
            Seq::empty()
        } else {
            seq![s[0]]
        }) + without_id(s.skip(1), id)
    }
}

/// The position of the first event of `s` with id `id`.
pub open spec fn position_of(s: Seq<EventModel>, id: u64) -> Option<int>
    decreases s.len(),
{
    if s.len() == 0 {
        None
    } else if s[0].id == id {
        Some(0)
    } else {
        match position_of(s.skip(1), id) {
            Some(k) => Some(k + 1),
            None => None,
        }
    }
}

/// Deletes the events with id `id` (the selected event), keeping the
/// others in order.
pub fn remove_event(events: &mut Vec<AudioEvent>, id: u64)
    ensures
        event_models(final(events)@) == without_id(event_models(old(events)@), id),
{
    let mut kept: Vec<AudioEvent> = Vec::new();
    let ghost all = event_models(events@);
    while events.len() > 0
        invariant
            event_models(kept@) + without_id(event_models(events@), id) == without_id(all, id),
        decreases events@.len(),
    {
        let ghost before = event_models(events@);
        let e = events.remove(0);
        proof {
            assert(event_models(events@) =~= before.skip(1));
            assert(before[0] == e.model());
        }
        if e.id != id {
            kept.push(e);
            proof {
                assert(event_models(kept@) =~= event_models(kept@.drop_last()).push(before[0]));
                assert(without_id(before, id) == seq![before[0]] + without_id(before.skip(1), id));
                assert(event_models(kept@) + without_id(event_models(events@), id) =~= event_models(kept@.drop_last())
                    + without_id(before, id));
            }
        } else {
            proof {
                assert(without_id(before, id) =~= without_id(before.skip(1), id));
            }
        }
    }
    proof {
        assert(without_id(event_models(events@), id) =~= Seq::<EventModel>::empty());
        assert(event_models(kept@) =~= without_id(all, id));
    }
    *events = kept;
}

/// The position of the event with id `id`, if there is one (the first).
pub fn find_event(events: &[AudioEvent], id: u64) -> (r: Option<usize>)
    ensures
        (match r {
            Some(k) => Some(k as int),
            None => None,
        }) == position_of(event_models(events@), id),
{
    let n = events.len();
    let mut i: usize = 0;
    assert(event_models(events@).skip(0) =~= event_models(events@));
    while i < n
        invariant
            n == events@.len(),
            0 <= i <= n,
            position_of(event_models(events@), id) == (match position_of(event_models(events@).skip(i as int), id) {
                Some(k) => Some(k + i),
                None => None,
            }),
        decreases n - i,
    {
        let ghost rest = event_models(events@).skip(i as int);
        assert(rest[0] == events@[i as int].model());
        if events[i].id == id {
            return Some(i);
        }
        assert(rest.skip(1) =~= event_models(events@).skip(i as int + 1));
        i = i + 1;
    }
    proof {
        assert(event_models(events@).skip(n as int) =~= Seq::<EventModel>::empty());
    }
    None
}

} // verus!
