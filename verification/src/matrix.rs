//! The session matrix (clip launcher): a grid of tracks by scenes whose
//! slots hold clips, with launching, copying, pasting, duplicating and
//! deleting. Operations that reach the audio engine return the commands to
//! send it.

use vstd::prelude::*;
use vstd::string::StringExecFns;
use crate::text::{decimal, push_decimal};
use crate::engine::{AudioEngine, max_int, min_int};
use crate::audio_event::{AudioEvent, clone_events, event_models};

verus! {

/// The launch state of a slot.
#[derive(Clone, Copy, Debug, PartialEq, Eq, Structural)]
pub enum SlotState {
    Empty,
    Stopped,
    QueuedToPlay,
    Playing,
    QueuedToStop,
}

/// What a clip holds: audio (its events are kept with the editor) or MIDI
/// notes `(start_tick, pitch, velocity, duration_ticks)`.
pub enum ClipData {
    Audio { next_event_id: u64 },
    Midi { notes: Vec<(u64, u8, u8, u32)> },
}

/// A clip in a session slot, with its loop region (in ticks).
pub struct MatrixClip {
    pub id: usize,
    pub name: String,
    pub path: String,
    pub content: ClipData,
    pub loop_start: u64,
    pub loop_end: u64,
    pub loop_enabled: bool,
    /// Whether the loop region is shown as a time selection.
    pub has_time_selection: bool,
}

/// A slot of the grid.
pub struct MatrixSlot {
    pub state: SlotState,
    pub clip: Option<MatrixClip>,
}

/// A track (row) of the matrix.
pub struct TrackMeta {
    pub name: String,
    pub muted: bool,
    pub soloed: bool,
}

/// A scene (column) of the matrix.
pub struct SceneMeta {
    pub name: String,
}

/// The session matrix: `grid[track][scene]`.
pub struct SessionMatrixState {
    pub grid: Vec<Vec<MatrixSlot>>,
    pub tracks: Vec<TrackMeta>,
    pub scenes: Vec<SceneMeta>,
    pub next_clip_id: usize,
    pub selected_slot: Option<(usize, usize)>,
    pub show_editor: bool,
}

/// What a matrix operation asks of the audio engine (or, for `ResetBar`, of
/// the clip's editor view).
pub enum MatrixCommand {
    /// Load the audio file at `path` as clip `clip_id` into a slot.
    LoadClip { clip_id: usize, path: String, track_index: usize, scene_index: usize },
    /// Load a new MIDI clip `clip_id` with these notes into a slot.
    LoadMidiClip { clip_id: usize, track_index: usize, scene_index: usize, notes: Vec<(u64, u8, u8, u32)> },
    /// Replace the notes of the MIDI clip in a slot.
    UpdateMidiClipNotes { track_idx: usize, scene_idx: usize, notes: Vec<(u64, u8, u8, u32)> },
    /// Toggle the clip in a slot.
    TriggerClip { track_idx: usize, scene_idx: usize },
    /// Launch a scene.
    TriggerScene { scene_idx: usize },
    /// Rewind the clip's bar display to its first bar.
    ResetBar { track_idx: usize, scene_idx: usize },
}

/// Abstract content of a clip.
pub enum ContentModel {
    Audio { next_event_id: u64 },
    Midi { notes: Seq<(u64, u8, u8, u32)> },
}

/// Abstract clip: its fields, with strings and notes as sequences.
pub struct ClipModel {
    pub id: usize,
    pub name: Seq<char>,
    pub path: Seq<char>,
    pub content: ContentModel,
    pub loop_start: u64,
    pub loop_end: u64,
    pub loop_enabled: bool,
    pub has_time_selection: bool,
}

/// Abstract slot.
pub struct SlotModel {
    pub state: SlotState,
    pub clip: Option<ClipModel>,
}

/// Abstract command.
pub enum CommandModel {
    LoadClip { clip_id: usize, path: Seq<char>, track_index: usize, scene_index: usize },
    LoadMidiClip { clip_id: usize, track_index: usize, scene_index: usize, notes: Seq<(u64, u8, u8, u32)> },
    UpdateMidiClipNotes { track_idx: usize, scene_idx: usize, notes: Seq<(u64, u8, u8, u32)> },
    TriggerClip { track_idx: usize, scene_idx: usize },
    TriggerScene { scene_idx: usize },
    ResetBar { track_idx: usize, scene_idx: usize },
}

impl ClipData {
    pub open spec fn model(&self) -> ContentModel {
        match self {
            ClipData::Audio { next_event_id } => ContentModel::Audio { next_event_id: *next_event_id },
            ClipData::Midi { notes } => ContentModel::Midi { notes: notes@ },
        }
    }
}

impl MatrixClip {
    pub open spec fn model(&self) -> ClipModel {
        ClipModel {
            id: self.id,
            name: self.name@,
            path: self.path@,
            content: self.content.model(),
            loop_start: self.loop_start,
            loop_end: self.loop_end,
            loop_enabled: self.loop_enabled,
            has_time_selection: self.has_time_selection,
        }
    }

    /// Length of the loop region in ticks (0 when it is inverted).
    pub fn loop_length_ticks(&self) -> (r: u64)
        ensures
            r == (if self.loop_end > self.loop_start {
                self.loop_end - self.loop_start
            } else {
                0
            }),
    {
        self.loop_end.saturating_sub(self.loop_start)
    }

    /// Whether the clip loops over a non-empty region.
    pub fn has_valid_clip_loop(&self) -> (b: bool)
        ensures
            b == (self.loop_enabled && self.loop_end > self.loop_start),
    {
        self.loop_enabled && self.loop_end > self.loop_start
    }

    /// Hands out the next id for an audio event of this clip (ids start at
    /// 1); a MIDI clip has no events and gets 0.
    pub fn alloc_event_id(&mut self) -> (id: u64)
        requires
            old(self).content matches ClipData::Audio { next_event_id } ==> next_event_id < u64::MAX,
        ensures
            match old(self).content {
                ClipData::Audio { next_event_id } => {
                    &&& id == (if next_event_id > 1 { next_event_id } else { 1 })
                    &&& final(self).content matches ClipData::Audio { next_event_id: n } && n == id + 1
                },
                ClipData::Midi { .. } => id == 0 && final(self).content.model() == old(self).content.model(),
            },
            final(self).id == old(self).id,
            final(self).name@ == old(self).name@,
            final(self).path@ == old(self).path@,
            final(self).loop_start == old(self).loop_start,
            final(self).loop_end == old(self).loop_end,
            final(self).loop_enabled == old(self).loop_enabled,
            final(self).has_time_selection == old(self).has_time_selection,
    {
        let next = match &self.content {
            ClipData::Audio { next_event_id } => Some(*next_event_id),
            ClipData::Midi { .. } => None,
        };
        match next {
            Some(n) => {
                let id = if n > 1 { n } else { 1 };
                self.content = ClipData::Audio { next_event_id: id + 1 };
                id
            },
            None => 0,
        }
    }

    /// The clip editor's time-selection keys over a clip of `total_frames`
    /// frames: Ctrl+Alt+A (`hide`) hides a shown time selection; otherwise
    /// Ctrl+A (`select_all`) makes the whole clip the shown time selection
    /// unless it already is. Returns whether the loop changed (and is to be
    /// sent to the engine).
    pub fn time_selection_keys(&mut self, select_all: bool, hide: bool, total_frames: u64) -> (changed: bool)
        ensures
            hide && old(self).has_time_selection ==> changed && final(self).model() == (ClipModel {
                has_time_selection: false,
                ..old(self).model()
            }),
            !(hide && old(self).has_time_selection) && select_all && (!old(self).has_time_selection
                || old(self).loop_start != 0 || old(self).loop_end != total_frames) ==> changed
                && final(self).model() == (ClipModel {
                has_time_selection: true,
                loop_start: 0,
                loop_end: total_frames,
                ..old(self).model()
            }),
            !(hide && old(self).has_time_selection) && !(select_all && (!old(self).has_time_selection
                || old(self).loop_start != 0 || old(self).loop_end != total_frames)) ==> !changed
                && final(self).model() == old(self).model(),
    {
        if hide && self.has_time_selection {
            self.has_time_selection = false;
            true
        } else if select_all && (!self.has_time_selection || self.loop_start != 0 || self.loop_end != total_frames) {
            self.has_time_selection = true;
            self.loop_start = 0;
            self.loop_end = total_frames;
            true
        } else {
            false
        }
    }

    /// Keeps a shown time selection inside a clip of `total_frames` frames
    /// (nothing happens without one, or for an empty clip): an unset or
    /// too-late loop end moves to the clip's end, and a start not before
    /// the end moves a quarter second (at `sample_rate`) before it, or to 0.
    pub fn normalize_time_selection(&mut self, total_frames: u64, sample_rate: u32)
        ensures
            ({
                let applies = old(self).has_time_selection && total_frames > 0;
                let end: int = if applies && (old(self).loop_end == 0 || old(self).loop_end > total_frames) {
                    total_frames as int
                } else {
                    old(self).loop_end as int
                };
                let start: int = if applies && old(self).loop_start >= end {
                    max_int(end - sample_rate as int / 4, 0)
                } else {
                    old(self).loop_start as int
                };
                final(self).model() == (ClipModel {
                    loop_start: start as u64,
                    loop_end: end as u64,
                    ..old(self).model()
                })
            }),
    {
        if self.has_time_selection && total_frames > 0 {
            if self.loop_end == 0 || self.loop_end > total_frames {
                self.loop_end = total_frames;
            }
            if self.loop_start >= self.loop_end {
                self.loop_start = self.loop_end.saturating_sub(sample_rate as u64 / 4);
            }
        }
    }

    /// Drags the loop's start bracket to `new_start`: it stays at least
    /// `min_frame_gap` frames before the end (or at 0). Returns whether
    /// the start moved.
    pub fn drag_loop_start(&mut self, new_start: u64, min_frame_gap: u64) -> (changed: bool)
        requires
            new_start + min_frame_gap <= u64::MAX,
        ensures
            ({
                let target: int = if new_start + min_frame_gap <= old(self).loop_end {
                    new_start as int
                } else {
                    max_int(old(self).loop_end - min_frame_gap, 0)
                };
                &&& changed == (target != old(self).loop_start)
                &&& final(self).model() == (ClipModel { loop_start: target as u64, ..old(self).model() })
            }),
    {
        let target = if new_start + min_frame_gap <= self.loop_end {
            new_start
        } else {
            self.loop_end.saturating_sub(min_frame_gap)
        };
        if self.loop_start != target {
            self.loop_start = target;
            true
        } else {
            false
        }
    }

    /// Drags the loop's end bracket to `new_end`: it stays at least
    /// `min_frame_gap` frames after the start, but not past the clip's
    /// `total_frames`. Returns whether the end moved.
    pub fn drag_loop_end(&mut self, new_end: u64, min_frame_gap: u64, total_frames: u64) -> (changed: bool)
        requires
            old(self).loop_start + min_frame_gap <= u64::MAX,
        ensures
            ({
                let target: int = if new_end >= old(self).loop_start + min_frame_gap {
                    new_end as int
                } else {
                    min_int(old(self).loop_start + min_frame_gap, total_frames as int)
                };
                &&& changed == (target != old(self).loop_end)
                &&& final(self).model() == (ClipModel { loop_end: target as u64, ..old(self).model() })
            }),
    {
        let target = if new_end >= self.loop_start + min_frame_gap {
            new_end
        } else {
            let gap_end = self.loop_start + min_frame_gap;
            if gap_end < total_frames { gap_end } else { total_frames }
        };
        if self.loop_end != target {
            self.loop_end = target;
            true
        } else {
            false
        }
    }

    /// Whether the clip holds MIDI.
    pub fn is_midi(&self) -> (b: bool)
        ensures
            b == (self.content is Midi),
    {
        match &self.content {
            ClipData::Midi { .. } => true,
            ClipData::Audio { .. } => false,
        }
    }
}

impl MatrixSlot {
    pub open spec fn model(&self) -> SlotModel {
        SlotModel {
            state: self.state,
            clip: match &self.clip {
                Some(c) => Some(c.model()),
                None => None,
            },
        }
    }

    /// An empty slot.
    pub fn new() -> (s: Self)
        ensures
            s.model() == empty_slot(),
    {
        MatrixSlot { state: SlotState::Empty, clip: None }
    }
}

impl MatrixCommand {
    pub open spec fn model(&self) -> CommandModel {
        match self {
            MatrixCommand::LoadClip { clip_id, path, track_index, scene_index } => CommandModel::LoadClip {
                clip_id: *clip_id,
                path: path@,
                track_index: *track_index,
                scene_index: *scene_index,
            },
            MatrixCommand::LoadMidiClip { clip_id, track_index, scene_index, notes } => CommandModel::LoadMidiClip {
                clip_id: *clip_id,
                track_index: *track_index,
                scene_index: *scene_index,
                notes: notes@,
            },
            MatrixCommand::UpdateMidiClipNotes { track_idx, scene_idx, notes } => CommandModel::UpdateMidiClipNotes {
                track_idx: *track_idx,
                scene_idx: *scene_idx,
                notes: notes@,
            },
            MatrixCommand::TriggerClip { track_idx, scene_idx } => CommandModel::TriggerClip {
                track_idx: *track_idx,
                scene_idx: *scene_idx,
            },
            MatrixCommand::TriggerScene { scene_idx } => CommandModel::TriggerScene { scene_idx: *scene_idx },
            MatrixCommand::ResetBar { track_idx, scene_idx } => CommandModel::ResetBar {
                track_idx: *track_idx,
                scene_idx: *scene_idx,
            },
        }
    }
}

pub open spec fn empty_slot() -> SlotModel {
    SlotModel { state: SlotState::Empty, clip: None }
}

/// The abstract commands of a command list.
pub open spec fn commands(v: Seq<MatrixCommand>) -> Seq<CommandModel> {
    Seq::new(v.len(), |i: int| v[i].model())
}

/// Copies a note list.
fn copy_notes(notes: &Vec<(u64, u8, u8, u32)>) -> (r: Vec<(u64, u8, u8, u32)>)
    ensures
        r@ == notes@,
{
    let mut r: Vec<(u64, u8, u8, u32)> = Vec::new();
    let mut i: usize = 0;
    while i < notes.len()
        invariant
            0 <= i <= notes@.len(),
            r@ == notes@.take(i as int),
        decreases notes@.len() - i,
    {
        r.push(notes[i]);
        proof {
            assert(notes@.take(i as int).push(notes@[i as int]) =~= notes@.take(i as int + 1));
        }
        i = i + 1;
    }
    proof {
        assert(notes@.take(notes@.len() as int) =~= notes@);
    }
    r
}

/// Copies a clip.
pub fn clone_clip(c: &MatrixClip) -> (r: MatrixClip)
    ensures
        r.model() == c.model(),
{
    let content = match &c.content {
        ClipData::Audio { next_event_id } => ClipData::Audio { next_event_id: *next_event_id },
        ClipData::Midi { notes } => ClipData::Midi { notes: copy_notes(notes) },
    };
    MatrixClip {
        id: c.id,
        name: c.name.clone(),
        path: c.path.clone(),
        content,
        loop_start: c.loop_start,
        loop_end: c.loop_end,
        loop_enabled: c.loop_enabled,
        has_time_selection: c.has_time_selection,
    }
}

/// Copies a slot.
pub fn clone_slot(s: &MatrixSlot) -> (r: MatrixSlot)
    ensures
        r.model() == s.model(),
{
    let clip = match &s.clip {
        Some(c) => Some(clone_clip(c)),
        None => None,
    };
    MatrixSlot { state: s.state, clip }
}


/// A row of `n` empty slots.
fn empty_row(n: usize) -> (r: Vec<MatrixSlot>)
    ensures
        r@.len() == n,
        forall|s: int| 0 <= s < n ==> (#[trigger] r@[s]).model() == empty_slot(),
{
    let mut r: Vec<MatrixSlot> = Vec::new();
    let mut i: usize = 0;
    while i < n
        invariant
            0 <= i <= n,
            r@.len() == i,
            forall|s: int| 0 <= s < i ==> (#[trigger] r@[s]).model() == empty_slot(),
        decreases n - i,
    {
        r.push(MatrixSlot::new());
        i = i + 1;
    }
    r
}

/// `prefix` followed by the decimal notation of `n`.
fn numbered(prefix: &str, n: usize) -> (s: String)
    ensures
        s@ == prefix@ + decimal(n as nat),
{
    let mut s = String::from_str(prefix);
    push_decimal(&mut s, n as u64);
    s
}

/// The name a track added as the `n`-th gets.
pub open spec fn added_track_name(n: nat) -> Seq<char> {
    "Audio "@ + decimal(n)
}

/// The name of the `n`-th scene.
pub open spec fn scene_name(n: nat) -> Seq<char> {
    "Scene "@ + decimal(n)
}

/// The closest the loop brackets may come, in frames: a tenth of a second
/// at `sample_rate`, but at least 1024.
pub fn loop_bracket_gap(sample_rate: u32) -> (g: u64)
    ensures
        g == max_int(sample_rate as int / 10, 1024),
{
    let tenth = sample_rate as u64 / 10;
    if tenth > 1024 { tenth } else { 1024 }
}

/// The name of the `n`-th track of a new session.
pub open spec fn initial_track_name(n: nat) -> Seq<char> {
    "Track "@ + decimal(n)
}

impl SessionMatrixState {
    /// The grid is `tracks x scenes`, with at least one of each.
    pub open spec fn wf(&self) -> bool {
        &&& self.grid@.len() == self.tracks@.len()
        &&& forall|t: int| 0 <= t < self.grid@.len() ==> (#[trigger] self.grid@[t])@.len() == self.scenes@.len()
        &&& self.tracks@.len() >= 1
        &&& self.scenes@.len() >= 1
    }

    /// The slot at `(t, s)`.
    pub open spec fn slot(&self, t: int, s: int) -> SlotModel {
        self.grid@[t]@[s].model()
    }

    /// The grid of slot models.
    pub open spec fn grid_model(&self) -> Seq<Seq<SlotModel>> {
        Seq::new(self.grid@.len(), |t: int| Seq::new(self.grid@[t]@.len(), |s: int| self.grid@[t]@[s].model()))
    }

    pub open spec fn track_names(&self) -> Seq<Seq<char>> {
        Seq::new(self.tracks@.len(), |t: int| self.tracks@[t].name@)
    }

    pub open spec fn scene_names(&self) -> Seq<Seq<char>> {
        Seq::new(self.scenes@.len(), |s: int| self.scenes@[s].name@)
    }

    /// Appends a track named "Audio N" (N its number) with an empty row.
    pub fn add_track(&mut self)
        requires
            old(self).wf(),
            old(self).tracks@.len() < usize::MAX,
        ensures
            final(self).wf(),
            final(self).show_editor == old(self).show_editor,
            final(self).tracks@.drop_last() == old(self).tracks@,
            final(self).tracks@.len() == old(self).tracks@.len() + 1,
            final(self).track_names() == old(self).track_names().push(
                added_track_name((old(self).tracks@.len() + 1) as nat),
            ),
            !final(self).tracks@.last().muted && !final(self).tracks@.last().soloed,
            final(self).grid_model() == old(self).grid_model().push(
                Seq::new(old(self).scenes@.len(), |s: int| empty_slot()),
            ),
            final(self).scene_names() == old(self).scene_names(),
            final(self).next_clip_id == old(self).next_clip_id,
            final(self).selected_slot == old(self).selected_slot,
    {
        let track_num = self.tracks.len() + 1;
        let name = numbered("Audio ", track_num);
        self.tracks.push(TrackMeta { name, muted: false, soloed: false });
        let scene_count = self.scenes.len();
        let row = empty_row(scene_count);
        self.grid.push(row);
        proof {
            assert(self.track_names() =~= old(self).track_names().push(
                added_track_name((old(self).tracks@.len() + 1) as nat),
            ));
            assert(self.scene_names() =~= old(self).scene_names());
            let g = self.grid_model();
            let og = old(self).grid_model().push(Seq::new(old(self).scenes@.len(), |s: int| empty_slot()));
            assert(g.len() == og.len());
            assert forall|t: int| 0 <= t < g.len() implies #[trigger] g[t] =~= og[t] by {
                if t < g.len() - 1 {
                    assert(self.grid@[t] == old(self).grid@[t]);
                }
            }
            assert(g =~= og);
        }
    }

    /// Removes the last track and its row, keeping at least one track; a
    /// selection on the removed track is cleared.
    pub fn remove_track(&mut self)
        requires
            old(self).wf(),
        ensures
            final(self).wf(),
            final(self).show_editor == old(self).show_editor,
            final(self).tracks@ == (if old(self).tracks@.len() > 1 {
                old(self).tracks@.drop_last()
            } else {
                old(self).tracks@
            }),
            old(self).tracks@.len() > 1 ==> {
                &&& final(self).track_names() == old(self).track_names().drop_last()
                &&& final(self).grid_model() == old(self).grid_model().drop_last()
                &&& final(self).selected_slot == (match old(self).selected_slot {
                    Some((t, s)) => if t >= final(self).tracks@.len() {
                        None
                    } else {
                        Some((t, s))
                    },
                    None => None,
                })
            },
            old(self).tracks@.len() <= 1 ==> {
                &&& final(self).track_names() == old(self).track_names()
                &&& final(self).grid_model() == old(self).grid_model()
                &&& final(self).selected_slot == old(self).selected_slot
            },
            final(self).scene_names() == old(self).scene_names(),
            final(self).next_clip_id == old(self).next_clip_id,
    {
        if self.tracks.len() > 1 {
            self.tracks.pop();
            self.grid.pop();
            if let Some((t, _)) = self.selected_slot {
                if t >= self.tracks.len() {
                    self.selected_slot = None;
                }
            }
            proof {
                assert(self.track_names() =~= old(self).track_names().drop_last());
                assert(self.scene_names() =~= old(self).scene_names());
                let g = self.grid_model();
                let og = old(self).grid_model().drop_last();
                assert forall|t: int| 0 <= t < g.len() implies #[trigger] g[t] =~= og[t] by {
                    assert(self.grid@[t] == old(self).grid@[t]);
                }
                assert(g =~= og);
            }
        }
    }

    /// Appends a scene named "Scene N" and an empty slot to every track.
    pub fn add_scene(&mut self)
        requires
            old(self).wf(),
            old(self).scenes@.len() < usize::MAX,
        ensures
            final(self).wf(),
            final(self).show_editor == old(self).show_editor,
            final(self).tracks@ == old(self).tracks@,
            final(self).scenes@.len() == old(self).scenes@.len() + 1,
            final(self).scene_names() == old(self).scene_names().push(
                scene_name((old(self).scenes@.len() + 1) as nat),
            ),
            final(self).grid_model() == Seq::new(
                old(self).grid@.len(),
                |t: int| old(self).grid_model()[t].push(empty_slot()),
            ),
            final(self).track_names() == old(self).track_names(),
            final(self).next_clip_id == old(self).next_clip_id,
            final(self).selected_slot == old(self).selected_slot,
    {
        let scene_num = self.scenes.len() + 1;
        let name = numbered("Scene ", scene_num);
        self.scenes.push(SceneMeta { name });
        let ghost sc = self.scenes@;
        proof {
            assert(self.scene_names() =~= old(self).scene_names().push(
                scene_name((old(self).scenes@.len() + 1) as nat),
            ));
        }
        let ghost names = self.scene_names();
        let ghost og = old(self).grid_model();
        let n = self.grid.len();
        let mut t: usize = 0;
        while t < n
            invariant
                n == self.grid@.len(),
                n == old(self).grid@.len(),
                0 <= t <= n,
                og == old(self).grid_model(),
                forall|u: int| 0 <= u < t ==> (#[trigger] self.grid@[u])@.len() == old(self).scenes@.len() + 1,
                forall|u: int| t <= u < n ==> (#[trigger] self.grid@[u])@.len() == old(self).scenes@.len(),
                forall|u: int|
                    0 <= u < t ==> Seq::new((#[trigger] self.grid@[u])@.len(), |s: int| self.grid@[u]@[s].model())
                        == og[u].push(empty_slot()),
                forall|u: int| t <= u < n ==> #[trigger] self.grid@[u] == old(self).grid@[u],
                self.tracks@ == old(self).tracks@,
                self.scenes@ == sc,
                names == self.scene_names(),
                self.scenes@.len() == old(self).scenes@.len() + 1,
                forall|u: int| 0 <= u < n ==> (#[trigger] old(self).grid@[u])@.len() == old(self).scenes@.len(),
                self.next_clip_id == old(self).next_clip_id,
                self.selected_slot == old(self).selected_slot,
                self.show_editor == old(self).show_editor,
            decreases n - t,
        {
            let ghost before = self.grid@[t as int];
            self.grid[t].push(MatrixSlot::new());
            proof {
                assert(Seq::new(self.grid@[t as int]@.len(), |s: int| self.grid@[t as int]@[s].model())
                    =~= og[t as int].push(empty_slot()));
            }
            t = t + 1;
        }
        proof {
            assert(self.track_names() =~= old(self).track_names());
            assert(self.grid_model() =~= Seq::new(old(self).grid@.len(), |u: int| og[u].push(empty_slot())));
        }
    }

    /// Removes the last scene and its slot on every track, keeping at least
    /// one scene; a selection on the removed scene is cleared.
    pub fn remove_scene(&mut self)
        requires
            old(self).wf(),
        ensures
            final(self).wf(),
            final(self).show_editor == old(self).show_editor,
            final(self).tracks@ == old(self).tracks@,
            old(self).scenes@.len() > 1 ==> {
                &&& final(self).scene_names() == old(self).scene_names().drop_last()
                &&& final(self).grid_model() == Seq::new(
                    old(self).grid@.len(),
                    |t: int| old(self).grid_model()[t].drop_last(),
                )
                &&& final(self).selected_slot == (match old(self).selected_slot {
                    Some((t, s)) => if s >= final(self).scenes@.len() {
                        None
                    } else {
                        Some((t, s))
                    },
                    None => None,
                })
            },
            old(self).scenes@.len() <= 1 ==> {
                &&& final(self).scene_names() == old(self).scene_names()
                &&& final(self).grid_model() == old(self).grid_model()
                &&& final(self).selected_slot == old(self).selected_slot
            },
            final(self).track_names() == old(self).track_names(),
            final(self).next_clip_id == old(self).next_clip_id,
    {
        if self.scenes.len() > 1 {
            self.scenes.pop();
            let ghost og = old(self).grid_model();
            let n = self.grid.len();
            let mut t: usize = 0;
            while t < n
                invariant
                    n == self.grid@.len(),
                    n == old(self).grid@.len(),
                    0 <= t <= n,
                    og == old(self).grid_model(),
                    old(self).scenes@.len() > 1,
                    forall|u: int| 0 <= u < t ==> (#[trigger] self.grid@[u])@.len() == old(self).scenes@.len() - 1,
                    forall|u: int|
                        0 <= u < t ==> Seq::new((#[trigger] self.grid@[u])@.len(), |s: int| self.grid@[u]@[s].model())
                            == og[u].drop_last(),
                    forall|u: int| t <= u < n ==> #[trigger] self.grid@[u] == old(self).grid@[u],
                    forall|u: int| 0 <= u < n ==> (#[trigger] old(self).grid@[u])@.len() == old(self).scenes@.len(),
                    self.tracks@ == old(self).tracks@,
                    self.scenes@ == old(self).scenes@.drop_last(),
                    self.next_clip_id == old(self).next_clip_id,
                    self.selected_slot == old(self).selected_slot,
                    self.show_editor == old(self).show_editor,
                decreases n - t,
            {
                self.grid[t].pop();
                proof {
                    assert(Seq::new(self.grid@[t as int]@.len(), |s: int| self.grid@[t as int]@[s].model())
                        =~= og[t as int].drop_last());
                }
                t = t + 1;
            }
            if let Some((_, s)) = self.selected_slot {
                if s >= self.scenes.len() {
                    self.selected_slot = None;
                }
            }
            proof {
                assert(self.scene_names() =~= old(self).scene_names().drop_last());
                assert(self.track_names() =~= old(self).track_names());
                assert(self.grid_model() =~= Seq::new(old(self).grid@.len(), |u: int| og[u].drop_last()));
            }
        }
    }

    /// The slot at `(t, s)`, if the grid has one there.
    pub open spec fn slot_opt(&self, t: int, s: int) -> Option<SlotModel> {
        if 0 <= t < self.grid@.len() && 0 <= s < self.grid@[t]@.len() {
            Some(self.slot(t, s))
        } else {
            None
        }
    }

    /// Replaces the slot at `(t, s)`.
    fn set_slot(&mut self, t: usize, s: usize, slot: MatrixSlot)
        requires
            old(self).wf(),
            t < old(self).grid@.len(),
            s < old(self).grid@[t as int]@.len(),
        ensures
            final(self).wf(),
            final(self).grid_model() == old(self).grid_model().update(
                t as int,
                old(self).grid_model()[t as int].update(s as int, slot.model()),
            ),
            final(self).tracks@ == old(self).tracks@,
            final(self).scenes@ == old(self).scenes@,
            final(self).next_clip_id == old(self).next_clip_id,
            final(self).selected_slot == old(self).selected_slot,
            final(self).show_editor == old(self).show_editor,
    {
        let ghost sm = slot.model();
        self.grid[t].set(s, slot);
        proof {
            let g = self.grid_model();
            let og = old(self).grid_model().update(t as int, old(self).grid_model()[t as int].update(s as int, sm));
            assert forall|u: int| 0 <= u < g.len() implies #[trigger] g[u] =~= og[u] by {
                if u != t {
                    assert(self.grid@[u] == old(self).grid@[u]);
                }
            }
            assert(g =~= og);
        }
    }

    /// Sets the launch state of the slot at `(t, s)`.
    fn set_state(&mut self, t: usize, s: usize, state: SlotState)
        requires
            old(self).wf(),
            t < old(self).grid@.len(),
            s < old(self).grid@[t as int]@.len(),
        ensures
            final(self).wf(),
            final(self).grid_model() == old(self).grid_model().update(
                t as int,
                old(self).grid_model()[t as int].update(
                    s as int,
                    SlotModel { state, ..old(self).grid_model()[t as int][s as int] },
                ),
            ),
            final(self).tracks@ == old(self).tracks@,
            final(self).scenes@ == old(self).scenes@,
            final(self).next_clip_id == old(self).next_clip_id,
            final(self).selected_slot == old(self).selected_slot,
            final(self).show_editor == old(self).show_editor,
    {
        self.grid[t][s].state = state;
        proof {
            let g = self.grid_model();
            let og = old(self).grid_model().update(
                t as int,
                old(self).grid_model()[t as int].update(
                    s as int,
                    SlotModel { state, ..old(self).grid_model()[t as int][s as int] },
                ),
            );
            assert forall|u: int| 0 <= u < g.len() implies #[trigger] g[u] =~= og[u] by {
                if u != t {
                    assert(self.grid@[u] == old(self).grid@[u]);
                }
            }
            assert(g =~= og);
        }
    }

    /// The note update a MIDI slot sends the engine, if `(t, s)` holds a MIDI clip.
    pub fn sync_midi_clip(&self, track_idx: usize, scene_idx: usize) -> (r: Option<MatrixCommand>)
        ensures
            r matches Some(c) ==> c.model() == midi_sync(self.slot_opt(track_idx as int, scene_idx as int), track_idx, scene_idx)->0,
            r is Some <==> midi_sync(self.slot_opt(track_idx as int, scene_idx as int), track_idx, scene_idx) is Some,
    {
        if track_idx < self.grid.len() && scene_idx < self.grid[track_idx].len() {
            match &self.grid[track_idx][scene_idx].clip {
                Some(clip) => match &clip.content {
                    ClipData::Midi { notes } => Some(
                        MatrixCommand::UpdateMidiClipNotes { track_idx, scene_idx, notes: copy_notes(notes) },
                    ),
                    ClipData::Audio { .. } => None,
                },
                None => None,
            }
        } else {
            None
        }
    }

    /// Copies the slot at `(t, s)` (if any) into the clipboard.
    pub fn copy_slot(&self, track_idx: usize, scene_idx: usize, clipboard: &mut MatrixClipboard)
        ensures
            final(clipboard).copied() == (match self.slot_opt(track_idx as int, scene_idx as int) {
                Some(sl) => Some(sl),
                None => old(clipboard).copied(),
            }),
    {
        if track_idx < self.grid.len() && scene_idx < self.grid[track_idx].len() {
            clipboard.copy(&self.grid[track_idx][scene_idx]);
        }
    }

    /// Empties the slot at `(t, s)` (if any); if its clip was launched or
    /// queued, the engine is told to toggle it off.
    pub fn delete_slot(&mut self, track_idx: usize, scene_idx: usize) -> (cmds: Vec<MatrixCommand>)
        requires
            old(self).wf(),
        ensures
            final(self).wf(),
            final(self).show_editor == old(self).show_editor,
            final(self).grid_model() == (match old(self).slot_opt(track_idx as int, scene_idx as int) {
                Some(_) => old(self).grid_model().update(
                    track_idx as int,
                    old(self).grid_model()[track_idx as int].update(scene_idx as int, empty_slot()),
                ),
                None => old(self).grid_model(),
            }),
            commands(cmds@) == (match old(self).slot_opt(track_idx as int, scene_idx as int) {
                Some(sl) => if launched(sl.state) {
                    seq![CommandModel::TriggerClip { track_idx, scene_idx }]
                } else {
                    Seq::empty()
                },
                None => Seq::empty(),
            }),
            final(self).tracks@ == old(self).tracks@,
            final(self).scenes@ == old(self).scenes@,
            final(self).next_clip_id == old(self).next_clip_id,
            final(self).selected_slot == old(self).selected_slot,
    {
        let mut cmds: Vec<MatrixCommand> = Vec::new();
        if track_idx < self.grid.len() && scene_idx < self.grid[track_idx].len() {
            let st = self.grid[track_idx][scene_idx].state;
            let was_active = st == SlotState::Playing || st == SlotState::QueuedToPlay || st
                == SlotState::QueuedToStop;
            self.set_slot(track_idx, scene_idx, MatrixSlot::new());
            if was_active {
                cmds.push(MatrixCommand::TriggerClip { track_idx, scene_idx });
            }
        }
        proof {
            assert(commands(cmds@) =~= (match old(self).slot_opt(track_idx as int, scene_idx as int) {
                Some(sl) => if launched(sl.state) {
                    seq![CommandModel::TriggerClip { track_idx, scene_idx }]
                } else {
                    Seq::empty()
                },
                None => Seq::empty(),
            }));
        }
        cmds
    }

    /// Copies the slot into the clipboard, then deletes it.
    pub fn cut_slot(&mut self, track_idx: usize, scene_idx: usize, clipboard: &mut MatrixClipboard) -> (cmds: Vec<
        MatrixCommand,
    >)
        requires
            old(self).wf(),
        ensures
            final(self).wf(),
            final(self).show_editor == old(self).show_editor,
            final(clipboard).copied() == (match old(self).slot_opt(track_idx as int, scene_idx as int) {
                Some(sl) => Some(sl),
                None => old(clipboard).copied(),
            }),
            final(self).grid_model() == (match old(self).slot_opt(track_idx as int, scene_idx as int) {
                Some(_) => old(self).grid_model().update(
                    track_idx as int,
                    old(self).grid_model()[track_idx as int].update(scene_idx as int, empty_slot()),
                ),
                None => old(self).grid_model(),
            }),
            commands(cmds@) == (match old(self).slot_opt(track_idx as int, scene_idx as int) {
                Some(sl) => if launched(sl.state) {
                    seq![CommandModel::TriggerClip { track_idx, scene_idx }]
                } else {
                    Seq::empty()
                },
                None => Seq::empty(),
            }),
            final(self).tracks@ == old(self).tracks@,
            final(self).scenes@ == old(self).scenes@,
            final(self).next_clip_id == old(self).next_clip_id,
            final(self).selected_slot == old(self).selected_slot,
    {
        self.copy_slot(track_idx, scene_idx, clipboard);
        self.delete_slot(track_idx, scene_idx)
    }

    /// Pastes the clipboard's slot into `(t, s)`: the copy is stopped, its
    /// clip (if any) gets a fresh id, an audio clip is loaded into the
    /// engine under that id and a MIDI clip's notes are sent. A fresh id is
    /// used up even when the copied slot is empty. With an empty clipboard
    /// nothing happens.
    pub fn paste_slot(&mut self, track_idx: usize, scene_idx: usize, clipboard: &MatrixClipboard) -> (cmds: Vec<
        MatrixCommand,
    >)
        requires
            old(self).wf(),
            track_idx < old(self).tracks@.len(),
            scene_idx < old(self).scenes@.len(),
            old(self).next_clip_id < usize::MAX,
        ensures
            final(self).wf(),
            final(self).show_editor == old(self).show_editor,
            final(self).tracks@ == old(self).tracks@,
            final(self).scenes@ == old(self).scenes@,
            final(self).selected_slot == old(self).selected_slot,
            match clipboard.copied() {
                None => final(self).grid_model() == old(self).grid_model() && final(self).next_clip_id
                    == old(self).next_clip_id && cmds@.len() == 0,
                Some(cp) => {
                    let target = placed_copy(cp, old(self).next_clip_id);
                    &&& final(self).next_clip_id == old(self).next_clip_id + 1
                    &&& final(self).grid_model() == old(self).grid_model().update(
                        track_idx as int,
                        old(self).grid_model()[track_idx as int].update(scene_idx as int, target),
                    )
                    &&& commands(cmds@) == placement_commands(target, track_idx, scene_idx)
                },
            },
    {
        let mut cmds: Vec<MatrixCommand> = Vec::new();
        if let Some(copied) = &clipboard.copied_slot {
            let mut target_slot = clone_slot(copied);
            target_slot.state = SlotState::Stopped;
            let next_id = self.next_clip_id;
            self.next_clip_id = self.next_clip_id + 1;
            if let Some(clip) = &mut target_slot.clip {
                clip.id = next_id;
            }
            let load = match &target_slot.clip {
                Some(clip) => if !clip.is_midi() {
                    Some(MatrixCommand::LoadClip {
                        clip_id: next_id,
                        path: clip.path.clone(),
                        track_index: track_idx,
                        scene_index: scene_idx,
                    })
                } else {
                    None
                },
                None => None,
            };
            if let Some(c) = load {
                cmds.push(c);
            }
            let ghost tm = target_slot.model();
            assert(tm == placed_copy(clipboard.copied()->0, next_id));
            self.set_slot(track_idx, scene_idx, target_slot);
            assert(self.grid_model()[track_idx as int][scene_idx as int] == tm);
            assert(self.slot_opt(track_idx as int, scene_idx as int) == Some(tm));
            if let Some(c) = self.sync_midi_clip(track_idx, scene_idx) {
                cmds.push(c);
            }
            proof {
                assert(commands(cmds@) =~= placement_commands(
                    placed_copy(clipboard.copied()->0, next_id),
                    track_idx,
                    scene_idx,
                ));
            }
        }
        cmds
    }

    /// Duplicates the slot at `(t, s)` into the next scene on the same
    /// track (nothing happens in the last scene): the copy keeps the slot's
    /// state, its clip gets a fresh id and is loaded or synced as on paste.
    pub fn duplicate_slot(&mut self, track_idx: usize, scene_idx: usize) -> (cmds: Vec<MatrixCommand>)
        requires
            old(self).wf(),
            track_idx < old(self).tracks@.len(),
            scene_idx < old(self).scenes@.len(),
            old(self).next_clip_id < usize::MAX,
        ensures
            final(self).wf(),
            final(self).show_editor == old(self).show_editor,
            final(self).tracks@ == old(self).tracks@,
            final(self).scenes@ == old(self).scenes@,
            final(self).selected_slot == old(self).selected_slot,
            scene_idx + 1 >= old(self).scenes@.len() ==> final(self).grid_model() == old(self).grid_model()
                && final(self).next_clip_id == old(self).next_clip_id && cmds@.len() == 0,
            scene_idx + 1 < old(self).scenes@.len() ==> {
                let src = old(self).slot(track_idx as int, scene_idx as int);
                let target = SlotModel { state: src.state, ..placed_copy(src, old(self).next_clip_id) };
                &&& final(self).next_clip_id == old(self).next_clip_id + 1
                &&& final(self).grid_model() == old(self).grid_model().update(
                    track_idx as int,
                    old(self).grid_model()[track_idx as int].update(scene_idx + 1, target),
                )
                &&& commands(cmds@) == placement_commands(target, track_idx, (scene_idx + 1) as usize)
            },
    {
        let mut cmds: Vec<MatrixCommand> = Vec::new();
        let last = self.scenes.len() - 1;
        let target_scene = if scene_idx + 1 < last { scene_idx + 1 } else { last };
        if target_scene != scene_idx {
            let mut clip_copy = clone_slot(&self.grid[track_idx][scene_idx]);
            let next_id = self.next_clip_id;
            self.next_clip_id = self.next_clip_id + 1;
            if let Some(clip) = &mut clip_copy.clip {
                clip.id = next_id;
            }
            let load = match &clip_copy.clip {
                Some(clip) => if !clip.is_midi() {
                    Some(MatrixCommand::LoadClip {
                        clip_id: next_id,
                        path: clip.path.clone(),
                        track_index: track_idx,
                        scene_index: target_scene,
                    })
                } else {
                    None
                },
                None => None,
            };
            if let Some(c) = load {
                cmds.push(c);
            }
            let ghost cm = clip_copy.model();
            self.set_slot(track_idx, target_scene, clip_copy);
            assert(self.grid_model()[track_idx as int][target_scene as int] == cm);
            assert(self.slot_opt(track_idx as int, target_scene as int) == Some(cm));
            if let Some(c) = self.sync_midi_clip(track_idx, target_scene) {
                cmds.push(c);
            }
            proof {
                assert(commands(cmds@) =~= placement_commands(cm, track_idx, target_scene));
            }
        }
        cmds
    }

    /// Loads the file at `path` (named `name`) into slot `(t, s)`. A fresh
    /// clip id is used up in any case. An audio file dropped on a slot that
    /// already holds an audio clip becomes another event of that clip
    /// ([`ClipLoad::AppendToExisting`]); otherwise the slot gets a new,
    /// stopped clip with that id, looping over an empty region, and an
    /// audio clip is loaded into the engine while a MIDI clip's (empty)
    /// notes are sent.
    pub fn load_clip_into_slot(
        &mut self,
        track_idx: usize,
        scene_idx: usize,
        path: String,
        name: String,
        is_midi: bool,
    ) -> (r: ClipLoad)
        requires
            old(self).wf(),
            track_idx < old(self).tracks@.len(),
            scene_idx < old(self).scenes@.len(),
            old(self).next_clip_id < usize::MAX,
        ensures
            final(self).wf(),
            final(self).show_editor == old(self).show_editor,
            final(self).tracks@ == old(self).tracks@,
            final(self).scenes@ == old(self).scenes@,
            final(self).selected_slot == old(self).selected_slot,
            final(self).next_clip_id == old(self).next_clip_id + 1,
            appends_to(old(self).slot(track_idx as int, scene_idx as int), is_midi) ==> {
                &&& r is AppendToExisting
                &&& final(self).grid_model() == old(self).grid_model()
            },
            !appends_to(old(self).slot(track_idx as int, scene_idx as int), is_midi) ==> {
                let target = loaded_slot(old(self).next_clip_id, path@, name@, is_midi);
                &&& r matches ClipLoad::Placed { commands: cs } && commands(cs@) == placement_commands(
                    target,
                    track_idx,
                    scene_idx,
                )
                &&& final(self).grid_model() == old(self).grid_model().update(
                    track_idx as int,
                    old(self).grid_model()[track_idx as int].update(scene_idx as int, target),
                )
            },
    {
        let ghost pv = path@;
        let ghost nv = name@;
        let new_id = self.next_clip_id;
        self.next_clip_id = self.next_clip_id + 1;
        assert(self.grid_model() == old(self).grid_model());
        if !is_midi {
            let holds_audio = match &self.grid[track_idx][scene_idx].clip {
                Some(clip) => !clip.is_midi(),
                None => false,
            };
            if holds_audio {
                return ClipLoad::AppendToExisting;
            }
        }
        let content = if is_midi {
            ClipData::Midi { notes: Vec::new() }
        } else {
            ClipData::Audio { next_event_id: 1 }
        };
        let mut cmds: Vec<MatrixCommand> = Vec::new();
        if !is_midi {
            cmds.push(
                MatrixCommand::LoadClip {
                    clip_id: new_id,
                    path: path.clone(),
                    track_index: track_idx,
                    scene_index: scene_idx,
                },
            );
        }
        let slot = MatrixSlot {
            state: SlotState::Stopped,
            clip: Some(
                MatrixClip {
                    id: new_id,
                    name,
                    path,
                    content,
                    loop_start: 0,
                    loop_end: 0,
                    loop_enabled: true,
                    has_time_selection: true,
                },
            ),
        };
        let ghost sm = slot.model();
        assert(sm == loaded_slot(new_id, pv, nv, is_midi));
        self.set_slot(track_idx, scene_idx, slot);
        assert(self.grid_model()[track_idx as int][scene_idx as int] == sm);
        assert(self.slot_opt(track_idx as int, scene_idx as int) == Some(sm));
        if let Some(c) = self.sync_midi_clip(track_idx, scene_idx) {
            cmds.push(c);
        }
        proof {
            assert(commands(cmds@) =~= placement_commands(sm, track_idx, scene_idx));
        }
        ClipLoad::Placed { commands: cmds }
    }

    /// "New MIDI clip" on slot `(t, s)`: a fresh id is used up, the slot
    /// gets a stopped, empty MIDI clip named "Nuevo MIDI" looping ticks
    /// 0..1920 as a shown time selection, the slot is selected, and the
    /// clip is loaded into the engine with no notes.
    pub fn new_midi_clip(&mut self, track_idx: usize, scene_idx: usize) -> (cmds: Vec<MatrixCommand>)
        requires
            old(self).wf(),
            track_idx < old(self).tracks@.len(),
            scene_idx < old(self).scenes@.len(),
            old(self).next_clip_id < usize::MAX,
        ensures
            final(self).wf(),
            final(self).tracks@ == old(self).tracks@,
            final(self).scenes@ == old(self).scenes@,
            final(self).show_editor == old(self).show_editor,
            final(self).next_clip_id == old(self).next_clip_id + 1,
            final(self).selected_slot == Some((track_idx, scene_idx)),
            final(self).grid_model() == old(self).grid_model().update(
                track_idx as int,
                old(self).grid_model()[track_idx as int].update(
                    scene_idx as int,
                    new_midi_slot(old(self).next_clip_id),
                ),
            ),
            commands(cmds@) == seq![
                CommandModel::LoadMidiClip {
                    clip_id: old(self).next_clip_id,
                    track_index: track_idx,
                    scene_index: scene_idx,
                    notes: Seq::empty(),
                },
            ],
    {
        proof {
            reveal_strlit("Nuevo MIDI");
        }
        let new_id = self.next_clip_id;
        self.next_clip_id = self.next_clip_id + 1;
        let slot = MatrixSlot {
            state: SlotState::Stopped,
            clip: Some(
                MatrixClip {
                    id: new_id,
                    name: String::from_str("Nuevo MIDI"),
                    path: String::new(),
                    content: ClipData::Midi { notes: Vec::new() },
                    loop_start: 0,
                    loop_end: 1920,
                    loop_enabled: true,
                    has_time_selection: true,
                },
            ),
        };
        let ghost sm = slot.model();
        assert(sm == new_midi_slot(new_id));
        self.set_slot(track_idx, scene_idx, slot);
        self.selected_slot = Some((track_idx, scene_idx));
        let mut cmds: Vec<MatrixCommand> = Vec::new();
        cmds.push(
            MatrixCommand::LoadMidiClip {
                clip_id: new_id,
                track_index: track_idx,
                scene_index: scene_idx,
                notes: Vec::new(),
            },
        );
        proof {
            assert(commands(cmds@) =~= seq![
                CommandModel::LoadMidiClip {
                    clip_id: new_id,
                    track_index: track_idx,
                    scene_index: scene_idx,
                    notes: Seq::empty(),
                },
            ]);
        }
        cmds
    }

    /// Stops every slot of row `t` that is playing, except slot `keep`.
    fn stop_others_in_row(&mut self, t: usize, keep: usize)
        requires
            old(self).wf(),
            t < old(self).grid@.len(),
        ensures
            final(self).wf(),
            final(self).grid_model() == old(self).grid_model().update(
                t as int,
                stopped_others(old(self).grid_model()[t as int], keep as int),
            ),
            final(self).tracks@ == old(self).tracks@,
            final(self).scenes@ == old(self).scenes@,
            final(self).next_clip_id == old(self).next_clip_id,
            final(self).selected_slot == old(self).selected_slot,
            final(self).show_editor == old(self).show_editor,
    {
        let n = self.scenes.len();
        let ghost row = old(self).grid_model()[t as int];
        let mut s: usize = 0;
        proof {
            assert(partially_stopped(row, keep as int, 0) =~= row);
            assert(old(self).grid_model().update(t as int, row) =~= old(self).grid_model());
        }
        while s < n
            invariant
                self.wf(),
                n == self.scenes@.len(),
                t < self.grid@.len(),
                0 <= s <= n,
                row == old(self).grid_model()[t as int],
                row.len() == n,
                self.grid@.len() == old(self).grid@.len(),
                old(self).grid_model().len() == old(self).grid@.len(),
                self.grid_model() == old(self).grid_model().update(
                    t as int,
                    partially_stopped(row, keep as int, s as int),
                ),
                self.tracks@ == old(self).tracks@,
                self.scenes@ == old(self).scenes@,
                self.next_clip_id == old(self).next_clip_id,
                self.selected_slot == old(self).selected_slot,
                self.show_editor == old(self).show_editor,
            decreases n - s,
        {
            let ghost partial = partially_stopped(row, keep as int, s as int);
            let ghost next = partially_stopped(row, keep as int, s as int + 1);
            assert(self.grid_model() == old(self).grid_model().update(t as int, partial));
            assert(t < old(self).grid_model().len());
            assert(old(self).grid_model().update(t as int, partial)[t as int] == partial);
            assert(self.grid_model()[t as int] =~= partial);
            if s != keep && self.grid[t][s].state == SlotState::Playing {
                assert(self.grid_model()[t as int][s as int] == row[s as int]);
                self.set_state(t, s, SlotState::Stopped);
                assert(partial.update(s as int, SlotModel { state: SlotState::Stopped, ..partial[s as int] }) =~= next);
            } else {
                assert(partial =~= next);
            }
            proof {
                assert(self.grid_model() =~= old(self).grid_model().update(
                    t as int,
                    partially_stopped(row, keep as int, s as int + 1),
                ));
            }
            s = s + 1;
        }
        proof {
            assert(partially_stopped(row, keep as int, n as int)
                =~= stopped_others(row, keep as int));
        }
    }

    /// Clicks the launch button of slot `(t, s)`. A stopped clip starts
    /// (any other clip playing on the track stops, a MIDI clip's notes are
    /// sent, its bar display rewinds, the engine toggles it on); a launched
    /// or queued clip stops (the engine toggles it off). Empty slots and
    /// slots without a clip do nothing.
    pub fn trigger_pad(&mut self, track_idx: usize, scene_idx: usize) -> (cmds: Vec<MatrixCommand>)
        requires
            old(self).wf(),
        ensures
            final(self).wf(),
            final(self).show_editor == old(self).show_editor,
            final(self).tracks@ == old(self).tracks@,
            final(self).scenes@ == old(self).scenes@,
            final(self).next_clip_id == old(self).next_clip_id,
            final(self).selected_slot == old(self).selected_slot,
            final(self).grid_model() == pad_triggered_grid(old(self).grid_model(), track_idx as int, scene_idx as int),
            commands(cmds@) == pad_trigger_commands(old(self).grid_model(), track_idx, scene_idx),
    {
        let mut cmds: Vec<MatrixCommand> = Vec::new();
        let has_clip = track_idx < self.grid.len() && scene_idx < self.grid[track_idx].len()
            && self.grid[track_idx][scene_idx].clip.is_some();
        if !has_clip {
            return cmds;
        }
        let ghost g0 = self.grid_model();
        let current = self.grid[track_idx][scene_idx].state;
        match current {
            SlotState::Stopped => {
                self.stop_others_in_row(track_idx, scene_idx);
                if let Some(c) = self.sync_midi_clip(track_idx, scene_idx) {
                    cmds.push(c);
                }
                self.set_state(track_idx, scene_idx, SlotState::Playing);
                cmds.push(MatrixCommand::ResetBar { track_idx, scene_idx });
                cmds.push(MatrixCommand::TriggerClip { track_idx, scene_idx });
                proof {
                    assert(self.grid_model() =~= pad_triggered_grid(g0, track_idx as int, scene_idx as int));
                    assert(commands(cmds@) =~= pad_trigger_commands(g0, track_idx, scene_idx));
                }
            },
            SlotState::Playing | SlotState::QueuedToPlay | SlotState::QueuedToStop => {
                self.set_state(track_idx, scene_idx, SlotState::Stopped);
                cmds.push(MatrixCommand::TriggerClip { track_idx, scene_idx });
                proof {
                    assert(self.grid_model() =~= pad_triggered_grid(g0, track_idx as int, scene_idx as int));
                    assert(commands(cmds@) =~= pad_trigger_commands(g0, track_idx, scene_idx));
                }
            },
            SlotState::Empty => {
                proof {
                    assert(commands(cmds@) =~= pad_trigger_commands(g0, track_idx, scene_idx));
                }
            },
        }
        cmds
    }

    /// Launches scene `s`: on every track with a clip in that scene the
    /// other playing slots stop and the scene's slot plays (its bar display
    /// rewinds and a MIDI clip's notes are sent); then the engine launches
    /// the scene.
    pub fn trigger_scene(&mut self, scene_idx: usize) -> (cmds: Vec<MatrixCommand>)
        requires
            old(self).wf(),
            scene_idx < old(self).scenes@.len(),
        ensures
            final(self).wf(),
            final(self).show_editor == old(self).show_editor,
            final(self).tracks@ == old(self).tracks@,
            final(self).scenes@ == old(self).scenes@,
            final(self).next_clip_id == old(self).next_clip_id,
            final(self).selected_slot == old(self).selected_slot,
            final(self).grid_model() == scene_launched(
                old(self).grid_model(),
                scene_idx as int,
                old(self).grid_model().len() as int,
            ),
            commands(cmds@) == scene_commands(old(self).grid_model(), scene_idx, old(self).grid@.len() as nat).push(
                CommandModel::TriggerScene { scene_idx },
            ),
    {
        let ghost g0 = self.grid_model();
        let n = self.tracks.len();
        let mut cmds: Vec<MatrixCommand> = Vec::new();
        let mut t: usize = 0;
        proof {
            assert(scene_launched(g0, scene_idx as int, 0) =~= g0);
        }
        while t < n
            invariant
                self.wf(),
                n == self.tracks@.len(),
                n == g0.len(),
                scene_idx < self.scenes@.len(),
                0 <= t <= n,
                g0 == old(self).grid_model(),
                self.grid@.len() == n,
                forall|u: int| 0 <= u < n ==> (#[trigger] g0[u]).len() == self.scenes@.len(),
                self.grid_model() == scene_launched(g0, scene_idx as int, t as int),
                commands(cmds@) == scene_commands(g0, scene_idx, t as nat),
                self.tracks@ == old(self).tracks@,
                self.scenes@ == old(self).scenes@,
                self.next_clip_id == old(self).next_clip_id,
                self.selected_slot == old(self).selected_slot,
                self.show_editor == old(self).show_editor,
            decreases n - t,
        {
            let ghost before = self.grid_model();
            let ghost c0 = commands(cmds@);
            assert(before[t as int] == g0[t as int]);
            if self.grid[t][scene_idx].clip.is_some() {
                self.stop_others_in_row(t, scene_idx);
                self.set_state(t, scene_idx, SlotState::Playing);
                cmds.push(MatrixCommand::ResetBar { track_idx: t, scene_idx });
                assert(self.grid_model()[t as int][scene_idx as int] == SlotModel { state: SlotState::Playing, ..g0[t as int][scene_idx as int] });
                assert(self.slot_opt(t as int, scene_idx as int) == Some(SlotModel { state: SlotState::Playing, ..g0[t as int][scene_idx as int] }));
                if let Some(c) = self.sync_midi_clip(t, scene_idx) {
                    cmds.push(c);
                }
                proof {
                    assert(self.grid_model() =~= scene_launched(g0, scene_idx as int, t as int + 1));
                    assert(commands(cmds@) =~= scene_commands(g0, scene_idx, (t + 1) as nat));
                }
            } else {
                proof {
                    assert(self.grid_model() =~= scene_launched(g0, scene_idx as int, t as int + 1));
                    assert(commands(cmds@) =~= scene_commands(g0, scene_idx, (t + 1) as nat));
                }
            }
            t = t + 1;
        }
        cmds.push(MatrixCommand::TriggerScene { scene_idx });
        proof {
            assert(commands(cmds@) =~= scene_commands(g0, scene_idx, n as nat).push(
                CommandModel::TriggerScene { scene_idx },
            ));
        }
        cmds
    }


    /// Stops every playing audio slot whose voice `is_active` reports as
    /// finished, and returns how many it stopped. MIDI clips do not depend
    /// on the engine's audio voices and keep playing. `is_active` is asked
    /// once about each playing audio slot.
    pub fn poll_finished_voices<F: Fn(usize, usize) -> bool>(&mut self, is_active: F) -> (r: usize)
        requires
            old(self).wf(),
            old(self).tracks@.len() * old(self).scenes@.len() <= usize::MAX,
            forall|t: usize, s: usize| #[trigger] is_active.requires((t, s)),
        ensures
            final(self).wf(),
            final(self).show_editor == old(self).show_editor,
            final(self).tracks@ == old(self).tracks@,
            final(self).scenes@ == old(self).scenes@,
            final(self).next_clip_id == old(self).next_clip_id,
            final(self).selected_slot == old(self).selected_slot,
            exists|answers: spec_fn(int, int) -> bool|
                {
                    &&& final(self).grid_model() == polled_grid(old(self).grid_model(), answers)
                    &&& r == poll_count(old(self).grid_model(), answers, old(self).grid@.len() as int)
                    &&& forall|t: int, s: int|
                        0 <= t < old(self).grid@.len() && 0 <= s < old(self).scenes@.len() && polled(
                            #[trigger] old(self).grid_model()[t][s],
                        ) ==> is_active.ensures((t as usize, s as usize), answers(t, s))
                },
    {
        let ghost g0 = self.grid_model();
        let ghost mut answers: spec_fn(int, int) -> bool = |a: int, b: int| true;
        let n = self.tracks.len();
        let m = self.scenes.len();
        let mut count: usize = 0;
        let mut t: usize = 0;
        proof {
            assert(polled_prefix(g0, answers, 0, 0) =~~= g0);
        }
        while t < n
            invariant
                self.wf(),
                n == self.tracks@.len(),
                m == self.scenes@.len(),
                n * m <= usize::MAX,
                n == g0.len(),
                0 <= t <= n,
                g0 == old(self).grid_model(),
                forall|u: int| 0 <= u < n ==> (#[trigger] g0[u]).len() == m,
                forall|tt: usize, ss: usize| #[trigger] is_active.requires((tt, ss)),
                self.grid_model() == polled_prefix(g0, answers, t as int, 0),
                count == poll_count(g0, answers, t as int),
                count <= t * m,
                forall|a: int, b: int|
                    0 <= a < t && 0 <= b < m && polled(#[trigger] g0[a][b]) ==> is_active.ensures(
                        (a as usize, b as usize),
                        answers(a, b),
                    ),
                self.tracks@ == old(self).tracks@,
                self.scenes@ == old(self).scenes@,
                self.next_clip_id == old(self).next_clip_id,
                self.selected_slot == old(self).selected_slot,
                self.show_editor == old(self).show_editor,
            decreases n - t,
        {
            let mut s: usize = 0;
            proof {
                assert(t * m + m <= n * m) by (nonlinear_arith)
                    requires
                        t < n,
                ;
            }
            while s < m
                invariant
                    self.wf(),
                    n == self.tracks@.len(),
                    m == self.scenes@.len(),
                    n == g0.len(),
                    0 <= t < n,
                    0 <= s <= m,
                    t * m + m <= usize::MAX,
                    g0 == old(self).grid_model(),
                    forall|u: int| 0 <= u < n ==> (#[trigger] g0[u]).len() == m,
                    forall|tt: usize, ss: usize| #[trigger] is_active.requires((tt, ss)),
                    self.grid_model() == polled_prefix(g0, answers, t as int, s as int),
                    count == poll_count(g0, answers, t as int) + row_poll_count(g0[t as int], answers, t as int, s as int),
                    count <= t * m + s,
                    forall|a: int, b: int|
                        ((0 <= a < t && 0 <= b < m) || (a == t && 0 <= b < s)) && polled(#[trigger] g0[a][b])
                            ==> is_active.ensures((a as usize, b as usize), answers(a, b)),
                    self.tracks@ == old(self).tracks@,
                    self.scenes@ == old(self).scenes@,
                    self.next_clip_id == old(self).next_clip_id,
                    self.selected_slot == old(self).selected_slot,
                    self.show_editor == old(self).show_editor,
                decreases m - s,
            {
                let ghost a0 = answers;
                assert(self.grid_model()[t as int][s as int] == g0[t as int][s as int]);
                let playing_audio = self.grid[t][s].state == SlotState::Playing && match &self.grid[t][s].clip {
                    Some(c) => !c.is_midi(),
                    None => true,
                };
                if playing_audio {
                    let active = is_active(t, s);
                    proof {
                        answers = |a: int, b: int| if a == t && b == s { active } else { a0(a, b) };
                        lemma_poll_frame(g0, a0, answers, t as int, s as int);
                    }
                    if !active {
                        self.set_state(t, s, SlotState::Stopped);
                        count = count + 1;
                    }
                } else {
                    proof {
                        answers = |a: int, b: int| if a == t && b == s { true } else { a0(a, b) };
                        lemma_poll_frame(g0, a0, answers, t as int, s as int);
                    }
                }
                proof {
                    assert(self.grid_model() =~~= polled_prefix(g0, answers, t as int, s as int + 1));
                }
                s = s + 1;
            }
            proof {
                assert(polled_prefix(g0, answers, t as int, m as int) =~~= polled_prefix(g0, answers, t as int + 1, 0));
                assert(t * m + m == (t + 1) * m) by (nonlinear_arith);
            }
            t = t + 1;
        }
        proof {
            assert(polled_prefix(g0, answers, n as int, 0) =~~= polled_grid(g0, answers));
        }
        count
    }
}

impl Default for SessionMatrixState {
    /// A session of eight tracks ("Track 1".."Track 8") by eight scenes
    /// ("Scene 1".."Scene 8"), all slots empty, nothing selected, the editor
    /// shown and clip ids starting at 1.
    fn default() -> (m: Self)
        ensures
            m.wf(),
            m.tracks@.len() == 8,
            m.scenes@.len() == 8,
            m.track_names() == Seq::new(8, |t: int| initial_track_name((t + 1) as nat)),
            forall|t: int| 0 <= t < 8 ==> !(#[trigger] m.tracks@[t]).muted && !m.tracks@[t].soloed,
            m.scene_names() == Seq::new(8, |s: int| scene_name((s + 1) as nat)),
            m.grid_model() == Seq::new(8, |t: int| Seq::new(8, |s: int| empty_slot())),
            m.next_clip_id == 1,
            m.selected_slot is None,
            m.show_editor,
    {
        let count: usize = 8;
        let mut tracks: Vec<TrackMeta> = Vec::new();
        let mut scenes: Vec<SceneMeta> = Vec::new();
        let mut grid: Vec<Vec<MatrixSlot>> = Vec::new();
        let mut i: usize = 0;
        while i < count
            invariant
                count == 8,
                0 <= i <= count,
                tracks@.len() == i,
                scenes@.len() == i,
                grid@.len() == i,
                forall|t: int| 0 <= t < i ==> (#[trigger] tracks@[t]).name@ == initial_track_name((t + 1) as nat),
                forall|t: int| 0 <= t < i ==> !(#[trigger] tracks@[t]).muted && !tracks@[t].soloed,
                forall|t: int| 0 <= t < i ==> (#[trigger] scenes@[t]).name@ == scene_name((t + 1) as nat),
                forall|t: int| 0 <= t < i ==> (#[trigger] grid@[t])@.len() == count,
                forall|t: int, s: int|
                    0 <= t < i && 0 <= s < count ==> (#[trigger] grid@[t]@[s]).model() == empty_slot(),
            decreases count - i,
        {
            tracks.push(TrackMeta { name: numbered("Track ", i + 1), muted: false, soloed: false });
            scenes.push(SceneMeta { name: numbered("Scene ", i + 1) });
            grid.push(empty_row(count));
            i = i + 1;
        }
        let m = SessionMatrixState {
            grid,
            tracks,
            scenes,
            next_clip_id: 1,
            selected_slot: None,
            show_editor: true,
        };
        proof {
            assert(m.track_names() =~= Seq::new(8, |t: int| initial_track_name((t + 1) as nat)));
            assert(m.scene_names() =~= Seq::new(8, |s: int| scene_name((s + 1) as nat)));
            assert(m.grid_model() =~~= Seq::new(8, |t: int| Seq::new(8, |s: int| empty_slot())));
        }
        m
    }
}

/// Whether a slot's clip is launched or queued.
pub open spec fn launched(st: SlotState) -> bool {
    st == SlotState::Playing || st == SlotState::QueuedToPlay || st == SlotState::QueuedToStop
}

/// The note update for a slot, if it holds a MIDI clip.
pub open spec fn midi_sync(slot: Option<SlotModel>, track_idx: usize, scene_idx: usize) -> Option<CommandModel> {
    match slot {
        Some(sl) => match sl.clip {
            Some(c) => match c.content {
                ContentModel::Midi { notes } => Some(CommandModel::UpdateMidiClipNotes { track_idx, scene_idx, notes }),
                ContentModel::Audio { .. } => None,
            },
            None => None,
        },
        None => None,
    }
}

/// The clipboard of the session matrix.
pub struct MatrixClipboard {
    /// The slot copied or cut last.
    pub copied_slot: Option<MatrixSlot>,
    /// Audio events copied or cut in the clip editor (to paste them into
    /// the same pad or another).
    pub copied_events: Vec<AudioEvent>,
}

impl MatrixClipboard {
    pub open spec fn copied(&self) -> Option<SlotModel> {
        match &self.copied_slot {
            Some(s) => Some(s.model()),
            None => None,
        }
    }

    pub fn new() -> (c: Self)
        ensures
            c.copied() is None,
            c.copied_events@.len() == 0,
    {
        MatrixClipboard { copied_slot: None, copied_events: Vec::new() }
    }

    pub fn copy(&mut self, slot: &MatrixSlot)
        ensures
            final(self).copied() == Some(slot.model()),
            event_models(final(self).copied_events@) == event_models(old(self).copied_events@),
    {
        self.copied_slot = Some(clone_slot(slot));
    }

    pub fn has_content(&self) -> (b: bool)
        ensures
            b == self.copied() is Some,
    {
        self.copied_slot.is_some()
    }

    /// Puts copies of `events` on the clipboard, replacing any there.
    pub fn copy_events(&mut self, events: &[AudioEvent])
        ensures
            event_models(final(self).copied_events@) == event_models(events@),
            final(self).copied() == old(self).copied(),
    {
        self.copied_events = clone_events(events);
    }

    /// Whether events are on the clipboard.
    pub fn has_events(&self) -> (b: bool)
        ensures
            b == (self.copied_events@.len() > 0),
    {
        self.copied_events.len() > 0
    }

    /// Forgets the copied slot (copied events stay).
    pub fn clear(&mut self)
        ensures
            final(self).copied() is None,
            event_models(final(self).copied_events@) == event_models(old(self).copied_events@),
    {
        self.copied_slot = None;
    }
}


/// A copied slot as placed by a paste: stopped, its clip renumbered.
pub open spec fn placed_copy(cp: SlotModel, id: usize) -> SlotModel {
    SlotModel {
        state: SlotState::Stopped,
        clip: match cp.clip {
            Some(c) => Some(ClipModel { id, ..c }),
            None => None,
        },
    }
}

/// What placing a slot's clip at `(t, s)` asks of the engine: load an audio
/// clip's file under its id, or send a MIDI clip's notes.
pub open spec fn placement_commands(slot: SlotModel, track_idx: usize, scene_idx: usize) -> Seq<CommandModel> {
    match slot.clip {
        Some(c) => match c.content {
            ContentModel::Audio { .. } => seq![
                CommandModel::LoadClip {
                    clip_id: c.id,
                    path: c.path,
                    track_index: track_idx,
                    scene_index: scene_idx,
                },
            ],
            ContentModel::Midi { notes } => seq![CommandModel::UpdateMidiClipNotes { track_idx, scene_idx, notes }],
        },
        None => Seq::empty(),
    }
}


/// Row `row` with the playing slots before `upto`, except `keep`, stopped.
pub open spec fn partially_stopped(row: Seq<SlotModel>, keep: int, upto: int) -> Seq<SlotModel> {
    Seq::new(row.len(), |j: int| if j < upto { stopped_others(row, keep)[j] } else { row[j] })
}

/// Row `row` with every playing slot but `keep` stopped.
pub open spec fn stopped_others(row: Seq<SlotModel>, keep: int) -> Seq<SlotModel> {
    Seq::new(
        row.len(),
        |j: int|
            if j != keep && row[j].state == SlotState::Playing {
                SlotModel { state: SlotState::Stopped, ..row[j] }
            } else {
                row[j]
            },
    )
}

/// Whether grid `g` has a clip at `(t, s)`.
pub open spec fn has_clip_at(g: Seq<Seq<SlotModel>>, t: int, s: int) -> bool {
    0 <= t < g.len() && 0 <= s < g[t].len() && g[t][s].clip is Some
}

/// The grid after clicking the launch button of `(t, s)`.
pub open spec fn pad_triggered_grid(g: Seq<Seq<SlotModel>>, t: int, s: int) -> Seq<Seq<SlotModel>> {
    if !has_clip_at(g, t, s) {
        g
    } else {
        match g[t][s].state {
            SlotState::Stopped => g.update(
                t,
                stopped_others(g[t], s).update(s, SlotModel { state: SlotState::Playing, ..g[t][s] }),
            ),
            SlotState::Empty => g,
            _ => g.update(t, g[t].update(s, SlotModel { state: SlotState::Stopped, ..g[t][s] })),
        }
    }
}

/// The commands of a launch-button click on `(t, s)`.
pub open spec fn pad_trigger_commands(g: Seq<Seq<SlotModel>>, t: usize, s: usize) -> Seq<CommandModel> {
    if !has_clip_at(g, t as int, s as int) {
        Seq::empty()
    } else {
        match g[t as int][s as int].state {
            SlotState::Stopped => {
                let sync = match midi_sync(Some(g[t as int][s as int]), t, s) {
                    Some(c) => seq![c],
                    None => Seq::empty(),
                };
                sync + seq![
                    CommandModel::ResetBar { track_idx: t, scene_idx: s },
                    CommandModel::TriggerClip { track_idx: t, scene_idx: s },
                ]
            },
            SlotState::Empty => Seq::empty(),
            _ => seq![CommandModel::TriggerClip { track_idx: t, scene_idx: s }],
        }
    }
}


/// Row `row` with slot `s` launched: it plays and every other playing slot stops.
pub open spec fn launched_row(row: Seq<SlotModel>, s: int) -> Seq<SlotModel> {
    stopped_others(row, s).update(s, SlotModel { state: SlotState::Playing, ..row[s] })
}

/// The grid after launching scene `s` on the tracks before `upto`.
pub open spec fn scene_launched(g: Seq<Seq<SlotModel>>, s: int, upto: int) -> Seq<Seq<SlotModel>> {
    Seq::new(
        g.len(),
        |t: int|
            if t < upto && has_clip_at(g, t, s) {
                launched_row(g[t], s)
            } else {
                g[t]
            },
    )
}

/// The commands of launching scene `s` on the tracks before `upto`: for
/// each track with a clip there, rewind its bar display and send a MIDI
/// clip's notes.
pub open spec fn scene_commands(g: Seq<Seq<SlotModel>>, s: usize, upto: nat) -> Seq<CommandModel>
    decreases upto,
{
    if upto == 0 {
        Seq::empty()
    } else {
        let t = (upto - 1) as usize;
        let prev = scene_commands(g, s, (upto - 1) as nat);
        if has_clip_at(g, t as int, s as int) {
            let sync = match midi_sync(Some(g[t as int][s as int]), t, s) {
                Some(c) => seq![c],
                None => Seq::empty(),
            };
            prev + seq![CommandModel::ResetBar { track_idx: t, scene_idx: s }] + sync
        } else {
            prev
        }
    }
}



/// Whether polling looks at a slot: it plays an audio clip (or nothing).
pub open spec fn polled(sl: SlotModel) -> bool {
    sl.state == SlotState::Playing && match sl.clip {
        Some(c) => c.content is Audio,
        None => true,
    }
}

/// Whether polling stops a slot, given the engine's answers.
pub open spec fn poll_stops(sl: SlotModel, answers: spec_fn(int, int) -> bool, t: int, s: int) -> bool {
    polled(sl) && !answers(t, s)
}

/// A slot after polling.
pub open spec fn polled_slot(sl: SlotModel, answers: spec_fn(int, int) -> bool, t: int, s: int) -> SlotModel {
    if poll_stops(sl, answers, t, s) {
        SlotModel { state: SlotState::Stopped, ..sl }
    } else {
        sl
    }
}

/// The grid after polling every slot.
pub open spec fn polled_grid(g: Seq<Seq<SlotModel>>, answers: spec_fn(int, int) -> bool) -> Seq<Seq<SlotModel>> {
    Seq::new(g.len(), |t: int| Seq::new(g[t].len(), |s: int| polled_slot(g[t][s], answers, t, s)))
}

/// The grid after polling the tracks before `t` and the first `s` slots of track `t`.
pub open spec fn polled_prefix(g: Seq<Seq<SlotModel>>, answers: spec_fn(int, int) -> bool, t: int, s: int) -> Seq<Seq<SlotModel>> {
    Seq::new(
        g.len(),
        |u: int|
            Seq::new(
                g[u].len(),
                |v: int|
                    if u < t || (u == t && v < s) {
                        polled_slot(g[u][v], answers, u, v)
                    } else {
                        g[u][v]
                    },
            ),
    )
}

/// How many of the first `n` slots of row `t` polling stops.
pub open spec fn row_poll_count(row: Seq<SlotModel>, answers: spec_fn(int, int) -> bool, t: int, n: int) -> int
    decreases n,
{
    if n <= 0 {
        0
    } else {
        row_poll_count(row, answers, t, n - 1) + if poll_stops(row[n - 1], answers, t, n - 1) {
            1int
        } else {
            0int
        }
    }
}

/// How many slots of the first `m` rows polling stops.
pub open spec fn poll_count(g: Seq<Seq<SlotModel>>, answers: spec_fn(int, int) -> bool, m: int) -> int
    decreases m,
{
    if m <= 0 {
        0
    } else {
        poll_count(g, answers, m - 1) + row_poll_count(g[m - 1], answers, m - 1, g[m - 1].len() as int)
    }
}

/// Answers that agree before `(t, s)` give the same partial poll.
proof fn lemma_poll_frame(g: Seq<Seq<SlotModel>>, a0: spec_fn(int, int) -> bool, a1: spec_fn(int, int) -> bool, t: int, s: int)
    requires
        0 <= t < g.len(),
        0 <= s,
        forall|x: int, y: int| !(x == t && y == s) ==> #[trigger] a1(x, y) == a0(x, y),
    ensures
        polled_prefix(g, a0, t, s) == polled_prefix(g, a1, t, s),
        poll_count(g, a0, t) == poll_count(g, a1, t),
        row_poll_count(g[t], a0, t, s) == row_poll_count(g[t], a1, t, s),
{
    assert(polled_prefix(g, a0, t, s) =~~= polled_prefix(g, a1, t, s));
    lemma_row_count_agree(g[t], a0, a1, t, s, s);
    lemma_count_agree(g, a0, a1, t, t, s);
}

proof fn lemma_row_count_agree(row: Seq<SlotModel>, a0: spec_fn(int, int) -> bool, a1: spec_fn(int, int) -> bool, t: int, n: int, s: int)
    requires
        n <= s,
        forall|x: int, y: int| !(x == t && y == s) ==> #[trigger] a1(x, y) == a0(x, y),
    ensures
        row_poll_count(row, a0, t, n) == row_poll_count(row, a1, t, n),
    decreases n,
{
    if n > 0 {
        lemma_row_count_agree(row, a0, a1, t, n - 1, s);
        assert(a1(t, n - 1) == a0(t, n - 1));
    }
}

proof fn lemma_row_count_any(row: Seq<SlotModel>, a0: spec_fn(int, int) -> bool, a1: spec_fn(int, int) -> bool, u: int, n: int, t: int, s: int)
    requires
        u != t,
        forall|x: int, y: int| !(x == t && y == s) ==> #[trigger] a1(x, y) == a0(x, y),
    ensures
        row_poll_count(row, a0, u, n) == row_poll_count(row, a1, u, n),
    decreases n,
{
    if n > 0 {
        lemma_row_count_any(row, a0, a1, u, n - 1, t, s);
        assert(a1(u, n - 1) == a0(u, n - 1));
    }
}

proof fn lemma_count_agree(g: Seq<Seq<SlotModel>>, a0: spec_fn(int, int) -> bool, a1: spec_fn(int, int) -> bool, m: int, t: int, s: int)
    requires
        m <= t,
        forall|x: int, y: int| !(x == t && y == s) ==> #[trigger] a1(x, y) == a0(x, y),
    ensures
        poll_count(g, a0, m) == poll_count(g, a1, m),
    decreases m,
{
    if m > 0 {
        lemma_count_agree(g, a0, a1, m - 1, t, s);
        lemma_row_count_any(g[m - 1], a0, a1, m - 1, g[m - 1].len() as int, t, s);
    }
}


/// The engine's answer about a slot: whether its voice still sounds.
pub open spec fn engine_answers<S>(engine: AudioEngine<S>) -> spec_fn(int, int) -> bool {
    |t: int, s: int| engine.slot_voice_active(t as usize, s as usize)
}

proof fn lemma_poll_answers_agree(g: Seq<Seq<SlotModel>>, a0: spec_fn(int, int) -> bool, a1: spec_fn(int, int) -> bool)
    requires
        forall|t: int, s: int| 0 <= t < g.len() && 0 <= s < g[t].len() && polled(#[trigger] g[t][s]) ==> a0(t, s) == a1(t, s),
    ensures
        polled_grid(g, a0) == polled_grid(g, a1),
        poll_count(g, a0, g.len() as int) == poll_count(g, a1, g.len() as int),
{
    assert(polled_grid(g, a0) =~~= polled_grid(g, a1));
    lemma_count_agree_polled(g, a0, a1, g.len() as int);
}

proof fn lemma_row_agree_polled(row: Seq<SlotModel>, a0: spec_fn(int, int) -> bool, a1: spec_fn(int, int) -> bool, t: int, n: int)
    requires
        n <= row.len(),
        forall|s: int| 0 <= s < row.len() && polled(#[trigger] row[s]) ==> a0(t, s) == a1(t, s),
    ensures
        row_poll_count(row, a0, t, n) == row_poll_count(row, a1, t, n),
    decreases n,
{
    if n > 0 {
        lemma_row_agree_polled(row, a0, a1, t, n - 1);
    }
}

proof fn lemma_count_agree_polled(g: Seq<Seq<SlotModel>>, a0: spec_fn(int, int) -> bool, a1: spec_fn(int, int) -> bool, m: int)
    requires
        m <= g.len(),
        forall|t: int, s: int| 0 <= t < g.len() && 0 <= s < g[t].len() && polled(#[trigger] g[t][s]) ==> a0(t, s) == a1(t, s),
    ensures
        poll_count(g, a0, m) == poll_count(g, a1, m),
    decreases m,
{
    if m > 0 {
        lemma_count_agree_polled(g, a0, a1, m - 1);
        assert forall|s: int| 0 <= s < g[m - 1].len() && polled(#[trigger] g[m - 1][s]) implies a0(m - 1, s) == a1(m - 1, s) by {}
        lemma_row_agree_polled(g[m - 1], a0, a1, m - 1, g[m - 1].len() as int);
    }
}

/// Stops the playing audio slots whose engine voice has finished (see
/// [`SessionMatrixState::poll_finished_voices`]), asking the engine, and
/// returns how many it stopped.
pub fn poll_engine_slots<S>(state: &mut SessionMatrixState, engine: &AudioEngine<S>) -> (r: usize)
    requires
        old(state).wf(),
        old(state).tracks@.len() * old(state).scenes@.len() <= usize::MAX,
    ensures
        final(state).wf(),
        final(state).show_editor == old(state).show_editor,
        final(state).grid_model() == polled_grid(old(state).grid_model(), engine_answers(*engine)),
        r == poll_count(old(state).grid_model(), engine_answers(*engine), old(state).grid@.len() as int),
        final(state).tracks@ == old(state).tracks@,
        final(state).scenes@ == old(state).scenes@,
        final(state).next_clip_id == old(state).next_clip_id,
        final(state).selected_slot == old(state).selected_slot,
{
    let ghost g0 = state.grid_model();
    let ask = |t: usize, s: usize| -> (b: bool)
        ensures
            b == engine.slot_voice_active(t, s),
        { engine.voice_active(t, s) };
    let r = state.poll_finished_voices(ask);
    proof {
        let answers = choose|answers: spec_fn(int, int) -> bool|
            {
                &&& state.grid_model() == polled_grid(g0, answers)
                &&& r == poll_count(g0, answers, g0.len() as int)
                &&& forall|t: int, s: int|
                    0 <= t < g0.len() && 0 <= s < old(state).scenes@.len() && polled(#[trigger] g0[t][s])
                        ==> ask.ensures((t as usize, s as usize), answers(t, s))
            };
        assert forall|t: int, s: int|
            0 <= t < g0.len() && 0 <= s < g0[t].len() && polled(#[trigger] g0[t][s]) implies answers(t, s)
            == engine_answers(*engine)(t, s) by {
            assert(ask.ensures((t as usize, s as usize), answers(t, s)));
        }
        lemma_poll_answers_agree(g0, answers, engine_answers(*engine));
    }
    r
}

/// What loading a file into a slot came to.
pub enum ClipLoad {
    /// The slot already holds an audio clip: the file is to be decoded and
    /// appended to it as another event.
    AppendToExisting,
    /// The slot got a new clip; these commands go to the engine.
    Placed { commands: Vec<MatrixCommand> },
}

/// Whether loading a file into a slot appends to the slot's audio clip.
pub open spec fn appends_to(sl: SlotModel, is_midi: bool) -> bool {
    !is_midi && match sl.clip {
        Some(c) => c.content is Audio,
        None => false,
    }
}

/// The slot a freshly loaded file makes: a stopped clip over an empty,
/// enabled loop region, shown as a time selection.
pub open spec fn loaded_slot(id: usize, path: Seq<char>, name: Seq<char>, is_midi: bool) -> SlotModel {
    SlotModel {
        state: SlotState::Stopped,
        clip: Some(
            ClipModel {
                id,
                name,
                path,
                content: if is_midi {
                    ContentModel::Midi { notes: Seq::empty() }
                } else {
                    ContentModel::Audio { next_event_id: 1 }
                },
                loop_start: 0,
                loop_end: 0,
                loop_enabled: true,
                has_time_selection: true,
            },
        ),
    }
}

/// Every clip in grid `g` has an id below `bound`.
pub open spec fn ids_below(g: Seq<Seq<SlotModel>>, bound: int) -> bool {
    forall|t: int, s: int|
        0 <= t < g.len() && 0 <= s < g[t].len() && (#[trigger] g[t][s]).clip is Some ==> g[t][s].clip->0.id < bound
}

/// Placing a slot whose clip carries the next free id (as paste, duplicate
/// and loading a file do) keeps every id below the raised counter, and the
/// new clip's id differs from that of every other clip in the grid.
pub proof fn law_placed_clip_id_is_fresh(g: Seq<Seq<SlotModel>>, next: usize, t: int, s: int, slot: SlotModel)
    requires
        ids_below(g, next as int),
        0 <= t < g.len(),
        0 <= s < g[t].len(),
        slot.clip is Some ==> slot.clip->0.id == next,
    ensures
        ids_below(g.update(t, g[t].update(s, slot)), next + 1),
        forall|u: int, v: int|
            0 <= u < g.len() && 0 <= v < g[u].len() && !(u == t && v == s) && (#[trigger] g.update(
                t,
                g[t].update(s, slot),
            )[u][v]).clip is Some && slot.clip is Some ==> g.update(t, g[t].update(s, slot))[u][v].clip->0.id
                != slot.clip->0.id,
{
    let g2 = g.update(t, g[t].update(s, slot));
    assert forall|u: int, v: int|
        0 <= u < g2.len() && 0 <= v < g2[u].len() && (#[trigger] g2[u][v]).clip is Some implies g2[u][v].clip->0.id
        < next + 1 by {
        if !(u == t && v == s) {
            assert(g2[u][v] == g[u][v]);
        }
    }
    assert forall|u: int, v: int|
        0 <= u < g.len() && 0 <= v < g[u].len() && !(u == t && v == s) && (#[trigger] g2[u][v]).clip is Some
            && slot.clip is Some implies g2[u][v].clip->0.id != slot.clip->0.id by {
        assert(g2[u][v] == g[u][v]);
    }
}

/// Clicking the launch button of a stopped clip twice leaves that slot as
/// it was; after the first click it is the only playing slot of its track.
pub proof fn law_pad_click_toggles(g: Seq<Seq<SlotModel>>, t: int, s: int)
    requires
        has_clip_at(g, t, s),
        g[t][s].state == SlotState::Stopped,
    ensures
        pad_triggered_grid(g, t, s)[t][s].state == SlotState::Playing,
        forall|j: int|
            0 <= j < g[t].len() && j != s ==> (#[trigger] pad_triggered_grid(g, t, s)[t][j]).state
                != SlotState::Playing,
        pad_triggered_grid(pad_triggered_grid(g, t, s), t, s)[t][s] == g[t][s],
{
    let g1 = pad_triggered_grid(g, t, s);
    assert(has_clip_at(g1, t, s));
}

/// Polling never changes a slot holding a MIDI clip, whatever the engine
/// answers: MIDI clips do not depend on the audio voices. A playing audio
/// slot whose voice has ended stops; a slot whose voice still sounds is
/// left as it was.
pub proof fn law_poll_leaves_midi_clips(
    g: Seq<Seq<SlotModel>>,
    answers: spec_fn(int, int) -> bool,
    t: int,
    s: int,
)
    requires
        0 <= t < g.len(),
        0 <= s < g[t].len(),
    ensures
        (g[t][s].clip is Some && g[t][s].clip->0.content is Midi) ==> polled_grid(g, answers)[t][s] == g[t][s],
        answers(t, s) ==> polled_grid(g, answers)[t][s] == g[t][s],
        (g[t][s].state == SlotState::Playing && g[t][s].clip is Some && g[t][s].clip->0.content is Audio
            && !answers(t, s)) ==> polled_grid(g, answers)[t][s] == (SlotModel {
            state: SlotState::Stopped,
            ..g[t][s]
        }),
{
}

/// After a scene launch, every track with a clip in that scene plays that
/// clip and nothing else.
pub proof fn law_scene_launch_one_clip_per_track(g: Seq<Seq<SlotModel>>, s: int, t: int, j: int)
    requires
        has_clip_at(g, t, s),
        0 <= j < g[t].len(),
    ensures
        (scene_launched(g, s, g.len() as int)[t][j].state == SlotState::Playing) <==> j == s,
{
}

/// The slot "New MIDI clip" makes: a stopped, empty MIDI clip named
/// "Nuevo MIDI" with no file, looping ticks 0..1920 as a shown time selection.
pub open spec fn new_midi_slot(id: usize) -> SlotModel {
    SlotModel {
        state: SlotState::Stopped,
        clip: Some(
            ClipModel {
                id,
                name: "Nuevo MIDI"@,
                path: Seq::empty(),
                content: ContentModel::Midi { notes: Seq::empty() },
                loop_start: 0,
                loop_end: 1920,
                loop_enabled: true,
                has_time_selection: true,
            },
        ),
    }
}

} // verus!
