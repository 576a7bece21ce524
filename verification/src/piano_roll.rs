//! Piano-roll note editing: grid quantization, resizing and moving notes,
//! note selection, duplication, and the playhead note trigger.

use vstd::prelude::*;
use std::collections::HashSet;
use std::collections::HashMap;
use vstd::string::StringExecFns;
use crate::open_dms::{DmsPad, OpenDms, sample_display};
use crate::text::{decimal, midi_note_name, note_name, push_decimal};
use vstd::std_specs::hash::spec_hash_keys_iter;
use vstd::std_specs::iter::IteratorSpec;

verus! {

/// One sixteenth note at 960 ticks per quarter note: the snap grid.
pub const QUANTIZE_TICKS: u64 = 240;
/// Ticks per quarter note.
pub const TICKS_PER_BEAT: u64 = 960;
/// Ticks per 4/4 bar.
pub const TICKS_PER_BAR: u64 = 3840;
/// Velocity given to notes inserted by clicking on the grid.
pub const NOTE_INSERT_VELOCITY: u8 = 100;
/// Shortest duration a resize may leave a note with (one grid step).
pub const MIN_NOTE_DURATION_TICKS: u64 = 240;
/// How far past a note's start the playhead may land and still fire it.
pub const TRIGGER_WINDOW_TICKS: u64 = 240;

/// Which edge of a selection or note is being dragged.
#[derive(Debug, Clone, Copy, PartialEq, Eq, Structural)]
pub enum SelectionDragHandle {
    NoHandle,
    Left,
    Right,
}

/// Whether the roll shows a keyboard or a drum map.
#[derive(Debug, Clone, Copy, PartialEq, Eq, Structural)]
pub enum PianoRollMode {
    Keys,
    Drums,
}

/// A note of a MIDI clip, in ticks.
#[derive(Debug, Clone)]
pub struct MidiNote {
    pub pitch: u8,
    pub start_tick: u64,
    pub duration_ticks: u64,
    pub velocity: u8,
}

// ---------------------------------------------------------------------------
// Quantization and resizing
// ---------------------------------------------------------------------------

/// `tick` rounded down to a multiple of `step` (unchanged when `step` is 0).
pub open spec fn quantized(tick: int, step: int) -> int {
    if step == 0 {
        tick
    } else {
        (tick / step) * step
    }
}

proof fn lemma_quantized_bounds(tick: int, step: int)
    requires
        0 <= tick,
        0 < step,
    ensures
        0 <= quantized(tick, step) <= tick,
        tick - quantized(tick, step) < step,
        quantized(tick, step) % step == 0,
{
    vstd::arithmetic::div_mod::lemma_fundamental_div_mod(tick, step);
    vstd::arithmetic::div_mod::lemma_mod_pos_bound(tick, step);
    vstd::arithmetic::div_mod::lemma_div_pos_is_pos(tick, step);
    vstd::arithmetic::mul::lemma_mul_is_commutative(tick / step, step);
    vstd::arithmetic::div_mod::lemma_mod_multiples_basic(tick / step, step);
    assert(0 <= (tick / step) * step) by (nonlinear_arith)
        requires
            0 <= tick / step,
            0 < step,
    ;
}

/// Rounds `tick` down to a multiple of `step`; a zero step leaves it as is.
pub fn quantize_tick(tick: u64, step: u64) -> (r: u64)
    ensures
        r == quantized(tick as int, step as int),
        r <= tick,
        step > 0 ==> r % step == 0 && tick - r < step,
{
    if step == 0 {
        return tick;
    }
    proof {
        lemma_quantized_bounds(tick as int, step as int);
    }
    (tick / step) * step
}

/// The note span `(start, duration)` after dragging its left edge to
/// `pointer_tick`: the end stays where it was, the new start snaps to the
/// grid and never comes closer to the end than one grid step. A note that
/// ends within the first step becomes `(0, max(end, step))`.
pub open spec fn resized_left(orig_start: int, orig_duration: int, pointer_tick: int) -> (int, int) {
    let end = if orig_start + orig_duration > u64::MAX {
        u64::MAX as int
    } else {
        orig_start + orig_duration
    };
    if end <= MIN_NOTE_DURATION_TICKS {
        (0, MIN_NOTE_DURATION_TICKS as int)
    } else {
        let q = quantized(pointer_tick, QUANTIZE_TICKS as int);
        let s = if q < end - MIN_NOTE_DURATION_TICKS {
            q
        } else {
            end - MIN_NOTE_DURATION_TICKS
        };
        (s, end - s)
    }
}

/// Resizes the left edge of a note; the right edge stays anchored.
pub fn resize_note_left(orig_start: u64, orig_duration: u64, pointer_tick: u64) -> (r: (u64, u64))
    ensures
        (r.0 as int, r.1 as int) == resized_left(
            orig_start as int,
            orig_duration as int,
            pointer_tick as int,
        ),
        r.1 >= MIN_NOTE_DURATION_TICKS,
{
    let end = orig_start.saturating_add(orig_duration);
    let min_dur = MIN_NOTE_DURATION_TICKS;
    if end <= min_dur {
        let d = if end > min_dur { end } else { min_dur };
        return (0, d);
    }
    let q = quantize_tick(pointer_tick, QUANTIZE_TICKS);
    let new_start = if q < end - min_dur { q } else { end - min_dur };
    let new_duration = end - new_start;
    (new_start, new_duration)
}

/// The note span after dragging its right edge to `pointer_tick`: the start
/// stays, the end snaps to the grid and is kept one grid step past the start.
pub open spec fn resized_right(orig_start: int, pointer_tick: int) -> (int, int) {
    let q = quantized(pointer_tick, QUANTIZE_TICKS as int);
    let end = if q > orig_start + MIN_NOTE_DURATION_TICKS {
        q
    } else {
        orig_start + MIN_NOTE_DURATION_TICKS
    };
    (orig_start, end - orig_start)
}

/// Resizes the right edge of a note; the left edge stays anchored.
pub fn resize_note_right(orig_start: u64, orig_duration: u64, pointer_tick: u64) -> (r: (u64, u64))
    requires
        orig_start + MIN_NOTE_DURATION_TICKS <= u64::MAX,
    ensures
        (r.0 as int, r.1 as int) == resized_right(orig_start as int, pointer_tick as int),
        r.0 == orig_start,
        r.1 >= MIN_NOTE_DURATION_TICKS,
{
    let min_dur = MIN_NOTE_DURATION_TICKS;
    let q = quantize_tick(pointer_tick, QUANTIZE_TICKS);
    let floor = orig_start + min_dur;
    let new_end = if q > floor { q } else { floor };
    let new_duration = new_end - orig_start;
    (orig_start, new_duration)
}

// ---------------------------------------------------------------------------
// Moving notes
// ---------------------------------------------------------------------------

pub open spec fn clamp_int(x: int, lo: int, hi: int) -> int {
    if x < lo {
        lo
    } else if x > hi {
        hi
    } else {
        x
    }
}

/// Where a note `(start, pitch)` lands after a drag of `delta_ticks` in time
/// and `delta_rows` rows (a row up lowers nothing: rows count downwards, so
/// the pitch becomes `pitch - delta_rows`). The start saturates at the ends
/// of the tick range and the pitch is clamped to `0..=127`.
pub open spec fn moved(start_tick: int, pitch: int, delta_ticks: int, delta_rows: int) -> (int, int) {
    (clamp_int(start_tick + delta_ticks, 0, u64::MAX as int), clamp_int(pitch - delta_rows, 0, 127))
}

/// Applies a drag delta to one note.
pub fn apply_move_delta(start_tick: u64, pitch: u8, delta_ticks: i64, delta_rows: i32) -> (r: (u64, u8))
    requires
        i32::MIN <= pitch - delta_rows <= i32::MAX,
    ensures
        (r.0 as int, r.1 as int) == moved(
            start_tick as int,
            pitch as int,
            delta_ticks as int,
            delta_rows as int,
        ),
{
    let new_start = if delta_ticks >= 0 {
        start_tick.saturating_add(delta_ticks as u64)
    } else {
        let magnitude: u64 = if delta_ticks == i64::MIN {
            9223372036854775808u64
        } else {
            (-delta_ticks) as u64
        };
        start_tick.saturating_sub(magnitude)
    };
    let p: i32 = pitch as i32 - delta_rows;
    let new_pitch: u8 = if p < 0 {
        0
    } else if p > 127 {
        127
    } else {
        p as u8
    };
    (new_start, new_pitch)
}

/// The position of the first entry of `orig` that records note `index`.
pub open spec fn first_entry_of(orig: Seq<(usize, u64, u8)>, index: usize) -> Option<int>
    decreases orig.len(),
{
    if orig.len() == 0 {
        None
    } else {
        match first_entry_of(orig.drop_last(), index) {
            Some(k) => Some(k),
            None => if orig.last().0 == index {
                Some(orig.len() - 1)
            } else {
                None
            },
        }
    }
}

/// The smallest start among the recorded notes (0 for none).
pub open spec fn min_orig_start(orig: Seq<(usize, u64, u8)>) -> int
    decreases orig.len(),
{
    if orig.len() == 0 {
        0
    } else if orig.len() == 1 {
        orig[0].1 as int
    } else {
        let m = min_orig_start(orig.drop_last());
        if orig.last().1 < m {
            orig.last().1 as int
        } else {
            m
        }
    }
}

/// The lowest pitch among the recorded notes (0 for none).
pub open spec fn min_orig_pitch(orig: Seq<(usize, u64, u8)>) -> int
    decreases orig.len(),
{
    if orig.len() == 0 {
        0
    } else if orig.len() == 1 {
        orig[0].2 as int
    } else {
        let m = min_orig_pitch(orig.drop_last());
        if orig.last().2 < m {
            orig.last().2 as int
        } else {
            m
        }
    }
}

/// The highest pitch among the recorded notes (0 for none).
pub open spec fn max_orig_pitch(orig: Seq<(usize, u64, u8)>) -> int
    decreases orig.len(),
{
    if orig.len() == 0 {
        0
    } else if orig.len() == 1 {
        orig[0].2 as int
    } else {
        let m = max_orig_pitch(orig.drop_last());
        if orig.last().2 > m {
            orig.last().2 as int
        } else {
            m
        }
    }
}

/// The sanitized `(delta_ticks, delta_rows)` of a drag of the notes in
/// `orig` (entries `(index, start, pitch)`) grabbed by note `grab_index`:
/// the grabbed note's destination is clamped at 0 and snapped down to the
/// grid, the tick delta never moves the earliest note before 0, and the row
/// delta keeps every pitch inside `0..=127`. `(0, 0)` when the grabbed note
/// is not among the entries.
pub open spec fn move_deltas(
    orig: Seq<(usize, u64, u8)>,
    grab_index: usize,
    raw_delta_ticks: int,
    raw_delta_rows: int,
) -> (int, int) {
    match first_entry_of(orig, grab_index) {
        None => (0, 0),
        Some(k) => {
            let g = orig[k].1 as int;
            let target = clamp_int(clamp_int(g + raw_delta_ticks, i64::MIN as int, i64::MAX as int), 0, i64::MAX as int);
            let d = quantized(target, QUANTIZE_TICKS as int) - g;
            let dt = if d < 0 && d < -min_orig_start(orig) {
                -min_orig_start(orig)
            } else {
                d
            };
            let dr = clamp_int(raw_delta_rows, max_orig_pitch(orig) - 127, min_orig_pitch(orig));
            (dt, dr)
        },
    }
}

proof fn lemma_prefix_step<T>(s: Seq<T>, i: int)
    requires
        0 <= i < s.len(),
    ensures
        s.take(i + 1).drop_last() == s.take(i),
        s.take(i + 1).last() == s[i],
        s.take(i + 1).len() == i + 1,
{
    assert(s.take(i + 1).drop_last() =~= s.take(i));
}

proof fn lemma_orig_bounds(orig: Seq<(usize, u64, u8)>)
    requires
        orig.len() > 0,
    ensures
        forall|i: int| 0 <= i < orig.len() ==> min_orig_start(orig) <= #[trigger] orig[i].1,
        exists|i: int| 0 <= i < orig.len() && min_orig_start(orig) == #[trigger] orig[i].1,
        0 <= min_orig_pitch(orig) <= max_orig_pitch(orig) <= 255,
    decreases orig.len(),
{
    if orig.len() > 1 {
        lemma_orig_bounds(orig.drop_last());
        let m = min_orig_start(orig.drop_last());
        let w = choose|i: int| 0 <= i < orig.drop_last().len() && m == #[trigger] orig.drop_last()[i].1;
        assert(orig[w] == orig.drop_last()[w]);
        assert forall|i: int| 0 <= i < orig.len() implies min_orig_start(orig) <= #[trigger] orig[i].1 by {
            if i < orig.len() - 1 {
                assert(orig[i] == orig.drop_last()[i]);
            }
        }
        if orig.last().1 < m {
            assert(min_orig_start(orig) == orig[orig.len() - 1].1);
        } else {
            assert(min_orig_start(orig) == orig[w].1);
        }
    } else {
        assert(min_orig_start(orig) == orig[0].1);
    }
}

/// Computes the sanitized deltas of a note drag (see [`move_deltas`]).
pub fn compute_note_move_deltas(
    orig: &[(usize, u64, u8)],
    grab_index: usize,
    raw_delta_ticks: i64,
    raw_delta_rows: i32,
) -> (r: (i64, i32))
    requires
        forall|i: int| 0 <= i < orig@.len() ==> #[trigger] orig@[i].1 <= i64::MAX,
        max_orig_pitch(orig@) - 127 <= min_orig_pitch(orig@),
    ensures
        (r.0 as int, r.1 as int) == move_deltas(
            orig@,
            grab_index,
            raw_delta_ticks as int,
            raw_delta_rows as int,
        ),
{
    let n = orig.len();
    // Find the grabbed note and the extremes of the recorded notes.
    let mut grab: Option<u64> = None;
    let mut min_start: u64 = 0;
    let mut min_pitch: u8 = 0;
    let mut max_pitch: u8 = 0;
    let mut i: usize = 0;
    while i < n
        invariant
            n == orig@.len(),
            0 <= i <= n,
            forall|j: int| 0 <= j < orig@.len() ==> #[trigger] orig@[j].1 <= i64::MAX,
            grab == (match first_entry_of(orig@.take(i as int), grab_index) {
                Some(k) => Some(orig@[k].1),
                None => None::<u64>,
            }),
            forall|k: int| #[trigger] first_entry_of(orig@.take(i as int), grab_index) == Some(k) ==> 0 <= k < i,
            min_start == min_orig_start(orig@.take(i as int)),
            min_pitch == min_orig_pitch(orig@.take(i as int)),
            max_pitch == max_orig_pitch(orig@.take(i as int)),
        decreases n - i,
    {
        proof {
            lemma_prefix_step(orig@, i as int);
        }
        let (idx, start, pitch) = orig[i];
        if grab.is_none() && idx == grab_index {
            grab = Some(start);
        }
        if i == 0 {
            min_start = start;
            min_pitch = pitch;
            max_pitch = pitch;
        } else {
            if start < min_start {
                min_start = start;
            }
            if pitch < min_pitch {
                min_pitch = pitch;
            }
            if pitch > max_pitch {
                max_pitch = pitch;
            }
        }
        i = i + 1;
    }
    proof {
        assert(orig@.take(n as int) =~= orig@);
    }
    let grab_start = match grab {
        Some(s) => s,
        None => {
            return (0, 0);
        },
    };
    proof {
        lemma_orig_bounds(orig@);
    }
    let g: i64 = grab_start as i64;
    let sum: i128 = g as i128 + raw_delta_ticks as i128;
    let target: i64 = if sum < 0 {
        0
    } else if sum > i64::MAX as i128 {
        i64::MAX
    } else {
        sum as i64
    };
    let snapped: u64 = quantize_tick(target as u64, QUANTIZE_TICKS);
    let mut delta_ticks: i64 = snapped as i64 - g;
    if delta_ticks < 0 {
        let floor: i64 = -(min_start as i64);
        if delta_ticks < floor {
            delta_ticks = floor;
        }
    }
    let lo: i32 = max_pitch as i32 - 127;
    let hi: i32 = min_pitch as i32;
    let delta_rows: i32 = if raw_delta_rows < lo {
        lo
    } else if raw_delta_rows > hi {
        hi
    } else {
        raw_delta_rows
    };
    (delta_ticks, delta_rows)
}

// ---------------------------------------------------------------------------
// Selection and duplication
// ---------------------------------------------------------------------------

/// The note selection after clicking note `index`: Shift (`additive`) adds
/// it; a plain click on an unselected note selects it alone; a plain click
/// on an already selected note keeps the multi-selection.
pub open spec fn selection_after_click(selected: Set<usize>, index: usize, additive: bool) -> Set<usize> {
    if additive {
        selected.insert(index)
    } else if selected.contains(index) {
        selected
    } else {
        Set::empty().insert(index)
    }
}

/// Updates the note selection for a click on note `index`.
pub fn select_note_set(selected: &mut HashSet<usize>, index: usize, additive: bool)
    ensures
        final(selected)@ == selection_after_click(old(selected)@, index, additive),
{
    broadcast use vstd::std_specs::hash::group_hash_axioms;

    if additive {
        selected.insert(index);
    } else if !selected.contains(&index) {
        selected.clear();
        selected.insert(index);
    }
}

/// The selected positions below `n`, in increasing order.
pub open spec fn chosen_indices(n: nat, selected: Set<usize>) -> Seq<usize>
    decreases n,
{
    if n == 0 {
        Seq::empty()
    } else {
        let p = chosen_indices((n - 1) as nat, selected);
        if selected.contains((n - 1) as usize) {
            p.push((n - 1) as usize)
        } else {
            p
        }
    }
}

/// The earliest start among the notes at positions `idx`.
pub open spec fn block_start(notes: Seq<MidiNote>, idx: Seq<usize>) -> int
    decreases idx.len(),
{
    if idx.len() == 0 {
        0
    } else if idx.len() == 1 {
        notes[idx[0] as int].start_tick as int
    } else {
        let m = block_start(notes, idx.drop_last());
        let s = notes[idx.last() as int].start_tick as int;
        if s < m {
            s
        } else {
            m
        }
    }
}

/// The latest end (start + duration) among the notes at positions `idx`.
pub open spec fn block_end(notes: Seq<MidiNote>, idx: Seq<usize>) -> int
    decreases idx.len(),
{
    if idx.len() == 0 {
        0
    } else if idx.len() == 1 {
        notes[idx[0] as int].start_tick + notes[idx[0] as int].duration_ticks
    } else {
        let m = block_end(notes, idx.drop_last());
        let e = notes[idx.last() as int].start_tick + notes[idx.last() as int].duration_ticks;
        if e > m {
            e
        } else {
            m
        }
    }
}

/// A copy of `n` shifted later by `shift` ticks (saturating).
pub open spec fn shifted_note(n: MidiNote, shift: int) -> MidiNote {
    MidiNote {
        pitch: n.pitch,
        start_tick: clamp_int(n.start_tick + shift, 0, u64::MAX as int) as u64,
        duration_ticks: n.duration_ticks,
        velocity: n.velocity,
    }
}

/// The copies that duplicating the selection appends: the selected notes in
/// index order, each shifted by the length of the block they span
/// (earliest start to latest end), so the copy follows the copied block.
pub open spec fn duplicated_notes(notes: Seq<MidiNote>, selected: Set<usize>) -> Seq<MidiNote> {
    let idx = chosen_indices(notes.len(), selected);
    let shift = block_end(notes, idx) - block_start(notes, idx);
    Seq::new(idx.len(), |k: int| shifted_note(notes[idx[k] as int], shift))
}

proof fn lemma_chosen_indices(n: nat, selected: Set<usize>)
    ensures
        forall|k: int|
            0 <= k < chosen_indices(n, selected).len() ==> (#[trigger] chosen_indices(n, selected)[k]) < n
                && selected.contains(chosen_indices(n, selected)[k]),
    decreases n,
{
    if n > 0 {
        lemma_chosen_indices((n - 1) as nat, selected);
        let p = chosen_indices((n - 1) as nat, selected);
        assert forall|k: int| 0 <= k < chosen_indices(n, selected).len() implies (#[trigger] chosen_indices(n, selected)[k]) < n
                && selected.contains(chosen_indices(n, selected)[k]) by {
            if k < p.len() {
                assert(chosen_indices(n, selected)[k] == p[k]);
            }
        }
    }
}

proof fn lemma_block_bounds(notes: Seq<MidiNote>, idx: Seq<usize>)
    requires
        idx.len() > 0,
        forall|k: int| 0 <= k < idx.len() ==> #[trigger] idx[k] < notes.len(),
    ensures
        exists|k: int| 0 <= k < idx.len() && block_start(notes, idx) == #[trigger] notes[idx[k] as int].start_tick,
        exists|k: int|
            0 <= k < idx.len() && block_end(notes, idx) == notes[#[trigger] idx[k] as int].start_tick
                + notes[idx[k] as int].duration_ticks,
        block_start(notes, idx) <= block_end(notes, idx),
    decreases idx.len(),
{
    if idx.len() == 1 {
        assert(block_start(notes, idx) == notes[idx[0] as int].start_tick);
        assert(block_end(notes, idx) == notes[idx[0] as int].start_tick + notes[idx[0] as int].duration_ticks);
    } else {
        let p = idx.drop_last();
        assert forall|k: int| 0 <= k < p.len() implies #[trigger] p[k] < notes.len() by {
            assert(p[k] == idx[k]);
        }
        lemma_block_bounds(notes, p);
        let a = choose|k: int| 0 <= k < p.len() && block_start(notes, p) == #[trigger] notes[p[k] as int].start_tick;
        let b = choose|k: int| 0 <= k < p.len() && block_end(notes, p) == notes[#[trigger] p[k] as int].start_tick + notes[p[k] as int].duration_ticks;
        assert(p[a] == idx[a]);
        assert(p[b] == idx[b]);
        let l = idx.len() - 1;
        assert(idx.last() == idx[l]);
        if notes[idx[l] as int].start_tick < block_start(notes, p) {
            assert(block_start(notes, idx) == notes[idx[l] as int].start_tick);
        } else {
            assert(block_start(notes, idx) == notes[idx[a] as int].start_tick);
        }
        if notes[idx[l] as int].start_tick + notes[idx[l] as int].duration_ticks > block_end(notes, p) {
            assert(block_end(notes, idx) == notes[idx[l] as int].start_tick + notes[idx[l] as int].duration_ticks);
        } else {
            assert(block_end(notes, idx) == notes[idx[b] as int].start_tick + notes[idx[b] as int].duration_ticks);
        }
    }
}

/// Duplicates the selected notes right after the block they occupy and
/// returns the positions of the copies. Positions past the end of `notes`
/// are ignored; with nothing selected the notes are left alone.
pub fn duplicate_selected_notes(notes: &mut Vec<MidiNote>, selected: &HashSet<usize>) -> (new_indices: Vec<usize>)
    requires
        forall|i: int|
            0 <= i < old(notes)@.len() && selected@.contains(i as usize) ==> #[trigger] old(notes)@[i].start_tick
                + old(notes)@[i].duration_ticks <= u64::MAX,
    ensures
        final(notes)@ == old(notes)@ + duplicated_notes(old(notes)@, selected@),
        new_indices@ == Seq::new(
            duplicated_notes(old(notes)@, selected@).len(),
            |k: int| (old(notes)@.len() + k) as usize,
        ),
{
    broadcast use vstd::std_specs::hash::group_hash_axioms;

    let ghost orig = notes@;
    let n = notes.len();
    // Selected positions in increasing order.
    let mut sorted: Vec<usize> = Vec::new();
    let mut i: usize = 0;
    while i < n
        invariant
            n == notes@.len(),
            notes@ == orig,
            0 <= i <= n,
            sorted@ == chosen_indices(i as nat, selected@),
        decreases n - i,
    {
        if selected.contains(&i) {
            sorted.push(i);
        }
        i = i + 1;
    }
    let ghost idx = sorted@;
    proof {
        lemma_chosen_indices(n as nat, selected@);
    }
    if sorted.len() == 0 {
        proof {
            assert(duplicated_notes(orig, selected@) =~= Seq::<MidiNote>::empty());
            assert(orig + Seq::<MidiNote>::empty() =~= orig);
        }
        return Vec::new();
    }
    // The block the selection spans.
    let m = sorted.len();
    let mut min_start: u64 = 0;
    let mut max_end: u64 = 0;
    let mut k: usize = 0;
    while k < m
        invariant
            m == sorted@.len(),
            sorted@ == idx,
            notes@ == orig,
            n == orig.len(),
            0 <= k <= m,
            forall|j: int| 0 <= j < idx.len() ==> (#[trigger] idx[j]) < n && selected@.contains(idx[j]),
            forall|i: int|
                0 <= i < orig.len() && selected@.contains(i as usize) ==> #[trigger] orig[i].start_tick
                    + orig[i].duration_ticks <= u64::MAX,
            k > 0 ==> min_start == block_start(orig, idx.take(k as int)),
            k > 0 ==> max_end == block_end(orig, idx.take(k as int)),
        decreases m - k,
    {
        proof {
            lemma_prefix_step(idx, k as int);
        }
        let j = sorted[k];
        let s = notes[j].start_tick;
        let e = notes[j].start_tick + notes[j].duration_ticks;
        if k == 0 {
            min_start = s;
            max_end = e;
        } else {
            if s < min_start {
                min_start = s;
            }
            if e > max_end {
                max_end = e;
            }
        }
        k = k + 1;
    }
    proof {
        assert(idx.take(m as int) =~= idx);
        lemma_block_bounds(orig, idx);
    }
    let duration_block = max_end - min_start;
    let ghost copies = duplicated_notes(orig, selected@);
    assert(copies.len() == m);
    let mut new_indices: Vec<usize> = Vec::new();
    let mut k: usize = 0;
    while k < m
        invariant
            m == sorted@.len(),
            sorted@ == idx,
            n == orig.len(),
            copies == duplicated_notes(orig, selected@),
            idx == chosen_indices(orig.len(), selected@),
            copies.len() == m,
            duration_block == block_end(orig, idx) - block_start(orig, idx),
            forall|j: int| 0 <= j < idx.len() ==> (#[trigger] idx[j]) < n,
            0 <= k <= m,
            notes@ == orig + copies.take(k as int),
            new_indices@ == Seq::new(k as nat, |j: int| (n + j) as usize),
        decreases m - k,
    {
        let j = sorted[k];
        proof {
            assert(j < n);
            assert(orig[j as int] == (orig + copies.take(k as int))[j as int]);
        }
        let src = &notes[j];
        let copy = MidiNote {
            pitch: src.pitch,
            start_tick: src.start_tick.saturating_add(duration_block),
            duration_ticks: src.duration_ticks,
            velocity: src.velocity,
        };
        proof {
            assert(idx[k as int] == j);
            assert(copies[k as int] == shifted_note(orig[j as int], duration_block as int));
            assert(copy.start_tick == copies[k as int].start_tick);
            assert(copy == copies[k as int]);
        }
        notes.push(copy);
        new_indices.push(notes.len() - 1);
        proof {
            assert(copies.take(k as int).push(copies[k as int]) =~= copies.take(k as int + 1));
            assert(new_indices@ =~= Seq::new(k as nat + 1, |j: int| (n + j) as usize));
        }
        k = k + 1;
    }
    proof {
        assert(copies.take(m as int) =~= copies);
    }
    new_indices
}

// ---------------------------------------------------------------------------
// Playhead triggering
// ---------------------------------------------------------------------------

/// Whether the playhead moving from `prev_tick` to `current_tick` crossed a
/// note starting at `start_tick`: it lands within one grid step at or after
/// the start, coming either from before the start or from a backward jump
/// (loop wrap or seek). A playhead that already stood on the start does not
/// fire again.
pub open spec fn crossed(prev_tick: int, current_tick: int, start_tick: int) -> bool {
    (prev_tick < start_tick || prev_tick > current_tick) && current_tick >= start_tick && current_tick
        < start_tick + TRIGGER_WINDOW_TICKS
}

/// Whether a note's start was crossed by the playhead in this frame.
pub fn note_just_crossed(prev_tick: u64, current_tick: u64, start_tick: u64) -> (b: bool)
    requires
        start_tick + TRIGGER_WINDOW_TICKS <= u64::MAX,
    ensures
        b == crossed(prev_tick as int, current_tick as int, start_tick as int),
{
    (prev_tick < start_tick || prev_tick > current_tick) && current_tick >= start_tick && current_tick
        < start_tick + TRIGGER_WINDOW_TICKS
}

// ---------------------------------------------------------------------------
// Editor state
// ---------------------------------------------------------------------------

/// The editing state of the piano roll, in ticks and note positions.
/// (View geometry such as zoom and pointer positions lives with the GUI.)
pub struct PianoRollState {
    pub mode: PianoRollMode,
    pub notes: Vec<MidiNote>,
    pub drum_map: HashMap<u8, String>,
    pub playhead_tick: u64,
    pub prev_playhead_tick: u64,
    /// Start of the time selection, in ticks.
    pub selection_start_tick: u64,
    /// End of the time selection, in ticks.
    pub selection_end_tick: u64,
    /// Whether a time selection is active.
    pub selection_active: bool,
    /// Whether the time selection is being dragged out.
    pub selection_dragging: bool,
    /// Translucent selection shown while Shift+Drag lasts.
    pub selection_preview_start_ticks: u64,
    pub selection_preview_end_ticks: u64,
    pub selection_preview_active: bool,
    /// Edge of the time selection being dragged.
    pub selection_drag_handle: SelectionDragHandle,
    /// Whether the time selection loops.
    pub loop_enabled: bool,
    /// Transport tick at which the loop started.
    pub loop_transport_start_tick: u64,
    /// Whether a note edge is being dragged.
    pub note_resize_active: bool,
    /// Which edge of the note is dragged.
    pub note_resize_handle: SelectionDragHandle,
    /// Position in `notes` of the note being resized.
    pub note_resize_index: Option<usize>,
    /// The note's span when the resize began.
    pub note_resize_orig_start: u64,
    pub note_resize_orig_duration: u64,
    /// The span shown while the drag lasts.
    pub note_resize_preview_start: u64,
    pub note_resize_preview_duration: u64,
    /// Positions of the selected notes (marquee / click selection).
    pub selected_notes: HashSet<usize>,
    /// Whether a marquee is being dragged.
    pub note_marquee_active: bool,
    /// Whether the marquee adds to the selection (Shift) or replaces it.
    pub note_marquee_additive: bool,
    /// The matrix slot the notes were loaded from.
    pub notes_source_slot: Option<(usize, usize)>,
    /// Whether selected notes are being moved.
    pub note_move_active: bool,
    /// Position of the note grabbed to start the move.
    pub note_move_grab_index: Option<usize>,
    /// `(position, start_tick, pitch)` of each moved note when the move began.
    pub note_move_orig: Vec<(usize, u64, u8)>,
    /// Previewed tick delta (already snapped).
    pub note_move_preview_delta_ticks: i64,
    /// Previewed row delta (semitones).
    pub note_move_preview_delta_rows: i32,
}

impl PianoRollState {
    /// Whether no time selection, loop, note resize or note move is in progress.
    pub open spec fn time_selection_cleared(&self) -> bool {
        &&& self.selection_start_tick == 0
        &&& self.selection_end_tick == 0
        &&& !self.selection_active
        &&& !self.selection_dragging
        &&& self.selection_preview_start_ticks == 0
        &&& self.selection_preview_end_ticks == 0
        &&& !self.selection_preview_active
        &&& self.selection_drag_handle == SelectionDragHandle::NoHandle
        &&& !self.loop_enabled
        &&& self.loop_transport_start_tick == 0
        &&& !self.note_resize_active
        &&& self.note_resize_handle == SelectionDragHandle::NoHandle
        &&& self.note_resize_index is None
        &&& self.note_resize_preview_start == 0
        &&& self.note_resize_preview_duration == 0
        &&& self.move_cleared()
    }

    /// Whether no note move is in progress.
    pub open spec fn move_cleared(&self) -> bool {
        &&& !self.note_move_active
        &&& self.note_move_grab_index is None
        &&& self.note_move_orig@.len() == 0
        &&& self.note_move_preview_delta_ticks == 0
        &&& self.note_move_preview_delta_rows == 0
    }

    /// Whether no note is selected and no marquee or move is in progress.
    pub open spec fn note_selection_cleared(&self) -> bool {
        &&& self.selected_notes@ == Set::<usize>::empty()
        &&& !self.note_marquee_active
        &&& !self.note_marquee_additive
        &&& self.move_cleared()
    }

    /// The notes, the playhead, the drum map, the mode and the note
    /// selection, which clearing the time selection leaves alone.
    pub open spec fn same_content(&self, other: &Self) -> bool {
        &&& self.mode == other.mode
        &&& self.notes@ == other.notes@
        &&& self.drum_map@ == other.drum_map@
        &&& self.playhead_tick == other.playhead_tick
        &&& self.prev_playhead_tick == other.prev_playhead_tick
        &&& self.notes_source_slot == other.notes_source_slot
        &&& self.note_resize_orig_start == other.note_resize_orig_start
        &&& self.note_resize_orig_duration == other.note_resize_orig_duration
    }

    /// Clears the time selection, its loop, and any note resize or move.
    pub fn clear_selection(&mut self)
        ensures
            final(self).time_selection_cleared(),
            final(self).same_content(old(self)),
            final(self).selected_notes@ == old(self).selected_notes@,
            final(self).note_marquee_active == old(self).note_marquee_active,
            final(self).note_marquee_additive == old(self).note_marquee_additive,
    {
        self.selection_start_tick = 0;
        self.selection_end_tick = 0;
        self.selection_active = false;
        self.selection_dragging = false;
        self.selection_preview_start_ticks = 0;
        self.selection_preview_end_ticks = 0;
        self.selection_preview_active = false;
        self.selection_drag_handle = SelectionDragHandle::NoHandle;
        self.loop_enabled = false;
        self.loop_transport_start_tick = 0;
        self.note_resize_active = false;
        self.note_resize_handle = SelectionDragHandle::NoHandle;
        self.note_resize_index = None;
        self.note_resize_preview_start = 0;
        self.note_resize_preview_duration = 0;
        self.note_move_active = false;
        self.note_move_grab_index = None;
        self.note_move_orig.clear();
        self.note_move_preview_delta_ticks = 0;
        self.note_move_preview_delta_rows = 0;
    }

    /// Clears only the note selection (marquee and move), not the time selection.
    pub fn clear_note_selection(&mut self)
        ensures
            final(self).note_selection_cleared(),
            final(self).same_content(old(self)),
            final(self).selection_start_tick == old(self).selection_start_tick,
            final(self).selection_end_tick == old(self).selection_end_tick,
            final(self).selection_active == old(self).selection_active,
            final(self).loop_enabled == old(self).loop_enabled,
            final(self).note_resize_active == old(self).note_resize_active,
            final(self).note_resize_index == old(self).note_resize_index,
            final(self).selection_dragging == old(self).selection_dragging,
            final(self).selection_preview_start_ticks == old(self).selection_preview_start_ticks,
            final(self).selection_preview_end_ticks == old(self).selection_preview_end_ticks,
            final(self).selection_preview_active == old(self).selection_preview_active,
            final(self).selection_drag_handle == old(self).selection_drag_handle,
            final(self).loop_transport_start_tick == old(self).loop_transport_start_tick,
            final(self).note_resize_handle == old(self).note_resize_handle,
            final(self).note_resize_preview_start == old(self).note_resize_preview_start,
            final(self).note_resize_preview_duration == old(self).note_resize_preview_duration,
    {
        self.selected_notes.clear();
        self.note_marquee_active = false;
        self.note_marquee_additive = false;
        self.note_move_active = false;
        self.note_move_grab_index = None;
        self.note_move_orig.clear();
        self.note_move_preview_delta_ticks = 0;
        self.note_move_preview_delta_rows = 0;
    }
}

impl Default for PianoRollState {
    fn default() -> (s: Self)
        ensures
            s.mode == PianoRollMode::Keys,
            s.notes@.len() == 0,
            s.drum_map@ == Map::<u8, String>::empty(),
            s.playhead_tick == 0,
            s.prev_playhead_tick == 0,
            s.time_selection_cleared(),
            s.note_selection_cleared(),
            s.notes_source_slot is None,
            s.note_resize_orig_start == 0,
            s.note_resize_orig_duration == 0,
    {
        PianoRollState {
            mode: PianoRollMode::Keys,
            notes: Vec::new(),
            drum_map: HashMap::new(),
            playhead_tick: 0,
            prev_playhead_tick: 0,
            selection_start_tick: 0,
            selection_end_tick: 0,
            selection_active: false,
            selection_dragging: false,
            selection_preview_start_ticks: 0,
            selection_preview_end_ticks: 0,
            selection_preview_active: false,
            selection_drag_handle: SelectionDragHandle::NoHandle,
            loop_enabled: false,
            loop_transport_start_tick: 0,
            note_resize_active: false,
            note_resize_handle: SelectionDragHandle::NoHandle,
            note_resize_index: None,
            note_resize_orig_start: 0,
            note_resize_orig_duration: 0,
            note_resize_preview_start: 0,
            note_resize_preview_duration: 0,
            selected_notes: HashSet::new(),
            note_marquee_active: false,
            note_marquee_additive: false,
            notes_source_slot: None,
            note_move_active: false,
            note_move_grab_index: None,
            note_move_orig: Vec::new(),
            note_move_preview_delta_ticks: 0,
            note_move_preview_delta_rows: 0,
        }
    }
}

/// How note `index` is drawn: the move preview (applied to the position it
/// had when the move began) and then the resize preview override its stored
/// `(start, duration, pitch)`.
pub open spec fn note_view(state: PianoRollState, index: usize, note: MidiNote) -> (int, int, int) {
    let (s0, p0) = if state.note_move_active {
        match first_entry_of(state.note_move_orig@, index) {
            Some(k) => moved(
                state.note_move_orig@[k].1 as int,
                state.note_move_orig@[k].2 as int,
                state.note_move_preview_delta_ticks as int,
                state.note_move_preview_delta_rows as int,
            ),
            None => (note.start_tick as int, note.pitch as int),
        }
    } else {
        (note.start_tick as int, note.pitch as int)
    };
    if state.note_resize_active && state.note_resize_index == Some(index) {
        (state.note_resize_preview_start as int, state.note_resize_preview_duration as int, p0)
    } else {
        (s0, note.duration_ticks as int, p0)
    }
}

/// The `(start, duration, pitch)` with which note `index` is drawn.
pub fn effective_note_view(state: &PianoRollState, index: usize, note: &MidiNote) -> (r: (u64, u64, u8))
    requires
        forall|k: int|
            0 <= k < state.note_move_orig@.len() ==> i32::MIN <= (#[trigger] state.note_move_orig@[k]).2
                - state.note_move_preview_delta_rows <= i32::MAX,
    ensures
        (r.0 as int, r.1 as int, r.2 as int) == note_view(*state, index, *note),
{
    let mut start = note.start_tick;
    let mut duration = note.duration_ticks;
    let mut pitch = note.pitch;
    if state.note_move_active {
        let n = state.note_move_orig.len();
        let mut i: usize = 0;
        let mut found: Option<usize> = None;
        while i < n && found.is_none()
            invariant
                n == state.note_move_orig@.len(),
                0 <= i <= n,
                found is None ==> first_entry_of(state.note_move_orig@.take(i as int), index) is None,
                found matches Some(k) ==> first_entry_of(state.note_move_orig@, index) == Some(k as int) && k < n,
            decreases n - i,
        {
            proof {
                lemma_prefix_step(state.note_move_orig@, i as int);
            }
            if state.note_move_orig[i].0 == index {
                found = Some(i);
                proof {
                    lemma_first_entry_prefix(state.note_move_orig@, index, i as int + 1);
                }
            }
            i = i + 1;
        }
        proof {
            if found is None {
                assert(state.note_move_orig@.take(n as int) =~= state.note_move_orig@);
            }
        }
        if let Some(k) = found {
            let (_, orig_start, orig_pitch) = state.note_move_orig[k];
            let (ns, np) = apply_move_delta(
                orig_start,
                orig_pitch,
                state.note_move_preview_delta_ticks,
                state.note_move_preview_delta_rows,
            );
            start = ns;
            pitch = np;
        }
    }
    if state.note_resize_active && state.note_resize_index == Some(index) {
        start = state.note_resize_preview_start;
        duration = state.note_resize_preview_duration;
    }
    (start, duration, pitch)
}

/// A first match inside a prefix is the first match of the whole sequence.
proof fn lemma_first_entry_prefix(orig: Seq<(usize, u64, u8)>, index: usize, len: int)
    requires
        0 <= len <= orig.len(),
        first_entry_of(orig.take(len), index) is Some,
    ensures
        first_entry_of(orig, index) == first_entry_of(orig.take(len), index),
    decreases orig.len() - len,
{
    if len < orig.len() {
        lemma_prefix_step(orig, len);
        lemma_first_entry_prefix(orig, index, len + 1);
    } else {
        assert(orig.take(len) =~= orig);
    }
}

/// The notes whose start the playhead crossed between `prev` and `current`,
/// in note order.
pub open spec fn crossed_notes(notes: Seq<MidiNote>, prev: int, current: int) -> Seq<MidiNote>
    decreases notes.len(),
{
    if notes.len() == 0 {
        Seq::empty()
    } else {
        let p = crossed_notes(notes.drop_last(), prev, current);
        if crossed(prev, current, notes.last().start_tick as int) {
            p.push(notes.last())
        } else {
            p
        }
    }
}

/// Collects the notes the playhead crossed since the previous frame (none
/// when it did not move) and records the playhead as seen. The caller plays
/// the returned notes.
pub fn trigger_playhead_notes(state: &mut PianoRollState) -> (fired: Vec<MidiNote>)
    requires
        forall|i: int|
            0 <= i < old(state).notes@.len() ==> (#[trigger] old(state).notes@[i]).start_tick
                + TRIGGER_WINDOW_TICKS <= u64::MAX,
    ensures
        fired@ == (if old(state).playhead_tick != old(state).prev_playhead_tick {
            crossed_notes(old(state).notes@, old(state).prev_playhead_tick as int, old(state).playhead_tick as int)
        } else {
            Seq::empty()
        }),
        final(state).prev_playhead_tick == old(state).playhead_tick,
        final(state).playhead_tick == old(state).playhead_tick,
        final(state).notes@ == old(state).notes@,
        final(state).selected_notes@ == old(state).selected_notes@,
        *final(state) == (PianoRollState { prev_playhead_tick: old(state).playhead_tick, ..*old(state) }),
{
    let current_tick = state.playhead_tick;
    let prev_tick = state.prev_playhead_tick;
    let mut fired: Vec<MidiNote> = Vec::new();
    if current_tick != prev_tick {
        let n = state.notes.len();
        let mut i: usize = 0;
        while i < n
            invariant
                n == state.notes@.len(),
                0 <= i <= n,
                forall|j: int| 0 <= j < state.notes@.len() ==> (#[trigger] state.notes@[j]).start_tick
                    + TRIGGER_WINDOW_TICKS <= u64::MAX,
                fired@ == crossed_notes(state.notes@.take(i as int), prev_tick as int, current_tick as int),
                *state == *old(state),
            decreases n - i,
        {
            proof {
                lemma_prefix_step(state.notes@, i as int);
            }
            let note = &state.notes[i];
            if note_just_crossed(prev_tick, current_tick, note.start_tick) {
                fired.push(
                    MidiNote {
                        pitch: note.pitch,
                        start_tick: note.start_tick,
                        duration_ticks: note.duration_ticks,
                        velocity: note.velocity,
                    },
                );
            }
            i = i + 1;
        }
        proof {
            assert(state.notes@.take(n as int) =~= state.notes@);
        }
    }
    state.prev_playhead_tick = state.playhead_tick;
    fired
}


// ---------------------------------------------------------------------------
// Laws
// ---------------------------------------------------------------------------

/// Quantizing twice is quantizing once, and never moves a tick later.
pub proof fn law_quantize_idempotent(tick: nat, step: nat)
    requires
        step > 0,
    ensures
        quantized(quantized(tick as int, step as int), step as int) == quantized(tick as int, step as int),
        quantized(tick as int, step as int) <= tick,
{
    lemma_quantized_bounds(tick as int, step as int);
    let q = quantized(tick as int, step as int);
    lemma_quantized_bounds(q, step as int);
    vstd::arithmetic::div_mod::lemma_fundamental_div_mod(q, step as int);
    vstd::arithmetic::mul::lemma_mul_is_commutative(q / step as int, step as int);
}

/// Dragging the left edge keeps the note's end where it was (for notes
/// ending after the first grid step) and never leaves it shorter than the
/// minimum duration.
pub proof fn law_resize_left_anchors_end(orig_start: nat, orig_duration: nat, pointer_tick: nat)
    requires
        orig_start + orig_duration <= u64::MAX,
        orig_start + orig_duration > MIN_NOTE_DURATION_TICKS,
    ensures
        resized_left(orig_start as int, orig_duration as int, pointer_tick as int).0 + resized_left(
            orig_start as int,
            orig_duration as int,
            pointer_tick as int,
        ).1 == orig_start + orig_duration,
        resized_left(orig_start as int, orig_duration as int, pointer_tick as int).1 >= MIN_NOTE_DURATION_TICKS,
        resized_left(orig_start as int, orig_duration as int, pointer_tick as int).0 >= 0,
{
    lemma_quantized_bounds(pointer_tick as int, QUANTIZE_TICKS as int);
}

/// Dragging the right edge keeps the start, lands the end on the grid (or
/// one step past the start) and never shortens below the minimum.
pub proof fn law_resize_right_snaps_end(orig_start: nat, pointer_tick: nat)
    ensures
        resized_right(orig_start as int, pointer_tick as int).0 == orig_start,
        resized_right(orig_start as int, pointer_tick as int).1 >= MIN_NOTE_DURATION_TICKS,
        ({
            let end = orig_start + resized_right(orig_start as int, pointer_tick as int).1;
            end % (QUANTIZE_TICKS as int) == 0 || end == orig_start + MIN_NOTE_DURATION_TICKS
        }),
{
    lemma_quantized_bounds(pointer_tick as int, QUANTIZE_TICKS as int);
}

/// The sanitized drag deltas move every dragged note by the same amount
/// without clamping: no start goes below 0, every pitch stays in `0..=127`,
/// so the notes keep their relative offsets in time and pitch.
pub proof fn law_move_deltas_keep_notes_in_range(
    orig: Seq<(usize, u64, u8)>,
    grab_index: usize,
    raw_delta_ticks: int,
    raw_delta_rows: int,
    i: int,
)
    requires
        0 <= i < orig.len(),
        forall|j: int| 0 <= j < orig.len() ==> #[trigger] orig[j].1 <= i64::MAX,
        max_orig_pitch(orig) - 127 <= min_orig_pitch(orig),
        (orig[i].2 as int) <= 127,
        forall|j: int| 0 <= j < orig.len() ==> #[trigger] orig[j].2 <= 127,
    ensures
        ({
            let (dt, dr) = move_deltas(orig, grab_index, raw_delta_ticks, raw_delta_rows);
            &&& orig[i].1 + dt >= 0
            &&& 0 <= orig[i].2 - dr <= 127
            &&& moved(orig[i].1 as int, orig[i].2 as int, dt, dr) == (orig[i].1 + dt, orig[i].2 - dr)
        }),
{
    lemma_orig_bounds(orig);
    lemma_orig_pitch_bounds(orig);
    if let Some(k) = first_entry_of(orig, grab_index) {
        lemma_first_entry_in_range(orig, grab_index);
        let g = orig[k].1 as int;
        let target = clamp_int(clamp_int(g + raw_delta_ticks, i64::MIN as int, i64::MAX as int), 0, i64::MAX as int);
        lemma_quantized_bounds(target, QUANTIZE_TICKS as int);
    }
}

proof fn lemma_first_entry_in_range(orig: Seq<(usize, u64, u8)>, index: usize)
    ensures
        first_entry_of(orig, index) matches Some(k) ==> 0 <= k < orig.len(),
    decreases orig.len(),
{
    if orig.len() > 0 {
        lemma_first_entry_in_range(orig.drop_last(), index);
    }
}

proof fn lemma_orig_pitch_bounds(orig: Seq<(usize, u64, u8)>)
    ensures
        forall|i: int|
            0 <= i < orig.len() ==> min_orig_pitch(orig) <= #[trigger] orig[i].2 <= max_orig_pitch(orig),
    decreases orig.len(),
{
    if orig.len() > 1 {
        lemma_orig_pitch_bounds(orig.drop_last());
        assert forall|i: int| 0 <= i < orig.len() implies min_orig_pitch(orig) <= #[trigger] orig[i].2
            <= max_orig_pitch(orig) by {
            if i < orig.len() - 1 {
                assert(orig[i] == orig.drop_last()[i]);
            }
        }
    }
}

/// Duplicated notes land after the block the selection spans, keeping
/// their pitches, lengths and relative offsets.
pub proof fn law_duplicates_follow_block(notes: Seq<MidiNote>, selected: Set<usize>, k: int, l: int)
    requires
        0 <= k < duplicated_notes(notes, selected).len(),
        0 <= l < duplicated_notes(notes, selected).len(),
        2 * block_end(notes, chosen_indices(notes.len(), selected)) - block_start(
            notes,
            chosen_indices(notes.len(), selected),
        ) <= u64::MAX,
        forall|i: int|
            0 <= i < notes.len() && selected.contains(i as usize) ==> #[trigger] notes[i].start_tick
                + notes[i].duration_ticks <= u64::MAX,
    ensures
        ({
            let idx = chosen_indices(notes.len(), selected);
            let d = duplicated_notes(notes, selected);
            &&& d[k].start_tick >= block_end(notes, idx)
            &&& d[k].pitch == notes[idx[k] as int].pitch
            &&& d[k].duration_ticks == notes[idx[k] as int].duration_ticks
            &&& d[k].start_tick - d[l].start_tick == notes[idx[k] as int].start_tick - notes[idx[l] as int].start_tick
        }),
{
    let idx = chosen_indices(notes.len(), selected);
    lemma_chosen_indices(notes.len(), selected);
    lemma_block_bounds(notes, idx);
    lemma_block_start_min(notes, idx);
    lemma_block_end_max(notes, idx);
    let shift = block_end(notes, idx) - block_start(notes, idx);
    let d = duplicated_notes(notes, selected);
    assert(d[k] == shifted_note(notes[idx[k] as int], shift));
    assert(d[l] == shifted_note(notes[idx[l] as int], shift));
    assert(notes[idx[k] as int].start_tick <= block_end(notes, idx));
    assert(notes[idx[l] as int].start_tick <= block_end(notes, idx));
}

proof fn lemma_block_start_min(notes: Seq<MidiNote>, idx: Seq<usize>)
    requires
        idx.len() > 0,
    ensures
        forall|k: int| 0 <= k < idx.len() ==> block_start(notes, idx) <= #[trigger] notes[idx[k] as int].start_tick,
    decreases idx.len(),
{
    if idx.len() > 1 {
        lemma_block_start_min(notes, idx.drop_last());
        assert forall|k: int| 0 <= k < idx.len() implies block_start(notes, idx) <= #[trigger] notes[idx[k] as int].start_tick by {
            if k < idx.len() - 1 {
                assert(idx[k] == idx.drop_last()[k]);
            }
        }
    }
}

proof fn lemma_block_end_max(notes: Seq<MidiNote>, idx: Seq<usize>)
    requires
        idx.len() > 0,
    ensures
        forall|k: int|
            0 <= k < idx.len() ==> block_end(notes, idx) >= #[trigger] notes[idx[k] as int].start_tick
                + notes[idx[k] as int].duration_ticks,
    decreases idx.len(),
{
    if idx.len() > 1 {
        lemma_block_end_max(notes, idx.drop_last());
        assert forall|k: int| 0 <= k < idx.len() implies block_end(notes, idx) >= #[trigger] notes[idx[k] as int].start_tick
            + notes[idx[k] as int].duration_ticks by {
            if k < idx.len() - 1 {
                assert(idx[k] == idx.drop_last()[k]);
            }
        }
    }
}

/// A note fired by one frame is not fired again by the next frame while the
/// playhead keeps moving forward.
pub proof fn law_no_double_trigger(prev: int, current: int, next: int, start: int)
    requires
        crossed(prev, current, start),
        current <= next,
    ensures
        !crossed(current, next, start),
{
}

/// A note fires only when the playhead lands within one trigger window at
/// or after its start, whichever way the playhead moved (forward play, loop
/// wrap or seek). Landing in that window from before the start, or by a
/// backward jump, always fires it.
pub proof fn law_fires_only_inside_window(prev: int, current: int, start: int)
    ensures
        crossed(prev, current, start) ==> start <= current < start + TRIGGER_WINDOW_TICKS,
        start <= current < start + TRIGGER_WINDOW_TICKS && (prev < start || prev > current) ==> crossed(
            prev,
            current,
            start,
        ),
        prev > current && current >= start + TRIGGER_WINDOW_TICKS ==> !crossed(prev, current, start),
{
}

/// Every note fired by one frame starts at most one trigger window before
/// the playhead, and not after it.
pub proof fn law_fired_notes_inside_window(notes: Seq<MidiNote>, prev: int, current: int)
    ensures
        forall|k: int|
            0 <= k < crossed_notes(notes, prev, current).len() ==> (#[trigger] crossed_notes(
                notes,
                prev,
                current,
            )[k]).start_tick <= current < crossed_notes(notes, prev, current)[k].start_tick
                + TRIGGER_WINDOW_TICKS,
    decreases notes.len(),
{
    if notes.len() > 0 {
        law_fired_notes_inside_window(notes.drop_last(), prev, current);
        let p = crossed_notes(notes.drop_last(), prev, current);
        assert forall|k: int| 0 <= k < crossed_notes(notes, prev, current).len() implies (
        #[trigger] crossed_notes(notes, prev, current)[k]).start_tick <= current < crossed_notes(
            notes,
            prev,
            current,
        )[k].start_tick + TRIGGER_WINDOW_TICKS by {
            if k < p.len() {
                assert(crossed_notes(notes, prev, current)[k] == p[k]);
            }
        }
    }
}

/// A stationary playhead fires nothing.
pub proof fn law_stationary_playhead_fires_nothing(tick: int, start: int)
    ensures
        !crossed(tick, tick, start),
{
}

/// Clicking a note that is already selected keeps the selection.
pub proof fn law_click_selection_is_stable(selected: Set<usize>, index: usize, additive: bool)
    ensures
        selection_after_click(selection_after_click(selected, index, additive), index, false)
            == selection_after_click(selected, index, additive),
        selection_after_click(selected, index, additive).contains(index),
{
}

/// The label of a pad in the drum map: its name, followed by its sample's
/// file name when it has a sample.
pub open spec fn pad_label(p: DmsPad) -> Seq<char> {
    if p.sample() is Some {
        p.name@ + ": "@ + sample_display(p.sample())
    } else {
        p.name@
    }
}

/// The drum map of the first `n` pads: each pad's note labelled as the pad;
/// of pads sharing a note, the later one wins.
pub open spec fn drum_labels(pads: Seq<DmsPad>, n: int) -> Map<u8, Seq<char>>
    decreases n,
{
    if n <= 0 {
        Map::empty()
    } else {
        drum_labels(pads, n - 1).insert(pads[n - 1].midi_note, pad_label(pads[n - 1]))
    }
}

/// The drum map's labels as text.
pub open spec fn label_texts(m: Map<u8, String>) -> Map<u8, Seq<char>> {
    m.map_values(|s: String| s@)
}

/// Rebuilds the piano roll's drum map (note names in drum mode) from the
/// drum machine's pads; nothing else of the state changes.
pub fn sync_drum_map_from_opendms(state: &mut PianoRollState, opendms: &OpenDms)
    ensures
        label_texts(final(state).drum_map@) == drum_labels(opendms.pads@, opendms.pads@.len() as int),
        *final(state) == (PianoRollState { drum_map: final(state).drum_map, ..*old(state) }),
{
    broadcast use vstd::std_specs::hash::group_hash_axioms;
    state.drum_map.clear();
    let n = opendms.pads.len();
    let mut i: usize = 0;
    proof {
        assert(label_texts(state.drum_map@) =~= drum_labels(opendms.pads@, 0));
    }
    while i < n
        invariant
            n == opendms.pads@.len(),
            0 <= i <= n,
            label_texts(state.drum_map@) == drum_labels(opendms.pads@, i as int),
            *state == (PianoRollState { drum_map: state.drum_map, ..*old(state) }),
        decreases n - i,
    {
        let pad = &opendms.pads[i];
        let label = if pad.sample_path.is_some() {
            let mut text = pad.name.clone();
            text.append(": ");
            let file = pad.display_filename();
            text.append(file.as_str());
            text
        } else {
            pad.name.clone()
        };
        let ghost before = state.drum_map@;
        state.drum_map.insert(pad.midi_note, label);
        proof {
            assert(label_texts(state.drum_map@) =~= label_texts(before).insert(pad.midi_note, pad_label(*pad)));
        }
        i = i + 1;
    }
}

// ---------------------------------------------------------------------------
// Editing gestures on the piano-roll state
// ---------------------------------------------------------------------------

/// The notes after a confirmed move: each recorded `(position, start,
/// pitch)` is moved by the deltas, later records winning; records past the
/// end of the notes are skipped.
pub open spec fn notes_after_move(notes: Seq<MidiNote>, orig: Seq<(usize, u64, u8)>, dt: int, dr: int) -> Seq<
    MidiNote,
>
    decreases orig.len(),
{
    if orig.len() == 0 {
        notes
    } else {
        let prev = notes_after_move(notes, orig.drop_last(), dt, dr);
        let (i, s0, p0) = orig.last();
        if i < prev.len() {
            let m = moved(s0 as int, p0 as int, dt, dr);
            prev.update(i as int, MidiNote { start_tick: m.0 as u64, pitch: m.1 as u8, ..prev[i as int] })
        } else {
            prev
        }
    }
}

/// Confirms the note move in progress (if any): the recorded notes take
/// their previewed positions and the move state is cleared.
pub fn commit_note_move(state: &mut PianoRollState)
    requires
        forall|k: int|
            0 <= k < old(state).note_move_orig@.len() ==> i32::MIN <= (#[trigger] old(state).note_move_orig@[k]).2
                - old(state).note_move_preview_delta_rows <= i32::MAX,
    ensures
        !old(state).note_move_active ==> *final(state) == *old(state),
        old(state).note_move_active ==> {
            &&& final(state).notes@ == notes_after_move(
                old(state).notes@,
                old(state).note_move_orig@,
                old(state).note_move_preview_delta_ticks as int,
                old(state).note_move_preview_delta_rows as int,
            )
            &&& final(state).move_cleared()
            &&& *final(state) == (PianoRollState {
                notes: final(state).notes,
                note_move_active: false,
                note_move_grab_index: None,
                note_move_orig: final(state).note_move_orig,
                note_move_preview_delta_ticks: 0,
                note_move_preview_delta_rows: 0,
                ..*old(state)
            })
        },
{
    if !state.note_move_active {
        return;
    }
    let dt = state.note_move_preview_delta_ticks;
    let dr = state.note_move_preview_delta_rows;
    let mut orig: Vec<(usize, u64, u8)> = Vec::new();
    std::mem::swap(&mut orig, &mut state.note_move_orig);
    let ghost notes0 = state.notes@;
    let n = orig.len();
    let mut k: usize = 0;
    while k < n
        invariant
            n == orig@.len(),
            0 <= k <= n,
            orig@ == old(state).note_move_orig@,
            dt == old(state).note_move_preview_delta_ticks,
            dr == old(state).note_move_preview_delta_rows,
            forall|j: int| 0 <= j < orig@.len() ==> i32::MIN <= (#[trigger] orig@[j]).2 - dr <= i32::MAX,
            state.notes@ == notes_after_move(notes0, orig@.take(k as int), dt as int, dr as int),
            notes0 == old(state).notes@,
            state.note_move_orig@.len() == 0,
            *state == (PianoRollState { notes: state.notes, note_move_orig: state.note_move_orig, ..*old(state) }),
        decreases n - k,
    {
        proof {
            assert(orig@.take(k as int + 1).drop_last() =~= orig@.take(k as int));
        }
        let (idx, s0, p0) = orig[k];
        if idx < state.notes.len() {
            let (ns, np) = apply_move_delta(s0, p0, dt, dr);
            let ghost before = state.notes@;
            state.notes[idx].start_tick = ns;
            state.notes[idx].pitch = np;
            proof {
                assert(state.notes@ =~= before.update(
                    idx as int,
                    MidiNote { start_tick: ns, pitch: np, ..before[idx as int] },
                ));
            }
        }
        k = k + 1;
    }
    proof {
        assert(orig@.take(n as int) =~= orig@);
    }
    state.note_move_active = false;
    state.note_move_grab_index = None;
    state.note_move_preview_delta_ticks = 0;
    state.note_move_preview_delta_rows = 0;
}

/// Starts resizing note `i` by the given edge, unless a resize or a move is
/// already in progress; the preview starts from the note as it is.
pub fn begin_note_resize(state: &mut PianoRollState, i: usize, handle: SelectionDragHandle)
    requires
        i < old(state).notes@.len(),
    ensures
        old(state).note_resize_active || old(state).note_move_active ==> *final(state) == *old(state),
        !old(state).note_resize_active && !old(state).note_move_active ==> *final(state) == (PianoRollState {
            note_resize_active: true,
            note_resize_handle: handle,
            note_resize_index: Some(i),
            note_resize_orig_start: old(state).notes@[i as int].start_tick,
            note_resize_orig_duration: old(state).notes@[i as int].duration_ticks,
            note_resize_preview_start: old(state).notes@[i as int].start_tick,
            note_resize_preview_duration: old(state).notes@[i as int].duration_ticks,
            ..*old(state)
        }),
{
    if state.note_resize_active || state.note_move_active {
        return;
    }
    let start = state.notes[i].start_tick;
    let duration = state.notes[i].duration_ticks;
    state.note_resize_active = true;
    state.note_resize_handle = handle;
    state.note_resize_index = Some(i);
    state.note_resize_orig_start = start;
    state.note_resize_orig_duration = duration;
    state.note_resize_preview_start = start;
    state.note_resize_preview_duration = duration;
}

/// The previewed span while an edge of a note is dragged to `pointer_tick`.
pub open spec fn resize_preview(state: PianoRollState, pointer_tick: int) -> (int, int) {
    match state.note_resize_handle {
        SelectionDragHandle::Left => resized_left(
            state.note_resize_orig_start as int,
            state.note_resize_orig_duration as int,
            pointer_tick,
        ),
        SelectionDragHandle::Right => resized_right(state.note_resize_orig_start as int, pointer_tick),
        SelectionDragHandle::NoHandle => (0, 0),
    }
}

/// Follows the pointer while an edge is dragged: the preview takes the
/// span the drag gives (nothing happens when no resize is in progress).
pub fn update_note_resize(state: &mut PianoRollState, pointer_tick: u64)
    requires
        old(state).note_resize_orig_start + MIN_NOTE_DURATION_TICKS <= u64::MAX,
    ensures
        !old(state).note_resize_active ==> *final(state) == *old(state),
        old(state).note_resize_active ==> {
            let p = resize_preview(*old(state), pointer_tick as int);
            *final(state) == (PianoRollState {
                note_resize_preview_start: p.0 as u64,
                note_resize_preview_duration: p.1 as u64,
                ..*old(state)
            })
        },
{
    if !state.note_resize_active {
        return;
    }
    let (start, duration) = match state.note_resize_handle {
        SelectionDragHandle::Left => resize_note_left(
            state.note_resize_orig_start,
            state.note_resize_orig_duration,
            pointer_tick,
        ),
        SelectionDragHandle::Right => resize_note_right(
            state.note_resize_orig_start,
            state.note_resize_orig_duration,
            pointer_tick,
        ),
        SelectionDragHandle::NoHandle => (0, 0),
    };
    state.note_resize_preview_start = start;
    state.note_resize_preview_duration = duration;
}

/// Confirms the resize: the note takes the previewed span (never shorter
/// than one grid step) and the resize state is cleared.
pub fn commit_note_resize(state: &mut PianoRollState)
    ensures
        final(state).notes@ == (match old(state).note_resize_index {
            Some(idx) => if idx < old(state).notes@.len() {
                old(state).notes@.update(
                    idx as int,
                    MidiNote {
                        start_tick: old(state).note_resize_preview_start,
                        duration_ticks: if old(state).note_resize_preview_duration > MIN_NOTE_DURATION_TICKS {
                            old(state).note_resize_preview_duration
                        } else {
                            MIN_NOTE_DURATION_TICKS
                        },
                        ..old(state).notes@[idx as int]
                    },
                )
            } else {
                old(state).notes@
            },
            None => old(state).notes@,
        }),
        *final(state) == (PianoRollState {
            notes: final(state).notes,
            note_resize_active: false,
            note_resize_handle: SelectionDragHandle::NoHandle,
            note_resize_index: None,
            ..*old(state)
        }),
{
    if let Some(idx) = state.note_resize_index {
        if idx < state.notes.len() {
            let start = state.note_resize_preview_start;
            let d = state.note_resize_preview_duration;
            let duration = if d > MIN_NOTE_DURATION_TICKS { d } else { MIN_NOTE_DURATION_TICKS };
            state.notes[idx].start_tick = start;
            state.notes[idx].duration_ticks = duration;
        }
    }
    state.note_resize_active = false;
    state.note_resize_handle = SelectionDragHandle::NoHandle;
    state.note_resize_index = None;
}

/// The pitch of grid row `row` (row 0 is the top, pitch 127), clamped to
/// the MIDI range.
pub open spec fn row_pitch(row: int) -> int {
    clamp_int(127 - row, 0, 127)
}

/// Whether a note of `pitch` covers `tick`.
pub open spec fn covers(n: MidiNote, pitch: int, tick: int) -> bool {
    n.pitch == pitch && n.start_tick <= tick < n.start_tick + n.duration_ticks
}

/// Clicking an empty grid cell at `pointer_tick` on `row` inserts a
/// one-step note there (snapped to the grid, velocity 100) unless a note
/// of that pitch already covers the snapped tick. Returns whether a note
/// was inserted.
pub fn insert_note_at(state: &mut PianoRollState, pointer_tick: u64, row: i32) -> (inserted: bool)
    requires
        old(state).notes@.len() < usize::MAX,
    ensures
        ({
            let q = quantized(pointer_tick as int, QUANTIZE_TICKS as int);
            let p = row_pitch(row as int);
            &&& inserted == !(exists|k: int|
                0 <= k < old(state).notes@.len() && covers(#[trigger] old(state).notes@[k], p, q))
            &&& final(state).notes@ == (if inserted {
                old(state).notes@.push(
                    MidiNote {
                        pitch: p as u8,
                        start_tick: q as u64,
                        duration_ticks: QUANTIZE_TICKS,
                        velocity: NOTE_INSERT_VELOCITY,
                    },
                )
            } else {
                old(state).notes@
            })
        }),
        *final(state) == (PianoRollState { notes: final(state).notes, ..*old(state) }),
{
    let q = quantize_tick(pointer_tick, QUANTIZE_TICKS);
    let r: i64 = row as i64;
    let p64: i64 = 127 - r;
    let pitch: u8 = if p64 < 0 {
        0
    } else if p64 > 127 {
        127
    } else {
        p64 as u8
    };
    assert(pitch == row_pitch(row as int));
    let n = state.notes.len();
    let mut k: usize = 0;
    while k < n
        invariant
            n == state.notes@.len(),
            0 <= k <= n,
            *state == *old(state),
            q == quantized(pointer_tick as int, QUANTIZE_TICKS as int),
            pitch == row_pitch(row as int),
            forall|j: int| 0 <= j < k ==> !covers(#[trigger] state.notes@[j], pitch as int, q as int),
        decreases n - k,
    {
        let note = &state.notes[k];
        if note.pitch == pitch && q >= note.start_tick && q - note.start_tick < note.duration_ticks {
            assert(covers(state.notes@[k as int], pitch as int, q as int));
            return false;
        }
        k = k + 1;
    }
    state.notes.push(
        MidiNote { pitch, start_tick: q, duration_ticks: QUANTIZE_TICKS, velocity: NOTE_INSERT_VELOCITY },
    );
    true
}

/// Position `i` after removing the note at `idx`.
pub open spec fn shift_down(i: usize, idx: usize) -> usize {
    if i > idx {
        (i - 1) as usize
    } else {
        i
    }
}

/// A selection after removing the note at `idx`: `idx` leaves it and the
/// positions above it move down by one.
pub open spec fn reindexed(sel: Set<usize>, idx: usize) -> Set<usize> {
    Set::new(|j: usize| exists|i: usize| sel.contains(i) && i != idx && j == shift_down(i, idx))
}

/// The selection renumbered after removing the note at `idx`.
fn reindex_selection(sel: &HashSet<usize>, idx: usize) -> (r: HashSet<usize>)
    ensures
        r@ == reindexed(sel@, idx),
{
    broadcast use vstd::std_specs::hash::group_hash_axioms;

    let mut r: HashSet<usize> = HashSet::new();
    let keys = sel.iter();
    proof {
        lemma_keys_cover(sel);
    }
    for k in it: keys
        invariant
            it.seq() == keys.remaining(),
            keys == spec_hash_keys_iter(sel),
            forall|j: usize|
                r@.contains(j) <==> exists|m: int|
                    0 <= m < it.index() && *it.seq()[m] != idx && j == shift_down(*it.seq()[m], idx),
            forall|j: usize| sel@.contains(j) <==> exists|m: int| 0 <= m < it.seq().len() && *it.seq()[m] == j,
    {
        if *k != idx {
            let v = if *k > idx { *k - 1 } else { *k };
            r.insert(v);
        }
    }
    assert(r@ =~= reindexed(sel@, idx));
    r
}

/// Right-clicking note `idx` deletes it; the selection follows the
/// renumbering of the notes after it.
pub fn delete_note(state: &mut PianoRollState, idx: usize)
    requires
        idx < old(state).notes@.len(),
    ensures
        final(state).notes@ == old(state).notes@.remove(idx as int),
        final(state).selected_notes@ == reindexed(old(state).selected_notes@, idx),
        *final(state) == (PianoRollState {
            notes: final(state).notes,
            selected_notes: final(state).selected_notes,
            ..*old(state)
        }),
{
    let _ = state.notes.remove(idx);
    let sel = reindex_selection(&state.selected_notes, idx);
    state.selected_notes = sel;
}

/// What a move records of the selected notes: `(position, start, pitch)`
/// of each, in increasing position.
pub open spec fn move_records(notes: Seq<MidiNote>, sel: Set<usize>) -> Seq<(usize, u64, u8)> {
    chosen_indices(notes.len(), sel).map_values(
        |j: usize| (j, notes[j as int].start_tick, notes[j as int].pitch),
    )
}

/// Pressing on the body of note `grab` (with Shift: `additive`) selects it
/// as a click does and starts moving the selected notes, recording where
/// each one starts. Returns whether a move started (it does whenever a
/// selected note exists, as the grabbed one always is).
pub fn begin_note_move(state: &mut PianoRollState, grab: usize, additive: bool) -> (started: bool)
    requires
        grab < old(state).notes@.len(),
    ensures
        final(state).selected_notes@ == selection_after_click(old(state).selected_notes@, grab, additive),
        started,
        *final(state) == (PianoRollState {
            selected_notes: final(state).selected_notes,
            note_move_active: true,
            note_move_grab_index: Some(grab),
            note_move_orig: final(state).note_move_orig,
            note_move_preview_delta_ticks: 0,
            note_move_preview_delta_rows: 0,
            ..*old(state)
        }),
        final(state).note_move_orig@ == move_records(old(state).notes@, final(state).selected_notes@),
{
    broadcast use vstd::std_specs::hash::group_hash_axioms;

    select_note_set(&mut state.selected_notes, grab, additive);
    let ghost sel = state.selected_notes@;
    let n = state.notes.len();
    let mut orig: Vec<(usize, u64, u8)> = Vec::new();
    let mut j: usize = 0;
    while j < n
        invariant
            n == state.notes@.len(),
            0 <= j <= n,
            sel == state.selected_notes@,
            orig@ == move_records(state.notes@.take(j as int), sel),
            chosen_indices(j as nat, sel) == move_records(state.notes@.take(j as int), sel).map_values(
                |r: (usize, u64, u8)| r.0,
            ),
            *state == (PianoRollState { selected_notes: state.selected_notes, ..*old(state) }),
        decreases n - j,
    {
        proof {
            lemma_chosen_take(state.notes@, sel, j as nat);
            lemma_chosen_take(state.notes@, sel, (j + 1) as nat);
        }
        if state.selected_notes.contains(&j) {
            orig.push((j, state.notes[j].start_tick, state.notes[j].pitch));
        }
        proof {
            assert(orig@ =~= move_records(state.notes@.take(j as int + 1), sel));
            assert(chosen_indices((j + 1) as nat, sel) =~= move_records(state.notes@.take(j as int + 1), sel).map_values(
                |r: (usize, u64, u8)| r.0,
            ));
        }
        j = j + 1;
    }
    proof {
        assert(state.notes@.take(n as int) =~= state.notes@);
        assert(sel.contains(grab));
        lemma_chosen_contains(n as nat, sel, grab);
    }
    let started = orig.len() > 0;
    if started {
        state.note_move_active = true;
        state.note_move_grab_index = Some(grab);
        state.note_move_orig = orig;
        state.note_move_preview_delta_ticks = 0;
        state.note_move_preview_delta_rows = 0;
    }
    started
}

/// Indices chosen below `n` depend only on `n`, not on what lies past it.
proof fn lemma_chosen_take(notes: Seq<MidiNote>, sel: Set<usize>, n: nat)
    requires
        n <= notes.len(),
    ensures
        chosen_indices(n, sel).len() == move_records(notes.take(n as int), sel).len(),
        forall|k: int| 0 <= k < chosen_indices(n, sel).len() ==> (#[trigger] chosen_indices(n, sel)[k]) < n,
{
    lemma_chosen_below(n, sel);
}

proof fn lemma_chosen_below(n: nat, sel: Set<usize>)
    ensures
        forall|k: int| 0 <= k < chosen_indices(n, sel).len() ==> (#[trigger] chosen_indices(n, sel)[k]) < n,
    decreases n,
{
    if n > 0 {
        lemma_chosen_below((n - 1) as nat, sel);
        let p = chosen_indices((n - 1) as nat, sel);
        assert forall|k: int| 0 <= k < chosen_indices(n, sel).len() implies (#[trigger] chosen_indices(n, sel)[k])
            < n by {
            if k < p.len() {
                assert(chosen_indices(n, sel)[k] == p[k]);
            }
        }
    }
}

/// A chosen index below `n` appears among the chosen indices.
proof fn lemma_chosen_contains(n: nat, sel: Set<usize>, i: usize)
    requires
        i < n,
        sel.contains(i),
    ensures
        chosen_indices(n, sel).len() > 0,
    decreases n,
{
    if i < n - 1 {
        lemma_chosen_contains((n - 1) as nat, sel, i);
    }
}

/// Walking a selection's keys meets exactly its members (in some order).
proof fn lemma_keys_cover(sel: &HashSet<usize>)
    ensures
        forall|j: usize|
            sel@.contains(j) <==> exists|m: int|
                0 <= m < spec_hash_keys_iter(sel).remaining().len() && *spec_hash_keys_iter(sel).remaining()[m] == j,
{
    broadcast use vstd::std_specs::hash::group_hash_axioms;

    let keys = spec_hash_keys_iter(sel);
    let u = keys.remaining().unref();
    assert(u.to_set() == sel@);
    assert forall|j: usize|
        sel@.contains(j) <==> exists|m: int| 0 <= m < keys.remaining().len() && *keys.remaining()[m] == j by {
        if sel@.contains(j) {
            assert(u.to_set().contains(j));
            let m = choose|m: int| 0 <= m < u.len() && u[m] == j;
            assert(*keys.remaining()[m] == j);
        }
        if exists|m: int| 0 <= m < keys.remaining().len() && *keys.remaining()[m] == j {
            let m = choose|m: int| 0 <= m < keys.remaining().len() && *keys.remaining()[m] == j;
            assert(u[m] == j);
            assert(u.contains(j));
        }
    }
}

/// The members of `sel` below `n`.
fn retain_below(sel: &HashSet<usize>, n: usize) -> (r: HashSet<usize>)
    ensures
        r@ == sel@.filter(|i: usize| i < n),
{
    broadcast use vstd::std_specs::hash::group_hash_axioms;

    let mut r: HashSet<usize> = HashSet::new();
    let keys = sel.iter();
    proof {
        lemma_keys_cover(sel);
    }
    for k in it: keys
        invariant
            it.seq() == keys.remaining(),
            keys == spec_hash_keys_iter(sel),
            forall|j: usize| r@.contains(j) <==> exists|m: int| 0 <= m < it.index() && *it.seq()[m] == j && j < n,
            forall|j: usize| sel@.contains(j) <==> exists|m: int| 0 <= m < it.seq().len() && *it.seq()[m] == j,
    {
        if *k < n {
            r.insert(*k);
        }
    }
    assert(r@ =~= sel@.filter(|i: usize| i < n));
    r
}

/// Adds every member of `src` to `dst`.
fn add_all(dst: &mut HashSet<usize>, src: &HashSet<usize>)
    ensures
        final(dst)@ == old(dst)@.union(src@),
{
    broadcast use vstd::std_specs::hash::group_hash_axioms;

    let keys = src.iter();
    proof {
        lemma_keys_cover(src);
    }
    for k in it: keys
        invariant
            it.seq() == keys.remaining(),
            keys == spec_hash_keys_iter(src),
            forall|j: usize|
                dst@.contains(j) <==> old(dst)@.contains(j) || exists|m: int| 0 <= m < it.index() && *it.seq()[m] == j,
            forall|j: usize| src@.contains(j) <==> exists|m: int| 0 <= m < it.seq().len() && *it.seq()[m] == j,
    {
        dst.insert(*k);
    }
    assert(dst@ =~= old(dst)@.union(src@));
}

/// Drops from the selection the positions past the end of the notes (the
/// notes may have changed under it).
pub fn sanitize_note_selection(state: &mut PianoRollState)
    ensures
        final(state).selected_notes@ == old(state).selected_notes@.filter(|i: usize| i < old(state).notes@.len()),
        *final(state) == (PianoRollState { selected_notes: final(state).selected_notes, ..*old(state) }),
{
    let sel = retain_below(&state.selected_notes, state.notes.len());
    state.selected_notes = sel;
}

/// Ctrl+D: duplicates the selected notes after the selected block and
/// selects the copies. Nothing happens without a selection.
pub fn duplicate_selection(state: &mut PianoRollState)
    requires
        forall|i: int|
            0 <= i < old(state).notes@.len() && old(state).selected_notes@.contains(i as usize)
                ==> #[trigger] old(state).notes@[i].start_tick + old(state).notes@[i].duration_ticks <= u64::MAX,
    ensures
        old(state).selected_notes@.len() == 0 ==> *final(state) == *old(state),
        old(state).selected_notes@.len() > 0 ==> {
            let dup = duplicated_notes(old(state).notes@, old(state).selected_notes@);
            &&& final(state).notes@ == old(state).notes@ + dup
            &&& final(state).selected_notes@ == Set::new(
                |j: usize| old(state).notes@.len() <= j < old(state).notes@.len() + dup.len(),
            )
            &&& *final(state) == (PianoRollState {
                notes: final(state).notes,
                selected_notes: final(state).selected_notes,
                ..*old(state)
            })
        },
{
    broadcast use vstd::std_specs::hash::group_hash_axioms;

    if state.selected_notes.len() == 0 {
        return;
    }
    let ghost n0 = state.notes@.len();
    let new_indices = duplicate_selected_notes(&mut state.notes, &state.selected_notes);
    let mut sel: HashSet<usize> = HashSet::new();
    let m = new_indices.len();
    let total = state.notes.len();
    proof {
        assert(total == n0 + m);
        assert forall|i: int| 0 <= i < m implies #[trigger] new_indices@[i] == n0 + i by {
            assert(n0 + i < total);
        }
    }
    let mut k: usize = 0;
    while k < m
        invariant
            m == new_indices@.len(),
            0 <= k <= m,
            forall|i: int| 0 <= i < m ==> #[trigger] new_indices@[i] == n0 + i,
            sel@ == Set::new(|j: usize| n0 <= j < n0 + k),
        decreases m - k,
    {
        sel.insert(new_indices[k]);
        assert(sel@ =~= Set::new(|j: usize| n0 <= j < n0 + k + 1));
        k = k + 1;
    }
    state.selected_notes = sel;
}

/// Starts a marquee (right-button drag on the grid) unless notes are being
/// moved: without Shift (`additive`) it clears the selection first.
/// Returns whether the marquee started.
pub fn begin_marquee(state: &mut PianoRollState, additive: bool) -> (started: bool)
    ensures
        started == !old(state).note_move_active,
        !started ==> *final(state) == *old(state),
        started ==> *final(state) == (PianoRollState {
            note_marquee_active: true,
            note_marquee_additive: additive,
            selected_notes: final(state).selected_notes,
            ..*old(state)
        }),
        started ==> final(state).selected_notes@ == (if additive {
            old(state).selected_notes@
        } else {
            Set::empty()
        }),
{
    if state.note_move_active {
        return false;
    }
    state.note_marquee_active = true;
    state.note_marquee_additive = additive;
    if !additive {
        state.selected_notes.clear();
    }
    true
}

/// Ends the marquee. When it was large enough to count, `found` holds the
/// notes it encloses: they join the selection (additive marquee) or become
/// it.
pub fn finish_marquee(state: &mut PianoRollState, found: Option<HashSet<usize>>)
    ensures
        final(state).selected_notes@ == (match found {
            Some(f) => if old(state).note_marquee_additive {
                old(state).selected_notes@.union(f@)
            } else {
                f@
            },
            None => old(state).selected_notes@,
        }),
        *final(state) == (PianoRollState {
            note_marquee_active: false,
            note_marquee_additive: false,
            selected_notes: final(state).selected_notes,
            ..*old(state)
        }),
{
    if let Some(f) = found {
        if state.note_marquee_additive {
            add_all(&mut state.selected_notes, &f);
        } else {
            state.selected_notes = f;
        }
    }
    state.note_marquee_active = false;
    state.note_marquee_additive = false;
}

/// Follows the pointer during a note move: the previewed deltas are those
/// the drag gives for the grabbed note (see [`compute_note_move_deltas`]).
/// Nothing happens when no move is in progress.
pub fn update_note_move(state: &mut PianoRollState, raw_delta_ticks: i64, raw_delta_rows: i32)
    requires
        forall|i: int|
            0 <= i < old(state).note_move_orig@.len() ==> #[trigger] old(state).note_move_orig@[i].1 <= i64::MAX,
        max_orig_pitch(old(state).note_move_orig@) - 127 <= min_orig_pitch(old(state).note_move_orig@),
    ensures
        !(old(state).note_move_active && old(state).note_move_grab_index is Some) ==> *final(state) == *old(state),
        old(state).note_move_active && old(state).note_move_grab_index is Some ==> {
            let d = move_deltas(
                old(state).note_move_orig@,
                old(state).note_move_grab_index->0,
                raw_delta_ticks as int,
                raw_delta_rows as int,
            );
            *final(state) == (PianoRollState {
                note_move_preview_delta_ticks: d.0 as i64,
                note_move_preview_delta_rows: d.1 as i32,
                ..*old(state)
            })
        },
{
    if !state.note_move_active {
        return;
    }
    if let Some(grab) = state.note_move_grab_index {
        let (dt, dr) = compute_note_move_deltas(state.note_move_orig.as_slice(), grab, raw_delta_ticks, raw_delta_rows);
        state.note_move_preview_delta_ticks = dt;
        state.note_move_preview_delta_rows = dr;
    }
}

/// Inserting a note by a click and deleting it again (it is the last note)
/// gives back the notes as they were.
pub proof fn law_insert_then_delete_restores(notes: Seq<MidiNote>, note: MidiNote)
    ensures
        notes.push(note).remove(notes.len() as int) == notes,
{
    assert(notes.push(note).remove(notes.len() as int) =~= notes);
}

/// Confirming a move whose deltas are zero, over records taken from the
/// notes themselves (MIDI pitches), leaves every note where it was.
pub proof fn law_zero_move_keeps_notes(notes: Seq<MidiNote>, orig: Seq<(usize, u64, u8)>)
    requires
        forall|k: int|
            0 <= k < orig.len() ==> {
                let (i, s0, p0) = #[trigger] orig[k];
                &&& i < notes.len()
                &&& s0 == notes[i as int].start_tick
                &&& p0 == notes[i as int].pitch
                &&& p0 <= 127
            },
    ensures
        notes_after_move(notes, orig, 0, 0) == notes,
    decreases orig.len(),
{
    if orig.len() > 0 {
        assert forall|k: int| 0 <= k < orig.drop_last().len() implies {
            let (i, s0, p0) = #[trigger] orig.drop_last()[k];
            &&& i < notes.len()
            &&& s0 == notes[i as int].start_tick
            &&& p0 == notes[i as int].pitch
            &&& p0 <= 127
        } by {
            assert(orig.drop_last()[k] == orig[k]);
        }
        law_zero_move_keeps_notes(notes, orig.drop_last());
        let (i, s0, p0) = orig.last();
        assert(orig.last() == orig[orig.len() - 1]);
        assert(notes[i as int] == MidiNote { start_tick: s0, pitch: p0, ..notes[i as int] });
        assert(notes.update(i as int, notes[i as int]) =~= notes);
    }
}

/// The label of the sidebar row for `pitch`: the note name in keys mode;
/// in drums mode the drum map's name followed by the pitch in brackets, or
/// "Pad" and the pitch for an unmapped row.
pub open spec fn sidebar_label(mode: PianoRollMode, drum_map: Map<u8, String>, pitch: u8) -> Seq<char> {
    match mode {
        PianoRollMode::Keys => note_name(pitch as int),
        PianoRollMode::Drums => if drum_map.contains_key(pitch) {
            drum_map[pitch]@ + " ("@ + decimal(pitch as nat) + ")"@
        } else {
            "Pad "@ + decimal(pitch as nat)
        },
    }
}

/// The label of the piano roll's sidebar row for `pitch` (see
/// [`sidebar_label`]).
pub fn sidebar_row_label(state: &PianoRollState, pitch: u8) -> (s: String)
    ensures
        s@ == sidebar_label(state.mode, state.drum_map@, pitch),
{
    broadcast use vstd::std_specs::hash::group_hash_axioms;

    match state.mode {
        PianoRollMode::Keys => midi_note_name(pitch),
        PianoRollMode::Drums => match state.drum_map.get(&pitch) {
            Some(name) => {
                let mut s = name.clone();
                s.append(" (");
                push_decimal(&mut s, pitch as u64);
                s.append(")");
                s
            },
            None => {
                let mut s = String::from_str("Pad ");
                push_decimal(&mut s, pitch as u64);
                s
            },
        },
    }
}

} // verus!
