use hikaru::open_dms::OpenDms;
use hikaru::piano_roll::{
    apply_move_delta, begin_marquee, begin_note_move, begin_note_resize, commit_note_move, commit_note_resize,
    compute_note_move_deltas, delete_note, duplicate_selected_notes, duplicate_selection, effective_note_view,
    finish_marquee, insert_note_at, note_just_crossed, quantize_tick, resize_note_left, resize_note_right,
    sanitize_note_selection, select_note_set, sync_drum_map_from_opendms, trigger_playhead_notes, update_note_move,
    update_note_resize, MidiNote, PianoRollMode, PianoRollState, SelectionDragHandle, MIN_NOTE_DURATION_TICKS,
    QUANTIZE_TICKS,
};
use std::collections::HashSet;

#[test]
fn crosses_note_start_from_below() {
    assert!(note_just_crossed(239, 240, 240));
    assert!(note_just_crossed(200, 280, 240));
}

#[test]
fn does_not_refire_when_prev_lands_exactly_on_start() {
    assert!(!note_just_crossed(240, 274, 240));
    assert!(!note_just_crossed(0, 34, 0));
}

#[test]
fn fires_once_on_loop_wrap_to_note_at_start() {
    assert!(note_just_crossed(3839, 0, 0));
    assert!(!note_just_crossed(0, 34, 0));
}

#[test]
fn misses_note_further_than_window() {
    assert!(!note_just_crossed(0, 480, 240));
}

#[test]
fn does_not_fire_when_stationary() {
    assert!(!note_just_crossed(240, 240, 240));
    assert!(!note_just_crossed(100, 100, 240));
}

#[test]
fn resize_right_extends_note() {
    let (start, dur) = resize_note_right(0, 240, 960);
    assert_eq!(start, 0);
    assert_eq!(dur, 960);
}

#[test]
fn resize_right_snaps_to_quantize() {
    let (start, dur) = resize_note_right(0, 240, 1000);
    assert_eq!(start, 0);
    assert_eq!(dur, 960);
    let (_, dur) = resize_note_right(0, 240, 959);
    assert_eq!(dur, 720);
}

#[test]
fn resize_right_enforces_min_duration() {
    let (start, dur) = resize_note_right(480, 960, 100);
    assert_eq!(start, 480);
    assert_eq!(dur, MIN_NOTE_DURATION_TICKS);
}

#[test]
fn resize_left_extends_backwards() {
    let (start, dur) = resize_note_left(480, 240, 0);
    assert_eq!(start, 0);
    assert_eq!(dur, 720);
}

#[test]
fn resize_left_keeps_end_anchored() {
    let (start, dur) = resize_note_left(480, 960, 730);
    assert_eq!(start, 720);
    assert_eq!(dur, 1440 - 720);
}

#[test]
fn resize_left_enforces_min_duration() {
    let (start, dur) = resize_note_left(480, 960, 2000);
    assert_eq!(start, 1200);
    assert_eq!(dur, MIN_NOTE_DURATION_TICKS);
    let (start, dur) = resize_note_left(240, 240, 0);
    assert_eq!(start, 0);
    assert_eq!(dur, 480);
}

#[test]
fn resize_left_snaps_to_quantize() {
    let (start, dur) = resize_note_left(480, 720, 500);
    assert_eq!(start, 480);
    assert_eq!(dur, 720);
}

#[test]
fn quantize_rounds_down() {
    assert_eq!(quantize_tick(0, QUANTIZE_TICKS), 0);
    assert_eq!(quantize_tick(239, QUANTIZE_TICKS), 0);
    assert_eq!(quantize_tick(240, QUANTIZE_TICKS), 240);
    assert_eq!(quantize_tick(479, QUANTIZE_TICKS), 240);
}

#[test]
fn duplicate_places_block_after_selection() {
    let mut notes = vec![
        MidiNote { pitch: 60, start_tick: 0, duration_ticks: 240, velocity: 100 },
        MidiNote { pitch: 62, start_tick: 240, duration_ticks: 240, velocity: 100 },
        MidiNote { pitch: 64, start_tick: 960, duration_ticks: 240, velocity: 100 },
    ];
    let mut selected = HashSet::new();
    selected.insert(0);
    selected.insert(1);

    let new_idx = duplicate_selected_notes(&mut notes, &selected);
    assert_eq!(notes.len(), 5);
    assert_eq!(new_idx.len(), 2);

    let d0 = &notes[new_idx[0]];
    let d1 = &notes[new_idx[1]];
    assert_eq!(d0.start_tick, 480);
    assert_eq!(d1.start_tick, 720);
    assert_eq!(d0.pitch, 60);
    assert_eq!(d1.pitch, 62);
    assert_eq!(notes[2].start_tick, 960);
}

#[test]
fn duplicate_empty_selection_is_noop() {
    let mut notes = vec![MidiNote { pitch: 60, start_tick: 0, duration_ticks: 240, velocity: 100 }];
    let selected = HashSet::new();
    let new_idx = duplicate_selected_notes(&mut notes, &selected);
    assert!(new_idx.is_empty());
    assert_eq!(notes.len(), 1);
}

#[test]
fn apply_move_delta_horizontal_and_vertical() {
    let (start, pitch) = apply_move_delta(240, 60, 480, 2);
    assert_eq!(start, 720);
    assert_eq!(pitch, 58);
    let (start, pitch) = apply_move_delta(100, 60, -500, -2);
    assert_eq!(start, 0);
    assert_eq!(pitch, 62);
    let (_, pitch) = apply_move_delta(0, 120, 0, -50);
    assert_eq!(pitch, 127);
}

#[test]
fn move_delta_snaps_grabbed_note_to_grid() {
    let orig = vec![(0, 480, 60), (1, 720, 62)];
    let (dt, dr) = compute_note_move_deltas(&orig, 0, 300, 0);
    assert_eq!(dt, 240);
    assert_eq!(dr, 0);
    let (s1, p1) = apply_move_delta(720, 62, dt, dr);
    assert_eq!(s1, 960);
    assert_eq!(p1, 62);
}

#[test]
fn move_delta_does_not_push_notes_before_zero() {
    let orig = vec![(0, 240, 60)];
    let (dt, _) = compute_note_move_deltas(&orig, 0, -10_000, 0);
    assert_eq!(dt, -240);
    let (start, _) = apply_move_delta(240, 60, dt, 0);
    assert_eq!(start, 0);
}

#[test]
fn move_delta_clamps_pitch_rows() {
    let orig = vec![(0, 0, 120)];
    let (_, dr) = compute_note_move_deltas(&orig, 0, 0, -50);
    assert_eq!(dr, -7);
    let (_, pitch) = apply_move_delta(0, 120, 0, dr);
    assert_eq!(pitch, 127);

    let orig = vec![(0, 0, 10)];
    let (_, dr) = compute_note_move_deltas(&orig, 0, 0, 99);
    assert_eq!(dr, 10);
    let (_, pitch) = apply_move_delta(0, 10, 0, dr);
    assert_eq!(pitch, 0);
}

#[test]
fn select_note_set_replaces_or_adds() {
    let mut sel = HashSet::new();
    sel.insert(0);
    select_note_set(&mut sel, 2, false);
    assert_eq!(sel.len(), 1);
    assert!(sel.contains(&2));
    select_note_set(&mut sel, 5, true);
    assert_eq!(sel.len(), 2);
    assert!(sel.contains(&5));
    select_note_set(&mut sel, 2, false);
    assert_eq!(sel.len(), 2);
}

#[test]
fn quantize_is_idempotent_on_examples() {
    for t in [0u64, 1, 239, 240, 241, 5000, 123_457] {
        let q = quantize_tick(t, QUANTIZE_TICKS);
        assert_eq!(quantize_tick(q, QUANTIZE_TICKS), q);
    }
}

#[test]
fn resize_left_keeps_end_on_examples() {
    for pointer in [0u64, 100, 480, 719, 1000, 5000] {
        let (start, dur) = resize_note_left(480, 960, pointer);
        assert_eq!(start + dur, 1440);
        assert!(dur >= MIN_NOTE_DURATION_TICKS);
    }
}

#[test]
fn playhead_trigger_fires_crossed_notes_once() {
    let mut state = PianoRollState::default();
    state.notes = vec![
        MidiNote { pitch: 60, start_tick: 240, duration_ticks: 240, velocity: 100 },
        MidiNote { pitch: 62, start_tick: 960, duration_ticks: 240, velocity: 90 },
    ];
    state.prev_playhead_tick = 200;
    state.playhead_tick = 260;
    let fired = trigger_playhead_notes(&mut state);
    assert_eq!(fired.len(), 1);
    assert_eq!(fired[0].pitch, 60);
    assert_eq!(state.prev_playhead_tick, 260);
    // the playhead did not move: nothing fires again
    let fired = trigger_playhead_notes(&mut state);
    assert!(fired.is_empty());
}

#[test]
fn effective_view_shows_move_and_resize_previews() {
    let mut state = PianoRollState::default();
    let note = MidiNote { pitch: 60, start_tick: 480, duration_ticks: 240, velocity: 100 };
    assert_eq!(effective_note_view(&state, 0, &note), (480, 240, 60));
    state.note_move_active = true;
    state.note_move_orig = vec![(0, 480, 60)];
    state.note_move_preview_delta_ticks = 240;
    state.note_move_preview_delta_rows = 1;
    assert_eq!(effective_note_view(&state, 0, &note), (720, 240, 59));
    state.note_resize_active = true;
    state.note_resize_handle = SelectionDragHandle::Right;
    state.note_resize_index = Some(0);
    state.note_resize_preview_start = 480;
    state.note_resize_preview_duration = 960;
    assert_eq!(effective_note_view(&state, 0, &note), (480, 960, 59));
}

#[test]
fn clear_selection_resets_time_selection_and_keeps_notes() {
    let mut state = PianoRollState::default();
    state.notes = vec![MidiNote { pitch: 60, start_tick: 0, duration_ticks: 240, velocity: 100 }];
    state.selection_active = true;
    state.selection_start_tick = 100;
    state.selection_end_tick = 900;
    state.loop_enabled = true;
    state.clear_selection();
    assert!(!state.selection_active);
    assert_eq!(state.selection_start_tick, 0);
    assert!(!state.loop_enabled);
    assert_eq!(state.notes.len(), 1);
    state.selected_notes.insert(0);
    state.clear_note_selection();
    assert!(state.selected_notes.is_empty());
    assert_eq!(state.mode, PianoRollMode::Keys);
}

#[test]
fn drum_map_lists_pad_names_and_samples() {
    let mut state = PianoRollState::default();
    let mut dms = OpenDms::default();
    assert!(dms.pads[1].load_sample("/samples/kick.wav".to_string()));
    sync_drum_map_from_opendms(&mut state, &dms);
    assert_eq!(state.drum_map.len(), 64);
    assert_eq!(state.drum_map.get(&36).map(|s| s.as_str()), Some("Pad 01"));
    assert_eq!(state.drum_map.get(&37).map(|s| s.as_str()), Some("Pad 02: kick.wav"));
    assert_eq!(state.drum_map.get(&99).map(|s| s.as_str()), Some("Pad 64"));
}

fn note(pitch: u8, start_tick: u64, duration_ticks: u64) -> MidiNote {
    MidiNote { pitch, start_tick, duration_ticks, velocity: 100 }
}

#[test]
fn click_inserts_snapped_note_once() {
    let mut state = PianoRollState::default();
    // row 67 is pitch 60
    assert!(insert_note_at(&mut state, 250, 67));
    assert_eq!(state.notes.len(), 1);
    assert_eq!(state.notes[0].pitch, 60);
    assert_eq!(state.notes[0].start_tick, 240);
    assert_eq!(state.notes[0].duration_ticks, QUANTIZE_TICKS);
    assert_eq!(state.notes[0].velocity, 100);
    assert!(!insert_note_at(&mut state, 479, 67));
    assert!(insert_note_at(&mut state, 479, 68));
    // rows above the top clamp to pitch 127, below the bottom to 0
    assert!(insert_note_at(&mut state, 0, -5));
    assert_eq!(state.notes[2].pitch, 127);
    assert!(insert_note_at(&mut state, 0, 500));
    assert_eq!(state.notes[3].pitch, 0);
}

#[test]
fn deleting_a_note_renumbers_the_selection() {
    let mut state = PianoRollState::default();
    state.notes = vec![note(60, 0, 240), note(62, 240, 240), note(64, 480, 240)];
    state.selected_notes.insert(0);
    state.selected_notes.insert(1);
    state.selected_notes.insert(2);
    delete_note(&mut state, 1);
    assert_eq!(state.notes.len(), 2);
    assert_eq!(state.notes[1].pitch, 64);
    let mut sel: Vec<usize> = state.selected_notes.iter().copied().collect();
    sel.sort();
    assert_eq!(sel, vec![0, 1]);
}

#[test]
fn move_gesture_snaps_and_commits() {
    let mut state = PianoRollState::default();
    state.notes = vec![note(60, 480, 240), note(62, 720, 240)];
    state.selected_notes.insert(1);
    assert!(begin_note_move(&mut state, 0, true));
    assert!(state.note_move_active);
    assert_eq!(state.note_move_orig, vec![(0, 480, 60), (1, 720, 62)]);
    update_note_move(&mut state, 300, 2);
    assert_eq!(state.note_move_preview_delta_ticks, 240);
    assert_eq!(state.note_move_preview_delta_rows, 2);
    commit_note_move(&mut state);
    assert!(!state.note_move_active);
    assert!(state.note_move_orig.is_empty());
    assert_eq!((state.notes[0].start_tick, state.notes[0].pitch), (720, 58));
    assert_eq!((state.notes[1].start_tick, state.notes[1].pitch), (960, 60));
}

#[test]
fn resize_gesture_previews_then_commits() {
    let mut state = PianoRollState::default();
    state.notes = vec![note(60, 480, 240)];
    begin_note_resize(&mut state, 0, SelectionDragHandle::Right);
    assert!(state.note_resize_active);
    update_note_resize(&mut state, 1000);
    assert_eq!((state.note_resize_preview_start, state.note_resize_preview_duration), (480, 480));
    // the note itself moves only on commit
    assert_eq!(state.notes[0].duration_ticks, 240);
    commit_note_resize(&mut state);
    assert_eq!(state.notes[0].duration_ticks, 480);
    assert!(!state.note_resize_active);
    assert_eq!(state.note_resize_index, None);
    begin_note_resize(&mut state, 0, SelectionDragHandle::Left);
    update_note_resize(&mut state, 0);
    commit_note_resize(&mut state);
    assert_eq!((state.notes[0].start_tick, state.notes[0].duration_ticks), (0, 960));
}

#[test]
fn marquee_replaces_or_extends_selection() {
    let mut state = PianoRollState::default();
    state.notes = vec![note(60, 0, 240), note(62, 240, 240)];
    state.selected_notes.insert(0);
    assert!(begin_marquee(&mut state, false));
    assert!(state.selected_notes.is_empty());
    let mut found = HashSet::new();
    found.insert(1);
    finish_marquee(&mut state, Some(found));
    assert!(!state.note_marquee_active);
    assert_eq!(state.selected_notes.len(), 1);
    assert!(state.selected_notes.contains(&1));
    assert!(begin_marquee(&mut state, true));
    let mut found = HashSet::new();
    found.insert(0);
    finish_marquee(&mut state, Some(found));
    assert_eq!(state.selected_notes.len(), 2);
    assert!(begin_marquee(&mut state, false));
    finish_marquee(&mut state, None);
    assert!(state.selected_notes.is_empty());
}

#[test]
fn ctrl_d_selects_the_copies() {
    let mut state = PianoRollState::default();
    state.notes = vec![note(60, 0, 240), note(62, 240, 240), note(64, 960, 240)];
    duplicate_selection(&mut state);
    assert_eq!(state.notes.len(), 3);
    state.selected_notes.insert(0);
    state.selected_notes.insert(1);
    duplicate_selection(&mut state);
    assert_eq!(state.notes.len(), 5);
    assert_eq!(state.selected_notes.len(), 2);
    assert!(state.selected_notes.contains(&3) && state.selected_notes.contains(&4));
    assert_eq!(state.notes[3].start_tick, 480);
}

#[test]
fn stale_selection_entries_are_dropped() {
    let mut state = PianoRollState::default();
    state.notes = vec![note(60, 0, 240)];
    state.selected_notes.insert(0);
    state.selected_notes.insert(9);
    sanitize_note_selection(&mut state);
    assert_eq!(state.selected_notes.len(), 1);
    assert!(state.selected_notes.contains(&0));
}

#[test]
fn sidebar_rows_are_labelled_by_mode() {
    let mut state = PianoRollState::default();
    assert_eq!(hikaru::piano_roll::sidebar_row_label(&state, 60), "C4");
    state.mode = PianoRollMode::Drums;
    state.drum_map.insert(36, "Pad 01: kick.wav".to_string());
    assert_eq!(hikaru::piano_roll::sidebar_row_label(&state, 36), "Pad 01: kick.wav (36)");
    assert_eq!(hikaru::piano_roll::sidebar_row_label(&state, 40), "Pad 40");
}

#[test]
fn playhead_trigger_changes_only_the_previous_playhead() {
    let mut state = PianoRollState::default();
    state.loop_enabled = true;
    state.selection_active = true;
    state.playhead_tick = 500;
    trigger_playhead_notes(&mut state);
    assert!(state.loop_enabled && state.selection_active);
    assert_eq!(state.prev_playhead_tick, 500);
}
