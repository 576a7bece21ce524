use hikaru::audio_event::AudioEvent;
use hikaru::engine::{AudioEngine, EngineMode};
use hikaru::matrix::{
    poll_engine_slots, ClipData, ClipLoad, MatrixClipboard, MatrixCommand, SessionMatrixState, SlotState,
};

fn session() -> SessionMatrixState {
    SessionMatrixState::default()
}

fn load_audio(m: &mut SessionMatrixState, t: usize, s: usize, path: &str) -> ClipLoad {
    m.load_clip_into_slot(t, s, path.to_string(), "clip".to_string(), false)
}

#[test]
fn default_session_is_eight_by_eight_and_empty() {
    let m = session();
    assert_eq!(m.tracks.len(), 8);
    assert_eq!(m.scenes.len(), 8);
    assert_eq!(m.tracks[0].name, "Track 1");
    assert_eq!(m.tracks[7].name, "Track 8");
    assert_eq!(m.scenes[2].name, "Scene 3");
    assert!(m.grid.iter().all(|row| row.len() == 8 && row.iter().all(|sl| sl.state == SlotState::Empty)));
    assert_eq!(m.next_clip_id, 1);
    assert!(m.selected_slot.is_none());
    assert!(m.show_editor);
}

#[test]
fn adding_and_removing_tracks_and_scenes() {
    let mut m = session();
    m.add_track();
    assert_eq!(m.tracks.len(), 9);
    assert_eq!(m.tracks[8].name, "Audio 9");
    assert_eq!(m.grid[8].len(), 8);
    m.add_scene();
    assert_eq!(m.scenes[8].name, "Scene 9");
    assert!(m.grid.iter().all(|row| row.len() == 9));
    m.selected_slot = Some((8, 8));
    m.remove_scene();
    assert!(m.selected_slot.is_none());
    m.remove_track();
    assert_eq!(m.tracks.len(), 8);
    let mut one = session();
    for _ in 0..10 {
        one.remove_track();
        one.remove_scene();
    }
    assert_eq!(one.tracks.len(), 1);
    assert_eq!(one.scenes.len(), 1);
}

#[test]
fn loading_audio_places_stopped_clip_and_loads_it() {
    let mut m = session();
    let r = load_audio(&mut m, 1, 2, "/s/kick.wav");
    match r {
        ClipLoad::Placed { commands } => {
            assert_eq!(commands.len(), 1);
            match &commands[0] {
                MatrixCommand::LoadClip { clip_id, path, track_index, scene_index } => {
                    assert_eq!(*clip_id, 1);
                    assert_eq!(path, "/s/kick.wav");
                    assert_eq!((*track_index, *scene_index), (1, 2));
                }
                _ => panic!("expected a load"),
            }
        }
        ClipLoad::AppendToExisting => panic!("slot was empty"),
    }
    assert_eq!(m.next_clip_id, 2);
    assert_eq!(m.grid[1][2].state, SlotState::Stopped);
    let clip = m.grid[1][2].clip.as_ref().unwrap();
    assert_eq!(clip.id, 1);
    assert!(clip.loop_enabled && clip.has_time_selection);
    // a second audio file on the same pad becomes another event
    assert!(matches!(load_audio(&mut m, 1, 2, "/s/snare.wav"), ClipLoad::AppendToExisting));
    assert_eq!(m.next_clip_id, 3);
}

#[test]
fn loading_midi_sends_its_notes() {
    let mut m = session();
    let r = m.load_clip_into_slot(0, 0, "/m/a.mid".to_string(), "a".to_string(), true);
    match r {
        ClipLoad::Placed { commands } => {
            assert_eq!(commands.len(), 1);
            assert!(matches!(&commands[0], MatrixCommand::UpdateMidiClipNotes { track_idx: 0, scene_idx: 0, notes } if notes.is_empty()));
        }
        ClipLoad::AppendToExisting => panic!("midi never appends"),
    }
    assert!(m.grid[0][0].clip.as_ref().unwrap().is_midi());
}

#[test]
fn pad_click_launches_then_stops() {
    let mut m = session();
    load_audio(&mut m, 0, 0, "/a.wav");
    load_audio(&mut m, 0, 1, "/b.wav");
    let cmds = m.trigger_pad(0, 0);
    assert_eq!(m.grid[0][0].state, SlotState::Playing);
    assert_eq!(cmds.len(), 2);
    assert!(matches!(cmds[0], MatrixCommand::ResetBar { track_idx: 0, scene_idx: 0 }));
    assert!(matches!(cmds[1], MatrixCommand::TriggerClip { track_idx: 0, scene_idx: 0 }));
    // launching the other pad of the row stops the first
    m.trigger_pad(0, 1);
    assert_eq!(m.grid[0][0].state, SlotState::Stopped);
    assert_eq!(m.grid[0][1].state, SlotState::Playing);
    let cmds = m.trigger_pad(0, 1);
    assert_eq!(m.grid[0][1].state, SlotState::Stopped);
    assert_eq!(cmds.len(), 1);
    // an empty pad does nothing
    assert!(m.trigger_pad(3, 3).is_empty());
}

#[test]
fn scene_launch_plays_every_clip_of_the_column() {
    let mut m = session();
    load_audio(&mut m, 0, 2, "/a.wav");
    load_audio(&mut m, 3, 2, "/b.wav");
    load_audio(&mut m, 3, 0, "/c.wav");
    m.trigger_pad(3, 0);
    let cmds = m.trigger_scene(2);
    assert_eq!(m.grid[0][2].state, SlotState::Playing);
    assert_eq!(m.grid[3][2].state, SlotState::Playing);
    assert_eq!(m.grid[3][0].state, SlotState::Stopped);
    assert!(matches!(cmds.last(), Some(MatrixCommand::TriggerScene { scene_idx: 2 })));
    assert_eq!(cmds.len(), 3);
}

#[test]
fn copy_paste_gives_a_fresh_stopped_clip() {
    let mut m = session();
    let mut clip = MatrixClipboard::new();
    load_audio(&mut m, 0, 0, "/a.wav");
    m.trigger_pad(0, 0);
    m.copy_slot(0, 0, &mut clip);
    assert!(clip.has_content());
    let cmds = m.paste_slot(2, 5, &clip);
    assert_eq!(m.grid[2][5].state, SlotState::Stopped);
    assert_eq!(m.grid[2][5].clip.as_ref().unwrap().id, 2);
    assert_eq!(m.next_clip_id, 3);
    assert!(matches!(&cmds[0], MatrixCommand::LoadClip { clip_id: 2, track_index: 2, scene_index: 5, .. }));
    clip.clear();
    assert!(!clip.has_content());
    assert!(m.paste_slot(1, 1, &clip).is_empty());
}

#[test]
fn cut_empties_the_slot_and_stops_a_playing_clip() {
    let mut m = session();
    let mut clip = MatrixClipboard::new();
    load_audio(&mut m, 0, 0, "/a.wav");
    m.trigger_pad(0, 0);
    let cmds = m.cut_slot(0, 0, &mut clip);
    assert_eq!(m.grid[0][0].state, SlotState::Empty);
    assert!(m.grid[0][0].clip.is_none());
    assert!(matches!(cmds[0], MatrixCommand::TriggerClip { track_idx: 0, scene_idx: 0 }));
    assert!(clip.has_content());
    let cmds = m.delete_slot(0, 0);
    assert!(cmds.is_empty());
}

#[test]
fn duplicate_copies_into_next_scene() {
    let mut m = session();
    load_audio(&mut m, 1, 0, "/a.wav");
    let cmds = m.duplicate_slot(1, 0);
    assert_eq!(m.grid[1][1].clip.as_ref().unwrap().id, 2);
    assert_eq!(cmds.len(), 1);
    // the last scene has no next one
    load_audio(&mut m, 1, 7, "/b.wav");
    let before = m.next_clip_id;
    assert!(m.duplicate_slot(1, 7).is_empty());
    assert_eq!(m.next_clip_id, before);
}

#[test]
fn polling_stops_finished_audio_voices() {
    let mut m = session();
    let mut engine: AudioEngine<Vec<f32>> = AudioEngine::new();
    engine.set_mode(EngineMode::OpenLive);
    load_audio(&mut m, 0, 0, "/a.wav");
    engine.add_clip(1, 0, 0, vec![0.5; 20], 20, 0, None, 0, 2, false);
    m.trigger_pad(0, 0);
    engine.trigger_clip(0, 0);
    assert_eq!(poll_engine_slots(&mut m, &engine), 0);
    assert_eq!(m.grid[0][0].state, SlotState::Playing);
    engine.absolute_frame = 100;
    assert_eq!(poll_engine_slots(&mut m, &engine), 1);
    assert_eq!(m.grid[0][0].state, SlotState::Stopped);
    let stopped = m.poll_finished_voices(|_, _| false);
    assert_eq!(stopped, 0);
}

#[test]
fn clip_event_ids_and_loop_length() {
    let mut m = session();
    load_audio(&mut m, 0, 0, "/a.wav");
    let clip = m.grid[0][0].clip.as_mut().unwrap();
    assert_eq!(clip.alloc_event_id(), 1);
    assert_eq!(clip.alloc_event_id(), 2);
    assert!(matches!(clip.content, ClipData::Audio { next_event_id: 3 }));
    clip.loop_start = 100;
    clip.loop_end = 50;
    assert_eq!(clip.loop_length_ticks(), 0);
    assert!(!clip.has_valid_clip_loop());
    clip.loop_end = 400;
    assert_eq!(clip.loop_length_ticks(), 300);
    assert!(clip.has_valid_clip_loop());
}

#[test]
fn clipboard_keeps_copied_events() {
    let mut clip = MatrixClipboard::new();
    assert!(!clip.has_events());
    let ev = AudioEvent::new_full(4, "hit".to_string(), 100, 2, 44100);
    clip.copy_events(&[ev]);
    assert!(clip.has_events());
    assert_eq!(clip.copied_events[0].id, 4);
    assert_eq!(clip.copied_events[0].visible_frames, 50);
}

#[test]
fn midi_sync_only_for_midi_slots() {
    let mut m = session();
    load_audio(&mut m, 0, 0, "/a.wav");
    assert!(m.sync_midi_clip(0, 0).is_none());
    m.load_clip_into_slot(0, 1, "/b.mid".to_string(), "b".to_string(), true);
    assert!(m.sync_midi_clip(0, 1).is_some());
    assert!(m.sync_midi_clip(40, 1).is_none());
}

#[test]
fn editing_keeps_track_flags_and_editor_visibility() {
    let mut m = session();
    m.tracks[2].muted = true;
    m.tracks[3].soloed = true;
    m.show_editor = false;
    m.add_scene();
    m.remove_scene();
    m.add_track();
    load_audio(&mut m, 2, 1, "/a.wav");
    m.duplicate_slot(2, 1);
    m.trigger_scene(1);
    assert!(m.tracks[2].muted && m.tracks[3].soloed);
    assert!(!m.show_editor);
    assert!(!m.tracks[8].muted && !m.tracks[8].soloed);
}

#[test]
fn time_selection_keys_select_all_or_hide() {
    let mut m = session();
    load_audio(&mut m, 0, 0, "/a.wav");
    let clip = m.grid[0][0].clip.as_mut().unwrap();
    assert!(!clip.time_selection_keys(true, false, 0));
    assert!(clip.time_selection_keys(true, false, 5000));
    assert_eq!((clip.loop_start, clip.loop_end), (0, 5000));
    assert!(!clip.time_selection_keys(true, false, 5000));
    assert!(clip.time_selection_keys(false, true, 5000));
    assert!(!clip.has_time_selection);
    assert!(!clip.time_selection_keys(false, true, 5000));
    assert!(clip.time_selection_keys(true, false, 5000));
    assert!(clip.has_time_selection);
}

#[test]
fn time_selection_is_kept_inside_the_clip() {
    let mut m = session();
    load_audio(&mut m, 0, 0, "/a.wav");
    let clip = m.grid[0][0].clip.as_mut().unwrap();
    clip.normalize_time_selection(44100, 44100);
    assert_eq!((clip.loop_start, clip.loop_end), (0, 44100));
    clip.loop_start = 50000;
    clip.loop_end = 60000;
    clip.normalize_time_selection(44100, 44100);
    assert_eq!((clip.loop_start, clip.loop_end), (44100 - 11025, 44100));
    clip.loop_start = 100;
    clip.loop_end = 50;
    clip.normalize_time_selection(44100, 44100);
    assert_eq!((clip.loop_start, clip.loop_end), (0, 50));
    clip.has_time_selection = false;
    clip.loop_end = 0;
    clip.normalize_time_selection(44100, 44100);
    assert_eq!(clip.loop_end, 0);
}

#[test]
fn loop_brackets_keep_their_gap() {
    assert_eq!(hikaru::matrix::loop_bracket_gap(44100), 4410);
    assert_eq!(hikaru::matrix::loop_bracket_gap(8000), 1024);
    let mut m = session();
    load_audio(&mut m, 0, 0, "/a.wav");
    let clip = m.grid[0][0].clip.as_mut().unwrap();
    clip.loop_start = 0;
    clip.loop_end = 10000;
    assert!(clip.drag_loop_start(2000, 4410));
    assert_eq!(clip.loop_start, 2000);
    assert!(clip.drag_loop_start(9000, 4410));
    assert_eq!(clip.loop_start, 10000 - 4410);
    assert!(!clip.drag_loop_start(9500, 4410));
    assert!(clip.drag_loop_end(20000, 4410, 30000));
    assert_eq!(clip.loop_end, 20000);
    assert!(clip.drag_loop_end(100, 4410, 30000));
    assert_eq!(clip.loop_end, 5590 + 4410);
    assert!(clip.drag_loop_end(100, 4410, 8000));
    assert_eq!(clip.loop_end, 8000);
}

#[test]
fn new_midi_clip_is_placed_selected_and_loaded() {
    let mut m = session();
    let cmds = m.new_midi_clip(2, 3);
    assert_eq!(m.next_clip_id, 2);
    assert_eq!(m.selected_slot, Some((2, 3)));
    assert_eq!(m.grid[2][3].state, SlotState::Stopped);
    let clip = m.grid[2][3].clip.as_ref().unwrap();
    assert_eq!(clip.name, "Nuevo MIDI");
    assert!(clip.is_midi());
    assert_eq!((clip.loop_start, clip.loop_end), (0, 1920));
    assert!(clip.loop_enabled && clip.has_time_selection);
    assert_eq!(cmds.len(), 1);
    assert!(matches!(&cmds[0], MatrixCommand::LoadMidiClip { clip_id: 1, track_index: 2, scene_index: 3, notes } if notes.is_empty()));
}
