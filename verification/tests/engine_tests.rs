use hikaru::engine::{AudioEngine, ClipBlock, EngineMode, FrameRead, MidiNoteInstance, VoiceState, TRACK_COUNT};

type Engine = AudioEngine<Vec<f32>>;

const ALL_AUDIBLE: [bool; TRACK_COUNT] = [false; TRACK_COUNT];

fn test_engine() -> Engine {
    AudioEngine::new()
}

/// Adds a stereo clip holding `samples` to slot `(track, scene)`, starting
/// at frame 0, playing its whole data, with no offset.
fn add_stereo(engine: &mut Engine, id: usize, track: usize, scene: usize, samples: Vec<f32>) {
    let len = samples.len();
    engine.add_clip(id, track, scene, samples, len, 0, None, 0, 2, false);
}

fn run_frames(engine: &mut Engine, frames: u64) -> Vec<ClipBlock> {
    engine.render_block(frames as usize, &ALL_AUDIBLE)
}

fn run_in_blocks(engine: &mut Engine, total: u64) {
    let mut remaining = total;
    while remaining > 0 {
        let step = remaining.min(512);
        run_frames(engine, step);
        remaining -= step;
    }
}

fn src_frame(r: &FrameRead) -> Option<usize> {
    match r {
        FrameRead::Silent => None,
        FrameRead::Plain { src } => Some(*src / 2),
        FrameRead::Crossfade { src, .. } => Some(*src / 2),
    }
}

fn block_is_silent(plan: &[ClipBlock]) -> bool {
    plan.iter().all(|b| b.reads.iter().all(|r| matches!(r, FrameRead::Silent)))
}

fn ramp(n: u64) -> Vec<f32> {
    let mut samples = Vec::with_capacity((n * 2) as usize);
    for i in 0..n {
        let v = i as f32 / n as f32;
        samples.push(v);
        samples.push(v);
    }
    samples
}

/// Frames per 4/4 bar (rounded) at the engine's starting tempo, 128 BPM,
/// and 44.1 kHz.
const BAR_FRAMES: u64 = 82688;

#[test]
fn openlive_clip_duration_is_real_audio_length() {
    let mut engine = test_engine();
    engine.set_mode(EngineMode::OpenLive);
    add_stereo(&mut engine, 1, 0, 0, vec![0.5f32; 44100 * 2]);
    assert_eq!(engine.clips[0].duration_frames, 44100);
    assert_eq!(engine.clips[0].playback_length_frames(), 44100);
}

#[test]
fn trigger_clip_toggles_and_restarts_phase() {
    let mut engine = test_engine();
    engine.set_mode(EngineMode::OpenLive);
    engine.transport.sample_count = 8000;
    add_stereo(&mut engine, 1, 0, 0, vec![0.5f32; 100 * 2]);
    engine.trigger_clip(0, 0);
    assert!(engine.clips[0].is_playing);
    assert_eq!(engine.clips[0].start_frame, 8000);
    engine.trigger_clip(0, 0);
    assert!(!engine.clips[0].is_playing);
}

#[test]
fn trigger_scene_plays_whole_row() {
    let mut engine = test_engine();
    engine.set_mode(EngineMode::OpenLive);
    add_stereo(&mut engine, 1, 0, 0, vec![0.5f32; 100 * 2]);
    add_stereo(&mut engine, 2, 1, 0, vec![0.5f32; 100 * 2]);
    add_stereo(&mut engine, 3, 0, 1, vec![0.5f32; 100 * 2]);
    engine.trigger_scene(1);
    assert!(!engine.clips[0].is_playing);
    assert!(!engine.clips[1].is_playing);
    assert!(engine.clips[2].is_playing);
}

#[test]
fn global_loop_wraps_in_engine_not_gui() {
    let mut engine = test_engine();
    engine.play();
    engine.set_global_loop(0, 44100, true);
    for _ in 0..100 {
        run_frames(&mut engine, 512);
    }
    assert_eq!(engine.transport.sample_count, 51200 - 44100);
}

#[test]
fn global_loop_disabled_never_wraps() {
    let mut engine = test_engine();
    engine.play();
    for _ in 0..100 {
        run_frames(&mut engine, 512);
    }
    assert_eq!(engine.transport.sample_count, 51200);
}

#[test]
fn voice_frame_mutes_past_natural_without_clip_loop() {
    let mut engine = test_engine();
    engine.set_mode(EngineMode::OpenLive);
    add_stereo(&mut engine, 1, 0, 0, vec![0.5f32; 1000 * 2]);
    let t = engine.transport;
    assert!(!engine.clips[0].has_valid_clip_loop());
    assert_eq!(engine.clips[0].voice_frame(0, &t), Some(0));
    assert_eq!(engine.clips[0].voice_frame(999, &t), Some(999));
    assert_eq!(engine.clips[0].voice_frame(1000, &t), None);
    assert_eq!(engine.clips[0].voice_frame(5000, &t), None);
}

#[test]
fn voice_frame_with_explicit_clip_loop_wraps() {
    let mut engine = test_engine();
    engine.set_mode(EngineMode::OpenLive);
    add_stereo(&mut engine, 1, 0, 0, vec![0.5f32; 1000 * 2]);
    // 0.25 s at 44.1 kHz
    engine.set_clip_loop(0, 0, 0, 11025, true);
    assert!(engine.clips[0].has_valid_clip_loop());
    let t = engine.transport;
    let wrapped = engine.clips[0].voice_frame(5000, &t).unwrap();
    assert!((0..1000).contains(&(wrapped as u64)));
}

#[test]
fn clip_loop_region_is_honored() {
    let mut engine = test_engine();
    engine.set_mode(EngineMode::OpenLive);
    add_stereo(&mut engine, 1, 0, 0, vec![0.5f32; 44100 * 2]);
    // 0.5 s at 44.1 kHz
    engine.set_clip_loop(0, 0, 0, 22050, true);
    let clip = &engine.clips[0];
    assert!(clip.has_valid_clip_loop());
    assert_eq!(clip.clip_loop_start, 0);
    assert_eq!(clip.clip_loop_end, 22050);
    assert_eq!(clip.playback_length_frames(), 22050);
    engine.set_clip_loop(0, 0, 0, 0, false);
    assert!(!engine.clips[0].has_valid_clip_loop());
    assert_eq!(engine.clips[0].playback_length_frames(), 44100);
}

#[test]
fn openlive_bar10_is_silent_with_15bar_time_selection() {
    let mut engine = test_engine();
    engine.set_mode(EngineMode::OpenLive);
    let nine_bars = BAR_FRAMES * 9;
    let fifteen_bars = BAR_FRAMES * 15;
    add_stereo(&mut engine, 1, 0, 0, vec![0.5f32; (nine_bars as usize) * 2]);
    assert!(!engine.clips[0].has_valid_clip_loop());
    engine.set_global_loop(0, fifteen_bars, true);
    engine.trigger_clip(0, 0);
    engine.play();
    run_in_blocks(&mut engine, nine_bars);
    let plan = run_frames(&mut engine, 512);
    assert!(block_is_silent(&plan));
    assert!(!engine.clips[0].is_playing);
}

#[test]
fn openlive_short_time_selection_does_not_extend_voice() {
    let mut engine = test_engine();
    engine.set_mode(EngineMode::OpenLive);
    let nine_bars = BAR_FRAMES * 9;
    add_stereo(&mut engine, 1, 0, 0, vec![0.5f32; (nine_bars as usize) * 2]);
    engine.set_global_loop(0, BAR_FRAMES * 4, true);
    engine.trigger_clip(0, 0);
    engine.play();
    let mut remaining = BAR_FRAMES * 10;
    let mut last_silent = false;
    while remaining > 0 {
        let step = remaining.min(512);
        let plan = run_frames(&mut engine, step);
        last_silent = block_is_silent(&plan);
        remaining -= step;
    }
    assert!(last_silent);
    assert!(!engine.clips[0].is_playing);
}

#[test]
fn openlive_explicit_clip_loop_keeps_sounding_past_bar9() {
    let mut engine = test_engine();
    engine.set_mode(EngineMode::OpenLive);
    let nine_bars = BAR_FRAMES * 9;
    add_stereo(&mut engine, 1, 0, 0, vec![0.5f32; (nine_bars as usize) * 2]);
    engine.set_clip_loop(0, 0, 0, BAR_FRAMES, true);
    assert!(engine.clips[0].has_valid_clip_loop());
    engine.set_global_loop(0, BAR_FRAMES * 15, true);
    engine.trigger_clip(0, 0);
    engine.play();
    let mut remaining = BAR_FRAMES * 10;
    let mut last_plan = Vec::new();
    while remaining > 0 {
        let step = remaining.min(512);
        last_plan = run_frames(&mut engine, step);
        remaining -= step;
    }
    assert!(last_plan[0].reads.iter().all(|r| !matches!(r, FrameRead::Silent)));
    assert!(engine.clips[0].is_playing);
}

#[test]
fn openlive_trigger_starts_at_sample_zero() {
    for flow in 0..3 {
        let mut engine = test_engine();
        engine.set_mode(EngineMode::OpenLive);
        let n = 8192u64;
        add_stereo(&mut engine, 1, 0, 0, ramp(n));
        match flow {
            0 => {
                engine.trigger_clip(0, 0);
                engine.play();
            }
            1 => {
                engine.play();
                run_frames(&mut engine, 200_000);
                engine.trigger_clip(0, 0);
            }
            _ => {
                engine.trigger_clip(0, 0);
                engine.play();
                run_frames(&mut engine, 1000);
                engine.stop();
                engine.trigger_clip(0, 0);
                engine.trigger_clip(0, 0);
                engine.play();
            }
        }
        let plan = run_frames(&mut engine, 512);
        assert_eq!(plan[0].reads.len(), 512);
        for f in 0..512usize {
            assert_eq!(src_frame(&plan[0].reads[f]), Some(f), "flow {}: frame {}", flow, f);
        }
    }
}

#[test]
fn openlive_strict_close_past_native_length() {
    let mut engine = test_engine();
    engine.set_mode(EngineMode::OpenLive);
    let n = 4096u64;
    add_stereo(&mut engine, 1, 0, 0, vec![0.5f32; (n * 2) as usize]);
    engine.trigger_clip(0, 0);
    engine.play();
    run_in_blocks(&mut engine, n);
    for _ in 0..3 {
        let plan = run_frames(&mut engine, 512);
        assert!(block_is_silent(&plan));
    }
    assert!(!engine.clips[0].is_playing);
}

#[test]
fn openstudio_bar1_starts_at_sample_zero_and_ends_silent() {
    let mut engine = test_engine();
    engine.set_mode(EngineMode::OpenStudio);
    let n = 4096u64;
    let samples = ramp(n);
    let len = samples.len();
    engine.add_clip(1, 0, 0, samples, len, 0, Some(n), 0, 2, false);
    engine.transport.sample_count = 0;
    engine.play();
    let plan = run_frames(&mut engine, 512);
    for f in 0..512usize {
        assert_eq!(src_frame(&plan[0].reads[f]), Some(f), "frame {}", f);
    }
    run_in_blocks(&mut engine, n);
    let plan = run_frames(&mut engine, 512);
    assert!(block_is_silent(&plan));
}

#[test]
fn voice_elapsed_frames_tracks_linear_voice_clock() {
    let mut engine = test_engine();
    engine.set_mode(EngineMode::OpenLive);
    add_stereo(&mut engine, 1, 0, 0, vec![0.5f32; 8192 * 2]);
    assert_eq!(engine.voice_elapsed_frames(0, 0), None);
    assert_eq!(engine.voice_elapsed_frames(9, 9), None);
    engine.trigger_clip(0, 0);
    engine.transport.sample_count = 200_000;
    assert_eq!(engine.voice_elapsed_frames(0, 0), Some(0));
    engine.play();
    run_frames(&mut engine, 512);
    assert_eq!(engine.voice_elapsed_frames(0, 0), Some(512));
    engine.transport.sample_count = 0;
    assert_eq!(engine.voice_elapsed_frames(0, 0), Some(512));
}

#[test]
fn voice_playhead_frame_returns_voice_position_and_natural_frames() {
    let mut engine = test_engine();
    engine.set_mode(EngineMode::OpenLive);
    add_stereo(&mut engine, 1, 0, 0, vec![0.5f32; 8192 * 2]);
    assert_eq!(engine.voice_playhead_frame(0, 0), None);
    engine.trigger_clip(0, 0);
    assert_eq!(engine.voice_playhead_frame(0, 0), Some((0, 8192)));
    engine.play();
    run_frames(&mut engine, 512);
    assert_eq!(engine.voice_playhead_frame(0, 0), Some((512, 8192)));
    engine.trigger_clip(0, 0);
    assert_eq!(engine.voice_playhead_frame(0, 0), None);
}

#[test]
fn openlive_full_clip_loop_wraps_past_natural_end() {
    let mut engine = test_engine();
    engine.set_mode(EngineMode::OpenLive);
    let natural = 4096u64;
    let mut samples = Vec::with_capacity((natural * 2) as usize);
    for i in 0..natural {
        // first half silent, second half loud: shows where the wrap lands
        let v = if i < natural / 2 { 0.0f32 } else { 0.5f32 };
        samples.push(v);
        samples.push(v);
    }
    add_stereo(&mut engine, 1, 0, 0, samples);
    engine.set_clip_loop(0, 0, 0, natural, true);
    assert!(engine.clips[0].has_valid_clip_loop());
    engine.trigger_clip(0, 0);
    engine.play();

    let loud = |plan: &Vec<ClipBlock>| {
        plan[0].reads.iter().any(|r| matches!(src_frame(r), Some(f) if f as u64 >= natural / 2))
    };

    let to_loud_half = natural / 2 + 100;
    run_frames(&mut engine, to_loud_half);
    let plan = run_frames(&mut engine, 256);
    assert!(loud(&plan), "the loud half must sound");

    let remaining_to_quarter = natural - to_loud_half + natural / 4;
    run_frames(&mut engine, remaining_to_quarter);
    assert!(engine.clips[0].is_playing, "the clip keeps playing after the loop");
    let plan = run_frames(&mut engine, 256);
    assert!(!loud(&plan), "after the wrap it lands in the silent half");

    run_frames(&mut engine, natural / 2);
    assert!(engine.clips[0].is_playing);
    let plan = run_frames(&mut engine, 256);
    assert!(loud(&plan), "the second half sounds again after the wrap");
}

#[test]
fn new_engine_is_stopped_studio_without_clips() {
    let engine = test_engine();
    assert_eq!(engine.mode, EngineMode::OpenStudio);
    assert!(engine.clips.is_empty());
    assert_eq!(engine.transport.sample_count, 0);
    assert_eq!(engine.absolute_frame, 0);
}

#[test]
fn stopped_transport_renders_nothing() {
    let mut engine = test_engine();
    add_stereo(&mut engine, 1, 0, 0, vec![0.5f32; 200]);
    let plan = run_frames(&mut engine, 512);
    assert!(plan.is_empty());
    assert_eq!(engine.transport.sample_count, 0);
}

#[test]
fn studio_mode_replaces_clip_by_id_live_by_slot() {
    let mut engine = test_engine();
    add_stereo(&mut engine, 7, 0, 0, vec![0.5f32; 200]);
    add_stereo(&mut engine, 7, 3, 3, vec![0.5f32; 400]);
    assert_eq!(engine.clips.len(), 1);
    assert_eq!(engine.clips[0].track_index, 3);
    engine.set_mode(EngineMode::OpenLive);
    add_stereo(&mut engine, 8, 3, 3, vec![0.5f32; 600]);
    assert_eq!(engine.clips.len(), 1);
    assert_eq!(engine.clips[0].id, 8);
    assert_eq!(engine.clips[0].natural_frames(), 300);
}

#[test]
fn remove_clip_drops_addressed_clip() {
    let mut engine = test_engine();
    add_stereo(&mut engine, 1, 0, 0, vec![0.5f32; 200]);
    add_stereo(&mut engine, 2, 0, 1, vec![0.5f32; 200]);
    engine.remove_clip(1, 0, 0);
    assert_eq!(engine.clips.len(), 1);
    assert_eq!(engine.clips[0].id, 2);
}

#[test]
fn stop_track_stops_only_that_track() {
    let mut engine = test_engine();
    engine.set_mode(EngineMode::OpenLive);
    add_stereo(&mut engine, 1, 0, 0, vec![0.5f32; 200]);
    add_stereo(&mut engine, 2, 1, 0, vec![0.5f32; 200]);
    engine.trigger_scene(0);
    engine.stop_track(0);
    assert!(!engine.clips[0].is_playing);
    assert!(engine.clips[1].is_playing);
}

#[test]
fn muted_track_contributes_nothing_and_solo_silences_others() {
    let mut engine = test_engine();
    engine.set_mode(EngineMode::OpenLive);
    add_stereo(&mut engine, 1, 0, 0, vec![0.5f32; 2000]);
    add_stereo(&mut engine, 2, 1, 0, vec![0.5f32; 2000]);
    engine.trigger_scene(0);
    engine.play();
    engine.set_track_mute(0, true);
    let plan = run_frames(&mut engine, 16);
    assert!(plan[0].reads.is_empty());
    assert_eq!(plan[1].reads.len(), 16);
    engine.set_track_mute(0, false);
    engine.set_track_solo(0, true);
    let plan = run_frames(&mut engine, 16);
    assert_eq!(plan[0].reads.len(), 16);
    assert!(plan[1].reads.is_empty());
}

#[test]
fn seek_and_stop_move_the_transport() {
    let mut engine = test_engine();
    engine.seek(1234);
    assert_eq!(engine.transport.sample_count, 1234);
    engine.play();
    engine.pause();
    assert_eq!(engine.transport.sample_count, 1234);
    engine.stop();
    assert_eq!(engine.transport.sample_count, 0);
}

#[test]
fn update_clip_bounds_moves_and_restores_duration() {
    let mut engine = test_engine();
    add_stereo(&mut engine, 1, 0, 0, vec![0.5f32; 2000]);
    engine.update_clip_bounds(1, 0, 0, 500, Some(100), 10);
    assert_eq!(engine.clips[0].start_frame, 500);
    assert_eq!(engine.clips[0].duration_frames, 100);
    assert_eq!(engine.clips[0].sample_offset, 20);
    engine.update_clip_bounds(1, 0, 0, 500, None, 0);
    assert_eq!(engine.clips[0].duration_frames, 1000);
}

#[test]
fn voice_state_finishes_after_natural_end() {
    let mut engine = test_engine();
    engine.set_mode(EngineMode::OpenLive);
    add_stereo(&mut engine, 1, 0, 0, vec![0.5f32; 200]);
    assert_eq!(engine.clips[0].voice_state_linear(0), VoiceState::Active);
    assert_eq!(engine.clips[0].voice_state_linear(99), VoiceState::Active);
    assert_eq!(engine.clips[0].voice_state_linear(100), VoiceState::Finished);
}

#[test]
fn dms_notes_take_free_voices_then_steal_oldest() {
    let mut engine = test_engine();
    engine.load_dms_sample(3, vec![0.5f32; 64], 2);
    assert!(engine.trigger_dms_note(0).is_none());
    let v = engine.trigger_dms_note(3);
    assert!(v.is_some());
    engine.kill_dms_note(3);
    engine.set_dms_track(5);
    assert_eq!(engine.dms_track_idx, 5);
}

#[test]
fn update_midi_clip_replaces_notes_of_slot() {
    let mut engine = test_engine();
    let note = MidiNoteInstance { start_tick: 0, pitch: 60, velocity: 100, duration_ticks: 240 };
    engine.update_midi_clip(0, 0, vec![note.clone()]);
    engine.update_midi_clip(0, 0, vec![note.clone(), note]);
    assert_eq!(engine.midi_clips.len(), 1);
    assert_eq!(engine.midi_clips[0].notes.len(), 2);
}

#[test]
fn playhead_of_looped_clip_plays_through_before_cycling() {
    let mut engine = test_engine();
    engine.set_mode(EngineMode::OpenLive);
    add_stereo(&mut engine, 1, 0, 0, vec![0.5f32; 88200]);
    // 0.5 s .. 0.75 s at 44.1 kHz
    engine.set_clip_loop(0, 0, 22050, 33075, true);
    engine.trigger_clip(0, 0);
    assert_eq!(engine.voice_playhead_frame(0, 0), Some((0, 44100)));
    engine.play();
    run_frames(&mut engine, 33075 + 100);
    assert_eq!(engine.voice_playhead_frame(0, 0), Some((22050 + 100, 44100)));
}

#[test]
fn stopped_engine_renders_nothing_even_at_clock_end() {
    let mut engine = test_engine();
    engine.transport.sample_count = u64::MAX;
    engine.absolute_frame = u64::MAX;
    let plan = run_frames(&mut engine, 512);
    assert!(plan.is_empty());
    assert_eq!(engine.transport.sample_count, u64::MAX);
}

#[test]
fn midi_clip_update_keeps_mutes_and_solos() {
    let mut engine = test_engine();
    engine.set_track_solo(3, true);
    engine.set_track_mute(1, true);
    engine.update_midi_clip(0, 0, vec![]);
    assert!(engine.track_solos[3] && engine.track_mutes[1]);
}
