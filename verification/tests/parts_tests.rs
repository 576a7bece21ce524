use hikaru::audio_event::AudioEvent;
use hikaru::clip_editor::{InspectorToolMode, SnapValue};
use hikaru::dms::{DmsEnvStage, DmsVoice, DmsVoicePool, MAX_DMS_VOICES};
use hikaru::dsp_rack::{rack_add_slot, rack_key_press, rack_move_slot, rack_remove_slot, rack_title, RackKey};
use hikaru::footer::{BottomPanel, PanelVisibility};
use hikaru::midi::{GeneralKeyboard, LaunchpadGrid, MidiMessage, MidiSequence};
use hikaru::open_dms::{DmsPad, OpenDms};
use hikaru::plugins::{
    classify_plugin_entry, scan_entry, DspPluginNode, PluginCategory, PluginFormat, PluginScan, ScanMessage,
};
use hikaru::text::{midi_note_name, pitch_to_note_name};
use hikaru::transport::TransportPosition;

#[test]
fn keyboard_needs_four_octaves() {
    assert!(!GeneralKeyboard::new(3).is_playable());
    assert!(GeneralKeyboard::new(4).is_playable());
    assert_eq!(GeneralKeyboard::new(7).octaves, 7);
}

#[test]
fn launchpad_lights_pads_on_note_on() {
    let mut g = LaunchpadGrid::new();
    assert!(g.active_pads.iter().all(|p| !p));
    g.handle_message(&MidiMessage::NoteOn { channel: 0, pitch: 10, velocity: 100 });
    assert!(g.active_pads[10]);
    g.handle_message(&MidiMessage::NoteOn { channel: 0, pitch: 11, velocity: 0 });
    g.handle_message(&MidiMessage::NoteOn { channel: 0, pitch: 80, velocity: 100 });
    g.handle_message(&MidiMessage::NoteOff { channel: 0, pitch: 10, velocity: 0 });
    assert!(g.active_pads[10]);
    assert_eq!(g.active_pads.iter().filter(|p| **p).count(), 1);
}

#[test]
fn midi_file_that_is_not_midi_is_refused() {
    match MidiSequence::from_file_bytes(b"hello") {
        Err(e) => assert_eq!(e, "invalid midi: not a midi file"),
        Ok(_) => panic!("not a midi file"),
    }
    assert!(MidiSequence::from_file_bytes(&[]).is_err());
}

#[test]
fn minimal_midi_file_parses() {
    let bytes: Vec<u8> = vec![
        b'M', b'T', b'h', b'd', 0, 0, 0, 6, 0, 0, 0, 1, 0x01, 0xE0, b'M', b'T', b'r', b'k', 0, 0, 0, 4, 0x00, 0xFF,
        0x2F, 0x00,
    ];
    let seq = MidiSequence::from_file_bytes(&bytes).unwrap();
    assert_eq!(seq.ticks_per_beat, 960);
    assert!(seq.messages.is_empty());
}

#[test]
fn parse_result_maps_to_sequence() {
    assert_eq!(MidiSequence::from_parse_result(Ok(())).unwrap().ticks_per_beat, 960);
    match MidiSequence::from_parse_result(Err("bad".to_string())) {
        Err(e) => assert_eq!(e, "bad"),
        Ok(_) => panic!("error expected"),
    }
}

#[test]
fn note_names() {
    assert_eq!(pitch_to_note_name(61), "C#");
    assert_eq!(pitch_to_note_name(71), "B");
    assert_eq!(midi_note_name(60), "C4");
    assert_eq!(midi_note_name(0), "C-1");
    assert_eq!(midi_note_name(11), "B-1");
    assert_eq!(midi_note_name(127), "G9");
    assert_eq!(midi_note_name(36), "C2");
}

#[test]
fn transport_wraps_only_with_valid_loop() {
    let mut t = TransportPosition::new();
    assert_eq!(t.sample_count, 0);
    assert!(!t.has_valid_loop());
    assert_eq!(t.wrap_sample_count(50_000), 50_000);
    t.set_loop_region_samples(1000, 2000);
    t.set_loop_enabled(true);
    assert!(t.has_valid_loop());
    assert_eq!(t.wrap_sample_count(1500), 1500);
    assert_eq!(t.wrap_sample_count(2000), 1000);
    assert_eq!(t.wrap_sample_count(2500), 1500);
    t.set_loop_region_samples(2000, 2000);
    assert!(!t.has_valid_loop());
}

#[test]
fn dms_pool_uses_idle_voices_then_steals_oldest() {
    let mut pool = DmsVoicePool::new();
    assert_eq!(pool.voices.len(), MAX_DMS_VOICES);
    for i in 0..MAX_DMS_VOICES {
        assert_eq!(pool.trigger(i), Some(i));
    }
    // all busy: the oldest (the first) is stolen
    assert_eq!(pool.trigger(99), Some(0));
    assert_eq!(pool.voices[0].pad_idx, 99);
    assert_eq!(pool.voices[0].env_stage, DmsEnvStage::Attack);
    pool.release_pad(99);
    assert_eq!(pool.voices[0].env_stage, DmsEnvStage::Release);
    pool.kill_pad(5);
    assert!(!pool.voices[5].active);
    assert_eq!(pool.trigger(7), Some(5));
}

#[test]
fn dms_voice_envelope_order() {
    let mut v = DmsVoice::new();
    v.active = true;
    v.env_stage = DmsEnvStage::Attack;
    v.complete_stage();
    assert_eq!(v.env_stage, DmsEnvStage::Decay);
    v.complete_stage();
    assert_eq!(v.env_stage, DmsEnvStage::Sustain);
    v.complete_stage();
    assert_eq!(v.env_stage, DmsEnvStage::Sustain);
    v.env_stage = DmsEnvStage::Release;
    v.complete_stage();
    assert_eq!(v.env_stage, DmsEnvStage::Free);
    assert!(!v.active);
    v.active = true;
    v.finish();
    assert!(!v.active);
}

#[test]
fn snap_labels() {
    assert_eq!(SnapValue::Off.label(), "Off (Free)");
    assert_eq!(SnapValue::Bar1.label(), "1 Bar");
    assert_eq!(SnapValue::Beat1_16.label(), "1/16 Beat");
    assert_ne!(InspectorToolMode::Gain, InspectorToolMode::Pan);
}

#[test]
fn audio_event_window_and_split() {
    let mut e = AudioEvent::new_full(1, "a".to_string(), 2000, 2, 44100);
    assert_eq!(e.total_frames(), 1000);
    assert_eq!(e.frames(), 1000);
    assert_eq!(e.window_range(), (0, 2000));
    assert!(e.split_at_frame(0, 2, "b".to_string()).is_none());
    assert!(e.split_at_frame(1000, 2, "b".to_string()).is_none());
    let right = e.split_at_frame(300, 2, "b".to_string()).unwrap();
    assert_eq!(e.frames(), 300);
    assert_eq!(e.window_range(), (0, 600));
    assert_eq!(right.id, 2);
    assert_eq!(right.trim_left_frames, 300);
    assert_eq!(right.frames(), 700);
    assert_eq!(right.window_range(), (600, 2000));
    // a window past the buffer is cut at its end
    let mut odd = AudioEvent::new_full(3, "c".to_string(), 10, 0, 8000);
    odd.trim_left_frames = 8;
    assert_eq!(odd.frames(), 2);
    assert_eq!(odd.window_range(), (8, 10));
}

#[test]
fn plugin_entries_are_classified() {
    assert_eq!(classify_plugin_entry("clap", false, "a.clap"), Some(PluginFormat::CLAP));
    assert_eq!(classify_plugin_entry("vst3", false, "a.vst3"), Some(PluginFormat::VST3));
    assert_eq!(classify_plugin_entry("so", false, "a.so"), Some(PluginFormat::VST3));
    assert_eq!(classify_plugin_entry("", true, "Bundle.vst3"), Some(PluginFormat::VST3));
    assert_eq!(classify_plugin_entry("", false, "Bundle.vst3x"), None);
    assert_eq!(classify_plugin_entry("txt", false, "readme.txt"), None);
}

#[test]
fn scan_entry_names_plugins_after_their_stem() {
    let e = scan_entry("/usr/lib/clap/Surge XT.clap".to_string(), false);
    assert_eq!(e.file_name, "Surge XT.clap");
    let p = e.plugin.unwrap();
    assert_eq!(p.name, "Surge XT");
    assert_eq!(p.format, PluginFormat::CLAP);
    assert_eq!(p.path, "/usr/lib/clap/Surge XT.clap");
    let e = scan_entry("/usr/lib/vst3/notes.txt".to_string(), false);
    assert_eq!(e.file_name, "notes.txt");
    assert!(e.plugin.is_none());
}

#[test]
fn scan_status_follows_messages() {
    let mut s = PluginScan::new();
    assert_eq!(s.status_message, "Listo para escanear.");
    assert!(s.start_scan());
    assert!(!s.start_scan());
    assert_eq!(s.status_message, "Iniciando escaneo de plugins...");
    s.apply(ScanMessage::ScanningFile("x.clap".to_string()));
    assert_eq!(s.status_message, "Escaneando: x.clap");
    let found = scan_entry("/p/x.clap".to_string(), false).plugin.unwrap();
    s.apply(ScanMessage::Found(found));
    assert_eq!(s.discovered_plugins.len(), 1);
    s.apply(ScanMessage::Finished(12));
    assert!(!s.is_scanning);
    assert_eq!(s.status_message, "Escaneo finalizado. 12 plugins listos.");
}

#[test]
fn pads_are_named_and_reload_peaks_once() {
    let mut p = DmsPad::new(0, 36);
    assert_eq!(p.name, "Pad 01");
    assert_eq!(DmsPad::new(11, 47).name, "Pad 12");
    assert_eq!(p.display_filename(), "No Sample Loaded");
    assert!(p.load_sample("/s/kick.wav".to_string()));
    assert!(!p.load_sample("/s/kick.wav".to_string()));
    assert_eq!(p.display_filename(), "kick.wav");
    assert!(p.load_sample("/s/..".to_string()));
    assert_eq!(p.display_filename(), "Unknown");
    let d = OpenDms::default();
    assert_eq!(d.pads.len(), 64);
    assert_eq!(d.pads[63].midi_note, 99);
    assert_eq!(d.pad_count, 16);
}

#[test]
fn rack_keys_move_selection_and_slots() {
    let mut chain = vec!["a", "b", "c"];
    let mut sel = 1usize;
    assert!(rack_key_press(&mut chain, &mut sel, RackKey::Right, false));
    assert_eq!(sel, 2);
    assert!(!rack_key_press(&mut chain, &mut sel, RackKey::Right, true));
    assert_eq!(chain, vec!["a", "b", "c"]);
    assert!(rack_key_press(&mut chain, &mut sel, RackKey::Left, true));
    assert_eq!(sel, 1);
    assert_eq!(chain, vec!["a", "c", "b"]);
    assert!(rack_key_press(&mut chain, &mut sel, RackKey::Right, true));
    assert_eq!(chain, vec!["a", "b", "c"]);
    assert_eq!(sel, 2);
    rack_move_slot(&mut chain, &mut sel, 0, false);
    assert_eq!(chain, vec!["b", "a", "c"]);
    assert_eq!(sel, 1);
    rack_move_slot(&mut chain, &mut sel, 0, true);
    assert_eq!(chain, vec!["b", "a", "c"]);
    assert_eq!(sel, 1);
}

#[test]
fn rack_add_and_remove_slots() {
    let mut chain: Vec<u32> = Vec::new();
    let mut sel = 0usize;
    rack_add_slot(&mut chain, &mut sel, 7);
    rack_add_slot(&mut chain, &mut sel, 8);
    assert_eq!(sel, 1);
    rack_remove_slot(&mut chain, &mut sel);
    assert_eq!(chain, vec![7]);
    assert_eq!(sel, 0);
    rack_remove_slot(&mut chain, &mut sel);
    assert!(chain.is_empty());
    rack_remove_slot(&mut chain, &mut sel);
    assert!(chain.is_empty());
    assert_eq!(rack_title("Bass", Some((0, 2))), "DSP RACK: Bass | Scene 3");
    assert_eq!(rack_title("Bass", None), "DSP RACK: Bass");
}

#[test]
fn footer_panels_are_exclusive() {
    let mut v = PanelVisibility { clip_editor: false, piano_roll: false, dsp_rack: false };
    v.toggle(BottomPanel::PianoRoll);
    assert!(v.piano_roll && !v.clip_editor && !v.dsp_rack);
    v.toggle(BottomPanel::DspRack);
    assert!(v.dsp_rack && !v.piano_roll);
    v.toggle(BottomPanel::DspRack);
    assert!(!v.dsp_rack && !v.piano_roll && !v.clip_editor);
}

#[test]
fn split_halves_meet_at_the_cut() {
    let mut e = AudioEvent::new_full(1, "a".to_string(), 3000, 3, 48000);
    e.trim_left_frames = 100;
    e.visible_frames = 600;
    let before = e.window_range();
    let right = e.split_at_frame(250, 9, "r".to_string()).unwrap();
    let (ls, le) = e.window_range();
    let (rs, re) = right.window_range();
    assert_eq!(ls, before.0);
    assert_eq!(le, rs);
    assert_eq!(re, before.1);
    assert_eq!(e.frames() + right.frames(), 600);
}

#[test]
fn plugin_nodes_start_active() {
    let node = DspPluginNode::new("Vital (VST3)".to_string(), PluginCategory::Vst3Generator, 42u32);
    assert!(node.is_active);
    assert_eq!(node.category, PluginCategory::Vst3Generator);
    assert_eq!(node.instance, 42);
    assert_eq!(node.name, "Vital (VST3)");
}

#[test]
fn drum_preview_needs_a_loaded_pad() {
    let mut d = OpenDms::default();
    assert!(d.pads[1].load_sample("/s/snare.wav".to_string()));
    assert_eq!(d.preview_pad(37), Some(1));
    assert_eq!(d.preview_pad(36), None);
    assert_eq!(d.preview_pad(10), None);
}

#[test]
fn events_are_found_and_removed_by_id() {
    let mut events = vec![
        AudioEvent::new_full(1, "a".to_string(), 10, 1, 100),
        AudioEvent::new_full(2, "b".to_string(), 10, 1, 100),
        AudioEvent::new_full(3, "c".to_string(), 10, 1, 100),
    ];
    assert_eq!(hikaru::audio_event::find_event(&events, 2), Some(1));
    assert_eq!(hikaru::audio_event::find_event(&events, 9), None);
    hikaru::audio_event::remove_event(&mut events, 2);
    assert_eq!(events.iter().map(|e| e.id).collect::<Vec<_>>(), vec![1, 3]);
    hikaru::audio_event::remove_event(&mut events, 9);
    assert_eq!(events.len(), 2);
}

#[test]
fn dropped_audio_files_rename_and_load_pads() {
    assert!(hikaru::open_dms::is_audio_file("/s/Kick.WAV"));
    assert!(hikaru::open_dms::is_audio_file("/s/loop.flac"));
    assert!(!hikaru::open_dms::is_audio_file("/s/notes.txt"));
    assert!(!hikaru::open_dms::is_audio_file("/s/noext"));
    let mut d = OpenDms::default();
    assert_eq!(d.drop_sample(2, "/s/readme.md".to_string()), None);
    assert_eq!(d.pads[2].name, "Pad 03");
    assert_eq!(d.drop_sample(2, "/s/Snare Hit.ogg".to_string()), Some(true));
    assert_eq!(d.pads[2].name, "Snare Hit");
    assert_eq!(d.pads[2].display_filename(), "Snare Hit.ogg");
    assert_eq!(d.drop_sample(2, "/s/Snare Hit.ogg".to_string()), Some(false));
    let mut p = DmsPad::new(5, 41);
    assert!(p.assign_sample("/s/clap.wav".to_string()));
    assert_eq!(p.name, "clap");
}

#[test]
fn audio_extensions_are_compared_lower_case() {
    assert!(hikaru::open_dms::is_audio_extension("wav"));
    assert!(hikaru::open_dms::is_audio_extension("ogg"));
    assert!(!hikaru::open_dms::is_audio_extension("WAV"));
    assert!(!hikaru::open_dms::is_audio_extension("aiff"));
}
