//! MIDI events and the simple hardware controllers that consume them.

use vstd::prelude::*;

verus! {

/// A decoded MIDI channel message.
#[derive(Debug, Clone, PartialEq)]
pub enum MidiMessage {
    NoteOn { channel: u8, pitch: u8, velocity: u8 },
    NoteOff { channel: u8, pitch: u8, velocity: u8 },
    ControlChange { channel: u8, controller: u8, value: u8 },
    PitchBend { channel: u8, value: u16 },
    SysEx(Vec<u8>),
}

/// A raw three-byte MIDI event.
#[derive(Debug, Clone, Copy, PartialEq, Eq, Structural)]
pub struct MidiEvent {
    pub status: u8,
    pub data1: u8,
    pub data2: u8,
}

/// A generic keyboard controller, described by its number of octaves.
pub struct GeneralKeyboard {
    pub octaves: u8,
}

impl GeneralKeyboard {
    pub fn new(octaves: u8) -> (kb: Self)
        ensures
            kb.octaves == octaves,
    {
        Self { octaves }
    }

    /// A keyboard is playable when it spans at least four octaves.
    pub fn is_playable(&self) -> (b: bool)
        ensures
            b == (self.octaves >= 4),
    {
        self.octaves >= 4
    }
}

/// An 8x8 pad controller: one lit flag per pad.
pub struct LaunchpadGrid {
    pub active_pads: [bool; 64],
}

/// The pad (if any) that a message lights: a note-on with non-zero velocity
/// on one of the 64 lowest pitches.
pub open spec fn lit_pad(msg: MidiMessage) -> Option<int> {
    match msg {
        MidiMessage::NoteOn { pitch, velocity, .. } => if velocity > 0 && pitch < 64 {
            Some(pitch as int)
        } else {
            None
        },
        _ => None,
    }
}

impl LaunchpadGrid {
    pub fn new() -> (g: Self)
        ensures
            forall|i: int| 0 <= i < 64 ==> !#[trigger] g.active_pads@[i],
    {
        Self { active_pads: [false; 64] }
    }

    /// Lights the pad that a note-on addresses; every other message, and
    /// every other pad, is left as it was. Pads are never switched off here.
    pub fn handle_message(&mut self, msg: &MidiMessage)
        ensures
            final(self).active_pads@ == (match lit_pad(*msg) {
                Some(p) => old(self).active_pads@.update(p, true),
                None => old(self).active_pads@,
            }),
    {
        if let MidiMessage::NoteOn { pitch, velocity, .. } = msg {
            if *velocity > 0 && *pitch < 64 {
                let i: usize = *pitch as usize;
                self.active_pads[i] = true;
            }
        }
    }
}

/// What `midly` makes of `bytes` as a Standard MIDI File: `None` when it
/// parses them, otherwise the text of the error it reports.
pub uninterp spec fn smf_parse_outcome(bytes: Seq<u8>) -> Option<Seq<char>>;

/// Whether `bytes` begin with the tag of a MIDI file ("MThd") or of a RIFF
/// container ("RIFF").
pub open spec fn has_midi_tag(bytes: Seq<u8>) -> bool {
    bytes.len() >= 4 && (bytes.subrange(0, 4) == seq![0x4du8, 0x54u8, 0x68u8, 0x64u8] || bytes.subrange(0, 4)
        == seq![0x52u8, 0x49u8, 0x46u8, 0x46u8])
}

/// Parses `bytes` with `midly::Smf::parse`, keeping only whether it
/// succeeded and, if not, the error's text. The outcome is named
/// ([`smf_parse_outcome`]); of it the crate's source shows that bytes
/// without a MIDI or RIFF tag are refused as "invalid midi: not a midi
/// file".
#[verifier::external_body]
fn parse_smf(bytes: &[u8]) -> (r: Result<(), String>)
    ensures
        r is Ok <==> smf_parse_outcome(bytes@) is None,
        r is Err ==> smf_parse_outcome(bytes@) == Some(r->Err_0@),
        !has_midi_tag(bytes@) ==> r is Err && r->Err_0@ == "invalid midi: not a midi file"@,
{
    match midly::Smf::parse(bytes) {
        Ok(_) => Ok(()),
        Err(e) => Err(e.to_string()),
    }
}

/// A MIDI sequence: its resolution and its timed messages.
pub struct MidiSequence {
    pub ticks_per_beat: u16,
    pub messages: Vec<(u64, MidiMessage)>,
}

impl MidiSequence {
    /// Reads a Standard MIDI File. A file that parses gives an empty
    /// sequence at 960 ticks per beat; otherwise the parser's error text is
    /// returned.
    pub fn from_file_bytes(bytes: &[u8]) -> (r: Result<Self, String>)
        ensures
            match smf_parse_outcome(bytes@) {
                None => r matches Ok(s) && s.ticks_per_beat == 960 && s.messages@.len() == 0,
                Some(m) => r matches Err(e) && e@ == m,
            },
    {
        Self::from_parse_result(parse_smf(bytes))
    }

    /// The sequence for a parse outcome: empty at 960 ticks per beat when
    /// the file parsed, the error text otherwise.
    pub fn from_parse_result(parsed: Result<(), String>) -> (r: Result<Self, String>)
        ensures
            match parsed {
                Ok(()) => r matches Ok(s) && s.ticks_per_beat == 960 && s.messages@.len() == 0,
                Err(m) => r matches Err(e) && e@ == m@,
            },
    {
        match parsed {
            Ok(()) => Ok(MidiSequence { ticks_per_beat: 960, messages: Vec::new() }),
            Err(m) => Err(m),
        }
    }
}

} // verus!
