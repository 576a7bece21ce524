//! Settings of the audio clip editor: grid snapping and the inspector's tool.

use vstd::prelude::*;

verus! {

/// The grid an edit snaps to in the clip editor.
#[derive(Clone, Copy, Debug, PartialEq, Eq, Structural)]
pub enum SnapValue {
    /// No snapping (free placement).
    Off,
    Bar1,
    Beat1_2,
    Beat1_4,
    Beat1_8,
    Beat1_16,
}

/// The text shown for each snap setting.
pub open spec fn snap_label(v: SnapValue) -> Seq<char> {
    match v {
        SnapValue::Off => "Off (Free)"@,
        SnapValue::Bar1 => "1 Bar"@,
        SnapValue::Beat1_2 => "1/2 Beat"@,
        SnapValue::Beat1_4 => "1/4 Beat"@,
        SnapValue::Beat1_8 => "1/8 Beat"@,
        SnapValue::Beat1_16 => "1/16 Beat"@,
    }
}

impl SnapValue {
    /// The text shown for this snap setting.
    pub fn label(&self) -> (s: &'static str)
        ensures
            s@ == snap_label(*self),
    {
        match self {
            SnapValue::Off => "Off (Free)",
            SnapValue::Bar1 => "1 Bar",
            SnapValue::Beat1_2 => "1/2 Beat",
            SnapValue::Beat1_4 => "1/4 Beat",
            SnapValue::Beat1_8 => "1/8 Beat",
            SnapValue::Beat1_16 => "1/16 Beat",
        }
    }
}

/// The tool active in the clip inspector; exactly one at a time.
#[derive(Clone, Copy, Debug, PartialEq, Eq, Structural)]
pub enum InspectorToolMode {
    AudioEvents,
    Comping,
    Stretch,
    Onsets,
    Gain,
    Pan,
    Pitch,
    Formant,
}

} // verus!
