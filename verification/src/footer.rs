//! The footer's panel toggles: the clip editor, the piano roll and the DSP
//! rack share the bottom of the window, and opening one closes the others.

use vstd::prelude::*;

verus! {

/// A bottom panel.
#[derive(Clone, Copy, Debug, PartialEq, Eq, Structural)]
pub enum BottomPanel {
    ClipEditor,
    PianoRoll,
    DspRack,
}

/// Which bottom panels are shown.
#[derive(Clone, Copy, Debug, PartialEq, Eq, Structural)]
pub struct PanelVisibility {
    pub clip_editor: bool,
    pub piano_roll: bool,
    pub dsp_rack: bool,
}

/// Whether `p` is shown.
pub open spec fn shown(v: PanelVisibility, p: BottomPanel) -> bool {
    match p {
        BottomPanel::ClipEditor => v.clip_editor,
        BottomPanel::PianoRoll => v.piano_roll,
        BottomPanel::DspRack => v.dsp_rack,
    }
}

/// Whether at most one panel is shown.
pub open spec fn at_most_one(v: PanelVisibility) -> bool {
    &&& !(v.clip_editor && v.piano_roll)
    &&& !(v.clip_editor && v.dsp_rack)
    &&& !(v.piano_roll && v.dsp_rack)
}

/// The panels after clicking the toggle of `p`: it flips, and when it
/// opens the other two close.
pub open spec fn toggled(v: PanelVisibility, p: BottomPanel) -> PanelVisibility {
    if shown(v, p) {
        match p {
            BottomPanel::ClipEditor => PanelVisibility { clip_editor: false, ..v },
            BottomPanel::PianoRoll => PanelVisibility { piano_roll: false, ..v },
            BottomPanel::DspRack => PanelVisibility { dsp_rack: false, ..v },
        }
    } else {
        PanelVisibility {
            clip_editor: p == BottomPanel::ClipEditor,
            piano_roll: p == BottomPanel::PianoRoll,
            dsp_rack: p == BottomPanel::DspRack,
        }
    }
}

impl PanelVisibility {
    /// Clicks the toggle of panel `p` (see [`toggled`]).
    pub fn toggle(&mut self, p: BottomPanel)
        ensures
            *final(self) == toggled(*old(self), p),
    {
        match p {
            BottomPanel::ClipEditor => {
                self.clip_editor = !self.clip_editor;
                if self.clip_editor {
                    self.piano_roll = false;
                    self.dsp_rack = false;
                }
            },
            BottomPanel::PianoRoll => {
                self.piano_roll = !self.piano_roll;
                if self.piano_roll {
                    self.clip_editor = false;
                    self.dsp_rack = false;
                }
            },
            BottomPanel::DspRack => {
                self.dsp_rack = !self.dsp_rack;
                if self.dsp_rack {
                    self.clip_editor = false;
                    self.piano_roll = false;
                }
            },
        }
    }
}

/// Toggling a panel never leaves two panels shown, and after a toggle
/// that opens a panel it is the only one shown.
pub proof fn law_toggles_keep_one_panel(v: PanelVisibility, p: BottomPanel)
    requires
        at_most_one(v),
    ensures
        at_most_one(toggled(v, p)),
        !shown(v, p) ==> shown(toggled(v, p), p) && forall|q: BottomPanel| q != p ==> !shown(toggled(v, p), q),
        shown(v, p) ==> !shown(toggled(v, p), p),
{
}

} // verus!
