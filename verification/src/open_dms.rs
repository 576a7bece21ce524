//! The drum-machine sampler's pads: names, MIDI notes and loaded samples.

use vstd::prelude::*;
use vstd::string::StringExecFns;
use vstd::string::StrSliceExecFns;
use crate::text::{decimal, push_decimal};
use crate::plugins::{
    extension_text, file_name_text, file_stem_text, path_extension, path_file_name, path_file_stem, text_of,
};

verus! {

/// A pad of the drum machine. (Its level, pan, pitch and waveform peaks
/// are kept by the user interface.)
pub struct DmsPad {
    pub id: usize,
    pub midi_note: u8,
    pub name: String,
    pub sample_path: Option<String>,
    pub mute: bool,
    pub solo: bool,
    /// The sample whose waveform peaks are loaded.
    pub cached_peak_path: Option<String>,
}

/// `n` in decimal, padded with a zero to two digits.
pub open spec fn two_digits(n: nat) -> Seq<char> {
    if n < 10 {
        seq!['0'] + decimal(n)
    } else {
        decimal(n)
    }
}

/// The default name of pad `id`: "Pad 01" for the first.
pub open spec fn pad_name(id: nat) -> Seq<char> {
    "Pad "@ + two_digits(id + 1)
}

/// What a pad's sample is shown as: the file name of its path ("Unknown"
/// when the path has none), or "No Sample Loaded".
pub open spec fn sample_display(sample_path: Option<Seq<char>>) -> Seq<char> {
    match sample_path {
        Some(p) => match path_file_name(p) {
            Some(n) => n,
            None => "Unknown"@,
        },
        None => "No Sample Loaded"@,
    }
}

impl DmsPad {
    /// The path of the pad's sample, as text.
    pub open spec fn sample(&self) -> Option<Seq<char>> {
        text_of(self.sample_path)
    }

    /// The sample whose peaks are loaded, as text.
    pub open spec fn cached(&self) -> Option<Seq<char>> {
        text_of(self.cached_peak_path)
    }

    /// Pad `id` playing `midi_note`, named after its number, with no sample.
    pub fn new(id: usize, midi_note: u8) -> (p: Self)
        requires
            id < usize::MAX,
        ensures
            p.id == id,
            p.midi_note == midi_note,
            p.name@ == pad_name(id as nat),
            p.sample() is None,
            p.cached() is None,
            !p.mute,
            !p.solo,
    {
        let mut name = String::from_str("Pad ");
        if id + 1 < 10 {
            name.append("0");
        }
        push_decimal(&mut name, (id + 1) as u64);
        proof {
            reveal_strlit("0");
            assert(name@ =~= pad_name(id as nat));
        }
        DmsPad {
            id,
            midi_note,
            name,
            sample_path: None,
            mute: false,
            solo: false,
            cached_peak_path: None,
        }
    }

    /// Sets the pad's sample to `path`. Returns whether its waveform peaks
    /// are to be (re)loaded: not when they were loaded from that very path,
    /// in which case nothing changes.
    pub fn load_sample(&mut self, path: String) -> (reload: bool)
        ensures
            reload == (old(self).cached() != Some(path@)),
            reload ==> final(self).sample() == Some(path@) && final(self).cached() == Some(path@),
            !reload ==> final(self).sample() == old(self).sample() && final(self).cached() == old(self).cached(),
            final(self).id == old(self).id,
            final(self).midi_note == old(self).midi_note,
            final(self).name@ == old(self).name@,
            final(self).mute == old(self).mute,
            final(self).solo == old(self).solo,
    {
        let same = match &self.cached_peak_path {
            Some(c) => *c == path,
            None => false,
        };
        if same {
            return false;
        }
        self.cached_peak_path = Some(path.clone());
        self.sample_path = Some(path);
        true
    }

    /// The file name of the pad's sample, for display.
    pub fn display_filename(&self) -> (s: String)
        ensures
            s@ == sample_display(self.sample()),
    {
        match &self.sample_path {
            Some(p) => match file_name_text(p.as_str()) {
                Some(n) => n,
                None => String::from_str("Unknown"),
            },
            None => String::from_str("No Sample Loaded"),
        }
    }
}

/// The lower-case form of `s` (Unicode lower-casing).
pub uninterp spec fn text_lowercase(s: Seq<char>) -> Seq<char>;

/// `str::to_lowercase` of `s`. What std computes is named, not described.
#[verifier::external_body]
fn lowercase_text(s: &str) -> (r: String)
    ensures
        r@ == text_lowercase(s@),
{
    s.to_lowercase()
}

/// Whether a lower-case extension is that of a drum sample: wav, mp3,
/// flac or ogg.
pub open spec fn audio_extension(ext: Seq<char>) -> bool {
    ext == "wav"@ || ext == "mp3"@ || ext == "flac"@ || ext == "ogg"@
}

/// Whether a file is taken as a drum sample: its extension, lower-cased,
/// is wav, mp3, flac or ogg (a missing extension counts as empty).
pub open spec fn audio_file(path: Seq<char>) -> bool {
    audio_extension(
        text_lowercase(
            match path_extension(path) {
                Some(e) => e,
                None => Seq::empty(),
            },
        ),
    )
}

/// The name a pad takes from a sample: the file's stem, or "Sample".
pub open spec fn sample_pad_name(path: Seq<char>) -> Seq<char> {
    match path_file_stem(path) {
        Some(s) => s,
        None => "Sample"@,
    }
}

/// Whether two texts are equal.
fn same_text(a: &str, b: &str) -> (r: bool)
    ensures
        r == (a@ == b@),
{
    let n = a.unicode_len();
    if n != b.unicode_len() {
        return false;
    }
    let mut i: usize = 0;
    while i < n
        invariant
            n == a@.len(),
            n == b@.len(),
            0 <= i <= n,
            forall|j: int| 0 <= j < i ==> a@[j] == b@[j],
        decreases n - i,
    {
        if a.get_char(i) != b.get_char(i) {
            return false;
        }
        i = i + 1;
    }
    assert(a@ =~= b@);
    true
}

/// Whether the file at `path` is taken as a drum sample (see [`audio_file`]).
pub fn is_audio_file(path: &str) -> (b: bool)
    ensures
        b == audio_file(path@),
{
    let ext = match extension_text(path) {
        Some(e) => e,
        None => String::new(),
    };
    let lower = lowercase_text(ext.as_str());
    is_audio_extension(lower.as_str())
}

/// Whether a lower-case extension is that of a drum sample (see
/// [`audio_extension`]).
pub fn is_audio_extension(ext: &str) -> (b: bool)
    ensures
        b == audio_extension(ext@),
{
    same_text(ext, "wav") || same_text(ext, "mp3") || same_text(ext, "flac") || same_text(ext, "ogg")
}

impl DmsPad {
    /// Gives the pad the sample at `path`: the pad is renamed after the
    /// file (see [`sample_pad_name`]) and the sample is loaded as
    /// [`DmsPad::load_sample`] does. Returns whether its waveform peaks are
    /// to be (re)loaded.
    pub fn assign_sample(&mut self, path: String) -> (reload: bool)
        ensures
            final(self).name@ == sample_pad_name(path@),
            reload == (old(self).cached() != Some(path@)),
            reload ==> final(self).sample() == Some(path@) && final(self).cached() == Some(path@),
            !reload ==> final(self).sample() == old(self).sample() && final(self).cached() == old(self).cached(),
            final(self).id == old(self).id,
            final(self).midi_note == old(self).midi_note,
            final(self).mute == old(self).mute,
            final(self).solo == old(self).solo,
    {
        let name = match file_stem_text(path.as_str()) {
            Some(s) => s,
            None => String::from_str("Sample"),
        };
        self.name = name;
        self.load_sample(path)
    }
}

/// The drum machine: 64 pads, of which `pad_count` are shown.
pub struct OpenDms {
    pub pads: Vec<DmsPad>,
    pub selected_pad: usize,
    pub pad_count: usize,
}

/// The position of the first pad of `pads` on `note`, if any.
pub open spec fn first_pad_on(pads: Seq<DmsPad>, note: u8) -> Option<int>
    decreases pads.len(),
{
    if pads.len() == 0 {
        None
    } else {
        match first_pad_on(pads.drop_last(), note) {
            Some(k) => Some(k),
            None => if pads.last().midi_note == note {
                Some(pads.len() - 1)
            } else {
                None
            },
        }
    }
}

impl OpenDms {
    /// A file dropped on pad `pad_idx`: an audio file (see [`audio_file`])
    /// is assigned to the pad (see [`DmsPad::assign_sample`]) and
    /// `Some(reload)` tells whether its peaks are to be reloaded; any other
    /// file is refused (`None`) and nothing changes.
    pub fn drop_sample(&mut self, pad_idx: usize, path: String) -> (r: Option<bool>)
        requires
            pad_idx < old(self).pads@.len(),
        ensures
            r is Some == audio_file(path@),
            final(self).pads@.len() == old(self).pads@.len(),
            final(self).selected_pad == old(self).selected_pad,
            final(self).pad_count == old(self).pad_count,
            forall|i: int| 0 <= i < old(self).pads@.len() && i != pad_idx ==> #[trigger] final(self).pads@[i]
                == old(self).pads@[i],
            r is None ==> final(self).pads@ == old(self).pads@,
            r matches Some(reload) ==> {
                let p = final(self).pads@[pad_idx as int];
                let o = old(self).pads@[pad_idx as int];
                &&& p.name@ == sample_pad_name(path@)
                &&& reload == (o.cached() != Some(path@))
                &&& reload ==> p.sample() == Some(path@) && p.cached() == Some(path@)
                &&& !reload ==> p.sample() == o.sample() && p.cached() == o.cached()
                &&& p.id == o.id && p.midi_note == o.midi_note && p.mute == o.mute && p.solo == o.solo
            },
    {
        if !is_audio_file(path.as_str()) {
            return None;
        }
        let mut pad = DmsPad::new(0, 0);
        std::mem::swap(&mut pad, &mut self.pads[pad_idx]);
        let reload = pad.assign_sample(path);
        std::mem::swap(&mut pad, &mut self.pads[pad_idx]);
        Some(reload)
    }

    /// The pad a piano-roll note previews: the first pad on that note, if
    /// it has a sample loaded.
    pub fn preview_pad(&self, note: u8) -> (r: Option<usize>)
        ensures
            r == (match first_pad_on(self.pads@, note) {
                Some(k) => if self.pads@[k].sample() is Some {
                    Some(k as usize)
                } else {
                    None
                },
                None => None,
            }),
    {
        let n = self.pads.len();
        let mut i: usize = 0;
        while i < n
            invariant
                n == self.pads@.len(),
                0 <= i <= n,
                first_pad_on(self.pads@.take(i as int), note) is None,
            decreases n - i,
        {
            proof {
                assert(self.pads@.take(i as int + 1).drop_last() =~= self.pads@.take(i as int));
            }
            if self.pads[i].midi_note == note {
                proof {
                    lemma_first_pad_prefix(self.pads@, note, i as int + 1);
                }
                if self.pads[i].sample_path.is_some() {
                    return Some(i);
                } else {
                    return None;
                }
            }
            i = i + 1;
        }
        proof {
            assert(self.pads@.take(n as int) =~= self.pads@);
        }
        None
    }
}

/// A first match inside a prefix is the first match of the whole list.
proof fn lemma_first_pad_prefix(pads: Seq<DmsPad>, note: u8, len: int)
    requires
        0 <= len <= pads.len(),
        first_pad_on(pads.take(len), note) is Some,
    ensures
        first_pad_on(pads, note) == first_pad_on(pads.take(len), note),
    decreases pads.len() - len,
{
    if len < pads.len() {
        assert(pads.take(len + 1).drop_last() =~= pads.take(len));
        lemma_first_pad_prefix(pads, note, len + 1);
    } else {
        assert(pads.take(len) =~= pads);
    }
}

impl Default for OpenDms {
    /// 64 pads on MIDI notes 36 upwards, the first 16 shown, the first
    /// selected.
    fn default() -> (d: Self)
        ensures
            d.pads@.len() == 64,
            forall|i: int|
                0 <= i < 64 ==> {
                    &&& (#[trigger] d.pads@[i]).id == i
                    &&& d.pads@[i].midi_note == 36 + i
                    &&& d.pads@[i].name@ == pad_name(i as nat)
                    &&& d.pads@[i].sample() is None
                    &&& !d.pads@[i].mute
                    &&& !d.pads@[i].solo
                },
            d.selected_pad == 0,
            d.pad_count == 16,
    {
        let mut pads: Vec<DmsPad> = Vec::new();
        let mut i: usize = 0;
        while i < 64
            invariant
                0 <= i <= 64,
                pads@.len() == i,
                forall|j: int|
                    0 <= j < i ==> {
                        &&& (#[trigger] pads@[j]).id == j
                        &&& pads@[j].midi_note == 36 + j
                        &&& pads@[j].name@ == pad_name(j as nat)
                        &&& pads@[j].sample() is None
                        &&& !pads@[j].mute
                        &&& !pads@[j].solo
                    },
            decreases 64 - i,
        {
            pads.push(DmsPad::new(i, 36 + i as u8));
            i = i + 1;
        }
        OpenDms { pads, selected_pad: 0, pad_count: 16 }
    }
}

} // verus!
