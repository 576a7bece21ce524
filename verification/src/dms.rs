//! Voice allocation for the OpenDMS drum sampler: a fixed pool of voices,
//! each following an attack/decay/sustain/release envelope. The pool decides
//! which voice a pad hit takes and how envelope stages follow one another;
//! the host renders the audio.

use vstd::prelude::*;

verus! {

/// Voices in the pool.
pub const MAX_DMS_VOICES: usize = 64;

/// Envelope stage of a voice.
#[derive(Debug, Clone, Copy, PartialEq, Eq, Structural)]
pub enum DmsEnvStage {
    Attack,
    Decay,
    Sustain,
    Release,
    Free,
}

/// The allocation state of one voice.
#[derive(Debug, Clone, Copy)]
pub struct DmsVoice {
    pub active: bool,
    pub pad_idx: usize,
    pub env_stage: DmsEnvStage,
    /// Launch stamp: voices launched later carry larger stamps.
    pub age: u64,
}

/// The stage an envelope enters when its current stage completes; a
/// completed release frees the voice.
pub open spec fn next_stage(stage: DmsEnvStage) -> DmsEnvStage {
    match stage {
        DmsEnvStage::Attack => DmsEnvStage::Decay,
        DmsEnvStage::Decay => DmsEnvStage::Sustain,
        DmsEnvStage::Release => DmsEnvStage::Free,
        s => s,
    }
}

impl DmsVoice {
    /// An idle voice.
    pub fn new() -> (v: Self)
        ensures
            !v.active,
            v.pad_idx == 0,
            v.env_stage == DmsEnvStage::Free,
            v.age == 0,
    {
        DmsVoice { active: false, pad_idx: 0, env_stage: DmsEnvStage::Free, age: 0 }
    }

    /// Advances the envelope when its current stage has completed. Attack
    /// gives way to decay and decay to sustain; a finished release frees the
    /// voice; sustain and free stay.
    pub fn complete_stage(&mut self)
        ensures
            final(self).env_stage == next_stage(old(self).env_stage),
            final(self).active == (old(self).active && old(self).env_stage != DmsEnvStage::Release),
            final(self).pad_idx == old(self).pad_idx,
            final(self).age == old(self).age,
    {
        match self.env_stage {
            DmsEnvStage::Attack => {
                self.env_stage = DmsEnvStage::Decay;
            },
            DmsEnvStage::Decay => {
                self.env_stage = DmsEnvStage::Sustain;
            },
            DmsEnvStage::Release => {
                self.active = false;
                self.env_stage = DmsEnvStage::Free;
            },
            _ => {},
        }
    }

    /// Stops the voice at once (its sample ran out).
    pub fn finish(&mut self)
        ensures
            !final(self).active,
            final(self).env_stage == DmsEnvStage::Free,
            final(self).pad_idx == old(self).pad_idx,
            final(self).age == old(self).age,
    {
        self.active = false;
        self.env_stage = DmsEnvStage::Free;
    }
}

/// The fixed pool of sampler voices.
pub struct DmsVoicePool {
    pub voices: Vec<DmsVoice>,
    pub global_age: u64,
}

/// The position of the first voice with the smallest age.
pub open spec fn oldest_voice(v: Seq<DmsVoice>) -> int
    decreases v.len(),
{
    if v.len() <= 1 {
        0
    } else {
        let k = oldest_voice(v.drop_last());
        if v.last().age < v[k].age {
            v.len() - 1
        } else {
            k
        }
    }
}

/// The position of the first idle voice.
pub open spec fn first_free(v: Seq<DmsVoice>) -> Option<int>
    decreases v.len(),
{
    if v.len() == 0 {
        None
    } else {
        match first_free(v.drop_last()) {
            Some(k) => Some(k),
            None => if !v.last().active {
                Some(v.len() - 1)
            } else {
                None
            },
        }
    }
}

/// The voice a new pad hit takes: the first idle one, or else the oldest
/// (the first of the oldest on a tie).
pub open spec fn chosen_voice(v: Seq<DmsVoice>) -> int {
    match first_free(v) {
        Some(k) => k,
        None => oldest_voice(v),
    }
}

proof fn lemma_oldest_voice(v: Seq<DmsVoice>)
    requires
        v.len() > 0,
    ensures
        0 <= oldest_voice(v) < v.len(),
        forall|j: int| 0 <= j < v.len() ==> v[oldest_voice(v)].age <= (#[trigger] v[j]).age,
        forall|j: int| 0 <= j < oldest_voice(v) ==> v[oldest_voice(v)].age < (#[trigger] v[j]).age,
    decreases v.len(),
{
    if v.len() > 1 {
        let d = v.drop_last();
        lemma_oldest_voice(d);
        let k = oldest_voice(d);
        assert(d[k] == v[k]);
        assert forall|j: int| 0 <= j < d.len() implies d[j] == v[j] by {}
    }
}

proof fn lemma_first_free(v: Seq<DmsVoice>)
    ensures
        first_free(v) matches Some(k) ==> 0 <= k < v.len() && !v[k].active && forall|j: int|
            0 <= j < k ==> (#[trigger] v[j]).active,
        first_free(v) is None ==> forall|j: int| 0 <= j < v.len() ==> (#[trigger] v[j]).active,
    decreases v.len(),
{
    if v.len() > 0 {
        let d = v.drop_last();
        lemma_first_free(d);
        assert forall|j: int| 0 <= j < d.len() implies d[j] == v[j] by {}
    }
}

proof fn lemma_prefix<T>(s: Seq<T>, i: int)
    requires
        0 <= i < s.len(),
    ensures
        s.take(i + 1).drop_last() == s.take(i),
        s.take(i + 1).last() == s[i],
{
    assert(s.take(i + 1).drop_last() =~= s.take(i));
}

/// The voice after a release request for `pad`: active voices of that pad
/// enter their release stage (one already releasing stays as it is).
pub open spec fn released(v: DmsVoice, pad: usize) -> DmsVoice {
    if v.active && v.pad_idx == pad && v.env_stage != DmsEnvStage::Release {
        DmsVoice { env_stage: DmsEnvStage::Release, ..v }
    } else {
        v
    }
}

/// The voice after a kill request for `pad`: active voices of that pad stop at once.
pub open spec fn killed(v: DmsVoice, pad: usize) -> DmsVoice {
    if v.active && v.pad_idx == pad {
        DmsVoice { active: false, env_stage: DmsEnvStage::Free, ..v }
    } else {
        v
    }
}

impl DmsVoicePool {
    /// The pool always holds its full set of voices.
    pub open spec fn wf(&self) -> bool {
        self.voices@.len() == MAX_DMS_VOICES
    }

    /// Whether every voice is idle.
    pub open spec fn all_free(&self) -> bool {
        forall|i: int| 0 <= i < self.voices@.len() ==> !(#[trigger] self.voices@[i]).active
    }

    /// A pool of idle voices.
    pub fn new() -> (p: Self)
        ensures
            p.wf(),
            p.all_free(),
            p.global_age == 0,
            forall|i: int| 0 <= i < p.voices@.len() ==> (#[trigger] p.voices@[i]).env_stage == DmsEnvStage::Free,
    {
        let mut voices: Vec<DmsVoice> = Vec::new();
        let mut i: usize = 0;
        while i < MAX_DMS_VOICES
            invariant
                0 <= i <= MAX_DMS_VOICES,
                voices@.len() == i,
                forall|j: int| 0 <= j < voices@.len() ==> !(#[trigger] voices@[j]).active && voices@[j].env_stage == DmsEnvStage::Free,
            decreases MAX_DMS_VOICES - i,
        {
            voices.push(DmsVoice::new());
            i = i + 1;
        }
        DmsVoicePool { voices, global_age: 0 }
    }

    /// Starts a voice for a hit on `pad_idx` and returns its position: the
    /// first idle voice, or else the oldest one is stolen. The voice enters
    /// its attack stage stamped with the next age. The host then loads the
    /// sound parameters into that voice.
    pub fn trigger(&mut self, pad_idx: usize) -> (r: Option<usize>)
        requires
            old(self).wf(),
        ensures
            final(self).wf(),
            final(self).global_age == (if old(self).global_age == u64::MAX {
                0
            } else {
                (old(self).global_age + 1) as u64
            }),
            r == Some(chosen_voice(old(self).voices@) as usize),
            final(self).voices@ == old(self).voices@.update(
                chosen_voice(old(self).voices@),
                DmsVoice {
                    active: true,
                    pad_idx,
                    env_stage: DmsEnvStage::Attack,
                    age: final(self).global_age,
                },
            ),
    {
        self.global_age = if self.global_age == u64::MAX { 0 } else { self.global_age + 1 };
        let n = self.voices.len();
        let ghost v = self.voices@;
        proof {
            lemma_first_free(v);
            lemma_oldest_voice(v);
        }
        let mut free: Option<usize> = None;
        let mut oldest: usize = 0;
        let mut i: usize = 0;
        while i < n
            invariant
                n == v.len(),
                self.voices@ == v,
                n == MAX_DMS_VOICES,
                0 <= i <= n,
                free == (match first_free(v.take(i as int)) {
                    Some(k) => Some(k as usize),
                    None => None::<usize>,
                }),
                i > 0 ==> oldest == oldest_voice(v.take(i as int)),
                i == 0 ==> oldest == 0,
            decreases n - i,
        {
            proof {
                lemma_prefix(v, i as int);
                if i > 0 {
                    lemma_oldest_voice(v.take(i as int));
                }
            }
            let vi = self.voices[i];
            if free.is_none() && !vi.active {
                free = Some(i);
            }
            if i > 0 && vi.age < self.voices[oldest].age {
                oldest = i;
            }
            proof {
                let t = v.take(i as int + 1);
                if i > 0 {
                    assert(t[oldest_voice(t.drop_last())] == v[oldest_voice(v.take(i as int))]);
                }
            }
            i = i + 1;
        }
        proof {
            assert(v.take(n as int) =~= v);
        }
        let idx = match free {
            Some(k) => k,
            None => oldest,
        };
        let age = self.global_age;
        self.voices.set(idx, DmsVoice { active: true, pad_idx, env_stage: DmsEnvStage::Attack, age });
        Some(idx)
    }

    /// Sends every active voice of `pad_idx` into its release stage.
    pub fn release_pad(&mut self, pad_idx: usize)
        ensures
            final(self).voices@.len() == old(self).voices@.len(),
            forall|i: int|
                0 <= i < old(self).voices@.len() ==> #[trigger] final(self).voices@[i] == released(
                    old(self).voices@[i],
                    pad_idx,
                ),
            final(self).global_age == old(self).global_age,
    {
        let n = self.voices.len();
        let ghost v = self.voices@;
        let mut i: usize = 0;
        while i < n
            invariant
                n == v.len(),
                self.voices@.len() == n,
                0 <= i <= n,
                forall|j: int| 0 <= j < i ==> #[trigger] self.voices@[j] == released(v[j], pad_idx),
                forall|j: int| i <= j < n ==> #[trigger] self.voices@[j] == v[j],
                self.global_age == old(self).global_age,
            decreases n - i,
        {
            let vi = self.voices[i];
            if vi.active && vi.pad_idx == pad_idx && vi.env_stage != DmsEnvStage::Release {
                self.voices.set(i, DmsVoice { env_stage: DmsEnvStage::Release, ..vi });
            }
            i = i + 1;
        }
    }

    /// Stops every active voice of `pad_idx` at once.
    pub fn kill_pad(&mut self, pad_idx: usize)
        ensures
            final(self).voices@.len() == old(self).voices@.len(),
            forall|i: int|
                0 <= i < old(self).voices@.len() ==> #[trigger] final(self).voices@[i] == killed(
                    old(self).voices@[i],
                    pad_idx,
                ),
            final(self).global_age == old(self).global_age,
    {
        let n = self.voices.len();
        let ghost v = self.voices@;
        let mut i: usize = 0;
        while i < n
            invariant
                n == v.len(),
                self.voices@.len() == n,
                0 <= i <= n,
                forall|j: int| 0 <= j < i ==> #[trigger] self.voices@[j] == killed(v[j], pad_idx),
                forall|j: int| i <= j < n ==> #[trigger] self.voices@[j] == v[j],
                self.global_age == old(self).global_age,
            decreases n - i,
        {
            let vi = self.voices[i];
            if vi.active && vi.pad_idx == pad_idx {
                self.voices.set(i, DmsVoice { active: false, env_stage: DmsEnvStage::Free, ..vi });
            }
            i = i + 1;
        }
    }
}


// ---------------------------------------------------------------------------
// Laws
// ---------------------------------------------------------------------------

/// A pad hit never steals a sounding voice while an idle one exists, and a
/// stolen voice is one of the oldest (the first of them).
pub proof fn law_trigger_prefers_idle_then_oldest(v: Seq<DmsVoice>)
    requires
        v.len() > 0,
    ensures
        0 <= chosen_voice(v) < v.len(),
        (exists|j: int| 0 <= j < v.len() && !(#[trigger] v[j]).active) ==> !v[chosen_voice(v)].active,
        (forall|j: int| 0 <= j < v.len() ==> (#[trigger] v[j]).active) ==> forall|j: int|
            0 <= j < v.len() ==> v[chosen_voice(v)].age <= (#[trigger] v[j]).age,
{
    lemma_first_free(v);
    lemma_oldest_voice(v);
}

/// Releasing or killing a pad twice is the same as doing it once.
pub proof fn law_release_and_kill_are_idempotent(v: DmsVoice, pad: usize)
    ensures
        released(released(v, pad), pad) == released(v, pad),
        killed(killed(v, pad), pad) == killed(v, pad),
{
}

/// Requests for one pad never touch the voices of another pad.
pub proof fn law_other_pads_untouched(v: DmsVoice, pad: usize)
    requires
        v.pad_idx != pad,
    ensures
        released(v, pad) == v,
        killed(v, pad) == v,
{
}

/// After a kill no voice of that pad sounds; after a release every sounding
/// voice of that pad is releasing.
pub proof fn law_kill_silences_and_release_releases(v: DmsVoice, pad: usize)
    requires
        v.pad_idx == pad,
    ensures
        !killed(v, pad).active,
        released(v, pad).active ==> released(v, pad).env_stage == DmsEnvStage::Release,
{
}

/// The envelope runs attack, decay, then holds at sustain; a completed
/// release frees the voice for good.
pub proof fn law_envelope_order()
    ensures
        next_stage(next_stage(DmsEnvStage::Attack)) == DmsEnvStage::Sustain,
        next_stage(DmsEnvStage::Sustain) == DmsEnvStage::Sustain,
        next_stage(DmsEnvStage::Release) == DmsEnvStage::Free,
        next_stage(DmsEnvStage::Free) == DmsEnvStage::Free,
{
}

} // verus!
