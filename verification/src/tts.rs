//! Speech output state: what is being said, how long it lasts and whether it is
//! still playing.
use vstd::prelude::*;

verus! {

/// The state of the speech output, shared with the face animation. The length
/// of the utterance is kept as its sample count and sample rate; its duration in
/// seconds is `samples / rate`.
pub struct State {
    pub text: String,
    pub samples: usize,
    pub rate: u32,
    pub speaking: bool,
}

impl Default for State {
    fn default() -> (r: Self)
        ensures
            r.text@ == Seq::<char>::empty(),
            r.samples == 0,
            r.rate == 0,
            !r.speaking,
    {
        State { text: String::new(), samples: 0, rate: 0, speaking: false }
    }
}

impl State {
    /// Records that an utterance of `samples` samples at `rate` samples per
    /// second starts playing.
    pub fn begin(&mut self, text: String, samples: usize, rate: u32)
        ensures
            final(self).text@ == text@,
            final(self).samples == samples,
            final(self).rate == rate,
            final(self).speaking,
    {
        self.text = text;
        self.samples = samples;
        self.rate = rate;
        self.speaking = true;
    }

    /// Records that the current utterance has finished playing; what was said is
    /// kept.
    pub fn finish(&mut self)
        ensures
            final(self).text@ == old(self).text@,
            final(self).samples == old(self).samples,
            final(self).rate == old(self).rate,
            !final(self).speaking,
    {
        self.speaking = false;
    }
}

/// Whether something is being said; nothing is before speech output has started.
pub fn is_speaking(state: Option<&State>) -> (r: bool)
    ensures
        r == match state {
            Some(s) => s.speaking,
            None => false,
        },
{
    match state {
        Some(s) => s.speaking,
        None => false,
    }
}

/// Whether the face should start lip-syncing the current utterance: something
/// is being said and it is not the text it last lip-synced.
pub fn needs_lip_sync(last_text: &String, state: &State) -> (r: bool)
    ensures
        r == (state.speaking && last_text@ != state.text@),
{
    state.speaking && *last_text != state.text
}

} // verus!
