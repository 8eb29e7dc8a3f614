//! A sounding note: its playback cursor, its envelope phase, and the rules
//! by which both move from one output frame to the next.

use vstd::prelude::*;
use std::path::PathBuf;

verus! {

/// The envelope phase of a voice.
#[derive(Debug, Clone, Copy, PartialEq, Eq, Structural)]
pub enum PlayingState {
    ATTACK,
    SUSTAIN,
    RELEASE,
    DONE,
}

/// Where the audio of one output frame of a voice comes from.
#[derive(Debug, Clone, Copy, PartialEq, Eq, Structural)]
pub enum FrameSource {
    /// The voice has not started yet: it adds nothing to this frame.
    Silent,
    /// The sample frame at the cursor.
    Single { at: u64 },
    /// A blend of the sample frame at the cursor with the frame `second`
    /// near the loop start. The weight of `second` is `offset / length`, and
    /// the frame at the cursor has the rest.
    Blend { at: u64, second: u64, offset: u64, length: u32 },
}

/// A voice of the engine. Its gain is whatever the mixer works with; the
/// rules of this module carry it along unchanged.
pub struct PlayingSample<G> {
    /// The key of the sample that the voice plays.
    pub handle: PathBuf,
    /// The cursor, in frames; negative while the note lies ahead.
    pub position: i64,
    /// The gain that the note's velocity asks for.
    pub gain: G,
    pub state: PlayingState,
    /// First frame of the loop: where the consonant ends.
    pub vowel_start: u32,
    /// Last frame of the loop: where the cutoff begins.
    pub vowel_end: u32,
    /// While set, the voice plays without crossfade.
    pub ignore_fade: bool,
}

impl<G> PlayingSample<G> {
    /// The frame from which on the crossfade blends, for a crossfade of
    /// `length` frames.
    pub open spec fn fade_start(&self, length: u32) -> int {
        self.vowel_end - length
    }

    /// Whether the frame at the cursor is blended with one from the loop
    /// start.
    pub open spec fn blends(&self, crossfade_on: bool, length: u32) -> bool {
        crossfade_on && !self.ignore_fade && self.position >= self.fade_start(length)
    }

    /// Where the audio of the current frame comes from.
    pub open spec fn source(&self, crossfade_on: bool, length: u32) -> FrameSource {
        if self.position < 0 {
            FrameSource::Silent
        } else if self.blends(crossfade_on, length) {
            FrameSource::Blend {
                at: self.position as u64,
                second: (self.vowel_start + (self.position - self.fade_start(length))) as u64,
                offset: (self.position - self.fade_start(length)) as u64,
                length,
            }
        } else {
            FrameSource::Single { at: self.position as u64 }
        }
    }

    /// The cursor after one frame.
    pub open spec fn next_position(&self, length: u32) -> int {
        match self.state {
            PlayingState::SUSTAIN => if self.position + 1 > self.vowel_end {
                self.vowel_start + length
            } else {
                self.position + 1
            },
            PlayingState::RELEASE => self.vowel_end as int,
            _ => self.position + 1,
        }
    }

    /// The phase after one frame.
    pub open spec fn next_state(&self) -> PlayingState {
        match self.state {
            PlayingState::ATTACK => if self.position + 1 >= self.vowel_start {
                PlayingState::SUSTAIN
            } else {
                PlayingState::ATTACK
            },
            PlayingState::SUSTAIN => PlayingState::SUSTAIN,
            _ => PlayingState::DONE,
        }
    }

    /// Whether the voice plays without crossfade after one frame.
    pub open spec fn next_ignore_fade(&self, length: u32) -> bool {
        match self.state {
            PlayingState::SUSTAIN => self.ignore_fade && self.next_position(length) <= self.vowel_start
                + length,
            PlayingState::RELEASE => true,
            _ => self.ignore_fade,
        }
    }

    /// The voice after one frame.
    pub open spec fn stepped(self, length: u32) -> PlayingSample<G> {
        PlayingSample {
            position: self.next_position(length) as i64,
            state: self.next_state(),
            ignore_fade: self.next_ignore_fade(length),
            ..self
        }
    }

    /// The voice after `frames` frames.
    pub open spec fn after(self, length: u32, frames: nat) -> PlayingSample<G>
        decreases frames,
    {
        if frames == 0 {
            self
        } else {
            self.stepped(length).after(length, (frames - 1) as nat)
        }
    }

    /// A voice for the sample `handle` that has not begun: cursor at zero,
    /// in the attack phase, without loop marks, playing without crossfade.
    pub fn new(handle: PathBuf, gain: G) -> (voice: Self)
        ensures
            voice.handle == handle,
            voice.gain == gain,
            voice.position == 0,
            voice.state == PlayingState::ATTACK,
            voice.vowel_start == 0,
            voice.vowel_end == 0,
            voice.ignore_fade,
    {
        PlayingSample {
            handle,
            gain,
            position: 0,
            state: PlayingState::ATTACK,
            vowel_start: 0,
            vowel_end: 0,
            ignore_fade: true,
        }
    }

    /// A voice for a note that begins `timing` frames into the block, with
    /// its loop marks.
    pub fn start(handle: PathBuf, gain: G, timing: u32, vowel_start: u32, vowel_end: u32) -> (voice: Self)
        ensures
            voice.handle == handle,
            voice.gain == gain,
            voice.position == -(timing as int),
            voice.state == PlayingState::ATTACK,
            voice.vowel_start == vowel_start,
            voice.vowel_end == vowel_end,
            voice.ignore_fade,
    {
        PlayingSample {
            handle,
            gain,
            position: -(timing as i64),
            state: PlayingState::ATTACK,
            vowel_start,
            vowel_end,
            ignore_fade: true,
        }
    }

    /// Says where the audio of the current frame comes from.
    pub fn frame_source(&self, crossfade_on: bool, crossfade_length: u32) -> (r: FrameSource)
        ensures
            r == self.source(crossfade_on, crossfade_length),
    {
        if self.position < 0 {
            return FrameSource::Silent;
        }
        let at = self.position as u64;
        if !crossfade_on || self.ignore_fade {
            return FrameSource::Single { at };
        }
        let fade_start: i64 = self.vowel_end as i64 - crossfade_length as i64;
        if self.position < fade_start {
            return FrameSource::Single { at };
        }
        let offset: u64 = if fade_start >= 0 {
            at - fade_start as u64
        } else {
            at + (-fade_start) as u64
        };
        FrameSource::Blend {
            at,
            second: self.vowel_start as u64 + offset,
            offset,
            length: crossfade_length,
        }
    }

    /// Moves the voice on by one frame: the cursor advances, the attack ends
    /// at the loop start, a sustained voice that has passed the loop end
    /// goes back to the loop start plus the crossfade and plays with
    /// crossfade once it is beyond that point, and a released voice jumps to
    /// the loop end and is done.
    pub fn advance(&mut self, crossfade_length: u32)
        requires
            old(self).position < i64::MAX,
        ensures
            *final(self) == old(self).stepped(crossfade_length),
    {
        self.position = self.position + 1;
        let loop_restart: i64 = self.vowel_start as i64 + crossfade_length as i64;
        match self.state {
            PlayingState::ATTACK => {
                if self.position >= self.vowel_start as i64 {
                    self.state = PlayingState::SUSTAIN;
                }
            },
            PlayingState::SUSTAIN => {
                if self.position > self.vowel_end as i64 {
                    self.position = loop_restart;
                }
                if self.position > loop_restart {
                    self.ignore_fade = false;
                }
            },
            PlayingState::RELEASE => {
                self.ignore_fade = true;
                self.position = self.vowel_end as i64;
                self.state = PlayingState::DONE;
            },
            PlayingState::DONE => {},
        }
    }

    /// Whether the cursor can move on by `frames` frames without leaving the
    /// range of its type.
    pub open spec fn has_room(&self, frames: nat) -> bool {
        self.position + frames < i64::MAX && frames < 0x4000_0000_0000_0000
    }

    /// Plays the voice through a block of `frames` frames: says, frame by
    /// frame, where the audio comes from, and moves the voice on after each.
    pub fn plan_block(&mut self, frames: usize, crossfade_on: bool, crossfade_length: u32) -> (plan: Vec<FrameSource>)
        requires
            old(self).has_room(frames as nat),
        ensures
            *final(self) == old(self).after(crossfade_length, frames as nat),
            plan@.len() == frames,
            forall|i: int|
                0 <= i < frames ==> plan@[i] == old(self).after(crossfade_length, i as nat).source(
                    crossfade_on,
                    crossfade_length,
                ),
    {
        let mut plan: Vec<FrameSource> = Vec::new();
        let mut i: usize = 0;
        while i < frames
            invariant
                i <= frames,
                frames < 0x4000_0000_0000_0000,
                self.position + (frames - i) < i64::MAX,
                *self == old(self).after(crossfade_length, i as nat),
                plan@.len() == i,
                forall|j: int|
                    0 <= j < i ==> plan@[j] == old(self).after(crossfade_length, j as nat).source(
                        crossfade_on,
                        crossfade_length,
                    ),
            decreases frames - i,
        {
            proof {
                lemma_after_one_more(*old(self), crossfade_length, i as nat);
            }
            plan.push(self.frame_source(crossfade_on, crossfade_length));
            self.advance(crossfade_length);
            i += 1;
        }
        plan
    }

    /// Whether the voice stays in the list at the end of a block. It goes
    /// when its sample is not loaded or its cursor has reached the end of
    /// the sample, and with instant cutoff also as soon as it is done.
    pub open spec fn survives(&self, sample_len: Option<usize>, instant_cutoff: bool) -> bool {
        &&& sample_len is Some
        &&& self.position < sample_len.unwrap()
        &&& !(instant_cutoff && self.state == PlayingState::DONE)
    }

    /// The cursor with which a surviving voice enters the next block: without
    /// instant cutoff a voice that is done is held at the loop end at least.
    pub open spec fn settled_position(&self, instant_cutoff: bool) -> int {
        if !instant_cutoff && self.state == PlayingState::DONE && self.position < self.vowel_end {
            self.vowel_end as int
        } else {
            self.position as int
        }
    }

    /// The voice as it enters the next block.
    pub open spec fn settled(self, instant_cutoff: bool) -> PlayingSample<G> {
        PlayingSample { position: self.settled_position(instant_cutoff) as i64, ..self }
    }
}

/// Whether a new note may start: only when no voice is active, or the first
/// active voice is released or done.
pub open spec fn may_start_note<G>(voices: Seq<PlayingSample<G>>) -> bool {
    voices.len() == 0 || voices[0].state == PlayingState::DONE || voices[0].state
        == PlayingState::RELEASE
}

/// Says whether a note-on is accepted.
pub fn accepts_note_on<G>(voices: &Vec<PlayingSample<G>>) -> (open: bool)
    ensures
        open == may_start_note(voices@),
{
    if voices.len() == 0 {
        return true;
    }
    voices[0].state == PlayingState::DONE || voices[0].state == PlayingState::RELEASE
}

/// The voices after a note-off: every one of them released.
pub open spec fn released<G>(voices: Seq<PlayingSample<G>>) -> Seq<PlayingSample<G>> {
    voices.map_values(|v: PlayingSample<G>| PlayingSample { state: PlayingState::RELEASE, ..v })
}

/// Releases every voice.
pub fn release_all<G>(voices: &mut Vec<PlayingSample<G>>)
    ensures
        final(voices)@ == released(old(voices)@),
{
    let mut i: usize = 0;
    while i < voices.len()
        invariant
            i <= voices@.len(),
            voices@.len() == old(voices)@.len(),
            forall|k: int| 0 <= k < i ==> voices@[k] == released(old(voices)@)[k],
            forall|k: int| i <= k < voices@.len() ==> voices@[k] == old(voices)@[k],
        decreases voices@.len() - i,
    {
        voices[i].state = PlayingState::RELEASE;
        i += 1;
    }
    assert(voices@ =~= released(old(voices)@));
}

/// The voices that enter the next block: those that survive, in order, each
/// settled. `sample_lens` gives, voice by voice, the length in frames of its
/// sample, or `None` where that sample is not loaded.
pub open spec fn retired<G>(
    voices: Seq<PlayingSample<G>>,
    sample_lens: Seq<Option<usize>>,
    instant_cutoff: bool,
) -> Seq<PlayingSample<G>>
    decreases voices.len(),
{
    if voices.len() == 0 || sample_lens.len() == 0 {
        Seq::empty()
    } else if voices.last().survives(sample_lens.last(), instant_cutoff) {
        retired(voices.drop_last(), sample_lens.drop_last(), instant_cutoff).push(
            voices.last().settled(instant_cutoff),
        )
    } else {
        retired(voices.drop_last(), sample_lens.drop_last(), instant_cutoff)
    }
}

/// Drops, at the end of a block, the voices that have finished.
pub fn retire_finished<G>(
    voices: &mut Vec<PlayingSample<G>>,
    sample_lens: &Vec<Option<usize>>,
    instant_cutoff: bool,
)
    requires
        sample_lens@.len() == old(voices)@.len(),
    ensures
        final(voices)@ == retired(old(voices)@, sample_lens@, instant_cutoff),
{
    let mut kept: Vec<PlayingSample<G>> = Vec::new();
    let mut k: usize = 0;
    let n = voices.len();
    assert(old(voices)@.take(0) =~= Seq::<PlayingSample<G>>::empty());
    while k < n
        invariant
            k <= n,
            n == old(voices)@.len(),
            n == sample_lens@.len(),
            voices@ == old(voices)@.skip(k as int),
            kept@ == retired(old(voices)@.take(k as int), sample_lens@.take(k as int), instant_cutoff),
        decreases n - k,
    {
        let mut voice = voices.remove(0);
        let len = sample_lens[k];
        proof {
            let before = old(voices)@.take(k as int);
            let now = old(voices)@.take(k + 1);
            assert(now.drop_last() =~= before);
            assert(now.last() == voice);
            assert(sample_lens@.take(k + 1).drop_last() =~= sample_lens@.take(k as int));
            assert(sample_lens@.take(k + 1).last() == len);
            assert(old(voices)@.skip(k as int).remove(0) =~= old(voices)@.skip(k + 1));
        }
        let survives = match len {
            Some(frames) => voice.position < 0 || (voice.position as u64) < frames as u64,
            None => false,
        } && !(instant_cutoff && voice.state == PlayingState::DONE);
        if survives {
            if !instant_cutoff && voice.state == PlayingState::DONE && voice.position < voice.vowel_end as i64 {
                voice.position = voice.vowel_end as i64;
            }
            kept.push(voice);
        }
        k += 1;
    }
    assert(old(voices)@.take(n as int) =~= old(voices)@);
    assert(sample_lens@.take(n as int) =~= sample_lens@);
    *voices = kept;
}

/// One frame more is one step more.
pub proof fn lemma_after_one_more<G>(v: PlayingSample<G>, length: u32, frames: nat)
    ensures
        v.after(length, frames + 1) == v.after(length, frames).stepped(length),
    decreases frames,
{
    assert(((frames + 1) - 1) as nat == frames);
    assert(v.after(length, frames + 1) == v.stepped(length).after(length, frames));
    if frames > 0 {
        lemma_after_one_more(v.stepped(length), length, (frames - 1) as nat);
        assert(((frames - 1) as nat + 1) as nat == frames);
    } else {
        assert(v.stepped(length).after(length, 0) == v.stepped(length));
    }
}

/// A sustained voice stays sustained, and its cursor moves on by exactly one
/// frame unless that would pass the loop end; then it goes back to the loop
/// start plus the crossfade length.
pub proof fn lemma_sustain_step<G>(v: PlayingSample<G>, length: u32)
    requires
        v.state == PlayingState::SUSTAIN,
    ensures
        v.stepped(length).state == PlayingState::SUSTAIN,
        v.position < v.vowel_end ==> v.stepped(length).position == v.position + 1,
        v.vowel_end <= v.position < i64::MAX ==> v.stepped(length).position == v.vowel_start + length,
{
}

/// A sustained voice that is `frames` frames or more before the loop end has
/// moved on by exactly `frames` frames after as many steps: the cursor
/// neither skips nor drifts.
pub proof fn lemma_sustain_run<G>(v: PlayingSample<G>, length: u32, frames: nat)
    requires
        v.state == PlayingState::SUSTAIN,
        v.position + frames <= v.vowel_end,
    ensures
        v.after(length, frames).state == PlayingState::SUSTAIN,
        v.after(length, frames).position == v.position + frames,
    decreases frames,
{
    if frames > 0 {
        lemma_sustain_step(v, length);
        lemma_sustain_run(v.stepped(length), length, (frames - 1) as nat);
    }
}

/// Inside the crossfade window the frame at the cursor is blended with the
/// frame as far behind the loop start as the cursor is behind the window's
/// start. The weight of that second frame is zero at the start of the
/// window, grows by one part in `length` with every frame, and stays below
/// one before the loop end.
pub proof fn lemma_blend_weight<G>(v: PlayingSample<G>, length: u32)
    requires
        !v.ignore_fade,
        0 <= v.position,
        v.fade_start(length) <= v.position < v.vowel_end,
    ensures
        v.source(true, length) == (FrameSource::Blend {
            at: v.position as u64,
            second: (v.vowel_start + (v.position - v.fade_start(length))) as u64,
            offset: (v.position - v.fade_start(length)) as u64,
            length,
        }),
        0 <= v.position - v.fade_start(length) < length,
        v.position == v.fade_start(length) ==> v.source(true, length)->Blend_offset == 0,
{
}

/// With instant cutoff a voice that is done leaves the list at once; without
/// it the voice stays for as long as its cursor is inside its sample.
pub proof fn lemma_done_voice<G>(v: PlayingSample<G>, sample_len: Option<usize>)
    requires
        v.state == PlayingState::DONE,
    ensures
        !v.survives(sample_len, true),
        retired(seq![v], seq![sample_len], true) == Seq::<PlayingSample<G>>::empty(),
        v.survives(sample_len, false) <==> sample_len is Some && v.position < sample_len.unwrap(),
        v.survives(sample_len, false) ==> retired(seq![v], seq![sample_len], false) == seq![
            v.settled(false),
        ],
{
    assert(seq![v].drop_last() =~= Seq::<PlayingSample<G>>::empty());
    assert(seq![sample_len].drop_last() =~= Seq::<Option<usize>>::empty());
    assert(retired(Seq::<PlayingSample<G>>::empty(), Seq::<Option<usize>>::empty(), true)
        =~= Seq::<PlayingSample<G>>::empty());
    assert(retired(Seq::<PlayingSample<G>>::empty(), Seq::<Option<usize>>::empty(), false)
        =~= Seq::<PlayingSample<G>>::empty());
    if v.survives(sample_len, false) {
        assert(retired(seq![v], seq![sample_len], false) =~= seq![v.settled(false)]);
    }
}

/// A note-on is refused while the only voice is in its attack or sustain
/// phase, and accepted once that voice is released or done.
pub proof fn lemma_sole_voice_and_new_note<G>(v: PlayingSample<G>)
    ensures
        may_start_note(seq![v]) <==> v.state == PlayingState::RELEASE || v.state == PlayingState::DONE,
{
}

} // verus!
