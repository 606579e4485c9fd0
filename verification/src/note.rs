//! One pitch's pre-loaded recording and its live playback state.

use vstd::prelude::*;

verus! {

/// Lowest playable pitch (MIDI A2).
pub const START_NOTE: u8 = 57;
/// Highest playable pitch (MIDI F5).
pub const END_NOTE: u8 = 89;
/// Number of semitones in the playable range.
pub const NOTE_COUNT: usize = 33;

/// Full gain (1.0), in hundredths of full scale.
pub const GAIN_UNIT: u32 = 100;
/// How far the gain falls on each released frame (0.01), in hundredths.
pub const RELEASE_STEP: u32 = 1;
/// A releasing gain at or below this floor snaps to zero and the note
/// goes idle (the 0.01 floor), in hundredths.
pub const RELEASE_FLOOR: u32 = 1;

/// Numerator of the per-note attenuation 0.7071 (about -3 dB); the
/// denominator is 10_000 and is carried in the output unit, never divided
/// out, so every frame value stays exact.
pub const ATTEN_NUM: i64 = 7071;

/// Largest magnitude a single note can contribute to one frame:
/// |sample| * gain * attenuation numerator.
pub const NOTE_OUT_BOUND: i64 = 32768 * 100 * 7071;

/// A decoded note event: switch `note` on or off at velocity `velocity`.
#[derive(Clone, Copy, Debug, PartialEq, Eq, Structural)]
pub struct NoteUpdate {
    pub note: u8,
    pub onoff: bool,
    pub velocity: u8,
}

/// One pitch's recording plus its live playback state.
///
/// `sample` is the pre-loaded amplitude buffer; `frame` is the playback
/// cursor into it; `gain` is the envelope in hundredths of full scale;
/// `active` is true while the note contributes to the output.
#[derive(Clone, Debug)]
pub struct Note {
    pub pitch: u8,
    pub sample: Vec<i16>,
    pub gain: u32,
    pub active: bool,
    pub frame: usize,
}

impl Note {
    /// Well-formedness: the buffer is non-empty, the cursor is inside it,
    /// and the gain never exceeds full scale.
    pub open spec fn wf(self) -> bool {
        &&& self.sample@.len() >= 1
        &&& self.frame < self.sample@.len()
        &&& self.gain <= GAIN_UNIT
    }

    /// A fresh note: cursor at the start, full gain, idle.
    pub fn new(pitch: u8, sample: Vec<i16>) -> (n: Note)
        requires
            START_NOTE <= pitch <= END_NOTE,
            sample@.len() >= 1,
        ensures
            n.wf(),
            n.pitch == pitch,
            n.sample@ == sample@,
            n.gain == GAIN_UNIT,
            !n.active,
            n.frame == 0,
    {
        Note { pitch, sample, gain: GAIN_UNIT, active: false, frame: 0 }
    }

    /// The instantaneous amplitude under the cursor.
    pub fn value(&self) -> (v: i16)
        requires
            self.wf(),
        ensures
            v == self.sample@[self.frame as int],
    {
        self.sample[self.frame]
    }
}

/// What one event does to one note: a note-on addressed to its pitch
/// retriggers it (cursor to 0, full gain, active); a note-off addressed to
/// its pitch lowers the gain one release step below full scale, which marks
/// it releasing; an event addressed to any other pitch changes nothing.
pub open spec fn apply_update(n: Note, u: NoteUpdate) -> Note {
    if u.note == n.pitch {
        if u.onoff {
            Note { gain: GAIN_UNIT, active: true, frame: 0, ..n }
        } else {
            Note { gain: if n.gain >= RELEASE_STEP { (n.gain - RELEASE_STEP) as u32 } else { 0u32 }, ..n }
        }
    } else {
        n
    }
}

/// Event application lifted to an optional event: no event, no change.
pub open spec fn apply_opt(n: Note, u: Option<NoteUpdate>) -> Note {
    match u {
        Some(uu) => apply_update(n, uu),
        None => n,
    }
}

/// What one active note contributes to the frame about to be emitted:
/// amplitude under the cursor times gain times the attenuation numerator.
/// An idle note contributes nothing.
pub open spec fn note_out(n: Note) -> int {
    if n.active {
        n.sample@[n.frame as int] as int * n.gain as int * ATTEN_NUM as int
    } else {
        0
    }
}

/// The per-frame advance of one note, taken after its contribution was
/// summed. An idle note is untouched. An active note first steps its
/// release envelope (a gain below full scale falls one step, or snaps to
/// zero and goes idle at the floor), then advances its cursor; a cursor on
/// the final sample index goes idle and resets to 0 regardless of gain.
pub open spec fn frame_step(n: Note) -> Note {
    if !n.active {
        n
    } else {
        let releasing = n.gain < GAIN_UNIT;
        let hits_floor = releasing && n.gain <= RELEASE_FLOOR;
        let g = if !releasing { n.gain } else if hits_floor { 0u32 } else { (n.gain - RELEASE_STEP) as u32 };
        if n.frame + 1 == n.sample@.len() {
            Note { gain: g, active: false, frame: 0, ..n }
        } else {
            Note { gain: g, active: !hits_floor, frame: (n.frame + 1) as usize, ..n }
        }
    }
}

/// `frame_step` iterated `k` times.
pub open spec fn frames_after(n: Note, k: nat) -> Note
    decreases k,
{
    if k == 0 {
        n
    } else {
        frames_after(frame_step(n), (k - 1) as nat)
    }
}

/// Retriggering: a note-on addressed to a note's pitch resets its cursor
/// to 0 and its gain to full scale and makes it sound, whatever state it
/// was in before.
pub proof fn lemma_retrigger(n: Note, u: NoteUpdate)
    requires
        u.onoff,
        u.note == n.pitch,
    ensures
        apply_update(n, u).frame == 0,
        apply_update(n, u).gain == GAIN_UNIT,
        apply_update(n, u).active,
        apply_update(n, u).pitch == n.pitch,
        apply_update(n, u).sample@ == n.sample@,
{
}

/// End-of-sample termination: an active note whose cursor sits on the last
/// sample index goes idle on the next frame, its cursor reset to 0,
/// regardless of its gain.
pub proof fn lemma_end_of_sample(n: Note)
    requires
        n.active,
        n.frame + 1 == n.sample@.len(),
    ensures
        !frame_step(n).active,
        frame_step(n).frame == 0,
{
}

/// The envelope never rises across a frame: release only lowers the gain.
pub proof fn lemma_gain_monotonic(n: Note)
    ensures
        frame_step(n).gain <= n.gain,
{
}

/// A note-off event never raises the gain either, so from the note-off
/// on, the gain is non-increasing frame over frame.
pub proof fn lemma_note_off_monotonic(n: Note, u: NoteUpdate)
    requires
        !u.onoff,
    ensures
        apply_update(n, u).gain <= n.gain,
        frame_step(apply_update(n, u)).gain <= n.gain,
{
    lemma_gain_monotonic(apply_update(n, u));
}

/// The envelope never rises over any number of frames.
pub proof fn lemma_gain_monotonic_after(n: Note, k: nat)
    ensures
        forall|j: nat| j <= k ==> frames_after(n, k).gain <= #[trigger] frames_after(n, j).gain,
    decreases k,
{
    if k > 0 {
        lemma_gain_monotonic(n);
        lemma_gain_monotonic_after(frame_step(n), (k - 1) as nat);
        assert forall|j: nat| j <= k implies frames_after(n, k).gain <= #[trigger] frames_after(n, j).gain by {
            if j > 0 {
                assert(frames_after(n, j) == frames_after(frame_step(n), (j - 1) as nat));
                assert(frames_after(n, k) == frames_after(frame_step(n), (k - 1) as nat));
            } else {
                assert(frames_after(n, 1).gain <= n.gain);
                assert(frames_after(frame_step(n), (k - 1) as nat).gain <= frames_after(frame_step(n), 0).gain);
            }
        }
    }
}

/// Release termination: a releasing note whose buffer leaves it at least
/// `gain` more frames before the final index reaches gain exactly 0 within
/// `gain` frames (at most one full gain unit's worth), and is then idle and
/// stays idle with gain 0.
pub proof fn lemma_release_terminates(n: Note, k: nat)
    requires
        n.wf(),
        n.active,
        n.gain < GAIN_UNIT,
        n.gain >= 1,
        n.gain as int <= n.sample@.len() - 1 - n.frame,
        k >= n.gain,
    ensures
        frames_after(n, k).gain == 0,
        !frames_after(n, k).active,
    decreases k,
{
    let n1 = frame_step(n);
    assert(n.frame + 1 < n.sample@.len());
    if n.gain == 1 {
        assert(n1.gain == 0 && !n1.active);
        lemma_idle_stays_idle(n1, (k - 1) as nat);
    } else {
        assert(n1.active && n1.gain == n.gain - 1);
        lemma_release_terminates(n1, (k - 1) as nat);
    }
}

/// An idle note with gain 0 is left exactly as it is by every later frame.
pub proof fn lemma_idle_stays_idle(n: Note, k: nat)
    requires
        !n.active,
        n.gain == 0,
    ensures
        frames_after(n, k) == n,
    decreases k,
{
    if k > 0 {
        lemma_idle_stays_idle(frame_step(n), (k - 1) as nat);
    }
}

} // verus!
