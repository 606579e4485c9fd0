//! A polyphonic sample-playback engine for one instrument.

use vstd::prelude::*;

use crate::note::{
    apply_opt, frame_step, note_out, Note, NoteUpdate, ATTEN_NUM, END_NOTE, GAIN_UNIT, NOTE_COUNT,
    NOTE_OUT_BOUND, RELEASE_FLOOR, RELEASE_STEP, START_NOTE,
};

verus! {

/// Largest magnitude of the per-frame sum over all notes of one voice.
pub const VOICE_SUM_BOUND: i64 = 33 * 32768 * 100 * 7071;

/// Largest magnitude of one voice's per-frame output: the note sum times
/// the second attenuation numerator.
pub const VOICE_OUT_BOUND: i64 = 33 * 32768 * 100 * 7071 * 7071;

/// The sum of the frame contributions of a sequence of notes.
pub open spec fn notes_sum(s: Seq<Note>) -> int
    decreases s.len(),
{
    if s.len() == 0 {
        0
    } else {
        notes_sum(s.drop_last()) + note_out(s.last())
    }
}

/// The note states of a voice after one event has been applied to them.
pub open spec fn apply_seq(s: Seq<Note>, u: Option<NoteUpdate>) -> Seq<Note> {
    Seq::new(s.len(), |i: int| apply_opt(s[i], u))
}

/// The note states of a voice after one full step: the event applied,
/// then every note advanced one frame.
pub open spec fn voice_next_seq(s: Seq<Note>, u: Option<NoteUpdate>) -> Seq<Note> {
    Seq::new(s.len(), |i: int| frame_step(apply_opt(s[i], u)))
}

/// One voice's output for the frame on which it receives `u`: the sum of
/// the contributions of its notes after the event is applied, scaled by
/// the attenuation numerator once more (the normalization denominator is
/// carried in the output unit).
pub open spec fn voice_out(s: Seq<Note>, u: Option<NoteUpdate>) -> int {
    notes_sum(apply_seq(s, u)) * ATTEN_NUM as int
}

/// One instrument's engine: exactly one note per playable semitone, in
/// pitch order, pre-loaded at construction.
pub struct Voice {
    pub name: String,
    pub notes: Vec<Note>,
}

impl Voice {
    /// Well-formedness: one well-formed note per semitone of the playable
    /// range, held in pitch order.
    pub open spec fn wf(self) -> bool {
        &&& self.notes@.len() == NOTE_COUNT
        &&& forall|i: int|
            0 <= i < self.notes@.len() ==> (#[trigger] self.notes@[i]).wf()
                && self.notes@[i].pitch as int == START_NOTE as int + i
    }

    /// Builds a voice from an already-loaded sample bank: one note per
    /// semitone of the playable range, in pitch order. Loading and
    /// decoding the bank is the caller's concern; a bank that cannot be
    /// loaded in full is a fatal construction error there.
    pub fn new(name: String, notes: Vec<Note>) -> (v: Voice)
        requires
            notes@.len() == NOTE_COUNT,
            forall|i: int|
                0 <= i < notes@.len() ==> (#[trigger] notes@[i]).wf()
                    && notes@[i].pitch as int == START_NOTE as int + i,
        ensures
            v.wf(),
            v.notes@ == notes@,
            v.name == name,
    {
        Voice { name, notes }
    }

    /// Restarts nothing: all state lives in the notes, which keep playing
    /// across activations exactly as the contracts of `next` say.
    pub fn reset(&mut self)
        ensures
            *final(self) == *old(self),
    {
    }

    /// One frame of the voice: applies `update` to the note it addresses
    /// (a pitch outside the playable range addresses none and is silently
    /// ignored), sums the contributions of the active notes, then advances
    /// every active note by one frame.
    pub fn next(&mut self, update: Option<NoteUpdate>) -> (out: i64)
        requires
            old(self).wf(),
        ensures
            final(self).wf(),
            final(self).name == old(self).name,
            final(self).notes@ == voice_next_seq(old(self).notes@, update),
            out == voice_out(old(self).notes@, update),
            -VOICE_OUT_BOUND <= out <= VOICE_OUT_BOUND,
    {
        // Apply the event to the note it addresses, if any.
        if let Some(u) = update {
            if START_NOTE <= u.note && u.note <= END_NOTE {
                let idx: usize = (u.note - START_NOTE) as usize;
                if u.onoff {
                    self.notes[idx].frame = 0;
                    self.notes[idx].gain = GAIN_UNIT;
                    self.notes[idx].active = true;
                } else {
                    let g = self.notes[idx].gain;
                    self.notes[idx].gain = if g >= RELEASE_STEP {
                        g - RELEASE_STEP
                    } else {
                        0
                    };
                }
            }
        }
        let ghost applied = apply_seq(old(self).notes@, update);
        proof {
            assert forall|i: int| 0 <= i < NOTE_COUNT implies self.notes@[i] == applied[i] by {
                assert(old(self).notes@[i].pitch as int == START_NOTE as int + i);
            }
            assert(self.notes@ =~= applied);
        }

        // Sum the active notes and advance each of them one frame.
        let mut sum: i64 = 0;
        let mut i: usize = 0;
        while i < NOTE_COUNT
            invariant
                self.name == old(self).name,
                self.notes@.len() == NOTE_COUNT,
                applied.len() == NOTE_COUNT,
                i <= NOTE_COUNT,
                forall|j: int| 0 <= j < NOTE_COUNT ==> (#[trigger] applied[j]).wf(),
                forall|j: int| i <= j < NOTE_COUNT ==> self.notes@[j] == applied[j],
                forall|j: int|
                    0 <= j < i ==> self.notes@[j] == frame_step(#[trigger] applied[j]),
                sum == notes_sum(applied.take(i as int)),
                -(i as int) * NOTE_OUT_BOUND <= sum <= (i as int) * NOTE_OUT_BOUND,
            decreases NOTE_COUNT - i,
        {
            proof {
                assert(applied[i as int].wf());
                assert(self.notes@[i as int] == applied[i as int]);
                vstd::arithmetic::mul::lemma_mul_is_distributive_add_other_way(
                    NOTE_OUT_BOUND as int,
                    i as int,
                    1,
                );
                vstd::arithmetic::mul::lemma_mul_inequality(i as int + 1, 33, NOTE_OUT_BOUND as int);
                vstd::arithmetic::mul::lemma_mul_basics(NOTE_OUT_BOUND as int);
                vstd::arithmetic::mul::lemma_mul_unary_negation(i as int, NOTE_OUT_BOUND as int);
                vstd::arithmetic::mul::lemma_mul_unary_negation(i as int + 1, NOTE_OUT_BOUND as int);
                vstd::arithmetic::mul::lemma_mul_inequality(-(i as int) - 1, 0, NOTE_OUT_BOUND as int);
            }
            if self.notes[i].active {
                let s = self.notes[i].sample[self.notes[i].frame];
                let g = self.notes[i].gain;
                let f = self.notes[i].frame;
                let end = self.notes[i].sample.len();
                proof {
                    assert((s as int) * (g as int) * (ATTEN_NUM as int) <= NOTE_OUT_BOUND
                        && -NOTE_OUT_BOUND <= (s as int) * (g as int) * (ATTEN_NUM as int))
                        by (nonlinear_arith)
                        requires
                            -32768 <= s as int <= 32767,
                            0 <= g as int <= 100,
                    ;
                }
                let term: i64 = (s as i64) * (g as i64) * ATTEN_NUM;
                sum = sum + term;

                // Release envelope: a gain below full scale falls one
                // step, or snaps to zero at the floor and idles the note.
                if g < GAIN_UNIT {
                    if g > RELEASE_FLOOR {
                        self.notes[i].gain = g - RELEASE_STEP;
                    } else {
                        self.notes[i].gain = 0;
                        self.notes[i].active = false;
                    }
                }
                // Cursor: the final sample index idles the note and
                // rewinds it; any other advances by one.
                if f + 1 == end {
                    self.notes[i].active = false;
                    self.notes[i].frame = 0;
                } else {
                    self.notes[i].frame = f + 1;
                }
            } else {
                proof {
                    assert(note_out(applied[i as int]) == 0);
                }
            }
            proof {
                assert(self.notes@[i as int] == frame_step(applied[i as int]));
                assert(applied.take(i + 1).drop_last() =~= applied.take(i as int));
                assert(applied.take(i + 1).last() == applied[i as int]);
                assert(notes_sum(applied.take(i + 1)) == notes_sum(applied.take(i as int))
                    + note_out(applied[i as int]));
            }
            i = i + 1;
        }
        proof {
            assert(applied.take(NOTE_COUNT as int) =~= applied);
            assert forall|j: int| 0 <= j < NOTE_COUNT implies self.notes@[j] == voice_next_seq(
                old(self).notes@,
                update,
            )[j] by {
                assert(self.notes@[j] == frame_step(applied[j]));
            }
            assert(self.notes@ =~= voice_next_seq(old(self).notes@, update));
            assert((i as int) * NOTE_OUT_BOUND == 33 * NOTE_OUT_BOUND);
            assert((-(i as int)) * NOTE_OUT_BOUND == (-33) * NOTE_OUT_BOUND);
            assert(33 * NOTE_OUT_BOUND == VOICE_SUM_BOUND);
            assert((-33) * NOTE_OUT_BOUND == -VOICE_SUM_BOUND) by {
                vstd::arithmetic::mul::lemma_mul_unary_negation(33, NOTE_OUT_BOUND as int);
            }
            assert(-VOICE_SUM_BOUND <= sum <= VOICE_SUM_BOUND);
            assert((sum as int) * (ATTEN_NUM as int) <= VOICE_OUT_BOUND
                && -VOICE_OUT_BOUND <= (sum as int) * (ATTEN_NUM as int)) by (nonlinear_arith)
                requires
                    -VOICE_SUM_BOUND <= sum as int <= VOICE_SUM_BOUND,
                    VOICE_SUM_BOUND == 33 * 32768 * 100 * 7071,
                    VOICE_OUT_BOUND == 33 * 32768 * 100 * 7071 * 7071,
                    ATTEN_NUM == 7071,
            ;
        }
        sum * ATTEN_NUM
    }
}

/// Silence: a voice none of whose notes is sounding emits exactly 0 on a
/// frame that carries no note-on, and none of its notes is sounding
/// afterwards either — so by induction it emits exactly 0 on every frame.
pub proof fn lemma_silence(v: Voice, u: Option<NoteUpdate>)
    requires
        v.wf(),
        forall|i: int| 0 <= i < v.notes@.len() ==> !(#[trigger] v.notes@[i]).active,
        match u {
            Some(uu) => !uu.onoff,
            None => true,
        },
    ensures
        voice_out(v.notes@, u) == 0,
        forall|i: int|
            0 <= i < v.notes@.len() ==> !(#[trigger] voice_next_seq(v.notes@, u)[i]).active,
{
    let applied = apply_seq(v.notes@, u);
    assert forall|i: int| 0 <= i < applied.len() implies !(#[trigger] applied[i]).active by {
        assert(applied[i] == apply_opt(v.notes@[i], u));
    }
    lemma_inactive_sum_zero(applied);
}

/// The frame sum of a sequence of idle notes is exactly 0.
pub proof fn lemma_inactive_sum_zero(s: Seq<Note>)
    requires
        forall|i: int| 0 <= i < s.len() ==> !(#[trigger] s[i]).active,
    ensures
        notes_sum(s) == 0,
    decreases s.len(),
{
    if s.len() > 0 {
        lemma_inactive_sum_zero(s.drop_last());
    }
}

/// Out-of-range pitches are no-ops: an update whose pitch lies outside the
/// playable range leaves every note exactly as an event-free frame would,
/// both in the per-frame output and in the notes' new states.
pub proof fn lemma_out_of_range_noop(v: Voice, u: NoteUpdate)
    requires
        v.wf(),
        u.note < START_NOTE || u.note > END_NOTE,
    ensures
        apply_seq(v.notes@, Some(u)) == v.notes@,
        voice_next_seq(v.notes@, Some(u)) == voice_next_seq(v.notes@, None),
        voice_out(v.notes@, Some(u)) == voice_out(v.notes@, None),
{
    assert forall|i: int| 0 <= i < v.notes@.len() implies #[trigger] apply_opt(v.notes@[i], Some(u))
        == v.notes@[i] by {
        assert(v.notes@[i].pitch as int == START_NOTE as int + i);
    }
    assert(apply_seq(v.notes@, Some(u)) =~= v.notes@);
    assert(apply_seq(v.notes@, None) =~= v.notes@);
    assert(voice_next_seq(v.notes@, Some(u)) =~= voice_next_seq(v.notes@, None));
}

} // verus!
