//! The per-block composition: atomizer, reader, the two voices, and the
//! frame mixer, advanced together one frame at a time.

use vstd::prelude::*;

use crate::atomizer::{atomizer_step, primed, EventAtomizer};
use crate::note::{Note, NoteUpdate};
use crate::reader::{decode_opt, EventReader, RawMessage};
use crate::voice::{voice_next_seq, voice_out, Voice, VOICE_OUT_BOUND};

verus! {

/// A mix control of 1.0 (all of voice B), in hundredths.
pub const MIX_UNIT: u32 = 100;

/// Numerator of the fixed output attenuation 0.0005; the denominator
/// 10_000 is carried in the output unit, never divided out.
pub const OUTPUT_SCALE_NUM: i64 = 5;

/// Largest magnitude of one mixed output frame.
pub const FRAME_OUT_BOUND: i64 = 33 * 32768 * 100 * 7071 * 7071 * 100 * 5;

/// The mixer's law: the two voice outputs cross-faded linearly under the
/// mix control (in hundredths) and scaled by the output attenuation
/// numerator.
pub open spec fn mix_spec(va: int, vb: int, mix: int) -> int {
    (va * (MIX_UNIT as int - mix) + vb * mix) * OUTPUT_SCALE_NUM as int
}

/// Blends one frame of the two voice outputs under the mix control.
pub fn mix_frame(va: i64, vb: i64, mix: u32) -> (out: i64)
    requires
        mix <= MIX_UNIT,
        -VOICE_OUT_BOUND <= va <= VOICE_OUT_BOUND,
        -VOICE_OUT_BOUND <= vb <= VOICE_OUT_BOUND,
    ensures
        out == mix_spec(va as int, vb as int, mix as int),
        -FRAME_OUT_BOUND <= out <= FRAME_OUT_BOUND,
{
    proof {
        assert(-100 * VOICE_OUT_BOUND <= (va as int) * (MIX_UNIT as int - mix as int) <= 100
            * VOICE_OUT_BOUND && -100 * VOICE_OUT_BOUND <= (vb as int) * (mix as int) <= 100
            * VOICE_OUT_BOUND && -100 * VOICE_OUT_BOUND <= (va as int) * (MIX_UNIT as int
            - mix as int) + (vb as int) * (mix as int) <= 100 * VOICE_OUT_BOUND)
            by (nonlinear_arith)
            requires
                0 <= mix as int <= 100,
                MIX_UNIT as int == 100,
                -VOICE_OUT_BOUND <= va as int <= VOICE_OUT_BOUND,
                -VOICE_OUT_BOUND <= vb as int <= VOICE_OUT_BOUND,
                VOICE_OUT_BOUND == 33 * 32768 * 100 * 7071 * 7071,
        ;
    }
    let blended: i64 = va * ((MIX_UNIT - mix) as i64) + vb * (mix as i64);
    blended * OUTPUT_SCALE_NUM
}

/// The mix law at its boundaries and in between: with the control hard at
/// voice A the frame is A's output alone under the fixed scale, hard at
/// voice B it is B's alone, and for a fixed pair of voice outputs the
/// frame is an affine (linear) function of the control between the two.
pub proof fn lemma_mix_law(va: int, vb: int, mix: int)
    ensures
        mix_spec(va, vb, 0) == va * (MIX_UNIT as int) * (OUTPUT_SCALE_NUM as int),
        mix_spec(va, vb, MIX_UNIT as int) == vb * (MIX_UNIT as int) * (OUTPUT_SCALE_NUM as int),
        mix_spec(va, vb, mix) == mix_spec(va, vb, 0) + (vb - va) * mix * (
        OUTPUT_SCALE_NUM as int),
{
    assert(mix_spec(va, vb, 0) == va * 100 * 5 && mix_spec(va, vb, 100) == vb * 100 * 5
        && mix_spec(va, vb, mix) == va * 100 * 5 + (vb - va) * mix * 5) by (nonlinear_arith);
}

/// One frame of the whole pipeline, as a function of its state: the
/// atomizer advances one call, the raw event is decoded and fanned out to
/// both voices, each voice applies it and advances one frame, and the two
/// voice outputs are blended into one output frame.
pub open spec fn pipeline_step(
    az: EventAtomizer<RawMessage>,
    na: Seq<Note>,
    nb: Seq<Note>,
    mix: int,
) -> (EventAtomizer<RawMessage>, Seq<Note>, Seq<Note>, int) {
    let (az1, ev) = atomizer_step(az);
    let u = decode_opt(ev);
    (
        az1,
        voice_next_seq(na, u),
        voice_next_seq(nb, u),
        mix_spec(voice_out(na, u), voice_out(nb, u), mix),
    )
}

/// `n` frames of the whole pipeline: the state left behind and the `n`
/// output frames, in order.
pub open spec fn pipeline_run(
    az: EventAtomizer<RawMessage>,
    na: Seq<Note>,
    nb: Seq<Note>,
    mix: int,
    n: nat,
) -> (EventAtomizer<RawMessage>, Seq<Note>, Seq<Note>, Seq<int>)
    decreases n,
{
    if n == 0 {
        (az, na, nb, Seq::empty())
    } else {
        let (az1, na1, nb1, f) = pipeline_step(az, na, nb, mix);
        let (az2, na2, nb2, rest) = pipeline_run(az1, na1, nb1, mix, (n - 1) as nat);
        (az2, na2, nb2, seq![f] + rest)
    }
}

/// Runs one audio block: wraps the block's sorted event list in a fresh
/// atomizer and drives the pipeline once per output frame, mutating both
/// voices in place and returning exactly one output sample per frame.
pub fn process_block(
    voice_a: &mut Voice,
    voice_b: &mut Voice,
    events: Vec<(usize, RawMessage)>,
    mix: u32,
    n_frames: usize,
) -> (out: Vec<i64>)
    requires
        old(voice_a).wf(),
        old(voice_b).wf(),
        mix <= MIX_UNIT,
    ensures
        final(voice_a).wf(),
        final(voice_b).wf(),
        final(voice_a).name == old(voice_a).name,
        final(voice_b).name == old(voice_b).name,
        out@.len() == n_frames,
        ({
            let (az2, na2, nb2, outs) = pipeline_run(
                primed(events),
                old(voice_a).notes@,
                old(voice_b).notes@,
                mix as int,
                n_frames as nat,
            );
            &&& final(voice_a).notes@ == na2
            &&& final(voice_b).notes@ == nb2
            &&& outs.len() == n_frames
            &&& forall|i: int| 0 <= i < n_frames ==> out@[i] as int == outs[i]
        }),
{
    let ghost total = pipeline_run(
        primed(events),
        old(voice_a).notes@,
        old(voice_b).notes@,
        mix as int,
        n_frames as nat,
    );
    let mut atomizer = EventAtomizer::new(events);
    let reader = EventReader::new();
    let mut out: Vec<i64> = Vec::new();
    let mut i: usize = 0;
    while i < n_frames
        invariant
            i <= n_frames,
            mix <= MIX_UNIT,
            atomizer.wf(),
            atomizer.index == i,
            voice_a.wf(),
            voice_b.wf(),
            voice_a.name == old(voice_a).name,
            voice_b.name == old(voice_b).name,
            out@.len() == i,
            forall|j: int| 0 <= j < i ==> -FRAME_OUT_BOUND <= #[trigger] out@[j] <= FRAME_OUT_BOUND,
            total == pipeline_run(
                primed(events),
                old(voice_a).notes@,
                old(voice_b).notes@,
                mix as int,
                n_frames as nat,
            ),
            ({
                let (az2, na2, nb2, rest) = pipeline_run(
                    atomizer,
                    voice_a.notes@,
                    voice_b.notes@,
                    mix as int,
                    (n_frames - i) as nat,
                );
                &&& total.0 == az2
                &&& total.1 == na2
                &&& total.2 == nb2
                &&& total.3 =~= out@.map_values(|x: i64| x as int) + rest
            }),
        decreases n_frames - i,
    {
        let ghost az_before = atomizer;
        let ghost na_before = voice_a.notes@;
        let ghost nb_before = voice_b.notes@;
        let ev = atomizer.next();
        let (ua, ub) = reader.next(ev);
        let va = voice_a.next(ua);
        let vb = voice_b.next(ub);
        let frame = mix_frame(va, vb, mix);
        out.push(frame);
        proof {
            let (az1, na1, nb1, f) = pipeline_step(az_before, na_before, nb_before, mix as int);
            assert(az1 == atomizer && na1 == voice_a.notes@ && nb1 == voice_b.notes@);
            assert(f == frame as int);
            let (az2, na2, nb2, rest) = pipeline_run(
                az_before,
                na_before,
                nb_before,
                mix as int,
                (n_frames - i) as nat,
            );
            let (az3, na3, nb3, rest1) = pipeline_run(
                az1,
                na1,
                nb1,
                mix as int,
                (n_frames - i - 1) as nat,
            );
            assert(rest =~= seq![f] + rest1);
            assert(out@.map_values(|x: i64| x as int) =~= out@.subrange(0, i as int).map_values(
                |x: i64| x as int,
            ) + seq![frame as int]);
            assert(out@.subrange(0, i as int) =~= out@.take(i as int));
            assert(total.3 =~= out@.map_values(|x: i64| x as int) + rest1);
        }
        i = i + 1;
    }
    proof {
        assert(total.3 =~= out@.map_values(|x: i64| x as int));
        assert(out@.map_values(|x: i64| x as int).len() == out@.len());
    }
    out
}

} // verus!
