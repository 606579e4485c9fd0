use mellotron::atomizer::EventAtomizer;
use mellotron::note::{Note, NoteUpdate, END_NOTE, GAIN_UNIT, START_NOTE};
use mellotron::pipeline::{mix_frame, process_block};
use mellotron::reader::{EventReader, RawMessage};
use mellotron::voice::Voice;

fn on(note: u8) -> Option<NoteUpdate> {
    Some(NoteUpdate { note, onoff: true, velocity: 100 })
}

fn off(note: u8) -> Option<NoteUpdate> {
    Some(NoteUpdate { note, onoff: false, velocity: 0 })
}

/// One note per semitone of the playable range, every buffer a copy of
/// `sample`.
fn bank(name: &str, sample: &[i16]) -> Voice {
    let mut notes: Vec<Note> = Vec::new();
    for pitch in START_NOTE..=END_NOTE {
        notes.push(Note::new(pitch, sample.to_vec()));
    }
    Voice::new(name.to_string(), notes)
}

#[test]
fn test_atomizer() {
    let events: Vec<(usize, u32)> = vec![(4, 1), (10, 5)];
    let mut pipe = EventAtomizer::new(events);

    for i in 0..15 {
        let output = pipe.next();
        match i {
            4 => assert_eq!(Some(1), output),
            10 => assert_eq!(Some(5), output),
            _ => assert_eq!(None, output),
        }
    }
}

#[test]
fn test_atomizer_tie_emits_next_call() {
    let events: Vec<(usize, u32)> = vec![(4, 1), (4, 2)];
    let mut pipe = EventAtomizer::new(events);
    let mut got: Vec<Option<u32>> = Vec::new();
    for _ in 0..7 {
        got.push(pipe.next());
    }
    assert_eq!(got, vec![None, None, None, None, Some(1), Some(2), None]);
}

#[test]
fn test_reader_note_on() {
    let r = EventReader::new();
    let m = RawMessage { status: 0x93, data1: 60, data2: 99 };
    let expect = Some(NoteUpdate { note: 60, onoff: true, velocity: 99 });
    assert_eq!(r.next(Some(m)), (expect, expect));
}

#[test]
fn test_reader_note_off() {
    let r = EventReader::new();
    let m = RawMessage { status: 0x85, data1: 61, data2: 7 };
    let expect = Some(NoteUpdate { note: 61, onoff: false, velocity: 7 });
    assert_eq!(r.next(Some(m)), (expect, expect));
}

#[test]
fn test_reader_drops_other_and_malformed() {
    let r = EventReader::new();
    assert_eq!(r.next(None), (None, None));
    // A control-change status is not a note event.
    let cc = RawMessage { status: 0xB0, data1: 60, data2: 99 };
    assert_eq!(r.next(Some(cc)), (None, None));
    // A data byte with its high bit set is malformed.
    let bad = RawMessage { status: 0x90, data1: 0x80, data2: 99 };
    assert_eq!(r.next(Some(bad)), (None, None));
}

#[test]
fn test_note_value() {
    let n = Note::new(60, vec![5, -6, 7]);
    assert_eq!(n.value(), 5);
    assert_eq!(n.gain, GAIN_UNIT);
    assert!(!n.active);
}

#[test]
fn test_voice_exact_output() {
    let mut v = bank("flute", &[1000, -2000, 300, 400, 500]);
    // The note-on frame plays sample 0 at full gain.
    let out0 = v.next(on(60));
    assert_eq!(out0, 1000i64 * 100 * 7071 * 7071);
    // The next frame plays sample 1, still at full gain.
    let out1 = v.next(None);
    assert_eq!(out1, -2000i64 * 100 * 7071 * 7071);
}

#[test]
fn test_retrigger() {
    let mut v = bank("flute", &[10; 50]);
    v.next(on(60));
    v.next(None);
    v.next(off(60));
    let idx = (60 - START_NOTE) as usize;
    assert!(v.notes[idx].gain < GAIN_UNIT);
    assert_eq!(v.notes[idx].frame, 3);
    // A second note-on while sounding resets cursor and gain, whatever
    // they were: after the retriggered frame the cursor sits at 1 and the
    // gain is back at full scale.
    v.next(on(60));
    assert_eq!(v.notes[idx].frame, 1);
    assert_eq!(v.notes[idx].gain, GAIN_UNIT);
    assert!(v.notes[idx].active);
}

#[test]
fn test_release_monotonic_and_terminates() {
    let mut v = bank("flute", &[10; 300]);
    v.next(on(70));
    let idx = (70 - START_NOTE) as usize;
    v.next(off(70));
    let mut last = v.notes[idx].gain;
    let mut frames = 0;
    while v.notes[idx].active {
        v.next(None);
        let g = v.notes[idx].gain;
        assert!(g <= last, "gain rose during release");
        last = g;
        frames += 1;
        assert!(frames <= 100, "release took more than one gain unit of frames");
    }
    assert_eq!(v.notes[idx].gain, 0);
    assert!(!v.notes[idx].active);
    // Once idle with gain 0, it stays silent.
    assert_eq!(v.next(None), 0);
}

#[test]
fn test_end_of_sample() {
    let mut v = bank("flute", &[8, 9, 10]);
    v.next(on(57));
    let idx = 0usize;
    assert_eq!(v.notes[idx].frame, 1);
    v.next(None);
    assert_eq!(v.notes[idx].frame, 2);
    // The cursor sits on the last sample index: this frame still sounds,
    // then the note goes idle and rewinds, with its gain untouched.
    let out = v.next(None);
    assert_eq!(out, 10i64 * 100 * 7071 * 7071);
    assert!(!v.notes[idx].active);
    assert_eq!(v.notes[idx].frame, 0);
    assert_eq!(v.notes[idx].gain, GAIN_UNIT);
    assert_eq!(v.next(None), 0);
}

#[test]
fn test_out_of_range_pitch_noop() {
    let mut with_event = bank("flute", &[10; 20]);
    let mut without_event = bank("flute", &[10; 20]);
    with_event.next(on(60));
    without_event.next(on(60));

    let below = NoteUpdate { note: START_NOTE - 1, onoff: true, velocity: 100 };
    let above = NoteUpdate { note: END_NOTE + 1, onoff: false, velocity: 100 };
    let a = with_event.next(Some(below));
    let b = without_event.next(None);
    assert_eq!(a, b);
    let a = with_event.next(Some(above));
    let b = without_event.next(None);
    assert_eq!(a, b);
    for i in 0..with_event.notes.len() {
        assert_eq!(with_event.notes[i].gain, without_event.notes[i].gain);
        assert_eq!(with_event.notes[i].frame, without_event.notes[i].frame);
        assert_eq!(with_event.notes[i].active, without_event.notes[i].active);
    }
}

#[test]
fn test_silence() {
    let mut v = bank("strings", &[123; 40]);
    for _ in 0..10 {
        assert_eq!(v.next(None), 0);
    }
}

#[test]
fn test_mix_law() {
    // All of voice A.
    assert_eq!(mix_frame(1000, -500, 0), 1000 * 100 * 5);
    // All of voice B.
    assert_eq!(mix_frame(1000, -500, 100), -500 * 100 * 5);
    // Linear in between.
    assert_eq!(mix_frame(1000, -500, 37), 222_500);
    assert_eq!(mix_frame(1000, -500, 37), (1000 * 63 + -500 * 37) * 5);
}

#[test]
fn test_process_block() {
    let mut voice_a = bank("flute", &[10, -20, 30, 40, 50, 60]);
    let mut voice_b = bank("strings", &[7; 6]);
    // A note-on for the lowest playable pitch lands on frame 1.
    let events = vec![(1usize, RawMessage { status: 0x90, data1: START_NOTE, data2: 100 })];
    let out = process_block(&mut voice_a, &mut voice_b, events, 0, 5);
    let unit: i64 = 100 * 7071 * 7071 * 100 * 5;
    assert_eq!(out, vec![0, 10 * unit, -20 * unit, 30 * unit, 40 * unit]);

    // The same block hard over to voice B picks up its bank instead.
    let mut voice_a = bank("flute", &[10, -20, 30, 40, 50, 60]);
    let mut voice_b = bank("strings", &[7; 6]);
    let events = vec![(1usize, RawMessage { status: 0x90, data1: START_NOTE, data2: 100 })];
    let out = process_block(&mut voice_a, &mut voice_b, events, 100, 5);
    assert_eq!(out, vec![0, 7 * unit, 7 * unit, 7 * unit, 7 * unit]);
}

#[test]
fn test_process_block_no_events() {
    let mut voice_a = bank("flute", &[10; 4]);
    let mut voice_b = bank("strings", &[7; 4]);
    let out = process_block(&mut voice_a, &mut voice_b, Vec::new(), 50, 8);
    assert_eq!(out, vec![0; 8]);
}
