use floppotron_jr::floppy::Floppies;
use floppotron_jr::floppy::FloppyImpl;
use floppotron_jr::floppy::PinState;
use floppotron_jr::handle_midi_message;
use floppotron_jr::oscillators::OscConfiguration;
use floppotron_jr::oscillators::Oscillators;
use floppotron_jr::pwm::OscSlices;
use floppotron_jr::pwm::PwmSlice;
use floppotron_jr::MidiMessage;

fn ready() -> Oscillators {
    let slices = OscSlices(
        PwmSlice::new(0),
        PwmSlice::new(1),
        PwmSlice::new(2),
        PwmSlice::new(3),
        PwmSlice::new(4),
        PwmSlice::new(5),
    );
    let floppies = Floppies(
        FloppyImpl::new(26, 27, 28),
        FloppyImpl::new(7, 6, 5),
        FloppyImpl::new(20, 21, 22),
        FloppyImpl::new(11, 10, 9),
        FloppyImpl::new(16, 17, 18),
        FloppyImpl::new(15, 14, 13),
    );
    let mut oscs = Oscillators { config: None };
    oscs.init(floppies, slices);
    oscs
}

fn held(oscs: &Oscillators) -> Vec<(u8, u8)> {
    let all = match oscs.config.as_ref().unwrap() {
        OscConfiguration::Single(o) => vec![
            (o.0.get_note(), o.0.get_age()),
            (o.1.get_note(), o.1.get_age()),
            (o.2.get_note(), o.2.get_age()),
            (o.3.get_note(), o.3.get_age()),
            (o.4.get_note(), o.4.get_age()),
            (o.5.get_note(), o.5.get_age()),
        ],
        OscConfiguration::Unisono(o, _) => vec![(o.get_note(), o.get_age())],
        OscConfiguration::Inverse(o, _) => vec![
            (o.0.get_note(), o.0.get_age()),
            (o.1.get_note(), o.1.get_age()),
            (o.2.get_note(), o.2.get_age()),
        ],
    };
    all.iter().filter(|v| v.0.is_some()).map(|v| (v.0.unwrap(), v.1)).collect()
}

fn count(oscs: &Oscillators) -> u8 {
    oscs.config.as_ref().unwrap().oscillator_count()
}

#[test]
fn note_on_plays_and_lights_the_indicator() {
    let mut oscs = ready();
    let level =
        handle_midi_message(&mut oscs, MidiMessage::NoteOn { channel: 0, note: 60, velocity: 100 });
    assert_eq!(level, Some(PinState::High));
    assert_eq!(held(&oscs), vec![(60, 0)]);
    let level =
        handle_midi_message(&mut oscs, MidiMessage::NoteOn { channel: 3, note: 64, velocity: 1 });
    assert_eq!(level, Some(PinState::High));
    assert_eq!(held(&oscs), vec![(60, 1), (64, 0)]);
}

#[test]
fn note_on_with_velocity_zero_is_a_note_off() {
    let mut oscs = ready();
    handle_midi_message(&mut oscs, MidiMessage::NoteOn { channel: 0, note: 60, velocity: 100 });
    handle_midi_message(&mut oscs, MidiMessage::NoteOn { channel: 0, note: 64, velocity: 100 });
    let level =
        handle_midi_message(&mut oscs, MidiMessage::NoteOn { channel: 0, note: 60, velocity: 0 });
    // 64 still sounds.
    assert_eq!(level, Some(PinState::High));
    assert_eq!(held(&oscs), vec![(64, 0)]);
    let level =
        handle_midi_message(&mut oscs, MidiMessage::NoteOn { channel: 0, note: 64, velocity: 0 });
    assert_eq!(level, Some(PinState::Low));
    assert_eq!(held(&oscs), vec![]);
}

#[test]
fn indicator_stays_high_until_the_last_note_ends() {
    let mut oscs = ready();
    handle_midi_message(&mut oscs, MidiMessage::NoteOn { channel: 0, note: 60, velocity: 100 });
    handle_midi_message(&mut oscs, MidiMessage::NoteOn { channel: 0, note: 64, velocity: 100 });
    let level =
        handle_midi_message(&mut oscs, MidiMessage::NoteOff { channel: 0, note: 60, velocity: 0 });
    assert_eq!(level, Some(PinState::High));
    assert_eq!(held(&oscs), vec![(64, 0)]);
    // A note that does not sound ends nothing.
    let level =
        handle_midi_message(&mut oscs, MidiMessage::NoteOff { channel: 0, note: 99, velocity: 0 });
    assert_eq!(level, Some(PinState::High));
    assert_eq!(held(&oscs), vec![(64, 0)]);
    let level =
        handle_midi_message(&mut oscs, MidiMessage::NoteOff { channel: 0, note: 64, velocity: 77 });
    assert_eq!(level, Some(PinState::Low));
    assert_eq!(held(&oscs), vec![]);
}

#[test]
fn note_off_on_a_silent_bank_keeps_the_indicator_low() {
    let mut oscs = ready();
    let level =
        handle_midi_message(&mut oscs, MidiMessage::NoteOff { channel: 0, note: 60, velocity: 0 });
    assert_eq!(level, Some(PinState::Low));
    let level =
        handle_midi_message(&mut oscs, MidiMessage::NoteOn { channel: 0, note: 60, velocity: 0 });
    assert_eq!(level, Some(PinState::Low));
    assert_eq!(held(&oscs), vec![]);
}

#[test]
fn a_seventh_note_on_takes_over_the_oldest_voice() {
    let mut oscs = ready();
    for note in 60..=65 {
        handle_midi_message(&mut oscs, MidiMessage::NoteOn { channel: 0, note, velocity: 100 });
    }
    let level =
        handle_midi_message(&mut oscs, MidiMessage::NoteOn { channel: 0, note: 66, velocity: 100 });
    assert_eq!(level, Some(PinState::High));
    assert_eq!(held(&oscs), vec![(66, 0), (61, 5), (62, 4), (63, 3), (64, 2), (65, 1)]);
    // The note that gave way has ended already; the indicator stays high.
    let level =
        handle_midi_message(&mut oscs, MidiMessage::NoteOff { channel: 0, note: 60, velocity: 0 });
    assert_eq!(level, Some(PinState::High));
    assert_eq!(held(&oscs), vec![(66, 0), (61, 5), (62, 4), (63, 3), (64, 2), (65, 1)]);
}

#[test]
fn any_sounding_follows_the_notes() {
    let mut oscs = ready();
    assert!(!oscs.any_sounding());
    handle_midi_message(&mut oscs, MidiMessage::NoteOn { channel: 0, note: 60, velocity: 100 });
    assert!(oscs.any_sounding());
    assert!(oscs.config.as_ref().unwrap().any_sounding());
    handle_midi_message(&mut oscs, MidiMessage::ProgramChange { channel: 0, program: 1 });
    assert!(!oscs.any_sounding());
    assert!(!Oscillators { config: None }.any_sounding());
}

#[test]
fn program_change_switches_the_topology() {
    let mut oscs = ready();
    handle_midi_message(&mut oscs, MidiMessage::NoteOn { channel: 0, note: 60, velocity: 100 });
    let level = handle_midi_message(&mut oscs, MidiMessage::ProgramChange { channel: 0, program: 1 });
    assert_eq!(level, None);
    assert!(matches!(oscs.config, Some(OscConfiguration::Inverse(_, _))));
    assert_eq!(count(&oscs), 3);
    assert_eq!(held(&oscs), vec![]);

    handle_midi_message(&mut oscs, MidiMessage::NoteOn { channel: 0, note: 60, velocity: 100 });
    let level = handle_midi_message(&mut oscs, MidiMessage::ProgramChange { channel: 9, program: 2 });
    assert_eq!(level, None);
    assert!(matches!(oscs.config, Some(OscConfiguration::Unisono(_, _))));
    assert_eq!(count(&oscs), 1);
    assert_eq!(held(&oscs), vec![]);

    handle_midi_message(&mut oscs, MidiMessage::NoteOn { channel: 0, note: 60, velocity: 100 });
    let level = handle_midi_message(&mut oscs, MidiMessage::ProgramChange { channel: 0, program: 0 });
    assert_eq!(level, None);
    assert!(matches!(oscs.config, Some(OscConfiguration::Single(_))));
    assert_eq!(count(&oscs), 6);
    assert_eq!(held(&oscs), vec![]);
}

#[test]
fn program_change_to_the_same_topology_silences_too() {
    let mut oscs = ready();
    handle_midi_message(&mut oscs, MidiMessage::NoteOn { channel: 0, note: 60, velocity: 100 });
    handle_midi_message(&mut oscs, MidiMessage::ProgramChange { channel: 0, program: 0 });
    assert_eq!(count(&oscs), 6);
    assert_eq!(held(&oscs), vec![]);
    assert!(!oscs.config.as_ref().unwrap().floppy(0).unwrap().is_enabled());
}

#[test]
fn other_programs_change_nothing() {
    let mut oscs = ready();
    handle_midi_message(&mut oscs, MidiMessage::NoteOn { channel: 0, note: 60, velocity: 100 });
    for program in [3u8, 4, 100, 127, 255] {
        let level = handle_midi_message(&mut oscs, MidiMessage::ProgramChange { channel: 0, program });
        assert_eq!(level, None);
        assert_eq!(count(&oscs), 6);
        assert_eq!(held(&oscs), vec![(60, 0)]);
    }
}

#[test]
fn pitch_bend_and_other_messages_change_nothing() {
    let mut oscs = ready();
    handle_midi_message(&mut oscs, MidiMessage::NoteOn { channel: 0, note: 60, velocity: 100 });
    let others = [
        MidiMessage::PitchBendChange { channel: 0, value: 0x2000 },
        MidiMessage::PitchBendChange { channel: 0, value: 0 },
        MidiMessage::Aftertouch { channel: 0, note: Some(60), value: 5 },
        MidiMessage::Aftertouch { channel: 0, note: None, value: 5 },
        MidiMessage::ControlChange { channel: 0, controller: 1, value: 2 },
        MidiMessage::Unknown,
    ];
    for msg in others {
        let level = handle_midi_message(&mut oscs, msg);
        assert_eq!(level, None);
        assert_eq!(count(&oscs), 6);
        assert_eq!(held(&oscs), vec![(60, 0)]);
        let s = oscs.config.as_ref().unwrap().slice(0).unwrap();
        assert_eq!((s.get_div_int(), s.get_top(), s.is_enabled()), (4, 59723, true));
    }
}

#[test]
fn messages_without_a_bank() {
    let mut oscs = Oscillators { config: None };
    for program in 0..4 {
        let level = handle_midi_message(&mut oscs, MidiMessage::ProgramChange { channel: 0, program });
        assert_eq!(level, None);
        assert!(oscs.config.is_none());
    }
    let level = handle_midi_message(&mut oscs, MidiMessage::PitchBendChange { channel: 0, value: 1 });
    assert_eq!(level, None);
    assert!(oscs.config.is_none());
}
