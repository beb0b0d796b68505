use floppotron_jr::floppy::Floppies;
use floppotron_jr::floppy::FloppyDirection;
use floppotron_jr::floppy::FloppyImpl;
use floppotron_jr::floppy::PinState;
use floppotron_jr::oscillators::OscConfiguration;
use floppotron_jr::oscillators::Oscillators;
use floppotron_jr::pwm::OscSlices;
use floppotron_jr::pwm::PwmSlice;

const PINS: [(u8, u8, u8); 6] =
    [(26, 27, 28), (7, 6, 5), (20, 21, 22), (11, 10, 9), (16, 17, 18), (15, 14, 13)];

fn slices() -> OscSlices {
    OscSlices(
        PwmSlice::new(0),
        PwmSlice::new(1),
        PwmSlice::new(2),
        PwmSlice::new(3),
        PwmSlice::new(4),
        PwmSlice::new(5),
    )
}

fn drive(k: usize) -> FloppyImpl {
    FloppyImpl::new(PINS[k].0, PINS[k].1, PINS[k].2)
}

fn floppies() -> Floppies {
    Floppies(drive(0), drive(1), drive(2), drive(3), drive(4), drive(5))
}

/// Note and rank of every oscillator, in order.
fn voices(config: &OscConfiguration) -> Vec<(Option<u8>, u8)> {
    match config {
        OscConfiguration::Single(o) => vec![
            (o.0.get_note(), o.0.get_age()),
            (o.1.get_note(), o.1.get_age()),
            (o.2.get_note(), o.2.get_age()),
            (o.3.get_note(), o.3.get_age()),
            (o.4.get_note(), o.4.get_age()),
            (o.5.get_note(), o.5.get_age()),
        ],
        OscConfiguration::Unisono(o, _) => vec![(o.get_note(), o.get_age())],
        OscConfiguration::Inverse(o, _) => vec![
            (o.0.get_note(), o.0.get_age()),
            (o.1.get_note(), o.1.get_age()),
            (o.2.get_note(), o.2.get_age()),
        ],
    }
}

fn notes(config: &OscConfiguration) -> Vec<Option<u8>> {
    voices(config).iter().map(|v| v.0).collect()
}

/// Note and rank of the sounding oscillators only, in order.
fn sounding(config: &OscConfiguration) -> Vec<(u8, u8)> {
    voices(config).iter().filter(|v| v.0.is_some()).map(|v| (v.0.unwrap(), v.1)).collect()
}

fn channels(config: &OscConfiguration) -> Vec<u8> {
    (0..6).map(|k| config.slice(k).unwrap().channel()).collect()
}

fn pins(config: &OscConfiguration) -> Vec<(u8, u8, u8)> {
    (0..6).map(|k| config.floppy(k).unwrap().pins()).collect()
}

fn enabled_drives(config: &OscConfiguration) -> Vec<bool> {
    (0..6).map(|k| config.floppy(k).unwrap().is_enabled()).collect()
}

fn running_slices(config: &OscConfiguration) -> Vec<bool> {
    (0..6).map(|k| config.slice(k).unwrap().is_enabled()).collect()
}

fn tracks(config: &OscConfiguration) -> Vec<u8> {
    (0..6).map(|k| config.floppy(k).unwrap().track_index()).collect()
}

fn step_levels(config: &OscConfiguration) -> Vec<PinState> {
    (0..6).map(|k| config.floppy(k).unwrap().outputs().0).collect()
}

/// Every slice wraps, then the interrupt is serviced.
fn tick_all(config: &mut OscConfiguration) {
    for k in 0..6 {
        config.raise_overflow(k);
    }
    config.handle_interrupt();
}

fn filled_single() -> OscConfiguration {
    let mut config = OscConfiguration::new_single(slices(), floppies());
    for note in 60..=65 {
        config.play_note(note);
    }
    config
}

#[test]
fn new_single_bank_is_empty() {
    let config = OscConfiguration::new_single(slices(), floppies());
    assert_eq!(config.oscillator_count(), 6);
    assert_eq!(voices(&config), vec![(None, 0); 6]);
    assert_eq!(channels(&config), vec![0, 1, 2, 3, 4, 5]);
    assert_eq!(pins(&config), PINS.to_vec());
    assert_eq!(enabled_drives(&config), vec![false; 6]);
    assert_eq!(running_slices(&config), vec![false; 6]);
    for k in 0..6 {
        let s = config.slice(k).unwrap();
        assert!(s.is_interrupt_enabled());
        assert!(!s.has_overflown());
    }
}

#[test]
fn new_single_arms_each_slice() {
    let mut s = slices();
    s.0.set_div_int(255);
    s.0.set_top(65465);
    s.0.enable();
    s.0.raise_overflow();
    let config = OscConfiguration::new_single(s, floppies());
    let first = config.slice(0).unwrap();
    assert_eq!(first.get_div_int(), 255);
    assert_eq!(first.get_top(), 65465);
    assert!(!first.is_enabled());
    assert!(!first.has_overflown());
    assert!(first.is_interrupt_enabled());
}

#[test]
fn first_note_goes_to_the_first_oscillator() {
    let mut config = OscConfiguration::new_single(slices(), floppies());
    config.play_note(69);
    assert_eq!(
        voices(&config),
        vec![(Some(69), 0), (None, 0), (None, 0), (None, 0), (None, 0), (None, 0)]
    );
    assert_eq!(enabled_drives(&config), vec![true, false, false, false, false, false]);
    assert_eq!(running_slices(&config), vec![true, false, false, false, false, false]);
    let s = config.slice(0).unwrap();
    assert_eq!((s.get_div_int(), s.get_top()), (3, 47348));
    assert!(s.is_interrupt_enabled());
}

#[test]
fn six_notes_fill_the_bank_oldest_first() {
    let config = filled_single();
    assert_eq!(
        voices(&config),
        vec![(Some(60), 5), (Some(61), 4), (Some(62), 3), (Some(63), 2), (Some(64), 1), (Some(65), 0)]
    );
    assert_eq!(enabled_drives(&config), vec![true; 6]);
    assert_eq!(running_slices(&config), vec![true; 6]);
}

#[test]
fn ranks_while_the_bank_fills() {
    let mut config = OscConfiguration::new_single(slices(), floppies());
    config.play_note(60);
    config.play_note(61);
    assert_eq!(sounding(&config), vec![(60, 1), (61, 0)]);
    config.play_note(62);
    assert_eq!(sounding(&config), vec![(60, 2), (61, 1), (62, 0)]);
    config.play_note(63);
    assert_eq!(sounding(&config), vec![(60, 3), (61, 2), (62, 1), (63, 0)]);
}

#[test]
fn a_seventh_note_takes_over_the_oldest_voice() {
    let mut config = filled_single();
    config.play_note(66);
    assert_eq!(
        voices(&config),
        vec![(Some(66), 0), (Some(61), 5), (Some(62), 4), (Some(63), 3), (Some(64), 2), (Some(65), 1)]
    );
    assert_eq!(running_slices(&config), vec![true; 6]);
    assert_eq!(enabled_drives(&config), vec![true; 6]);
    let taken = config.slice(0).unwrap();
    assert_eq!((taken.get_div_int(), taken.get_top()), (3, 56307));
    assert!(!notes(&config).contains(&Some(60)));
}

#[test]
fn voices_are_taken_over_oldest_first() {
    let mut config = filled_single();
    config.play_note(66);
    config.play_note(67);
    assert_eq!(
        voices(&config),
        vec![(Some(66), 1), (Some(67), 0), (Some(62), 5), (Some(63), 4), (Some(64), 3), (Some(65), 2)]
    );
    config.play_note(68);
    assert_eq!(
        voices(&config),
        vec![(Some(66), 2), (Some(67), 1), (Some(68), 0), (Some(63), 5), (Some(64), 4), (Some(65), 3)]
    );
}

#[test]
fn a_voice_struck_again_is_not_the_next_to_be_taken_over() {
    let mut config = filled_single();
    // 60 is the oldest; struck again it is the newest, and 61 is the oldest.
    config.play_note(60);
    assert_eq!(
        voices(&config),
        vec![(Some(60), 0), (Some(61), 5), (Some(62), 4), (Some(63), 3), (Some(64), 2), (Some(65), 1)]
    );
    config.play_note(66);
    assert_eq!(
        voices(&config),
        vec![(Some(60), 1), (Some(66), 0), (Some(62), 5), (Some(63), 4), (Some(64), 3), (Some(65), 2)]
    );
}

#[test]
fn a_taken_over_note_can_no_longer_be_stopped() {
    let mut config = filled_single();
    config.play_note(66);
    config.stop_note(60);
    assert_eq!(
        voices(&config),
        vec![(Some(66), 0), (Some(61), 5), (Some(62), 4), (Some(63), 3), (Some(64), 2), (Some(65), 1)]
    );
    config.stop_note(66);
    assert_eq!(sounding(&config), vec![(61, 4), (62, 3), (63, 2), (64, 1), (65, 0)]);
    assert_eq!(notes(&config)[0], None);
}

#[test]
fn ranks_stay_dense_and_the_played_note_is_the_newest() {
    let mut config = OscConfiguration::new_single(slices(), floppies());
    let mut note: u8 = 0;
    let mut takeovers = 0;
    for round in 0..500u32 {
        note = ((note as u32 * 7 + round * 13 + 5) % 24) as u8;
        let before = sounding(&config);
        if round % 3 == 2 {
            config.stop_note(note);
            assert!(sounding(&config).iter().all(|v| v.0 != note), "round {}", round);
        } else {
            config.play_note(note);
            assert!(sounding(&config).contains(&(note, 0)), "round {}", round);
            if before.len() == 6 && before.iter().all(|v| v.0 != note) {
                takeovers += 1;
                let oldest = before.iter().find(|v| v.1 == 5).unwrap().0;
                assert!(sounding(&config).iter().all(|v| v.0 != oldest), "round {}", round);
                assert_eq!(sounding(&config).len(), 6);
            }
        }
        let mut ranks: Vec<u8> = sounding(&config).iter().map(|v| v.1).collect();
        ranks.sort();
        let expected: Vec<u8> = (0..ranks.len() as u8).collect();
        assert_eq!(ranks, expected, "round {}", round);
        let mut held: Vec<u8> = sounding(&config).iter().map(|v| v.0).collect();
        held.sort();
        held.dedup();
        assert_eq!(held.len(), ranks.len(), "round {}", round);
    }
    assert!(takeovers > 0);
}

#[test]
fn retrigger_of_the_oldest_moves_every_other_voice_up() {
    let mut config = OscConfiguration::new_single(slices(), floppies());
    config.play_note(60);
    config.play_note(61);
    config.play_note(62);
    config.play_note(60);
    assert_eq!(
        voices(&config),
        vec![(Some(60), 0), (Some(61), 2), (Some(62), 1), (None, 0), (None, 0), (None, 0)]
    );
}

#[test]
fn retrigger_in_the_middle_moves_only_the_more_recent_voices() {
    let mut config = filled_single();
    // 62 has rank 3: 63, 64 and 65 are more recent, 60 and 61 are older.
    config.play_note(62);
    assert_eq!(
        voices(&config),
        vec![(Some(60), 5), (Some(61), 4), (Some(62), 0), (Some(63), 3), (Some(64), 2), (Some(65), 1)]
    );
}

#[test]
fn retrigger_of_the_newest_changes_no_rank() {
    let mut config = filled_single();
    config.play_note(65);
    assert_eq!(
        voices(&config),
        vec![(Some(60), 5), (Some(61), 4), (Some(62), 3), (Some(63), 2), (Some(64), 1), (Some(65), 0)]
    );
}

#[test]
fn retrigger_sets_the_slice_anew() {
    let mut config = OscConfiguration::new_single(slices(), floppies());
    config.play_note(69);
    config.raise_overflow(0);
    config.play_note(69);
    let s = config.slice(0).unwrap();
    assert_eq!((s.get_div_int(), s.get_top()), (3, 47348));
    assert!(s.is_enabled());
    assert!(s.is_interrupt_enabled());
    assert!(config.floppy(0).unwrap().is_enabled());
    assert_eq!(sounding(&config), vec![(69, 0)]);
}

#[test]
fn stop_closes_the_gap_in_the_ranks() {
    let mut config = filled_single();
    // 62 has rank 3: 60 and 61 are older.
    config.stop_note(62);
    assert_eq!(notes(&config), vec![Some(60), Some(61), None, Some(63), Some(64), Some(65)]);
    assert_eq!(sounding(&config), vec![(60, 4), (61, 3), (63, 2), (64, 1), (65, 0)]);
    assert_eq!(enabled_drives(&config), vec![true, true, false, true, true, true]);
    assert_eq!(running_slices(&config), vec![true, true, false, true, true, true]);
}

#[test]
fn stop_of_the_newest_moves_every_other_voice_down() {
    let mut config = filled_single();
    config.stop_note(65);
    assert_eq!(sounding(&config), vec![(60, 4), (61, 3), (62, 2), (63, 1), (64, 0)]);
}

#[test]
fn stop_of_the_oldest_changes_no_other_rank() {
    let mut config = filled_single();
    config.stop_note(60);
    assert_eq!(sounding(&config), vec![(61, 4), (62, 3), (63, 2), (64, 1), (65, 0)]);
}

#[test]
fn stop_of_a_note_that_does_not_sound_changes_nothing() {
    let mut config = filled_single();
    config.stop_note(59);
    assert_eq!(
        voices(&config),
        vec![(Some(60), 5), (Some(61), 4), (Some(62), 3), (Some(63), 2), (Some(64), 1), (Some(65), 0)]
    );
    let mut empty = OscConfiguration::new_single(slices(), floppies());
    empty.stop_note(60);
    assert_eq!(voices(&empty), vec![(None, 0); 6]);
}

#[test]
fn stop_clears_the_slice_and_disables_the_drive() {
    let mut config = OscConfiguration::new_single(slices(), floppies());
    config.play_note(69);
    config.raise_overflow(0);
    config.stop_note(69);
    let s = config.slice(0).unwrap();
    assert!(!s.is_enabled());
    assert!(!s.has_overflown());
    assert!(!config.floppy(0).unwrap().is_enabled());
    assert_eq!(notes(&config), vec![None; 6]);
}

#[test]
fn a_freed_oscillator_is_the_next_to_be_used() {
    let mut config = filled_single();
    config.stop_note(62);
    config.play_note(70);
    assert_eq!(
        voices(&config),
        vec![(Some(60), 5), (Some(61), 4), (Some(70), 0), (Some(63), 3), (Some(64), 2), (Some(65), 1)]
    );
}

#[test]
fn a_note_beyond_the_table_is_held_with_the_slice_stopped() {
    let mut config = OscConfiguration::new_single(slices(), floppies());
    config.play_note(69);
    config.stop_note(69);
    config.play_note(200);
    assert_eq!(sounding(&config), vec![(200, 0)]);
    assert!(!config.slice(0).unwrap().is_enabled());
    assert_eq!(config.slice(0).unwrap().get_top(), 47348);
    assert!(config.floppy(0).unwrap().is_enabled());
    config.stop_note(200);
    assert_eq!(notes(&config), vec![None; 6]);
}

#[test]
fn interrupt_steps_only_the_drive_whose_slice_has_overflown() {
    let mut config = OscConfiguration::new_single(slices(), floppies());
    config.play_note(60);
    config.play_note(61);
    config.raise_overflow(1);
    config.handle_interrupt();
    assert_eq!(
        step_levels(&config),
        vec![
            PinState::Low,
            PinState::High,
            PinState::Low,
            PinState::Low,
            PinState::Low,
            PinState::Low
        ]
    );
    assert!(!config.slice(1).unwrap().has_overflown());
    config.handle_interrupt();
    assert_eq!(step_levels(&config)[1], PinState::High);
    config.raise_overflow(1);
    config.handle_interrupt();
    assert_eq!(step_levels(&config)[1], PinState::Low);
    assert_eq!(tracks(&config), vec![80, 79, 80, 80, 80, 80]);
}

#[test]
fn interrupt_on_a_free_oscillator_clears_the_flag_and_moves_nothing() {
    let mut config = OscConfiguration::new_single(slices(), floppies());
    config.raise_overflow(3);
    assert!(config.slice(3).unwrap().has_overflown());
    config.handle_interrupt();
    assert!(!config.slice(3).unwrap().has_overflown());
    assert_eq!(step_levels(&config), vec![PinState::Low; 6]);
    assert_eq!(tracks(&config), vec![80; 6]);
}

#[test]
fn interrupt_touches_no_note_and_no_rank() {
    let mut config = filled_single();
    for _ in 0..10 {
        tick_all(&mut config);
    }
    assert_eq!(
        voices(&config),
        vec![(Some(60), 5), (Some(61), 4), (Some(62), 3), (Some(63), 2), (Some(64), 1), (Some(65), 0)]
    );
    assert_eq!(tracks(&config), vec![75; 6]);
}

#[test]
fn raise_overflow_beyond_the_last_slice_changes_nothing() {
    let mut config = OscConfiguration::new_single(slices(), floppies());
    config.raise_overflow(6);
    config.raise_overflow(255);
    for k in 0..6 {
        assert!(!config.slice(k).unwrap().has_overflown());
    }
}

#[test]
fn there_is_no_seventh_slice_or_drive() {
    let config = OscConfiguration::new_inverse(slices(), floppies());
    assert!(config.slice(5).is_some());
    assert!(config.slice(6).is_none());
    assert!(config.floppy(5).is_some());
    assert!(config.floppy(6).is_none());
    assert!(config.floppy(255).is_none());
}

#[test]
fn inverse_bank_has_three_oscillators_of_two_drives() {
    let mut config = OscConfiguration::new_inverse(slices(), floppies());
    assert_eq!(config.oscillator_count(), 3);
    assert_eq!(channels(&config), vec![0, 1, 2, 3, 4, 5]);
    assert_eq!(pins(&config), PINS.to_vec());
    config.play_note(60);
    config.play_note(61);
    assert_eq!(voices(&config), vec![(Some(60), 1), (Some(61), 0), (None, 0)]);
    assert_eq!(enabled_drives(&config), vec![true, true, true, true, false, false]);
    assert_eq!(running_slices(&config), vec![true, true, false, false, false, false]);
    config.play_note(62);
    assert_eq!(voices(&config), vec![(Some(60), 2), (Some(61), 1), (Some(62), 0)]);
    // The bank is full: 63 takes over 60, the oldest voice.
    config.play_note(63);
    assert_eq!(voices(&config), vec![(Some(63), 0), (Some(61), 2), (Some(62), 1)]);
    assert_eq!(enabled_drives(&config), vec![true; 6]);
    let taken = config.slice(0).unwrap();
    assert_eq!((taken.get_div_int(), taken.get_top()), (4, 50221));
    config.stop_note(61);
    assert_eq!(sounding(&config), vec![(63, 0), (62, 1)]);
    assert_eq!(notes(&config), vec![Some(63), None, Some(62)]);
    assert_eq!(enabled_drives(&config), vec![true, true, false, false, true, true]);
}

#[test]
fn inverse_steps_the_second_drive_only_while_directions_differ() {
    let mut config = OscConfiguration::new_inverse(slices(), floppies());
    config.play_note(60);
    // Both drives head backward: only the first one steps.
    for _ in 0..160 {
        config.raise_overflow(0);
        config.handle_interrupt();
    }
    assert_eq!(config.floppy(0).unwrap().track_index(), 0);
    assert_eq!(config.floppy(0).unwrap().get_dir(), FloppyDirection::Forward);
    assert_eq!(config.floppy(1).unwrap().track_index(), 80);
    assert_eq!(config.floppy(1).unwrap().get_dir(), FloppyDirection::Backward);
    assert_eq!(config.floppy(1).unwrap().outputs().0, PinState::Low);
    // Now they differ: both step.
    config.raise_overflow(0);
    config.handle_interrupt();
    assert_eq!(config.floppy(0).unwrap().outputs().0, PinState::High);
    assert_eq!(config.floppy(1).unwrap().outputs().0, PinState::High);
    config.raise_overflow(0);
    config.handle_interrupt();
    assert_eq!(config.floppy(0).unwrap().track_index(), 1);
    assert_eq!(config.floppy(1).unwrap().track_index(), 79);
    // The other pairs have not moved.
    assert_eq!(tracks(&config)[2..], [80, 80, 80, 80]);
}

#[test]
fn inverse_second_drive_rests_once_directions_agree_again() {
    let mut config = OscConfiguration::new_inverse(slices(), floppies());
    config.play_note(60);
    // First drive: 80 pulses down to track 0, then 79 up to track 79, where
    // it turns backward again. The second follows for those 79 pulses.
    for _ in 0..(2 * (80 + 79)) {
        config.raise_overflow(0);
        config.handle_interrupt();
    }
    assert_eq!(config.floppy(0).unwrap().track_index(), 79);
    assert_eq!(config.floppy(0).unwrap().get_dir(), FloppyDirection::Backward);
    assert_eq!(config.floppy(1).unwrap().track_index(), 1);
    assert_eq!(config.floppy(1).unwrap().get_dir(), FloppyDirection::Backward);
    for _ in 0..20 {
        config.raise_overflow(0);
        config.handle_interrupt();
    }
    assert_eq!(config.floppy(0).unwrap().track_index(), 69);
    assert_eq!(config.floppy(1).unwrap().track_index(), 1);
}

#[test]
fn unisono_bank_has_one_oscillator_of_six_drives() {
    let mut config = OscConfiguration::new_unisono(slices(), floppies());
    assert_eq!(config.oscillator_count(), 1);
    assert_eq!(channels(&config), vec![0, 1, 2, 3, 4, 5]);
    assert_eq!(pins(&config), PINS.to_vec());
    config.play_note(60);
    assert_eq!(voices(&config), vec![(Some(60), 0)]);
    assert_eq!(enabled_drives(&config), vec![true; 6]);
    assert_eq!(running_slices(&config), vec![true, false, false, false, false, false]);
    // The one voice is the oldest: a new note takes it over.
    config.play_note(64);
    assert_eq!(voices(&config), vec![(Some(64), 0)]);
    assert_eq!(enabled_drives(&config), vec![true; 6]);
    let s = config.slice(0).unwrap();
    assert_eq!((s.get_div_int(), s.get_top(), s.is_enabled()), (3, 63203, true));
    config.play_note(64);
    assert_eq!(voices(&config), vec![(Some(64), 0)]);
    config.stop_note(60);
    assert_eq!(voices(&config), vec![(Some(64), 0)]);
    config.stop_note(64);
    assert_eq!(voices(&config), vec![(None, 0)]);
    assert_eq!(enabled_drives(&config), vec![false; 6]);
    assert_eq!(running_slices(&config), vec![false; 6]);
}

#[test]
fn unisono_steps_every_drive_together() {
    let mut config = OscConfiguration::new_unisono(slices(), floppies());
    config.play_note(60);
    config.raise_overflow(0);
    config.handle_interrupt();
    assert_eq!(step_levels(&config), vec![PinState::High; 6]);
    config.raise_overflow(0);
    config.handle_interrupt();
    assert_eq!(step_levels(&config), vec![PinState::Low; 6]);
    assert_eq!(tracks(&config), vec![79; 6]);
    assert!(!config.slice(0).unwrap().has_overflown());
}

#[test]
fn spare_slices_are_not_serviced() {
    let mut config = OscConfiguration::new_unisono(slices(), floppies());
    config.play_note(60);
    config.raise_overflow(3);
    config.handle_interrupt();
    assert!(config.slice(3).unwrap().has_overflown());
    assert_eq!(step_levels(&config), vec![PinState::Low; 6]);
    let mut inverse = OscConfiguration::new_inverse(slices(), floppies());
    inverse.raise_overflow(2);
    inverse.raise_overflow(5);
    inverse.handle_interrupt();
    assert!(!inverse.slice(2).unwrap().has_overflown());
    assert!(inverse.slice(5).unwrap().has_overflown());
}

#[test]
fn free_hands_back_all_hardware_silenced() {
    let mut config = filled_single();
    for _ in 0..7 {
        tick_all(&mut config);
    }
    config.raise_overflow(2);
    let (s, f) = config.free();
    let s = [s.0, s.1, s.2, s.3, s.4, s.5];
    let f = [f.0, f.1, f.2, f.3, f.4, f.5];
    let settings = [(4, 59723), (4, 56371), (4, 53207), (4, 50221), (3, 63203), (3, 59655)];
    for k in 0..6 {
        assert_eq!(s[k].channel(), k as u8);
        assert!(!s[k].is_enabled());
        assert!(!s[k].has_overflown());
        assert!(s[k].is_interrupt_enabled());
        assert_eq!((s[k].get_div_int(), s[k].get_top()), settings[k]);
        assert_eq!(f[k].pins(), PINS[k]);
        assert!(!f[k].is_enabled());
        assert_eq!(f[k].track_index(), 77);
        assert_eq!(f[k].outputs().0, PinState::High);
    }
}

#[test]
fn round_trip_through_unisono_returns_the_same_hardware() {
    let mut oscs = Oscillators { config: None };
    oscs.init(floppies(), slices());
    {
        let config = oscs.config.as_mut().unwrap();
        config.play_note(60);
        config.play_note(64);
        config.play_note(67);
        for _ in 0..6 {
            tick_all(config);
        }
        assert_eq!(tracks(config), vec![77, 77, 77, 80, 80, 80]);
    }

    oscs.to_unisono();
    {
        let config = oscs.config.as_ref().unwrap();
        assert!(matches!(config, OscConfiguration::Unisono(_, _)));
        assert_eq!(config.oscillator_count(), 1);
        assert_eq!(voices(config), vec![(None, 0)]);
        assert_eq!(channels(config), vec![0, 1, 2, 3, 4, 5]);
        assert_eq!(pins(config), PINS.to_vec());
        assert_eq!(enabled_drives(config), vec![false; 6]);
        assert_eq!(running_slices(config), vec![false; 6]);
        assert_eq!(tracks(config), vec![77, 77, 77, 80, 80, 80]);
    }

    oscs.to_single();
    {
        let config = oscs.config.as_ref().unwrap();
        assert!(matches!(config, OscConfiguration::Single(_)));
        assert_eq!(config.oscillator_count(), 6);
        assert_eq!(voices(config), vec![(None, 0); 6]);
        assert_eq!(channels(config), vec![0, 1, 2, 3, 4, 5]);
        assert_eq!(pins(config), PINS.to_vec());
        assert_eq!(enabled_drives(config), vec![false; 6]);
        assert_eq!(running_slices(config), vec![false; 6]);
        assert_eq!(tracks(config), vec![77, 77, 77, 80, 80, 80]);
        match config {
            OscConfiguration::Single(o) => {
                assert_eq!(o.0.pwm_slice().channel(), 0);
                assert_eq!(o.0.floppy().pins(), PINS[0]);
                assert_eq!(o.3.pwm_slice().channel(), 3);
                assert_eq!(o.3.floppy().pins(), PINS[3]);
                assert_eq!(o.5.pwm_slice().channel(), 5);
                assert_eq!(o.5.floppy().pins(), PINS[5]);
            }
            _ => unreachable!(),
        }
    }
}

#[test]
fn every_change_of_topology_keeps_the_hardware_and_silences_it() {
    let mut oscs = Oscillators { config: None };
    oscs.init(floppies(), slices());
    for round in 0..12 {
        {
            let config = oscs.config.as_mut().unwrap();
            config.play_note(60 + round);
            config.play_note(40 + round);
            tick_all(config);
        }
        match round % 3 {
            0 => oscs.to_inverse(),
            1 => oscs.to_unisono(),
            _ => oscs.to_single(),
        }
        let config = oscs.config.as_ref().unwrap();
        assert_eq!(config.oscillator_count(), [3, 1, 6][(round % 3) as usize]);
        assert_eq!(channels(config), vec![0, 1, 2, 3, 4, 5]);
        assert_eq!(pins(config), PINS.to_vec());
        assert_eq!(enabled_drives(config), vec![false; 6]);
        assert_eq!(running_slices(config), vec![false; 6]);
        assert!(sounding(config).is_empty());
    }
}

#[test]
fn inverse_binds_drives_in_pairs() {
    let config = OscConfiguration::new_inverse(slices(), floppies());
    match &config {
        OscConfiguration::Inverse(o, spares) => {
            assert_eq!(o.0.pwm_slice().channel(), 0);
            assert_eq!(o.0.floppy(0).pins(), PINS[0]);
            assert_eq!(o.0.floppy(1).pins(), PINS[1]);
            assert_eq!(o.1.pwm_slice().channel(), 1);
            assert_eq!(o.1.floppy(0).pins(), PINS[2]);
            assert_eq!(o.1.floppy(1).pins(), PINS[3]);
            assert_eq!(o.2.pwm_slice().channel(), 2);
            assert_eq!(o.2.floppy(0).pins(), PINS[4]);
            assert_eq!(o.2.floppy(1).pins(), PINS[5]);
            assert_eq!((spares.0.channel(), spares.1.channel(), spares.2.channel()), (3, 4, 5));
        }
        _ => unreachable!(),
    }
}

#[test]
fn unisono_takes_its_slice_as_it_is() {
    let mut s = slices();
    s.0.enable();
    s.0.raise_overflow();
    let config = OscConfiguration::new_unisono(s, floppies());
    match &config {
        OscConfiguration::Unisono(o, spares) => {
            assert!(o.pwm_slice().is_enabled());
            assert!(o.pwm_slice().has_overflown());
            assert!(!o.pwm_slice().is_interrupt_enabled());
            assert_eq!(o.floppy(0).pins(), PINS[0]);
            assert_eq!(o.floppy(5).pins(), PINS[5]);
            assert_eq!(spares.0.channel(), 1);
            assert_eq!(spares.4.channel(), 5);
        }
        _ => unreachable!(),
    }
}

#[test]
fn oscillators_without_a_bank_do_nothing() {
    let mut oscs = Oscillators { config: None };
    oscs.handle_interrupt();
    oscs.to_single();
    oscs.to_inverse();
    oscs.to_unisono();
    assert!(oscs.config.is_none());
}

#[test]
fn init_with_config_takes_the_bank_as_it_is() {
    let mut config = OscConfiguration::new_inverse(slices(), floppies());
    config.play_note(60);
    let mut oscs = Oscillators { config: None };
    oscs.init_with_config(config);
    let config = oscs.config.as_mut().unwrap();
    assert_eq!(voices(config), vec![(Some(60), 0), (None, 0), (None, 0)]);
    config.raise_overflow(0);
    oscs.handle_interrupt();
    let config = oscs.config.as_ref().unwrap();
    assert_eq!(config.floppy(0).unwrap().outputs().0, PinState::High);
    assert!(!config.slice(0).unwrap().has_overflown());
}

#[test]
fn single_oscillator_step_is_ignored_by_a_disabled_drive() {
    let mut config = OscConfiguration::new_single(slices(), floppies());
    config.play_note(60);
    match &mut config {
        OscConfiguration::Single(o) => {
            o.0.step();
            o.1.step();
        }
        _ => unreachable!(),
    }
    assert_eq!(step_levels(&config)[0], PinState::High);
    assert_eq!(step_levels(&config)[1], PinState::Low);
}
