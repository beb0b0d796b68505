use floppotron_jr::note_dict::note_dict;
use floppotron_jr::note_dict::PwmSetting;
use floppotron_jr::note_dict::DIV_INT;
use floppotron_jr::note_dict::MAIN_CLOCK;
use floppotron_jr::note_dict::NOTE_COUNT;
use floppotron_jr::note_dict::TOP;
use floppotron_jr::note_dict::TOP_PB;

fn calc_period(note: u8) -> f64 {
    MAIN_CLOCK as f64 / (f64::powf(2., (note as f64 - 69.) / 12.) * 880.)
}

fn computed(note: u8) -> PwmSetting {
    let period = calc_period(note);
    let period_pb = calc_period(note + 1);
    let div_int = f64::ceil(period / 65536.) as u8;
    let top = f64::round(period / div_int as f64) as u16;
    let top_pb = f64::round(period_pb / div_int as f64) as u16;
    PwmSetting { div_int, top, top_pb }
}

#[test]
fn reference_note_at_main_clock() {
    let setting = note_dict(69).unwrap();
    assert_eq!(setting.div_int, 3);
    assert_eq!(setting.top, 47348);
    assert_eq!(setting.top_pb, 44691);
}

#[test]
fn lowest_and_highest_note() {
    assert_eq!(note_dict(0), Some(PwmSetting { div_int: 117, top: 65338, top_pb: 61671 }));
    assert_eq!(note_dict(127), Some(PwmSetting { div_int: 1, top: 4983, top_pb: 4703 }));
}

#[test]
fn middle_c() {
    assert_eq!(note_dict(60), Some(PwmSetting { div_int: 4, top: 59723, top_pb: 56371 }));
}

#[test]
fn notes_beyond_the_table_have_no_entry() {
    assert_eq!(note_dict(128), None);
    assert_eq!(note_dict(200), None);
    assert_eq!(note_dict(255), None);
}

#[test]
fn every_entry_matches_the_formula() {
    assert_eq!(NOTE_COUNT, 128);
    for note in 0..NOTE_COUNT {
        assert_eq!(note_dict(note), Some(computed(note)), "note {}", note);
    }
}

#[test]
fn every_entry_is_within_the_registers() {
    for note in 0..NOTE_COUNT {
        let setting = note_dict(note).unwrap();
        assert!(setting.div_int >= 1, "note {}", note);
        let period = calc_period(note);
        assert!((setting.div_int as f64) * 65536. >= period, "note {}", note);
        assert!(((setting.div_int - 1) as f64) * 65536. < period, "note {}", note);
        assert!(setting.top_pb < setting.top, "note {}", note);
    }
}

#[test]
fn table_columns_are_what_lookup_returns() {
    for note in 0..NOTE_COUNT {
        let setting = note_dict(note).unwrap();
        assert_eq!(setting.div_int, DIV_INT[note as usize]);
        assert_eq!(setting.top, TOP[note as usize]);
        assert_eq!(setting.top_pb, TOP_PB[note as usize]);
    }
}

#[test]
fn an_octave_up_halves_the_period() {
    // 69 and 81 are an octave apart: 142045.45 and 71022.73 clock ticks.
    let low = note_dict(69).unwrap();
    let high = note_dict(81).unwrap();
    assert_eq!(high.div_int, 2);
    assert_eq!(high.top, 35511);
    let low_period = low.div_int as u32 * low.top as u32;
    let high_period = high.div_int as u32 * high.top as u32;
    assert_eq!(low_period, 142044);
    assert_eq!(high_period, 71022);
}
