use floppotron_jr::floppy::Floppy;
use floppotron_jr::floppy::FloppyDirection;
use floppotron_jr::floppy::FloppyError;
use floppotron_jr::floppy::FloppyImpl;
use floppotron_jr::floppy::PinState;
use floppotron_jr::floppy::LAST_TRACK;
use floppotron_jr::floppy::PARKED_TRACK;

/// One full pulse: a rising and a falling edge.
fn pulse(f: &mut FloppyImpl) {
    f.step().unwrap();
    f.step().unwrap();
}

fn enabled_drive() -> FloppyImpl {
    let mut f = FloppyImpl::new(26, 27, 28);
    f.set_enabled(true).unwrap();
    f
}

/// A drive heading backward at track 1.
fn backward_at_one() -> FloppyImpl {
    let mut f = enabled_drive();
    for _ in 0..79 {
        pulse(&mut f);
    }
    f
}

/// A drive heading forward at track 78.
fn forward_at_78() -> FloppyImpl {
    let mut f = backward_at_one();
    pulse(&mut f);
    for _ in 0..78 {
        pulse(&mut f);
    }
    f
}

#[test]
fn new_drive_is_parked_and_disabled() {
    let f = FloppyImpl::new(7, 6, 5);
    assert!(!f.is_enabled());
    assert_eq!(f.track_index(), 80);
    assert_eq!(f.track_index(), PARKED_TRACK);
    assert_eq!(f.get_dir(), FloppyDirection::Backward);
    assert_eq!(f.pins(), (7, 6, 5));
    assert_eq!(f.outputs(), (PinState::Low, PinState::Low, PinState::Low));
}

#[test]
fn set_enabled_only_moves_the_enable_line() {
    let mut f = FloppyImpl::new(7, 6, 5);
    assert_eq!(f.set_enabled(true), Ok(()));
    assert!(f.is_enabled());
    assert_eq!(f.outputs(), (PinState::Low, PinState::Low, PinState::High));
    assert_eq!(f.track_index(), 80);
    assert_eq!(f.get_dir(), FloppyDirection::Backward);
    assert_eq!(f.set_enabled(false), Ok(()));
    assert!(!f.is_enabled());
    assert_eq!(f.outputs(), (PinState::Low, PinState::Low, PinState::Low));
}

#[test]
fn step_on_a_disabled_drive_fails_and_changes_nothing() {
    let mut f = FloppyImpl::new(7, 6, 5);
    assert_eq!(f.step(), Err(FloppyError::Disabled));
    assert_eq!(f.track_index(), 80);
    assert_eq!(f.get_dir(), FloppyDirection::Backward);
    assert_eq!(f.outputs(), (PinState::Low, PinState::Low, PinState::Low));
    f.set_enabled(true).unwrap();
    f.step().unwrap();
    f.set_enabled(false).unwrap();
    assert_eq!(f.step(), Err(FloppyError::Disabled));
    assert_eq!(f.outputs().0, PinState::High);
    assert_eq!(f.track_index(), 80);
}

#[test]
fn step_line_toggles_on_every_step() {
    let mut f = enabled_drive();
    let mut expected = PinState::Low;
    for _ in 0..400 {
        f.step().unwrap();
        expected = expected.toggle();
        assert_eq!(f.outputs().0, expected);
    }
}

#[test]
fn head_moves_on_the_falling_edge_only() {
    let mut f = enabled_drive();
    f.step().unwrap();
    assert_eq!(f.outputs().0, PinState::High);
    assert_eq!(f.track_index(), 80);
    f.step().unwrap();
    assert_eq!(f.outputs().0, PinState::Low);
    assert_eq!(f.track_index(), 79);
    f.step().unwrap();
    assert_eq!(f.track_index(), 79);
    f.step().unwrap();
    assert_eq!(f.track_index(), 78);
    assert_eq!(f.get_dir(), FloppyDirection::Backward);
}

#[test]
fn backward_at_track_one_reaches_zero_and_turns_forward() {
    let mut f = backward_at_one();
    assert_eq!(f.track_index(), 1);
    assert_eq!(f.get_dir(), FloppyDirection::Backward);
    assert_eq!(f.outputs().1, PinState::Low);
    pulse(&mut f);
    assert_eq!(f.track_index(), 0);
    assert_eq!(f.get_dir(), FloppyDirection::Forward);
    assert_eq!(f.outputs().1, PinState::High);
    pulse(&mut f);
    assert_eq!(f.track_index(), 1);
    assert_eq!(f.get_dir(), FloppyDirection::Forward);
}

#[test]
fn forward_at_track_78_reaches_79_and_turns_backward() {
    let mut f = forward_at_78();
    assert_eq!(f.track_index(), 78);
    assert_eq!(f.get_dir(), FloppyDirection::Forward);
    assert_eq!(f.outputs().1, PinState::High);
    pulse(&mut f);
    assert_eq!(f.track_index(), 79);
    assert_eq!(f.track_index(), LAST_TRACK);
    assert_eq!(f.get_dir(), FloppyDirection::Backward);
    assert_eq!(f.outputs().1, PinState::Low);
    pulse(&mut f);
    assert_eq!(f.track_index(), 78);
    assert_eq!(f.get_dir(), FloppyDirection::Backward);
}

#[test]
fn head_stays_between_0_and_79_once_it_has_moved() {
    let mut f = enabled_drive();
    pulse(&mut f);
    let mut turns = 0;
    let mut dir = f.get_dir();
    for _ in 0..2000 {
        f.step().unwrap();
        assert!(f.track_index() <= 79);
        if f.get_dir() != dir {
            dir = f.get_dir();
            turns += 1;
            assert!(f.track_index() == 0 || f.track_index() == 79);
        }
    }
    assert_eq!(turns, 12);
}

#[test]
fn pin_state_toggle() {
    assert_eq!(PinState::Low.toggle(), PinState::High);
    assert_eq!(PinState::High.toggle(), PinState::Low);
}
