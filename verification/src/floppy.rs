//! One floppy drive: its enable line, its head position and the pulse logic
//! that turns timer overflows into head steps.
//!
//! The drive is held as plain values. `FloppyImpl` records which three
//! outputs it is wired to and what it drives them to; whoever owns the real
//! pins copies `FloppyImpl::outputs` to them.

use vstd::prelude::*;

verus! {

/// Level of a digital output.
#[derive(Clone, Copy, PartialEq, Eq, Structural, Debug)]
pub enum PinState {
    Low,
    High,
}

impl PinState {
    /// The opposite level.
    pub open spec fn toggled(self) -> PinState {
        match self {
            PinState::Low => PinState::High,
            PinState::High => PinState::Low,
        }
    }

    /// Returns the opposite level.
    pub fn toggle(self) -> (r: PinState)
        ensures
            r == self.toggled(),
    {
        match self {
            PinState::Low => PinState::High,
            PinState::High => PinState::Low,
        }
    }
}

/// Direction in which the head moves: `Forward` towards higher tracks.
#[derive(Clone, Copy, PartialEq, Eq, Structural, Debug)]
pub enum FloppyDirection {
    Forward,
    Backward,
}

/// Why a drive refused an operation.
#[derive(Clone, Copy, PartialEq, Eq, Structural, Debug)]
pub enum FloppyError {
    /// The drive was asked to step while disabled.
    Disabled,
}

/// Highest track of the mechanism.
pub const LAST_TRACK: u8 = 79;

/// Track that a drive reports before its head has moved for the first time.
pub const PARKED_TRACK: u8 = 80;

/// What a drive is, as mathematics: its wiring and its state.
pub struct DriveState {
    /// Number of the output wired to the step line.
    pub pin_step: u8,
    /// Number of the output wired to the direction line.
    pub pin_dir: u8,
    /// Number of the output wired to the enable line.
    pub pin_en: u8,
    pub enabled: bool,
    pub track_index: int,
    pub step_state: PinState,
    pub dir: FloppyDirection,
}

impl DriveState {
    /// The states a drive can be in: moving forward it is below the last
    /// track, moving backward it is above track 0.
    pub open spec fn valid(self) -> bool {
        match self.dir {
            FloppyDirection::Forward => 0 <= self.track_index < LAST_TRACK,
            FloppyDirection::Backward => 0 < self.track_index <= PARKED_TRACK,
        }
    }

    /// The state of a drive that has just been bound to its three outputs.
    pub open spec fn parked(pin_step: u8, pin_dir: u8, pin_en: u8) -> DriveState {
        DriveState {
            pin_step,
            pin_dir,
            pin_en,
            enabled: false,
            track_index: PARKED_TRACK as int,
            step_state: PinState::Low,
            dir: FloppyDirection::Backward,
        }
    }

    /// The three outputs that the drive is wired to: step, direction, enable.
    pub open spec fn pins(self) -> (u8, u8, u8) {
        (self.pin_step, self.pin_dir, self.pin_en)
    }

    /// The same drive with its enable line set.
    pub open spec fn with_enabled(self, enabled: bool) -> DriveState {
        DriveState { enabled, ..self }
    }

    /// The head moved by one track in the current direction; the direction
    /// turns round where the move reaches an end of the range.
    pub open spec fn advanced(self) -> DriveState {
        match self.dir {
            FloppyDirection::Forward => DriveState {
                track_index: self.track_index + 1,
                dir: if self.track_index + 1 >= LAST_TRACK {
                    FloppyDirection::Backward
                } else {
                    FloppyDirection::Forward
                },
                ..self
            },
            FloppyDirection::Backward => DriveState {
                track_index: self.track_index - 1,
                dir: if self.track_index - 1 <= 0 {
                    FloppyDirection::Forward
                } else {
                    FloppyDirection::Backward
                },
                ..self
            },
        }
    }

    /// One pulse edge on an enabled drive: the step line toggles, and on the
    /// falling edge the head advances.
    pub open spec fn stepped(self) -> DriveState {
        let toggled = DriveState { step_state: self.step_state.toggled(), ..self };
        if toggled.step_state == PinState::Low {
            toggled.advanced()
        } else {
            toggled
        }
    }

    /// One pulse edge offered to a drive that may be disabled: a disabled
    /// drive ignores it.
    pub open spec fn pulsed(self) -> DriveState {
        if self.enabled {
            self.stepped()
        } else {
            self
        }
    }

    /// Level of the step output.
    pub open spec fn step_output(self) -> PinState {
        self.step_state
    }

    /// Level of the direction output: high while moving forward.
    pub open spec fn dir_output(self) -> PinState {
        match self.dir {
            FloppyDirection::Forward => PinState::High,
            FloppyDirection::Backward => PinState::Low,
        }
    }

    /// Level of the enable output: high while enabled.
    pub open spec fn enable_output(self) -> PinState {
        if self.enabled {
            PinState::High
        } else {
            PinState::Low
        }
    }
}

/// A pulse edge keeps a drive within the states it can be in.
pub proof fn lemma_step_keeps_valid(s: DriveState)
    requires
        s.valid(),
    ensures
        s.stepped().valid(),
        s.pulsed().valid(),
{
}

/// Once the head is on a track of the mechanism it stays on one: from a
/// position in `0..=79` no pulse edge leads out of that range.
pub proof fn lemma_head_stays_in_range(s: DriveState)
    requires
        s.valid(),
        0 <= s.track_index <= LAST_TRACK,
    ensures
        0 <= s.stepped().track_index <= LAST_TRACK,
        0 <= s.pulsed().track_index <= LAST_TRACK,
{
}

/// Two pulse edges make one full pulse, and one full pulse moves the head by
/// exactly one track: the head moves at half the rate of the edges.
pub proof fn lemma_two_edges_advance_once(s: DriveState)
    requires
        s.valid(),
    ensures
        s.stepped().stepped().step_state == s.step_state,
        s.stepped().stepped().track_index == s.advanced().track_index,
        s.stepped().stepped().dir == s.advanced().dir,
        s.stepped().stepped().enabled == s.enabled,
        s.stepped().stepped().pins() == s.pins(),
{
}

/// Moving backward the head turns round exactly when the move reaches track
/// 0, moving forward exactly when it reaches the last track; in between the
/// direction is kept.
pub proof fn lemma_reversal_at_the_ends(s: DriveState)
    requires
        s.valid(),
    ensures
        s.dir == FloppyDirection::Backward ==> s.advanced().track_index == s.track_index - 1,
        s.dir == FloppyDirection::Forward ==> s.advanced().track_index == s.track_index + 1,
        s.dir == FloppyDirection::Backward ==> (s.advanced().dir == FloppyDirection::Forward
            <==> s.advanced().track_index == 0),
        s.dir == FloppyDirection::Forward ==> (s.advanced().dir == FloppyDirection::Backward
            <==> s.advanced().track_index == LAST_TRACK),
{
}

/// A drive that can be enabled, disabled and stepped.
pub trait Floppy {
    /// The drive as mathematics.
    spec fn state(&self) -> DriveState;

    /// Drives the enable line. Never fails.
    fn set_enabled(&mut self, enabled: bool) -> (r: Result<(), FloppyError>)
        ensures
            r is Ok,
            final(self).state() == old(self).state().with_enabled(enabled),
            final(self).state().valid(),
    ;

    /// One pulse edge. A disabled drive refuses it and stays as it is.
    fn step(&mut self) -> (r: Result<(), FloppyError>)
        ensures
            old(self).state().enabled ==> r is Ok && final(self).state() == old(
                self,
            ).state().stepped(),
            !old(self).state().enabled ==> r == Err::<(), FloppyError>(FloppyError::Disabled)
                && final(self).state() == old(self).state(),
            final(self).state().valid(),
    ;
}

/// A drive wired to three numbered outputs.
pub struct FloppyImpl {
    pin_step: u8,
    pin_dir: u8,
    pin_en: u8,
    enabled: bool,
    track_index: u8,
    step_state: PinState,
    dir: FloppyDirection,
}

impl View for FloppyImpl {
    type V = DriveState;

    closed spec fn view(&self) -> DriveState {
        DriveState {
            pin_step: self.pin_step,
            pin_dir: self.pin_dir,
            pin_en: self.pin_en,
            enabled: self.enabled,
            track_index: self.track_index as int,
            step_state: self.step_state,
            dir: self.dir,
        }
    }
}

impl FloppyImpl {
    #[verifier::type_invariant]
    spec fn inv(self) -> bool {
        self@.valid()
    }

    /// Binds a drive to its step, direction and enable outputs. The drive
    /// starts disabled, parked beyond the last track and heading backward.
    pub fn new(pin_step: u8, pin_dir: u8, pin_en: u8) -> (f: FloppyImpl)
        ensures
            f@ == DriveState::parked(pin_step, pin_dir, pin_en),
    {
        FloppyImpl {
            pin_step,
            pin_dir,
            pin_en,
            enabled: false,
            track_index: PARKED_TRACK,
            step_state: PinState::Low,
            dir: FloppyDirection::Backward,
        }
    }

    /// The direction in which the head moves next.
    pub fn get_dir(&self) -> (d: FloppyDirection)
        ensures
            d == self@.dir,
    {
        self.dir
    }

    /// Whether the drive is enabled.
    pub fn is_enabled(&self) -> (e: bool)
        ensures
            e == self@.enabled,
    {
        self.enabled
    }

    /// The track under the head.
    pub fn track_index(&self) -> (t: u8)
        ensures
            t == self@.track_index,
            self@.valid(),
    {
        proof {
            use_type_invariant(self);
        }
        self.track_index
    }

    /// The numbers of the step, direction and enable outputs.
    pub fn pins(&self) -> (p: (u8, u8, u8))
        ensures
            p == self@.pins(),
    {
        (self.pin_step, self.pin_dir, self.pin_en)
    }

    /// The levels that the drive puts on its step, direction and enable
    /// outputs.
    pub fn outputs(&self) -> (o: (PinState, PinState, PinState))
        ensures
            o.0 == self@.step_output(),
            o.1 == self@.dir_output(),
            o.2 == self@.enable_output(),
    {
        let dir = match self.dir {
            FloppyDirection::Forward => PinState::High,
            FloppyDirection::Backward => PinState::Low,
        };
        let en = if self.enabled {
            PinState::High
        } else {
            PinState::Low
        };
        (self.step_state, dir, en)
    }
}

impl Floppy for FloppyImpl {
    open spec fn state(&self) -> DriveState {
        self@
    }

    fn set_enabled(&mut self, enabled: bool) -> (r: Result<(), FloppyError>) {
        proof {
            use_type_invariant(&*self);
        }
        self.enabled = enabled;
        Ok(())
    }

    fn step(&mut self) -> (r: Result<(), FloppyError>) {
        proof {
            use_type_invariant(&*self);
        }
        if !self.enabled {
            return Err(FloppyError::Disabled);
        }
        self.step_state = self.step_state.toggle();

        if self.step_state == PinState::Low {
            match self.dir {
                FloppyDirection::Forward => {
                    let next: u8 = self.track_index + 1;
                    if next >= LAST_TRACK {
                        self.dir = FloppyDirection::Backward;
                    }
                    self.track_index = next;
                },
                FloppyDirection::Backward => {
                    let next: u8 = self.track_index - 1;
                    if next <= 0 {
                        self.dir = FloppyDirection::Forward;
                    }
                    self.track_index = next;
                },
            }
        }
        Ok(())
    }
}

/// The six drives of the instrument, in the order of their wiring.
pub struct Floppies(
    pub FloppyImpl,
    pub FloppyImpl,
    pub FloppyImpl,
    pub FloppyImpl,
    pub FloppyImpl,
    pub FloppyImpl,
);

impl View for Floppies {
    type V = Seq<DriveState>;

    open spec fn view(&self) -> Seq<DriveState> {
        seq![self.0@, self.1@, self.2@, self.3@, self.4@, self.5@]
    }
}

} // verus!
