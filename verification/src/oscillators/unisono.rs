//! The oscillator that binds one slice to all six drives and steps them
//! together.

use vstd::prelude::*;

use crate::floppy::DriveState;
use crate::floppy::Floppies;
use crate::floppy::Floppy;
use crate::floppy::FloppyImpl;
use crate::oscillators::set_pwm_note;
use crate::oscillators::OscState;
use crate::pwm::PwmSlice;

verus! {

/// One slice stepping all six drives.
pub struct UnisonoOscillator {
    pwm_slice: PwmSlice,
    floppies: Floppies,
    note: Option<u8>,
    age: u8,
}

impl View for UnisonoOscillator {
    type V = OscState;

    closed spec fn view(&self) -> OscState {
        OscState {
            note: self.note,
            age: self.age as int,
            slice: self.pwm_slice@,
            floppies: self.floppies@,
        }
    }
}

impl UnisonoOscillator {
    /// The oscillator has exactly six drives, and its rank fits a byte.
    pub proof fn lemma_shape(&self)
        ensures
            self@.floppies.len() == 6,
            0 <= self@.age <= u8::MAX,
    {
    }

    /// Binds a slice to the six drives. Slice and drives are taken as they
    /// are.
    pub fn new(pwm_slice: PwmSlice, floppies: Floppies) -> (o: UnisonoOscillator)
        ensures
            o@ == OscState::idle(pwm_slice@, floppies@),
    {
        UnisonoOscillator { pwm_slice, floppies, note: None, age: 0 }
    }

    /// Drives the enable line of every drive.
    fn enable_all(&mut self, enabled: bool)
        ensures
            final(self)@ == (OscState {
                floppies: old(self)@.floppies.map_values(
                    |d: DriveState| d.with_enabled(enabled),
                ),
                ..old(self)@
            }),
    {
        let _ = self.floppies.0.set_enabled(enabled);
        let _ = self.floppies.1.set_enabled(enabled);
        let _ = self.floppies.2.set_enabled(enabled);
        let _ = self.floppies.3.set_enabled(enabled);
        let _ = self.floppies.4.set_enabled(enabled);
        let _ = self.floppies.5.set_enabled(enabled);
        proof {
            assert(final(self)@.floppies =~= old(self)@.floppies.map_values(
                |d: DriveState| d.with_enabled(enabled),
            ));
        }
    }

    /// Offers every drive one pulse edge; a disabled drive ignores it.
    fn step_all(&mut self)
        ensures
            final(self)@ == old(self)@.pulsed(),
    {
        let _ = self.floppies.0.step();
        let _ = self.floppies.1.step();
        let _ = self.floppies.2.step();
        let _ = self.floppies.3.step();
        let _ = self.floppies.4.step();
        let _ = self.floppies.5.step();
        proof {
            assert(final(self)@.floppies =~= old(self)@.pulsed().floppies);
        }
    }

    /// Silences the oscillator and hands back its slice and its drives.
    pub fn free(self) -> (r: (PwmSlice, Floppies))
        ensures
            r.0@ == self@.stopped().slice,
            r.1@ == self@.stopped().floppies,
    {
        let mut this = self;
        this.stop();
        (this.pwm_slice, this.floppies)
    }

    /// The drive at position `i`, the last one for `i` beyond 5.
    pub fn floppy(&self, i: u8) -> (f: &FloppyImpl)
        ensures
            f@ == self@.floppies[if i < 5 { i as int } else { 5int }],
    {
        match i {
            0 => &self.floppies.0,
            1 => &self.floppies.1,
            2 => &self.floppies.2,
            3 => &self.floppies.3,
            4 => &self.floppies.4,
            _ => &self.floppies.5,
        }
    }

    /// The slice.
    pub fn pwm_slice(&self) -> (s: &PwmSlice)
        ensures
            s@ == self@.slice,
    {
        &self.pwm_slice
    }

    /// Records that the slice has wrapped.
    pub fn raise_overflow(&mut self)
        ensures
            final(self)@ == old(self)@.overflown(),
    {
        self.pwm_slice.raise_overflow();
    }

    /// Silences the oscillator: the slice is stopped and its overflow flag
    /// cleared, every drive is disabled, the note is dropped.
    pub(crate) fn stop(&mut self)
        ensures
            final(self)@ == old(self)@.stopped(),
    {
        self.pwm_slice.disable();
        self.pwm_slice.clear_interrupt();
        self.enable_all(false);
        self.note = None;
    }

    /// Makes the oscillator sound `note`.
    pub(crate) fn set_note(&mut self, note: u8)
        ensures
            final(self)@ == old(self)@.assigned(note),
    {
        self.enable_all(true);
        set_pwm_note(&mut self.pwm_slice, note);
        self.note = Some(note);
    }

    /// Services a timer interrupt: if this oscillator's own slice has
    /// overflown, clears the flag and offers every drive one pulse edge.
    pub fn handle_interrupt(&mut self)
        ensures
            final(self)@ == old(self)@.serviced_together(),
    {
        if !self.pwm_slice.has_overflown() {
            return ;
        }
        self.pwm_slice.clear_interrupt();

        self.step_all();
    }

    /// The note that sounds, none while the oscillator is free.
    pub fn get_note(&self) -> (n: Option<u8>)
        ensures
            n == self@.note,
    {
        self.note
    }

    /// The rank by recency.
    pub fn get_age(&self) -> (a: u8)
        ensures
            a == self@.age,
    {
        self.age
    }

    /// Sets the rank by recency.
    pub(crate) fn set_age(&mut self, age: u8)
        ensures
            final(self)@ == old(self)@.with_age(age as int),
    {
        self.age = age;
    }
}

} // verus!
