//! The oscillator that binds one slice to one drive.

use vstd::prelude::*;

use crate::floppy::Floppy;
use crate::floppy::FloppyImpl;
use crate::oscillators::set_pwm_note;
use crate::oscillators::OscState;
use crate::pwm::PwmSlice;

verus! {

/// One slice stepping one drive.
pub struct SingleOscillator {
    floppy: FloppyImpl,
    pwm_slice: PwmSlice,
    note: Option<u8>,
    age: u8,
}

impl View for SingleOscillator {
    type V = OscState;

    closed spec fn view(&self) -> OscState {
        OscState {
            note: self.note,
            age: self.age as int,
            slice: self.pwm_slice@,
            floppies: seq![self.floppy@],
        }
    }
}

impl SingleOscillator {
    /// The oscillator has exactly one drive, and its rank fits a byte.
    pub proof fn lemma_shape(&self)
        ensures
            self@.floppies.len() == 1,
            0 <= self@.age <= u8::MAX,
    {
    }

    /// Binds a slice to a drive. The slice is stopped, its overflow flag is
    /// cleared and its interrupt is enabled; the drive is taken as it is.
    pub fn new(pwm: PwmSlice, floppy: FloppyImpl) -> (o: SingleOscillator)
        ensures
            o@ == OscState::idle(pwm@.armed(), seq![floppy@]),
    {
        let mut pwm = pwm;
        pwm.disable();
        pwm.clear_interrupt();
        pwm.enable_interrupt();
        SingleOscillator { pwm_slice: pwm, floppy, note: None, age: 0 }
    }

    /// Offers the drive one pulse edge; a disabled drive ignores it.
    pub fn step(&mut self)
        ensures
            final(self)@ == old(self)@.pulsed(),
    {
        let _ = self.floppy.step();
        proof {
            assert(final(self)@.floppies =~= old(self)@.pulsed().floppies);
        }
    }

    /// Silences the oscillator and hands back its drive and its slice.
    pub fn free(self) -> (r: (FloppyImpl, PwmSlice))
        ensures
            r.0@ == self@.stopped().floppies[0],
            r.1@ == self@.stopped().slice,
    {
        let mut this = self;
        this.stop();
        (this.floppy, this.pwm_slice)
    }

    /// The drive.
    pub fn floppy(&self) -> (f: &FloppyImpl)
        ensures
            f@ == self@.floppies[0],
    {
        &self.floppy
    }

    /// The slice.
    pub fn pwm_slice(&self) -> (s: &PwmSlice)
        ensures
            s@ == self@.slice,
    {
        &self.pwm_slice
    }

    /// Records that the slice has wrapped.
    pub fn raise_overflow(&mut self)
        ensures
            final(self)@ == old(self)@.overflown(),
    {
        self.pwm_slice.raise_overflow();
    }

    /// Silences the oscillator: the slice is stopped and its overflow flag
    /// cleared, the drive is disabled, the note is dropped.
    pub(crate) fn stop(&mut self)
        ensures
            final(self)@ == old(self)@.stopped(),
    {
        self.pwm_slice.disable();
        self.pwm_slice.clear_interrupt();

        let _ = self.floppy.set_enabled(false);
        self.note = None;
        proof {
            assert(final(self)@.floppies =~= old(self)@.stopped().floppies);
        }
    }

    /// Makes the oscillator sound `note`.
    pub(crate) fn set_note(&mut self, note: u8)
        ensures
            final(self)@ == old(self)@.assigned(note),
    {
        let _ = self.floppy.set_enabled(true);
        set_pwm_note(&mut self.pwm_slice, note);
        self.note = Some(note);
        proof {
            assert(final(self)@.floppies =~= old(self)@.assigned(note).floppies);
        }
    }

    /// Services a timer interrupt: if this oscillator's own slice has
    /// overflown, clears the flag and offers the drive one pulse edge.
    pub fn handle_interrupt(&mut self)
        ensures
            final(self)@ == old(self)@.serviced_together(),
    {
        if !self.pwm_slice.has_overflown() {
            return ;
        }
        self.pwm_slice.clear_interrupt();

        let _ = self.floppy.step();
        proof {
            assert(final(self)@.floppies =~= old(self)@.serviced_together().floppies);
        }
    }

    /// The note that sounds, none while the oscillator is free.
    pub fn get_note(&self) -> (n: Option<u8>)
        ensures
            n == self@.note,
    {
        self.note
    }

    /// The rank by recency.
    pub fn get_age(&self) -> (a: u8)
        ensures
            a == self@.age,
    {
        self.age
    }

    /// Sets the rank by recency.
    pub(crate) fn set_age(&mut self, age: u8)
        ensures
            final(self)@ == old(self)@.with_age(age as int),
    {
        self.age = age;
    }
}

} // verus!
