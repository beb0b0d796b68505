//! The oscillator that binds one slice to a pair of drives and steps the
//! second only while the two head in different directions.

use vstd::prelude::*;

use crate::floppy::Floppy;
use crate::floppy::FloppyImpl;
use crate::oscillators::set_pwm_note;
use crate::oscillators::OscState;
use crate::pwm::PwmSlice;

verus! {

/// One slice stepping a pair of drives.
pub struct InverseOscillator {
    pwm_slice: PwmSlice,
    floppies: (FloppyImpl, FloppyImpl),
    note: Option<u8>,
    age: u8,
}

impl View for InverseOscillator {
    type V = OscState;

    closed spec fn view(&self) -> OscState {
        OscState {
            note: self.note,
            age: self.age as int,
            slice: self.pwm_slice@,
            floppies: seq![self.floppies.0@, self.floppies.1@],
        }
    }
}

impl InverseOscillator {
    /// The oscillator has exactly two drives, and its rank fits a byte.
    pub proof fn lemma_shape(&self)
        ensures
            self@.floppies.len() == 2,
            0 <= self@.age <= u8::MAX,
    {
    }

    /// Binds a slice to a pair of drives. The slice is stopped, its overflow
    /// flag is cleared and its interrupt is enabled; the drives are taken as
    /// they are.
    pub fn new(pwm_slice: PwmSlice, floppies: (FloppyImpl, FloppyImpl)) -> (o: InverseOscillator)
        ensures
            o@ == OscState::idle(pwm_slice@.armed(), seq![floppies.0@, floppies.1@]),
    {
        let mut pwm_slice = pwm_slice;
        pwm_slice.disable();
        pwm_slice.clear_interrupt();
        pwm_slice.enable_interrupt();
        InverseOscillator { pwm_slice, floppies, note: None, age: 0 }
    }

    /// Silences the oscillator and hands back its slice and its drives.
    pub fn free(self) -> (r: (PwmSlice, (FloppyImpl, FloppyImpl)))
        ensures
            r.0@ == self@.stopped().slice,
            r.1.0@ == self@.stopped().floppies[0],
            r.1.1@ == self@.stopped().floppies[1],
    {
        let mut this = self;
        this.stop();
        (this.pwm_slice, this.floppies)
    }

    /// The first drive for `i == 0`, the second otherwise.
    pub fn floppy(&self, i: u8) -> (f: &FloppyImpl)
        ensures
            f@ == self@.floppies[if i == 0 { 0int } else { 1int }],
    {
        if i == 0 {
            &self.floppies.0
        } else {
            &self.floppies.1
        }
    }

    /// The slice.
    pub fn pwm_slice(&self) -> (s: &PwmSlice)
        ensures
            s@ == self@.slice,
    {
        &self.pwm_slice
    }

    /// Records that the slice has wrapped.
    pub fn raise_overflow(&mut self)
        ensures
            final(self)@ == old(self)@.overflown(),
    {
        self.pwm_slice.raise_overflow();
        proof {
            assert(final(self)@.floppies =~= old(self)@.floppies);
        }
    }

    /// Silences the oscillator: the slice is stopped and its overflow flag
    /// cleared, both drives are disabled, the note is dropped.
    pub(crate) fn stop(&mut self)
        ensures
            final(self)@ == old(self)@.stopped(),
    {
        self.pwm_slice.disable();
        self.pwm_slice.clear_interrupt();
        let _ = self.floppies.0.set_enabled(false);
        let _ = self.floppies.1.set_enabled(false);
        self.note = None;
        proof {
            assert(final(self)@.floppies =~= old(self)@.stopped().floppies);
        }
    }

    /// Makes the oscillator sound `note`.
    pub(crate) fn set_note(&mut self, note: u8)
        ensures
            final(self)@ == old(self)@.assigned(note),
    {
        let _ = self.floppies.0.set_enabled(true);
        let _ = self.floppies.1.set_enabled(true);
        set_pwm_note(&mut self.pwm_slice, note);
        self.note = Some(note);
        proof {
            assert(final(self)@.floppies =~= old(self)@.assigned(note).floppies);
        }
    }

    /// Services a timer interrupt: if this oscillator's own slice has
    /// overflown, clears the flag, offers the first drive one pulse edge, and
    /// offers the second one too if the two were heading in different
    /// directions.
    pub fn handle_interrupt(&mut self)
        ensures
            final(self)@ == old(self)@.serviced_inverse(),
    {
        if !self.pwm_slice.has_overflown() {
            return ;
        }
        self.pwm_slice.clear_interrupt();

        let is_inverse = self.floppies.0.get_dir() != self.floppies.1.get_dir();

        let _ = self.floppies.0.step();

        if is_inverse {
            let _ = self.floppies.1.step();
        }
        proof {
            assert(final(self)@.floppies =~= old(self)@.serviced_inverse().floppies);
        }
    }

    /// The note that sounds, none while the oscillator is free.
    pub fn get_note(&self) -> (n: Option<u8>)
        ensures
            n == self@.note,
    {
        self.note
    }

    /// The rank by recency.
    pub fn get_age(&self) -> (a: u8)
        ensures
            a == self@.age,
    {
        self.age
    }

    /// Sets the rank by recency.
    pub(crate) fn set_age(&mut self, age: u8)
        ensures
            final(self)@ == old(self)@.with_age(age as int),
    {
        self.age = age;
        proof {
            assert(final(self)@.floppies =~= old(self)@.floppies);
        }
    }
}

} // verus!
