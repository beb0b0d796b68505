//! One slice of the pulse-width modulator, used as a free-running timer: a
//! clock divider, a wrap value, an enable bit, an interrupt enable and the
//! overflow flag that the counter raises each time it wraps.
//!
//! The slice is held as plain values. Whoever owns the real peripheral
//! copies the registers from a `PwmSlice` to it, and reports each wrap of the
//! counter with `PwmSlice::raise_overflow`.

use vstd::prelude::*;

verus! {

/// What a slice is, as mathematics: its number and its registers.
pub struct SliceState {
    /// Number of the slice in the peripheral.
    pub channel: u8,
    /// Integer part of the clock divider.
    pub div_int: u8,
    /// Value at which the counter wraps.
    pub top: u16,
    /// Whether the counter runs.
    pub enabled: bool,
    /// Whether a wrap requests an interrupt.
    pub interrupt_enabled: bool,
    /// Whether the counter has wrapped since the flag was last cleared.
    pub overflown: bool,
}

impl SliceState {
    /// A slice as the peripheral hands it out: undivided clock, wrap at the
    /// highest count, stopped, no interrupt, no overflow.
    pub open spec fn fresh(channel: u8) -> SliceState {
        SliceState {
            channel,
            div_int: 1,
            top: 0xffff,
            enabled: false,
            interrupt_enabled: false,
            overflown: false,
        }
    }

    /// The slice stopped, with its overflow flag cleared.
    pub open spec fn halted(self) -> SliceState {
        SliceState { enabled: false, overflown: false, ..self }
    }

    /// The slice stopped, with its overflow flag cleared and its interrupt
    /// enabled: ready to be given a pitch.
    pub open spec fn armed(self) -> SliceState {
        SliceState { enabled: false, overflown: false, interrupt_enabled: true, ..self }
    }

    /// The slice running with the given divider and wrap value, and with its
    /// interrupt enabled.
    pub open spec fn running(self, div_int: u8, top: u16) -> SliceState {
        SliceState { div_int, top, enabled: true, interrupt_enabled: true, ..self }
    }
}

/// One slice of the pulse-width modulator.
pub struct PwmSlice {
    channel: u8,
    div_int: u8,
    top: u16,
    enabled: bool,
    interrupt_enabled: bool,
    overflown: bool,
}

impl View for PwmSlice {
    type V = SliceState;

    closed spec fn view(&self) -> SliceState {
        SliceState {
            channel: self.channel,
            div_int: self.div_int,
            top: self.top,
            enabled: self.enabled,
            interrupt_enabled: self.interrupt_enabled,
            overflown: self.overflown,
        }
    }
}

impl PwmSlice {
    /// The slice with the given number, as the peripheral hands it out.
    pub fn new(channel: u8) -> (s: PwmSlice)
        ensures
            s@ == SliceState::fresh(channel),
    {
        PwmSlice {
            channel,
            div_int: 1,
            top: 0xffff,
            enabled: false,
            interrupt_enabled: false,
            overflown: false,
        }
    }

    /// Number of the slice in the peripheral.
    pub fn channel(&self) -> (c: u8)
        ensures
            c == self@.channel,
    {
        self.channel
    }

    /// Integer part of the clock divider.
    pub fn get_div_int(&self) -> (d: u8)
        ensures
            d == self@.div_int,
    {
        self.div_int
    }

    /// Value at which the counter wraps.
    pub fn get_top(&self) -> (t: u16)
        ensures
            t == self@.top,
    {
        self.top
    }

    /// Whether the counter runs.
    pub fn is_enabled(&self) -> (e: bool)
        ensures
            e == self@.enabled,
    {
        self.enabled
    }

    /// Whether a wrap requests an interrupt.
    pub fn is_interrupt_enabled(&self) -> (e: bool)
        ensures
            e == self@.interrupt_enabled,
    {
        self.interrupt_enabled
    }

    /// Whether the counter has wrapped since the flag was last cleared,
    /// whether or not the interrupt is enabled.
    pub fn has_overflown(&self) -> (o: bool)
        ensures
            o == self@.overflown,
    {
        self.overflown
    }

    /// Sets the integer part of the clock divider.
    pub fn set_div_int(&mut self, value: u8)
        ensures
            final(self)@ == (SliceState { div_int: value, ..old(self)@ }),
    {
        self.div_int = value;
    }

    /// Sets the value at which the counter wraps.
    pub fn set_top(&mut self, value: u16)
        ensures
            final(self)@ == (SliceState { top: value, ..old(self)@ }),
    {
        self.top = value;
    }

    /// Starts the counter.
    pub fn enable(&mut self)
        ensures
            final(self)@ == (SliceState { enabled: true, ..old(self)@ }),
    {
        self.enabled = true;
    }

    /// Stops the counter.
    pub fn disable(&mut self)
        ensures
            final(self)@ == (SliceState { enabled: false, ..old(self)@ }),
    {
        self.enabled = false;
    }

    /// Lets a wrap of the counter request an interrupt.
    pub fn enable_interrupt(&mut self)
        ensures
            final(self)@ == (SliceState { interrupt_enabled: true, ..old(self)@ }),
    {
        self.interrupt_enabled = true;
    }

    /// Keeps a wrap of the counter from requesting an interrupt.
    pub fn disable_interrupt(&mut self)
        ensures
            final(self)@ == (SliceState { interrupt_enabled: false, ..old(self)@ }),
    {
        self.interrupt_enabled = false;
    }

    /// Marks the overflow as handled.
    pub fn clear_interrupt(&mut self)
        ensures
            final(self)@ == (SliceState { overflown: false, ..old(self)@ }),
    {
        self.overflown = false;
    }

    /// Records that the counter has wrapped.
    pub fn raise_overflow(&mut self)
        ensures
            final(self)@ == (SliceState { overflown: true, ..old(self)@ }),
    {
        self.overflown = true;
    }
}

/// The six slices that the instrument uses, in the order of their wiring.
pub struct OscSlices(
    pub PwmSlice,
    pub PwmSlice,
    pub PwmSlice,
    pub PwmSlice,
    pub PwmSlice,
    pub PwmSlice,
);

impl View for OscSlices {
    type V = Seq<SliceState>;

    open spec fn view(&self) -> Seq<SliceState> {
        seq![self.0@, self.1@, self.2@, self.3@, self.4@, self.5@]
    }
}

} // verus!
