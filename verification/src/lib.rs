//! Six floppy drives played as a polyphonic instrument.
//!
//! Each drive's stepper motor sounds a tone when it is pulsed at an audio
//! rate. A bank of oscillators binds timer slices to drives, gives incoming
//! notes to oscillators by recency, and steps the drives whenever a slice
//! overflows. Everything here works on plain values: the slices and drives
//! are records of what the hardware is to do, and the caller carries their
//! registers and output levels over to the peripheral.

use vstd::prelude::*;

use crate::floppy::PinState;
use crate::oscillators::ranking::lemma_played_sounds;
use crate::oscillators::ranking::sounding;
use crate::oscillators::sounds;
use crate::oscillators::switched;
use crate::oscillators::topology::BankState;
use crate::oscillators::topology::Topology;
use crate::oscillators::Oscillators;
use crate::pwm::OscSlices;
use crate::pwm::SliceState;

pub mod floppy;
pub mod note_dict;
pub mod oscillators;
pub mod pwm;
pub mod slots;

verus! {

/// A decoded performance message.
#[derive(Clone, Copy, PartialEq, Eq, Debug)]
#[allow(inconsistent_fields)]
pub enum MidiMessage {
    NoteOn { channel: u8, note: u8, velocity: u8 },
    NoteOff { channel: u8, note: u8, velocity: u8 },
    /// Key pressure; without a note it applies to the whole channel.
    Aftertouch { channel: u8, note: Option<u8>, value: u8 },
    ControlChange { channel: u8, controller: u8, value: u8 },
    ProgramChange { channel: u8, program: u8 },
    /// Pitch bend; 14 bits are used.
    PitchBendChange { channel: u8, value: u16 },
    Unknown,
}

impl MidiMessage {
    /// Whether the message starts or ends a note.
    pub open spec fn is_note_event(self) -> bool {
        self is NoteOn || self is NoteOff
    }

    /// The bank after the message.
    ///
    /// A note-on with a velocity above 0 plays its note; a note-on with
    /// velocity 0 and a note-off stop it. Program changes 0, 1 and 2 switch
    /// to the topologies `Single`, `Inverse` and `Unisono`; any other program
    /// and any other message change nothing.
    pub open spec fn handled(self, bank: Option<BankState>) -> Option<BankState> {
        match self {
            MidiMessage::NoteOn { channel, note, velocity } => match bank {
                Some(b) => Some(
                    if velocity == 0 {
                        b.stopped(note)
                    } else {
                        b.played(note)
                    },
                ),
                None => None,
            },
            MidiMessage::NoteOff { channel, note, velocity } => match bank {
                Some(b) => Some(b.stopped(note)),
                None => None,
            },
            MidiMessage::ProgramChange { channel, program } => if program == 0 {
                switched(bank, Topology::Single)
            } else if program == 1 {
                switched(bank, Topology::Inverse)
            } else if program == 2 {
                switched(bank, Topology::Unisono)
            } else {
                bank
            },
            _ => bank,
        }
    }

    /// The level to drive the indicator to once the message has been
    /// handled, where `after` is the bank after it.
    ///
    /// The indicator is high while any note sounds. A message that starts or
    /// ends a note sets it anew: high if some oscillator sounds afterwards,
    /// low if none does. Any other message leaves it alone.
    pub open spec fn indicated(self, after: Option<BankState>) -> Option<PinState> {
        if self.is_note_event() {
            if sounds(after) {
                Some(PinState::High)
            } else {
                Some(PinState::Low)
            }
        } else {
            None
        }
    }
}

/// A note that starts lights the indicator: after a note-on with a velocity
/// above 0 the note sounds, whatever the bank held before.
pub proof fn lemma_note_on_lights(bank: BankState, channel: u8, note: u8, velocity: u8)
    requires
        bank.valid(),
        velocity > 0,
    ensures
        ({
            let msg = MidiMessage::NoteOn { channel, note, velocity };
            msg.indicated(msg.handled(Some(bank))) == Some(PinState::High)
        }),
{
    lemma_played_sounds(bank.oscs, note);
}

/// The indicator goes dark exactly with the last note: after a message that
/// ends a note it is low if and only if no oscillator sounds any more.
pub proof fn lemma_note_off_darkens(bank: BankState, msg: MidiMessage)
    requires
        bank.valid(),
        msg is NoteOff || (msg matches MidiMessage::NoteOn { velocity, .. } && velocity == 0),
    ensures
        msg.indicated(msg.handled(Some(bank))) == Some(PinState::Low) <==> msg.handled(
            Some(bank),
        ).unwrap().silent(),
        msg.indicated(msg.handled(Some(bank))) == Some(PinState::High) <==> !msg.handled(
            Some(bank),
        ).unwrap().silent(),
{
    let after = msg.handled(Some(bank)).unwrap();
    if after.sounds() {
        let i = choose|i: int| #[trigger] sounding(after.oscs, i);
        assert(after.oscs[i].note is Some);
    } else {
        assert forall|i: int| 0 <= i < after.oscs.len() implies (
        #[trigger] after.oscs[i]).note is None by {
            assert(!sounding(after.oscs, i));
        }
    }
}

/// Keeps every slice from requesting an interrupt.
pub fn deactivate_slice_ints(slices: &mut OscSlices)
    ensures
        final(slices)@ == old(slices)@.map_values(
            |s: SliceState| SliceState { interrupt_enabled: false, ..s },
        ),
{
    slices.0.disable_interrupt();
    slices.1.disable_interrupt();
    slices.2.disable_interrupt();
    slices.3.disable_interrupt();
    slices.4.disable_interrupt();
    slices.5.disable_interrupt();
    proof {
        assert(slices@ =~= old(slices)@.map_values(
            |s: SliceState| SliceState { interrupt_enabled: false, ..s },
        ));
    }
}

/// Applies one performance message to the bank and returns the level to
/// drive the indicator to, if the message starts or ends a note: high while
/// any note sounds afterwards, low once none does.
///
/// A note can only start or end once the bank has taken over the hardware.
pub fn handle_midi_message(oscs: &mut Oscillators, msg: MidiMessage) -> (indicator: Option<
    PinState,
>)
    requires
        old(oscs).wf(),
        msg.is_note_event() ==> old(oscs).config is Some,
    ensures
        final(oscs).wf(),
        final(oscs)@ == msg.handled(old(oscs)@),
        indicator == msg.indicated(final(oscs)@),
{
    match msg {
        MidiMessage::NoteOn { channel: _, note, velocity } => {
            if let Some(config) = &mut oscs.config {
                if velocity == 0 {
                    config.stop_note(note);
                } else {
                    config.play_note(note);
                }
            }
            Some(indicator_level(oscs))
        },
        MidiMessage::NoteOff { channel: _, note, velocity: _ } => {
            if let Some(config) = &mut oscs.config {
                config.stop_note(note);
            }
            Some(indicator_level(oscs))
        },
        MidiMessage::ProgramChange { channel: _, program } => {
            match program {
                0 => oscs.to_single(),
                1 => oscs.to_inverse(),
                2 => oscs.to_unisono(),
                _ => (),
            }
            None
        },
        MidiMessage::PitchBendChange { channel: _, value: _ } => None,
        _ => None,
    }
}

/// The level of the indicator for the bank as it is: high while any note
/// sounds.
fn indicator_level(oscs: &Oscillators) -> (level: PinState)
    ensures
        level == if sounds(oscs@) {
            PinState::High
        } else {
            PinState::Low
        },
{
    if oscs.any_sounding() {
        PinState::High
    } else {
        PinState::Low
    }
}

} // verus!
