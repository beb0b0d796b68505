//! The voices of the instrument and the bank that allocates them.

use vstd::prelude::*;

use crate::floppy::DriveState;
use crate::floppy::Floppies;
use crate::floppy::FloppyImpl;
use crate::note_dict::note_dict;
use crate::note_dict::note_setting;
use crate::pwm::OscSlices;
use crate::pwm::PwmSlice;
use crate::pwm::SliceState;
use crate::slots::at3;
use crate::slots::at3_mut;
use crate::slots::at5;
use crate::slots::at5_mut;
use crate::slots::at6;
use crate::slots::at6_mut;
use crate::slots::pick3;
use crate::slots::pick5;
use crate::slots::pick6;
use self::inverse::InverseOscillator;
use self::ranking::first_from;
use self::ranking::first_match;
use self::ranking::lemma_count_bound;
use self::ranking::lemma_first_match;
use self::ranking::lemma_oldest;
use self::ranking::lemma_played_ranked;
use self::ranking::lemma_ranked_same_voices;
use self::ranking::lemma_rerank_allocate;
use self::ranking::lemma_rerank_release;
use self::ranking::lemma_rerank_retrigger;
use self::ranking::lemma_stopped_ranked;
use self::ranking::sounding;
use self::ranking::steal_rank;
use self::ranking::Probe;
use self::ranking::Rerank;
use self::single::SingleOscillator;
use self::topology::lemma_bound;
use self::topology::BankState;
use self::topology::Topology;
use self::topology::HARDWARE_COUNT;
use self::unisono::UnisonoOscillator;

pub mod inverse;
pub mod ranking;
pub mod single;
pub mod topology;
pub mod unisono;

verus! {

/// The registers of a slice after it has been given `note`: running at the
/// note's divider and wrap value with its interrupt enabled, or, for a note
/// without a table entry, stopped with its other registers as they were.
pub open spec fn tuned(slice: SliceState, note: u8) -> SliceState {
    match note_setting(note) {
        Some(setting) => slice.running(setting.div_int, setting.top),
        None => SliceState { enabled: false, ..slice },
    }
}

/// Gives a slice the pitch of `note`. A note without a table entry stops the
/// slice, so that it does not go on sounding an earlier pitch.
pub fn set_pwm_note(pwm_slice: &mut PwmSlice, note: u8)
    ensures
        final(pwm_slice)@ == tuned(old(pwm_slice)@, note),
{
    if let Some(pwm_setting) = note_dict(note) {
        pwm_slice.set_div_int(pwm_setting.div_int);
        pwm_slice.set_top(pwm_setting.top);
        pwm_slice.enable();
        pwm_slice.enable_interrupt();
    } else {
        pwm_slice.disable();
    }
}

/// What an oscillator is, as mathematics: one slice, the drives that it
/// steps, the note it sounds and how long ago that note was touched.
pub struct OscState {
    /// The note that sounds, none while the oscillator is free.
    pub note: Option<u8>,
    /// Rank by recency among the sounding oscillators: 0 is the one touched
    /// last.
    pub age: int,
    pub slice: SliceState,
    pub floppies: Seq<DriveState>,
}

impl OscState {
    /// A free oscillator over the given slice and drives.
    pub open spec fn idle(slice: SliceState, floppies: Seq<DriveState>) -> OscState {
        OscState { note: None, age: 0, slice, floppies }
    }

    /// The oscillator silenced: its drives disabled, its slice stopped with
    /// the overflow flag cleared, no note. The rank stays.
    pub open spec fn stopped(self) -> OscState {
        OscState {
            note: None,
            slice: self.slice.halted(),
            floppies: self.floppies.map_values(|d: DriveState| d.with_enabled(false)),
            ..self
        }
    }

    /// The oscillator sounding `note`: its drives enabled, its slice tuned.
    /// The rank stays.
    pub open spec fn assigned(self, note: u8) -> OscState {
        OscState {
            note: Some(note),
            slice: tuned(self.slice, note),
            floppies: self.floppies.map_values(|d: DriveState| d.with_enabled(true)),
            ..self
        }
    }

    /// The same oscillator at another rank.
    pub open spec fn with_age(self, age: int) -> OscState {
        OscState { age, ..self }
    }

    /// The same oscillator after its slice has wrapped.
    pub open spec fn overflown(self) -> OscState {
        OscState { slice: SliceState { overflown: true, ..self.slice }, ..self }
    }

    /// Every drive offered one pulse edge.
    pub open spec fn pulsed(self) -> OscState {
        OscState { floppies: self.floppies.map_values(|d: DriveState| d.pulsed()), ..self }
    }

    /// An interrupt serviced by an oscillator that steps its drives
    /// together: if its own slice has overflown, the flag is cleared and
    /// every drive gets one pulse edge; otherwise nothing changes.
    pub open spec fn serviced_together(self) -> OscState {
        if self.slice.overflown {
            OscState { slice: SliceState { overflown: false, ..self.slice }, ..self.pulsed() }
        } else {
            self
        }
    }

    /// An interrupt serviced by an oscillator over a pair of drives: if its
    /// own slice has overflown, the flag is cleared, the first drive gets one
    /// pulse edge, and the second gets one only if the two drives were
    /// heading in different directions when the interrupt came.
    pub open spec fn serviced_inverse(self) -> OscState
        recommends
            self.floppies.len() == 2,
    {
        if self.slice.overflown {
            let first = self.floppies[0];
            let second = self.floppies[1];
            OscState {
                slice: SliceState { overflown: false, ..self.slice },
                floppies: seq![
                    first.pulsed(),
                    if first.dir != second.dir {
                        second.pulsed()
                    } else {
                        second
                    },
                ],
                ..self
            }
        } else {
            self
        }
    }
}

/// The bank: the oscillators of the current topology and the slices that
/// the topology leaves spare. Between them they hold all six slices and all
/// six drives at all times.
pub enum OscConfiguration {
    /// Six oscillators of one drive each; no spare slice.
    Single(
        (
            SingleOscillator,
            SingleOscillator,
            SingleOscillator,
            SingleOscillator,
            SingleOscillator,
            SingleOscillator,
        ),
    ),
    /// One oscillator over all six drives; slices 1 to 5 are spare.
    Unisono(UnisonoOscillator, (PwmSlice, PwmSlice, PwmSlice, PwmSlice, PwmSlice)),
    /// Three oscillators of two drives each; slices 3 to 5 are spare.
    Inverse(
        (InverseOscillator, InverseOscillator, InverseOscillator),
        (PwmSlice, PwmSlice, PwmSlice),
    ),
}

impl View for OscConfiguration {
    type V = BankState;

    open spec fn view(&self) -> BankState {
        match self {
            OscConfiguration::Single(oss) => BankState {
                topology: Topology::Single,
                oscs: Seq::new(6, |k: int| pick6(*oss, k)@),
                spares: Seq::empty(),
            },
            OscConfiguration::Unisono(os, spares) => BankState {
                topology: Topology::Unisono,
                oscs: seq![os@],
                spares: Seq::new(5, |k: int| pick5(*spares, k)@),
            },
            OscConfiguration::Inverse(oss, spares) => BankState {
                topology: Topology::Inverse,
                oscs: Seq::new(3, |k: int| pick3(*oss, k)@),
                spares: Seq::new(3, |k: int| pick3(*spares, k)@),
            },
        }
    }
}

impl OscConfiguration {
    /// Whether the bank keeps the rule of the ranks. Every bank built by
    /// `new_single`, `new_unisono` or `new_inverse` does, and every
    /// operation keeps it so.
    pub open spec fn wf(&self) -> bool {
        self@.valid()
    }

    /// Every bank has the shape of its topology, and its ranks fit a byte.
    pub proof fn lemma_shaped(&self)
        ensures
            self@.shaped(),
            forall|i: int|
                0 <= i < self@.oscs.len() ==> 0 <= (#[trigger] self@.oscs[i]).age <= u8::MAX,
    {
        match self {
            OscConfiguration::Single(oss) => {
                assert forall|i: int| 0 <= i < 6 implies (#[trigger] self@.oscs[i]).floppies.len()
                    == 1 && 0 <= self@.oscs[i].age <= u8::MAX by {
                    pick6(*oss, i).lemma_shape();
                }
            },
            OscConfiguration::Unisono(os, _) => {
                os.lemma_shape();
            },
            OscConfiguration::Inverse(oss, _) => {
                assert forall|i: int| 0 <= i < 3 implies (#[trigger] self@.oscs[i]).floppies.len()
                    == 2 && 0 <= self@.oscs[i].age <= u8::MAX by {
                    pick3(*oss, i).lemma_shape();
                }
            },
        }
    }

    /// Silences every oscillator and hands back the six slices and the six
    /// drives, in the order of their wiring.
    pub fn free(self) -> (r: (OscSlices, Floppies))
        ensures
            r.0@ == self@.quiet().slices(),
            r.1@ == self@.quiet().floppies(),
    {
        proof {
            self.lemma_shaped();
        }
        match self {
            OscConfiguration::Unisono(os, (s1, s2, s3, s4, s5)) => {
                let (s0, floppies) = os.free();
                let slices = OscSlices(s0, s1, s2, s3, s4, s5);
                proof {
                    assert(slices@ =~= self@.quiet().slices());
                    assert(floppies@ =~= self@.quiet().floppies());
                }
                (slices, floppies)
            },
            OscConfiguration::Single((os0, os1, os2, os3, os4, os5)) => {
                let (f0, s0) = os0.free();
                let (f1, s1) = os1.free();
                let (f2, s2) = os2.free();
                let (f3, s3) = os3.free();
                let (f4, s4) = os4.free();
                let (f5, s5) = os5.free();
                let slices = OscSlices(s0, s1, s2, s3, s4, s5);
                let floppies = Floppies(f0, f1, f2, f3, f4, f5);
                proof {
                    assert(slices@ =~= self@.quiet().slices());
                    assert(floppies@ =~= self@.quiet().floppies());
                }
                (slices, floppies)
            },
            OscConfiguration::Inverse((os0, os1, os2), (s3, s4, s5)) => {
                let (s0, (f0, f1)) = os0.free();
                let (s1, (f2, f3)) = os1.free();
                let (s2, (f4, f5)) = os2.free();
                let slices = OscSlices(s0, s1, s2, s3, s4, s5);
                let floppies = Floppies(f0, f1, f2, f3, f4, f5);
                proof {
                    assert(slices@ =~= self@.quiet().slices());
                    assert(floppies@ =~= self@.quiet().floppies());
                }
                (slices, floppies)
            },
        }
    }

    /// The note of oscillator `i`.
    fn get_note_at(&self, i: u8) -> (n: Option<u8>)
        requires
            i < self@.oscs.len(),
        ensures
            n == self@.oscs[i as int].note,
    {
        match self {
            OscConfiguration::Single(oss) => at6(oss, i).get_note(),
            OscConfiguration::Unisono(os, _) => os.get_note(),
            OscConfiguration::Inverse(oss, _) => at3(oss, i).get_note(),
        }
    }

    /// The rank of oscillator `i`.
    fn get_age_at(&self, i: u8) -> (a: u8)
        requires
            i < self@.oscs.len(),
        ensures
            a == self@.oscs[i as int].age,
    {
        match self {
            OscConfiguration::Single(oss) => at6(oss, i).get_age(),
            OscConfiguration::Unisono(os, _) => os.get_age(),
            OscConfiguration::Inverse(oss, _) => at3(oss, i).get_age(),
        }
    }

    /// Sets the rank of oscillator `i`.
    fn set_age_at(&mut self, i: u8, age: u8)
        requires
            i < old(self)@.oscs.len(),
        ensures
            final(self)@ == old(self)@.with_oscs(
                old(self)@.oscs.update(i as int, old(self)@.oscs[i as int].with_age(age as int)),
            ),
    {
        match self {
            OscConfiguration::Single(oss) => at6_mut(oss, i).set_age(age),
            OscConfiguration::Unisono(os, _) => os.set_age(age),
            OscConfiguration::Inverse(oss, _) => at3_mut(oss, i).set_age(age),
        }
        proof {
            assert(self@.oscs =~= old(self)@.oscs.update(
                i as int,
                old(self)@.oscs[i as int].with_age(age as int),
            ));
            assert(self@.spares =~= old(self)@.spares);
        }
    }

    /// Makes oscillator `i` sound `note`.
    fn set_note_at(&mut self, i: u8, note: u8)
        requires
            i < old(self)@.oscs.len(),
        ensures
            final(self)@ == old(self)@.with_oscs(
                old(self)@.oscs.update(i as int, old(self)@.oscs[i as int].assigned(note)),
            ),
    {
        match self {
            OscConfiguration::Single(oss) => at6_mut(oss, i).set_note(note),
            OscConfiguration::Unisono(os, _) => os.set_note(note),
            OscConfiguration::Inverse(oss, _) => at3_mut(oss, i).set_note(note),
        }
        proof {
            assert(self@.oscs =~= old(self)@.oscs.update(
                i as int,
                old(self)@.oscs[i as int].assigned(note),
            ));
            assert(self@.spares =~= old(self)@.spares);
        }
    }

    /// Silences oscillator `i`.
    fn stop_at(&mut self, i: u8)
        requires
            i < old(self)@.oscs.len(),
        ensures
            final(self)@ == old(self)@.with_oscs(
                old(self)@.oscs.update(i as int, old(self)@.oscs[i as int].stopped()),
            ),
    {
        match self {
            OscConfiguration::Single(oss) => at6_mut(oss, i).stop(),
            OscConfiguration::Unisono(os, _) => os.stop(),
            OscConfiguration::Inverse(oss, _) => at3_mut(oss, i).stop(),
        }
        proof {
            assert(self@.oscs =~= old(self)@.oscs.update(
                i as int,
                old(self)@.oscs[i as int].stopped(),
            ));
            assert(self@.spares =~= old(self)@.spares);
        }
    }

    /// Moves the rank of every oscillator by `rule`.
    fn for_each(&mut self, rule: Rerank)
        requires
            forall|i: int|
                0 <= i < old(self)@.oscs.len() ==> 0 <= (#[trigger] rule.applied(
                    old(self)@.oscs[i],
                )).age <= u8::MAX,
        ensures
            final(self)@ == old(self)@.with_oscs(
                old(self)@.oscs.map_values(|o: OscState| rule.applied(o)),
            ),
    {
        let ghost before = self@;
        let count = self.oscillator_count();
        let mut i: u8 = 0;
        while i < count
            invariant
                i <= count,
                count == before.oscs.len(),
                self@.topology == before.topology,
                self@.spares == before.spares,
                self@.oscs.len() == count,
                forall|j: int| 0 <= j < i ==> self@.oscs[j] == rule.applied(before.oscs[j]),
                forall|j: int| i <= j < count ==> self@.oscs[j] == before.oscs[j],
                forall|j: int|
                    0 <= j < before.oscs.len() ==> 0 <= (#[trigger] rule.applied(
                        before.oscs[j],
                    )).age <= u8::MAX,
            decreases count - i,
        {
            proof {
                self.lemma_shaped();
            }
            let ghost o = before.oscs[i as int];
            assert(0 <= rule.applied(o).age <= u8::MAX);
            if let Some(osc_note) = self.get_note_at(i) {
                let age = self.get_age_at(i);
                match rule {
                    Rerank::Retrigger { note, active_age } => {
                        if age < active_age {
                            self.set_age_at(i, age + 1);
                        } else if osc_note == note {
                            self.set_age_at(i, 0);
                        }
                    },
                    Rerank::Allocate { note } => {
                        if osc_note == note {
                            self.set_age_at(i, 0);
                        } else {
                            self.set_age_at(i, age + 1);
                        }
                    },
                    Rerank::Release { note, active_age } => {
                        if osc_note == note {
                            self.set_age_at(i, 0);
                        } else if age > active_age {
                            self.set_age_at(i, age - 1);
                        }
                    },
                }
            }
            assert(self@.oscs[i as int] == rule.applied(o));
            i += 1;
        }
        proof {
            assert(self@.oscs =~= before.oscs.map_values(|o: OscState| rule.applied(o)));
        }
    }

    /// Position of the first oscillator that `probe` admits, none if there
    /// is no such oscillator.
    fn find(&self, probe: Probe) -> (r: Option<u8>)
        ensures
            match r {
                Some(i) => first_match(self@.oscs, probe) == i,
                None => first_match(self@.oscs, probe) == -1,
            },
    {
        let count = self.oscillator_count();
        let mut i: u8 = 0;
        while i < count
            invariant
                i <= count,
                count == self@.oscs.len(),
                first_match(self@.oscs, probe) == first_from(self@.oscs, probe, i as int),
            decreases count - i,
        {
            let note = self.get_note_at(i);
            let age = self.get_age_at(i);
            if probe.test(note, age) {
                return Some(i);
            }
            i += 1;
        }
        None
    }

    /// Number of oscillators in the current topology.
    pub fn oscillator_count(&self) -> (n: u8)
        ensures
            n == self@.oscs.len(),
            n == self@.topology.oscillators(),
    {
        match self {
            OscConfiguration::Single(_) => 6,
            OscConfiguration::Unisono(_, _) => 1,
            OscConfiguration::Inverse(_, _) => 3,
        }
    }

    /// Stops `note`: the oscillator that sounds it is silenced, and the
    /// voices that were older than it move one rank down. A note that does
    /// not sound changes nothing.
    pub fn stop_note(&mut self, note: u8)
        requires
            old(self).wf(),
        ensures
            final(self).wf(),
            final(self)@ == old(self)@.stopped(note),
    {
        proof {
            self.lemma_shaped();
            lemma_stopped_ranked(self@.oscs, note);
            lemma_first_match(self@.oscs, Probe::Holding(note));
        }
        if let Some(i) = self.find(Probe::Holding(note)) {
            let active_age = self.get_age_at(i);
            self.stop_at(i);
            proof {
                let s = old(self)@.oscs;
                assert(sounding(s, i as int));
                lemma_rerank_release(s, i as int, note, active_age);
                let rule = Rerank::Release { note, active_age };
                assert forall|j: int| 0 <= j < self@.oscs.len() implies 0 <= (
                #[trigger] rule.applied(self@.oscs[j])).age <= u8::MAX by {
                    old(self).lemma_shaped();
                }
            }
            self.for_each(Rerank::Release { note, active_age });
        }
        proof {
            self.lemma_shaped();
        }
    }

    /// Plays `note`.
    ///
    /// If an oscillator sounds `note` already, it is struck again: its slice
    /// is set anew, it goes to rank 0, and the voices that were more recent
    /// move one rank up. Otherwise the first free oscillator takes the note
    /// at rank 0 and every other voice moves one rank up. With no oscillator
    /// free, the voice left alone for longest is taken over: the oscillator
    /// of largest rank drops its note for the new one at rank 0, and every
    /// other voice moves one rank up.
    pub fn play_note(&mut self, note: u8)
        requires
            old(self).wf(),
        ensures
            final(self).wf(),
            final(self)@ == old(self)@.played(note),
    {
        let ghost s = self@.oscs;
        proof {
            self.lemma_shaped();
            lemma_played_ranked(s, note);
            lemma_count_bound(s);
            lemma_first_match(s, Probe::Holding(note));
            lemma_first_match(s, Probe::Free);
            lemma_first_match(s, Probe::Aged(steal_rank(s)));
        }
        if let Some(i) = self.find(Probe::Holding(note)) {
            // Struck again.
            let active_age = self.get_age_at(i);
            self.set_note_at(i, note);
            proof {
                assert(sounding(s, i as int));
                lemma_rerank_retrigger(s, i as int, note, active_age);
                let rule = Rerank::Retrigger { note, active_age };
                assert forall|j: int| 0 <= j < self@.oscs.len() implies 0 <= (
                #[trigger] rule.applied(self@.oscs[j])).age <= u8::MAX by {
                    if j != i && s[j].note is Some {
                        assert(sounding(s, j));
                    }
                }
            }
            self.for_each(Rerank::Retrigger { note, active_age });
            proof {
                self.lemma_shaped();
            }
            return ;
        }
        if let Some(i) = self.find(Probe::Free) {
            self.set_note_at(i, note);
            proof {
                lemma_rerank_allocate(s, i as int, note);
                let rule = Rerank::Allocate { note };
                assert forall|j: int| 0 <= j < self@.oscs.len() implies 0 <= (
                #[trigger] rule.applied(self@.oscs[j])).age <= u8::MAX by {
                    if j != i && s[j].note is Some {
                        assert(sounding(s, j));
                    }
                }
            }
            self.for_each(Rerank::Allocate { note });
            proof {
                self.lemma_shaped();
            }
            return ;
        }
        // Every oscillator sounds: the one of largest rank gives way.
        let oldest_rank = self.oscillator_count() - 1;
        if let Some(i) = self.find(Probe::Aged(oldest_rank)) {
            self.set_note_at(i, note);
            proof {
                lemma_oldest(s);
                lemma_rerank_allocate(s, i as int, note);
                let rule = Rerank::Allocate { note };
                assert forall|j: int| 0 <= j < self@.oscs.len() implies 0 <= (
                #[trigger] rule.applied(self@.oscs[j])).age <= u8::MAX by {
                    if j != i && s[j].note is Some {
                        assert(sounding(s, j));
                    }
                }
            }
            self.for_each(Rerank::Allocate { note });
            proof {
                self.lemma_shaped();
            }
        }
    }

    /// Whether any oscillator sounds a note.
    pub fn any_sounding(&self) -> (r: bool)
        ensures
            r == self@.sounds(),
    {
        proof {
            lemma_first_match(self@.oscs, Probe::Sounding);
        }
        match self.find(Probe::Sounding) {
            Some(i) => {
                assert(sounding(self@.oscs, i as int));
                true
            },
            None => {
                assert forall|i: int| !sounding(self@.oscs, i) by {
                    if 0 <= i < self@.oscs.len() {
                        assert(!Probe::Sounding.admits(self@.oscs[i].note, self@.oscs[i].age));
                    }
                }
                false
            },
        }
    }

    /// Records that slice `k`, counted in the order of the wiring, has
    /// wrapped. A number beyond the last slice changes nothing.
    pub fn raise_overflow(&mut self, k: u8)
        ensures
            final(self)@ == old(self)@.overflown(k as int),
            old(self).wf() ==> final(self).wf(),
    {
        proof {
            self.lemma_shaped();
        }
        if k < HARDWARE_COUNT {
            match self {
                OscConfiguration::Single(oss) => at6_mut(oss, k).raise_overflow(),
                OscConfiguration::Unisono(os, spares) => {
                    if k < 1 {
                        os.raise_overflow();
                    } else {
                        at5_mut(spares, k - 1).raise_overflow();
                    }
                },
                OscConfiguration::Inverse(oss, spares) => {
                    if k < 3 {
                        at3_mut(oss, k).raise_overflow();
                    } else {
                        at3_mut(spares, k - 3).raise_overflow();
                    }
                },
            }
        }
        proof {
            let target = old(self)@.overflown(k as int);
            assert(self@.oscs =~= target.oscs);
            assert(self@.spares =~= target.spares);
            self.lemma_shaped();
            if old(self).wf() {
                lemma_ranked_same_voices(old(self)@.oscs, self@.oscs);
            }
        }
    }

    /// Slice `k`, counted in the order of the wiring; none beyond the last
    /// slice.
    pub fn slice(&self, k: u8) -> (r: Option<&PwmSlice>)
        ensures
            r is Some <==> k < HARDWARE_COUNT,
            r matches Some(s) ==> s@ == self@.slices()[k as int],
    {
        if k >= HARDWARE_COUNT {
            return None;
        }
        match self {
            OscConfiguration::Single(oss) => Some(at6(oss, k).pwm_slice()),
            OscConfiguration::Unisono(os, spares) => {
                if k < 1 {
                    Some(os.pwm_slice())
                } else {
                    Some(at5(spares, k - 1))
                }
            },
            OscConfiguration::Inverse(oss, spares) => {
                if k < 3 {
                    Some(at3(oss, k).pwm_slice())
                } else {
                    Some(at3(spares, k - 3))
                }
            },
        }
    }

    /// Drive `k`, counted in the order of the wiring; none beyond the last
    /// drive.
    pub fn floppy(&self, k: u8) -> (r: Option<&FloppyImpl>)
        ensures
            r is Some <==> k < HARDWARE_COUNT,
            r matches Some(f) ==> f@ == self@.floppies()[k as int],
    {
        if k >= HARDWARE_COUNT {
            return None;
        }
        proof {
            self.lemma_shaped();
        }
        match self {
            OscConfiguration::Single(oss) => Some(at6(oss, k).floppy()),
            OscConfiguration::Unisono(os, _) => Some(os.floppy(k)),
            OscConfiguration::Inverse(oss, _) => Some(at3(oss, k / 2).floppy(k % 2)),
        }
    }

    /// Services a timer interrupt: every oscillator tests its own slice,
    /// and where that has overflown clears the flag and steps its drives.
    pub fn handle_interrupt(&mut self)
        ensures
            final(self)@ == old(self)@.serviced(),
            old(self).wf() ==> final(self).wf(),
    {
        match self {
            OscConfiguration::Single(oss) => {
                oss.0.handle_interrupt();
                oss.1.handle_interrupt();
                oss.2.handle_interrupt();
                oss.3.handle_interrupt();
                oss.4.handle_interrupt();
                oss.5.handle_interrupt();
            },
            OscConfiguration::Unisono(os, _) => {
                os.handle_interrupt();
            },
            OscConfiguration::Inverse(oss, _) => {
                oss.0.handle_interrupt();
                oss.1.handle_interrupt();
                oss.2.handle_interrupt();
            },
        }
        proof {
            assert(self@.oscs =~= old(self)@.serviced().oscs);
            assert(self@.spares =~= old(self)@.spares);
            self.lemma_shaped();
            if old(self).wf() {
                lemma_ranked_same_voices(old(self)@.oscs, self@.oscs);
            }
        }
    }

    /// Binds the slices and drives one to one: oscillator `k` gets slice
    /// `k` and drive `k`.
    pub fn new_single(slices: OscSlices, floppies: Floppies) -> (c: OscConfiguration)
        ensures
            c@ == BankState::bound(Topology::Single, slices@, floppies@),
            c.wf(),
    {
        let c = OscConfiguration::Single(
            (
                SingleOscillator::new(slices.0, floppies.0),
                SingleOscillator::new(slices.1, floppies.1),
                SingleOscillator::new(slices.2, floppies.2),
                SingleOscillator::new(slices.3, floppies.3),
                SingleOscillator::new(slices.4, floppies.4),
                SingleOscillator::new(slices.5, floppies.5),
            ),
        );
        proof {
            let b = BankState::bound(Topology::Single, slices@, floppies@);
            lemma_bound(Topology::Single, slices@, floppies@);
            assert(c@.oscs =~= b.oscs);
            assert(c@.spares =~= b.spares);
        }
        c
    }

    /// Binds slice 0 to all six drives; slices 1 to 5 are spare.
    pub fn new_unisono(slices: OscSlices, floppies: Floppies) -> (c: OscConfiguration)
        ensures
            c@ == BankState::bound(Topology::Unisono, slices@, floppies@),
            c.wf(),
    {
        let ghost drives = floppies@;
        let c = OscConfiguration::Unisono(
            UnisonoOscillator::new(slices.0, floppies),
            (slices.1, slices.2, slices.3, slices.4, slices.5),
        );
        proof {
            let b = BankState::bound(Topology::Unisono, slices@, drives);
            lemma_bound(Topology::Unisono, slices@, drives);
            assert(c@.oscs =~= b.oscs);
            assert(c@.spares =~= b.spares);
        }
        c
    }

    /// Binds slice `k` to drives `2k` and `2k + 1`, for `k` from 0 to 2;
    /// slices 3 to 5 are spare.
    pub fn new_inverse(slices: OscSlices, floppies: Floppies) -> (c: OscConfiguration)
        ensures
            c@ == BankState::bound(Topology::Inverse, slices@, floppies@),
            c.wf(),
    {
        let c = OscConfiguration::Inverse(
            (
                InverseOscillator::new(slices.0, (floppies.0, floppies.1)),
                InverseOscillator::new(slices.1, (floppies.2, floppies.3)),
                InverseOscillator::new(slices.2, (floppies.4, floppies.5)),
            ),
            (slices.3, slices.4, slices.5),
        );
        proof {
            let b = BankState::bound(Topology::Inverse, slices@, floppies@);
            lemma_bound(Topology::Inverse, slices@, floppies@);
            assert(c@.oscs =~= b.oscs);
            assert(c@.spares =~= b.spares);
        }
        c
    }
}

/// The bank as the interrupt handler and the main loop share it: empty
/// until the hardware has been handed over.
pub struct Oscillators {
    pub config: Option<OscConfiguration>,
}

impl View for Oscillators {
    type V = Option<BankState>;

    open spec fn view(&self) -> Option<BankState> {
        match self.config {
            Some(config) => Some(config@),
            None => None,
        }
    }
}

/// Whether there is a bank and one of its oscillators sounds a note.
pub open spec fn sounds(bank: Option<BankState>) -> bool {
    match bank {
        Some(b) => b.sounds(),
        None => false,
    }
}

/// The bank after a change of topology, if there is a bank.
pub open spec fn switched(bank: Option<BankState>, topology: Topology) -> Option<BankState> {
    match bank {
        Some(b) => Some(b.rebound(topology)),
        None => None,
    }
}

impl Oscillators {
    /// Whether the bank, if there is one, keeps the rule of the ranks.
    pub open spec fn wf(&self) -> bool {
        match self.config {
            Some(config) => config.wf(),
            None => true,
        }
    }

    /// Whether there is a bank and one of its oscillators sounds a note.
    pub fn any_sounding(&self) -> (r: bool)
        ensures
            r == sounds(self@),
    {
        match &self.config {
            Some(config) => config.any_sounding(),
            None => false,
        }
    }

    /// Services a timer interrupt, if there is a bank.
    pub fn handle_interrupt(&mut self)
        ensures
            final(self)@ == match old(self)@ {
                Some(b) => Some(b.serviced()),
                None => None,
            },
            old(self).wf() ==> final(self).wf(),
    {
        if let Some(config) = &mut self.config {
            config.handle_interrupt();
        }
    }

    /// Takes over the hardware, bound one to one.
    pub fn init(&mut self, floppies: Floppies, slices: OscSlices)
        ensures
            final(self)@ == Some(BankState::bound(Topology::Single, slices@, floppies@)),
            final(self).wf(),
    {
        self.config = Some(OscConfiguration::new_single(slices, floppies))
    }

    /// Takes over a bank.
    pub fn init_with_config(&mut self, config: OscConfiguration)
        ensures
            final(self).config == Some(config),
            config.wf() ==> final(self).wf(),
    {
        self.config = Some(config);
    }

    /// Changes to one oscillator for each drive. Every note falls silent.
    pub fn to_single(&mut self)
        ensures
            final(self)@ == switched(old(self)@, Topology::Single),
            final(self).wf(),
    {
        if let Some(config) = self.config.take() {
            let (slices, floppies) = config.free();
            self.config = Some(OscConfiguration::new_single(slices, floppies))
        }
    }

    /// Changes to one oscillator for all drives. Every note falls silent.
    pub fn to_unisono(&mut self)
        ensures
            final(self)@ == switched(old(self)@, Topology::Unisono),
            final(self).wf(),
    {
        if let Some(config) = self.config.take() {
            let (slices, floppies) = config.free();
            self.config = Some(OscConfiguration::new_unisono(slices, floppies))
        }
    }

    /// Changes to one oscillator for each pair of drives. Every note falls
    /// silent.
    pub fn to_inverse(&mut self)
        ensures
            final(self)@ == switched(old(self)@, Topology::Inverse),
            final(self).wf(),
    {
        if let Some(config) = self.config.take() {
            let (slices, floppies) = config.free();
            self.config = Some(OscConfiguration::new_inverse(slices, floppies))
        }
    }
}


} // verus!
