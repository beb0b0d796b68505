//! The bank as mathematics: how the six slices and six drives are shared out
//! between oscillators and spares in each topology, and what a change of
//! topology does.
//!
//! Slices and drives are numbered 0 to 5 in the order of their wiring. In
//! every topology oscillator `k` holds slice `k`, and the slices that no
//! oscillator holds are spare:
//!
//! | topology | oscillators | drives of oscillator `k` | spare slices |
//! |----------|-------------|--------------------------|--------------|
//! | Single   | 6           | `k`                      | none         |
//! | Inverse  | 3           | `2k`, `2k + 1`           | 3, 4, 5      |
//! | Unisono  | 1           | 0 to 5                   | 1 to 5       |

use vstd::prelude::*;

use crate::floppy::DriveState;
use crate::oscillators::ranking::count_sounding;
use crate::oscillators::ranking::lemma_first_match;
use crate::oscillators::ranking::lemma_silent_ranked;
use crate::oscillators::ranking::note_played;
use crate::oscillators::ranking::note_stopped;
use crate::oscillators::ranking::ranked;
use crate::oscillators::ranking::some_sounding;
use crate::oscillators::ranking::steal_rank;
use crate::oscillators::ranking::Probe;
use crate::oscillators::OscState;
use crate::pwm::SliceState;

verus! {

/// Number of slices, and of drives, that the bank owns.
pub const HARDWARE_COUNT: u8 = 6;

/// How slices are wired to drives.
#[derive(Clone, Copy, PartialEq, Eq, Structural, Debug)]
pub enum Topology {
    /// One slice for each drive.
    Single,
    /// One slice for each pair of drives.
    Inverse,
    /// One slice for all drives.
    Unisono,
}

impl Topology {
    /// Number of oscillators.
    pub open spec fn oscillators(self) -> int {
        match self {
            Topology::Single => 6,
            Topology::Inverse => 3,
            Topology::Unisono => 1,
        }
    }

    /// Number of drives that each oscillator steps.
    pub open spec fn drives_each(self) -> int {
        match self {
            Topology::Single => 1,
            Topology::Inverse => 2,
            Topology::Unisono => 6,
        }
    }
}

/// What the bank is, as mathematics.
pub struct BankState {
    pub topology: Topology,
    /// The oscillators, in the order of their slices.
    pub oscs: Seq<OscState>,
    /// The slices that no oscillator holds, in the order of their wiring.
    pub spares: Seq<SliceState>,
}

impl BankState {
    /// Whether the bank has the oscillators, drives and spares of its
    /// topology.
    pub open spec fn shaped(self) -> bool {
        &&& self.oscs.len() == self.topology.oscillators()
        &&& self.spares.len() == HARDWARE_COUNT - self.topology.oscillators()
        &&& forall|i: int|
            0 <= i < self.oscs.len() ==> (#[trigger] self.oscs[i]).floppies.len()
                == self.topology.drives_each()
    }

    /// Whether the bank has the shape of its topology and keeps the rule of
    /// the ranks.
    pub open spec fn valid(self) -> bool {
        self.shaped() && ranked(self.oscs)
    }

    /// The same bank with other oscillators.
    pub open spec fn with_oscs(self, oscs: Seq<OscState>) -> BankState {
        BankState { oscs, ..self }
    }

    /// The six slices in the order of their wiring: those of the
    /// oscillators, then the spares.
    pub open spec fn slices(self) -> Seq<SliceState> {
        Seq::new(
            HARDWARE_COUNT as nat,
            |k: int|
                if k < self.oscs.len() {
                    self.oscs[k].slice
                } else {
                    self.spares[k - self.oscs.len()]
                },
        )
    }

    /// The six drives in the order of their wiring.
    pub open spec fn floppies(self) -> Seq<DriveState> {
        let o = self.oscs;
        match self.topology {
            Topology::Single => seq![
                o[0].floppies[0],
                o[1].floppies[0],
                o[2].floppies[0],
                o[3].floppies[0],
                o[4].floppies[0],
                o[5].floppies[0],
            ],
            Topology::Inverse => seq![
                o[0].floppies[0],
                o[0].floppies[1],
                o[1].floppies[0],
                o[1].floppies[1],
                o[2].floppies[0],
                o[2].floppies[1],
            ],
            Topology::Unisono => Seq::new(HARDWARE_COUNT as nat, |k: int| o[0].floppies[k]),
        }
    }

    /// The numbers of the six slices, in the order of their wiring.
    pub open spec fn slice_channels(self) -> Seq<u8> {
        self.slices().map_values(|s: SliceState| s.channel)
    }

    /// The outputs of the six drives, in the order of their wiring.
    pub open spec fn floppy_pins(self) -> Seq<(u8, u8, u8)> {
        self.floppies().map_values(|d: DriveState| d.pins())
    }

    /// Whether some oscillator sounds a note.
    pub open spec fn sounds(self) -> bool {
        some_sounding(self.oscs)
    }

    /// Whether no oscillator sounds a note.
    pub open spec fn silent(self) -> bool {
        forall|i: int| 0 <= i < self.oscs.len() ==> (#[trigger] self.oscs[i]).note is None
    }

    /// Whether no drive is enabled.
    pub open spec fn all_disabled(self) -> bool {
        forall|k: int| 0 <= k < HARDWARE_COUNT ==> !(#[trigger] self.floppies()[k]).enabled
    }

    /// The bank after `note` has been played.
    pub open spec fn played(self, note: u8) -> BankState {
        self.with_oscs(note_played(self.oscs, note))
    }

    /// The bank after `note` has been stopped.
    pub open spec fn stopped(self, note: u8) -> BankState {
        self.with_oscs(note_stopped(self.oscs, note))
    }

    /// The bank after slice `k` has wrapped: its overflow flag is up. A
    /// number beyond the last slice changes nothing.
    pub open spec fn overflown(self, k: int) -> BankState {
        if 0 <= k < self.oscs.len() {
            self.with_oscs(self.oscs.update(k, self.oscs[k].overflown()))
        } else if self.oscs.len() <= k < self.oscs.len() + self.spares.len() {
            let j = k - self.oscs.len();
            BankState {
                spares: self.spares.update(j, SliceState { overflown: true, ..self.spares[j] }),
                ..self
            }
        } else {
            self
        }
    }

    /// The bank after a timer interrupt: every oscillator has serviced its
    /// own slice, in the way of the topology. The spares are left alone.
    pub open spec fn serviced(self) -> BankState {
        self.with_oscs(
            self.oscs.map_values(
                |o: OscState|
                    match self.topology {
                        Topology::Inverse => o.serviced_inverse(),
                        _ => o.serviced_together(),
                    },
            ),
        )
    }

    /// The bank with every oscillator silenced.
    pub open spec fn quiet(self) -> BankState {
        self.with_oscs(self.oscs.map_values(|o: OscState| o.stopped()))
    }

    /// Six slices and six drives bound into a topology, every oscillator
    /// free. In `Single` and `Inverse` the slice of each oscillator is
    /// armed; in `Unisono` it is taken as it is.
    pub open spec fn bound(
        topology: Topology,
        slices: Seq<SliceState>,
        floppies: Seq<DriveState>,
    ) -> BankState {
        let s = slices;
        let f = floppies;
        match topology {
            Topology::Single => BankState {
                topology,
                oscs: seq![
                    OscState::idle(s[0].armed(), seq![f[0]]),
                    OscState::idle(s[1].armed(), seq![f[1]]),
                    OscState::idle(s[2].armed(), seq![f[2]]),
                    OscState::idle(s[3].armed(), seq![f[3]]),
                    OscState::idle(s[4].armed(), seq![f[4]]),
                    OscState::idle(s[5].armed(), seq![f[5]]),
                ],
                spares: Seq::empty(),
            },
            Topology::Inverse => BankState {
                topology,
                oscs: seq![
                    OscState::idle(s[0].armed(), seq![f[0], f[1]]),
                    OscState::idle(s[1].armed(), seq![f[2], f[3]]),
                    OscState::idle(s[2].armed(), seq![f[4], f[5]]),
                ],
                spares: seq![s[3], s[4], s[5]],
            },
            Topology::Unisono => BankState {
                topology,
                oscs: seq![OscState::idle(s[0], f)],
                spares: seq![s[1], s[2], s[3], s[4], s[5]],
            },
        }
    }

    /// The bank after a change of topology: every oscillator is silenced,
    /// and the slices and drives are bound anew.
    pub open spec fn rebound(self, topology: Topology) -> BankState {
        BankState::bound(topology, self.quiet().slices(), self.quiet().floppies())
    }
}

proof fn lemma_bound_single(slices: Seq<SliceState>, floppies: Seq<DriveState>)
    requires
        slices.len() == HARDWARE_COUNT,
        floppies.len() == HARDWARE_COUNT,
    ensures
        ({
            let b = BankState::bound(Topology::Single, slices, floppies);
            &&& b.shaped()
            &&& b.silent()
            &&& b.floppies() == floppies
            &&& b.slice_channels() == slices.map_values(|s: SliceState| s.channel)
        }),
{
    let b = BankState::bound(Topology::Single, slices, floppies);
    assert(b.floppies() =~= floppies);
    assert(b.slice_channels() =~= slices.map_values(|s: SliceState| s.channel));
}

proof fn lemma_bound_inverse(slices: Seq<SliceState>, floppies: Seq<DriveState>)
    requires
        slices.len() == HARDWARE_COUNT,
        floppies.len() == HARDWARE_COUNT,
    ensures
        ({
            let b = BankState::bound(Topology::Inverse, slices, floppies);
            &&& b.shaped()
            &&& b.silent()
            &&& b.floppies() == floppies
            &&& b.slice_channels() == slices.map_values(|s: SliceState| s.channel)
        }),
{
    let b = BankState::bound(Topology::Inverse, slices, floppies);
    assert(b.floppies() =~= floppies);
    assert(b.slice_channels() =~= slices.map_values(|s: SliceState| s.channel));
}

proof fn lemma_bound_unisono(slices: Seq<SliceState>, floppies: Seq<DriveState>)
    requires
        slices.len() == HARDWARE_COUNT,
        floppies.len() == HARDWARE_COUNT,
    ensures
        ({
            let b = BankState::bound(Topology::Unisono, slices, floppies);
            &&& b.shaped()
            &&& b.silent()
            &&& b.floppies() == floppies
            &&& b.slice_channels() == slices.map_values(|s: SliceState| s.channel)
        }),
{
    let b = BankState::bound(Topology::Unisono, slices, floppies);
    assert(b.floppies() =~= floppies);
    assert(b.slice_channels() =~= slices.map_values(|s: SliceState| s.channel));
}

/// Binding six slices and six drives gives a silent bank of the shape of
/// its topology, which holds those slices and those drives in the order of
/// their wiring.
pub proof fn lemma_bound(topology: Topology, slices: Seq<SliceState>, floppies: Seq<DriveState>)
    requires
        slices.len() == HARDWARE_COUNT,
        floppies.len() == HARDWARE_COUNT,
    ensures
        ({
            let b = BankState::bound(topology, slices, floppies);
            &&& b.topology == topology
            &&& b.valid()
            &&& b.silent()
            &&& b.floppies() == floppies
            &&& b.slice_channels() == slices.map_values(|s: SliceState| s.channel)
            &&& count_sounding(b.oscs) == 0
        }),
{
    match topology {
        Topology::Single => lemma_bound_single(slices, floppies),
        Topology::Inverse => lemma_bound_inverse(slices, floppies),
        Topology::Unisono => lemma_bound_unisono(slices, floppies),
    }
    lemma_silent_ranked(BankState::bound(topology, slices, floppies).oscs);
}

/// Silencing every oscillator leaves a silent bank of the same shape with
/// every drive disabled, which holds the same slices and the same drives.
pub proof fn lemma_quiet(b: BankState)
    requires
        b.shaped(),
    ensures
        b.quiet().topology == b.topology,
        b.quiet().valid(),
        b.quiet().silent(),
        b.quiet().all_disabled(),
        b.quiet().slice_channels() == b.slice_channels(),
        b.quiet().floppy_pins() == b.floppy_pins(),
{
    let q = b.quiet();
    lemma_silent_ranked(q.oscs);
    assert(q.slice_channels() =~= b.slice_channels());
    assert(q.floppy_pins() =~= b.floppy_pins());
}

/// A change of topology loses and doubles nothing: the new bank holds the
/// same six slices and the same six drives, in the order of their wiring.
/// After it no note sounds and no drive is enabled.
pub proof fn lemma_rebound(b: BankState, topology: Topology)
    requires
        b.shaped(),
    ensures
        b.rebound(topology).topology == topology,
        b.rebound(topology).valid(),
        b.rebound(topology).silent(),
        b.rebound(topology).all_disabled(),
        b.rebound(topology).slice_channels() == b.slice_channels(),
        b.rebound(topology).floppy_pins() == b.floppy_pins(),
{
    let q = b.quiet();
    lemma_quiet(b);
    lemma_bound(topology, q.slices(), q.floppies());
    let r = b.rebound(topology);
    assert(r.floppies() == q.floppies());
    assert(r.slice_channels() =~= q.slice_channels());
    assert forall|k: int| 0 <= k < HARDWARE_COUNT implies !(#[trigger] r.floppies()[k]).enabled by {
        assert(!q.floppies()[k].enabled);
    }
}

/// From any topology to `Unisono` and on to `Single`: the bank holds the
/// same six slices and the same six drives as before, each oscillator of the
/// `Single` bank holds the slice and the drive of its own number, and after
/// either change no note sounds and no drive is enabled.
pub proof fn lemma_round_trip(b: BankState)
    requires
        b.shaped(),
    ensures
        ({
            let unisono = b.rebound(Topology::Unisono);
            let single = unisono.rebound(Topology::Single);
            &&& unisono.topology == Topology::Unisono
            &&& unisono.valid() && unisono.silent() && unisono.all_disabled()
            &&& unisono.slice_channels() == b.slice_channels()
            &&& unisono.floppy_pins() == b.floppy_pins()
            &&& single.topology == Topology::Single
            &&& single.valid() && single.silent() && single.all_disabled()
            &&& single.slice_channels() == b.slice_channels()
            &&& single.floppy_pins() == b.floppy_pins()
            &&& forall|k: int|
                0 <= k < HARDWARE_COUNT ==> (#[trigger] single.oscs[k]).slice.channel
                    == b.slice_channels()[k] && single.oscs[k].floppies[0].pins()
                    == b.floppy_pins()[k]
        }),
{
    let unisono = b.rebound(Topology::Unisono);
    let single = unisono.rebound(Topology::Single);
    lemma_rebound(b, Topology::Unisono);
    lemma_rebound(unisono, Topology::Single);
    assert forall|k: int| 0 <= k < HARDWARE_COUNT implies (#[trigger] single.oscs[k]).slice.channel
        == b.slice_channels()[k] && single.oscs[k].floppies[0].pins() == b.floppy_pins()[k] by {
        assert(single.slice_channels()[k] == single.slices()[k].channel);
        assert(single.floppy_pins()[k] == single.floppies()[k].pins());
    }
}

/// Whether the oscillators of `t` hold the slices and drives that those of
/// `s` hold, position by position.
pub open spec fn same_hardware(s: Seq<OscState>, t: Seq<OscState>) -> bool {
    &&& t.len() == s.len()
    &&& forall|i: int|
        0 <= i < s.len() ==> (#[trigger] t[i]).slice.channel == s[i].slice.channel
            && t[i].floppies.len() == s[i].floppies.len()
    &&& forall|i: int, j: int|
        0 <= i < s.len() && 0 <= j < s[i].floppies.len() ==> (#[trigger] t[i].floppies[j]).pins()
            == s[i].floppies[j].pins()
}

/// A bank whose oscillators are replaced by others over the same hardware
/// keeps its shape and holds the same slices and the same drives.
pub proof fn lemma_same_hardware(b: BankState, t: Seq<OscState>)
    requires
        b.shaped(),
        same_hardware(b.oscs, t),
    ensures
        b.with_oscs(t).shaped(),
        b.with_oscs(t).slice_channels() == b.slice_channels(),
        b.with_oscs(t).floppy_pins() == b.floppy_pins(),
{
    let c = b.with_oscs(t);
    assert forall|i: int| 0 <= i < c.oscs.len() implies (#[trigger] c.oscs[i]).floppies.len()
        == c.topology.drives_each() by {
        assert(b.oscs[i].floppies.len() == b.topology.drives_each());
    }
    assert forall|k: int| 0 <= k < HARDWARE_COUNT implies c.slices()[k].channel
        == b.slices()[k].channel by {
        if k < b.oscs.len() {
            assert(t[k].slice.channel == b.oscs[k].slice.channel);
        }
    }
    assert(c.slice_channels() =~= b.slice_channels());
    assert forall|k: int| 0 <= k < HARDWARE_COUNT implies c.floppies()[k].pins()
        == b.floppies()[k].pins() by {
        match b.topology {
            Topology::Single => {
                assert(t[k].floppies[0].pins() == b.oscs[k].floppies[0].pins());
            },
            Topology::Inverse => {
                assert(t[0].floppies[0].pins() == b.oscs[0].floppies[0].pins());
                assert(t[0].floppies[1].pins() == b.oscs[0].floppies[1].pins());
                assert(t[1].floppies[0].pins() == b.oscs[1].floppies[0].pins());
                assert(t[1].floppies[1].pins() == b.oscs[1].floppies[1].pins());
                assert(t[2].floppies[0].pins() == b.oscs[2].floppies[0].pins());
                assert(t[2].floppies[1].pins() == b.oscs[2].floppies[1].pins());
            },
            Topology::Unisono => {
                assert(t[0].floppies[k].pins() == b.oscs[0].floppies[k].pins());
            },
        }
    }
    assert(c.floppy_pins() =~= b.floppy_pins());
}

/// Playing a note moves no hardware: the bank keeps its shape and holds the
/// same slices and the same drives.
pub proof fn lemma_played_hardware(b: BankState, note: u8)
    requires
        b.shaped(),
    ensures
        b.played(note).shaped(),
        b.played(note).slice_channels() == b.slice_channels(),
        b.played(note).floppy_pins() == b.floppy_pins(),
{
    let s = b.oscs;
    lemma_first_match(s, Probe::Holding(note));
    lemma_first_match(s, Probe::Free);
    lemma_first_match(s, Probe::Aged(steal_rank(s)));
    assert(same_hardware(s, note_played(s, note)));
    lemma_same_hardware(b, note_played(s, note));
}

/// Stopping a note moves no hardware: the bank keeps its shape and holds
/// the same slices and the same drives.
pub proof fn lemma_stopped_hardware(b: BankState, note: u8)
    requires
        b.shaped(),
    ensures
        b.stopped(note).shaped(),
        b.stopped(note).slice_channels() == b.slice_channels(),
        b.stopped(note).floppy_pins() == b.floppy_pins(),
{
    let s = b.oscs;
    lemma_first_match(s, Probe::Holding(note));
    assert(same_hardware(s, note_stopped(s, note)));
    lemma_same_hardware(b, note_stopped(s, note));
}

/// Servicing an interrupt moves no hardware and touches no note and no
/// rank.
pub proof fn lemma_serviced_hardware(b: BankState)
    requires
        b.shaped(),
    ensures
        b.serviced().shaped(),
        b.serviced().slice_channels() == b.slice_channels(),
        b.serviced().floppy_pins() == b.floppy_pins(),
        forall|i: int|
            0 <= i < b.oscs.len() ==> (#[trigger] b.serviced().oscs[i]).note == b.oscs[i].note
                && b.serviced().oscs[i].age == b.oscs[i].age,
{
    let s = b.oscs;
    let t = b.serviced().oscs;
    assert forall|i: int| 0 <= i < s.len() implies (#[trigger] t[i]).slice.channel
        == s[i].slice.channel && t[i].floppies.len() == s[i].floppies.len() by {
        assert(s[i].floppies.len() == b.topology.drives_each());
    }
    assert forall|i: int, j: int| 0 <= i < s.len() && 0 <= j < s[i].floppies.len() implies (
    #[trigger] t[i].floppies[j]).pins() == s[i].floppies[j].pins() by {
        assert(s[i].floppies.len() == b.topology.drives_each());
    }
    lemma_same_hardware(b, t);
}

/// Each oscillator services its own slice only: one whose flag is down is
/// left as it is, one whose flag is up has it cleared and keeps its note, its
/// rank and the other registers of its slice, and no spare slice is touched.
pub proof fn lemma_serviced_own_slice(b: BankState)
    requires
        b.shaped(),
    ensures
        b.serviced().spares == b.spares,
        b.serviced().topology == b.topology,
        b.serviced().oscs.len() == b.oscs.len(),
        forall|i: int|
            0 <= i < b.oscs.len() && !b.oscs[i].slice.overflown ==> (
            #[trigger] b.serviced().oscs[i]) == b.oscs[i],
        forall|i: int|
            0 <= i < b.oscs.len() ==> (#[trigger] b.serviced().oscs[i]).slice == (SliceState {
                overflown: false,
                ..b.oscs[i].slice
            }),
{
}

/// Raising an overflow flag moves no hardware and touches no note and no
/// rank.
pub proof fn lemma_overflown_hardware(b: BankState, k: int)
    requires
        b.shaped(),
    ensures
        b.overflown(k).shaped(),
        b.overflown(k).slice_channels() == b.slice_channels(),
        b.overflown(k).floppy_pins() == b.floppy_pins(),
        b.overflown(k).oscs.len() == b.oscs.len(),
        forall|i: int|
            0 <= i < b.oscs.len() ==> (#[trigger] b.overflown(k).oscs[i]).note == b.oscs[i].note
                && b.overflown(k).oscs[i].age == b.oscs[i].age,
{
    let c = b.overflown(k);
    if 0 <= k < b.oscs.len() {
        assert(same_hardware(b.oscs, c.oscs));
        lemma_same_hardware(b, c.oscs);
    } else {
        assert(c.oscs == b.oscs);
        assert(c.floppy_pins() =~= b.floppy_pins());
        assert forall|i: int| 0 <= i < HARDWARE_COUNT implies c.slices()[i].channel
            == b.slices()[i].channel by {}
        assert(c.slice_channels() =~= b.slice_channels());
    }
}

} // verus!
