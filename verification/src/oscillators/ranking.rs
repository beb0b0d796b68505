//! Voice allocation as mathematics: which oscillator a note goes to, and how
//! the ranks by recency move when a note is played or stopped.
//!
//! Among the sounding oscillators the ranks are `0, 1, .., m - 1`, each once,
//! where `m` is the number of sounding oscillators: 0 is the voice touched
//! last, `m - 1` the one left alone for longest. Playing and stopping keep it
//! so. A note that finds every oscillator taken goes to the one left alone
//! for longest.

use vstd::prelude::*;

use crate::oscillators::OscState;

verus! {

/// What to look for in an oscillator.
#[derive(Clone, Copy, Debug)]
pub enum Probe {
    /// It sounds this note.
    Holding(u8),
    /// It sounds no note.
    Free,
    /// It sounds some note.
    Sounding,
    /// Its rank is at least this.
    Aged(u8),
}

impl Probe {
    /// Whether an oscillator with this note and rank is what is looked for.
    pub open spec fn admits(self, note: Option<u8>, age: int) -> bool {
        match self {
            Probe::Holding(wanted) => note == Some(wanted),
            Probe::Free => note is None,
            Probe::Sounding => note is Some,
            Probe::Aged(least) => age >= least,
        }
    }

    /// Whether an oscillator with this note and rank is what is looked for.
    pub fn test(&self, note: Option<u8>, age: u8) -> (r: bool)
        ensures
            r == self.admits(note, age as int),
    {
        match self {
            Probe::Holding(wanted) => match note {
                Some(n) => n == *wanted,
                None => false,
            },
            Probe::Free => note.is_none(),
            Probe::Sounding => note.is_some(),
            Probe::Aged(least) => age >= *least,
        }
    }
}

/// How the rank of an oscillator moves when a note is played or stopped
/// elsewhere in the bank. A free oscillator is never touched.
#[derive(Clone, Copy, Debug)]
pub enum Rerank {
    /// `note` was struck again on the oscillator that had rank `active_age`:
    /// the more recent voices move one rank up, the one that sounds `note`
    /// goes to rank 0.
    Retrigger { note: u8, active_age: u8 },
    /// `note` was given to an oscillator: that one goes to rank 0, every
    /// other voice moves one rank up.
    Allocate { note: u8 },
    /// `note` was stopped on the oscillator that had rank `active_age`: the
    /// older voices move one rank down.
    Release { note: u8, active_age: u8 },
}

impl Rerank {
    /// The oscillator after the move.
    pub open spec fn applied(self, o: OscState) -> OscState {
        match o.note {
            None => o,
            Some(osc_note) => match self {
                Rerank::Retrigger { note, active_age } => if o.age < active_age {
                    o.with_age(o.age + 1)
                } else if osc_note == note {
                    o.with_age(0)
                } else {
                    o
                },
                Rerank::Allocate { note } => if osc_note == note {
                    o.with_age(0)
                } else {
                    o.with_age(o.age + 1)
                },
                Rerank::Release { note, active_age } => if osc_note == note {
                    o.with_age(0)
                } else if o.age > active_age {
                    o.with_age(o.age - 1)
                } else {
                    o
                },
            },
        }
    }
}

/// Position of the first oscillator at or after `from` that `probe` admits,
/// or -1 if there is none.
pub open spec fn first_from(s: Seq<OscState>, probe: Probe, from: int) -> int
    decreases s.len() - from,
{
    if from < 0 || from >= s.len() {
        -1
    } else if probe.admits(s[from].note, s[from].age) {
        from
    } else {
        first_from(s, probe, from + 1)
    }
}

/// Position of the first oscillator that `probe` admits, or -1 if there is
/// none.
pub open spec fn first_match(s: Seq<OscState>, probe: Probe) -> int {
    first_from(s, probe, 0)
}

/// Whether position `i` holds a sounding oscillator.
pub open spec fn sounding(s: Seq<OscState>, i: int) -> bool {
    0 <= i < s.len() && s[i].note is Some
}

/// Number of sounding oscillators.
pub open spec fn count_sounding(s: Seq<OscState>) -> nat
    decreases s.len(),
{
    if s.len() == 0 {
        0
    } else {
        count_sounding(s.drop_last()) + if s.last().note is Some {
            1nat
        } else {
            0nat
        }
    }
}

/// Whether some sounding oscillator has rank `r`.
pub open spec fn has_rank(s: Seq<OscState>, r: int) -> bool {
    exists|i: int| #[trigger] sounding(s, i) && s[i].age == r
}

/// Whether any oscillator sounds.
pub open spec fn some_sounding(s: Seq<OscState>) -> bool {
    exists|i: int| #[trigger] sounding(s, i)
}

/// The bank's rule: no note sounds twice, and the ranks of the sounding
/// oscillators are `0, 1, .., m - 1`, each once, where `m` is their number.
pub open spec fn ranked(s: Seq<OscState>) -> bool {
    &&& forall|i: int, j: int|
        #![trigger sounding(s, i), sounding(s, j)]
        sounding(s, i) && sounding(s, j) && i != j ==> s[i].note != s[j].note
    &&& forall|i: int, j: int|
        #![trigger sounding(s, i), sounding(s, j)]
        sounding(s, i) && sounding(s, j) && i != j ==> s[i].age != s[j].age
    &&& forall|i: int| #[trigger] sounding(s, i) ==> 0 <= s[i].age < count_sounding(s)
    &&& forall|r: int| 0 <= r < count_sounding(s) ==> #[trigger] has_rank(s, r)
}

/// The bank after oscillator `h` has been struck again with the note it
/// sounds: it restarts at rank 0, and the voices that were more recent than
/// it move one rank up.
pub open spec fn retriggered(s: Seq<OscState>, h: int) -> Seq<OscState>
    recommends
        sounding(s, h),
{
    Seq::new(
        s.len(),
        |i: int|
            if i == h {
                s[h].assigned(s[h].note.unwrap()).with_age(0)
            } else if s[i].note is Some && s[i].age < s[h].age {
                s[i].with_age(s[i].age + 1)
            } else {
                s[i]
            },
    )
}

/// The bank after oscillator `t` has been given `note`: it starts at rank
/// 0, and every other sounding voice moves one rank up.
pub open spec fn allocated(s: Seq<OscState>, t: int, note: u8) -> Seq<OscState>
    recommends
        0 <= t < s.len(),
{
    Seq::new(
        s.len(),
        |i: int|
            if i == t {
                s[t].assigned(note).with_age(0)
            } else if s[i].note is Some {
                s[i].with_age(s[i].age + 1)
            } else {
                s[i]
            },
    )
}

/// The bank after oscillator `h` has been silenced: the voices that were
/// older than it move one rank down, closing the gap.
pub open spec fn vacated(s: Seq<OscState>, h: int) -> Seq<OscState>
    recommends
        sounding(s, h),
{
    Seq::new(
        s.len(),
        |i: int|
            if i == h {
                s[h].stopped()
            } else if s[i].note is Some && s[i].age > s[h].age {
                s[i].with_age(s[i].age - 1)
            } else {
                s[i]
            },
    )
}

/// The rank of the voice that is taken over when no oscillator is free: the
/// number of oscillators less one, which in a bank where every oscillator
/// sounds is the rank of the voice left alone for longest.
pub open spec fn steal_rank(s: Seq<OscState>) -> u8 {
    if s.len() == 0 {
        0
    } else if s.len() - 1 <= u8::MAX {
        (s.len() - 1) as u8
    } else {
        u8::MAX
    }
}

/// The bank after `note` has been played.
///
/// If an oscillator sounds `note` already, it is struck again. Otherwise the
/// first free oscillator gets the note. Otherwise the voice left alone for
/// longest is taken over: the oscillator whose rank has reached `steal_rank`
/// drops its note for the new one. In each case the note ends at rank 0.
pub open spec fn note_played(s: Seq<OscState>, note: u8) -> Seq<OscState> {
    let holder = first_match(s, Probe::Holding(note));
    let free = first_match(s, Probe::Free);
    let oldest = first_match(s, Probe::Aged(steal_rank(s)));
    if holder >= 0 {
        retriggered(s, holder)
    } else if free >= 0 {
        allocated(s, free, note)
    } else if oldest >= 0 {
        allocated(s, oldest, note)
    } else {
        s
    }
}

/// The bank after `note` has been stopped: the oscillator that sounds it is
/// silenced and the ranks close up. A note that does not sound changes
/// nothing.
pub open spec fn note_stopped(s: Seq<OscState>, note: u8) -> Seq<OscState> {
    let holder = first_match(s, Probe::Holding(note));
    if holder >= 0 {
        vacated(s, holder)
    } else {
        s
    }
}

/// `first_from` finds the first admitted oscillator at or after `from`, and
/// says -1 exactly when there is none.
pub proof fn lemma_first_from(s: Seq<OscState>, probe: Probe, from: int)
    requires
        0 <= from,
    ensures
        ({
            let r = first_from(s, probe, from);
            &&& r == -1 || from <= r < s.len()
            &&& r >= 0 ==> probe.admits(s[r].note, s[r].age)
            &&& forall|j: int|
                from <= j < (if r >= 0 {
                    r
                } else {
                    s.len() as int
                }) ==> !probe.admits((#[trigger] s[j]).note, s[j].age)
        }),
    decreases s.len() - from,
{
    if from < s.len() && !probe.admits(s[from].note, s[from].age) {
        lemma_first_from(s, probe, from + 1);
    }
}

/// `first_match` finds the first admitted oscillator, and says -1 exactly
/// when there is none.
pub proof fn lemma_first_match(s: Seq<OscState>, probe: Probe)
    ensures
        ({
            let r = first_match(s, probe);
            &&& r == -1 || 0 <= r < s.len()
            &&& r >= 0 ==> probe.admits(s[r].note, s[r].age)
            &&& forall|j: int|
                0 <= j < (if r >= 0 {
                    r
                } else {
                    s.len() as int
                }) ==> !probe.admits((#[trigger] s[j]).note, s[j].age)
        }),
{
    lemma_first_from(s, probe, 0);
}

/// There are no more sounding oscillators than oscillators.
pub proof fn lemma_count_bound(s: Seq<OscState>)
    ensures
        count_sounding(s) <= s.len(),
    decreases s.len(),
{
    if s.len() > 0 {
        lemma_count_bound(s.drop_last());
    }
}

/// Where two banks differ at one position only in which oscillators sound,
/// their counts differ by what that position contributes.
pub proof fn lemma_count_differs_at(s: Seq<OscState>, t: Seq<OscState>, k: int)
    requires
        s.len() == t.len(),
        0 <= k < s.len(),
        forall|i: int| 0 <= i < s.len() && i != k ==> (s[i].note is Some) == (t[i].note is Some),
    ensures
        count_sounding(t) - count_sounding(s) == (if t[k].note is Some {
            1int
        } else {
            0int
        }) - (if s[k].note is Some {
            1int
        } else {
            0int
        }),
    decreases s.len(),
{
    let n = s.len() - 1;
    let s1 = s.drop_last();
    let t1 = t.drop_last();
    if k == n {
        lemma_count_same(s1, t1);
    } else {
        lemma_count_differs_at(s1, t1, k);
    }
}

/// Banks in which the same positions sound have the same count.
pub proof fn lemma_count_same(s: Seq<OscState>, t: Seq<OscState>)
    requires
        s.len() == t.len(),
        forall|i: int| 0 <= i < s.len() ==> (s[i].note is Some) == (t[i].note is Some),
    ensures
        count_sounding(t) == count_sounding(s),
    decreases s.len(),
{
    if s.len() > 0 {
        lemma_count_same(s.drop_last(), t.drop_last());
    }
}

/// A bank in which nothing sounds keeps the rule.
pub proof fn lemma_silent_ranked(s: Seq<OscState>)
    requires
        forall|i: int| 0 <= i < s.len() ==> s[i].note is None,
    ensures
        count_sounding(s) == 0,
        ranked(s),
    decreases s.len(),
{
    if s.len() > 0 {
        lemma_silent_ranked(s.drop_last());
    }
}

/// The rule speaks of notes and ranks only: a bank with the same notes and
/// ranks as a bank that keeps the rule keeps it too.
pub proof fn lemma_ranked_same_voices(s: Seq<OscState>, t: Seq<OscState>)
    requires
        ranked(s),
        s.len() == t.len(),
        forall|i: int| 0 <= i < s.len() ==> s[i].note == t[i].note && s[i].age == t[i].age,
    ensures
        ranked(t),
        count_sounding(t) == count_sounding(s),
{
    lemma_count_same(s, t);
    assert forall|i: int| sounding(t, i) == sounding(s, i) by {}
    assert forall|r: int| 0 <= r < count_sounding(t) implies #[trigger] has_rank(t, r) by {
        assert(has_rank(s, r));
        let i = choose|i: int| #[trigger] sounding(s, i) && s[i].age == r;
        assert(sounding(t, i) && t[i].age == r);
    }
    assert forall|i: int| #[trigger] sounding(t, i) implies 0 <= t[i].age < count_sounding(t) by {
        assert(sounding(s, i));
    }
    assert forall|i: int, j: int|
        #![trigger sounding(t, i), sounding(t, j)]
        sounding(t, i) && sounding(t, j) && i != j implies t[i].note != t[j].note && t[i].age
        != t[j].age by {
        assert(sounding(s, i) && sounding(s, j));
    }
}

/// Striking a sounding note again keeps the rule.
pub proof fn lemma_retriggered_ranked(s: Seq<OscState>, h: int)
    requires
        ranked(s),
        sounding(s, h),
    ensures
        ranked(retriggered(s, h)),
        count_sounding(retriggered(s, h)) == count_sounding(s),
{
    let t = retriggered(s, h);
    let a = s[h].age;
    lemma_count_same(s, t);
    assert forall|i: int| sounding(t, i) == sounding(s, i) by {}
    assert forall|i: int| 0 <= i < s.len() implies t[i].note == s[i].note by {}
    assert forall|i: int, j: int|
        #![trigger sounding(t, i), sounding(t, j)]
        sounding(t, i) && sounding(t, j) && i != j implies t[i].note != t[j].note && t[i].age
        != t[j].age by {
        assert(sounding(s, i) && sounding(s, j));
        assert(sounding(s, h));
    }
    assert forall|i: int| #[trigger] sounding(t, i) implies 0 <= t[i].age < count_sounding(t) by {
        assert(sounding(s, i));
        assert(sounding(s, h));
    }
    assert forall|r: int| 0 <= r < count_sounding(t) implies #[trigger] has_rank(t, r) by {
        if r == 0 {
            assert(sounding(t, h) && t[h].age == 0);
        } else if r <= a {
            assert(has_rank(s, r - 1));
            let i = choose|i: int| #[trigger] sounding(s, i) && s[i].age == r - 1;
            assert(sounding(t, i) && t[i].age == r);
        } else {
            assert(has_rank(s, r));
            let i = choose|i: int| #[trigger] sounding(s, i) && s[i].age == r;
            assert(sounding(t, i) && t[i].age == r);
        }
    }
}

/// Giving a free oscillator a note that does not sound yet keeps the rule,
/// and there is one more sounding voice.
pub proof fn lemma_allocated_ranked(s: Seq<OscState>, f: int, note: u8)
    requires
        ranked(s),
        0 <= f < s.len(),
        s[f].note is None,
        first_match(s, Probe::Holding(note)) == -1,
    ensures
        ranked(allocated(s, f, note)),
        count_sounding(allocated(s, f, note)) == count_sounding(s) + 1,
{
    let t = allocated(s, f, note);
    lemma_count_differs_at(s, t, f);
    lemma_first_match(s, Probe::Holding(note));
    assert forall|i: int| i != f implies sounding(t, i) == sounding(s, i) by {}
    assert(sounding(t, f));
    assert forall|i: int, j: int|
        #![trigger sounding(t, i), sounding(t, j)]
        sounding(t, i) && sounding(t, j) && i != j implies t[i].note != t[j].note && t[i].age
        != t[j].age by {
        if i != f {
            assert(sounding(s, i));
            assert(!Probe::Holding(note).admits(s[i].note, s[i].age));
        }
        if j != f {
            assert(sounding(s, j));
            assert(!Probe::Holding(note).admits(s[j].note, s[j].age));
        }
    }
    assert forall|i: int| #[trigger] sounding(t, i) implies 0 <= t[i].age < count_sounding(t) by {
        if i != f {
            assert(sounding(s, i));
        }
    }
    assert forall|r: int| 0 <= r < count_sounding(t) implies #[trigger] has_rank(t, r) by {
        if r == 0 {
            assert(sounding(t, f) && t[f].age == 0);
        } else {
            assert(has_rank(s, r - 1));
            let i = choose|i: int| #[trigger] sounding(s, i) && s[i].age == r - 1;
            assert(sounding(t, i) && t[i].age == r);
        }
    }
}

/// Silencing a sounding oscillator keeps the rule, and there is one
/// sounding voice fewer.
pub proof fn lemma_vacated_ranked(s: Seq<OscState>, h: int)
    requires
        ranked(s),
        sounding(s, h),
    ensures
        ranked(vacated(s, h)),
        count_sounding(vacated(s, h)) == count_sounding(s) - 1,
{
    let t = vacated(s, h);
    let a = s[h].age;
    lemma_count_differs_at(s, t, h);
    assert forall|i: int| i != h implies sounding(t, i) == sounding(s, i) by {}
    assert(!sounding(t, h));
    assert forall|i: int, j: int|
        #![trigger sounding(t, i), sounding(t, j)]
        sounding(t, i) && sounding(t, j) && i != j implies t[i].note != t[j].note && t[i].age
        != t[j].age by {
        assert(sounding(s, i) && sounding(s, j));
        assert(sounding(s, h));
    }
    assert forall|i: int| #[trigger] sounding(t, i) implies 0 <= t[i].age < count_sounding(t) by {
        assert(sounding(s, i));
        assert(sounding(s, h));
    }
    assert forall|r: int| 0 <= r < count_sounding(t) implies #[trigger] has_rank(t, r) by {
        if r < a {
            assert(has_rank(s, r));
            let i = choose|i: int| #[trigger] sounding(s, i) && s[i].age == r;
            assert(sounding(t, i) && t[i].age == r);
        } else {
            assert(has_rank(s, r + 1));
            let i = choose|i: int| #[trigger] sounding(s, i) && s[i].age == r + 1;
            assert(sounding(t, i) && t[i].age == r);
        }
    }
}

/// Where every oscillator sounds, there are as many sounding oscillators as
/// oscillators.
pub proof fn lemma_count_full(s: Seq<OscState>)
    requires
        forall|i: int| 0 <= i < s.len() ==> (#[trigger] s[i]).note is Some,
    ensures
        count_sounding(s) == s.len(),
    decreases s.len(),
{
    if s.len() > 0 {
        lemma_count_full(s.drop_last());
    }
}

/// In a bank that keeps the rule and has no free oscillator, exactly one
/// oscillator has reached `steal_rank`: the one of largest rank, the voice
/// left alone for longest.
pub proof fn lemma_oldest(s: Seq<OscState>)
    requires
        ranked(s),
        0 < s.len() <= u8::MAX,
        first_match(s, Probe::Free) == -1,
    ensures
        ({
            let oldest = first_match(s, Probe::Aged(steal_rank(s)));
            &&& sounding(s, oldest)
            &&& s[oldest].age == s.len() - 1
            &&& count_sounding(s) == s.len()
            &&& forall|i: int| #[trigger] sounding(s, i) && i != oldest ==> s[i].age < s[oldest].age
        }),
{
    let probe = Probe::Aged(steal_rank(s));
    let oldest = first_match(s, probe);
    lemma_first_match(s, Probe::Free);
    lemma_first_match(s, probe);
    assert forall|i: int| 0 <= i < s.len() implies (#[trigger] s[i]).note is Some by {
        assert(!Probe::Free.admits(s[i].note, s[i].age));
    }
    lemma_count_full(s);
    assert(has_rank(s, s.len() - 1));
    let w = choose|i: int| #[trigger] sounding(s, i) && s[i].age == s.len() - 1;
    assert(probe.admits(s[w].note, s[w].age));
    assert(oldest >= 0);
    assert(sounding(s, oldest));
    assert forall|i: int| #[trigger] sounding(s, i) && i != oldest implies s[i].age
        < s[oldest].age by {
        assert(sounding(s, oldest));
    }
}

/// Taking over the voice left alone for longest keeps the rule, and as many
/// voices sound as before.
pub proof fn lemma_stolen_ranked(s: Seq<OscState>, note: u8)
    requires
        ranked(s),
        0 < s.len() <= u8::MAX,
        first_match(s, Probe::Holding(note)) == -1,
        first_match(s, Probe::Free) == -1,
    ensures
        ranked(allocated(s, first_match(s, Probe::Aged(steal_rank(s))), note)),
        count_sounding(allocated(s, first_match(s, Probe::Aged(steal_rank(s))), note))
            == count_sounding(s),
{
    let v = first_match(s, Probe::Aged(steal_rank(s)));
    let t = allocated(s, v, note);
    lemma_oldest(s);
    lemma_first_match(s, Probe::Holding(note));
    lemma_count_same(s, t);
    assert forall|i: int| sounding(t, i) == sounding(s, i) by {}
    assert forall|i: int, j: int|
        #![trigger sounding(t, i), sounding(t, j)]
        sounding(t, i) && sounding(t, j) && i != j implies t[i].note != t[j].note && t[i].age
        != t[j].age by {
        assert(sounding(s, i) && sounding(s, j));
        assert(!Probe::Holding(note).admits(s[i].note, s[i].age));
        assert(!Probe::Holding(note).admits(s[j].note, s[j].age));
    }
    assert forall|i: int| #[trigger] sounding(t, i) implies 0 <= t[i].age < count_sounding(t) by {
        assert(sounding(s, i));
    }
    assert forall|r: int| 0 <= r < count_sounding(t) implies #[trigger] has_rank(t, r) by {
        if r == 0 {
            assert(sounding(t, v) && t[v].age == 0);
        } else {
            assert(has_rank(s, r - 1));
            let i = choose|i: int| #[trigger] sounding(s, i) && s[i].age == r - 1;
            assert(sounding(t, i) && t[i].age == r);
        }
    }
}

/// Playing a note keeps the rule, in a bank of at most 255 oscillators.
pub proof fn lemma_played_ranked(s: Seq<OscState>, note: u8)
    requires
        ranked(s),
        s.len() <= u8::MAX,
    ensures
        ranked(note_played(s, note)),
{
    let holder = first_match(s, Probe::Holding(note));
    let free = first_match(s, Probe::Free);
    lemma_first_match(s, Probe::Holding(note));
    lemma_first_match(s, Probe::Free);
    lemma_first_match(s, Probe::Aged(steal_rank(s)));
    if holder >= 0 {
        assert(sounding(s, holder));
        lemma_retriggered_ranked(s, holder);
    } else if free >= 0 {
        lemma_allocated_ranked(s, free, note);
    } else if s.len() > 0 {
        lemma_stolen_ranked(s, note);
    }
}

/// Whatever is played, the note sounds afterwards at rank 0, in a bank that
/// has an oscillator at all.
pub proof fn lemma_played_sounds(s: Seq<OscState>, note: u8)
    requires
        ranked(s),
        0 < s.len() <= u8::MAX,
    ensures
        ({
            let t = note_played(s, note);
            let at = first_match(t, Probe::Holding(note));
            &&& t.len() == s.len()
            &&& 0 <= at < t.len()
            &&& t[at].note == Some(note)
            &&& t[at].age == 0
            &&& some_sounding(t)
        }),
{
    let t = note_played(s, note);
    let holder = first_match(s, Probe::Holding(note));
    let free = first_match(s, Probe::Free);
    let oldest = first_match(s, Probe::Aged(steal_rank(s)));
    lemma_first_match(s, Probe::Holding(note));
    lemma_first_match(s, Probe::Free);
    lemma_first_match(s, Probe::Aged(steal_rank(s)));
    lemma_played_ranked(s, note);
    let target = if holder >= 0 {
        holder
    } else if free >= 0 {
        free
    } else {
        oldest
    };
    if holder < 0 && free < 0 {
        lemma_oldest(s);
    }
    assert(sounding(t, target) && t[target].note == Some(note) && t[target].age == 0);
    lemma_first_match(t, Probe::Holding(note));
    let at = first_match(t, Probe::Holding(note));
    assert(Probe::Holding(note).admits(t[target].note, t[target].age));
    assert(at >= 0);
    if at != target {
        assert(sounding(t, at) && sounding(t, target));
    }
}

/// Stopping a note keeps the rule: the ranks that are left are again
/// `0, 1, .., m - 1` without a gap.
pub proof fn lemma_stopped_ranked(s: Seq<OscState>, note: u8)
    requires
        ranked(s),
    ensures
        ranked(note_stopped(s, note)),
{
    let holder = first_match(s, Probe::Holding(note));
    lemma_first_match(s, Probe::Holding(note));
    if holder >= 0 {
        assert(sounding(s, holder));
        lemma_vacated_ranked(s, holder);
    }
}

/// Playing a note that sounds already: the same oscillator goes on holding
/// it, now at rank 0; exactly the voices that had a lower rank move one rank
/// up; every other rank and every note stays.
pub proof fn lemma_retrigger(s: Seq<OscState>, note: u8)
    requires
        ranked(s),
        first_match(s, Probe::Holding(note)) >= 0,
    ensures
        ({
            let h = first_match(s, Probe::Holding(note));
            let t = note_played(s, note);
            &&& t.len() == s.len()
            &&& first_match(t, Probe::Holding(note)) == h
            &&& t[h].age == 0
            &&& forall|i: int| 0 <= i < s.len() ==> (#[trigger] t[i]).note == s[i].note
            &&& forall|i: int|
                0 <= i < s.len() && i != h ==> (#[trigger] t[i]).age == if s[i].note is Some
                    && s[i].age < s[h].age {
                    s[i].age + 1
                } else {
                    s[i].age
                }
        }),
{
    let h = first_match(s, Probe::Holding(note));
    let t = note_played(s, note);
    lemma_first_match(s, Probe::Holding(note));
    lemma_first_match(t, Probe::Holding(note));
    let h2 = first_match(t, Probe::Holding(note));
    assert(Probe::Holding(note).admits(t[h].note, t[h].age));
    if h2 != h {
        assert(0 <= h2 < h);
        assert(!Probe::Holding(note).admits(s[h2].note, s[h2].age));
        assert(Probe::Holding(note).admits(t[h2].note, t[h2].age));
    }
}

/// Playing a note that does not sound while an oscillator is free: the
/// first free oscillator takes it at rank 0, every voice that sounded moves
/// one rank up, and nothing else changes.
pub proof fn lemma_allocate(s: Seq<OscState>, note: u8)
    requires
        ranked(s),
        first_match(s, Probe::Holding(note)) == -1,
        first_match(s, Probe::Free) >= 0,
    ensures
        ({
            let f = first_match(s, Probe::Free);
            let t = note_played(s, note);
            &&& t.len() == s.len()
            &&& t[f].note == Some(note)
            &&& t[f].age == 0
            &&& forall|i: int| 0 <= i < f ==> (#[trigger] s[i]).note is Some
            &&& forall|i: int|
                0 <= i < s.len() && i != f ==> (#[trigger] t[i]).note == s[i].note && t[i].age
                    == if s[i].note is Some {
                    s[i].age + 1
                } else {
                    s[i].age
                }
        }),
{
    lemma_first_match(s, Probe::Free);
}

/// Playing a note that does not sound while no oscillator is free: the
/// oscillator of largest rank, the voice left alone for longest, drops its
/// note and takes the new one at rank 0; every other voice keeps its note and
/// moves one rank up.
pub proof fn lemma_steal(s: Seq<OscState>, note: u8)
    requires
        ranked(s),
        0 < s.len() <= u8::MAX,
        first_match(s, Probe::Holding(note)) == -1,
        first_match(s, Probe::Free) == -1,
    ensures
        ({
            let j = first_match(s, Probe::Aged(steal_rank(s)));
            let t = note_played(s, note);
            &&& sounding(s, j)
            &&& s[j].age == s.len() - 1
            &&& forall|i: int| #[trigger] sounding(s, i) && i != j ==> s[i].age < s[j].age
            &&& t.len() == s.len()
            &&& t == allocated(s, j, note)
            &&& t[j] == s[j].assigned(note).with_age(0)
            &&& forall|i: int|
                0 <= i < s.len() && i != j ==> (#[trigger] t[i]).note == s[i].note && t[i].age
                    == s[i].age + 1
            &&& ranked(t)
        }),
{
    lemma_oldest(s);
    lemma_stolen_ranked(s, note);
    lemma_first_match(s, Probe::Free);
    assert forall|i: int| 0 <= i < s.len() implies (#[trigger] s[i]).note is Some by {
        assert(!Probe::Free.admits(s[i].note, s[i].age));
    }
}

/// Stopping a note that sounds: its oscillator falls silent, exactly the
/// voices that had a higher rank move one rank down, every other rank and
/// note stays, and the ranks that are left are `0, .., m - 2` without a gap.
pub proof fn lemma_stop_compacts(s: Seq<OscState>, note: u8)
    requires
        ranked(s),
        first_match(s, Probe::Holding(note)) >= 0,
    ensures
        ({
            let h = first_match(s, Probe::Holding(note));
            let t = note_stopped(s, note);
            &&& t.len() == s.len()
            &&& t[h].note is None
            &&& first_match(t, Probe::Holding(note)) == -1
            &&& forall|i: int|
                0 <= i < s.len() && i != h ==> (#[trigger] t[i]).note == s[i].note && t[i].age
                    == if s[i].note is Some && s[i].age > s[h].age {
                    s[i].age - 1
                } else {
                    s[i].age
                }
            &&& count_sounding(t) == count_sounding(s) - 1
            &&& ranked(t)
            &&& forall|r: int| 0 <= r < count_sounding(s) - 1 ==> #[trigger] has_rank(t, r)
        }),
{
    let h = first_match(s, Probe::Holding(note));
    let t = note_stopped(s, note);
    lemma_first_match(s, Probe::Holding(note));
    lemma_first_match(t, Probe::Holding(note));
    assert(sounding(s, h));
    lemma_vacated_ranked(s, h);
    let h2 = first_match(t, Probe::Holding(note));
    if h2 >= 0 {
        assert(Probe::Holding(note).admits(t[h2].note, t[h2].age));
        assert(h2 != h);
        assert(sounding(s, h2));
        assert(s[h2].note == s[h].note);
    }
}

/// Playing or stopping a note keeps the other voices in their order of
/// recency: of two voices that sound other notes and go on sounding them, the
/// more recent one is still the more recent afterwards. The more recent of
/// the two always goes on sounding; the older one gives way only where it is
/// taken over.
pub proof fn lemma_order_kept(s: Seq<OscState>, note: u8, i: int, j: int)
    requires
        ranked(s),
        s.len() <= u8::MAX,
        sounding(s, i),
        sounding(s, j),
        s[i].note != Some(note),
        s[j].note != Some(note),
        s[i].age < s[j].age,
    ensures
        note_played(s, note)[i].note == s[i].note,
        note_played(s, note)[j].note == s[j].note ==> note_played(s, note)[i].age
            < note_played(s, note)[j].age,
        note_played(s, note)[j].note != s[j].note ==> first_match(s, Probe::Free) == -1
            && first_match(s, Probe::Holding(note)) == -1 && j == first_match(
            s,
            Probe::Aged(steal_rank(s)),
        ),
        note_stopped(s, note)[i].note == s[i].note,
        note_stopped(s, note)[j].note == s[j].note,
        note_stopped(s, note)[i].age < note_stopped(s, note)[j].age,
{
    let holder = first_match(s, Probe::Holding(note));
    lemma_first_match(s, Probe::Holding(note));
    lemma_first_match(s, Probe::Free);
    lemma_first_match(s, Probe::Aged(steal_rank(s)));
    if holder >= 0 {
        assert(sounding(s, holder));
    } else if first_match(s, Probe::Free) < 0 {
        lemma_oldest(s);
    }
}

/// Stopping a note that does not sound changes nothing.
pub proof fn lemma_stop_absent(s: Seq<OscState>, note: u8)
    requires
        first_match(s, Probe::Holding(note)) == -1,
    ensures
        note_stopped(s, note) == s,
{
}

/// Striking oscillator `h` again and then moving the ranks gives
/// `retriggered`.
pub proof fn lemma_rerank_retrigger(s: Seq<OscState>, h: int, note: u8, active_age: u8)
    requires
        ranked(s),
        sounding(s, h),
        s[h].note == Some(note),
        s[h].age == active_age,
    ensures
        s.update(h, s[h].assigned(note)).map_values(
            |o: OscState| (Rerank::Retrigger { note, active_age }).applied(o),
        ) == retriggered(s, h),
{
    let rule = Rerank::Retrigger { note, active_age };
    let t = s.update(h, s[h].assigned(note)).map_values(|o: OscState| rule.applied(o));
    assert forall|i: int| 0 <= i < s.len() implies t[i] == retriggered(s, h)[i] by {
        if i != h && s[i].note is Some {
            assert(sounding(s, i) && sounding(s, h));
        }
    }
    assert(t =~= retriggered(s, h));
}

/// Giving oscillator `t` a note that does not sound and then moving the
/// ranks gives `allocated`.
pub proof fn lemma_rerank_allocate(s: Seq<OscState>, t: int, note: u8)
    requires
        0 <= t < s.len(),
        first_match(s, Probe::Holding(note)) == -1,
    ensures
        s.update(t, s[t].assigned(note)).map_values(
            |o: OscState| (Rerank::Allocate { note }).applied(o),
        ) == allocated(s, t, note),
{
    let rule = Rerank::Allocate { note };
    let u = s.update(t, s[t].assigned(note)).map_values(|o: OscState| rule.applied(o));
    lemma_first_match(s, Probe::Holding(note));
    assert forall|i: int| 0 <= i < s.len() implies u[i] == allocated(s, t, note)[i] by {
        assert(!Probe::Holding(note).admits(s[i].note, s[i].age));
    }
    assert(u =~= allocated(s, t, note));
}

/// Silencing oscillator `h` and then moving the ranks gives `vacated`.
pub proof fn lemma_rerank_release(s: Seq<OscState>, h: int, note: u8, active_age: u8)
    requires
        ranked(s),
        sounding(s, h),
        s[h].note == Some(note),
        s[h].age == active_age,
    ensures
        s.update(h, s[h].stopped()).map_values(
            |o: OscState| (Rerank::Release { note, active_age }).applied(o),
        ) == vacated(s, h),
{
    let rule = Rerank::Release { note, active_age };
    let t = s.update(h, s[h].stopped()).map_values(|o: OscState| rule.applied(o));
    assert forall|i: int| 0 <= i < s.len() implies t[i] == vacated(s, h)[i] by {
        if i != h && s[i].note is Some {
            assert(sounding(s, i) && sounding(s, h));
        }
    }
    assert(t =~= vacated(s, h));
}

} // verus!
