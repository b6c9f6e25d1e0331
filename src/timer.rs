use vstd::prelude::*;

verus! {

/// One interval subscription of the timer schedule.
///
/// `interval` is the time left until the entry fires next; it counts down
/// from `original_interval` and is reset to it when the entry fires. The
/// ghost counters record how much time the schedule has passed since the
/// entry was added and how often the entry has fired meanwhile.
#[derive(Clone, Copy)]
pub struct TimeListenerData {
    pub interval: u64,
    pub original_interval: u64,
    pub fires: Ghost<nat>,
    pub elapsed: Ghost<nat>,
}

impl TimeListenerData {
    /// The time left lies in `(0, original_interval]`, and the entry is on
    /// its exact cadence: its next deadline is the next multiple of the
    /// interval after the time elapsed.
    pub open spec fn wf(&self) -> bool {
        &&& 0 < self.interval <= self.original_interval
        &&& self.elapsed@ + self.interval == (self.fires@ + 1) * self.original_interval
    }
}

/// What one pass of `slept` time does to an entry: it fires when its time
/// left is used up, and is then reset to its interval; otherwise the slept
/// time is taken off what is left.
pub open spec fn advanced(e: TimeListenerData, f: TimeListenerData, slept: nat) -> bool {
    &&& f.original_interval == e.original_interval
    &&& f.elapsed@ == e.elapsed@ + slept
    &&& if e.interval <= slept {
        f.interval == e.original_interval && f.fires@ == e.fires@ + 1
    } else {
        f.interval == e.interval - slept && f.fires@ == e.fires@
    }
}

/// The smallest time left over all entries, for a schedule with entries.
pub open spec fn is_min_remaining(es: Seq<TimeListenerData>, m: u64) -> bool {
    &&& exists|i: int| 0 <= i < es.len() && es[i].interval == m
    &&& forall|i: int| 0 <= i < es.len() ==> m <= es[i].interval
}

/// All interval subscriptions, served by one scheduling loop that sleeps
/// until the earliest deadline and then fires every entry that is due.
pub struct TimerSchedule {
    entries: Vec<TimeListenerData>,
}

impl View for TimerSchedule {
    type V = Seq<TimeListenerData>;

    closed spec fn view(&self) -> Seq<TimeListenerData> {
        self.entries@
    }
}

impl TimerSchedule {
    pub open spec fn wf(&self) -> bool {
        forall|i: int| 0 <= i < self@.len() ==> (#[trigger] self@[i]).wf()
    }

    pub fn new() -> (r: TimerSchedule)
        ensures
            r@ == Seq::<TimeListenerData>::empty(),
            r.wf(),
    {
        TimerSchedule { entries: Vec::new() }
    }

    pub fn len(&self) -> (r: usize)
        ensures
            r == self@.len(),
    {
        self.entries.len()
    }

    /// Adds an entry that first fires after `interval`, and returns its
    /// index. Entries are never merged, even at equal intervals.
    pub fn add(&mut self, interval: u64) -> (index: usize)
        requires
            old(self).wf(),
            0 < interval,
        ensures
            final(self).wf(),
            index == old(self)@.len(),
            final(self)@.len() == old(self)@.len() + 1,
            final(self)@.subrange(0, index as int) == old(self)@,
            final(self)@[index as int].interval == interval,
            final(self)@[index as int].original_interval == interval,
            final(self)@[index as int].fires@ == 0,
            final(self)@[index as int].elapsed@ == 0,
    {
        let index = self.entries.len();
        self.entries.push(
            TimeListenerData {
                interval,
                original_interval: interval,
                fires: Ghost(0),
                elapsed: Ghost(0),
            },
        );
        assert(self.entries@.subrange(0, index as int) =~= old(self)@);
        index
    }

    /// How long the loop sleeps next: the smallest time left over all
    /// entries, or nothing when there is no entry (the loop does not run).
    pub fn next_sleep(&self) -> (r: Option<u64>)
        ensures
            r is None <==> self@.len() == 0,
            r matches Some(m) ==> is_min_remaining(self@, m),
    {
        if self.entries.len() == 0 {
            return None;
        }
        let mut m = self.entries[0].interval;
        let mut i: usize = 1;
        while i < self.entries.len()
            invariant
                1 <= i <= self@.len(),
                exists|k: int| 0 <= k < i && self@[k].interval == m,
                forall|k: int| 0 <= k < i ==> m <= self@[k].interval,
            decreases self@.len() - i,
        {
            if self.entries[i].interval < m {
                m = self.entries[i].interval;
            }
            i = i + 1;
        }
        Some(m)
    }

    /// One pass after sleeping `slept`, which is at most the earliest
    /// deadline: every entry whose time is up fires and is reset, the others
    /// count down. The result tells, entry by entry, which ones fired.
    pub fn advance(&mut self, slept: u64) -> (fired: Vec<bool>)
        requires
            old(self).wf(),
            forall|i: int| 0 <= i < old(self)@.len() ==> slept <= #[trigger] old(self)@[i].interval,
        ensures
            final(self).wf(),
            final(self)@.len() == old(self)@.len(),
            fired@.len() == old(self)@.len(),
            forall|i: int|
                0 <= i < old(self)@.len() ==> advanced(
                    old(self)@[i],
                    #[trigger] final(self)@[i],
                    slept as nat,
                ),
            forall|i: int| 0 <= i < old(self)@.len() ==> #[trigger] fired@[i] == (old(self)@[i].interval <= slept),
    {
        let ghost start = self.entries@;
        let n = self.entries.len();
        let mut fired: Vec<bool> = Vec::new();
        let mut i: usize = 0;
        while i < n
            invariant
                n == start.len(),
                self.entries@.len() == n,
                fired@.len() == i,
                0 <= i <= n,
                forall|k: int| 0 <= k < n ==> (#[trigger] start[k]).wf() && slept <= start[k].interval,
                forall|k: int| 0 <= k < i ==> advanced(start[k], #[trigger] self.entries@[k], slept as nat),
                forall|k: int| 0 <= k < i ==> (#[trigger] self.entries@[k]).wf(),
                forall|k: int| 0 <= k < i ==> #[trigger] fired@[k] == (start[k].interval <= slept),
                forall|k: int| i <= k < n ==> self.entries@[k] == start[k],
            decreases n - i,
        {
            let e = self.entries[i];
            assert(start[i as int].wf());
            let f = e.interval <= slept;
            if f {
                let ghost fires: nat = e.fires@ + 1;
                let ghost elapsed: nat = e.elapsed@ + slept as nat;
                proof {
                    let oi = e.original_interval as int;
                    let k = e.fires@ as int;
                    assert((k + 1) * oi + oi == (k + 2) * oi) by (nonlinear_arith);
                }
                self.entries[i] = TimeListenerData {
                    interval: e.original_interval,
                    original_interval: e.original_interval,
                    fires: Ghost(fires),
                    elapsed: Ghost(elapsed),
                };
            } else {
                let ghost elapsed: nat = e.elapsed@ + slept as nat;
                self.entries[i] = TimeListenerData {
                    interval: e.interval - slept,
                    original_interval: e.original_interval,
                    fires: e.fires,
                    elapsed: Ghost(elapsed),
                };
            }
            assert(self.entries@[i as int].wf());
            fired.push(f);
            i = i + 1;
        }
        fired
    }
}

/// Drift never accumulates: an entry that has been in the schedule for a
/// total time `elapsed` has fired exactly `elapsed / interval` times.
pub proof fn lemma_fire_count(e: TimeListenerData)
    requires
        e.wf(),
    ensures
        e.fires@ == e.elapsed@ / (e.original_interval as nat),
{
    let oi = e.original_interval as int;
    let f = e.fires@ as int;
    let t = e.elapsed@ as int;
    assert(t == f * oi + (oi - e.interval)) by (nonlinear_arith)
        requires
            t + e.interval == (f + 1) * oi,
    ;
    vstd::arithmetic::div_mod::lemma_fundamental_div_mod_converse(
        t,
        oi,
        f,
        oi - e.interval,
    );
}

} // verus!
