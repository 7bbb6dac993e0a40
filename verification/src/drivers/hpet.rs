//! The High Precision Event Timer: its counters, programming a timeout, and
//! which callbacks an interrupt runs.
use vstd::prelude::*;
use crate::driver::{DeviceInfo, Driver, DriverKind, DriverTable, register_driver};
use crate::drivers::pcie::has_hid;

verus! {

/// A callback waiting on a counter: the counter and the callback's number.
#[derive(Debug, Clone, Copy, PartialEq, Eq, Structural)]
pub struct TimerCallback(pub u8, pub u64);

/// The timer: the general capabilities register, whether the main counter
/// is 64 bits wide, the callbacks waiting, the counters free to use, and
/// those running periodically.
pub struct Hpet {
    pub capabilities: u64,
    pub counter_64: bool,
    pub callbacks: Vec<TimerCallback>,
    pub free_counters: Vec<u8>,
    pub periodic_counters: Vec<u8>,
}

/// Configuration bits of a counter.
pub const HPET_COUNTER_SET_ACCUMULATOR: u64 = 0x40;
pub const HPET_COUNTER_PERIODIC: u64 = 0x08;
pub const HPET_COUNTER_ENABLED: u64 = 0x04;
pub const HPET_COUNTER_LEVEL_TRIGGERED: u64 = 0x02;

/// Number of the last counter: bits 8-11 of the capabilities.
pub open spec fn last_counter(cap: u64) -> int {
    ((cap / 0x100) % 16) as int
}

/// The interrupt routes every counter can use: the AND of the upper halves
/// of their configuration registers.
pub open spec fn common_routing(ccs: Seq<u64>) -> u32
    decreases ccs.len(),
{
    if ccs.len() == 0 {
        0xFFFF_FFFFu32
    } else {
        common_routing(ccs.drop_last()) & ((ccs.last() >> 32u64) as u32)
    }
}

/// `i` is the lowest set bit of `x`.
pub open spec fn is_lowest_set_bit(x: u64, i: int) -> bool {
    &&& 0 <= i < 64
    &&& (x >> (i as u64)) & 1 == 1
    &&& forall|j: u64| j < i ==> #[trigger] ((x >> j) & 1) == 0
}

/// Femtoseconds per tick: the upper half of the capabilities.
pub open spec fn tick_period(cap: u64) -> int {
    (cap / 0x1_0000_0000) as int
}

/// Ticks in `ms` milliseconds.
pub open spec fn ticks_for(cap: u64, ms: u64) -> int {
    (ms * 1_000_000_000_000) / tick_period(cap)
}

/// The configuration a counter gets: periodic (with the accumulator set) or
/// one-shot, enabled and level-triggered.
pub open spec fn counter_config(now: u64, periodic: bool) -> u64 {
    (if periodic { now | 0x48u64 } else { now & !0x08u64 }) | 0x06u64
}

/// The register writes that program a counter: the comparator, the
/// configuration, and for a periodic counter the period written again to the
/// comparator.
#[derive(Debug, Clone, Copy, PartialEq, Eq, Structural)]
pub struct TimerProgram {
    pub comparator: u64,
    pub config: u64,
    pub periodic_reload: Option<u64>,
}

/// What an interrupt does: the counter that fired, the acknowledgement to
/// write to the interrupt status register, and the callbacks to run in order.
pub struct TriggerOutcome {
    pub counter: u64,
    pub ack: u64,
    pub run: Vec<u64>,
}

/// The callbacks waiting on counter `c`, in order.
pub open spec fn callbacks_on(cbs: Seq<TimerCallback>, c: u8) -> Seq<u64>
    decreases cbs.len(),
{
    if cbs.len() == 0 {
        Seq::empty()
    } else {
        let rest = callbacks_on(cbs.drop_last(), c);
        if cbs.last().0 == c { rest.push(cbs.last().1) } else { rest }
    }
}

/// The callbacks waiting on other counters than `c`, in order.
pub open spec fn callbacks_off(cbs: Seq<TimerCallback>, c: u8) -> Seq<TimerCallback>
    decreases cbs.len(),
{
    if cbs.len() == 0 {
        Seq::empty()
    } else {
        let rest = callbacks_off(cbs.drop_last(), c);
        if cbs.last().0 == c { rest } else { rest.push(cbs.last()) }
    }
}

proof fn lemma_shift_step(x: u64, i: u64)
    requires
        i < 64,
    ensures
        (x >> i) >> 1u64 == x >> ((i + 1) as u64),
{
    assert((x >> i) >> 1u64 == x >> ((i + 1) as u64)) by (bit_vector)
        requires i < 64;
}

/// The lowest set bit of a non-zero value.
fn lowest_set_bit(x: u64) -> (r: u64)
    requires
        x != 0,
    ensures
        is_lowest_set_bit(x, r as int),
{
    let mut v = x;
    let mut i: u64 = 0;
    assert(x >> 0u64 == x) by (bit_vector);
    loop
        invariant
            i < 64,
            v == x >> i,
            v != 0,
            forall|j: u64| j < i ==> #[trigger] ((x >> j) & 1) == 0,
        decreases 64 - i,
    {
        if v & 1 == 1 {
            return i;
        }
        proof {
            lemma_shift_step(x, i);
            assert(v != 0 && v & 1 != 1 ==> v >> 1u64 != 0) by (bit_vector);
            assert(v & 1 != 1 ==> v & 1 == 0) by (bit_vector);
            assert(x >> 63u64 != 0 ==> (x >> 63u64) & 1 == 1) by (bit_vector);
            assert((x >> i) & 1 == 0);
        }
        v = v >> 1;
        i = i + 1;
    }
}

impl Hpet {
    /// The counters' bookkeeping: no counter is free twice, and no free
    /// counter has a callback waiting on it.
    pub open spec fn counters_wf(&self) -> bool {
        &&& self.free_counters@.no_duplicates()
        &&& forall|i: int, j: int| 0 <= i < self.free_counters@.len() && 0 <= j < self.callbacks@.len()
            ==> (#[trigger] self.callbacks@[j]).0 != #[trigger] self.free_counters@[i]
    }

    /// The timer whose capabilities register reads `capabilities` and whose
    /// counters' configuration registers read `counter_configs`: every counter
    /// free, and the global system interrupt to use, the lowest one all
    /// counters can raise. With no interrupt in common the timer cannot be
    /// used.
    pub fn new(capabilities: u64, counter_configs: &Vec<u64>) -> (r: (Hpet, u64))
        requires
            counter_configs@.len() == last_counter(capabilities) + 1,
            common_routing(counter_configs@) != 0,
        ensures
            r.0.capabilities == capabilities,
            r.0.counter_64 == ((capabilities / 0x2000) % 2 == 1),
            r.0.callbacks@.len() == 0,
            r.0.periodic_counters@.len() == 0,
            r.0.free_counters@.len() == counter_configs@.len(),
            forall|i: int| 0 <= i < r.0.free_counters@.len() ==> r.0.free_counters@[i] == i,
            is_lowest_set_bit(common_routing(counter_configs@) as u64, r.1 as int),
    {
        let cap = capabilities;
        let num_counters = (cap & 0xF00) >> 8;
        assert((cap & 0xF00) >> 8 == (cap / 0x100) % 16) by (bit_vector);
        let mut free: Vec<u8> = Vec::new();
        let mut possible: u32 = 0xFFFF_FFFF;
        let mut c: u64 = 0;
        while c <= num_counters
            invariant
                num_counters < 16,
                counter_configs@.len() == num_counters + 1,
                c <= num_counters + 1,
                free@.len() == c,
                forall|i: int| 0 <= i < c ==> free@[i] == i,
                possible == common_routing(counter_configs@.take(c as int)),
            decreases num_counters + 1 - c,
        {
            assert(counter_configs@.take(c + 1).drop_last() =~= counter_configs@.take(c as int));
            let routing = (counter_configs[c as usize] >> 32u64) as u32;
            possible = possible & routing;
            free.push(c as u8);
            c = c + 1;
        }
        assert(counter_configs@.take(c as int) =~= counter_configs@);
        let counter_64 = (cap & 0x2000) >> 13 == 1;
        assert(((cap & 0x2000) >> 13 == 1) == ((cap / 0x2000) % 2 == 1)) by (bit_vector);
        let gsi = lowest_set_bit(possible as u64);
        let hpet = Hpet {
            capabilities,
            counter_64,
            callbacks: Vec::new(),
            free_counters: free,
            periodic_counters: Vec::new(),
        };
        (hpet, gsi)
    }

    /// The counter that fired: the lowest bit set in the interrupt status
    /// register, with the write that acknowledges it; `None` when none fired.
    pub fn find_timer_interrupting(&self, gisr: u64) -> (r: Option<(u64, u64)>)
        ensures
            gisr == 0 <==> r is None,
            r matches Some((c, ack)) ==> is_lowest_set_bit(gisr, c as int) && ack == 1u64 << c,
    {
        if gisr == 0 {
            None
        } else {
            let c = lowest_set_bit(gisr);
            Some((c, 1u64 << c))
        }
    }

    /// Number of the last counter.
    pub fn num_timers(&self) -> (r: u8)
        ensures
            r == last_counter(self.capabilities),
    {
        let cap = self.capabilities;
        assert((cap & 0xF00) >> 8 == (cap / 0x100) % 16) by (bit_vector);
        ((cap & 0xF00) >> 8) as u8
    }

    /// The writes that make a counter whose configuration reads `config_now`
    /// fire after `time_ms` milliseconds (and every `time_ms` after that when
    /// periodic), with the main counter at `main_counter`. The comparator
    /// wraps with the main counter, at 32 bits when that counter is 32 bits
    /// wide.
    pub fn set_timer(&self, time_ms: u64, is_periodic: bool, config_now: u64, main_counter: u64) -> (r: TimerProgram)
        requires
            tick_period(self.capabilities) != 0,
            time_ms * 1_000_000_000_000 <= u64::MAX,
        ensures
            r.config == counter_config(config_now, is_periodic),
            r.comparator == (if self.counter_64 {
                (main_counter + ticks_for(self.capabilities, time_ms)) % 0x1_0000_0000_0000_0000
            } else {
                (main_counter + ticks_for(self.capabilities, time_ms)) % 0x1_0000_0000
            }),
            r.periodic_reload == (if is_periodic { Some(ticks_for(self.capabilities, time_ms) as u64) } else { None }),
    {
        let config = if is_periodic {
            config_now | HPET_COUNTER_PERIODIC | HPET_COUNTER_SET_ACCUMULATOR
        } else {
            config_now & !HPET_COUNTER_PERIODIC
        };
        let config = config | HPET_COUNTER_ENABLED | HPET_COUNTER_LEVEL_TRIGGERED;
        assert(config == counter_config(config_now, is_periodic)) by (bit_vector)
            requires
                config == (if is_periodic { config_now | 0x08u64 | 0x40u64 } else { config_now & !0x08u64 }) | 0x04u64 | 0x02u64;
        let cap = self.capabilities;
        let divider = (cap & 0xFFFF_FFFF_0000_0000) >> 32;
        assert((cap & 0xFFFF_FFFF_0000_0000) >> 32 == cap / 0x1_0000_0000) by (bit_vector);
        let ticks = (time_ms * 1_000_000_000_000) / divider;
        let mut comparator = main_counter.wrapping_add(ticks);
        if !self.counter_64 {
            let c0 = comparator;
            comparator = comparator & 0xFFFF_FFFF;
            assert(c0 & 0xFFFF_FFFF == c0 % 0x1_0000_0000) by (bit_vector);
        }
        TimerProgram {
            comparator,
            config,
            periodic_reload: if is_periodic { Some(ticks) } else { None },
        }
    }

    /// Take a free counter for a one-shot `callback` after `time_ms`
    /// milliseconds: the last free counter, with the writes that program it
    /// (its configuration reads `config_now`, the main counter `main_counter`).
    /// With no free counter nothing happens.
    pub fn add_oneshot_ms(&mut self, time_ms: u64, callback: u64, config_now: u64, main_counter: u64)
        -> (r: Option<(u8, TimerProgram)>)
        requires
            old(self).free_counters@.len() > 0 ==> tick_period(old(self).capabilities) != 0,
            old(self).free_counters@.len() > 0 ==> time_ms * 1_000_000_000_000 <= u64::MAX,
        ensures
            old(self).counters_wf() ==> final(self).counters_wf(),
            old(self).free_counters@.len() == 0 <==> r is None,
            r is None ==> *final(self) == *old(self),
            r matches Some((c, p)) ==> {
                &&& c == old(self).free_counters@.last()
                &&& final(self).free_counters@ == old(self).free_counters@.drop_last()
                &&& final(self).callbacks@ == old(self).callbacks@.push(TimerCallback(c, callback))
                &&& final(self).periodic_counters@ == old(self).periodic_counters@
                &&& final(self).capabilities == old(self).capabilities
                &&& final(self).counter_64 == old(self).counter_64
                &&& p == old(self).set_timer_spec(time_ms, false, config_now, main_counter)
            },
    {
        if self.free_counters.len() == 0 {
            return None;
        }
        match self.free_counters.pop() {
            Some(counter) => {
                self.callbacks.push(TimerCallback(counter, callback));
                let p = self.set_timer(time_ms, false, config_now, main_counter);
                Some((counter, p))
            },
            None => None,
        }
    }

    /// Take a free counter for `callback` every `time_ms` milliseconds, as
    /// `add_oneshot_ms` does, and mark the counter periodic.
    pub fn add_recurring_ms(&mut self, time_ms: u64, callback: u64, config_now: u64, main_counter: u64)
        -> (r: Option<(u8, TimerProgram)>)
        requires
            old(self).free_counters@.len() > 0 ==> tick_period(old(self).capabilities) != 0,
            old(self).free_counters@.len() > 0 ==> time_ms * 1_000_000_000_000 <= u64::MAX,
        ensures
            old(self).counters_wf() ==> final(self).counters_wf(),
            old(self).free_counters@.len() == 0 <==> r is None,
            r is None ==> *final(self) == *old(self),
            r matches Some((c, p)) ==> {
                &&& c == old(self).free_counters@.last()
                &&& final(self).free_counters@ == old(self).free_counters@.drop_last()
                &&& final(self).callbacks@ == old(self).callbacks@.push(TimerCallback(c, callback))
                &&& final(self).periodic_counters@ == old(self).periodic_counters@.push(c)
                &&& final(self).capabilities == old(self).capabilities
                &&& final(self).counter_64 == old(self).counter_64
                &&& p == old(self).set_timer_spec(time_ms, true, config_now, main_counter)
            },
    {
        if self.free_counters.len() == 0 {
            return None;
        }
        match self.free_counters.pop() {
            Some(counter) => {
                self.callbacks.push(TimerCallback(counter, callback));
                self.periodic_counters.push(counter);
                let p = self.set_timer(time_ms, true, config_now, main_counter);
                Some((counter, p))
            },
            None => None,
        }
    }

    /// What `set_timer` gives.
    pub open spec fn set_timer_spec(&self, time_ms: u64, periodic: bool, config_now: u64, main_counter: u64) -> TimerProgram {
        TimerProgram {
            comparator: (if self.counter_64 {
                (main_counter + ticks_for(self.capabilities, time_ms)) % 0x1_0000_0000_0000_0000
            } else {
                (main_counter + ticks_for(self.capabilities, time_ms)) % 0x1_0000_0000
            }) as u64,
            config: counter_config(config_now, periodic),
            periodic_reload: if periodic { Some(ticks_for(self.capabilities, time_ms) as u64) } else { None },
        }
    }

    /// Handle a timer interrupt whose status register reads `gisr`: the
    /// callbacks of the counter that fired run in order. A periodic counter
    /// keeps them; a one-shot counter drops them and becomes free again.
    pub fn handle_triggered_callbacks(&mut self, gisr: u64) -> (r: Option<TriggerOutcome>)
        ensures
            gisr == 0 <==> r is None,
            r is None ==> *final(self) == *old(self),
            r matches Some(o) ==> {
                &&& is_lowest_set_bit(gisr, o.counter as int)
                &&& o.ack == 1u64 << o.counter
                &&& o.run@ == callbacks_on(old(self).callbacks@, o.counter as u8)
                &&& final(self).capabilities == old(self).capabilities
                &&& final(self).counter_64 == old(self).counter_64
                &&& final(self).periodic_counters@ == old(self).periodic_counters@
                &&& if old(self).periodic_counters@.contains(o.counter as u8) {
                    &&& final(self).callbacks@ == old(self).callbacks@
                    &&& final(self).free_counters@ == old(self).free_counters@
                } else {
                    &&& final(self).callbacks@ == callbacks_off(old(self).callbacks@, o.counter as u8)
                    &&& final(self).free_counters@ == old(self).free_counters@.push(o.counter as u8)
                }
            },
    {
        match self.find_timer_interrupting(gisr) {
            None => None,
            Some((counter, ack)) => {
                let c = counter as u8;
                let periodic = contains_u8(&self.periodic_counters, c);
                let n = self.callbacks.len();
                let mut run: Vec<u64> = Vec::new();
                let mut kept: Vec<TimerCallback> = Vec::new();
                let mut i: usize = 0;
                while i < n
                    invariant
                        n == self.callbacks@.len(),
                        i <= n,
                        run@ == callbacks_on(self.callbacks@.take(i as int), c),
                        kept@ == callbacks_off(self.callbacks@.take(i as int), c),
                    decreases n - i,
                {
                    assert(self.callbacks@.take(i + 1).drop_last() =~= self.callbacks@.take(i as int));
                    let cb = self.callbacks[i];
                    if cb.0 == c {
                        run.push(cb.1);
                    } else {
                        kept.push(cb);
                    }
                    i = i + 1;
                }
                assert(self.callbacks@.take(n as int) =~= self.callbacks@);
                if !periodic {
                    self.callbacks = kept;
                    self.free_counters.push(c);
                }
                Some(TriggerOutcome { counter, ack, run })
            },
        }
    }
}

/// A one-shot callback runs once: after its counter has fired and its
/// callbacks have been dropped, no callback waits on that counter any more,
/// while every other counter keeps its callbacks in order.
pub proof fn lemma_oneshot_fires_once(cbs: Seq<TimerCallback>, c: u8, d: u8)
    requires
        d != c,
    ensures
        callbacks_on(callbacks_off(cbs, c), c) == Seq::<u64>::empty(),
        callbacks_on(callbacks_off(cbs, c), d) == callbacks_on(cbs, d),
    decreases cbs.len(),
{
    if cbs.len() > 0 {
        lemma_oneshot_fires_once(cbs.drop_last(), c, d);
        let rest = callbacks_off(cbs.drop_last(), c);
        if cbs.last().0 != c {
            assert(callbacks_off(cbs, c).drop_last() =~= rest);
        }
    }
}

/// Whether `v` holds `x`.
pub fn contains_u8(v: &Vec<u8>, x: u8) -> (r: bool)
    ensures
        r == v@.contains(x),
{
    let mut i: usize = 0;
    while i < v.len()
        invariant
            i <= v@.len(),
            forall|j: int| 0 <= j < i ==> v@[j] != x,
        decreases v@.len() - i,
    {
        if v[i] == x {
            return true;
        }
        i = i + 1;
    }
    false
}

/// Arrange a one-shot callback on the timer.
pub fn add_oneshot(hpet: &mut Hpet, time_ms: u64, callback: u64, config_now: u64, main_counter: u64)
    -> (r: Option<(u8, TimerProgram)>)
    requires
        old(hpet).free_counters@.len() > 0 ==> tick_period(old(hpet).capabilities) != 0,
        old(hpet).free_counters@.len() > 0 ==> time_ms * 1_000_000_000_000 <= u64::MAX,
    ensures
        old(hpet).free_counters@.len() == 0 <==> r is None,
        r is None ==> *final(hpet) == *old(hpet),
        r matches Some((c, p)) ==> {
            &&& c == old(hpet).free_counters@.last()
            &&& final(hpet).free_counters@ == old(hpet).free_counters@.drop_last()
            &&& final(hpet).callbacks@ == old(hpet).callbacks@.push(TimerCallback(c, callback))
            &&& final(hpet).periodic_counters@ == old(hpet).periodic_counters@
            &&& p == old(hpet).set_timer_spec(time_ms, false, config_now, main_counter)
        },
{
    hpet.add_oneshot_ms(time_ms, callback, config_now, main_counter)
}

/// Arrange a periodic callback on the timer.
pub fn add_periodic(hpet: &mut Hpet, time_ms: u64, callback: u64, config_now: u64, main_counter: u64)
    -> (r: Option<(u8, TimerProgram)>)
    requires
        old(hpet).free_counters@.len() > 0 ==> tick_period(old(hpet).capabilities) != 0,
        old(hpet).free_counters@.len() > 0 ==> time_ms * 1_000_000_000_000 <= u64::MAX,
    ensures
        old(hpet).free_counters@.len() == 0 <==> r is None,
        r is None ==> *final(hpet) == *old(hpet),
        r matches Some((c, p)) ==> {
            &&& c == old(hpet).free_counters@.last()
            &&& final(hpet).free_counters@ == old(hpet).free_counters@.drop_last()
            &&& final(hpet).callbacks@ == old(hpet).callbacks@.push(TimerCallback(c, callback))
            &&& final(hpet).periodic_counters@ == old(hpet).periodic_counters@.push(c)
            &&& p == old(hpet).set_timer_spec(time_ms, true, config_now, main_counter)
        },
{
    hpet.add_recurring_ms(time_ms, callback, config_now, main_counter)
}

/// The HPET device file; reading or writing it is refused.
pub struct HpetDevice {}

/// The driver for the HPET (ACPI `PNP0103`); it sets up one timer only.
pub struct HpetDriver {
    pub hpet_initialised: bool,
}

impl Driver for HpetDriver {
    open spec fn accepts(&self, info: DeviceInfo) -> bool {
        info matches DeviceInfo::SystemBus(sb) && has_hid(sb, "PNP0103"@)
    }

    open spec fn accepts_new(&self, info: DeviceInfo) -> bool {
        !self.hpet_initialised
    }

    fn check_device(&self, info: &DeviceInfo) -> (r: bool) {
        match info {
            DeviceInfo::SystemBus(sb) => match &sb.hid {
                Some(h) => *h == "PNP0103".to_owned(),
                None => false,
            },
            _ => false,
        }
    }

    fn check_new_device(&self, info: &DeviceInfo) -> (r: bool) {
        !self.hpet_initialised
    }
}

/// Register the HPET driver; no timer is set up yet.
pub fn init(table: &mut DriverTable)
    ensures
        final(table).drivers@ == old(table).drivers@.push(DriverKind::Hpet(HpetDriver { hpet_initialised: false })),
{
    register_driver(table, DriverKind::Hpet(HpetDriver { hpet_initialised: false }));
}

} // verus!
