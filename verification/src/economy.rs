//! The process-wide resource ledger, the tick counter and the diagnostic
//! log, together with the three per-tick accounting stages: production,
//! request aggregation with stall computation, and consumption settlement.

use vstd::prelude::*;
use crate::fixed::AMT_MAX;
use crate::fixed::CONS_BOUND;
use crate::fixed::PRODUCER_TOTAL_CAP;
use crate::fixed::Ratio;
use crate::fixed::SCALE;
use crate::fixed::STOCK_CEIL;
use crate::fixed::STOCK_FLOOR;
use crate::fixed::SUM_MAX;
use crate::fixed::YIELD_SUM_MAX;
use crate::fixed::ratio_one;
use crate::fixed::ratio_wf;
use crate::components::ResourceConsumer;
use crate::components::ResourceProducer;
use crate::store::Slot;
use crate::store::World;

verus! {

/// The resource economy: stock, capacity, throttle ratios and this tick's
/// produced / requested / consumed totals for each of the two resources.
#[derive(Clone, Copy, PartialEq, Eq, Structural, Debug)]
pub struct Economy {
    /// current available mass; may dip below zero briefly
    pub mass: i128,
    /// current available energy; may dip below zero briefly
    pub energy: i128,
    /// total storage capacity for mass
    pub mass_capacity: u128,
    /// total storage capacity for energy
    pub energy_capacity: u128,
    /// mass throttle: the fraction of its request each consumer receives
    pub mass_stall: Ratio,
    /// energy throttle
    pub energy_stall: Ratio,
    /// mass produced this tick
    pub mass_produced: u128,
    /// energy produced this tick
    pub energy_produced: u128,
    /// mass requested this tick
    pub mass_requested: u128,
    /// energy requested this tick
    pub energy_requested: u128,
    /// mass consumed this tick
    pub mass_consumed: u128,
    /// energy consumed this tick
    pub energy_consumed: u128,
}

pub open spec fn eco_wf(e: Economy) -> bool {
    &&& e.mass_capacity <= AMT_MAX
    &&& e.energy_capacity <= AMT_MAX
    &&& STOCK_FLOOR <= e.mass <= STOCK_CEIL
    &&& STOCK_FLOOR <= e.energy <= STOCK_CEIL
    &&& ratio_wf(e.mass_stall)
    &&& ratio_wf(e.energy_stall)
    &&& e.mass_produced <= YIELD_SUM_MAX
    &&& e.energy_produced <= YIELD_SUM_MAX
    &&& e.mass_requested <= SUM_MAX
    &&& e.energy_requested <= SUM_MAX
    &&& e.mass_consumed <= SUM_MAX
    &&& e.energy_consumed <= SUM_MAX
}

/// An empty economy with the given capacities: no stock, no throttling,
/// nothing yet produced, requested or consumed.
pub open spec fn economy_with_capacities(mass_capacity: u128, energy_capacity: u128) -> Economy {
    Economy {
        mass: 0,
        energy: 0,
        mass_capacity,
        energy_capacity,
        mass_stall: ratio_one(),
        energy_stall: ratio_one(),
        mass_produced: 0,
        energy_produced: 0,
        mass_requested: 0,
        energy_requested: 0,
        mass_consumed: 0,
        energy_consumed: 0,
    }
}

impl Default for Economy {
    /// An empty ledger storing up to 4000 mass and 100000 energy.
    fn default() -> (e: Economy)
        ensures
            e == economy_with_capacities(4_000_000_000, 100_000_000_000),
    {
        Economy {
            mass: 0,
            energy: 0,
            mass_capacity: 4_000_000_000,
            energy_capacity: 100_000_000_000,
            mass_stall: Ratio { num: 1, den: 1 },
            energy_stall: Ratio { num: 1, den: 1 },
            mass_produced: 0,
            energy_produced: 0,
            mass_requested: 0,
            energy_requested: 0,
            mass_consumed: 0,
            energy_consumed: 0,
        }
    }
}

/// The number of completed ticks.
#[derive(Clone, Copy, PartialEq, Eq, Structural, Debug)]
pub struct CurrentTick(pub u64);

/// One overconsumption diagnostic: the tick it fired on and the stock
/// levels that triggered it.
#[derive(Clone, Copy, PartialEq, Eq, Structural, Debug)]
pub struct Warning {
    pub tick: u64,
    pub mass: i128,
    pub energy: i128,
}

/// The diagnostic sink: warnings are recorded here in order and have no
/// effect on simulation state; the driver drains and renders them.
#[derive(Debug)]
pub struct LogHandler {
    pub entries: Vec<Warning>,
}

impl LogHandler {
    /// An empty log.
    pub fn new() -> (h: LogHandler)
        ensures
            h.entries@ == Seq::<Warning>::empty(),
    {
        LogHandler { entries: Vec::new() }
    }

    /// Record one warning.
    pub fn emit(&mut self, w: Warning)
        ensures
            final(self).entries@ == old(self).entries@.push(w),
    {
        self.entries.push(w);
    }
}

/// The entity counts toward production: live, executing and a producer.
/// A paused entity still produces.
pub open spec fn produces(s: Slot) -> bool {
    s.alive && s.executing && s.producer is Some
}

/// The entity's requests count toward the stall computation: live,
/// executing, not paused, and a consumer.
pub open spec fn requests_counted(s: Slot) -> bool {
    s.alive && s.executing && !s.paused && s.consumer is Some
}

/// The entity's realized consumption is settled and its accumulators
/// reset: every live consumer.
pub open spec fn consumption_counted(s: Slot) -> bool {
    s.alive && s.consumer is Some
}

/// Mass yield per tick over the first `n` producing slots.
pub open spec fn mass_yield_sum(slots: Seq<Slot>, n: int) -> int
    decreases n,
{
    if n <= 0 {
        0
    } else {
        mass_yield_sum(slots, n - 1) + (if produces(slots[n - 1]) {
            slots[n - 1].producer->0.mass_yield as int
        } else {
            0
        })
    }
}

/// Energy yield per tick over the first `n` producing slots.
pub open spec fn energy_yield_sum(slots: Seq<Slot>, n: int) -> int
    decreases n,
{
    if n <= 0 {
        0
    } else {
        energy_yield_sum(slots, n - 1) + (if produces(slots[n - 1]) {
            slots[n - 1].producer->0.energy_yield as int
        } else {
            0
        })
    }
}

/// Mass requested over the first `n` counted consumers.
pub open spec fn mass_request_sum(slots: Seq<Slot>, n: int) -> int
    decreases n,
{
    if n <= 0 {
        0
    } else {
        mass_request_sum(slots, n - 1) + (if requests_counted(slots[n - 1]) {
            slots[n - 1].consumer->0.mass_request as int
        } else {
            0
        })
    }
}

/// Energy requested over the first `n` counted consumers.
pub open spec fn energy_request_sum(slots: Seq<Slot>, n: int) -> int
    decreases n,
{
    if n <= 0 {
        0
    } else {
        energy_request_sum(slots, n - 1) + (if requests_counted(slots[n - 1]) {
            slots[n - 1].consumer->0.energy_request as int
        } else {
            0
        })
    }
}

/// Mass consumed over the first `n` settling consumers.
pub open spec fn mass_consumed_sum(slots: Seq<Slot>, n: int) -> int
    decreases n,
{
    if n <= 0 {
        0
    } else {
        mass_consumed_sum(slots, n - 1) + (if consumption_counted(slots[n - 1]) {
            slots[n - 1].consumer->0.mass_consumed as int
        } else {
            0
        })
    }
}

/// Energy consumed over the first `n` settling consumers.
pub open spec fn energy_consumed_sum(slots: Seq<Slot>, n: int) -> int
    decreases n,
{
    if n <= 0 {
        0
    } else {
        energy_consumed_sum(slots, n - 1) + (if consumption_counted(slots[n - 1]) {
            slots[n - 1].consumer->0.energy_consumed as int
        } else {
            0
        })
    }
}

/// All six per-tick sums are non-negative and grow by at most one bound per
/// slot.
pub proof fn lemma_sums_bounded(slots: Seq<Slot>, n: int)
    requires
        0 <= n <= slots.len(),
        forall|i: int| 0 <= i < slots.len() ==> crate::store::slot_wf(#[trigger] slots[i]),
    ensures
        0 <= mass_yield_sum(slots, n) <= n * AMT_MAX,
        0 <= energy_yield_sum(slots, n) <= n * AMT_MAX,
        0 <= mass_request_sum(slots, n) <= n * CONS_BOUND,
        0 <= energy_request_sum(slots, n) <= n * CONS_BOUND,
        0 <= mass_consumed_sum(slots, n) <= n * CONS_BOUND,
        0 <= energy_consumed_sum(slots, n) <= n * CONS_BOUND,
    decreases n,
{
    if n > 0 {
        lemma_sums_bounded(slots, n - 1);
    }
}

/// The per-resource throttle: `min(1, stock / requested)`, taken as 1 when
/// nothing is requested (no demand means no throttling) and as 0 when no
/// stock is left, held exactly as a ratio.
pub open spec fn stall_of(stock: int, requested: int) -> Ratio {
    if requested <= 0 {
        ratio_one()
    } else if stock >= requested {
        ratio_one()
    } else if stock <= 0 {
        Ratio { num: 0, den: 1 }
    } else {
        Ratio { num: stock as u128, den: requested as u128 }
    }
}

/// Stock after settlement: capped at capacity from above and saturating at
/// the representation floor from below.
pub open spec fn settle_stock(stock: int, consumed: int, cap: int) -> int {
    let v = if stock - consumed <= cap {
        stock - consumed
    } else {
        cap
    };
    if v >= STOCK_FLOOR {
        v
    } else {
        STOCK_FLOOR as int
    }
}

/// A producer's lifetime total after one tick's yield, saturating at
/// `PRODUCER_TOTAL_CAP` instead of overflowing.
pub open spec fn sat_total(total: int, y: int) -> int {
    if total + y <= PRODUCER_TOTAL_CAP {
        total + y
    } else {
        PRODUCER_TOTAL_CAP as int
    }
}

/// Resource production accounting: every live executing producer's yield is
/// added to stock (uncapped until settlement) and recorded as this tick's
/// production, and each producer's lifetime totals advance.
pub fn economy_resource_producers(world: &mut World)
    requires
        old(world).wf(),
        old(world).economy.mass <= old(world).economy.mass_capacity,
        old(world).economy.energy <= old(world).economy.energy_capacity,
    ensures
        final(world).wf(),
        final(world).slots@.len() == old(world).slots@.len(),
        forall|i: int|
            0 <= i < old(world).slots@.len() && !produces(old(world).slots@[i]) ==> final(world).slots@[i] == old(world).slots@[i],
        forall|i: int|
            0 <= i < old(world).slots@.len() && produces(#[trigger] old(world).slots@[i])
                ==> final(world).slots@[i] == (Slot {
                producer: Some(
                    ResourceProducer {
                        total_mass: sat_total(
                            old(world).slots@[i].producer->0.total_mass as int,
                            old(world).slots@[i].producer->0.mass_yield as int,
                        ) as u128,
                        total_energy: sat_total(
                            old(world).slots@[i].producer->0.total_energy as int,
                            old(world).slots@[i].producer->0.energy_yield as int,
                        ) as u128,
                        ..old(world).slots@[i].producer->0
                    },
                ),
                ..old(world).slots@[i]
            }),
        final(world).economy == (Economy {
            mass: (old(world).economy.mass + mass_yield_sum(
                old(world).slots@,
                old(world).slots@.len() as int,
            )) as i128,
            energy: (old(world).economy.energy + energy_yield_sum(
                old(world).slots@,
                old(world).slots@.len() as int,
            )) as i128,
            mass_produced: mass_yield_sum(
                old(world).slots@,
                old(world).slots@.len() as int,
            ) as u128,
            energy_produced: energy_yield_sum(
                old(world).slots@,
                old(world).slots@.len() as int,
            ) as u128,
            ..old(world).economy
        }),
        final(world).free@ == old(world).free@,
        final(world).current_tick == old(world).current_tick,
        final(world).log.entries@ == old(world).log.entries@,
{
    let ghost s0 = world.slots@;
    let n = world.slots.len();
    let mut acc_mass: u128 = 0;
    let mut acc_energy: u128 = 0;
    let mut i: usize = 0;
    while i < n
        invariant
            n == world.slots@.len(),
            n == s0.len(),
            0 <= i <= n,
            forall|j: int| 0 <= j < s0.len() ==> crate::store::slot_wf(#[trigger] s0[j]),
            forall|j: int| i <= j < s0.len() ==> world.slots@[j] == s0[j],
            forall|j: int| 0 <= j < i && !produces(s0[j]) ==> world.slots@[j] == s0[j],
            forall|j: int|
                0 <= j < i && produces(#[trigger] s0[j]) ==> world.slots@[j] == (Slot {
                    producer: Some(
                        ResourceProducer {
                            total_mass: sat_total(
                                s0[j].producer->0.total_mass as int,
                                s0[j].producer->0.mass_yield as int,
                            ) as u128,
                            total_energy: sat_total(
                                s0[j].producer->0.total_energy as int,
                                s0[j].producer->0.energy_yield as int,
                            ) as u128,
                            ..s0[j].producer->0
                        },
                    ),
                    ..s0[j]
                }),
            forall|j: int| 0 <= j < world.slots@.len() ==> crate::store::slot_wf(
                #[trigger] world.slots@[j],
            ),
            acc_mass == mass_yield_sum(s0, i as int),
            acc_energy == energy_yield_sum(s0, i as int),
            world.economy == old(world).economy,
            world.free@ == old(world).free@,
            world.current_tick == old(world).current_tick,
            world.log.entries@ == old(world).log.entries@,
        decreases n - i,
    {
        proof {
            lemma_sums_bounded(s0, i as int);
            lemma_sums_bounded(s0, i as int + 1);
            assert(i as int * AMT_MAX <= s0.len() as int * AMT_MAX) by {
                vstd::arithmetic::mul::lemma_mul_inequality(i as int, s0.len() as int, AMT_MAX as int);
            }
            assert(s0.len() <= usize::MAX);
        }
        let s = world.slots[i];
        if s.alive && s.executing && s.producer.is_some() {
            let p = s.producer.unwrap();
            let nt_mass = if p.total_mass <= PRODUCER_TOTAL_CAP - p.mass_yield {
                p.total_mass + p.mass_yield
            } else {
                PRODUCER_TOTAL_CAP
            };
            let nt_energy = if p.total_energy <= PRODUCER_TOTAL_CAP - p.energy_yield {
                p.total_energy + p.energy_yield
            } else {
                PRODUCER_TOTAL_CAP
            };
            let mut s2 = s;
            s2.producer = Some(
                ResourceProducer {
                    mass_yield: p.mass_yield,
                    energy_yield: p.energy_yield,
                    total_mass: nt_mass,
                    total_energy: nt_energy,
                },
            );
            world.slots.set(i, s2);
            acc_mass = acc_mass + p.mass_yield;
            acc_energy = acc_energy + p.energy_yield;
        }
        i = i + 1;
    }
    proof {
        lemma_sums_bounded(s0, n as int);
        assert(n as int * AMT_MAX <= 18_446_744_073_709_551_615 * AMT_MAX) by {
            vstd::arithmetic::mul::lemma_mul_inequality(
                n as int,
                18_446_744_073_709_551_615,
                AMT_MAX as int,
            );
        }
    }
    world.economy.mass = world.economy.mass + (acc_mass as i128);
    world.economy.energy = world.economy.energy + (acc_energy as i128);
    world.economy.mass_produced = acc_mass;
    world.economy.energy_produced = acc_energy;
}

/// Request aggregation and stall computation: the requests of every live,
/// executing, unpaused consumer are summed, and each resource's stall
/// ratio is fixed for this tick at `min(1, stock / requested)` — 1 when
/// nothing is requested, 0 when no stock remains. The entity table is
/// read, never written.
pub fn economy_process_resource_requests(world: &mut World)
    requires
        old(world).wf(),
    ensures
        final(world).wf(),
        final(world).slots@ == old(world).slots@,
        final(world).economy == (Economy {
            mass_stall: stall_of(
                old(world).economy.mass as int,
                mass_request_sum(old(world).slots@, old(world).slots@.len() as int),
            ),
            energy_stall: stall_of(
                old(world).economy.energy as int,
                energy_request_sum(old(world).slots@, old(world).slots@.len() as int),
            ),
            mass_requested: mass_request_sum(
                old(world).slots@,
                old(world).slots@.len() as int,
            ) as u128,
            energy_requested: energy_request_sum(
                old(world).slots@,
                old(world).slots@.len() as int,
            ) as u128,
            ..old(world).economy
        }),
        final(world).free@ == old(world).free@,
        final(world).current_tick == old(world).current_tick,
        final(world).log.entries@ == old(world).log.entries@,
        ratio_wf(final(world).economy.mass_stall),
        ratio_wf(final(world).economy.energy_stall),
        final(world).economy.mass_requested == 0 ==> final(world).economy.mass_stall
            == ratio_one(),
        final(world).economy.energy_requested == 0 ==> final(world).economy.energy_stall
            == ratio_one(),
{
    let ghost s0 = world.slots@;
    let n = world.slots.len();
    let mut acc_mass: u128 = 0;
    let mut acc_energy: u128 = 0;
    let mut i: usize = 0;
    while i < n
        invariant
            n == world.slots@.len(),
            world.slots@ == s0,
            0 <= i <= n,
            forall|j: int| 0 <= j < s0.len() ==> crate::store::slot_wf(#[trigger] s0[j]),
            acc_mass == mass_request_sum(s0, i as int),
            acc_energy == energy_request_sum(s0, i as int),
            world.economy == old(world).economy,
            world.free@ == old(world).free@,
            world.current_tick == old(world).current_tick,
            world.log.entries@ == old(world).log.entries@,
        decreases n - i,
    {
        proof {
            lemma_sums_bounded(s0, i as int);
            lemma_sums_bounded(s0, i as int + 1);
            assert(i as int * CONS_BOUND <= s0.len() as int * CONS_BOUND) by {
                vstd::arithmetic::mul::lemma_mul_inequality(
                    i as int,
                    s0.len() as int,
                    CONS_BOUND as int,
                );
            }
            assert(s0.len() as int * CONS_BOUND <= 18_446_744_073_709_551_615 * CONS_BOUND) by {
                vstd::arithmetic::mul::lemma_mul_inequality(
                    s0.len() as int,
                    18_446_744_073_709_551_615,
                    CONS_BOUND as int,
                );
            }
        }
        let s = world.slots[i];
        if s.alive && s.executing && !s.paused && s.consumer.is_some() {
            let c = s.consumer.unwrap();
            acc_mass = acc_mass + c.mass_request;
            acc_energy = acc_energy + c.energy_request;
        }
        i = i + 1;
    }
    proof {
        lemma_sums_bounded(s0, n as int);
        assert(n as int * CONS_BOUND <= 18_446_744_073_709_551_615 * CONS_BOUND) by {
            vstd::arithmetic::mul::lemma_mul_inequality(
                n as int,
                18_446_744_073_709_551_615,
                CONS_BOUND as int,
            );
        }
    }
    let mass_stall: Ratio = if acc_mass == 0 {
        Ratio { num: 1, den: 1 }
    } else if world.economy.mass >= acc_mass as i128 {
        Ratio { num: 1, den: 1 }
    } else if world.economy.mass <= 0 {
        Ratio { num: 0, den: 1 }
    } else {
        Ratio { num: world.economy.mass as u128, den: acc_mass }
    };
    let energy_stall: Ratio = if acc_energy == 0 {
        Ratio { num: 1, den: 1 }
    } else if world.economy.energy >= acc_energy as i128 {
        Ratio { num: 1, den: 1 }
    } else if world.economy.energy <= 0 {
        Ratio { num: 0, den: 1 }
    } else {
        Ratio { num: world.economy.energy as u128, den: acc_energy }
    };
    world.economy.mass_stall = mass_stall;
    world.economy.energy_stall = energy_stall;
    world.economy.mass_requested = acc_mass;
    world.economy.energy_requested = acc_energy;
}

/// Consumption accounting and bookkeeping reset: every live consumer's
/// realized consumption is summed and subtracted from stock (capped at
/// capacity from above only), its accumulators are zeroed, and an
/// overconsumption warning is recorded if stock ends more than one unit
/// below zero.
pub fn economy_process_resource_consumption(world: &mut World)
    requires
        old(world).wf(),
    ensures
        final(world).wf(),
        final(world).slots@.len() == old(world).slots@.len(),
        forall|i: int|
            0 <= i < old(world).slots@.len() && !consumption_counted(old(world).slots@[i])
                ==> final(world).slots@[i] == old(world).slots@[i],
        forall|i: int|
            0 <= i < old(world).slots@.len() && consumption_counted(#[trigger] old(world).slots@[i])
                ==> final(world).slots@[i] == (Slot {
                consumer: Some(crate::store::zero_consumer()),
                ..old(world).slots@[i]
            }),
        final(world).economy == (Economy {
            mass: settle_stock(
                old(world).economy.mass as int,
                mass_consumed_sum(old(world).slots@, old(world).slots@.len() as int),
                old(world).economy.mass_capacity as int,
            ) as i128,
            energy: settle_stock(
                old(world).economy.energy as int,
                energy_consumed_sum(old(world).slots@, old(world).slots@.len() as int),
                old(world).economy.energy_capacity as int,
            ) as i128,
            mass_consumed: mass_consumed_sum(
                old(world).slots@,
                old(world).slots@.len() as int,
            ) as u128,
            energy_consumed: energy_consumed_sum(
                old(world).slots@,
                old(world).slots@.len() as int,
            ) as u128,
            ..old(world).economy
        }),
        final(world).economy.mass <= final(world).economy.mass_capacity,
        final(world).economy.energy <= final(world).economy.energy_capacity,
        final(world).free@ == old(world).free@,
        final(world).current_tick == old(world).current_tick,
        (final(world).economy.mass < -(SCALE as i128) || final(world).economy.energy < -(
        SCALE as i128)) ==> final(world).log.entries@ == old(world).log.entries@.push(
            Warning {
                tick: old(world).current_tick.0,
                mass: final(world).economy.mass,
                energy: final(world).economy.energy,
            },
        ),
        !(final(world).economy.mass < -(SCALE as i128) || final(world).economy.energy < -(
        SCALE as i128)) ==> final(world).log.entries@ == old(world).log.entries@,
        crate::store::consumers_settled(final(world).slots@),
{
    let ghost s0 = world.slots@;
    let n = world.slots.len();
    let mut acc_mass: u128 = 0;
    let mut acc_energy: u128 = 0;
    let mut i: usize = 0;
    while i < n
        invariant
            n == world.slots@.len(),
            n == s0.len(),
            0 <= i <= n,
            forall|j: int| 0 <= j < s0.len() ==> crate::store::slot_wf(#[trigger] s0[j]),
            forall|j: int| i <= j < s0.len() ==> world.slots@[j] == s0[j],
            forall|j: int| 0 <= j < i && !consumption_counted(s0[j]) ==> world.slots@[j] == s0[j],
            forall|j: int|
                0 <= j < i && consumption_counted(#[trigger] s0[j]) ==> world.slots@[j] == (Slot {
                    consumer: Some(crate::store::zero_consumer()),
                    ..s0[j]
                }),
            forall|j: int| 0 <= j < world.slots@.len() ==> crate::store::slot_wf(
                #[trigger] world.slots@[j],
            ),
            acc_mass == mass_consumed_sum(s0, i as int),
            acc_energy == energy_consumed_sum(s0, i as int),
            world.economy == old(world).economy,
            world.free@ == old(world).free@,
            world.current_tick == old(world).current_tick,
            world.log.entries@ == old(world).log.entries@,
        decreases n - i,
    {
        proof {
            lemma_sums_bounded(s0, i as int);
            lemma_sums_bounded(s0, i as int + 1);
            assert(i as int * CONS_BOUND <= s0.len() as int * CONS_BOUND) by {
                vstd::arithmetic::mul::lemma_mul_inequality(
                    i as int,
                    s0.len() as int,
                    CONS_BOUND as int,
                );
            }
            assert(s0.len() as int * CONS_BOUND <= 18_446_744_073_709_551_615 * CONS_BOUND) by {
                vstd::arithmetic::mul::lemma_mul_inequality(
                    s0.len() as int,
                    18_446_744_073_709_551_615,
                    CONS_BOUND as int,
                );
            }
        }
        let s = world.slots[i];
        if s.alive && s.consumer.is_some() {
            let c = s.consumer.unwrap();
            acc_mass = acc_mass + c.mass_consumed;
            acc_energy = acc_energy + c.energy_consumed;
            let mut s2 = s;
            s2.consumer = Some(
                ResourceConsumer {
                    mass_request: 0,
                    energy_request: 0,
                    mass_consumed: 0,
                    energy_consumed: 0,
                },
            );
            world.slots.set(i, s2);
        }
        i = i + 1;
    }
    proof {
        lemma_sums_bounded(s0, n as int);
        assert(n as int * CONS_BOUND <= 18_446_744_073_709_551_615 * CONS_BOUND) by {
            vstd::arithmetic::mul::lemma_mul_inequality(
                n as int,
                18_446_744_073_709_551_615,
                CONS_BOUND as int,
            );
        }
    }
    let mut v_mass: i128 = world.economy.mass - (acc_mass as i128);
    if v_mass > world.economy.mass_capacity as i128 {
        v_mass = world.economy.mass_capacity as i128;
    }
    if v_mass < STOCK_FLOOR {
        v_mass = STOCK_FLOOR;
    }
    let mut v_energy: i128 = world.economy.energy - (acc_energy as i128);
    if v_energy > world.economy.energy_capacity as i128 {
        v_energy = world.economy.energy_capacity as i128;
    }
    if v_energy < STOCK_FLOOR {
        v_energy = STOCK_FLOOR;
    }
    world.economy.mass = v_mass;
    world.economy.energy = v_energy;
    world.economy.mass_consumed = acc_mass;
    world.economy.energy_consumed = acc_energy;
    if world.economy.mass < -(SCALE as i128) || world.economy.energy < -(SCALE as i128) {
        let w = Warning {
            tick: world.current_tick.0,
            mass: world.economy.mass,
            energy: world.economy.energy,
        };
        world.log.emit(w);
    }
    proof {
        assert forall|i: int|
            0 <= i < world.slots@.len() && (#[trigger] world.slots@[i]).consumer is Some implies
            crate::components::consumer_settled_bound(world.slots@[i].consumer->0) by {
            if consumption_counted(s0[i]) {
                assert(world.slots@[i].consumer == Some(crate::store::zero_consumer()));
            } else {
                assert(world.slots@[i] == s0[i]);
                assert(s0[i].consumer is Some ==> s0[i].alive);
            }
        }
    }
}

} // verus!
