//! The construction resolver: the request phase, which works out what each
//! builder wants this tick; the settlement phase, which applies the
//! ledger's stall-throttled allocation to each target's progress; and the
//! completion trigger, which starts a finished unit executing.

use vstd::prelude::*;
use crate::components::Constructing;
use crate::components::Damage;
use crate::components::EntityId;
use crate::components::ResourceConsumer;
use crate::economy::Economy;
use crate::fixed::AMT_MAX;
use crate::fixed::BUILD_AMOUNT_CAP;
use crate::fixed::CONS_BOUND;
use crate::fixed::MULT_MAX;
use crate::fixed::MULT_MIN;
use crate::fixed::REQ_MAX;
use crate::fixed::Ratio;
use crate::fixed::SCALE;
use crate::fixed::lemma_div_le;
use crate::fixed::lemma_div_mul_le;
use crate::fixed::lemma_mul_le;
use crate::fixed::lemma_share_le;
use crate::store::Command;
use crate::store::Slot;
use crate::store::World;
use crate::store::slot_id;
use crate::store::slot_wf;
use crate::store::valid_in;

verus! {

/// The entity takes part in the request phase: live, executing, unpaused,
/// with a construction edge, an engineering suite and a consumer.
pub open spec fn builder_requesting(s: Slot) -> bool {
    &&& s.alive
    &&& s.executing
    &&& !s.paused
    &&& s.constructing is Some
    &&& s.engineering is Some
    &&& s.consumer is Some
}

/// The entity takes part in the settlement phase: live, executing,
/// unpaused, with a construction edge and a consumer.
pub open spec fn builder_settling(s: Slot) -> bool {
    &&& s.alive
    &&& s.executing
    &&& !s.paused
    &&& s.constructing is Some
    &&& s.consumer is Some
}

/// The edge's target still exists and can be built.
pub open spec fn target_buildable(slots: Seq<Slot>, id: EntityId) -> bool {
    valid_in(slots, id) && slots[id.idx as int].damage is Some
}

/// The fraction of the target's normalized work one builder completes per
/// tick at full allocation: `build_rate / build_time`, exact up to the
/// representation's saturation point `BUILD_AMOUNT_CAP` (see fixed.rs).
pub open spec fn build_amount_of(rate: int, build_time: int) -> int {
    let v = rate * (SCALE as int) / build_time;
    if v <= BUILD_AMOUNT_CAP {
        v
    } else {
        BUILD_AMOUNT_CAP as int
    }
}

/// A resource request derived from a build amount: the share of the
/// target's total cost worked off this tick, scaled by the consumption
/// multiplier.
pub open spec fn edge_request(ba: int, total: int, mult: int) -> int {
    ba * total / (SCALE as int) * mult / (SCALE as int)
}

/// The resources a builder may spend this tick: its recorded request,
/// throttled by the stall ratio, with the multiplier taken back out.
pub open spec fn avail_of(req: int, st: Ratio, mult: int) -> int {
    (req * (SCALE as int) / (st.den as int)) * (st.num as int) / mult
}

/// Progress is bounded by the scarcer resource: the least of the two
/// available amounts, each normalized by the target's total cost.
pub open spec fn portion_of(m_av: int, mass_total: int, e_av: int, energy_total: int) -> int {
    vstd::math::min(m_av * (SCALE as int) / mass_total, e_av * (SCALE as int) / energy_total)
}

/// The resources actually drawn for a portion of progress: the share of
/// the target's total cost, scaled by the consumption multiplier.
pub open spec fn used_of(p: int, total: int, mult: int) -> int {
    p * total / (SCALE as int) * mult / (SCALE as int)
}

/// The builder's slot after the request phase recomputes its edge against
/// the target's cost and adds the result into its consumer.
pub open spec fn requested_slot(s: Slot, td: Damage) -> Slot {
    let c = s.constructing->0;
    let ba = build_amount_of(s.engineering->0.build_rate as int, td.build_time as int);
    let mreq = edge_request(ba, td.mass_total as int, c.mass_consumption_multiplier as int);
    let ereq = edge_request(ba, td.energy_total as int, c.energy_consumption_multiplier as int);
    Slot {
        constructing: Some(
            Constructing {
                mass_requested: mreq as u128,
                energy_requested: ereq as u128,
                build_amount: ba as u128,
                ..c
            },
        ),
        consumer: Some(
            ResourceConsumer {
                mass_request: (s.consumer->0.mass_request + mreq) as u128,
                energy_request: (s.consumer->0.energy_request + ereq) as u128,
                ..s.consumer->0
            },
        ),
        ..s
    }
}

/// The edge-removal commands the request phase issues for builders whose
/// target is gone, in slot order.
pub open spec fn request_cmds(slots: Seq<Slot>, n: int) -> Seq<Command>
    decreases n,
{
    if n <= 0 {
        Seq::empty()
    } else {
        request_cmds(slots, n - 1) + (if builder_requesting(slots[n - 1]) && !target_buildable(
            slots,
            slots[n - 1].constructing->0.target,
        ) {
            seq![Command::RemoveConstructing(slot_id(slots, n - 1))]
        } else {
            Seq::empty()
        })
    }
}

/// Request phase: every live, executing, unpaused builder with a live
/// target recomputes its edge's build amount and resource requests from
/// the target's cost and adds them into its consumer; a builder whose
/// target is gone gets an edge-removal command instead. Targets are read,
/// never written.
pub fn do_construct_resources_request(world: &mut World, commands: &mut Vec<Command>)
    requires
        old(world).wf(),
        crate::store::consumers_settled(old(world).slots@),
    ensures
        final(world).wf(),
        final(world).slots@.len() == old(world).slots@.len(),
        forall|i: int|
            0 <= i < old(world).slots@.len() && !(builder_requesting(old(world).slots@[i])
                && target_buildable(
                old(world).slots@,
                old(world).slots@[i].constructing->0.target,
            )) ==> final(world).slots@[i] == old(world).slots@[i],
        forall|i: int|
            0 <= i < old(world).slots@.len() && builder_requesting(#[trigger] old(world).slots@[i])
                && target_buildable(old(world).slots@, old(world).slots@[i].constructing->0.target)
                ==> final(world).slots@[i] == requested_slot(
                old(world).slots@[i],
                old(world).slots@[old(world).slots@[i].constructing->0.target.idx as int].damage->0,
            ),
        final(commands)@ == old(commands)@ + request_cmds(
            old(world).slots@,
            old(world).slots@.len() as int,
        ),
        forall|k: int|
            old(commands)@.len() <= k < final(commands)@.len() ==> crate::store::command_wf(
                #[trigger] final(commands)@[k],
            ),
        final(world).economy == old(world).economy,
        final(world).free@ == old(world).free@,
        final(world).current_tick == old(world).current_tick,
        final(world).log.entries@ == old(world).log.entries@,
{
    let ghost s0 = world.slots@;
    let ghost c0 = commands@;
    let n = world.slots.len();
    let mut i: usize = 0;
    while i < n
        invariant
            n == world.slots@.len(),
            n == s0.len(),
            0 <= i <= n,
            forall|j: int| 0 <= j < s0.len() ==> slot_wf(#[trigger] s0[j]),
            forall|j: int|
                0 <= j < s0.len() && (#[trigger] s0[j]).consumer is Some
                    ==> crate::components::consumer_settled_bound(s0[j].consumer->0),
            forall|j: int| i <= j < s0.len() ==> world.slots@[j] == s0[j],
            forall|j: int|
                0 <= j < i && !(builder_requesting(s0[j]) && target_buildable(
                    s0,
                    s0[j].constructing->0.target,
                )) ==> world.slots@[j] == s0[j],
            forall|j: int|
                0 <= j < i && builder_requesting(#[trigger] s0[j]) && target_buildable(
                    s0,
                    s0[j].constructing->0.target,
                ) ==> world.slots@[j] == requested_slot(
                    s0[j],
                    s0[s0[j].constructing->0.target.idx as int].damage->0,
                ),
            forall|j: int|
                0 <= j < s0.len() ==> (#[trigger] world.slots@[j]).alive == s0[j].alive
                    && world.slots@[j].gen == s0[j].gen && world.slots@[j].damage == s0[j].damage,
            forall|j: int| 0 <= j < world.slots@.len() ==> slot_wf(#[trigger] world.slots@[j]),
            commands@ == c0 + request_cmds(s0, i as int),
            forall|k: int|
                c0.len() <= k < commands@.len() ==> crate::store::command_wf(
                    #[trigger] commands@[k],
                ),
            world.economy == old(world).economy,
            world.free@ == old(world).free@,
            world.current_tick == old(world).current_tick,
            world.log.entries@ == old(world).log.entries@,
        decreases n - i,
    {
        let s = world.slots[i];
        if s.alive && s.executing && !s.paused && s.constructing.is_some()
            && s.engineering.is_some() && s.consumer.is_some() {
            let c = s.constructing.unwrap();
            let t = c.target;
            if t.idx < world.slots.len() && world.slots[t.idx].alive && world.slots[t.idx].gen
                == t.gen && world.slots[t.idx].damage.is_some() {
                let td = world.slots[t.idx].damage.unwrap();
                proof {
                    assert(world.slots@[t.idx as int].damage == s0[t.idx as int].damage);
                    assert(target_buildable(s0, t));
                    lemma_div_le(
                        s.engineering->0.build_rate as int * SCALE,
                        AMT_MAX as int * SCALE,
                        td.build_time as int,
                    );
                }
                let rate = s.engineering.unwrap().build_rate;
                let v = rate * SCALE / td.build_time;
                let ba = if v <= BUILD_AMOUNT_CAP {
                    v
                } else {
                    BUILD_AMOUNT_CAP
                };
                proof {
                    lemma_mul_le(
                        ba as int,
                        td.mass_total as int,
                        BUILD_AMOUNT_CAP as int,
                        AMT_MAX as int,
                    );
                    lemma_mul_le(
                        ba as int,
                        td.energy_total as int,
                        BUILD_AMOUNT_CAP as int,
                        AMT_MAX as int,
                    );
                    lemma_div_le(
                        ba as int * td.mass_total as int,
                        BUILD_AMOUNT_CAP as int * AMT_MAX as int,
                        SCALE as int,
                    );
                    lemma_div_le(
                        ba as int * td.energy_total as int,
                        BUILD_AMOUNT_CAP as int * AMT_MAX as int,
                        SCALE as int,
                    );
                    lemma_mul_le(
                        ba as int * td.mass_total as int / SCALE as int,
                        c.mass_consumption_multiplier as int,
                        BUILD_AMOUNT_CAP as int * AMT_MAX as int / SCALE as int,
                        MULT_MAX as int,
                    );
                    lemma_mul_le(
                        ba as int * td.energy_total as int / SCALE as int,
                        c.energy_consumption_multiplier as int,
                        BUILD_AMOUNT_CAP as int * AMT_MAX as int / SCALE as int,
                        MULT_MAX as int,
                    );
                    lemma_div_le(
                        (ba as int * td.mass_total as int / SCALE as int)
                            * c.mass_consumption_multiplier as int,
                        (BUILD_AMOUNT_CAP as int * AMT_MAX as int / SCALE as int) * (
                        MULT_MAX as int),
                        SCALE as int,
                    );
                    lemma_div_le(
                        (ba as int * td.energy_total as int / SCALE as int)
                            * c.energy_consumption_multiplier as int,
                        (BUILD_AMOUNT_CAP as int * AMT_MAX as int / SCALE as int) * (
                        MULT_MAX as int),
                        SCALE as int,
                    );
                }
                let mreq = ba * td.mass_total / SCALE * c.mass_consumption_multiplier / SCALE;
                let ereq = ba * td.energy_total / SCALE * c.energy_consumption_multiplier / SCALE;
                let mut s2 = s;
                s2.constructing = Some(
                    Constructing {
                        target: c.target,
                        mass_requested: mreq,
                        energy_requested: ereq,
                        mass_consumption_multiplier: c.mass_consumption_multiplier,
                        energy_consumption_multiplier: c.energy_consumption_multiplier,
                        build_amount: ba,
                    },
                );
                let cons = s.consumer.unwrap();
                s2.consumer = Some(
                    ResourceConsumer {
                        mass_request: cons.mass_request + mreq,
                        energy_request: cons.energy_request + ereq,
                        mass_consumed: cons.mass_consumed,
                        energy_consumed: cons.energy_consumed,
                    },
                );
                world.slots.set(i, s2);
                proof {
                    assert(world.slots@[i as int] == requested_slot(s0[i as int], s0[t.idx as int].damage->0));
                    assert(commands@ =~= c0 + request_cmds(s0, i as int + 1));
                }
            } else {
                commands.push(Command::RemoveConstructing(EntityId { idx: i, gen: s.gen }));
                proof {
                    assert(!target_buildable(s0, t));
                    assert(commands@ =~= c0 + request_cmds(s0, i as int + 1));
                }
            }
        } else {
            proof {
                assert(commands@ =~= c0 + request_cmds(s0, i as int + 1));
            }
        }
        i = i + 1;
    }
}

/// The builder's slot with resources accrued into its realized-consumption
/// fields.
pub open spec fn consumer_accrued(s: Slot, dm: int, de: int) -> Slot {
    Slot {
        consumer: Some(
            ResourceConsumer {
                mass_consumed: (s.consumer->0.mass_consumed + dm) as u128,
                energy_consumed: (s.consumer->0.energy_consumed + de) as u128,
                ..s.consumer->0
            },
        ),
        ..s
    }
}

/// The target's slot at a new health.
pub open spec fn with_health(s: Slot, h: int) -> Slot {
    Slot { damage: Some(Damage { health: h as u128, ..s.damage->0 }), ..s }
}

/// One builder's settlement against the current state: an already-complete
/// target drops the edge for free; otherwise the scarcer throttled resource
/// bounds the portion applied, completion clamps consumption to exactly the
/// remaining cost, and a missing target is left to the request phase.
pub open spec fn settle_slot_step(slots: Seq<Slot>, eco: Economy, i: int) -> (Seq<Slot>, Seq<
    Command,
>) {
    let s = slots[i];
    if !builder_settling(s) {
        (slots, Seq::empty())
    } else {
        let c = s.constructing->0;
        if !target_buildable(slots, c.target) {
            (slots, Seq::empty())
        } else {
            let t = c.target.idx as int;
            let td = slots[t].damage->0;
            if td.health >= SCALE {
                (slots, seq![Command::RemoveConstructing(slot_id(slots, i))])
            } else {
                let m_av = avail_of(
                    c.mass_requested as int,
                    eco.mass_stall,
                    c.mass_consumption_multiplier as int,
                );
                let e_av = avail_of(
                    c.energy_requested as int,
                    eco.energy_stall,
                    c.energy_consumption_multiplier as int,
                );
                let p = portion_of(m_av, td.mass_total as int, e_av, td.energy_total as int);
                if td.health + p >= SCALE {
                    let dm = used_of(
                        SCALE - td.health,
                        td.mass_total as int,
                        c.mass_consumption_multiplier as int,
                    );
                    let de = used_of(
                        SCALE - td.health,
                        td.energy_total as int,
                        c.energy_consumption_multiplier as int,
                    );
                    let s1 = slots.update(i, consumer_accrued(slots[i], dm, de));
                    let s2 = s1.update(t, with_health(s1[t], SCALE as int));
                    (s2, seq![Command::RemoveConstructing(slot_id(slots, i))])
                } else {
                    let dm = used_of(
                        p,
                        td.mass_total as int,
                        c.mass_consumption_multiplier as int,
                    );
                    let de = used_of(
                        p,
                        td.energy_total as int,
                        c.energy_consumption_multiplier as int,
                    );
                    let s1 = slots.update(i, consumer_accrued(slots[i], dm, de));
                    let s2 = s1.update(t, with_health(s1[t], td.health + p));
                    (s2, Seq::empty())
                }
            }
        }
    }
}

/// Settlement of the first `n` builders, in slot order, each against the
/// state its predecessors left.
pub open spec fn settle_upto(slots: Seq<Slot>, eco: Economy, n: int) -> (Seq<Slot>, Seq<Command>)
    decreases n,
{
    if n <= 0 {
        (slots, Seq::empty())
    } else {
        let prev = settle_upto(slots, eco, n - 1);
        let step = settle_slot_step(prev.0, eco, n - 1);
        (step.0, prev.1 + step.1)
    }
}

/// No builder overdraws its throttled share: what settlement draws for a
/// portion `q` within the affordable bound satisfies
/// `used * den <= requested * num`.
pub proof fn lemma_used_le_share(req: int, num: int, den: int, mult: int, total: int, q: int)
    requires
        0 <= req,
        0 <= num <= den,
        1 <= den,
        1 <= mult,
        1 <= total,
        0 <= q,
        q <= ((req * SCALE / den) * num / mult) * SCALE / total,
    ensures
        0 <= used_of(q, total, mult),
        used_of(q, total, mult) * den <= req * num,
{
    let s = SCALE as int;
    let qq = req * s / den;
    let av = qq * num / mult;
    let u1 = q * total / s;
    let u = u1 * mult / s;
    assert(used_of(q, total, mult) == u);
    lemma_mul_le(req, s, req, s);
    lemma_div_mul_le(req * s, den);
    lemma_div_le(req * s, req * s, den);
    lemma_mul_le(qq, num, qq, num);
    lemma_div_mul_le(qq * num, mult);
    lemma_div_le(qq * num, qq * num, mult);
    // q * total <= av * SCALE
    vstd::arithmetic::mul::lemma_mul_inequality(q, av * s / total, total);
    lemma_div_mul_le(av * s, total);
    lemma_mul_le(av, s, av, s);
    assert(q * total <= av * s);
    // u1 <= av
    lemma_div_mul_le(q * total, s);
    assert(u1 * s <= av * s);
    vstd::arithmetic::mul::lemma_mul_inequality_converse(u1, av, s);
    // u * SCALE <= qq * num
    lemma_div_mul_le(u1 * mult, s);
    vstd::arithmetic::mul::lemma_mul_inequality(u1, av, mult);
    assert(u * s <= qq * num);
    // multiply by den and cancel SCALE
    vstd::arithmetic::mul::lemma_mul_inequality(u * s, qq * num, den);
    vstd::arithmetic::mul::lemma_mul_inequality(qq * den, req * s, num);
    assert((u * s) * den == (u * den) * s) by (nonlinear_arith);
    assert((qq * num) * den == (qq * den) * num) by (nonlinear_arith);
    assert((req * s) * num == (req * num) * s) by (nonlinear_arith);
    assert((u * den) * s <= (req * num) * s);
    vstd::arithmetic::mul::lemma_mul_inequality_converse(u * den, req * num, s);
    vstd::arithmetic::div_mod::lemma_div_pos_is_pos(u1 * mult, s);
}

/// The resources drawn for a portion of a target's cost, bounded by one
/// edge's largest possible request.
fn scaled_cost(p: u128, total: u128, mult: u128) -> (r: u128)
    requires
        p <= SCALE,
        1 <= total <= AMT_MAX,
        MULT_MIN <= mult <= MULT_MAX,
    ensures
        r == used_of(p as int, total as int, mult as int),
        r <= REQ_MAX,
{
    proof {
        lemma_mul_le(p as int, total as int, SCALE as int, AMT_MAX as int);
        lemma_div_le(p as int * total as int, SCALE as int * AMT_MAX as int, SCALE as int);
        lemma_mul_le(
            p as int * total as int / SCALE as int,
            mult as int,
            AMT_MAX as int,
            MULT_MAX as int,
        );
        lemma_div_le(
            (p as int * total as int / SCALE as int) * mult as int,
            AMT_MAX as int * MULT_MAX as int,
            SCALE as int,
        );
    }
    p * total / SCALE * mult / SCALE
}

/// Settlement phase: each live, executing, unpaused builder with an edge
/// applies the ledger's stall-throttled allocation to its target. An
/// already-complete target costs nothing and sheds the edge; completion
/// this tick clamps consumption to exactly the remaining cost and sheds
/// the edge; otherwise the scarcer resource's portion accrues to the
/// target's health and to the builder's realized consumption. Health never
/// decreases and never passes 1, and no builder draws more than its
/// recorded request times the stall ratio.
#[verifier::rlimit(100)]
pub fn do_construct(world: &mut World, commands: &mut Vec<Command>)
    requires
        old(world).wf(),
        forall|j: int|
            0 <= j < old(world).slots@.len() && (#[trigger] old(world).slots@[j]).consumer is Some
                ==> old(world).slots@[j].consumer->0.mass_consumed <= AMT_MAX && old(
                world,
            ).slots@[j].consumer->0.energy_consumed <= AMT_MAX,
    ensures
        final(world).wf(),
        final(world).slots@ == settle_upto(
            old(world).slots@,
            old(world).economy,
            old(world).slots@.len() as int,
        ).0,
        final(commands)@ == old(commands)@ + settle_upto(
            old(world).slots@,
            old(world).economy,
            old(world).slots@.len() as int,
        ).1,
        final(world).slots@.len() == old(world).slots@.len(),
        forall|j: int|
            0 <= j < old(world).slots@.len() ==> {
                let s = #[trigger] final(world).slots@[j];
                let s_old = old(world).slots@[j];
                &&& s.alive == s_old.alive
                &&& s.gen == s_old.gen
                &&& s.executing == s_old.executing
                &&& s.will_execute == s_old.will_execute
                &&& s.paused == s_old.paused
                &&& s.support_commander == s_old.support_commander
                &&& s.paragon == s_old.paragon
                &&& s.engineering == s_old.engineering
                &&& s.producer == s_old.producer
                &&& s.constructing == s_old.constructing
                &&& s.sacrificing == s_old.sacrificing
                &&& s.sacrifice_capable == s_old.sacrifice_capable
                &&& s.quantum_gate == s_old.quantum_gate
            },
        forall|j: int|
            0 <= j < old(world).slots@.len() ==> ((#[trigger] final(world).slots@[j]).damage
                is Some <==> old(world).slots@[j].damage is Some),
        forall|j: int|
            0 <= j < old(world).slots@.len() && old(world).slots@[j].damage is Some ==> {
                let d = (#[trigger] final(world).slots@[j]).damage->0;
                let d_old = old(world).slots@[j].damage->0;
                &&& d.health >= d_old.health
                &&& d.health <= SCALE
                &&& d.mass_total == d_old.mass_total
                &&& d.energy_total == d_old.energy_total
                &&& d.build_time == d_old.build_time
                &&& d.health_points == d_old.health_points
            },
        forall|j: int|
            0 <= j < old(world).slots@.len() ==> ((#[trigger] final(world).slots@[j]).consumer
                is Some <==> old(world).slots@[j].consumer is Some),
        forall|j: int|
            0 <= j < old(world).slots@.len() && old(world).slots@[j].consumer is Some ==> {
                let c = (#[trigger] final(world).slots@[j]).consumer->0;
                let c_old = old(world).slots@[j].consumer->0;
                &&& c.mass_request == c_old.mass_request
                &&& c.energy_request == c_old.energy_request
                &&& c.mass_consumed >= c_old.mass_consumed
                &&& c.energy_consumed >= c_old.energy_consumed
            },
        forall|j: int|
            0 <= j < old(world).slots@.len() && !(builder_settling(old(world).slots@[j])
                && target_buildable(
                old(world).slots@,
                old(world).slots@[j].constructing->0.target,
            )) ==> (#[trigger] final(world).slots@[j]).consumer == old(world).slots@[j].consumer,
        forall|j: int|
            0 <= j < old(world).slots@.len() && builder_settling(#[trigger] old(world).slots@[j])
                ==> (final(world).slots@[j].consumer->0.mass_consumed
                - old(world).slots@[j].consumer->0.mass_consumed) * old(
                world,
            ).economy.mass_stall.den <= old(world).slots@[j].constructing->0.mass_requested * old(
                world,
            ).economy.mass_stall.num && (final(world).slots@[j].consumer->0.energy_consumed - old(
                world,
            ).slots@[j].consumer->0.energy_consumed) * old(world).economy.energy_stall.den <= old(
                world,
            ).slots@[j].constructing->0.energy_requested * old(world).economy.energy_stall.num,
        forall|j: int|
            0 <= j < old(world).slots@.len() && builder_settling(#[trigger] old(world).slots@[j])
                && target_buildable(old(world).slots@, old(world).slots@[j].constructing->0.target)
                && old(world).slots@[old(world).slots@[j].constructing->0.target.idx as int].damage->0.health
                >= SCALE ==> final(world).slots@[j].consumer == old(world).slots@[j].consumer
                && final(commands)@.contains(
                Command::RemoveConstructing(slot_id(old(world).slots@, j)),
            ),
        forall|k: int|
            old(commands)@.len() <= k < final(commands)@.len() ==> crate::store::command_wf(
                #[trigger] final(commands)@[k],
            ),
        final(world).economy == old(world).economy,
        final(world).free@ == old(world).free@,
        final(world).current_tick == old(world).current_tick,
        final(world).log.entries@ == old(world).log.entries@,
{
    let ghost s0 = world.slots@;
    let ghost eco0 = world.economy;
    let ghost c0 = commands@;
    let st_m = world.economy.mass_stall;
    let st_e = world.economy.energy_stall;
    let n = world.slots.len();
    let mut i: usize = 0;
    while i < n
        invariant
            n == s0.len(),
            world.slots@.len() == n,
            0 <= i <= n,
            forall|j: int| 0 <= j < s0.len() ==> slot_wf(#[trigger] s0[j]),
            forall|j: int|
                0 <= j < s0.len() && (#[trigger] s0[j]).consumer is Some
                    ==> s0[j].consumer->0.mass_consumed <= AMT_MAX
                    && s0[j].consumer->0.energy_consumed <= AMT_MAX,
            crate::economy::eco_wf(eco0),
            st_m == eco0.mass_stall,
            st_e == eco0.energy_stall,
            world.slots@ == settle_upto(s0, eco0, i as int).0,
            commands@ == c0 + settle_upto(s0, eco0, i as int).1,
            forall|j: int|
                0 <= j < n ==> {
                    let s = #[trigger] world.slots@[j];
                    &&& s.alive == s0[j].alive
                    &&& s.gen == s0[j].gen
                    &&& s.executing == s0[j].executing
                    &&& s.will_execute == s0[j].will_execute
                    &&& s.paused == s0[j].paused
                    &&& s.support_commander == s0[j].support_commander
                    &&& s.paragon == s0[j].paragon
                    &&& s.engineering == s0[j].engineering
                    &&& s.producer == s0[j].producer
                    &&& s.constructing == s0[j].constructing
                    &&& s.sacrificing == s0[j].sacrificing
                    &&& s.sacrifice_capable == s0[j].sacrifice_capable
                    &&& s.quantum_gate == s0[j].quantum_gate
                },
            forall|j: int|
                0 <= j < n ==> ((#[trigger] world.slots@[j]).damage is Some <==> s0[j].damage
                    is Some),
            forall|j: int|
                0 <= j < n && s0[j].damage is Some ==> {
                    let d = (#[trigger] world.slots@[j]).damage->0;
                    let d_old = s0[j].damage->0;
                    &&& d.health >= d_old.health
                    &&& d.health <= SCALE
                    &&& d.mass_total == d_old.mass_total
                    &&& d.energy_total == d_old.energy_total
                    &&& d.build_time == d_old.build_time
                    &&& d.health_points == d_old.health_points
                },
            forall|j: int|
                0 <= j < n ==> ((#[trigger] world.slots@[j]).consumer is Some <==> s0[j].consumer
                    is Some),
            forall|j: int|
                0 <= j < n && s0[j].consumer is Some ==> {
                    let c = (#[trigger] world.slots@[j]).consumer->0;
                    let c_old = s0[j].consumer->0;
                    &&& c.mass_request == c_old.mass_request
                    &&& c.energy_request == c_old.energy_request
                    &&& c.mass_consumed >= c_old.mass_consumed
                    &&& c.energy_consumed >= c_old.energy_consumed
                },
            forall|j: int| i <= j < n ==> (#[trigger] world.slots@[j]).consumer == s0[j].consumer,
            forall|j: int| 0 <= j < n ==> slot_wf(#[trigger] world.slots@[j]),
            forall|j: int|
                0 <= j < i && !(builder_settling(s0[j]) && target_buildable(
                    s0,
                    s0[j].constructing->0.target,
                )) ==> (#[trigger] world.slots@[j]).consumer == s0[j].consumer,
            forall|j: int|
                0 <= j < i && builder_settling(#[trigger] s0[j]) ==> (
                world.slots@[j].consumer->0.mass_consumed - s0[j].consumer->0.mass_consumed)
                    * st_m.den <= s0[j].constructing->0.mass_requested * st_m.num
                    && (world.slots@[j].consumer->0.energy_consumed
                    - s0[j].consumer->0.energy_consumed) * st_e.den
                    <= s0[j].constructing->0.energy_requested * st_e.num,
            forall|j: int|
                0 <= j < i && builder_settling(#[trigger] s0[j]) && target_buildable(
                    s0,
                    s0[j].constructing->0.target,
                ) && s0[s0[j].constructing->0.target.idx as int].damage->0.health >= SCALE
                    ==> world.slots@[j].consumer == s0[j].consumer && commands@.contains(
                    Command::RemoveConstructing(slot_id(s0, j)),
                ),
            forall|k: int|
                c0.len() <= k < commands@.len() ==> crate::store::command_wf(
                    #[trigger] commands@[k],
                ),
            world.economy == eco0,
            world.economy == old(world).economy,
            s0 == old(world).slots@,
            c0 == old(commands)@,
            world.free@ == old(world).free@,
            world.current_tick == old(world).current_tick,
            world.log.entries@ == old(world).log.entries@,
        decreases n - i,
    {
        let ghost prev = world.slots@;
        let ghost prev_cmds = commands@;
        let s = world.slots[i];
        if s.alive && s.executing && !s.paused && s.constructing.is_some() && s.consumer.is_some() {
            let c = s.constructing.unwrap();
            let t = c.target;
            proof {
                assert(builder_settling(prev[i as int]));
                assert(builder_settling(s0[i as int]));
                assert(crate::components::constructing_wf(s0[i as int].constructing->0));
            }
            if t.idx < world.slots.len() && world.slots[t.idx].alive && world.slots[t.idx].gen
                == t.gen && world.slots[t.idx].damage.is_some() {
                let td = world.slots[t.idx].damage.unwrap();
                if td.health >= SCALE {
                    commands.push(Command::RemoveConstructing(EntityId { idx: i, gen: s.gen }));
                    proof {
                        assert(commands@ =~= c0 + settle_upto(s0, eco0, i as int + 1).1);
                        vstd::arithmetic::mul::lemma_mul_nonnegative(
                            s0[i as int].constructing->0.mass_requested as int,
                            st_m.num as int,
                        );
                        vstd::arithmetic::mul::lemma_mul_nonnegative(
                            s0[i as int].constructing->0.energy_requested as int,
                            st_e.num as int,
                        );
                        assert(commands@[commands@.len() - 1] == Command::RemoveConstructing(
                            slot_id(s0, i as int),
                        ));
                        assert(commands@.contains(
                            Command::RemoveConstructing(slot_id(s0, i as int)),
                        ));
                        assert forall|c2: Command| prev_cmds.contains(c2) implies commands@.contains(
                            c2,
                        ) by {
                            let k = choose|k: int|
                                0 <= k < prev_cmds.len() && #[trigger] prev_cmds[k] == c2;
                            assert(commands@[k] == c2);
                        }
                    }
                } else {
                    proof {
                        lemma_mul_le(
                            c.mass_requested as int,
                            SCALE as int,
                            REQ_MAX as int,
                            SCALE as int,
                        );
                        lemma_mul_le(
                            c.energy_requested as int,
                            SCALE as int,
                            REQ_MAX as int,
                            SCALE as int,
                        );
                        lemma_share_le(
                            c.mass_requested as int,
                            SCALE as int,
                            st_m.num as int,
                            st_m.den as int,
                            c.mass_consumption_multiplier as int,
                        );
                        lemma_share_le(
                            c.energy_requested as int,
                            SCALE as int,
                            st_e.num as int,
                            st_e.den as int,
                            c.energy_consumption_multiplier as int,
                        );
                    }
                    let q_m = c.mass_requested * SCALE / st_m.den;
                    let m_av = q_m * st_m.num / c.mass_consumption_multiplier;
                    let q_e = c.energy_requested * SCALE / st_e.den;
                    let e_av = q_e * st_e.num / c.energy_consumption_multiplier;
                    proof {
                        lemma_mul_le(
                            m_av as int,
                            SCALE as int,
                            REQ_MAX as int * SCALE as int,
                            SCALE as int,
                        );
                        lemma_mul_le(
                            e_av as int,
                            SCALE as int,
                            REQ_MAX as int * SCALE as int,
                            SCALE as int,
                        );
                    }
                    let pm = m_av * SCALE / td.mass_total;
                    let pe = e_av * SCALE / td.energy_total;
                    let p = if pm <= pe {
                        pm
                    } else {
                        pe
                    };
                    proof {
                        assert(m_av == avail_of(
                            c.mass_requested as int,
                            st_m,
                            c.mass_consumption_multiplier as int,
                        ));
                        assert(e_av == avail_of(
                            c.energy_requested as int,
                            st_e,
                            c.energy_consumption_multiplier as int,
                        ));
                        assert(p == portion_of(
                            m_av as int,
                            td.mass_total as int,
                            e_av as int,
                            td.energy_total as int,
                        ));
                    }
                    let cons = s.consumer.unwrap();
                    if td.health + p >= SCALE {
                        let rem = SCALE - td.health;
                        let dm = scaled_cost(rem, td.mass_total, c.mass_consumption_multiplier);
                        let de = scaled_cost(rem, td.energy_total, c.energy_consumption_multiplier);
                        proof {
                            lemma_used_le_share(
                                c.mass_requested as int,
                                st_m.num as int,
                                st_m.den as int,
                                c.mass_consumption_multiplier as int,
                                td.mass_total as int,
                                rem as int,
                            );
                            lemma_used_le_share(
                                c.energy_requested as int,
                                st_e.num as int,
                                st_e.den as int,
                                c.energy_consumption_multiplier as int,
                                td.energy_total as int,
                                rem as int,
                            );
                        }
                        let mut s2 = s;
                        s2.consumer = Some(
                            ResourceConsumer {
                                mass_request: cons.mass_request,
                                energy_request: cons.energy_request,
                                mass_consumed: cons.mass_consumed + dm,
                                energy_consumed: cons.energy_consumed + de,
                            },
                        );
                        world.slots.set(i, s2);
                        let tslot = world.slots[t.idx];
                        let mut t2 = tslot;
                        let tdam = tslot.damage.unwrap();
                        t2.damage = Some(
                            Damage {
                                health: SCALE,
                                health_points: tdam.health_points,
                                mass_total: tdam.mass_total,
                                energy_total: tdam.energy_total,
                                build_time: tdam.build_time,
                            },
                        );
                        world.slots.set(t.idx, t2);
                        commands.push(Command::RemoveConstructing(EntityId { idx: i, gen: s.gen }));
                        proof {
                            assert(world.slots@ == settle_slot_step(prev, eco0, i as int).0);
                            assert(commands@ =~= c0 + settle_upto(s0, eco0, i as int + 1).1);
                            assert(world.slots@[i as int].consumer->0.mass_consumed
                                - s0[i as int].consumer->0.mass_consumed == dm);
                            assert(world.slots@[i as int].consumer->0.energy_consumed
                                - s0[i as int].consumer->0.energy_consumed == de);
                            assert(c == s0[i as int].constructing->0);
                            assert forall|c2: Command| prev_cmds.contains(c2) implies commands@.contains(
                                c2,
                            ) by {
                                let k = choose|k: int|
                                    0 <= k < prev_cmds.len() && #[trigger] prev_cmds[k] == c2;
                                assert(commands@[k] == c2);
                            }
                        }
                    } else {
                        let dm = scaled_cost(p, td.mass_total, c.mass_consumption_multiplier);
                        let de = scaled_cost(p, td.energy_total, c.energy_consumption_multiplier);
                        proof {
                            lemma_used_le_share(
                                c.mass_requested as int,
                                st_m.num as int,
                                st_m.den as int,
                                c.mass_consumption_multiplier as int,
                                td.mass_total as int,
                                p as int,
                            );
                            lemma_used_le_share(
                                c.energy_requested as int,
                                st_e.num as int,
                                st_e.den as int,
                                c.energy_consumption_multiplier as int,
                                td.energy_total as int,
                                p as int,
                            );
                        }
                        let mut s2 = s;
                        s2.consumer = Some(
                            ResourceConsumer {
                                mass_request: cons.mass_request,
                                energy_request: cons.energy_request,
                                mass_consumed: cons.mass_consumed + dm,
                                energy_consumed: cons.energy_consumed + de,
                            },
                        );
                        world.slots.set(i, s2);
                        let tslot = world.slots[t.idx];
                        let mut t2 = tslot;
                        let tdam = tslot.damage.unwrap();
                        t2.damage = Some(
                            Damage {
                                health: tdam.health + p,
                                health_points: tdam.health_points,
                                mass_total: tdam.mass_total,
                                energy_total: tdam.energy_total,
                                build_time: tdam.build_time,
                            },
                        );
                        world.slots.set(t.idx, t2);
                        proof {
                            assert(world.slots@ == settle_slot_step(prev, eco0, i as int).0);
                            assert(commands@ =~= c0 + settle_upto(s0, eco0, i as int + 1).1);
                            assert(world.slots@[i as int].consumer->0.mass_consumed
                                - s0[i as int].consumer->0.mass_consumed == dm);
                            assert(world.slots@[i as int].consumer->0.energy_consumed
                                - s0[i as int].consumer->0.energy_consumed == de);
                            assert(c == s0[i as int].constructing->0);
                        }
                    }
                }
            } else {
                proof {
                    assert(!target_buildable(prev, t));
                    assert(commands@ =~= c0 + settle_upto(s0, eco0, i as int + 1).1);
                    vstd::arithmetic::mul::lemma_mul_nonnegative(
                        s0[i as int].constructing->0.mass_requested as int,
                        st_m.num as int,
                    );
                    vstd::arithmetic::mul::lemma_mul_nonnegative(
                        s0[i as int].constructing->0.energy_requested as int,
                        st_e.num as int,
                    );
                }
            }
        } else {
            proof {
                assert(!builder_settling(prev[i as int]));
                assert(commands@ =~= c0 + settle_upto(s0, eco0, i as int + 1).1);
            }
        }
        i = i + 1;
    }
}

/// The entity completes construction this tick: it was waiting to execute
/// and its health has just reached exactly 1.
pub open spec fn completion_ready(s: Slot) -> bool {
    &&& s.alive
    &&& s.will_execute
    &&& !s.executing
    &&& s.damage is Some
    &&& s.damage->0.health == SCALE
}

/// The tag-flip commands of the completion trigger, in slot order.
pub open spec fn completion_cmds(slots: Seq<Slot>, n: int) -> Seq<Command>
    decreases n,
{
    if n <= 0 {
        Seq::empty()
    } else {
        completion_cmds(slots, n - 1) + (if completion_ready(slots[n - 1]) {
            seq![
                Command::RemoveWillExecute(slot_id(slots, n - 1)),
                Command::InsertExecuting(slot_id(slots, n - 1)),
            ]
        } else {
            Seq::empty()
        })
    }
}

/// Completion trigger: an entity that was waiting to execute and whose
/// health reads exactly 1 stops waiting and starts executing, once — the
/// waiting tag goes with the same commands, so the transition cannot fire
/// again on later ticks.
pub fn execute_on_finished_construction(world: &World, commands: &mut Vec<Command>)
    ensures
        final(commands)@ == old(commands)@ + completion_cmds(
            world.slots@,
            world.slots@.len() as int,
        ),
{
    let ghost s0 = world.slots@;
    let ghost c0 = commands@;
    let n = world.slots.len();
    let mut i: usize = 0;
    while i < n
        invariant
            n == world.slots@.len(),
            n == s0.len(),
            world.slots@ == s0,
            0 <= i <= n,
            commands@ == c0 + completion_cmds(s0, i as int),
        decreases n - i,
    {
        let s = world.slots[i];
        if s.alive && s.will_execute && !s.executing && s.damage.is_some() {
            if s.damage.unwrap().health == SCALE {
                commands.push(Command::RemoveWillExecute(EntityId { idx: i, gen: s.gen }));
                commands.push(Command::InsertExecuting(EntityId { idx: i, gen: s.gen }));
            }
        }
        i = i + 1;
    }
}

} // verus!
