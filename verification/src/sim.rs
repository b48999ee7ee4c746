//! The tick scheduler and the two simulation configurations: each stage's
//! transformation as a spec function and their fixed-order composition
//! `tick_spec`, the laws every tick obeys (`tick_rel`), and the simulation
//! wrappers that drive the pipeline. Every whole-tick entry point ensures
//! that the post-state equals `tick_spec` of the pre-state, so one tick's
//! entire effect is pinned down.

use vstd::prelude::*;
use crate::components::EntityId;
use crate::construct::builder_requesting;
use crate::construct::completion_cmds;
use crate::construct::requested_slot;
use crate::construct::request_cmds;
use crate::construct::settle_upto;
use crate::construct::do_construct;
use crate::construct::do_construct_resources_request;
use crate::construct::execute_on_finished_construction;
use crate::construct::target_buildable;
use crate::economy::CurrentTick;
use crate::economy::Economy;
use crate::economy::LogHandler;
use crate::economy::economy_process_resource_consumption;
use crate::economy::economy_process_resource_requests;
use crate::economy::economy_resource_producers;
use crate::economy::Warning;
use crate::economy::consumption_counted;
use crate::economy::energy_consumed_sum;
use crate::economy::energy_request_sum;
use crate::economy::energy_yield_sum;
use crate::economy::mass_consumed_sum;
use crate::economy::mass_request_sum;
use crate::economy::mass_yield_sum;
use crate::economy::produces;
use crate::economy::sat_total;
use crate::economy::settle_stock;
use crate::economy::stall_of;
use crate::gate::gate_active;
use crate::gate::gate_cmds;
use crate::gate::gate_next;
use crate::gate::quantum_gate_spawn_construct;
use crate::fixed::Ratio;
use crate::fixed::SCALE;
use crate::fixed::ratio_one;
use crate::fixed::ratio_wf;
use crate::sacrifice::construct_sacrifice;
use crate::sacrifice::sac_apply;
use crate::sacrifice::sac_infos;
use crate::components::QuantumGate;
use crate::components::ResourceConsumer;
use crate::components::ResourceProducer;
use crate::store::Command;
use crate::store::apply_commands_spec;
use crate::store::zero_consumer;
use crate::store::Slot;
use crate::store::World;
use crate::store::stale_in;
use crate::store::valid_in;

verus! {

/// Update tick counter.
pub fn count_tick(world: &mut World)
    requires
        old(world).current_tick.0 < u64::MAX,
    ensures
        final(world).current_tick.0 == old(world).current_tick.0 + 1,
        final(world).slots@ == old(world).slots@,
        final(world).free@ == old(world).free@,
        final(world).economy == old(world).economy,
        final(world).log.entries@ == old(world).log.entries@,
        old(world).wf() ==> final(world).wf(),
        old(world).ready() ==> final(world).ready(),
{
    world.current_tick = CurrentTick(world.current_tick.0 + 1);
}

/// Every command a completion trigger issues flips a tag: none spawns or
/// despawns.
pub proof fn lemma_completion_cmds_shape(slots: Seq<Slot>, n: int)
    ensures
        forall|k: int|
            0 <= k < completion_cmds(slots, n).len() ==> ((#[trigger] completion_cmds(
                slots,
                n,
            )[k]) is RemoveWillExecute || completion_cmds(slots, n)[k] is InsertExecuting),
    decreases n,
{
    if n > 0 {
        lemma_completion_cmds_shape(slots, n - 1);
    }
}

/// Every command a spawn stage issues spawns a unit.
pub proof fn lemma_gate_cmds_shape(slots: Seq<Slot>, n: int)
    ensures
        forall|k: int|
            0 <= k < gate_cmds(slots, n).len() ==> (#[trigger] gate_cmds(slots, n)[k])
                is SpawnUnit,
    decreases n,
{
    if n > 0 {
        lemma_gate_cmds_shape(slots, n - 1);
    }
}


/// The whole simulation state as mathematics: the slot table, the free
/// list, the ledger, the tick counter and the recorded warnings.
pub struct SimState {
    pub slots: Seq<Slot>,
    pub free: Seq<usize>,
    pub economy: Economy,
    pub tick: u64,
    pub log: Seq<Warning>,
}

/// The state a world holds.
pub open spec fn state_of(w: World) -> SimState {
    SimState {
        slots: w.slots@,
        free: w.free@,
        economy: w.economy,
        tick: w.current_tick.0,
        log: w.log.entries@,
    }
}

/// The slot table after the spawn controller's pass: every active gate's
/// counter advances one state; everything else is untouched.
pub open spec fn gate_pass(slots: Seq<Slot>) -> Seq<Slot> {
    Seq::new(
        slots.len(),
        |i: int|
            if gate_active(slots[i]) {
                Slot { quantum_gate: Some(gate_next(slots[i].quantum_gate->0)), ..slots[i] }
            } else {
                slots[i]
            },
    )
}

/// The slot table after the request phase's pass: every live, executing,
/// unpaused builder with a live target has recomputed its edge and added
/// the result into its consumer; everything else is untouched.
pub open spec fn request_pass(slots: Seq<Slot>) -> Seq<Slot> {
    Seq::new(
        slots.len(),
        |i: int|
            if builder_requesting(slots[i]) && target_buildable(
                slots,
                slots[i].constructing->0.target,
            ) {
                requested_slot(slots[i], slots[slots[i].constructing->0.target.idx as int].damage->0)
            } else {
                slots[i]
            },
    )
}

/// The slot table after the production pass: every live executing
/// producer's lifetime totals advance, saturating; everything else is
/// untouched.
pub open spec fn producer_pass(slots: Seq<Slot>) -> Seq<Slot> {
    Seq::new(
        slots.len(),
        |i: int|
            if produces(slots[i]) {
                Slot {
                    producer: Some(
                        ResourceProducer {
                            total_mass: sat_total(
                                slots[i].producer->0.total_mass as int,
                                slots[i].producer->0.mass_yield as int,
                            ) as u128,
                            total_energy: sat_total(
                                slots[i].producer->0.total_energy as int,
                                slots[i].producer->0.energy_yield as int,
                            ) as u128,
                            ..slots[i].producer->0
                        },
                    ),
                    ..slots[i]
                }
            } else {
                slots[i]
            },
    )
}

/// The slot table after consumption accounting: every live consumer's
/// per-tick accumulators are reset; everything else is untouched.
pub open spec fn consumption_pass(slots: Seq<Slot>) -> Seq<Slot> {
    Seq::new(
        slots.len(),
        |i: int|
            if consumption_counted(slots[i]) {
                Slot { consumer: Some(zero_consumer()), ..slots[i] }
            } else {
                slots[i]
            },
    )
}

/// The spawn stage: the controller's pass, then its buffered spawn
/// commands applied at the boundary.
pub open spec fn spawn_stage_spec(st: SimState) -> SimState {
    let cmds = gate_cmds(st.slots, st.slots.len() as int);
    let ap = apply_commands_spec(gate_pass(st.slots), st.free, cmds);
    SimState { slots: ap.0, free: ap.1, ..st }
}

/// The update stage: the completion trigger's commands, the request
/// phase's pass and edge-removal commands, then (in the full
/// configuration) sacrifice resolution, with the whole buffer applied once
/// at the boundary.
pub open spec fn update_stage_spec(st: SimState, with_sacrifice: bool) -> SimState {
    let n = st.slots.len() as int;
    let cmds1 = completion_cmds(st.slots, n) + request_cmds(st.slots, n);
    let s1 = request_pass(st.slots);
    let resolved = if with_sacrifice {
        let infos = sac_infos(s1, n);
        let r = sac_apply(s1, infos, infos.len() as int);
        (r.0, cmds1 + r.1)
    } else {
        (s1, cmds1)
    };
    let ap = apply_commands_spec(resolved.0, st.free, resolved.1);
    SimState { slots: ap.0, free: ap.1, ..st }
}

/// The economy stage: production lands in stock and in the lifetime
/// totals, then the tick's stall ratios are fixed against the aggregated
/// requests.
pub open spec fn economy_stage_spec(st: SimState) -> SimState {
    let n = st.slots.len() as int;
    let s1 = producer_pass(st.slots);
    let e1 = Economy {
        mass: (st.economy.mass + mass_yield_sum(st.slots, n)) as i128,
        energy: (st.economy.energy + energy_yield_sum(st.slots, n)) as i128,
        mass_produced: mass_yield_sum(st.slots, n) as u128,
        energy_produced: energy_yield_sum(st.slots, n) as u128,
        ..st.economy
    };
    let e2 = Economy {
        mass_stall: stall_of(e1.mass as int, mass_request_sum(s1, n)),
        energy_stall: stall_of(e1.energy as int, energy_request_sum(s1, n)),
        mass_requested: mass_request_sum(s1, n) as u128,
        energy_requested: energy_request_sum(s1, n) as u128,
        ..e1
    };
    SimState { slots: s1, economy: e2, ..st }
}

/// The settlement stage: each builder's throttled allocation folds over
/// the table in slot order, then the completed edges' removals apply at
/// the boundary.
pub open spec fn settle_stage_spec(st: SimState) -> SimState {
    let r = settle_upto(st.slots, st.economy, st.slots.len() as int);
    let ap = apply_commands_spec(r.0, st.free, r.1);
    SimState { slots: ap.0, free: ap.1, ..st }
}

/// Consumption accounting: realized consumption is summed and settled
/// against stock, every live consumer is reset, and an overconsumption
/// warning is recorded if stock ends more than one unit below zero.
pub open spec fn consumption_stage_spec(st: SimState) -> SimState {
    let n = st.slots.len() as int;
    let e1 = Economy {
        mass: settle_stock(
            st.economy.mass as int,
            mass_consumed_sum(st.slots, n),
            st.economy.mass_capacity as int,
        ) as i128,
        energy: settle_stock(
            st.economy.energy as int,
            energy_consumed_sum(st.slots, n),
            st.economy.energy_capacity as int,
        ) as i128,
        mass_consumed: mass_consumed_sum(st.slots, n) as u128,
        energy_consumed: energy_consumed_sum(st.slots, n) as u128,
        ..st.economy
    };
    SimState {
        slots: consumption_pass(st.slots),
        economy: e1,
        log: if e1.mass < -(SCALE as i128) || e1.energy < -(SCALE as i128) {
            st.log.push(Warning { tick: st.tick, mass: e1.mass, energy: e1.energy })
        } else {
            st.log
        },
        ..st
    }
}

/// One whole tick as a function of the pre-state: the counter advances,
/// then the stages transform the state in their fixed order.
pub open spec fn tick_spec(st: SimState, with_gates: bool, with_sacrifice: bool) -> SimState {
    let s1 = SimState { tick: (st.tick + 1) as u64, ..st };
    let s2 = if with_gates {
        spawn_stage_spec(s1)
    } else {
        s1
    };
    let s3 = update_stage_spec(s2, with_sacrifice);
    let s4 = economy_stage_spec(s3);
    let s5 = settle_stage_spec(s4);
    consumption_stage_spec(s5)
}

/// Construction progress only accumulates: every entity that survives from
/// `a` to `b` keeps its build state's health non-decreasing, and a handle
/// once stale stays stale.
pub open spec fn health_evolves(a: Seq<Slot>, b: Seq<Slot>) -> bool {
    &&& forall|id: EntityId|
        valid_in(a, id) ==> stale_in(b, id) || (valid_in(b, id) && (a[id.idx as int].damage
            is Some ==> b[id.idx as int].damage is Some
            && b[id.idx as int].damage->0.health >= a[id.idx as int].damage->0.health))
    &&& forall|id: EntityId| stale_in(a, id) ==> stale_in(b, id)
}

/// `health_evolves` composes across stages.
pub proof fn lemma_health_evolves_trans(a: Seq<Slot>, b: Seq<Slot>, c: Seq<Slot>)
    requires
        health_evolves(a, b),
        health_evolves(b, c),
    ensures
        health_evolves(a, c),
{
}

/// What one tick promises, whatever the stage configuration: the counter
/// advances; the stall ratios land in [0, 1] and read exactly 1 where
/// nothing was requested; stock obeys conservation,
/// `min(capacity, stock + produced - consumed)`, down to the
/// representation floor; and health never decreases and never passes 1 for
/// any surviving entity. (That a resolved sacrifice destroys its source is
/// stated and proved on the resolver itself and on `lemma_despawn_lands`.)
pub open spec fn tick_rel(a: World, b: World) -> bool {
    &&& b.ready()
    &&& b.current_tick.0 == a.current_tick.0 + 1
    &&& b.economy.mass_capacity == a.economy.mass_capacity
    &&& b.economy.energy_capacity == a.economy.energy_capacity
    &&& ratio_wf(b.economy.mass_stall)
    &&& ratio_wf(b.economy.energy_stall)
    &&& (b.economy.mass_requested == 0 ==> b.economy.mass_stall == ratio_one())
    &&& (b.economy.energy_requested == 0 ==> b.economy.energy_stall == ratio_one())
    &&& b.economy.mass == settle_stock(
        a.economy.mass + b.economy.mass_produced,
        b.economy.mass_consumed as int,
        a.economy.mass_capacity as int,
    )
    &&& b.economy.energy == settle_stock(
        a.economy.energy + b.economy.energy_produced,
        b.economy.energy_consumed as int,
        a.economy.energy_capacity as int,
    )
    &&& b.slots@.len() >= a.slots@.len()
    &&& health_evolves(a.slots@, b.slots@)
    &&& forall|id: EntityId|
        valid_in(a.slots@, id) && valid_in(b.slots@, id) && a.slots@[id.idx as int].damage
            is Some ==> b.slots@[id.idx as int].damage is Some
            && b.slots@[id.idx as int].damage->0.health
            >= a.slots@[id.idx as int].damage->0.health
            && b.slots@[id.idx as int].damage->0.health <= SCALE
}


/// Spawn stage: the spawn controller runs over every gate and its buffered
/// spawns and construction edges are applied at the stage boundary.
#[verifier::spinoff_prover]
pub fn tick_spawn_stage(world: &mut World)
    requires
        old(world).wf(),
        crate::store::consumers_settled(old(world).slots@),
    ensures
        final(world).wf(),
        crate::store::consumers_settled(final(world).slots@),
        health_evolves(old(world).slots@, final(world).slots@),
        final(world).slots@.len() >= old(world).slots@.len(),
        final(world).economy == old(world).economy,
        final(world).current_tick == old(world).current_tick,
        final(world).log.entries@ == old(world).log.entries@,
        forall|id: EntityId|
            valid_in(old(world).slots@, id) ==> valid_in(final(world).slots@, id) && ({
                let s_new = final(world).slots@[id.idx as int];
                let s_old = old(world).slots@[id.idx as int];
                &&& s_new.alive == s_old.alive
                &&& s_new.gen == s_old.gen
                &&& s_new.executing == s_old.executing
                &&& s_new.will_execute == s_old.will_execute
                &&& s_new.paused == s_old.paused
                &&& s_new.damage == s_old.damage
                &&& s_new.consumer == s_old.consumer
                &&& s_new.sacrificing == s_old.sacrificing
                &&& s_new.sacrifice_capable == s_old.sacrifice_capable
            }),
        forall|j: int|
            0 <= j < final(world).slots@.len() && crate::sacrifice::sacrificer(
                #[trigger] final(world).slots@[j],
            ) ==> j < old(world).slots@.len() && crate::sacrifice::sacrificer(
                old(world).slots@[j],
            ) && final(world).slots@[j].sacrificing == old(world).slots@[j].sacrificing,
        state_of(*final(world)) == spawn_stage_spec(state_of(*old(world))),
{
    let ghost w0 = world.slots@;
    let ghost f0 = world.free@;
    let mut cmds: Vec<Command> = Vec::new();
    quantum_gate_spawn_construct(world, &mut cmds);
    let ghost w1 = world.slots@;
    let ghost f1 = world.free@;
    proof {
        lemma_gate_cmds_shape(w0, w0.len() as int);
        assert(cmds@ == gate_cmds(w0, w0.len() as int)) by {
            assert(cmds@ =~= Seq::<Command>::empty() + gate_cmds(w0, w0.len() as int));
        }
    }
    world.apply_commands(&cmds);
    proof {
        assert forall|id: EntityId| valid_in(w0, id) implies valid_in(world.slots@, id) && ({
            let s_new = world.slots@[id.idx as int];
            let s_old = w0[id.idx as int];
            &&& s_new.alive == s_old.alive
            &&& s_new.gen == s_old.gen
            &&& s_new.executing == s_old.executing
            &&& s_new.will_execute == s_old.will_execute
            &&& s_new.paused == s_old.paused
            &&& s_new.damage == s_old.damage
            &&& s_new.consumer == s_old.consumer
            &&& s_new.sacrificing == s_old.sacrificing
            &&& s_new.sacrifice_capable == s_old.sacrifice_capable
        }) by {
            assert(valid_in(w1, id) && w1[id.idx as int].alive == w0[id.idx as int].alive
                && w1[id.idx as int].gen == w0[id.idx as int].gen && w1[id.idx as int].executing
                == w0[id.idx as int].executing && w1[id.idx as int].will_execute
                == w0[id.idx as int].will_execute && w1[id.idx as int].paused
                == w0[id.idx as int].paused && w1[id.idx as int].damage
                == w0[id.idx as int].damage && w1[id.idx as int].consumer
                == w0[id.idx as int].consumer && w1[id.idx as int].sacrificing
                == w0[id.idx as int].sacrificing && w1[id.idx as int].sacrifice_capable
                == w0[id.idx as int].sacrifice_capable);
            crate::store::lemma_spawn_only_frame(w1, f1, cmds@, id);
        }
        assert forall|j: int|
            0 <= j < world.slots@.len() && crate::sacrifice::sacrificer(
                #[trigger] world.slots@[j],
            ) implies j < w0.len() && crate::sacrifice::sacrificer(w0[j])
            && world.slots@[j].sacrificing == w0[j].sacrificing by {
            crate::store::lemma_spawn_only_executing(w1, f1, cmds@, j);
            assert(w1[j].alive && w1[j].executing && w1[j].sacrificing
                == world.slots@[j].sacrificing && w1[j].damage == world.slots@[j].damage
                && w1[j].sacrifice_capable == world.slots@[j].sacrifice_capable && w1[j].paused
                == world.slots@[j].paused);
            assert(w0[j].alive == w1[j].alive && w0[j].executing == w1[j].executing
                && w0[j].paused == w1[j].paused && w0[j].damage == w1[j].damage
                && w0[j].sacrificing == w1[j].sacrificing && w0[j].sacrifice_capable
                == w1[j].sacrifice_capable);
        }
    }
    proof {
        assert(health_evolves(w0, w1)) by {
            assert forall|id: EntityId| valid_in(w0, id) implies stale_in(w1, id) || (valid_in(
                w1,
                id,
            ) && (w0[id.idx as int].damage is Some ==> w1[id.idx as int].damage is Some
                && w1[id.idx as int].damage->0.health >= w0[id.idx as int].damage->0.health)) by {
                assert(w1[id.idx as int].damage == w0[id.idx as int].damage);
                assert(w1[id.idx as int].alive == w0[id.idx as int].alive);
                assert(w1[id.idx as int].gen == w0[id.idx as int].gen);
            }
            assert forall|id: EntityId| stale_in(w0, id) implies stale_in(w1, id) by {
                assert(w1[id.idx as int].alive == w0[id.idx as int].alive);
                assert(w1[id.idx as int].gen == w0[id.idx as int].gen);
            }
        }
        assert(health_evolves(w1, world.slots@)) by {
            assert forall|id: EntityId| valid_in(w1, id) implies stale_in(world.slots@, id) || (
            valid_in(world.slots@, id) && (w1[id.idx as int].damage is Some
                ==> world.slots@[id.idx as int].damage is Some
                && world.slots@[id.idx as int].damage->0.health
                >= w1[id.idx as int].damage->0.health)) by {
            }
        }
        lemma_health_evolves_trans(w0, w1, world.slots@);
        assert(w1 =~= gate_pass(w0)) by {
            assert forall|i: int| 0 <= i < w0.len() implies w1[i] == gate_pass(w0)[i] by {
                if gate_active(w0[i]) {
                    assert(w1[i] == (Slot {
                        quantum_gate: Some(gate_next(w0[i].quantum_gate->0)),
                        ..w0[i]
                    }));
                } else {
                    assert(w1[i] == w0[i]);
                }
            }
        }
        assert(f1 == f0);
        assert(state_of(*world) == spawn_stage_spec(state_of(*old(world))));
    }
}

/// Update stage: the completion trigger, the request phase and (in the
/// full configuration) sacrifice resolution run in order, with all their
/// structural effects buffered and applied once at the stage boundary, so
/// none of them observes another's attach, detach or despawn mid-stage.
#[verifier::spinoff_prover]
#[verifier::rlimit(100)]
pub fn tick_update_stage(world: &mut World, with_sacrifice: bool)
    requires
        old(world).wf(),
        crate::store::consumers_settled(old(world).slots@),
    ensures
        final(world).wf(),
        crate::store::consumers_consumed_bounded(final(world).slots@),
        health_evolves(old(world).slots@, final(world).slots@),
        final(world).slots@.len() >= old(world).slots@.len(),
        final(world).economy == old(world).economy,
        final(world).current_tick == old(world).current_tick,
        final(world).log.entries@ == old(world).log.entries@,
        state_of(*final(world)) == update_stage_spec(state_of(*old(world)), with_sacrifice),
{
    let ghost w0 = world.slots@;
    let ghost f0 = world.free@;
    let mut cmds: Vec<Command> = Vec::new();
    execute_on_finished_construction(world, &mut cmds);
    proof {
        assert(cmds@ =~= completion_cmds(w0, w0.len() as int));
        lemma_completion_cmds_shape(w0, w0.len() as int);
    }
    let ghost u1 = cmds@;
    do_construct_resources_request(world, &mut cmds);
    let ghost w3 = world.slots@;
    let ghost u2 = cmds@;
    proof {
        assert(health_evolves(w0, w3)) by {
            assert forall|id: EntityId| valid_in(w0, id) implies stale_in(w3, id) || (valid_in(
                w3,
                id,
            ) && (w0[id.idx as int].damage is Some ==> w3[id.idx as int].damage is Some
                && w3[id.idx as int].damage->0.health >= w0[id.idx as int].damage->0.health)) by {
                assert(w3[id.idx as int].damage == w0[id.idx as int].damage);
                assert(w3[id.idx as int].alive == w0[id.idx as int].alive);
                assert(w3[id.idx as int].gen == w0[id.idx as int].gen);
            }
            assert forall|id: EntityId| stale_in(w0, id) implies stale_in(w3, id) by {
                assert(w3[id.idx as int].alive == w0[id.idx as int].alive);
                assert(w3[id.idx as int].gen == w0[id.idx as int].gen);
            }
        }
        assert(crate::store::consumers_consumed_bounded(w3)) by {
            assert forall|j: int|
                0 <= j < w3.len() && (#[trigger] w3[j]).consumer is Some implies
                w3[j].consumer->0.mass_consumed <= crate::fixed::AMT_MAX
                    && w3[j].consumer->0.energy_consumed <= crate::fixed::AMT_MAX by {
                if builder_requesting(w0[j]) && target_buildable(
                    w0,
                    w0[j].constructing->0.target,
                ) {
                    assert(w3[j].consumer->0.mass_consumed == w0[j].consumer->0.mass_consumed);
                } else {
                    assert(w3[j] == w0[j]);
                }
            }
        }
        assert(w3 =~= request_pass(w0)) by {
            assert forall|i: int| 0 <= i < w0.len() implies w3[i] == request_pass(w0)[i] by {
                if builder_requesting(w0[i]) && target_buildable(
                    w0,
                    w0[i].constructing->0.target,
                ) {
                    assert(w3[i] == requested_slot(
                        w0[i],
                        w0[w0[i].constructing->0.target.idx as int].damage->0,
                    ));
                } else {
                    assert(w3[i] == w0[i]);
                }
            }
        }
        assert(u2 == completion_cmds(w0, w0.len() as int) + request_cmds(w0, w0.len() as int));
    }
    if with_sacrifice {
        construct_sacrifice(world, &mut cmds);
    }
    let ghost w4 = world.slots@;
    let ghost u3 = cmds@;
    proof {
        assert(forall|k: int| 0 <= k < u3.len() ==> crate::store::command_wf(#[trigger] u3[k]))
            by {
            assert forall|k: int| 0 <= k < u3.len() implies crate::store::command_wf(
                #[trigger] u3[k],
            ) by {
                if k < u1.len() {
                    assert(u3[k] == u1[k]);
                    assert(u1[k] is RemoveWillExecute || u1[k] is InsertExecuting);
                }
            }
        }
        assert(health_evolves(w3, w4)) by {
            if with_sacrifice {
                assert forall|id: EntityId| valid_in(w3, id) implies stale_in(w4, id) || (
                valid_in(w4, id) && (w3[id.idx as int].damage is Some ==> w4[id.idx as int].damage
                    is Some && w4[id.idx as int].damage->0.health
                    >= w3[id.idx as int].damage->0.health)) by {
                    assert(w4[id.idx as int].alive == w3[id.idx as int].alive);
                    assert(w4[id.idx as int].gen == w3[id.idx as int].gen);
                }
                assert forall|id: EntityId| stale_in(w3, id) implies stale_in(w4, id) by {
                    assert(w4[id.idx as int].alive == w3[id.idx as int].alive);
                    assert(w4[id.idx as int].gen == w3[id.idx as int].gen);
                }
            }
        }
        assert(crate::store::consumers_consumed_bounded(w4)) by {
            assert forall|j: int|
                0 <= j < w4.len() && (#[trigger] w4[j]).consumer is Some implies
                w4[j].consumer->0.mass_consumed <= crate::fixed::AMT_MAX
                    && w4[j].consumer->0.energy_consumed <= crate::fixed::AMT_MAX by {
                assert(w4[j].consumer == w3[j].consumer);
            }
        }
    }
    let ghost f4 = world.free@;
    world.apply_commands(&cmds);
    proof {
        assert(health_evolves(w4, world.slots@)) by {
            assert forall|id: EntityId| valid_in(w4, id) implies stale_in(world.slots@, id) || (
            valid_in(world.slots@, id) && (w4[id.idx as int].damage is Some
                ==> world.slots@[id.idx as int].damage is Some
                && world.slots@[id.idx as int].damage->0.health
                >= w4[id.idx as int].damage->0.health)) by {
            }
        }
        lemma_health_evolves_trans(w0, w3, w4);
        lemma_health_evolves_trans(w0, w4, world.slots@);
        assert(f4 == f0);
        assert(w3.len() == w0.len());
        if with_sacrifice {
            assert(w4 == sac_apply(
                request_pass(w0),
                sac_infos(request_pass(w0), w0.len() as int),
                sac_infos(request_pass(w0), w0.len() as int).len() as int,
            ).0);
            assert(u3 == (completion_cmds(w0, w0.len() as int) + request_cmds(
                w0,
                w0.len() as int,
            )) + sac_apply(
                request_pass(w0),
                sac_infos(request_pass(w0), w0.len() as int),
                sac_infos(request_pass(w0), w0.len() as int).len() as int,
            ).1);
        } else {
            assert(w4 == request_pass(w0));
            assert(u3 == completion_cmds(w0, w0.len() as int) + request_cmds(
                w0,
                w0.len() as int,
            ));
        }
        assert(state_of(*world) == update_stage_spec(state_of(*old(world)), with_sacrifice));
    }
}

/// Production and request aggregation: every executing producer's yield
/// lands in stock, then the tick's stall ratios are fixed against the
/// aggregated requests. Must run after requests were posted and before
/// settlement.
#[verifier::spinoff_prover]
pub fn tick_economy_stage(world: &mut World)
    requires
        old(world).wf(),
        old(world).economy.mass <= old(world).economy.mass_capacity,
        old(world).economy.energy <= old(world).economy.energy_capacity,
        crate::store::consumers_consumed_bounded(old(world).slots@),
    ensures
        final(world).wf(),
        crate::store::consumers_consumed_bounded(final(world).slots@),
        health_evolves(old(world).slots@, final(world).slots@),
        final(world).slots@.len() == old(world).slots@.len(),
        final(world).economy.mass == old(world).economy.mass
            + final(world).economy.mass_produced,
        final(world).economy.energy == old(world).economy.energy
            + final(world).economy.energy_produced,
        final(world).economy.mass_capacity == old(world).economy.mass_capacity,
        final(world).economy.energy_capacity == old(world).economy.energy_capacity,
        ratio_wf(final(world).economy.mass_stall),
        ratio_wf(final(world).economy.energy_stall),
        final(world).economy.mass_requested == 0 ==> final(world).economy.mass_stall
            == ratio_one(),
        final(world).economy.energy_requested == 0 ==> final(world).economy.energy_stall
            == ratio_one(),
        final(world).current_tick == old(world).current_tick,
        final(world).log.entries@ == old(world).log.entries@,
        state_of(*final(world)) == economy_stage_spec(state_of(*old(world))),
{
    let ghost w0 = world.slots@;
    let ghost f0 = world.free@;
    let ghost eco0 = world.economy;
    let n0 = world.slots.len();
    economy_resource_producers(world);
    let ghost w1 = world.slots@;
    proof {
        assert(w0.len() == n0);
        crate::economy::lemma_sums_bounded(w0, w0.len() as int);
        assert(w0.len() as int * (crate::fixed::AMT_MAX as int) <= 18_446_744_073_709_551_615
            * (crate::fixed::AMT_MAX as int)) by {
            assert(n0 <= usize::MAX);
            vstd::arithmetic::mul::lemma_mul_inequality(
                w0.len() as int,
                18_446_744_073_709_551_615,
                crate::fixed::AMT_MAX as int,
            );
        }
        assert(world.economy.mass == old(world).economy.mass + crate::economy::mass_yield_sum(
            w0,
            w0.len() as int,
        ));
        assert(world.economy.energy == old(world).economy.energy
            + crate::economy::energy_yield_sum(w0, w0.len() as int));
        assert(health_evolves(w0, w1)) by {
            assert forall|id: EntityId| valid_in(w0, id) implies stale_in(w1, id) || (valid_in(
                w1,
                id,
            ) && (w0[id.idx as int].damage is Some ==> w1[id.idx as int].damage is Some
                && w1[id.idx as int].damage->0.health >= w0[id.idx as int].damage->0.health)) by {
                assert(w1[id.idx as int].damage == w0[id.idx as int].damage);
                assert(w1[id.idx as int].alive == w0[id.idx as int].alive);
                assert(w1[id.idx as int].gen == w0[id.idx as int].gen);
            }
            assert forall|id: EntityId| stale_in(w0, id) implies stale_in(w1, id) by {
                assert(w1[id.idx as int].alive == w0[id.idx as int].alive);
                assert(w1[id.idx as int].gen == w0[id.idx as int].gen);
            }
        }
        assert(crate::store::consumers_consumed_bounded(w1)) by {
            assert forall|j: int|
                0 <= j < w1.len() && (#[trigger] w1[j]).consumer is Some implies
                w1[j].consumer->0.mass_consumed <= crate::fixed::AMT_MAX
                    && w1[j].consumer->0.energy_consumed <= crate::fixed::AMT_MAX by {
                assert(w1[j].consumer == w0[j].consumer);
            }
        }
        assert(w1 =~= producer_pass(w0)) by {
            assert forall|i: int| 0 <= i < w0.len() implies w1[i] == producer_pass(w0)[i] by {
                if produces(w0[i]) {
                    assert(w1[i] == (Slot {
                        producer: Some(
                            ResourceProducer {
                                total_mass: sat_total(
                                    w0[i].producer->0.total_mass as int,
                                    w0[i].producer->0.mass_yield as int,
                                ) as u128,
                                total_energy: sat_total(
                                    w0[i].producer->0.total_energy as int,
                                    w0[i].producer->0.energy_yield as int,
                                ) as u128,
                                ..w0[i].producer->0
                            },
                        ),
                        ..w0[i]
                    }));
                } else {
                    assert(w1[i] == w0[i]);
                }
            }
        }
    }
    economy_process_resource_requests(world);
    proof {
        assert(world.free@ == f0);
        assert(state_of(*world) == economy_stage_spec(state_of(*old(world))));
    }
}

/// Settlement stage: each builder's throttled allocation is applied to its
/// target and the completed edges' removals are applied at the boundary.
#[verifier::spinoff_prover]
pub fn tick_settle_stage(world: &mut World)
    requires
        old(world).wf(),
        crate::store::consumers_consumed_bounded(old(world).slots@),
    ensures
        final(world).wf(),
        health_evolves(old(world).slots@, final(world).slots@),
        final(world).slots@.len() >= old(world).slots@.len(),
        final(world).economy == old(world).economy,
        final(world).current_tick == old(world).current_tick,
        final(world).log.entries@ == old(world).log.entries@,
        state_of(*final(world)) == settle_stage_spec(state_of(*old(world))),
{
    let ghost w0 = world.slots@;
    let ghost f0 = world.free@;
    let ghost eco0 = world.economy;
    let mut cmds: Vec<Command> = Vec::new();
    do_construct(world, &mut cmds);
    let ghost w1 = world.slots@;
    proof {
        assert(cmds@ =~= Seq::<Command>::empty() + settle_upto(w0, eco0, w0.len() as int).1);
        assert(world.free@ == f0);
    }
    world.apply_commands(&cmds);
    proof {
        assert(health_evolves(w0, w1)) by {
            assert forall|id: EntityId| valid_in(w0, id) implies stale_in(w1, id) || (valid_in(
                w1,
                id,
            ) && (w0[id.idx as int].damage is Some ==> w1[id.idx as int].damage is Some
                && w1[id.idx as int].damage->0.health >= w0[id.idx as int].damage->0.health)) by {
                assert(w1[id.idx as int].alive == w0[id.idx as int].alive);
                assert(w1[id.idx as int].gen == w0[id.idx as int].gen);
            }
            assert forall|id: EntityId| stale_in(w0, id) implies stale_in(w1, id) by {
                assert(w1[id.idx as int].alive == w0[id.idx as int].alive);
                assert(w1[id.idx as int].gen == w0[id.idx as int].gen);
            }
        }
        assert(health_evolves(w1, world.slots@)) by {
            assert forall|id: EntityId| valid_in(w1, id) implies stale_in(world.slots@, id) || (
            valid_in(world.slots@, id) && (w1[id.idx as int].damage is Some
                ==> world.slots@[id.idx as int].damage is Some
                && world.slots@[id.idx as int].damage->0.health
                >= w1[id.idx as int].damage->0.health)) by {
            }
        }
        lemma_health_evolves_trans(w0, w1, world.slots@);
        assert(w1 == settle_upto(w0, eco0, w0.len() as int).0);
        assert(state_of(*world) == settle_stage_spec(state_of(*old(world))));
    }
}

/// Advance exactly one tick through all stages in their fixed order; the
/// spawn controller and the sacrifice resolver take part only in the
/// configurations that run them.
#[verifier::spinoff_prover]
pub fn advance_tick(world: &mut World, with_gates: bool, with_sacrifice: bool)
    requires
        old(world).ready(),
        old(world).current_tick.0 < u64::MAX,
    ensures
        tick_rel(*old(world), *final(world)),
        state_of(*final(world)) == tick_spec(state_of(*old(world)), with_gates, with_sacrifice),
{
    let ghost a = *old(world);
    let ghost w0 = world.slots@;
    let ghost st0 = state_of(*old(world));
    count_tick(world);
    let ghost st1 = SimState { tick: (st0.tick + 1) as u64, ..st0 };
    proof {
        assert(state_of(*world) == st1);
    }
    if with_gates {
        tick_spawn_stage(world);
    }
    let ghost w1 = world.slots@;
    let ghost st2 = if with_gates { spawn_stage_spec(st1) } else { st1 };
    proof {
        assert(state_of(*world) == st2);
    }
    tick_update_stage(world, with_sacrifice);
    let ghost w2 = world.slots@;
    let ghost st3 = update_stage_spec(st2, with_sacrifice);
    proof {
        assert(state_of(*world) == st3);
    }
    tick_economy_stage(world);
    let ghost w3 = world.slots@;
    let ghost st4 = economy_stage_spec(st3);
    proof {
        assert(state_of(*world) == st4);
    }
    tick_settle_stage(world);
    let ghost w4 = world.slots@;
    let ghost st5 = settle_stage_spec(st4);
    proof {
        assert(state_of(*world) == st5);
    }
    let n4 = world.slots.len();
    economy_process_resource_consumption(world);
    proof {
        let w5 = world.slots@;
        assert(w4.len() == n4);
        crate::economy::lemma_sums_bounded(w4, w4.len() as int);
        assert(w4.len() as int * (crate::fixed::CONS_BOUND as int) <= 18_446_744_073_709_551_615
            * (crate::fixed::CONS_BOUND as int)) by {
            assert(n4 <= usize::MAX);
            vstd::arithmetic::mul::lemma_mul_inequality(
                w4.len() as int,
                18_446_744_073_709_551_615,
                crate::fixed::CONS_BOUND as int,
            );
        }
        assert(world.economy.mass_consumed == crate::economy::mass_consumed_sum(
            w4,
            w4.len() as int,
        ));
        assert(world.economy.energy_consumed == crate::economy::energy_consumed_sum(
            w4,
            w4.len() as int,
        ));
        assert(world.economy.mass == settle_stock(
            a.economy.mass + world.economy.mass_produced,
            world.economy.mass_consumed as int,
            a.economy.mass_capacity as int,
        ));
        assert(world.economy.energy == settle_stock(
            a.economy.energy + world.economy.energy_produced,
            world.economy.energy_consumed as int,
            a.economy.energy_capacity as int,
        ));
        assert(health_evolves(w0, w1));
        lemma_health_evolves_trans(w0, w1, w2);
        lemma_health_evolves_trans(w0, w2, w3);
        lemma_health_evolves_trans(w0, w3, w4);
        assert(health_evolves(w4, w5)) by {
            assert forall|id: EntityId| valid_in(w4, id) implies stale_in(w5, id) || (valid_in(
                w5,
                id,
            ) && (w4[id.idx as int].damage is Some ==> w5[id.idx as int].damage is Some
                && w5[id.idx as int].damage->0.health >= w4[id.idx as int].damage->0.health)) by {
                assert(w5[id.idx as int].damage == w4[id.idx as int].damage);
                assert(w5[id.idx as int].alive == w4[id.idx as int].alive);
                assert(w5[id.idx as int].gen == w4[id.idx as int].gen);
            }
            assert forall|id: EntityId| stale_in(w4, id) implies stale_in(w5, id) by {
                assert(w5[id.idx as int].alive == w4[id.idx as int].alive);
                assert(w5[id.idx as int].gen == w4[id.idx as int].gen);
            }
        }
        lemma_health_evolves_trans(w0, w4, w5);
        assert forall|id: EntityId|
            valid_in(w0, id) && valid_in(w5, id) && w0[id.idx as int].damage is Some implies
            w5[id.idx as int].damage is Some && w5[id.idx as int].damage->0.health
                >= w0[id.idx as int].damage->0.health && w5[id.idx as int].damage->0.health
                <= SCALE by {
            assert(!stale_in(w5, id));
            assert(crate::store::slot_wf(w5[id.idx as int]));
        }
        assert(w5 =~= consumption_pass(w4)) by {
            assert forall|i: int| 0 <= i < w4.len() implies w5[i] == consumption_pass(w4)[i] by {
                if consumption_counted(w4[i]) {
                    assert(w5[i] == (Slot { consumer: Some(zero_consumer()), ..w4[i] }));
                } else {
                    assert(w5[i] == w4[i]);
                }
            }
        }
        assert(state_of(*world) == consumption_stage_spec(st5));
        assert(state_of(*world) == tick_spec(st0, with_gates, with_sacrifice));
    }
}

/// Advance the full simulation by exactly one tick through all stages in
/// fixed order.
pub fn step(world: &mut World)
    requires
        old(world).ready(),
        old(world).current_tick.0 < u64::MAX,
    ensures
        tick_rel(*old(world), *final(world)),
        state_of(*final(world)) == tick_spec(state_of(*old(world)), true, true),
{
    advance_tick(world, true, true);
}

/// A simulation preconfigured with the full pipeline: gates spawn units
/// and sacrifices resolve.
pub struct RASSimulation {
    pub world: World,
}

impl RASSimulation {
    /// A simulation storing up to 40000 mass and 100000 energy.
    pub fn new() -> (r: RASSimulation)
        ensures
            r.world.ready(),
            r.world.current_tick.0 == 0,
            r.world.slots@ == Seq::<Slot>::empty(),
            r.world.economy == crate::economy::economy_with_capacities(
                40_000_000_000,
                100_000_000_000,
            ),
    {
        RASSimulation {
            world: World {
                slots: Vec::new(),
                free: Vec::new(),
                economy: Economy {
                    mass: 0,
                    energy: 0,
                    mass_capacity: 40_000_000_000,
                    energy_capacity: 100_000_000_000,
                    mass_stall: Ratio { num: 1, den: 1 },
                    energy_stall: Ratio { num: 1, den: 1 },
                    mass_produced: 0,
                    energy_produced: 0,
                    mass_requested: 0,
                    energy_requested: 0,
                    mass_consumed: 0,
                    energy_consumed: 0,
                },
                current_tick: CurrentTick(0),
                log: LogHandler::new(),
            },
        }
    }

    /// The number of completed ticks.
    pub fn get_tick(&self) -> (t: u64)
        ensures
            t == self.world.current_tick.0,
    {
        self.world.current_tick.0
    }

    /// Advance one tick through every stage in fixed order.
    pub fn run(&mut self)
        requires
            old(self).world.ready(),
            old(self).world.current_tick.0 < u64::MAX,
        ensures
            tick_rel(old(self).world, final(self).world),
            state_of(final(self).world) == tick_spec(state_of(old(self).world), true, true),
    {
        advance_tick(&mut self.world, true, true);
    }
}

/// The basic pipeline configuration: construction and the economy alone,
/// with no gates spawning and no sacrifices resolving.
pub struct FASimulation {
    pub world: World,
}

impl FASimulation {
    /// A simulation storing up to 4000 mass and 100000 energy.
    pub fn new() -> (r: FASimulation)
        ensures
            r.world.ready(),
            r.world.current_tick.0 == 0,
            r.world.slots@ == Seq::<Slot>::empty(),
            r.world.economy == crate::economy::economy_with_capacities(
                4_000_000_000,
                100_000_000_000,
            ),
    {
        FASimulation {
            world: World {
                slots: Vec::new(),
                free: Vec::new(),
                economy: Economy {
                    mass: 0,
                    energy: 0,
                    mass_capacity: 4_000_000_000,
                    energy_capacity: 100_000_000_000,
                    mass_stall: Ratio { num: 1, den: 1 },
                    energy_stall: Ratio { num: 1, den: 1 },
                    mass_produced: 0,
                    energy_produced: 0,
                    mass_requested: 0,
                    energy_requested: 0,
                    mass_consumed: 0,
                    energy_consumed: 0,
                },
                current_tick: CurrentTick(0),
                log: LogHandler::new(),
            },
        }
    }

    /// Advance one tick through this configuration's stages in fixed order.
    pub fn run(&mut self)
        requires
            old(self).world.ready(),
            old(self).world.current_tick.0 < u64::MAX,
        ensures
            tick_rel(old(self).world, final(self).world),
            state_of(final(self).world) == tick_spec(state_of(old(self).world), false, false),
    {
        advance_tick(&mut self.world, false, false);
    }
}

} // verus!
