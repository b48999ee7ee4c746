//! The entity store: an arena of slots addressed by dense indices with
//! generation counters, one optional component of each type per slot, and
//! the deferred command buffer through which all structural mutation
//! (spawning, despawning, attaching and detaching mid-stage) flows, so that
//! no stage observes structural changes issued within the same stage.

use vstd::prelude::*;
use crate::components::ConfigError;
use crate::components::Constructing;
use crate::components::Damage;
use crate::components::Engineering;
use crate::components::EntityId;
use crate::components::QuantumGate;
use crate::components::ResourceConsumer;
use crate::components::ResourceProducer;
use crate::components::SacrificeCapable;
use crate::components::Sacrificing;
use crate::components::check_constructing;
use crate::components::check_consumer;
use crate::components::check_damage;
use crate::components::check_engineering;
use crate::components::check_gate;
use crate::components::check_producer;
use crate::components::check_sacrifice_capable;
use crate::components::constructing_check;
use crate::components::constructing_wf;
use crate::components::consumer_check;
use crate::components::consumer_settled_bound;
use crate::components::consumer_wf;
use crate::components::damage_check;
use crate::components::damage_wf;
use crate::components::engineering_check;
use crate::components::engineering_wf;
use crate::components::gate_check;
use crate::components::gate_wf;
use crate::components::producer_check;
use crate::components::producer_wf;
use crate::components::sacrifice_capable_check;
use crate::components::sacrifice_capable_wf;
use crate::economy::CurrentTick;
use crate::economy::Economy;
use crate::economy::LogHandler;
use crate::economy::eco_wf;
use crate::economy::economy_with_capacities;
use crate::fixed::AMT_MAX;
use crate::fixed::SCALE;

verus! {

/// One entity slot: a liveness flag, the slot's generation, the presence
/// tags, and one optional component of each type.
#[derive(Clone, Copy, PartialEq, Eq, Structural, Debug)]
pub struct Slot {
    pub alive: bool,
    pub gen: u64,
    pub executing: bool,
    pub will_execute: bool,
    pub paused: bool,
    pub support_commander: bool,
    pub paragon: bool,
    pub damage: Option<Damage>,
    pub engineering: Option<Engineering>,
    pub producer: Option<ResourceProducer>,
    pub consumer: Option<ResourceConsumer>,
    pub constructing: Option<Constructing>,
    pub sacrificing: Option<Sacrificing>,
    pub sacrifice_capable: Option<SacrificeCapable>,
    pub quantum_gate: Option<QuantumGate>,
}

/// A dead slot at generation `g`: nothing attached.
pub open spec fn cleared_slot(g: u64) -> Slot {
    Slot {
        alive: false,
        gen: g,
        executing: false,
        will_execute: false,
        paused: false,
        support_commander: false,
        paragon: false,
        damage: None,
        engineering: None,
        producer: None,
        consumer: None,
        constructing: None,
        sacrificing: None,
        sacrifice_capable: None,
        quantum_gate: None,
    }
}

/// A freshly created live slot at generation `g`: nothing attached yet.
pub open spec fn fresh_slot(g: u64) -> Slot {
    Slot { alive: true, ..cleared_slot(g) }
}

/// Every component a slot carries is well-formed, and a dead slot carries
/// nothing.
pub open spec fn slot_wf(s: Slot) -> bool {
    &&& (s.damage is Some ==> damage_wf(s.damage->0))
    &&& (s.engineering is Some ==> engineering_wf(s.engineering->0))
    &&& (s.producer is Some ==> producer_wf(s.producer->0))
    &&& (s.consumer is Some ==> consumer_wf(s.consumer->0))
    &&& (s.constructing is Some ==> constructing_wf(s.constructing->0))
    &&& (s.sacrifice_capable is Some ==> sacrifice_capable_wf(s.sacrifice_capable->0))
    &&& (s.quantum_gate is Some ==> gate_wf(s.quantum_gate->0))
    &&& (!s.alive ==> s == cleared_slot(s.gen))
}

/// The free list holds dead slots only, each at most once.
pub open spec fn free_wf(slots: Seq<Slot>, free: Seq<usize>) -> bool {
    &&& forall|k: int|
        0 <= k < free.len() ==> (#[trigger] free[k]) < slots.len() && !slots[free[k] as int].alive
    &&& free.no_duplicates()
}

/// `id` addresses a live slot of the same generation.
pub open spec fn valid_in(slots: Seq<Slot>, id: EntityId) -> bool {
    &&& id.idx < slots.len()
    &&& slots[id.idx as int].alive
    &&& slots[id.idx as int].gen == id.gen
}

/// A component value to attach, as the store accepts it.
#[derive(Clone, Copy, Debug)]
pub enum ComponentVal {
    Damage(Damage),
    Engineering(Engineering),
    Producer(ResourceProducer),
    Consumer(ResourceConsumer),
    Constructing(Constructing),
    Sacrificing(Sacrificing),
    SacrificeCapable(SacrificeCapable),
    QuantumGate(QuantumGate),
    Executing,
    WillExecuteOnConstruct,
    ConstructionPaused,
    SupportCommander,
    Paragon,
}

/// A component type to detach.
#[derive(Clone, Copy, PartialEq, Eq, Structural, Debug)]
pub enum ComponentKind {
    Damage,
    Engineering,
    Producer,
    Consumer,
    Constructing,
    Sacrificing,
    SacrificeCapable,
    QuantumGate,
    Executing,
    WillExecuteOnConstruct,
    ConstructionPaused,
    SupportCommander,
    Paragon,
}

/// The configuration check a value must pass before it is attached.
pub open spec fn attach_check(c: ComponentVal) -> Result<(), ConfigError> {
    match c {
        ComponentVal::Damage(d) => damage_check(d),
        ComponentVal::Engineering(e) => engineering_check(e),
        ComponentVal::Producer(p) => producer_check(p),
        ComponentVal::Consumer(v) => consumer_check(v),
        ComponentVal::Constructing(v) => constructing_check(v),
        ComponentVal::Sacrificing(_) => Ok(()),
        ComponentVal::SacrificeCapable(v) => sacrifice_capable_check(v),
        ComponentVal::QuantumGate(g) => gate_check(g),
        ComponentVal::Executing => Ok(()),
        ComponentVal::WillExecuteOnConstruct => Ok(()),
        ComponentVal::ConstructionPaused => Ok(()),
        ComponentVal::SupportCommander => Ok(()),
        ComponentVal::Paragon => Ok(()),
    }
}

/// The slot as it stands after attaching `c`.
pub open spec fn slot_with(s: Slot, c: ComponentVal) -> Slot {
    match c {
        ComponentVal::Damage(d) => Slot { damage: Some(d), ..s },
        ComponentVal::Engineering(e) => Slot { engineering: Some(e), ..s },
        ComponentVal::Producer(p) => Slot { producer: Some(p), ..s },
        ComponentVal::Consumer(v) => Slot { consumer: Some(v), ..s },
        ComponentVal::Constructing(v) => Slot { constructing: Some(v), ..s },
        ComponentVal::Sacrificing(v) => Slot { sacrificing: Some(v), ..s },
        ComponentVal::SacrificeCapable(v) => Slot { sacrifice_capable: Some(v), ..s },
        ComponentVal::QuantumGate(g) => Slot { quantum_gate: Some(g), ..s },
        ComponentVal::Executing => Slot { executing: true, ..s },
        ComponentVal::WillExecuteOnConstruct => Slot { will_execute: true, ..s },
        ComponentVal::ConstructionPaused => Slot { paused: true, ..s },
        ComponentVal::SupportCommander => Slot { support_commander: true, ..s },
        ComponentVal::Paragon => Slot { paragon: true, ..s },
    }
}

/// The slot as it stands after detaching a component of kind `k`.
pub open spec fn slot_without(s: Slot, k: ComponentKind) -> Slot {
    match k {
        ComponentKind::Damage => Slot { damage: None, ..s },
        ComponentKind::Engineering => Slot { engineering: None, ..s },
        ComponentKind::Producer => Slot { producer: None, ..s },
        ComponentKind::Consumer => Slot { consumer: None, ..s },
        ComponentKind::Constructing => Slot { constructing: None, ..s },
        ComponentKind::Sacrificing => Slot { sacrificing: None, ..s },
        ComponentKind::SacrificeCapable => Slot { sacrifice_capable: None, ..s },
        ComponentKind::QuantumGate => Slot { quantum_gate: None, ..s },
        ComponentKind::Executing => Slot { executing: false, ..s },
        ComponentKind::WillExecuteOnConstruct => Slot { will_execute: false, ..s },
        ComponentKind::ConstructionPaused => Slot { paused: false, ..s },
        ComponentKind::SupportCommander => Slot { support_commander: false, ..s },
        ComponentKind::Paragon => Slot { paragon: false, ..s },
    }
}

/// A structural mutation, buffered during a stage and applied at its end.
#[derive(Clone, Copy, PartialEq, Eq, Structural, Debug)]
pub enum Command {
    /// destroy the entity and clear its slot
    Despawn(EntityId),
    RemoveConstructing(EntityId),
    RemoveSacrificing(EntityId),
    RemoveWillExecute(EntityId),
    InsertExecuting(EntityId),
    /// spawn a new unit with the given stat table and attach a
    /// Constructing edge from `gate` to it
    SpawnUnit {
        gate: EntityId,
        damage: Damage,
        engineering: Engineering,
        producer: ResourceProducer,
        sacrifice: SacrificeCapable,
    },
}

pub open spec fn command_wf(c: Command) -> bool {
    match c {
        Command::SpawnUnit { gate, damage, engineering, producer, sacrifice } => {
            &&& damage_wf(damage)
            &&& engineering_wf(engineering)
            &&& producer_wf(producer)
            &&& sacrifice_capable_wf(sacrifice)
        },
        _ => true,
    }
}

/// Whether entity allocation will reuse the last free slot (it will unless
/// the free list is empty or that slot's generation counter is exhausted).
pub open spec fn alloc_reuses(slots: Seq<Slot>, free: Seq<usize>) -> bool {
    free.len() > 0 && slots[free.last() as int].gen < u64::MAX
}

/// The generation the next allocated entity will carry.
pub open spec fn alloc_gen(slots: Seq<Slot>, free: Seq<usize>) -> u64 {
    if alloc_reuses(slots, free) {
        (slots[free.last() as int].gen + 1) as u64
    } else {
        0
    }
}

/// The handle the next allocated entity will carry.
pub open spec fn alloc_id(slots: Seq<Slot>, free: Seq<usize>) -> EntityId {
    if alloc_reuses(slots, free) {
        EntityId { idx: free.last(), gen: alloc_gen(slots, free) }
    } else {
        EntityId { idx: slots.len() as usize, gen: 0 }
    }
}

/// The slot table after allocating one entity whose slot is `s` except for
/// the generation, which the allocator assigns.
pub open spec fn alloc_slots(slots: Seq<Slot>, free: Seq<usize>, s: Slot) -> Seq<Slot> {
    if alloc_reuses(slots, free) {
        slots.update(free.last() as int, Slot { gen: alloc_gen(slots, free), ..s })
    } else {
        slots.push(Slot { gen: 0, ..s })
    }
}

/// The free list after allocating one entity.
pub open spec fn alloc_free(slots: Seq<Slot>, free: Seq<usize>) -> Seq<usize> {
    if alloc_reuses(slots, free) {
        free.drop_last()
    } else {
        free
    }
}

/// The consumer a spawned unit starts with: all accumulators zero.
pub open spec fn zero_consumer() -> ResourceConsumer {
    ResourceConsumer { mass_request: 0, energy_request: 0, mass_consumed: 0, energy_consumed: 0 }
}

/// The full component set of a unit spawned by a quantum gate.
pub open spec fn spawned_slot(
    g: u64,
    damage: Damage,
    engineering: Engineering,
    producer: ResourceProducer,
    sacrifice: SacrificeCapable,
) -> Slot {
    Slot {
        alive: true,
        gen: g,
        executing: false,
        will_execute: true,
        paused: false,
        support_commander: true,
        paragon: false,
        damage: Some(damage),
        engineering: Some(engineering),
        producer: Some(producer),
        consumer: Some(zero_consumer()),
        constructing: None,
        sacrificing: None,
        sacrifice_capable: Some(sacrifice),
        quantum_gate: None,
    }
}

/// The Constructing edge a gate starts with toward a just-spawned unit.
pub open spec fn gate_edge(target: EntityId) -> Constructing {
    Constructing {
        target,
        mass_requested: 0,
        energy_requested: 0,
        mass_consumption_multiplier: SCALE,
        energy_consumption_multiplier: SCALE,
        build_amount: 0,
    }
}

/// The effect of one buffered command on the slot table and free list.
pub open spec fn apply_command(slots: Seq<Slot>, free: Seq<usize>, c: Command) -> (
    Seq<Slot>,
    Seq<usize>,
) {
    match c {
        Command::Despawn(id) => {
            if valid_in(slots, id) {
                (
                    slots.update(id.idx as int, cleared_slot(slots[id.idx as int].gen)),
                    free.push(id.idx),
                )
            } else {
                (slots, free)
            }
        },
        Command::RemoveConstructing(id) => {
            if valid_in(slots, id) {
                (
                    slots.update(
                        id.idx as int,
                        slot_without(slots[id.idx as int], ComponentKind::Constructing),
                    ),
                    free,
                )
            } else {
                (slots, free)
            }
        },
        Command::RemoveSacrificing(id) => {
            if valid_in(slots, id) {
                (
                    slots.update(
                        id.idx as int,
                        slot_without(slots[id.idx as int], ComponentKind::Sacrificing),
                    ),
                    free,
                )
            } else {
                (slots, free)
            }
        },
        Command::RemoveWillExecute(id) => {
            if valid_in(slots, id) {
                (
                    slots.update(
                        id.idx as int,
                        slot_without(slots[id.idx as int], ComponentKind::WillExecuteOnConstruct),
                    ),
                    free,
                )
            } else {
                (slots, free)
            }
        },
        Command::InsertExecuting(id) => {
            if valid_in(slots, id) {
                (
                    slots.update(
                        id.idx as int,
                        slot_with(slots[id.idx as int], ComponentVal::Executing),
                    ),
                    free,
                )
            } else {
                (slots, free)
            }
        },
        Command::SpawnUnit { gate, damage, engineering, producer, sacrifice } => {
            let nid = alloc_id(slots, free);
            let s1 = alloc_slots(
                slots,
                free,
                spawned_slot(0, damage, engineering, producer, sacrifice),
            );
            let f1 = alloc_free(slots, free);
            if valid_in(s1, gate) {
                (
                    s1.update(
                        gate.idx as int,
                        Slot { constructing: Some(gate_edge(nid)), ..s1[gate.idx as int] },
                    ),
                    f1,
                )
            } else {
                (s1, f1)
            }
        },
    }
}

/// The effect of a whole command buffer, applied in order.
pub open spec fn apply_commands_spec(slots: Seq<Slot>, free: Seq<usize>, cmds: Seq<Command>) -> (
    Seq<Slot>,
    Seq<usize>,
)
    decreases cmds.len(),
{
    if cmds.len() == 0 {
        (slots, free)
    } else {
        let next = apply_command(slots, free, cmds[0]);
        apply_commands_spec(next.0, next.1, cmds.drop_first())
    }
}

/// The handle of the entity in slot `i`.
pub open spec fn slot_id(slots: Seq<Slot>, i: int) -> EntityId {
    EntityId { idx: i as usize, gen: slots[i].gen }
}

/// The handle can never address a live entity again: its slot has moved to
/// a later generation, or sits dead at the handle's own generation (and any
/// reuse will bump it past).
pub open spec fn stale_in(slots: Seq<Slot>, id: EntityId) -> bool {
    &&& id.idx < slots.len()
    &&& (slots[id.idx as int].gen > id.gen || (slots[id.idx as int].gen == id.gen
        && !slots[id.idx as int].alive))
}

/// Every consumer in the table is at its settled (attached) bound.
pub open spec fn consumers_settled(slots: Seq<Slot>) -> bool {
    forall|i: int|
        0 <= i < slots.len() && (#[trigger] slots[i]).consumer is Some ==> consumer_settled_bound(
            slots[i].consumer->0,
        )
}

/// Every consumer's realized-consumption accumulators are at their
/// attached bound (requests may run higher mid-tick).
pub open spec fn consumers_consumed_bounded(slots: Seq<Slot>) -> bool {
    forall|i: int|
        0 <= i < slots.len() && (#[trigger] slots[i]).consumer is Some
            ==> slots[i].consumer->0.mass_consumed <= crate::fixed::AMT_MAX
            && slots[i].consumer->0.energy_consumed <= crate::fixed::AMT_MAX
}

/// No command in the buffer spawns an entity.
pub open spec fn no_spawn_cmds(cmds: Seq<Command>) -> bool {
    forall|k: int| 0 <= k < cmds.len() ==> !((#[trigger] cmds[k]) is SpawnUnit)
}

/// No command in the buffer destroys an entity.
pub open spec fn no_despawn_cmds(cmds: Seq<Command>) -> bool {
    forall|k: int| 0 <= k < cmds.len() ==> !((#[trigger] cmds[k]) is Despawn)
}

/// The still-valid part of the frame one command leaves: a surviving
/// entity keeps everything but its tags and edges.
pub open spec fn survivor_frame(s_old: Slot, s_new: Slot) -> bool {
    &&& s_new.alive == s_old.alive
    &&& s_new.gen == s_old.gen
    &&& s_new.paused == s_old.paused
    &&& s_new.support_commander == s_old.support_commander
    &&& s_new.paragon == s_old.paragon
    &&& s_new.damage == s_old.damage
    &&& s_new.engineering == s_old.engineering
    &&& s_new.producer == s_old.producer
    &&& s_new.consumer == s_old.consumer
    &&& s_new.sacrifice_capable == s_old.sacrifice_capable
    &&& s_new.quantum_gate == s_old.quantum_gate
}

/// One buffered command keeps the store well-formed, never shrinks it,
/// never resurrects a handle, and leaves every surviving entity's build
/// state untouched.
pub proof fn lemma_apply_command_preserves(slots: Seq<Slot>, free: Seq<usize>, c: Command)
    requires
        forall|i: int| 0 <= i < slots.len() ==> slot_wf(#[trigger] slots[i]),
        free_wf(slots, free),
        command_wf(c),
    ensures
        forall|i: int|
            0 <= i < apply_command(slots, free, c).0.len() ==> slot_wf(
                #[trigger] apply_command(slots, free, c).0[i],
            ),
        free_wf(apply_command(slots, free, c).0, apply_command(slots, free, c).1),
        apply_command(slots, free, c).0.len() >= slots.len(),
        forall|id: EntityId|
            valid_in(slots, id) ==> (valid_in(apply_command(slots, free, c).0, id)
                && survivor_frame(
                slots[id.idx as int],
                apply_command(slots, free, c).0[id.idx as int],
            )) || stale_in(apply_command(slots, free, c).0, id),
        forall|id: EntityId|
            stale_in(slots, id) ==> stale_in(apply_command(slots, free, c).0, id),
        consumers_settled(slots) ==> consumers_settled(apply_command(slots, free, c).0),
        consumers_consumed_bounded(slots) ==> consumers_consumed_bounded(
            apply_command(slots, free, c).0,
        ),
        forall|i: int|
            0 <= i < slots.len() && !slots[i].alive && !(c is SpawnUnit) ==> !(
            #[trigger] apply_command(slots, free, c).0[i]).alive,
        forall|id: EntityId|
            valid_in(slots, id) && !(c is Despawn) ==> valid_in(apply_command(slots, free, c).0, id),
{
    let t = apply_command(slots, free, c).0;
    let f2 = apply_command(slots, free, c).1;
    match c {
        Command::Despawn(id) => {
            if valid_in(slots, id) {
                assert forall|k: int| 0 <= k < f2.len() implies (#[trigger] f2[k]) < t.len()
                    && !t[f2[k] as int].alive by {
                    if k < free.len() {
                        assert(f2[k] == free[k]);
                    } else {
                        assert(f2[k] == id.idx);
                    }
                }
                assert(f2.no_duplicates()) by {
                    assert(forall|k: int|
                        0 <= k < free.len() ==> !slots[(#[trigger] free[k]) as int].alive);
                    assert(slots[id.idx as int].alive);
                    assert(!free.contains(id.idx));
                }
            }
        },
        Command::RemoveConstructing(id) => {},
        Command::RemoveSacrificing(id) => {},
        Command::RemoveWillExecute(id) => {},
        Command::InsertExecuting(id) => {},
        Command::SpawnUnit { gate, damage, engineering, producer, sacrifice } => {
            let ns = spawned_slot(0, damage, engineering, producer, sacrifice);
            let s1 = alloc_slots(slots, free, ns);
            let f1 = alloc_free(slots, free);
            if alloc_reuses(slots, free) {
                let ri = free.last() as int;
                assert(!slots[ri].alive);
                assert(forall|k: int| 0 <= k < f1.len() ==> f1[k] == free[k]);
                assert forall|k: int| 0 <= k < f1.len() implies (#[trigger] f1[k]) < s1.len()
                    && !s1[f1[k] as int].alive by {
                    assert(free.no_duplicates());
                    assert(free[k] == f1[k] && k < free.len() - 1);
                    assert(free[free.len() - 1] == free.last());
                    assert(free[k] != free.last());
                }
            }
            assert(forall|i: int| 0 <= i < s1.len() ==> slot_wf(#[trigger] s1[i]));
            assert(free_wf(s1, f1));
        },
    }
}

/// A whole command buffer preserves what each single command preserves.
pub proof fn lemma_apply_commands_preserves(slots: Seq<Slot>, free: Seq<usize>, cmds: Seq<Command>)
    requires
        forall|i: int| 0 <= i < slots.len() ==> slot_wf(#[trigger] slots[i]),
        free_wf(slots, free),
        forall|k: int| 0 <= k < cmds.len() ==> command_wf(#[trigger] cmds[k]),
    ensures
        forall|i: int|
            0 <= i < apply_commands_spec(slots, free, cmds).0.len() ==> slot_wf(
                #[trigger] apply_commands_spec(slots, free, cmds).0[i],
            ),
        free_wf(apply_commands_spec(slots, free, cmds).0, apply_commands_spec(slots, free, cmds).1),
        apply_commands_spec(slots, free, cmds).0.len() >= slots.len(),
        forall|id: EntityId|
            valid_in(slots, id) ==> (valid_in(apply_commands_spec(slots, free, cmds).0, id)
                && survivor_frame(
                slots[id.idx as int],
                apply_commands_spec(slots, free, cmds).0[id.idx as int],
            )) || stale_in(apply_commands_spec(slots, free, cmds).0, id),
        forall|id: EntityId|
            stale_in(slots, id) ==> stale_in(apply_commands_spec(slots, free, cmds).0, id),
        consumers_settled(slots) ==> consumers_settled(apply_commands_spec(slots, free, cmds).0),
        consumers_consumed_bounded(slots) ==> consumers_consumed_bounded(
            apply_commands_spec(slots, free, cmds).0,
        ),
        forall|i: int|
            0 <= i < slots.len() && !slots[i].alive && no_spawn_cmds(cmds) ==> !(
            #[trigger] apply_commands_spec(slots, free, cmds).0[i]).alive,
        forall|id: EntityId|
            valid_in(slots, id) && no_despawn_cmds(cmds) ==> valid_in(
                apply_commands_spec(slots, free, cmds).0,
                id,
            ),
    decreases cmds.len(),
{
    if cmds.len() == 0 {
    } else {
        lemma_apply_command_preserves(slots, free, cmds[0]);
        let next = apply_command(slots, free, cmds[0]);
        lemma_apply_commands_preserves(next.0, next.1, cmds.drop_first());
    }
}

/// With no spawn in the buffer, a dead slot stays dead.
pub proof fn lemma_no_spawn_keeps_dead(slots: Seq<Slot>, free: Seq<usize>, cmds: Seq<Command>, i: int)
    requires
        no_spawn_cmds(cmds),
        0 <= i < slots.len(),
        !slots[i].alive,
    ensures
        !apply_commands_spec(slots, free, cmds).0[i].alive,
        apply_commands_spec(slots, free, cmds).0.len() >= slots.len(),
    decreases cmds.len(),
{
    if cmds.len() > 0 {
        let next = apply_command(slots, free, cmds[0]);
        assert(!next.0[i].alive);
        assert(no_spawn_cmds(cmds.drop_first())) by {
            assert(forall|k: int|
                0 <= k < cmds.drop_first().len() ==> cmds.drop_first()[k] == cmds[k + 1]);
        }
        lemma_no_spawn_keeps_dead(next.0, next.1, cmds.drop_first(), i);
    }
}

/// Sacrifice is destructive: once a despawn command for a live entity sits
/// in a spawn-free buffer, applying the buffer leaves that entity dead —
/// no later command can resurrect the handle.
pub proof fn lemma_despawn_lands(slots: Seq<Slot>, free: Seq<usize>, cmds: Seq<Command>, id: EntityId)
    requires
        no_spawn_cmds(cmds),
        valid_in(slots, id),
        cmds.contains(Command::Despawn(id)),
    ensures
        !apply_commands_spec(slots, free, cmds).0[id.idx as int].alive,
        apply_commands_spec(slots, free, cmds).0.len() >= slots.len(),
    decreases cmds.len(),
{
    let next = apply_command(slots, free, cmds[0]);
    if cmds[0] == Command::Despawn(id) {
        assert(!next.0[id.idx as int].alive);
        assert(no_spawn_cmds(cmds.drop_first())) by {
            assert(forall|k: int|
                0 <= k < cmds.drop_first().len() ==> cmds.drop_first()[k] == cmds[k + 1]);
        }
        lemma_no_spawn_keeps_dead(next.0, next.1, cmds.drop_first(), id.idx as int);
    } else {
        assert(valid_in(next.0, id)) by {
            if cmds[0] is Despawn {
                let id2 = cmds[0]->Despawn_0;
                if valid_in(slots, id2) && id2.idx == id.idx {
                    assert(id2.gen == slots[id.idx as int].gen);
                    assert(id2 == id);
                }
            }
        }
        assert(cmds.drop_first().contains(Command::Despawn(id))) by {
            let k = choose|k: int|
                0 <= k < cmds.len() && #[trigger] cmds[k] == Command::Despawn(id);
            assert(k != 0);
            assert(cmds.drop_first()[k - 1] == Command::Despawn(id));
        }
        assert(no_spawn_cmds(cmds.drop_first())) by {
            assert(forall|k: int|
                0 <= k < cmds.drop_first().len() ==> cmds.drop_first()[k] == cmds[k + 1]);
        }
        lemma_despawn_lands(next.0, next.1, cmds.drop_first(), id);
    }
}

/// With no despawn in the buffer, a valid handle stays valid and keeps
/// everything but its tags and edges.
pub proof fn lemma_no_despawn_keeps_valid(
    slots: Seq<Slot>,
    free: Seq<usize>,
    cmds: Seq<Command>,
    id: EntityId,
)
    requires
        no_despawn_cmds(cmds),
        valid_in(slots, id),
        forall|i: int| 0 <= i < slots.len() ==> slot_wf(#[trigger] slots[i]),
        free_wf(slots, free),
        forall|k: int| 0 <= k < cmds.len() ==> command_wf(#[trigger] cmds[k]),
    ensures
        valid_in(apply_commands_spec(slots, free, cmds).0, id),
        survivor_frame(
            slots[id.idx as int],
            apply_commands_spec(slots, free, cmds).0[id.idx as int],
        ),
    decreases cmds.len(),
{
    if cmds.len() > 0 {
        lemma_apply_command_preserves(slots, free, cmds[0]);
        let next = apply_command(slots, free, cmds[0]);
        assert(valid_in(next.0, id) && survivor_frame(slots[id.idx as int], next.0[id.idx as int]));
        assert(forall|k: int|
            0 <= k < cmds.drop_first().len() ==> command_wf(#[trigger] cmds.drop_first()[k]));
        assert(no_despawn_cmds(cmds.drop_first())) by {
            assert(forall|k: int|
                0 <= k < cmds.drop_first().len() ==> cmds.drop_first()[k] == cmds[k + 1]);
        }
        lemma_no_despawn_keeps_valid(next.0, next.1, cmds.drop_first(), id);
    }
}

/// A spawn-only buffer (a spawn stage's commands) leaves every existing
/// live entity as it was, except that a gate may gain a construction edge;
/// and nothing it creates or touches ends up executing unless it already
/// was.
pub proof fn lemma_spawn_only_frame(
    slots: Seq<Slot>,
    free: Seq<usize>,
    cmds: Seq<Command>,
    id: EntityId,
)
    requires
        forall|k: int| 0 <= k < cmds.len() ==> (#[trigger] cmds[k]) is SpawnUnit,
        valid_in(slots, id),
        forall|i: int| 0 <= i < slots.len() ==> slot_wf(#[trigger] slots[i]),
        free_wf(slots, free),
        forall|k: int| 0 <= k < cmds.len() ==> command_wf(#[trigger] cmds[k]),
    ensures
        valid_in(apply_commands_spec(slots, free, cmds).0, id),
        ({
            let s_new = apply_commands_spec(slots, free, cmds).0[id.idx as int];
            let s_old = slots[id.idx as int];
            &&& survivor_frame(s_old, s_new)
            &&& s_new.executing == s_old.executing
            &&& s_new.will_execute == s_old.will_execute
            &&& s_new.sacrificing == s_old.sacrificing
        }),
    decreases cmds.len(),
{
    if cmds.len() > 0 {
        lemma_apply_command_preserves(slots, free, cmds[0]);
        let next = apply_command(slots, free, cmds[0]);
        assert(valid_in(next.0, id));
        assert(forall|k: int|
            0 <= k < cmds.drop_first().len() ==> (#[trigger] cmds.drop_first()[k]) == cmds[k + 1]);
        lemma_spawn_only_frame(next.0, next.1, cmds.drop_first(), id);
    }
}

/// After a spawn-only buffer, an executing slot was already executing (and
/// live) before, with the same sacrifice edge: spawned units start idle.
pub proof fn lemma_spawn_only_executing(slots: Seq<Slot>, free: Seq<usize>, cmds: Seq<Command>, i: int)
    requires
        forall|k: int| 0 <= k < cmds.len() ==> (#[trigger] cmds[k]) is SpawnUnit,
        forall|j: int| 0 <= j < slots.len() ==> slot_wf(#[trigger] slots[j]),
        free_wf(slots, free),
        forall|k: int| 0 <= k < cmds.len() ==> command_wf(#[trigger] cmds[k]),
        0 <= i < apply_commands_spec(slots, free, cmds).0.len(),
        apply_commands_spec(slots, free, cmds).0[i].executing,
    ensures
        i < slots.len(),
        slots[i].alive,
        slots[i].executing,
        slots[i].gen == apply_commands_spec(slots, free, cmds).0[i].gen,
        apply_commands_spec(slots, free, cmds).0[i].sacrificing == slots[i].sacrificing,
        apply_commands_spec(slots, free, cmds).0[i].paused == slots[i].paused,
        apply_commands_spec(slots, free, cmds).0[i].damage == slots[i].damage,
        apply_commands_spec(slots, free, cmds).0[i].sacrifice_capable == slots[i].sacrifice_capable,
        apply_commands_spec(slots, free, cmds).0[i].alive,
    decreases cmds.len(),
{
    if cmds.len() == 0 {
        assert(slots[i].executing);
        assert(slots[i].alive) by {
            if !slots[i].alive {
                assert(slots[i] == cleared_slot(slots[i].gen));
            }
        }
    } else {
        lemma_apply_command_preserves(slots, free, cmds[0]);
        let next = apply_command(slots, free, cmds[0]);
        assert(forall|k: int|
            0 <= k < cmds.drop_first().len() ==> (#[trigger] cmds.drop_first()[k]) == cmds[k + 1]);
        lemma_spawn_only_executing(next.0, next.1, cmds.drop_first(), i);
        assert(next.0[i].executing);
        assert(i < slots.len() && slots[i].alive && slots[i].executing && next.0[i].sacrificing
            == slots[i].sacrificing && next.0[i].paused == slots[i].paused && next.0[i].damage
            == slots[i].damage && next.0[i].sacrifice_capable == slots[i].sacrifice_capable
            && next.0[i].gen == slots[i].gen) by {
            if !(i < slots.len()) || !slots[i].alive {
                assert(false);
            }
        }
    }
}

/// The whole simulation state: the entity arena, the economy ledger, the
/// tick counter and the diagnostic log.
#[derive(Debug)]
pub struct World {
    pub slots: Vec<Slot>,
    pub free: Vec<usize>,
    pub economy: Economy,
    pub current_tick: CurrentTick,
    pub log: LogHandler,
}

impl World {
    /// The store's invariant: every slot and the ledger are well-formed and
    /// the free list is consistent.
    pub open spec fn wf(self) -> bool {
        &&& forall|i: int| 0 <= i < self.slots@.len() ==> slot_wf(#[trigger] self.slots@[i])
        &&& eco_wf(self.economy)
        &&& free_wf(self.slots@, self.free@)
    }

    /// What additionally holds between ticks: stock within capacity and all
    /// consumer accumulators at their attached bound.
    pub open spec fn ready(self) -> bool {
        &&& self.wf()
        &&& self.economy.mass <= self.economy.mass_capacity
        &&& self.economy.energy <= self.economy.energy_capacity
        &&& forall|i: int|
            0 <= i < self.slots@.len() && (#[trigger] self.slots@[i]).consumer is Some
                ==> consumer_settled_bound(self.slots@[i].consumer->0)
    }

    pub open spec fn valid_id(self, id: EntityId) -> bool {
        valid_in(self.slots@, id)
    }

    /// An empty simulation world with the given resource capacities.
    pub fn new(mass_capacity: u128, energy_capacity: u128) -> (r: Result<World, ConfigError>)
        ensures
            mass_capacity > AMT_MAX || energy_capacity > AMT_MAX ==> r == Err::<
                World,
                ConfigError,
            >(ConfigError::CapacityTooLarge),
            mass_capacity <= AMT_MAX && energy_capacity <= AMT_MAX ==> {
                &&& r is Ok
                &&& r->Ok_0.slots@ == Seq::<Slot>::empty()
                &&& r->Ok_0.free@ == Seq::<usize>::empty()
                &&& r->Ok_0.economy == economy_with_capacities(mass_capacity, energy_capacity)
                &&& r->Ok_0.current_tick.0 == 0
                &&& r->Ok_0.log.entries@ == Seq::<crate::economy::Warning>::empty()
                &&& r->Ok_0.ready()
            },
    {
        if mass_capacity > AMT_MAX || energy_capacity > AMT_MAX {
            return Err(ConfigError::CapacityTooLarge);
        }
        Ok(
            World {
                slots: Vec::new(),
                free: Vec::new(),
                economy: Economy {
                    mass: 0,
                    energy: 0,
                    mass_capacity,
                    energy_capacity,
                    mass_stall: crate::fixed::Ratio { num: 1, den: 1 },
                    energy_stall: crate::fixed::Ratio { num: 1, den: 1 },
                    mass_produced: 0,
                    energy_produced: 0,
                    mass_requested: 0,
                    energy_requested: 0,
                    mass_consumed: 0,
                    energy_consumed: 0,
                },
                current_tick: CurrentTick(0),
                log: LogHandler::new(),
            },
        )
    }

    /// Create a new, empty, live entity and return its handle, reusing a
    /// dead slot when one is available.
    pub fn create_entity(&mut self) -> (r: EntityId)
        requires
            old(self).wf(),
        ensures
            final(self).wf(),
            final(self).slots@ == alloc_slots(
                old(self).slots@,
                old(self).free@,
                fresh_slot(0),
            ),
            final(self).free@ == alloc_free(old(self).slots@, old(self).free@),
            r == alloc_id(old(self).slots@, old(self).free@),
            final(self).valid_id(r),
            final(self).slots@[r.idx as int] == fresh_slot(r.gen),
            final(self).economy == old(self).economy,
            final(self).current_tick == old(self).current_tick,
            final(self).log.entries@ == old(self).log.entries@,
            forall|id: EntityId|
                old(self).valid_id(id) ==> final(self).valid_id(id)
                    && final(self).slots@[id.idx as int] == old(self).slots@[id.idx as int],
            old(self).ready() ==> final(self).ready(),
    {
        let n = self.free.len();
        if n > 0 {
            let idx = self.free[n - 1];
            let g = self.slots[idx].gen;
            if g < u64::MAX {
                self.free.pop();
                let s = Slot {
                    alive: true,
                    gen: g + 1,
                    executing: false,
                    will_execute: false,
                    paused: false,
                    support_commander: false,
                    paragon: false,
                    damage: None,
                    engineering: None,
                    producer: None,
                    consumer: None,
                    constructing: None,
                    sacrificing: None,
                    sacrifice_capable: None,
                    quantum_gate: None,
                };
                self.slots.set(idx, s);
                proof {
                    assert(final(self).free@ == old(self).free@.drop_last());
                    assert(s == Slot { gen: (g + 1) as u64, ..fresh_slot(0) });
                }
                return EntityId { idx, gen: g + 1 };
            }
        }
        let idx = self.slots.len();
        let s = Slot {
            alive: true,
            gen: 0,
            executing: false,
            will_execute: false,
            paused: false,
            support_commander: false,
            paragon: false,
            damage: None,
            engineering: None,
            producer: None,
            consumer: None,
            constructing: None,
            sacrificing: None,
            sacrifice_capable: None,
            quantum_gate: None,
        };
        self.slots.push(s);
        EntityId { idx, gen: 0 }
    }

    /// Validate `c` and attach it to the entity `id`, replacing any
    /// component of the same type; errors leave the world unchanged.
    pub fn attach(&mut self, id: EntityId, c: ComponentVal) -> (r: Result<(), ConfigError>)
        requires
            old(self).wf(),
        ensures
            final(self).wf(),
            !old(self).valid_id(id) ==> r == Err::<(), ConfigError>(ConfigError::DeadEntity)
                && *final(self) == *old(self),
            old(self).valid_id(id) && attach_check(c) is Err ==> r == attach_check(c)
                && *final(self) == *old(self),
            old(self).valid_id(id) && attach_check(c) is Ok ==> r is Ok && final(self).slots@
                == old(self).slots@.update(
                id.idx as int,
                slot_with(old(self).slots@[id.idx as int], c),
            ),
            final(self).free@ == old(self).free@,
            final(self).economy == old(self).economy,
            final(self).current_tick == old(self).current_tick,
            final(self).log.entries@ == old(self).log.entries@,
            old(self).ready() ==> final(self).ready(),
    {
        if !(id.idx < self.slots.len() && self.slots[id.idx].alive && self.slots[id.idx].gen
            == id.gen) {
            return Err(ConfigError::DeadEntity);
        }
        let chk: Result<(), ConfigError> = match &c {
            ComponentVal::Damage(d) => check_damage(d),
            ComponentVal::Engineering(e) => check_engineering(e),
            ComponentVal::Producer(p) => check_producer(p),
            ComponentVal::Consumer(v) => check_consumer(v),
            ComponentVal::Constructing(v) => check_constructing(v),
            ComponentVal::Sacrificing(_) => Ok(()),
            ComponentVal::SacrificeCapable(v) => check_sacrifice_capable(v),
            ComponentVal::QuantumGate(g) => check_gate(g),
            ComponentVal::Executing => Ok(()),
            ComponentVal::WillExecuteOnConstruct => Ok(()),
            ComponentVal::ConstructionPaused => Ok(()),
            ComponentVal::SupportCommander => Ok(()),
            ComponentVal::Paragon => Ok(()),
        };
        if chk.is_err() {
            return chk;
        }
        let mut s = self.slots[id.idx];
        match c {
            ComponentVal::Damage(d) => {
                s.damage = Some(d);
            },
            ComponentVal::Engineering(e) => {
                s.engineering = Some(e);
            },
            ComponentVal::Producer(p) => {
                s.producer = Some(p);
            },
            ComponentVal::Consumer(v) => {
                s.consumer = Some(v);
            },
            ComponentVal::Constructing(v) => {
                s.constructing = Some(v);
            },
            ComponentVal::Sacrificing(v) => {
                s.sacrificing = Some(v);
            },
            ComponentVal::SacrificeCapable(v) => {
                s.sacrifice_capable = Some(v);
            },
            ComponentVal::QuantumGate(g) => {
                s.quantum_gate = Some(g);
            },
            ComponentVal::Executing => {
                s.executing = true;
            },
            ComponentVal::WillExecuteOnConstruct => {
                s.will_execute = true;
            },
            ComponentVal::ConstructionPaused => {
                s.paused = true;
            },
            ComponentVal::SupportCommander => {
                s.support_commander = true;
            },
            ComponentVal::Paragon => {
                s.paragon = true;
            },
        }
        self.slots.set(id.idx, s);
        Ok(())
    }

    /// Detach the component of kind `k` from entity `id`; returns whether
    /// the handle was valid. Detaching what is absent is a no-op.
    pub fn detach(&mut self, id: EntityId, k: ComponentKind) -> (r: bool)
        requires
            old(self).wf(),
        ensures
            final(self).wf(),
            r == old(self).valid_id(id),
            old(self).valid_id(id) ==> final(self).slots@ == old(self).slots@.update(
                id.idx as int,
                slot_without(old(self).slots@[id.idx as int], k),
            ),
            !old(self).valid_id(id) ==> *final(self) == *old(self),
            final(self).free@ == old(self).free@,
            final(self).economy == old(self).economy,
            final(self).current_tick == old(self).current_tick,
            final(self).log.entries@ == old(self).log.entries@,
            old(self).ready() ==> final(self).ready(),
    {
        if !(id.idx < self.slots.len() && self.slots[id.idx].alive && self.slots[id.idx].gen
            == id.gen) {
            return false;
        }
        let mut s = self.slots[id.idx];
        match k {
            ComponentKind::Damage => {
                s.damage = None;
            },
            ComponentKind::Engineering => {
                s.engineering = None;
            },
            ComponentKind::Producer => {
                s.producer = None;
            },
            ComponentKind::Consumer => {
                s.consumer = None;
            },
            ComponentKind::Constructing => {
                s.constructing = None;
            },
            ComponentKind::Sacrificing => {
                s.sacrificing = None;
            },
            ComponentKind::SacrificeCapable => {
                s.sacrifice_capable = None;
            },
            ComponentKind::QuantumGate => {
                s.quantum_gate = None;
            },
            ComponentKind::Executing => {
                s.executing = false;
            },
            ComponentKind::WillExecuteOnConstruct => {
                s.will_execute = false;
            },
            ComponentKind::ConstructionPaused => {
                s.paused = false;
            },
            ComponentKind::SupportCommander => {
                s.support_commander = false;
            },
            ComponentKind::Paragon => {
                s.paragon = false;
            },
        }
        self.slots.set(id.idx, s);
        true
    }

    /// Apply a stage's buffered structural commands in order.
    pub fn apply_commands(&mut self, cmds: &Vec<Command>)
        requires
            old(self).wf(),
            forall|k: int| 0 <= k < cmds@.len() ==> command_wf(#[trigger] cmds@[k]),
        ensures
            final(self).wf(),
            final(self).slots@ == apply_commands_spec(old(self).slots@, old(self).free@, cmds@).0,
            final(self).free@ == apply_commands_spec(old(self).slots@, old(self).free@, cmds@).1,
            final(self).economy == old(self).economy,
            final(self).current_tick == old(self).current_tick,
            final(self).log.entries@ == old(self).log.entries@,
            final(self).slots@.len() >= old(self).slots@.len(),
            forall|id: EntityId|
                valid_in(old(self).slots@, id) ==> (valid_in(final(self).slots@, id)
                    && survivor_frame(
                    old(self).slots@[id.idx as int],
                    final(self).slots@[id.idx as int],
                )) || stale_in(final(self).slots@, id),
            forall|id: EntityId|
                stale_in(old(self).slots@, id) ==> stale_in(final(self).slots@, id),
            consumers_settled(old(self).slots@) ==> consumers_settled(final(self).slots@),
            consumers_consumed_bounded(old(self).slots@) ==> consumers_consumed_bounded(
                final(self).slots@,
            ),
    {
        let ghost s0 = self.slots@;
        let ghost f0 = self.free@;
        proof {
            assert(cmds@.skip(0) =~= cmds@);
        }
        let n = cmds.len();
        let mut i: usize = 0;
        while i < n
            invariant
                n == cmds@.len(),
                0 <= i <= n,
                forall|k: int| 0 <= k < cmds@.len() ==> command_wf(#[trigger] cmds@[k]),
                forall|j: int| 0 <= j < self.slots@.len() ==> slot_wf(#[trigger] self.slots@[j]),
                free_wf(self.slots@, self.free@),
                apply_commands_spec(self.slots@, self.free@, cmds@.skip(i as int))
                    == apply_commands_spec(s0, f0, cmds@),
                self.economy == old(self).economy,
                self.current_tick == old(self).current_tick,
                self.log.entries@ == old(self).log.entries@,
                self.slots@.len() >= s0.len(),
                forall|id: EntityId|
                    valid_in(s0, id) ==> (valid_in(self.slots@, id) && survivor_frame(
                        s0[id.idx as int],
                        self.slots@[id.idx as int],
                    )) || stale_in(self.slots@, id),
                forall|id: EntityId| stale_in(s0, id) ==> stale_in(self.slots@, id),
                consumers_settled(s0) ==> consumers_settled(self.slots@),
                consumers_consumed_bounded(s0) ==> consumers_consumed_bounded(self.slots@),
            decreases n - i,
        {
            let ghost pre_slots = self.slots@;
            let ghost pre_free = self.free@;
            let c = cmds[i];
            proof {
                assert(cmds@.skip(i as int)[0] == cmds@[i as int]);
                assert(cmds@.skip(i as int).drop_first() =~= cmds@.skip(i as int + 1));
                lemma_apply_command_preserves(pre_slots, pre_free, c);
            }
            match c {
                Command::Despawn(id) => {
                    if id.idx < self.slots.len() && self.slots[id.idx].alive
                        && self.slots[id.idx].gen == id.gen {
                        let g = self.slots[id.idx].gen;
                        let s = Slot {
                            alive: false,
                            gen: g,
                            executing: false,
                            will_execute: false,
                            paused: false,
                            support_commander: false,
                            paragon: false,
                            damage: None,
                            engineering: None,
                            producer: None,
                            consumer: None,
                            constructing: None,
                            sacrificing: None,
                            sacrifice_capable: None,
                            quantum_gate: None,
                        };
                        self.slots.set(id.idx, s);
                        self.free.push(id.idx);
                    }
                },
                Command::RemoveConstructing(id) => {
                    if id.idx < self.slots.len() && self.slots[id.idx].alive
                        && self.slots[id.idx].gen == id.gen {
                        let mut s = self.slots[id.idx];
                        s.constructing = None;
                        self.slots.set(id.idx, s);
                    }
                },
                Command::RemoveSacrificing(id) => {
                    if id.idx < self.slots.len() && self.slots[id.idx].alive
                        && self.slots[id.idx].gen == id.gen {
                        let mut s = self.slots[id.idx];
                        s.sacrificing = None;
                        self.slots.set(id.idx, s);
                    }
                },
                Command::RemoveWillExecute(id) => {
                    if id.idx < self.slots.len() && self.slots[id.idx].alive
                        && self.slots[id.idx].gen == id.gen {
                        let mut s = self.slots[id.idx];
                        s.will_execute = false;
                        self.slots.set(id.idx, s);
                    }
                },
                Command::InsertExecuting(id) => {
                    if id.idx < self.slots.len() && self.slots[id.idx].alive
                        && self.slots[id.idx].gen == id.gen {
                        let mut s = self.slots[id.idx];
                        s.executing = true;
                        self.slots.set(id.idx, s);
                    }
                },
                Command::SpawnUnit { gate, damage, engineering, producer, sacrifice } => {
                    let nid = self.alloc_for_spawn(damage, engineering, producer, sacrifice);
                    if gate.idx < self.slots.len() && self.slots[gate.idx].alive
                        && self.slots[gate.idx].gen == gate.gen {
                        let mut s = self.slots[gate.idx];
                        s.constructing = Some(
                            Constructing {
                                target: nid,
                                mass_requested: 0,
                                energy_requested: 0,
                                mass_consumption_multiplier: SCALE,
                                energy_consumption_multiplier: SCALE,
                                build_amount: 0,
                            },
                        );
                        self.slots.set(gate.idx, s);
                    }
                },
            }
            proof {
                assert((self.slots@, self.free@) == apply_command(pre_slots, pre_free, cmds@[i as int]));
            }
            i = i + 1;
        }
        proof {
            assert(cmds@.skip(n as int) =~= Seq::<Command>::empty());
        }
    }

    /// Allocate and fill one spawned unit's slot; shared by the SpawnUnit
    /// command arm.
    fn alloc_for_spawn(
        &mut self,
        damage: Damage,
        engineering: Engineering,
        producer: ResourceProducer,
        sacrifice: SacrificeCapable,
    ) -> (r: EntityId)
        requires
            free_wf(old(self).slots@, old(self).free@),
        ensures
            final(self).slots@ == alloc_slots(
                old(self).slots@,
                old(self).free@,
                spawned_slot(0, damage, engineering, producer, sacrifice),
            ),
            final(self).free@ == alloc_free(old(self).slots@, old(self).free@),
            r == alloc_id(old(self).slots@, old(self).free@),
            final(self).economy == old(self).economy,
            final(self).current_tick == old(self).current_tick,
            final(self).log.entries@ == old(self).log.entries@,
    {
        let n = self.free.len();
        if n > 0 {
            let idx = self.free[n - 1];
            let g = self.slots[idx].gen;
            if g < u64::MAX {
                self.free.pop();
                let s = Slot {
                    alive: true,
                    gen: g + 1,
                    executing: false,
                    will_execute: true,
                    paused: false,
                    support_commander: true,
                    paragon: false,
                    damage: Some(damage),
                    engineering: Some(engineering),
                    producer: Some(producer),
                    consumer: Some(
                        ResourceConsumer {
                            mass_request: 0,
                            energy_request: 0,
                            mass_consumed: 0,
                            energy_consumed: 0,
                        },
                    ),
                    constructing: None,
                    sacrificing: None,
                    sacrifice_capable: Some(sacrifice),
                    quantum_gate: None,
                };
                self.slots.set(idx, s);
                proof {
                    assert(final(self).free@ == old(self).free@.drop_last());
                    assert(s == Slot {
                        gen: (g + 1) as u64,
                        ..spawned_slot(0, damage, engineering, producer, sacrifice)
                    });
                }
                return EntityId { idx, gen: g + 1 };
            }
        }
        let idx = self.slots.len();
        let s = Slot {
            alive: true,
            gen: 0,
            executing: false,
            will_execute: true,
            paused: false,
            support_commander: true,
            paragon: false,
            damage: Some(damage),
            engineering: Some(engineering),
            producer: Some(producer),
            consumer: Some(
                ResourceConsumer {
                    mass_request: 0,
                    energy_request: 0,
                    mass_consumed: 0,
                    energy_consumed: 0,
                },
            ),
            constructing: None,
            sacrificing: None,
            sacrifice_capable: Some(sacrifice),
            quantum_gate: None,
        };
        self.slots.push(s);
        EntityId { idx, gen: 0 }
    }

    /// Set the ledger's current stock directly, for scenario setup; both
    /// values must fit within the configured capacities.
    pub fn set_stock(&mut self, mass: u128, energy: u128) -> (r: Result<(), ConfigError>)
        requires
            old(self).wf(),
        ensures
            final(self).wf(),
            mass > old(self).economy.mass_capacity || energy > old(self).economy.energy_capacity
                ==> r == Err::<(), ConfigError>(ConfigError::StockOutOfRange) && *final(self)
                == *old(self),
            mass <= old(self).economy.mass_capacity && energy <= old(
                self,
            ).economy.energy_capacity ==> r is Ok && final(self).economy == (Economy {
                mass: mass as i128,
                energy: energy as i128,
                ..old(self).economy
            }) && final(self).slots@ == old(self).slots@ && final(self).free@ == old(self).free@
                && final(self).current_tick == old(self).current_tick && final(self).log.entries@
                == old(self).log.entries@,
            old(self).ready() ==> final(self).ready(),
    {
        if mass > self.economy.mass_capacity || energy > self.economy.energy_capacity {
            return Err(ConfigError::StockOutOfRange);
        }
        self.economy.mass = mass as i128;
        self.economy.energy = energy as i128;
        Ok(())
    }

    /// A snapshot of the entity's slot, or None for a stale handle.
    pub fn query(&self, id: EntityId) -> (r: Option<Slot>)
        ensures
            self.valid_id(id) ==> r == Some(self.slots@[id.idx as int]),
            !self.valid_id(id) ==> r is None,
    {
        if id.idx < self.slots.len() && self.slots[id.idx].alive && self.slots[id.idx].gen
            == id.gen {
            Some(self.slots[id.idx])
        } else {
            None
        }
    }
}

} // verus!
