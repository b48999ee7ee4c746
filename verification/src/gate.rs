//! The spawn controller: each quantum gate counts its rolloff down while
//! it is executing, unpaused and not already mid-construction, spawns a
//! fully fitted unit on the tick the counter reaches zero and immediately
//! begins constructing it, and rearms to its configured rolloff once the
//! previous unit has rolled off.

use vstd::prelude::*;
use crate::components::EntityId;
use crate::components::QuantumGate;
use crate::store::Command;
use crate::store::Slot;
use crate::store::World;
use crate::store::slot_id;
use crate::store::slot_wf;

verus! {

/// The factory advances this tick: live, executing, unpaused, and without an
/// in-flight construction edge.
pub open spec fn gate_active(s: Slot) -> bool {
    &&& s.alive
    &&& s.executing
    &&& !s.paused
    &&& s.constructing is None
    &&& s.quantum_gate is Some
}

/// The factory spawns this tick: its counter reaches zero now (from 1), or
/// already reads zero.
pub open spec fn gate_spawns(g: QuantumGate) -> bool {
    g.rolloff_current == 1 || g.rolloff_current == 0
}

/// The counter's next value: counting down while positive, the in-flight
/// sentinel -1 on a spawn, and rearmed to the configured rolloff once the
/// previous unit has cleared.
pub open spec fn gate_next(g: QuantumGate) -> QuantumGate {
    QuantumGate {
        rolloff_current: if g.rolloff_current > 1 {
            (g.rolloff_current - 1) as i32
        } else if gate_spawns(g) {
            -1 as i32
        } else {
            g.rolloff_time
        },
        ..g
    }
}

/// The spawn commands the gates issue, in slot order.
pub open spec fn gate_cmds(slots: Seq<Slot>, n: int) -> Seq<Command>
    decreases n,
{
    if n <= 0 {
        Seq::empty()
    } else {
        gate_cmds(slots, n - 1) + (if gate_active(slots[n - 1]) && gate_spawns(
            slots[n - 1].quantum_gate->0,
        ) {
            seq![
                Command::SpawnUnit {
                    gate: slot_id(slots, n - 1),
                    damage: slots[n - 1].quantum_gate->0.unit_damage,
                    engineering: slots[n - 1].quantum_gate->0.unit_engineering,
                    producer: slots[n - 1].quantum_gate->0.unit_producer,
                    sacrifice: slots[n - 1].quantum_gate->0.unit_sacrifice,
                },
            ]
        } else {
            Seq::empty()
        })
    }
}

/// Spawn controller: each active gate's counter advances one state —
/// counting down, spawning at zero with the sentinel set, or rearming
/// after the previous unit cleared. Spawns and their construction edges
/// are buffered as commands so no gate observes them mid-stage.
pub fn quantum_gate_spawn_construct(world: &mut World, commands: &mut Vec<Command>)
    requires
        old(world).wf(),
    ensures
        final(world).wf(),
        final(world).slots@.len() == old(world).slots@.len(),
        forall|i: int|
            0 <= i < old(world).slots@.len() && !gate_active(old(world).slots@[i]) ==> final(world).slots@[i] == old(world).slots@[i],
        forall|i: int|
            0 <= i < old(world).slots@.len() && gate_active(#[trigger] old(world).slots@[i])
                ==> final(world).slots@[i] == (Slot {
                quantum_gate: Some(gate_next(old(world).slots@[i].quantum_gate->0)),
                ..old(world).slots@[i]
            }),
        final(commands)@ == old(commands)@ + gate_cmds(
            old(world).slots@,
            old(world).slots@.len() as int,
        ),
        forall|k: int|
            old(commands)@.len() <= k < final(commands)@.len() ==> crate::store::command_wf(
                #[trigger] final(commands)@[k],
            ),
        final(world).economy == old(world).economy,
        final(world).free@ == old(world).free@,
        final(world).current_tick == old(world).current_tick,
        final(world).log.entries@ == old(world).log.entries@,
        crate::store::consumers_settled(old(world).slots@) ==> crate::store::consumers_settled(
            final(world).slots@,
        ),
{
    let ghost s0 = world.slots@;
    let ghost c0 = commands@;
    let n = world.slots.len();
    let mut i: usize = 0;
    while i < n
        invariant
            n == s0.len(),
            world.slots@.len() == n,
            0 <= i <= n,
            forall|j: int| 0 <= j < s0.len() ==> slot_wf(#[trigger] s0[j]),
            forall|j: int| i <= j < s0.len() ==> world.slots@[j] == s0[j],
            forall|j: int| 0 <= j < i && !gate_active(s0[j]) ==> world.slots@[j] == s0[j],
            forall|j: int|
                0 <= j < i && gate_active(#[trigger] s0[j]) ==> world.slots@[j] == (Slot {
                    quantum_gate: Some(gate_next(s0[j].quantum_gate->0)),
                    ..s0[j]
                }),
            forall|j: int| 0 <= j < world.slots@.len() ==> slot_wf(#[trigger] world.slots@[j]),
            commands@ == c0 + gate_cmds(s0, i as int),
            forall|k: int|
                c0.len() <= k < commands@.len() ==> crate::store::command_wf(
                    #[trigger] commands@[k],
                ),
            world.economy == old(world).economy,
            world.free@ == old(world).free@,
            world.current_tick == old(world).current_tick,
            world.log.entries@ == old(world).log.entries@,
        decreases n - i,
    {
        let s = world.slots[i];
        if s.alive && s.executing && !s.paused && s.constructing.is_none()
            && s.quantum_gate.is_some() {
            let g = s.quantum_gate.unwrap();
            let mut s2 = s;
            if g.rolloff_current > 1 {
                s2.quantum_gate = Some(
                    QuantumGate {
                        rolloff_time: g.rolloff_time,
                        rolloff_current: g.rolloff_current - 1,
                        unit_damage: g.unit_damage,
                        unit_engineering: g.unit_engineering,
                        unit_producer: g.unit_producer,
                        unit_sacrifice: g.unit_sacrifice,
                    },
                );
                world.slots.set(i, s2);
            } else if g.rolloff_current == 1 || g.rolloff_current == 0 {
                s2.quantum_gate = Some(
                    QuantumGate {
                        rolloff_time: g.rolloff_time,
                        rolloff_current: -1,
                        unit_damage: g.unit_damage,
                        unit_engineering: g.unit_engineering,
                        unit_producer: g.unit_producer,
                        unit_sacrifice: g.unit_sacrifice,
                    },
                );
                world.slots.set(i, s2);
                commands.push(
                    Command::SpawnUnit {
                        gate: EntityId { idx: i, gen: s.gen },
                        damage: g.unit_damage,
                        engineering: g.unit_engineering,
                        producer: g.unit_producer,
                        sacrifice: g.unit_sacrifice,
                    },
                );
            } else {
                s2.quantum_gate = Some(
                    QuantumGate {
                        rolloff_time: g.rolloff_time,
                        rolloff_current: g.rolloff_time,
                        unit_damage: g.unit_damage,
                        unit_engineering: g.unit_engineering,
                        unit_producer: g.unit_producer,
                        unit_sacrifice: g.unit_sacrifice,
                    },
                );
                world.slots.set(i, s2);
            }
            proof {
                assert(commands@ =~= c0 + gate_cmds(s0, i as int + 1));
            }
        } else {
            proof {
                assert(commands@ =~= c0 + gate_cmds(s0, i as int + 1));
            }
        }
        i = i + 1;
    }
    proof {
        if crate::store::consumers_settled(s0) {
            assert forall|j: int|
                0 <= j < world.slots@.len() && (#[trigger] world.slots@[j]).consumer is Some implies
                crate::components::consumer_settled_bound(world.slots@[j].consumer->0) by {
                if gate_active(s0[j]) {
                    assert(world.slots@[j].consumer == s0[j].consumer);
                } else {
                    assert(world.slots@[j] == s0[j]);
                }
            }
        }
    }
}

} // verus!
