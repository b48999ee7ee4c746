//! The sacrifice resolver: an entity flagged as sacrificing converts a
//! fraction of its own accumulated build value directly into its target's
//! progress, bypassing the ledger, and is destroyed in the attempt. All
//! source contributions are snapshotted before any target is touched, so
//! simultaneous sacrifices into one target see consistent, independent
//! contributions.

use vstd::prelude::*;
use crate::components::Damage;
use crate::components::EntityId;
use crate::construct::portion_of;
use crate::construct::target_buildable;
use crate::construct::used_of;
use crate::construct::with_health;
use crate::fixed::AMT_MAX;
use crate::fixed::MULT_MAX;
use crate::fixed::REQ_MAX;
use crate::fixed::SCALE;
use crate::fixed::lemma_div_le;
use crate::fixed::lemma_mul_le;
use crate::store::Command;
use crate::store::Slot;
use crate::store::World;
use crate::store::slot_id;
use crate::store::slot_wf;

verus! {

/// One snapshotted sacrifice: who gives, how much of each resource the
/// source's build value is worth after discounting, and who receives.
#[derive(Clone, Copy, PartialEq, Eq, Structural, Debug)]
pub struct SacrificeInfo {
    pub source: EntityId,
    pub mass_available: u128,
    pub energy_available: u128,
    pub target: EntityId,
}

/// The entity resolves a sacrifice this tick: live, executing, unpaused,
/// with build state, a sacrifice edge and a sacrifice capability.
pub open spec fn sacrificer(s: Slot) -> bool {
    &&& s.alive
    &&& s.executing
    &&& !s.paused
    &&& s.damage is Some
    &&& s.sacrificing is Some
    &&& s.sacrifice_capable is Some
}

/// The snapshot taken of slot `i`: its own cost times its progress, each
/// resource discounted by the matching efficiency.
pub open spec fn info_of(slots: Seq<Slot>, i: int) -> SacrificeInfo {
    SacrificeInfo {
        source: slot_id(slots, i),
        mass_available: used_of(
            slots[i].damage->0.health as int,
            slots[i].damage->0.mass_total as int,
            slots[i].sacrifice_capable->0.mass_efficiency as int,
        ) as u128,
        energy_available: used_of(
            slots[i].damage->0.health as int,
            slots[i].damage->0.energy_total as int,
            slots[i].sacrifice_capable->0.energy_efficiency as int,
        ) as u128,
        target: slots[i].sacrificing->0.target,
    }
}

/// The snapshots of the first `n` slots, in slot order.
pub open spec fn sac_infos(slots: Seq<Slot>, n: int) -> Seq<SacrificeInfo>
    decreases n,
{
    if n <= 0 {
        Seq::empty()
    } else if sacrificer(slots[n - 1]) {
        sac_infos(slots, n - 1).push(info_of(slots, n - 1))
    } else {
        sac_infos(slots, n - 1)
    }
}

/// Resolving one snapshot against the current state: a finished or missing
/// target drops the edge and the source survives; otherwise the target
/// gains the scarcer resource's portion, clamped at completion, and the
/// source is destroyed regardless of how much its value contributed.
pub open spec fn sac_apply_step(cur: Seq<Slot>, info: SacrificeInfo) -> (Seq<Slot>, Seq<Command>) {
    if !target_buildable(cur, info.target) {
        (cur, seq![Command::RemoveSacrificing(info.source)])
    } else {
        let t = info.target.idx as int;
        let td = cur[t].damage->0;
        if td.health >= SCALE {
            (cur, seq![Command::RemoveSacrificing(info.source)])
        } else {
            let p = portion_of(
                info.mass_available as int,
                td.mass_total as int,
                info.energy_available as int,
                td.energy_total as int,
            );
            let h2 = vstd::math::min(SCALE as int, td.health + p);
            (cur.update(t, with_health(cur[t], h2)), seq![Command::Despawn(info.source)])
        }
    }
}

/// Resolving the first `k` snapshots, in order, each against the state its
/// predecessors left.
pub open spec fn sac_apply(cur: Seq<Slot>, infos: Seq<SacrificeInfo>, k: int) -> (Seq<Slot>, Seq<
    Command,
>)
    decreases k,
{
    if k <= 0 {
        (cur, Seq::empty())
    } else {
        let prev = sac_apply(cur, infos, k - 1);
        let step = sac_apply_step(prev.0, infos[k - 1]);
        (step.0, prev.1 + step.1)
    }
}

/// Every snapshot names a sacrificing slot, carries exactly that slot's
/// discounted value, and the snapshots stand in ascending slot order.
pub proof fn lemma_sac_infos_props(slots: Seq<Slot>, n: int)
    requires
        0 <= n <= slots.len(),
        slots.len() <= usize::MAX,
    ensures
        forall|jj: int|
            0 <= jj < sac_infos(slots, n).len() ==> {
                let info = #[trigger] sac_infos(slots, n)[jj];
                &&& info.source.idx < n
                &&& sacrificer(slots[info.source.idx as int])
                &&& info == info_of(slots, info.source.idx as int)
            },
        forall|jj: int, jj2: int|
            0 <= jj < jj2 < sac_infos(slots, n).len() ==> (#[trigger] sac_infos(
                slots,
                n,
            )[jj]).source.idx < (#[trigger] sac_infos(slots, n)[jj2]).source.idx,
        forall|j: int|
            0 <= j < n && sacrificer(#[trigger] slots[j]) ==> sac_infos(slots, n).contains(
                info_of(slots, j),
            ),
    decreases n,
{
    if n > 0 {
        lemma_sac_infos_props(slots, n - 1);
        assert forall|jj: int, jj2: int|
            0 <= jj < jj2 < sac_infos(slots, n).len() implies (#[trigger] sac_infos(
            slots,
            n,
        )[jj]).source.idx < (#[trigger] sac_infos(slots, n)[jj2]).source.idx by {
            if sacrificer(slots[n - 1]) && jj2 == sac_infos(slots, n).len() - 1 {
                assert(sac_infos(slots, n)[jj] == sac_infos(slots, n - 1)[jj]);
                assert((sac_infos(slots, n - 1)[jj]).source.idx < n - 1);
                assert(sac_infos(slots, n)[jj2] == info_of(slots, n - 1));
            } else {
                assert(sac_infos(slots, n)[jj] == sac_infos(slots, n - 1)[jj]);
                assert(sac_infos(slots, n)[jj2] == sac_infos(slots, n - 1)[jj2]);
            }
        }
        if sacrificer(slots[n - 1]) {
            assert forall|j: int|
                0 <= j < n && sacrificer(#[trigger] slots[j]) implies sac_infos(
                slots,
                n,
            ).contains(info_of(slots, j)) by {
                if j == n - 1 {
                    assert(sac_infos(slots, n)[sac_infos(slots, n).len() - 1] == info_of(
                        slots,
                        n - 1,
                    ));
                } else {
                    let k = choose|k: int|
                        0 <= k < sac_infos(slots, n - 1).len() && #[trigger] sac_infos(
                            slots,
                            n - 1,
                        )[k] == info_of(slots, j);
                    assert(sac_infos(slots, n)[k] == info_of(slots, j));
                }
            }
        }
    }
}

/// Sacrifice resolution: first snapshot every live, executing, unpaused
/// sacrificing entity's discounted build value, then resolve the snapshots
/// in slot order against the targets. A finished or missing target drops
/// the edge and the source survives; otherwise the target's health gains
/// the scarcer resource's portion, clamped at completion, and the source
/// is destroyed regardless of how much it contributed.
#[verifier::rlimit(100)]
pub fn construct_sacrifice(world: &mut World, commands: &mut Vec<Command>)
    requires
        old(world).wf(),
    ensures
        final(world).wf(),
        final(world).slots@ == sac_apply(
            old(world).slots@,
            sac_infos(old(world).slots@, old(world).slots@.len() as int),
            sac_infos(old(world).slots@, old(world).slots@.len() as int).len() as int,
        ).0,
        final(commands)@ == old(commands)@ + sac_apply(
            old(world).slots@,
            sac_infos(old(world).slots@, old(world).slots@.len() as int),
            sac_infos(old(world).slots@, old(world).slots@.len() as int).len() as int,
        ).1,
        final(world).slots@.len() == old(world).slots@.len(),
        forall|j: int|
            0 <= j < old(world).slots@.len() ==> {
                let s = #[trigger] final(world).slots@[j];
                let s_old = old(world).slots@[j];
                &&& s.alive == s_old.alive
                &&& s.gen == s_old.gen
                &&& s.executing == s_old.executing
                &&& s.will_execute == s_old.will_execute
                &&& s.paused == s_old.paused
                &&& s.support_commander == s_old.support_commander
                &&& s.paragon == s_old.paragon
                &&& s.engineering == s_old.engineering
                &&& s.producer == s_old.producer
                &&& s.consumer == s_old.consumer
                &&& s.constructing == s_old.constructing
                &&& s.sacrificing == s_old.sacrificing
                &&& s.sacrifice_capable == s_old.sacrifice_capable
                &&& s.quantum_gate == s_old.quantum_gate
            },
        forall|j: int|
            0 <= j < old(world).slots@.len() ==> ((#[trigger] final(world).slots@[j]).damage
                is Some <==> old(world).slots@[j].damage is Some),
        forall|j: int|
            0 <= j < old(world).slots@.len() && old(world).slots@[j].damage is Some ==> {
                let d = (#[trigger] final(world).slots@[j]).damage->0;
                let d_old = old(world).slots@[j].damage->0;
                &&& d.health >= d_old.health
                &&& d.health <= SCALE
                &&& d.mass_total == d_old.mass_total
                &&& d.energy_total == d_old.energy_total
                &&& d.build_time == d_old.build_time
                &&& d.health_points == d_old.health_points
            },
        forall|j: int|
            0 <= j < old(world).slots@.len() && sacrificer(#[trigger] old(world).slots@[j])
                ==> final(commands)@.contains(Command::Despawn(slot_id(old(world).slots@, j)))
                || final(commands)@.contains(
                Command::RemoveSacrificing(slot_id(old(world).slots@, j)),
            ),
        forall|j: int|
            0 <= j < old(world).slots@.len() && sacrificer(#[trigger] old(world).slots@[j])
                && target_buildable(old(world).slots@, old(world).slots@[j].sacrificing->0.target)
                && old(world).slots@[old(world).slots@[j].sacrificing->0.target.idx as int].damage->0.health
                < SCALE && (forall|j2: int|
                0 <= j2 < old(world).slots@.len() && j2 != j && sacrificer(
                    #[trigger] old(world).slots@[j2],
                ) ==> old(world).slots@[j2].sacrificing->0.target.idx != old(
                    world,
                ).slots@[j].sacrificing->0.target.idx) ==> final(commands)@.contains(
                Command::Despawn(slot_id(old(world).slots@, j)),
            ),
        forall|k: int|
            old(commands)@.len() <= k < final(commands)@.len() ==> crate::store::command_wf(
                #[trigger] final(commands)@[k],
            ),
        final(world).economy == old(world).economy,
        final(world).free@ == old(world).free@,
        final(world).current_tick == old(world).current_tick,
        final(world).log.entries@ == old(world).log.entries@,
{
    let ghost s0 = world.slots@;
    let ghost c0 = commands@;
    let n = world.slots.len();
    let mut infos: Vec<SacrificeInfo> = Vec::new();
    let mut i: usize = 0;
    while i < n
        invariant
            n == s0.len(),
            world.slots@ == s0,
            0 <= i <= n,
            forall|j: int| 0 <= j < s0.len() ==> slot_wf(#[trigger] s0[j]),
            infos@ == sac_infos(s0, i as int),
            forall|jj: int|
                0 <= jj < infos@.len() ==> (#[trigger] infos@[jj]).mass_available <= REQ_MAX
                    && infos@[jj].energy_available <= REQ_MAX,
            commands@ == c0,
        decreases n - i,
    {
        let s = world.slots[i];
        if s.alive && s.executing && !s.paused && s.damage.is_some() && s.sacrificing.is_some()
            && s.sacrifice_capable.is_some() {
            let d = s.damage.unwrap();
            let sc = s.sacrifice_capable.unwrap();
            proof {
                lemma_mul_le(d.health as int, d.mass_total as int, SCALE as int, AMT_MAX as int);
                lemma_mul_le(d.health as int, d.energy_total as int, SCALE as int, AMT_MAX as int);
                lemma_div_le(
                    d.health as int * d.mass_total as int,
                    SCALE as int * AMT_MAX as int,
                    SCALE as int,
                );
                lemma_div_le(
                    d.health as int * d.energy_total as int,
                    SCALE as int * AMT_MAX as int,
                    SCALE as int,
                );
                lemma_mul_le(
                    d.health as int * d.mass_total as int / (SCALE as int),
                    sc.mass_efficiency as int,
                    AMT_MAX as int,
                    MULT_MAX as int,
                );
                lemma_mul_le(
                    d.health as int * d.energy_total as int / (SCALE as int),
                    sc.energy_efficiency as int,
                    AMT_MAX as int,
                    MULT_MAX as int,
                );
                lemma_div_le(
                    (d.health as int * d.mass_total as int / (SCALE as int))
                        * sc.mass_efficiency as int,
                    AMT_MAX as int * MULT_MAX as int,
                    SCALE as int,
                );
                lemma_div_le(
                    (d.health as int * d.energy_total as int / (SCALE as int))
                        * sc.energy_efficiency as int,
                    AMT_MAX as int * MULT_MAX as int,
                    SCALE as int,
                );
            }
            let m_av = d.health * d.mass_total / SCALE * sc.mass_efficiency / SCALE;
            let e_av = d.health * d.energy_total / SCALE * sc.energy_efficiency / SCALE;
            infos.push(
                SacrificeInfo {
                    source: EntityId { idx: i, gen: s.gen },
                    mass_available: m_av,
                    energy_available: e_av,
                    target: s.sacrificing.unwrap().target,
                },
            );
        }
        i = i + 1;
    }
    proof {
        lemma_sac_infos_props(s0, n as int);
    }
    let m = infos.len();
    let mut k: usize = 0;
    while k < m
        invariant
            n == s0.len(),
            world.slots@.len() == n,
            m == infos@.len(),
            0 <= k <= m,
            forall|j: int| 0 <= j < s0.len() ==> slot_wf(#[trigger] s0[j]),
            infos@ == sac_infos(s0, n as int),
            forall|jj: int|
                0 <= jj < infos@.len() ==> (#[trigger] infos@[jj]).mass_available <= REQ_MAX
                    && infos@[jj].energy_available <= REQ_MAX,
            forall|jj: int|
                0 <= jj < infos@.len() ==> (#[trigger] infos@[jj]).source.idx < n && sacrificer(
                    s0[infos@[jj].source.idx as int],
                ) && infos@[jj] == info_of(s0, infos@[jj].source.idx as int),
            forall|jj: int, jj2: int|
                0 <= jj < jj2 < infos@.len() ==> (#[trigger] infos@[jj]).source.idx < (
                #[trigger] infos@[jj2]).source.idx,
            forall|j: int|
                0 <= j < n && sacrificer(#[trigger] s0[j]) ==> infos@.contains(info_of(s0, j)),
            world.slots@ == sac_apply(s0, infos@, k as int).0,
            commands@ == c0 + sac_apply(s0, infos@, k as int).1,
            forall|j: int|
                0 <= j < n ==> {
                    let s = #[trigger] world.slots@[j];
                    &&& s.alive == s0[j].alive
                    &&& s.gen == s0[j].gen
                    &&& s.executing == s0[j].executing
                    &&& s.will_execute == s0[j].will_execute
                    &&& s.paused == s0[j].paused
                    &&& s.support_commander == s0[j].support_commander
                    &&& s.paragon == s0[j].paragon
                    &&& s.engineering == s0[j].engineering
                    &&& s.producer == s0[j].producer
                    &&& s.consumer == s0[j].consumer
                    &&& s.constructing == s0[j].constructing
                    &&& s.sacrificing == s0[j].sacrificing
                    &&& s.sacrifice_capable == s0[j].sacrifice_capable
                    &&& s.quantum_gate == s0[j].quantum_gate
                },
            forall|j: int|
                0 <= j < n ==> ((#[trigger] world.slots@[j]).damage is Some <==> s0[j].damage
                    is Some),
            forall|j: int|
                0 <= j < n && s0[j].damage is Some ==> {
                    let d = (#[trigger] world.slots@[j]).damage->0;
                    let d_old = s0[j].damage->0;
                    &&& d.health >= d_old.health
                    &&& d.health <= SCALE
                    &&& d.mass_total == d_old.mass_total
                    &&& d.energy_total == d_old.energy_total
                    &&& d.build_time == d_old.build_time
                    &&& d.health_points == d_old.health_points
                },
            forall|j: int| 0 <= j < n ==> slot_wf(#[trigger] world.slots@[j]),
            forall|t: int|
                0 <= t < n && (forall|jj: int|
                    0 <= jj < k ==> (#[trigger] infos@[jj]).target.idx != t) ==> (
                #[trigger] world.slots@[t]).damage == s0[t].damage,
            forall|jj: int|
                0 <= jj < k && target_buildable(s0, (#[trigger] infos@[jj]).target)
                    && s0[infos@[jj].target.idx as int].damage->0.health < SCALE && (forall|
                    jj2: int,
                |
                    0 <= jj2 < jj ==> (#[trigger] infos@[jj2]).target.idx
                        != infos@[jj].target.idx) ==> commands@.contains(
                    Command::Despawn(infos@[jj].source),
                ),
            forall|jj: int|
                0 <= jj < k ==> commands@.contains(Command::Despawn((#[trigger] infos@[jj]).source))
                    || commands@.contains(Command::RemoveSacrificing(infos@[jj].source)),
            forall|kk: int|
                c0.len() <= kk < commands@.len() ==> crate::store::command_wf(
                    #[trigger] commands@[kk],
                ),
            world.economy == old(world).economy,
            s0 == old(world).slots@,
            c0 == old(commands)@,
            world.free@ == old(world).free@,
            world.current_tick == old(world).current_tick,
            world.log.entries@ == old(world).log.entries@,
        decreases m - k,
    {
        let ghost prev = world.slots@;
        let ghost prev_cmds = commands@;
        let info = infos[k];
        let t = info.target;
        if t.idx < world.slots.len() && world.slots[t.idx].alive && world.slots[t.idx].gen == t.gen
            && world.slots[t.idx].damage.is_some() {
            let td = world.slots[t.idx].damage.unwrap();
            if td.health >= SCALE {
                commands.push(Command::RemoveSacrificing(info.source));
                proof {
                    assert(commands@ =~= c0 + sac_apply(s0, infos@, k as int + 1).1);
                    assert forall|c2: Command| prev_cmds.contains(c2) implies commands@.contains(
                        c2,
                    ) by {
                        let x = choose|x: int| 0 <= x < prev_cmds.len() && #[trigger] prev_cmds[x] == c2;
                        assert(commands@[x] == c2);
                    }
                }
            } else {
                proof {
                    lemma_mul_le(
                        info.mass_available as int,
                        SCALE as int,
                        REQ_MAX as int,
                        SCALE as int,
                    );
                    lemma_mul_le(
                        info.energy_available as int,
                        SCALE as int,
                        REQ_MAX as int,
                        SCALE as int,
                    );
                }
                let pm = info.mass_available * SCALE / td.mass_total;
                let pe = info.energy_available * SCALE / td.energy_total;
                let p = if pm <= pe {
                    pm
                } else {
                    pe
                };
                let hp = td.health + p;
                let h2 = if hp <= SCALE {
                    hp
                } else {
                    SCALE
                };
                let tslot = world.slots[t.idx];
                let mut t2 = tslot;
                let tdam = tslot.damage.unwrap();
                t2.damage = Some(
                    Damage {
                        health: h2,
                        health_points: tdam.health_points,
                        mass_total: tdam.mass_total,
                        energy_total: tdam.energy_total,
                        build_time: tdam.build_time,
                    },
                );
                world.slots.set(t.idx, t2);
                commands.push(Command::Despawn(info.source));
                proof {
                    assert(world.slots@ == sac_apply_step(prev, infos@[k as int]).0);
                    assert(commands@ =~= c0 + sac_apply(s0, infos@, k as int + 1).1);
                    assert(commands@[commands@.len() - 1] == Command::Despawn(info.source));
                    assert(commands@.contains(Command::Despawn(infos@[k as int].source)));
                    assert forall|c2: Command| prev_cmds.contains(c2) implies commands@.contains(
                        c2,
                    ) by {
                        let x = choose|x: int| 0 <= x < prev_cmds.len() && #[trigger] prev_cmds[x] == c2;
                        assert(commands@[x] == c2);
                    }
                }
            }
        } else {
            commands.push(Command::RemoveSacrificing(info.source));
            proof {
                assert(!target_buildable(prev, t));
                assert(commands@ =~= c0 + sac_apply(s0, infos@, k as int + 1).1);
                assert forall|c2: Command| prev_cmds.contains(c2) implies commands@.contains(
                    c2,
                ) by {
                    let x = choose|x: int| 0 <= x < prev_cmds.len() && #[trigger] prev_cmds[x] == c2;
                    assert(commands@[x] == c2);
                }
            }
        }
        k = k + 1;
    }
    proof {
        assert forall|j: int|
            0 <= j < n && sacrificer(#[trigger] s0[j]) implies commands@.contains(
            Command::Despawn(slot_id(s0, j)),
        ) || commands@.contains(Command::RemoveSacrificing(slot_id(s0, j))) by {
            assert(infos@.contains(info_of(s0, j)));
            let jj = choose|jj: int|
                0 <= jj < infos@.len() && #[trigger] infos@[jj] == info_of(s0, j);
            assert(infos@[jj].source == slot_id(s0, j));
        }
        assert forall|j: int|
            0 <= j < n && sacrificer(#[trigger] s0[j]) && target_buildable(
                s0,
                s0[j].sacrificing->0.target,
            ) && s0[s0[j].sacrificing->0.target.idx as int].damage->0.health < SCALE && (forall|
                j2: int,
            |
                0 <= j2 < n && j2 != j && sacrificer(#[trigger] s0[j2])
                    ==> s0[j2].sacrificing->0.target.idx != s0[j].sacrificing->0.target.idx) implies
            commands@.contains(Command::Despawn(slot_id(s0, j))) by {
            assert(infos@.contains(info_of(s0, j)));
            let jj = choose|jj: int|
                0 <= jj < infos@.len() && #[trigger] infos@[jj] == info_of(s0, j);
            assert(infos@[jj].source.idx == j);
            assert(infos@[jj].target == s0[j].sacrificing->0.target);
            assert forall|jj2: int| 0 <= jj2 < jj implies (#[trigger] infos@[jj2]).target.idx
                != infos@[jj].target.idx by {
                let j2 = infos@[jj2].source.idx as int;
                assert(infos@[jj2] == info_of(s0, j2));
                assert(j2 < j);
                assert(sacrificer(s0[j2]));
                assert(infos@[jj2].target == s0[j2].sacrificing->0.target);
            }
        }
    }
}

} // verus!
