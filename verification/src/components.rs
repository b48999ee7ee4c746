//! The component types that entities carry, their well-formedness
//! predicates, and the configuration checks that reject invalid stat
//! tables at attach time rather than let them poison the tick arithmetic.

use vstd::prelude::*;
use crate::fixed::AMT_MAX;
use crate::fixed::BUILD_AMOUNT_CAP;
use crate::fixed::CONS_BOUND;
use crate::fixed::MULT_MAX;
use crate::fixed::MULT_MIN;
use crate::fixed::PRODUCER_TOTAL_CAP;
use crate::fixed::REQ_MAX;
use crate::fixed::SCALE;

verus! {

/// A stable handle to an entity: a slot index plus the generation the slot
/// had when the entity was created, so a handle left over from a destroyed
/// entity is recognised as stale even after the slot is reused.
#[derive(Clone, Copy, PartialEq, Eq, Structural, Debug)]
pub struct EntityId {
    pub idx: usize,
    pub gen: u64,
}

/// Entity can be built: construction cost and progress.
#[derive(Clone, Copy, PartialEq, Eq, Structural, Debug)]
pub struct Damage {
    /// construction progress as a fixed-point fraction: 0 = not started,
    /// `SCALE` = complete
    pub health: u128,
    /// total health points of the unit
    pub health_points: u64,
    /// total mass cost of the unit
    pub mass_total: u128,
    /// total energy cost of the unit
    pub energy_total: u128,
    /// build time, unitless (see build_rate)
    pub build_time: u128,
}

/// Entity has an engineering suite (can build other entities).
#[derive(Clone, Copy, PartialEq, Eq, Structural, Debug)]
pub struct Engineering {
    /// how much build_time this unit works off per tick
    pub build_rate: u128,
}

/// Entity produces resources.
#[derive(Clone, Copy, PartialEq, Eq, Structural, Debug)]
pub struct ResourceProducer {
    /// mass produced per tick
    pub mass_yield: u128,
    /// energy produced per tick
    pub energy_yield: u128,
    /// lifetime mass produced; saturates at `PRODUCER_TOTAL_CAP`
    pub total_mass: u128,
    /// lifetime energy produced; saturates at `PRODUCER_TOTAL_CAP`
    pub total_energy: u128,
}

/// Entity consumes resources: per-tick request and realized-consumption
/// accumulators, zeroed at the end of every tick's settlement.
#[derive(Clone, Copy, PartialEq, Eq, Structural, Debug)]
pub struct ResourceConsumer {
    /// how much mass the entity wants this tick
    pub mass_request: u128,
    /// how much energy the entity wants this tick
    pub energy_request: u128,
    /// how much mass the entity actually consumed this tick
    pub mass_consumed: u128,
    /// how much energy the entity actually consumed this tick
    pub energy_consumed: u128,
}

/// Entity is currently constructing another entity.
#[derive(Clone, Copy, PartialEq, Eq, Structural, Debug)]
pub struct Constructing {
    /// the entity being constructed
    pub target: EntityId,
    /// mass requested for construction this tick
    pub mass_requested: u128,
    /// energy requested for construction this tick
    pub energy_requested: u128,
    /// mass consumption multiplier (for example 0.9 under an adjacency bonus)
    pub mass_consumption_multiplier: u128,
    /// energy consumption multiplier
    pub energy_consumption_multiplier: u128,
    /// fraction of the target this builder would complete this tick at full
    /// allocation
    pub build_amount: u128,
}

/// Entity is sacrificing itself into another entity's construction.
#[derive(Clone, Copy, PartialEq, Eq, Structural, Debug)]
pub struct Sacrificing {
    pub target: EntityId,
}

/// Entity may be sacrificed: how much of its own build value carries over.
#[derive(Clone, Copy, PartialEq, Eq, Structural, Debug)]
pub struct SacrificeCapable {
    pub mass_efficiency: u128,
    pub energy_efficiency: u128,
}

/// A factory that periodically spawns a new unit and immediately begins
/// constructing it. The stat table of the spawned unit is opaque
/// configuration carried by the factory itself.
#[derive(Clone, Copy, PartialEq, Eq, Structural, Debug)]
pub struct QuantumGate {
    /// ticks between a finished unit rolling off and the next spawn
    pub rolloff_time: i32,
    /// ticks left before the next spawn; -1 is the transient "unit in
    /// flight" sentinel
    pub rolloff_current: i32,
    /// build cost of the spawned unit
    pub unit_damage: Damage,
    /// engineering suite of the spawned unit
    pub unit_engineering: Engineering,
    /// resource production of the spawned unit
    pub unit_producer: ResourceProducer,
    /// sacrifice efficiencies of the spawned unit
    pub unit_sacrifice: SacrificeCapable,
}

/// Tag: entity is currently executing (active in the economy).
#[derive(Clone, Copy, PartialEq, Eq, Structural, Debug)]
pub struct Executing;

/// Tag: entity will begin executing once its construction completes.
#[derive(Clone, Copy, PartialEq, Eq, Structural, Debug)]
pub struct WillExecuteOnConstruct;

/// Tag: entity's construction work is paused; it neither requests nor
/// settles resources, but still produces.
#[derive(Clone, Copy, PartialEq, Eq, Structural, Debug)]
pub struct ConstructionPaused;

/// Tag: entity is a resource-producing support commander.
#[derive(Clone, Copy, PartialEq, Eq, Structural, Debug)]
pub struct RASSupportCommander;

/// Tag: entity is the scenario's final objective unit.
#[derive(Clone, Copy, PartialEq, Eq, Structural, Debug)]
pub struct Paragon;

/// Why a configuration was rejected, or an operation refused.
#[derive(Clone, Copy, PartialEq, Eq, Structural, Debug)]
pub enum ConfigError {
    /// the entity handle is stale or was never created
    DeadEntity,
    NonPositiveMassTotal,
    NonPositiveEnergyTotal,
    NonPositiveBuildTime,
    NonPositiveBuildRate,
    AmountTooLarge,
    HealthOutOfRange,
    MultiplierOutOfRange,
    RequestTooLarge,
    BuildAmountTooLarge,
    EfficiencyTooLarge,
    RolloffOutOfRange,
    CapacityTooLarge,
    StockOutOfRange,
}

pub open spec fn damage_wf(d: Damage) -> bool {
    &&& 0 < d.mass_total <= AMT_MAX
    &&& 0 < d.energy_total <= AMT_MAX
    &&& 0 < d.build_time <= AMT_MAX
    &&& d.health <= SCALE
}

pub open spec fn engineering_wf(e: Engineering) -> bool {
    0 < e.build_rate <= AMT_MAX
}

pub open spec fn producer_wf(p: ResourceProducer) -> bool {
    &&& p.mass_yield <= AMT_MAX
    &&& p.energy_yield <= AMT_MAX
    &&& p.total_mass <= PRODUCER_TOTAL_CAP
    &&& p.total_energy <= PRODUCER_TOTAL_CAP
}

/// The loose bound the store maintains at all times: an attached value of at
/// most `AMT_MAX` plus at most one construction edge's request per tick.
pub open spec fn consumer_wf(c: ResourceConsumer) -> bool {
    &&& c.mass_request <= CONS_BOUND
    &&& c.energy_request <= CONS_BOUND
    &&& c.mass_consumed <= CONS_BOUND
    &&& c.energy_consumed <= CONS_BOUND
}

/// The tighter bound that holds outside a tick, and that attachment enforces.
pub open spec fn consumer_settled_bound(c: ResourceConsumer) -> bool {
    &&& c.mass_request <= AMT_MAX
    &&& c.energy_request <= AMT_MAX
    &&& c.mass_consumed <= AMT_MAX
    &&& c.energy_consumed <= AMT_MAX
}

pub open spec fn constructing_wf(c: Constructing) -> bool {
    &&& c.build_amount <= BUILD_AMOUNT_CAP
    &&& c.mass_requested <= REQ_MAX
    &&& c.energy_requested <= REQ_MAX
    &&& MULT_MIN <= c.mass_consumption_multiplier <= MULT_MAX
    &&& MULT_MIN <= c.energy_consumption_multiplier <= MULT_MAX
}

pub open spec fn sacrifice_capable_wf(s: SacrificeCapable) -> bool {
    &&& s.mass_efficiency <= MULT_MAX
    &&& s.energy_efficiency <= MULT_MAX
}

pub open spec fn gate_wf(g: QuantumGate) -> bool {
    &&& 0 <= g.rolloff_time
    &&& -1 <= g.rolloff_current <= g.rolloff_time
    &&& damage_wf(g.unit_damage)
    &&& engineering_wf(g.unit_engineering)
    &&& producer_wf(g.unit_producer)
    &&& sacrifice_capable_wf(g.unit_sacrifice)
}

pub open spec fn damage_check(d: Damage) -> Result<(), ConfigError> {
    if d.mass_total == 0 {
        Err(ConfigError::NonPositiveMassTotal)
    } else if d.energy_total == 0 {
        Err(ConfigError::NonPositiveEnergyTotal)
    } else if d.build_time == 0 {
        Err(ConfigError::NonPositiveBuildTime)
    } else if d.mass_total > AMT_MAX || d.energy_total > AMT_MAX || d.build_time > AMT_MAX {
        Err(ConfigError::AmountTooLarge)
    } else if d.health > SCALE {
        Err(ConfigError::HealthOutOfRange)
    } else {
        Ok(())
    }
}

/// Rejects a zero or out-of-range build cost, build time or health.
pub fn check_damage(d: &Damage) -> (r: Result<(), ConfigError>)
    ensures
        r == damage_check(*d),
        r is Ok <==> damage_wf(*d),
{
    if d.mass_total == 0 {
        Err(ConfigError::NonPositiveMassTotal)
    } else if d.energy_total == 0 {
        Err(ConfigError::NonPositiveEnergyTotal)
    } else if d.build_time == 0 {
        Err(ConfigError::NonPositiveBuildTime)
    } else if d.mass_total > AMT_MAX || d.energy_total > AMT_MAX || d.build_time > AMT_MAX {
        Err(ConfigError::AmountTooLarge)
    } else if d.health > SCALE {
        Err(ConfigError::HealthOutOfRange)
    } else {
        Ok(())
    }
}

pub open spec fn engineering_check(e: Engineering) -> Result<(), ConfigError> {
    if e.build_rate == 0 {
        Err(ConfigError::NonPositiveBuildRate)
    } else if e.build_rate > AMT_MAX {
        Err(ConfigError::AmountTooLarge)
    } else {
        Ok(())
    }
}

/// Rejects a zero or oversized build rate.
pub fn check_engineering(e: &Engineering) -> (r: Result<(), ConfigError>)
    ensures
        r == engineering_check(*e),
        r is Ok <==> engineering_wf(*e),
{
    if e.build_rate == 0 {
        Err(ConfigError::NonPositiveBuildRate)
    } else if e.build_rate > AMT_MAX {
        Err(ConfigError::AmountTooLarge)
    } else {
        Ok(())
    }
}

pub open spec fn producer_check(p: ResourceProducer) -> Result<(), ConfigError> {
    if p.mass_yield > AMT_MAX || p.energy_yield > AMT_MAX {
        Err(ConfigError::AmountTooLarge)
    } else if p.total_mass > PRODUCER_TOTAL_CAP || p.total_energy > PRODUCER_TOTAL_CAP {
        Err(ConfigError::AmountTooLarge)
    } else {
        Ok(())
    }
}

/// Rejects oversized yields or lifetime totals.
pub fn check_producer(p: &ResourceProducer) -> (r: Result<(), ConfigError>)
    ensures
        r == producer_check(*p),
        r is Ok <==> producer_wf(*p),
{
    if p.mass_yield > AMT_MAX || p.energy_yield > AMT_MAX {
        Err(ConfigError::AmountTooLarge)
    } else if p.total_mass > PRODUCER_TOTAL_CAP || p.total_energy > PRODUCER_TOTAL_CAP {
        Err(ConfigError::AmountTooLarge)
    } else {
        Ok(())
    }
}

pub open spec fn consumer_check(c: ResourceConsumer) -> Result<(), ConfigError> {
    if c.mass_request > AMT_MAX || c.energy_request > AMT_MAX || c.mass_consumed > AMT_MAX
        || c.energy_consumed > AMT_MAX {
        Err(ConfigError::AmountTooLarge)
    } else {
        Ok(())
    }
}

/// Rejects oversized request or consumption accumulators.
pub fn check_consumer(c: &ResourceConsumer) -> (r: Result<(), ConfigError>)
    ensures
        r == consumer_check(*c),
        r is Ok <==> consumer_settled_bound(*c),
{
    if c.mass_request > AMT_MAX || c.energy_request > AMT_MAX || c.mass_consumed > AMT_MAX
        || c.energy_consumed > AMT_MAX {
        Err(ConfigError::AmountTooLarge)
    } else {
        Ok(())
    }
}

pub open spec fn constructing_check(c: Constructing) -> Result<(), ConfigError> {
    if c.mass_consumption_multiplier < MULT_MIN || c.mass_consumption_multiplier > MULT_MAX
        || c.energy_consumption_multiplier < MULT_MIN
        || c.energy_consumption_multiplier > MULT_MAX {
        Err(ConfigError::MultiplierOutOfRange)
    } else if c.mass_requested > REQ_MAX || c.energy_requested > REQ_MAX {
        Err(ConfigError::RequestTooLarge)
    } else if c.build_amount > BUILD_AMOUNT_CAP {
        Err(ConfigError::BuildAmountTooLarge)
    } else {
        Ok(())
    }
}

/// Rejects out-of-range multipliers or oversized recorded requests.
pub fn check_constructing(c: &Constructing) -> (r: Result<(), ConfigError>)
    ensures
        r == constructing_check(*c),
        r is Ok <==> constructing_wf(*c),
{
    if c.mass_consumption_multiplier < MULT_MIN || c.mass_consumption_multiplier > MULT_MAX
        || c.energy_consumption_multiplier < MULT_MIN
        || c.energy_consumption_multiplier > MULT_MAX {
        Err(ConfigError::MultiplierOutOfRange)
    } else if c.mass_requested > REQ_MAX || c.energy_requested > REQ_MAX {
        Err(ConfigError::RequestTooLarge)
    } else if c.build_amount > BUILD_AMOUNT_CAP {
        Err(ConfigError::BuildAmountTooLarge)
    } else {
        Ok(())
    }
}

pub open spec fn sacrifice_capable_check(s: SacrificeCapable) -> Result<(), ConfigError> {
    if s.mass_efficiency > MULT_MAX || s.energy_efficiency > MULT_MAX {
        Err(ConfigError::EfficiencyTooLarge)
    } else {
        Ok(())
    }
}

/// Rejects oversized sacrifice efficiencies.
pub fn check_sacrifice_capable(s: &SacrificeCapable) -> (r: Result<(), ConfigError>)
    ensures
        r == sacrifice_capable_check(*s),
        r is Ok <==> sacrifice_capable_wf(*s),
{
    if s.mass_efficiency > MULT_MAX || s.energy_efficiency > MULT_MAX {
        Err(ConfigError::EfficiencyTooLarge)
    } else {
        Ok(())
    }
}

pub open spec fn gate_check(g: QuantumGate) -> Result<(), ConfigError> {
    if g.rolloff_time < 0 || g.rolloff_current < -1 || g.rolloff_current > g.rolloff_time {
        Err(ConfigError::RolloffOutOfRange)
    } else if damage_check(g.unit_damage) is Err {
        damage_check(g.unit_damage)
    } else if engineering_check(g.unit_engineering) is Err {
        engineering_check(g.unit_engineering)
    } else if producer_check(g.unit_producer) is Err {
        producer_check(g.unit_producer)
    } else if sacrifice_capable_check(g.unit_sacrifice) is Err {
        sacrifice_capable_check(g.unit_sacrifice)
    } else {
        Ok(())
    }
}

/// Rejects an out-of-range rolloff counter or an invalid spawned-unit
/// stat table.
pub fn check_gate(g: &QuantumGate) -> (r: Result<(), ConfigError>)
    ensures
        r == gate_check(*g),
        r is Ok <==> gate_wf(*g),
{
    if g.rolloff_time < 0 || g.rolloff_current < -1 || g.rolloff_current > g.rolloff_time {
        return Err(ConfigError::RolloffOutOfRange);
    }
    let rd = check_damage(&g.unit_damage);
    if rd.is_err() {
        return rd;
    }
    let re = check_engineering(&g.unit_engineering);
    if re.is_err() {
        return re;
    }
    let rp = check_producer(&g.unit_producer);
    if rp.is_err() {
        return rp;
    }
    let rs = check_sacrifice_capable(&g.unit_sacrifice);
    if rs.is_err() {
        return rs;
    }
    Ok(())
}

} // verus!
