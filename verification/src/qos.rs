//! The QoS policy model and the requested-versus-offered compatibility
//! relation that decides whether a remote endpoint matches a local one.

use vstd::prelude::*;
use crate::time::Duration;

verus! {

#[derive(Clone, Copy, PartialEq, Eq, Structural, Debug)]
pub enum Durability {
    Volatile,
    TransientLocal,
    Transient,
    Persistent,
}

/// Rank of a durability level; a requested level is served by any offered
/// level of equal or higher rank.
pub open spec fn spec_durability_rank(d: Durability) -> int {
    match d {
        Durability::Volatile => 0,
        Durability::TransientLocal => 1,
        Durability::Transient => 2,
        Durability::Persistent => 3,
    }
}

#[derive(Clone, Copy, PartialEq, Eq, Structural, Debug)]
pub enum PresentationAccessScope {
    Instance,
    Topic,
    Group,
}

#[derive(Clone, Copy, PartialEq, Eq, Structural, Debug)]
pub struct Presentation {
    pub access_scope: PresentationAccessScope,
    pub coherent_access: bool,
    pub ordered_access: bool,
}

#[derive(Clone, Copy, PartialEq, Eq, Structural, Debug)]
pub struct Deadline(pub Duration);

#[derive(Clone, Copy, PartialEq, Eq, Structural, Debug)]
pub struct LatencyBudget {
    pub duration: Duration,
}

#[derive(Clone, Copy, PartialEq, Eq, Structural, Debug)]
pub enum Ownership {
    Shared,
    Exclusive,
}

#[derive(Clone, Copy, PartialEq, Eq, Structural, Debug)]
pub enum Liveliness {
    Automatic { lease_duration: Duration },
    ManualByParticipant { lease_duration: Duration },
    ManualByTopic { lease_duration: Duration },
}

/// Rank of a liveliness kind; a requested kind is served by any offered kind
/// of equal or higher rank.
pub open spec fn spec_liveliness_rank(l: Liveliness) -> int {
    match l {
        Liveliness::Automatic { .. } => 0,
        Liveliness::ManualByParticipant { .. } => 1,
        Liveliness::ManualByTopic { .. } => 2,
    }
}

pub open spec fn spec_liveliness_lease(l: Liveliness) -> Duration {
    match l {
        Liveliness::Automatic { lease_duration } => lease_duration,
        Liveliness::ManualByParticipant { lease_duration } => lease_duration,
        Liveliness::ManualByTopic { lease_duration } => lease_duration,
    }
}

impl Liveliness {
    pub fn lease_duration(&self) -> (d: Duration)
        ensures
            d == spec_liveliness_lease(*self),
    {
        match self {
            Liveliness::Automatic { lease_duration } => *lease_duration,
            Liveliness::ManualByParticipant { lease_duration } => *lease_duration,
            Liveliness::ManualByTopic { lease_duration } => *lease_duration,
        }
    }
}

#[derive(Clone, Copy, PartialEq, Eq, Structural, Debug)]
pub struct TimeBasedFilter {
    pub minimum_separation: Duration,
}

#[derive(Clone, Copy, PartialEq, Eq, Structural, Debug)]
pub enum Reliability {
    BestEffort,
    Reliable { max_blocking_time: Duration },
}

#[derive(Clone, Copy, PartialEq, Eq, Structural, Debug)]
pub enum DestinationOrder {
    ByReceptionTimestamp,
    BySourceTimestamp,
}

#[derive(Clone, Copy, PartialEq, Eq, Structural, Debug)]
pub enum History {
    KeepAll,
    KeepLast { depth: i32 },
}

#[derive(Clone, Copy, PartialEq, Eq, Structural, Debug)]
pub struct ResourceLimits {
    pub max_samples: i32,
    pub max_instances: i32,
    pub max_samples_per_instance: i32,
}

#[derive(Clone, Copy, PartialEq, Eq, Structural, Debug)]
pub struct Lifespan {
    pub duration: Duration,
}

/// A bundle of optional policy values; an absent policy means the DDS
/// default applies.
#[derive(Clone, Copy, PartialEq, Eq, Structural, Debug)]
pub struct QosPolicies {
    pub durability: Option<Durability>,
    pub presentation: Option<Presentation>,
    pub deadline: Option<Deadline>,
    pub latency_budget: Option<LatencyBudget>,
    pub ownership: Option<Ownership>,
    pub liveliness: Option<Liveliness>,
    pub time_based_filter: Option<TimeBasedFilter>,
    pub reliability: Option<Reliability>,
    pub destination_order: Option<DestinationOrder>,
    pub history: Option<History>,
    pub resource_limits: Option<ResourceLimits>,
    pub lifespan: Option<Lifespan>,
}

/// The effective value of each negotiated policy when it is absent.
pub open spec fn spec_effective_durability(q: QosPolicies) -> Durability {
    match q.durability {
        Some(d) => d,
        None => Durability::Volatile,
    }
}

pub open spec fn spec_effective_deadline(q: QosPolicies) -> Duration {
    match q.deadline {
        Some(d) => d.0,
        None => Duration { ticks: crate::time::DURATION_INFINITE_TICKS },
    }
}

pub open spec fn spec_effective_ownership(q: QosPolicies) -> Ownership {
    match q.ownership {
        Some(o) => o,
        None => Ownership::Shared,
    }
}

pub open spec fn spec_effective_liveliness(q: QosPolicies) -> Liveliness {
    match q.liveliness {
        Some(l) => l,
        None => Liveliness::Automatic {
            lease_duration: Duration { ticks: crate::time::DURATION_INFINITE_TICKS },
        },
    }
}

pub open spec fn spec_effective_reliability(q: QosPolicies) -> Reliability {
    match q.reliability {
        Some(r) => r,
        None => Reliability::BestEffort,
    }
}

/// The requested-versus-offered compatibility relation:
/// - reliability: a best-effort request accepts anything, a reliable request
///   needs a reliable offer;
/// - durability: the requested rank must not exceed the offered rank;
/// - deadline: the requested period must be at least the offered one;
/// - liveliness: the requested kind's rank must not exceed the offered one,
///   and the requested lease must be at least the offered lease;
/// - ownership: both sides must agree.
pub open spec fn spec_qos_compatible(requested: QosPolicies, offered: QosPolicies) -> bool {
    &&& match spec_effective_reliability(requested) {
        Reliability::BestEffort => true,
        Reliability::Reliable { .. } => spec_effective_reliability(offered) is Reliable,
    }
    &&& spec_durability_rank(spec_effective_durability(requested)) <= spec_durability_rank(
        spec_effective_durability(offered),
    )
    &&& spec_effective_deadline(requested).ticks >= spec_effective_deadline(offered).ticks
    &&& spec_liveliness_rank(spec_effective_liveliness(requested)) <= spec_liveliness_rank(
        spec_effective_liveliness(offered),
    )
    &&& spec_liveliness_lease(spec_effective_liveliness(requested)).ticks >= spec_liveliness_lease(
        spec_effective_liveliness(offered),
    ).ticks
    &&& spec_effective_ownership(requested) == spec_effective_ownership(offered)
}

impl QosPolicies {
    /// The empty bundle: every policy at its default.
    pub fn none() -> (q: QosPolicies)
        ensures
            q == spec_qos_none(),
    {
        QosPolicies {
            durability: None,
            presentation: None,
            deadline: None,
            latency_budget: None,
            ownership: None,
            liveliness: None,
            time_based_filter: None,
            reliability: None,
            destination_order: None,
            history: None,
            resource_limits: None,
            lifespan: None,
        }
    }

    /// Whether this bundle, requested by a reader, is compatible with
    /// `offered`, offered by a writer.
    pub fn is_compatible_with(&self, offered: &QosPolicies) -> (r: bool)
        ensures
            r == spec_qos_compatible(*self, *offered),
    {
        let reliability_ok = match self.reliability {
            Some(Reliability::Reliable { .. }) => match offered.reliability {
                Some(Reliability::Reliable { .. }) => true,
                _ => false,
            },
            _ => true,
        };
        let durability_ok = durability_rank(effective_durability(self))
            <= durability_rank(effective_durability(offered));
        let deadline_ok = effective_deadline(self).ticks >= effective_deadline(offered).ticks;
        let req_liveliness = effective_liveliness(self);
        let off_liveliness = effective_liveliness(offered);
        let liveliness_ok = liveliness_rank(req_liveliness) <= liveliness_rank(off_liveliness)
            && req_liveliness.lease_duration().ticks >= off_liveliness.lease_duration().ticks;
        let ownership_ok = effective_ownership(self) == effective_ownership(offered);
        reliability_ok && durability_ok && deadline_ok && liveliness_ok && ownership_ok
    }
}

pub open spec fn spec_qos_none() -> QosPolicies {
    QosPolicies {
        durability: None,
        presentation: None,
        deadline: None,
        latency_budget: None,
        ownership: None,
        liveliness: None,
        time_based_filter: None,
        reliability: None,
        destination_order: None,
        history: None,
        resource_limits: None,
        lifespan: None,
    }
}

fn durability_rank(d: Durability) -> (r: u32)
    ensures
        r == spec_durability_rank(d),
{
    match d {
        Durability::Volatile => 0,
        Durability::TransientLocal => 1,
        Durability::Transient => 2,
        Durability::Persistent => 3,
    }
}

fn liveliness_rank(l: Liveliness) -> (r: u32)
    ensures
        r == spec_liveliness_rank(l),
{
    match l {
        Liveliness::Automatic { .. } => 0,
        Liveliness::ManualByParticipant { .. } => 1,
        Liveliness::ManualByTopic { .. } => 2,
    }
}

fn effective_durability(q: &QosPolicies) -> (d: Durability)
    ensures
        d == spec_effective_durability(*q),
{
    match q.durability {
        Some(d) => d,
        None => Durability::Volatile,
    }
}

fn effective_deadline(q: &QosPolicies) -> (d: Duration)
    ensures
        d == spec_effective_deadline(*q),
{
    match q.deadline {
        Some(d) => d.0,
        None => Duration::infinite(),
    }
}

fn effective_ownership(q: &QosPolicies) -> (o: Ownership)
    ensures
        o == spec_effective_ownership(*q),
{
    match q.ownership {
        Some(o) => o,
        None => Ownership::Shared,
    }
}

fn effective_liveliness(q: &QosPolicies) -> (l: Liveliness)
    ensures
        l == spec_effective_liveliness(*q),
{
    match q.liveliness {
        Some(l) => l,
        None => Liveliness::Automatic { lease_duration: Duration::infinite() },
    }
}

/// Step-by-step construction of a policy bundle, as the discovery loop
/// assembles its built-in topic QoS.
pub struct QosPolicyBuilder {
    pub policies: QosPolicies,
}

impl QosPolicyBuilder {
    pub fn new() -> (b: QosPolicyBuilder)
        ensures
            b.policies == spec_qos_none(),
    {
        QosPolicyBuilder { policies: QosPolicies::none() }
    }

    pub fn durability(self, durability: Durability) -> (b: QosPolicyBuilder)
        ensures
            b.policies == (QosPolicies { durability: Some(durability), ..self.policies }),
    {
        QosPolicyBuilder {
            policies: QosPolicies { durability: Some(durability), ..self.policies },
        }
    }

    pub fn presentation(self, presentation: Presentation) -> (b: QosPolicyBuilder)
        ensures
            b.policies == (QosPolicies { presentation: Some(presentation), ..self.policies }),
    {
        QosPolicyBuilder {
            policies: QosPolicies { presentation: Some(presentation), ..self.policies },
        }
    }

    pub fn deadline(self, deadline: Deadline) -> (b: QosPolicyBuilder)
        ensures
            b.policies == (QosPolicies { deadline: Some(deadline), ..self.policies }),
    {
        QosPolicyBuilder { policies: QosPolicies { deadline: Some(deadline), ..self.policies } }
    }

    pub fn latency_budget(self, latency_budget: LatencyBudget) -> (b: QosPolicyBuilder)
        ensures
            b.policies == (QosPolicies { latency_budget: Some(latency_budget), ..self.policies }),
    {
        QosPolicyBuilder {
            policies: QosPolicies { latency_budget: Some(latency_budget), ..self.policies },
        }
    }

    pub fn ownership(self, ownership: Ownership) -> (b: QosPolicyBuilder)
        ensures
            b.policies == (QosPolicies { ownership: Some(ownership), ..self.policies }),
    {
        QosPolicyBuilder { policies: QosPolicies { ownership: Some(ownership), ..self.policies } }
    }

    pub fn liveliness(self, liveliness: Liveliness) -> (b: QosPolicyBuilder)
        ensures
            b.policies == (QosPolicies { liveliness: Some(liveliness), ..self.policies }),
    {
        QosPolicyBuilder {
            policies: QosPolicies { liveliness: Some(liveliness), ..self.policies },
        }
    }

    pub fn time_based_filter(self, time_based_filter: TimeBasedFilter) -> (b: QosPolicyBuilder)
        ensures
            b.policies == (QosPolicies {
                time_based_filter: Some(time_based_filter),
                ..self.policies
            }),
    {
        QosPolicyBuilder {
            policies: QosPolicies { time_based_filter: Some(time_based_filter), ..self.policies },
        }
    }

    pub fn reliability(self, reliability: Reliability) -> (b: QosPolicyBuilder)
        ensures
            b.policies == (QosPolicies { reliability: Some(reliability), ..self.policies }),
    {
        QosPolicyBuilder {
            policies: QosPolicies { reliability: Some(reliability), ..self.policies },
        }
    }

    pub fn destination_order(self, destination_order: DestinationOrder) -> (b: QosPolicyBuilder)
        ensures
            b.policies == (QosPolicies {
                destination_order: Some(destination_order),
                ..self.policies
            }),
    {
        QosPolicyBuilder {
            policies: QosPolicies { destination_order: Some(destination_order), ..self.policies },
        }
    }

    pub fn history(self, history: History) -> (b: QosPolicyBuilder)
        ensures
            b.policies == (QosPolicies { history: Some(history), ..self.policies }),
    {
        QosPolicyBuilder { policies: QosPolicies { history: Some(history), ..self.policies } }
    }

    pub fn resource_limits(self, resource_limits: ResourceLimits) -> (b: QosPolicyBuilder)
        ensures
            b.policies == (QosPolicies {
                resource_limits: Some(resource_limits),
                ..self.policies
            }),
    {
        QosPolicyBuilder {
            policies: QosPolicies { resource_limits: Some(resource_limits), ..self.policies },
        }
    }

    pub fn lifespan(self, lifespan: Lifespan) -> (b: QosPolicyBuilder)
        ensures
            b.policies == (QosPolicies { lifespan: Some(lifespan), ..self.policies }),
    {
        QosPolicyBuilder { policies: QosPolicies { lifespan: Some(lifespan), ..self.policies } }
    }

    pub fn build(self) -> (q: QosPolicies)
        ensures
            q == self.policies,
    {
        self.policies
    }
}

} // verus!
