//! The well-known DDS port arithmetic: SPDP discovery and user traffic
//! ports derived from the domain and participant ids.

use vstd::prelude::*;

verus! {

/// Port base.
pub const PB: u32 = 7400;

/// Domain id gain.
pub const DG: u32 = 250;

/// Participant id gain.
pub const PG: u32 = 2;

/// Offset of the multicast discovery port.
pub const D0: u32 = 0;

/// Offset of the unicast discovery port.
pub const D1: u32 = 10;

/// Offset of the multicast user traffic port.
pub const D2: u32 = 1;

/// Offset of the unicast user traffic port.
pub const D3: u32 = 11;

/// The multicast port SPDP listens on in this domain.
pub fn get_spdp_well_known_multicast_port(domain_id: u16) -> (p: u32)
    ensures
        p == PB + DG * domain_id + D0,
{
    PB + DG * (domain_id as u32) + D0
}

/// The unicast port this participant's SPDP endpoint listens on.
pub fn get_spdp_well_known_unicast_port(domain_id: u16, participant_id: u16) -> (p: u32)
    ensures
        p == PB + DG * domain_id + D1 + PG * participant_id,
{
    PB + DG * (domain_id as u32) + D1 + PG * (participant_id as u32)
}

/// The multicast port for user traffic in this domain.
pub fn get_user_traffic_multicast_port(domain_id: u16) -> (p: u32)
    ensures
        p == PB + DG * domain_id + D2,
{
    PB + DG * (domain_id as u32) + D2
}

/// The unicast port for this participant's user traffic.
pub fn get_user_traffic_unicast_port(domain_id: u16, participant_id: u16) -> (p: u32)
    ensures
        p == PB + DG * domain_id + D3 + PG * participant_id,
{
    PB + DG * (domain_id as u32) + D3 + PG * (participant_id as u32)
}

} // verus!
