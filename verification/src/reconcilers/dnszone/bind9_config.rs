//! Decisions of the steps that push a zone to its primary and secondary
//! instances: which condition each outcome sets and whether to go on.

use vstd::prelude::*;
use crate::text::{concat, decimal, to_owned_string, u64_to_decimal};

verus! {

/// A condition to set on the zone's status.
#[derive(Debug, PartialEq)]
pub struct ConditionUpdate {
    pub condition_type: String,
    pub status: String,
    pub reason: String,
    pub message: String,
}

/// Contents of a [`ConditionUpdate`]: type, status, reason, message.
pub open spec fn update_view(u: ConditionUpdate) -> (Seq<char>, Seq<char>, Seq<char>, Seq<char>) {
    (u.condition_type@, u.status@, u.reason@, u.message@)
}

fn condition_update(condition_type: &str, status: &str, reason: &str, message: String) -> (r: ConditionUpdate)
    ensures
        update_view(r) == (condition_type@, status@, reason@, message@),
{
    ConditionUpdate {
        condition_type: to_owned_string(condition_type),
        status: to_owned_string(status),
        reason: to_owned_string(reason),
        message,
    }
}

fn usize_text(n: usize) -> (r: String)
    ensures
        r@ == decimal(n as nat),
{
    u64_to_decimal(n as u64)
}

/// The condition set when configuration of the zone begins.
pub fn zone_configuration_started() -> (r: ConditionUpdate)
    ensures
        update_view(r) == ("Progressing"@, "True"@, "PrimaryReconciling"@,
            "Configuring zone on primary servers"@),
{
    condition_update(
        "Progressing",
        "True",
        "PrimaryReconciling",
        to_owned_string("Configuring zone on primary servers"),
    )
}

/// What the search for primary server IPs decides: `None` to go on (some
/// IP was found), else the `Degraded` condition to set before the
/// reconcile stops. `found` is the number of IPs found, or the error of the
/// search.
pub fn primary_discovery_outcome(found: &Result<usize, String>) -> (r: Option<ConditionUpdate>)
    ensures
        match found {
            Ok(n) => if *n > 0 {
                r is None
            } else {
                r is Some && update_view(r->0) == ("Degraded"@, "True"@, "PrimaryFailed"@,
                    "No primary servers found - cannot configure secondary zones"@)
            },
            Err(e) => r is Some && update_view(r->0) == ("Degraded"@, "True"@, "PrimaryFailed"@,
                "Failed to find primary servers: "@ + e@),
        },
{
    match found {
        Ok(n) => {
            if *n > 0 {
                None
            } else {
                Some(
                    condition_update(
                        "Degraded",
                        "True",
                        "PrimaryFailed",
                        to_owned_string("No primary servers found - cannot configure secondary zones"),
                    ),
                )
            }
        },
        Err(e) => Some(
            condition_update(
                "Degraded",
                "True",
                "PrimaryFailed",
                concat("Failed to find primary servers: ", e.as_str()),
            ),
        ),
    }
}

/// The condition that the outcome of configuring the primaries sets: on
/// success (the number of primaries configured) progress, on failure
/// `Degraded`, after which the reconcile stops.
pub fn primary_configuration_outcome(zone_name: &str, outcome: &Result<usize, String>) -> (r:
    ConditionUpdate)
    ensures
        match outcome {
            Ok(n) => update_view(r) == ("Progressing"@, "True"@, "PrimaryReconciled"@, "Zone "@
                + zone_name@ + " configured on "@ + decimal(*n as nat) + " primary server(s)"@),
            Err(e) => update_view(r) == ("Degraded"@, "True"@, "PrimaryFailed"@,
                "Failed to configure zone on primary servers: "@ + e@),
        },
{
    match outcome {
        Ok(n) => {
            let m = concat("Zone ", zone_name);
            let m = concat(m.as_str(), " configured on ");
            let m = concat(m.as_str(), usize_text(*n).as_str());
            let m = concat(m.as_str(), " primary server(s)");
            condition_update("Progressing", "True", "PrimaryReconciled", m)
        },
        Err(e) => condition_update(
            "Degraded",
            "True",
            "PrimaryFailed",
            concat("Failed to configure zone on primary servers: ", e.as_str()),
        ),
    }
}

/// The condition set when configuration moves on to the secondaries.
pub fn secondary_configuration_started() -> (r: ConditionUpdate)
    ensures
        update_view(r) == ("Progressing"@, "True"@, "SecondaryReconciling"@,
            "Configuring zone on secondary servers"@),
{
    condition_update(
        "Progressing",
        "True",
        "SecondaryReconciling",
        to_owned_string("Configuring zone on secondary servers"),
    )
}

/// What the outcome of configuring the secondaries decides: the condition
/// to set, if any, and the number of secondaries to report. A failure on
/// the secondaries does not stop the reconcile: the primaries still serve
/// the zone, so it is reported as `Degraded` with no secondary configured.
pub fn secondary_configuration_outcome(
    zone_name: &str,
    primary_count: usize,
    outcome: &Result<usize, String>,
) -> (r: (Option<ConditionUpdate>, usize))
    ensures
        match outcome {
            Ok(n) => r.1 == *n && if *n > 0 {
                r.0 is Some && update_view(r.0->0) == ("Progressing"@, "True"@,
                    "SecondaryReconciled"@, "Zone "@ + zone_name@ + " configured on "@ + decimal(
                    *n as nat,
                ) + " secondary server(s)"@)
            } else {
                r.0 is None
            },
            Err(e) => r.1 == 0 && r.0 is Some && update_view(r.0->0) == ("Degraded"@, "True"@,
                "SecondaryFailed"@, "Zone configured on "@ + decimal(primary_count as nat)
                + " primary server(s) but secondary configuration failed: "@ + e@),
        },
{
    match outcome {
        Ok(n) => {
            if *n > 0 {
                let m = concat("Zone ", zone_name);
                let m = concat(m.as_str(), " configured on ");
                let m = concat(m.as_str(), usize_text(*n).as_str());
                let m = concat(m.as_str(), " secondary server(s)");
                (Some(condition_update("Progressing", "True", "SecondaryReconciled", m)), *n)
            } else {
                (None, 0)
            }
        },
        Err(e) => {
            let m = concat("Zone configured on ", usize_text(primary_count).as_str());
            let m = concat(m.as_str(), " primary server(s) but secondary configuration failed: ");
            let m = concat(m.as_str(), e.as_str());
            (Some(condition_update("Degraded", "True", "SecondaryFailed", m)), 0)
        },
    }
}

} // verus!
