//! The final `Ready` / `Degraded` / `Progressing` conditions of a zone
//! reconciliation.

use vstd::prelude::*;
use crate::crd::{ConditionView, DNSZoneStatusView};
use crate::reconcilers::dnszone::types::ZoneConfigOutcome;
use crate::reconcilers::status::{
    DNSZoneStatusUpdater, DNSZoneStatusUpdaterView, first_of_type, has_type, is_first_of_type,
    lemma_first_of_type, lemma_set_condition_keeps_first_of_other,
    lemma_set_condition_keeps_types_unique, lemma_set_condition_then_find, lemma_status_after_set,
    status_of, types_unique, updated_conditions,
};
use crate::text::{concat, decimal, u64_to_decimal};

verus! {

/// How a zone reconciliation ends.
#[derive(Debug, PartialEq, Eq, Structural, Clone, Copy)]
pub enum FinalZoneState {
    /// A `Degraded=True` condition was set during the reconciliation.
    Degraded,
    /// Some expected instance did not receive the zone.
    Partial,
    /// Every expected instance received the zone.
    Ready,
}

/// The ending of a reconciliation: degraded if `Degraded=True` was set,
/// else partial if fewer instances than expected were configured (counted
/// in instances, never in endpoints), else ready.
pub open spec fn final_zone_state(
    degraded_set: bool,
    primary: ZoneConfigOutcome,
    secondary: ZoneConfigOutcome,
    expected_primary: usize,
    expected_secondary: usize,
) -> FinalZoneState {
    if degraded_set {
        FinalZoneState::Degraded
    } else if primary.instances_configured < expected_primary || secondary.instances_configured
        < expected_secondary {
        FinalZoneState::Partial
    } else {
        FinalZoneState::Ready
    }
}

/// `a - b`, or 0 when `b` exceeds `a`.
pub open spec fn saturating_gap(a: usize, b: usize) -> nat {
    if a >= b {
        (a - b) as nat
    } else {
        0
    }
}

/// Message of `Ready=False` after a degraded reconciliation.
pub open spec fn degraded_ready_message(zone_name: Seq<char>) -> Seq<char> {
    "Zone "@ + zone_name
        + " reconciliation completed with degraded state - see Degraded condition for details"@
}

/// The instances still pending: the larger of the primary and the
/// secondary shortfall.
pub open spec fn pending_instances(
    primary: ZoneConfigOutcome,
    secondary: ZoneConfigOutcome,
    expected_primary: usize,
    expected_secondary: usize,
) -> nat {
    let p = saturating_gap(expected_primary, primary.instances_configured);
    let s = saturating_gap(expected_secondary, secondary.instances_configured);
    if p >= s {
        p
    } else {
        s
    }
}

/// Message of a partial reconciliation.
pub open spec fn partial_message(
    zone_name: Seq<char>,
    primary: ZoneConfigOutcome,
    secondary: ZoneConfigOutcome,
    expected_primary: usize,
    expected_secondary: usize,
) -> Seq<char> {
    "Zone "@ + zone_name + " configured on "@ + decimal(primary.instances_configured as nat) + "/"@
        + decimal(expected_primary as nat) + " primary and "@ + decimal(
        secondary.instances_configured as nat,
    ) + "/"@ + decimal(expected_secondary as nat) + " secondary instance(s) - "@ + decimal(
        pending_instances(primary, secondary, expected_primary, expected_secondary),
    ) + " instance(s) pending"@
}

/// Message of `Ready=True`.
pub open spec fn ready_message(
    zone_name: Seq<char>,
    primary: ZoneConfigOutcome,
    secondary: ZoneConfigOutcome,
    records_count: usize,
) -> Seq<char> {
    "Zone "@ + zone_name + " configured on "@ + decimal(primary.instances_configured as nat)
        + " primary and "@ + decimal(secondary.instances_configured as nat)
        + " secondary instance(s) ("@ + decimal(
        (primary.endpoints_configured + secondary.endpoints_configured) as nat,
    ) + " endpoint(s)), discovered "@ + decimal(records_count as nat) + " DNS record(s)"@
}

/// The conditions after the final step of a reconciliation at time `now`.
pub open spec fn final_conditions(
    cs: Seq<ConditionView>,
    degraded_set: bool,
    zone_name: Seq<char>,
    primary: ZoneConfigOutcome,
    secondary: ZoneConfigOutcome,
    expected_primary: usize,
    expected_secondary: usize,
    records_count: usize,
    now: Seq<char>,
) -> Seq<ConditionView> {
    let settled = match final_zone_state(
        degraded_set,
        primary,
        secondary,
        expected_primary,
        expected_secondary,
    ) {
        FinalZoneState::Degraded => updated_conditions(
            cs,
            "Ready"@,
            "False"@,
            "ReconcileDegraded"@,
            degraded_ready_message(zone_name),
            now,
        ),
        FinalZoneState::Partial => {
            let m = partial_message(zone_name, primary, secondary, expected_primary, expected_secondary);
            updated_conditions(
                updated_conditions(cs, "Degraded"@, "True"@, "PartialReconciliation"@, m, now),
                "Ready"@,
                "False"@,
                "PartialReconciliation"@,
                m,
                now,
            )
        },
        FinalZoneState::Ready => updated_conditions(
            updated_conditions(
                cs,
                "Ready"@,
                "True"@,
                "ReconcileSucceeded"@,
                ready_message(zone_name, primary, secondary, records_count),
                now,
            ),
            "Degraded"@,
            "False"@,
            "ReconcileSucceeded"@,
            ""@,
            now,
        ),
    };
    updated_conditions(
        settled,
        "Progressing"@,
        "False"@,
        "ReconcileComplete"@,
        "Reconciliation attempt finished"@,
        now,
    )
}

/// The updater after the final step of a reconciliation at time `now`.
pub open spec fn finalized(
    u: DNSZoneStatusUpdaterView,
    zone_name: Seq<char>,
    primary: ZoneConfigOutcome,
    secondary: ZoneConfigOutcome,
    expected_primary: usize,
    expected_secondary: usize,
    records_count: usize,
    generation: Option<i64>,
    now: Seq<char>,
) -> DNSZoneStatusUpdaterView {
    DNSZoneStatusUpdaterView {
        new_status: DNSZoneStatusView {
            observed_generation: generation,
            conditions: final_conditions(
                u.new_status.conditions,
                u.degraded_set,
                zone_name,
                primary,
                secondary,
                expected_primary,
                expected_secondary,
                records_count,
                now,
            ),
            ..u.new_status
        },
        has_changes: true,
        degraded_set: final_zone_state(
            u.degraded_set,
            primary,
            secondary,
            expected_primary,
            expected_secondary,
        ) != FinalZoneState::Ready,
        ..u
    }
}

fn usize_text(n: usize) -> (r: String)
    ensures
        r@ == decimal(n as nat),
{
    u64_to_decimal(n as u64)
}

fn push_text(s: String, t: &str) -> (r: String)
    ensures
        r@ == s@ + t@,
{
    concat(s.as_str(), t)
}

fn build_partial_message(
    zone_name: &str,
    primary: ZoneConfigOutcome,
    secondary: ZoneConfigOutcome,
    expected_primary: usize,
    expected_secondary: usize,
) -> (r: String)
    ensures
        r@ == partial_message(zone_name@, primary, secondary, expected_primary, expected_secondary),
{
    let gap_p: usize = if expected_primary >= primary.instances_configured {
        expected_primary - primary.instances_configured
    } else {
        0
    };
    let gap_s: usize = if expected_secondary >= secondary.instances_configured {
        expected_secondary - secondary.instances_configured
    } else {
        0
    };
    let m = concat("Zone ", zone_name);
    let m = push_text(m, " configured on ");
    let m = push_text(m, usize_text(primary.instances_configured).as_str());
    let m = push_text(m, "/");
    let m = push_text(m, usize_text(expected_primary).as_str());
    let m = push_text(m, " primary and ");
    let m = push_text(m, usize_text(secondary.instances_configured).as_str());
    let m = push_text(m, "/");
    let m = push_text(m, usize_text(expected_secondary).as_str());
    let m = push_text(m, " secondary instance(s) - ");
    let pending: usize = if gap_p >= gap_s {
        gap_p
    } else {
        gap_s
    };
    let m = push_text(m, usize_text(pending).as_str());
    push_text(m, " instance(s) pending")
}

fn build_ready_message(
    zone_name: &str,
    primary: ZoneConfigOutcome,
    secondary: ZoneConfigOutcome,
    records_count: usize,
) -> (r: String)
    requires
        primary.endpoints_configured + secondary.endpoints_configured <= usize::MAX,
    ensures
        r@ == ready_message(zone_name@, primary, secondary, records_count),
{
    let m = concat("Zone ", zone_name);
    let m = push_text(m, " configured on ");
    let m = push_text(m, usize_text(primary.instances_configured).as_str());
    let m = push_text(m, " primary and ");
    let m = push_text(m, usize_text(secondary.instances_configured).as_str());
    let m = push_text(m, " secondary instance(s) (");
    let m = push_text(
        m,
        usize_text(primary.endpoints_configured + secondary.endpoints_configured).as_str(),
    );
    let m = push_text(m, " endpoint(s)), discovered ");
    let m = push_text(m, usize_text(records_count).as_str());
    push_text(m, " DNS record(s)")
}

/// Set the final conditions of a zone reconciliation at time `now` (in
/// memory only): the observed generation, then `Ready` and `Degraded` as the
/// ending of the reconciliation calls for, then `Progressing=False`.
/// `namespace` and `name` identify the zone.
#[verifier::rlimit(30)]
pub fn set_final_zone_conditions_at(
    status_updater: &mut DNSZoneStatusUpdater,
    zone_name: &str,
    namespace: &str,
    name: &str,
    primary: ZoneConfigOutcome,
    secondary: ZoneConfigOutcome,
    expected_primary_count: usize,
    expected_secondary_count: usize,
    records_count: usize,
    generation: Option<i64>,
    now: &str,
)
    requires
        primary.endpoints_configured + secondary.endpoints_configured <= usize::MAX,
    ensures
        final(status_updater)@ == finalized(
            old(status_updater)@,
            zone_name@,
            primary,
            secondary,
            expected_primary_count,
            expected_secondary_count,
            records_count,
            generation,
            now@,
        ),
{
    proof {
        reveal_strlit("Ready");
        reveal_strlit("Degraded");
        reveal_strlit("Progressing");
        reveal_strlit("True");
        reveal_strlit("False");
    }
    status_updater.set_observed_generation(generation);
    if status_updater.has_degraded_condition() {
        let m = concat("Zone ", zone_name);
        let m = push_text(
            m,
            " reconciliation completed with degraded state - see Degraded condition for details",
        );
        status_updater.set_condition_at("Ready", "False", "ReconcileDegraded", m.as_str(), now);
    } else if primary.instances_configured < expected_primary_count
        || secondary.instances_configured < expected_secondary_count {
        let m = build_partial_message(
            zone_name,
            primary,
            secondary,
            expected_primary_count,
            expected_secondary_count,
        );
        status_updater.set_condition_at("Degraded", "True", "PartialReconciliation", m.as_str(), now);
        status_updater.set_condition_at("Ready", "False", "PartialReconciliation", m.as_str(), now);
    } else {
        let m = build_ready_message(zone_name, primary, secondary, records_count);
        status_updater.set_condition_at("Ready", "True", "ReconcileSucceeded", m.as_str(), now);
        status_updater.clear_degraded_condition_at(now);
    }
    assert("Progressing"@.len() == 11);
    assert("Degraded"@.len() == 8);
    assert("Progressing"@ != "Degraded"@);
    status_updater.set_condition_at(
        "Progressing",
        "False",
        "ReconcileComplete",
        "Reconciliation attempt finished",
        now,
    );
}

/// Set the final conditions of a zone reconciliation (in memory only),
/// stamped with the current time.
pub fn set_final_zone_conditions(
    status_updater: &mut DNSZoneStatusUpdater,
    zone_name: &str,
    namespace: &str,
    name: &str,
    primary: ZoneConfigOutcome,
    secondary: ZoneConfigOutcome,
    expected_primary_count: usize,
    expected_secondary_count: usize,
    records_count: usize,
    generation: Option<i64>,
)
    requires
        primary.endpoints_configured + secondary.endpoints_configured <= usize::MAX,
    ensures
        exists|now: Seq<char>|
            final(status_updater)@ == #[trigger] finalized(
                old(status_updater)@,
                zone_name@,
                primary,
                secondary,
                expected_primary_count,
                expected_secondary_count,
                records_count,
                generation,
                now,
            ),
{
    let now = crate::clock::now_rfc3339();
    set_final_zone_conditions_at(
        status_updater,
        zone_name,
        namespace,
        name,
        primary,
        secondary,
        expected_primary_count,
        expected_secondary_count,
        records_count,
        generation,
        now.as_str(),
    );
}

/// The final conditions always form a consistent triple: `Progressing` is
/// `False`; a ready reconciliation has `Ready=True` and `Degraded=False`;
/// any other has `Ready=False` and `Degraded=True` (a degraded one keeps
/// the `Degraded=True` set earlier). `Ready`, `Degraded` and `Progressing`
/// are all present, and when no condition type occurred twice before, none
/// does after, so each of the three occurs exactly once.
pub proof fn lemma_final_conditions_consistent(
    cs: Seq<ConditionView>,
    degraded_set: bool,
    zone_name: Seq<char>,
    primary: ZoneConfigOutcome,
    secondary: ZoneConfigOutcome,
    expected_primary: usize,
    expected_secondary: usize,
    records_count: usize,
    now: Seq<char>,
)
    requires
        degraded_set ==> status_of(cs, "Degraded"@) == Some("True"@),
    ensures
        ({
            let after = final_conditions(
                cs,
                degraded_set,
                zone_name,
                primary,
                secondary,
                expected_primary,
                expected_secondary,
                records_count,
                now,
            );
            let state = final_zone_state(
                degraded_set,
                primary,
                secondary,
                expected_primary,
                expected_secondary,
            );
            &&& status_of(after, "Progressing"@) == Some("False"@)
            &&& state == FinalZoneState::Ready ==> status_of(after, "Ready"@) == Some("True"@)
                && status_of(after, "Degraded"@) == Some("False"@)
            &&& state != FinalZoneState::Ready ==> status_of(after, "Ready"@) == Some("False"@)
                && status_of(after, "Degraded"@) == Some("True"@)
            &&& has_type(after, "Ready"@) && has_type(after, "Degraded"@) && has_type(after, "Progressing"@)
            &&& types_unique(cs) ==> types_unique(after)
        }),
{
    reveal_strlit("Ready");
    reveal_strlit("Degraded");
    reveal_strlit("Progressing");
    assert("Ready"@.len() == 5);
    assert("Degraded"@.len() == 8);
    assert("Progressing"@.len() == 11);
    let state = final_zone_state(degraded_set, primary, secondary, expected_primary, expected_secondary);
    let pm = "Progressing"@;
    let pf = "False"@;
    let pr = "ReconcileComplete"@;
    let pmsg = "Reconciliation attempt finished"@;
    let settled = match state {
        FinalZoneState::Degraded => {
            let m = degraded_ready_message(zone_name);
            lemma_status_after_set(cs, "Ready"@, "False"@, "ReconcileDegraded"@, m, now, "Ready"@);
            lemma_status_after_set(cs, "Ready"@, "False"@, "ReconcileDegraded"@, m, now, "Degraded"@);
            if types_unique(cs) {
                lemma_set_condition_keeps_types_unique(cs, "Ready"@, "False"@, "ReconcileDegraded"@, m, now);
            }
            updated_conditions(cs, "Ready"@, "False"@, "ReconcileDegraded"@, m, now)
        },
        FinalZoneState::Partial => {
            let m = partial_message(zone_name, primary, secondary, expected_primary, expected_secondary);
            let first = updated_conditions(cs, "Degraded"@, "True"@, "PartialReconciliation"@, m, now);
            lemma_status_after_set(cs, "Degraded"@, "True"@, "PartialReconciliation"@, m, now, "Degraded"@);
            lemma_status_after_set(first, "Ready"@, "False"@, "PartialReconciliation"@, m, now, "Ready"@);
            lemma_status_after_set(first, "Ready"@, "False"@, "PartialReconciliation"@, m, now, "Degraded"@);
            if types_unique(cs) {
                lemma_set_condition_keeps_types_unique(cs, "Degraded"@, "True"@, "PartialReconciliation"@, m, now);
                lemma_set_condition_keeps_types_unique(first, "Ready"@, "False"@, "PartialReconciliation"@, m, now);
            }
            updated_conditions(first, "Ready"@, "False"@, "PartialReconciliation"@, m, now)
        },
        FinalZoneState::Ready => {
            let m = ready_message(zone_name, primary, secondary, records_count);
            let first = updated_conditions(cs, "Ready"@, "True"@, "ReconcileSucceeded"@, m, now);
            lemma_status_after_set(cs, "Ready"@, "True"@, "ReconcileSucceeded"@, m, now, "Ready"@);
            lemma_status_after_set(first, "Degraded"@, "False"@, "ReconcileSucceeded"@, ""@, now, "Ready"@);
            lemma_status_after_set(first, "Degraded"@, "False"@, "ReconcileSucceeded"@, ""@, now, "Degraded"@);
            if types_unique(cs) {
                lemma_set_condition_keeps_types_unique(cs, "Ready"@, "True"@, "ReconcileSucceeded"@, m, now);
                lemma_set_condition_keeps_types_unique(first, "Degraded"@, "False"@, "ReconcileSucceeded"@, ""@, now);
            }
            updated_conditions(first, "Degraded"@, "False"@, "ReconcileSucceeded"@, ""@, now)
        },
    };
    lemma_status_after_set(settled, pm, pf, pr, pmsg, now, "Progressing"@);
    lemma_status_after_set(settled, pm, pf, pr, pmsg, now, "Ready"@);
    lemma_status_after_set(settled, pm, pf, pr, pmsg, now, "Degraded"@);
    if types_unique(cs) {
        lemma_set_condition_keeps_types_unique(settled, pm, pf, pr, pmsg, now);
    }
}

/// A reconciliation that set no `Degraded=True` earlier and left either
/// role (primary or secondary) short of its expected instances ends
/// partial: `Ready=False` and `Degraded=True`, both for reason
/// `PartialReconciliation`, and never `Ready=True`.
pub proof fn lemma_short_role_is_partial(
    cs: Seq<ConditionView>,
    zone_name: Seq<char>,
    primary: ZoneConfigOutcome,
    secondary: ZoneConfigOutcome,
    expected_primary: usize,
    expected_secondary: usize,
    records_count: usize,
    now: Seq<char>,
)
    requires
        primary.instances_configured < expected_primary || secondary.instances_configured < expected_secondary,
    ensures
        ({
            let after = final_conditions(
                cs,
                false,
                zone_name,
                primary,
                secondary,
                expected_primary,
                expected_secondary,
                records_count,
                now,
            );
            &&& status_of(after, "Ready"@) == Some("False"@)
            &&& exists|d: int|
                #[trigger] is_first_of_type(after, "Degraded"@, d) && after[d].status == "True"@
                    && after[d].reason == Some("PartialReconciliation"@)
            &&& exists|r: int|
                #[trigger] is_first_of_type(after, "Ready"@, r) && after[r].reason == Some(
                    "PartialReconciliation"@,
                )
        }),
{
    reveal_strlit("Ready");
    reveal_strlit("Degraded");
    reveal_strlit("Progressing");
    assert("Ready"@.len() == 5);
    assert("Degraded"@.len() == 8);
    assert("Progressing"@.len() == 11);
    let m = partial_message(zone_name, primary, secondary, expected_primary, expected_secondary);
    let pr = "PartialReconciliation"@;
    let first = updated_conditions(cs, "Degraded"@, "True"@, pr, m, now);
    let second = updated_conditions(first, "Ready"@, "False"@, pr, m, now);
    let pm = "Progressing"@;
    let pf = "False"@;
    let prc = "ReconcileComplete"@;
    let pmsg = "Reconciliation attempt finished"@;
    let after = updated_conditions(second, pm, pf, prc, pmsg, now);
    assert(final_conditions(cs, false, zone_name, primary, secondary, expected_primary, expected_secondary, records_count, now) == after);
    lemma_status_after_set(first, "Ready"@, "False"@, pr, m, now, "Ready"@);
    lemma_status_after_set(second, pm, pf, prc, pmsg, now, "Ready"@);
    lemma_set_condition_then_find(cs, "Degraded"@, "True"@, pr, m, now);
    lemma_first_of_type(first, "Degraded"@);
    let d = first_of_type(first, "Degraded"@);
    lemma_set_condition_keeps_first_of_other(first, "Ready"@, "False"@, pr, m, now, "Degraded"@, d);
    lemma_set_condition_keeps_first_of_other(second, pm, pf, prc, pmsg, now, "Degraded"@, d);
    assert(is_first_of_type(after, "Degraded"@, d));
    lemma_set_condition_then_find(first, "Ready"@, "False"@, pr, m, now);
    lemma_first_of_type(second, "Ready"@);
    let r = first_of_type(second, "Ready"@);
    lemma_set_condition_keeps_first_of_other(second, pm, pf, prc, pmsg, now, "Ready"@, r);
    assert(is_first_of_type(after, "Ready"@, r));
}

/// A reconciliation that set no `Degraded=True` earlier and configured at
/// least the expected instances of both roles ends ready: `Ready=True` and
/// `Degraded=False`.
pub proof fn lemma_complete_roles_are_ready(
    cs: Seq<ConditionView>,
    zone_name: Seq<char>,
    primary: ZoneConfigOutcome,
    secondary: ZoneConfigOutcome,
    expected_primary: usize,
    expected_secondary: usize,
    records_count: usize,
    now: Seq<char>,
)
    requires
        primary.instances_configured >= expected_primary,
        secondary.instances_configured >= expected_secondary,
    ensures
        ({
            let after = final_conditions(
                cs,
                false,
                zone_name,
                primary,
                secondary,
                expected_primary,
                expected_secondary,
                records_count,
                now,
            );
            &&& status_of(after, "Ready"@) == Some("True"@)
            &&& status_of(after, "Degraded"@) == Some("False"@)
        }),
{
    reveal_strlit("Ready");
    reveal_strlit("Degraded");
    reveal_strlit("Progressing");
    assert("Ready"@.len() == 5);
    assert("Degraded"@.len() == 8);
    assert("Progressing"@.len() == 11);
    let m = ready_message(zone_name, primary, secondary, records_count);
    let first = updated_conditions(cs, "Ready"@, "True"@, "ReconcileSucceeded"@, m, now);
    let second = updated_conditions(first, "Degraded"@, "False"@, "ReconcileSucceeded"@, ""@, now);
    let pm = "Progressing"@;
    let pf = "False"@;
    let prc = "ReconcileComplete"@;
    let pmsg = "Reconciliation attempt finished"@;
    assert(final_conditions(cs, false, zone_name, primary, secondary, expected_primary, expected_secondary, records_count, now)
        == updated_conditions(second, pm, pf, prc, pmsg, now));
    lemma_status_after_set(cs, "Ready"@, "True"@, "ReconcileSucceeded"@, m, now, "Ready"@);
    lemma_status_after_set(first, "Degraded"@, "False"@, "ReconcileSucceeded"@, ""@, now, "Ready"@);
    lemma_status_after_set(first, "Degraded"@, "False"@, "ReconcileSucceeded"@, ""@, now, "Degraded"@);
    lemma_status_after_set(second, pm, pf, prc, pmsg, now, "Ready"@);
    lemma_status_after_set(second, pm, pf, prc, pmsg, now, "Degraded"@);
}

} // verus!
