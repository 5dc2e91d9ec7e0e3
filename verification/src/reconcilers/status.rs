//! Status condition helpers and the in-memory status updater of `DNSZone`s.
//!
//! Conditions follow the Kubernetes convention: a `type`, a `status` of
//! `True`, `False` or `Unknown`, a CamelCase `reason`, a human-readable
//! `message` and the RFC 3339 time of the last status transition.

use vstd::prelude::*;
use crate::crd::{
    copy_conditions, copy_record_refs, instances_with_status_equal, record_refs_equal, Condition,
    ConditionView, DNSZone, DNSZoneStatus, DNSZoneStatusView, InstanceReferenceWithStatus,
    InstanceReferenceWithStatusView, InstanceStatus, RecordReferenceView,
    RecordReferenceWithTimestamp, spec_name_any, spec_namespace_or_default,
};
use crate::text::{copy_opt_string, copy_string, opt_string_equal, str_equal, to_owned_string};

verus! {

// ---------------------------------------------------------------------------
// Specifications
// ---------------------------------------------------------------------------

/// Contents of a list of conditions.
pub open spec fn cviews(s: Seq<Condition>) -> Seq<ConditionView> {
    Seq::new(s.len(), |i: int| s[i]@)
}

/// `i` is the position of the first condition of type `t`.
pub open spec fn is_first_of_type(cs: Seq<ConditionView>, t: Seq<char>, i: int) -> bool {
    &&& 0 <= i < cs.len()
    &&& cs[i].condition_type == t
    &&& forall|j: int| 0 <= j < i ==> #[trigger] cs[j].condition_type != t
}

/// Some condition has type `t`.
pub open spec fn has_type(cs: Seq<ConditionView>, t: Seq<char>) -> bool {
    exists|i: int| 0 <= i < cs.len() && #[trigger] cs[i].condition_type == t
}

/// The position of the first condition of type `t` (meaningful when
/// [`has_type`] holds).
pub open spec fn first_of_type(cs: Seq<ConditionView>, t: Seq<char>) -> int {
    choose|i: int| is_first_of_type(cs, t, i)
}

/// No two conditions share a type.
pub open spec fn types_unique(cs: Seq<ConditionView>) -> bool {
    forall|i: int, j: int|
        0 <= i < cs.len() && 0 <= j < cs.len() && i != j ==> #[trigger] cs[i].condition_type
            != #[trigger] cs[j].condition_type
}

/// A freshly created condition stamped with the time `now`.
pub open spec fn new_condition(
    t: Seq<char>,
    status: Seq<char>,
    reason: Seq<char>,
    message: Seq<char>,
    now: Seq<char>,
) -> ConditionView {
    ConditionView {
        condition_type: t,
        status,
        reason: Some(reason),
        message: Some(message),
        last_transition_time: Some(now),
    }
}

/// The condition `c` after setting status, reason and message at time `now`:
/// its transition time stays when the status does not change and it had
/// one, and becomes `now` otherwise.
pub open spec fn revised_condition(
    c: ConditionView,
    status: Seq<char>,
    reason: Seq<char>,
    message: Seq<char>,
    now: Seq<char>,
) -> ConditionView {
    ConditionView {
        condition_type: c.condition_type,
        status,
        reason: Some(reason),
        message: Some(message),
        last_transition_time: Some(
            if c.status == status {
                match c.last_transition_time {
                    Some(x) => x,
                    None => now,
                }
            } else {
                now
            },
        ),
    }
}

/// The conditions after setting the condition of type `t` at time `now`:
/// the first condition of that type is revised in place, or a new one is
/// appended when there is none.
pub open spec fn updated_conditions(
    cs: Seq<ConditionView>,
    t: Seq<char>,
    status: Seq<char>,
    reason: Seq<char>,
    message: Seq<char>,
    now: Seq<char>,
) -> Seq<ConditionView> {
    if has_type(cs, t) {
        let i = first_of_type(cs, t);
        cs.update(i, revised_condition(cs[i], status, reason, message, now))
    } else {
        cs.push(new_condition(t, status, reason, message, now))
    }
}

/// Whether `new` differs from `existing` in type, status or message.
pub open spec fn spec_condition_changed(existing: Option<ConditionView>, new: ConditionView) -> bool {
    match existing {
        Some(c) => c.condition_type != new.condition_type || c.status != new.status || c.message
            != new.message,
        None => true,
    }
}

/// `n` has a counterpart in `current`: the first condition of its type,
/// with the same status, reason and message.
pub open spec fn matched_in(current: Seq<ConditionView>, n: ConditionView) -> bool {
    has_type(current, n.condition_type) && {
        let c = current[first_of_type(current, n.condition_type)];
        c.status == n.status && c.reason == n.reason && c.message == n.message
    }
}

/// Two condition lists say the same thing, transition times aside: they
/// have the same length and each new condition is matched in the current list.
pub open spec fn spec_conditions_equal(current: Seq<ConditionView>, new: Seq<ConditionView>) -> bool {
    current.len() == new.len() && forall|k: int| 0 <= k < new.len() ==> matched_in(current, #[trigger] new[k])
}

/// The transition time `get_last_transition_time` reports at time `now`.
pub open spec fn spec_last_transition_time(cs: Seq<ConditionView>, t: Seq<char>, now: Seq<char>) -> Seq<char> {
    if has_type(cs, t) {
        match cs[first_of_type(cs, t)].last_transition_time {
            Some(x) => x,
            None => now,
        }
    } else {
        now
    }
}

// ---------------------------------------------------------------------------
// Lemmas
// ---------------------------------------------------------------------------

/// The first position of a type is unique, and exists whenever the type does.
pub proof fn lemma_first_of_type(cs: Seq<ConditionView>, t: Seq<char>)
    ensures
        has_type(cs, t) ==> is_first_of_type(cs, t, first_of_type(cs, t)),
        forall|i: int| #[trigger] is_first_of_type(cs, t, i) ==> i == first_of_type(cs, t),
{
    if has_type(cs, t) {
        let w = choose|i: int| 0 <= i < cs.len() && #[trigger] cs[i].condition_type == t;
        lemma_first_exists_below(cs, t, w);
    }
    assert forall|i: int| #[trigger] is_first_of_type(cs, t, i) implies i == first_of_type(cs, t) by {
        let f = first_of_type(cs, t);
        assert(is_first_of_type(cs, t, f));
        if i < f {
            assert(cs[i].condition_type != t);
        } else if f < i {
            assert(cs[f].condition_type != t);
        }
    }
}

proof fn lemma_first_exists_below(cs: Seq<ConditionView>, t: Seq<char>, w: int)
    requires
        0 <= w < cs.len(),
        cs[w].condition_type == t,
    ensures
        exists|i: int| is_first_of_type(cs, t, i),
    decreases w,
{
    if forall|j: int| 0 <= j < w ==> #[trigger] cs[j].condition_type != t {
        assert(is_first_of_type(cs, t, w));
    } else {
        let j = choose|j: int| 0 <= j < w && #[trigger] cs[j].condition_type == t;
        lemma_first_exists_below(cs, t, j);
    }
}

// ---------------------------------------------------------------------------
// Condition helpers
// ---------------------------------------------------------------------------

/// Create a new condition stamped with the given time.
pub fn create_condition_at(
    condition_type: &str,
    status: &str,
    reason: &str,
    message: &str,
    now: &str,
) -> (r: Condition)
    ensures
        r@ == new_condition(condition_type@, status@, reason@, message@, now@),
{
    Condition {
        condition_type: to_owned_string(condition_type),
        status: to_owned_string(status),
        reason: Some(to_owned_string(reason)),
        message: Some(to_owned_string(message)),
        last_transition_time: Some(to_owned_string(now)),
    }
}

/// Create a new Kubernetes condition stamped with the current time.
pub fn create_condition(condition_type: &str, status: &str, reason: &str, message: &str) -> (r:
    Condition)
    ensures
        exists|now: Seq<char>| r@ == new_condition(condition_type@, status@, reason@, message@, now),
{
    let now = crate::clock::now_rfc3339();
    create_condition_at(condition_type, status, reason, message, now.as_str())
}

/// Check if a condition has changed compared to the existing one: a missing
/// condition, or a different type, status or message, is a change. Reason
/// and transition time take no part.
pub fn condition_changed(existing: &Option<Condition>, new_condition: &Condition) -> (r: bool)
    ensures
        r == spec_condition_changed(existing.deep_view(), new_condition@),
{
    match existing {
        Some(current) => {
            !(current.condition_type == new_condition.condition_type) || !(current.status
                == new_condition.status) || !opt_string_equal(&current.message, &new_condition.message)
        },
        None => true,
    }
}

/// Position of the first condition of the given type, if any.
pub fn find_condition_index(conditions: &[Condition], condition_type: &str) -> (r: Option<usize>)
    ensures
        match r {
            Some(i) => is_first_of_type(cviews(conditions@), condition_type@, i as int),
            None => !has_type(cviews(conditions@), condition_type@),
        },
{
    let ghost cs = cviews(conditions@);
    for i in 0..conditions.len()
        invariant
            cs == cviews(conditions@),
            forall|j: int| 0 <= j < i ==> #[trigger] cs[j].condition_type != condition_type@,
    {
        if str_equal(conditions[i].condition_type.as_str(), condition_type) {
            return Some(i);
        }
    }
    None
}

/// Find the first condition of the given type.
pub fn find_condition<'a>(conditions: &'a [Condition], condition_type: &str) -> (r: Option<
    &'a Condition,
>)
    ensures
        match r {
            Some(c) => has_type(cviews(conditions@), condition_type@) && c@ == cviews(
                conditions@,
            )[first_of_type(cviews(conditions@), condition_type@)],
            None => !has_type(cviews(conditions@), condition_type@),
        },
{
    proof {
        lemma_first_of_type(cviews(conditions@), condition_type@);
    }
    match find_condition_index(conditions, condition_type) {
        Some(i) => Some(&conditions[i]),
        None => None,
    }
}

/// The transition time of the first condition of the given type, or `now`
/// when there is none or it has no transition time.
pub fn get_last_transition_time_at(
    existing_conditions: &[Condition],
    condition_type: &str,
    now: &str,
) -> (r: String)
    ensures
        r@ == spec_last_transition_time(cviews(existing_conditions@), condition_type@, now@),
{
    match find_condition(existing_conditions, condition_type) {
        Some(c) => match &c.last_transition_time {
            Some(x) => copy_string(x),
            None => to_owned_string(now),
        },
        None => to_owned_string(now),
    }
}

/// The transition time of the first condition of the given type, or the
/// current time when there is none or it has no transition time.
pub fn get_last_transition_time(existing_conditions: &[Condition], condition_type: &str) -> (r:
    String)
    ensures
        exists|now: Seq<char>|
            r@ == spec_last_transition_time(cviews(existing_conditions@), condition_type@, now),
{
    let now = crate::clock::now_rfc3339();
    get_last_transition_time_at(existing_conditions, condition_type, now.as_str())
}

/// Update or add a condition at time `now`, in memory.
pub fn update_condition_at(
    conditions: &mut Vec<Condition>,
    condition_type: &str,
    status: &str,
    reason: &str,
    message: &str,
    now: &str,
)
    ensures
        cviews(final(conditions)@) == updated_conditions(
            cviews(old(conditions)@),
            condition_type@,
            status@,
            reason@,
            message@,
            now@,
        ),
{
    proof {
        lemma_first_of_type(cviews(conditions@), condition_type@);
    }
    let ghost before = cviews(conditions@);
    match find_condition_index(conditions.as_slice(), condition_type) {
        Some(i) => {
            let existing = &conditions[i];
            let last_transition_time = if str_equal(existing.status.as_str(), status) {
                match &existing.last_transition_time {
                    Some(x) => copy_string(x),
                    None => to_owned_string(now),
                }
            } else {
                to_owned_string(now)
            };
            let revised = Condition {
                condition_type: copy_string(&existing.condition_type),
                status: to_owned_string(status),
                reason: Some(to_owned_string(reason)),
                message: Some(to_owned_string(message)),
                last_transition_time: Some(last_transition_time),
            };
            conditions.set(i, revised);
            assert(cviews(conditions@) =~= before.update(
                i as int,
                revised_condition(before[i as int], status@, reason@, message@, now@),
            ));
        },
        None => {
            conditions.push(create_condition_at(condition_type, status, reason, message, now));
            assert(cviews(conditions@) =~= before.push(
                new_condition(condition_type@, status@, reason@, message@, now@),
            ));
        },
    }
}

/// Update or add a condition in memory, stamping changed statuses with the
/// current time.
pub fn update_condition_in_memory(
    conditions: &mut Vec<Condition>,
    condition_type: &str,
    status: &str,
    reason: &str,
    message: &str,
)
    ensures
        exists|now: Seq<char>|
            cviews(final(conditions)@) == updated_conditions(
                cviews(old(conditions)@),
                condition_type@,
                status@,
                reason@,
                message@,
                now,
            ),
{
    let now = crate::clock::now_rfc3339();
    update_condition_at(conditions, condition_type, status, reason, message, now.as_str());
}

/// Compare two condition lists, ignoring transition times: same length, and
/// every new condition has a current one of its type with the same status,
/// reason and message.
pub fn conditions_equal(current: &[Condition], new: &[Condition]) -> (r: bool)
    ensures
        r == spec_conditions_equal(cviews(current@), cviews(new@)),
{
    if current.len() != new.len() {
        return false;
    }
    let ghost cur = cviews(current@);
    let ghost nw = cviews(new@);
    proof {
        assert forall|t: Seq<char>| true implies (has_type(cur, t) ==> is_first_of_type(
            cur,
            t,
            first_of_type(cur, t),
        )) by {
            lemma_first_of_type(cur, t);
        }
    }
    for k in 0..new.len()
        invariant
            cur == cviews(current@),
            nw == cviews(new@),
            cur.len() == nw.len(),
            forall|t: Seq<char>|
                has_type(cur, t) ==> is_first_of_type(cur, t, #[trigger] first_of_type(cur, t)),
            forall|j: int| 0 <= j < k ==> matched_in(cur, #[trigger] nw[j]),
    {
        let new_cond = &new[k];
        match find_condition_index(current, new_cond.condition_type.as_str()) {
            None => {
                assert(!matched_in(cur, nw[k as int]));
                return false;
            },
            Some(i) => {
                proof {
                    lemma_first_of_type(cur, nw[k as int].condition_type);
                }
                let curr_cond = &current[i];
                if !(curr_cond.status == new_cond.status) || !opt_string_equal(
                    &curr_cond.reason,
                    &new_cond.reason,
                ) || !opt_string_equal(&curr_cond.message, &new_cond.message) {
                    assert(!matched_in(cur, nw[k as int]));
                    return false;
                }
            },
        }
    }
    true
}

// ---------------------------------------------------------------------------
// Laws of condition updates
// ---------------------------------------------------------------------------

/// After a condition is set, looking it up by its type finds the status,
/// reason and message just set.
pub proof fn lemma_set_condition_then_find(
    cs: Seq<ConditionView>,
    t: Seq<char>,
    status: Seq<char>,
    reason: Seq<char>,
    message: Seq<char>,
    now: Seq<char>,
)
    ensures
        ({
            let after = updated_conditions(cs, t, status, reason, message, now);
            &&& has_type(after, t)
            &&& after[first_of_type(after, t)].status == status
            &&& after[first_of_type(after, t)].reason == Some(reason)
            &&& after[first_of_type(after, t)].message == Some(message)
        }),
{
    lemma_first_of_type(cs, t);
    let after = updated_conditions(cs, t, status, reason, message, now);
    if has_type(cs, t) {
        let i = first_of_type(cs, t);
        assert(is_first_of_type(after, t, i));
        lemma_first_of_type(after, t);
    } else {
        let i = cs.len() as int;
        assert(after[i].condition_type == t);
        assert(is_first_of_type(after, t, i));
        lemma_first_of_type(after, t);
    }
}

/// Setting a condition changes no condition of another type, and keeps the
/// types of all existing conditions in place.
pub proof fn lemma_set_condition_frames_others(
    cs: Seq<ConditionView>,
    t: Seq<char>,
    status: Seq<char>,
    reason: Seq<char>,
    message: Seq<char>,
    now: Seq<char>,
)
    ensures
        ({
            let after = updated_conditions(cs, t, status, reason, message, now);
            &&& after.len() >= cs.len()
            &&& forall|j: int| 0 <= j < cs.len() ==> #[trigger] after[j].condition_type == cs[j].condition_type
            &&& forall|j: int| 0 <= j < cs.len() && cs[j].condition_type != t ==> #[trigger] after[j] == cs[j]
        }),
{
    lemma_first_of_type(cs, t);
}

/// The status of the first condition of type `t`, if there is one.
pub open spec fn status_of(cs: Seq<ConditionView>, t: Seq<char>) -> Option<Seq<char>> {
    if has_type(cs, t) {
        Some(cs[first_of_type(cs, t)].status)
    } else {
        None
    }
}

/// Setting the condition of type `u` gives that type the status set and
/// leaves the status of every other type as it was.
pub proof fn lemma_status_after_set(
    cs: Seq<ConditionView>,
    u: Seq<char>,
    status: Seq<char>,
    reason: Seq<char>,
    message: Seq<char>,
    now: Seq<char>,
    t: Seq<char>,
)
    ensures
        status_of(updated_conditions(cs, u, status, reason, message, now), t) == if t == u {
            Some(status)
        } else {
            status_of(cs, t)
        },
{
    lemma_set_condition_then_find(cs, u, status, reason, message, now);
    if t != u {
        let after = updated_conditions(cs, u, status, reason, message, now);
        lemma_first_of_type(cs, t);
        lemma_first_of_type(cs, u);
        lemma_first_of_type(after, t);
        lemma_set_condition_frames_others(cs, u, status, reason, message, now);
        if has_type(cs, t) {
            let f = first_of_type(cs, t);
            assert(after[f] == cs[f]);
            assert forall|j: int| 0 <= j < f implies #[trigger] after[j].condition_type != t by {
                assert(after[j].condition_type == cs[j].condition_type);
            }
            assert(is_first_of_type(after, t, f));
        } else if has_type(after, t) {
            let w = choose|i: int| 0 <= i < after.len() && #[trigger] after[i].condition_type == t;
            if w < cs.len() {
                assert(after[w].condition_type == cs[w].condition_type);
            } else {
                assert(after[w].condition_type == u);
            }
        }
    }
}

/// Setting conditions keeps their types unique.
pub proof fn lemma_set_condition_keeps_types_unique(
    cs: Seq<ConditionView>,
    t: Seq<char>,
    status: Seq<char>,
    reason: Seq<char>,
    message: Seq<char>,
    now: Seq<char>,
)
    requires
        types_unique(cs),
    ensures
        types_unique(updated_conditions(cs, t, status, reason, message, now)),
{
    lemma_first_of_type(cs, t);
    let after = updated_conditions(cs, t, status, reason, message, now);
    if !has_type(cs, t) {
        assert forall|i: int, j: int|
            0 <= i < after.len() && 0 <= j < after.len() && i != j implies #[trigger] after[i].condition_type
            != #[trigger] after[j].condition_type by {
            if i < cs.len() && j < cs.len() {
            } else if i == cs.len() {
                assert(cs[j].condition_type != t);
            } else {
                assert(cs[i].condition_type != t);
            }
        }
    }
}

/// Setting the same condition again changes nothing, whatever the time:
/// the transition time of an unchanged status is kept.
pub proof fn lemma_set_condition_idempotent(
    cs: Seq<ConditionView>,
    t: Seq<char>,
    status: Seq<char>,
    reason: Seq<char>,
    message: Seq<char>,
    now1: Seq<char>,
    now2: Seq<char>,
)
    ensures
        updated_conditions(
            updated_conditions(cs, t, status, reason, message, now1),
            t,
            status,
            reason,
            message,
            now2,
        ) == updated_conditions(cs, t, status, reason, message, now1),
{
    lemma_first_of_type(cs, t);
    let after = updated_conditions(cs, t, status, reason, message, now1);
    lemma_first_of_type(after, t);
    if has_type(cs, t) {
        let i = first_of_type(cs, t);
        assert(is_first_of_type(after, t, i));
        assert(updated_conditions(after, t, status, reason, message, now2) =~= after);
    } else {
        let i = cs.len() as int;
        assert(after[i].condition_type == t);
        assert(is_first_of_type(after, t, i));
        assert(updated_conditions(after, t, status, reason, message, now2) =~= after);
    }
}

/// Setting a condition of another type leaves the first condition of type
/// `u` where it was, unchanged.
pub proof fn lemma_set_condition_keeps_first_of_other(
    cs: Seq<ConditionView>,
    t: Seq<char>,
    status: Seq<char>,
    reason: Seq<char>,
    message: Seq<char>,
    now: Seq<char>,
    u: Seq<char>,
    d: int,
)
    requires
        u != t,
        is_first_of_type(cs, u, d),
    ensures
        is_first_of_type(updated_conditions(cs, t, status, reason, message, now), u, d),
        updated_conditions(cs, t, status, reason, message, now)[d] == cs[d],
{
    let after = updated_conditions(cs, t, status, reason, message, now);
    lemma_set_condition_frames_others(cs, t, status, reason, message, now);
    assert(after[d] == cs[d]);
    assert forall|j: int| 0 <= j < d implies #[trigger] after[j].condition_type != u by {
        assert(after[j].condition_type == cs[j].condition_type);
    }
}

/// When two condition lists compare equal, they are equally long and every
/// condition of the new list has a counterpart in the current one: the
/// first condition of its type there, with the same status, reason and
/// message. So two lists that differ in the status, reason or message of a
/// condition never compare equal.
pub proof fn lemma_equal_conditions_agree(current: Seq<ConditionView>, new: Seq<ConditionView>, k: int)
    requires
        spec_conditions_equal(current, new),
        0 <= k < new.len(),
    ensures
        current.len() == new.len(),
        exists|i: int|
            #[trigger] is_first_of_type(current, new[k].condition_type, i) && current[i].status
                == new[k].status && current[i].reason == new[k].reason && current[i].message
                == new[k].message,
{
    assert(matched_in(current, new[k]));
    lemma_first_of_type(current, new[k].condition_type);
    let i = first_of_type(current, new[k].condition_type);
    assert(is_first_of_type(current, new[k].condition_type, i));
}

/// Recording a status for an instance leaves exactly that status, the time
/// and the message on the first entry naming the instance (an existing
/// entry as well as a new one), and changes no entry of another instance.
pub proof fn lemma_instance_status_recorded(
    insts: Seq<InstanceReferenceWithStatusView>,
    name: Seq<char>,
    namespace: Seq<char>,
    status: InstanceStatus,
    message: Option<Seq<char>>,
    now: Seq<char>,
)
    ensures
        ({
            let after = updated_instances(insts, name, namespace, status, message, now);
            &&& after.len() >= insts.len()
            &&& exists|i: int|
                0 <= i < after.len() && #[trigger] names_instance(after[i], name, namespace)
                    && after[i].status == status && after[i].last_reconciled_at == Some(now)
                    && after[i].message == message && forall|j: int|
                    0 <= j < i ==> !names_instance(#[trigger] after[j], name, namespace)
            &&& forall|j: int|
                0 <= j < insts.len() && !names_instance(#[trigger] insts[j], name, namespace) ==> after[j]
                    == insts[j]
        }),
{
    let after = updated_instances(insts, name, namespace, status, message, now);
    if exists|i: int| 0 <= i < insts.len() && names_instance(#[trigger] insts[i], name, namespace) {
        let w = choose|i: int| 0 <= i < insts.len() && names_instance(#[trigger] insts[i], name, namespace);
        lemma_first_matching_instance(insts, name, namespace, w);
        let i = choose|i: int|
            0 <= i < insts.len() && names_instance(insts[i], name, namespace) && forall|j: int|
                0 <= j < i ==> !names_instance(#[trigger] insts[j], name, namespace);
        assert(names_instance(after[i], name, namespace));
        assert forall|j: int| 0 <= j < i implies !names_instance(#[trigger] after[j], name, namespace) by {
            assert(after[j] == insts[j]);
        }
    } else {
        let i = insts.len() as int;
        assert(names_instance(after[i], name, namespace));
        assert forall|j: int| 0 <= j < i implies !names_instance(#[trigger] after[j], name, namespace) by {
            assert(after[j] == insts[j]);
        }
    }
}

/// A condition list says the same thing as itself.
pub proof fn lemma_conditions_equal_reflexive(cs: Seq<ConditionView>)
    requires
        types_unique(cs),
    ensures
        spec_conditions_equal(cs, cs),
{
    assert forall|k: int| 0 <= k < cs.len() implies matched_in(cs, #[trigger] cs[k]) by {
        lemma_first_of_type(cs, cs[k].condition_type);
        assert(is_first_of_type(cs, cs[k].condition_type, k));
    }
}


// ---------------------------------------------------------------------------
// DNSZone status updater
// ---------------------------------------------------------------------------

/// Contents of a [`DNSZoneStatusUpdater`].
pub struct DNSZoneStatusUpdaterView {
    pub namespace: Seq<char>,
    pub name: Seq<char>,
    /// The zone's status when the updater was made.
    pub current_status: Option<DNSZoneStatusView>,
    /// The status built up in memory.
    pub new_status: DNSZoneStatusView,
    /// Some setter was called.
    pub has_changes: bool,
    /// `Degraded=True` was set since the updater was made (or last cleared).
    pub degraded_set: bool,
}

/// Collects all status changes of one `DNSZone` reconciliation in memory, so
/// that they can be applied in a single API call.
pub struct DNSZoneStatusUpdater {
    namespace: String,
    name: String,
    current_status: Option<DNSZoneStatus>,
    new_status: DNSZoneStatus,
    has_changes: bool,
    degraded_set_this_reconciliation: bool,
}

impl View for DNSZoneStatusUpdater {
    type V = DNSZoneStatusUpdaterView;

    closed spec fn view(&self) -> DNSZoneStatusUpdaterView {
        DNSZoneStatusUpdaterView {
            namespace: self.namespace@,
            name: self.name@,
            current_status: match self.current_status {
                Some(s) => Some(s@),
                None => None,
            },
            new_status: self.new_status@,
            has_changes: self.has_changes,
            degraded_set: self.degraded_set_this_reconciliation,
        }
    }
}

/// The view of an optional status.
pub open spec fn opt_status_view(s: Option<DNSZoneStatus>) -> Option<DNSZoneStatusView> {
    match s {
        Some(st) => Some(st@),
        None => None,
    }
}

/// A list length as the `i32` the status stores, or `None` when it does not fit.
pub open spec fn count_i32(n: nat) -> Option<i32> {
    if n <= i32::MAX {
        Some(n as i32)
    } else {
        None
    }
}

fn len_to_i32(n: usize) -> (r: Option<i32>)
    ensures
        r == count_i32(n as nat),
{
    if n <= 2147483647usize {
        Some(n as i32)
    } else {
        None
    }
}

/// Contents of a list of record references.
pub open spec fn rviews(s: Seq<RecordReferenceWithTimestamp>) -> Seq<RecordReferenceView> {
    Seq::new(s.len(), |i: int| s[i]@)
}

/// Whether an instance entry names the instance `name` in `namespace`.
pub open spec fn names_instance(i: InstanceReferenceWithStatusView, name: Seq<char>, namespace: Seq<char>) -> bool {
    i.namespace == namespace && i.name == name
}

/// The instance entries after recording `status` for `name`/`namespace` at
/// time `now`: the first matching entry is updated in place, or a new entry
/// is appended.
pub open spec fn updated_instances(
    insts: Seq<InstanceReferenceWithStatusView>,
    name: Seq<char>,
    namespace: Seq<char>,
    status: InstanceStatus,
    message: Option<Seq<char>>,
    now: Seq<char>,
) -> Seq<InstanceReferenceWithStatusView> {
    if exists|i: int| 0 <= i < insts.len() && names_instance(#[trigger] insts[i], name, namespace) {
        let i = choose|i: int|
            0 <= i < insts.len() && names_instance(insts[i], name, namespace) && forall|j: int|
                0 <= j < i ==> !names_instance(#[trigger] insts[j], name, namespace);
        insts.update(
            i,
            InstanceReferenceWithStatusView {
                status,
                last_reconciled_at: Some(now),
                message,
                ..insts[i]
            },
        )
    } else {
        insts.push(
            InstanceReferenceWithStatusView {
                api_version: crate::constants::API_GROUP_VERSION@,
                kind: crate::constants::KIND_BIND9_INSTANCE@,
                name,
                namespace,
                status,
                last_reconciled_at: Some(now),
                message,
            },
        )
    }
}

/// Whether the status built in memory says something new: some setter was
/// called and, if the zone had a status, the records, observed generation,
/// conditions (transition times aside), instances or instance count differ.
pub open spec fn spec_has_changes(u: DNSZoneStatusUpdaterView) -> bool {
    u.has_changes && match u.current_status {
        None => true,
        Some(cur) => cur.records != u.new_status.records || cur.observed_generation
            != u.new_status.observed_generation || !spec_conditions_equal(
            cur.conditions,
            u.new_status.conditions,
        ) || cur.bind9_instances != u.new_status.bind9_instances || cur.bind9_instances_count
            != u.new_status.bind9_instances_count,
    }
}

/// The entries that do not name `name` in `namespace`.
pub open spec fn not_named(name: Seq<char>, namespace: Seq<char>) -> spec_fn(InstanceReferenceWithStatusView) -> bool {
    |i: InstanceReferenceWithStatusView| !names_instance(i, name, namespace)
}

/// The updater after removing every entry for the instance `name` in
/// `namespace`: unchanged when there is none; otherwise the count follows
/// the list and the status is marked changed.
pub open spec fn with_instance_removed(
    u: DNSZoneStatusUpdaterView,
    name: Seq<char>,
    namespace: Seq<char>,
) -> DNSZoneStatusUpdaterView {
    let kept = u.new_status.bind9_instances.filter(not_named(name, namespace));
    if kept.len() == u.new_status.bind9_instances.len() {
        u
    } else {
        DNSZoneStatusUpdaterView {
            new_status: DNSZoneStatusView {
                bind9_instances: kept,
                bind9_instances_count: count_i32(kept.len()),
                ..u.new_status
            },
            has_changes: true,
            ..u
        }
    }
}

/// Position of the first instance entry naming `name` in `namespace`.
fn find_instance_index(insts: &Vec<InstanceReferenceWithStatus>, name: &str, namespace: &str) -> (r:
    Option<usize>)
    ensures
        match r {
            Some(i) => i < insts.len() && names_instance(insts.deep_view()[i as int], name@, namespace@)
                && forall|j: int| 0 <= j < i ==> !names_instance(#[trigger] insts.deep_view()[j], name@, namespace@),
            None => forall|j: int| 0 <= j < insts.len() ==> !names_instance(#[trigger] insts.deep_view()[j], name@, namespace@),
        },
{
    for i in 0..insts.len()
        invariant
            forall|j: int| 0 <= j < i ==> !names_instance(#[trigger] insts.deep_view()[j], name@, namespace@),
    {
        if str_equal(insts[i].namespace.as_str(), namespace) && str_equal(insts[i].name.as_str(), name) {
            return Some(i);
        }
    }
    None
}

proof fn lemma_first_matching_instance(
    insts: Seq<InstanceReferenceWithStatusView>,
    name: Seq<char>,
    namespace: Seq<char>,
    w: int,
)
    requires
        0 <= w < insts.len(),
        names_instance(insts[w], name, namespace),
    ensures
        exists|i: int|
            0 <= i < insts.len() && names_instance(insts[i], name, namespace) && forall|j: int|
                0 <= j < i ==> !names_instance(#[trigger] insts[j], name, namespace),
    decreases w,
{
    if forall|j: int| 0 <= j < w ==> !names_instance(#[trigger] insts[j], name, namespace) {
    } else {
        let j = choose|j: int| 0 <= j < w && names_instance(#[trigger] insts[j], name, namespace);
        lemma_first_matching_instance(insts, name, namespace, j);
    }
}

impl DNSZoneStatusUpdater {
    /// Create a status updater for a `DNSZone`, starting from its current
    /// status (or an empty one).
    pub fn new(dnszone: &DNSZone) -> (r: Self)
        ensures
            r@.namespace == spec_namespace_or_default(dnszone.metadata),
            r@.name == spec_name_any(dnszone.metadata),
            r@.current_status == opt_status_view(dnszone.status),
            r@.new_status == match dnszone.status {
                Some(s) => s@,
                None => DNSZoneStatus::empty_view(),
            },
            !r@.has_changes,
            !r@.degraded_set,
    {
        let current_status = match &dnszone.status {
            Some(s) => Some(s.clone()),
            None => None,
        };
        let new_status = match &dnszone.status {
            Some(s) => s.clone(),
            None => DNSZoneStatus::default(),
        };
        DNSZoneStatusUpdater {
            namespace: dnszone.metadata.namespace_or_default(),
            name: dnszone.metadata.name_any(),
            current_status,
            new_status,
            has_changes: false,
            degraded_set_this_reconciliation: false,
        }
    }

    /// Update or add a condition at time `now` (in memory only).
    pub fn set_condition_at(
        &mut self,
        condition_type: &str,
        status: &str,
        reason: &str,
        message: &str,
        now: &str,
    )
        ensures
            final(self)@ == (DNSZoneStatusUpdaterView {
                new_status: DNSZoneStatusView {
                    conditions: updated_conditions(
                        old(self)@.new_status.conditions,
                        condition_type@,
                        status@,
                        reason@,
                        message@,
                        now@,
                    ),
                    ..old(self)@.new_status
                },
                has_changes: true,
                degraded_set: degraded_step(
                    old(self)@.degraded_set,
                    UpdaterCall::SetCondition(condition_type@, status@),
                ),
                ..old(self)@
            }),
    {
        if str_equal(condition_type, "Degraded") && str_equal(status, "True") {
            self.degraded_set_this_reconciliation = true;
        }
        proof {
            assert(self.new_status.conditions.deep_view() =~= cviews(self.new_status.conditions@));
        }
        update_condition_at(
            &mut self.new_status.conditions,
            condition_type,
            status,
            reason,
            message,
            now,
        );
        proof {
            assert(self.new_status.conditions.deep_view() =~= cviews(self.new_status.conditions@));
        }
        self.has_changes = true;
    }

    /// Update or add a condition (in memory only), stamping a changed status
    /// with the current time.
    pub fn set_condition(&mut self, condition_type: &str, status: &str, reason: &str, message: &str)
        ensures
            exists|now: Seq<char>|
                final(self)@ == (DNSZoneStatusUpdaterView {
                    new_status: DNSZoneStatusView {
                        conditions: #[trigger] updated_conditions(
                            old(self)@.new_status.conditions,
                            condition_type@,
                            status@,
                            reason@,
                            message@,
                            now,
                        ),
                        ..old(self)@.new_status
                    },
                    has_changes: true,
                    degraded_set: degraded_step(
                        old(self)@.degraded_set,
                        UpdaterCall::SetCondition(condition_type@, status@),
                    ),
                    ..old(self)@
                }),
    {
        let now = crate::clock::now_rfc3339();
        self.set_condition_at(condition_type, status, reason, message, now.as_str());
    }

    /// Set the discovered DNS records and their count (in memory only).
    pub fn set_records(&mut self, records: &[RecordReferenceWithTimestamp])
        ensures
            final(self)@ == (DNSZoneStatusUpdaterView {
                new_status: DNSZoneStatusView {
                    records: rviews(records@),
                    records_count: match count_i32(records@.len()) {
                        Some(c) => c,
                        None => 0,
                    },
                    ..old(self)@.new_status
                },
                has_changes: true,
                ..old(self)@
            }),
    {
        let mut copy: Vec<RecordReferenceWithTimestamp> = Vec::new();
        for i in 0..records.len()
            invariant
                copy.len() == i,
                i <= records.len(),
                forall|j: int| 0 <= j < i ==> #[trigger] copy@[j]@ == records@[j]@,
        {
            copy.push(records[i].clone());
        }
        assert(copy.deep_view() =~= rviews(records@));
        self.new_status.records = copy;
        self.new_status.records_count = match len_to_i32(records.len()) {
            Some(c) => c,
            None => 0,
        };
        self.has_changes = true;
    }

    /// Set the observed generation (in memory only).
    pub fn set_observed_generation(&mut self, generation: Option<i64>)
        ensures
            final(self)@ == (DNSZoneStatusUpdaterView {
                new_status: DNSZoneStatusView {
                    observed_generation: generation,
                    ..old(self)@.new_status
                },
                has_changes: true,
                ..old(self)@
            }),
    {
        self.new_status.observed_generation = generation;
        self.has_changes = true;
    }

    /// Record the zone's progress on an instance at time `now` (in memory
    /// only): the first entry naming the instance is updated, or a new one
    /// is appended; the instance count follows the list.
    pub fn update_instance_status_at(
        &mut self,
        name: &str,
        namespace: &str,
        status: InstanceStatus,
        message: Option<String>,
        now: &str,
    )
        ensures
            ({
                let insts = updated_instances(
                    old(self)@.new_status.bind9_instances,
                    name@,
                    namespace@,
                    status,
                    message.deep_view(),
                    now@,
                );
                final(self)@ == (DNSZoneStatusUpdaterView {
                    new_status: DNSZoneStatusView {
                        bind9_instances: insts,
                        bind9_instances_count: count_i32(insts.len()),
                        ..old(self)@.new_status
                    },
                    has_changes: true,
                    ..old(self)@
                })
            }),
    {
        let ghost before = self.new_status.bind9_instances.deep_view();
        let ghost msg = message.deep_view();
        let found = find_instance_index(&self.new_status.bind9_instances, name, namespace);
        match found {
            Some(i) => {
                proof {
                    lemma_first_matching_instance(before, name@, namespace@, i as int);
                    let k = choose|k: int|
                        0 <= k < before.len() && names_instance(before[k], name@, namespace@)
                            && forall|j: int|
                            0 <= j < k ==> !names_instance(#[trigger] before[j], name@, namespace@);
                    if k < i {
                    } else if i < k {
                        assert(!names_instance(before[i as int], name@, namespace@));
                    }
                }
                let old_entry = &self.new_status.bind9_instances[i];
                let entry = InstanceReferenceWithStatus {
                    api_version: copy_string(&old_entry.api_version),
                    kind: copy_string(&old_entry.kind),
                    name: copy_string(&old_entry.name),
                    namespace: copy_string(&old_entry.namespace),
                    status,
                    last_reconciled_at: Some(to_owned_string(now)),
                    message,
                };
                self.new_status.bind9_instances.set(i, entry);
            },
            None => {
                let entry = InstanceReferenceWithStatus {
                    api_version: to_owned_string(crate::constants::API_GROUP_VERSION),
                    kind: to_owned_string(crate::constants::KIND_BIND9_INSTANCE),
                    name: to_owned_string(name),
                    namespace: to_owned_string(namespace),
                    status,
                    last_reconciled_at: Some(to_owned_string(now)),
                    message,
                };
                self.new_status.bind9_instances.push(entry);
            },
        }
        let ghost after = updated_instances(before, name@, namespace@, status, msg, now@);
        assert(self.new_status.bind9_instances.deep_view() =~= after);
        self.new_status.bind9_instances_count = len_to_i32(self.new_status.bind9_instances.len());
        self.has_changes = true;
    }

    /// Record the zone's progress on an instance (in memory only), stamped
    /// with the current time.
    pub fn update_instance_status(
        &mut self,
        name: &str,
        namespace: &str,
        status: InstanceStatus,
        message: Option<String>,
    )
        ensures
            exists|now: Seq<char>|
                {
                    let insts = #[trigger] updated_instances(
                        old(self)@.new_status.bind9_instances,
                        name@,
                        namespace@,
                        status,
                        message.deep_view(),
                        now,
                    );
                    final(self)@ == (DNSZoneStatusUpdaterView {
                        new_status: DNSZoneStatusView {
                            bind9_instances: insts,
                            bind9_instances_count: count_i32(insts.len()),
                            ..old(self)@.new_status
                        },
                        has_changes: true,
                        ..old(self)@
                    })
                },
    {
        let now = crate::clock::now_rfc3339();
        self.update_instance_status_at(name, namespace, status, message, now.as_str());
    }

    /// Remove an instance from the instance list (in memory only). When an
    /// entry went away, the instance count follows and the status is marked
    /// changed; otherwise nothing changes.
    pub fn remove_instance(&mut self, name: &str, namespace: &str)
        ensures
            final(self)@ == with_instance_removed(old(self)@, name@, namespace@),
    {
        let ghost before = self.new_status.bind9_instances.deep_view();
        let ghost pred = not_named(name@, namespace@);
        let initial_len = self.new_status.bind9_instances.len();
        let mut kept: Vec<InstanceReferenceWithStatus> = Vec::new();
        assert(before.take(0).filter(pred) =~= Seq::<InstanceReferenceWithStatusView>::empty());
        for i in 0..initial_len
            invariant
                initial_len == self.new_status.bind9_instances.len(),
                before == self.new_status.bind9_instances.deep_view(),
                pred == not_named(name@, namespace@),
                kept.deep_view() == before.take(i as int).filter(pred),
        {
            let inst = &self.new_status.bind9_instances[i];
            assert(before[i as int] == inst@);
            assert(before.take(i + 1).drop_last() =~= before.take(i as int));
            reveal_with_fuel(Seq::<InstanceReferenceWithStatusView>::filter, 1);
            if !(str_equal(inst.namespace.as_str(), namespace) && str_equal(inst.name.as_str(), name)) {
                kept.push(inst.clone());
                assert(kept.deep_view() =~= before.take(i as int).filter(pred).push(before[i as int]));
            } else {
                assert(!pred(before[i as int]));
            }
        }
        assert(before.take(initial_len as int) =~= before);
        if kept.len() != initial_len {
            self.new_status.bind9_instances = kept;
            self.new_status.bind9_instances_count = len_to_i32(self.new_status.bind9_instances.len());
            self.has_changes = true;
        }
    }

    /// Whether the status built in memory differs from the zone's status
    /// in a way that warrants an API update.
    pub fn has_changes(&self) -> (r: bool)
        ensures
            r == spec_has_changes(self@),
    {
        if !self.has_changes {
            return false;
        }
        match &self.current_status {
            None => true,
            Some(current) => {
                proof {
                    assert(current.conditions.deep_view() =~= cviews(current.conditions@));
                    assert(self.new_status.conditions.deep_view() =~= cviews(
                        self.new_status.conditions@,
                    ));
                }
                !record_refs_equal(&current.records, &self.new_status.records)
                    || current.observed_generation != self.new_status.observed_generation
                    || !conditions_equal(
                    current.conditions.as_slice(),
                    self.new_status.conditions.as_slice(),
                ) || !instances_with_status_equal(
                    &current.bind9_instances,
                    &self.new_status.bind9_instances,
                ) || current.bind9_instances_count != self.new_status.bind9_instances_count
            },
        }
    }

    /// Whether `Degraded=True` was set during this reconciliation.
    pub fn has_degraded_condition(&self) -> (r: bool)
        ensures
            r == self@.degraded_set,
    {
        self.degraded_set_this_reconciliation
    }

    /// Set `Degraded=False` with reason `ReconcileSucceeded` and an empty
    /// message at time `now`, and forget any `Degraded=True` set earlier.
    pub fn clear_degraded_condition_at(&mut self, now: &str)
        ensures
            final(self)@ == (DNSZoneStatusUpdaterView {
                new_status: DNSZoneStatusView {
                    conditions: updated_conditions(
                        old(self)@.new_status.conditions,
                        "Degraded"@,
                        "False"@,
                        "ReconcileSucceeded"@,
                        ""@,
                        now@,
                    ),
                    ..old(self)@.new_status
                },
                has_changes: true,
                degraded_set: degraded_step(old(self)@.degraded_set, UpdaterCall::ClearDegraded),
                ..old(self)@
            }),
    {
        self.set_condition_at("Degraded", "False", "ReconcileSucceeded", "", now);
        self.degraded_set_this_reconciliation = false;
    }

    /// Set `Degraded=False` (reason `ReconcileSucceeded`, empty message) and
    /// forget any `Degraded=True` set earlier.
    pub fn clear_degraded_condition(&mut self)
        ensures
            exists|now: Seq<char>|
                final(self)@ == (DNSZoneStatusUpdaterView {
                    new_status: DNSZoneStatusView {
                        conditions: #[trigger] updated_conditions(
                            old(self)@.new_status.conditions,
                            "Degraded"@,
                            "False"@,
                            "ReconcileSucceeded"@,
                            ""@,
                            now,
                        ),
                        ..old(self)@.new_status
                    },
                    has_changes: true,
                    degraded_set: degraded_step(old(self)@.degraded_set, UpdaterCall::ClearDegraded),
                    ..old(self)@
                }),
    {
        let now = crate::clock::now_rfc3339();
        self.clear_degraded_condition_at(now.as_str());
    }

    /// The conditions of the status built in memory.
    pub fn conditions(&self) -> (r: &Vec<Condition>)
        ensures
            r.deep_view() == self@.new_status.conditions,
    {
        &self.new_status.conditions
    }

    /// The status built in memory.
    pub fn new_status(&self) -> (r: &DNSZoneStatus)
        ensures
            r@ == self@.new_status,
    {
        &self.new_status
    }

    /// Namespace of the zone.
    pub fn namespace(&self) -> (r: &String)
        ensures
            r@ == self@.namespace,
    {
        &self.namespace
    }

    /// Name of the zone.
    pub fn name(&self) -> (r: &String)
        ensures
            r@ == self@.name,
    {
        &self.name
    }
}

/// A call that changes a zone status updater, as far as its `Degraded`
/// flag ([`DNSZoneStatusUpdater::has_degraded_condition`]) is concerned.
pub enum UpdaterCall {
    /// `set_condition` or `set_condition_at` with this condition type and
    /// status.
    SetCondition(Seq<char>, Seq<char>),
    /// `clear_degraded_condition` or `clear_degraded_condition_at`.
    ClearDegraded,
    /// Any other setter (records, observed generation, instances).
    Other,
}

/// The flag after one call, as the setters' contracts give it.
pub open spec fn degraded_step(flag: bool, call: UpdaterCall) -> bool {
    match call {
        UpdaterCall::SetCondition(t, st) => flag || (t == "Degraded"@ && st == "True"@),
        UpdaterCall::ClearDegraded => false,
        UpdaterCall::Other => flag,
    }
}

/// The flag of an updater made by `new` (which starts it unset) after
/// `calls`, in order.
pub open spec fn degraded_after(calls: Seq<UpdaterCall>) -> bool
    decreases calls.len(),
{
    if calls.len() == 0 {
        false
    } else {
        degraded_step(degraded_after(calls.drop_last()), calls.last())
    }
}

/// The call sets `Degraded=True`.
pub open spec fn sets_degraded(call: UpdaterCall) -> bool {
    call matches UpdaterCall::SetCondition(t, st) && t == "Degraded"@ && st == "True"@
}

/// Whether `Degraded=True` was set at position `i` of `calls` and not
/// cleared after it.
pub open spec fn degraded_set_and_kept(calls: Seq<UpdaterCall>, i: int) -> bool {
    &&& 0 <= i < calls.len()
    &&& sets_degraded(calls[i])
    &&& forall|j: int| i < j < calls.len() ==> !(#[trigger] calls[j] is ClearDegraded)
}

/// An updater's `Degraded` flag, over any sequence of calls after `new`,
/// is set exactly when some call set `Degraded=True` and no
/// `clear_degraded_condition` came after it; a `Degraded=True` inherited
/// from the zone's stored status does not count.
pub proof fn lemma_degraded_flag(calls: Seq<UpdaterCall>)
    ensures
        degraded_after(calls) <==> exists|i: int| #[trigger] degraded_set_and_kept(calls, i),
    decreases calls.len(),
{
    if calls.len() > 0 {
        let prev = calls.drop_last();
        let n = calls.len() - 1;
        lemma_degraded_flag(prev);
        match calls.last() {
            UpdaterCall::ClearDegraded => {
                if exists|i: int| #[trigger] degraded_set_and_kept(calls, i) {
                    let i = choose|i: int| #[trigger] degraded_set_and_kept(calls, i);
                    if i < n {
                        assert(calls[n] is ClearDegraded);
                    }
                }
            },
            _ => {
                if sets_degraded(calls.last()) {
                    assert(degraded_set_and_kept(calls, n));
                } else {
                    if degraded_after(prev) {
                        let i = choose|i: int| #[trigger] degraded_set_and_kept(prev, i);
                        assert(degraded_set_and_kept(calls, i)) by {
                            assert forall|j: int| i < j < calls.len() implies !(#[trigger] calls[j] is ClearDegraded) by {
                                if j < n {
                                    assert(calls[j] == prev[j]);
                                }
                            }
                        }
                    }
                    if exists|i: int| #[trigger] degraded_set_and_kept(calls, i) {
                        let i = choose|i: int| #[trigger] degraded_set_and_kept(calls, i);
                        assert(i != n);
                        assert(degraded_set_and_kept(prev, i)) by {
                            assert(prev[i] == calls[i]);
                            assert forall|j: int| i < j < prev.len() implies !(#[trigger] prev[j] is ClearDegraded) by {
                                assert(prev[j] == calls[j]);
                            }
                        }
                    }
                }
            },
        }
    }
}

/// Setting a condition through the updater and then reading the updater's
/// conditions finds the status, reason and message set.
pub proof fn lemma_updater_set_condition_visible(
    u: DNSZoneStatusUpdaterView,
    t: Seq<char>,
    status: Seq<char>,
    reason: Seq<char>,
    message: Seq<char>,
    now: Seq<char>,
)
    ensures
        ({
            let cs = updated_conditions(u.new_status.conditions, t, status, reason, message, now);
            &&& has_type(cs, t)
            &&& cs[first_of_type(cs, t)].status == status
            &&& cs[first_of_type(cs, t)].reason == Some(reason)
            &&& cs[first_of_type(cs, t)].message == Some(message)
        }),
{
    lemma_set_condition_then_find(u.new_status.conditions, t, status, reason, message, now);
}

} // verus!
