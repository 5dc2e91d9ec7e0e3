//! Dropping instances and records that no longer exist from a zone's
//! status.

use vstd::prelude::*;
use crate::crd::{RecordReferenceView, RecordReferenceWithTimestamp};
use crate::reconcilers::status::{
    DNSZoneStatusUpdater, DNSZoneStatusUpdaterView, count_i32, rviews, with_instance_removed,
};
use crate::crd::DNSZoneStatusView;
use crate::reconcilers::retry::KubeErrorKind;

verus! {

/// The updater after removing, in order, each instance of `checked`
/// (`(name, namespace, exists)`) that no longer exists.
pub open spec fn without_missing(
    u: DNSZoneStatusUpdaterView,
    checked: Seq<(String, String, bool)>,
) -> DNSZoneStatusUpdaterView
    decreases checked.len(),
{
    if checked.len() == 0 {
        u
    } else {
        let before = without_missing(u, checked.drop_last());
        let c = checked.last();
        if c.2 {
            before
        } else {
            with_instance_removed(before, c.0@, c.1@)
        }
    }
}

/// How many of the checked entries no longer exist.
pub open spec fn missing_count(checked: Seq<(String, String, bool)>) -> nat
    decreases checked.len(),
{
    if checked.len() == 0 {
        0
    } else {
        missing_count(checked.drop_last()) + if checked.last().2 { 0nat } else { 1nat }
    }
}

proof fn lemma_missing_count_bound(checked: Seq<(String, String, bool)>)
    ensures
        missing_count(checked) <= checked.len(),
    decreases checked.len(),
{
    if checked.len() > 0 {
        lemma_missing_count_bound(checked.drop_last());
    }
}

/// Remove from the zone's status the instances that no longer exist. Each
/// entry of `checked` is an instance as `(name, namespace, exists)`.
/// Returns how many entries were found missing; each of them is removed
/// from the status where the status lists it.
pub fn cleanup_deleted_instances(
    status_updater: &mut DNSZoneStatusUpdater,
    checked: &[(String, String, bool)],
) -> (r: usize)
    ensures
        r == missing_count(checked@),
        final(status_updater)@ == without_missing(old(status_updater)@, checked@),
{
    let ghost start = status_updater@;
    let mut removed: usize = 0;
    for k in 0..checked.len()
        invariant
            removed == missing_count(checked@.take(k as int)),
            status_updater@ == without_missing(start, checked@.take(k as int)),
    {
        assert(checked@.take(k + 1).drop_last() =~= checked@.take(k as int));
        assert(checked@.take(k + 1).last() == checked@[k as int]);
        proof {
            lemma_missing_count_bound(checked@.take(k as int));
        }
        let (name, namespace, exists) = &checked[k];
        if !*exists {
            status_updater.remove_instance(name.as_str(), namespace.as_str());
            removed = removed + 1;
        }
    }
    assert(checked@.take(checked.len() as int) =~= checked@);
    removed
}

/// Whether a resource exists, from the outcome of reading it from the API:
/// it exists when the read succeeded and is gone when the API answered
/// 404; any other failure (rate limiting, a server error, a broken
/// connection) says nothing about existence and is handed back.
pub fn existence_from_get_result<T>(result: Result<T, KubeErrorKind>) -> (r: Result<bool, KubeErrorKind>)
    ensures
        r == match result {
            Ok(_) => Ok(true),
            Err(e) => if e == KubeErrorKind::Api(404) {
                Ok(false)
            } else {
                Err(e)
            },
        },
{
    match result {
        Ok(_) => Ok(true),
        Err(KubeErrorKind::Api(code)) => {
            if code == 404 {
                Ok(false)
            } else {
                Err(KubeErrorKind::Api(code))
            }
        },
        Err(e) => Err(e),
    }
}

/// The first failed lookup among `checked`, if any.
pub open spec fn first_lookup_error(checked: Seq<(RecordReferenceWithTimestamp, Result<bool, KubeErrorKind>)>) -> Option<KubeErrorKind>
    decreases checked.len(),
{
    if checked.len() == 0 {
        None
    } else {
        match checked[0].1 {
            Err(e) => Some(e),
            Ok(_) => first_lookup_error(checked.drop_first()),
        }
    }
}

/// The records of `checked` (each with the outcome of looking it up) that
/// still exist, in order.
pub open spec fn existing_records(checked: Seq<(RecordReferenceWithTimestamp, Result<bool, KubeErrorKind>)>) -> Seq<RecordReferenceView>
    decreases checked.len(),
{
    if checked.len() == 0 {
        Seq::empty()
    } else {
        let rest = existing_records(checked.drop_last());
        if checked.last().1 == Ok::<bool, KubeErrorKind>(true) {
            rest.push(checked.last().0@)
        } else {
            rest
        }
    }
}

/// The records of `checked` that no longer exist and carry a DNS name:
/// those whose data the primaries may still serve.
pub open spec fn heal_targets(checked: Seq<(RecordReferenceWithTimestamp, Result<bool, KubeErrorKind>)>) -> Seq<RecordReferenceView>
    decreases checked.len(),
{
    if checked.len() == 0 {
        Seq::empty()
    } else {
        let rest = heal_targets(checked.drop_last());
        if checked.last().1 == Ok::<bool, KubeErrorKind>(false) && checked.last().0.record_name is Some {
            rest.push(checked.last().0@)
        } else {
            rest
        }
    }
}

/// Remove from the zone's status the records that no longer exist. Each
/// entry of `checked` is a record of the status with the outcome of looking
/// it up (see [`existence_from_get_result`]).
///
/// When some lookup failed, the first failure is returned and nothing
/// changes: a record that could not be read is never taken for deleted.
/// Otherwise returns the number removed and the removed records that carry
/// a DNS name, whose data may still need deleting from the primaries; the
/// status changes only when some record was removed.
pub fn cleanup_stale_records(
    status_updater: &mut DNSZoneStatusUpdater,
    checked: &[(RecordReferenceWithTimestamp, Result<bool, KubeErrorKind>)],
) -> (r: Result<(usize, Vec<RecordReferenceWithTimestamp>), KubeErrorKind>)
    ensures
        match first_lookup_error(checked@) {
            Some(e) => r == Err::<(usize, Vec<RecordReferenceWithTimestamp>), KubeErrorKind>(e)
                && final(status_updater)@ == old(status_updater)@,
            None => r is Ok && ({
                let (removed, heal) = r->Ok_0;
                &&& removed == checked@.len() - existing_records(checked@).len()
                &&& heal.deep_view() == heal_targets(checked@)
                &&& removed == 0 ==> final(status_updater)@ == old(status_updater)@
                &&& removed > 0 ==> final(status_updater)@ == (DNSZoneStatusUpdaterView {
                    new_status: DNSZoneStatusView {
                        records: existing_records(checked@),
                        records_count: match count_i32(existing_records(checked@).len()) {
                            Some(c) => c,
                            None => 0,
                        },
                        ..old(status_updater)@.new_status
                    },
                    has_changes: true,
                    ..old(status_updater)@
                })
            }),
        },
{
    assert(checked@.skip(0) =~= checked@);
    for k in 0..checked.len()
        invariant
            first_lookup_error(checked@) == first_lookup_error(checked@.skip(k as int)),
    {
        assert(checked@.skip(k as int)[0] == checked@[k as int]);
        assert(checked@.skip(k as int).drop_first() =~= checked@.skip(k + 1));
        match &checked[k].1 {
            Err(e) => {
                return Err(*e);
            },
            Ok(_) => {},
        }
    }
    assert(checked@.skip(checked.len() as int).len() == 0);
    let mut keep: Vec<RecordReferenceWithTimestamp> = Vec::new();
    let mut heal: Vec<RecordReferenceWithTimestamp> = Vec::new();
    let mut stale: usize = 0;
    for k in 0..checked.len()
        invariant
            keep.deep_view() == existing_records(checked@.take(k as int)),
            heal.deep_view() == heal_targets(checked@.take(k as int)),
            stale + keep.len() == k,
    {
        assert(checked@.take(k + 1).drop_last() =~= checked@.take(k as int));
        assert(checked@.take(k + 1).last() == checked@[k as int]);
        let (record, outcome) = &checked[k];
        match outcome {
            Ok(true) => {
                let ghost before = keep.deep_view();
                keep.push(record.clone());
                assert(keep.deep_view() =~= before.push(record@));
            },
            _ => {
                let gone = match outcome {
                    Ok(false) => true,
                    _ => false,
                };
                if gone && record.record_name.is_some() {
                    let ghost before = heal.deep_view();
                    heal.push(record.clone());
                    assert(heal.deep_view() =~= before.push(record@));
                }
                stale = stale + 1;
            },
        }
    }
    assert(checked@.take(checked.len() as int) =~= checked@);
    assert(keep.deep_view().len() == keep@.len());
    if stale > 0 {
        status_updater.set_records(keep.as_slice());
        assert(rviews(keep@) =~= keep.deep_view());
    }
    Ok((stale, heal))
}

/// What to do on one primary endpoint for a record that no longer exists.
#[derive(Debug, PartialEq, Eq, Structural, Clone, Copy)]
pub enum HealAction {
    /// The endpoint still serves the record: delete it.
    Delete,
    /// The endpoint serves the record but no RNDC key is at hand to delete it.
    NoKey,
    /// Nothing to do: the record is gone, or the query failed.
    Nothing,
}

/// The action for one endpoint, from the number of answers a DNS query for
/// the record got there (`None` when the query failed) and whether an RNDC
/// key is at hand.
pub fn self_heal_action(answers: Option<usize>, has_key: bool) -> (r: HealAction)
    ensures
        r == match answers {
            Some(n) => if n > 0 {
                if has_key { HealAction::Delete } else { HealAction::NoKey }
            } else {
                HealAction::Nothing
            },
            None => HealAction::Nothing,
        },
{
    match answers {
        Some(n) => {
            if n > 0 {
                if has_key {
                    HealAction::Delete
                } else {
                    HealAction::NoKey
                }
            } else {
                HealAction::Nothing
            }
        },
        None => HealAction::Nothing,
    }
}

} // verus!
