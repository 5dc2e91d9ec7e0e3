//! Finalizer bookkeeping: whether a resource carries a finalizer and the
//! guarded JSON Patch operations that add or remove one.

use vstd::prelude::*;
use crate::crd::ObjectMeta;
use crate::text::{concat, str_equal, to_owned_string, u64_to_decimal, decimal};

verus! {

/// A value in a JSON Patch operation.
#[derive(Debug, PartialEq)]
pub enum PatchValue {
    Null,
    Text(String),
    TextList(Vec<String>),
}

/// One JSON Patch (RFC 6902) operation.
#[derive(Debug, PartialEq)]
pub enum PatchOperation {
    /// Fail the whole patch unless the value at `path` equals `value`.
    Test { path: String, value: PatchValue },
    Add { path: String, value: PatchValue },
    Remove { path: String },
}

/// Contents of a patch value.
pub enum PatchValueView {
    Null,
    Text(Seq<char>),
    TextList(Seq<Seq<char>>),
}

/// Contents of a patch operation.
pub enum PatchOperationView {
    Test(Seq<char>, PatchValueView),
    Add(Seq<char>, PatchValueView),
    Remove(Seq<char>),
}

/// The contents of a patch value.
pub open spec fn value_view(v: PatchValue) -> PatchValueView {
    match v {
        PatchValue::Null => PatchValueView::Null,
        PatchValue::Text(t) => PatchValueView::Text(t@),
        PatchValue::TextList(l) => PatchValueView::TextList(l.deep_view()),
    }
}

/// The contents of a patch operation.
pub open spec fn op_view(o: PatchOperation) -> PatchOperationView {
    match o {
        PatchOperation::Test { path, value } => PatchOperationView::Test(path@, value_view(value)),
        PatchOperation::Add { path, value } => PatchOperationView::Add(path@, value_view(value)),
        PatchOperation::Remove { path } => PatchOperationView::Remove(path@),
    }
}

/// The contents of a patch.
pub open spec fn ops_view(ops: Seq<PatchOperation>) -> Seq<PatchOperationView> {
    ops.map_values(|o: PatchOperation| op_view(o))
}

/// Whether `list` holds `f`.
pub open spec fn lists(list: Seq<String>, f: Seq<char>) -> bool {
    exists|i: int| 0 <= i < list.len() && (#[trigger] list[i])@ == f
}

/// The finalizers of a resource, none meaning an empty list.
pub open spec fn finalizers_of(meta: ObjectMeta) -> Seq<String> {
    match meta.finalizers {
        Some(f) => f@,
        None => Seq::empty(),
    }
}

/// Whether the resource carries the finalizer `finalizer`.
pub fn has_finalizer(meta: &ObjectMeta, finalizer: &str) -> (r: bool)
    ensures
        r == lists(finalizers_of(*meta), finalizer@),
{
    match &meta.finalizers {
        None => false,
        Some(list) => {
            for i in 0..list.len()
                invariant
                    meta.finalizers == Some(*list),
                    forall|j: int| 0 <= j < i ==> list@[j]@ != finalizer@,
            {
                if str_equal(list[i].as_str(), finalizer) {
                    return true;
                }
            }
            false
        },
    }
}

/// Why a finalizer cannot be added safely.
#[derive(Debug, PartialEq, Eq, Structural, Clone, Copy)]
pub enum FinalizerError {
    /// The resource has finalizers but no resource version to guard the
    /// append with.
    MissingResourceVersion,
}

/// The patch that adds `f`: to a resource without finalizers, create the
/// list (guarded by its absence); otherwise append (guarded by the
/// resource version, which must be known).
pub open spec fn add_finalizer_ops(
    existing: Seq<String>,
    resource_version: Option<Seq<char>>,
    f: Seq<char>,
) -> Option<Seq<PatchOperationView>> {
    if existing.len() == 0 {
        Some(
            seq![
                PatchOperationView::Test("/metadata/finalizers"@, PatchValueView::Null),
                PatchOperationView::Add("/metadata/finalizers"@, PatchValueView::TextList(seq![f])),
            ],
        )
    } else {
        match resource_version {
            None => None,
            Some(rv) => Some(
                seq![
                    PatchOperationView::Test("/metadata/resourceVersion"@, PatchValueView::Text(rv)),
                    PatchOperationView::Add("/metadata/finalizers/-"@, PatchValueView::Text(f)),
                ],
            ),
        }
    }
}

/// The guarded patch that adds `finalizer` to a resource whose finalizers
/// are `existing_finalizers`.
pub fn build_add_finalizer_patch(
    existing_finalizers: &[String],
    resource_version: Option<&str>,
    finalizer: &str,
) -> (r: Result<Vec<PatchOperation>, FinalizerError>)
    ensures
        match add_finalizer_ops(
            existing_finalizers@,
            match resource_version {
                Some(v) => Some(v@),
                None => None,
            },
            finalizer@,
        ) {
            Some(ops) => r is Ok && ops_view(r->Ok_0@) == ops,
            None => r == Err::<Vec<PatchOperation>, FinalizerError>(
                FinalizerError::MissingResourceVersion,
            ),
        },
{
    let mut ops: Vec<PatchOperation> = Vec::new();
    if existing_finalizers.len() == 0 {
        let mut list: Vec<String> = Vec::new();
        list.push(to_owned_string(finalizer));
        ops.push(PatchOperation::Test { path: to_owned_string("/metadata/finalizers"), value: PatchValue::Null });
        let ghost l = list.deep_view();
        assert(l =~= seq![finalizer@]);
        ops.push(PatchOperation::Add { path: to_owned_string("/metadata/finalizers"), value: PatchValue::TextList(list) });
    } else {
        let rv = match resource_version {
            Some(v) => v,
            None => {
                return Err(FinalizerError::MissingResourceVersion);
            },
        };
        ops.push(PatchOperation::Test {
            path: to_owned_string("/metadata/resourceVersion"),
            value: PatchValue::Text(to_owned_string(rv)),
        });
        ops.push(PatchOperation::Add {
            path: to_owned_string("/metadata/finalizers/-"),
            value: PatchValue::Text(to_owned_string(finalizer)),
        });
    }
    assert(ops_view(ops@) =~= add_finalizer_ops(
        existing_finalizers@,
        match resource_version {
            Some(v) => Some(v@),
            None => None,
        },
        finalizer@,
    )->0);
    Ok(ops)
}

/// Position of the first entry of `list` equal to `f`.
pub open spec fn first_position(list: Seq<String>, f: Seq<char>, i: int) -> bool {
    &&& 0 <= i < list.len()
    &&& list[i]@ == f
    &&& forall|j: int| 0 <= j < i ==> (#[trigger] list[j])@ != f
}

fn finalizer_position(list: &[String], f: &str) -> (r: Option<usize>)
    ensures
        match r {
            Some(i) => first_position(list@, f@, i as int),
            None => !lists(list@, f@),
        },
{
    for i in 0..list.len()
        invariant
            forall|j: int| 0 <= j < i ==> (#[trigger] list@[j])@ != f@,
    {
        if str_equal(list[i].as_str(), f) {
            return Some(i);
        }
    }
    None
}

/// The patch that removes the entry at position `i` holding `f`, guarded
/// by that entry still holding `f`.
pub open spec fn remove_finalizer_ops(i: nat, f: Seq<char>) -> Seq<PatchOperationView> {
    let path = "/metadata/finalizers/"@ + decimal(i);
    seq![
        PatchOperationView::Test(path, PatchValueView::Text(f)),
        PatchOperationView::Remove(path),
    ]
}

/// The guarded patch that removes the first entry `finalizer` from
/// `existing_finalizers`, or `None` when it is absent (nothing to do).
pub fn build_remove_finalizer_patch(existing_finalizers: &[String], finalizer: &str) -> (r: Option<
    Vec<PatchOperation>,
>)
    ensures
        match r {
            None => !lists(existing_finalizers@, finalizer@),
            Some(ops) => exists|i: int|
                first_position(existing_finalizers@, finalizer@, i) && ops_view(ops@)
                    == remove_finalizer_ops(i as nat, finalizer@),
        },
{
    let index = match finalizer_position(existing_finalizers, finalizer) {
        Some(i) => i,
        None => {
            return None;
        },
    };
    let path = concat("/metadata/finalizers/", u64_to_decimal(index as u64).as_str());
    let mut ops: Vec<PatchOperation> = Vec::new();
    ops.push(PatchOperation::Test { path: path.clone(), value: PatchValue::Text(to_owned_string(finalizer)) });
    ops.push(PatchOperation::Remove { path });
    assert(first_position(existing_finalizers@, finalizer@, index as int));
    assert(ops_view(ops@) =~= remove_finalizer_ops(index as nat, finalizer@));
    Some(ops)
}

/// What keeping a finalizer on a resource asks for: nothing when it is
/// already there, else the guarded patch that adds it.
pub fn ensure_finalizer_patch(meta: &ObjectMeta, finalizer: &str) -> (r: Result<
    Option<Vec<PatchOperation>>,
    FinalizerError,
>)
    ensures
        lists(finalizers_of(*meta), finalizer@) ==> r == Ok::<
            Option<Vec<PatchOperation>>,
            FinalizerError,
        >(None),
        !lists(finalizers_of(*meta), finalizer@) ==> match add_finalizer_ops(
            finalizers_of(*meta),
            meta.resource_version.deep_view(),
            finalizer@,
        ) {
            Some(ops) => r is Ok && r->Ok_0 is Some && ops_view(r->Ok_0->0@) == ops,
            None => r == Err::<Option<Vec<PatchOperation>>, FinalizerError>(
                FinalizerError::MissingResourceVersion,
            ),
        },
{
    if has_finalizer(meta, finalizer) {
        return Ok(None);
    }
    let empty: Vec<String> = Vec::new();
    let existing: &Vec<String> = match &meta.finalizers {
        Some(f) => f,
        None => &empty,
    };
    let rv: Option<&str> = match &meta.resource_version {
        Some(v) => Some(v.as_str()),
        None => None,
    };
    match build_add_finalizer_patch(existing.as_slice(), rv, finalizer) {
        Ok(ops) => Ok(Some(ops)),
        Err(e) => Err(e),
    }
}

/// Adding a finalizer that is absent appends it at the end, and the
/// removal patch built afterwards targets exactly that last position: a
/// removal undoes an addition.
pub proof fn lemma_remove_targets_added(existing: Seq<String>, added: String)
    requires
        !lists(existing, added@),
    ensures
        first_position(existing.push(added), added@, existing.len() as int),
        existing.push(added).remove(existing.len() as int) == existing,
{
    let after = existing.push(added);
    assert forall|j: int| 0 <= j < existing.len() implies (#[trigger] after[j])@ != added@ by {
        assert(after[j] == existing[j]);
    }
    assert(after.remove(existing.len() as int) =~= existing);
}

} // verus!
