//! Names by which stored data refers to other stored data.
use vstd::prelude::*;

use crate::data::Data;
use crate::error::{fail, ContractError, ErrorCode};
#[allow(unused_imports)]
use crate::error::{failure, fault, Fault};
use crate::serialization::{Id, JsonDigest};

verus! {

/// An identity pinned to an exact version.
#[derive(Debug)]
pub struct VersionedRef {
    pub id: Id,
    pub version: Id,
}

#[verifier::ext_equal]
pub struct VersionedRefView {
    pub id: Seq<char>,
    pub version: Seq<char>,
}

impl View for VersionedRef {
    type V = VersionedRefView;

    open spec fn view(&self) -> VersionedRefView {
        VersionedRefView {
            id: self.id.deep_view(),
            version: self.version.deep_view(),
        }
    }
}

impl DeepView for VersionedRef {
    type V = VersionedRefView;

    open spec fn deep_view(&self) -> VersionedRefView {
        self@
    }
}

impl Data for VersionedRef {
    fn same(&self, other: &Self) -> (r: bool) {
        self.id.same(&other.id)
            && self.version.same(&other.version)
    }

    fn copy(&self) -> (r: Self) {
        VersionedRef {
            id: self.id.copy(),
            version: self.version.copy(),
        }
    }
}

/// Exact immutable identity of a stored record.
#[derive(Debug)]
pub struct RecordRef {
    pub record_id: Id,
    pub revision: u64,
    pub digest: JsonDigest,
}

#[verifier::ext_equal]
pub struct RecordRefView {
    pub record_id: Seq<char>,
    pub revision: u64,
    pub digest: Seq<char>,
}

impl View for RecordRef {
    type V = RecordRefView;

    open spec fn view(&self) -> RecordRefView {
        RecordRefView {
            record_id: self.record_id.deep_view(),
            revision: self.revision.deep_view(),
            digest: self.digest.deep_view(),
        }
    }
}

impl DeepView for RecordRef {
    type V = RecordRefView;

    open spec fn deep_view(&self) -> RecordRefView {
        self@
    }
}

impl Data for RecordRef {
    fn same(&self, other: &Self) -> (r: bool) {
        self.record_id.same(&other.record_id)
            && self.revision.same(&other.revision)
            && self.digest.same(&other.digest)
    }

    fn copy(&self) -> (r: Self) {
        RecordRef {
            record_id: self.record_id.copy(),
            revision: self.revision.copy(),
            digest: self.digest.copy(),
        }
    }
}

/// The place of a record in its scope, whatever its content.
#[derive(Debug)]
pub struct RecordKey {
    pub record_id: Id,
    pub revision: u64,
}

#[verifier::ext_equal]
pub struct RecordKeyView {
    pub record_id: Seq<char>,
    pub revision: u64,
}

impl View for RecordKey {
    type V = RecordKeyView;

    open spec fn view(&self) -> RecordKeyView {
        RecordKeyView {
            record_id: self.record_id.deep_view(),
            revision: self.revision.deep_view(),
        }
    }
}

impl DeepView for RecordKey {
    type V = RecordKeyView;

    open spec fn deep_view(&self) -> RecordKeyView {
        self@
    }
}

impl Data for RecordKey {
    fn same(&self, other: &Self) -> (r: bool) {
        self.record_id.same(&other.record_id)
            && self.revision.same(&other.revision)
    }

    fn copy(&self) -> (r: Self) {
        RecordKey {
            record_id: self.record_id.copy(),
            revision: self.revision.copy(),
        }
    }
}

/// Resource namespace. Data of one scope is never visible from another.
#[derive(Debug)]
pub struct Scope {
    pub tenant_id: Id,
    pub workspace_id: Id,
    pub user_id: Option<Id>,
}

#[verifier::ext_equal]
pub struct ScopeView {
    pub tenant_id: Seq<char>,
    pub workspace_id: Seq<char>,
    pub user_id: Option<Seq<char>>,
}

impl View for Scope {
    type V = ScopeView;

    open spec fn view(&self) -> ScopeView {
        ScopeView {
            tenant_id: self.tenant_id.deep_view(),
            workspace_id: self.workspace_id.deep_view(),
            user_id: self.user_id.deep_view(),
        }
    }
}

impl DeepView for Scope {
    type V = ScopeView;

    open spec fn deep_view(&self) -> ScopeView {
        self@
    }
}

impl Data for Scope {
    fn same(&self, other: &Self) -> (r: bool) {
        self.tenant_id.same(&other.tenant_id)
            && self.workspace_id.same(&other.workspace_id)
            && self.user_id.same(&other.user_id)
    }

    fn copy(&self) -> (r: Self) {
        Scope {
            tenant_id: self.tenant_id.copy(),
            workspace_id: self.workspace_id.copy(),
            user_id: self.user_id.copy(),
        }
    }
}


/// The place that a reference points at.
pub open spec fn key_of(reference: RecordRefView) -> RecordKeyView {
    RecordKeyView { record_id: reference.record_id, revision: reference.revision }
}

/// The place that a reference points at.
pub fn record_key(reference: &RecordRef) -> (r: RecordKey)
    ensures
        r@ == key_of(reference@),
{
    RecordKey { record_id: reference.record_id.copy(), revision: reference.revision }
}

/// The failure of an access from `expected` to data of `actual`.
pub open spec fn scope_fault(expected: ScopeView, actual: ScopeView) -> Option<Fault> {
    if expected != actual {
        fault(ErrorCode::AccessDenied, "scope")
    } else {
        None
    }
}

/// Reject data of another scope.
pub fn check_scope(expected: &Scope, actual: &Scope) -> (r: Result<(), ContractError>)
    ensures
        failure(r) == scope_fault(expected@, actual@),
{
    if !expected.same(actual) {
        return fail(ErrorCode::AccessDenied, "scope");
    }
    Ok(())
}

/// A scope reaches itself and no other.
pub proof fn law_scopes_reach_only_themselves(a: ScopeView, b: ScopeView)
    ensures
        scope_fault(a, b) is None <==> a == b,
        scope_fault(a, b) is Some ==> scope_fault(a, b)->Some_0.code == ErrorCode::AccessDenied,
{
}

} // verus!
