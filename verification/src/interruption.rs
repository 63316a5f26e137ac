//! Versioned application stop proposals, separate from core execution authority.
use vstd::prelude::*;

use crate::data::Data;
use crate::encoding::{encode_versioned, exceeds_bytes};
#[allow(unused_imports)]
use crate::encoding::{encoded_bytes, versioned_json};
use crate::error::{fail, ContractError, ErrorCode};
#[allow(unused_imports)]
use crate::error::{failure, fault, Fault};
use crate::execution_contracts::{AppState, InterruptionAction, InterruptionRecord};
#[allow(unused_imports)]
use crate::execution_contracts::{AppStateView, InterruptionRecordView};
use crate::json::{member, object, text, Json, Member};
#[allow(unused_imports)]
use crate::json::{JsonView, MemberView};
use crate::json_schema::{compile_validator, is_accepted};
#[allow(unused_imports)]
use crate::json_schema::{accepts_document, compile_fault};
use crate::refs::{RecordRef, Scope, VersionedRef};
#[allow(unused_imports)]
use crate::refs::{RecordRefView, ScopeView, VersionedRefView};
use crate::serialization::Id;
use crate::text::{decimal, reads};
#[allow(unused_imports)]
use crate::text::{decimal_text, white_space};

verus! {

/// Host-owned business-state schema, never a model instruction or permission grant.
#[derive(Debug)]
pub struct AppStateSchema {
    /// Exact namespace accepted from the policy.
    pub namespace: Id,
    /// JSON Schema for the entire {namespace, status, metadata} object.
    pub schema: Json,
}

#[verifier::ext_equal]
pub struct AppStateSchemaView {
    pub namespace: Seq<char>,
    pub schema: JsonView,
}

impl View for AppStateSchema {
    type V = AppStateSchemaView;

    open spec fn view(&self) -> AppStateSchemaView {
        AppStateSchemaView {
            namespace: self.namespace.deep_view(),
            schema: self.schema.deep_view(),
        }
    }
}

impl DeepView for AppStateSchema {
    type V = AppStateSchemaView;

    open spec fn deep_view(&self) -> AppStateSchemaView {
        self@
    }
}

impl Data for AppStateSchema {
    fn same(&self, other: &Self) -> (r: bool) {
        self.namespace.same(&other.namespace)
            && self.schema.same(&other.schema)
    }

    fn copy(&self) -> (r: Self) {
        AppStateSchema {
            namespace: self.namespace.copy(),
            schema: self.schema.copy(),
        }
    }
}

/// Protected immutable configuration of a Run's interruption behavior.
#[derive(Debug)]
pub struct InterruptionPlan {
    pub schema_version: String,
    /// Exact callback or built-in default identity.
    pub policy: VersionedRef,
    /// Fixed nonsecret callback configuration.
    pub configuration: Vec<Member>,
    /// Fixed business-state validation contract.
    pub app_state_schema: Option<AppStateSchema>,
    /// Admission-selected callback timeout in milliseconds.
    pub timeout_ms: u64,
}

#[verifier::ext_equal]
pub struct InterruptionPlanView {
    pub schema_version: Seq<char>,
    pub policy: VersionedRefView,
    pub configuration: Seq<MemberView>,
    pub app_state_schema: Option<AppStateSchemaView>,
    pub timeout_ms: u64,
}

impl View for InterruptionPlan {
    type V = InterruptionPlanView;

    open spec fn view(&self) -> InterruptionPlanView {
        InterruptionPlanView {
            schema_version: self.schema_version.deep_view(),
            policy: self.policy.deep_view(),
            configuration: self.configuration.deep_view(),
            app_state_schema: self.app_state_schema.deep_view(),
            timeout_ms: self.timeout_ms.deep_view(),
        }
    }
}

impl DeepView for InterruptionPlan {
    type V = InterruptionPlanView;

    open spec fn deep_view(&self) -> InterruptionPlanView {
        self@
    }
}

impl Data for InterruptionPlan {
    fn same(&self, other: &Self) -> (r: bool) {
        self.schema_version.same(&other.schema_version)
            && self.policy.same(&other.policy)
            && self.configuration.same(&other.configuration)
            && self.app_state_schema.same(&other.app_state_schema)
            && self.timeout_ms.same(&other.timeout_ms)
    }

    fn copy(&self) -> (r: Self) {
        InterruptionPlan {
            schema_version: self.schema_version.copy(),
            policy: self.policy.copy(),
            configuration: self.configuration.copy(),
            app_state_schema: self.app_state_schema.copy(),
            timeout_ms: self.timeout_ms.copy(),
        }
    }
}

/// Durable facts about a stop decision, including safe callback fallback diagnostics.
#[derive(Debug)]
pub struct InterruptionDecisionRecord {
    /// Protected record format.
    pub schema_version: String,
    /// Exact namespace and owning Run.
    pub scope: Scope,
    /// Owning Run.
    pub run_id: Id,
    /// Admission-pinned policy definition.
    pub plan_ref: RecordRef,
    /// Cause, checkpoint, segment and unresolved effects observed by the core.
    pub interruption: InterruptionRecord,
    /// Accepted action after protected-cause checks.
    pub action: InterruptionAction,
    /// Business state selected for persistence, independent of core status.
    pub app_state: Option<AppState>,
    /// Safe callback failure code; raw error data is not persisted here.
    pub callback_error: Option<Id>,
}

#[verifier::ext_equal]
pub struct InterruptionDecisionRecordView {
    pub schema_version: Seq<char>,
    pub scope: ScopeView,
    pub run_id: Seq<char>,
    pub plan_ref: RecordRefView,
    pub interruption: InterruptionRecordView,
    pub action: InterruptionAction,
    pub app_state: Option<AppStateView>,
    pub callback_error: Option<Seq<char>>,
}

impl View for InterruptionDecisionRecord {
    type V = InterruptionDecisionRecordView;

    open spec fn view(&self) -> InterruptionDecisionRecordView {
        InterruptionDecisionRecordView {
            schema_version: self.schema_version.deep_view(),
            scope: self.scope.deep_view(),
            run_id: self.run_id.deep_view(),
            plan_ref: self.plan_ref.deep_view(),
            interruption: self.interruption.deep_view(),
            action: self.action.deep_view(),
            app_state: self.app_state.deep_view(),
            callback_error: self.callback_error.deep_view(),
        }
    }
}

impl DeepView for InterruptionDecisionRecord {
    type V = InterruptionDecisionRecordView;

    open spec fn deep_view(&self) -> InterruptionDecisionRecordView {
        self@
    }
}

impl Data for InterruptionDecisionRecord {
    fn same(&self, other: &Self) -> (r: bool) {
        self.schema_version.same(&other.schema_version)
            && self.scope.same(&other.scope)
            && self.run_id.same(&other.run_id)
            && self.plan_ref.same(&other.plan_ref)
            && self.interruption.same(&other.interruption)
            && self.action.same(&other.action)
            && self.app_state.same(&other.app_state)
            && self.callback_error.same(&other.callback_error)
    }

    fn copy(&self) -> (r: Self) {
        InterruptionDecisionRecord {
            schema_version: self.schema_version.copy(),
            scope: self.scope.copy(),
            run_id: self.run_id.copy(),
            plan_ref: self.plan_ref.copy(),
            interruption: self.interruption.copy(),
            action: self.action.copy(),
            app_state: self.app_state.copy(),
            callback_error: self.callback_error.copy(),
        }
    }
}

/// Delivery of a local execution stop, not an assertion of stored completion.
#[derive(Debug, Clone, Copy, PartialEq, Eq, Structural)]
pub enum ExecutionStopReceipt {
    /// The owned driver was signaled; await its saved outcome.
    Requested,
    /// This execution interval has already stopped or settled.
    AlreadySettled,
    /// This process does not own the active driver.
    NotLocal,
}

impl View for ExecutionStopReceipt {
    type V = ExecutionStopReceipt;

    open spec fn view(&self) -> ExecutionStopReceipt {
        *self
    }
}

impl DeepView for ExecutionStopReceipt {
    type V = ExecutionStopReceipt;

    open spec fn deep_view(&self) -> ExecutionStopReceipt {
        *self
    }
}

impl Data for ExecutionStopReceipt {
    fn same(&self, other: &Self) -> (r: bool) {
        *self == *other
    }

    fn copy(&self) -> (r: Self) {
        *self
    }
}


/// The built-in interruption behavior.
pub open spec fn default_policy() -> VersionedRefView {
    VersionedRefView { id: "wickle-default-interruption"@, version: "1"@ }
}

/// The encoded business state.
pub open spec fn app_state_json(state: AppStateView) -> JsonView {
    JsonView::Object(
        seq![
            MemberView { key: "namespace"@, value: JsonView::Text(state.namespace) },
            MemberView { key: "status"@, value: JsonView::Text(state.status) },
            MemberView { key: "metadata"@, value: JsonView::Object(state.metadata) },
        ],
    )
}

/// The encoded plan.
pub open spec fn plan_json(plan: InterruptionPlanView) -> JsonView {
    JsonView::Object(
        seq![
            MemberView { key: "schema_version"@, value: JsonView::Text(plan.schema_version) },
            MemberView { key: "policy"@, value: versioned_json(plan.policy) },
            MemberView { key: "configuration"@, value: JsonView::Object(plan.configuration) },
            MemberView {
                key: "app_state_schema"@,
                value: match plan.app_state_schema {
                    Some(schema) => JsonView::Object(
                        seq![
                            MemberView {
                                key: "namespace"@,
                                value: JsonView::Text(schema.namespace),
                            },
                            MemberView { key: "schema"@, value: schema.schema },
                        ],
                    ),
                    None => JsonView::Null,
                },
            },
            MemberView {
                key: "timeout_ms"@,
                value: JsonView::Number(decimal_text(plan.timeout_ms as nat)),
            },
        ],
    )
}

/// Why a plan is unusable.
pub open spec fn plan_fault(plan: InterruptionPlanView) -> Option<Fault> {
    if plan.schema_version != "wickle.interruption-plan.v1"@ || plan.timeout_ms == 0
        || encoded_bytes(plan_json(plan)) > 65_536 {
        fault(ErrorCode::InvalidConfiguration, "interruption.plan")
    } else if plan.policy == default_policy() && (plan.configuration.len() != 0
        || plan.app_state_schema is Some) {
        fault(ErrorCode::InvalidConfiguration, "interruption.default_configuration")
    } else {
        match plan.app_state_schema {
            Some(schema) => compile_fault(schema.schema),
            None => None,
        }
    }
}

/// Why a business state does not fit a plan.
pub open spec fn app_state_fault(plan: InterruptionPlanView, state: AppStateView) -> Option<Fault> {
    match plan.app_state_schema {
        None => fault(ErrorCode::InvalidConfiguration, "interruption.app_state_schema"),
        Some(schema) => if state.namespace != schema.namespace {
            fault(ErrorCode::InvalidConfiguration, "interruption.app_state_namespace")
        } else if encoded_bytes(app_state_json(state)) > 16_384 {
            fault(ErrorCode::InvalidConfiguration, "interruption.app_state")
        } else if compile_fault(schema.schema) is Some {
            compile_fault(schema.schema)
        } else if !accepts_document(schema.schema, app_state_json(state)) {
            fault(ErrorCode::InvalidConfiguration, "interruption.app_state")
        } else {
            None
        },
    }
}

/// The configuration that a Host binds to a run.
#[derive(Debug)]
pub struct InterruptionPolicyBinding {
    /// Identity of the policy implementation.
    pub policy: VersionedRef,
    /// Nonsecret data delivered to the callback.
    pub configuration: Vec<Member>,
    /// Required when the callback supplies application state.
    pub app_state_schema: Option<AppStateSchema>,
    /// Callback bound; the Host's smaller runtime cap takes precedence.
    pub timeout_ms: u64,
}

/// The plan that a binding asks for, under a cap.
pub open spec fn captured_plan(binding: Option<InterruptionPolicyBinding>, cap_ms: u64) -> InterruptionPlanView {
    let timeout = |bound: u64|
        if bound <= cap_ms {
            bound
        } else {
            cap_ms
        };
    match binding {
        Some(bound) => InterruptionPlanView {
            schema_version: "wickle.interruption-plan.v1"@,
            policy: bound.policy@,
            configuration: bound.configuration.deep_view(),
            app_state_schema: bound.app_state_schema.deep_view(),
            timeout_ms: timeout(bound.timeout_ms),
        },
        None => InterruptionPlanView {
            schema_version: "wickle.interruption-plan.v1"@,
            policy: default_policy(),
            configuration: Seq::empty(),
            app_state_schema: None,
            timeout_ms: timeout(1000),
        },
    }
}

impl InterruptionPlan {
    /// Pin the behavior of a binding, or the built-in one.
    pub fn capture(binding: Option<InterruptionPolicyBinding>, cap_ms: u64) -> (r: Result<
        Self,
        ContractError,
    >)
        ensures
            failure(r) == (if binding matches Some(bound) && bound.policy@ == default_policy() {
                fault(ErrorCode::InvalidConfiguration, "interruption.reserved_identity")
            } else {
                plan_fault(captured_plan(binding, cap_ms))
            }),
            r matches Ok(plan) ==> plan@ == captured_plan(binding, cap_ms),
    {
        let ghost expected = captured_plan(binding, cap_ms);
        let plan = match binding {
            Some(bound) => {
                if Self::is_default_identity(&bound.policy) {
                    return fail(
                        ErrorCode::InvalidConfiguration,
                        "interruption.reserved_identity",
                    );
                }
                InterruptionPlan {
                    schema_version: "wickle.interruption-plan.v1".to_owned(),
                    policy: bound.policy,
                    configuration: bound.configuration,
                    app_state_schema: bound.app_state_schema,
                    timeout_ms: if bound.timeout_ms <= cap_ms {
                        bound.timeout_ms
                    } else {
                        cap_ms
                    },
                }
            },
            None => {
                let configuration: Vec<Member> = Vec::new();
                assert(configuration.deep_view() =~= Seq::<MemberView>::empty());
                InterruptionPlan {
                    schema_version: "wickle.interruption-plan.v1".to_owned(),
                    policy: Self::default_identity(),
                    configuration,
                    app_state_schema: None,
                    timeout_ms: if 1000 <= cap_ms {
                        1000
                    } else {
                        cap_ms
                    },
                }
            },
        };
        assert(plan@ == expected);
        plan.validate()?;
        Ok(plan)
    }

    fn encoded(&self) -> (r: Json)
        ensures
            r@ == plan_json(self@),
    {
        let schema = match &self.app_state_schema {
            Some(schema) => {
                let members = vec![
                    member("namespace", text(schema.namespace.as_str())),
                    member("schema", schema.schema.copy()),
                ];
                assert(members.deep_view() =~= seq![
                    MemberView { key: "namespace"@, value: JsonView::Text(schema@.namespace) },
                    MemberView { key: "schema"@, value: schema@.schema },
                ]);
                object(members)
            },
            None => Json::Null,
        };
        let timeout = Json::Number(decimal(self.timeout_ms));
        let ghost schema_view = schema@;
        let members = vec![
            member("schema_version", text(self.schema_version.as_str())),
            member("policy", encode_versioned(&self.policy)),
            member("configuration", object(self.configuration.copy())),
            member("app_state_schema", schema),
            member("timeout_ms", timeout),
        ];
        assert(members.deep_view() =~= plan_json(self@)->Object_0);
        object(members)
    }

    /// Validate a decoded plan before using it; identities are not execution permission.
    pub fn validate(&self) -> (r: Result<(), ContractError>)
        ensures
            failure(r) == plan_fault(self@),
    {
        if !reads(&self.schema_version, "wickle.interruption-plan.v1") || self.timeout_ms == 0
            || exceeds_bytes(&self.encoded(), 65_536) {
            return fail(ErrorCode::InvalidConfiguration, "interruption.plan");
        }
        if Self::is_default_identity(&self.policy) && (self.configuration.len() != 0
            || self.app_state_schema.is_some()) {
            return fail(ErrorCode::InvalidConfiguration, "interruption.default_configuration");
        }
        if let Some(schema) = &self.app_state_schema {
            compile_validator(&schema.schema)?;
        }
        Ok(())
    }

    /// Check the complete application state against the Host's pinned schema.
    pub fn validate_app_state(&self, state: &AppState) -> (r: Result<(), ContractError>)
        ensures
            failure(r) == app_state_fault(self@, state@),
    {
        let schema = match &self.app_state_schema {
            Some(schema) => schema,
            None => {
                return fail(ErrorCode::InvalidConfiguration, "interruption.app_state_schema");
            },
        };
        if !state.namespace.same(&schema.namespace) {
            return fail(ErrorCode::InvalidConfiguration, "interruption.app_state_namespace");
        }
        let members = vec![
            member("namespace", text(state.namespace.as_str())),
            member("status", text(state.status.as_str())),
            member("metadata", object(state.metadata.copy())),
        ];
        assert(members.deep_view() =~= app_state_json(state@)->Object_0);
        let value = object(members);
        if exceeds_bytes(&value, 16_384) {
            return fail(ErrorCode::InvalidConfiguration, "interruption.app_state");
        }
        compile_validator(&schema.schema)?;
        if !is_accepted(&schema.schema, &value) {
            return fail(ErrorCode::InvalidConfiguration, "interruption.app_state");
        }
        Ok(())
    }

    /// The identity of the built-in behavior.
    pub fn default_identity() -> (r: VersionedRef)
        ensures
            r@ == default_policy(),
    {
        proof {
            reveal_strlit("wickle-default-interruption");
            reveal_strlit("1");
            assert(!white_space("wickle-default-interruption"@[0]));
            assert(!white_space("1"@[0]));
        }
        VersionedRef {
            id: Id::literal("wickle-default-interruption"),
            version: Id::literal("1"),
        }
    }

    fn is_default_identity(policy: &VersionedRef) -> (r: bool)
        ensures
            r == (policy@ == default_policy()),
    {
        policy.id.reads("wickle-default-interruption") && policy.version.reads("1")
    }
}

/// A captured plan is usable: validating it again reports nothing.
pub proof fn law_captured_plan_is_valid(
    binding: Option<InterruptionPolicyBinding>,
    cap_ms: u64,
    captured: Result<InterruptionPlan, ContractError>,
)
    requires
        call_ensures(InterruptionPlan::capture, (binding, cap_ms), captured),
        captured is Ok,
    ensures
        plan_fault(captured->Ok_0@) is None,
        captured->Ok_0@.timeout_ms <= cap_ms,
{
}

/// A plan pins what its binding asks for, under the smaller of both time bounds; without a binding it
/// pins the built-in behaviour, which has no configuration.
pub proof fn law_plans_pin_their_binding(binding: Option<InterruptionPolicyBinding>, cap_ms: u64)
    ensures
        ({
            let plan = captured_plan(binding, cap_ms);
            &&& binding matches Some(bound) ==> {
                &&& plan.policy == bound.policy@
                &&& plan.configuration == bound.configuration.deep_view()
                &&& plan.app_state_schema == bound.app_state_schema.deep_view()
                &&& plan.timeout_ms <= bound.timeout_ms
                &&& plan.timeout_ms <= cap_ms
                &&& plan.timeout_ms == bound.timeout_ms || plan.timeout_ms == cap_ms
            }
            &&& binding is None ==> {
                &&& plan.policy == default_policy()
                &&& plan.configuration.len() == 0
                &&& plan.app_state_schema is None
                &&& plan.timeout_ms <= cap_ms
                &&& cap_ms > 0 ==> plan.timeout_ms > 0
            }
        }),
{
}

/// Business state is accepted only under a plan that has a schema for it, of the same namespace and
/// accepted by that schema.
pub proof fn law_app_state_fits_its_schema(plan: InterruptionPlanView, state: AppStateView)
    ensures
        app_state_fault(plan, state) is None <==> {
            &&& plan.app_state_schema is Some
            &&& state.namespace == plan.app_state_schema->Some_0.namespace
            &&& encoded_bytes(app_state_json(state)) <= 16_384
            &&& compile_fault(plan.app_state_schema->Some_0.schema) is None
            &&& accepts_document(plan.app_state_schema->Some_0.schema, app_state_json(state))
        },
        plan.policy == default_policy() && plan_fault(plan) is None ==> app_state_fault(plan, state)
            is Some,
{
}

} // verus!
