//! Applications of hooks: their records, and the chains that they must form.
use vstd::prelude::*;

use crate::content::ToolLedgerEntry;
#[allow(unused_imports)]
use crate::content::ToolLedgerEntryView;
use crate::context::{ContextItem, ContextLifetime, ContextOrigin, ContextTrigger};
#[allow(unused_imports)]
use crate::context::{item_of, ContextItemView, ContextLifetimeView, PlannedContextSourceView};
use crate::context_source::records::{ContextBatch, ContextSourcePlan};
#[allow(unused_imports)]
use crate::context_source::records::{
    batch_in, batch_restore_fault, plan_fault, plan_restore_fault, ContextBatchView,
    ContextSourcePlanView,
};
use crate::data::{any, check_each, check_indices, contains, find, is_same, joined, keep, Data};
#[allow(unused_imports)]
use crate::data::{
    first_fault, first_in, first_index_fault, first_pair_fault, kept, some_in,
};
use crate::encoding::exceeds_bytes;
#[allow(unused_imports)]
use crate::encoding::encoded_bytes;
use crate::error::{fail, verdict, ContractError, ErrorCode};
#[allow(unused_imports)]
use crate::error::{failure, fault, or_else, Fault};
use crate::hook::{
    encode_hook_output, encode_hook_record, HookApplication, HookApplicationRecord,
    HookContextAddition, HookDefinition, HookInput, HookOutput, HookPlan, HookPosition, HookRef,
    HookTarget, HookTransform, OutputChecks,
};
#[allow(unused_imports)]
use crate::hook::{
    definition_digest, definition_from, hook_input_digest, hook_output_json, hook_record_json,
    selection_at, HookApplicationRecordView, HookApplicationView, HookContextAdditionView,
    HookDefinitionView, HookInputView, HookOutputView, HookPlanView, HookRefView, HookTargetView,
    HookTransformView, OutputChecksView,
};
use crate::model::ModelInvocationRecord;
use crate::refs::Scope;
#[allow(unused_imports)]
use crate::refs::{RecordRefView, ScopeView};
use crate::run::RunSnapshot;
#[allow(unused_imports)]
use crate::run::RunSnapshotView;
use crate::serialization::{canonical_digest, canonical_json, Id};
#[allow(unused_imports)]
use crate::serialization::{canonical_text, digest_of};
use crate::skills::records::{context_for_step, find_record};
#[allow(unused_imports)]
use crate::skills::records::{
    of_model_step, record_named, skill_context, skill_context_fault,
};
use crate::state::records::{ProtectedRecord, Recorded};
#[allow(unused_imports)]
use crate::state::records::{ProtectedRecordView, RecordContentView};

verus! {

/// A pinned hook with the selection that it was planned for.
#[derive(Debug)]
pub struct PlannedHook {
    pub definition: HookDefinition,
    pub selection: Option<HookRef>,
}

#[verifier::ext_equal]
pub struct PlannedHookView {
    pub definition: HookDefinitionView,
    pub selection: Option<HookRefView>,
}

impl View for PlannedHook {
    type V = PlannedHookView;

    open spec fn view(&self) -> PlannedHookView {
        PlannedHookView {
            definition: self.definition.deep_view(),
            selection: self.selection.deep_view(),
        }
    }
}

impl DeepView for PlannedHook {
    type V = PlannedHookView;

    open spec fn deep_view(&self) -> PlannedHookView {
        self@
    }
}

impl Data for PlannedHook {
    fn same(&self, other: &Self) -> (r: bool) {
        self.definition.same(&other.definition)
            && self.selection.same(&other.selection)
    }

    fn copy(&self) -> (r: Self) {
        PlannedHook {
            definition: self.definition.copy(),
            selection: self.selection.copy(),
        }
    }
}


/// The failure of an application that does not fit its plan or ledger entry.
pub open spec fn application_mismatch() -> Option<Fault> {
    fault(ErrorCode::InvalidSnapshot, "hooks.application")
}

fn invalid<T>() -> (r: Result<T, ContractError>)
    ensures
        r is Err,
        failure(r) == application_mismatch(),
{
    fail(ErrorCode::InvalidSnapshot, "hooks.application")
}

/// The output is one that a hook of this definition may return for this input.
pub open spec fn output_fits(
    definition: HookDefinitionView,
    input: HookInputView,
    output: HookOutputView,
    checks: OutputChecksView,
) -> bool {
    match (definition.position, input, output) {
        (
            HookPosition::BeforeRun,
            HookInputView::BeforeRun { .. },
            HookOutputView::Context { .. },
        ) => checks.additions_safe,
        (
            HookPosition::BeforeModel,
            HookInputView::BeforeModel { .. },
            HookOutputView::Context { .. },
        ) => checks.additions_safe,
        (
            HookPosition::BeforeTool,
            HookInputView::BeforeTool { .. },
            HookOutputView::Tool { .. },
        ) => checks.normalized_inputs is Some,
        (
            HookPosition::AfterTool,
            HookInputView::AfterTool { .. },
            HookOutputView::Observed,
        ) => true,
        (HookPosition::AfterRun, HookInputView::AfterRun { .. }, HookOutputView::Observed) => true,
        _ => false,
    }
}

/// Why an output is unacceptable.
pub open spec fn output_fault(
    definition: HookDefinitionView,
    input: HookInputView,
    output: HookOutputView,
    checks: OutputChecksView,
) -> Option<Fault> {
    if encoded_bytes(hook_output_json(output)) > definition.max_output_bytes || !output_fits(
        definition,
        input,
        output,
        checks,
    ) {
        fault(ErrorCode::InvalidContract, "hooks.output")
    } else {
        None
    }
}

/// Check an output against its definition and input.
pub fn validate_output(
    definition: &HookDefinition,
    input: &HookInput,
    output: &HookOutput,
    checks: &OutputChecks,
) -> (r: Result<(), ContractError>)
    ensures
        failure(r) == output_fault(definition@, input@, output@, checks@),
{
    if exceeds_bytes(&encode_hook_output(output), definition.max_output_bytes) {
        return fail(ErrorCode::InvalidContract, "hooks.output");
    }
    let valid = match (definition.position, input, output) {
        (HookPosition::BeforeRun, HookInput::BeforeRun { .. }, HookOutput::Context { .. }) => {
            checks.additions_safe
        },
        (HookPosition::BeforeModel, HookInput::BeforeModel { .. }, HookOutput::Context { .. }) => {
            checks.additions_safe
        },
        (HookPosition::BeforeTool, HookInput::BeforeTool { .. }, HookOutput::Tool { .. }) => {
            checks.normalized_inputs.is_some()
        },
        (HookPosition::AfterTool, HookInput::AfterTool { .. }, HookOutput::Observed) => true,
        (HookPosition::AfterRun, HookInput::AfterRun { .. }, HookOutput::Observed) => true,
        _ => false,
    };
    if !valid {
        return fail(ErrorCode::InvalidContract, "hooks.output");
    }
    Ok(())
}

/// Whether context may be added at a target.
pub open spec fn takes_context(target: HookTargetView) -> bool {
    target is BeforeRun || target is BeforeModel
}

/// The lifetime of context that is added at a target.
pub open spec fn added_lifetime(run_id: Seq<char>, target: HookTargetView) -> ContextLifetimeView {
    match target {
        HookTargetView::BeforeModel { model_step_id } => ContextLifetimeView::Step {
            run_id,
            model_step_id,
        },
        _ => ContextLifetimeView::Run { run_id },
    }
}

/// The item of an addition.
pub open spec fn stamped_item(
    item_id: Seq<char>,
    scope: ScopeView,
    run_id: Seq<char>,
    definition: HookDefinitionView,
    target: HookTargetView,
    addition: HookContextAdditionView,
) -> ContextItemView {
    item_of(
        item_id,
        ContextOrigin::Hook,
        definition.hook,
        scope,
        addition.content,
        added_lifetime(run_id, target),
        addition.priority,
    )
}

/// Why nothing can be added at a target.
pub open spec fn stamp_fault(target: HookTargetView) -> Option<Fault> {
    if takes_context(target) {
        None
    } else {
        fault(ErrorCode::InvalidContract, "hooks.context_target")
    }
}

/// Make an addition a context item of its target.
pub fn stamped(
    id: Id,
    scope: &Scope,
    run_id: &Id,
    definition: &HookDefinition,
    target: &HookTarget,
    addition: &HookContextAddition,
) -> (r: Result<ContextItem, ContractError>)
    ensures
        failure(r) == stamp_fault(target@),
        r matches Ok(item) ==> item@ == stamped_item(
            id@,
            scope@,
            run_id@,
            definition@,
            target@,
            addition@,
        ),
{
    let lifetime = match target {
        HookTarget::BeforeRun => ContextLifetime::Run { run_id: run_id.copy() },
        HookTarget::BeforeModel { model_step_id } => ContextLifetime::Step {
            run_id: run_id.copy(),
            model_step_id: model_step_id.copy(),
        },
        _ => {
            return fail(ErrorCode::InvalidContract, "hooks.context_target");
        },
    };
    Ok(
        ContextItem::new(
            id,
            ContextOrigin::Hook,
            definition.hook.copy(),
            scope.copy(),
            addition.content.copy(),
            lifetime,
            addition.priority,
        ),
    )
}

/// Why a recorded item is not the one that its addition makes.
pub open spec fn recorded_item_fault(
    scope: ScopeView,
    run_id: Seq<char>,
    definition: HookDefinitionView,
    target: HookTargetView,
) -> spec_fn(HookContextAdditionView, ContextItemView) -> Option<Fault> {
    |addition: HookContextAdditionView, item: ContextItemView|
        if stamp_fault(target) is Some {
            stamp_fault(target)
        } else if item != stamped_item(
            item.item_id,
            scope,
            run_id,
            definition,
            target,
            addition,
        ) {
            application_mismatch()
        } else {
            None
        }
}

/// What a record holds, read as a hook application.
pub open spec fn application_in(record: ProtectedRecordView) -> Option<HookApplicationRecordView> {
    match record.content {
        RecordContentView::HookApplication(value) => Some(value),
        _ => None,
    }
}

/// The recorded application is the one that the ledger entry names.
pub open spec fn is_named_application(
    record: ProtectedRecordView,
    value: HookApplicationRecordView,
    plan: HookPlanView,
    application: HookApplicationView,
    scope: ScopeView,
    run_id: Seq<char>,
) -> bool {
    &&& record.reference == application.result_ref
    &&& plan.scope == scope
    &&& value.scope == scope
    &&& value.run_id == run_id
    &&& value.hook == application.hook
    &&& value.selection == application.selection
    &&& value.definition_digest == application.definition_digest
    &&& value.target == application.target
    &&& hook_input_digest(value.input) == application.input_digest
    &&& digest_of(hook_record_json(value)) == record.reference.digest
}

/// Why the recorded result of an application is unacceptable.
pub open spec fn recorded_result_fault(
    value: HookApplicationRecordView,
    definition: HookDefinitionView,
    scope: ScopeView,
    run_id: Seq<char>,
) -> Option<Fault> {
    match (value.output, value.failure) {
        (Some(output), None) => if output_fault(
            definition,
            value.input,
            output,
            value.checks,
        ) is Some {
            output_fault(definition, value.input, output, value.checks)
        } else {
            match output {
                HookOutputView::Context { additions } => if additions.len()
                    != value.context_items.len() {
                    application_mismatch()
                } else {
                    first_pair_fault(
                        additions,
                        value.context_items,
                        recorded_item_fault(scope, run_id, definition, value.target),
                    )
                },
                _ => if value.context_items.len() != 0 {
                    application_mismatch()
                } else {
                    None
                },
            }
        },
        (None, Some(_)) => if definition.position is BeforeRun && !definition.required
            && value.context_items.len() == 0 {
            None
        } else {
            application_mismatch()
        },
        _ => application_mismatch(),
    }
}

/// Why a record is not a valid application.
pub open spec fn application_fault(
    record: ProtectedRecordView,
    plan: HookPlanView,
    application: HookApplicationView,
    scope: ScopeView,
    run_id: Seq<char>,
) -> Option<Fault> {
    match application_in(record) {
        None => application_mismatch(),
        Some(value) => if !is_named_application(
            record,
            value,
            plan,
            application,
            scope,
            run_id,
        ) {
            application_mismatch()
        } else {
            match definition_from(plan, value.hook, value.selection, 0) {
                None => application_mismatch(),
                Some(definition) => if definition_digest(definition) != value.definition_digest
                    || definition.position != value.target.position() {
                    application_mismatch()
                } else if value.input_defect is Some {
                    value.input_defect
                } else {
                    recorded_result_fault(value, definition, scope, run_id)
                },
            }
        },
    }
}

fn check_recorded_result(
    value: &HookApplicationRecord,
    definition: &HookDefinition,
    scope: &Scope,
    run_id: &Id,
) -> (r: Result<(), ContractError>)
    ensures
        failure(r) == recorded_result_fault(value@, definition@, scope@, run_id@),
{
    match (&value.output, &value.failure) {
        (Some(output), None) => {
            validate_output(definition, &value.input, output, &value.checks)?;
            match output {
                HookOutput::Context { additions } => {
                    if additions.len() != value.context_items.len() {
                        return invalid();
                    }
                    let made = |addition: &HookContextAddition, item: &ContextItem| -> (r: Result<
                        (),
                        ContractError,
                    >)
                        ensures
                            failure(r) == recorded_item_fault(
                                scope@,
                                run_id@,
                                definition@,
                                value@.target,
                            )(addition@, item@),
                    {
                        let expected = stamped(
                            item.item_id.copy(),
                            scope,
                            run_id,
                            definition,
                            &value.target,
                            addition,
                        )?;
                        if !item.same(&expected) {
                            return invalid();
                        }
                        Ok(())
                    };
                    crate::data::check_pairs(
                        additions,
                        &value.context_items,
                        made,
                        Ghost(recorded_item_fault(scope@, run_id@, definition@, value@.target)),
                    )
                },
                _ => {
                    if value.context_items.len() != 0 {
                        return invalid();
                    }
                    Ok(())
                },
            }
        },
        (None, Some(_)) => {
            if definition.position == HookPosition::BeforeRun && !definition.required
                && value.context_items.len() == 0 {
                Ok(())
            } else {
                invalid()
            }
        },
        _ => invalid(),
    }
}

impl HookApplicationRecord {
    /// Restore one exact protected application. This grants no permission to invoke a hook and
    /// does not stand for a check of the whole chain.
    pub fn restore<'a>(
        record: &'a ProtectedRecord,
        plan: &HookPlan,
        application: &HookApplication,
        scope: &Scope,
        run_id: &Id,
    ) -> (r: Result<&'a Self, ContractError>)
        ensures
            failure(r) == application_fault(record@, plan@, application@, scope@, run_id@),
            r matches Ok(value) ==> application_in(record@) == Some(value@),
    {
        let value: &'a HookApplicationRecord = match HookApplicationRecord::read(
            record.content(),
        ) {
            Some(value) => value,
            None => {
                return invalid();
            },
        };
        if !record.reference().same(&application.result_ref) || !plan.scope.same(scope)
            || !value.scope.same(scope) || !value.run_id.same(run_id) || !value.hook.same(
            &application.hook,
        ) || !value.selection.same(&application.selection) || !value.definition_digest.same(
            &application.definition_digest,
        ) || !value.target.same(&application.target) || !value.input.digest().same(
            &application.input_digest,
        ) || !canonical_digest(&encode_hook_record(value)).same(&record.reference().digest) {
            return invalid();
        }
        let definition = match plan.definition_for(&value.hook, &value.selection) {
            Some(definition) => definition,
            None => {
                return invalid();
            },
        };
        if !definition.digest().same(&value.definition_digest) || definition.position
            != value.target.position() {
            return invalid();
        }
        verdict(&value.input_defect)?;
        check_recorded_result(value, definition, scope, run_id)?;
        Ok(value)
    }
}

/// Why an application does not continue a chain.
pub open spec fn apply_fault(
    input: HookInputView,
    record: HookApplicationRecordView,
) -> Option<Fault> {
    if record.input != input {
        fault(ErrorCode::InvalidSnapshot, "hooks.chain_input")
    } else {
        match (record.output, input) {
            (Some(HookOutputView::Context { .. }), HookInputView::BeforeRun { .. }) => None,
            (Some(HookOutputView::Context { .. }), HookInputView::BeforeModel { .. }) => None,
            (Some(HookOutputView::Tool { .. }), HookInputView::BeforeTool { .. }) => None,
            (None, _) => if record.failure is Some {
                None
            } else {
                fault(ErrorCode::InvalidSnapshot, "hooks.chain_output")
            },
            _ => fault(ErrorCode::InvalidSnapshot, "hooks.chain_output"),
        }
    }
}

/// What the next hook of a chain sees.
pub open spec fn applied_input(
    input: HookInputView,
    record: HookApplicationRecordView,
) -> HookInputView {
    match (record.output, input) {
        (
            Some(HookOutputView::Context { .. }),
            HookInputView::BeforeRun { user_input, context_items },
        ) => HookInputView::BeforeRun {
            user_input,
            context_items: context_items + record.context_items,
        },
        (
            Some(HookOutputView::Context { .. }),
            HookInputView::BeforeModel { user_input, context_items },
        ) => HookInputView::BeforeModel {
            user_input,
            context_items: context_items + record.context_items,
        },
        (
            Some(HookOutputView::Tool { model_inputs, .. }),
            HookInputView::BeforeTool {
                tool,
                descriptor_digest,
                compiled_digest,
                original_model_inputs,
                ..
            },
        ) => HookInputView::BeforeTool {
            tool,
            descriptor_digest,
            compiled_digest,
            original_model_inputs,
            model_inputs,
        },
        _ => input,
    }
}

/// Why an application denies a tool call.
pub open spec fn applied_denial(record: HookApplicationRecordView) -> Option<Seq<char>> {
    match record.output {
        Some(HookOutputView::Tool { deny, .. }) => deny,
        _ => None,
    }
}

/// What a chain has become after an application.
#[derive(Debug)]
pub struct Applied {
    pub input: HookInput,
    pub deny: Option<Id>,
}

/// Continue a chain with an application.
pub fn apply(input: &HookInput, record: &HookApplicationRecord) -> (r: Result<
    Applied,
    ContractError,
>)
    ensures
        failure(r) == apply_fault(input@, record@),
        r matches Ok(applied) ==> applied.input@ == applied_input(input@, record@)
            && applied.deny.deep_view() == applied_denial(record@),
{
    if !record.input.same(input) {
        return fail(ErrorCode::InvalidSnapshot, "hooks.chain_input");
    }
    match (&record.output, input) {
        (
            Some(HookOutput::Context { .. }),
            HookInput::BeforeRun { user_input, context_items },
        ) => Ok(
            Applied {
                input: HookInput::BeforeRun {
                    user_input: user_input.copy(),
                    context_items: joined(context_items, &record.context_items),
                },
                deny: None,
            },
        ),
        (
            Some(HookOutput::Context { .. }),
            HookInput::BeforeModel { user_input, context_items },
        ) => Ok(
            Applied {
                input: HookInput::BeforeModel {
                    user_input: user_input.copy(),
                    context_items: joined(context_items, &record.context_items),
                },
                deny: None,
            },
        ),
        (
            Some(HookOutput::Tool { model_inputs, deny }),
            HookInput::BeforeTool {
                tool,
                descriptor_digest,
                compiled_digest,
                original_model_inputs,
                ..
            },
        ) => Ok(
            Applied {
                input: HookInput::BeforeTool {
                    tool: tool.copy(),
                    descriptor_digest: descriptor_digest.copy(),
                    compiled_digest: compiled_digest.copy(),
                    original_model_inputs: original_model_inputs.copy(),
                    model_inputs: model_inputs.copy(),
                },
                deny: deny.copy(),
            },
        ),
        (None, _) => {
            if record.failure.is_some() {
                Ok(Applied { input: input.copy(), deny: None })
            } else {
                fail(ErrorCode::InvalidSnapshot, "hooks.chain_output")
            }
        },
        _ => fail(ErrorCode::InvalidSnapshot, "hooks.chain_output"),
    }
}

/// Inputs of hooks that change what follows them.
pub open spec fn is_transformable(input: HookInputView) -> bool {
    input is BeforeRun || input is BeforeModel || input is BeforeTool
}

/// What a finished chain hands on.
pub open spec fn transform_of(
    input: HookInputView,
    deny: Option<Seq<char>>,
    applications: Seq<HookApplicationView>,
) -> HookTransformView {
    HookTransformView {
        context_items: match input {
            HookInputView::BeforeRun { context_items, .. } => context_items,
            HookInputView::BeforeModel { context_items, .. } => context_items,
            _ => Seq::empty(),
        },
        model_inputs: match input {
            HookInputView::BeforeTool { model_inputs, .. } => Some(model_inputs),
            _ => None,
        },
        deny,
        applications,
    }
}

/// Hand on what a finished chain has made of its input.
pub fn transformed(input: HookInput, deny: Option<Id>, applications: Vec<HookApplication>) -> (r:
    HookTransform)
    requires
        is_transformable(input@),
    ensures
        r@ == transform_of(input@, deny.deep_view(), applications.deep_view()),
{
    match input {
        HookInput::BeforeRun { context_items, .. } => HookTransform {
            context_items,
            model_inputs: None,
            deny,
            applications,
        },
        HookInput::BeforeModel { context_items, .. } => HookTransform {
            context_items,
            model_inputs: None,
            deny,
            applications,
        },
        HookInput::BeforeTool { model_inputs, .. } => {
            let none: Vec<ContextItem> = Vec::new();
            assert(none.deep_view() =~= Seq::<ContextItemView>::empty());
            HookTransform {
                context_items: none,
                model_inputs: Some(model_inputs),
                deny,
                applications,
            }
        },
        _ => {
            assert(false);
            HookTransform { context_items: Vec::new(), model_inputs: None, deny, applications }
        },
    }
}

/// The applications at a target.
pub open spec fn at_target(target: HookTargetView) -> spec_fn(HookApplicationView) -> bool {
    |application: HookApplicationView| application.target == target
}

fn applications_at(applications: &Vec<HookApplication>, target: &HookTarget) -> (r: Vec<
    HookApplication,
>)
    ensures
        r.deep_view() == kept(applications.deep_view(), at_target(target@)),
{
    let there = |application: &HookApplication| -> (b: bool)
        ensures
            b == at_target(target@)(application@),
    { application.target.same(target) };
    keep(applications, there, Ghost(at_target(target@)))
}

/// Why the context that hooks gave the whole run cannot be rebuilt.
pub open spec fn run_context_fault(
    plan: HookPlanView,
    snapshot: RunSnapshotView,
    records: Seq<ProtectedRecordView>,
) -> spec_fn(HookApplicationView) -> Option<Fault> {
    |application: HookApplicationView|
        match record_named(records, application.result_ref) {
            None => fault(ErrorCode::InvalidSnapshot, "hooks.run_context"),
            Some(record) => application_fault(
                record,
                plan,
                application,
                snapshot.scope,
                snapshot.run_id,
            ),
        }
}

/// The context that applications added.
pub open spec fn added_context(
    applications: Seq<HookApplicationView>,
    records: Seq<ProtectedRecordView>,
) -> Seq<ContextItemView>
    decreases applications.len(),
{
    if applications.len() == 0 {
        Seq::empty()
    } else {
        added_context(applications.drop_last(), records) + application_in(
            record_named(records, applications.last().result_ref)->Some_0,
        )->Some_0.context_items
    }
}

fn run_context(
    plan: &HookPlan,
    snapshot: &RunSnapshot,
    records: &Vec<ProtectedRecord>,
    applications: &Vec<HookApplication>,
) -> (r: Result<Vec<ContextItem>, ContractError>)
    ensures
        failure(r) == first_fault(
            applications.deep_view(),
            run_context_fault(plan@, snapshot@, records.deep_view()),
        ),
        r matches Ok(items) ==> items.deep_view() == added_context(
            applications.deep_view(),
            records.deep_view(),
        ),
{
    let ghost s = applications.deep_view();
    let ghost f = run_context_fault(plan@, snapshot@, records.deep_view());
    let mut items: Vec<ContextItem> = Vec::new();
    let mut i: usize = 0;
    assert(s.skip(0) =~= s);
    assert(s.take(0) =~= Seq::<HookApplicationView>::empty());
    assert(items.deep_view() =~= Seq::<ContextItemView>::empty());
    while i < applications.len()
        invariant
            i <= applications.len(),
            s == applications.deep_view(),
            f == run_context_fault(plan@, snapshot@, records.deep_view()),
            first_fault(s, f) == first_fault(s.skip(i as int), f),
            items.deep_view() == added_context(s.take(i as int), records.deep_view()),
        decreases applications.len() - i,
    {
        let application = &applications[i];
        assert(s.skip(i as int)[0] == application@);
        assert(s.skip(i as int).skip(1) =~= s.skip(i + 1));
        assert(s.take(i + 1).drop_last() =~= s.take(i as int));
        assert(s.take(i + 1).last() == application@);
        let record = match find_record(records, &application.result_ref) {
            Some(record) => record,
            None => {
                return fail(ErrorCode::InvalidSnapshot, "hooks.run_context");
            },
        };
        let value = HookApplicationRecord::restore(
            record,
            plan,
            application,
            &snapshot.scope,
            &snapshot.run_id,
        )?;
        items = joined(&items, &value.context_items);
        i = i + 1;
    }
    assert(s.take(i as int) =~= s);
    Ok(items)
}

/// The applications whose result has this record.
pub open spec fn with_result(record_id: Seq<char>) -> spec_fn(HookApplicationView) -> bool {
    |application: HookApplicationView| application.result_ref.record_id == record_id
}

/// Why the application at a position repeats an earlier record.
pub open spec fn repeated_fault(applications: Seq<HookApplicationView>) -> spec_fn(int) -> Option<
    Fault,
> {
    |i: int|
        if some_in(applications.take(i), with_result(applications[i].result_ref.record_id)) {
            fault(ErrorCode::InvalidSnapshot, "hooks.duplicate_application")
        } else {
            None
        }
}

fn check_repeated(applications: &Vec<HookApplication>, i: usize) -> (r: Result<(), ContractError>)
    requires
        i < applications.len(),
    ensures
        failure(r) == repeated_fault(applications.deep_view())(i as int),
{
    let ghost s = applications.deep_view();
    let ghost p = with_result(s[i as int].result_ref.record_id);
    let mut k: usize = 0;
    while k < i
        invariant
            k <= i < applications.len(),
            s == applications.deep_view(),
            p == with_result(s[i as int].result_ref.record_id),
            forall|j: int| 0 <= j < k ==> !p(#[trigger] s.take(i as int)[j]),
        decreases i - k,
    {
        if applications[k].result_ref.record_id.same(&applications[i].result_ref.record_id) {
            assert(p(s.take(i as int)[k as int]));
            return fail(ErrorCode::InvalidSnapshot, "hooks.duplicate_application");
        }
        k = k + 1;
    }
    Ok(())
}

/// The targets of applications, each once, in the order of first use.
pub open spec fn targets_of(applications: Seq<HookApplicationView>) -> Seq<HookTargetView>
    decreases applications.len(),
{
    if applications.len() == 0 {
        Seq::empty()
    } else {
        let front = targets_of(applications.drop_last());
        if front.contains(applications.last().target) {
            front
        } else {
            front.push(applications.last().target)
        }
    }
}

fn targets(applications: &Vec<HookApplication>) -> (r: Vec<HookTarget>)
    ensures
        r.deep_view() == targets_of(applications.deep_view()),
{
    let ghost s = applications.deep_view();
    let mut out: Vec<HookTarget> = Vec::new();
    let mut i: usize = 0;
    assert(s.take(0) =~= Seq::<HookApplicationView>::empty());
    assert(out.deep_view() =~= Seq::<HookTargetView>::empty());
    while i < applications.len()
        invariant
            i <= applications.len(),
            s == applications.deep_view(),
            out.deep_view() == targets_of(s.take(i as int)),
        decreases applications.len() - i,
    {
        assert(s.take(i + 1).drop_last() =~= s.take(i as int));
        assert(s.take(i + 1).last() == applications@[i as int]@);
        if !contains(&out, &applications[i].target) {
            let ghost before = out.deep_view();
            out.push(applications[i].target.copy());
            assert(out.deep_view() =~= before.push(applications@[i as int]@.target));
        }
        i = i + 1;
    }
    assert(s.take(i as int) =~= s);
    out
}

/// The hooks of a plan at a position, from an index on, in plan order.
pub open spec fn planned_hooks(plan: HookPlanView, position: HookPosition, n: int) -> Seq<
    PlannedHookView,
>
    decreases n,
{
    if n <= 0 {
        Seq::empty()
    } else {
        let front = planned_hooks(plan, position, n - 1);
        if plan.definitions[n - 1].position == position {
            front.push(
                PlannedHookView {
                    definition: plan.definitions[n - 1],
                    selection: selection_at(plan, n - 1),
                },
            )
        } else {
            front
        }
    }
}

/// The hooks of a plan at a position, in plan order.
pub open spec fn hooks_at(plan: HookPlanView, position: HookPosition) -> Seq<PlannedHookView> {
    planned_hooks(plan, position, plan.definitions.len() as int)
}

/// The hooks of a plan at a position, in plan order.
pub fn plan_hooks(plan: &HookPlan, position: HookPosition) -> (r: Vec<PlannedHook>)
    ensures
        r.deep_view() == hooks_at(plan@, position),
{
    let mut out: Vec<PlannedHook> = Vec::new();
    let mut i: usize = 0;
    assert(out.deep_view() =~= Seq::<PlannedHookView>::empty());
    while i < plan.definitions.len()
        invariant
            i <= plan.definitions.len(),
            out.deep_view() == planned_hooks(plan@, position, i as int),
        decreases plan.definitions.len() - i,
    {
        assert(plan@.definitions[i as int] == plan.definitions@[i as int]@);
        if plan.definitions[i].position == position {
            let selection = match plan.selection(i) {
                Some(selection) => Some(selection.copy()),
                None => None,
            };
            let next = PlannedHook { definition: plan.definitions[i].copy(), selection };
            let ghost added = next@;
            let ghost before = out.deep_view();
            out.push(next);
            assert(out.deep_view() =~= before.push(added));
        }
        i = i + 1;
    }
    assert(plan@.definitions.len() == plan.definitions.len());
    out
}

/// The calls of an identifier.
pub open spec fn of_call(call_id: Seq<char>) -> spec_fn(ToolLedgerEntryView) -> bool {
    |entry: ToolLedgerEntryView| entry.call.call_id == call_id
}

/// Why the first input of a tool chain does not repeat the call.
pub open spec fn tool_input_fault(
    snapshot: RunSnapshotView,
    call_id: Seq<char>,
    record: HookApplicationRecordView,
) -> Option<Fault> {
    match record.input {
        HookInputView::BeforeTool {
            tool,
            descriptor_digest,
            original_model_inputs,
            model_inputs,
            ..
        } => match first_in(snapshot.tool_ledger, of_call(call_id)) {
            None => fault(ErrorCode::InvalidSnapshot, "hooks.call"),
            Some(entry) => if entry.call.tool_name != tool.name || entry.call.descriptor_digest
                != Some(descriptor_digest) || entry.call.model_inputs != original_model_inputs {
                fault(ErrorCode::InvalidSnapshot, "hooks.original_inputs")
            } else if model_inputs == original_model_inputs {
                None
            } else if record.original_defect is Some {
                record.original_defect
            } else if model_inputs != record.normalized_original {
                fault(ErrorCode::InvalidSnapshot, "hooks.original_inputs")
            } else {
                None
            },
        },
        _ => fault(ErrorCode::InvalidSnapshot, "hooks.target_input"),
    }
}

/// Why a chain may not begin with an input.
pub open spec fn first_input_fault(
    snapshot: RunSnapshotView,
    records: Seq<ProtectedRecordView>,
    run_context: Seq<ContextItemView>,
    target: HookTargetView,
    record: HookApplicationRecordView,
) -> Option<Fault> {
    let wrong = fault(ErrorCode::InvalidSnapshot, "hooks.target_input");
    match (target, record.input) {
        (
            HookTargetView::BeforeRun,
            HookInputView::BeforeRun { user_input, context_items },
        ) => if user_input == snapshot.request.input && context_items.len() == 0 {
            None
        } else {
            wrong
        },
        (
            HookTargetView::BeforeModel { model_step_id },
            HookInputView::BeforeModel { user_input, context_items },
        ) => if user_input != snapshot.request.input {
            wrong
        } else if extension_context_fault(snapshot, records, model_step_id) is Some {
            extension_context_fault(snapshot, records, model_step_id)
        } else if context_items == extension_context(snapshot, records, model_step_id)
            + run_context && (snapshot.model_step_id == Some(model_step_id) || some_in(
            snapshot.model_ledger,
            of_model_step(model_step_id),
        )) {
            None
        } else {
            wrong
        },
        (HookTargetView::BeforeTool { call_id }, _) => tool_input_fault(snapshot, call_id, record),
        _ => wrong,
    }
}

fn check_tool_input(snapshot: &RunSnapshot, call_id: &Id, record: &HookApplicationRecord) -> (r:
    Result<(), ContractError>)
    ensures
        failure(r) == tool_input_fault(snapshot@, call_id@, record@),
{
    match &record.input {
        HookInput::BeforeTool {
            tool,
            descriptor_digest,
            original_model_inputs,
            model_inputs,
            ..
        } => {
            let named = |entry: &ToolLedgerEntry| -> (b: bool)
                ensures
                    b == of_call(call_id@)(entry@),
            { entry.call.call_id.same(call_id) };
            let entry = match find(&snapshot.tool_ledger, named, Ghost(of_call(call_id@))) {
                Some(entry) => entry,
                None => {
                    return fail(ErrorCode::InvalidSnapshot, "hooks.call");
                },
            };
            if !entry.call.tool_name.same(&tool.name) || !is_same(
                &entry.call.descriptor_digest,
                descriptor_digest,
            ) || !entry.call.model_inputs.same(original_model_inputs) {
                return fail(ErrorCode::InvalidSnapshot, "hooks.original_inputs");
            }
            if model_inputs.same(original_model_inputs) {
                return Ok(());
            }
            verdict(&record.original_defect)?;
            if !model_inputs.same(&record.normalized_original) {
                return fail(ErrorCode::InvalidSnapshot, "hooks.original_inputs");
            }
            Ok(())
        },
        _ => fail(ErrorCode::InvalidSnapshot, "hooks.target_input"),
    }
}

fn check_first_input(
    snapshot: &RunSnapshot,
    records: &Vec<ProtectedRecord>,
    run_context: &Vec<ContextItem>,
    target: &HookTarget,
    record: &HookApplicationRecord,
) -> (r: Result<(), ContractError>)
    ensures
        failure(r) == first_input_fault(
            snapshot@,
            records.deep_view(),
            run_context.deep_view(),
            target@,
            record@,
        ),
{
    match (target, &record.input) {
        (HookTarget::BeforeRun, HookInput::BeforeRun { user_input, context_items }) => {
            if user_input.same(&snapshot.request.input) && context_items.len() == 0 {
                return Ok(());
            }
        },
        (
            HookTarget::BeforeModel { model_step_id },
            HookInput::BeforeModel { user_input, context_items },
        ) => {
            if user_input.same(&snapshot.request.input) {
                let extension = extension_context_for_step(snapshot, records, model_step_id)?;
                let expected = joined(&extension, run_context);
                let attempted = |invocation: &ModelInvocationRecord| -> (b: bool)
                    ensures
                        b == of_model_step(model_step_id@)(invocation@),
                { invocation.model_step_id.same(model_step_id) };
                if context_items.same(&expected) && (is_same(
                    &snapshot.model_step_id,
                    model_step_id,
                ) || any(
                    &snapshot.model_ledger,
                    attempted,
                    Ghost(of_model_step(model_step_id@)),
                )) {
                    return Ok(());
                }
            }
        },
        (HookTarget::BeforeTool { call_id }, _) => {
            return check_tool_input(snapshot, call_id, record);
        },
        _ => {},
    }
    fail(ErrorCode::InvalidSnapshot, "hooks.target_input")
}

/// Why the chain at a target is broken from a position on. `current` is what the next hook sees,
/// where the chain has begun, and `denied` says that an earlier hook ended it.
pub open spec fn chain_from(
    plan: HookPlanView,
    snapshot: RunSnapshotView,
    records: Seq<ProtectedRecordView>,
    run_context: Seq<ContextItemView>,
    target: HookTargetView,
    applications: Seq<HookApplicationView>,
    hooks: Seq<PlannedHookView>,
    current: Option<HookInputView>,
    denied: bool,
) -> Option<Fault>
    decreases applications.len(),
{
    if applications.len() == 0 || hooks.len() == 0 {
        None
    } else {
        let application = applications[0];
        let hook = hooks[0];
        if denied || application.hook != hook.definition.hook || application.selection
            != hook.selection || application.definition_digest != definition_digest(
            hook.definition,
        ) {
            fault(ErrorCode::InvalidSnapshot, "hooks.chain_order")
        } else {
            match record_named(records, application.result_ref) {
                None => fault(ErrorCode::InvalidSnapshot, "hooks.record_missing"),
                Some(found) => {
                    let record = application_in(found)->Some_0;
                    let input = match current {
                        Some(input) => input,
                        None => record.input,
                    };
                    if application_fault(
                        found,
                        plan,
                        application,
                        snapshot.scope,
                        snapshot.run_id,
                    ) is Some {
                        application_fault(
                            found,
                            plan,
                            application,
                            snapshot.scope,
                            snapshot.run_id,
                        )
                    } else if current is None && first_input_fault(
                        snapshot,
                        records,
                        run_context,
                        target,
                        record,
                    ) is Some {
                        first_input_fault(snapshot, records, run_context, target, record)
                    } else if apply_fault(input, record) is Some {
                        apply_fault(input, record)
                    } else {
                        chain_from(
                            plan,
                            snapshot,
                            records,
                            run_context,
                            target,
                            applications.skip(1),
                            hooks.skip(1),
                            Some(applied_input(input, record)),
                            applied_denial(record) is Some,
                        )
                    }
                },
            }
        }
    }
}

/// Why the chain at a target is broken.
pub open spec fn target_fault(
    plan: HookPlanView,
    snapshot: RunSnapshotView,
    records: Seq<ProtectedRecordView>,
    run_context: Seq<ContextItemView>,
) -> spec_fn(HookTargetView) -> Option<Fault> {
    |target: HookTargetView|
        {
            let applications = kept(snapshot.hook_applications, at_target(target));
            let hooks = hooks_at(plan, target.position());
            if applications.len() > hooks.len() {
                fault(ErrorCode::InvalidSnapshot, "hooks.chain_length")
            } else {
                chain_from(
                    plan,
                    snapshot,
                    records,
                    run_context,
                    target,
                    applications,
                    hooks,
                    None,
                    false,
                )
            }
        }
}

/// Why the applications of a run do not form the chains that its plan asks for. `validated` is what
/// validating the plan against the profile of the run reported.
pub open spec fn chains_fault(
    plan: HookPlanView,
    snapshot: RunSnapshotView,
    records: Seq<ProtectedRecordView>,
    validated: Option<Fault>,
) -> Option<Fault> {
    let run_applications = kept(snapshot.hook_applications, at_target(HookTargetView::BeforeRun));
    let n = snapshot.hook_applications.len() as int;
    if validated is Some {
        validated
    } else if plan.scope != snapshot.scope {
        fault(ErrorCode::InvalidSnapshot, "hooks.scope")
    } else if first_fault(run_applications, run_context_fault(plan, snapshot, records)) is Some {
        first_fault(run_applications, run_context_fault(plan, snapshot, records))
    } else if first_index_fault(0, n, repeated_fault(snapshot.hook_applications)) is Some {
        first_index_fault(0, n, repeated_fault(snapshot.hook_applications))
    } else {
        first_fault(
            targets_of(snapshot.hook_applications),
            target_fault(
                plan,
                snapshot,
                records,
                added_context(run_applications, records),
            ),
        )
    }
}

fn check_chain(
    plan: &HookPlan,
    snapshot: &RunSnapshot,
    records: &Vec<ProtectedRecord>,
    run_context: &Vec<ContextItem>,
    target: &HookTarget,
) -> (r: Result<(), ContractError>)
    ensures
        failure(r) == target_fault(
            plan@,
            snapshot@,
            records.deep_view(),
            run_context.deep_view(),
        )(target@),
{
    let applications = applications_at(&snapshot.hook_applications, target);
    let hooks = plan_hooks(plan, target.position());
    if applications.len() > hooks.len() {
        assert(applications.deep_view().len() > hooks.deep_view().len());
        return fail(ErrorCode::InvalidSnapshot, "hooks.chain_length");
    }
    let ghost a = applications.deep_view();
    let ghost h = hooks.deep_view();
    let ghost whole = chain_from(
        plan@,
        snapshot@,
        records.deep_view(),
        run_context.deep_view(),
        target@,
        a,
        h,
        None,
        false,
    );
    assert(a.len() == applications.len() && h.len() == hooks.len());
    let mut current: Option<HookInput> = None;
    let mut denied = false;
    let mut i: usize = 0;
    assert(a.skip(0) =~= a);
    assert(h.skip(0) =~= h);
    while i < applications.len()
        invariant
            i <= applications.len(),
            applications.len() <= hooks.len(),
            a == applications.deep_view(),
            h == hooks.deep_view(),
            whole == chain_from(
                plan@,
                snapshot@,
                records.deep_view(),
                run_context.deep_view(),
                target@,
                a.skip(i as int),
                h.skip(i as int),
                current.deep_view(),
                denied,
            ),
            whole == target_fault(
                plan@,
                snapshot@,
                records.deep_view(),
                run_context.deep_view(),
            )(target@),
        decreases applications.len() - i,
    {
        let application = &applications[i];
        let hook = &hooks[i];
        assert(a.skip(i as int)[0] == application@ && h.skip(i as int)[0] == hook@);
        assert(a.skip(i as int).skip(1) =~= a.skip(i + 1));
        assert(h.skip(i as int).skip(1) =~= h.skip(i + 1));
        if denied || !application.hook.same(&hook.definition.hook) || !application.selection.same(
            &hook.selection,
        ) || !application.definition_digest.same(&hook.definition.digest()) {
            return fail(ErrorCode::InvalidSnapshot, "hooks.chain_order");
        }
        let found = match find_record(records, &application.result_ref) {
            Some(found) => found,
            None => {
                return fail(ErrorCode::InvalidSnapshot, "hooks.record_missing");
            },
        };
        let record = HookApplicationRecord::restore(
            found,
            plan,
            application,
            &snapshot.scope,
            &snapshot.run_id,
        )?;
        let input = match &current {
            Some(input) => input.copy(),
            None => {
                check_first_input(snapshot, records, run_context, target, record)?;
                record.input.copy()
            },
        };
        let applied = apply(&input, record)?;
        denied = applied.deny.is_some();
        current = Some(applied.input);
        i = i + 1;
    }
    Ok(())
}

/// Check that the applications of a run form the chains that its plan asks for. `validated` is what
/// validating the plan against the profile of the run reported.
pub fn validate_application_chain(
    plan: &HookPlan,
    snapshot: &RunSnapshot,
    records: &Vec<ProtectedRecord>,
    validated: &Option<ContractError>,
) -> (r: Result<(), ContractError>)
    ensures
        failure(r) == chains_fault(plan@, snapshot@, records.deep_view(), validated.deep_view()),
{
    verdict(validated)?;
    if !plan.scope.same(&snapshot.scope) {
        return fail(ErrorCode::InvalidSnapshot, "hooks.scope");
    }
    let run_applications = applications_at(&snapshot.hook_applications, &HookTarget::BeforeRun);
    let context = run_context(plan, snapshot, records, &run_applications)?;
    let unrepeated = |i: usize| -> (r: Result<(), ContractError>)
        requires
            i < snapshot.hook_applications.len(),
        ensures
            failure(r) == repeated_fault(snapshot@.hook_applications)(i as int),
    { check_repeated(&snapshot.hook_applications, i) };
    check_indices(
        snapshot.hook_applications.len(),
        unrepeated,
        Ghost(repeated_fault(snapshot@.hook_applications)),
    )?;
    let chained = |target: &HookTarget| -> (r: Result<(), ContractError>)
        ensures
            failure(r) == target_fault(
                plan@,
                snapshot@,
                records.deep_view(),
                context.deep_view(),
            )(target@),
    { check_chain(plan, snapshot, records, &context, target) };
    check_each(
        &targets(&snapshot.hook_applications),
        chained,
        Ghost(
            target_fault(plan@, snapshot@, records.deep_view(), context.deep_view()),
        ),
    )
}

/// Why the extension context of a step cannot be rebuilt.
pub open spec fn extension_context_fault(
    snapshot: RunSnapshotView,
    records: Seq<ProtectedRecordView>,
    step: Seq<char>,
) -> Option<Fault> {
    or_else(
        source_context_fault(snapshot, records, step),
        skill_context_fault(snapshot, records, step),
    )
}

/// The context that sources and skills gave a step.
pub open spec fn extension_context(
    snapshot: RunSnapshotView,
    records: Seq<ProtectedRecordView>,
    step: Seq<char>,
) -> Seq<ContextItemView> {
    source_context(snapshot, records, step) + skill_context(snapshot, records, step)
}

/// Rebuild the exact historical context that sources and skills gave a step. Active slots may now
/// refer to later steps; only the matching saved batch is accepted.
pub fn extension_context_for_step(
    snapshot: &RunSnapshot,
    records: &Vec<ProtectedRecord>,
    step: &Id,
) -> (r: Result<Vec<ContextItem>, ContractError>)
    ensures
        failure(r) == extension_context_fault(snapshot@, records.deep_view(), step@),
        r matches Ok(items) ==> items.deep_view() == extension_context(
            snapshot@,
            records.deep_view(),
            step@,
        ),
{
    let sources = source_context_for_step(snapshot, records, step)?;
    let skills = context_for_step(snapshot, records, step)?;
    Ok(joined(&sources, &skills))
}

/// What a record holds, read as a source plan.
pub open spec fn source_plan_in(record: ProtectedRecordView) -> Option<ContextSourcePlanView> {
    match record.content {
        RecordContentView::SourcePlan(plan) => Some(plan),
        _ => None,
    }
}

/// Why a saved batch cannot be restored.
pub open spec fn saved_batch_fault(
    snapshot: RunSnapshotView,
    records: Seq<ProtectedRecordView>,
    plan: ContextSourcePlanView,
) -> spec_fn(RecordRefView) -> Option<Fault> {
    |reference: RecordRefView|
        match record_named(records, reference) {
            None => fault(ErrorCode::InvalidSnapshot, "hooks.source_batch"),
            Some(record) => batch_restore_fault(record, plan, snapshot.scope, snapshot.run_id),
        }
}

/// The saved batches of references.
pub open spec fn saved_batches(
    records: Seq<ProtectedRecordView>,
    references: Seq<RecordRefView>,
) -> Seq<ContextBatchView> {
    references.map_values(
        |reference: RecordRefView| batch_in(record_named(records, reference)->Some_0)->Some_0,
    )
}

/// The batches that answer a slot for a step.
pub open spec fn answers_for_step(
    planned: PlannedContextSourceView,
    step: Seq<char>,
) -> spec_fn(ContextBatchView) -> bool {
    |batch: ContextBatchView|
        batch.request.binding == planned.binding && batch.request.definition == planned.definition
            && (planned.binding.trigger is RunStart || batch.request.model_step_id == Some(step))
}

/// Why a slot has no single answer for a step.
pub open spec fn slot_answer_fault(
    snapshot: RunSnapshotView,
    batches: Seq<ContextBatchView>,
    step: Seq<char>,
) -> spec_fn(PlannedContextSourceView) -> Option<Fault> {
    |planned: PlannedContextSourceView|
        {
            let candidates = kept(batches, answers_for_step(planned, step));
            if candidates.len() != 1 {
                fault(ErrorCode::InvalidSnapshot, "hooks.source_generation")
            } else if candidates[0].request.session_id != snapshot.request.session_id
                || candidates[0].request.user_input != snapshot.request.input {
                fault(ErrorCode::InvalidSnapshot, "hooks.source_input")
            } else {
                None
            }
        }
}

/// The items that answer slots for a step, in plan order.
pub open spec fn slot_items(
    batches: Seq<ContextBatchView>,
    bindings: Seq<PlannedContextSourceView>,
    step: Seq<char>,
) -> Seq<ContextItemView>
    decreases bindings.len(),
{
    if bindings.len() == 0 {
        Seq::empty()
    } else {
        slot_items(batches, bindings.drop_last(), step) + kept(
            batches,
            answers_for_step(bindings.last(), step),
        )[0].items
    }
}

/// Why the context that sources gave a step cannot be rebuilt.
pub open spec fn source_context_fault(
    snapshot: RunSnapshotView,
    records: Seq<ProtectedRecordView>,
    step: Seq<char>,
) -> Option<Fault> {
    let missing = fault(ErrorCode::InvalidSnapshot, "hooks.source_plan");
    match snapshot.source_plan_ref {
        None => match snapshot.profile.profile.context_sources {
            Some(sources) => if sources.len() != 0 {
                missing
            } else {
                None
            },
            None => None,
        },
        Some(reference) => match record_named(records, reference) {
            None => missing,
            Some(record) => {
                let plan = source_plan_in(record)->Some_0;
                let identity = plan_restore_fault(
                    canonical_text(record.value),
                    source_plan_in(record),
                    snapshot.scope,
                    reference.digest,
                );
                if identity is Some {
                    identity
                } else if plan_fault(plan, snapshot.profile.profile) is Some {
                    plan_fault(plan, snapshot.profile.profile)
                } else if first_fault(
                    snapshot.context_batches,
                    saved_batch_fault(snapshot, records, plan),
                ) is Some {
                    first_fault(
                        snapshot.context_batches,
                        saved_batch_fault(snapshot, records, plan),
                    )
                } else {
                    first_fault(
                        plan.bindings,
                        slot_answer_fault(
                            snapshot,
                            saved_batches(records, snapshot.context_batches),
                            step,
                        ),
                    )
                }
            },
        },
    }
}

/// The context that sources gave a step.
pub open spec fn source_context(
    snapshot: RunSnapshotView,
    records: Seq<ProtectedRecordView>,
    step: Seq<char>,
) -> Seq<ContextItemView> {
    match snapshot.source_plan_ref {
        None => Seq::empty(),
        Some(reference) => slot_items(
            saved_batches(records, snapshot.context_batches),
            source_plan_in(record_named(records, reference)->Some_0)->Some_0.bindings,
            step,
        ),
    }
}

fn restore_batches(
    snapshot: &RunSnapshot,
    records: &Vec<ProtectedRecord>,
    plan: &ContextSourcePlan,
) -> (r: Result<Vec<ContextBatch>, ContractError>)
    ensures
        failure(r) == first_fault(
            snapshot@.context_batches,
            saved_batch_fault(snapshot@, records.deep_view(), plan@),
        ),
        r matches Ok(batches) ==> batches.deep_view() == saved_batches(
            records.deep_view(),
            snapshot@.context_batches,
        ),
{
    let ghost s = snapshot@.context_batches;
    let ghost f = saved_batch_fault(snapshot@, records.deep_view(), plan@);
    let ghost g = |reference: RecordRefView|
        batch_in(record_named(records.deep_view(), reference)->Some_0)->Some_0;
    let mut batches: Vec<ContextBatch> = Vec::new();
    let mut i: usize = 0;
    assert(s.skip(0) =~= s);
    while i < snapshot.context_batches.len()
        invariant
            i <= snapshot.context_batches.len(),
            s == snapshot@.context_batches,
            s.len() == snapshot.context_batches.len(),
            f == saved_batch_fault(snapshot@, records.deep_view(), plan@),
            g == (|reference: RecordRefView|
                batch_in(record_named(records.deep_view(), reference)->Some_0)->Some_0),
            first_fault(s, f) == first_fault(s.skip(i as int), f),
            batches.deep_view() =~= s.take(i as int).map_values(g),
        decreases snapshot.context_batches.len() - i,
    {
        let reference = &snapshot.context_batches[i];
        assert(s.skip(i as int)[0] == reference@);
        assert(s.skip(i as int).skip(1) =~= s.skip(i + 1));
        assert(s.take(i + 1) =~= s.take(i as int).push(reference@));
        let record = match find_record(records, reference) {
            Some(record) => record,
            None => {
                return fail(ErrorCode::InvalidSnapshot, "hooks.source_batch");
            },
        };
        let batch = ContextBatch::restore(record, plan, &snapshot.scope, &snapshot.run_id)?;
        let ghost before = batches.deep_view();
        assert(batch@ == g(reference@));
        batches.push(batch.copy());
        assert(batches.deep_view() =~= before.push(batch@));
        i = i + 1;
    }
    assert(s.take(i as int) =~= s);
    Ok(batches)
}

fn source_context_for_step(
    snapshot: &RunSnapshot,
    records: &Vec<ProtectedRecord>,
    step: &Id,
) -> (r: Result<Vec<ContextItem>, ContractError>)
    ensures
        failure(r) == source_context_fault(snapshot@, records.deep_view(), step@),
        r matches Ok(items) ==> items.deep_view() == source_context(
            snapshot@,
            records.deep_view(),
            step@,
        ),
{
    let mut items: Vec<ContextItem> = Vec::new();
    assert(items.deep_view() =~= Seq::<ContextItemView>::empty());
    let reference = match &snapshot.source_plan_ref {
        Some(reference) => reference,
        None => {
            if let Some(sources) = &snapshot.profile.profile().context_sources {
                if sources.len() != 0 {
                    return fail(ErrorCode::InvalidSnapshot, "hooks.source_plan");
                }
            }
            return Ok(items);
        },
    };
    let record = match find_record(records, reference) {
        Some(record) => record,
        None => {
            return fail(ErrorCode::InvalidSnapshot, "hooks.source_plan");
        },
    };
    let json = canonical_json(record.value());
    let plan = ContextSourcePlan::restore(
        json.as_str(),
        ContextSourcePlan::read(record.content()),
        &snapshot.scope,
        &reference.digest,
    )?;
    plan.validate(snapshot.profile.profile())?;
    let batches = restore_batches(snapshot, records, plan)?;
    let bindings = plan.bindings();
    let ghost s = plan@.bindings;
    let ghost f = slot_answer_fault(snapshot@, batches.deep_view(), step@);
    let ghost whole = source_context_fault(snapshot@, records.deep_view(), step@);
    let mut i: usize = 0;
    assert(s.skip(0) =~= s);
    assert(s.take(0) =~= Seq::<PlannedContextSourceView>::empty());
    while i < bindings.len()
        invariant
            i <= bindings.len(),
            s == bindings.deep_view(),
            f == slot_answer_fault(snapshot@, batches.deep_view(), step@),
            whole == source_context_fault(snapshot@, records.deep_view(), step@),
            whole == first_fault(s, f),
            first_fault(s, f) == first_fault(s.skip(i as int), f),
            items.deep_view() == slot_items(batches.deep_view(), s.take(i as int), step@),
        decreases bindings.len() - i,
    {
        let planned = &bindings[i];
        assert(s.skip(i as int)[0] == planned@);
        assert(s.skip(i as int).skip(1) =~= s.skip(i + 1));
        assert(s.take(i + 1).drop_last() =~= s.take(i as int));
        assert(s.take(i + 1).last() == planned@);
        let answering = |batch: &ContextBatch| -> (b: bool)
            ensures
                b == answers_for_step(planned@, step@)(batch@),
        {
            batch.request().binding.same(&planned.binding) && batch.request().definition.same(
                &planned.definition,
            ) && (planned.binding.trigger == ContextTrigger::RunStart || is_same(
                &batch.request().model_step_id,
                step,
            ))
        };
        let candidates = keep(&batches, answering, Ghost(answers_for_step(planned@, step@)));
        assert(candidates.deep_view().len() == candidates.len());
        if candidates.len() != 1 {
            return fail(ErrorCode::InvalidSnapshot, "hooks.source_generation");
        }
        let batch = &candidates[0];
        assert(candidates.deep_view()[0] == batch@);
        if !batch.request().session_id.same(&snapshot.request.session_id)
            || !batch.request().user_input.same(&snapshot.request.input) {
            return fail(ErrorCode::InvalidSnapshot, "hooks.source_input");
        }
        items = joined(&items, batch.items());
        i = i + 1;
    }
    assert(s.take(i as int) =~= s);
    Ok(items)
}

/// Why an output cannot be normalized.
pub open spec fn normalize_fault(
    input: HookInputView,
    output: HookOutputView,
    checks: OutputChecksView,
) -> Option<Fault> {
    if input is BeforeTool && output is Tool && checks.normalized_inputs is None {
        fault(ErrorCode::InvalidContract, "hooks.output")
    } else {
        None
    }
}

/// An output with its tool inputs normalized.
pub open spec fn normalized_output(
    input: HookInputView,
    output: HookOutputView,
    checks: OutputChecksView,
) -> HookOutputView {
    match output {
        HookOutputView::Tool { deny, .. } => if input is BeforeTool {
            HookOutputView::Tool { model_inputs: checks.normalized_inputs->Some_0, deny }
        } else {
            output
        },
        _ => output,
    }
}

/// Replace the tool inputs of an output by their normal form.
pub fn normalize_output(input: &HookInput, output: HookOutput, checks: &OutputChecks) -> (r: Result<
    HookOutput,
    ContractError,
>)
    ensures
        failure(r) == normalize_fault(input@, output@, checks@),
        r matches Ok(normalized) ==> normalized@ == normalized_output(input@, output@, checks@),
{
    let before_tool = match input {
        HookInput::BeforeTool { .. } => true,
        _ => false,
    };
    match output {
        HookOutput::Tool { model_inputs, deny } => {
            if !before_tool {
                return Ok(HookOutput::Tool { model_inputs, deny });
            }
            match &checks.normalized_inputs {
                Some(normalized) => Ok(
                    HookOutput::Tool { model_inputs: normalized.copy(), deny },
                ),
                None => fail(ErrorCode::InvalidContract, "hooks.output"),
            }
        },
        other => Ok(other),
    }
}

/// Hooks answer in kind: context before a run or a model step, inputs before a tool, and nothing
/// afterwards. What a hook returns is called with what its position is for, and is not too long.
pub proof fn law_hooks_answer_in_kind(
    definition: HookDefinitionView,
    input: HookInputView,
    output: HookOutputView,
    checks: OutputChecksView,
)
    requires
        output_fault(definition, input, output, checks) is None,
    ensures
        encoded_bytes(hook_output_json(output)) <= definition.max_output_bytes,
        input is BeforeRun <==> definition.position == HookPosition::BeforeRun,
        input is BeforeModel <==> definition.position == HookPosition::BeforeModel,
        input is BeforeTool <==> definition.position == HookPosition::BeforeTool,
        input is AfterTool <==> definition.position == HookPosition::AfterTool,
        input is AfterRun <==> definition.position == HookPosition::AfterRun,
        output is Context <==> input is BeforeRun || input is BeforeModel,
        output is Tool <==> input is BeforeTool,
        output is Observed <==> input is AfterTool || input is AfterRun,
        output is Context ==> checks.additions_safe,
        output is Tool ==> checks.normalized_inputs is Some,
{
}

/// Whatever is short enough and only observes is accepted after a tool or a run.
pub proof fn law_observers_are_accepted(
    definition: HookDefinitionView,
    input: HookInputView,
    checks: OutputChecksView,
)
    requires
        encoded_bytes(hook_output_json(HookOutputView::Observed)) <= definition.max_output_bytes,
        (input is AfterTool && definition.position == HookPosition::AfterTool) || (input is AfterRun
            && definition.position == HookPosition::AfterRun),
    ensures
        output_fault(definition, input, HookOutputView::Observed, checks) is None,
{
}

/// Context that a hook adds is the hook's own, belongs to the scope and the run, and lasts as long as
/// what the hook was called for: for its model step before a model call, for the run before a run.
/// Nothing is added anywhere else.
pub proof fn law_additions_last_as_long_as_their_target(
    item_id: Seq<char>,
    scope: ScopeView,
    run_id: Seq<char>,
    definition: HookDefinitionView,
    target: HookTargetView,
    addition: HookContextAdditionView,
)
    ensures
        ({
            let item = stamped_item(item_id, scope, run_id, definition, target, addition);
            &&& item.is_genuine()
            &&& item.origin == ContextOrigin::Hook
            &&& item.source_ref == definition.hook
            &&& item.scope == scope
            &&& item.content == addition.content
            &&& item.priority_class == addition.priority
            &&& target is BeforeRun ==> item.lifetime is Run && item.lifetime->Run_run_id == run_id
            &&& target is BeforeModel ==> item.lifetime is Step && item.lifetime->Step_run_id
                == run_id && item.lifetime->Step_model_step_id
                == target->BeforeModel_model_step_id
        }),
        stamp_fault(target) is None <==> target is BeforeRun || target is BeforeModel,
{
}

/// A hook adds context and takes none away, and it never changes what the user wrote. A tool hook
/// changes the inputs alone: the tool and the original inputs stay. A hook that failed changes
/// nothing and denies nothing.
pub proof fn law_hooks_keep_what_they_were_given(
    input: HookInputView,
    record: HookApplicationRecordView,
)
    requires
        apply_fault(input, record) is None,
    ensures
        record.input == input,
        record.output is None ==> record.failure is Some && applied_input(input, record) == input
            && applied_denial(record) is None,
        input matches HookInputView::BeforeRun { user_input, context_items } ==> (applied_input(
            input,
            record,
        ) matches HookInputView::BeforeRun { user_input: after, context_items: items } && after
            == user_input && context_items.len() <= items.len() && items.take(
            context_items.len() as int,
        ) == context_items && (record.output is Some ==> items.skip(context_items.len() as int)
            == record.context_items)),
        input matches HookInputView::BeforeModel { user_input, context_items } ==> (applied_input(
            input,
            record,
        ) matches HookInputView::BeforeModel { user_input: after, context_items: items } && after
            == user_input && context_items.len() <= items.len() && items.take(
            context_items.len() as int,
        ) == context_items && (record.output is Some ==> items.skip(context_items.len() as int)
            == record.context_items)),
        input matches HookInputView::BeforeTool { tool, original_model_inputs, .. } ==> (
        applied_input(input, record) matches HookInputView::BeforeTool {
            tool: after,
            original_model_inputs: originals,
            model_inputs,
            ..
        } && after == tool && originals == original_model_inputs && (record.output matches Some(
            HookOutputView::Tool { model_inputs: changed, deny },
        ) ==> model_inputs == changed && applied_denial(record) == deny)),
{
    match input {
        HookInputView::BeforeRun { context_items, .. } => {
            let n = context_items.len() as int;
            assert((context_items + record.context_items).take(n) =~= context_items);
            assert((context_items + record.context_items).skip(n) =~= record.context_items);
            assert(context_items.take(n) =~= context_items);
        },
        HookInputView::BeforeModel { context_items, .. } => {
            let n = context_items.len() as int;
            assert((context_items + record.context_items).take(n) =~= context_items);
            assert((context_items + record.context_items).skip(n) =~= record.context_items);
            assert(context_items.take(n) =~= context_items);
        },
        _ => {},
    }
}

/// A step sees what its sources gave and then what its skills gave, all of it and nothing else.
pub proof fn law_sources_come_before_skills(
    snapshot: RunSnapshotView,
    records: Seq<ProtectedRecordView>,
    step: Seq<char>,
)
    ensures
        ({
            let n = source_context(snapshot, records, step).len() as int;
            let all = extension_context(snapshot, records, step);
            &&& all.take(n) == source_context(snapshot, records, step)
            &&& all.skip(n) == skill_context(snapshot, records, step)
        }),
        extension_context_fault(snapshot, records, step) is None <==> source_context_fault(
            snapshot,
            records,
            step,
        ) is None && skill_context_fault(snapshot, records, step) is None,
{
    let sources = source_context(snapshot, records, step);
    let skills = skill_context(snapshot, records, step);
    let n = sources.len() as int;
    assert((sources + skills).take(n) =~= sources);
    assert((sources + skills).skip(n) =~= skills);
}

/// The answer that a slot gives to a step is the only one that was asked for in that slot: for the step,
/// or for the run where the slot is filled at its start; and it answers what the user wrote in
/// this session.
pub proof fn law_slots_answer_their_step(
    snapshot: RunSnapshotView,
    batches: Seq<ContextBatchView>,
    step: Seq<char>,
    planned: PlannedContextSourceView,
)
    requires
        slot_answer_fault(snapshot, batches, step)(planned) is None,
    ensures
        exists|i: int|
            0 <= i < batches.len() && (#[trigger] batches[i]).request.binding == planned.binding
                && batches[i].request.definition == planned.definition && (
            planned.binding.trigger is RunStart || batches[i].request.model_step_id == Some(step))
                && batches[i].request.user_input == snapshot.request.input
                && batches[i].request.session_id == snapshot.request.session_id && slot_items(
                batches,
                seq![planned],
                step,
            ) == batches[i].items,
{
    let p = answers_for_step(planned, step);
    let candidates = kept(batches, p);
    crate::data::lemma_kept(batches, p);
    assert(candidates.contains(candidates[0]));
    let i = choose|i: int| 0 <= i < batches.len() && batches[i] == candidates[0];
    assert(p(batches[i]));
    let one = seq![planned];
    assert(one.last() == planned);
    assert(one.drop_last() =~= Seq::empty());
    assert(slot_items(batches, one.drop_last(), step) =~= Seq::empty());
    assert(slot_items(batches, one, step) =~= candidates[0].items);
}

/// The hooks of a target are applied in the order of the plan, and none after a denial.
pub proof fn law_chains_follow_the_plan(
    plan: HookPlanView,
    snapshot: RunSnapshotView,
    records: Seq<ProtectedRecordView>,
    run_context: Seq<ContextItemView>,
    target: HookTargetView,
    applications: Seq<HookApplicationView>,
    hooks: Seq<PlannedHookView>,
    current: Option<HookInputView>,
    denied: bool,
    i: int,
)
    requires
        chain_from(
            plan,
            snapshot,
            records,
            run_context,
            target,
            applications,
            hooks,
            current,
            denied,
        ) is None,
        0 <= i < applications.len(),
        i < hooks.len(),
    ensures
        !denied,
        applications[i].hook == hooks[i].definition.hook,
        applications[i].selection == hooks[i].selection,
        applications[i].definition_digest == definition_digest(hooks[i].definition),
        i > 0 ==> applied_denial(
            application_in(record_named(records, applications[i - 1].result_ref)->Some_0)->Some_0,
        ) is None,
    decreases i,
{
    if i > 0 {
        let record = application_in(
            record_named(records, applications[0].result_ref)->Some_0,
        )->Some_0;
        let input = match current {
            Some(input) => input,
            None => record.input,
        };
        assert(applications.skip(1)[i - 1] == applications[i]);
        assert(hooks.skip(1)[i - 1] == hooks[i]);
        law_chains_follow_the_plan(
            plan,
            snapshot,
            records,
            run_context,
            target,
            applications.skip(1),
            hooks.skip(1),
            Some(applied_input(input, record)),
            applied_denial(record) is Some,
            i - 1,
        );
        if i > 1 {
            assert(applications.skip(1)[i - 2] == applications[i - 1]);
        }
    }
}

/// The first hook sees what the user wrote, and no context but what was there: none before a run, and
/// before a model step what sources, skills and the hooks of the run gave. Before a tool it sees
/// the call as the model made it.
pub proof fn law_the_first_hook_sees_what_was_there(
    snapshot: RunSnapshotView,
    records: Seq<ProtectedRecordView>,
    run_context: Seq<ContextItemView>,
    target: HookTargetView,
    record: HookApplicationRecordView,
)
    requires
        first_input_fault(snapshot, records, run_context, target, record) is None,
    ensures
        target is BeforeRun ==> (record.input matches HookInputView::BeforeRun {
            user_input,
            context_items,
        } && user_input == snapshot.request.input && context_items.len() == 0),
        target matches HookTargetView::BeforeModel { model_step_id } ==> (record.input matches
            HookInputView::BeforeModel { user_input, context_items } && user_input
            == snapshot.request.input && context_items == extension_context(
            snapshot,
            records,
            model_step_id,
        ) + run_context),
        target matches HookTargetView::BeforeTool { call_id } ==> (record.input matches
            HookInputView::BeforeTool { tool, original_model_inputs, .. } && exists|k: int|
            0 <= k < snapshot.tool_ledger.len() && (
            #[trigger] snapshot.tool_ledger[k]).call.call_id == call_id
                && snapshot.tool_ledger[k].call.tool_name == tool.name
                && snapshot.tool_ledger[k].call.model_inputs == original_model_inputs),
        target is BeforeRun || target is BeforeModel || target is BeforeTool,
{
    if let HookTargetView::BeforeTool { call_id } = target {
        let ledger = snapshot.tool_ledger;
        crate::data::lemma_first_in(ledger, of_call(call_id));
        let entry = first_in(ledger, of_call(call_id))->Some_0;
        let k = choose|k: int| 0 <= k < ledger.len() && ledger[k] == entry;
        assert(of_call(call_id)(ledger[k]));
    }
}

/// What a chain hands on is what became of its input: the context before a run or a model step, the
/// inputs before a tool, and never both.
pub proof fn law_chains_hand_on_what_they_made(
    input: HookInputView,
    deny: Option<Seq<char>>,
    applications: Seq<HookApplicationView>,
)
    ensures
        transform_of(input, deny, applications).deny == deny,
        transform_of(input, deny, applications).applications == applications,
        input matches HookInputView::BeforeRun { context_items, .. } ==> transform_of(
            input,
            deny,
            applications,
        ).context_items == context_items,
        input matches HookInputView::BeforeModel { context_items, .. } ==> transform_of(
            input,
            deny,
            applications,
        ).context_items == context_items,
        input matches HookInputView::BeforeTool { model_inputs, .. } ==> transform_of(
            input,
            deny,
            applications,
        ).model_inputs == Some(model_inputs) && transform_of(
            input,
            deny,
            applications,
        ).context_items.len() == 0,
        !(input is BeforeTool) ==> transform_of(input, deny, applications).model_inputs is None,
{
}

} // verus!
