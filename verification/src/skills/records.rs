//! Records of skill loads, and the context that earlier loads give a step.
use vstd::prelude::*;

use crate::content::{InputContent, ToolCallState, ToolEffect, ToolLedgerEntry, ToolResultStatus};
#[allow(unused_imports)]
use crate::content::{InputContentView, ToolCallStateView, ToolLedgerEntryView};
use crate::context::ContextItem;
#[allow(unused_imports)]
use crate::context::ContextItemView;
use crate::data::{any, find, is_same, map_each, position, Data};
#[allow(unused_imports)]
use crate::data::{first_fault, first_in, position_in, some_in};
use crate::encoding::exceeds_bytes;
#[allow(unused_imports)]
use crate::encoding::encoded_bytes;
use crate::error::{fail, verdict, ContractError, ErrorCode};
#[allow(unused_imports)]
use crate::error::{failure, fault, Fault};
use crate::json::Json;
use crate::model::ModelInvocationRecord;
#[allow(unused_imports)]
use crate::model::ModelInvocationRecordView;
use crate::profile::ToolBindingRef;
#[allow(unused_imports)]
use crate::profile::{SkillRefView, ToolBindingRefView};
use crate::refs::RecordRef;
#[allow(unused_imports)]
use crate::refs::RecordRefView;
use crate::run::RunSnapshot;
#[allow(unused_imports)]
use crate::run::RunSnapshotView;
use crate::serialization::Id;
use crate::skills::runtime::output_limit;
#[allow(unused_imports)]
use crate::skills::runtime::{output_bytes, output_limit_fault};
use crate::skills::{LoadedSkill, SkillPlan};
#[allow(unused_imports)]
use crate::skills::{LoadedSkillView, PlannedSkillView, SkillPlanView};
use crate::state::records::{ProtectedRecord, Recorded};
#[allow(unused_imports)]
use crate::state::records::{ProtectedRecordView, RecordContentView};
#[allow(unused_imports)]
use crate::text::white_space;

verus! {

/// The skill record of a settled call.
pub open spec fn skill_ref_of(entry: ToolLedgerEntryView) -> Option<RecordRefView> {
    match entry.state {
        ToolCallStateView::Settled { result } => result.skill_ref,
        _ => None,
    }
}

/// The skill record of a settled call.
pub fn skill_ref(entry: &ToolLedgerEntry) -> (r: Option<&RecordRef>)
    ensures
        r.deep_view() == skill_ref_of(entry@),
{
    match &entry.state {
        ToolCallState::Settled { result } => match &result.skill_ref {
            Some(reference) => Some(reference),
            None => None,
        },
        _ => None,
    }
}

/// The skill records of settled calls, in order.
pub open spec fn skill_refs_of(entries: Seq<ToolLedgerEntryView>) -> Seq<RecordRefView>
    decreases entries.len(),
{
    if entries.len() == 0 {
        Seq::empty()
    } else {
        let front = skill_refs_of(entries.drop_last());
        match skill_ref_of(entries.last()) {
            Some(reference) => front.push(reference),
            None => front,
        }
    }
}

/// The records that the skills of a run rest on: the plan, then the loads in ledger order.
pub open spec fn skill_references(snapshot: RunSnapshotView) -> Seq<RecordRefView> {
    let plan = match snapshot.skill_plan_ref {
        Some(reference) => seq![reference],
        None => Seq::empty(),
    };
    plan + skill_refs_of(snapshot.tool_ledger)
}

/// The records that the skills of a run rest on.
pub fn references(snapshot: &RunSnapshot) -> (r: Vec<RecordRef>)
    ensures
        r.deep_view() == skill_references(snapshot@),
{
    let ghost s = snapshot@.tool_ledger;
    let mut out: Vec<RecordRef> = Vec::new();
    if let Some(reference) = &snapshot.skill_plan_ref {
        out.push(reference.copy());
    }
    let ghost start = out.deep_view();
    assert(start =~= (match snapshot@.skill_plan_ref {
        Some(reference) => seq![reference],
        None => Seq::empty(),
    }));
    let mut i: usize = 0;
    assert(s.take(0) =~= Seq::<ToolLedgerEntryView>::empty());
    while i < snapshot.tool_ledger.len()
        invariant
            i <= snapshot.tool_ledger.len(),
            s == snapshot@.tool_ledger,
            s.len() == snapshot.tool_ledger.len(),
            out.deep_view() =~= start + skill_refs_of(s.take(i as int)),
        decreases snapshot.tool_ledger.len() - i,
    {
        assert(s.take(i + 1).drop_last() =~= s.take(i as int));
        assert(s.take(i + 1).last() == snapshot.tool_ledger@[i as int]@);
        if let Some(reference) = skill_ref(&snapshot.tool_ledger[i]) {
            let ghost before = out.deep_view();
            out.push(reference.copy());
            assert(out.deep_view() =~= before.push(reference@));
        }
        i = i + 1;
    }
    assert(s.take(i as int) =~= s);
    out
}

/// The name under which a plan's loader is called.
pub open spec fn loader_name(loader: ToolBindingRefView) -> Seq<char> {
    match loader {
        ToolBindingRefView::Export(reference) => match reference.alias {
            Some(alias) => alias,
            None => "skills_load"@,
        },
        ToolBindingRefView::Catalog(_) => "skills_load"@,
    }
}

/// What a record holds, read as a skill load.
pub open spec fn load_in(record: ProtectedRecordView) -> Option<LoadedSkillView> {
    match record.content {
        RecordContentView::LoadedSkill(body) => Some(body),
        _ => None,
    }
}

/// Why a record is not the load of a settled call.
pub open spec fn loaded_fault(
    plan: SkillPlanView,
    entry: ToolLedgerEntryView,
    record: ProtectedRecordView,
) -> Option<Fault> {
    match entry.state {
        ToolCallStateView::Settled { result } => match load_in(record) {
            None => fault(ErrorCode::InvalidSnapshot, "skills.record"),
            Some(body) => if body.defect is Some {
                body.defect
            } else if output_limit_fault(plan.limits) is Some {
                output_limit_fault(plan.limits)
            } else if encoded_bytes(record.value) > output_bytes(plan.limits) {
                fault(ErrorCode::InvalidSnapshot, "skills.output_size")
            } else if result.skill_ref != Some(record.reference) || entry.call.descriptor_digest
                != Some(plan.loader_descriptor_digest) || entry.call.tool_name != loader_name(
                plan.loader,
            ) || !(result.status is Succeeded) || !(result.effect is NotApplied)
                || result.effect_receipt_ref is Some || result.error is Some || result.content
                != seq![InputContentView::Json { value: body.summary }] {
                fault(ErrorCode::InvalidSnapshot, "skills.result")
            } else {
                None
            },
        },
        _ => fault(ErrorCode::InvalidSnapshot, "skills.unsettled"),
    }
}

fn is_json_only(content: &Vec<InputContent>, expected: &Json) -> (r: bool)
    ensures
        r == (content.deep_view() == seq![InputContentView::Json { value: expected@ }]),
{
    let ghost single = seq![InputContentView::Json { value: expected@ }];
    assert(single.len() == 1 && content.deep_view().len() == content@.len());
    if content.len() != 1 {
        return false;
    }
    assert(content.deep_view()[0] == content@[0]@);
    assert(single[0] == (InputContentView::Json { value: expected@ }));
    match &content[0] {
        InputContent::Json { value } => {
            let same = value.same(expected);
            assert(same ==> content.deep_view() =~= single);
            same
        },
        _ => false,
    }
}

fn name_of(loader: &ToolBindingRef) -> (r: Id)
    ensures
        r@ == loader_name(loader@),
{
    proof {
        reveal_strlit("skills_load");
        assert(!white_space("skills_load"@[0]));
    }
    match loader {
        ToolBindingRef::Export(reference) => match &reference.alias {
            Some(alias) => alias.copy(),
            None => Id::literal("skills_load"),
        },
        ToolBindingRef::Catalog(_) => Id::literal("skills_load"),
    }
}

/// Read the load of a settled call from its record.
pub fn loaded<'a>(plan: &SkillPlan, entry: &ToolLedgerEntry, record: &'a ProtectedRecord) -> (r:
    Result<&'a LoadedSkill, ContractError>)
    ensures
        failure(r) == loaded_fault(plan@, entry@, record@),
        r matches Ok(body) ==> load_in(record@) == Some(body@),
{
    let result = match &entry.state {
        ToolCallState::Settled { result } => result,
        _ => {
            return fail(ErrorCode::InvalidSnapshot, "skills.unsettled");
        },
    };
    let body: &'a LoadedSkill = match LoadedSkill::read(record.content()) {
        Some(body) => body,
        None => {
            return fail(ErrorCode::InvalidSnapshot, "skills.record");
        },
    };
    verdict(&body.defect)?;
    let limit: u64 = output_limit(&plan.limits)?;
    if exceeds_bytes(record.value(), limit) {
        return fail(ErrorCode::InvalidSnapshot, "skills.output_size");
    }
    if !is_same(&result.skill_ref, record.reference()) || !is_same(
        &entry.call.descriptor_digest,
        &plan.loader_descriptor_digest,
    ) || !entry.call.tool_name.same(&name_of(&plan.loader)) || result.status
        != ToolResultStatus::Succeeded || result.effect != ToolEffect::NotApplied
        || result.effect_receipt_ref.is_some() || result.error.is_some() || !is_json_only(
        &result.content,
        &body.summary,
    ) {
        return fail(ErrorCode::InvalidSnapshot, "skills.result");
    }
    Ok(body)
}

/// The records with exactly this reference.
pub open spec fn with_reference(reference: RecordRefView) -> spec_fn(ProtectedRecordView) -> bool {
    |record: ProtectedRecordView| record.reference == reference
}

/// The record that a reference names.
pub open spec fn record_named(
    records: Seq<ProtectedRecordView>,
    reference: RecordRefView,
) -> Option<ProtectedRecordView> {
    first_in(records, with_reference(reference))
}

/// The record that a reference names.
pub fn find_record<'a>(records: &'a Vec<ProtectedRecord>, reference: &RecordRef) -> (r: Option<
    &'a ProtectedRecord,
>)
    ensures
        r.deep_view() == record_named(records.deep_view(), reference@),
{
    let named = |record: &ProtectedRecord| -> (b: bool)
        ensures
            b == with_reference(reference@)(record@),
    { record.reference().same(reference) };
    find(records, named, Ghost(with_reference(reference@)))
}

/// What a record holds, read as a skill plan.
pub open spec fn skill_plan_in(record: ProtectedRecordView) -> Option<SkillPlanView> {
    match record.content {
        RecordContentView::SkillPlan(plan) => Some(plan),
        _ => None,
    }
}

/// Why a record is not a usable skill plan.
pub open spec fn skill_plan_fault(record: ProtectedRecordView) -> Option<Fault> {
    match skill_plan_in(record) {
        None => fault(ErrorCode::InvalidSnapshot, "skills.plan"),
        Some(plan) => plan.defect,
    }
}

/// Restore a skill plan from its record.
pub fn restore_plan(record: &ProtectedRecord) -> (r: Result<&SkillPlan, ContractError>)
    ensures
        failure(r) == skill_plan_fault(record@),
        r matches Ok(plan) ==> skill_plan_in(record@) == Some(plan@),
{
    match SkillPlan::read(record.content()) {
        Some(plan) => {
            verdict(&plan.defect)?;
            Ok(plan)
        },
        None => fail(ErrorCode::InvalidSnapshot, "skills.plan"),
    }
}

/// The attempts of a model step.
pub open spec fn of_model_step(step: Seq<char>) -> spec_fn(ModelInvocationRecordView) -> bool {
    |invocation: ModelInvocationRecordView| invocation.model_step_id == step
}

/// The attempt of an identifier.
pub open spec fn of_attempt(attempt: Seq<char>) -> spec_fn(ModelInvocationRecordView) -> bool {
    |invocation: ModelInvocationRecordView| invocation.attempt_id == attempt
}

/// The ledger position of a step's first attempt; a step that was not attempted comes last.
pub open spec fn step_position(snapshot: RunSnapshotView, step: Seq<char>) -> int {
    match position_in(snapshot.model_ledger, of_model_step(step)) {
        Some(i) => i,
        None => snapshot.model_ledger.len() as int,
    }
}

/// The record of a load that was settled before a step.
pub open spec fn load_before(
    snapshot: RunSnapshotView,
    step: Seq<char>,
    entry: ToolLedgerEntryView,
) -> Option<RecordRefView> {
    match skill_ref_of(entry) {
        None => None,
        Some(reference) => match position_in(
            snapshot.model_ledger,
            of_attempt(entry.call.model_request_id),
        ) {
            None => None,
            Some(i) => if i >= step_position(snapshot, step) {
                None
            } else {
                Some(reference)
            },
        },
    }
}

/// Why a ledger entry cannot contribute to a step.
pub open spec fn load_fault(
    snapshot: RunSnapshotView,
    records: Seq<ProtectedRecordView>,
    plan: SkillPlanView,
    step: Seq<char>,
) -> spec_fn(ToolLedgerEntryView) -> Option<Fault> {
    |entry: ToolLedgerEntryView|
        if skill_ref_of(entry) is Some && position_in(
            snapshot.model_ledger,
            of_attempt(entry.call.model_request_id),
        ) is None {
            fault(ErrorCode::InvalidSnapshot, "skills.model_step")
        } else {
            match load_before(snapshot, step, entry) {
                None => None,
                Some(reference) => match record_named(records, reference) {
                    None => fault(ErrorCode::InvalidSnapshot, "skills.record"),
                    Some(record) => loaded_fault(plan, entry, record),
                },
            }
        }
}

/// The loads of a skill.
pub open spec fn of_selection(selection: SkillRefView) -> spec_fn(LoadedSkillView) -> bool {
    |body: LoadedSkillView| body.selection == selection
}

/// The first load of each skill before a step, in ledger order.
pub open spec fn loads_before(
    snapshot: RunSnapshotView,
    records: Seq<ProtectedRecordView>,
    step: Seq<char>,
    entries: Seq<ToolLedgerEntryView>,
) -> Seq<LoadedSkillView>
    decreases entries.len(),
{
    if entries.len() == 0 {
        Seq::empty()
    } else {
        let front = loads_before(snapshot, records, step, entries.drop_last());
        match load_before(snapshot, step, entries.last()) {
            None => front,
            Some(reference) => {
                let body = load_in(record_named(records, reference)->Some_0)->Some_0;
                if some_in(front, of_selection(body.selection)) {
                    front
                } else {
                    front.push(body)
                }
            },
        }
    }
}

/// The loads of planned skills, in plan order.
pub open spec fn in_plan_order(
    skills: Seq<PlannedSkillView>,
    bodies: Seq<LoadedSkillView>,
) -> Seq<LoadedSkillView>
    decreases skills.len(),
{
    if skills.len() == 0 {
        Seq::empty()
    } else {
        let front = in_plan_order(skills.drop_last(), bodies);
        match first_in(bodies, of_selection(skills.last().selection)) {
            Some(body) => front.push(body),
            None => front,
        }
    }
}

/// Why the skills of a step cannot be rebuilt.
pub open spec fn skill_context_fault(
    snapshot: RunSnapshotView,
    records: Seq<ProtectedRecordView>,
    step: Seq<char>,
) -> Option<Fault> {
    match snapshot.skill_plan_ref {
        None => None,
        Some(reference) => match record_named(records, reference) {
            None => fault(ErrorCode::InvalidSnapshot, "skills.record"),
            Some(record) => {
                let plan = skill_plan_in(record)->Some_0;
                let chosen = in_plan_order(
                    plan.skills,
                    loads_before(snapshot, records, step, snapshot.tool_ledger),
                );
                if skill_plan_fault(record) is Some {
                    skill_plan_fault(record)
                } else if first_fault(
                    snapshot.tool_ledger,
                    load_fault(snapshot, records, plan, step),
                ) is Some {
                    first_fault(snapshot.tool_ledger, load_fault(snapshot, records, plan, step))
                } else {
                    first_fault(chosen, |body: LoadedSkillView| body.item_defect)
                }
            },
        },
    }
}

/// The context that skills give a step.
pub open spec fn skill_context(
    snapshot: RunSnapshotView,
    records: Seq<ProtectedRecordView>,
    step: Seq<char>,
) -> Seq<ContextItemView> {
    match snapshot.skill_plan_ref {
        None => Seq::empty(),
        Some(reference) => in_plan_order(
            skill_plan_in(record_named(records, reference)->Some_0)->Some_0.skills,
            loads_before(snapshot, records, step, snapshot.tool_ledger),
        ).map_values(|body: LoadedSkillView| body.context_item),
    }
}

fn record_before<'a>(
    snapshot: &RunSnapshot,
    records: &'a Vec<ProtectedRecord>,
    plan: &SkillPlan,
    step: &Id,
    target: usize,
    entry: &ToolLedgerEntry,
) -> (r: Result<Option<&'a LoadedSkill>, ContractError>)
    requires
        target == step_position(snapshot@, step@),
    ensures
        failure(r) == load_fault(snapshot@, records.deep_view(), plan@, step@)(entry@),
        r matches Ok(body) ==> body.deep_view() == (match load_before(
            snapshot@,
            step@,
            entry@,
        ) {
            None => None,
            Some(reference) => load_in(record_named(records.deep_view(), reference)->Some_0),
        }),
{
    let reference = match skill_ref(entry) {
        Some(reference) => reference,
        None => {
            return Ok(None);
        },
    };
    let attempted = |invocation: &ModelInvocationRecord| -> (b: bool)
        ensures
            b == of_attempt(entry@.call.model_request_id)(invocation@),
    { invocation.attempt_id.same(&entry.call.model_request_id) };
    let index = match position(
        &snapshot.model_ledger,
        attempted,
        Ghost(of_attempt(entry@.call.model_request_id)),
    ) {
        Some(index) => index,
        None => {
            return fail(ErrorCode::InvalidSnapshot, "skills.model_step");
        },
    };
    if index >= target {
        return Ok(None);
    }
    match find_record(records, reference) {
        Some(record) => {
            let body = loaded(plan, entry, record)?;
            Ok(Some(body))
        },
        None => fail(ErrorCode::InvalidSnapshot, "skills.record"),
    }
}

pub(crate) fn ordered_by_plan(plan: &SkillPlan, bodies: &Vec<LoadedSkill>) -> (r: Vec<LoadedSkill>)
    ensures
        r.deep_view() == in_plan_order(plan@.skills, bodies.deep_view()),
{
    let ghost s = plan@.skills;
    let mut out: Vec<LoadedSkill> = Vec::new();
    let mut i: usize = 0;
    assert(s.take(0) =~= Seq::<PlannedSkillView>::empty());
    assert(out.deep_view() =~= Seq::<LoadedSkillView>::empty());
    while i < plan.skills.len()
        invariant
            i <= plan.skills.len(),
            s == plan@.skills,
            s.len() == plan.skills.len(),
            out.deep_view() == in_plan_order(s.take(i as int), bodies.deep_view()),
        decreases plan.skills.len() - i,
    {
        assert(s.take(i + 1).drop_last() =~= s.take(i as int));
        assert(s.take(i + 1).last() == plan.skills@[i as int]@);
        let selection = &plan.skills[i].selection;
        let chosen = |body: &LoadedSkill| -> (b: bool)
            ensures
                b == of_selection(selection@)(body@),
        { body.selection.same(selection) };
        if let Some(body) = find(bodies, chosen, Ghost(of_selection(selection@))) {
            let ghost before = out.deep_view();
            out.push(body.copy());
            assert(out.deep_view() =~= before.push(body@));
        }
        i = i + 1;
    }
    assert(s.take(i as int) =~= s);
    out
}

/// Rebuild the context that skills gave a step, from records.
pub fn context_for_step(snapshot: &RunSnapshot, records: &Vec<ProtectedRecord>, step: &Id) -> (r:
    Result<Vec<ContextItem>, ContractError>)
    ensures
        failure(r) == skill_context_fault(snapshot@, records.deep_view(), step@),
        r matches Ok(items) ==> items.deep_view() == skill_context(
            snapshot@,
            records.deep_view(),
            step@,
        ),
{
    let reference = match &snapshot.skill_plan_ref {
        Some(reference) => reference,
        None => {
            let none: Vec<ContextItem> = Vec::new();
            assert(none.deep_view() =~= Seq::<ContextItemView>::empty());
            return Ok(none);
        },
    };
    let record = match find_record(records, reference) {
        Some(record) => record,
        None => {
            return fail(ErrorCode::InvalidSnapshot, "skills.record");
        },
    };
    let plan = restore_plan(record)?;
    let in_step = |invocation: &ModelInvocationRecord| -> (b: bool)
        ensures
            b == of_model_step(step@)(invocation@),
    { invocation.model_step_id.same(step) };
    let target: usize = match position(
        &snapshot.model_ledger,
        in_step,
        Ghost(of_model_step(step@)),
    ) {
        Some(index) => index,
        None => snapshot.model_ledger.len(),
    };
    let ghost s = snapshot@.tool_ledger;
    let ghost f = load_fault(snapshot@, records.deep_view(), plan@, step@);
    let ghost whole = skill_context_fault(snapshot@, records.deep_view(), step@);
    let mut bodies: Vec<LoadedSkill> = Vec::new();
    let mut i: usize = 0;
    assert(s.skip(0) =~= s);
    assert(s.take(0) =~= Seq::<ToolLedgerEntryView>::empty());
    assert(bodies.deep_view() =~= Seq::<LoadedSkillView>::empty());
    while i < snapshot.tool_ledger.len()
        invariant
            i <= snapshot.tool_ledger.len(),
            s == snapshot@.tool_ledger,
            s.len() == snapshot.tool_ledger.len(),
            f == load_fault(snapshot@, records.deep_view(), plan@, step@),
            whole == skill_context_fault(snapshot@, records.deep_view(), step@),
            first_fault(s, f) is Some ==> whole == first_fault(s, f),
            target == step_position(snapshot@, step@),
            first_fault(s, f) == first_fault(s.skip(i as int), f),
            bodies.deep_view() == loads_before(
                snapshot@,
                records.deep_view(),
                step@,
                s.take(i as int),
            ),
        decreases snapshot.tool_ledger.len() - i,
    {
        let entry = &snapshot.tool_ledger[i];
        assert(s.skip(i as int)[0] == entry@);
        assert(s.skip(i as int).skip(1) =~= s.skip(i + 1));
        assert(s.take(i + 1).drop_last() =~= s.take(i as int));
        assert(s.take(i + 1).last() == entry@);
        let contributed = record_before(snapshot, records, plan, step, target, entry)?;
        if let Some(body) = contributed {
            let repeated = |prior: &LoadedSkill| -> (b: bool)
                ensures
                    b == of_selection(body@.selection)(prior@),
            { prior.selection.same(&body.selection) };
            if !any(&bodies, repeated, Ghost(of_selection(body@.selection))) {
                let ghost before = bodies.deep_view();
                bodies.push(body.copy());
                assert(bodies.deep_view() =~= before.push(body@));
            }
        }
        i = i + 1;
    }
    assert(s.take(i as int) =~= s);
    let chosen = ordered_by_plan(plan, &bodies);
    let built = |body: &LoadedSkill| -> (r: Result<(), ContractError>)
        ensures
            failure(r) == body@.item_defect,
    { verdict(&body.item_defect) };
    crate::data::check_each(&chosen, built, Ghost(|body: LoadedSkillView| body.item_defect))?;
    let item = |body: &LoadedSkill| -> (r: ContextItem)
        ensures
            r@ == body@.context_item,
    { body.context_item.copy() };
    Ok(map_each(&chosen, item, Ghost(|body: LoadedSkillView| body.context_item)))
}

proof fn lemma_loaded_apart(
    snapshot: RunSnapshotView,
    records: Seq<ProtectedRecordView>,
    step: Seq<char>,
    entries: Seq<ToolLedgerEntryView>,
    i: int,
    j: int,
)
    requires
        0 <= i < j < loads_before(snapshot, records, step, entries).len(),
    ensures
        loads_before(snapshot, records, step, entries)[i].selection != loads_before(
            snapshot,
            records,
            step,
            entries,
        )[j].selection,
    decreases entries.len(),
{
    let all = loads_before(snapshot, records, step, entries);
    let front = loads_before(snapshot, records, step, entries.drop_last());
    assert(all[i] == front[i]);
    if j < front.len() {
        assert(all[j] == front[j]);
        lemma_loaded_apart(snapshot, records, step, entries.drop_last(), i, j);
    } else {
        assert(!of_selection(all[j].selection)(front[i]));
    }
}

/// A step sees every skill at most once, however often it was loaded.
pub proof fn law_skills_are_shown_once(
    snapshot: RunSnapshotView,
    records: Seq<ProtectedRecordView>,
    step: Seq<char>,
)
    ensures
        forall|i: int, j: int|
            0 <= i < j < loads_before(snapshot, records, step, snapshot.tool_ledger).len() ==> (
            #[trigger] loads_before(snapshot, records, step, snapshot.tool_ledger)[i]).selection != (
            #[trigger] loads_before(snapshot, records, step, snapshot.tool_ledger)[j]).selection,
{
    let all = loads_before(snapshot, records, step, snapshot.tool_ledger);
    assert forall|i: int, j: int| 0 <= i < j < all.len() implies (#[trigger] all[i]).selection != (
    #[trigger] all[j]).selection by {
        lemma_loaded_apart(snapshot, records, step, snapshot.tool_ledger, i, j);
    }
}

/// A load counts for a step only where it was settled, by a call of an attempt that came before the
/// first attempt of the step; and every such load counts.
pub proof fn law_only_earlier_loads_count(
    snapshot: RunSnapshotView,
    step: Seq<char>,
    entry: ToolLedgerEntryView,
    k: int,
)
    requires
        0 <= k < snapshot.model_ledger.len(),
        snapshot.model_ledger[k].attempt_id == entry.call.model_request_id,
        forall|i: int|
            0 <= i < k ==> (#[trigger] snapshot.model_ledger[i]).attempt_id
                != entry.call.model_request_id,
    ensures
        load_before(snapshot, step, entry) is Some <==> entry.state is Settled
            && entry.state->Settled_result.skill_ref is Some && (forall|i: int|
            0 <= i <= k ==> (#[trigger] snapshot.model_ledger[i]).model_step_id != step),
        load_before(snapshot, step, entry) is Some ==> load_before(snapshot, step, entry)
            == entry.state->Settled_result.skill_ref,
{
    let ledger = snapshot.model_ledger;
    let attempt = of_attempt(entry.call.model_request_id);
    assert(attempt(ledger[k]));
    assert forall|i: int| 0 <= i < k implies !attempt(#[trigger] ledger[i]) by {}
    crate::data::lemma_found_at(ledger, attempt, k);
    let here = of_model_step(step);
    crate::data::lemma_position_in(ledger, here);
    match position_in(ledger, here) {
        Some(p) => {
            assert(here(ledger[p]));
            if k < p {
                assert forall|i: int| 0 <= i <= k implies (#[trigger] ledger[i]).model_step_id
                    != step by {
                    assert(!here(ledger[i]));
                }
            } else {
                assert(ledger[p].model_step_id == step);
            }
        },
        None => {
            assert forall|i: int| 0 <= i <= k implies (#[trigger] ledger[i]).model_step_id
                != step by {
                assert(!here(ledger[i]));
            }
        },
    }
}

/// Loaded skills are shown in the order of the plan, and every planned skill that was loaded is.
pub proof fn law_loaded_skills_are_shown(
    skills: Seq<PlannedSkillView>,
    bodies: Seq<LoadedSkillView>,
    i: int,
    k: int,
)
    requires
        0 <= i < skills.len(),
        0 <= k < bodies.len(),
        bodies[k].selection == skills[i].selection,
    ensures
        exists|m: int|
            0 <= m < in_plan_order(skills, bodies).len() && (#[trigger] in_plan_order(
                skills,
                bodies,
            )[m]).selection == skills[i].selection,
        in_plan_order(skills, bodies).len() <= skills.len(),
    decreases skills.len(),
{
    let all = in_plan_order(skills, bodies);
    let rest = skills.drop_last();
    let front = in_plan_order(rest, bodies);
    let p = of_selection(skills.last().selection);
    crate::data::lemma_first_in(bodies, p);
    lemma_shown_at_most(rest, bodies);
    if i == skills.len() - 1 {
        assert(p(bodies[k]));
        assert(some_in(bodies, p));
        assert(p(all[front.len() as int]));
    } else {
        assert(rest[i] == skills[i]);
        law_loaded_skills_are_shown(rest, bodies, i, k);
        let m = choose|m: int|
            0 <= m < front.len() && (#[trigger] front[m]).selection == skills[i].selection;
        assert(all[m] == front[m]);
    }
}

proof fn lemma_shown_at_most(skills: Seq<PlannedSkillView>, bodies: Seq<LoadedSkillView>)
    ensures
        in_plan_order(skills, bodies).len() <= skills.len(),
    decreases skills.len(),
{
    if skills.len() > 0 {
        lemma_shown_at_most(skills.drop_last(), bodies);
    }
}

/// What loads a skill is a call of the loader that succeeded, had no effect, and shows the model the
/// skill's summary and nothing else.
pub proof fn law_loads_show_a_summary(
    plan: SkillPlanView,
    entry: ToolLedgerEntryView,
    record: ProtectedRecordView,
)
    requires
        loaded_fault(plan, entry, record) is None,
    ensures
        entry.state is Settled,
        entry.call.tool_name == loader_name(plan.loader),
        entry.call.descriptor_digest == Some(plan.loader_descriptor_digest),
        entry.state->Settled_result.status is Succeeded,
        entry.state->Settled_result.effect is NotApplied,
        entry.state->Settled_result.error is None,
        entry.state->Settled_result.skill_ref == Some(record.reference),
        load_in(record) is Some,
        entry.state->Settled_result.content.len() == 1,
        entry.state->Settled_result.content[0] == (InputContentView::Json {
            value: load_in(record)->Some_0.summary,
        }),
        encoded_bytes(record.value) <= output_bytes(plan.limits),
{
}

} // verus!
