//! Inference-only option layering, provenance and route-specific output budgets.
use vstd::prelude::*;

use crate::data::{any, map_each, Data};
#[allow(unused_imports)]
use crate::data::some_in;
use crate::error::{fail, ContractError, ErrorCode};
#[allow(unused_imports)]
use crate::error::{failure, fault, Fault};
use crate::json::{member_value, put_member, Member};
#[allow(unused_imports)]
use crate::json::{
    keys_ascend, keys_distinct, lemma_absent_key, lemma_put_ascends, lemma_put_value,
    lemma_value_of_push, put, value_of, MemberView,
};
use crate::model::ModelPurpose;
use crate::run::RunSnapshot;
#[allow(unused_imports)]
use crate::run::RunSnapshotView;
use crate::serialization::Id;
#[allow(unused_imports)]
use crate::text::lowercase;
use crate::text::{chars_of, concat, reads, to_lowercase};

verus! {

/// Layer that supplied an effective top-level option value.
#[derive(Debug, Clone, Copy, PartialEq, Eq, Structural)]
pub enum ModelOptionSource {
    /// Default of the selected physical binding.
    Binding,
    /// Agent profile override.
    Profile,
    /// Caller override for this Run.
    Run,
    /// Explicit verification or compaction configuration, never inherited from the agent.
    Purpose,
}

impl View for ModelOptionSource {
    type V = ModelOptionSource;

    open spec fn view(&self) -> ModelOptionSource {
        *self
    }
}

impl DeepView for ModelOptionSource {
    type V = ModelOptionSource;

    open spec fn deep_view(&self) -> ModelOptionSource {
        *self
    }
}

impl Data for ModelOptionSource {
    fn same(&self, other: &Self) -> (r: bool) {
        *self == *other
    }

    fn copy(&self) -> (r: Self) {
        *self
    }
}

/// Origin of one top-level option.
#[derive(Debug)]
pub struct OptionOrigin {
    pub key: String,
    pub source: ModelOptionSource,
}

#[verifier::ext_equal]
pub struct OptionOriginView {
    pub key: Seq<char>,
    pub source: ModelOptionSource,
}

impl View for OptionOrigin {
    type V = OptionOriginView;

    open spec fn view(&self) -> OptionOriginView {
        OptionOriginView {
            key: self.key.deep_view(),
            source: self.source.deep_view(),
        }
    }
}

impl DeepView for OptionOrigin {
    type V = OptionOriginView;

    open spec fn deep_view(&self) -> OptionOriginView {
        self@
    }
}

impl Data for OptionOrigin {
    fn same(&self, other: &Self) -> (r: bool) {
        self.key.same(&other.key)
            && self.source.same(&other.source)
    }

    fn copy(&self) -> (r: Self) {
        OptionOrigin {
            key: self.key.copy(),
            source: self.source.copy(),
        }
    }
}

/// Validated inference settings pinned with a physical model invocation.
#[derive(Debug)]
pub struct ModelConfiguration {
    /// Logical overrides after Profile and Run layering, before binding defaults.
    pub requested: Vec<Member>,
    /// Validated final options sent to the adapter.
    pub effective: Vec<Member>,
    /// Origin of each effective top-level key.
    pub sources: Vec<OptionOrigin>,
    /// Exact model-ceiling option schema revision.
    pub model_schema_revision: Id,
    /// Exact selected binding option schema revision.
    pub binding_schema_revision: Id,
    /// Host, Profile and Run upper bound before the selected model ceiling.
    pub requested_max_output_tokens: u64,
    /// Actual finite per-call output upper bound.
    pub max_output_tokens: u64,
}

#[verifier::ext_equal]
pub struct ModelConfigurationView {
    pub requested: Seq<MemberView>,
    pub effective: Seq<MemberView>,
    pub sources: Seq<OptionOriginView>,
    pub model_schema_revision: Seq<char>,
    pub binding_schema_revision: Seq<char>,
    pub requested_max_output_tokens: u64,
    pub max_output_tokens: u64,
}

impl View for ModelConfiguration {
    type V = ModelConfigurationView;

    open spec fn view(&self) -> ModelConfigurationView {
        ModelConfigurationView {
            requested: self.requested.deep_view(),
            effective: self.effective.deep_view(),
            sources: self.sources.deep_view(),
            model_schema_revision: self.model_schema_revision.deep_view(),
            binding_schema_revision: self.binding_schema_revision.deep_view(),
            requested_max_output_tokens: self.requested_max_output_tokens.deep_view(),
            max_output_tokens: self.max_output_tokens.deep_view(),
        }
    }
}

impl DeepView for ModelConfiguration {
    type V = ModelConfigurationView;

    open spec fn deep_view(&self) -> ModelConfigurationView {
        self@
    }
}

impl Data for ModelConfiguration {
    fn same(&self, other: &Self) -> (r: bool) {
        self.requested.same(&other.requested)
            && self.effective.same(&other.effective)
            && self.sources.same(&other.sources)
            && self.model_schema_revision.same(&other.model_schema_revision)
            && self.binding_schema_revision.same(&other.binding_schema_revision)
            && self.requested_max_output_tokens.same(&other.requested_max_output_tokens)
            && self.max_output_tokens.same(&other.max_output_tokens)
    }

    fn copy(&self) -> (r: Self) {
        ModelConfiguration {
            requested: self.requested.copy(),
            effective: self.effective.copy(),
            sources: self.sources.copy(),
            model_schema_revision: self.model_schema_revision.copy(),
            binding_schema_revision: self.binding_schema_revision.copy(),
            requested_max_output_tokens: self.requested_max_output_tokens.copy(),
            max_output_tokens: self.max_output_tokens.copy(),
        }
    }
}


/// A key in lower case, without separators.
pub open spec fn plain_name(key: Seq<char>) -> Seq<char>
    decreases key.len(),
{
    if key.len() == 0 {
        Seq::empty()
    } else {
        let front = plain_name(key.drop_last());
        if key.last() == '_' || key.last() == '-' {
            front
        } else {
            front + lowercase(key.last())
        }
    }
}

/// A plain name that the transport, the wire format or the credentials own.
pub open spec fn is_reserved_name(name: Seq<char>) -> bool {
    ||| name == "model"@
    ||| name == "modelid"@
    ||| name == "deployment"@
    ||| name == "deploymentid"@
    ||| name == "deploymentname"@
    ||| name == "baseurl"@
    ||| name == "endpoint"@
    ||| name == "endpointurl"@
    ||| name == "headers"@
    ||| name == "authorization"@
    ||| name == "apikey"@
    ||| name == "accesstoken"@
    ||| name == "credential"@
    ||| name == "credentials"@
    ||| name == "connection"@
    ||| name == "connectionref"@
    ||| name == "tools"@
    ||| name == "toolchoice"@
    ||| name == "messages"@
    ||| name == "input"@
    ||| name == "system"@
    ||| name == "systemprompt"@
    ||| name == "stream"@
    ||| name == "maxretries"@
    ||| name == "retry"@
    ||| name == "retryconfig"@
    ||| name == "retrypolicy"@
    ||| name == "timeout"@
    ||| name == "timeoutms"@
    ||| name == "maxoutputtokens"@
    ||| name == "maxtokens"@
    ||| name == "maxcompletiontokens"@
    ||| name == "apiversion"@
    ||| name == "extrabody"@
    ||| name == "extraheaders"@
    ||| name == "transport"@
    ||| name == "httpclient"@
    ||| name == "region"@
    ||| name == "location"@
    ||| name == "project"@
}

/// A member that no caller may pass as an inference option.
pub open spec fn is_reserved_option(member: MemberView) -> bool {
    is_reserved_name(plain_name(member.key))
}

/// Why options are refused.
pub open spec fn options_fault(options: Seq<MemberView>) -> Option<Fault> {
    if some_in(options, |member: MemberView| is_reserved_option(member)) {
        fault(ErrorCode::ModelOptionUnsupported, "model.reserved_option")
    } else {
        None
    }
}

fn plain(key: &String) -> (r: String)
    ensures
        r@ == plain_name(key@),
{
    let chars = chars_of(key.as_str());
    let mut out = String::new();
    let mut i: usize = 0;
    assert(key@.take(0) =~= Seq::<char>::empty());
    while i < chars.len()
        invariant
            i <= chars.len(),
            chars@ == key@,
            out@ == plain_name(key@.take(i as int)),
        decreases chars.len() - i,
    {
        assert(key@.take(i + 1).drop_last() =~= key@.take(i as int));
        assert(key@.take(i + 1).last() == chars@[i as int]);
        let c = chars[i];
        if c != '_' && c != '-' {
            let lower = to_lowercase(c);
            out = concat(out.as_str(), lower.as_str());
        }
        i = i + 1;
    }
    assert(key@.take(i as int) =~= key@);
    out
}

/// Whether the transport, the wire format or the credentials own a plain name.
pub fn is_reserved(name: &String) -> (r: bool)
    ensures
        r == is_reserved_name(name@),
{
    reads(name, "model") || reads(name, "modelid") || reads(name, "deployment") || reads(name, "deploymentid") || reads(name, "deploymentname") || reads(name, "baseurl") || reads(name, "endpoint") || reads(name, "endpointurl") || reads(name, "headers") || reads(name, "authorization") || reads(name, "apikey") || reads(name, "accesstoken") || reads(name, "credential") || reads(name, "credentials") || reads(name, "connection") || reads(name, "connectionref") || reads(name, "tools") || reads(name, "toolchoice") || reads(name, "messages") || reads(name, "input") || reads(name, "system") || reads(name, "systemprompt") || reads(name, "stream") || reads(name, "maxretries") || reads(name, "retry") || reads(name, "retryconfig") || reads(name, "retrypolicy") || reads(name, "timeout") || reads(name, "timeoutms") || reads(name, "maxoutputtokens") || reads(name, "maxtokens") || reads(name, "maxcompletiontokens") || reads(name, "apiversion") || reads(name, "extrabody") || reads(name, "extraheaders") || reads(name, "transport") || reads(name, "httpclient") || reads(name, "region") || reads(name, "location") || reads(name, "project")
}

/// Reject transport, credential and wire-owned controls masquerading as inference options.
/// Provider-specific option schemas must still validate the complete effective map.
pub fn validate_inference_options(options: &Vec<Member>) -> (r: Result<(), ContractError>)
    ensures
        failure(r) == options_fault(options.deep_view()),
{
    let reserved = |member: &Member| -> (b: bool)
        ensures
            b == is_reserved_option(member@),
    { is_reserved(&plain(&member.key)) };
    if any(options, reserved, Ghost(|member: MemberView| is_reserved_option(member))) {
        return fail(ErrorCode::ModelOptionUnsupported, "model.reserved_option");
    }
    Ok(())
}

/// Defaults with the complete value of every overridden key replaced, in key order.
pub open spec fn merged(defaults: Seq<MemberView>, overrides: Seq<MemberView>) -> Seq<MemberView>
    decreases overrides.len(),
{
    if overrides.len() == 0 {
        defaults
    } else {
        put(merged(defaults, overrides.drop_last()), overrides.last())
    }
}

/// Replace complete top-level values; never recursively merge nested objects.
pub fn merge_model_options(defaults: &Vec<Member>, overrides: &Vec<Member>) -> (r: Vec<Member>)
    ensures
        r.deep_view() == merged(defaults.deep_view(), overrides.deep_view()),
{
    let ghost s = overrides.deep_view();
    let mut out = defaults.copy();
    let mut i: usize = 0;
    assert(s.take(0) =~= Seq::<MemberView>::empty());
    while i < overrides.len()
        invariant
            i <= overrides.len(),
            s == overrides.deep_view(),
            out.deep_view() == merged(defaults.deep_view(), s.take(i as int)),
        decreases overrides.len() - i,
    {
        assert(s.take(i + 1).drop_last() =~= s.take(i as int));
        assert(s.take(i + 1).last() == overrides@[i as int]@);
        out = put_member(out, overrides[i].copy());
        i = i + 1;
    }
    assert(s.take(i as int) =~= s);
    out
}

/// The options of an agent call: those of the profile under those of the run.
pub open spec fn agent_options_of(snapshot: RunSnapshotView) -> Seq<MemberView> {
    merged(snapshot.profile.profile.model_options, snapshot.request.model_options)
}

/// The options of an agent call: those of the profile under those of the run.
pub fn agent_options(snapshot: &RunSnapshot) -> (r: Vec<Member>)
    ensures
        r.deep_view() == agent_options_of(snapshot@),
{
    merge_model_options(&snapshot.profile.profile().model_options, &snapshot.request.model_options)
}

/// Where a requested option came from.
pub open spec fn origin_of(snapshot: RunSnapshotView, purpose: ModelPurpose) -> spec_fn(
    MemberView,
) -> OptionOriginView {
    |member: MemberView|
        OptionOriginView {
            key: member.key,
            source: if !(purpose is Agent) {
                ModelOptionSource::Purpose
            } else if value_of(snapshot.request.model_options, member.key) is Some {
                ModelOptionSource::Run
            } else {
                ModelOptionSource::Profile
            },
        }
}

/// Where each requested option came from.
pub fn requested_sources(snapshot: &RunSnapshot, purpose: ModelPurpose, requested: &Vec<Member>) -> (r:
    Vec<OptionOrigin>)
    ensures
        r.deep_view() == requested.deep_view().map_values(origin_of(snapshot@, purpose)),
{
    let trace = |member: &Member| -> (r: OptionOrigin)
        ensures
            r@ == origin_of(snapshot@, purpose)(member@),
    {
        let source = if purpose != ModelPurpose::Agent {
            ModelOptionSource::Purpose
        } else if member_value(&snapshot.request.model_options, member.key.as_str()).is_some() {
            ModelOptionSource::Run
        } else {
            ModelOptionSource::Profile
        };
        OptionOrigin { key: member.key.copy(), source }
    };
    map_each(requested, trace, Ghost(origin_of(snapshot@, purpose)))
}

/// The smaller of a bound and another that may be absent.
pub open spec fn tighter(bound: u64, other: Option<u64>) -> u64 {
    match other {
        Some(other) => if other < bound {
            other
        } else {
            bound
        },
        None => bound,
    }
}

/// How many tokens a call may return: the least of what the host, the profile and the run allow.
pub fn output_cap(snapshot: &RunSnapshot, host_cap: u64) -> (r: u64)
    ensures
        r == tighter(
            tighter(host_cap, snapshot@.profile.profile.limits.max_output_tokens),
            snapshot@.request.max_output_tokens,
        ),
{
    let mut cap: u64 = host_cap;
    if let Some(bound) = snapshot.profile.profile().limits.max_output_tokens {
        if bound < cap {
            cap = bound;
        }
    }
    if let Some(bound) = snapshot.request.max_output_tokens {
        if bound < cap {
            cap = bound;
        }
    }
    cap
}

/// A merged option has the value of its override, and without one that of its default.
pub proof fn law_override_wins(
    defaults: Seq<MemberView>,
    overrides: Seq<MemberView>,
    key: Seq<char>,
)
    requires
        keys_distinct(overrides),
    ensures
        value_of(merged(defaults, overrides), key) == (match value_of(overrides, key) {
            Some(value) => Some(value),
            None => value_of(defaults, key),
        }),
    decreases overrides.len(),
{
    if overrides.len() > 0 {
        let front = overrides.drop_last();
        assert(keys_distinct(front)) by {
            assert forall|i: int, j: int| 0 <= i < j < front.len() implies (
            #[trigger] front[i]).key != (#[trigger] front[j]).key by {
                assert(front[i] == overrides[i] && front[j] == overrides[j]);
            }
        }
        law_override_wins(defaults, front, key);
        lemma_put_value(merged(defaults, front), overrides.last(), key);
        lemma_value_of_push(front, overrides.last(), key);
        assert(overrides =~= front.push(overrides.last()));
        if overrides.last().key == key {
            assert(value_of(front, key) is None) by {
                lemma_absent_key(front, key);
            }
        }
    }
}

/// Merging keeps options in strict key order.
pub proof fn law_merged_options_stay_ordered(
    defaults: Seq<MemberView>,
    overrides: Seq<MemberView>,
)
    requires
        keys_ascend(defaults),
    ensures
        keys_ascend(merged(defaults, overrides)),
    decreases overrides.len(),
{
    if overrides.len() > 0 {
        law_merged_options_stay_ordered(defaults, overrides.drop_last());
        lemma_put_ascends(merged(defaults, overrides.drop_last()), overrides.last());
    }
}

/// Merging the same overrides again changes nothing.
pub proof fn law_merge_is_idempotent(
    defaults: Seq<MemberView>,
    overrides: Seq<MemberView>,
    key: Seq<char>,
)
    requires
        keys_distinct(overrides),
    ensures
        value_of(merged(merged(defaults, overrides), overrides), key) == value_of(
            merged(defaults, overrides),
            key,
        ),
{
    law_override_wins(defaults, overrides, key);
    law_override_wins(merged(defaults, overrides), overrides, key);
}

/// The agent option of a key is the one that the run asks for, and only where the run asks for none
/// the one of its profile.
pub proof fn law_run_options_override_the_profile(snapshot: RunSnapshotView, key: Seq<char>)
    requires
        keys_distinct(snapshot.request.model_options),
    ensures
        value_of(snapshot.request.model_options, key) matches Some(value) ==> value_of(
            agent_options_of(snapshot),
            key,
        ) == Some(value),
        value_of(snapshot.request.model_options, key) is None ==> value_of(
            agent_options_of(snapshot),
            key,
        ) == value_of(snapshot.profile.profile.model_options, key),
{
    law_override_wins(
        snapshot.profile.profile.model_options,
        snapshot.request.model_options,
        key,
    );
}

/// Every agent option is traced to the layer that it has its value from, and an option of another
/// purpose to that purpose alone.
pub proof fn law_options_are_traced_to_their_layer(
    snapshot: RunSnapshotView,
    purpose: ModelPurpose,
    member: MemberView,
)
    requires
        keys_distinct(snapshot.request.model_options),
        value_of(agent_options_of(snapshot), member.key) == Some(member.value),
    ensures
        ({
            let origin = origin_of(snapshot, purpose)(member);
            &&& origin.key == member.key
            &&& purpose == ModelPurpose::Agent && origin.source == ModelOptionSource::Run
                ==> value_of(snapshot.request.model_options, member.key) == Some(member.value)
            &&& purpose == ModelPurpose::Agent && origin.source == ModelOptionSource::Profile
                ==> value_of(snapshot.request.model_options, member.key) is None && value_of(
                snapshot.profile.profile.model_options,
                member.key,
            ) == Some(member.value)
            &&& purpose == ModelPurpose::Agent ==> origin.source == ModelOptionSource::Run
                || origin.source == ModelOptionSource::Profile
            &&& purpose != ModelPurpose::Agent ==> origin.source == ModelOptionSource::Purpose
        }),
{
    law_run_options_override_the_profile(snapshot, member.key);
}

/// A bound that may be absent only ever tightens another, and never below itself.
pub proof fn law_a_tighter_bound_holds_both(bound: u64, other: Option<u64>)
    ensures
        tighter(bound, other) <= bound,
        other matches Some(other) ==> tighter(bound, Some(other)) <= other && (tighter(
            bound,
            Some(other),
        ) == bound || tighter(bound, Some(other)) == other),
        other is None ==> tighter(bound, other) == bound,
{
}

/// Two lists of options pass together just where each passes alone: no option makes a reserved one
/// acceptable, and none makes another one reserved.
pub proof fn law_reserved_options_are_refused_in_any_company(
    options: Seq<MemberView>,
    others: Seq<MemberView>,
)
    ensures
        options_fault(options + others) is None <==> options_fault(options) is None
            && options_fault(others) is None,
{
    let p = |member: MemberView| is_reserved_option(member);
    let all = options + others;
    assert forall|i: int| 0 <= i < options.len() implies #[trigger] options[i] == all[i] by {}
    assert forall|i: int| 0 <= i < others.len() implies #[trigger] others[i] == all[options.len()
        + i] by {}
    if some_in(options, p) {
        let i = choose|i: int| 0 <= i < options.len() && p(#[trigger] options[i]);
        assert(p(all[i]));
    }
    if some_in(others, p) {
        let i = choose|i: int| 0 <= i < others.len() && p(#[trigger] others[i]);
        assert(p(all[options.len() + i]));
    }
    if some_in(all, p) {
        let i = choose|i: int| 0 <= i < all.len() && p(#[trigger] all[i]);
        if i < options.len() {
            assert(p(options[i]));
        } else {
            assert(p(others[i - options.len()]));
        }
    }
}

/// A key and the same key with a separator anywhere in it are refused or accepted alike.
pub proof fn law_separators_hide_no_reserved_name(key: Seq<char>, at: int, separator: char)
    requires
        0 <= at <= key.len(),
        separator == '_' || separator == '-',
    ensures
        plain_name(key.insert(at, separator)) == plain_name(key),
    decreases key.len(),
{
    let spread = key.insert(at, separator);
    if at == key.len() {
        assert(spread.drop_last() =~= key);
        assert(spread.last() == separator);
    } else {
        assert(spread.drop_last() =~= key.drop_last().insert(at, separator));
        assert(spread.last() == key.last());
        law_separators_hide_no_reserved_name(key.drop_last(), at, separator);
    }
}

/// No option sets the model, where or how it is reached, with which credentials, what it is shown or
/// how long it may take and answer: those names are refused in every spelling.
pub proof fn law_controls_are_no_options(options: Seq<MemberView>, i: int, name: Seq<char>)
    requires
        0 <= i < options.len(),
        plain_name(options[i].key) == name,
        name == "model"@ || name == "modelid"@ || name == "deployment"@ || name == "deploymentid"@ || name == "deploymentname"@ || name == "baseurl"@ || name == "endpoint"@ || name == "endpointurl"@ || name == "headers"@ || name == "authorization"@ || name == "apikey"@ || name == "accesstoken"@ || name == "credential"@ || name == "credentials"@ || name == "connection"@ || name == "connectionref"@ || name == "tools"@ || name == "toolchoice"@ || name == "messages"@ || name == "input"@ || name == "system"@ || name == "systemprompt"@ || name == "stream"@ || name == "maxretries"@ || name == "retry"@ || name == "retryconfig"@ || name == "retrypolicy"@ || name == "timeout"@ || name == "timeoutms"@ || name == "maxoutputtokens"@ || name == "maxtokens"@ || name == "maxcompletiontokens"@ || name == "apiversion"@ || name == "extrabody"@ || name == "extraheaders"@ || name == "transport"@ || name == "httpclient"@ || name == "region"@ || name == "location"@ || name == "project"@,
    ensures
        options_fault(options) is Some,
{
    let p = |member: MemberView| is_reserved_option(member);
    assert(p(options[i]));
}

} // verus!
