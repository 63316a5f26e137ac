use wickle::data::Data;
use wickle::error::{ContractError, ErrorCode};
use wickle::json::{Json, Member, array, member, object, text};
use wickle::model::{ApiContract, ModelTool, ResolvedModelRoute, VersionSemantics};
use wickle::prompt::CompiledTool;
use wickle::provider_tool_schema::{
    ArgumentDecodePlan, ArgumentFieldMapping, ArgumentValueEncoding, CompiledToolContract,
    ProviderToolProjection, ProviderToolSchemaCompiler, ProviderToolSchemaLimits,
    ProviderToolTarget,
};
use wickle::provider_tool_schema::arguments::{
    checked_arguments, normalized_decimal, numbers_preserved, parse_provider_arguments,
    parse_provider_value,
};
use wickle::reader::{JsonText, Reading};
use wickle::refs::VersionedRef;
use wickle::serialization::{Id, JsonDigest, canonical_digest, canonical_json};

fn id(value: &str) -> Id {
    Id::new(value.to_owned()).unwrap()
}

fn error<T>(result: Result<T, ContractError>) -> (ErrorCode, String) {
    match result {
        Ok(_) => panic!("the call succeeded"),
        Err(error) => (error.code, error.path),
    }
}

fn refused(code: ErrorCode, path: &str) -> (ErrorCode, String) {
    (code, path.to_owned())
}

fn digest(value: &str) -> JsonDigest {
    canonical_digest(&text(value))
}

fn versioned(name: &str) -> VersionedRef {
    VersionedRef { id: id(name), version: id("1") }
}

fn route() -> ResolvedModelRoute {
    ResolvedModelRoute {
        binding: versioned("binding"),
        catalog_revision: id("c1"),
        routing_policy_revision: id("p1"),
        requested_model: id("model"),
        model_id: id("model-a"),
        model_version: id("7"),
        version_semantics: VersionSemantics::Pinned,
        provider: id("provider"),
        target: vec![],
        deployment_revision: None,
        api_contract: ApiContract { name: id("chat"), version: id("1") },
        adapter: versioned("adapter"),
        capability_revision: id("cap1"),
        connection_ref: versioned("connection"),
    }
}

struct Compiler {
    plan: fn() -> ArgumentDecodePlan,
    schema: fn() -> Json,
}

impl ProviderToolSchemaCompiler for Compiler {
    fn reference(&self) -> wickle::refs::VersionedRef {
        versioned("compiler")
    }

    fn compile(
        &self,
        tool: &ModelTool,
        _target: &ProviderToolTarget,
    ) -> Result<ProviderToolProjection, ContractError> {
        Ok(ProviderToolProjection {
            wire_tool: ModelTool {
                name: id("wire_clock"),
                description: tool.description.clone(),
                model_input_schema: (self.schema)(),
            },
            decode_plan: (self.plan)(),
        })
    }
}

fn schema(properties: Vec<Member>) -> Json {
    object(vec![
        member("additionalProperties", Json::Bool(false)),
        member("properties", object(properties)),
        member("type", text("object")),
    ])
}

fn zone_schema() -> Json {
    schema(vec![member("zone", object(vec![member("type", text("string"))]))])
}

fn wire_schema() -> Json {
    schema(vec![member("z", object(vec![member("type", text("string"))]))])
}

fn text_schema() -> Json {
    schema(vec![member("input", object(vec![member("type", text("string"))]))])
}

fn renamed() -> ArgumentDecodePlan {
    ArgumentDecodePlan::Fields {
        fields: vec![ArgumentFieldMapping {
            wire_name: "z".to_owned(),
            canonical_name: "zone".to_owned(),
            encoding: ArgumentValueEncoding::Identity,
        }],
    }
}

fn as_text() -> ArgumentDecodePlan {
    ArgumentDecodePlan::JsonObjectText { wire_name: "input".to_owned() }
}

fn tool() -> CompiledTool {
    CompiledTool {
        tool: versioned("clock"),
        name: id("clock"),
        digest: digest("tool"),
        descriptor_digest: digest("descriptor"),
        model_schema_digest: digest("schema"),
        compiler_version: id("1"),
        model_tool: ModelTool {
            name: id("clock"),
            description: "tells the time".to_owned(),
            model_input_schema: zone_schema(),
        },
        bindings: vec![],
        document: Json::Null,
    }
}

fn contract(plan: fn() -> ArgumentDecodePlan, schema: fn() -> Json) -> CompiledToolContract {
    CompiledToolContract::compile(
        &tool(),
        ProviderToolTarget::for_route(&route()),
        &Compiler { plan, schema },
        &ProviderToolSchemaLimits::default(),
    )
    .unwrap()
}

fn arguments() -> Vec<Member> {
    vec![member("zone", text("utc"))]
}

fn decode(contract: &CompiledToolContract, wire: Vec<Member>) -> Result<Vec<Member>, ContractError> {
    let limits = ProviderToolSchemaLimits::default();
    let nested: Vec<JsonText> =
        contract.nested_texts(&wire).iter().map(|text| JsonText::read(text)).collect();
    let raw = JsonText::of_value(&object(wire));
    let decoded = contract.decode_arguments(&raw.text, &limits);
    let from_readings = contract.decode_readings(&raw, &nested, &limits);
    assert!(decoded.is_ok() == from_readings.is_ok());
    if let (Ok(one), Ok(other)) = (&decoded, &from_readings) {
        assert!(one.same(other));
    }
    decoded
}

#[test]
fn decoding_undoes_renaming() {
    let contract = contract(renamed, wire_schema);
    let wire = contract.encode_arguments(&arguments()).unwrap();
    assert_eq!(canonical_json(&object(wire.copy())), "{\"z\":\"utc\"}");
    assert!(decode(&contract, wire).unwrap().same(&arguments()));
    assert!(contract.encode_arguments(&vec![member("other", Json::Null)]).is_err());
}

#[test]
fn decoding_undoes_a_text() {
    let contract = contract(as_text, text_schema);
    let wire = contract.encode_arguments(&arguments()).unwrap();
    assert_eq!(
        canonical_json(&object(wire.copy())),
        "{\"input\":\"{\\\"zone\\\":\\\"utc\\\"}\"}"
    );
    assert!(decode(&contract, wire).unwrap().same(&arguments()));
    assert!(decode(&contract, vec![member("input", Json::Null)]).is_err());
}

fn integer_arguments() -> Vec<Member> {
    vec![member(
        "zone",
        object(vec![
            member("a", array(vec![Json::Number("18446744073709551615".to_owned())])),
            member("b", Json::Number("-9223372036854775808".to_owned())),
            member("c", Json::Number("0".to_owned())),
            member("d", text("\"\u{1}\u{e9}")),
        ]),
    )]
}

fn optional_text() -> ArgumentDecodePlan {
    ArgumentDecodePlan::Fields {
        fields: vec![ArgumentFieldMapping {
            wire_name: "z".to_owned(),
            canonical_name: "zone".to_owned(),
            encoding: ArgumentValueEncoding::JsonText { optional: true },
        }],
    }
}

#[test]
fn integers_and_nested_texts_are_given_back_up_to_the_bound() {
    let given = integer_arguments();
    for contract in [
        contract(renamed, wire_schema),
        contract(optional_text, wire_schema),
        contract(as_text, text_schema),
    ] {
        let raw = canonical_json(&object(contract.encode_arguments(&given).unwrap()));
        let mut limits = ProviderToolSchemaLimits::default();
        limits.max_argument_bytes = raw.len();
        assert!(contract.decode_arguments(&raw, &limits).unwrap().same(&given));
        limits.max_argument_bytes = raw.len() - 1;
        assert!(contract.decode_arguments(&raw, &limits).is_err());
    }
}

#[test]
fn a_contract_keeps_its_identity() {
    let contract = contract(renamed, wire_schema);
    assert_eq!(contract.canonical_name().as_str(), "clock");
    assert_eq!(contract.wire_tool().name.as_str(), "wire_clock");
    let saved = contract.saved();
    let restored = CompiledToolContract::restore(
        &canonical_json(&wickle::provider_tool_schema::encode_contract(&contract)),
        Some(&saved),
        &tool(),
        &ProviderToolTarget::for_route(&route()),
        contract.digest(),
        &ProviderToolSchemaLimits::default(),
    )
    .unwrap();
    assert!(restored.same(&contract));
    let read = |text: &str| {
        error(CompiledToolContract::restore(
            text,
            Some(&saved),
            &tool(),
            &ProviderToolTarget::for_route(&route()),
            contract.digest(),
            &ProviderToolSchemaLimits::default(),
        ))
    };
    assert_eq!(read("{"), refused(ErrorCode::InvalidJson, "$"));
    assert_eq!(read("{\"a\":1,\"a\":1}"), refused(ErrorCode::InvalidJson, "$"));
    let mut other = route();
    other.provider = id("elsewhere");
    assert!(CompiledToolContract::restore(
        "null",
        Some(&saved),
        &tool(),
        &ProviderToolTarget::for_route(&other),
        contract.digest(),
        &ProviderToolSchemaLimits::default(),
    )
    .is_err());
}

struct Failing;

impl ProviderToolSchemaCompiler for Failing {
    fn reference(&self) -> wickle::refs::VersionedRef {
        versioned("compiler")
    }

    fn compile(
        &self,
        _tool: &ModelTool,
        _target: &ProviderToolTarget,
    ) -> Result<ProviderToolProjection, ContractError> {
        Err(ContractError::new(ErrorCode::CapabilityUnsupported, "compiler.broken"))
    }
}

struct Changing {
    calls: std::cell::Cell<u32>,
}

impl ProviderToolSchemaCompiler for Changing {
    fn reference(&self) -> wickle::refs::VersionedRef {
        self.calls.set(self.calls.get() + 1);
        versioned(if self.calls.get() == 1 { "compiler" } else { "another" })
    }

    fn compile(
        &self,
        tool: &ModelTool,
        target: &ProviderToolTarget,
    ) -> Result<ProviderToolProjection, ContractError> {
        Compiler { plan: renamed, schema: wire_schema }.compile(tool, target)
    }
}

#[test]
fn what_a_compiler_reports_is_passed_on() {
    let result = CompiledToolContract::compile(
        &tool(),
        ProviderToolTarget::for_route(&route()),
        &Failing,
        &ProviderToolSchemaLimits::default(),
    );
    assert_eq!(error(result), refused(ErrorCode::CapabilityUnsupported, "compiler.broken"));
}

#[test]
fn a_compiler_stays_the_same() {
    let result = CompiledToolContract::compile(
        &tool(),
        ProviderToolTarget::for_route(&route()),
        &Changing { calls: std::cell::Cell::new(0) },
        &ProviderToolSchemaLimits::default(),
    );
    assert_eq!(
        error(result),
        refused(ErrorCode::UnsupportedInputProjection, "provider_tool.compiler_revision")
    );
}

#[test]
fn a_settled_answer_is_the_compiled_contract() {
    let target = || ProviderToolTarget::for_route(&route());
    let limits = ProviderToolSchemaLimits::default();
    let compiler = Compiler { plan: renamed, schema: wire_schema };
    let answer = || compiler.compile(&tool().model_tool, &target());
    let settled = CompiledToolContract::settle(
        &tool(),
        target(),
        &limits,
        versioned("compiler"),
        answer(),
        versioned("compiler"),
    )
    .unwrap();
    assert!(settled.digest().same(contract(renamed, wire_schema).digest()));
    let revised = CompiledToolContract::settle(
        &tool(),
        target(),
        &limits,
        versioned("compiler"),
        answer(),
        versioned("another"),
    );
    assert_eq!(error(revised).1, "provider_tool.compiler_revision");
}

#[test]
fn a_wire_schema_is_closed() {
    let open = || object(vec![member("type", text("object"))]);
    let result = CompiledToolContract::compile(
        &tool(),
        ProviderToolTarget::for_route(&route()),
        &Compiler { plan: renamed, schema: open },
        &ProviderToolSchemaLimits::default(),
    );
    assert_eq!(error(result).1, "provider_tool.wire_boundary");
}

#[test]
fn numbers_are_compared_by_value() {
    let one = normalized_decimal("1.50").unwrap();
    let same = normalized_decimal("15e-1").unwrap();
    assert!(one.negative == same.negative && one.digits == same.digits && one.exponent == same.exponent);
    assert!(normalized_decimal("1.51").unwrap().digits != one.digits);
    let number = |lexeme: &str| Json::Number(lexeme.to_owned());
    assert!(numbers_preserved(&array(vec![number("100")]), &array(vec![number("1e2")])));
    assert!(!numbers_preserved(
        &array(vec![number("9007199254740993")]),
        &array(vec![number("9007199254740992")])
    ));
}

#[test]
fn arguments_are_an_object_within_bounds() {
    let given = JsonText::of_value(&object(arguments()));
    assert!(checked_arguments(&given, 100).unwrap().same(&arguments()));
    assert!(checked_arguments(&given, 5).is_err());
    assert!(checked_arguments(&JsonText::of_value(&Json::Null), 100).is_err());
    let broken = JsonText { text: "{".to_owned(), reading: Reading::Malformed };
    assert!(checked_arguments(&broken, 100).is_err());
    let raw = "{ \"zone\": \"utc\" }";
    assert!(parse_provider_arguments(raw, 100).unwrap().same(&arguments()));
    assert_eq!(error(parse_provider_arguments(raw, 5)).1, "provider_tool.arguments");
    assert_eq!(error(parse_provider_arguments("null", 100)).1, "provider_tool.arguments");
    assert_eq!(error(parse_provider_arguments("{", 100)).1, "provider_tool.arguments");
    assert_eq!(
        error(parse_provider_arguments("{\"a\":1,\"a\":1}", 100)).1,
        "provider_tool.arguments"
    );
}

#[test]
fn rounded_numbers_are_refused() {
    assert_eq!(
        error(parse_provider_value("[1,{\"a\":0.10000000000000000000001}]", 100)).1,
        "provider_tool.numeric_precision"
    );
    assert_eq!(
        error(parse_provider_value("123456789012345678901", 100)).1,
        "provider_tool.numeric_precision"
    );
    let kept = parse_provider_value("[1.50,18446744073709551615,-0,1e2]", 100).unwrap();
    assert_eq!(canonical_json(&kept), "[1.5,18446744073709551615,-0.0,100.0]");
}

#[test]
fn nested_texts_are_read() {
    let contract = contract(as_text, text_schema);
    let limits = ProviderToolSchemaLimits::default();
    let decoded =
        contract.decode_arguments("{\"input\":\" {\\\"zone\\\" : \\\"utc\\\"}\"}", &limits).unwrap();
    assert!(decoded.same(&arguments()));
    let twice = "{\"input\":\"{\\\"zone\\\":1,\\\"zone\\\":1}\"}";
    assert_eq!(error(contract.decode_arguments(twice, &limits)).1, "provider_tool.arguments");
    let rounded = "{\"input\":\"{\\\"zone\\\":0.10000000000000000000001}\"}";
    assert_eq!(
        error(contract.decode_arguments(rounded, &limits)).1,
        "provider_tool.numeric_precision"
    );
}

#[test]
fn an_unchanged_schema_is_left_to_the_provider() {
    let compiled = |schema: fn() -> Json| {
        let mut given = tool();
        given.model_tool.model_input_schema = zone_schema();
        CompiledToolContract::compile(
            &given,
            ProviderToolTarget::for_route(&route()),
            &Compiler { plan: || ArgumentDecodePlan::Identity, schema },
            &ProviderToolSchemaLimits::default(),
        )
    };
    let unchanged = compiled(zone_schema).unwrap();
    assert!(unchanged.constraint_fragments().is_empty());
    assert_eq!(unchanged.enforcement()[0].canonical_pointer, "");
    assert!(unchanged.enforcement().len() > 1);
    for entry in unchanged.enforcement() {
        assert!(entry.core && entry.provider_native && !entry.context_text);
    }
    let renamed = contract(renamed, wire_schema);
    assert!(!renamed.constraint_fragments().is_empty());
    for entry in renamed.enforcement() {
        assert!(entry.core && !entry.provider_native && entry.context_text);
    }
}
