use orchestra_tools::builtin::{CalculatorOperation, CalculatorTool};
use orchestra_tools::definition::{ToolDefinition, ToolParameter, ToolParameterType};
use orchestra_tools::error::OrchestraError;
use orchestra_tools::execution::{SimpleToolImpl, ToolExecutor, ToolHandler};
use orchestra_tools::json::{JsonNumber, JsonValue};
use orchestra_tools::messages::SystemMessage;
use orchestra_tools::providers::ProviderSource;
use orchestra_tools::registry::ToolRegistry;
use orchestra_tools::result::{ToolError, ToolErrorType, ToolResult, ToolResultStatus};

#[derive(Debug)]
struct Echo;

impl ToolHandler for Echo {
    fn handle(&self, arguments: &JsonValue) -> Result<ToolResult, OrchestraError> {
        Ok(ToolResult::success(arguments.copy()))
    }
}

/// Runs the calculator: the checks come from the library, the arithmetic is
/// floating point.
#[derive(Debug)]
struct Calculator;

fn to_f64(n: JsonNumber) -> f64 {
    let v = n.digits as f64 / 10f64.powi(n.scale as i32);
    if n.negative { -v } else { v }
}

impl ToolHandler for Calculator {
    fn handle(&self, arguments: &JsonValue) -> Result<ToolResult, OrchestraError> {
        match CalculatorTool::prepare(arguments) {
            Err(rejected) => Ok(rejected),
            Ok(c) => {
                let (a, b) = (to_f64(c.a), to_f64(c.b));
                let v = match c.operation {
                    CalculatorOperation::Add => a + b,
                    CalculatorOperation::Subtract => a - b,
                    CalculatorOperation::Multiply => a * b,
                    CalculatorOperation::Divide => a / b,
                };
                Ok(ToolResult::success(JsonValue::object().with("result", JsonValue::string(&v.to_string()))))
            }
        }
    }
}

#[test]
fn valid_names_and_descriptions_validate() {
    for name in ["a", "tool_1", "x9_y", "___", "0"] {
        assert!(ToolDefinition::new(name, "does things").validate().is_ok(), "{}", name);
    }
    for name in ["A", "tool-1", "with space", "é"] {
        assert!(ToolDefinition::new(name, "does things").validate().is_err(), "{}", name);
    }
}

#[test]
fn mismatched_parameter_key_fails_validation() {
    let mut def = ToolDefinition::new("tool", "desc");
    def.parameters.push(("key".to_string(), ToolParameter::new("name", ToolParameterType::String)));
    let err = def.validate().unwrap_err();
    assert_eq!(
        err.to_string(),
        "Configuration error: Parameter name mismatch: key 'key' vs parameter name 'name'"
    );
}

#[test]
fn second_registration_of_a_name_fails() {
    let mut registry = ToolRegistry::new();
    let first = registry.register(SimpleToolImpl::new(ToolDefinition::new("same", "one"), Echo));
    let second = registry.register(SimpleToolImpl::new(ToolDefinition::new("same", "two"), Echo));
    assert!(first.is_ok());
    assert!(second.is_err());
    assert_eq!(registry.len(), 1);
}

#[test]
fn missing_tool_is_a_call_level_error() {
    for validate in [true, false] {
        let registry: ToolRegistry<Echo> = ToolRegistry::new();
        let executor = ToolExecutor::new(registry).with_validation(validate);
        let err = executor.execute("missing_tool", &JsonValue::object()).unwrap_err();
        assert_eq!(err.to_string(), "Configuration error: Tool 'missing_tool' not found");
    }
}

#[test]
fn required_and_enum_parameters() {
    let mut registry = ToolRegistry::new();
    let def = ToolDefinition::new("pick", "Picks")
        .with_parameter(ToolParameter::new("a", ToolParameterType::Number).required())
        .with_parameter(ToolParameter::new("b", ToolParameterType::String).with_enum_values(vec!["x", "y"]));
    registry.register(SimpleToolImpl::new(def, Echo)).unwrap();
    let executor = ToolExecutor::new(registry);

    let r = executor.execute("pick", &JsonValue::object()).unwrap();
    assert_eq!(r.status, ToolResultStatus::Error);
    assert!(r.error.as_ref().unwrap().contains("Required parameter 'a' is missing"));

    let args = JsonValue::object().with("a", JsonValue::from_i64(1)).with("b", JsonValue::string("z"));
    let r = executor.execute("pick", &args).unwrap();
    assert_eq!(r.status, ToolResultStatus::Error);
    assert!(r.error.as_ref().unwrap().contains("Parameter 'b' must be one of: [\"x\", \"y\"]"));

    let args = JsonValue::object().with("a", JsonValue::from_i64(1)).with("b", JsonValue::string("x"));
    let r = executor.execute("pick", &args).unwrap();
    assert_eq!(r.status, ToolResultStatus::Success);
}

#[test]
fn calculator_division_by_zero_is_an_error_result() {
    let mut registry = ToolRegistry::new();
    registry.register(SimpleToolImpl::new(CalculatorTool::new().definition().copy(), Calculator)).unwrap();
    let executor = ToolExecutor::new(registry);
    let args = JsonValue::object()
        .with("operation", JsonValue::string("divide"))
        .with("a", JsonValue::from_i64(10))
        .with("b", JsonValue::from_i64(0));
    let r = executor.execute("calculator", &args).unwrap();
    assert!(r.is_error());
    assert_eq!(r.error.as_deref(), Some("Division by zero"));
    assert_eq!(r.error_details.unwrap().error_type, ToolErrorType::InvalidInput);

    let args = JsonValue::object()
        .with("operation", JsonValue::string("divide"))
        .with("a", JsonValue::from_i64(10))
        .with("b", JsonValue::from_i64(4));
    let r = executor.execute("calculator", &args).unwrap();
    assert_eq!(r.data.unwrap().get("result").and_then(|v| v.as_str()), Some("2.5"));
}

#[test]
fn timing_entry_follows_the_setting() {
    for timing in [true, false] {
        let mut registry = ToolRegistry::new();
        registry.register(SimpleToolImpl::new(
            ToolDefinition::new("echo", "Echo").with_parameter(ToolParameter::new("v", ToolParameterType::Integer)),
            Echo,
        )).unwrap();
        let executor = ToolExecutor::new(registry).with_timing(timing);
        let ok = executor.execute("echo", &JsonValue::object()).unwrap();
        let rejected = executor.execute("echo", &JsonValue::object().with("w", JsonValue::null())).unwrap();
        assert!(rejected.is_error());
        for r in [ok, rejected] {
            let entry = r.metadata.iter().find(|(k, _)| k == "execution_time_ms");
            if timing {
                let n = entry.unwrap().1.as_number().unwrap();
                assert!(!n.negative);
                assert_eq!(n.scale, 0);
            } else {
                assert!(entry.is_none());
            }
        }
    }
}

#[test]
fn category_membership_is_not_duplicated() {
    let mut registry = ToolRegistry::new();
    registry.register(SimpleToolImpl::new(ToolDefinition::new("calc", "Calc"), Echo)).unwrap();
    registry.add_to_category("math", "calc").unwrap();
    assert_eq!(registry.tools_in_category("math"), vec!["calc".to_string()]);
    registry.add_to_category("math", "calc").unwrap();
    assert_eq!(registry.tools_in_category("math"), vec!["calc".to_string()]);
}

#[test]
fn schema_export_is_repeatable() {
    let mut registry = ToolRegistry::new();
    registry.register(SimpleToolImpl::new(
        ToolDefinition::new("one", "First").with_parameter(ToolParameter::new("p", ToolParameterType::String).required()),
        Echo,
    )).unwrap();
    registry.register(SimpleToolImpl::new(ToolDefinition::new("two", "Second"), Echo)).unwrap();
    let first = registry.to_json_schema().to_json_text();
    let second = registry.to_json_schema().to_json_text();
    assert_eq!(first, second);
}

#[test]
fn number_order_and_integrality() {
    let half = JsonNumber::decimal(false, 5, 1);
    let one = JsonNumber::from_i64(1);
    let minus_two = JsonNumber::from_i64(-2);
    assert!(half.less_than(&one));
    assert!(!one.less_than(&half));
    assert!(minus_two.less_than(&half));
    assert!(!JsonNumber::decimal(true, 0, 0).less_than(&JsonNumber::decimal(false, 0, 3)));
    assert!(JsonNumber::decimal(false, 300, 2).is_integer());
    assert!(!JsonNumber::decimal(false, 301, 2).is_integer());
    assert_eq!(JsonNumber::decimal(true, 4000, 3).as_i64(), Some(-4));
    assert_eq!(JsonNumber::decimal(false, 45, 1).as_i64(), None);
    assert_eq!(JsonNumber::from_u64(u64::MAX).as_i64(), None);
    assert!(JsonNumber::decimal(false, 1, 40).less_than(&JsonNumber::decimal(false, 1, 39)));
}

#[test]
fn json_text_of_documents() {
    let doc = JsonValue::object()
        .with("s", JsonValue::string("say \"hi\"\n"))
        .with("n", JsonValue::number(JsonNumber::decimal(true, 25, 3)))
        .with("b", JsonValue::boolean(true))
        .with("list", JsonValue::array(vec![JsonValue::null(), JsonValue::from_u64(7)]));
    assert_eq!(
        doc.to_json_text(),
        "{\"s\":\"say \\\"hi\\\"\\n\",\"n\":-0.025,\"b\":true,\"list\":[null,7]}"
    );
    let replaced = doc.with("b", JsonValue::boolean(false));
    assert_eq!(replaced.get("b").and_then(|v| v.as_bool()), Some(false));
}

#[test]
fn result_summaries() {
    let ok = ToolResult::success(JsonValue::object().with("x", JsonValue::from_i64(1)));
    assert_eq!(ok.to_string(), "Success: {\"x\":1}");
    assert_eq!(ToolResult::error("boom").to_string(), "Error: boom");
    let partial = ToolResult::partial(JsonValue::string("half"));
    assert_eq!(partial.to_string(), "Partial: \"half\"");
    assert!(partial.completed_at.is_none());
    let done = partial.complete();
    assert!(done.is_success());
    assert!(done.completed_at.is_some());
    assert!(done.duration_ms().is_some());
    let with_meta = ToolResult::success(JsonValue::null()).with_metadata("k", JsonValue::from_i64(1)).with_metadata("k", JsonValue::from_i64(2));
    assert_eq!(with_meta.metadata.len(), 1);
    assert_eq!(with_meta.metadata[0].1.as_number(), Some(JsonNumber::from_i64(2)));
}

#[test]
fn tool_error_builders() {
    let e = ToolError::new(ToolErrorType::Network, "down")
        .with_context("host", JsonValue::string("example"))
        .with_cause("timeout")
        .retryable();
    assert_eq!(e.error_type, ToolErrorType::Network);
    assert_eq!(e.message, "down");
    assert_eq!(e.context.as_ref().unwrap().len(), 1);
    assert_eq!(e.cause.as_deref(), Some("timeout"));
    assert!(e.retryable);
    assert_eq!(ToolErrorType::PermissionDenied.to_string(), "Permission Denied");
    let r = ToolResult::error_with_details("bad", e);
    assert!(r.is_error() && !r.is_success() && !r.is_partial());
}

#[test]
fn error_texts() {
    assert_eq!(OrchestraError::provider("gemini", "quota").to_string(), "Provider error: gemini - quota");
    assert_eq!(OrchestraError::timeout("late").to_string(), "Request timeout: late");
    assert_eq!(OrchestraError::api_key("none").to_string(), "API key error: none");
    assert_eq!(OrchestraError::generic("x").to_string(), "Orchestra error: x");
}

#[test]
fn provider_sources() {
    assert_eq!(ProviderSource::from_str("GeMiNi"), Some(ProviderSource::Gemini));
    assert_eq!(ProviderSource::from_str("OPENAI"), Some(ProviderSource::OpenAI));
    assert_eq!(ProviderSource::from_str("other"), None);
    assert_eq!(ProviderSource::from_lowercase("Gemini"), None);
    assert_eq!(ProviderSource::Gemini.as_str(), "gemini");
    assert_eq!(ProviderSource::OpenAI.as_str(), "openai");
    assert_eq!(SystemMessage::new("be brief").content, "be brief");
}

#[test]
fn document_kinds_and_members() {
    assert!(JsonValue::null().is_null());
    assert!(JsonValue::from_i64(3).is_number());
    assert!(JsonValue::string("s").is_string());
    assert!(!JsonValue::string("s").is_number());
    let mut doc = JsonValue::object();
    doc.set("a", JsonValue::from_i64(1));
    doc.set("b", JsonValue::from_i64(2));
    doc.set("a", JsonValue::from_i64(3));
    assert_eq!(doc.to_json_text(), "{\"a\":3,\"b\":2}");
    let mut not_object = JsonValue::array(vec![]);
    not_object.set("a", JsonValue::null());
    assert_eq!(not_object.to_json_text(), "[]");
    assert_eq!(doc.copy().to_json_text(), doc.to_json_text());
    assert!(doc.get("missing").is_none());
}

#[test]
fn remaining_error_texts() {
    assert_eq!(OrchestraError::model("m").to_string(), "Model error: m");
    assert_eq!(OrchestraError::authentication("a").to_string(), "Authentication failed: a");
    assert_eq!(OrchestraError::invalid_response("r").to_string(), "Invalid response format: r");
    assert_eq!(OrchestraError::config("c").to_string(), "Configuration error: c");
    let labels = [
        (ToolErrorType::InvalidInput, "Invalid Input"),
        (ToolErrorType::Authentication, "Authentication Error"),
        (ToolErrorType::Network, "Network Error"),
        (ToolErrorType::ExternalService, "External Service Error"),
        (ToolErrorType::Internal, "Internal Error"),
        (ToolErrorType::Timeout, "Timeout"),
        (ToolErrorType::RateLimit, "Rate Limit"),
        (ToolErrorType::NotFound, "Not Found"),
        (ToolErrorType::PermissionDenied, "Permission Denied"),
        (ToolErrorType::Unknown, "Unknown Error"),
    ];
    for (kind, label) in labels {
        assert_eq!(kind.to_string(), label);
    }
}

#[test]
fn repeated_parameter_key_fails_validation() {
    let mut def = ToolDefinition::new("tool", "desc")
        .with_parameter(ToolParameter::new("p", ToolParameterType::String));
    def.parameters.push(("p".to_string(), ToolParameter::new("p", ToolParameterType::Number)));
    let err = def.validate().unwrap_err();
    assert_eq!(err.to_string(), "Configuration error: Parameter 'p' is defined more than once");
}

#[test]
fn malformed_calculator_input_is_an_error_result() {
    let mut registry = ToolRegistry::new();
    registry.register(SimpleToolImpl::new(CalculatorTool::new().definition().copy(), Calculator)).unwrap();
    let executor = ToolExecutor::new(registry).with_validation(false);
    let args = JsonValue::object()
        .with("operation", JsonValue::string("add"))
        .with("a", JsonValue::string("one"))
        .with("b", JsonValue::from_i64(2));
    let r = executor.execute("calculator", &args).unwrap();
    assert!(r.is_error());
    assert!(r.data.is_none());
    assert_eq!(r.error.as_deref(), Some("Missing or invalid parameter 'a'"));
    assert_eq!(r.error_details.unwrap().error_type, ToolErrorType::InvalidInput);
    let r = executor.execute("calculator", &JsonValue::object()).unwrap();
    assert_eq!(r.error.as_deref(), Some("Missing operation parameter"));
}
