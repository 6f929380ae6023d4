use orchestra_tools::builtin::{
    integer_argument, CalculatorOperation, CalculatorTool, RandomNumberTool, TimestampTool,
};
use orchestra_tools::definition::{ToolDefinition, ToolParameter, ToolParameterType};
use orchestra_tools::error::OrchestraError;
use orchestra_tools::execution::{SimpleToolImpl, ToolExecutor, ToolHandler};
use orchestra_tools::json::{JsonNumber, JsonValue};
use orchestra_tools::registry::ToolRegistry;
use orchestra_tools::result::{ToolErrorType, ToolResult};

#[derive(Debug)]
struct TestTool {
    should_fail: bool,
}

impl ToolHandler for TestTool {
    fn handle(&self, arguments: &JsonValue) -> Result<ToolResult, OrchestraError> {
        if self.should_fail {
            return Ok(ToolResult::error("Simulated failure"));
        }
        let input = arguments.get("input").and_then(|v| v.as_str()).unwrap_or("default");
        Ok(ToolResult::success(JsonValue::object().with(
            "processed",
            JsonValue::string(&format!("Processed: {}", input)),
        )))
    }
}

fn test_tool(name: &str, should_fail: bool) -> SimpleToolImpl<TestTool> {
    let definition = ToolDefinition::new(name, "A test tool").with_parameter(
        ToolParameter::new("input", ToolParameterType::String)
            .with_description("Test input")
            .required(),
    );
    SimpleToolImpl::new(definition, TestTool { should_fail })
}

fn text_arg(key: &str, value: &str) -> JsonValue {
    JsonValue::object().with(key, JsonValue::string(value))
}

#[test]
fn test_executor_creation() {
    let registry: ToolRegistry<TestTool> = ToolRegistry::new();
    let executor = ToolExecutor::new(registry);

    assert!(!executor.has_tool("nonexistent"));
    assert!(executor.available_tools().is_empty());
}

#[test]
fn test_executor_configuration() {
    let registry: ToolRegistry<TestTool> = ToolRegistry::new();
    let executor = ToolExecutor::new(registry)
        .with_timeout(10_000)
        .with_validation(false)
        .with_timing(false);

    assert!(executor.available_tools().is_empty());
    assert_eq!(executor.timeout_ms(), 10_000);
}

#[test]
fn test_successful_tool_execution() {
    let mut registry = ToolRegistry::new();
    registry.register(test_tool("success_tool", false)).unwrap();

    let executor = ToolExecutor::new(registry);

    let result = executor.execute("success_tool", &text_arg("input", "test_value")).unwrap();

    assert!(result.is_success());
    assert!(result.data.is_some());

    let data = result.data.unwrap();
    assert_eq!(data.get("processed").and_then(|v| v.as_str()), Some("Processed: test_value"));
}

#[test]
fn test_tool_execution_failure() {
    let mut registry = ToolRegistry::new();
    registry.register(test_tool("fail_tool", true)).unwrap();

    let executor = ToolExecutor::new(registry);

    let result = executor.execute("fail_tool", &text_arg("input", "test_value")).unwrap();

    assert!(result.is_error());
    assert!(result.error.is_some());
    assert_eq!(result.error.unwrap(), "Simulated failure");
}

#[test]
fn test_nonexistent_tool_execution() {
    let registry: ToolRegistry<TestTool> = ToolRegistry::new();
    let executor = ToolExecutor::new(registry);

    let result = executor.execute("nonexistent", &JsonValue::object());
    assert!(result.is_err());
}

#[test]
fn test_parameter_validation() {
    let mut registry = ToolRegistry::new();
    registry.register(test_tool("validation_tool", false)).unwrap();

    let executor = ToolExecutor::new(registry).with_validation(true);

    let result = executor.execute("validation_tool", &JsonValue::object()).unwrap();
    assert!(result.is_error());
    assert!(result.error.as_ref().unwrap().contains("Required parameter"));

    let result = executor.execute("validation_tool", &text_arg("input", "valid_input")).unwrap();
    assert!(result.is_success());
}

#[derive(Debug)]
struct TestHandler;

impl ToolHandler for TestHandler {
    fn handle(&self, _arguments: &JsonValue) -> Result<ToolResult, OrchestraError> {
        Ok(ToolResult::success(text_arg("result", "test")))
    }
}

#[test]
fn test_parameter_type_validation() {
    let mut registry = ToolRegistry::new();

    let definition = ToolDefinition::new("type_test", "Type validation test")
        .with_parameter(ToolParameter::new("number_param", ToolParameterType::Number).required())
        .with_parameter(
            ToolParameter::new("string_param", ToolParameterType::String)
                .with_enum_values(vec!["option1", "option2"])
                .required(),
        );

    registry.register(SimpleToolImpl::new(definition, TestHandler)).unwrap();

    let executor = ToolExecutor::new(registry).with_validation(true);

    let args = JsonValue::object()
        .with("number_param", JsonValue::string("not_a_number"))
        .with("string_param", JsonValue::string("option1"));
    let result = executor.execute("type_test", &args).unwrap();
    assert!(result.is_error());

    let args = JsonValue::object()
        .with("number_param", JsonValue::from_i64(42))
        .with("string_param", JsonValue::string("invalid_option"));
    let result = executor.execute("type_test", &args).unwrap();
    assert!(result.is_error());

    let args = JsonValue::object()
        .with("number_param", JsonValue::from_i64(42))
        .with("string_param", JsonValue::string("option1"));
    let result = executor.execute("type_test", &args).unwrap();
    assert!(result.is_success());
}

#[test]
fn test_timing_metadata() {
    let mut registry = ToolRegistry::new();
    registry.register(test_tool("timing_tool", false)).unwrap();

    let executor = ToolExecutor::new(registry).with_timing(true);

    let result = executor.execute("timing_tool", &text_arg("input", "test")).unwrap();

    assert!(result.is_success());
    assert!(result.metadata.iter().any(|(k, _)| k == "execution_time_ms"));
}

#[test]
fn test_simple_tool_impl() {
    let definition = ToolDefinition::new("simple_test", "Simple tool test");
    let tool = SimpleToolImpl::new(definition, TestHandler);

    let result = tool.execute(&JsonValue::object()).unwrap();
    assert!(result.is_success());
    assert_eq!(result.data.unwrap().get("result").and_then(|v| v.as_str()), Some("test"));
}

#[test]
fn unknown_and_mistyped_arguments_are_rejected() {
    let mut registry = ToolRegistry::new();
    let definition = ToolDefinition::new("typed", "Typed")
        .with_parameter(ToolParameter::new("count", ToolParameterType::Integer))
        .with_parameter(ToolParameter::new("flag", ToolParameterType::Boolean))
        .with_parameter(ToolParameter::new("items", ToolParameterType::Array).with_items_range(Some(1), Some(2)))
        .with_parameter(ToolParameter::new("opts", ToolParameterType::Object))
        .with_parameter(
            ToolParameter::new("ratio", ToolParameterType::Number)
                .with_range(Some(JsonNumber::decimal(false, 5, 1)), Some(JsonNumber::from_i64(2))),
        );
    registry.register(SimpleToolImpl::new(definition, TestHandler)).unwrap();
    let executor = ToolExecutor::new(registry).with_timing(false);

    let run = |args: JsonValue| executor.execute("typed", &args).unwrap();

    let r = run(text_arg("extra", "x"));
    assert_eq!(r.error.as_deref(), Some("Parameter validation failed: Configuration error: Unknown parameter 'extra'"));
    assert_eq!(r.error_details.as_ref().unwrap().error_type, ToolErrorType::InvalidInput);

    let r = run(JsonValue::object().with("count", JsonValue::number(JsonNumber::decimal(false, 15, 1))));
    assert_eq!(r.error.as_deref(), Some("Parameter validation failed: Configuration error: Parameter 'count' must be an integer"));
    assert!(run(JsonValue::object().with("count", JsonValue::number(JsonNumber::decimal(false, 30, 1)))).is_success());

    let r = run(JsonValue::object().with("flag", JsonValue::string("true")));
    assert_eq!(r.error.as_deref(), Some("Parameter validation failed: Configuration error: Parameter 'flag' must be a boolean"));

    let r = run(JsonValue::object().with("items", JsonValue::array(vec![])));
    assert_eq!(r.error.as_deref(), Some("Parameter validation failed: Configuration error: Parameter 'items' must have at least 1 items"));
    assert!(run(JsonValue::object().with("items", JsonValue::array(vec![JsonValue::null()]))).is_success());

    let r = run(JsonValue::object().with("opts", JsonValue::array(vec![])));
    assert_eq!(r.error.as_deref(), Some("Parameter validation failed: Configuration error: Parameter 'opts' must be an object"));

    let r = run(JsonValue::object().with("ratio", JsonValue::number(JsonNumber::decimal(false, 4, 1))));
    assert_eq!(r.error.as_deref(), Some("Parameter validation failed: Configuration error: Parameter 'ratio' must be at least 0.5"));
    let r = run(JsonValue::object().with("ratio", JsonValue::number(JsonNumber::decimal(false, 201, 2))));
    assert_eq!(r.error.as_deref(), Some("Parameter validation failed: Configuration error: Parameter 'ratio' must be at most 2"));
    assert!(run(JsonValue::object().with("ratio", JsonValue::number(JsonNumber::decimal(false, 200, 2)))).is_success());

    let r = run(JsonValue::array(vec![]));
    assert_eq!(r.error.as_deref(), Some("Parameter validation failed: Configuration error: Arguments must be a JSON object"));
    assert!(r.metadata.is_empty());
}

#[test]
fn validation_can_be_switched_off() {
    let mut registry = ToolRegistry::new();
    registry.register(test_tool("loose", false)).unwrap();
    let executor = ToolExecutor::new(registry).with_validation(false);
    let result = executor.execute("loose", &text_arg("other", "x")).unwrap();
    assert!(result.is_success());
    assert_eq!(result.data.unwrap().get("processed").and_then(|v| v.as_str()), Some("Processed: default"));
}

#[derive(Debug)]
struct RaisingHandler;

impl ToolHandler for RaisingHandler {
    fn handle(&self, _arguments: &JsonValue) -> Result<ToolResult, OrchestraError> {
        Err(OrchestraError::rate_limit("slow down"))
    }
}

#[test]
fn call_level_error_from_tool_becomes_error_result() {
    let mut registry = ToolRegistry::new();
    registry.register(SimpleToolImpl::new(ToolDefinition::new("raiser", "Raises"), RaisingHandler)).unwrap();
    let executor = ToolExecutor::new(registry);
    let result = executor.execute("raiser", &JsonValue::object()).unwrap();
    assert!(result.is_error());
    assert_eq!(result.error.as_deref(), Some("Rate limit exceeded: slow down"));
    assert_eq!(result.error_details.unwrap().error_type, ToolErrorType::RateLimit);
    assert!(result.metadata.iter().any(|(k, _)| k == "execution_time_ms"));
}

#[test]
fn finish_and_timeout_results() {
    let registry: ToolRegistry<TestHandler> = ToolRegistry::new();
    let executor = ToolExecutor::new(registry);
    let r = executor.finish(Ok(ToolResult::success(JsonValue::null())), 42);
    assert_eq!(r.metadata.len(), 1);
    assert_eq!(r.metadata[0].0, "execution_time_ms");
    assert_eq!(r.metadata[0].1.as_number(), Some(JsonNumber::from_u64(42)));
    let t = executor.timeout_result("slow");
    assert_eq!(t.error.as_deref(), Some("Tool 'slow' timed out"));
    assert_eq!(t.error_details.unwrap().error_type, ToolErrorType::Timeout);
    let untimed = ToolExecutor::new(ToolRegistry::<TestHandler>::new()).with_timing(false);
    let r = untimed.finish(Ok(ToolResult::success(JsonValue::null())), 42);
    assert!(r.metadata.is_empty());
}

#[test]
fn calculator_checks_operands() {
    let args = JsonValue::object()
        .with("operation", JsonValue::string("multiply"))
        .with("a", JsonValue::from_i64(6))
        .with("b", JsonValue::from_i64(-7));
    let c = CalculatorTool::prepare(&args).unwrap();
    assert_eq!(c.operation, CalculatorOperation::Multiply);
    assert_eq!(c.a, JsonNumber::from_i64(6));
    assert_eq!(c.b, JsonNumber::from_i64(-7));

    let args = JsonValue::object().with("operation", JsonValue::string("power"))
        .with("a", JsonValue::from_i64(2)).with("b", JsonValue::from_i64(3));
    let r = CalculatorTool::prepare(&args).unwrap_err();
    assert_eq!(r.error.as_deref(), Some("Unknown operation: power"));
    assert_eq!(r.error_details.unwrap().message, "Invalid operation");

    let args = JsonValue::object().with("operation", JsonValue::string("add"));
    let e = CalculatorTool::prepare(&args).unwrap_err();
    assert_eq!(e.error.as_deref(), Some("Missing or invalid parameter 'a'"));
    assert_eq!(e.error_details.unwrap().error_type, ToolErrorType::InvalidInput);
    let args = JsonValue::object().with("operation", JsonValue::string("add")).with("a", JsonValue::from_i64(1));
    assert_eq!(
        CalculatorTool::prepare(&args).unwrap_err().error.as_deref(),
        Some("Missing or invalid parameter 'b'")
    );
    assert!(CalculatorTool::prepare(&JsonValue::object()).is_err());
    assert_eq!(CalculatorTool::new().definition().name, "calculator");
}

#[test]
fn timestamp_formats() {
    let r = TimestampTool::format_timestamp("unix", 1_700_000_005);
    assert_eq!(r.data.unwrap().to_json_text(), "{\"timestamp\":1700000005,\"format\":\"unix\"}");
    let r = TimestampTool::format_timestamp("iso8601", 1_700_000_005);
    assert_eq!(
        r.data.unwrap().get("timestamp").and_then(|v| v.as_str()),
        Some("2024-01-01T00:00:25Z")
    );
    let r = TimestampTool::format_timestamp("human", 42);
    assert_eq!(
        r.data.unwrap().get("timestamp").and_then(|v| v.as_str()),
        Some("Current time (simplified): 42 seconds since epoch")
    );
    let r = TimestampTool::format_timestamp("mayan", 42);
    assert_eq!(r.error.as_deref(), Some("Unknown format: mayan"));
    let live = TimestampTool::new().handle(&JsonValue::object()).unwrap();
    assert!(live.is_success());
}

#[test]
fn random_number_pick() {
    let r = RandomNumberTool::pick(10, 20, 25);
    assert_eq!(r.data.unwrap().to_json_text(), "{\"value\":13,\"min\":10,\"max\":20}");
    let r = RandomNumberTool::pick(-5, -5, 999);
    assert_eq!(r.data.unwrap().get("value").unwrap().as_number(), Some(JsonNumber::from_i64(-5)));
    let r = RandomNumberTool::pick(i64::MIN, i64::MAX, u128::MAX);
    assert!(r.is_success());
    let r = RandomNumberTool::pick(3, 2, 0);
    assert_eq!(r.error.as_deref(), Some("Minimum value cannot be greater than maximum"));
    let args = JsonValue::object().with("min", JsonValue::from_i64(7)).with("max", JsonValue::from_i64(7));
    let live = RandomNumberTool::new().handle(&args).unwrap();
    assert_eq!(live.data.unwrap().get("value").unwrap().as_number(), Some(JsonNumber::from_i64(7)));
}

#[test]
fn string_bounds_count_bytes() {
    let mut registry = ToolRegistry::new();
    let definition = ToolDefinition::new("words", "Words").with_parameter(
        ToolParameter::new("w", ToolParameterType::String).with_length_range(Some(2), Some(3)),
    );
    registry.register(SimpleToolImpl::new(definition, TestHandler)).unwrap();
    let executor = ToolExecutor::new(registry);
    let r = executor.execute("words", &text_arg("w", "a")).unwrap();
    assert_eq!(r.error.as_deref(), Some("Parameter validation failed: Configuration error: Parameter 'w' must be at least 2 characters"));
    let r = executor.execute("words", &text_arg("w", "abcd")).unwrap();
    assert_eq!(r.error.as_deref(), Some("Parameter validation failed: Configuration error: Parameter 'w' must be at most 3 characters"));
    assert!(executor.execute("words", &text_arg("w", "é")).unwrap().is_success());
    let r = executor.execute("words", &text_arg("w", "hé")).unwrap();
    assert!(r.is_success());
    let r = executor.execute("words", &text_arg("w", "héé")).unwrap();
    assert_eq!(r.error.as_deref(), Some("Parameter validation failed: Configuration error: Parameter 'w' must be at most 3 characters"));
}

#[test]
fn tool_arguments_are_read_with_defaults() {
    let r = TimestampTool::respond(&JsonValue::object(), 9);
    assert_eq!(r.data.unwrap().to_json_text(), "{\"timestamp\":9,\"format\":\"unix\"}");
    let r = TimestampTool::respond(&text_arg("format", "human"), 9);
    assert_eq!(r.data.unwrap().get("format").and_then(|v| v.as_str()), Some("human"));
    let r = TimestampTool::respond(&JsonValue::object().with("format", JsonValue::from_i64(1)), 9);
    assert!(r.is_success());
    let r = TimestampTool::respond(&text_arg("format", "rfc"), 9);
    assert_eq!(r.error.as_deref(), Some("Unknown format: rfc"));

    let args = JsonValue::object().with("min", JsonValue::from_i64(5));
    assert_eq!(integer_argument(&args, "min", 0), 5);
    assert_eq!(integer_argument(&args, "max", 100), 100);
    let args = JsonValue::object().with("min", JsonValue::number(JsonNumber::decimal(false, 15, 1)));
    assert_eq!(integer_argument(&args, "min", 0), 0);
    let args = JsonValue::object().with("min", JsonValue::number(JsonNumber::decimal(false, 30, 1)));
    assert_eq!(integer_argument(&args, "min", 0), 3);
    let r = RandomNumberTool::respond(&JsonValue::object(), 250);
    assert_eq!(r.data.unwrap().to_json_text(), "{\"value\":48,\"min\":0,\"max\":100}");
    let args = JsonValue::object().with("min", JsonValue::from_i64(9)).with("max", JsonValue::from_i64(1));
    assert!(RandomNumberTool::respond(&args, 0).is_error());
}

#[test]
fn calculator_success_document() {
    let args = JsonValue::object()
        .with("operation", JsonValue::string("add"))
        .with("a", JsonValue::from_i64(2))
        .with("b", JsonValue::number(JsonNumber::decimal(false, 5, 1)));
    let c = CalculatorTool::prepare(&args).unwrap();
    let r = CalculatorTool::success_result(&c, "add", JsonNumber::decimal(false, 25, 1));
    assert_eq!(
        r.data.unwrap().to_json_text(),
        "{\"result\":2.5,\"operation\":\"add\",\"operands\":[2,0.5]}"
    );
}
