use orchestra_tools::definition::{ToolDefinition, ToolParameter, ToolParameterType};
use orchestra_tools::json::{JsonNumber, JsonValue};

#[test]
fn test_tool_definition_creation() {
    let tool = ToolDefinition::new("test_tool", "A test tool");
    assert_eq!(tool.name, "test_tool");
    assert_eq!(tool.description, "A test tool");
    assert!(tool.parameters.is_empty());
    assert!(!tool.deprecated);
}

#[test]
fn test_tool_definition_with_parameters() {
    let tool = ToolDefinition::new("calculator", "Basic calculator")
        .with_parameter(
            ToolParameter::new("operation", ToolParameterType::String)
                .with_description("The operation to perform")
                .required(),
        )
        .with_parameter(
            ToolParameter::new("a", ToolParameterType::Number)
                .with_description("First number")
                .required(),
        );

    assert_eq!(tool.parameters.len(), 2);
    assert!(tool.has_parameter("operation"));
    assert!(tool.has_parameter("a"));

    let required_params = tool.required_parameters();
    assert_eq!(required_params.len(), 2);

    let optional_params = tool.optional_parameters();
    assert_eq!(optional_params.len(), 0);
}

#[test]
fn test_tool_definition_validation() {
    let valid_tool = ToolDefinition::new("valid_tool", "A valid tool");
    assert!(valid_tool.validate().is_ok());

    let invalid_tool = ToolDefinition::new("", "Description");
    assert!(invalid_tool.validate().is_err());

    let invalid_tool = ToolDefinition::new("InvalidTool", "Description");
    assert!(invalid_tool.validate().is_err());

    let invalid_tool = ToolDefinition::new("valid_tool", "");
    assert!(invalid_tool.validate().is_err());
}

#[test]
fn test_tool_parameter_creation() {
    let param = ToolParameter::new("test_param", ToolParameterType::String)
        .with_description("A test parameter")
        .required()
        .with_default(JsonValue::string("default_value"));

    assert_eq!(param.name, "test_param");
    assert_eq!(param.parameter_type, ToolParameterType::String);
    assert_eq!(param.description, Some("A test parameter".to_string()));
    assert!(param.required);
    assert_eq!(param.default.as_ref().and_then(|d| d.as_str()), Some("default_value"));
}

#[test]
fn test_tool_parameter_constraints() {
    let string_param = ToolParameter::new("text", ToolParameterType::String)
        .with_enum_values(vec!["option1", "option2"])
        .with_length_range(Some(5), Some(50));

    assert_eq!(
        string_param.enum_values,
        Some(vec!["option1".to_string(), "option2".to_string()])
    );
    assert_eq!(string_param.min_length, Some(5));
    assert_eq!(string_param.max_length, Some(50));

    let number_param = ToolParameter::new("value", ToolParameterType::Number)
        .with_range(Some(JsonNumber::decimal(false, 0, 1)), Some(JsonNumber::decimal(false, 1000, 1)));

    assert_eq!(number_param.minimum, Some(JsonNumber::decimal(false, 0, 1)));
    assert_eq!(number_param.maximum, Some(JsonNumber::decimal(false, 1000, 1)));
}

#[test]
fn test_tool_parameter_validation() {
    let valid_param = ToolParameter::new("valid", ToolParameterType::String);
    assert!(valid_param.validate().is_ok());

    let invalid_param = ToolParameter::new("", ToolParameterType::String);
    assert!(invalid_param.validate().is_err());

    let invalid_param = ToolParameter::new("invalid", ToolParameterType::Number)
        .with_range(Some(JsonNumber::decimal(false, 1000, 1)), Some(JsonNumber::decimal(false, 500, 1)));
    assert!(invalid_param.validate().is_err());
}

#[test]
fn test_json_schema_generation() {
    let tool = ToolDefinition::new("test_tool", "Test tool")
        .with_parameter(
            ToolParameter::new("required_string", ToolParameterType::String)
                .with_description("A required string parameter")
                .required(),
        )
        .with_parameter(
            ToolParameter::new("optional_number", ToolParameterType::Number)
                .with_description("An optional number parameter")
                .with_range(Some(JsonNumber::decimal(false, 0, 1)), Some(JsonNumber::decimal(false, 1000, 1))),
        );

    let schema = tool.to_json_schema();

    assert_eq!(schema.get("type").and_then(|v| v.as_str()), Some("object"));
    assert!(schema.get("properties").unwrap().is_object());
    assert!(schema.get("required").unwrap().is_array());
    assert_eq!(schema.get("additionalProperties").and_then(|v| v.as_bool()), Some(false));

    let required = schema.get("required").unwrap().as_array().unwrap();
    assert_eq!(required.len(), 1);
    assert_eq!(required[0].as_str(), Some("required_string"));

    let properties = schema.get("properties").unwrap();
    assert!(properties.contains_key("required_string"));
    assert!(properties.contains_key("optional_number"));

    let string_prop = properties.get("required_string").unwrap();
    assert_eq!(string_prop.get("type").and_then(|v| v.as_str()), Some("string"));
    assert_eq!(
        string_prop.get("description").and_then(|v| v.as_str()),
        Some("A required string parameter")
    );

    let number_prop = properties.get("optional_number").unwrap();
    assert_eq!(number_prop.get("type").and_then(|v| v.as_str()), Some("number"));
    let zero = JsonNumber::decimal(false, 0, 1);
    let hundred = JsonNumber::decimal(false, 1000, 1);
    let minimum = number_prop.get("minimum").unwrap().as_number().unwrap();
    let maximum = number_prop.get("maximum").unwrap().as_number().unwrap();
    assert!(!minimum.less_than(&zero) && !zero.less_than(&minimum));
    assert!(!maximum.less_than(&hundred) && !hundred.less_than(&maximum));
}

#[test]
fn test_parameter_type_json_schema() {
    assert_eq!(ToolParameterType::String.to_json_schema_type().as_str(), Some("string"));
    assert_eq!(ToolParameterType::Number.to_json_schema_type().as_str(), Some("number"));
    assert_eq!(ToolParameterType::Integer.to_json_schema_type().as_str(), Some("integer"));
    assert_eq!(ToolParameterType::Boolean.to_json_schema_type().as_str(), Some("boolean"));
    assert_eq!(ToolParameterType::Array.to_json_schema_type().as_str(), Some("array"));
    assert_eq!(ToolParameterType::Object.to_json_schema_type().as_str(), Some("object"));
}

#[test]
fn string_parameter_schema_lists_constraints() {
    let param = ToolParameter::new("mode", ToolParameterType::String)
        .with_enum_values(vec!["fast", "slow"])
        .with_length_range(Some(2), Some(8));
    let schema = param.to_json_schema();
    assert_eq!(
        schema.to_json_text(),
        "{\"type\":\"string\",\"enum\":[\"fast\",\"slow\"],\"minLength\":2,\"maxLength\":8}"
    );
}

#[test]
fn constraints_of_other_types_are_left_out() {
    let param = ToolParameter::new("flag", ToolParameterType::Boolean)
        .with_length_range(Some(1), Some(2))
        .with_range(Some(JsonNumber::from_i64(1)), None);
    assert_eq!(param.to_json_schema().to_json_text(), "{\"type\":\"boolean\"}");
}

#[test]
fn array_parameter_schema_lists_item_bounds() {
    let param = ToolParameter::new("list", ToolParameterType::Array)
        .with_description("Items")
        .with_items_range(Some(1), None);
    assert_eq!(
        param.to_json_schema().to_json_text(),
        "{\"type\":\"array\",\"description\":\"Items\",\"minItems\":1}"
    );
}

#[test]
fn length_and_item_bounds_are_checked() {
    let p = ToolParameter::new("s", ToolParameterType::String).with_length_range(Some(9), Some(3));
    assert_eq!(
        p.validate().unwrap_err().to_string(),
        "Configuration error: Minimum length cannot be greater than maximum"
    );
    let p = ToolParameter::new("xs", ToolParameterType::Array).with_items_range(Some(4), Some(2));
    assert_eq!(
        p.validate().unwrap_err().to_string(),
        "Configuration error: Minimum items cannot be greater than maximum"
    );
    let p = ToolParameter::new("n", ToolParameterType::Integer)
        .with_range(Some(JsonNumber::from_i64(-3)), Some(JsonNumber::from_i64(-3)));
    assert!(p.validate().is_ok());
}

#[test]
fn with_parameter_replaces_same_name() {
    let tool = ToolDefinition::new("t", "d")
        .with_parameter(ToolParameter::new("x", ToolParameterType::String))
        .with_parameter(ToolParameter::new("x", ToolParameterType::Number).required());
    assert_eq!(tool.parameters.len(), 1);
    assert_eq!(tool.parameter("x").unwrap().parameter_type, ToolParameterType::Number);
    assert!(tool.deprecated().deprecated);
}
