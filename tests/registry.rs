use orchestra_tools::definition::{ToolDefinition, ToolParameter, ToolParameterType};
use orchestra_tools::error::OrchestraError;
use orchestra_tools::execution::{SimpleToolImpl, ToolHandler};
use orchestra_tools::json::JsonValue;
use orchestra_tools::registry::ToolRegistry;
use orchestra_tools::result::ToolResult;

#[derive(Debug)]
struct MockHandler;

impl ToolHandler for MockHandler {
    fn handle(&self, _arguments: &JsonValue) -> Result<ToolResult, OrchestraError> {
        Ok(ToolResult::success(
            JsonValue::object().with("result", JsonValue::string("mock")),
        ))
    }
}

fn mock_tool(name: &str, description: &str) -> SimpleToolImpl<MockHandler> {
    SimpleToolImpl::new(ToolDefinition::new(name, description), MockHandler)
}

#[test]
fn test_registry_creation() {
    let registry: ToolRegistry<MockHandler> = ToolRegistry::new();
    assert_eq!(registry.len(), 0);
    assert!(registry.is_empty());
    assert!(registry.tool_names().is_empty());
}

#[test]
fn test_tool_registration() {
    let mut registry = ToolRegistry::new();
    let tool = mock_tool("test_tool", "A test tool");

    assert!(registry.register(tool).is_ok());
    assert_eq!(registry.len(), 1);
    assert!(!registry.is_empty());
    assert!(registry.has_tool("test_tool"));

    let names = registry.tool_names();
    assert_eq!(names.len(), 1);
    assert!(names.contains(&"test_tool".to_string()));
}

#[test]
fn test_duplicate_tool_registration() {
    let mut registry = ToolRegistry::new();
    let tool1 = mock_tool("duplicate", "First tool");
    let tool2 = mock_tool("duplicate", "Second tool");

    assert!(registry.register(tool1).is_ok());

    assert!(registry.register(tool2).is_err());
    assert_eq!(registry.len(), 1);
}

#[test]
fn test_tool_retrieval() {
    let mut registry = ToolRegistry::new();
    let tool = mock_tool("retrieval_test", "Test retrieval");

    registry.register(tool).unwrap();

    let definition = registry.get_tool_definition("retrieval_test");
    assert!(definition.is_some());
    let def = definition.unwrap();
    assert_eq!(def.name, "retrieval_test");
    assert_eq!(def.description, "Test retrieval");

    assert!(registry.get_tool_definition("nonexistent").is_none());
}

#[test]
fn test_tool_unregistration() {
    let mut registry = ToolRegistry::new();
    let tool = mock_tool("removable", "Will be removed");

    registry.register(tool).unwrap();
    assert!(registry.has_tool("removable"));

    assert!(registry.unregister("removable"));
    assert!(!registry.has_tool("removable"));
    assert_eq!(registry.len(), 0);

    assert!(!registry.unregister("nonexistent"));
}

#[test]
fn test_registry_clear() {
    let mut registry = ToolRegistry::new();

    registry.register(mock_tool("tool1", "First")).unwrap();
    registry.register(mock_tool("tool2", "Second")).unwrap();
    assert_eq!(registry.len(), 2);

    registry.clear();
    assert_eq!(registry.len(), 0);
    assert!(registry.is_empty());
}

#[test]
fn test_tool_categories() {
    let mut registry = ToolRegistry::new();
    let tool = mock_tool("categorized", "A categorized tool");

    registry.register(tool).unwrap();

    assert!(registry.add_to_category("math", "categorized").is_ok());
    assert!(registry.add_to_category("utility", "categorized").is_ok());

    let categories = registry.category_names();
    assert!(categories.contains(&"math".to_string()));
    assert!(categories.contains(&"utility".to_string()));

    let math_tools = registry.tools_in_category("math");
    assert_eq!(math_tools.len(), 1);
    assert!(math_tools.contains(&"categorized".to_string()));

    assert!(registry.add_to_category("test", "nonexistent").is_err());
}

#[test]
fn test_tool_definitions_retrieval() {
    let mut registry = ToolRegistry::new();

    registry.register(mock_tool("tool1", "First tool")).unwrap();
    registry.register(mock_tool("tool2", "Second tool")).unwrap();

    let definitions = registry.tool_definitions();
    assert_eq!(definitions.len(), 2);

    let names: Vec<String> = definitions.iter().map(|d| d.name.clone()).collect();
    assert!(names.contains(&"tool1".to_string()));
    assert!(names.contains(&"tool2".to_string()));
}

#[test]
fn test_json_schema_export() {
    let mut registry = ToolRegistry::new();

    let tool_def = ToolDefinition::new("schema_test", "Test schema generation").with_parameter(
        ToolParameter::new("param1", ToolParameterType::String).required(),
    );

    registry.register(SimpleToolImpl::new(tool_def, MockHandler)).unwrap();

    let schema = registry.to_json_schema();
    assert!(schema.get("tools").unwrap().is_array());

    let tools = schema.get("tools").unwrap().as_array().unwrap();
    assert_eq!(tools.len(), 1);

    let tool_schema = &tools[0];
    assert_eq!(tool_schema.get("type").and_then(|v| v.as_str()), Some("function"));
    assert!(tool_schema.get("function").unwrap().is_object());

    let function = tool_schema.get("function").unwrap();
    assert_eq!(function.get("name").and_then(|v| v.as_str()), Some("schema_test"));
    assert_eq!(
        function.get("description").and_then(|v| v.as_str()),
        Some("Test schema generation")
    );
    assert!(function.get("parameters").unwrap().is_object());
}

#[test]
fn test_builtin_registry() {
    let registry = ToolRegistry::with_builtin_tools(MockHandler, MockHandler, MockHandler);

    assert!(registry.len() > 0);

    assert!(registry.has_tool("calculator"));
    assert!(registry.has_tool("get_timestamp"));
    assert!(registry.has_tool("random_number"));

    let categories = registry.category_names();
    assert!(categories.contains(&"math".to_string()));
    assert!(categories.contains(&"utility".to_string()));
}

#[test]
fn builtin_categories_hold_their_tools() {
    let registry = ToolRegistry::with_builtin_tools(MockHandler, MockHandler, MockHandler);
    assert_eq!(registry.tools_in_category("math"), vec!["calculator".to_string(), "random_number".to_string()]);
    assert_eq!(registry.tools_in_category("utility"), vec!["get_timestamp".to_string(), "random_number".to_string()]);
    assert!(registry.tools_in_category("unknown").is_empty());
}

#[test]
fn invalid_definition_is_not_registered() {
    let mut registry = ToolRegistry::new();
    let err = registry.register(mock_tool("Bad Name", "x")).unwrap_err();
    assert_eq!(
        err.to_string(),
        "Configuration error: Tool name should use snake_case (lowercase letters, numbers, and underscores only)"
    );
    assert!(registry.is_empty());
    let err = registry.register(mock_tool("ok", "")).unwrap_err();
    assert_eq!(err.to_string(), "Configuration error: Tool description cannot be empty");
}

#[test]
fn duplicate_registration_message_names_the_tool() {
    let mut registry = ToolRegistry::new();
    registry.register(mock_tool("dup", "a")).unwrap();
    let err = registry.register(mock_tool("dup", "b")).unwrap_err();
    assert_eq!(err.to_string(), "Configuration error: Tool with name 'dup' is already registered");
    assert_eq!(registry.get_tool_definition("dup").unwrap().description, "a");
}

#[test]
fn unregister_drops_category_membership() {
    let mut registry = ToolRegistry::new();
    registry.register(mock_tool("a", "A")).unwrap();
    registry.register(mock_tool("b", "B")).unwrap();
    registry.add_to_category("group", "a").unwrap();
    registry.add_to_category("group", "b").unwrap();
    assert!(registry.unregister("a"));
    assert_eq!(registry.tools_in_category("group"), vec!["b".to_string()]);
    assert_eq!(registry.category_definitions("group").len(), 1);
    assert_eq!(registry.tool_names(), vec!["b".to_string()]);
}

#[test]
fn category_error_names_the_missing_tool() {
    let mut registry: ToolRegistry<MockHandler> = ToolRegistry::new();
    let err = registry.add_to_category("math", "ghost").unwrap_err();
    assert_eq!(err.to_string(), "Configuration error: Tool 'ghost' not found in registry");
    assert!(registry.category_names().is_empty());
}

#[test]
fn schema_document_text() {
    let mut registry = ToolRegistry::new();
    registry.register(mock_tool("ping", "Replies")).unwrap();
    assert_eq!(
        registry.to_json_schema().to_json_text(),
        "{\"tools\":[{\"type\":\"function\",\"function\":{\"name\":\"ping\",\"description\":\"Replies\",\"parameters\":{\"type\":\"object\",\"properties\":{},\"required\":[],\"additionalProperties\":false}}}],\"tool_choice\":\"auto\"}"
    );
}
