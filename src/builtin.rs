//! The built-in tools: a calculator, a clock and a random number source.

use crate::clock::since_unix_epoch;
use crate::definition::{
    all_name_chars, params_problem, ToolDefinition, ToolParameter, ToolParameterType,
};
use crate::error::OrchestraError;
use crate::execution::{is_error_result, SimpleToolImpl, ToolHandler};
use crate::json::{
    decimal_text, entries_view, int_number, lemma_key_index_absent, lemma_key_index_found,
    no_entries, object_of, push_entry, str_eq, u64_text,
    JsonNumber, JsonValue, JsonView,
};
use crate::registry::ToolRegistry;
use crate::result::{ToolError, ToolErrorType, ToolResult, ToolResultStatus};
use std::time::SystemTime;
use vstd::prelude::*;
use vstd::string::StringExecFns;

verus! {

/// Whether `r` is a success result carrying `data`.
pub open spec fn is_success_with(r: ToolResult, data: JsonView) -> bool {
    &&& r.well_formed()
    &&& r.status == ToolResultStatus::Success
    &&& r.data matches Some(d) && d@ == data
    &&& r.metadata@.len() == 0
}

/// An arithmetic operation of the calculator.
#[derive(Clone, Copy, Debug, PartialEq, Eq, Structural)]
pub enum CalculatorOperation {
    Add,
    Subtract,
    Multiply,
    Divide,
}

/// The operation named `name`, if any.
pub open spec fn operation_named(name: Seq<char>) -> Option<CalculatorOperation> {
    if name == "add"@ {
        Some(CalculatorOperation::Add)
    } else if name == "subtract"@ {
        Some(CalculatorOperation::Subtract)
    } else if name == "multiply"@ {
        Some(CalculatorOperation::Multiply)
    } else if name == "divide"@ {
        Some(CalculatorOperation::Divide)
    } else {
        None
    }
}

/// Checked calculator arguments, ready for the arithmetic.
#[derive(Clone, Copy, Debug)]
pub struct Calculation {
    pub operation: CalculatorOperation,
    pub a: JsonNumber,
    pub b: JsonNumber,
}

/// What `CalculatorTool::prepare` returns for `arguments`.
pub open spec fn prepared(arguments: JsonView, r: Result<Calculation, ToolResult>) -> bool {
    match arguments.get("operation"@) {
        Some(JsonView::Str(op)) => match arguments.get("a"@) {
            Some(JsonView::Number(a)) => match arguments.get("b"@) {
                Some(JsonView::Number(b)) => match operation_named(op) {
                    Some(o) => if o == CalculatorOperation::Divide && b.digits == 0 {
                        r matches Err(res) && is_error_result(
                            res,
                            "Division by zero"@,
                            ToolErrorType::InvalidInput,
                            "Cannot divide by zero"@,
                        )
                    } else {
                        r == Ok::<Calculation, ToolResult>(Calculation { operation: o, a, b })
                    },
                    None => r matches Err(res) && is_error_result(
                        res,
                        "Unknown operation: "@ + op,
                        ToolErrorType::InvalidInput,
                        "Invalid operation"@,
                    ),
                },
                _ => r matches Err(res) && is_error_result(
                    res,
                    "Missing or invalid parameter 'b'"@,
                    ToolErrorType::InvalidInput,
                    "Missing or invalid parameter 'b'"@,
                ),
            },
            _ => r matches Err(res) && is_error_result(
                res,
                "Missing or invalid parameter 'a'"@,
                ToolErrorType::InvalidInput,
                "Missing or invalid parameter 'a'"@,
            ),
        },
        _ => r matches Err(res) && is_error_result(
            res,
            "Missing operation parameter"@,
            ToolErrorType::InvalidInput,
            "Missing operation parameter"@,
        ),
    }
}

/// Dividing by a zero `b` gives an error result of kind `InvalidInput`
/// with no data, never a calculation.
pub proof fn lemma_divide_by_zero(
    arguments: JsonView,
    a: JsonNumber,
    b: JsonNumber,
    r: Result<Calculation, ToolResult>,
)
    requires
        arguments.get("operation"@) == Some(JsonView::Str("divide"@)),
        arguments.get("a"@) == Some(JsonView::Number(a)),
        arguments.get("b"@) == Some(JsonView::Number(b)),
        b.digits == 0,
        prepared(arguments, r),
    ensures
        r is Err,
        r->Err_0.status == ToolResultStatus::Error,
        r->Err_0.data is None,
        r->Err_0.error_details matches Some(d) && d.error_type == ToolErrorType::InvalidInput,
{
    reveal_strlit("divide");
    reveal_strlit("add");
    reveal_strlit("subtract");
    reveal_strlit("multiply");
    assert("divide"@.len() != "add"@.len());
    assert("divide"@.len() != "subtract"@.len());
    assert("divide"@.len() != "multiply"@.len());
    assert(operation_named("divide"@) == Some(CalculatorOperation::Divide));
}

/// The error result of kind `InvalidInput` carrying `message` twice.
fn invalid_input(message: &str) -> (r: ToolResult)
    ensures
        is_error_result(r, message@, ToolErrorType::InvalidInput, message@),
{
    ToolResult::error_with_details(message, ToolError::new(ToolErrorType::InvalidInput, message))
}

/// A calculator over two numbers. Its arithmetic is floating point and is
/// done by the caller on a checked `Calculation`.
#[derive(Debug)]
pub struct CalculatorTool {
    definition: ToolDefinition,
}

impl CalculatorTool {
    pub closed spec fn definition_view(self) -> ToolDefinition {
        self.definition
    }

    pub fn new() -> (r: CalculatorTool)
        ensures
            r.definition_view().name@ == "calculator"@,
            r.definition_view().spec_problem() is None,
    {
        CalculatorTool { definition: calculator_definition() }
    }

    pub fn definition(&self) -> (r: &ToolDefinition)
        ensures
            *r == self.definition_view(),
    {
        &self.definition
    }

    /// Reads the operation and both operands. A missing or mistyped
    /// argument, an unknown operation and a division by zero are error
    /// results of kind `InvalidInput`.
    pub fn prepare(arguments: &JsonValue) -> (r: Result<Calculation, ToolResult>)
        ensures
            prepared(arguments@, r),
    {
        let op = match arguments.get("operation") {
            Some(v) => match v.as_str() {
                Some(s) => s,
                None => {
                    return Err(invalid_input("Missing operation parameter"));
                },
            },
            None => {
                return Err(invalid_input("Missing operation parameter"));
            },
        };
        let a = match arguments.get("a") {
            Some(v) => match v.as_number() {
                Some(x) => x,
                None => {
                    return Err(invalid_input("Missing or invalid parameter 'a'"));
                },
            },
            None => {
                return Err(invalid_input("Missing or invalid parameter 'a'"));
            },
        };
        let b = match arguments.get("b") {
            Some(v) => match v.as_number() {
                Some(x) => x,
                None => {
                    return Err(invalid_input("Missing or invalid parameter 'b'"));
                },
            },
            None => {
                return Err(invalid_input("Missing or invalid parameter 'b'"));
            },
        };
        let operation = if str_eq(op, "add") {
            CalculatorOperation::Add
        } else if str_eq(op, "subtract") {
            CalculatorOperation::Subtract
        } else if str_eq(op, "multiply") {
            CalculatorOperation::Multiply
        } else if str_eq(op, "divide") {
            if b.digits == 0 {
                return Err(
                    ToolResult::error_with_details(
                        "Division by zero",
                        ToolError::new(ToolErrorType::InvalidInput, "Cannot divide by zero"),
                    ),
                );
            }
            CalculatorOperation::Divide
        } else {
            let message = String::from_str("Unknown operation: ").concat(op);
            return Err(
                ToolResult::error_with_details(
                    message.as_str(),
                    ToolError::new(ToolErrorType::InvalidInput, "Invalid operation"),
                ),
            );
        };
        Ok(Calculation { operation, a, b })
    }
}

/// The calculator's data for `calc` named `operation`, with `result`.
pub open spec fn calculation_data(calc: Calculation, operation: Seq<char>, result: JsonNumber) -> JsonView {
    JsonView::Object(
        seq![
            ("result"@, JsonView::Number(result)),
            ("operation"@, JsonView::Str(operation)),
            ("operands"@, JsonView::Array(seq![JsonView::Number(calc.a), JsonView::Number(calc.b)])),
        ],
    )
}

impl CalculatorTool {
    /// The success result for `calc` named `operation`, once the arithmetic
    /// gave `result`.
    pub fn success_result(calc: &Calculation, operation: &str, result: JsonNumber) -> (r: ToolResult)
        ensures
            is_success_with(r, calculation_data(*calc, operation@, result)),
    {
        let mut operands: Vec<JsonValue> = Vec::new();
        operands.push(JsonValue::number(calc.a));
        operands.push(JsonValue::number(calc.b));
        let list = JsonValue::array(operands);
        let mut e = no_entries();
        push_entry(&mut e, "result", JsonValue::number(result));
        push_entry(&mut e, "operation", JsonValue::string(operation));
        push_entry(&mut e, "operands", list);
        let data = object_of(e);
        proof {
            assert(list@->Array_0 =~= seq![JsonView::Number(calc.a), JsonView::Number(calc.b)]);
            assert(data@->Object_0 =~= calculation_data(*calc, operation@, result)->Object_0);
        }
        ToolResult::success(data)
    }
}

/// The calculator's definition: `operation` (one of add, subtract,
/// multiply, divide) and the numbers `a` and `b`, all required.
pub fn calculator_definition() -> (r: ToolDefinition)
    ensures
        r.name@ == "calculator"@,
        r.spec_problem() is None,
{
    let d = ToolDefinition::new("calculator", "Performs basic arithmetic operations on two numbers");
    let operation = ToolParameter::new("operation", ToolParameterType::String).with_description(
        "The operation to perform",
    ).with_enum_values(vec!["add", "subtract", "multiply", "divide"]).required();
    let first = ToolParameter::new("a", ToolParameterType::Number).with_description(
        "First number",
    ).required();
    let second = ToolParameter::new("b", ToolParameterType::Number).with_description(
        "Second number",
    ).required();
    let ghost (kept_operation, kept_first, kept_second) = (operation, first, second);
    proof {
        reveal_strlit("calculator");
        reveal_strlit("Performs basic arithmetic operations on two numbers");
        reveal_strlit("operation");
        reveal_strlit("a");
        reveal_strlit("b");
        lemma_key_index_absent(d.params(), "operation"@);
    }
    let d = d.with_parameter(operation);
    proof {
        assert(d.params() =~= seq![("operation"@, kept_operation)]);
        assert("operation"@.len() != "a"@.len());
        lemma_key_index_absent(d.params(), "a"@);
    }
    let d = d.with_parameter(first);
    proof {
        assert(d.params() =~= seq![("operation"@, kept_operation), ("a"@, kept_first)]);
        assert("operation"@.len() != "b"@.len());
        assert("a"@[0] != "b"@[0]);
        lemma_key_index_absent(d.params(), "b"@);
    }
    let d = d.with_parameter(second);
    proof {
        let ps = d.parameters@;
        assert(d.params() =~= seq![("operation"@, kept_operation), ("a"@, kept_first), ("b"@, kept_second)]);
        assert(d.params()[0] == (ps[0].0@, ps[0].1));
        assert(d.params()[1] == (ps[1].0@, ps[1].1));
        assert(d.params()[2] == (ps[2].0@, ps[2].1));
        assert(params_problem(ps, 3) is None);
        assert(params_problem(ps, 2) is None);
        assert(params_problem(ps, 1) is None);
        assert(params_problem(ps, 0) is None);
        assert(all_name_chars(d.name@));
    }
    d
}

/// The clock tool's definition: an optional `format` (unix, iso8601 or
/// human, default unix).
pub fn timestamp_definition() -> (r: ToolDefinition)
    ensures
        r.name@ == "get_timestamp"@,
        r.spec_problem() is None,
{
    let d = ToolDefinition::new("get_timestamp", "Get the current timestamp in various formats");
    let format = ToolParameter::new("format", ToolParameterType::String).with_description(
        "The format for the timestamp",
    ).with_enum_values(vec!["unix", "iso8601", "human"]).with_default(JsonValue::string("unix"));
    let ghost kept_format = format;
    proof {
        reveal_strlit("get_timestamp");
        reveal_strlit("Get the current timestamp in various formats");
        reveal_strlit("format");
        lemma_key_index_absent(d.params(), "format"@);
    }
    let d = d.with_parameter(format);
    proof {
        let ps = d.parameters@;
        assert(d.params() =~= seq![("format"@, kept_format)]);
        assert(d.params()[0] == (ps[0].0@, ps[0].1));
        assert(params_problem(ps, 1) is None);
        assert(params_problem(ps, 0) is None);
        assert(all_name_chars(d.name@));
    }
    d
}

/// The random number tool's definition: optional integers `min` (default 0)
/// and `max` (default 100), both inclusive.
pub fn random_number_definition() -> (r: ToolDefinition)
    ensures
        r.name@ == "random_number"@,
        r.spec_problem() is None,
{
    let d = ToolDefinition::new("random_number", "Generate a random number within a specified range");
    let min = ToolParameter::new("min", ToolParameterType::Integer).with_description(
        "Minimum value (inclusive)",
    ).with_default(JsonValue::from_i64(0));
    let max = ToolParameter::new("max", ToolParameterType::Integer).with_description(
        "Maximum value (inclusive)",
    ).with_default(JsonValue::from_i64(100));
    let ghost (kept_min, kept_max) = (min, max);
    proof {
        reveal_strlit("random_number");
        reveal_strlit("Generate a random number within a specified range");
        reveal_strlit("min");
        reveal_strlit("max");
        lemma_key_index_absent(d.params(), "min"@);
    }
    let d = d.with_parameter(min);
    proof {
        assert(d.params() =~= seq![("min"@, kept_min)]);
        assert("min"@[1] != "max"@[1]);
        lemma_key_index_absent(d.params(), "max"@);
    }
    let d = d.with_parameter(max);
    proof {
        let ps = d.parameters@;
        assert(d.params() =~= seq![("min"@, kept_min), ("max"@, kept_max)]);
        assert(d.params()[0] == (ps[0].0@, ps[0].1));
        assert(d.params()[1] == (ps[1].0@, ps[1].1));
        assert(params_problem(ps, 2) is None);
        assert(params_problem(ps, 1) is None);
        assert(params_problem(ps, 0) is None);
        assert(all_name_chars(d.name@));
    }
    d
}

/// The data the clock tool returns for `format` at `unix_secs` seconds
/// after the epoch, or `None` for an unknown format.
pub open spec fn timestamp_data(format: Seq<char>, unix_secs: u64) -> Option<JsonView> {
    if format == "unix"@ {
        Some(
            JsonView::Object(
                seq![
                    ("timestamp"@, JsonView::Number(JsonNumber { negative: false, digits: unix_secs, scale: 0 })),
                    ("format"@, JsonView::Str("unix"@)),
                ],
            ),
        )
    } else if format == "iso8601"@ {
        Some(
            JsonView::Object(
                seq![
                    ("timestamp"@, JsonView::Str("2024-01-01T00:00:"@ + decimal_text((unix_secs % 60) as nat) + "Z"@)),
                    ("format"@, JsonView::Str("iso8601"@)),
                    ("note"@, JsonView::Str("This is a simplified implementation"@)),
                ],
            ),
        )
    } else if format == "human"@ {
        Some(
            JsonView::Object(
                seq![
                    ("timestamp"@, JsonView::Str("Current time (simplified): "@ + decimal_text(unix_secs as nat) + " seconds since epoch"@)),
                    ("format"@, JsonView::Str("human"@)),
                ],
            ),
        )
    } else {
        None
    }
}

/// A clock tool reporting the current time.
#[derive(Debug)]
pub struct TimestampTool {
    definition: ToolDefinition,
}

impl TimestampTool {
    pub closed spec fn definition_view(self) -> ToolDefinition {
        self.definition
    }

    pub fn new() -> (r: TimestampTool)
        ensures
            r.definition_view().name@ == "get_timestamp"@,
            r.definition_view().spec_problem() is None,
    {
        TimestampTool { definition: timestamp_definition() }
    }

    pub fn definition(&self) -> (r: &ToolDefinition)
        ensures
            *r == self.definition_view(),
    {
        &self.definition
    }

    /// The result for `format` at `unix_secs` seconds after the epoch; an
    /// unknown format is an error result of kind `InvalidInput`.
    pub fn format_timestamp(format: &str, unix_secs: u64) -> (r: ToolResult)
        ensures
            timestamp_result(format@, unix_secs, r),
    {
        let mut e = no_entries();
        if str_eq(format, "unix") {
            push_entry(&mut e, "timestamp", JsonValue::from_u64(unix_secs));
            push_entry(&mut e, "format", JsonValue::string("unix"));
        } else if str_eq(format, "iso8601") {
            let text = String::from_str("2024-01-01T00:00:").concat(
                u64_text(unix_secs % 60).as_str(),
            ).concat("Z");
            push_entry(&mut e, "timestamp", JsonValue::string(text.as_str()));
            push_entry(&mut e, "format", JsonValue::string("iso8601"));
            push_entry(&mut e, "note", JsonValue::string("This is a simplified implementation"));
        } else if str_eq(format, "human") {
            let text = String::from_str("Current time (simplified): ").concat(
                u64_text(unix_secs).as_str(),
            ).concat(" seconds since epoch");
            push_entry(&mut e, "timestamp", JsonValue::string(text.as_str()));
            push_entry(&mut e, "format", JsonValue::string("human"));
        } else {
            let message = String::from_str("Unknown format: ").concat(format);
            return ToolResult::error_with_details(
                message.as_str(),
                ToolError::new(ToolErrorType::InvalidInput, "Invalid format"),
            );
        }
        let data = object_of(e);
        proof {
            assert(data@->Object_0 =~= timestamp_data(format@, unix_secs)->0->Object_0);
        }
        ToolResult::success(data)
    }
}

/// The requested format: the string argument `format`, or `unix` when it
/// is absent or not a string.
pub open spec fn format_of(arguments: JsonView) -> Seq<char> {
    match arguments.get("format"@) {
        Some(JsonView::Str(f)) => f,
        _ => "unix"@,
    }
}

/// Whether `r` is the clock tool's result for `format` at `unix_secs`.
pub open spec fn timestamp_result(format: Seq<char>, unix_secs: u64, r: ToolResult) -> bool {
    match timestamp_data(format, unix_secs) {
        Some(data) => is_success_with(r, data),
        None => is_error_result(
            r,
            "Unknown format: "@ + format,
            ToolErrorType::InvalidInput,
            "Invalid format"@,
        ),
    }
}

impl TimestampTool {
    /// The result for `arguments` at `unix_secs` seconds after the epoch.
    pub fn respond(arguments: &JsonValue, unix_secs: u64) -> (r: ToolResult)
        ensures
            timestamp_result(format_of(arguments@), unix_secs, r),
    {
        let format = match arguments.get("format") {
            Some(v) => match v.as_str() {
                Some(s) => s,
                None => "unix",
            },
            None => "unix",
        };
        TimestampTool::format_timestamp(format, unix_secs)
    }
}

impl ToolHandler for TimestampTool {
    /// The result for the requested format at some clock reading, or the
    /// error for a clock before the epoch.
    open spec fn handled(&self, arguments: JsonView, r: Result<ToolResult, OrchestraError>) -> bool {
        match r {
            Ok(res) => exists|secs: u64| timestamp_result(format_of(arguments), secs, res),
            Err(e) => e matches OrchestraError::Generic { message } && message@
                == "Failed to get system time"@,
        }
    }

    /// Reports the current time in the requested format (default unix).
    fn handle(&self, arguments: &JsonValue) -> Result<ToolResult, OrchestraError> {
        let now = SystemTime::now();
        match since_unix_epoch(&now) {
            Ok(d) => Ok(TimestampTool::respond(arguments, d.as_secs())),
            Err(_) => Err(OrchestraError::generic("Failed to get system time")),
        }
    }
}

/// The random number tool's data for `value` drawn from `min..=max`.
pub open spec fn random_data(value: i64, min: i64, max: i64) -> JsonView {
    JsonView::Object(
        seq![
            ("value"@, JsonView::Number(int_number(value))),
            ("min"@, JsonView::Number(int_number(min))),
            ("max"@, JsonView::Number(int_number(max))),
        ],
    )
}

/// Whether `r` is the random number tool's result for `min..=max` with the
/// given entropy: `min + entropy mod (max - min + 1)`, or an error result of
/// kind `InvalidInput` when `min > max`.
pub open spec fn picked(min: i64, max: i64, entropy: u128, r: ToolResult) -> bool {
    &&& min > max ==> is_error_result(
        r,
        "Minimum value cannot be greater than maximum"@,
        ToolErrorType::InvalidInput,
        "Invalid range"@,
    )
    &&& min <= max ==> exists|v: i64|
        v == min + (entropy as int) % (max - min + 1) && is_success_with(
            r,
            random_data(v, min, max),
        )
}

/// The integer argument `key`: its value when it is a number with no
/// fractional part that fits in an `i64`, and `default` otherwise.
pub open spec fn integer_arg(arguments: JsonView, key: Seq<char>, default: i64) -> i64 {
    match arguments.get(key) {
        Some(JsonView::Number(n)) => if n.spec_integral() && i64::MIN <= n.spec_int_value()
            <= i64::MAX {
            n.spec_int_value() as i64
        } else {
            default
        },
        _ => default,
    }
}

/// A tool drawing a number from a range, using the clock as entropy.
#[derive(Debug)]
pub struct RandomNumberTool {
    definition: ToolDefinition,
}

impl RandomNumberTool {
    pub closed spec fn definition_view(self) -> ToolDefinition {
        self.definition
    }

    pub fn new() -> (r: RandomNumberTool)
        ensures
            r.definition_view().name@ == "random_number"@,
            r.definition_view().spec_problem() is None,
    {
        RandomNumberTool { definition: random_number_definition() }
    }

    pub fn definition(&self) -> (r: &ToolDefinition)
        ensures
            *r == self.definition_view(),
    {
        &self.definition
    }

    /// Picks `min + entropy mod (max - min + 1)`; a range with `min > max`
    /// is an error result of kind `InvalidInput`.
    pub fn pick(min: i64, max: i64, entropy: u128) -> (r: ToolResult)
        ensures
            picked(min, max, entropy, r),
    {
        if min > max {
            return ToolResult::error_with_details(
                "Minimum value cannot be greater than maximum",
                ToolError::new(ToolErrorType::InvalidInput, "Invalid range"),
            );
        }
        let range: u128 = (max as i128 - min as i128 + 1) as u128;
        let offset: u128 = entropy % range;
        let value: i64 = (min as i128 + offset as i128) as i64;
        let mut e = no_entries();
        push_entry(&mut e, "value", JsonValue::from_i64(value));
        push_entry(&mut e, "min", JsonValue::from_i64(min));
        push_entry(&mut e, "max", JsonValue::from_i64(max));
        let data = object_of(e);
        proof {
            assert(data@->Object_0 =~= random_data(value, min, max)->Object_0);
        }
        ToolResult::success(data)
    }
}

/// The integer argument `key` (see `integer_arg`).
pub fn integer_argument(arguments: &JsonValue, key: &str, default: i64) -> (r: i64)
    ensures
        r == integer_arg(arguments@, key@, default),
{
    match arguments.get(key) {
        Some(v) => match v.as_number() {
            Some(n) => match n.as_i64() {
                Some(x) => x,
                None => default,
            },
            None => default,
        },
        None => default,
    }
}

impl RandomNumberTool {
    /// The result for `arguments` with the given entropy: `min` defaults to
    /// 0 and `max` to 100 (see `integer_arg` and `picked`).
    pub fn respond(arguments: &JsonValue, entropy: u128) -> (r: ToolResult)
        ensures
            picked(
                integer_arg(arguments@, "min"@, 0),
                integer_arg(arguments@, "max"@, 100),
                entropy,
                r,
            ),
    {
        let min = integer_argument(arguments, "min", 0);
        let max = integer_argument(arguments, "max", 100);
        RandomNumberTool::pick(min, max, entropy)
    }
}

impl ToolHandler for RandomNumberTool {
    /// The draw from the requested range for some entropy, or the error for
    /// a clock before the epoch.
    open spec fn handled(&self, arguments: JsonView, r: Result<ToolResult, OrchestraError>) -> bool {
        match r {
            Ok(res) => exists|entropy: u128|
                picked(
                    integer_arg(arguments, "min"@, 0),
                    integer_arg(arguments, "max"@, 100),
                    entropy,
                    res,
                ),
            Err(e) => e matches OrchestraError::Generic { message } && message@
                == "Failed to get system time"@,
        }
    }

    /// Draws from `min..=max` (defaults 0 and 100) using the clock's
    /// nanoseconds.
    fn handle(&self, arguments: &JsonValue) -> Result<ToolResult, OrchestraError> {
        let now = SystemTime::now();
        match since_unix_epoch(&now) {
            Ok(d) => Ok(RandomNumberTool::respond(arguments, d.as_nanos())),
            Err(_) => Err(OrchestraError::generic("Failed to get system time")),
        }
    }
}

/// A registry with the calculator, clock and random number tools, run by the
/// given handlers; `math` lists the calculator and the random number tool,
/// `utility` the clock and the random number tool.
pub fn create_builtin_registry<H>(calculator: H, timestamp: H, random_number: H) -> (r:
    ToolRegistry<H>)
    ensures
        r.wf(),
        r.names() == seq!["calculator"@, "get_timestamp"@, "random_number"@],
        r.members("math"@) == seq!["calculator"@, "random_number"@],
        r.members("utility"@) == seq!["get_timestamp"@, "random_number"@],
        Seq::new(r.categories_view().len(), |i: int| r.categories_view()[i].0) == seq![
            "math"@,
            "utility"@,
        ],
{
    proof {
        reveal_strlit("calculator");
        reveal_strlit("get_timestamp");
        reveal_strlit("random_number");
        reveal_strlit("math");
        reveal_strlit("utility");
        assert("calculator"@.len() != "get_timestamp"@.len());
        assert("calculator"@.len() != "random_number"@.len());
        assert("get_timestamp"@[0] != "random_number"@[0]);
        assert("math"@.len() != "utility"@.len());
    }
    let mut registry = ToolRegistry::new();
    let ghost reg0 = registry;
    proof {
        lemma_key_index_absent(reg0.entries(), "calculator"@);
    }
    let _ = registry.register(SimpleToolImpl::new(calculator_definition(), calculator));
    let ghost reg1 = registry;
    proof {
        assert(reg1.names() =~= seq!["calculator"@]);
        assert(reg1.entries()[0].0 == reg1.names()[0]);
        lemma_key_index_absent(reg1.entries(), "get_timestamp"@);
    }
    let _ = registry.register(SimpleToolImpl::new(timestamp_definition(), timestamp));
    let ghost reg2 = registry;
    proof {
        assert(reg2.names() =~= seq!["calculator"@, "get_timestamp"@]);
        assert(reg2.entries()[0].0 == reg2.names()[0]);
        assert(reg2.entries()[1].0 == reg2.names()[1]);
        lemma_key_index_absent(reg2.entries(), "random_number"@);
    }
    let _ = registry.register(SimpleToolImpl::new(random_number_definition(), random_number));
    let ghost reg3 = registry;
    proof {
        assert(reg3.names() =~= seq!["calculator"@, "get_timestamp"@, "random_number"@]);
        assert(reg3.entries()[0].0 == reg3.names()[0]);
        assert(reg3.entries()[1].0 == reg3.names()[1]);
        assert(reg3.entries()[2].0 == reg3.names()[2]);
        lemma_key_index_found(reg3.entries(), "calculator"@, 0);
        lemma_key_index_found(reg3.entries(), "get_timestamp"@, 1);
        lemma_key_index_found(reg3.entries(), "random_number"@, 2);
        lemma_key_index_absent(reg3.categories_view(), "math"@);
    }
    let _ = registry.add_to_category("math", "calculator");
    let ghost c1 = registry.categories_view();
    proof {
        assert(c1 =~= seq![("math"@, seq!["calculator"@])]);
        lemma_key_index_absent(c1, "utility"@);
    }
    let _ = registry.add_to_category("utility", "get_timestamp");
    let ghost c2 = registry.categories_view();
    proof {
        assert(c2 =~= seq![("math"@, seq!["calculator"@]), ("utility"@, seq!["get_timestamp"@])]);
        lemma_key_index_found(c2, "utility"@, 1);
        assert(!seq!["get_timestamp"@].contains("random_number"@)) by {
            assert(seq!["get_timestamp"@][0] != "random_number"@);
        }
    }
    let _ = registry.add_to_category("utility", "random_number");
    let ghost c3 = registry.categories_view();
    proof {
        assert(seq!["get_timestamp"@].push("random_number"@) =~= seq![
            "get_timestamp"@,
            "random_number"@,
        ]);
        assert(c3 =~= seq![
            ("math"@, seq!["calculator"@]),
            ("utility"@, seq!["get_timestamp"@, "random_number"@]),
        ]);
        lemma_key_index_found(c3, "math"@, 0);
        assert(!seq!["calculator"@].contains("random_number"@)) by {
            assert(seq!["calculator"@][0] != "random_number"@);
        }
    }
    let _ = registry.add_to_category("math", "random_number");
    proof {
        let c4 = registry.categories_view();
        assert(seq!["calculator"@].push("random_number"@) =~= seq![
            "calculator"@,
            "random_number"@,
        ]);
        assert(c4 =~= seq![
            ("math"@, seq!["calculator"@, "random_number"@]),
            ("utility"@, seq!["get_timestamp"@, "random_number"@]),
        ]);
        lemma_key_index_found(c4, "math"@, 0);
        lemma_key_index_found(c4, "utility"@, 1);
        assert(Seq::new(c4.len(), |i: int| c4[i].0) =~= seq!["math"@, "utility"@]);
    }
    registry
}

impl<H> ToolRegistry<H> {
    /// See `create_builtin_registry`.
    pub fn with_builtin_tools(calculator: H, timestamp: H, random_number: H) -> (r: ToolRegistry<H>)
        ensures
            r.wf(),
            r.names() == seq!["calculator"@, "get_timestamp"@, "random_number"@],
            r.members("math"@) == seq!["calculator"@, "random_number"@],
            r.members("utility"@) == seq!["get_timestamp"@, "random_number"@],
            Seq::new(r.categories_view().len(), |i: int| r.categories_view()[i].0) == seq![
                "math"@,
                "utility"@,
            ],
    {
        create_builtin_registry(calculator, timestamp, random_number)
    }
}

} // verus!
