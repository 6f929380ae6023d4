//! Running tools: the handler interface and the executor that validates
//! arguments and records timing.

use crate::definition::{ToolDefinition, ToolParameter, ToolParameterType};
use crate::error::OrchestraError;
use crate::json::{
    decimal_text, lemma_key_index_absent, lemma_key_index_found, entries_view, get_in, lookup, set_entry, str_eq, u64_text, JsonNumber, JsonValue,
    JsonView,
};
use crate::text::{list_to_text, listed_text, number_text, number_to_text};
use crate::registry::{lemma_lookup_set_entry, strs_view, ToolRegistry};
use crate::result::{ToolError, ToolErrorType, ToolResult, ToolResultStatus};
use std::time::SystemTime;
use vstd::prelude::*;
use vstd::utf8::encode_utf8;
use vstd::string::{StrSliceExecFns, StringExecFns};

verus! {

/// The logic behind a tool: given arguments, produce a result.
pub trait ToolHandler {
    /// What this handler may return for `arguments`. A handler that says
    /// nothing may return anything.
    open spec fn handled(&self, arguments: JsonView, r: Result<ToolResult, OrchestraError>) -> bool {
        true
    }

    fn handle(&self, arguments: &JsonValue) -> (r: Result<ToolResult, OrchestraError>)
        ensures
            self.handled(arguments@, r),
    ;
}

/// A tool made of its definition and a handler that does the work.
#[derive(Debug)]
pub struct SimpleToolImpl<H> {
    pub definition: ToolDefinition,
    pub handler: H,
}

impl<H> SimpleToolImpl<H> {
    pub fn new(definition: ToolDefinition, handler: H) -> (r: SimpleToolImpl<H>)
        ensures
            r.definition == definition,
            r.handler == handler,
    {
        SimpleToolImpl { definition, handler }
    }

    pub fn definition(&self) -> (r: &ToolDefinition)
        ensures
            *r == self.definition,
    {
        &self.definition
    }
}

impl<H: ToolHandler> SimpleToolImpl<H> {
    /// Runs the handler on `arguments` and returns what it returns.
    pub fn execute(&self, arguments: &JsonValue) -> (r: Result<ToolResult, OrchestraError>)
        ensures
            self.handler.handled(arguments@, r),
    {
        self.handler.handle(arguments)
    }
}


/// `"Parameter '" + name + "'" + rest`.
pub open spec fn param_message(name: Seq<char>, rest: Seq<char>) -> Seq<char> {
    "Parameter '"@ + name + "'"@ + rest
}

/// The first problem with `value` as an argument for parameter `p`, if any.
/// String lengths count UTF-8 bytes.
pub open spec fn value_problem(p: ToolParameter, value: JsonView) -> Option<Seq<char>> {
    let n = p.name@;
    match p.parameter_type {
        ToolParameterType::String => match value {
            JsonView::Str(s) => if p.enum_view() is Some && !p.enum_view()->0.contains(s) {
                Some(param_message(n, " must be one of: "@ + listed_text(p.enum_view()->0)))
            } else if p.min_length is Some && encode_utf8(s).len() < p.min_length->0 {
                Some(param_message(n, " must be at least "@ + decimal_text(p.min_length->0 as nat) + " characters"@))
            } else if p.max_length is Some && encode_utf8(s).len() > p.max_length->0 {
                Some(param_message(n, " must be at most "@ + decimal_text(p.max_length->0 as nat) + " characters"@))
            } else {
                None
            },
            _ => Some(param_message(n, " must be a string"@)),
        },
        ToolParameterType::Number | ToolParameterType::Integer => match value {
            JsonView::Number(x) => if p.parameter_type == ToolParameterType::Integer
                && !x.spec_integral() {
                Some(param_message(n, " must be an integer"@))
            } else if p.minimum is Some && x.spec_less(p.minimum->0) {
                Some(param_message(n, " must be at least "@ + number_text(p.minimum->0)))
            } else if p.maximum is Some && p.maximum->0.spec_less(x) {
                Some(param_message(n, " must be at most "@ + number_text(p.maximum->0)))
            } else {
                None
            },
            _ => if p.parameter_type == ToolParameterType::Integer {
                Some(param_message(n, " must be an integer"@))
            } else {
                Some(param_message(n, " must be a number"@))
            },
        },
        ToolParameterType::Boolean => match value {
            JsonView::Bool(_) => None,
            _ => Some(param_message(n, " must be a boolean"@)),
        },
        ToolParameterType::Array => match value {
            JsonView::Array(items) => if p.min_items is Some && items.len() < p.min_items->0 {
                Some(param_message(n, " must have at least "@ + decimal_text(p.min_items->0 as nat) + " items"@))
            } else if p.max_items is Some && items.len() > p.max_items->0 {
                Some(param_message(n, " must have at most "@ + decimal_text(p.max_items->0 as nat) + " items"@))
            } else {
                None
            },
            _ => Some(param_message(n, " must be an array"@)),
        },
        ToolParameterType::Object => match value {
            JsonView::Object(_) => None,
            _ => Some(param_message(n, " must be an object"@)),
        },
    }
}

/// The first required parameter, from entry `i` on, that `args` lacks.
pub open spec fn missing_required(
    ps: Seq<(String, ToolParameter)>,
    args: Seq<(Seq<char>, JsonView)>,
    i: int,
) -> Option<Seq<char>>
    decreases ps.len() - i,
{
    if i < 0 || i >= ps.len() {
        None
    } else if ps[i].1.required && lookup(args, ps[i].1.name@) is None {
        Some("Required parameter '"@ + ps[i].1.name@ + "' is missing"@)
    } else {
        missing_required(ps, args, i + 1)
    }
}

/// The first problem among the arguments from entry `i` on: an undeclared
/// key, or a value its parameter rejects.
pub open spec fn argument_problem(
    def: ToolDefinition,
    args: Seq<(Seq<char>, JsonView)>,
    i: int,
) -> Option<Seq<char>>
    decreases args.len() - i,
{
    if i < 0 || i >= args.len() {
        None
    } else {
        match lookup(def.params(), args[i].0) {
            Some(p) => if value_problem(p, args[i].1) is Some {
                value_problem(p, args[i].1)
            } else {
                argument_problem(def, args, i + 1)
            },
            None => Some("Unknown parameter '"@ + args[i].0 + "'"@),
        }
    }
}

/// The first problem with `arguments` for a tool with definition `def`:
/// not an object, a required parameter missing, an unknown key, or a value
/// of the wrong kind or outside its constraints.
pub open spec fn arguments_problem(def: ToolDefinition, arguments: JsonView) -> Option<Seq<char>> {
    match arguments {
        JsonView::Object(args) => if missing_required(def.parameters@, args, 0) is Some {
            missing_required(def.parameters@, args, 0)
        } else {
            argument_problem(def, args, 0)
        },
        _ => Some("Arguments must be a JSON object"@),
    }
}

/// The kind of tool failure that a call-level error stands for.
pub open spec fn error_kind(e: OrchestraError) -> ToolErrorType {
    match e {
        OrchestraError::ApiKey { .. } => ToolErrorType::Authentication,
        OrchestraError::Authentication { .. } => ToolErrorType::Authentication,
        OrchestraError::Provider { .. } => ToolErrorType::ExternalService,
        OrchestraError::InvalidResponse { .. } => ToolErrorType::ExternalService,
        OrchestraError::Config { .. } => ToolErrorType::InvalidInput,
        OrchestraError::Model { .. } => ToolErrorType::InvalidInput,
        OrchestraError::RateLimit { .. } => ToolErrorType::RateLimit,
        OrchestraError::Timeout { .. } => ToolErrorType::Timeout,
        OrchestraError::Generic { .. } => ToolErrorType::Internal,
    }
}

/// Whether `r` is an error result with message `message` and details of
/// kind `kind` carrying `detail`.
pub open spec fn is_error_result(
    r: ToolResult,
    message: Seq<char>,
    kind: ToolErrorType,
    detail: Seq<char>,
) -> bool {
    &&& r.well_formed()
    &&& r.status == ToolResultStatus::Error
    &&& r.data is None
    &&& r.error matches Some(m) && m@ == message
    &&& r.error_details matches Some(d) && d.error_type == kind && d.message@ == detail
    &&& r.metadata@.len() == 0
}

/// The metadata key under which the elapsed time is recorded.
pub open spec fn timing_key() -> Seq<char> {
    "execution_time_ms"@
}

/// Whether `after` is `before` with the timing entry set to `ms`.
pub open spec fn timed(before: ToolResult, after: ToolResult, ms: u64) -> bool {
    &&& after.metadata_view() == set_entry(
        before.metadata_view(),
        timing_key(),
        JsonView::Number(JsonNumber { negative: false, digits: ms, scale: 0 }),
    )
    &&& after.status == before.status
    &&& after.data == before.data
    &&& after.error == before.error
    &&& after.error_details == before.error_details
}

/// Whether `r` is what `finish` returns for `outcome` after `elapsed_ms`,
/// with timing on or off: a call-level error becomes an error result, and
/// with timing on the entry `execution_time_ms` is set to `elapsed_ms`.
pub open spec fn finished(
    times: bool,
    outcome: Result<ToolResult, OrchestraError>,
    elapsed_ms: u64,
    r: ToolResult,
) -> bool {
    match outcome {
        Ok(res) => if times {
            timed(res, r, elapsed_ms)
        } else {
            r == res
        },
        Err(e) => {
            &&& r.status == ToolResultStatus::Error
            &&& r.error matches Some(m) && m@ == e.spec_text()
            &&& r.error_details matches Some(d) && d.error_type == error_kind(e)
            &&& r.data is None
            &&& if times {
                r.metadata_view() == seq![
                    (timing_key(), JsonView::Number(JsonNumber { negative: false, digits: elapsed_ms, scale: 0 })),
                ]
            } else {
                r.metadata@.len() == 0
            }
        },
    }
}

/// Runs tools from a registry: checks arguments against the tool's
/// definition, invokes the tool, and records the elapsed time.
#[derive(Debug)]
pub struct ToolExecutor<H> {
    registry: ToolRegistry<H>,
    timeout_ms: u64,
    validate_parameters: bool,
    include_timing: bool,
}

/// What the executor decided before invoking a tool.
pub enum Admission {
    /// The arguments passed (or were not checked): invoke the tool.
    Invoke,
    /// The arguments were rejected with this error result.
    Rejected(ToolResult),
}

impl<H> ToolExecutor<H> {
    /// The registry the tools are run from.
    pub closed spec fn registry_view(self) -> ToolRegistry<H> {
        self.registry
    }

    /// The time bound, in milliseconds, for one tool invocation.
    pub closed spec fn timeout_view(self) -> u64 {
        self.timeout_ms
    }

    /// Whether arguments are checked before a tool runs.
    pub closed spec fn validates(self) -> bool {
        self.validate_parameters
    }

    /// Whether results get the elapsed-time metadata entry.
    pub closed spec fn times(self) -> bool {
        self.include_timing
    }

    /// An executor over `registry`: a 30 s time bound, argument checks on,
    /// timing on.
    pub fn new(registry: ToolRegistry<H>) -> (r: ToolExecutor<H>)
        ensures
            r.registry_view() == registry,
            r.timeout_view() == 30000,
            r.validates(),
            r.times(),
    {
        ToolExecutor { registry, timeout_ms: 30000, validate_parameters: true, include_timing: true }
    }

    pub fn with_timeout(self, timeout_ms: u64) -> (r: ToolExecutor<H>)
        ensures
            r.registry_view() == self.registry_view(),
            r.timeout_view() == timeout_ms,
            r.validates() == self.validates(),
            r.times() == self.times(),
    {
        let mut r = self;
        r.timeout_ms = timeout_ms;
        r
    }

    pub fn with_validation(self, validate: bool) -> (r: ToolExecutor<H>)
        ensures
            r.registry_view() == self.registry_view(),
            r.timeout_view() == self.timeout_view(),
            r.validates() == validate,
            r.times() == self.times(),
    {
        let mut r = self;
        r.validate_parameters = validate;
        r
    }

    pub fn with_timing(self, include_timing: bool) -> (r: ToolExecutor<H>)
        ensures
            r.registry_view() == self.registry_view(),
            r.timeout_view() == self.timeout_view(),
            r.validates() == self.validates(),
            r.times() == include_timing,
    {
        let mut r = self;
        r.include_timing = include_timing;
        r
    }

    /// Registers `tool` in the executor's registry (see `ToolRegistry::register`).
    pub fn register(&mut self, tool: SimpleToolImpl<H>) -> (r: Result<(), OrchestraError>)
        requires
            old(self).registry_view().wf(),
        ensures
            final(self).registry_view().wf(),
            ToolRegistry::registered(old(self).registry_view(), final(self).registry_view(), tool, r),
            final(self).timeout_view() == old(self).timeout_view(),
            final(self).validates() == old(self).validates(),
            final(self).times() == old(self).times(),
    {
        self.registry.register(tool)
    }

    pub fn registry(&self) -> (r: &ToolRegistry<H>)
        ensures
            *r == self.registry_view(),
    {
        &self.registry
    }

    /// The time bound, in milliseconds, for one tool invocation.
    pub fn timeout_ms(&self) -> (r: u64)
        ensures
            r == self.timeout_view(),
    {
        self.timeout_ms
    }

    pub fn has_tool(&self, name: &str) -> (r: bool)
        ensures
            r == self.registry_view().contains(name@),
    {
        self.registry.has_tool(name)
    }

    pub fn available_tools(&self) -> (r: Vec<String>)
        ensures
            strs_view(r@) == self.registry_view().names(),
    {
        self.registry.tool_names()
    }

    /// Checks one argument value against its parameter.
    pub fn validate_parameter_value(param: &ToolParameter, value: &JsonValue) -> (r: Result<
        (),
        OrchestraError,
    >)
        ensures
            match r {
                Ok(()) => value_problem(*param, value@) is None,
                Err(e) => value_problem(*param, value@) matches Some(m) && e.is_config_with(m),
            },
    {
        let n = param.name.as_str();
        match param.parameter_type {
            ToolParameterType::String => {
                let s = match value.as_str() {
                    Some(s) => s,
                    None => {
                        return Err(param_error(n, " must be a string"));
                    },
                };
                match &param.enum_values {
                    Some(vs) => {
                        if !contains_str(vs, s) {
                            let text = String::from_str(" must be one of: ").concat(
                                list_to_text(vs).as_str(),
                            );
                            return Err(param_error(n, text.as_str()));
                        }
                    },
                    None => {},
                }
                let len = s.as_bytes().len();
                match param.min_length {
                    Some(min) => {
                        if len < min {
                            let text = String::from_str(" must be at least ").concat(
                                u64_text(min as u64).as_str(),
                            ).concat(" characters");
                            return Err(param_error(n, text.as_str()));
                        }
                    },
                    None => {},
                }
                match param.max_length {
                    Some(max) => {
                        if len > max {
                            let text = String::from_str(" must be at most ").concat(
                                u64_text(max as u64).as_str(),
                            ).concat(" characters");
                            return Err(param_error(n, text.as_str()));
                        }
                    },
                    None => {},
                }
                Ok(())
            },
            ToolParameterType::Number | ToolParameterType::Integer => {
                let integer = param.parameter_type == ToolParameterType::Integer;
                let x = match value.as_number() {
                    Some(x) => x,
                    None => {
                        if integer {
                            return Err(param_error(n, " must be an integer"));
                        }
                        return Err(param_error(n, " must be a number"));
                    },
                };
                if integer && !x.is_integer() {
                    return Err(param_error(n, " must be an integer"));
                }
                match &param.minimum {
                    Some(min) => {
                        if x.less_than(min) {
                            let text = String::from_str(" must be at least ").concat(
                                number_to_text(min).as_str(),
                            );
                            return Err(param_error(n, text.as_str()));
                        }
                    },
                    None => {},
                }
                match &param.maximum {
                    Some(max) => {
                        if max.less_than(&x) {
                            let text = String::from_str(" must be at most ").concat(
                                number_to_text(max).as_str(),
                            );
                            return Err(param_error(n, text.as_str()));
                        }
                    },
                    None => {},
                }
                Ok(())
            },
            ToolParameterType::Boolean => {
                if !value.is_boolean() {
                    return Err(param_error(n, " must be a boolean"));
                }
                Ok(())
            },
            ToolParameterType::Array => {
                let items = match value.as_array() {
                    Some(items) => items,
                    None => {
                        return Err(param_error(n, " must be an array"));
                    },
                };
                match param.min_items {
                    Some(min) => {
                        if items.len() < min {
                            let text = String::from_str(" must have at least ").concat(
                                u64_text(min as u64).as_str(),
                            ).concat(" items");
                            return Err(param_error(n, text.as_str()));
                        }
                    },
                    None => {},
                }
                match param.max_items {
                    Some(max) => {
                        if items.len() > max {
                            let text = String::from_str(" must have at most ").concat(
                                u64_text(max as u64).as_str(),
                            ).concat(" items");
                            return Err(param_error(n, text.as_str()));
                        }
                    },
                    None => {},
                }
                Ok(())
            },
            ToolParameterType::Object => {
                if !value.is_object() {
                    return Err(param_error(n, " must be an object"));
                }
                Ok(())
            },
        }
    }
}

impl<H> ToolExecutor<H> {
    /// Checks `arguments` against the definition `def`: an object holding
    /// every required parameter, no undeclared key, and values that their
    /// parameters accept.
    pub fn validate_parameters(def: &ToolDefinition, arguments: &JsonValue) -> (r: Result<
        (),
        OrchestraError,
    >)
        ensures
            match r {
                Ok(()) => arguments_problem(*def, arguments@) is None,
                Err(e) => arguments_problem(*def, arguments@) matches Some(m) && e.is_config_with(
                    m,
                ),
            },
    {
        let args = match arguments {
            JsonValue::Object(es) => es,
            _ => {
                return Err(OrchestraError::config("Arguments must be a JSON object"));
            },
        };
        let ghost av = arguments@->Object_0;
        proof {
            assert(av =~= entries_view(args@));
        }
        let ps = &def.parameters;
        let mut k: usize = 0;
        while k < ps.len()
            invariant
                k <= ps@.len(),
                ps == &def.parameters,
                av == entries_view(args@),
                arguments@ == JsonView::Object(av),
                missing_required(ps@, av, 0) == missing_required(ps@, av, k as int),
            decreases ps@.len() - k,
        {
            let p = &ps[k].1;
            if p.required && get_in(args, p.name.as_str()).is_none() {
                let message = String::from_str("Required parameter '").concat(
                    p.name.as_str(),
                ).concat("' is missing");
                return Err(OrchestraError::config(message.as_str()));
            }
            k = k + 1;
        }
        let mut i: usize = 0;
        while i < args.len()
            invariant
                i <= args@.len(),
                av == entries_view(args@),
                arguments@ == JsonView::Object(av),
                missing_required(def.parameters@, av, 0) is None,
                argument_problem(*def, av, 0) == argument_problem(*def, av, i as int),
            decreases args@.len() - i,
        {
            let key = &args[i].0;
            let value = &args[i].1;
            match def.parameter(key.as_str()) {
                Some(p) => {
                    match Self::validate_parameter_value(p, value) {
                        Ok(()) => {},
                        Err(e) => {
                            return Err(e);
                        },
                    }
                },
                None => {
                    let message = String::from_str("Unknown parameter '").concat(
                        key.as_str(),
                    ).concat("'");
                    return Err(OrchestraError::config(message.as_str()));
                },
            }
            i = i + 1;
        }
        Ok(())
    }

    /// Decides, before any tool logic runs, whether `tool_name` may run on
    /// `arguments`. An unknown tool is a call-level error; arguments that
    /// fail the checks (when enabled) give an error result of kind
    /// `InvalidInput`.
    pub fn screen(&self, tool_name: &str, arguments: &JsonValue) -> (r: Result<
        Admission,
        OrchestraError,
    >)
        ensures
            r is Err <==> !self.registry_view().contains(tool_name@),
            r matches Err(e) ==> e.is_config_with("Tool '"@ + tool_name@ + "' not found"@),
            r matches Ok(a) ==> Self::admitted(
                self.validates(),
                self.registry_view().tool_named(tool_name@).definition,
                arguments@,
                a,
            ),
    {
        let tool = match self.registry.tool(tool_name) {
            Some(t) => t,
            None => {
                let message = String::from_str("Tool '").concat(tool_name).concat("' not found");
                return Err(OrchestraError::config(message.as_str()));
            },
        };
        if self.validate_parameters {
            match Self::validate_parameters(&tool.definition, arguments) {
                Ok(()) => {},
                Err(e) => {
                    let text = e.to_string();
                    let message = String::from_str("Parameter validation failed: ").concat(
                        text.as_str(),
                    );
                    let details = ToolError::new(ToolErrorType::InvalidInput, text.as_str());
                    return Ok(
                        Admission::Rejected(
                            ToolResult::error_with_details(message.as_str(), details),
                        ),
                    );
                },
            }
        }
        Ok(Admission::Invoke)
    }

    /// The decision `screen` makes for a known tool with definition `def`.
    pub open spec fn admitted(
        validates: bool,
        def: ToolDefinition,
        arguments: JsonView,
        a: Admission,
    ) -> bool {
        match (if validates {
            arguments_problem(def, arguments)
        } else {
            None
        }) {
            Some(m) => a matches Admission::Rejected(res) && is_error_result(
                res,
                "Parameter validation failed: "@ + ("Configuration error: "@ + m),
                ToolErrorType::InvalidInput,
                "Configuration error: "@ + m,
            ),
            None => a is Invoke,
        }
    }

    /// The error result standing for a call-level error raised by a tool.
    pub fn failure_result(e: &OrchestraError) -> (r: ToolResult)
        ensures
            is_error_result(r, e.spec_text(), error_kind(*e), e.spec_text()),
            r.data is None,
    {
        let kind = match e {
            OrchestraError::ApiKey { .. } => ToolErrorType::Authentication,
            OrchestraError::Authentication { .. } => ToolErrorType::Authentication,
            OrchestraError::Provider { .. } => ToolErrorType::ExternalService,
            OrchestraError::InvalidResponse { .. } => ToolErrorType::ExternalService,
            OrchestraError::Config { .. } => ToolErrorType::InvalidInput,
            OrchestraError::Model { .. } => ToolErrorType::InvalidInput,
            OrchestraError::RateLimit { .. } => ToolErrorType::RateLimit,
            OrchestraError::Timeout { .. } => ToolErrorType::Timeout,
            OrchestraError::Generic { .. } => ToolErrorType::Internal,
        };
        let text = e.to_string();
        ToolResult::error_with_details(text.as_str(), ToolError::new(kind, text.as_str()))
    }

    /// The error result for a tool that did not finish within the time bound.
    pub fn timeout_result(&self, tool_name: &str) -> (r: ToolResult)
        ensures
            is_error_result(
                r,
                "Tool '"@ + tool_name@ + "' timed out"@,
                ToolErrorType::Timeout,
                "Tool '"@ + tool_name@ + "' timed out"@,
            ),
            r.data is None,
    {
        let message = String::from_str("Tool '").concat(tool_name).concat("' timed out");
        ToolResult::error_with_details(
            message.as_str(),
            ToolError::new(ToolErrorType::Timeout, message.as_str()),
        )
    }

    /// Turns the outcome of an invocation into the returned result: a
    /// call-level error from the tool becomes an error result, and with
    /// timing on, the entry `execution_time_ms` is set to `elapsed_ms`.
    /// With timing off, a result is returned unchanged.
    pub fn finish(&self, outcome: Result<ToolResult, OrchestraError>, elapsed_ms: u64) -> (r:
        ToolResult)
        ensures
            finished(self.times(), outcome, elapsed_ms, r),
    {
        let result = match outcome {
            Ok(res) => res,
            Err(e) => Self::failure_result(&e),
        };
        if self.include_timing {
            let r = result.with_metadata("execution_time_ms", JsonValue::from_u64(elapsed_ms));
            proof {
                reveal_strlit("execution_time_ms");
                if outcome is Err {
                    assert(result.metadata_view() =~= Seq::empty());
                    assert(set_entry(
                        result.metadata_view(),
                        timing_key(),
                        JsonView::Number(JsonNumber { negative: false, digits: elapsed_ms, scale: 0 }),
                    ) =~= seq![
                        (timing_key(), JsonView::Number(JsonNumber { negative: false, digits: elapsed_ms, scale: 0 })),
                    ]);
                }
            }
            r
        } else {
            result
        }
    }
}

/// Whole milliseconds since `start`; zero when the clock went backwards.
fn elapsed_millis(start: &SystemTime) -> u64 {
    match start.elapsed() {
        Ok(d) => {
            let ms = d.as_millis();
            if ms > u64::MAX as u128 {
                u64::MAX
            } else {
                ms as u64
            }
        },
        Err(_) => 0,
    }
}

impl<H: ToolHandler> ToolExecutor<H> {
    /// Runs `tool_name` on `arguments`: an unknown tool is the one
    /// call-level error; rejected arguments and failures raised by the tool
    /// come back as error results; arguments that pass go to the tool's
    /// handler unchanged, and what it returns is finished as `finish` does;
    /// with timing on, every result carries the elapsed milliseconds under
    /// `execution_time_ms`. This call runs the handler to completion: the
    /// time bound `timeout_ms` is enforced by a caller that awaits the tool
    /// and, once it passes, returns `timeout_result` instead.
    pub fn execute(&self, tool_name: &str, arguments: &JsonValue) -> (r: Result<
        ToolResult,
        OrchestraError,
    >)
        ensures
            r is Err <==> !self.registry_view().contains(tool_name@),
            r matches Err(e) ==> e.is_config_with("Tool '"@ + tool_name@ + "' not found"@),
            r matches Ok(res) ==> {
                let def = self.registry_view().tool_named(tool_name@).definition;
                &&& self.validates() ==> (arguments_problem(def, arguments@) matches Some(m) ==> {
                    &&& res.status == ToolResultStatus::Error
                    &&& res.data is None
                    &&& res.error matches Some(t) && t@
                        == "Parameter validation failed: "@ + ("Configuration error: "@ + m)
                    &&& res.error_details matches Some(d) && d.error_type
                        == ToolErrorType::InvalidInput
                    &&& !self.times() ==> res.metadata@.len() == 0
                })
                &&& self.times() ==> (lookup(res.metadata_view(), timing_key()) matches Some(
                    JsonView::Number(n),
                ) && !n.negative && n.scale == 0)
                &&& (!self.validates() || arguments_problem(def, arguments@) is None) ==> exists|
                    o: Result<ToolResult, OrchestraError>,
                    ms: u64,
                |
                    self.registry_view().tool_named(tool_name@).handler.handled(arguments@, o)
                        && #[trigger] finished(self.times(), o, ms, res)
            },
    {
        let start = SystemTime::now();
        let admission = match self.screen(tool_name, arguments) {
            Ok(a) => a,
            Err(e) => {
                return Err(e);
            },
        };
        let outcome = match admission {
            Admission::Invoke => self.registry.execute_tool(tool_name, arguments),
            Admission::Rejected(res) => Ok(res),
        };
        let ms = elapsed_millis(&start);
        let ghost before = outcome;
        let r = self.finish(outcome, ms);
        proof {
            assert(finished(self.times(), before, ms, r));
            if self.include_timing {
                match before {
                    Ok(res) => {
                        lemma_lookup_set_entry(
                            res.metadata_view(),
                            timing_key(),
                            JsonView::Number(JsonNumber { negative: false, digits: ms, scale: 0 }),
                        );
                    },
                    Err(_) => {
                        lemma_lookup_set_entry(
                            Seq::<(Seq<char>, JsonView)>::empty(),
                            timing_key(),
                            JsonView::Number(JsonNumber { negative: false, digits: ms, scale: 0 }),
                        );
                        assert(set_entry(
                            Seq::<(Seq<char>, JsonView)>::empty(),
                            timing_key(),
                            JsonView::Number(JsonNumber { negative: false, digits: ms, scale: 0 }),
                        ) =~= r.metadata_view());
                    },
                }
            }
        }
        Ok(r)
    }
}

/// For a tool with a required number `a` and an optional string `b` limited
/// to a list of values (no other bounds): arguments without `a` are
/// rejected, a `b` outside the list is rejected, and a number `a` with a
/// listed `b` passes.
pub proof fn lemma_required_and_listed(
    def: ToolDefinition,
    pa: ToolParameter,
    pb: ToolParameter,
    n: JsonNumber,
    s: Seq<char>,
)
    requires
        def.params() == seq![("a"@, pa), ("b"@, pb)],
        pa.name@ == "a"@,
        pa.parameter_type == ToolParameterType::Number,
        pa.required,
        pa.minimum is None,
        pa.maximum is None,
        pb.name@ == "b"@,
        pb.parameter_type == ToolParameterType::String,
        !pb.required,
        pb.enum_view() is Some,
        pb.min_length is None,
        pb.max_length is None,
    ensures
        arguments_problem(def, JsonView::Object(Seq::empty())) is Some,
        !pb.enum_view()->0.contains(s) ==> arguments_problem(
            def,
            JsonView::Object(seq![("a"@, JsonView::Number(n)), ("b"@, JsonView::Str(s))]),
        ) is Some,
        pb.enum_view()->0.contains(s) ==> arguments_problem(
            def,
            JsonView::Object(seq![("a"@, JsonView::Number(n)), ("b"@, JsonView::Str(s))]),
        ) is None,
{
    reveal_strlit("a");
    reveal_strlit("b");
    assert("a"@[0] != "b"@[0]);
    let ps = def.parameters@;
    assert(def.params()[0] == (ps[0].0@, ps[0].1));
    assert(def.params()[1] == (ps[1].0@, ps[1].1));
    assert(ps.len() == 2);
    let empty = Seq::<(Seq<char>, JsonView)>::empty();
    lemma_key_index_absent(empty, "a"@);
    assert(missing_required(ps, empty, 0) is Some);
    let args = seq![("a"@, JsonView::Number(n)), ("b"@, JsonView::Str(s))];
    lemma_key_index_found(args, "a"@, 0);
    assert(missing_required(ps, args, 2) is None);
    assert(missing_required(ps, args, 1) is None);
    assert(missing_required(ps, args, 0) is None);
    lemma_key_index_found(def.params(), "a"@, 0);
    lemma_key_index_found(def.params(), "b"@, 1);
    assert(value_problem(pa, JsonView::Number(n)) is None);
    assert(argument_problem(def, args, 2) is None);
    assert(argument_problem(def, args, 0) == argument_problem(def, args, 1));
}

/// A configuration error `"Parameter '" + name + "'" + rest`.
fn param_error(name: &str, rest: &str) -> (r: OrchestraError)
    ensures
        r.is_config_with(param_message(name@, rest@)),
{
    let message = String::from_str("Parameter '").concat(name).concat("'").concat(rest);
    OrchestraError::config(message.as_str())
}

/// Whether `s` is among `values`.
fn contains_str(values: &Vec<String>, s: &str) -> (r: bool)
    ensures
        r == Seq::new(values@.len(), |i: int| values@[i]@).contains(s@),
{
    let ghost vs = Seq::new(values@.len(), |i: int| values@[i]@);
    let mut i: usize = 0;
    while i < values.len()
        invariant
            i <= values@.len(),
            vs == Seq::new(values@.len(), |i: int| values@[i]@),
            forall|j: int| 0 <= j < i ==> vs[j] != s@,
        decreases values@.len() - i,
    {
        if str_eq(values[i].as_str(), s) {
            proof {
                assert(vs[i as int] == s@);
            }
            return true;
        }
        i = i + 1;
    }
    false
}

} // verus!
