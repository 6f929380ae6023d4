//! Tool schemas: a tool's name, description and typed parameters.

use crate::error::OrchestraError;
use crate::json::{
    entries_view, find_entry, key_index, lemma_key_index_absent, lemma_key_index_found, push_entry,
    set_entry,
    JsonNumber, JsonValue, JsonView,
};
use vstd::pervasive::VecAdditionalExecFns;
use vstd::prelude::*;
use vstd::string::{StrSliceExecFns, StringExecFns};

verus! {

/// The JSON kind a parameter accepts.
#[derive(Clone, Copy, Debug, PartialEq, Eq, Structural)]
pub enum ToolParameterType {
    String,
    Number,
    Integer,
    Boolean,
    Array,
    Object,
}

/// The JSON Schema name of a parameter type.
pub open spec fn schema_type_name(t: ToolParameterType) -> Seq<char> {
    match t {
        ToolParameterType::String => "string"@,
        ToolParameterType::Number => "number"@,
        ToolParameterType::Integer => "integer"@,
        ToolParameterType::Boolean => "boolean"@,
        ToolParameterType::Array => "array"@,
        ToolParameterType::Object => "object"@,
    }
}

impl ToolParameterType {
    /// The JSON Schema `type` value for this parameter type.
    pub fn to_json_schema_type(&self) -> (r: JsonValue)
        ensures
            r@ == JsonView::Str(schema_type_name(*self)),
    {
        let s = match self {
            ToolParameterType::String => "string",
            ToolParameterType::Number => "number",
            ToolParameterType::Integer => "integer",
            ToolParameterType::Boolean => "boolean",
            ToolParameterType::Array => "array",
            ToolParameterType::Object => "object",
        };
        JsonValue::string(s)
    }
}

/// A count as a JSON number.
pub open spec fn count_view(n: usize) -> JsonView {
    JsonView::Number(JsonNumber { negative: false, digits: n as u64, scale: 0 })
}

/// `entries` with `(key, value)` appended when `value` is present.
pub open spec fn push_opt(
    entries: Seq<(Seq<char>, JsonView)>,
    key: Seq<char>,
    value: Option<JsonView>,
) -> Seq<(Seq<char>, JsonView)> {
    match value {
        Some(v) => entries.push((key, v)),
        None => entries,
    }
}

/// One parameter of a tool.
#[derive(Debug)]
pub struct ToolParameter {
    pub name: String,
    pub parameter_type: ToolParameterType,
    pub description: Option<String>,
    pub required: bool,
    pub default: Option<JsonValue>,
    pub enum_values: Option<Vec<String>>,
    pub minimum: Option<JsonNumber>,
    pub maximum: Option<JsonNumber>,
    pub min_length: Option<usize>,
    pub max_length: Option<usize>,
    pub min_items: Option<usize>,
    pub max_items: Option<usize>,
}

impl ToolParameter {
    /// The allowed string values, as sequences.
    pub open spec fn enum_view(self) -> Option<Seq<Seq<char>>> {
        match self.enum_values {
            Some(v) => Some(Seq::new(v@.len(), |i: int| v@[i]@)),
            None => None,
        }
    }

    /// The first problem that `validate` reports, if any.
    pub open spec fn spec_problem(self) -> Option<Seq<char>> {
        if self.name@.len() == 0 {
            Some("Parameter name cannot be empty"@)
        } else if self.minimum is Some && self.maximum is Some
            && self.maximum->0.spec_less(self.minimum->0) {
            Some("Minimum value cannot be greater than maximum"@)
        } else if self.min_length is Some && self.max_length is Some && self.min_length->0
            > self.max_length->0 {
            Some("Minimum length cannot be greater than maximum"@)
        } else if self.min_items is Some && self.max_items is Some && self.min_items->0
            > self.max_items->0 {
            Some("Minimum items cannot be greater than maximum"@)
        } else {
            None
        }
    }

    /// The members of the parameter's JSON Schema, in order.
    pub open spec fn schema_entries(self) -> Seq<(Seq<char>, JsonView)> {
        let base = seq![("type"@, JsonView::Str(schema_type_name(self.parameter_type)))];
        let described = match self.description {
            Some(d) => base.push(("description"@, JsonView::Str(d@))),
            None => base,
        };
        match self.parameter_type {
            ToolParameterType::String => push_opt(
                push_opt(
                    push_opt(
                        described,
                        "enum"@,
                        match self.enum_view() {
                            Some(vs) => Some(
                                JsonView::Array(Seq::new(vs.len(), |i: int| JsonView::Str(vs[i]))),
                            ),
                            None => None,
                        },
                    ),
                    "minLength"@,
                    match self.min_length {
                        Some(n) => Some(count_view(n)),
                        None => None,
                    },
                ),
                "maxLength"@,
                match self.max_length {
                    Some(n) => Some(count_view(n)),
                    None => None,
                },
            ),
            ToolParameterType::Number | ToolParameterType::Integer => push_opt(
                push_opt(
                    described,
                    "minimum"@,
                    match self.minimum {
                        Some(n) => Some(JsonView::Number(n)),
                        None => None,
                    },
                ),
                "maximum"@,
                match self.maximum {
                    Some(n) => Some(JsonView::Number(n)),
                    None => None,
                },
            ),
            ToolParameterType::Array => push_opt(
                push_opt(
                    described,
                    "minItems"@,
                    match self.min_items {
                        Some(n) => Some(count_view(n)),
                        None => None,
                    },
                ),
                "maxItems"@,
                match self.max_items {
                    Some(n) => Some(count_view(n)),
                    None => None,
                },
            ),
            _ => described,
        }
    }

    /// A parameter of the given type with no description and no constraints.
    pub fn new(name: &str, parameter_type: ToolParameterType) -> (r: ToolParameter)
        ensures
            r.name@ == name@,
            r.parameter_type == parameter_type,
            r.description is None,
            !r.required,
            r.default is None,
            r.enum_values is None,
            r.minimum is None,
            r.maximum is None,
            r.min_length is None,
            r.max_length is None,
            r.min_items is None,
            r.max_items is None,
    {
        ToolParameter {
            name: name.to_string(),
            parameter_type,
            description: None,
            required: false,
            default: None,
            enum_values: None,
            minimum: None,
            maximum: None,
            min_length: None,
            max_length: None,
            min_items: None,
            max_items: None,
        }
    }

    pub fn with_description(self, description: &str) -> (r: ToolParameter)
        ensures
            r.description matches Some(d) && d@ == description@,
            r == (ToolParameter { description: r.description, ..self }),
    {
        let mut r = self;
        r.description = Some(description.to_string());
        r
    }

    pub fn required(self) -> (r: ToolParameter)
        ensures
            r == (ToolParameter { required: true, ..self }),
    {
        let mut r = self;
        r.required = true;
        r
    }

    pub fn with_default(self, default: JsonValue) -> (r: ToolParameter)
        ensures
            r == (ToolParameter { default: Some(default), ..self }),
    {
        let mut r = self;
        r.default = Some(default);
        r
    }

    /// Restricts a string parameter to the given values.
    pub fn with_enum_values(self, values: Vec<&str>) -> (r: ToolParameter)
        ensures
            r.enum_view() == Some(Seq::new(values@.len(), |i: int| values@[i]@)),
            r == (ToolParameter { enum_values: r.enum_values, ..self }),
    {
        let mut owned: Vec<String> = Vec::new();
        let mut i: usize = 0;
        while i < values.len()
            invariant
                i <= values@.len(),
                owned@.len() == i,
                forall|j: int| 0 <= j < i ==> owned@[j]@ == values@[j]@,
            decreases values@.len() - i,
        {
            owned.push(values[i].to_string());
            i = i + 1;
        }
        let mut r = self;
        r.enum_values = Some(owned);
        proof {
            assert(r.enum_view()->0 =~= Seq::new(values@.len(), |i: int| values@[i]@));
        }
        r
    }

    pub fn with_range(self, min: Option<JsonNumber>, max: Option<JsonNumber>) -> (r: ToolParameter)
        ensures
            r == (ToolParameter { minimum: min, maximum: max, ..self }),
    {
        let mut r = self;
        r.minimum = min;
        r.maximum = max;
        r
    }

    pub fn with_length_range(self, min: Option<usize>, max: Option<usize>) -> (r: ToolParameter)
        ensures
            r == (ToolParameter { min_length: min, max_length: max, ..self }),
    {
        let mut r = self;
        r.min_length = min;
        r.max_length = max;
        r
    }

    pub fn with_items_range(self, min: Option<usize>, max: Option<usize>) -> (r: ToolParameter)
        ensures
            r == (ToolParameter { min_items: min, max_items: max, ..self }),
    {
        let mut r = self;
        r.min_items = min;
        r.max_items = max;
        r
    }

    /// Checks that the name is not empty and that no lower bound exceeds
    /// its upper bound.
    pub fn validate(&self) -> (r: Result<(), OrchestraError>)
        ensures
            match r {
                Ok(()) => self.spec_problem() is None,
                Err(e) => self.spec_problem() matches Some(m) && e.is_config_with(m),
            },
    {
        if self.name.as_str().unicode_len() == 0 {
            return Err(OrchestraError::config("Parameter name cannot be empty"));
        }
        match (&self.minimum, &self.maximum) {
            (Some(min), Some(max)) => {
                if max.less_than(min) {
                    return Err(
                        OrchestraError::config("Minimum value cannot be greater than maximum"),
                    );
                }
            },
            _ => {},
        }
        match (self.min_length, self.max_length) {
            (Some(min), Some(max)) => {
                if min > max {
                    return Err(
                        OrchestraError::config("Minimum length cannot be greater than maximum"),
                    );
                }
            },
            _ => {},
        }
        match (self.min_items, self.max_items) {
            (Some(min), Some(max)) => {
                if min > max {
                    return Err(
                        OrchestraError::config("Minimum items cannot be greater than maximum"),
                    );
                }
            },
            _ => {},
        }
        Ok(())
    }

    /// The parameter's JSON Schema; constraints that are unset, or that do
    /// not apply to the parameter's type, are left out.
    pub fn to_json_schema(&self) -> (r: JsonValue)
        ensures
            r@ == JsonView::Object(self.schema_entries()),
    {
        let mut entries: Vec<(String, JsonValue)> = Vec::new();
        push_entry(&mut entries, "type", self.parameter_type.to_json_schema_type());
        proof {
            assert(entries_view(entries@) =~= seq![
                ("type"@, JsonView::Str(schema_type_name(self.parameter_type))),
            ]);
        }
        match &self.description {
            Some(d) => push_entry(&mut entries, "description", JsonValue::string(d.as_str())),
            None => {},
        }
        match self.parameter_type {
            ToolParameterType::String => {
                match &self.enum_values {
                    Some(vs) => {
                        let arr = JsonValue::string_array(vs);
                        proof {
                            let ev = self.enum_view()->0;
                            assert(arr@ == JsonView::Array(
                                Seq::new(ev.len(), |i: int| JsonView::Str(ev[i])),
                            )) by {
                                assert(arr@->Array_0 =~= Seq::new(
                                    ev.len(),
                                    |i: int| JsonView::Str(ev[i]),
                                ));
                            }
                        }
                        push_entry(&mut entries, "enum", arr);
                    },
                    None => {},
                }
                match self.min_length {
                    Some(n) => push_entry(&mut entries, "minLength", JsonValue::from_u64(n as u64)),
                    None => {},
                }
                match self.max_length {
                    Some(n) => push_entry(&mut entries, "maxLength", JsonValue::from_u64(n as u64)),
                    None => {},
                }
            },
            ToolParameterType::Number | ToolParameterType::Integer => {
                match self.minimum {
                    Some(n) => push_entry(&mut entries, "minimum", JsonValue::number(n)),
                    None => {},
                }
                match self.maximum {
                    Some(n) => push_entry(&mut entries, "maximum", JsonValue::number(n)),
                    None => {},
                }
            },
            ToolParameterType::Array => {
                match self.min_items {
                    Some(n) => push_entry(&mut entries, "minItems", JsonValue::from_u64(n as u64)),
                    None => {},
                }
                match self.max_items {
                    Some(n) => push_entry(&mut entries, "maxItems", JsonValue::from_u64(n as u64)),
                    None => {},
                }
            },
            _ => {},
        }
        let r = JsonValue::Object(entries);
        proof {
            assert(r@->Object_0 =~= entries_view(entries@));
        }
        r
    }

    /// Whether `other` holds the same content.
    pub open spec fn same_as(self, other: ToolParameter) -> bool {
        &&& self.name@ == other.name@
        &&& self.parameter_type == other.parameter_type
        &&& self.description.is_some() == other.description.is_some()
        &&& self.description matches Some(d) ==> other.description->0@ == d@
        &&& self.required == other.required
        &&& self.default.is_some() == other.default.is_some()
        &&& self.default matches Some(d) ==> other.default->0@ == d@
        &&& self.enum_view() == other.enum_view()
        &&& self.minimum == other.minimum
        &&& self.maximum == other.maximum
        &&& self.min_length == other.min_length
        &&& self.max_length == other.max_length
        &&& self.min_items == other.min_items
        &&& self.max_items == other.max_items
    }

    /// A deep copy.
    pub fn copy(&self) -> (r: ToolParameter)
        ensures
            r.same_as(*self),
    {
        let description = match &self.description {
            Some(d) => Some(d.clone()),
            None => None,
        };
        let default = match &self.default {
            Some(d) => Some(d.copy()),
            None => None,
        };
        let enum_values = match &self.enum_values {
            Some(vs) => {
                let mut out: Vec<String> = Vec::new();
                let mut i: usize = 0;
                while i < vs.len()
                    invariant
                        i <= vs@.len(),
                        out@.len() == i,
                        forall|j: int| 0 <= j < i ==> out@[j]@ == vs@[j]@,
                    decreases vs@.len() - i,
                {
                    out.push(vs[i].clone());
                    i = i + 1;
                }
                Some(out)
            },
            None => None,
        };
        let r = ToolParameter {
            name: self.name.clone(),
            parameter_type: self.parameter_type,
            description,
            required: self.required,
            default,
            enum_values,
            minimum: self.minimum,
            maximum: self.maximum,
            min_length: self.min_length,
            max_length: self.max_length,
            min_items: self.min_items,
            max_items: self.max_items,
        };
        proof {
            if self.enum_values is Some {
                assert(r.enum_view()->0 =~= self.enum_view()->0);
            }
        }
        r
    }
}

/// Whether `c` may appear in a tool name: a lowercase ASCII letter, an ASCII
/// digit, or an underscore.
pub open spec fn is_name_char(c: char) -> bool {
    ('a' <= c && c <= 'z') || ('0' <= c && c <= '9') || c == '_'
}

/// Whether every character of `s` may appear in a tool name.
pub open spec fn all_name_chars(s: Seq<char>) -> bool {
    forall|i: int| 0 <= i < s.len() ==> is_name_char(s[i])
}

/// The parameter entries as (key, parameter) pairs.
pub open spec fn params_view(ps: Seq<(String, ToolParameter)>) -> Seq<(Seq<char>, ToolParameter)> {
    Seq::new(ps.len(), |i: int| (ps[i].0@, ps[i].1))
}

/// The message for a parameter stored under a key other than its name.
pub open spec fn mismatch_message(key: Seq<char>, name: Seq<char>) -> Seq<char> {
    "Parameter name mismatch: key '"@ + key + "' vs parameter name '"@ + name + "'"@
}

/// The message for a key stored twice.
pub open spec fn duplicate_message(key: Seq<char>) -> Seq<char> {
    "Parameter '"@ + key + "' is defined more than once"@
}

/// The first problem among the parameter entries from index `i` on: a key
/// already used by an earlier entry, a key other than the parameter's name,
/// or a problem of the parameter itself.
pub open spec fn params_problem(ps: Seq<(String, ToolParameter)>, i: int) -> Option<Seq<char>>
    decreases ps.len() - i,
{
    if i < 0 || i >= ps.len() {
        None
    } else if exists|j: int| 0 <= j < i && ps[j].0@ == ps[i].0@ {
        Some(duplicate_message(ps[i].0@))
    } else if ps[i].0@ != ps[i].1.name@ {
        Some(mismatch_message(ps[i].0@, ps[i].1.name@))
    } else if ps[i].1.spec_problem() is Some {
        ps[i].1.spec_problem()
    } else {
        params_problem(ps, i + 1)
    }
}

/// The parameters marked required, in entry order.
pub open spec fn required_of(ps: Seq<(String, ToolParameter)>) -> Seq<ToolParameter>
    decreases ps.len(),
{
    if ps.len() == 0 {
        Seq::empty()
    } else {
        let rest = required_of(ps.drop_last());
        if ps.last().1.required {
            rest.push(ps.last().1)
        } else {
            rest
        }
    }
}

/// The parameters not marked required, in entry order.
pub open spec fn optional_of(ps: Seq<(String, ToolParameter)>) -> Seq<ToolParameter>
    decreases ps.len(),
{
    if ps.len() == 0 {
        Seq::empty()
    } else {
        let rest = optional_of(ps.drop_last());
        if !ps.last().1.required {
            rest.push(ps.last().1)
        } else {
            rest
        }
    }
}

/// The description of one tool.
#[derive(Debug)]
pub struct ToolDefinition {
    pub name: String,
    pub description: String,
    pub parameters: Vec<(String, ToolParameter)>,
    pub deprecated: bool,
}

impl ToolDefinition {
    /// The parameter entries as (key, parameter) pairs.
    pub open spec fn params(self) -> Seq<(Seq<char>, ToolParameter)> {
        params_view(self.parameters@)
    }

    /// The first problem that `validate` reports, if any.
    pub open spec fn spec_problem(self) -> Option<Seq<char>> {
        if self.name@.len() == 0 {
            Some("Tool name cannot be empty"@)
        } else if !all_name_chars(self.name@) {
            Some(
                "Tool name should use snake_case (lowercase letters, numbers, and underscores only)"@,
            )
        } else if self.description@.len() == 0 {
            Some("Tool description cannot be empty"@)
        } else {
            params_problem(self.parameters@, 0)
        }
    }

    /// The JSON Schema `properties` members: each parameter's schema under its name.
    pub open spec fn properties_entries(self) -> Seq<(Seq<char>, JsonView)> {
        Seq::new(
            self.parameters@.len(),
            |i: int|
                (self.parameters@[i].1.name@, JsonView::Object(
                    self.parameters@[i].1.schema_entries(),
                )),
        )
    }

    /// The JSON Schema document of the tool's parameters.
    pub open spec fn spec_schema(self) -> JsonView {
        let req = required_of(self.parameters@);
        JsonView::Object(
            seq![
                ("type"@, JsonView::Str("object"@)),
                ("properties"@, JsonView::Object(self.properties_entries())),
                ("required"@, JsonView::Array(Seq::new(req.len(), |i: int| JsonView::Str(req[i].name@)))),
                ("additionalProperties"@, JsonView::Bool(false)),
            ],
        )
    }

    /// A tool with no parameters that is not deprecated.
    pub fn new(name: &str, description: &str) -> (r: ToolDefinition)
        ensures
            r.name@ == name@,
            r.description@ == description@,
            r.parameters@.len() == 0,
            !r.deprecated,
    {
        ToolDefinition {
            name: name.to_string(),
            description: description.to_string(),
            parameters: Vec::new(),
            deprecated: false,
        }
    }

    /// Adds `parameter` under its own name, replacing an entry with that key.
    pub fn with_parameter(self, parameter: ToolParameter) -> (r: ToolDefinition)
        ensures
            r.params() == set_entry(self.params(), parameter.name@, parameter),
            r.name == self.name,
            r.description == self.description,
            r.deprecated == self.deprecated,
    {
        let mut r = self;
        let key = parameter.name.clone();
        let ghost before = r.params();
        let ghost p = parameter;
        let found = find_entry(&r.parameters, key.as_str());
        match found {
            Some(i) => {
                proof {
                    assert forall|j: int| 0 <= j < i implies before[j].0 != key@ by {}
                    lemma_key_index_found(before, key@, i as int);
                }
                r.parameters.set(i, (key, parameter));
            },
            None => {
                proof {
                    lemma_key_index_absent(before, key@);
                }
                r.parameters.push((key, parameter));
            },
        }
        proof {
            assert(r.params() =~= set_entry(before, p.name@, p));
        }
        r
    }

    pub fn deprecated(self) -> (r: ToolDefinition)
        ensures
            r == (ToolDefinition { deprecated: true, ..self }),
    {
        let mut r = self;
        r.deprecated = true;
        r
    }

    /// The parameter stored under `name`.
    pub fn parameter(&self, name: &str) -> (r: Option<&ToolParameter>)
        ensures
            match r {
                Some(p) => crate::json::lookup(self.params(), name@) == Some(*p),
                None => crate::json::lookup(self.params(), name@) is None,
            },
    {
        let found = find_entry(&self.parameters, name);
        let ghost ps = self.params();
        match found {
            Some(i) => {
                proof {
                    assert forall|j: int| 0 <= j < i implies ps[j].0 != name@ by {}
                    lemma_key_index_found(ps, name@, i as int);
                }
                Some(&self.parameters[i].1)
            },
            None => {
                proof {
                    lemma_key_index_absent(ps, name@);
                }
                None
            },
        }
    }

    /// Whether a parameter is stored under `name`.
    pub fn has_parameter(&self, name: &str) -> (r: bool)
        ensures
            r == (key_index(self.params(), name@) >= 0),
    {
        self.parameter(name).is_some()
    }

    /// Checks the name (non-empty, `[a-z0-9_]` only), the description
    /// (non-empty), and each parameter entry in order: its key must not be
    /// used by an earlier entry, it must be the parameter's own name, and the
    /// parameter must pass its own check.
    pub fn validate(&self) -> (r: Result<(), OrchestraError>)
        ensures
            match r {
                Ok(()) => self.spec_problem() is None,
                Err(e) => self.spec_problem() matches Some(m) && e.is_config_with(m),
            },
    {
        let n = self.name.as_str().unicode_len();
        if n == 0 {
            return Err(OrchestraError::config("Tool name cannot be empty"));
        }
        let mut i: usize = 0;
        while i < n
            invariant
                n == self.name@.len(),
                i <= n,
                forall|j: int| 0 <= j < i ==> is_name_char(self.name@[j]),
            decreases n - i,
        {
            let c = self.name.as_str().get_char(i);
            if !(('a' <= c && c <= 'z') || ('0' <= c && c <= '9') || c == '_') {
                return Err(
                    OrchestraError::config(
                        "Tool name should use snake_case (lowercase letters, numbers, and underscores only)",
                    ),
                );
            }
            i = i + 1;
        }
        if self.description.as_str().unicode_len() == 0 {
            return Err(OrchestraError::config("Tool description cannot be empty"));
        }
        let ps = &self.parameters;
        let mut k: usize = 0;
        while k < ps.len()
            invariant
                k <= ps@.len(),
                ps == &self.parameters,
                self.name@.len() > 0,
                all_name_chars(self.name@),
                self.description@.len() > 0,
                params_problem(ps@, 0) == params_problem(ps@, k as int),
            decreases ps@.len() - k,
        {
            let key = &ps[k].0;
            let param = &ps[k].1;
            let mut j: usize = 0;
            while j < k
                invariant
                    j <= k,
                    k < ps@.len(),
                    ps == &self.parameters,
                    key@ == ps@[k as int].0@,
                    self.name@.len() > 0,
                    all_name_chars(self.name@),
                    self.description@.len() > 0,
                    params_problem(ps@, 0) == params_problem(ps@, k as int),
                    forall|m: int| 0 <= m < j ==> ps@[m].0@ != ps@[k as int].0@,
                decreases k - j,
            {
                if crate::json::str_eq(ps[j].0.as_str(), key.as_str()) {
                    proof {
                        assert(ps@[j as int].0@ == ps@[k as int].0@);
                    }
                    let message = String::from_str("Parameter '").concat(key.as_str()).concat(
                        "' is defined more than once",
                    );
                    return Err(OrchestraError::config(message.as_str()));
                }
                j = j + 1;
            }
            if !crate::json::str_eq(key.as_str(), param.name.as_str()) {
                let message = String::from_str("Parameter name mismatch: key '").concat(
                    key.as_str(),
                ).concat("' vs parameter name '").concat(param.name.as_str()).concat("'");
                return Err(OrchestraError::config(message.as_str()));
            }
            match param.validate() {
                Ok(()) => {},
                Err(e) => {
                    return Err(e);
                },
            }
            k = k + 1;
        }
        Ok(())
    }

    /// References to the required parameters, in entry order.
    pub fn required_parameters(&self) -> (r: Vec<&ToolParameter>)
        ensures
            r@.len() == required_of(self.parameters@).len(),
            forall|i: int| 0 <= i < r@.len() ==> *r@[i] == required_of(self.parameters@)[i],
    {
        let ps = &self.parameters;
        let mut out: Vec<&ToolParameter> = Vec::new();
        let mut k: usize = 0;
        while k < ps.len()
            invariant
                k <= ps@.len(),
                out@.len() == required_of(ps@.subrange(0, k as int)).len(),
                forall|i: int|
                    0 <= i < out@.len() ==> *out@[i] == required_of(ps@.subrange(0, k as int))[i],
            decreases ps@.len() - k,
        {
            proof {
                assert(ps@.subrange(0, k + 1).drop_last() =~= ps@.subrange(0, k as int));
            }
            if ps[k].1.required {
                out.push(&ps[k].1);
            }
            k = k + 1;
        }
        proof {
            assert(ps@.subrange(0, ps@.len() as int) =~= ps@);
        }
        out
    }

    /// References to the parameters not marked required, in entry order.
    pub fn optional_parameters(&self) -> (r: Vec<&ToolParameter>)
        ensures
            r@.len() == optional_of(self.parameters@).len(),
            forall|i: int| 0 <= i < r@.len() ==> *r@[i] == optional_of(self.parameters@)[i],
    {
        let ps = &self.parameters;
        let mut out: Vec<&ToolParameter> = Vec::new();
        let mut k: usize = 0;
        while k < ps.len()
            invariant
                k <= ps@.len(),
                out@.len() == optional_of(ps@.subrange(0, k as int)).len(),
                forall|i: int|
                    0 <= i < out@.len() ==> *out@[i] == optional_of(ps@.subrange(0, k as int))[i],
            decreases ps@.len() - k,
        {
            proof {
                assert(ps@.subrange(0, k + 1).drop_last() =~= ps@.subrange(0, k as int));
            }
            if !ps[k].1.required {
                out.push(&ps[k].1);
            }
            k = k + 1;
        }
        proof {
            assert(ps@.subrange(0, ps@.len() as int) =~= ps@);
        }
        out
    }

    /// The JSON Schema document of the tool's parameters: an object schema
    /// with one property per parameter, the required names, and no
    /// additional properties.
    pub fn to_json_schema(&self) -> (r: JsonValue)
        ensures
            r@ == self.spec_schema(),
    {
        let ps = &self.parameters;
        let mut properties: Vec<(String, JsonValue)> = Vec::new();
        let mut required: Vec<String> = Vec::new();
        let mut k: usize = 0;
        while k < ps.len()
            invariant
                k <= ps@.len(),
                ps == &self.parameters,
                entries_view(properties@) =~= self.properties_entries().subrange(0, k as int),
                required@.len() == required_of(ps@.subrange(0, k as int)).len(),
                forall|i: int|
                    0 <= i < required@.len() ==> required@[i]@ == required_of(
                        ps@.subrange(0, k as int),
                    )[i].name@,
            decreases ps@.len() - k,
        {
            proof {
                assert(ps@.subrange(0, k + 1).drop_last() =~= ps@.subrange(0, k as int));
            }
            let param = &ps[k].1;
            push_entry(&mut properties, param.name.as_str(), param.to_json_schema());
            if param.required {
                required.push(param.name.clone());
            }
            k = k + 1;
        }
        proof {
            assert(ps@.subrange(0, ps@.len() as int) =~= ps@);
        }
        let props = JsonValue::Object(properties);
        let req = JsonValue::string_array(&required);
        let mut doc: Vec<(String, JsonValue)> = Vec::new();
        proof {
            assert(entries_view(doc@) =~= Seq::empty());
        }
        push_entry(&mut doc, "type", JsonValue::string("object"));
        push_entry(&mut doc, "properties", props);
        push_entry(&mut doc, "required", req);
        push_entry(&mut doc, "additionalProperties", JsonValue::boolean(false));
        let r = JsonValue::Object(doc);
        proof {
            let rq = required_of(self.parameters@);
            assert(self.properties_entries().subrange(0, ps@.len() as int)
                =~= self.properties_entries());
            assert(props@->Object_0 =~= entries_view(properties@));
            assert(props@->Object_0 =~= self.properties_entries());
            assert(req@->Array_0 =~= Seq::new(rq.len(), |i: int| JsonView::Str(rq[i].name@)));
            assert(r@->Object_0 =~= entries_view(doc@));
            assert(r@->Object_0 =~= self.spec_schema()->Object_0);
        }
        r
    }

    /// Whether `other` holds the same content.
    pub open spec fn same_as(self, other: ToolDefinition) -> bool {
        &&& self.name@ == other.name@
        &&& self.description@ == other.description@
        &&& self.deprecated == other.deprecated
        &&& self.parameters@.len() == other.parameters@.len()
        &&& forall|i: int|
            0 <= i < self.parameters@.len() ==> self.parameters@[i].0@ == other.parameters@[i].0@
                && self.parameters@[i].1.same_as(other.parameters@[i].1)
    }

    /// A deep copy.
    pub fn copy(&self) -> (r: ToolDefinition)
        ensures
            r.same_as(*self),
    {
        let ps = &self.parameters;
        let mut out: Vec<(String, ToolParameter)> = Vec::new();
        let mut k: usize = 0;
        while k < ps.len()
            invariant
                k <= ps@.len(),
                out@.len() == k,
                forall|i: int|
                    0 <= i < k ==> out@[i].0@ == ps@[i].0@ && out@[i].1.same_as(ps@[i].1),
            decreases ps@.len() - k,
        {
            out.push((ps[k].0.clone(), ps[k].1.copy()));
            k = k + 1;
        }
        ToolDefinition {
            name: self.name.clone(),
            description: self.description.clone(),
            parameters: out,
            deprecated: self.deprecated,
        }
    }
}

/// A definition built from a `[a-z0-9_]+` name and a non-empty description,
/// with no parameters, passes validation.
pub proof fn lemma_new_definition_valid(name: Seq<char>, description: Seq<char>)
    requires
        name.len() > 0,
        all_name_chars(name),
        description.len() > 0,
    ensures
        forall|d: ToolDefinition|
            d.name@ == name && d.description@ == description && d.parameters@.len() == 0
                ==> #[trigger] d.spec_problem() is None,
{
}

proof fn lemma_problem_at_or_before(ps: Seq<(String, ToolParameter)>, j: int, i: int)
    requires
        0 <= j <= i < ps.len(),
        ps[i].0@ != ps[i].1.name@,
    ensures
        params_problem(ps, j) is Some,
    decreases i - j,
{
    if j < i {
        lemma_problem_at_or_before(ps, j + 1, i);
    }
}

/// A definition holding a parameter under a key other than the parameter's
/// own name fails validation.
pub proof fn lemma_key_mismatch_invalid(def: ToolDefinition, i: int)
    requires
        0 <= i < def.parameters@.len(),
        def.parameters@[i].0@ != def.parameters@[i].1.name@,
    ensures
        def.spec_problem() is Some,
{
    lemma_problem_at_or_before(def.parameters@, 0, i);
}

} // verus!
