//! A JSON document model whose numbers are exact decimals.

use vstd::prelude::*;
use vstd::string::{StrSliceExecFns, StringExecFns};
use vstd::pervasive::VecAdditionalExecFns;

verus! {

/// Ten to the power `n`.
pub open spec fn pow10(n: nat) -> int
    decreases n,
{
    if n == 0 {
        1
    } else {
        10 * pow10((n - 1) as nat)
    }
}

/// A JSON number held exactly: `(-1)^negative * digits / 10^scale`.
#[derive(Clone, Copy, Debug, PartialEq, Eq, Structural)]
pub struct JsonNumber {
    pub negative: bool,
    pub digits: u64,
    pub scale: u32,
}

pub proof fn lemma_pow10_positive(n: nat)
    ensures
        pow10(n) >= 1,
    decreases n,
{
    if n > 0 {
        lemma_pow10_positive((n - 1) as nat);
    }
}

pub proof fn lemma_pow10_add(a: nat, b: nat)
    ensures
        pow10(a + b) == pow10(a) * pow10(b),
    decreases b,
{
    if b > 0 {
        lemma_pow10_add(a, (b - 1) as nat);
        assert(pow10(a + b) == 10 * pow10((a + b - 1) as nat));
        assert(pow10(a) * pow10(b) == pow10(a) * (10 * pow10((b - 1) as nat)));
        assert(pow10(a) * (10 * pow10((b - 1) as nat)) == 10 * (pow10(a) * pow10(
            (b - 1) as nat,
        ))) by (nonlinear_arith);
    }
}

/// `x * 10^k` when that fits in 64 bits; otherwise some value above `u64::MAX`.
fn scale_capped(x: u64, k: u32) -> (r: u128)
    ensures
        x * pow10(k as nat) <= u64::MAX ==> r == x * pow10(k as nat),
        x * pow10(k as nat) > u64::MAX ==> r > u64::MAX,
{
    let mut v: u128 = x as u128;
    let mut i: u32 = 0;
    while i < k && v <= u64::MAX as u128
        invariant
            i <= k,
            v == x * pow10(i as nat),
        decreases k - i,
    {
        proof {
            assert(x * pow10((i + 1) as nat) == 10 * (x * pow10(i as nat))) by (nonlinear_arith)
                requires
                    pow10((i + 1) as nat) == 10 * pow10(i as nat),
            ;
        }
        v = v * 10;
        i = i + 1;
    }
    proof {
        if i < k {
            lemma_pow10_add(i as nat, (k - i) as nat);
            lemma_pow10_positive((k - i) as nat);
            assert(x * pow10(k as nat) == v * pow10((k - i) as nat)) by (nonlinear_arith)
                requires
                    pow10(k as nat) == pow10(i as nat) * pow10((k - i) as nat),
                    v == x * pow10(i as nat),
            ;
            assert(v * pow10((k - i) as nat) >= v) by (nonlinear_arith)
                requires
                    pow10((k - i) as nat) >= 1,
                    v >= 0,
            ;
        }
    }
    v
}

/// Whether `a / 10^sa < b / 10^sb`, that is `a * 10^sb < b * 10^sa`.
fn magnitude_less(a: u64, sa: u32, b: u64, sb: u32) -> (r: bool)
    ensures
        r == (a * pow10(sb as nat) < b * pow10(sa as nat)),
{
    if sa <= sb {
        let k = sb - sa;
        let c = scale_capped(a, k);
        proof {
            lemma_pow10_add(sa as nat, k as nat);
            lemma_pow10_positive(sa as nat);
            assert(a * pow10(sb as nat) == (a * pow10(k as nat)) * pow10(sa as nat))
                by (nonlinear_arith)
                requires
                    pow10(sb as nat) == pow10(sa as nat) * pow10(k as nat),
            ;
            assert(((a * pow10(k as nat)) * pow10(sa as nat) < b * pow10(sa as nat)) == (a
                * pow10(k as nat) < b)) by (nonlinear_arith)
                requires
                    pow10(sa as nat) >= 1,
            ;
        }
        if c > u64::MAX as u128 {
            false
        } else {
            c < b as u128
        }
    } else {
        let k = sa - sb;
        let c = scale_capped(b, k);
        proof {
            lemma_pow10_add(sb as nat, k as nat);
            lemma_pow10_positive(sb as nat);
            assert(b * pow10(sa as nat) == (b * pow10(k as nat)) * pow10(sb as nat))
                by (nonlinear_arith)
                requires
                    pow10(sa as nat) == pow10(sb as nat) * pow10(k as nat),
            ;
            assert((a * pow10(sb as nat) < (b * pow10(k as nat)) * pow10(sb as nat)) == (a < b
                * pow10(k as nat))) by (nonlinear_arith)
                requires
                    pow10(sb as nat) >= 1,
            ;
        }
        if c > u64::MAX as u128 {
            true
        } else {
            (a as u128) < c
        }
    }
}

/// The integer `n` as a number with no decimal places.
pub open spec fn int_number(n: i64) -> JsonNumber {
    JsonNumber {
        negative: n < 0,
        digits: (if n < 0 {
            -n
        } else {
            n as int
        }) as u64,
        scale: 0,
    }
}

impl JsonNumber {
    /// The signed digits, before the decimal point is placed.
    pub open spec fn signed(self) -> int {
        if self.negative {
            -(self.digits as int)
        } else {
            self.digits as int
        }
    }

    /// Whether this number is below `other`.
    pub open spec fn spec_less(self, other: JsonNumber) -> bool {
        self.signed() * pow10(other.scale as nat) < other.signed() * pow10(self.scale as nat)
    }

    /// Whether this number has no fractional part.
    pub open spec fn spec_integral(self) -> bool {
        (self.digits as int) % pow10(self.scale as nat) == 0
    }

    /// The integer value of a number with no fractional part.
    pub open spec fn spec_int_value(self) -> int {
        self.signed() / pow10(self.scale as nat)
    }

    /// The number `digits / 10^scale`, negated when `negative` holds.
    pub fn decimal(negative: bool, digits: u64, scale: u32) -> (r: JsonNumber)
        ensures
            r == (JsonNumber { negative, digits, scale }),
    {
        JsonNumber { negative, digits, scale }
    }

    pub fn from_i64(n: i64) -> (r: JsonNumber)
        ensures
            r == int_number(n),
            r.signed() == n,
    {
        if n < 0 {
            let m: i128 = -(n as i128);
            JsonNumber { negative: true, digits: m as u64, scale: 0 }
        } else {
            JsonNumber { negative: false, digits: n as u64, scale: 0 }
        }
    }

    pub fn from_u64(n: u64) -> (r: JsonNumber)
        ensures
            r.signed() == n,
            r.scale == 0,
            !r.negative,
    {
        JsonNumber { negative: false, digits: n, scale: 0 }
    }

    /// Numeric comparison: whether `self < other`.
    pub fn less_than(&self, other: &JsonNumber) -> (r: bool)
        ensures
            r == self.spec_less(*other),
    {
        proof {
            lemma_pow10_positive(self.scale as nat);
            lemma_pow10_positive(other.scale as nat);
            let p = pow10(self.scale as nat);
            let q = pow10(other.scale as nat);
            let a = self.digits as int;
            let b = other.digits as int;
            assert((-a) * q == -(a * q)) by (nonlinear_arith);
            assert((-b) * p == -(b * p)) by (nonlinear_arith);
            assert(a > 0 ==> a * q > 0) by (nonlinear_arith)
                requires
                    q >= 1,
            ;
            assert(b > 0 ==> b * p > 0) by (nonlinear_arith)
                requires
                    p >= 1,
            ;
            assert(a == 0 ==> a * q == 0);
            assert(b == 0 ==> b * p == 0);
        }
        let sa: i8 = if self.digits == 0 {
            0
        } else if self.negative {
            -1
        } else {
            1
        };
        let sb: i8 = if other.digits == 0 {
            0
        } else if other.negative {
            -1
        } else {
            1
        };
        if sa != sb {
            sa < sb
        } else if sa == 0 {
            false
        } else if sa > 0 {
            magnitude_less(self.digits, self.scale, other.digits, other.scale)
        } else {
            magnitude_less(other.digits, other.scale, self.digits, self.scale)
        }
    }

    /// Whether the number has no fractional part.
    pub fn is_integer(&self) -> (r: bool)
        ensures
            r == self.spec_integral(),
    {
        let p = scale_capped(1, self.scale);
        proof {
            lemma_pow10_positive(self.scale as nat);
        }
        if p > u64::MAX as u128 {
            proof {
                assert((self.digits as int) % pow10(self.scale as nat) == self.digits as int)
                    by (nonlinear_arith)
                    requires
                        pow10(self.scale as nat) > self.digits,
                ;
            }
            self.digits == 0
        } else {
            (self.digits as u128) % p == 0
        }
    }

    /// The value as an `i64`, for a number with no fractional part that fits.
    pub fn as_i64(&self) -> (r: Option<i64>)
        ensures
            r matches Some(v) ==> self.spec_integral() && v == self.spec_int_value(),
            r is None ==> !self.spec_integral() || self.spec_int_value() < i64::MIN
                || self.spec_int_value() > i64::MAX,
    {
        if !self.is_integer() {
            return None;
        }
        let p = scale_capped(1, self.scale);
        proof {
            lemma_pow10_positive(self.scale as nat);
        }
        let q: u64 = if p > u64::MAX as u128 {
            proof {
                assert((self.digits as int) % pow10(self.scale as nat) == self.digits as int)
                    by (nonlinear_arith)
                    requires
                        pow10(self.scale as nat) > self.digits,
                ;
            }
            0
        } else {
            ((self.digits as u128) / p) as u64
        };
        proof {
            let pp = pow10(self.scale as nat);
            let d = self.digits as int;
            assert(q == d / pp);
            assert(d % pp == 0);
            assert(d == pp * (d / pp)) by (nonlinear_arith)
                requires
                    d % pp == 0,
                    pp > 0,
            ;
            assert((-d) / pp == -(d / pp)) by (nonlinear_arith)
                requires
                    d == pp * (d / pp),
                    pp > 0,
            ;
        }
        if self.negative {
            if q <= 9223372036854775808u64 {
                let v: i128 = -(q as i128);
                Some(v as i64)
            } else {
                None
            }
        } else {
            if q <= 9223372036854775807u64 {
                Some(q as i64)
            } else {
                None
            }
        }
    }
}

/// The value of a JSON document, with strings and arrays as sequences.
pub enum JsonView {
    Null,
    Bool(bool),
    Number(JsonNumber),
    Str(Seq<char>),
    Array(Seq<JsonView>),
    Object(Seq<(Seq<char>, JsonView)>),
}

/// A JSON document.
#[derive(Debug)]
pub enum JsonValue {
    Null,
    Bool(bool),
    Number(JsonNumber),
    String(String),
    Array(Vec<JsonValue>),
    Object(Vec<(String, JsonValue)>),
}

impl JsonValue {
    /// The document's value.
    pub open spec fn view(&self) -> JsonView
        decreases self,
    {
        match self {
            JsonValue::Null => JsonView::Null,
            JsonValue::Bool(b) => JsonView::Bool(*b),
            JsonValue::Number(n) => JsonView::Number(*n),
            JsonValue::String(s) => JsonView::Str(s@),
            JsonValue::Array(items) => JsonView::Array(
                Seq::new(
                    items@.len(),
                    |i: int|
                        if 0 <= i < items@.len() {
                            items[i].view()
                        } else {
                            JsonView::Null
                        },
                ),
            ),
            JsonValue::Object(entries) => JsonView::Object(
                Seq::new(
                    entries@.len(),
                    |i: int|
                        if 0 <= i < entries@.len() {
                            (entries[i].0@, entries[i].1.view())
                        } else {
                            (Seq::empty(), JsonView::Null)
                        },
                ),
            ),
        }
    }
}


/// The index of the first entry whose key is `key`, or -1.
pub open spec fn key_index<V>(entries: Seq<(Seq<char>, V)>, key: Seq<char>) -> int
    decreases entries.len(),
{
    if entries.len() == 0 {
        -1
    } else if entries[0].0 == key {
        0
    } else {
        let r = key_index(entries.subrange(1, entries.len() as int), key);
        if r < 0 {
            -1
        } else {
            r + 1
        }
    }
}

/// The value of the first entry whose key is `key`.
pub open spec fn lookup<V>(entries: Seq<(Seq<char>, V)>, key: Seq<char>) -> Option<V> {
    let i = key_index(entries, key);
    if i >= 0 {
        Some(entries[i].1)
    } else {
        None
    }
}

/// The entries after setting `key` to `value`: the first entry with that key
/// is replaced in place, or else a new entry is appended.
pub open spec fn set_entry<V>(entries: Seq<(Seq<char>, V)>, key: Seq<char>, value: V) -> Seq<
    (Seq<char>, V),
> {
    let i = key_index(entries, key);
    if i >= 0 {
        entries.update(i, (key, value))
    } else {
        entries.push((key, value))
    }
}

/// The value of a list of (key, document) entries.
pub open spec fn entries_view(entries: Seq<(String, JsonValue)>) -> Seq<(Seq<char>, JsonView)> {
    Seq::new(entries.len(), |i: int| (entries[i].0@, entries[i].1@))
}

impl JsonView {
    /// The member `key` of an object; `None` for a missing key or a non-object.
    pub open spec fn get(self, key: Seq<char>) -> Option<JsonView> {
        match self {
            JsonView::Object(entries) => lookup(entries, key),
            _ => None,
        }
    }
}

pub proof fn lemma_key_index_found<V>(entries: Seq<(Seq<char>, V)>, key: Seq<char>, i: int)
    requires
        0 <= i < entries.len(),
        entries[i].0 == key,
        forall|j: int| 0 <= j < i ==> entries[j].0 != key,
    ensures
        key_index(entries, key) == i,
    decreases entries.len(),
{
    if i > 0 {
        let t = entries.subrange(1, entries.len() as int);
        assert(t[i - 1] == entries[i]);
        assert forall|j: int| 0 <= j < i - 1 implies t[j].0 != key by {
            assert(t[j] == entries[j + 1]);
        }
        lemma_key_index_found(t, key, i - 1);
    }
}

pub proof fn lemma_key_index_absent<V>(entries: Seq<(Seq<char>, V)>, key: Seq<char>)
    requires
        forall|j: int| 0 <= j < entries.len() ==> entries[j].0 != key,
    ensures
        key_index(entries, key) == -1,
    decreases entries.len(),
{
    if entries.len() > 0 {
        let t = entries.subrange(1, entries.len() as int);
        assert forall|j: int| 0 <= j < t.len() implies t[j].0 != key by {
            assert(t[j] == entries[j + 1]);
        }
        lemma_key_index_absent(t, key);
    }
}

impl JsonValue {
    pub fn null() -> (r: JsonValue)
        ensures
            r@ == JsonView::Null,
    {
        JsonValue::Null
    }

    pub fn boolean(b: bool) -> (r: JsonValue)
        ensures
            r@ == JsonView::Bool(b),
    {
        JsonValue::Bool(b)
    }

    pub fn string(s: &str) -> (r: JsonValue)
        ensures
            r@ == JsonView::Str(s@),
    {
        JsonValue::String(s.to_string())
    }

    pub fn number(n: JsonNumber) -> (r: JsonValue)
        ensures
            r@ == JsonView::Number(n),
    {
        JsonValue::Number(n)
    }

    pub fn from_i64(n: i64) -> (r: JsonValue)
        ensures
            r@ == JsonView::Number(int_number(n)),
    {
        JsonValue::Number(JsonNumber::from_i64(n))
    }

    pub fn from_u64(n: u64) -> (r: JsonValue)
        ensures
            r@ == JsonView::Number(JsonNumber { negative: false, digits: n, scale: 0 }),
    {
        JsonValue::Number(JsonNumber::from_u64(n))
    }

    /// An object with no members.
    pub fn object() -> (r: JsonValue)
        ensures
            r@ == JsonView::Object(Seq::empty()),
    {
        let r = JsonValue::Object(Vec::new());
        proof {
            assert(r@->Object_0 =~= Seq::empty());
        }
        r
    }

    /// An array holding `items` in order.
    pub fn array(items: Vec<JsonValue>) -> (r: JsonValue)
        ensures
            r@ == JsonView::Array(Seq::new(items@.len(), |i: int| items@[i]@)),
    {
        let r = JsonValue::Array(items);
        proof {
            assert(r@->Array_0 =~= Seq::new(items@.len(), |i: int| items@[i]@));
        }
        r
    }

    /// An array of strings.
    pub fn string_array(items: &Vec<String>) -> (r: JsonValue)
        ensures
            r@ == JsonView::Array(Seq::new(items@.len(), |i: int| JsonView::Str(items@[i]@))),
    {
        let mut out: Vec<JsonValue> = Vec::new();
        let mut i: usize = 0;
        while i < items.len()
            invariant
                i <= items@.len(),
                out@.len() == i,
                forall|j: int| 0 <= j < i ==> out@[j]@ == JsonView::Str(items@[j]@),
            decreases items@.len() - i,
        {
            out.push(JsonValue::String(items[i].clone()));
            i = i + 1;
        }
        let r = JsonValue::Array(out);
        proof {
            assert(r@->Array_0 =~= Seq::new(items@.len(), |i: int| JsonView::Str(items@[i]@)));
        }
        r
    }

    pub fn is_null(&self) -> (r: bool)
        ensures
            r == (self@ is Null),
    {
        matches!(self, JsonValue::Null)
    }

    pub fn is_boolean(&self) -> (r: bool)
        ensures
            r == (self@ is Bool),
    {
        matches!(self, JsonValue::Bool(_))
    }

    pub fn is_number(&self) -> (r: bool)
        ensures
            r == (self@ is Number),
    {
        matches!(self, JsonValue::Number(_))
    }

    pub fn is_string(&self) -> (r: bool)
        ensures
            r == (self@ is Str),
    {
        matches!(self, JsonValue::String(_))
    }

    pub fn is_array(&self) -> (r: bool)
        ensures
            r == (self@ is Array),
    {
        matches!(self, JsonValue::Array(_))
    }

    pub fn is_object(&self) -> (r: bool)
        ensures
            r == (self@ is Object),
    {
        matches!(self, JsonValue::Object(_))
    }

    pub fn as_bool(&self) -> (r: Option<bool>)
        ensures
            match self@ {
                JsonView::Bool(b) => r == Some(b),
                _ => r is None,
            },
    {
        match self {
            JsonValue::Bool(b) => Some(*b),
            _ => None,
        }
    }

    pub fn as_number(&self) -> (r: Option<JsonNumber>)
        ensures
            match self@ {
                JsonView::Number(n) => r == Some(n),
                _ => r is None,
            },
    {
        match self {
            JsonValue::Number(n) => Some(*n),
            _ => None,
        }
    }

    pub fn as_str(&self) -> (r: Option<&str>)
        ensures
            match self@ {
                JsonView::Str(s) => r matches Some(t) && t@ == s,
                _ => r is None,
            },
    {
        match self {
            JsonValue::String(s) => Some(s.as_str()),
            _ => None,
        }
    }

    pub fn as_array(&self) -> (r: Option<&Vec<JsonValue>>)
        ensures
            match self@ {
                JsonView::Array(items) => r matches Some(v) && v@.len() == items.len() && (
                forall|i: int| 0 <= i < items.len() ==> v@[i]@ == items[i]),
                _ => r is None,
            },
    {
        match self {
            JsonValue::Array(items) => Some(items),
            _ => None,
        }
    }

    /// The member `key` of an object: the first entry with that key.
    pub fn get(&self, key: &str) -> (r: Option<&JsonValue>)
        ensures
            match r {
                Some(v) => self@.get(key@) == Some(v@),
                None => self@.get(key@) is None,
            },
    {
        match self {
            JsonValue::Object(entries) => {
                proof {
                    assert(self@->Object_0 =~= entries_view(entries@));
                }
                get_in(entries, key)
            },
            _ => None,
        }
    }

    /// Whether this is an object with a member `key`.
    pub fn contains_key(&self, key: &str) -> (r: bool)
        ensures
            r == (self@.get(key@) is Some),
    {
        self.get(key).is_some()
    }

    /// Sets the member `key` of an object to `value`, replacing the first
    /// entry with that key or appending one; a non-object is left unchanged.
    pub fn set(&mut self, key: &str, value: JsonValue)
        ensures
            match old(self)@ {
                JsonView::Object(es) => final(self)@ == JsonView::Object(set_entry(es, key@, value@)),
                _ => final(self)@ == old(self)@,
            },
    {
        let mut current = JsonValue::Null;
        std::mem::swap(self, &mut current);
        *self = current.with(key, value);
    }

    /// This value with the member `key` set to `value` (see `set`).
    pub fn with(self, key: &str, value: JsonValue) -> (r: JsonValue)
        ensures
            match self@ {
                JsonView::Object(es) => r@ == JsonView::Object(set_entry(es, key@, value@)),
                _ => r@ == self@,
            },
    {
        match self {
            JsonValue::Object(mut entries) => {
                proof {
                    assert(self@->Object_0 =~= entries_view(entries@));
                }
                set_in(&mut entries, key, value);
                let r = JsonValue::Object(entries);
                proof {
                    assert(r@->Object_0 =~= entries_view(entries@));
                }
                r
            },
            other => other,
        }
    }

    /// A deep copy.
    pub fn copy(&self) -> (r: JsonValue)
        ensures
            r@ == self@,
        decreases self,
    {
        match self {
            JsonValue::Null => JsonValue::Null,
            JsonValue::Bool(b) => JsonValue::Bool(*b),
            JsonValue::Number(n) => JsonValue::Number(*n),
            JsonValue::String(s) => JsonValue::String(s.clone()),
            JsonValue::Array(items) => {
                let mut out: Vec<JsonValue> = Vec::new();
                let mut i: usize = 0;
                while i < items.len()
                    invariant
                        *self == JsonValue::Array(*items),
                        i <= items@.len(),
                        out@.len() == i,
                        forall|j: int| 0 <= j < i ==> out@[j]@ == items@[j]@,
                    decreases items@.len() - i,
                {
                    proof {
                        assert(decreases_to!(*self => (*self)->Array_0));
                        assert(decreases_to!(*items => items@));
                        assert(decreases_to!(items@ => items@[i as int]));
                    }
                    out.push(items[i].copy());
                    i = i + 1;
                }
                let r = JsonValue::Array(out);
                proof {
                    assert(r@->Array_0 =~= self@->Array_0);
                }
                r
            },
            JsonValue::Object(entries) => {
                let mut out: Vec<(String, JsonValue)> = Vec::new();
                let mut i: usize = 0;
                while i < entries.len()
                    invariant
                        *self == JsonValue::Object(*entries),
                        i <= entries@.len(),
                        out@.len() == i,
                        forall|j: int|
                            0 <= j < i ==> out@[j].0@ == entries@[j].0@ && out@[j].1@
                                == entries@[j].1@,
                    decreases entries@.len() - i,
                {
                    proof {
                        assert(decreases_to!(*self => (*self)->Object_0));
                        assert(decreases_to!(*entries => entries@));
                        assert(decreases_to!(entries@ => entries@[i as int]));
                        assert(decreases_to!(entries@[i as int] => entries@[i as int].1));
                    }
                    out.push((entries[i].0.clone(), entries[i].1.copy()));
                    i = i + 1;
                }
                let r = JsonValue::Object(out);
                proof {
                    assert(r@->Object_0 =~= self@->Object_0);
                }
                r
            },
        }
    }
}

/// Sets `key` to `value` in a list of entries: the first entry with that key
/// is replaced in place, or else a new entry is appended.
pub fn set_in(entries: &mut Vec<(String, JsonValue)>, key: &str, value: JsonValue)
    ensures
        entries_view(final(entries)@) == set_entry(entries_view(old(entries)@), key@, value@),
{
    let ghost value_view = value@;
    let ghost es = entries_view(entries@);
    let found = find_entry(entries, key);
    match found {
        Some(i) => {
            proof {
                assert forall|j: int| 0 <= j < i implies es[j].0 != key@ by {}
                lemma_key_index_found(es, key@, i as int);
            }
            entries.set(i, (key.to_string(), value));
        },
        None => {
            proof {
                lemma_key_index_absent(es, key@);
            }
            entries.push((key.to_string(), value));
        },
    }
    proof {
        assert(entries_view(entries@) =~= set_entry(es, key@, value_view));
    }
}

/// Appends `(key, value)` to a list of entries.
pub fn push_entry(entries: &mut Vec<(String, JsonValue)>, key: &str, value: JsonValue)
    ensures
        entries_view(final(entries)@) == entries_view(old(entries)@).push((key@, value@)),
{
    let ghost before = entries_view(entries@);
    let ghost v = value@;
    entries.push((key.to_string(), value));
    proof {
        assert(entries_view(entries@) =~= before.push((key@, v)));
    }
}

/// An object holding `entries` in order.
pub fn object_of(entries: Vec<(String, JsonValue)>) -> (r: JsonValue)
    ensures
        r@ == JsonView::Object(entries_view(entries@)),
{
    let r = JsonValue::Object(entries);
    proof {
        assert(r@->Object_0 =~= entries_view(entries@));
    }
    r
}

/// An empty list of entries.
pub fn no_entries() -> (r: Vec<(String, JsonValue)>)
    ensures
        entries_view(r@) == Seq::<(Seq<char>, JsonView)>::empty(),
{
    let r: Vec<(String, JsonValue)> = Vec::new();
    proof {
        assert(entries_view(r@) =~= Seq::<(Seq<char>, JsonView)>::empty());
    }
    r
}

/// The document stored under `key` in a list of entries: the first match.
pub fn get_in<'a>(entries: &'a Vec<(String, JsonValue)>, key: &str) -> (r: Option<&'a JsonValue>)
    ensures
        match r {
            Some(v) => lookup(entries_view(entries@), key@) == Some(v@),
            None => lookup(entries_view(entries@), key@) is None,
        },
{
    let found = find_entry(entries, key);
    let ghost es = entries_view(entries@);
    match found {
        Some(i) => {
            proof {
                assert forall|j: int| 0 <= j < i implies es[j].0 != key@ by {}
                lemma_key_index_found(es, key@, i as int);
            }
            Some(&entries[i].1)
        },
        None => {
            proof {
                lemma_key_index_absent(es, key@);
            }
            None
        },
    }
}

/// Finds the index of the first entry with key `key`.
pub fn find_entry<V>(entries: &Vec<(String, V)>, key: &str) -> (r: Option<usize>)
    ensures
        match r {
            Some(i) => {
                &&& i < entries@.len()
                &&& entries@[i as int].0@ == key@
                &&& forall|j: int| 0 <= j < i ==> entries@[j].0@ != key@
            },
            None => forall|j: int| 0 <= j < entries@.len() ==> entries@[j].0@ != key@,
        },
{
    let mut i: usize = 0;
    while i < entries.len()
        invariant
            i <= entries@.len(),
            forall|j: int| 0 <= j < i ==> entries@[j].0@ != key@,
        decreases entries@.len() - i,
    {
        if str_eq(entries[i].0.as_str(), key) {
            return Some(i);
        }
        i = i + 1;
    }
    None
}

/// Character-wise equality of two strings.
pub fn str_eq(a: &str, b: &str) -> (r: bool)
    ensures
        r == (a@ == b@),
{
    let n = a.unicode_len();
    if n != b.unicode_len() {
        return false;
    }
    let mut i: usize = 0;
    while i < n
        invariant
            n == a@.len(),
            n == b@.len(),
            i <= n,
            forall|j: int| 0 <= j < i ==> a@[j] == b@[j],
        decreases n - i,
    {
        if a.get_char(i) != b.get_char(i) {
            return false;
        }
        i = i + 1;
    }
    assert(a@ =~= b@);
    true
}

/// The decimal digit character for `d` (0 to 9).
pub open spec fn digit_char(d: int) -> char {
    if d == 0 {
        '0'
    } else if d == 1 {
        '1'
    } else if d == 2 {
        '2'
    } else if d == 3 {
        '3'
    } else if d == 4 {
        '4'
    } else if d == 5 {
        '5'
    } else if d == 6 {
        '6'
    } else if d == 7 {
        '7'
    } else if d == 8 {
        '8'
    } else {
        '9'
    }
}

/// The decimal text of `n`, without leading zeros.
pub open spec fn decimal_text(n: nat) -> Seq<char>
    decreases n,
{
    if n < 10 {
        seq![digit_char(n as int)]
    } else {
        decimal_text(n / 10).push(digit_char((n % 10) as int))
    }
}

fn digit(d: u64) -> (r: &'static str)
    requires
        d < 10,
    ensures
        r@ == seq![digit_char(d as int)],
{
    if d == 0 {
        proof {
            reveal_strlit("0");
        }
        "0"
    } else if d == 1 {
        proof {
            reveal_strlit("1");
        }
        "1"
    } else if d == 2 {
        proof {
            reveal_strlit("2");
        }
        "2"
    } else if d == 3 {
        proof {
            reveal_strlit("3");
        }
        "3"
    } else if d == 4 {
        proof {
            reveal_strlit("4");
        }
        "4"
    } else if d == 5 {
        proof {
            reveal_strlit("5");
        }
        "5"
    } else if d == 6 {
        proof {
            reveal_strlit("6");
        }
        "6"
    } else if d == 7 {
        proof {
            reveal_strlit("7");
        }
        "7"
    } else if d == 8 {
        proof {
            reveal_strlit("8");
        }
        "8"
    } else {
        proof {
            reveal_strlit("9");
        }
        "9"
    }
}

/// The decimal text of `n`.
pub fn u64_text(n: u64) -> (r: String)
    ensures
        r@ == decimal_text(n as nat),
    decreases n,
{
    if n < 10 {
        String::from_str(digit(n))
    } else {
        u64_text(n / 10).concat(digit(n % 10))
    }
}

} // verus!
