//! The JSON values the library reads: scalars by value, arrays and objects
//! opaque, and flat objects as key/value lists.
use vstd::prelude::*;

verus! {

/// A JSON value as the job logic reads it. Numbers carry their value when
/// it is an integer that fits `i64` (what `as_i64` gives), `None` otherwise;
/// an integer above `i64::MAX` that fits `u64` is `Unsigned` (only `as_u64`
/// reads it); arrays and objects are opaque.
#[derive(Debug, Clone, PartialEq)]
pub enum JsonValue {
    Null,
    Bool(bool),
    Number(Option<i64>),
    Unsigned(u64),
    Str(String),
    Array,
    Object,
}

/// Mathematical model of a [`JsonValue`].
pub enum JsonView {
    Null,
    Bool(bool),
    Number(Option<i64>),
    Unsigned(u64),
    Str(Seq<char>),
    Array,
    Object,
}

impl View for JsonValue {
    type V = JsonView;

    open spec fn view(&self) -> JsonView {
        match self {
            JsonValue::Null => JsonView::Null,
            JsonValue::Bool(b) => JsonView::Bool(*b),
            JsonValue::Number(n) => JsonView::Number(*n),
            JsonValue::Unsigned(u) => JsonView::Unsigned(*u),
            JsonValue::Str(s) => JsonView::Str(s@),
            JsonValue::Array => JsonView::Array,
            JsonValue::Object => JsonView::Object,
        }
    }
}

/// A field of a form: `None` when the key is absent.
pub open spec fn field(o: Option<JsonValue>) -> Option<JsonView> {
    match o {
        Some(v) => Some(v@),
        None => None,
    }
}

/// `value.as_i64()` of an optional field.
pub open spec fn as_i64(o: Option<JsonView>) -> Option<i64> {
    match o {
        Some(JsonView::Number(Some(n))) => Some(n),
        _ => None,
    }
}

/// `value.as_bool()` of an optional field.
pub open spec fn as_bool(o: Option<JsonView>) -> Option<bool> {
    match o {
        Some(JsonView::Bool(b)) => Some(b),
        _ => None,
    }
}

/// `value.as_str()` of an optional field.
pub open spec fn as_str(o: Option<JsonView>) -> Option<Seq<char>> {
    match o {
        Some(JsonView::Str(s)) => Some(s),
        _ => None,
    }
}

/// `as_i64` of an optional value.
pub fn get_i64(o: &Option<JsonValue>) -> (r: Option<i64>)
    ensures
        r == as_i64(field(*o)),
{
    match o {
        Some(JsonValue::Number(Some(n))) => Some(*n),
        _ => None,
    }
}

/// `as_bool` of an optional value.
pub fn get_bool(o: &Option<JsonValue>) -> (r: Option<bool>)
    ensures
        r == as_bool(field(*o)),
{
    match o {
        Some(JsonValue::Bool(b)) => Some(*b),
        _ => None,
    }
}

/// `as_str` of an optional value, copied.
pub fn get_str(o: &Option<JsonValue>) -> (r: Option<String>)
    ensures
        match r {
            Some(s) => as_str(field(*o)) == Some(s@),
            None => as_str(field(*o)) is None,
        },
{
    match o {
        Some(JsonValue::Str(s)) => Some(s.clone()),
        _ => None,
    }
}


/// `value.as_u64()` of an optional field (non-negative integers).
pub open spec fn as_u64(o: Option<JsonView>) -> Option<u64> {
    match o {
        Some(JsonView::Number(Some(n))) => if n >= 0 {
            Some(n as u64)
        } else {
            None
        },
        Some(JsonView::Unsigned(u)) => Some(u),
        _ => None,
    }
}

/// `as_u64` of an optional value.
pub fn get_u64(o: &Option<JsonValue>) -> (r: Option<u64>)
    ensures
        r == as_u64(field(*o)),
{
    match o {
        Some(JsonValue::Number(Some(n))) => if *n >= 0 {
            Some(*n as u64)
        } else {
            None
        },
        Some(JsonValue::Unsigned(u)) => Some(*u),
        _ => None,
    }
}

/// A boolean read leniently: `true`/`false`, or an integer where any
/// non-zero value is true; anything else reads as absent.
pub open spec fn json_bool_spec(v: JsonView) -> Option<bool> {
    match v {
        JsonView::Bool(b) => Some(b),
        JsonView::Number(Some(i)) => Some(i != 0),
        _ => None,
    }
}

/// Reads a boolean that may also be written as a number.
pub fn json_bool(value: &JsonValue) -> (r: Option<bool>)
    ensures
        r == json_bool_spec(value@),
{
    match value {
        JsonValue::Bool(b) => Some(*b),
        JsonValue::Number(Some(i)) => Some(*i != 0),
        _ => None,
    }
}

/// A copy of a value.
pub fn copy_json(v: &JsonValue) -> (r: JsonValue)
    ensures
        r@ == v@,
{
    match v {
        JsonValue::Null => JsonValue::Null,
        JsonValue::Bool(b) => JsonValue::Bool(*b),
        JsonValue::Number(n) => JsonValue::Number(*n),
        JsonValue::Unsigned(u) => JsonValue::Unsigned(*u),
        JsonValue::Str(s) => JsonValue::Str(s.clone()),
        JsonValue::Array => JsonValue::Array,
        JsonValue::Object => JsonValue::Object,
    }
}

/// A flat JSON object: its keys with their values, in order.
#[derive(Debug, Clone)]
pub struct JsonObject {
    pub entries: Vec<(String, JsonValue)>,
}

/// The value of the first entry with the key.
pub open spec fn obj_get(entries: Seq<(String, JsonValue)>, key: Seq<char>) -> Option<JsonView>
    decreases entries.len(),
{
    if entries.len() == 0 {
        None
    } else if entries[0].0@ == key {
        Some(entries[0].1@)
    } else {
        obj_get(entries.drop_first(), key)
    }
}

impl JsonObject {
    /// The value stored under a key.
    pub fn get(&self, key: &str) -> (r: Option<JsonValue>)
        ensures
            field(r) == obj_get(self.entries@, key@),
    {
        let mut i: usize = 0;
        assert(self.entries@.subrange(0, self.entries@.len() as int) =~= self.entries@);
        while i < self.entries.len()
            invariant
                i <= self.entries@.len(),
                obj_get(self.entries@.subrange(i as int, self.entries@.len() as int), key@)
                    == obj_get(self.entries@, key@),
            decreases self.entries@.len() - i,
        {
            let ghost rest = self.entries@.subrange(i as int, self.entries@.len() as int);
            assert(rest.drop_first() =~= self.entries@.subrange(
                i + 1,
                self.entries@.len() as int,
            ));
            if crate::files::str_eq(self.entries[i].0.as_str(), key) {
                return Some(copy_json(&self.entries[i].1));
            }
            i = i + 1;
        }
        None
    }

    /// The text stored under a key, when it is a string.
    pub fn get_text(&self, key: &str) -> (r: Option<String>)
        ensures
            match r {
                Some(s) => as_str(obj_get(self.entries@, key@)) == Some(s@),
                None => as_str(obj_get(self.entries@, key@)) is None,
            },
    {
        get_str(&self.get(key))
    }

    /// The text stored under a key, or a default.
    pub fn text_or(&self, key: &str, default: &str) -> (r: String)
        ensures
            r@ == match as_str(obj_get(self.entries@, key@)) {
                Some(s) => s,
                None => default@,
            },
    {
        match self.get_text(key) {
            Some(s) => s,
            None => default.to_string(),
        }
    }
}

} // verus!
