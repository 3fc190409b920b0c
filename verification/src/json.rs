//! JSON values.

use crate::text::{
    decimal, digit_char, i64_text, join2, join3, join5, optional_text, same, u64_text, views,
};
use vstd::prelude::*;

verus! {

/// A JSON value. An object keeps the order of its members. A number that is no integer of 64 bits
/// is held by its text.
#[derive(Debug, PartialEq, Eq)]
pub enum Json {
    Null,
    Bool(bool),
    Unsigned(u64),
    Negative(i64),
    Float { text: String },
    String(String),
    Array(Vec<Json>),
    Object(Vec<(String, Json)>),
}

/// What a JSON value is, apart from how it is stored.
pub enum JsonModel {
    Null,
    Bool(bool),
    Unsigned(u64),
    Negative(i64),
    Float(Seq<char>),
    Text(Seq<char>),
    Array(Seq<JsonModel>),
    Object(Seq<(Seq<char>, JsonModel)>),
}

/// What a value is, apart from how it is stored.
pub open spec fn json_model(j: Json) -> JsonModel
    decreases j,
{
    match j {
        Json::Null => JsonModel::Null,
        Json::Bool(b) => JsonModel::Bool(b),
        Json::Unsigned(n) => JsonModel::Unsigned(n),
        Json::Negative(n) => JsonModel::Negative(n),
        Json::Float { text } => JsonModel::Float(text@),
        Json::String(s) => JsonModel::Text(s@),
        Json::Array(v) => JsonModel::Array(
            Seq::new(
                v@.len(),
                |i: int|
                    if 0 <= i < v@.len() {
                        json_model(v@[i])
                    } else {
                        JsonModel::Null
                    },
            ),
        ),
        Json::Object(v) => JsonModel::Object(
            Seq::new(
                v@.len(),
                |i: int|
                    if 0 <= i < v@.len() {
                        (v@[i].0@, json_model(v@[i].1))
                    } else {
                        (Seq::empty(), JsonModel::Null)
                    },
            ),
        ),
    }
}

impl View for Json {
    type V = JsonModel;

    open spec fn view(&self) -> JsonModel {
        json_model(*self)
    }
}

/// The models of a row of values.
pub open spec fn models(v: Seq<Json>) -> Seq<JsonModel> {
    Seq::new(v.len(), |i: int| v[i]@)
}

/// The models of a row of members.
pub open spec fn member_models(v: Seq<(String, Json)>) -> Seq<(Seq<char>, JsonModel)> {
    Seq::new(v.len(), |i: int| (v[i].0@, v[i].1@))
}

/// The view of an array is the array of the views of its elements.
pub proof fn array_view(v: Vec<Json>)
    ensures
        Json::Array(v)@ == JsonModel::Array(models(v@)),
{
    reveal_with_fuel(json_model, 2);
    assert(Json::Array(v)@->Array_0 == models(v@));
}

/// The view of an object is the object of the views of its members.
pub proof fn object_view(v: Vec<(String, Json)>)
    ensures
        Json::Object(v)@ == JsonModel::Object(member_models(v@)),
{
    reveal_with_fuel(json_model, 2);
    assert(Json::Object(v)@->Object_0 == member_models(v@));
}

/// A copy of a JSON value.
fn copy(j: &Json) -> (r: Json)
    ensures
        r@ == j@,
    decreases j,
{
    match j {
        Json::Null => Json::Null,
        Json::Bool(b) => Json::Bool(*b),
        Json::Unsigned(n) => Json::Unsigned(*n),
        Json::Negative(n) => Json::Negative(*n),
        Json::Float { text } => Json::Float { text: text.clone() },
        Json::String(s) => Json::String(s.clone()),
        Json::Array(v) => {
            let mut out: Vec<Json> = Vec::new();
            let mut i: usize = 0;
            while i < v.len()
                invariant
                    *j == Json::Array(*v),
                    i <= v.len(),
                    out.len() == i,
                    forall|k: int| 0 <= k < i ==> (#[trigger] out@[k])@ == v@[k]@,
                decreases v.len() - i,
            {
                proof {
                    assert(decreases_to!(*j => j->Array_0));
                    assert(decreases_to!(v@ => v@[i as int]));
                }
                out.push(copy(&v[i]));
                i = i + 1;
            }
            proof {
                array_view(*v);
                array_view(out);
                assert(models(out@) == models(v@));
            }
            Json::Array(out)
        },
        Json::Object(v) => {
            let mut out: Vec<(String, Json)> = Vec::new();
            let mut i: usize = 0;
            while i < v.len()
                invariant
                    *j == Json::Object(*v),
                    i <= v.len(),
                    out.len() == i,
                    forall|k: int|
                        0 <= k < i ==> (#[trigger] out@[k]).0@ == v@[k].0@ && out@[k].1@
                            == v@[k].1@,
                decreases v.len() - i,
            {
                proof {
                    assert(decreases_to!(*j => j->Object_0));
                    assert(decreases_to!(v@ => v@[i as int]));
                }
                out.push((v[i].0.clone(), copy(&v[i].1)));
                i = i + 1;
            }
            proof {
                object_view(*v);
                object_view(out);
                assert(member_models(out@) == member_models(v@));
            }
            Json::Object(out)
        },
    }
}

impl Clone for Json {
    fn clone(&self) -> (r: Self)
        ensures
            r@ == self@,
    {
        copy(self)
    }
}

/// How JSON writes a character within quotes: a quote, a backslash and the control characters below
/// the space are escaped, those without a letter of their own by two lower-case digits.
pub open spec fn json_char(c: char) -> Seq<char> {
    let n = c as int;
    if c == '"' || c == '\\' {
        seq!['\\', c]
    } else if n == 8 {
        seq!['\\', 'b']
    } else if n == 9 {
        seq!['\\', 't']
    } else if n == 10 {
        seq!['\\', 'n']
    } else if n == 12 {
        seq!['\\', 'f']
    } else if n == 13 {
        seq!['\\', 'r']
    } else if n < 32 {
        seq!['\\', 'u', '0', '0', digit_char(n / 16), digit_char(n % 16)]
    } else {
        seq![c]
    }
}

/// How JSON writes the characters of a text within quotes.
pub open spec fn json_chars(s: Seq<char>) -> Seq<char>
    decreases s.len(),
{
    if s.len() == 0 {
        Seq::empty()
    } else {
        json_chars(s.drop_last()) + json_char(s.last())
    }
}

/// How JSON writes a text: in double quotes, with escapes.
pub open spec fn json_string(s: Seq<char>) -> Seq<char> {
    seq!['"'] + json_chars(s) + seq!['"']
}

/// `serde_json::to_string` on a `str`: the text in quotes, each character escaped or as it is.
/// Writing a text to memory does not fail.
#[verifier::external_body]
fn quote(s: &str) -> (r: String)
    ensures
        r@ == json_string(s@),
{
    serde_json::to_string(s).expect("a text serializes")
}

/// The string member `key` of a JSON text: `Err` with the parser's message where the text is no
/// JSON, `None` where it is no object, has no such member, or the member is no string.
pub uninterp spec fn json_text_member(text: Seq<char>, key: Seq<char>) -> Result<
    Option<Seq<char>>,
    Seq<char>,
>;

/// Whether a reading of the member `key` of a JSON text, or the message of the parse error, is what
/// the text holds.
pub open spec fn member_read(
    text: Seq<char>,
    key: Seq<char>,
    member: Option<String>,
) -> bool {
    json_text_member(text, key) == Ok::<Option<Seq<char>>, Seq<char>>(optional_text(member))
}

/// `serde_json::from_str`, then `Value::get` and `Value::as_str`: three string members of a JSON
/// text, or the message of the parse error. Both depend on the text and the keys alone, and whether
/// the text is JSON does not depend on the keys.
#[verifier::external_body]
pub(crate) fn text_members(text: &str, a: &str, b: &str, c: &str) -> (r: Result<
    (Option<String>, Option<String>, Option<String>),
    String,
>)
    ensures
        match r {
            Ok((x, y, z)) => member_read(text@, a@, x) && member_read(text@, b@, y) && member_read(
                text@,
                c@,
                z,
            ),
            Err(m) => json_text_member(text@, a@) == Err::<Option<Seq<char>>, Seq<char>>(m@),
        },
{
    match serde_json::from_str::<serde_json::Value>(text) {
        Ok(value) => Ok((
            value.get(a).and_then(serde_json::Value::as_str).map(String::from),
            value.get(b).and_then(serde_json::Value::as_str).map(String::from),
            value.get(c).and_then(serde_json::Value::as_str).map(String::from),
        )),
        Err(error) => Err(error.to_string()),
    }
}

/// The compact JSON text of a value.
pub open spec fn compact(j: JsonModel) -> Seq<char>
    decreases j, 0int,
{
    match j {
        JsonModel::Null => "null"@,
        JsonModel::Bool(b) => if b {
            "true"@
        } else {
            "false"@
        },
        JsonModel::Unsigned(n) => decimal(n as int),
        JsonModel::Negative(n) => decimal(n as int),
        JsonModel::Float(text) => text,
        JsonModel::Text(s) => json_string(s),
        JsonModel::Array(v) => "["@ + compact_items(v, v.len() as int) + "]"@,
        JsonModel::Object(v) => "{"@ + compact_members(v, v.len() as int) + "}"@,
    }
}

/// The compact text of the first `n` items of an array.
pub open spec fn compact_items(v: Seq<JsonModel>, n: int) -> Seq<char>
    decreases v, n,
{
    if n <= 0 || n > v.len() {
        Seq::empty()
    } else if n == 1 {
        compact(v[0])
    } else {
        compact_items(v, n - 1) + ","@ + compact(v[n - 1])
    }
}

/// The compact text of the first `n` members of an object.
pub open spec fn compact_members(v: Seq<(Seq<char>, JsonModel)>, n: int) -> Seq<char>
    decreases v, n,
{
    if n <= 0 || n > v.len() {
        Seq::empty()
    } else if n == 1 {
        json_string(v[0].0) + ":"@ + compact(v[0].1)
    } else {
        compact_members(v, n - 1) + ","@ + (json_string(v[n - 1].0) + ":"@ + compact(v[n - 1].1))
    }
}

/// The compact JSON text of a value.
pub(crate) fn compact_text(j: &Json) -> (r: String)
    ensures
        r@ == compact(j@),
    decreases j,
{
    match j {
        Json::Null => "null".to_owned(),
        Json::Bool(b) => if *b {
            "true".to_owned()
        } else {
            "false".to_owned()
        },
        Json::Unsigned(n) => u64_text(*n),
        Json::Negative(n) => i64_text(*n),
        Json::Float { text } => text.clone(),
        Json::String(s) => quote(s.as_str()),
        Json::Array(v) => {
            proof {
                array_view(*v);
            }
            let mut out = String::new();
            let mut i: usize = 0;
            while i < v.len()
                invariant
                    *j == Json::Array(*v),
                    i <= v.len(),
                    out@ == compact_items(models(v@), i as int),
                decreases v.len() - i,
            {
                proof {
                    assert(decreases_to!(*j => j->Array_0));
                    assert(decreases_to!(v@ => v@[i as int]));
                }
                let item = compact_text(&v[i]);
                if i == 0 {
                    out = item;
                } else {
                    out = out.concat(",").concat(item.as_str());
                }
                i = i + 1;
            }
            join3("[", out.as_str(), "]")
        },
        Json::Object(v) => {
            proof {
                object_view(*v);
            }
            let mut out = String::new();
            let mut i: usize = 0;
            while i < v.len()
                invariant
                    *j == Json::Object(*v),
                    i <= v.len(),
                    out@ == compact_members(member_models(v@), i as int),
                decreases v.len() - i,
            {
                proof {
                    assert(decreases_to!(*j => j->Object_0));
                    assert(decreases_to!(v@ => v@[i as int]));
                }
                let item = join3(
                    quote(v[i].0.as_str()).as_str(),
                    ":",
                    compact_text(&v[i].1).as_str(),
                );
                if i == 0 {
                    out = item;
                } else {
                    out = out.concat(",").concat(item.as_str());
                }
                i = i + 1;
            }
            join3("{", out.as_str(), "}")
        },
    }
}

/// The JSON text of a value with one item or member to a line, two spaces to a level.
pub open spec fn pretty(j: JsonModel, indent: Seq<char>) -> Seq<char>
    decreases j, 0int,
{
    match j {
        JsonModel::Array(v) => if v.len() == 0 {
            "[]"@
        } else {
            "["@ + pretty_items(v, indent + "  "@, v.len() as int) + "\n"@ + indent + "]"@
        },
        JsonModel::Object(v) => if v.len() == 0 {
            "{}"@
        } else {
            "{"@ + pretty_members(v, indent + "  "@, v.len() as int) + "\n"@ + indent
                + "}"@
        },
        _ => compact(j),
    }
}

/// The lines of the first `n` items of an array.
pub open spec fn pretty_items(v: Seq<JsonModel>, indent: Seq<char>, n: int) -> Seq<char>
    decreases v, n,
{
    if n <= 0 || n > v.len() {
        Seq::empty()
    } else {
        pretty_items(v, indent, n - 1) + (if n == 1 {
            "\n"@
        } else {
            ",\n"@
        }) + indent + pretty(v[n - 1], indent)
    }
}

/// The lines of the first `n` members of an object.
pub open spec fn pretty_members(v: Seq<(Seq<char>, JsonModel)>, indent: Seq<char>, n: int) -> Seq<char>
    decreases v, n,
{
    if n <= 0 || n > v.len() {
        Seq::empty()
    } else {
        pretty_members(v, indent, n - 1) + (if n == 1 {
            "\n"@
        } else {
            ",\n"@
        }) + indent + json_string(v[n - 1].0) + ": "@ + pretty(v[n - 1].1, indent)
    }
}

/// The JSON text of a value with one item or member to a line.
pub(crate) fn pretty_text(j: &Json, indent: &str) -> (r: String)
    ensures
        r@ == pretty(j@, indent@),
    decreases j,
{
    match j {
        Json::Array(v) => {
            proof {
                array_view(*v);
            }
            if v.len() == 0 {
                return "[]".to_owned();
            }
            let inner = join2(indent, "  ");
            let mut out = String::new();
            let mut i: usize = 0;
            while i < v.len()
                invariant
                    *j == Json::Array(*v),
                    j@ == JsonModel::Array(models(v@)),
                    v.len() > 0,
                    inner@ == indent@ + "  "@,
                    i <= v.len(),
                    out@ == pretty_items(models(v@), inner@, i as int),
                decreases v.len() - i,
            {
                proof {
                    assert(decreases_to!(*j => j->Array_0));
                    assert(decreases_to!(v@ => v@[i as int]));
                    assert(models(v@)[i as int] == v@[i as int]@);
                }
                let item = pretty_text(&v[i], inner.as_str());
                if i == 0 {
                    out = out.concat("\n").concat(inner.as_str()).concat(item.as_str());
                } else {
                    out = out.concat(",\n").concat(inner.as_str()).concat(item.as_str());
                }
                i = i + 1;
            }
            join5("[", out.as_str(), "\n", indent, "]")
        },
        Json::Object(v) => {
            proof {
                object_view(*v);
            }
            if v.len() == 0 {
                return "{}".to_owned();
            }
            let inner = join2(indent, "  ");
            let mut out = String::new();
            let mut i: usize = 0;
            while i < v.len()
                invariant
                    *j == Json::Object(*v),
                    j@ == JsonModel::Object(member_models(v@)),
                    v.len() > 0,
                    inner@ == indent@ + "  "@,
                    i <= v.len(),
                    out@ == pretty_members(member_models(v@), inner@, i as int),
                decreases v.len() - i,
            {
                proof {
                    assert(decreases_to!(*j => j->Object_0));
                    assert(decreases_to!(v@ => v@[i as int]));
                    assert(member_models(v@)[i as int] == (v@[i as int].0@, v@[i as int].1@));
                }
                let item = pretty_text(&v[i].1, inner.as_str());
                let key = quote(v[i].0.as_str());
                if i == 0 {
                    out = out.concat("\n").concat(inner.as_str()).concat(key.as_str()).concat(
                        ": ",
                    ).concat(item.as_str());
                } else {
                    out = out.concat(",\n").concat(inner.as_str()).concat(key.as_str()).concat(
                        ": ",
                    ).concat(item.as_str());
                }
                i = i + 1;
            }
            join5("{", out.as_str(), "\n", indent, "}")
        },
        _ => compact_text(j),
    }
}

/// Whether two float texts stand for the same number: the same text, or two zeros.
pub open spec fn same_float(a: Seq<char>, b: Seq<char>) -> bool {
    a == b || ((a == "0.0"@ || a == "-0.0"@) && (b == "0.0"@ || b == "-0.0"@))
}

/// Whether two JSON values are equal. The order of the members of an object does not count.
pub open spec fn same_json(a: JsonModel, b: JsonModel) -> bool
    decreases a, 0int,
{
    match (a, b) {
        (JsonModel::Null, JsonModel::Null) => true,
        (JsonModel::Bool(x), JsonModel::Bool(y)) => x == y,
        (JsonModel::Unsigned(x), JsonModel::Unsigned(y)) => x == y,
        (JsonModel::Negative(x), JsonModel::Negative(y)) => x == y,
        (JsonModel::Float(x), JsonModel::Float(y)) => same_float(x, y),
        (JsonModel::Text(x), JsonModel::Text(y)) => x == y,
        (JsonModel::Array(x), JsonModel::Array(y)) => x.len() == y.len() && forall|i: int|
            0 <= i < x.len() ==> same_json(x[i], #[trigger] y[i]),
        (JsonModel::Object(x), JsonModel::Object(y)) => x.len() == y.len() && forall|i: int|
            0 <= i < x.len() ==> has_member(#[trigger] x[i].0, x[i].1, y),
        _ => false,
    }
}

/// Whether a member of an object has the given name and the given value.
pub open spec fn has_member(
    name: Seq<char>,
    value: JsonModel,
    members: Seq<(Seq<char>, JsonModel)>,
) -> bool
    decreases value, 1int,
{
    exists|k: int|
        0 <= k < members.len() && (#[trigger] members[k]).0 == name && same_json(
            value,
            members[k].1,
        )
}

/// Whether two JSON values are equal.
pub(crate) fn equal_json(a: &Json, b: &Json) -> (r: bool)
    ensures
        r == same_json(a@, b@),
    decreases a,
{
    match (a, b) {
        (Json::Null, Json::Null) => true,
        (Json::Bool(x), Json::Bool(y)) => *x == *y,
        (Json::Unsigned(x), Json::Unsigned(y)) => *x == *y,
        (Json::Negative(x), Json::Negative(y)) => *x == *y,
        (Json::Float { text: x }, Json::Float { text: y }) => {
            let x = x.as_str();
            let y = y.as_str();
            same(x, y) || ((same(x, "0.0") || same(x, "-0.0")) && (same(y, "0.0") || same(
                y,
                "-0.0",
            )))
        },
        (Json::String(x), Json::String(y)) => same(x.as_str(), y.as_str()),
        (Json::Array(x), Json::Array(y)) => {
            proof {
                array_view(*x);
                array_view(*y);
            }
            if x.len() != y.len() {
                return false;
            }
            let mut i: usize = 0;
            while i < x.len()
                invariant
                    *a == Json::Array(*x),
                    a@ == JsonModel::Array(models(x@)),
                    b@ == JsonModel::Array(models(y@)),
                    x.len() == y.len(),
                    i <= x.len(),
                    forall|k: int|
                        0 <= k < i ==> same_json(models(x@)[k], #[trigger] models(y@)[k]),
                decreases x.len() - i,
            {
                proof {
                    assert(decreases_to!(*a => a->Array_0));
                    assert(decreases_to!(x@ => x@[i as int]));
                    assert(models(x@)[i as int] == x@[i as int]@);
                    assert(models(y@)[i as int] == y@[i as int]@);
                }
                if !equal_json(&x[i], &y[i]) {
                    return false;
                }
                i = i + 1;
            }
            true
        },
        (Json::Object(x), Json::Object(y)) => {
            proof {
                object_view(*x);
                object_view(*y);
            }
            if x.len() != y.len() {
                return false;
            }
            let mut i: usize = 0;
            while i < x.len()
                invariant
                    *a == Json::Object(*x),
                    a@ == JsonModel::Object(member_models(x@)),
                    b@ == JsonModel::Object(member_models(y@)),
                    x.len() == y.len(),
                    i <= x.len(),
                    forall|k: int|
                        0 <= k < i ==> has_member(
                            #[trigger] member_models(x@)[k].0,
                            member_models(x@)[k].1,
                            member_models(y@),
                        ),
                decreases x.len() - i,
            {
                let mut found = false;
                let mut n: usize = 0;
                while n < y.len() && !found
                    invariant
                        *a == Json::Object(*x),
                        i < x.len(),
                        n <= y.len(),
                        found == exists|k: int|
                            0 <= k < n && (#[trigger] member_models(y@)[k]).0 == member_models(
                                x@,
                            )[i as int].0 && same_json(
                                member_models(x@)[i as int].1,
                                member_models(y@)[k].1,
                            ),
                    decreases y.len() - n,
                {
                    proof {
                        assert(decreases_to!(*a => a->Object_0));
                        assert(decreases_to!(x@ => x@[i as int]));
                        assert(member_models(x@)[i as int] == (x@[i as int].0@, x@[i as int].1@));
                        assert(member_models(y@)[n as int] == (y@[n as int].0@, y@[n as int].1@));
                    }
                    if same(y[n].0.as_str(), x[i].0.as_str()) {
                        found = equal_json(&x[i].1, &y[n].1);
                    }
                    n = n + 1;
                }
                assert(found == has_member(
                    member_models(x@)[i as int].0,
                    member_models(x@)[i as int].1,
                    member_models(y@),
                ));
                if !found {
                    return false;
                }
                i = i + 1;
            }
            true
        },
        _ => false,
    }
}

/// The 64-bit integer that a JSON value is.
pub open spec fn json_i64(j: JsonModel) -> Option<i64> {
    match j {
        JsonModel::Unsigned(n) => if n <= i64::MAX {
            Some(n as i64)
        } else {
            None
        },
        JsonModel::Negative(n) => Some(n),
        _ => None,
    }
}

impl Json {
    /// The 64-bit integer that the value is.
    pub fn as_i64(&self) -> (r: Option<i64>)
        ensures
            r == json_i64(self@),
    {
        match self {
            Json::Unsigned(n) => if *n <= 0x7fff_ffff_ffff_ffff {
                Some(*n as i64)
            } else {
                None
            },
            Json::Negative(n) => Some(*n),
            _ => None,
        }
    }
}


/// A JSON text.
pub(crate) fn text_json(s: &str) -> (r: Json)
    ensures
        r@ == JsonModel::Text(s@),
{
    Json::String(s.to_owned())
}

/// The JSON of an optional text: the text, or null.
pub open spec fn optional_json(o: Option<Seq<char>>) -> JsonModel {
    match o {
        Some(s) => JsonModel::Text(s),
        None => JsonModel::Null,
    }
}

/// The JSON of an optional text: the text, or null.
pub(crate) fn option_json(o: &Option<String>) -> (r: Json)
    ensures
        r@ == optional_json(optional_text(*o)),
{
    match o {
        Some(s) => text_json(s.as_str()),
        None => Json::Null,
    }
}

/// The JSON of a signed number.
pub open spec fn int_json(n: i64) -> JsonModel {
    if n < 0 {
        JsonModel::Negative(n)
    } else {
        JsonModel::Unsigned(n as u64)
    }
}

/// The JSON of a signed number.
pub(crate) fn number_json(n: i64) -> (r: Json)
    ensures
        r@ == int_json(n),
{
    if n < 0 {
        Json::Negative(n)
    } else {
        Json::Unsigned(n as u64)
    }
}

/// The JSON of a row of texts.
pub open spec fn texts_json(v: Seq<Seq<char>>) -> JsonModel {
    JsonModel::Array(Seq::new(v.len(), |i: int| JsonModel::Text(v[i])))
}

/// An array.
pub(crate) fn array(v: Vec<Json>) -> (r: Json)
    ensures
        r@ == JsonModel::Array(models(v@)),
{
    proof {
        array_view(v);
    }
    Json::Array(v)
}

/// An object.
pub(crate) fn object(v: Vec<(String, Json)>) -> (r: Json)
    ensures
        r@ == JsonModel::Object(member_models(v@)),
{
    proof {
        object_view(v);
    }
    Json::Object(v)
}

/// Adds an item to an array.
pub(crate) fn push_item(v: &mut Vec<Json>, j: Json)
    ensures
        models(final(v)@) == models(old(v)@).push(j@),
{
    let ghost before = v@;
    v.push(j);
    proof {
        assert(models(v@) == models(before).push(j@));
    }
}

/// Adds a member to an object.
pub(crate) fn push_member(v: &mut Vec<(String, Json)>, key: &str, j: Json)
    ensures
        member_models(final(v)@) == member_models(old(v)@).push((key@, j@)),
{
    let ghost before = v@;
    v.push((key.to_owned(), j));
    proof {
        assert(member_models(v@) == member_models(before).push((key@, j@)));
    }
}

/// The JSON of a row of texts.
pub(crate) fn array_of_texts(v: &Vec<String>) -> (r: Json)
    ensures
        r@ == texts_json(views(v@)),
{
    let mut out: Vec<Json> = Vec::new();
    let mut i: usize = 0;
    let ghost all = texts_json(views(v@))->Array_0;
    proof {
        assert(models(out@) == all.take(0));
    }
    while i < v.len()
        invariant
            all == texts_json(views(v@))->Array_0,
            i <= v.len(),
            models(out@) == all.take(i as int),
        decreases v.len() - i,
    {
        push_item(&mut out, text_json(v[i].as_str()));
        proof {
            assert(all.take(i + 1) == all.take(i as int).push(all[i as int]));
        }
        i = i + 1;
    }
    proof {
        assert(all.take(v@.len() as int) == all);
    }
    array(out)
}

/// The names of the members of an object.
pub open spec fn member_names(x: Seq<(Seq<char>, JsonModel)>) -> Seq<Seq<char>> {
    Seq::new(x.len(), |i: int| x[i].0)
}

/// Whether no object in the value names a member twice.
pub open spec fn names_once(a: JsonModel) -> bool
    decreases a,
{
    match a {
        JsonModel::Array(x) => forall|i: int| 0 <= i < x.len() ==> names_once(#[trigger] x[i]),
        JsonModel::Object(x) => member_names(x).no_duplicates() && forall|i: int|
            0 <= i < x.len() ==> names_once((#[trigger] x[i]).1),
        _ => true,
    }
}

/// Where the members of one object are all named in another of the same size, so are the members of
/// the other in the one.
proof fn same_member_names(
    x: Seq<(Seq<char>, JsonModel)>,
    y: Seq<(Seq<char>, JsonModel)>,
    k: int,
) -> (i: int)
    requires
        member_names(x).no_duplicates(),
        member_names(y).no_duplicates(),
        x.len() == y.len(),
        forall|i: int| 0 <= i < x.len() ==> has_member(#[trigger] x[i].0, x[i].1, y),
        0 <= k < y.len(),
    ensures
        0 <= i < x.len(),
        x[i].0 == y[k].0,
        same_json(x[i].1, y[k].1),
{
    let a = member_names(x);
    let b = member_names(y);
    a.unique_seq_to_set();
    b.unique_seq_to_set();
    assert forall|n: Seq<char>| a.to_set().contains(n) implies #[trigger] b.to_set().contains(n) by {
        let i = choose|i: int| 0 <= i < a.len() && a[i] == n;
        assert(x[i].0 == n);
        assert(has_member(x[i].0, x[i].1, y));
        let j = choose|j: int| 0 <= j < y.len() && (#[trigger] y[j]).0 == n && same_json(x[i].1, y[j].1);
        assert(b[j] == n);
    }
    vstd::seq_lib::seq_to_set_is_finite(a);
    vstd::seq_lib::seq_to_set_is_finite(b);
    vstd::set_lib::lemma_subset_equality(a.to_set(), b.to_set());
    assert(b[k] == y[k].0);
    assert(b.to_set().contains(y[k].0));
    assert(a.to_set().contains(y[k].0));
    let i = choose|i: int| 0 <= i < a.len() && a[i] == y[k].0;
    assert(x[i].0 == y[k].0);
    assert(has_member(x[i].0, x[i].1, y));
    let j = choose|j: int|
        0 <= j < y.len() && (#[trigger] y[j]).0 == x[i].0 && same_json(x[i].1, y[j].1);
    assert(b[j] == b[k]);
    i
}

/// What is equal to a JSON value is equal the other way round.
proof fn same_json_reversed(a: JsonModel, b: JsonModel)
    requires
        names_once(a),
        names_once(b),
        same_json(a, b),
    ensures
        same_json(b, a),
    decreases a,
{
    match (a, b) {
        (JsonModel::Array(x), JsonModel::Array(y)) => {
            assert forall|i: int| 0 <= i < y.len() implies same_json(y[i], #[trigger] x[i]) by {
                assert(decreases_to!(a => x[i]));
                assert(same_json(x[i], y[i]));
                same_json_reversed(x[i], y[i]);
            }
        },
        (JsonModel::Object(x), JsonModel::Object(y)) => {
            assert forall|k: int| 0 <= k < y.len() implies has_member(#[trigger] y[k].0, y[k].1, x) by {
                let i = same_member_names(x, y, k);
                assert(names_once(x[i].1));
                assert(names_once(y[k].1));
                assert(decreases_to!(a => x[i].1));
                same_json_reversed(x[i].1, y[k].1);
                assert(x[i].0 == y[k].0 && same_json(y[k].1, x[i].1));
            }
        },
        _ => {},
    }
}

/// Equality of JSON values does not depend on which of the two comes first, where no object names a
/// member twice.
pub proof fn same_json_symmetric(a: JsonModel, b: JsonModel)
    requires
        names_once(a),
        names_once(b),
    ensures
        same_json(a, b) == same_json(b, a),
{
    if same_json(a, b) {
        same_json_reversed(a, b);
    }
    if same_json(b, a) {
        same_json_reversed(b, a);
    }
}

} // verus!
