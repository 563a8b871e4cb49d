//! JSON values.

use crate::text;
use vstd::prelude::*;

verus! {

/// A JSON value. A number that is neither an unsigned nor a signed 64-bit integer is kept as
/// it was written.
#[derive(Debug)]
pub enum Json {
    Null,
    Bool(bool),
    Uint(u64),
    Int(i64),
    Real(String),
    Str(String),
    Arr(Vec<Json>),
    Obj(Vec<(String, Json)>),
}

/// What a JSON value holds.
pub enum Value {
    Null,
    Bool(bool),
    Uint(u64),
    Int(i64),
    Real(Seq<char>),
    Str(Seq<char>),
    Arr(Seq<Value>),
    Obj(Seq<(Seq<char>, Value)>),
}

impl View for Json {
    type V = Value;

    open spec fn view(&self) -> Value {
        value_of(*self)
    }
}

pub open spec fn value_of(j: Json) -> Value
    decreases j,
{
    match j {
        Json::Null => Value::Null,
        Json::Bool(b) => Value::Bool(b),
        Json::Uint(n) => Value::Uint(n),
        Json::Int(n) => Value::Int(n),
        Json::Real(s) => Value::Real(s@),
        Json::Str(s) => Value::Str(s@),
        Json::Arr(v) => Value::Arr(
            Seq::new(
                v@.len(),
                |i: int|
                    if 0 <= i < v@.len() {
                        value_of(v@[i])
                    } else {
                        Value::Null
                    },
            ),
        ),
        Json::Obj(v) => Value::Obj(
            Seq::new(
                v@.len(),
                |i: int|
                    if 0 <= i < v@.len() {
                        (v@[i].0@, value_of(v@[i].1))
                    } else {
                        (Seq::empty(), Value::Null)
                    },
            ),
        ),
    }
}

/// The value of the first field of an object with this name.
pub open spec fn field(v: Value, name: Seq<char>) -> Option<Value> {
    match v {
        Value::Obj(fields) => first_field(fields, name),
        _ => None,
    }
}

pub open spec fn first_field(fields: Seq<(Seq<char>, Value)>, name: Seq<char>) -> Option<Value>
    decreases fields.len(),
{
    if fields.len() == 0 {
        None
    } else if fields[0].0 == name {
        Some(fields[0].1)
    } else {
        first_field(fields.skip(1), name)
    }
}

/// The text of a string value.
pub open spec fn str_of(v: Value) -> Option<Seq<char>> {
    match v {
        Value::Str(s) => Some(s),
        _ => None,
    }
}

/// The text of a field that is a string.
pub open spec fn str_field(v: Value, name: Seq<char>) -> Option<Seq<char>> {
    match field(v, name) {
        Some(f) => str_of(f),
        None => None,
    }
}

/// The number of an unsigned integer value.
pub open spec fn uint_of(v: Value) -> Option<u64> {
    match v {
        Value::Uint(n) => Some(n),
        _ => None,
    }
}

pub open spec fn uint_field(v: Value, name: Seq<char>) -> Option<u64> {
    match field(v, name) {
        Some(f) => uint_of(f),
        None => None,
    }
}

pub open spec fn bool_of(v: Value) -> Option<bool> {
    match v {
        Value::Bool(b) => Some(b),
        _ => None,
    }
}

pub open spec fn bool_field(v: Value, name: Seq<char>) -> Option<bool> {
    match field(v, name) {
        Some(f) => bool_of(f),
        None => None,
    }
}

impl Json {
    /// The value of a field of an object.
    pub fn get(&self, name: &str) -> (r: Option<&Json>)
        ensures
            match r {
                Some(j) => field(self@, name@) == Some(j@),
                None => field(self@, name@) is None,
            },
    {
        match self {
            Json::Obj(v) => {
                let ghost fields = self@->Obj_0;
                let mut i: usize = 0;
                proof {
                    assert(fields.skip(0) =~= fields);
                }
                while i < v.len()
                    invariant
                        *self == Json::Obj(*v),
                        fields == self@->Obj_0,
                        fields.len() == v@.len(),
                        i <= v@.len(),
                        first_field(fields, name@) == first_field(fields.skip(i as int), name@),
                    decreases v@.len() - i,
                {
                    proof {
                        assert(fields.skip(i as int)[0] == fields[i as int]);
                        assert(fields.skip(i as int).skip(1) =~= fields.skip(i + 1));
                    }
                    if text::same(v[i].0.as_str(), name) {
                        return Some(&v[i].1);
                    }
                    i += 1;
                }
                None
            },
            _ => None,
        }
    }

    pub fn as_str(&self) -> (r: Option<&str>)
        ensures
            match r {
                Some(s) => self@ == Value::Str(s@),
                None => !(self@ is Str),
            },
    {
        match self {
            Json::Str(s) => Some(s.as_str()),
            _ => None,
        }
    }

    pub fn as_u64(&self) -> (r: Option<u64>)
        ensures
            r == uint_of(self@),
    {
        match self {
            Json::Uint(n) => Some(*n),
            _ => None,
        }
    }

    pub fn as_bool(&self) -> (r: Option<bool>)
        ensures
            r == bool_of(self@),
    {
        match self {
            Json::Bool(b) => Some(*b),
            _ => None,
        }
    }

    pub fn as_array(&self) -> (r: Option<&Vec<Json>>)
        ensures
            match r {
                Some(v) => *self == Json::Arr(*v) && self@ == Value::Arr(values(v@)),
                None => !(self@ is Arr),
            },
    {
        match self {
            Json::Arr(v) => {
                proof {
                    assert(self@->Arr_0 =~= values(v@));
                }
                Some(v)
            },
            _ => None,
        }
    }

    pub fn is_null(&self) -> (r: bool)
        ensures
            r == (self@ is Null),
    {
        match self {
            Json::Null => true,
            _ => false,
        }
    }

    /// A field that is a string.
    pub fn get_str(&self, name: &str) -> (r: Option<String>)
        ensures
            text::opt_view(r) == str_field(self@, name@),
    {
        match self.get(name) {
            Some(j) => match j.as_str() {
                Some(s) => Some(s.to_owned()),
                None => None,
            },
            None => None,
        }
    }

    pub fn get_u64(&self, name: &str) -> (r: Option<u64>)
        ensures
            r == uint_field(self@, name@),
    {
        match self.get(name) {
            Some(j) => j.as_u64(),
            None => None,
        }
    }

    pub fn get_bool(&self, name: &str) -> (r: Option<bool>)
        ensures
            r == bool_field(self@, name@),
    {
        match self.get(name) {
            Some(j) => j.as_bool(),
            None => None,
        }
    }

    /// A string value.
    pub fn text(s: &str) -> (r: Json)
        ensures
            r@ == Value::Str(s@),
    {
        Json::Str(s.to_owned())
    }

    /// A string value, or null.
    pub fn text_or_null(s: Option<&str>) -> (r: Json)
        ensures
            r@ == (match s {
                Some(t) => Value::Str(t@),
                None => Value::Null,
            }),
    {
        match s {
            Some(t) => Json::Str(t.to_owned()),
            None => Json::Null,
        }
    }

    /// An array of strings.
    pub fn texts(v: &Vec<String>) -> (r: Json)
        ensures
            r@ == text_array(text::texts(v@)),
    {
        let mut out: Vec<Json> = Vec::new();
        let mut i: usize = 0;
        while i < v.len()
            invariant
                i <= v@.len(),
                out@.len() == i,
                forall|j: int| 0 <= j < i ==> (#[trigger] out@[j])@ == Value::Str(v@[j]@),
            decreases v@.len() - i,
        {
            out.push(Json::Str(v[i].clone()));
            i += 1;
        }
        let r = Json::Arr(out);
        proof {
            assert(r@->Arr_0 =~= text_array(text::texts(v@))->Arr_0);
        }
        r
    }

    /// An object with no fields.
    pub fn empty() -> (r: Json)
        ensures
            r@ == Value::Obj(Seq::empty()),
    {
        let v: Vec<(String, Json)> = Vec::new();
        let r = Json::Obj(v);
        proof {
            assert(r@->Obj_0 =~= Seq::empty());
        }
        r
    }

    /// The object with one more field at its end.
    pub fn with(self, name: &str, value: Json) -> (r: Json)
        requires
            self@ is Obj,
        ensures
            r@ == Value::Obj(self@->Obj_0.push((name@, value@))),
    {
        match self {
            Json::Obj(v) => {
                let mut v = v;
                let ghost before = v@;
                v.push((name.to_owned(), value));
                let r = Json::Obj(v);
                proof {
                    assert(r@->Obj_0 =~= self@->Obj_0.push((name@, value@)));
                }
                r
            },
            other => other,
        }
    }
}

/// What the elements of an array hold.
pub open spec fn values(v: Seq<Json>) -> Seq<Value> {
    v.map_values(|j: Json| j@)
}

/// An array of strings.
pub open spec fn text_array(v: Seq<Seq<char>>) -> Value {
    Value::Arr(v.map_values(|s: Seq<char>| Value::Str(s)))
}

/// A string or null.
pub open spec fn text_or_null(s: Option<Seq<char>>) -> Value {
    match s {
        Some(t) => Value::Str(t),
        None => Value::Null,
    }
}

/// A field is found at the first place that has its name.
pub proof fn lemma_field_at(v: Value, name: Seq<char>, i: int)
    requires
        v is Obj,
        0 <= i < v->Obj_0.len(),
        v->Obj_0[i].0 == name,
        forall|j: int| 0 <= j < i ==> (#[trigger] v->Obj_0[j]).0 != name,
    ensures
        field(v, name) == Some(v->Obj_0[i].1),
    decreases i,
{
    let fields = v->Obj_0;
    if i > 0 {
        let rest = Value::Obj(fields.skip(1));
        assert(fields[0].0 != name);
        assert forall|j: int| 0 <= j < i - 1 implies (#[trigger] rest->Obj_0[j]).0 != name by {
            assert(rest->Obj_0[j] == fields[j + 1]);
        }
        lemma_field_at(rest, name, i - 1);
    }
}

/// Getting a field of an object gives the value of the first field with that name, and nothing
/// where no field has it; what is no object has no fields.
pub proof fn law_get_finds_the_field(j: &Json, name: &str, r: Option<&Json>)
    requires
        call_ensures(Json::get, (j, name), r),
    ensures
        r matches Some(value) ==> {
            &&& j@ matches Value::Obj(fields)
            &&& exists|i: int|
                {
                    &&& 0 <= i < fields.len()
                    &&& #[trigger] fields[i] == (name@, value@)
                    &&& forall|k: int| 0 <= k < i ==> (#[trigger] fields[k]).0 != name@
                }
        },
        r is None ==> (j@ matches Value::Obj(fields) ==> forall|k: int|
            0 <= k < fields.len() ==> (#[trigger] fields[k]).0 != name@),
{
    if let Value::Obj(fields) = j@ {
        lemma_first_field(fields, name@);
    }
}

proof fn lemma_first_field(fields: Seq<(Seq<char>, Value)>, name: Seq<char>)
    ensures
        match first_field(fields, name) {
            Some(v) => exists|i: int|
                {
                    &&& 0 <= i < fields.len()
                    &&& #[trigger] fields[i] == (name, v)
                    &&& forall|k: int| 0 <= k < i ==> (#[trigger] fields[k]).0 != name
                },
            None => forall|k: int| 0 <= k < fields.len() ==> (#[trigger] fields[k]).0 != name,
        },
    decreases fields.len(),
{
    if fields.len() > 0 {
        if fields[0].0 == name {
            assert(fields[0] == (name, fields[0].1));
        } else {
            let rest = fields.skip(1);
            lemma_first_field(rest, name);
            match first_field(rest, name) {
                Some(v) => {
                    let i = choose|i: int|
                        {
                            &&& 0 <= i < rest.len()
                            &&& #[trigger] rest[i] == (name, v)
                            &&& forall|k: int| 0 <= k < i ==> (#[trigger] rest[k]).0 != name
                        };
                    assert(fields[i + 1] == (name, v));
                    assert forall|k: int| 0 <= k < i + 1 implies (#[trigger] fields[k]).0 != name by {
                        if k > 0 {
                            assert(rest[k - 1] == fields[k]);
                        }
                    }
                },
                None => {
                    assert forall|k: int| 0 <= k < fields.len() implies (#[trigger] fields[k]).0
                        != name by {
                        if k > 0 {
                            assert(rest[k - 1] == fields[k]);
                        }
                    }
                },
            }
        }
    }
}

/// A field that was added is found, unless an earlier one has its name; the others stay as they
/// were.
pub proof fn law_added_field_is_found(j: Json, name: &str, value: Json, r: Json, other: Seq<char>)
    requires
        j@ is Obj,
        call_ensures(Json::with, (j, name, value), r),
    ensures
        field(j@, name@) is None ==> field(r@, name@) == Some(value@),
        other != name@ || field(j@, name@) is Some ==> field(r@, other) == field(j@, other),
{
    lemma_pushed_field(j@->Obj_0, name@, value@, name@);
    lemma_pushed_field(j@->Obj_0, name@, value@, other);
}

proof fn lemma_pushed_field(
    fields: Seq<(Seq<char>, Value)>,
    name: Seq<char>,
    value: Value,
    other: Seq<char>,
)
    ensures
        first_field(fields.push((name, value)), other) == (match first_field(fields, other) {
            Some(v) => Some(v),
            None => if other == name {
                Some(value)
            } else {
                None
            },
        }),
    decreases fields.len(),
{
    let all = fields.push((name, value));
    if fields.len() == 0 {
        assert(all.skip(1).len() == 0);
        reveal_with_fuel(first_field, 2);
    } else {
        lemma_pushed_field(fields.skip(1), name, value, other);
        assert(all.skip(1) =~= fields.skip(1).push((name, value)));
        assert(all[0] == fields[0]);
    }
}

/// Strings that were put into an array are read out of it, all of them and in order.
pub proof fn law_strings_are_read_back(v: &Vec<String>, j: Json, a: &Vec<Json>, out: Vec<String>)
    requires
        call_ensures(Json::texts, (v,), j),
        j == Json::Arr(*a),
        call_ensures(crate::connection::strings_in, (a,), out),
    ensures
        out@.len() == v@.len(),
        text::texts(out@) == text::texts(v@),
{
    assert(j@->Arr_0 =~= values(a@));
    crate::connection::lemma_str_items(text::texts(v@));
    assert(text::texts(out@).len() == out@.len());
    assert(text::texts(v@).len() == v@.len());
}

/// A value is read as what it was written as, and as nothing else.
pub proof fn law_values_are_read_back(
    t: &str,
    j: Json,
    s: Option<&str>,
    n: Option<u64>,
    k: Json,
    number: u64,
    m: Option<u64>,
    b: bool,
    c: Option<bool>,
    opt: Option<&str>,
    o: Json,
    null: bool,
)
    requires
        call_ensures(Json::text, (t,), j),
        call_ensures(Json::as_str, (&j,), s),
        call_ensures(Json::as_u64, (&j,), n),
        k == Json::Uint(number),
        call_ensures(Json::as_u64, (&k,), m),
        call_ensures(Json::as_bool, (&Json::Bool(b),), c),
        call_ensures(Json::text_or_null, (opt,), o),
        call_ensures(Json::is_null, (&o,), null),
    ensures
        s matches Some(x) && x@ == t@,
        n is None,
        m == Some(number),
        c == Some(b),
        null <==> opt is None,
        opt matches Some(x) ==> o@ == Value::Str(x@),
{
}

/// A field of an object is read by its name, where it is of the kind that is asked for.
pub proof fn law_fields_are_read(
    j: &Json,
    name: &str,
    s: Option<String>,
    n: Option<u64>,
    b: Option<bool>,
)
    requires
        call_ensures(Json::get_str, (j, name), s),
        call_ensures(Json::get_u64, (j, name), n),
        call_ensures(Json::get_bool, (j, name), b),
    ensures
        match field(j@, name@) {
            Some(Value::Str(t)) => s is Some && (s->0)@ == t && n is None && b is None,
            Some(Value::Uint(k)) => s is None && n == Some(k) && b is None,
            Some(Value::Bool(x)) => s is None && n is None && b == Some(x),
            _ => s is None && n is None && b is None,
        },
{
}

} // verus!
