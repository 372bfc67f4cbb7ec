//! A decoded JSON document, as plain values.

use vstd::prelude::*;
use vstd::string::*;
use crate::text::{debug_text, debug_text_of, decimal, decimal_string, signed_decimal, signed_decimal_string};

verus! {

/// A JSON value. Object fields are kept in the order the decoder hands
/// them over; their names are unique.
#[derive(Debug)]
pub enum Json {
    Null,
    Bool(bool),
    /// A non-negative integer.
    UInt(u64),
    /// A negative integer.
    Int(i64),
    /// Any other number, as its decimal text.
    Float(String),
    Str(String),
    Array(Vec<Json>),
    Object(Vec<(String, Json)>),
}

} // verus!

verus! {

/// The value of the first field called `name`.
pub open spec fn field_of(fields: Seq<(String, Json)>, name: Seq<char>) -> Option<Json>
    decreases fields.len(),
{
    if fields.len() == 0 {
        None
    } else if fields[0].0@ == name {
        Some(fields[0].1)
    } else {
        field_of(fields.drop_first(), name)
    }
}

/// The field `name` of an object; `None` for a missing field or a value
/// that is not an object.
pub open spec fn get_field(doc: Json, name: Seq<char>) -> Option<Json> {
    match doc {
        Json::Object(fields) => field_of(fields@, name),
        _ => None,
    }
}

/// The text of the field `name` when it is a string.
pub open spec fn text_field(doc: Json, name: Seq<char>) -> Option<Seq<char>> {
    match get_field(doc, name) {
        Some(Json::Str(s)) => Some(s@),
        _ => None,
    }
}

/// The field `name` when it is a non-negative integer, else 0.
pub open spec fn u64_field_or_zero(doc: Json, name: Seq<char>) -> u64 {
    match get_field(doc, name) {
        Some(Json::UInt(n)) => n,
        _ => 0,
    }
}

impl Json {
    /// The field `name` of an object.
    pub fn get<'a>(&'a self, name: &String) -> (r: Option<&'a Json>)
        ensures
            r.is_some() == get_field(*self, name@).is_some(),
            r matches Some(v) ==> get_field(*self, name@) == Some(*v),
    {
        match self {
            Json::Object(fields) => {
                let n = fields.len();
                let mut i: usize = 0;
                assert(fields@.skip(0) =~= fields@);
                while i < n
                    invariant
                        n == fields@.len(),
                        i <= n,
                        get_field(*self, name@) == field_of(fields@, name@),
                        field_of(fields@, name@) == field_of(fields@.skip(i as int), name@),
                    decreases n - i,
                {
                    let ghost rest = fields@.skip(i as int);
                    assert(rest.drop_first() =~= fields@.skip(i + 1));
                    assert(rest[0] == fields@[i as int]);
                    if crate::text::key_compare(&fields[i].0, name) == 0 {
                        assert(rest.len() > 0);
                        assert(rest[0].0@ == name@);
                        assert(field_of(rest, name@) == Some(rest[0].1));
                        return Some(&fields[i].1);
                    }
                    i = i + 1;
                }
                None
            },
            _ => None,
        }
    }

    /// The text of the field `name` when it is a string.
    pub fn text(&self, name: &String) -> (r: Option<String>)
        ensures
            r.is_some() == text_field(*self, name@).is_some(),
            r matches Some(s) ==> text_field(*self, name@) == Some(s@),
    {
        match self.get(name) {
            Some(Json::Str(s)) => Some(s.clone()),
            _ => None,
        }
    }

    /// The field `name` when it is a non-negative integer, else 0.
    pub fn u64_or_zero(&self, name: &String) -> (r: u64)
        ensures
            r == u64_field_or_zero(*self, name@),
    {
        match self.get(name) {
            Some(Json::UInt(n)) => *n,
            _ => 0,
        }
    }
}

broadcast use {vstd::string::group_string_axioms, vstd::std_specs::vec::group_vec_axioms};

/// The number of items of an array or fields of an object.
pub open spec fn child_count(j: Json) -> nat {
    match j {
        Json::Array(v) => v@.len(),
        Json::Object(f) => f@.len(),
        _ => 0,
    }
}

/// A value as text: literals and numbers as JSON writes them, strings quoted
/// and escaped as `{:?}` renders them, arrays as `[a, b]`, objects as
/// `{"k": v, ...}`.
pub open spec fn render_json(j: Json) -> Seq<char>
    decreases j, child_count(j) + 1,
{
    match j {
        Json::Null => "null"@,
        Json::Bool(b) => if b {
            "true"@
        } else {
            "false"@
        },
        Json::UInt(n) => decimal(n as nat),
        Json::Int(n) => signed_decimal(n as int),
        Json::Float(s) => s@,
        Json::Str(s) => debug_text_of(s@),
        Json::Array(v) => "["@ + render_children(j, v@.len()) + "]"@,
        Json::Object(f) => "{"@ + render_children(j, f@.len()) + "}"@,
    }
}

/// One field as `"name": value`.
pub open spec fn render_field(name: Seq<char>, rendered_value: Seq<char>) -> Seq<char> {
    debug_text_of(name) + ": "@ + rendered_value
}

/// The first `n` items or fields of `j`, rendered and joined by `, `.
pub open spec fn render_children(j: Json, n: nat) -> Seq<char>
    decreases j, n,
{
    if n == 0 {
        Seq::empty()
    } else {
        let item = match j {
            Json::Array(v) => if n <= v@.len() {
                render_json(v@[n - 1])
            } else {
                Seq::empty()
            },
            Json::Object(f) => if n <= f@.len() {
                render_field(f@[n - 1].0@, render_json(f@[n - 1].1))
            } else {
                Seq::empty()
            },
            _ => Seq::empty(),
        };
        if n == 1 {
            item
        } else {
            render_children(j, (n - 1) as nat) + ", "@ + item
        }
    }
}

/// Fields rendered as `"name": value`, joined by `, `.
pub open spec fn render_fields(fields: Seq<(String, Json)>) -> Seq<char>
    decreases fields.len(),
{
    if fields.len() == 0 {
        Seq::empty()
    } else if fields.len() == 1 {
        render_field(fields[0].0@, render_json(fields[0].1))
    } else {
        render_fields(fields.drop_last()) + ", "@ + render_field(fields.last().0@, render_json(fields.last().1))
    }
}

/// Renders a value as `render_json` states.
pub fn render(j: &Json) -> (r: String)
    ensures
        r@ == render_json(*j),
    decreases j,
{
    match j {
        Json::Null => String::from_str("null"),
        Json::Bool(b) => if *b {
            String::from_str("true")
        } else {
            String::from_str("false")
        },
        Json::UInt(n) => decimal_string(*n),
        Json::Int(n) => signed_decimal_string(*n),
        Json::Float(s) => s.clone(),
        Json::Str(s) => debug_text(s.as_str()),
        Json::Array(v) => {
            let mut r = String::from_str("[");
            let n = v.len();
            let mut i: usize = 0;
            while i < n
                invariant
                    n == v@.len(),
                    i <= n,
                    *j == Json::Array(*v),
                    r@ == "["@ + render_children(*j, i as nat),
                decreases n - i,
            {
                if i > 0 {
                    r.append(", ");
                }
                proof {
                    assert(decreases_to!(*j => j->Array_0));
                    assert(decreases_to!(*v => v[i as int]));
                    assert(decreases_to!(*j => v[i as int]));
                }
                let item = render(&v[i]);
                r.append(item.as_str());
                proof {
                    reveal_strlit(", ");
                    assert(r@ =~= "["@ + render_children(*j, (i + 1) as nat));
                }
                i = i + 1;
            }
            r.append("]");
            r
        },
        Json::Object(f) => {
            let mut r = String::from_str("{");
            let n = f.len();
            let mut i: usize = 0;
            while i < n
                invariant
                    n == f@.len(),
                    i <= n,
                    *j == Json::Object(*f),
                    r@ == "{"@ + render_children(*j, i as nat),
                decreases n - i,
            {
                if i > 0 {
                    r.append(", ");
                }
                let name = debug_text(f[i].0.as_str());
                r.append(name.as_str());
                r.append(": ");
                proof {
                    assert(decreases_to!(*j => j->Object_0));
                    assert(decreases_to!(*f => f[i as int]));
                    assert(decreases_to!(*j => f[i as int].1));
                }
                let item = render(&f[i].1);
                r.append(item.as_str());
                proof {
                    reveal_strlit(", ");
                    reveal_strlit(": ");
                    assert(r@ =~= "{"@ + render_children(*j, (i + 1) as nat));
                }
                i = i + 1;
            }
            r.append("}");
            r
        },
    }
}

/// Renders fields as `render_fields` states.
pub fn render_field_list(fields: &Vec<(String, Json)>) -> (r: String)
    ensures
        r@ == render_fields(fields@),
{
    let mut r = String::new();
    let n = fields.len();
    let mut i: usize = 0;
    while i < n
        invariant
            n == fields@.len(),
            i <= n,
            r@ == render_fields(fields@.take(i as int)),
        decreases n - i,
    {
        let ghost before = r@;
        if i > 0 {
            r.append(", ");
        }
        let name = debug_text(fields[i].0.as_str());
        r.append(name.as_str());
        r.append(": ");
        let item = render(&fields[i].1);
        r.append(item.as_str());
        proof {
            reveal_strlit(", ");
            reveal_strlit(": ");
            let t = fields@.take(i + 1);
            assert(t.drop_last() =~= fields@.take(i as int));
            assert(t.last() == fields@[i as int]);
            if i == 0 {
                assert(before =~= Seq::<char>::empty());
            }
            assert(r@ =~= render_fields(t));
        }
        i = i + 1;
    }
    assert(fields@.take(n as int) =~= fields@);
    r
}

} // verus!
