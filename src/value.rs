use vstd::prelude::*;

verus! {

/// A loosely-typed protocol value, as the transport decodes it off the wire.
pub enum Value {
    Nil,
    Boolean(bool),
    Integer(i64),
    Str(String),
    Binary(Vec<u8>),
    Array(Vec<Value>),
    Dict(Vec<(Value, Value)>),
    Ext(i8, Vec<u8>),
}

/// The value as a non-negative integer, if it is one.
pub open spec fn spec_u64(v: Value) -> Option<u64> {
    match v {
        Value::Integer(i) => if i >= 0 { Some(i as u64) } else { None },
        _ => None,
    }
}

pub open spec fn spec_i64(v: Value) -> Option<i64> {
    match v {
        Value::Integer(i) => Some(i),
        _ => None,
    }
}

pub open spec fn spec_bool(v: Value) -> Option<bool> {
    match v {
        Value::Boolean(b) => Some(b),
        _ => None,
    }
}

pub open spec fn spec_text(v: Value) -> Option<Seq<char>> {
    match v {
        Value::Str(s) => Some(s@),
        _ => None,
    }
}

pub open spec fn spec_items(v: Value) -> Option<Seq<Value>> {
    match v {
        Value::Array(a) => Some(a@),
        _ => None,
    }
}

pub open spec fn spec_entries(v: Value) -> Option<Seq<(Value, Value)>> {
    match v {
        Value::Dict(d) => Some(d@),
        _ => None,
    }
}

pub open spec fn spec_ext(v: Value) -> Option<Seq<u8>> {
    match v {
        Value::Ext(_, b) => Some(b@),
        _ => None,
    }
}

pub fn value_entries(v: &Value) -> (r: Option<&Vec<(Value, Value)>>)
    ensures
        match r {
            Some(d) => spec_entries(*v) == Some(d@),
            None => spec_entries(*v) is None,
        },
{
    match v {
        Value::Dict(d) => Some(d),
        _ => None,
    }
}

pub fn value_ext(v: &Value) -> (r: Option<Vec<u8>>)
    ensures
        match r {
            Some(b) => spec_ext(*v) == Some(b@),
            None => spec_ext(*v) is None,
        },
{
    match v {
        Value::Ext(_, b) => Some(b.clone()),
        _ => None,
    }
}

pub fn value_u64(v: &Value) -> (r: Option<u64>)
    ensures
        r == spec_u64(*v),
{
    match v {
        Value::Integer(i) => if *i >= 0 { Some(*i as u64) } else { None },
        _ => None,
    }
}

pub fn value_i64(v: &Value) -> (r: Option<i64>)
    ensures
        r == spec_i64(*v),
{
    match v {
        Value::Integer(i) => Some(*i),
        _ => None,
    }
}

pub fn value_bool(v: &Value) -> (r: Option<bool>)
    ensures
        r == spec_bool(*v),
{
    match v {
        Value::Boolean(b) => Some(*b),
        _ => None,
    }
}

pub fn value_text(v: &Value) -> (r: Option<String>)
    ensures
        match r {
            Some(s) => spec_text(*v) == Some(s@),
            None => spec_text(*v) is None,
        },
{
    match v {
        Value::Str(s) => Some(s.clone()),
        _ => None,
    }
}

pub fn value_items(v: &Value) -> (r: Option<&Vec<Value>>)
    ensures
        match r {
            Some(a) => spec_items(*v) == Some(a@),
            None => spec_items(*v) is None,
        },
{
    match v {
        Value::Array(a) => Some(a),
        _ => None,
    }
}

/// Whether `s` holds exactly the characters of `lit`.
pub fn text_is(s: &String, lit: &str) -> (r: bool)
    ensures
        r == (s@ == lit@),
{
    let owned = lit.to_owned();
    *s == owned
}

} // verus!
