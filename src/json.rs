//! A structured JSON value, the model of the GeoJSON and TopoJSON documents.
use vstd::prelude::*;
use crate::geometry::Coord;

verus! {

/// A JSON value. Numbers read from the source files keep their exact
/// floating-point bit patterns (`F64`, `F32`); objects keep their members
/// in insertion order.
#[derive(Debug)]
pub enum JsonValue {
    Null,
    Bool(bool),
    Int(i64),
    UInt(u64),
    F64(u64),
    F32(u32),
    Str(String),
    Arr(Vec<JsonValue>),
    Obj(Vec<(String, JsonValue)>),
}

/// `v` is the string `s`.
pub open spec fn is_str(v: JsonValue, s: Seq<char>) -> bool {
    v matches JsonValue::Str(t) && t@ == s
}

/// `v` is the pair `[x, y]` of a position.
pub open spec fn is_coord(v: JsonValue, c: Coord) -> bool {
    &&& v matches JsonValue::Arr(a)
    &&& a@.len() == 2
    &&& a@[0] == JsonValue::F64(c.x)
    &&& a@[1] == JsonValue::F64(c.y)
}

/// `v` is the list of the positions `cs`, each as `[x, y]`.
pub open spec fn is_path(v: JsonValue, cs: Seq<Coord>) -> bool {
    &&& v matches JsonValue::Arr(a)
    &&& a@.len() == cs.len()
    &&& forall|i: int| 0 <= i < cs.len() ==> #[trigger] is_coord(a@[i], cs[i])
}

/// `m` is an object member named `key` whose value is `v`.
pub open spec fn is_member(m: (String, JsonValue), key: Seq<char>, v: JsonValue) -> bool {
    m.0@ == key && m.1 == v
}

/// Makes a string value from a literal.
pub fn str_value(s: &str) -> (r: JsonValue)
    ensures
        is_str(r, s@),
{
    JsonValue::Str(s.to_owned())
}

/// Makes an object member.
pub fn member(key: &str, v: JsonValue) -> (r: (String, JsonValue))
    ensures
        r.0@ == key@,
        r.1 == v,
{
    (key.to_owned(), v)
}

/// The JSON pair `[x, y]` of a position.
pub fn coord_value(c: Coord) -> (r: JsonValue)
    ensures
        is_coord(r, c),
{
    let mut a: Vec<JsonValue> = Vec::new();
    a.push(JsonValue::F64(c.x));
    a.push(JsonValue::F64(c.y));
    JsonValue::Arr(a)
}

/// The JSON list of positions of a path or ring.
pub fn path_value(cs: &Vec<Coord>) -> (r: JsonValue)
    ensures
        is_path(r, cs@),
{
    let mut a: Vec<JsonValue> = Vec::new();
    let mut i: usize = 0;
    while i < cs.len()
        invariant
            i <= cs@.len(),
            a@.len() == i,
            forall|k: int| 0 <= k < i ==> #[trigger] is_coord(a@[k], cs@[k]),
        decreases cs@.len() - i,
    {
        a.push(coord_value(cs[i]));
        i = i + 1;
    }
    JsonValue::Arr(a)
}

} // verus!
