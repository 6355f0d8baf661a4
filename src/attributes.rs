//! dBASE attribute records and their coercion into JSON values.
use vstd::prelude::*;
use crate::json::{JsonValue, is_str};

verus! {

/// A calendar day as dBASE stores it.
#[derive(Clone, Copy, Debug, PartialEq, Eq, Structural)]
pub struct Date {
    pub year: u32,
    pub month: u32,
    pub day: u32,
}

/// A time of day as dBASE stores it.
#[derive(Clone, Copy, Debug, PartialEq, Eq, Structural)]
pub struct Time {
    pub hours: u32,
    pub minutes: u32,
    pub seconds: u32,
}

/// A timestamp as dBASE stores it.
#[derive(Clone, Copy, Debug, PartialEq, Eq, Structural)]
pub struct DateTime {
    pub date: Date,
    pub time: Time,
}

/// One typed field value. Floating-point values are carried as their bit
/// patterns (`f64` for `Numeric`, `Currency` and `Double`, `f32` for `Float`).
#[derive(Clone, Debug)]
pub enum FieldValue {
    Character(Option<String>),
    Numeric(Option<u64>),
    Logical(Option<bool>),
    Date(Option<Date>),
    Float(Option<u32>),
    Integer(i32),
    Currency(u64),
    DateTime(DateTime),
    Double(u64),
    Memo(String),
}

/// An attribute record: field names with their values, in field order.
pub type Record = Vec<(String, FieldValue)>;

impl Date {
    /// The ranges that a dBASE date may take, and whose day number can be
    /// computed: year at most 9999, month in 1..=12, day in 1..=31, and no
    /// January or February of year 0.
    pub open spec fn wf(self) -> bool {
        &&& self.year <= 9999
        &&& 1 <= self.month <= 12
        &&& 1 <= self.day <= 31
        &&& (self.year >= 1 || self.month >= 3)
    }
}

impl Time {
    /// The ranges that a dBASE time may take.
    pub open spec fn wf(self) -> bool {
        self.hours <= 24 && self.minutes <= 60 && self.seconds <= 60
    }
}

impl DateTime {
    pub open spec fn wf(self) -> bool {
        self.date.wf() && self.time.wf()
    }
}

impl FieldValue {
    /// Every date in the value is well formed.
    pub open spec fn wf(self) -> bool {
        match self {
            FieldValue::Date(Some(d)) => d.wf(),
            FieldValue::DateTime(dt) => dt.wf(),
            _ => true,
        }
    }
}

impl FieldValue {
    /// A copy of the value.
    pub fn duplicate(&self) -> (r: FieldValue)
        ensures
            r == *self,
    {
        match self {
            FieldValue::Character(Some(c)) => FieldValue::Character(Some(c.clone())),
            FieldValue::Character(None) => FieldValue::Character(None),
            FieldValue::Numeric(n) => FieldValue::Numeric(*n),
            FieldValue::Logical(l) => FieldValue::Logical(*l),
            FieldValue::Date(d) => FieldValue::Date(*d),
            FieldValue::Float(f) => FieldValue::Float(*f),
            FieldValue::Integer(i) => FieldValue::Integer(*i),
            FieldValue::Currency(c) => FieldValue::Currency(*c),
            FieldValue::DateTime(d) => FieldValue::DateTime(*d),
            FieldValue::Double(d) => FieldValue::Double(*d),
            FieldValue::Memo(m) => FieldValue::Memo(m.clone()),
        }
    }
}

/// Every value of the record is well formed, and no two fields share a
/// name.
pub open spec fn record_wf(r: Seq<(String, FieldValue)>) -> bool {
    &&& forall|i: int| 0 <= i < r.len() ==> (#[trigger] r[i]).1.wf()
    &&& forall|i: int, j: int| 0 <= i < j < r.len() ==> (#[trigger] r[i]).0@ != (#[trigger] r[j]).0@
}

/// The Julian day number of a date, counting March as the first month of
/// the year.
pub open spec fn julian_day(d: Date) -> int {
    let m: int = if d.month > 2 { d.month - 3 } else { d.month + 9 };
    let y: int = if d.month > 2 { d.year as int } else { d.year - 1 };
    let century = y / 100;
    let decade = y - 100 * century;
    (146097 * century) / 4 + (1461 * decade) / 4 + (153 * m + 2) / 5 + d.day + 1721119
}

/// Days from 1970-01-01 to the date.
pub open spec fn unix_days(d: Date) -> int {
    julian_day(d) - 2440588
}

/// Seconds from 1970-01-01T00:00:00 to the timestamp.
pub open spec fn unix_timestamp(dt: DateTime) -> int {
    unix_days(dt.date) * 86400 + dt.time.hours * 3600 + dt.time.minutes * 60 + dt.time.seconds
}

proof fn lemma_unix_days_bounds(d: Date)
    requires
        d.wf(),
    ensures
        -2440588 <= unix_days(d) <= 3000000,
{
    let m: int = if d.month > 2 { d.month - 3 } else { d.month + 9 };
    let y: int = if d.month > 2 { d.year as int } else { d.year - 1 };
    let century = y / 100;
    let decade = y - 100 * century;
    assert(0 <= century <= 99);
    assert(0 <= decade < 100);
    assert(0 <= (146097 * century) / 4 <= 3616000) by (nonlinear_arith)
        requires 0 <= century <= 99;
    assert(0 <= (1461 * decade) / 4 <= 36525) by (nonlinear_arith)
        requires 0 <= decade < 100;
    assert(0 <= (153 * m + 2) / 5 <= 340);
}

/// Relies on dbase's `Date::new` and `Date::to_unix_days`: the day count
/// since the Unix epoch, from the date's Julian day number.
#[verifier::external_body]
fn date_unix_days(d: Date) -> (r: i32)
    requires
        d.wf(),
    ensures
        r as int == unix_days(d),
{
    dbase::Date::new(d.day, d.month, d.year).unwrap().to_unix_days()
}

/// Relies on dbase's `DateTime::new` and `DateTime::to_unix_timestamp`:
/// the day count times 86400 plus the seconds of the time of day.
#[verifier::external_body]
fn datetime_unix_timestamp(dt: DateTime) -> (r: i64)
    requires
        dt.wf(),
    ensures
        r as int == unix_timestamp(dt),
{
    let date = dbase::Date::new(dt.date.day, dt.date.month, dt.date.year).unwrap();
    let time = dbase::Time::new(dt.time.hours, dt.time.minutes, dt.time.seconds).unwrap();
    dbase::DateTime::new(date, time).to_unix_timestamp()
}

/// `v` is the JSON value that the field value `f` becomes: absent text and
/// numbers become `null`, an absent date the empty string, dates their
/// day count and timestamps their seconds since the Unix epoch.
pub open spec fn coerced(f: FieldValue, v: JsonValue) -> bool {
    match f {
        FieldValue::Character(Some(s)) => is_str(v, s@),
        FieldValue::Character(None) => v == JsonValue::Null,
        FieldValue::Numeric(Some(b)) => v == JsonValue::F64(b),
        FieldValue::Numeric(None) => v == JsonValue::Null,
        FieldValue::Logical(Some(b)) => v == JsonValue::Bool(b),
        FieldValue::Logical(None) => v == JsonValue::Null,
        FieldValue::Date(Some(d)) => v == JsonValue::Int(unix_days(d) as i64),
        FieldValue::Date(None) => is_str(v, Seq::empty()),
        FieldValue::Float(Some(b)) => v == JsonValue::F32(b),
        FieldValue::Float(None) => v == JsonValue::Null,
        FieldValue::Integer(i) => v == JsonValue::Int(i as i64),
        FieldValue::Currency(b) => v == JsonValue::F64(b),
        FieldValue::DateTime(dt) => v == JsonValue::Int(unix_timestamp(dt) as i64),
        FieldValue::Double(b) => v == JsonValue::F64(b),
        FieldValue::Memo(s) => is_str(v, s@),
    }
}

/// Maps one typed field value to a JSON value; no value is refused.
pub fn parse_dbase_value(field_value: FieldValue) -> (r: JsonValue)
    requires
        field_value.wf(),
    ensures
        coerced(field_value, r),
{
    match field_value {
        FieldValue::Character(Some(c)) => JsonValue::Str(c),
        FieldValue::Character(None) => JsonValue::Null,
        FieldValue::Numeric(Some(n)) => JsonValue::F64(n),
        FieldValue::Numeric(None) => JsonValue::Null,
        FieldValue::Logical(Some(l)) => JsonValue::Bool(l),
        FieldValue::Logical(None) => JsonValue::Null,
        FieldValue::Date(Some(d)) => {
            let days = date_unix_days(d);
            JsonValue::Int(days as i64)
        },
        FieldValue::Date(None) => JsonValue::Str(String::new()),
        FieldValue::Float(Some(f)) => JsonValue::F32(f),
        FieldValue::Float(None) => JsonValue::Null,
        FieldValue::Integer(i) => JsonValue::Int(i as i64),
        FieldValue::Currency(c) => JsonValue::F64(c),
        FieldValue::DateTime(d) => {
            proof {
                lemma_unix_days_bounds(d.date);
            }
            JsonValue::Int(datetime_unix_timestamp(d))
        },
        FieldValue::Double(d) => JsonValue::F64(d),
        FieldValue::Memo(m) => JsonValue::Str(m),
    }
}

/// Every record of the list is well formed.
pub open spec fn records_wf(records: Seq<Record>) -> bool {
    forall|i: int| 0 <= i < records.len() ==> record_wf(#[trigger] records[i]@)
}

/// The record at position `i`, if there is one.
pub open spec fn record_at(records: Seq<Record>, i: int) -> Option<Seq<(String, FieldValue)>> {
    if 0 <= i < records.len() {
        Some(records[i]@)
    } else {
        None
    }
}

/// `v` is the JSON object of the record's fields, each coerced, in field
/// order; the empty object where there is no record.
pub open spec fn is_props(v: JsonValue, rec: Option<Seq<(String, FieldValue)>>) -> bool {
    v matches JsonValue::Obj(o) && match rec {
        None => o@.len() == 0,
        Some(r) => {
            &&& o@.len() == r.len()
            &&& forall|i: int|
                0 <= i < r.len() ==> (#[trigger] o@[i]).0@ == r[i].0@ && coerced(r[i].1, o@[i].1)
        },
    }
}

/// The properties object of the record at position `i`: the empty object
/// where `i` is past the end of the list.
pub fn properties_value(records: &Vec<Record>, i: usize) -> (r: JsonValue)
    requires
        records_wf(records@),
    ensures
        is_props(r, record_at(records@, i as int)),
{
    let mut o: Vec<(String, JsonValue)> = Vec::new();
    if i < records.len() {
        let rec = &records[i];
        assert(record_wf(records@[i as int]@));
        let mut k: usize = 0;
        while k < rec.len()
            invariant
                k <= rec@.len(),
                record_wf(rec@),
                o@.len() == k,
                forall|j: int|
                    0 <= j < k ==> (#[trigger] o@[j]).0@ == rec@[j].0@ && coerced(rec@[j].1, o@[j].1),
            decreases rec@.len() - k,
        {
            let name = rec[k].0.clone();
            assert(rec@[k as int].1.wf());
            let v = parse_dbase_value(rec[k].1.duplicate());
            o.push((name, v));
            k = k + 1;
        }
    }
    JsonValue::Obj(o)
}

} // verus!
