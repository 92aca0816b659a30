//! Values of query parameters, and what is left of them when they are redacted.
use vstd::prelude::*;

verus! {

/// A parameter value over sequences.
#[verifier::ext_equal]
pub enum Param {
    Null,
    Bool(bool),
    Int16(i16),
    Int32(i32),
    Int64(i64),
    Float32(u32),
    Float64(u64),
    Numeric(Seq<char>),
    Text(Seq<char>),
    Bytes(Seq<u8>),
    Date(i32),
    Time(i64),
    Timestamp(i64),
    TimestampTz(i64),
    Interval { months: i32, days: i32, microseconds: i64 },
    Uuid(Seq<u8>),
    Json(Seq<char>),
    Array { elements: Seq<Param>, dimensions: Seq<i32> },
    Range { lower: Option<Box<Param>>, upper: Option<Box<Param>>, lower_inc: bool, upper_inc: bool },
    Composite { fields: Seq<Param> },
    Unknown { oid: u32, data: Seq<u8> },
}

/// A typed parameter value from a Bind message. Floating-point numbers are
/// held as their bits.
#[derive(Debug, PartialEq)]
pub enum ParamValue {
    Null,
    Bool(bool),
    Int16(i16),
    Int32(i32),
    Int64(i64),
    Float32(u32),
    Float64(u64),
    Numeric(String),
    Text(String),
    Bytes(Vec<u8>),
    /// Days since 2000-01-01.
    Date(i32),
    /// Microseconds since midnight.
    Time(i64),
    /// Microseconds since 2000-01-01.
    Timestamp(i64),
    /// Microseconds since 2000-01-01 UTC.
    TimestampTz(i64),
    Interval { months: i32, days: i32, microseconds: i64 },
    Uuid([u8; 16]),
    Json(String),
    Array { elements: Vec<ParamValue>, dimensions: Vec<i32> },
    Range {
        lower: Option<Box<ParamValue>>,
        upper: Option<Box<ParamValue>>,
        lower_inc: bool,
        upper_inc: bool,
    },
    Composite { fields: Vec<ParamValue> },
    Unknown { oid: u32, data: Vec<u8> },
}

impl ParamValue {
    /// The value over sequences.
    pub open spec fn view(&self) -> Param
        decreases self,
    {
        match *self {
            ParamValue::Null => Param::Null,
            ParamValue::Bool(b) => Param::Bool(b),
            ParamValue::Int16(n) => Param::Int16(n),
            ParamValue::Int32(n) => Param::Int32(n),
            ParamValue::Int64(n) => Param::Int64(n),
            ParamValue::Float32(n) => Param::Float32(n),
            ParamValue::Float64(n) => Param::Float64(n),
            ParamValue::Numeric(s) => Param::Numeric(s@),
            ParamValue::Text(s) => Param::Text(s@),
            ParamValue::Bytes(v) => Param::Bytes(v@),
            ParamValue::Date(n) => Param::Date(n),
            ParamValue::Time(n) => Param::Time(n),
            ParamValue::Timestamp(n) => Param::Timestamp(n),
            ParamValue::TimestampTz(n) => Param::TimestampTz(n),
            ParamValue::Interval { months, days, microseconds } => Param::Interval {
                months,
                days,
                microseconds,
            },
            ParamValue::Uuid(b) => Param::Uuid(b@),
            ParamValue::Json(s) => Param::Json(s@),
            ParamValue::Array { elements, dimensions } => Param::Array {
                elements: Seq::new(
                    elements@.len(),
                    |i: int|
                        if 0 <= i < elements@.len() {
                            elements@[i].view()
                        } else {
                            Param::Null
                        },
                ),
                dimensions: dimensions@,
            },
            ParamValue::Range { lower, upper, lower_inc, upper_inc } => Param::Range {
                lower: match lower {
                    Some(b) => Some(Box::new((*b).view())),
                    None => None,
                },
                upper: match upper {
                    Some(b) => Some(Box::new((*b).view())),
                    None => None,
                },
                lower_inc,
                upper_inc,
            },
            ParamValue::Composite { fields } => Param::Composite {
                fields: Seq::new(
                    fields@.len(),
                    |i: int|
                        if 0 <= i < fields@.len() {
                            fields@[i].view()
                        } else {
                            Param::Null
                        },
                ),
            },
            ParamValue::Unknown { oid, data } => Param::Unknown { oid, data: data@ },
        }
    }
}

/// `p` with its type kept and its value gone.
pub open spec fn redact(p: Param) -> Param
    decreases p,
{
    match p {
        Param::Null => Param::Null,
        Param::Bool(_) => Param::Bool(false),
        Param::Int16(_) => Param::Int16(0),
        Param::Int32(_) => Param::Int32(0),
        Param::Int64(_) => Param::Int64(0),
        Param::Float32(_) => Param::Float32(0),
        Param::Float64(_) => Param::Float64(0),
        Param::Numeric(_) => Param::Numeric(Seq::empty()),
        Param::Text(_) => Param::Text(Seq::empty()),
        Param::Bytes(_) => Param::Bytes(Seq::empty()),
        Param::Date(_) => Param::Date(0),
        Param::Time(_) => Param::Time(0),
        Param::Timestamp(_) => Param::Timestamp(0),
        Param::TimestampTz(_) => Param::TimestampTz(0),
        Param::Interval { .. } => Param::Interval { months: 0, days: 0, microseconds: 0 },
        Param::Uuid(_) => Param::Uuid(Seq::new(16, |i: int| 0u8)),
        Param::Json(_) => Param::Json(Seq::empty()),
        Param::Array { elements, dimensions } => Param::Array {
            elements: Seq::new(
                elements.len(),
                |i: int|
                    if 0 <= i < elements.len() {
                        redact(elements[i])
                    } else {
                        Param::Null
                    },
            ),
            dimensions,
        },
        Param::Range { lower, upper, lower_inc, upper_inc } => Param::Range {
            lower: match lower {
                Some(b) => Some(Box::new(redact(*b))),
                None => None,
            },
            upper: match upper {
                Some(b) => Some(Box::new(redact(*b))),
                None => None,
            },
            lower_inc,
            upper_inc,
        },
        Param::Composite { fields } => Param::Composite {
            fields: Seq::new(
                fields.len(),
                |i: int|
                    if 0 <= i < fields.len() {
                        redact(fields[i])
                    } else {
                        Param::Null
                    },
            ),
        },
        Param::Unknown { oid, .. } => Param::Unknown { oid, data: Seq::empty() },
    }
}

/// Values over sequences.
pub open spec fn views(v: Seq<ParamValue>) -> Seq<Param> {
    Seq::new(v.len(), |i: int| v[i]@)
}

/// Each value redacted.
pub open spec fn redact_each(v: Seq<Param>) -> Seq<Param> {
    Seq::new(v.len(), |i: int| redact(v[i]))
}

/// A copy of array dimensions.
fn copy_dimensions(v: &Vec<i32>) -> (r: Vec<i32>)
    ensures
        r@ == v@,
{
    let mut out: Vec<i32> = Vec::new();
    out.extend_from_slice(v.as_slice());
    assert(out@ =~= v@);
    out
}

/// Replace a value by one of the same type that holds nothing of it.
pub fn redact_param(p: &ParamValue) -> (r: ParamValue)
    ensures
        r@ == redact(p@),
    decreases p,
{
    match p {
        ParamValue::Null => ParamValue::Null,
        ParamValue::Bool(_) => ParamValue::Bool(false),
        ParamValue::Int16(_) => ParamValue::Int16(0),
        ParamValue::Int32(_) => ParamValue::Int32(0),
        ParamValue::Int64(_) => ParamValue::Int64(0),
        ParamValue::Float32(_) => ParamValue::Float32(0),
        ParamValue::Float64(_) => ParamValue::Float64(0),
        ParamValue::Numeric(_) => ParamValue::Numeric(String::new()),
        ParamValue::Text(_) => ParamValue::Text(String::new()),
        ParamValue::Bytes(_) => ParamValue::Bytes(Vec::new()),
        ParamValue::Date(_) => ParamValue::Date(0),
        ParamValue::Time(_) => ParamValue::Time(0),
        ParamValue::Timestamp(_) => ParamValue::Timestamp(0),
        ParamValue::TimestampTz(_) => ParamValue::TimestampTz(0),
        ParamValue::Interval { .. } => ParamValue::Interval {
            months: 0,
            days: 0,
            microseconds: 0,
        },
        ParamValue::Uuid(_) => {
            let r = ParamValue::Uuid([0u8; 16]);
            assert(r@->Uuid_0 =~= redact(p@)->Uuid_0);
            r
        },
        ParamValue::Json(_) => ParamValue::Json(String::new()),
        ParamValue::Array { elements, dimensions } => {
            let mut out: Vec<ParamValue> = Vec::new();
            let mut i: usize = 0;
            while i < elements.len()
                invariant
                    *p matches ParamValue::Array { elements: e, dimensions: d } && e == *elements,
                    i <= elements@.len(),
                    out@.len() == i,
                    forall|k: int| 0 <= k < i ==> (#[trigger] out@[k])@ == redact(elements@[k]@),
                decreases elements.len() - i,
            {
                out.push(redact_param(&elements[i]));
                i += 1;
            }
            let r = ParamValue::Array { elements: out, dimensions: copy_dimensions(dimensions) };
            assert(r@->Array_elements =~= redact(p@)->Array_elements);
            r
        },
        ParamValue::Range { lower, upper, lower_inc, upper_inc } => ParamValue::Range {
            lower: match lower {
                Some(b) => Some(Box::new(redact_param(&**b))),
                None => None,
            },
            upper: match upper {
                Some(b) => Some(Box::new(redact_param(&**b))),
                None => None,
            },
            lower_inc: *lower_inc,
            upper_inc: *upper_inc,
        },
        ParamValue::Composite { fields } => {
            let mut out: Vec<ParamValue> = Vec::new();
            let mut i: usize = 0;
            while i < fields.len()
                invariant
                    *p matches ParamValue::Composite { fields: f } && f == *fields,
                    i <= fields@.len(),
                    out@.len() == i,
                    forall|k: int| 0 <= k < i ==> (#[trigger] out@[k])@ == redact(fields@[k]@),
                decreases fields.len() - i,
            {
                out.push(redact_param(&fields[i]));
                i += 1;
            }
            let r = ParamValue::Composite { fields: out };
            assert(r@->Composite_fields =~= redact(p@)->Composite_fields);
            r
        },
        ParamValue::Unknown { oid, .. } => ParamValue::Unknown { oid: *oid, data: Vec::new() },
    }
}

/// Redact each of `params`.
pub fn redact_all(params: &Vec<ParamValue>) -> (r: Vec<ParamValue>)
    ensures
        views(r@) == redact_each(views(params@)),
{
    let mut out: Vec<ParamValue> = Vec::new();
    let mut i: usize = 0;
    while i < params.len()
        invariant
            i <= params@.len(),
            out@.len() == i,
            forall|k: int| 0 <= k < i ==> (#[trigger] out@[k])@ == redact(params@[k]@),
        decreases params.len() - i,
    {
        out.push(redact_param(&params[i]));
        i += 1;
    }
    assert(views(out@) =~= redact_each(views(params@)));
    out
}

/// Whether two values have the same type, down to what they are made of.
pub open spec fn same_type(p: Param, q: Param) -> bool
    decreases p,
{
    match (p, q) {
        (Param::Null, Param::Null) => true,
        (Param::Bool(_), Param::Bool(_)) => true,
        (Param::Int16(_), Param::Int16(_)) => true,
        (Param::Int32(_), Param::Int32(_)) => true,
        (Param::Int64(_), Param::Int64(_)) => true,
        (Param::Float32(_), Param::Float32(_)) => true,
        (Param::Float64(_), Param::Float64(_)) => true,
        (Param::Numeric(_), Param::Numeric(_)) => true,
        (Param::Text(_), Param::Text(_)) => true,
        (Param::Bytes(_), Param::Bytes(_)) => true,
        (Param::Date(_), Param::Date(_)) => true,
        (Param::Time(_), Param::Time(_)) => true,
        (Param::Timestamp(_), Param::Timestamp(_)) => true,
        (Param::TimestampTz(_), Param::TimestampTz(_)) => true,
        (Param::Interval { .. }, Param::Interval { .. }) => true,
        (Param::Uuid(_), Param::Uuid(_)) => true,
        (Param::Json(_), Param::Json(_)) => true,
        (
            Param::Array { elements: a, dimensions: m },
            Param::Array { elements: b, dimensions: n },
        ) => m == n && a.len() == b.len() && (forall|i: int|
            0 <= i < a.len() ==> same_type(#[trigger] a[i], b[i])),
        (
            Param::Range { lower: l, upper: u, lower_inc: x, upper_inc: y },
            Param::Range { lower: m, upper: v, lower_inc: z, upper_inc: w },
        ) => {
            &&& x == z
            &&& y == w
            &&& match (l, m) {
                (Some(a), Some(b)) => same_type(*a, *b),
                (None, None) => true,
                _ => false,
            }
            &&& match (u, v) {
                (Some(a), Some(b)) => same_type(*a, *b),
                (None, None) => true,
                _ => false,
            }
        },
        (Param::Composite { fields: a }, Param::Composite { fields: b }) => a.len() == b.len() && (
        forall|i: int| 0 <= i < a.len() ==> same_type(#[trigger] a[i], b[i])),
        (Param::Unknown { oid: a, .. }, Param::Unknown { oid: b, .. }) => a == b,
        _ => false,
    }
}

/// What is left of a value depends on its type alone: two values of the same
/// type cannot be told apart once they are redacted.
pub proof fn law_redaction_hides_values(p: Param, q: Param)
    requires
        same_type(p, q),
    ensures
        redact(p) == redact(q),
    decreases p,
{
    match (p, q) {
        (
            Param::Array { elements: a, dimensions: m },
            Param::Array { elements: b, dimensions: n },
        ) => {
            assert forall|i: int| 0 <= i < a.len() implies redact(#[trigger] a[i]) == redact(
                b[i],
            ) by {
                law_redaction_hides_values(a[i], b[i]);
            }
            assert(redact(p)->Array_elements =~= redact(q)->Array_elements);
        },
        (
            Param::Range { lower: l, upper: u, lower_inc: x, upper_inc: y },
            Param::Range { lower: m, upper: v, lower_inc: z, upper_inc: w },
        ) => {
            if l is Some {
                law_redaction_hides_values(*l->0, *m->0);
            }
            if u is Some {
                law_redaction_hides_values(*u->0, *v->0);
            }
        },
        (Param::Composite { fields: a }, Param::Composite { fields: b }) => {
            assert forall|i: int| 0 <= i < a.len() implies redact(#[trigger] a[i]) == redact(
                b[i],
            ) by {
                law_redaction_hides_values(a[i], b[i]);
            }
            assert(redact(p)->Composite_fields =~= redact(q)->Composite_fields);
        },
        _ => {},
    }
}

/// A redacted value keeps its type.
pub proof fn law_redaction_keeps_type(p: Param)
    ensures
        same_type(p, redact(p)),
    decreases p,
{
    match p {
        Param::Array { elements, dimensions } => {
            let r = redact(p)->Array_elements;
            assert forall|i: int| 0 <= i < elements.len() implies same_type(
                #[trigger] elements[i],
                r[i],
            ) by {
                law_redaction_keeps_type(elements[i]);
            }
        },
        Param::Range { lower, upper, lower_inc, upper_inc } => {
            if lower is Some {
                law_redaction_keeps_type(*lower->0);
            }
            if upper is Some {
                law_redaction_keeps_type(*upper->0);
            }
        },
        Param::Composite { fields } => {
            let r = redact(p)->Composite_fields;
            assert forall|i: int| 0 <= i < fields.len() implies same_type(
                #[trigger] fields[i],
                r[i],
            ) by {
                law_redaction_keeps_type(fields[i]);
            }
        },
        _ => {},
    }
}

/// Redacting twice is redacting once.
pub proof fn law_redaction_is_idempotent(p: Param)
    ensures
        redact(redact(p)) == redact(p),
{
    law_redaction_keeps_type(p);
    law_redaction_hides_values(p, redact(p));
}

/// What is left of a value is the empty value of its type, whatever the value
/// was.
pub proof fn law_redacted_values_are_empty(
    b: bool,
    n16: i16,
    n32: i32,
    n64: i64,
    bits32: u32,
    bits64: u64,
    s: Seq<char>,
    v: Seq<u8>,
    days: i32,
)
    ensures
        redact(Param::Null) == Param::Null,
        redact(Param::Bool(b)) == Param::Bool(false),
        redact(Param::Int16(n16)) == Param::Int16(0),
        redact(Param::Int32(n32)) == Param::Int32(0),
        redact(Param::Int64(n64)) == Param::Int64(0),
        redact(Param::Float32(bits32)) == Param::Float32(0),
        redact(Param::Float64(bits64)) == Param::Float64(0),
        redact(Param::Numeric(s)) == Param::Numeric(Seq::empty()),
        redact(Param::Text(s)) == Param::Text(Seq::empty()),
        redact(Param::Bytes(v)) == Param::Bytes(Seq::empty()),
        redact(Param::Date(n32)) == Param::Date(0),
        redact(Param::Time(n64)) == Param::Time(0),
        redact(Param::Timestamp(n64)) == Param::Timestamp(0),
        redact(Param::TimestampTz(n64)) == Param::TimestampTz(0),
        redact(Param::Interval { months: n32, days, microseconds: n64 }) == (Param::Interval {
            months: 0,
            days: 0,
            microseconds: 0,
        }),
        redact(Param::Uuid(v)) == Param::Uuid(Seq::new(16, |i: int| 0u8)),
        redact(Param::Json(s)) == Param::Json(Seq::empty()),
        redact(Param::Unknown { oid: bits32, data: v }) == (Param::Unknown {
            oid: bits32,
            data: Seq::empty(),
        }),
{
}

/// Of a value that is made of others the shape is left, and what is left of
/// each of them stands in its place.
pub proof fn law_redaction_keeps_the_shape(
    elements: Seq<Param>,
    dimensions: Seq<i32>,
    lower: Param,
    upper: Param,
    lower_inc: bool,
    upper_inc: bool,
    i: int,
)
    requires
        0 <= i < elements.len(),
    ensures
        redact(Param::Array { elements, dimensions }) matches Param::Array {
            elements: e,
            dimensions: d,
        } && e.len() == elements.len() && e[i] == redact(elements[i]) && d == dimensions,
        redact(Param::Composite { fields: elements }) matches Param::Composite { fields: f }
            && f.len() == elements.len() && f[i] == redact(elements[i]),
        redact(
            Param::Range {
                lower: Some(Box::new(lower)),
                upper: Some(Box::new(upper)),
                lower_inc,
                upper_inc,
            },
        ) == (Param::Range {
            lower: Some(Box::new(redact(lower))),
            upper: Some(Box::new(redact(upper))),
            lower_inc,
            upper_inc,
        }),
        redact(Param::Range { lower: None, upper: None, lower_inc, upper_inc }) == (Param::Range {
            lower: None,
            upper: None,
            lower_inc,
            upper_inc,
        }),
{
}

} // verus!
