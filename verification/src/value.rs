//! Runtime values.

use vstd::prelude::*;
use crate::kind::{Kind, Shape};
use crate::text::{i64_to_string, signed_decimal};

verus! {

/// A value that an expression evaluates to or that an event holds in a
/// field. A float is held as the bit pattern of its binary64 form, a
/// timestamp as a count of nanoseconds since the epoch.
#[derive(Debug, PartialEq)]
pub enum Value {
    Boolean(bool),
    Integer(i64),
    Float(u64),
    String(String),
    Bytes(Vec<u8>),
    Timestamp(i64),
    Regex(String),
    Array(Vec<Value>),
    Object(Vec<(String, Value)>),
    Null,
}

/// The mathematical content of a [`Value`].
pub enum ValueView {
    Boolean(bool),
    Integer(i64),
    Float(u64),
    String(Seq<char>),
    Bytes(Seq<u8>),
    Timestamp(i64),
    Regex(Seq<char>),
    Array(Seq<ValueView>),
    Object(Seq<(Seq<char>, ValueView)>),
    Null,
}

impl ValueView {
    /// The shape of the value.
    pub open spec fn shape(self) -> Shape {
        match self {
            ValueView::Boolean(_) => Shape::Boolean,
            ValueView::Integer(_) => Shape::Integer,
            ValueView::Float(_) => Shape::Float,
            ValueView::String(_) => Shape::String,
            ValueView::Bytes(_) => Shape::Bytes,
            ValueView::Timestamp(_) => Shape::Timestamp,
            ValueView::Regex(_) => Shape::Regex,
            ValueView::Array(_) => Shape::Array,
            ValueView::Object(_) => Shape::Object,
            ValueView::Null => Shape::Null,
        }
    }
}

/// Why a value could not be used as asked.
#[derive(Clone, Copy, Debug, PartialEq, Eq, Structural)]
pub enum ValueError {
    /// A value of shape `got` stood where one of shape `expected` was needed.
    Expected { expected: Shape, got: Shape },
}

impl View for Value {
    type V = ValueView;

    open spec fn view(&self) -> ValueView
        decreases self,
    {
        match self {
            Value::Boolean(b) => ValueView::Boolean(*b),
            Value::Integer(i) => ValueView::Integer(*i),
            Value::Float(bits) => ValueView::Float(*bits),
            Value::String(s) => ValueView::String(s@),
            Value::Bytes(b) => ValueView::Bytes(b@),
            Value::Timestamp(t) => ValueView::Timestamp(*t),
            Value::Regex(s) => ValueView::Regex(s@),
            Value::Array(items) => ValueView::Array(
                Seq::new(
                    items@.len(),
                    |i: int|
                        if 0 <= i < items@.len() {
                            items@[i].view()
                        } else {
                            ValueView::Null
                        },
                ),
            ),
            Value::Object(members) => ValueView::Object(
                Seq::new(
                    members@.len(),
                    |i: int|
                        if 0 <= i < members@.len() {
                            (members@[i].0@, members@[i].1.view())
                        } else {
                            (Seq::empty(), ValueView::Null)
                        },
                ),
            ),
            Value::Null => ValueView::Null,
        }
    }
}

impl Clone for Value {
    /// A value with the same content.
    fn clone(&self) -> (copy: Value)
        ensures
            copy@ == self@,
        decreases self,
    {
        match self {
            Value::Boolean(b) => Value::Boolean(*b),
            Value::Integer(i) => Value::Integer(*i),
            Value::Float(bits) => Value::Float(*bits),
            Value::String(s) => Value::String(s.clone()),
            Value::Bytes(b) => Value::Bytes(b.clone()),
            Value::Timestamp(t) => Value::Timestamp(*t),
            Value::Regex(s) => Value::Regex(s.clone()),
            Value::Array(items) => {
                let mut copies: Vec<Value> = Vec::new();
                let mut i: usize = 0;
                while i < items.len()
                    invariant
                        i <= items.len(),
                        copies.len() == i,
                        self is Array,
                        self->Array_0 == *items,
                        forall|j: int| 0 <= j < i ==> copies@[j]@ == items@[j]@,
                    decreases items.len() - i,
                {
                    assert(decreases_to!(*items => (*items)[i as int]));
                    assert(decreases_to!(*self => self->Array_0));
                    copies.push(items[i].clone());
                    i += 1;
                }
                let copy = Value::Array(copies);
                assert(copy@->Array_0 =~= self@->Array_0);
                copy
            },
            Value::Object(members) => {
                let mut copies: Vec<(String, Value)> = Vec::new();
                let mut i: usize = 0;
                while i < members.len()
                    invariant
                        i <= members.len(),
                        copies.len() == i,
                        self is Object,
                        self->Object_0 == *members,
                        forall|j: int|
                            0 <= j < i ==> copies@[j].0@ == members@[j].0@ && copies@[j].1@
                                == members@[j].1@,
                    decreases members.len() - i,
                {
                    assert(decreases_to!(*members => (*members)[i as int]));
                    assert(decreases_to!((*members)[i as int] => (*members)[i as int].1));
                    assert(decreases_to!(*self => self->Object_0));
                    let name = members[i].0.clone();
                    let value = members[i].1.clone();
                    copies.push((name, value));
                    i += 1;
                }
                let copy = Value::Object(copies);
                assert(copy@->Object_0 =~= self@->Object_0);
                copy
            },
            Value::Null => Value::Null,
        }
    }
}

impl Value {
    /// The shape of this value.
    pub fn shape(&self) -> (shape: Shape)
        ensures
            shape == self@.shape(),
    {
        match self {
            Value::Boolean(_) => Shape::Boolean,
            Value::Integer(_) => Shape::Integer,
            Value::Float(_) => Shape::Float,
            Value::String(_) => Shape::String,
            Value::Bytes(_) => Shape::Bytes,
            Value::Timestamp(_) => Shape::Timestamp,
            Value::Regex(_) => Shape::Regex,
            Value::Array(_) => Shape::Array,
            Value::Object(_) => Shape::Object,
            Value::Null => Shape::Null,
        }
    }

    /// The kind that holds the shape of this value and no other.
    pub fn kind(&self) -> (kind: Kind)
        ensures
            forall|shape: Shape| kind.has(shape) == (shape == self@.shape()),
    {
        Kind::exact(self.shape())
    }

    /// The value as text, for a transform that reads a field as text.
    pub fn to_string_lossy(&self) -> (text: Option<String>)
        ensures
            match text {
                Some(text) => lossy_text(self@) == Some(text@),
                None => lossy_text(self@) is None,
            },
    {
        match self {
            Value::Boolean(b) => Some(
                if *b {
                    "true".to_string()
                } else {
                    "false".to_string()
                },
            ),
            Value::Integer(i) => Some(i64_to_string(*i)),
            Value::String(s) => Some(s.clone()),
            Value::Bytes(b) => Some(from_utf8_lossy(b)),
            Value::Timestamp(t) => Some(timestamp_text(*t)),
            Value::Regex(s) => Some(s.clone()),
            Value::Null => Some("<null>".to_string()),
            _ => None,
        }
    }

    /// The boolean that this value is, or the mismatch where it is none.
    pub fn try_boolean(&self) -> (outcome: Result<bool, ValueError>)
        ensures
            outcome == try_boolean_spec(self@),
    {
        match self {
            Value::Boolean(b) => Ok(*b),
            _ => Err(ValueError::Expected { expected: Shape::Boolean, got: self.shape() }),
        }
    }
}

/// The text that `String::from_utf8_lossy` makes of a sequence of bytes:
/// the text that the bytes encode, with a replacement character in the
/// place of each part that encodes none.
pub uninterp spec fn utf8_lossy(bytes: Seq<u8>) -> Seq<char>;

/// The text of a sequence of bytes.
///
/// Trusted: this is `String::from_utf8_lossy` of the standard library,
/// which depends on the bytes alone.
#[verifier::external_body]
fn from_utf8_lossy(bytes: &Vec<u8>) -> (text: String)
    ensures
        text@ == utf8_lossy(bytes@),
{
    String::from_utf8_lossy(bytes).into_owned()
}

/// The date and time of a timestamp, written as RFC 3339 asks, in UTC
/// with a `Z` behind it, and with as many digits of the second's
/// fraction, in groups of three, as the timestamp needs.
pub uninterp spec fn rfc3339_of(nanos: i64) -> Seq<char>;

/// The date and time of a timestamp as text.
///
/// Trusted: this is `DateTime::to_rfc3339_opts` of chrono, with
/// `SecondsFormat::AutoSi` and `Z` for UTC, on the date and time that
/// `DateTime::from_timestamp_nanos` makes of the count of nanoseconds. It
/// depends on the count alone, and every count is in range.
#[verifier::external_body]
fn timestamp_text(nanos: i64) -> (text: String)
    ensures
        text@ == rfc3339_of(nanos),
{
    chrono::DateTime::from_timestamp_nanos(nanos).to_rfc3339_opts(
        chrono::SecondsFormat::AutoSi,
        true,
    )
}

/// The text that stands for a value where a transform reads a field as
/// text. A float, an array and an object have none.
pub open spec fn lossy_text(value: ValueView) -> Option<Seq<char>> {
    match value {
        ValueView::Boolean(b) => Some(
            if b {
                "true"@
            } else {
                "false"@
            },
        ),
        ValueView::Integer(i) => Some(signed_decimal(i as int)),
        ValueView::String(s) => Some(s),
        ValueView::Bytes(b) => Some(utf8_lossy(b)),
        ValueView::Timestamp(t) => Some(rfc3339_of(t)),
        ValueView::Regex(s) => Some(s),
        ValueView::Null => Some("<null>"@),
        _ => None,
    }
}

/// The boolean that a value is, or the mismatch where it is none.
pub open spec fn try_boolean_spec(value: ValueView) -> Result<bool, ValueError> {
    match value {
        ValueView::Boolean(b) => Ok(b),
        _ => Err(ValueError::Expected { expected: Shape::Boolean, got: value.shape() }),
    }
}

} // verus!
