//! Typed configuration values and the tag that records where one came from.

use vstd::prelude::*;
use vstd::string::*;

verus! {

/// What a configuration value holds. A float is kept as the bit pattern of its
/// 64-bit representation, so that values can be compared exactly.
#[derive(Debug, PartialEq, Eq)]
pub enum ValueKind {
    Boolean(bool),
    Integer(i64),
    Float(u64),
    String(String),
}

/// The mathematical content of a [`ValueKind`].
pub ghost enum KindView {
    Boolean(bool),
    Integer(i64),
    Float(u64),
    String(Seq<char>),
}

impl View for ValueKind {
    type V = KindView;

    open spec fn view(&self) -> KindView {
        match *self {
            ValueKind::Boolean(b) => KindView::Boolean(b),
            ValueKind::Integer(i) => KindView::Integer(i),
            ValueKind::Float(bits) => KindView::Float(bits),
            ValueKind::String(s) => KindView::String(s@),
        }
    }
}

impl Clone for ValueKind {
    fn clone(&self) -> (r: Self)
        ensures
            r@ == self@,
    {
        match self {
            ValueKind::Boolean(b) => ValueKind::Boolean(*b),
            ValueKind::Integer(i) => ValueKind::Integer(*i),
            ValueKind::Float(bits) => ValueKind::Float(*bits),
            ValueKind::String(s) => ValueKind::String(s.clone()),
        }
    }
}

/// A typed value together with the name of the origin it was read from.
#[derive(Debug, PartialEq, Eq)]
pub struct Value {
    pub origin: Option<String>,
    pub kind: ValueKind,
}

/// The mathematical content of a [`Value`].
pub ghost struct ValueView {
    pub origin: Option<Seq<char>>,
    pub kind: KindView,
}

impl View for Value {
    type V = ValueView;

    open spec fn view(&self) -> ValueView {
        ValueView {
            origin: match self.origin {
                Some(o) => Some(o@),
                None => None,
            },
            kind: self.kind@,
        }
    }
}

impl Clone for Value {
    fn clone(&self) -> (r: Self)
        ensures
            r@ == self@,
    {
        let origin = match &self.origin {
            Some(o) => Some(o.clone()),
            None => None,
        };
        Value { origin, kind: self.kind.clone() }
    }
}

impl Value {
    /// A value of the given kind, tagged with its origin where one is named.
    pub fn new(origin: Option<&str>, kind: ValueKind) -> (r: Value)
        ensures
            r@ == (ValueView {
                origin: match origin {
                    Some(o) => Some(o@),
                    None => None,
                },
                kind: kind@,
            }),
    {
        let origin = match origin {
            Some(o) => Some(String::from_str(o)),
            None => None,
        };
        Value { origin, kind }
    }
}

} // verus!
