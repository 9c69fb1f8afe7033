//! The static shapes of values.

use vstd::prelude::*;

verus! {

/// One primitive shape that a value can have.
#[derive(Clone, Copy, Debug, PartialEq, Eq, Structural)]
pub enum Shape {
    Boolean,
    Integer,
    Float,
    String,
    Bytes,
    Timestamp,
    Regex,
    Array,
    Object,
    Null,
}

/// The shapes in the order in which a kind lists them.
pub open spec fn shape_at(i: int) -> Shape {
    if i == 0 {
        Shape::Boolean
    } else if i == 1 {
        Shape::Integer
    } else if i == 2 {
        Shape::Float
    } else if i == 3 {
        Shape::String
    } else if i == 4 {
        Shape::Bytes
    } else if i == 5 {
        Shape::Timestamp
    } else if i == 6 {
        Shape::Regex
    } else if i == 7 {
        Shape::Array
    } else if i == 8 {
        Shape::Object
    } else {
        Shape::Null
    }
}

/// The name of a shape.
pub open spec fn shape_name(shape: Shape) -> Seq<char> {
    match shape {
        Shape::Boolean => "boolean"@,
        Shape::Integer => "integer"@,
        Shape::Float => "float"@,
        Shape::String => "string"@,
        Shape::Bytes => "bytes"@,
        Shape::Timestamp => "timestamp"@,
        Shape::Regex => "regex"@,
        Shape::Array => "array"@,
        Shape::Object => "object"@,
        Shape::Null => "null"@,
    }
}

/// The names of the shapes, with `" or "` between one and the next.
pub open spec fn alternatives(shapes: Seq<Shape>) -> Seq<char>
    decreases shapes.len(),
{
    if shapes.len() == 0 {
        Seq::empty()
    } else if shapes.len() == 1 {
        shape_name(shapes[0])
    } else {
        alternatives(shapes.drop_last()) + " or "@ + shape_name(shapes.last())
    }
}

impl Shape {
    /// The shape that stands at place `i` of the order, for `i` below ten.
    pub fn at(i: usize) -> (shape: Shape)
        ensures
            shape == shape_at(i as int),
    {
        if i == 0 {
            Shape::Boolean
        } else if i == 1 {
            Shape::Integer
        } else if i == 2 {
            Shape::Float
        } else if i == 3 {
            Shape::String
        } else if i == 4 {
            Shape::Bytes
        } else if i == 5 {
            Shape::Timestamp
        } else if i == 6 {
            Shape::Regex
        } else if i == 7 {
            Shape::Array
        } else if i == 8 {
            Shape::Object
        } else {
            Shape::Null
        }
    }

    /// The name of the shape.
    pub fn name(&self) -> (name: &'static str)
        ensures
            name@ == shape_name(*self),
    {
        match self {
            Shape::Boolean => "boolean",
            Shape::Integer => "integer",
            Shape::Float => "float",
            Shape::String => "string",
            Shape::Bytes => "bytes",
            Shape::Timestamp => "timestamp",
            Shape::Regex => "regex",
            Shape::Array => "array",
            Shape::Object => "object",
            Shape::Null => "null",
        }
    }
}

/// A set of shapes: every shape that a value may take at some point of a
/// program. A kind is a value; no operation changes one in place.
#[derive(Clone, Copy, Debug, PartialEq, Eq, Structural)]
pub struct Kind {
    boolean: bool,
    integer: bool,
    float: bool,
    string: bool,
    bytes: bool,
    timestamp: bool,
    regex: bool,
    array: bool,
    object: bool,
    null: bool,
}

impl Kind {
    /// Whether `shape` is one of the shapes of this kind.
    pub closed spec fn has(self, shape: Shape) -> bool {
        match shape {
            Shape::Boolean => self.boolean,
            Shape::Integer => self.integer,
            Shape::Float => self.float,
            Shape::String => self.string,
            Shape::Bytes => self.bytes,
            Shape::Timestamp => self.timestamp,
            Shape::Regex => self.regex,
            Shape::Array => self.array,
            Shape::Object => self.object,
            Shape::Null => self.null,
        }
    }

    /// The kind as a mathematical set of shapes.
    pub open spec fn view(self) -> Set<Shape> {
        Set::new(|shape: Shape| self.has(shape))
    }

    /// Two kinds with the same shapes are the same kind.
    pub proof fn lemma_same_shapes(self, other: Kind)
        requires
            forall|shape: Shape| self.has(shape) == other.has(shape),
        ensures
            self == other,
    {
        assert(self.has(Shape::Boolean) == other.has(Shape::Boolean));
        assert(self.has(Shape::Integer) == other.has(Shape::Integer));
        assert(self.has(Shape::Float) == other.has(Shape::Float));
        assert(self.has(Shape::String) == other.has(Shape::String));
        assert(self.has(Shape::Bytes) == other.has(Shape::Bytes));
        assert(self.has(Shape::Timestamp) == other.has(Shape::Timestamp));
        assert(self.has(Shape::Regex) == other.has(Shape::Regex));
        assert(self.has(Shape::Array) == other.has(Shape::Array));
        assert(self.has(Shape::Object) == other.has(Shape::Object));
        assert(self.has(Shape::Null) == other.has(Shape::Null));
    }

    /// The kind without any shape.
    pub closed spec fn none() -> Kind {
        Kind {
            boolean: false,
            integer: false,
            float: false,
            string: false,
            bytes: false,
            timestamp: false,
            regex: false,
            array: false,
            object: false,
            null: false,
        }
    }

    /// The kind of every shape.
    pub closed spec fn all() -> Kind {
        Kind {
            boolean: true,
            integer: true,
            float: true,
            string: true,
            bytes: true,
            timestamp: true,
            regex: true,
            array: true,
            object: true,
            null: true,
        }
    }

    /// The kind of exactly one shape.
    pub closed spec fn only(shape: Shape) -> Kind {
        Kind {
            boolean: shape == Shape::Boolean,
            integer: shape == Shape::Integer,
            float: shape == Shape::Float,
            string: shape == Shape::String,
            bytes: shape == Shape::Bytes,
            timestamp: shape == Shape::Timestamp,
            regex: shape == Shape::Regex,
            array: shape == Shape::Array,
            object: shape == Shape::Object,
            null: shape == Shape::Null,
        }
    }

    /// What `none`, `all` and `only` hold.
    pub broadcast proof fn lemma_constructors(shape: Shape, other: Shape)
        ensures
            !Kind::none().has(other),
            Kind::all().has(other),
            #[trigger] Kind::only(shape).has(other) == (other == shape),
    {
    }

    /// The kind without any shape.
    pub fn empty() -> (kind: Kind)
        ensures
            kind == Kind::none(),
            forall|shape: Shape| !kind.has(shape),
    {
        Kind {
            boolean: false,
            integer: false,
            float: false,
            string: false,
            bytes: false,
            timestamp: false,
            regex: false,
            array: false,
            object: false,
            null: false,
        }
    }

    /// The kind of every shape.
    pub fn any() -> (kind: Kind)
        ensures
            kind == Kind::all(),
            forall|shape: Shape| kind.has(shape),
    {
        Kind {
            boolean: true,
            integer: true,
            float: true,
            string: true,
            bytes: true,
            timestamp: true,
            regex: true,
            array: true,
            object: true,
            null: true,
        }
    }

    /// The kind of exactly one shape.
    pub fn exact(shape: Shape) -> (kind: Kind)
        ensures
            kind == Kind::only(shape),
            forall|other: Shape| kind.has(other) == (other == shape),
    {
        Kind {
            boolean: shape == Shape::Boolean,
            integer: shape == Shape::Integer,
            float: shape == Shape::Float,
            string: shape == Shape::String,
            bytes: shape == Shape::Bytes,
            timestamp: shape == Shape::Timestamp,
            regex: shape == Shape::Regex,
            array: shape == Shape::Array,
            object: shape == Shape::Object,
            null: shape == Shape::Null,
        }
    }

    /// The kind `{boolean}`.
    pub fn boolean() -> (kind: Kind)
        ensures
            kind == Kind::only(Shape::Boolean),
            forall|shape: Shape| kind.has(shape) == (shape == Shape::Boolean),
    {
        Kind::exact(Shape::Boolean)
    }

    /// Whether `shape` is one of the shapes of this kind.
    pub fn contains(&self, shape: Shape) -> (found: bool)
        ensures
            found == self.has(shape),
    {
        match shape {
            Shape::Boolean => self.boolean,
            Shape::Integer => self.integer,
            Shape::Float => self.float,
            Shape::String => self.string,
            Shape::Bytes => self.bytes,
            Shape::Timestamp => self.timestamp,
            Shape::Regex => self.regex,
            Shape::Array => self.array,
            Shape::Object => self.object,
            Shape::Null => self.null,
        }
    }

    /// The shapes of either kind.
    pub fn union(&self, other: &Kind) -> (kind: Kind)
        ensures
            forall|shape: Shape| kind.has(shape) == (self.has(shape) || other.has(shape)),
    {
        Kind {
            boolean: self.boolean || other.boolean,
            integer: self.integer || other.integer,
            float: self.float || other.float,
            string: self.string || other.string,
            bytes: self.bytes || other.bytes,
            timestamp: self.timestamp || other.timestamp,
            regex: self.regex || other.regex,
            array: self.array || other.array,
            object: self.object || other.object,
            null: self.null || other.null,
        }
    }

    /// The shapes of both kinds.
    pub fn intersection(&self, other: &Kind) -> (kind: Kind)
        ensures
            forall|shape: Shape| kind.has(shape) == (self.has(shape) && other.has(shape)),
    {
        Kind {
            boolean: self.boolean && other.boolean,
            integer: self.integer && other.integer,
            float: self.float && other.float,
            string: self.string && other.string,
            bytes: self.bytes && other.bytes,
            timestamp: self.timestamp && other.timestamp,
            regex: self.regex && other.regex,
            array: self.array && other.array,
            object: self.object && other.object,
            null: self.null && other.null,
        }
    }

    /// Whether every shape of this kind is a shape of `other`.
    pub fn is_subset(&self, other: &Kind) -> (within: bool)
        ensures
            within == (forall|shape: Shape| self.has(shape) ==> other.has(shape)),
    {
        let within = (!self.boolean || other.boolean) && (!self.integer || other.integer) && (
        !self.float || other.float) && (!self.string || other.string) && (!self.bytes
            || other.bytes) && (!self.timestamp || other.timestamp) && (!self.regex
            || other.regex) && (!self.array || other.array) && (!self.object || other.object)
            && (!self.null || other.null);
        proof {
            if !within {
                assert(!(self.has(Shape::Boolean) ==> other.has(Shape::Boolean)) || !(self.has(
                    Shape::Integer,
                ) ==> other.has(Shape::Integer)) || !(self.has(Shape::Float) ==> other.has(
                    Shape::Float,
                )) || !(self.has(Shape::String) ==> other.has(Shape::String)) || !(self.has(
                    Shape::Bytes,
                ) ==> other.has(Shape::Bytes)) || !(self.has(Shape::Timestamp) ==> other.has(
                    Shape::Timestamp,
                )) || !(self.has(Shape::Regex) ==> other.has(Shape::Regex)) || !(self.has(
                    Shape::Array,
                ) ==> other.has(Shape::Array)) || !(self.has(Shape::Object) ==> other.has(
                    Shape::Object,
                )) || !(self.has(Shape::Null) ==> other.has(Shape::Null)));
            }
        }
        within
    }

    /// Whether the kind has no shape.
    pub fn is_empty(&self) -> (none: bool)
        ensures
            none == (forall|shape: Shape| !self.has(shape)),
    {
        let none = !(self.boolean || self.integer || self.float || self.string || self.bytes
            || self.timestamp || self.regex || self.array || self.object || self.null);
        proof {
            if !none {
                assert(self.has(Shape::Boolean) || self.has(Shape::Integer) || self.has(
                    Shape::Float,
                ) || self.has(Shape::String) || self.has(Shape::Bytes) || self.has(
                    Shape::Timestamp,
                ) || self.has(Shape::Regex) || self.has(Shape::Array) || self.has(Shape::Object)
                    || self.has(Shape::Null));
            }
        }
        none
    }

    /// Whether the kind is exactly `{boolean}`.
    pub fn is_boolean(&self) -> (only: bool)
        ensures
            only == (forall|shape: Shape| self.has(shape) == (shape == Shape::Boolean)),
    {
        let only = self.boolean && !(self.integer || self.float || self.string || self.bytes
            || self.timestamp || self.regex || self.array || self.object || self.null);
        proof {
            if !only {
                assert(!self.has(Shape::Boolean) || self.has(Shape::Integer) || self.has(
                    Shape::Float,
                ) || self.has(Shape::String) || self.has(Shape::Bytes) || self.has(
                    Shape::Timestamp,
                ) || self.has(Shape::Regex) || self.has(Shape::Array) || self.has(Shape::Object)
                    || self.has(Shape::Null));
            }
        }
        only
    }
    /// The shapes of the kind among the first `n` of the order, in order.
    pub open spec fn listed(self, n: nat) -> Seq<Shape>
        decreases n,
    {
        if n == 0 {
            Seq::empty()
        } else if self.has(shape_at(n - 1)) {
            self.listed((n - 1) as nat).push(shape_at(n - 1))
        } else {
            self.listed((n - 1) as nat)
        }
    }

    /// The kind in words: `any` for the kind of every shape, `never` for
    /// the kind of none, else the names of its shapes as alternatives.
    pub open spec fn text(self) -> Seq<char> {
        if self == Kind::all() {
            "any"@
        } else if self == Kind::none() {
            "never"@
        } else {
            alternatives(self.listed(10))
        }
    }

    /// The kind in words.
    pub fn describe(&self) -> (text: String)
        ensures
            text@ == self.text(),
    {
        if self.is_empty() {
            proof {
                self.lemma_same_shapes(Kind::none());
            }
            return "never".to_string();
        }
        if Kind::any().is_subset(self) {
            proof {
                self.lemma_same_shapes(Kind::all());
            }
            return "any".to_string();
        }
        let mut text = String::new();
        let mut count: usize = 0;
        let mut i: usize = 0;
        while i < 10
            invariant
                i <= 10,
                count <= i,
                count == self.listed(i as nat).len(),
                text@ == alternatives(self.listed(i as nat)),
            decreases 10 - i,
        {
            let shape = Shape::at(i);
            if self.contains(shape) {
                let ghost before = self.listed(i as nat);
                assert(before.push(shape).drop_last() =~= before);
                if count > 0 {
                    text.append(" or ");
                } else {
                    assert(Seq::<char>::empty() + shape_name(shape) =~= shape_name(shape));
                }
                text.append(shape.name());
                count += 1;
            }
            i += 1;
        }
        text
    }
}

} // verus!
