//! Typed values of the expression language, references into captured
//! traffic, and their mathematical models.

use vstd::prelude::*;

verus! {

/// The type of a value, or of the elements of a `Several`.
#[derive(Clone, Copy, Debug, PartialEq, Eq, Structural)]
pub enum ValueType {
    String,
    Integer,
    Boolean,
}

/// Which side of a captured pair a reference reads.
#[derive(Clone, Copy, Debug, PartialEq, Eq, Structural)]
pub enum PairPart {
    Request,
    Response,
}

/// Which part of a message a reference reads.
#[derive(Clone, Debug, PartialEq, Eq)]
pub enum MessagePart {
    Method,
    Path,
    Version,
    Status,
    Body,
    Header(String),
}

/// Model of a [`MessagePart`].
pub enum MessagePartModel {
    Method,
    Path,
    Version,
    Status,
    Body,
    Header(Seq<char>),
}

impl View for MessagePart {
    type V = MessagePartModel;

    open spec fn view(&self) -> MessagePartModel {
        match self {
            MessagePart::Method => MessagePartModel::Method,
            MessagePart::Path => MessagePartModel::Path,
            MessagePart::Version => MessagePartModel::Version,
            MessagePart::Status => MessagePartModel::Status,
            MessagePart::Body => MessagePartModel::Body,
            MessagePart::Header(h) => MessagePartModel::Header(h@),
        }
    }
}

/// A typed pointer into captured traffic: the send result it reads, the side
/// of the pair, and the part of the message.
#[derive(Clone, Debug, PartialEq, Eq)]
pub struct Reference {
    pub id: usize,
    pub pair_part: PairPart,
    pub message_part: MessagePart,
}

/// Model of a [`Reference`].
pub struct ReferenceModel {
    pub id: usize,
    pub pair_part: PairPart,
    pub message_part: MessagePartModel,
}

impl View for Reference {
    type V = ReferenceModel;

    open spec fn view(&self) -> ReferenceModel {
        ReferenceModel { id: self.id, pair_part: self.pair_part, message_part: self.message_part@ }
    }
}

/// The type of what a reference reads.
pub open spec fn part_type(p: MessagePartModel) -> ValueType {
    match p {
        MessagePartModel::Status => ValueType::Integer,
        _ => ValueType::String,
    }
}

impl Reference {
    /// The type of the values this reference reads.
    pub fn value_type(&self) -> (r: ValueType)
        ensures
            r == part_type(self@.message_part),
    {
        match self.message_part {
            MessagePart::Status => ValueType::Integer,
            _ => ValueType::String,
        }
    }
}

/// One plain value.
#[derive(Clone, Debug, PartialEq, Eq)]
pub enum Scalar {
    String(String),
    Integer(i64),
    Boolean(bool),
}

/// Model of a [`Scalar`].
pub enum ScalarModel {
    String(Seq<char>),
    Integer(i64),
    Boolean(bool),
}

impl View for Scalar {
    type V = ScalarModel;

    open spec fn view(&self) -> ScalarModel {
        match self {
            Scalar::String(s) => ScalarModel::String(s@),
            Scalar::Integer(i) => ScalarModel::Integer(*i),
            Scalar::Boolean(b) => ScalarModel::Boolean(*b),
        }
    }
}

/// The models of a sequence of scalars.
pub open spec fn scalar_views(v: Seq<Scalar>) -> Seq<ScalarModel> {
    v.map_values(|s: Scalar| s@)
}

impl Scalar {
    /// A copy of this scalar.
    pub fn copy(&self) -> (r: Scalar)
        ensures
            r@ == self@,
    {
        match self {
            Scalar::String(s) => Scalar::String(s.clone()),
            Scalar::Integer(i) => Scalar::Integer(*i),
            Scalar::Boolean(b) => Scalar::Boolean(*b),
        }
    }
}

/// Copies a sequence of scalars.
pub fn copy_scalars(v: &Vec<Scalar>) -> (r: Vec<Scalar>)
    ensures
        scalar_views(r@) == scalar_views(v@),
{
    let mut r: Vec<Scalar> = Vec::new();
    let mut i: usize = 0;
    while i < v.len()
        invariant
            i <= v@.len(),
            scalar_views(r@) == scalar_views(v@.subrange(0, i as int)),
        decreases v@.len() - i,
    {
        let ghost before = r@;
        r.push(v[i].copy());
        assert(scalar_views(r@) =~= scalar_views(before).push(v@[i as int]@));
        assert(scalar_views(v@.subrange(0, i as int + 1)) =~= scalar_views(
            v@.subrange(0, i as int),
        ).push(v@[i as int]@));
        i = i + 1;
    }
    assert(v@.subrange(0, v@.len() as int) =~= v@);
    r
}

/// A value of the expression language: a literal, a reference into traffic,
/// the result of an earlier expression, or a sequence of plain values.
#[derive(Clone, Debug, PartialEq, Eq)]
pub enum Value {
    String(String),
    Integer(i64),
    Boolean(bool),
    Reference(Reference),
    Variable(String, ValueType),
    Several(Vec<Scalar>),
}

/// Model of a [`Value`].
pub enum ValueModel {
    String(Seq<char>),
    Integer(i64),
    Boolean(bool),
    Reference(ReferenceModel),
    Variable(Seq<char>, ValueType),
    Several(Seq<ScalarModel>),
}

impl View for Value {
    type V = ValueModel;

    open spec fn view(&self) -> ValueModel {
        match self {
            Value::String(s) => ValueModel::String(s@),
            Value::Integer(i) => ValueModel::Integer(*i),
            Value::Boolean(b) => ValueModel::Boolean(*b),
            Value::Reference(r) => ValueModel::Reference(r@),
            Value::Variable(n, t) => ValueModel::Variable(n@, *t),
            Value::Several(v) => ValueModel::Several(scalar_views(v@)),
        }
    }
}

/// The models of a sequence of values.
pub open spec fn value_views(v: Seq<Value>) -> Seq<ValueModel> {
    v.map_values(|x: Value| x@)
}

/// The plain value a model stands for, if it is one.
pub open spec fn scalar_of(v: ValueModel) -> Option<ScalarModel> {
    match v {
        ValueModel::String(s) => Some(ScalarModel::String(s)),
        ValueModel::Integer(i) => Some(ScalarModel::Integer(i)),
        ValueModel::Boolean(b) => Some(ScalarModel::Boolean(b)),
        _ => None,
    }
}

/// A value that holds one plain value.
pub open spec fn value_of_scalar(s: ScalarModel) -> ValueModel {
    match s {
        ScalarModel::String(t) => ValueModel::String(t),
        ScalarModel::Integer(i) => ValueModel::Integer(i),
        ScalarModel::Boolean(b) => ValueModel::Boolean(b),
    }
}

impl Value {
    /// A copy of this value.
    pub fn copy(&self) -> (r: Value)
        ensures
            r@ == self@,
    {
        match self {
            Value::String(s) => Value::String(s.clone()),
            Value::Integer(i) => Value::Integer(*i),
            Value::Boolean(b) => Value::Boolean(*b),
            Value::Reference(r) => {
                let part = match &r.message_part {
                    MessagePart::Method => MessagePart::Method,
                    MessagePart::Path => MessagePart::Path,
                    MessagePart::Version => MessagePart::Version,
                    MessagePart::Status => MessagePart::Status,
                    MessagePart::Body => MessagePart::Body,
                    MessagePart::Header(h) => MessagePart::Header(h.clone()),
                };
                Value::Reference(Reference { id: r.id, pair_part: r.pair_part, message_part: part })
            },
            Value::Variable(n, t) => Value::Variable(n.clone(), *t),
            Value::Several(v) => Value::Several(copy_scalars(v)),
        }
    }

    /// The plain value this value holds, if it is one.
    pub fn as_scalar(&self) -> (r: Option<Scalar>)
        ensures
            match r {
                Some(s) => scalar_of(self@) == Some(s@),
                None => scalar_of(self@) is None,
            },
    {
        match self {
            Value::String(s) => Some(Scalar::String(s.clone())),
            Value::Integer(i) => Some(Scalar::Integer(*i)),
            Value::Boolean(b) => Some(Scalar::Boolean(*b)),
            _ => None,
        }
    }
}

impl Scalar {
    /// This plain value as a value.
    pub fn into_value(self) -> (r: Value)
        ensures
            r@ == value_of_scalar(self@),
    {
        match self {
            Scalar::String(s) => Value::String(s),
            Scalar::Integer(i) => Value::Integer(i),
            Scalar::Boolean(b) => Value::Boolean(b),
        }
    }
}

} // verus!
