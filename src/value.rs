use vstd::prelude::*;

use crate::sealed::Sealed;

verus! {

/// A stored value together with its runtime type tag, which is the variant.
pub enum Value {
    Bool(bool),
    Char(char),
    I8(i8),
    I16(i16),
    I32(i32),
    I64(i64),
    Isize(isize),
    U8(u8),
    U16(u16),
    U32(u32),
    U64(u64),
    Usize(usize),
    Text(String),
    Bytes(Vec<u8>),
    I32List(Vec<i32>),
    I64List(Vec<i64>),
    U64List(Vec<u64>),
}

/// What a `Value` holds, as mathematical data.
pub ghost enum ValueModel {
    Bool(bool),
    Char(char),
    I8(i8),
    I16(i16),
    I32(i32),
    I64(i64),
    Isize(isize),
    U8(u8),
    U16(u16),
    U32(u32),
    U64(u64),
    Usize(usize),
    Text(Seq<char>),
    Bytes(Seq<u8>),
    I32List(Seq<i32>),
    I64List(Seq<i64>),
    U64List(Seq<u64>),
}

impl View for Value {
    type V = ValueModel;

    open spec fn view(&self) -> ValueModel {
        match self {
            Value::Bool(x) => ValueModel::Bool(*x),
            Value::Char(x) => ValueModel::Char(*x),
            Value::I8(x) => ValueModel::I8(*x),
            Value::I16(x) => ValueModel::I16(*x),
            Value::I32(x) => ValueModel::I32(*x),
            Value::I64(x) => ValueModel::I64(*x),
            Value::Isize(x) => ValueModel::Isize(*x),
            Value::U8(x) => ValueModel::U8(*x),
            Value::U16(x) => ValueModel::U16(*x),
            Value::U32(x) => ValueModel::U32(*x),
            Value::U64(x) => ValueModel::U64(*x),
            Value::Usize(x) => ValueModel::Usize(*x),
            Value::Text(x) => ValueModel::Text(x@),
            Value::Bytes(x) => ValueModel::Bytes(x@),
            Value::I32List(x) => ValueModel::I32List(x@),
            Value::I64List(x) => ValueModel::I64List(x@),
            Value::U64List(x) => ValueModel::U64List(x@),
        }
    }
}

/// A type whose values the cache can hold. Each type is stored under a tag of
/// its own, so a value comes back only under the type it was stored with. The
/// trait is sealed: the types below are all the types that implement it, and
/// no two of them are stored under one variant.
pub trait Storable: View + Sized + Sealed {
    /// How a value of this type, seen through its view, is stored.
    spec fn model(v: Self::V) -> ValueModel;

    /// The tagged form of `self`.
    fn into_value(self) -> (r: Value)
        ensures
            r@ == Self::model(self@),
    ;

    /// A copy of the content of `v`, when `v` was stored from this type.
    fn from_value(v: &Value) -> (r: Option<Self>)
        ensures
            match r {
                Some(x) => Self::model(x@) == v@,
                None => forall|m: Self::V| Self::model(m) != v@,
            },
    ;

    /// Two values of this type are stored alike only if they are the same.
    proof fn lemma_model_injective(a: Self::V, b: Self::V)
        ensures
            Self::model(a) == Self::model(b) ==> a == b,
    ;
}


impl Storable for bool {
    open spec fn model(v: bool) -> ValueModel {
        ValueModel::Bool(v)
    }

    fn into_value(self) -> (r: Value) {
        Value::Bool(self)
    }

    fn from_value(v: &Value) -> (r: Option<bool>) {
        match v {
            Value::Bool(x) => Some(*x),
            _ => None,
        }
    }

    proof fn lemma_model_injective(a: bool, b: bool) {
    }
}

impl Storable for char {
    open spec fn model(v: char) -> ValueModel {
        ValueModel::Char(v)
    }

    fn into_value(self) -> (r: Value) {
        Value::Char(self)
    }

    fn from_value(v: &Value) -> (r: Option<char>) {
        match v {
            Value::Char(x) => Some(*x),
            _ => None,
        }
    }

    proof fn lemma_model_injective(a: char, b: char) {
    }
}

impl Storable for i8 {
    open spec fn model(v: i8) -> ValueModel {
        ValueModel::I8(v)
    }

    fn into_value(self) -> (r: Value) {
        Value::I8(self)
    }

    fn from_value(v: &Value) -> (r: Option<i8>) {
        match v {
            Value::I8(x) => Some(*x),
            _ => None,
        }
    }

    proof fn lemma_model_injective(a: i8, b: i8) {
    }
}

impl Storable for i16 {
    open spec fn model(v: i16) -> ValueModel {
        ValueModel::I16(v)
    }

    fn into_value(self) -> (r: Value) {
        Value::I16(self)
    }

    fn from_value(v: &Value) -> (r: Option<i16>) {
        match v {
            Value::I16(x) => Some(*x),
            _ => None,
        }
    }

    proof fn lemma_model_injective(a: i16, b: i16) {
    }
}

impl Storable for i32 {
    open spec fn model(v: i32) -> ValueModel {
        ValueModel::I32(v)
    }

    fn into_value(self) -> (r: Value) {
        Value::I32(self)
    }

    fn from_value(v: &Value) -> (r: Option<i32>) {
        match v {
            Value::I32(x) => Some(*x),
            _ => None,
        }
    }

    proof fn lemma_model_injective(a: i32, b: i32) {
    }
}

impl Storable for i64 {
    open spec fn model(v: i64) -> ValueModel {
        ValueModel::I64(v)
    }

    fn into_value(self) -> (r: Value) {
        Value::I64(self)
    }

    fn from_value(v: &Value) -> (r: Option<i64>) {
        match v {
            Value::I64(x) => Some(*x),
            _ => None,
        }
    }

    proof fn lemma_model_injective(a: i64, b: i64) {
    }
}

impl Storable for isize {
    open spec fn model(v: isize) -> ValueModel {
        ValueModel::Isize(v)
    }

    fn into_value(self) -> (r: Value) {
        Value::Isize(self)
    }

    fn from_value(v: &Value) -> (r: Option<isize>) {
        match v {
            Value::Isize(x) => Some(*x),
            _ => None,
        }
    }

    proof fn lemma_model_injective(a: isize, b: isize) {
    }
}

impl Storable for u8 {
    open spec fn model(v: u8) -> ValueModel {
        ValueModel::U8(v)
    }

    fn into_value(self) -> (r: Value) {
        Value::U8(self)
    }

    fn from_value(v: &Value) -> (r: Option<u8>) {
        match v {
            Value::U8(x) => Some(*x),
            _ => None,
        }
    }

    proof fn lemma_model_injective(a: u8, b: u8) {
    }
}

impl Storable for u16 {
    open spec fn model(v: u16) -> ValueModel {
        ValueModel::U16(v)
    }

    fn into_value(self) -> (r: Value) {
        Value::U16(self)
    }

    fn from_value(v: &Value) -> (r: Option<u16>) {
        match v {
            Value::U16(x) => Some(*x),
            _ => None,
        }
    }

    proof fn lemma_model_injective(a: u16, b: u16) {
    }
}

impl Storable for u32 {
    open spec fn model(v: u32) -> ValueModel {
        ValueModel::U32(v)
    }

    fn into_value(self) -> (r: Value) {
        Value::U32(self)
    }

    fn from_value(v: &Value) -> (r: Option<u32>) {
        match v {
            Value::U32(x) => Some(*x),
            _ => None,
        }
    }

    proof fn lemma_model_injective(a: u32, b: u32) {
    }
}

impl Storable for u64 {
    open spec fn model(v: u64) -> ValueModel {
        ValueModel::U64(v)
    }

    fn into_value(self) -> (r: Value) {
        Value::U64(self)
    }

    fn from_value(v: &Value) -> (r: Option<u64>) {
        match v {
            Value::U64(x) => Some(*x),
            _ => None,
        }
    }

    proof fn lemma_model_injective(a: u64, b: u64) {
    }
}

impl Storable for usize {
    open spec fn model(v: usize) -> ValueModel {
        ValueModel::Usize(v)
    }

    fn into_value(self) -> (r: Value) {
        Value::Usize(self)
    }

    fn from_value(v: &Value) -> (r: Option<usize>) {
        match v {
            Value::Usize(x) => Some(*x),
            _ => None,
        }
    }

    proof fn lemma_model_injective(a: usize, b: usize) {
    }
}

impl Storable for String {
    open spec fn model(v: Seq<char>) -> ValueModel {
        ValueModel::Text(v)
    }

    fn into_value(self) -> (r: Value) {
        Value::Text(self)
    }

    fn from_value(v: &Value) -> (r: Option<String>) {
        match v {
            Value::Text(x) => Some(x.clone()),
            _ => None,
        }
    }

    proof fn lemma_model_injective(a: Seq<char>, b: Seq<char>) {
    }
}

impl Storable for Vec<u8> {
    open spec fn model(v: Seq<u8>) -> ValueModel {
        ValueModel::Bytes(v)
    }

    fn into_value(self) -> (r: Value) {
        Value::Bytes(self)
    }

    fn from_value(v: &Value) -> (r: Option<Vec<u8>>) {
        match v {
            Value::Bytes(x) => Some(x.clone()),
            _ => None,
        }
    }

    proof fn lemma_model_injective(a: Seq<u8>, b: Seq<u8>) {
    }
}

impl Storable for Vec<i32> {
    open spec fn model(v: Seq<i32>) -> ValueModel {
        ValueModel::I32List(v)
    }

    fn into_value(self) -> (r: Value) {
        Value::I32List(self)
    }

    fn from_value(v: &Value) -> (r: Option<Vec<i32>>) {
        match v {
            Value::I32List(x) => Some(x.clone()),
            _ => None,
        }
    }

    proof fn lemma_model_injective(a: Seq<i32>, b: Seq<i32>) {
    }
}

impl Storable for Vec<i64> {
    open spec fn model(v: Seq<i64>) -> ValueModel {
        ValueModel::I64List(v)
    }

    fn into_value(self) -> (r: Value) {
        Value::I64List(self)
    }

    fn from_value(v: &Value) -> (r: Option<Vec<i64>>) {
        match v {
            Value::I64List(x) => Some(x.clone()),
            _ => None,
        }
    }

    proof fn lemma_model_injective(a: Seq<i64>, b: Seq<i64>) {
    }
}

impl Storable for Vec<u64> {
    open spec fn model(v: Seq<u64>) -> ValueModel {
        ValueModel::U64List(v)
    }

    fn into_value(self) -> (r: Value) {
        Value::U64List(self)
    }

    fn from_value(v: &Value) -> (r: Option<Vec<u64>>) {
        match v {
            Value::U64List(x) => Some(x.clone()),
            _ => None,
        }
    }

    proof fn lemma_model_injective(a: Seq<u64>, b: Seq<u64>) {
    }
}

impl Sealed for bool {}

impl Sealed for char {}

impl Sealed for i8 {}

impl Sealed for i16 {}

impl Sealed for i32 {}

impl Sealed for i64 {}

impl Sealed for isize {}

impl Sealed for u8 {}

impl Sealed for u16 {}

impl Sealed for u32 {}

impl Sealed for u64 {}

impl Sealed for usize {}

impl Sealed for String {}

impl Sealed for Vec<u8> {}

impl Sealed for Vec<i32> {}

impl Sealed for Vec<i64> {}

impl Sealed for Vec<u64> {}

} // verus!
