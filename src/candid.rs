//! The Candid type IR that declarations resolve to. Member and element order
//! is kept as declared: it decides the wire encoding.
use vstd::prelude::*;

verus! {

/// The primitive Candid types.
#[derive(Clone, Copy, Debug, PartialEq, Eq, Structural)]
pub enum Primitive {
    Bool,
    Blob,
    Empty,
    Float32,
    Float64,
    Int,
    Int8,
    Int16,
    Int32,
    Int64,
    Nat,
    Nat8,
    Nat16,
    Nat32,
    Nat64,
    Null,
    Reserved,
    Text,
}

/// A resolved Candid type.
#[derive(Debug)]
pub enum CandidType {
    Primitive(Primitive),
    Array(Box<CandidType>),
    Opt(Box<CandidType>),
    Tuple(Tuple),
    Record(Record),
    TypeAlias(TypeAlias),
    /// A name that is not a primitive: a reference to a type declared elsewhere.
    TypeRef(String),
}

/// A tuple type; `name` is present when a binding declares it.
#[derive(Debug)]
pub struct Tuple {
    pub name: Option<String>,
    pub elems: Vec<CandidType>,
}

/// One named member of a record.
#[derive(Debug)]
pub struct Member {
    pub name: String,
    pub candid_type: CandidType,
}

/// A record type with its members in declaration order.
#[derive(Debug)]
pub struct Record {
    pub name: Option<String>,
    pub members: Vec<Member>,
}

/// A named alias of another type.
#[derive(Debug)]
pub struct TypeAlias {
    pub name: String,
    pub aliased_type: Box<CandidType>,
}

} // verus!
