//! Resolution of one type expression into one Candid type.
use vstd::prelude::*;
use crate::ast::{is_name, is_named, Expr, Location};
use crate::candid::{CandidType, Primitive, Tuple};
use crate::errors::{Error, ErrorKind};

verus! {

/// The primitive a bare identifier names, if it names one.
pub open spec fn primitive_of(n: Seq<char>) -> Option<Primitive> {
    if n == "int"@ {
        Some(Primitive::Int)
    } else if n == "int64"@ {
        Some(Primitive::Int64)
    } else if n == "int32"@ {
        Some(Primitive::Int32)
    } else if n == "int16"@ {
        Some(Primitive::Int16)
    } else if n == "int8"@ {
        Some(Primitive::Int8)
    } else if n == "nat"@ {
        Some(Primitive::Nat)
    } else if n == "nat64"@ {
        Some(Primitive::Nat64)
    } else if n == "nat32"@ {
        Some(Primitive::Nat32)
    } else if n == "nat16"@ {
        Some(Primitive::Nat16)
    } else if n == "nat8"@ {
        Some(Primitive::Nat8)
    } else if n == "float64"@ {
        Some(Primitive::Float64)
    } else if n == "float32"@ {
        Some(Primitive::Float32)
    } else if n == "bool"@ {
        Some(Primitive::Bool)
    } else if n == "str"@ || n == "text"@ {
        Some(Primitive::Text)
    } else if n == "blob"@ {
        Some(Primitive::Blob)
    } else if n == "reserved"@ {
        Some(Primitive::Reserved)
    } else if n == "empty"@ {
        Some(Primitive::Empty)
    } else if n == "null"@ {
        Some(Primitive::Null)
    } else {
        None
    }
}

/// The members of a `Tuple[...]` slice: the elements of a tuple slice, or the
/// slice itself as the one member.
pub open spec fn tuple_members(slice: Expr) -> Seq<Expr> {
    match slice {
        Expr::Tuple(elts) => elts@,
        _ => seq![slice],
    }
}

/// Whether `e` has a shape that denotes a type.
pub open spec fn valid_type_expr(e: Expr) -> bool
    decreases e,
{
    match e {
        Expr::Name(_) => true,
        Expr::Subscript { value, slice } => {
            if is_name(*value, "Opt"@) || is_name(*value, "Vec"@) {
                valid_type_expr(*slice)
            } else if is_name(*value, "Tuple"@) {
                match *slice {
                    Expr::Tuple(elts) => forall|i: int|
                        0 <= i < elts.len() ==> valid_type_expr(#[trigger] elts[i]),
                    _ => valid_type_expr(*slice),
                }
            } else {
                false
            }
        },
        _ => false,
    }
}

/// Whether `t` is the type that `e` denotes.
pub open spec fn resolves_to(e: Expr, t: CandidType) -> bool
    decreases e,
{
    match e {
        Expr::Name(n) => match primitive_of(n@) {
            Some(p) => t == CandidType::Primitive(p),
            None => t matches CandidType::TypeRef(r) && r@ == n@,
        },
        Expr::Subscript { value, slice } => {
            if is_name(*value, "Opt"@) {
                t matches CandidType::Opt(inner) && resolves_to(*slice, *inner)
            } else if is_name(*value, "Vec"@) {
                t matches CandidType::Array(inner) && resolves_to(*slice, *inner)
            } else if is_name(*value, "Tuple"@) {
                &&& t matches CandidType::Tuple(tup)
                &&& tup.name is None
                &&& match *slice {
                    Expr::Tuple(elts) => {
                        &&& tup.elems.len() == elts.len()
                        &&& forall|i: int|
                            0 <= i < elts.len() ==> resolves_to(
                                #[trigger] elts[i],
                                tup.elems[i],
                            )
                    },
                    _ => tup.elems.len() == 1 && resolves_to(*slice, tup.elems[0]),
                }
            } else {
                false
            }
        },
        _ => false,
    }
}

/// The diagnostic for a type expression of an unsupported shape.
pub open spec fn invalid_type(loc: Location) -> Error {
    Error { kind: ErrorKind::InvalidTypeExpression, location: loc }
}

fn eq_str(s: &String, lit: &str) -> (r: bool)
    ensures
        r == (s@ == lit@),
{
    *s == String::from_str(lit)
}

/// The primitive a bare identifier names, if it names one.
pub fn lookup_primitive(n: &String) -> (r: Option<Primitive>)
    ensures
        r == primitive_of(n@),
{
    if eq_str(n, "int") {
        Some(Primitive::Int)
    } else if eq_str(n, "int64") {
        Some(Primitive::Int64)
    } else if eq_str(n, "int32") {
        Some(Primitive::Int32)
    } else if eq_str(n, "int16") {
        Some(Primitive::Int16)
    } else if eq_str(n, "int8") {
        Some(Primitive::Int8)
    } else if eq_str(n, "nat") {
        Some(Primitive::Nat)
    } else if eq_str(n, "nat64") {
        Some(Primitive::Nat64)
    } else if eq_str(n, "nat32") {
        Some(Primitive::Nat32)
    } else if eq_str(n, "nat16") {
        Some(Primitive::Nat16)
    } else if eq_str(n, "nat8") {
        Some(Primitive::Nat8)
    } else if eq_str(n, "float64") {
        Some(Primitive::Float64)
    } else if eq_str(n, "float32") {
        Some(Primitive::Float32)
    } else if eq_str(n, "bool") {
        Some(Primitive::Bool)
    } else if eq_str(n, "str") || eq_str(n, "text") {
        Some(Primitive::Text)
    } else if eq_str(n, "blob") {
        Some(Primitive::Blob)
    } else if eq_str(n, "reserved") {
        Some(Primitive::Reserved)
    } else if eq_str(n, "empty") {
        Some(Primitive::Empty)
    } else if eq_str(n, "null") {
        Some(Primitive::Null)
    } else {
        None
    }
}

/// Resolves a type expression into the Candid type it denotes; an expression
/// of an unsupported shape gives one diagnostic at `loc`.
#[verifier::loop_isolation(false)]
pub fn to_candid_type(e: &Expr, loc: Location) -> (r: Result<CandidType, Error>)
    ensures
        r is Ok <==> valid_type_expr(*e),
        r matches Ok(t) ==> resolves_to(*e, t),
        r matches Err(err) ==> err == invalid_type(loc),
    decreases e,
{
    match e {
        Expr::Name(n) => match lookup_primitive(n) {
            Some(p) => Ok(CandidType::Primitive(p)),
            None => Ok(CandidType::TypeRef(n.clone())),
        },
        Expr::Subscript { value, slice } => {
            if is_named(value, "Opt") {
                match to_candid_type(slice, loc) {
                    Ok(t) => Ok(CandidType::Opt(Box::new(t))),
                    Err(err) => Err(err),
                }
            } else if is_named(value, "Vec") {
                match to_candid_type(slice, loc) {
                    Ok(t) => Ok(CandidType::Array(Box::new(t))),
                    Err(err) => Err(err),
                }
            } else if is_named(value, "Tuple") {
                match &**slice {
                    Expr::Tuple(elts) => {
                        let mut elems: Vec<CandidType> = Vec::new();
                        let mut i: usize = 0;
                        while i < elts.len()
                            invariant
                                i <= elts.len(),
                                elems@.len() == i,
                                forall|k: int| 0 <= k < i ==> valid_type_expr(#[trigger] elts@[k]),
                                forall|k: int|
                                    0 <= k < i ==> resolves_to(#[trigger] elts@[k], elems@[k]),
                            decreases elts.len() - i,
                        {
                            proof {
                                vstd::std_specs::vec::axiom_vec_index_decreases(*elts, i as int);
                            }
                            match to_candid_type(&elts[i], loc) {
                                Ok(t) => elems.push(t),
                                Err(err) => {
                                    assert(!valid_type_expr(elts@[i as int]));
                                    return Err(err);
                                },
                            }
                            i = i + 1;
                        }
                        Ok(CandidType::Tuple(Tuple { name: None, elems }))
                    },
                    _ => match to_candid_type(slice, loc) {
                        Ok(t) => Ok(CandidType::Tuple(Tuple { name: None, elems: vec![t] })),
                        Err(err) => Err(err),
                    },
                }
            } else {
                Err(Error::new(ErrorKind::InvalidTypeExpression, loc))
            }
        },
        _ => Err(Error::new(ErrorKind::InvalidTypeExpression, loc)),
    }
}

} // verus!
