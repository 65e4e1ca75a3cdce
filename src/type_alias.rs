//! Type alias declarations: `name = Alias[T]`, plain or annotated.
use vstd::prelude::*;
use crate::ast::{assigned_value, binding_name, subscript_of, Stmt};
use crate::candid::TypeAlias;
use crate::errors::{Error, ErrorKind};
use crate::resolver::{invalid_type, resolves_to, to_candid_type, valid_type_expr};

verus! {

/// The aliased expression of a statement `name = Alias[expr]`. A binding of
/// any other value is no alias.
pub open spec fn alias_slice(s: Stmt) -> Option<crate::ast::Expr> {
    match assigned_value(s) {
        Some(v) => subscript_of(v, "Alias"@),
        None => None,
    }
}

pub open spec fn is_alias_decl(s: Stmt) -> bool {
    alias_slice(s) is Some
}

/// The diagnostics of an alias declaration: it must bind a name, and the
/// aliased expression must be a type.
pub open spec fn alias_errors(s: Stmt) -> Seq<Error> {
    match alias_slice(s) {
        None => Seq::empty(),
        Some(x) => match binding_name(s) {
            None => seq![Error { kind: ErrorKind::InvalidName, location: s.location }],
            Some(_) => if valid_type_expr(x) {
                Seq::empty()
            } else {
                seq![invalid_type(s.location)]
            },
        },
    }
}

/// Whether `a` is the alias that statement `s` declares.
pub open spec fn alias_decl_matches(s: Stmt, a: TypeAlias) -> bool {
    &&& alias_slice(s) matches Some(x)
    &&& binding_name(s) == Some(a.name@)
    &&& resolves_to(x, *a.aliased_type)
}

/// The alias a statement declares, if it declares one.
pub fn as_type_alias(s: &Stmt) -> (r: Result<Option<TypeAlias>, Vec<Error>>)
    ensures
        !is_alias_decl(*s) ==> r matches Ok(None),
        is_alias_decl(*s) ==> {
            &&& r is Err <==> alias_errors(*s).len() > 0
            &&& r matches Err(es) ==> es@ == alias_errors(*s)
            &&& r matches Ok(o) ==> o matches Some(a) && alias_decl_matches(*s, a)
        },
{
    let value = match s.get_assign_value() {
        Some(v) => v,
        None => return Ok(None),
    };
    let enclosed = match crate::ast::get_subscript_slice_for(value, "Alias") {
        Some(x) => x,
        None => return Ok(None),
    };
    let name = match s.get_name() {
        Some(n) => n,
        None => return Err(vec![Error::new(ErrorKind::InvalidName, s.location)]),
    };
    match to_candid_type(enclosed, s.location) {
        Ok(t) => Ok(Some(TypeAlias { name, aliased_type: Box::new(t) })),
        Err(err) => Err(vec![err]),
    }
}

} // verus!
