//! Tuple declarations: `name = Tuple[T1, ..., Tn]`.
use vstd::prelude::*;
use crate::ast::{assigned_value, binding_name, subscript_of, Expr, Location, Stmt, StmtKind};
use crate::candid::{CandidType, Tuple};
use crate::errors::{all_ok, collect_results, errs_of, Error, ErrorKind};
use crate::resolver::{invalid_type, resolves_to, to_candid_type, tuple_members, valid_type_expr};
use crate::source_map::{name_view, SourceMapped};

verus! {

/// One diagnostic at `loc` for each member of `ms` whose shape is not a type.
pub open spec fn member_errors(ms: Seq<Expr>, loc: Location) -> Seq<Error>
    decreases ms.len(),
{
    if ms.len() == 0 {
        Seq::empty()
    } else {
        member_errors(ms.drop_last(), loc) + if valid_type_expr(ms.last()) {
            Seq::empty()
        } else {
            seq![invalid_type(loc)]
        }
    }
}

/// Whether `t` is the tuple with members `ms` and name `name`.
pub open spec fn tuple_matches(ms: Seq<Expr>, name: Option<Seq<char>>, t: Tuple) -> bool {
    &&& name_view(t.name) == name
    &&& t.elems.len() == ms.len()
    &&& forall|i: int| 0 <= i < ms.len() ==> resolves_to(#[trigger] ms[i], t.elems[i])
}

/// The expression a statement binds or states: the value of an assignment,
/// or the expression of an expression statement.
pub open spec fn stated_value(s: Stmt) -> Option<Expr> {
    match s.kind {
        StmtKind::Expr(v) => Some(v),
        _ => assigned_value(s),
    }
}

/// The slice of a statement that declares a tuple type.
pub open spec fn tuple_slice(s: Stmt) -> Option<Expr> {
    match stated_value(s) {
        Some(v) => subscript_of(v, "Tuple"@),
        None => None,
    }
}

pub open spec fn is_tuple_decl(s: Stmt) -> bool {
    tuple_slice(s) is Some
}

/// The diagnostics of a tuple declaration: it must bind a name, and each
/// member must be a type.
pub open spec fn tuple_errors(s: Stmt) -> Seq<Error> {
    match tuple_slice(s) {
        None => Seq::empty(),
        Some(slice) => match binding_name(s) {
            None => seq![Error { kind: ErrorKind::InvalidName, location: s.location }],
            Some(_) => member_errors(tuple_members(slice), s.location),
        },
    }
}

/// Whether `t` is the tuple type that statement `s` declares.
pub open spec fn tuple_decl_matches(s: Stmt, t: Tuple) -> bool {
    &&& tuple_slice(s) matches Some(slice)
    &&& binding_name(s) is Some
    &&& tuple_matches(tuple_members(slice), binding_name(s), t)
}

/// The member diagnostics are empty exactly when every member is a type.
pub proof fn lemma_member_errors_empty(ms: Seq<Expr>, loc: Location)
    ensures
        member_errors(ms, loc).len() == 0 <==> forall|i: int|
            0 <= i < ms.len() ==> valid_type_expr(#[trigger] ms[i]),
    decreases ms.len(),
{
    if ms.len() > 0 {
        lemma_member_errors_empty(ms.drop_last(), loc);
        if forall|i: int| 0 <= i < ms.len() ==> valid_type_expr(#[trigger] ms[i]) {
            assert forall|i: int| 0 <= i < ms.len() - 1 implies valid_type_expr(
                #[trigger] ms.drop_last()[i],
            ) by {
                assert(ms.drop_last()[i] == ms[i]);
            }
            assert(valid_type_expr(ms[ms.len() - 1]));
        } else {
            let k = choose|k: int| 0 <= k < ms.len() && !valid_type_expr(#[trigger] ms[k]);
            if k < ms.len() - 1 {
                assert(ms.drop_last()[k] == ms[k]);
            }
        }
    }
}

fn resolve_member(e: &Expr, loc: Location) -> (r: Result<CandidType, Vec<Error>>)
    ensures
        r is Ok <==> valid_type_expr(*e),
        r matches Ok(t) ==> resolves_to(*e, t),
        r matches Err(es) ==> es@ == seq![invalid_type(loc)],
{
    match to_candid_type(e, loc) {
        Ok(t) => Ok(t),
        Err(err) => Err(vec![err]),
    }
}

/// Resolves every member of `ms`, reporting each member that is not a type.
fn resolve_members(ms: &Vec<Expr>, loc: Location) -> (r: Result<Vec<CandidType>, Vec<Error>>)
    ensures
        r is Ok <==> forall|i: int| 0 <= i < ms@.len() ==> valid_type_expr(#[trigger] ms@[i]),
        r matches Ok(ts) ==> ts@.len() == ms@.len() && forall|i: int|
            0 <= i < ms@.len() ==> resolves_to(#[trigger] ms@[i], ts@[i]),
        r matches Err(es) ==> es@ == member_errors(ms@, loc),
{
    let mut rs: Vec<Result<CandidType, Vec<Error>>> = Vec::new();
    let mut i: usize = 0;
    while i < ms.len()
        invariant
            i <= ms@.len(),
            rs@.len() == i,
            errs_of(rs@) == member_errors(ms@.subrange(0, i as int), loc),
            forall|k: int| 0 <= k < i ==> ((#[trigger] rs@[k]) is Ok <==> valid_type_expr(ms@[k])),
            forall|k: int|
                0 <= k < i ==> ((#[trigger] rs@[k]) matches Ok(t) ==> resolves_to(ms@[k], t)),
        decreases ms@.len() - i,
    {
        let ghost before = rs@;
        rs.push(resolve_member(&ms[i], loc));
        proof {
            assert(rs@.drop_last() =~= before);
            assert(ms@.subrange(0, i + 1).drop_last() =~= ms@.subrange(0, i as int));
        }
        i = i + 1;
    }
    proof {
        assert(ms@.subrange(0, ms@.len() as int) =~= ms@);
    }
    let ghost all = rs@;
    let r = collect_results(rs);
    proof {
        if forall|i: int| 0 <= i < ms@.len() ==> valid_type_expr(#[trigger] ms@[i]) {
            assert forall|k: int| 0 <= k < all.len() implies (#[trigger] all[k]) is Ok by {
                assert(valid_type_expr(ms@[k]));
            }
        } else {
            let k = choose|k: int| 0 <= k < ms@.len() && !valid_type_expr(#[trigger] ms@[k]);
            assert(!(all[k] is Ok));
        }
        if r is Ok {
            let ts = r->Ok_0;
            assert forall|k: int| 0 <= k < ms@.len() implies resolves_to(
                #[trigger] ms@[k],
                ts@[k],
            ) by {
                assert(all[k] == Ok::<CandidType, Vec<Error>>(ts@[k]));
            }
        }
    }
    r
}

impl<'a> SourceMapped<'a, Expr> {
    /// Resolves `Tuple[T1, ..., Tn]` into a tuple type named `tuple_name`;
    /// a slice that is not a tuple is the one member. Any other expression is
    /// not a tuple. Every member that is not a type is reported.
    pub fn as_tuple(&self, tuple_name: Option<String>) -> (r: Result<Option<Tuple>, Vec<Error>>)
        ensures
            subscript_of(*self.node, "Tuple"@) is None ==> r matches Ok(None),
            subscript_of(*self.node, "Tuple"@) matches Some(slice) ==> {
                let ms = tuple_members(slice);
                &&& r is Ok <==> member_errors(ms, self.location).len() == 0
                &&& r matches Ok(o) ==> o matches Some(t) && tuple_matches(
                    ms,
                    name_view(tuple_name),
                    t,
                )
                &&& r matches Err(es) ==> es@ == member_errors(ms, self.location)
            },
    {
        match crate::ast::get_subscript_slice_for(self.node, "Tuple") {
            None => Ok(None),
            Some(slice) => {
                let loc = self.location;
                let resolved = match slice {
                    Expr::Tuple(elts) => resolve_members(elts, loc),
                    _ => {
                        let one = vec![resolve_member(slice, loc)];
                        let ghost all = one@;
                        let r = collect_results(one);
                        proof {
                            let ms = seq![*slice];
                            assert(ms.drop_last() =~= Seq::<Expr>::empty());
                            assert(all.drop_last() =~= Seq::<Result<CandidType, Vec<Error>>>::empty());
                            assert(ms[0] == *slice);
                            assert(ms.last() == *slice);
                            assert(errs_of(all.drop_last()) == Seq::<Error>::empty());
                            assert(member_errors(ms.drop_last(), loc) == Seq::<Error>::empty());
                            if valid_type_expr(*slice) {
                                assert(member_errors(ms, loc) =~= Seq::<Error>::empty());
                            } else {
                                assert(member_errors(ms, loc) =~= seq![invalid_type(loc)]);
                                if r is Err {
                                    assert(errs_of(all) =~= seq![invalid_type(loc)]);
                                }
                            }
                            assert(tuple_members(*slice) == ms);
                            if !valid_type_expr(*slice) {
                                assert(!(all[0] is Ok));
                            }
                            if r is Ok {
                                let ts = r->Ok_0;
                                assert(all[0] == Ok::<CandidType, Vec<Error>>(ts@[0]));
                            }
                        }
                        r
                    },
                };
                proof {
                    lemma_member_errors_empty(tuple_members(*slice), loc);
                }
                match resolved {
                    Ok(elems) => Ok(Some(Tuple { name: tuple_name, elems })),
                    Err(es) => Err(es),
                }
            },
        }
    }
}

/// The expression a statement binds or states.
fn get_stated_value(s: &Stmt) -> (r: Option<&Expr>)
    ensures
        match stated_value(*s) {
            Some(v) => r == Some(&v),
            None => r is None,
        },
{
    match &s.kind {
        StmtKind::Expr(v) => Some(v),
        _ => s.get_assign_value(),
    }
}

/// The tuple type a statement declares, if it declares one. A declaration
/// that binds no name is an error rather than being passed over.
pub fn as_tuple_decl(s: &Stmt) -> (r: Result<Option<Tuple>, Vec<Error>>)
    ensures
        !is_tuple_decl(*s) ==> r matches Ok(None),
        is_tuple_decl(*s) ==> {
            &&& r is Err <==> tuple_errors(*s).len() > 0
            &&& r matches Err(es) ==> es@ == tuple_errors(*s)
            &&& r matches Ok(o) ==> o matches Some(t) && tuple_decl_matches(*s, t)
        },
{
    let value = match get_stated_value(s) {
        Some(v) => v,
        None => return Ok(None),
    };
    if crate::ast::get_subscript_slice_for(value, "Tuple").is_none() {
        return Ok(None);
    }
    let name = match s.get_name() {
        Some(n) => n,
        None => return Err(vec![Error::new(ErrorKind::InvalidName, s.location)]),
    };
    SourceMapped::new(value, s.location).as_tuple(Some(name))
}

} // verus!
