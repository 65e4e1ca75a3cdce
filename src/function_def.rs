//! Function definitions: the name and the typed parameters of `def`.
use vstd::prelude::*;
use crate::ast::{Arg, Location, Stmt, StmtKind};
use crate::candid::CandidType;
use crate::errors::{collect_results, errs_of, Error, ErrorKind};
use crate::resolver::{invalid_type, resolves_to, to_candid_type, valid_type_expr};

verus! {

/// A parameter with its resolved type.
#[derive(Debug)]
pub struct Param {
    pub name: String,
    pub candid_type: CandidType,
}

/// The diagnostics of one parameter: its annotation must be present and be a type.
pub open spec fn arg_errors(a: Arg, loc: Location) -> Seq<Error> {
    match a.annotation {
        None => seq![Error { kind: ErrorKind::MissingTypeAnnotation, location: loc }],
        Some(e) => if valid_type_expr(e) {
            Seq::empty()
        } else {
            seq![invalid_type(loc)]
        },
    }
}

/// The diagnostics of the parameters `args`, in order.
pub open spec fn params_errors(args: Seq<Arg>, loc: Location) -> Seq<Error>
    decreases args.len(),
{
    if args.len() == 0 {
        Seq::empty()
    } else {
        params_errors(args.drop_last(), loc) + arg_errors(args.last(), loc)
    }
}

/// Whether `p` is the parameter that `a` declares.
pub open spec fn param_matches(a: Arg, p: Param) -> bool {
    &&& p.name@ == a.arg@
    &&& a.annotation matches Some(e)
    &&& resolves_to(e, p.candid_type)
}

fn build_param(a: &Arg, loc: Location) -> (r: Result<Param, Vec<Error>>)
    ensures
        r is Ok <==> arg_errors(*a, loc).len() == 0,
        r matches Ok(p) ==> param_matches(*a, p),
        r matches Err(es) ==> es@ == arg_errors(*a, loc),
{
    match &a.annotation {
        None => Err(vec![Error::new(ErrorKind::MissingTypeAnnotation, loc)]),
        Some(e) => match to_candid_type(e, loc) {
            Ok(t) => Ok(Param { name: a.arg.clone(), candid_type: t }),
            Err(err) => Err(vec![err]),
        },
    }
}

/// Parameters whose diagnostics are all empty leave none in total, and one
/// with a diagnostic leaves some.
proof fn lemma_params_errors_empty(args: Seq<Arg>, loc: Location)
    ensures
        params_errors(args, loc).len() == 0 <==> forall|i: int|
            0 <= i < args.len() ==> arg_errors(#[trigger] args[i], loc).len() == 0,
    decreases args.len(),
{
    if args.len() > 0 {
        lemma_params_errors_empty(args.drop_last(), loc);
        if forall|i: int| 0 <= i < args.len() ==> arg_errors(#[trigger] args[i], loc).len() == 0 {
            assert forall|i: int| 0 <= i < args.len() - 1 implies arg_errors(
                #[trigger] args.drop_last()[i],
                loc,
            ).len() == 0 by {
                assert(args.drop_last()[i] == args[i]);
            }
            assert(arg_errors(args[args.len() - 1], loc).len() == 0);
        } else {
            let k = choose|k: int| 0 <= k < args.len() && arg_errors(#[trigger] args[k], loc).len() != 0;
            if k < args.len() - 1 {
                assert(args.drop_last()[k] == args[k]);
            }
        }
    }
}

impl Stmt {
    /// The name of a function definition.
    pub fn get_function_name(&self) -> (r: String)
        requires
            self.kind is FunctionDef,
        ensures
            r@ == self.kind->FunctionDef_name@,
    {
        match &self.kind {
            StmtKind::FunctionDef { name, .. } => name.clone(),
            _ => String::new(),
        }
    }

    /// The parameters of a function definition with their types, in order,
    /// or every diagnostic of its parameters in order.
    pub fn build_params(&self) -> (r: Result<Vec<Param>, Vec<Error>>)
        requires
            self.kind is FunctionDef,
        ensures
            ({
                let args = self.kind->FunctionDef_args@;
                &&& r is Ok <==> params_errors(args, self.location).len() == 0
                &&& r matches Ok(ps) ==> ps@.len() == args.len() && forall|i: int|
                    0 <= i < args.len() ==> param_matches(#[trigger] args[i], ps@[i])
                &&& r matches Err(es) ==> es@ == params_errors(args, self.location)
            }),
    {
        let args = match &self.kind {
            StmtKind::FunctionDef { args, .. } => args,
            _ => return Ok(Vec::new()),
        };
        let loc = self.location;
        let mut rs: Vec<Result<Param, Vec<Error>>> = Vec::new();
        let mut i: usize = 0;
        while i < args.len()
            invariant
                i <= args@.len(),
                rs@.len() == i,
                errs_of(rs@) == params_errors(args@.subrange(0, i as int), loc),
                forall|k: int|
                    0 <= k < i ==> ((#[trigger] rs@[k]) is Ok <==> arg_errors(args@[k], loc).len()
                        == 0),
                forall|k: int|
                    0 <= k < i ==> ((#[trigger] rs@[k]) matches Ok(p) ==> param_matches(
                        args@[k],
                        p,
                    )),
            decreases args@.len() - i,
        {
            let ghost before = rs@;
            rs.push(build_param(&args[i], loc));
            proof {
                assert(rs@.drop_last() =~= before);
                assert(args@.subrange(0, i + 1).drop_last() =~= args@.subrange(0, i as int));
            }
            i = i + 1;
        }
        proof {
            assert(args@.subrange(0, args@.len() as int) =~= args@);
            lemma_params_errors_empty(args@, loc);
        }
        let ghost all = rs@;
        let r = collect_results(rs);
        proof {
            if params_errors(args@, loc).len() == 0 {
                assert forall|k: int| 0 <= k < all.len() implies (#[trigger] all[k]) is Ok by {
                    assert(arg_errors(args@[k], loc).len() == 0);
                }
            } else {
                let k = choose|k: int|
                    0 <= k < args@.len() && arg_errors(#[trigger] args@[k], loc).len() != 0;
                assert(!(all[k] is Ok));
            }
            if r is Ok {
                let ps = r->Ok_0;
                assert forall|k: int| 0 <= k < args@.len() implies param_matches(
                    #[trigger] args@[k],
                    ps@[k],
                ) by {
                    assert(all[k] == Ok::<Param, Vec<Error>>(ps@[k]));
                }
            }
        }
        r
    }
}

} // verus!
