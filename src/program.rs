//! The whole-module analysis: every top-level statement is tried against each
//! declaration kind, and every diagnostic is kept, in source order.
use vstd::prelude::*;
use crate::ast::Stmt;
use crate::candid::{CandidType, Record, Tuple, TypeAlias};
use crate::errors::Error;
use crate::record::{as_record, is_record, record_decl_matches, record_errors};
use crate::stable_storage::{
    as_stable_b_tree_map_node, is_storage_decl, storage_decl_matches, storage_errors,
    StableBTreeMapNode,
};
use crate::tuple::{as_tuple_decl, is_tuple_decl, stated_value, tuple_decl_matches, tuple_errors};
use crate::type_alias::{alias_decl_matches, alias_errors, as_type_alias, is_alias_decl};

verus! {

/// A parsed module: its top-level statements in source order.
pub struct PyAst {
    pub stmts: Vec<Stmt>,
}

/// What the analysis of a module yields: every declaration that resolved, in
/// source order, and every diagnostic, in source order. The module is
/// accepted only when `diagnostics` is empty.
pub struct ProgramModel {
    pub records: Vec<Record>,
    pub tuples: Vec<Tuple>,
    pub type_aliases: Vec<TypeAlias>,
    pub stable_b_tree_map_nodes: Vec<StableBTreeMapNode>,
    pub diagnostics: Vec<Error>,
}

/// The diagnostics `f` gives each of `stmts`, concatenated in order.
pub open spec fn errors_in(stmts: Seq<Stmt>, f: spec_fn(Stmt) -> Seq<Error>) -> Seq<Error>
    decreases stmts.len(),
{
    if stmts.len() == 0 {
        Seq::empty()
    } else {
        errors_in(stmts.drop_last(), f) + f(stmts.last())
    }
}

/// `vals` holds, in order, one value for each statement of `stmts` that
/// `ok` accepts, and each is the one `rel` relates to its statement.
pub open spec fn declared<T>(
    stmts: Seq<Stmt>,
    vals: Seq<T>,
    ok: spec_fn(Stmt) -> bool,
    rel: spec_fn(Stmt, T) -> bool,
) -> bool
    decreases stmts.len(),
{
    if stmts.len() == 0 {
        vals.len() == 0
    } else if ok(stmts.last()) {
        &&& vals.len() > 0
        &&& rel(stmts.last(), vals.last())
        &&& declared(stmts.drop_last(), vals.drop_last(), ok, rel)
    } else {
        declared(stmts.drop_last(), vals, ok, rel)
    }
}

/// The diagnostics of one statement, whichever kind of declaration it is.
pub open spec fn stmt_errors(s: Stmt) -> Seq<Error> {
    record_errors(s) + tuple_errors(s) + alias_errors(s) + storage_errors(s)
}

pub open spec fn stmt_errors_fn() -> spec_fn(Stmt) -> Seq<Error> {
    |s: Stmt| stmt_errors(s)
}

pub open spec fn record_errors_fn() -> spec_fn(Stmt) -> Seq<Error> {
    |s: Stmt| record_errors(s)
}

pub open spec fn tuple_errors_fn() -> spec_fn(Stmt) -> Seq<Error> {
    |s: Stmt| tuple_errors(s)
}

pub open spec fn alias_errors_fn() -> spec_fn(Stmt) -> Seq<Error> {
    |s: Stmt| alias_errors(s)
}

pub open spec fn storage_errors_fn() -> spec_fn(Stmt) -> Seq<Error> {
    |s: Stmt| storage_errors(s)
}

/// Statements that declare a record without error.
pub open spec fn record_ok() -> spec_fn(Stmt) -> bool {
    |s: Stmt| is_record(s) && record_errors(s).len() == 0
}

pub open spec fn tuple_ok() -> spec_fn(Stmt) -> bool {
    |s: Stmt| is_tuple_decl(s) && tuple_errors(s).len() == 0
}

pub open spec fn alias_ok() -> spec_fn(Stmt) -> bool {
    |s: Stmt| is_alias_decl(s) && alias_errors(s).len() == 0
}

pub open spec fn storage_ok() -> spec_fn(Stmt) -> bool {
    |s: Stmt| is_storage_decl(s) && storage_errors(s).len() == 0
}

pub open spec fn record_rel() -> spec_fn(Stmt, Record) -> bool {
    |s: Stmt, r: Record| record_decl_matches(s, r)
}

pub open spec fn tuple_rel() -> spec_fn(Stmt, Tuple) -> bool {
    |s: Stmt, t: Tuple| tuple_decl_matches(s, t)
}

pub open spec fn alias_rel() -> spec_fn(Stmt, TypeAlias) -> bool {
    |s: Stmt, a: TypeAlias| alias_decl_matches(s, a)
}

pub open spec fn storage_rel() -> spec_fn(Stmt, StableBTreeMapNode) -> bool {
    |s: Stmt, n: StableBTreeMapNode| storage_decl_matches(s, n)
}

/// No statement has the shape of two kinds of declaration: a record is a
/// class, a bounded map binds a call, and tuples and aliases bind subscripts
/// of different names.
pub proof fn lemma_kinds_exclusive(s: Stmt)
    ensures
        is_record(s) ==> !is_tuple_decl(s) && !is_alias_decl(s) && !is_storage_decl(s),
        is_tuple_decl(s) ==> !is_alias_decl(s) && !is_storage_decl(s),
        is_alias_decl(s) ==> !is_storage_decl(s),
{
    reveal_strlit("Tuple");
    reveal_strlit("Alias");
    if is_tuple_decl(s) && is_alias_decl(s) {
        assert(stated_value(s) == crate::ast::assigned_value(s));
        assert("Tuple"@[0] != "Alias"@[0]);
    }
}


impl PyAst {
    /// Every record the module declares, in source order, or, when any
    /// fails, every record diagnostic in source order.
    pub fn build_records(&self) -> (r: Result<Vec<Record>, Vec<Error>>)
        ensures
            r is Err <==> errors_in(self.stmts@, record_errors_fn()).len() > 0,
            r matches Err(es) ==> es@ == errors_in(self.stmts@, record_errors_fn()),
            r matches Ok(v) ==> declared(self.stmts@, v@, record_ok(), record_rel()),
    {
        let mut vals: Vec<Record> = Vec::new();
        let mut errors: Vec<Error> = Vec::new();
        let mut i: usize = 0;
        while i < self.stmts.len()
            invariant
                i <= self.stmts@.len(),
                errors@ == errors_in(self.stmts@.subrange(0, i as int), record_errors_fn()),
                declared(self.stmts@.subrange(0, i as int), vals@, record_ok(), record_rel()),
            decreases self.stmts@.len() - i,
        {
            let ghost sub = self.stmts@.subrange(0, i as int);
            let ghost next = self.stmts@.subrange(0, i + 1);
            let ghost before = vals@;
            proof {
                assert(next.drop_last() =~= sub);
                assert(next.last() == self.stmts@[i as int]);
            }
            match as_record(&self.stmts[i]) {
                Ok(Some(x)) => {
                    vals.push(x);
                    proof {
                        assert(vals@.drop_last() =~= before);
                        assert(errors_in(next, record_errors_fn()) =~= errors@);
                    }
                },
                Ok(None) => {
                    proof {
                        assert(errors_in(next, record_errors_fn()) =~= errors@);
                    }
                },
                Err(mut es) => {
                    errors.append(&mut es);
                },
            }
            i = i + 1;
        }
        proof {
            assert(self.stmts@.subrange(0, self.stmts@.len() as int) =~= self.stmts@);
        }
        if errors.len() == 0 {
            Ok(vals)
        } else {
            Err(errors)
        }
    }

    /// Every tuple the module declares, in source order, or, when any
    /// fails, every tuple diagnostic in source order.
    pub fn build_tuples(&self) -> (r: Result<Vec<Tuple>, Vec<Error>>)
        ensures
            r is Err <==> errors_in(self.stmts@, tuple_errors_fn()).len() > 0,
            r matches Err(es) ==> es@ == errors_in(self.stmts@, tuple_errors_fn()),
            r matches Ok(v) ==> declared(self.stmts@, v@, tuple_ok(), tuple_rel()),
    {
        let mut vals: Vec<Tuple> = Vec::new();
        let mut errors: Vec<Error> = Vec::new();
        let mut i: usize = 0;
        while i < self.stmts.len()
            invariant
                i <= self.stmts@.len(),
                errors@ == errors_in(self.stmts@.subrange(0, i as int), tuple_errors_fn()),
                declared(self.stmts@.subrange(0, i as int), vals@, tuple_ok(), tuple_rel()),
            decreases self.stmts@.len() - i,
        {
            let ghost sub = self.stmts@.subrange(0, i as int);
            let ghost next = self.stmts@.subrange(0, i + 1);
            let ghost before = vals@;
            proof {
                assert(next.drop_last() =~= sub);
                assert(next.last() == self.stmts@[i as int]);
            }
            match as_tuple_decl(&self.stmts[i]) {
                Ok(Some(x)) => {
                    vals.push(x);
                    proof {
                        assert(vals@.drop_last() =~= before);
                        assert(errors_in(next, tuple_errors_fn()) =~= errors@);
                    }
                },
                Ok(None) => {
                    proof {
                        assert(errors_in(next, tuple_errors_fn()) =~= errors@);
                    }
                },
                Err(mut es) => {
                    errors.append(&mut es);
                },
            }
            i = i + 1;
        }
        proof {
            assert(self.stmts@.subrange(0, self.stmts@.len() as int) =~= self.stmts@);
        }
        if errors.len() == 0 {
            Ok(vals)
        } else {
            Err(errors)
        }
    }

    /// Every type alias the module declares, in source order, or, when any
    /// fails, every type alias diagnostic in source order.
    pub fn build_type_aliases(&self) -> (r: Result<Vec<TypeAlias>, Vec<Error>>)
        ensures
            r is Err <==> errors_in(self.stmts@, alias_errors_fn()).len() > 0,
            r matches Err(es) ==> es@ == errors_in(self.stmts@, alias_errors_fn()),
            r matches Ok(v) ==> declared(self.stmts@, v@, alias_ok(), alias_rel()),
    {
        let mut vals: Vec<TypeAlias> = Vec::new();
        let mut errors: Vec<Error> = Vec::new();
        let mut i: usize = 0;
        while i < self.stmts.len()
            invariant
                i <= self.stmts@.len(),
                errors@ == errors_in(self.stmts@.subrange(0, i as int), alias_errors_fn()),
                declared(self.stmts@.subrange(0, i as int), vals@, alias_ok(), alias_rel()),
            decreases self.stmts@.len() - i,
        {
            let ghost sub = self.stmts@.subrange(0, i as int);
            let ghost next = self.stmts@.subrange(0, i + 1);
            let ghost before = vals@;
            proof {
                assert(next.drop_last() =~= sub);
                assert(next.last() == self.stmts@[i as int]);
            }
            match as_type_alias(&self.stmts[i]) {
                Ok(Some(x)) => {
                    vals.push(x);
                    proof {
                        assert(vals@.drop_last() =~= before);
                        assert(errors_in(next, alias_errors_fn()) =~= errors@);
                    }
                },
                Ok(None) => {
                    proof {
                        assert(errors_in(next, alias_errors_fn()) =~= errors@);
                    }
                },
                Err(mut es) => {
                    errors.append(&mut es);
                },
            }
            i = i + 1;
        }
        proof {
            assert(self.stmts@.subrange(0, self.stmts@.len() as int) =~= self.stmts@);
        }
        if errors.len() == 0 {
            Ok(vals)
        } else {
            Err(errors)
        }
    }

    /// Every bounded map the module declares, in source order, or, when any
    /// fails, every bounded map diagnostic in source order.
    pub fn build_stable_b_tree_map_nodes(&self) -> (r: Result<Vec<StableBTreeMapNode>, Vec<Error>>)
        ensures
            r is Err <==> errors_in(self.stmts@, storage_errors_fn()).len() > 0,
            r matches Err(es) ==> es@ == errors_in(self.stmts@, storage_errors_fn()),
            r matches Ok(v) ==> declared(self.stmts@, v@, storage_ok(), storage_rel()),
    {
        let mut vals: Vec<StableBTreeMapNode> = Vec::new();
        let mut errors: Vec<Error> = Vec::new();
        let mut i: usize = 0;
        while i < self.stmts.len()
            invariant
                i <= self.stmts@.len(),
                errors@ == errors_in(self.stmts@.subrange(0, i as int), storage_errors_fn()),
                declared(self.stmts@.subrange(0, i as int), vals@, storage_ok(), storage_rel()),
            decreases self.stmts@.len() - i,
        {
            let ghost sub = self.stmts@.subrange(0, i as int);
            let ghost next = self.stmts@.subrange(0, i + 1);
            let ghost before = vals@;
            proof {
                assert(next.drop_last() =~= sub);
                assert(next.last() == self.stmts@[i as int]);
            }
            match as_stable_b_tree_map_node(&self.stmts[i]) {
                Ok(Some(x)) => {
                    vals.push(x);
                    proof {
                        assert(vals@.drop_last() =~= before);
                        assert(errors_in(next, storage_errors_fn()) =~= errors@);
                    }
                },
                Ok(None) => {
                    proof {
                        assert(errors_in(next, storage_errors_fn()) =~= errors@);
                    }
                },
                Err(mut es) => {
                    errors.append(&mut es);
                },
            }
            i = i + 1;
        }
        proof {
            assert(self.stmts@.subrange(0, self.stmts@.len() as int) =~= self.stmts@);
        }
        if errors.len() == 0 {
            Ok(vals)
        } else {
            Err(errors)
        }
    }


    /// Analyses the whole module in one pass. Each statement is tried as a
    /// record, a tuple, a type alias and a bounded map, in that order, and
    /// taken by the first kind whose shape it has; at most one kind fits.
    /// Every declaration is attempted: one that fails adds its diagnostics,
    /// and the others are still resolved.
    pub fn analyze(&self) -> (r: ProgramModel)
        ensures
            r.diagnostics@ == errors_in(self.stmts@, stmt_errors_fn()),
            declared(self.stmts@, r.records@, record_ok(), record_rel()),
            declared(self.stmts@, r.tuples@, tuple_ok(), tuple_rel()),
            declared(self.stmts@, r.type_aliases@, alias_ok(), alias_rel()),
            declared(self.stmts@, r.stable_b_tree_map_nodes@, storage_ok(), storage_rel()),
    {
        let mut records: Vec<Record> = Vec::new();
        let mut tuples: Vec<Tuple> = Vec::new();
        let mut type_aliases: Vec<TypeAlias> = Vec::new();
        let mut nodes: Vec<StableBTreeMapNode> = Vec::new();
        let mut diagnostics: Vec<Error> = Vec::new();
        let mut i: usize = 0;
        while i < self.stmts.len()
            invariant
                i <= self.stmts@.len(),
                diagnostics@ == errors_in(self.stmts@.subrange(0, i as int), stmt_errors_fn()),
                declared(self.stmts@.subrange(0, i as int), records@, record_ok(), record_rel()),
                declared(self.stmts@.subrange(0, i as int), tuples@, tuple_ok(), tuple_rel()),
                declared(self.stmts@.subrange(0, i as int), type_aliases@, alias_ok(), alias_rel()),
                declared(self.stmts@.subrange(0, i as int), nodes@, storage_ok(), storage_rel()),
            decreases self.stmts@.len() - i,
        {
            let ghost sub = self.stmts@.subrange(0, i as int);
            let ghost next = self.stmts@.subrange(0, i + 1);
            let ghost old_records = records@;
            let ghost old_tuples = tuples@;
            let ghost old_aliases = type_aliases@;
            let ghost old_nodes = nodes@;
            let ghost old_diagnostics = diagnostics@;
            let s = &self.stmts[i];
            proof {
                assert(next.drop_last() =~= sub);
                assert(next.last() == *s);
                lemma_kinds_exclusive(*s);
            }
            match as_record(s) {
                Ok(Some(x)) => records.push(x),
                Err(mut es) => diagnostics.append(&mut es),
                Ok(None) => match as_tuple_decl(s) {
                    Ok(Some(x)) => tuples.push(x),
                    Err(mut es) => diagnostics.append(&mut es),
                    Ok(None) => match as_type_alias(s) {
                        Ok(Some(x)) => type_aliases.push(x),
                        Err(mut es) => diagnostics.append(&mut es),
                        Ok(None) => match as_stable_b_tree_map_node(s) {
                            Ok(Some(x)) => nodes.push(x),
                            Err(mut es) => diagnostics.append(&mut es),
                            Ok(None) => {},
                        },
                    },
                },
            }
            proof {
                assert(stmt_errors(*s) =~= record_errors(*s) + tuple_errors(*s) + alias_errors(*s)
                    + storage_errors(*s));
                if records@.len() > old_records.len() {
                    assert(records@.drop_last() =~= old_records);
                } else {
                    assert(records@ == old_records);
                }
                if tuples@.len() > old_tuples.len() {
                    assert(tuples@.drop_last() =~= old_tuples);
                } else {
                    assert(tuples@ == old_tuples);
                }
                if type_aliases@.len() > old_aliases.len() {
                    assert(type_aliases@.drop_last() =~= old_aliases);
                } else {
                    assert(type_aliases@ == old_aliases);
                }
                if nodes@.len() > old_nodes.len() {
                    assert(nodes@.drop_last() =~= old_nodes);
                } else {
                    assert(nodes@ == old_nodes);
                }
                assert(diagnostics@ =~= old_diagnostics + stmt_errors(*s));
            }
            i = i + 1;
        }
        proof {
            assert(self.stmts@.subrange(0, self.stmts@.len() as int) =~= self.stmts@);
        }
        ProgramModel { records, tuples, type_aliases, stable_b_tree_map_nodes: nodes, diagnostics }
    }
}


/// The diagnostics of `a + b` are those of `a` followed by those of `b`.
pub proof fn lemma_errors_in_concat(a: Seq<Stmt>, b: Seq<Stmt>, f: spec_fn(Stmt) -> Seq<Error>)
    ensures
        errors_in(a + b, f) == errors_in(a, f) + errors_in(b, f),
    decreases b.len(),
{
    if b.len() == 0 {
        assert(a + b =~= a);
        assert(errors_in(a, f) + errors_in(b, f) =~= errors_in(a, f));
    } else {
        assert((a + b).drop_last() =~= a + b.drop_last());
        lemma_errors_in_concat(a, b.drop_last(), f);
        assert(errors_in(a, f) + errors_in(b.drop_last(), f) + f(b.last()) =~= errors_in(a, f) + (
        errors_in(b.drop_last(), f) + f(b.last())));
    }
}

/// Completeness of reporting: when the declarations at positions `i < j`
/// each have diagnostics of their own, the analysis reports all of the first
/// one's and then all of the second one's, with the diagnostics of every
/// other statement before, between and after them in source order.
pub proof fn lemma_every_failure_reported(stmts: Seq<Stmt>, i: int, j: int)
    requires
        0 <= i < j < stmts.len(),
        stmt_errors(stmts[i]).len() > 0,
        stmt_errors(stmts[j]).len() > 0,
    ensures
        errors_in(stmts, stmt_errors_fn()) == errors_in(stmts.subrange(0, i), stmt_errors_fn())
            + stmt_errors(stmts[i]) + errors_in(stmts.subrange(i + 1, j), stmt_errors_fn())
            + stmt_errors(stmts[j]) + errors_in(
            stmts.subrange(j + 1, stmts.len() as int),
            stmt_errors_fn(),
        ),
{
    let f = stmt_errors_fn();
    let a = stmts.subrange(0, i);
    let b = stmts.subrange(i + 1, j);
    let c = stmts.subrange(j + 1, stmts.len() as int);
    let x = seq![stmts[i]];
    let y = seq![stmts[j]];
    assert(stmts =~= a + x + b + y + c);
    lemma_errors_in_concat(a + x + b + y, c, f);
    lemma_errors_in_concat(a + x + b, y, f);
    lemma_errors_in_concat(a + x, b, f);
    lemma_errors_in_concat(a, x, f);
    assert(x.drop_last() =~= Seq::<Stmt>::empty());
    assert(y.drop_last() =~= Seq::<Stmt>::empty());
    assert(errors_in(Seq::<Stmt>::empty(), f) == Seq::<Error>::empty());
    assert(errors_in(x, f) == errors_in(x.drop_last(), f) + f(x.last()));
    assert(x.last() == stmts[i]);
    assert(errors_in(x, f) =~= stmt_errors(stmts[i]));
    assert(errors_in(y, f) == errors_in(y.drop_last(), f) + f(y.last()));
    assert(y.last() == stmts[j]);
    assert(errors_in(y, f) =~= stmt_errors(stmts[j]));
}


/// Statements that declare a record, tuple or type alias without error.
pub open spec fn data_type_ok() -> spec_fn(Stmt) -> bool {
    |s: Stmt| (record_ok())(s) || (tuple_ok())(s) || (alias_ok())(s)
}

/// Whether `t` is the Candid type that statement `s` declares.
pub open spec fn data_type_rel() -> spec_fn(Stmt, CandidType) -> bool {
    |s: Stmt, t: CandidType|
        match t {
            CandidType::Record(r) => record_decl_matches(s, r),
            CandidType::Tuple(x) => tuple_decl_matches(s, x),
            CandidType::TypeAlias(a) => alias_decl_matches(s, a),
            _ => false,
        }
}

/// What a front end hands on to code generation.
pub trait ToKybraAst {
    /// The Candid types the module declares, in source order.
    fn get_act_data_type_nodes(&self) -> Vec<CandidType>;
}

impl ToKybraAst for PyAst {
    fn get_act_data_type_nodes(&self) -> Vec<CandidType> {
        self.build_data_types()
    }
}

impl ProgramModel {
    /// Whether the module is accepted: no diagnostic was reported.
    pub fn succeeded(&self) -> (r: bool)
        ensures
            r == (self.diagnostics@.len() == 0),
    {
        self.diagnostics.len() == 0
    }
}

impl PyAst {
    /// Every record, tuple and type alias the module declares without error,
    /// as Candid types in source order.
    pub fn build_data_types(&self) -> (r: Vec<CandidType>)
        ensures
            declared(self.stmts@, r@, data_type_ok(), data_type_rel()),
    {
        let mut types: Vec<CandidType> = Vec::new();
        let mut i: usize = 0;
        while i < self.stmts.len()
            invariant
                i <= self.stmts@.len(),
                declared(self.stmts@.subrange(0, i as int), types@, data_type_ok(), data_type_rel()),
            decreases self.stmts@.len() - i,
        {
            let ghost sub = self.stmts@.subrange(0, i as int);
            let ghost next = self.stmts@.subrange(0, i + 1);
            let ghost before = types@;
            let s = &self.stmts[i];
            proof {
                assert(next.drop_last() =~= sub);
                assert(next.last() == *s);
                lemma_kinds_exclusive(*s);
            }
            match as_record(s) {
                Ok(Some(x)) => types.push(CandidType::Record(x)),
                Err(_) => {},
                Ok(None) => match as_tuple_decl(s) {
                    Ok(Some(x)) => types.push(CandidType::Tuple(x)),
                    Err(_) => {},
                    Ok(None) => match as_type_alias(s) {
                        Ok(Some(x)) => types.push(CandidType::TypeAlias(x)),
                        _ => {},
                    },
                },
            }
            proof {
                if types@.len() > before.len() {
                    assert(types@.drop_last() =~= before);
                } else {
                    assert(types@ == before);
                }
            }
            i = i + 1;
        }
        proof {
            assert(self.stmts@.subrange(0, self.stmts@.len() as int) =~= self.stmts@);
        }
        types
    }
}

} // verus!
