//! Record declarations: classes whose bases include `Record`, with one member
//! per annotated name in the class body, in declaration order.
use vstd::prelude::*;
use crate::ast::{is_name, is_named, Expr, Stmt, StmtKind};
use crate::candid::{Member, Record};
use crate::errors::{collect_results, errs_of, Error, ErrorKind};
use crate::resolver::{invalid_type, resolves_to, to_candid_type, valid_type_expr};

verus! {

/// `s` is a class whose bases include the identifier `Record`.
pub open spec fn is_record(s: Stmt) -> bool {
    &&& s.kind matches StmtKind::ClassDef { bases, .. }
    &&& exists|i: int| 0 <= i < bases.len() && is_name(#[trigger] bases[i], "Record"@)
}

/// The name and annotation of a member statement `name: annotation`.
pub open spec fn member_of(s: Stmt) -> Option<(Seq<char>, Expr)> {
    match s.kind {
        StmtKind::AnnAssign { target, annotation, .. } => match target {
            Expr::Name(n) => Some((n@, annotation)),
            _ => None,
        },
        _ => None,
    }
}

/// The member statements of a class body, in order.
pub open spec fn members_of(body: Seq<Stmt>) -> Seq<Stmt>
    decreases body.len(),
{
    if body.len() == 0 {
        Seq::empty()
    } else {
        members_of(body.drop_last()) + if member_of(body.last()) is Some {
            seq![body.last()]
        } else {
            Seq::empty()
        }
    }
}

pub open spec fn member_name(m: Stmt) -> Seq<char> {
    member_of(m)->Some_0.0
}

pub open spec fn member_annotation(m: Stmt) -> Expr {
    member_of(m)->Some_0.1
}

/// One diagnostic, at the member, for each member whose annotation is not a type.
pub open spec fn annotation_errors(ms: Seq<Stmt>) -> Seq<Error>
    decreases ms.len(),
{
    if ms.len() == 0 {
        Seq::empty()
    } else {
        annotation_errors(ms.drop_last()) + if valid_type_expr(member_annotation(ms.last())) {
            Seq::empty()
        } else {
            seq![invalid_type(ms.last().location)]
        }
    }
}

/// No name occurs twice in `names`.
pub open spec fn distinct(names: Seq<Seq<char>>) -> bool {
    forall|a: int, b: int| 0 <= a < b < names.len() ==> names[a] != names[b]
}

pub open spec fn class_members(s: Stmt) -> Seq<Stmt> {
    members_of(s.kind->ClassDef_body@)
}

/// The diagnostics of a record: one for each member that is not a type, or,
/// when all are types, one for members that share a name.
pub open spec fn record_errors(s: Stmt) -> Seq<Error> {
    if !is_record(s) {
        Seq::empty()
    } else {
        let ms = class_members(s);
        if annotation_errors(ms).len() > 0 {
            annotation_errors(ms)
        } else if !distinct(ms.map_values(|m: Stmt| member_name(m))) {
            seq![Error { kind: ErrorKind::DuplicateMemberName, location: s.location }]
        } else {
            Seq::empty()
        }
    }
}

/// Whether `m` is the member that member statement `s` declares.
pub open spec fn member_matches(s: Stmt, m: Member) -> bool {
    m.name@ == member_name(s) && resolves_to(member_annotation(s), m.candid_type)
}

/// Whether `rec` is the record that statement `s` declares.
pub open spec fn record_decl_matches(s: Stmt, rec: Record) -> bool {
    let ms = class_members(s);
    &&& is_record(s)
    &&& rec.name matches Some(n) && n@ == s.kind->ClassDef_name@
    &&& rec.members.len() == ms.len()
    &&& forall|i: int| 0 <= i < ms.len() ==> member_matches(#[trigger] ms[i], rec.members[i])
}

fn has_record_base(bases: &Vec<Expr>) -> (r: bool)
    ensures
        r == exists|i: int| 0 <= i < bases@.len() && is_name(#[trigger] bases@[i], "Record"@),
{
    let mut i: usize = 0;
    while i < bases.len()
        invariant
            i <= bases@.len(),
            forall|k: int| 0 <= k < i ==> !is_name(#[trigger] bases@[k], "Record"@),
        decreases bases@.len() - i,
    {
        if is_named(&bases[i], "Record") {
            return true;
        }
        i = i + 1;
    }
    false
}

fn has_duplicate_name(members: &Vec<Member>) -> (r: bool)
    ensures
        r == !distinct(members@.map_values(|m: Member| m.name@)),
{
    let ghost names = members@.map_values(|m: Member| m.name@);
    let mut i: usize = 0;
    while i < members.len()
        invariant
            i <= members@.len(),
            names == members@.map_values(|m: Member| m.name@),
            forall|a: int, b: int| 0 <= a < i && a < b < names.len() ==> names[a] != names[b],
        decreases members@.len() - i,
    {
        let mut j: usize = i + 1;
        while j < members.len()
            invariant
                i < members@.len(),
                i + 1 <= j <= members@.len(),
                names == members@.map_values(|m: Member| m.name@),
                forall|b: int| i < b < j ==> names[i as int] != names[b],
            decreases members@.len() - j,
        {
            if members[i].name == members[j].name {
                assert(names[i as int] == names[j as int]);
                return true;
            }
            j = j + 1;
        }
        i = i + 1;
    }
    false
}

/// The record a statement declares, if it declares one. Every member whose
/// annotation is not a type is reported.
pub fn as_record(s: &Stmt) -> (r: Result<Option<Record>, Vec<Error>>)
    ensures
        !is_record(*s) ==> r matches Ok(None),
        is_record(*s) ==> {
            &&& r is Err <==> record_errors(*s).len() > 0
            &&& r matches Err(es) ==> es@ == record_errors(*s)
            &&& r matches Ok(o) ==> o matches Some(rec) && record_decl_matches(*s, rec)
        },
{
    match &s.kind {
        StmtKind::ClassDef { name, bases, body } => {
            if !has_record_base(bases) {
                return Ok(None);
            }
            let mut rs: Vec<Result<Member, Vec<Error>>> = Vec::new();
            let mut i: usize = 0;
            while i < body.len()
                invariant
                    i <= body@.len(),
                    rs@.len() == members_of(body@.subrange(0, i as int)).len(),
                    errs_of(rs@) == annotation_errors(members_of(body@.subrange(0, i as int))),
                    forall|k: int|
                        0 <= k < rs@.len() ==> ((#[trigger] rs@[k]) is Ok <==> valid_type_expr(
                            member_annotation(members_of(body@.subrange(0, i as int))[k]),
                        )),
                    forall|k: int|
                        0 <= k < rs@.len() ==> ((#[trigger] rs@[k]) matches Ok(m) ==> member_matches(
                            members_of(body@.subrange(0, i as int))[k],
                            m,
                        )),
                decreases body@.len() - i,
            {
                let ghost before = rs@;
                let ghost mo = members_of(body@.subrange(0, i as int));
                let st = &body[i];
                proof {
                    assert(body@.subrange(0, i + 1).drop_last() =~= body@.subrange(0, i as int));
                    assert(body@.subrange(0, i + 1).last() == body@[i as int]);
                }
                match &st.kind {
                    StmtKind::AnnAssign { target: Expr::Name(n), annotation, .. } => {
                        let item = match to_candid_type(annotation, st.location) {
                            Ok(t) => Ok(Member { name: n.clone(), candid_type: t }),
                            Err(err) => Err(vec![err]),
                        };
                        rs.push(item);
                        proof {
                            let mo2 = members_of(body@.subrange(0, i + 1));
                            assert(mo2 == mo.push(*st));
                            assert(rs@.drop_last() =~= before);
                            assert(mo2.drop_last() =~= mo);
                            assert forall|k: int| 0 <= k < rs@.len() implies ((#[trigger] rs@[k]) is Ok
                                <==> valid_type_expr(member_annotation(mo2[k]))) by {
                                if k < rs@.len() - 1 {
                                    assert(rs@[k] == before[k]);
                                    assert(mo2[k] == mo[k]);
                                }
                            }
                            assert forall|k: int| 0 <= k < rs@.len() implies ((#[trigger] rs@[k]) matches Ok(
                                m,
                            ) ==> member_matches(mo2[k], m)) by {
                                if k < rs@.len() - 1 {
                                    assert(rs@[k] == before[k]);
                                    assert(mo2[k] == mo[k]);
                                }
                            }
                        }
                    },
                    _ => {
                        proof {
                            assert(members_of(body@.subrange(0, i + 1)) =~= mo);
                        }
                    },
                }
                i = i + 1;
            }
            proof {
                assert(body@.subrange(0, body@.len() as int) =~= body@);
            }
            let ghost all = rs@;
            let ghost mo = members_of(body@);
            let collected = collect_results(rs);
            match collected {
                Err(es) => {
                    proof {
                        let k = choose|k: int| 0 <= k < all.len() && !((#[trigger] all[k]) is Ok);
                        lemma_annotation_errors_nonempty(mo, k);
                    }
                    Err(es)
                },
                Ok(members) => {
                    proof {
                        assert forall|k: int| 0 <= k < mo.len() implies valid_type_expr(
                            member_annotation(#[trigger] mo[k]),
                        ) by {
                            assert(all[k] is Ok);
                        }
                        lemma_annotation_errors_empty(mo);
                        assert forall|k: int| 0 <= k < mo.len() implies member_matches(
                            #[trigger] mo[k],
                            members@[k],
                        ) by {
                            assert(all[k] == Ok::<Member, Vec<Error>>(members@[k]));
                        }
                        assert(members@.map_values(|m: Member| m.name@) =~= mo.map_values(
                            |m: Stmt| member_name(m),
                        ));
                    }
                    if has_duplicate_name(&members) {
                        Err(vec![Error::new(ErrorKind::DuplicateMemberName, s.location)])
                    } else {
                        Ok(Some(Record { name: Some(name.clone()), members }))
                    }
                },
            }
        },
        _ => Ok(None),
    }
}

/// A member whose annotation is not a type leaves a diagnostic.
proof fn lemma_annotation_errors_nonempty(ms: Seq<Stmt>, k: int)
    requires
        0 <= k < ms.len(),
        !valid_type_expr(member_annotation(ms[k])),
    ensures
        annotation_errors(ms).len() > 0,
    decreases ms.len(),
{
    if k < ms.len() - 1 {
        assert(ms.drop_last()[k] == ms[k]);
        lemma_annotation_errors_nonempty(ms.drop_last(), k);
    }
}

/// Members whose annotations are all types leave no diagnostic.
proof fn lemma_annotation_errors_empty(ms: Seq<Stmt>)
    requires
        forall|k: int| 0 <= k < ms.len() ==> valid_type_expr(member_annotation(#[trigger] ms[k])),
    ensures
        annotation_errors(ms) == Seq::<Error>::empty(),
    decreases ms.len(),
{
    if ms.len() > 0 {
        assert forall|k: int| 0 <= k < ms.len() - 1 implies valid_type_expr(
            member_annotation(#[trigger] ms.drop_last()[k]),
        ) by {
            assert(ms.drop_last()[k] == ms[k]);
        }
        lemma_annotation_errors_empty(ms.drop_last());
        assert(valid_type_expr(member_annotation(ms[ms.len() - 1])));
        assert(annotation_errors(ms) =~= Seq::<Error>::empty());
    }
}

} // verus!
