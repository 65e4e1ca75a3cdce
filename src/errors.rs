//! Diagnostics, and the accumulator that runs every fallible step and keeps
//! either all results or all failures.
use vstd::prelude::*;
use crate::ast::Location;

verus! {

/// What went wrong, as a stable, machine-distinguishable kind.
#[derive(Clone, Copy, Debug, PartialEq, Eq, Structural)]
pub enum ErrorKind {
    /// A declaration that must bind a name binds none.
    InvalidName,
    /// A type expression of a shape that does not denote a type.
    InvalidTypeExpression,
    /// The memory id is given neither positionally nor by keyword.
    MissingMemoryId,
    MemoryIdMustBeInteger,
    MemoryIdMustBeNonNegative,
    /// The memory id does not fit in 8 bits.
    MemoryIdTooBig,
    /// The max key size is given neither positionally nor by keyword.
    MaxKeySizeMissing,
    /// The max value size is given neither positionally nor by keyword.
    MaxValueSizeMissing,
    MaxSizeMustBeInteger,
    MaxSizeMustBeNonNegative,
    /// A max size does not fit in 32 bits.
    MaxSizeTooBig,
    /// The bounded map's subscript is not a pair of key and value types.
    StableBTreeMapNodeFormat,
    /// Two members of one record share a name.
    DuplicateMemberName,
    /// A function parameter has no type annotation.
    MissingTypeAnnotation,
}

/// The message shown for each kind of diagnostic.
pub open spec fn kind_message(k: ErrorKind) -> Seq<char> {
    match k {
        ErrorKind::InvalidName => "the declaration must be assigned to a name"@,
        ErrorKind::InvalidTypeExpression => "this expression does not denote a type"@,
        ErrorKind::MissingMemoryId => "StableBTreeMap is missing memory_id"@,
        ErrorKind::MemoryIdMustBeInteger => "memory_id must be an integer literal"@,
        ErrorKind::MemoryIdMustBeNonNegative => "memory_id must be non-negative"@,
        ErrorKind::MemoryIdTooBig => "memory_id is too big: it must be at most 255"@,
        ErrorKind::MaxKeySizeMissing => "StableBTreeMap is missing max_key_size"@,
        ErrorKind::MaxValueSizeMissing => "StableBTreeMap is missing max_value_size"@,
        ErrorKind::MaxSizeMustBeInteger => "max sizes must be integer literals"@,
        ErrorKind::MaxSizeMustBeNonNegative => "max sizes must be non-negative"@,
        ErrorKind::MaxSizeTooBig => "max size is too big: it must be at most 4294967295"@,
        ErrorKind::StableBTreeMapNodeFormat => "StableBTreeMap takes exactly a key type and a value type: StableBTreeMap[K, V]"@,
        ErrorKind::DuplicateMemberName => "two members of this record share a name"@,
        ErrorKind::MissingTypeAnnotation => "every parameter must have a type annotation"@,
    }
}

impl ErrorKind {
    /// The message shown for this kind of diagnostic.
    pub fn message(&self) -> (r: &'static str)
        ensures
            r@ == kind_message(*self),
    {
        match self {
            ErrorKind::InvalidName => "the declaration must be assigned to a name",
            ErrorKind::InvalidTypeExpression => "this expression does not denote a type",
            ErrorKind::MissingMemoryId => "StableBTreeMap is missing memory_id",
            ErrorKind::MemoryIdMustBeInteger => "memory_id must be an integer literal",
            ErrorKind::MemoryIdMustBeNonNegative => "memory_id must be non-negative",
            ErrorKind::MemoryIdTooBig => "memory_id is too big: it must be at most 255",
            ErrorKind::MaxKeySizeMissing => "StableBTreeMap is missing max_key_size",
            ErrorKind::MaxValueSizeMissing => "StableBTreeMap is missing max_value_size",
            ErrorKind::MaxSizeMustBeInteger => "max sizes must be integer literals",
            ErrorKind::MaxSizeMustBeNonNegative => "max sizes must be non-negative",
            ErrorKind::MaxSizeTooBig => "max size is too big: it must be at most 4294967295",
            ErrorKind::StableBTreeMapNodeFormat => "StableBTreeMap takes exactly a key type and a value type: StableBTreeMap[K, V]",
            ErrorKind::DuplicateMemberName => "two members of this record share a name",
            ErrorKind::MissingTypeAnnotation => "every parameter must have a type annotation",
        }
    }
}

/// A diagnostic: what went wrong, and where.
#[derive(Clone, Copy, Debug, PartialEq, Eq, Structural)]
pub struct Error {
    pub kind: ErrorKind,
    pub location: Location,
}

impl Error {
    pub fn new(kind: ErrorKind, location: Location) -> (r: Error)
        ensures
            r == (Error { kind, location }),
    {
        Error { kind, location }
    }
}

/// The failures of `rs`, concatenated in order.
pub open spec fn errs_of<T, E>(rs: Seq<Result<T, Vec<E>>>) -> Seq<E>
    decreases rs.len(),
{
    if rs.len() == 0 {
        Seq::empty()
    } else {
        errs_of(rs.drop_last()) + match rs.last() {
            Ok(_) => Seq::empty(),
            Err(e) => e@,
        }
    }
}

/// Every one of `rs` succeeded.
pub open spec fn all_ok<T, E>(rs: Seq<Result<T, Vec<E>>>) -> bool {
    forall|i: int| 0 <= i < rs.len() ==> (#[trigger] rs[i]) is Ok
}

/// Gathers independent results: all the successes in order when none failed,
/// else every failure in order. No result is skipped.
pub fn collect_results<T, E>(rs: Vec<Result<T, Vec<E>>>) -> (r: Result<Vec<T>, Vec<E>>)
    ensures
        r is Ok <==> all_ok(rs@),
        r matches Ok(v) ==> v@.len() == rs@.len() && forall|i: int|
            0 <= i < rs@.len() ==> rs@[i] == Ok::<T, Vec<E>>(#[trigger] v@[i]),
        r matches Err(es) ==> es@ == errs_of(rs@),
    decreases rs@.len(),
{
    let ghost all = rs@;
    let mut rest = rs;
    match rest.pop() {
        None => {
            let v: Vec<T> = Vec::new();
            proof {
                assert(all.len() == 0);
            }
            Ok(v)
        },
        Some(last) => {
            proof {
                assert(rest@ =~= all.drop_last());
                assert(last == all.last());
            }
            let head = collect_results(rest);
            match (head, last) {
                (Ok(mut v), Ok(x)) => {
                    v.push(x);
                    proof {
                        assert forall|i: int| 0 <= i < all.len() implies (#[trigger] all[i]) is Ok by {
                            if i < all.len() - 1 {
                                assert(all.drop_last()[i] == all[i]);
                            }
                        }
                        assert forall|i: int| 0 <= i < all.len() implies all[i] == Ok::<T, Vec<E>>(
                            #[trigger] v@[i],
                        ) by {
                            if i < all.len() - 1 {
                                assert(all.drop_last()[i] == all[i]);
                            }
                        }
                    }
                    Ok(v)
                },
                (Ok(_), Err(e)) => {
                    proof {
                        lemma_all_ok_no_errs(all.drop_last());
                        assert(errs_of(all) =~= e@);
                    }
                    Err(e)
                },
                (Err(es), Ok(_)) => {
                    proof {
                        assert(errs_of(all) =~= es@);
                        let k = choose|k: int| 0 <= k < all.len() - 1 && !(all.drop_last()[k] is Ok);
                        assert(all[k] == all.drop_last()[k]);
                    }
                    Err(es)
                },
                (Err(mut es), Err(mut e)) => {
                    es.append(&mut e);
                    proof {
                        assert(!(all[all.len() - 1] is Ok));
                    }
                    Err(es)
                },
            }
        },
    }
}

/// Results that all succeeded carry no failure.
pub proof fn lemma_all_ok_no_errs<T, E>(rs: Seq<Result<T, Vec<E>>>)
    requires
        all_ok(rs),
    ensures
        errs_of(rs) == Seq::<E>::empty(),
    decreases rs.len(),
{
    if rs.len() > 0 {
        assert(all_ok(rs.drop_last())) by {
            assert forall|i: int| 0 <= i < rs.len() - 1 implies (#[trigger] rs.drop_last()[i]) is Ok by {
                assert(rs.drop_last()[i] == rs[i]);
            }
        }
        lemma_all_ok_no_errs(rs.drop_last());
        assert(rs[rs.len() - 1] is Ok);
        assert(errs_of(rs) =~= Seq::<E>::empty());
    }
}

/// The failures of `a + b` are those of `a` followed by those of `b`.
pub proof fn lemma_errs_of_concat<T, E>(a: Seq<Result<T, Vec<E>>>, b: Seq<Result<T, Vec<E>>>)
    ensures
        errs_of(a + b) == errs_of(a) + errs_of(b),
    decreases b.len(),
{
    if b.len() == 0 {
        assert(a + b =~= a);
        assert(errs_of(b) =~= Seq::<E>::empty());
        assert(errs_of(a) + errs_of(b) =~= errs_of(a));
    } else {
        assert((a + b).drop_last() =~= a + b.drop_last());
        lemma_errs_of_concat(a, b.drop_last());
        assert((a + b).last() == b.last());
        let tail = match b.last() {
            Ok(_) => Seq::<E>::empty(),
            Err(e) => e@,
        };
        assert(errs_of(a) + errs_of(b.drop_last()) + tail =~= errs_of(a) + (errs_of(
            b.drop_last(),
        ) + tail));
    }
}

/// Completeness of reporting: when the results at two positions `i < j` both
/// failed, the gathered failures hold all of the first one's, then all of the
/// second one's, with nothing dropped before, between or after them.
pub proof fn lemma_collect_reports_every_failure<T, E>(rs: Seq<Result<T, Vec<E>>>, i: int, j: int)
    requires
        0 <= i < j < rs.len(),
        rs[i] is Err,
        rs[j] is Err,
    ensures
        !all_ok(rs),
        errs_of(rs) == errs_of(rs.subrange(0, i)) + rs[i]->Err_0@ + errs_of(
            rs.subrange(i + 1, j),
        ) + rs[j]->Err_0@ + errs_of(rs.subrange(j + 1, rs.len() as int)),
{
    let a = rs.subrange(0, i);
    let b = rs.subrange(i + 1, j);
    let c = rs.subrange(j + 1, rs.len() as int);
    let x = seq![rs[i]];
    let y = seq![rs[j]];
    assert(rs =~= a + x + b + y + c);
    lemma_errs_of_concat(a + x + b + y, c);
    lemma_errs_of_concat(a + x + b, y);
    lemma_errs_of_concat(a + x, b);
    lemma_errs_of_concat(a, x);
    assert(x.drop_last() =~= Seq::<Result<T, Vec<E>>>::empty());
    assert(y.drop_last() =~= Seq::<Result<T, Vec<E>>>::empty());
    let empty = Seq::<Result<T, Vec<E>>>::empty();
    assert(errs_of(empty) == Seq::<E>::empty());
    assert(errs_of(x) == errs_of(x.drop_last()) + rs[i]->Err_0@);
    assert(errs_of(x) =~= rs[i]->Err_0@);
    assert(errs_of(y) == errs_of(y.drop_last()) + rs[j]->Err_0@);
    assert(errs_of(y) =~= rs[j]->Err_0@);
    assert(!(rs[i] is Ok));
}

} // verus!
