//! Bounded stable-map declarations:
//! `name = StableBTreeMap[K, V](memory_id, max_key_size, max_value_size)`,
//! each argument given positionally or by keyword.
use vstd::prelude::*;
use crate::ast::{assigned_value, magnitude, subscript_of, Expr, IntLiteral, Keyword, Location, Stmt};
use crate::candid::CandidType;
use crate::errors::{Error, ErrorKind};
use crate::resolver::{invalid_type, resolves_to, to_candid_type, valid_type_expr};

verus! {

/// A validated bounded stable-map declaration.
#[derive(Debug)]
pub struct StableBTreeMapNode {
    pub memory_id: u8,
    pub key_type: CandidType,
    pub value_type: CandidType,
    pub max_key_size: u32,
    pub max_value_size: u32,
}

/// The subscript, positional arguments and keyword arguments of a statement
/// that binds `StableBTreeMap[...](...)`.
pub open spec fn storage_call(s: Stmt) -> Option<(Expr, Seq<Expr>, Seq<Keyword>)> {
    match assigned_value(s) {
        Some(Expr::Call { func, args, keywords }) => match subscript_of(*func, "StableBTreeMap"@) {
            Some(slice) => Some((slice, args@, keywords@)),
            None => None,
        },
        _ => None,
    }
}

pub open spec fn is_storage_decl(s: Stmt) -> bool {
    storage_call(s) is Some
}

/// The value of the first keyword argument named `name` at or after `i`.
pub open spec fn keyword_from(kws: Seq<Keyword>, name: Seq<char>, i: int) -> Option<Expr>
    decreases kws.len() - i,
{
    if i < 0 || i >= kws.len() {
        None
    } else if kws[i].arg matches Some(a) && a@ == name {
        Some(kws[i].value)
    } else {
        keyword_from(kws, name, i + 1)
    }
}

/// The argument for a field: positional at `index` when there is one, else
/// the keyword argument `name`.
pub open spec fn field_arg(
    args: Seq<Expr>,
    kws: Seq<Keyword>,
    index: int,
    name: Seq<char>,
) -> Option<Expr> {
    if args.len() > index {
        Some(args[index])
    } else {
        keyword_from(kws, name, 0)
    }
}

/// The memory id an integer literal gives: it must lie in 0..=255.
pub open spec fn memory_id_of_literal(lit: IntLiteral) -> Result<u8, ErrorKind> {
    if lit.value() < 0 {
        Err(ErrorKind::MemoryIdMustBeNonNegative)
    } else if lit.value() > 255 {
        Err(ErrorKind::MemoryIdTooBig)
    } else {
        Ok(lit.value() as u8)
    }
}

/// The max size an integer literal gives: it must lie in 0..=2^32-1.
pub open spec fn max_size_of_literal(lit: IntLiteral) -> Result<u32, ErrorKind> {
    if lit.value() < 0 {
        Err(ErrorKind::MaxSizeMustBeNonNegative)
    } else if lit.value() > 4294967295 {
        Err(ErrorKind::MaxSizeTooBig)
    } else {
        Ok(lit.value() as u32)
    }
}

pub open spec fn memory_id_result(arg: Option<Expr>) -> Result<u8, ErrorKind> {
    match arg {
        None => Err(ErrorKind::MissingMemoryId),
        Some(Expr::Int(lit)) => memory_id_of_literal(lit),
        Some(_) => Err(ErrorKind::MemoryIdMustBeInteger),
    }
}

pub open spec fn max_size_result(arg: Option<Expr>, missing: ErrorKind) -> Result<u32, ErrorKind> {
    match arg {
        None => Err(missing),
        Some(Expr::Int(lit)) => max_size_of_literal(lit),
        Some(_) => Err(ErrorKind::MaxSizeMustBeInteger),
    }
}

/// The diagnostic of a failed field, at `loc`.
pub open spec fn kind_errors<T>(r: Result<T, ErrorKind>, loc: Location) -> Seq<Error> {
    match r {
        Ok(_) => Seq::empty(),
        Err(k) => seq![Error { kind: k, location: loc }],
    }
}

/// The key and value type expressions of a `StableBTreeMap[K, V]` subscript.
pub open spec fn key_value_exprs(slice: Expr) -> Option<(Expr, Expr)> {
    match slice {
        Expr::Tuple(elts) => if elts.len() == 2 {
            Some((elts[0], elts[1]))
        } else {
            None
        },
        _ => None,
    }
}

pub open spec fn type_errors(slice: Expr, loc: Location) -> Seq<Error> {
    match key_value_exprs(slice) {
        None => seq![Error { kind: ErrorKind::StableBTreeMapNodeFormat, location: loc }],
        Some((k, v)) => (if valid_type_expr(k) {
            Seq::empty()
        } else {
            seq![invalid_type(loc)]
        }) + (if valid_type_expr(v) {
            Seq::empty()
        } else {
            seq![invalid_type(loc)]
        }),
    }
}

pub open spec fn memory_id_field(call: (Expr, Seq<Expr>, Seq<Keyword>)) -> Result<u8, ErrorKind> {
    memory_id_result(field_arg(call.1, call.2, 0, "memory_id"@))
}

pub open spec fn max_key_size_field(call: (Expr, Seq<Expr>, Seq<Keyword>)) -> Result<u32, ErrorKind> {
    max_size_result(field_arg(call.1, call.2, 1, "max_key_size"@), ErrorKind::MaxKeySizeMissing)
}

pub open spec fn max_value_size_field(call: (Expr, Seq<Expr>, Seq<Keyword>)) -> Result<u32, ErrorKind> {
    max_size_result(field_arg(call.1, call.2, 2, "max_value_size"@), ErrorKind::MaxValueSizeMissing)
}

/// The diagnostics of a bounded-map declaration, in field order: memory id,
/// key and value types, max key size, max value size.
pub open spec fn storage_errors(s: Stmt) -> Seq<Error> {
    match storage_call(s) {
        None => Seq::empty(),
        Some(call) => kind_errors(memory_id_field(call), s.location) + type_errors(call.0, s.location)
            + kind_errors(max_key_size_field(call), s.location) + kind_errors(
            max_value_size_field(call),
            s.location,
        ),
    }
}

/// Whether `n` is the bounded map that statement `s` declares.
pub open spec fn storage_decl_matches(s: Stmt, n: StableBTreeMapNode) -> bool {
    &&& storage_call(s) matches Some(call)
    &&& memory_id_field(call) == Ok::<u8, ErrorKind>(n.memory_id)
    &&& key_value_exprs(call.0) matches Some((k, v))
    &&& resolves_to(k, n.key_type)
    &&& resolves_to(v, n.value_type)
    &&& max_key_size_field(call) == Ok::<u32, ErrorKind>(n.max_key_size)
    &&& max_value_size_field(call) == Ok::<u32, ErrorKind>(n.max_value_size)
}

/// Digits that are all zero denote zero.
proof fn lemma_magnitude_zero(d: Seq<u32>)
    requires
        forall|k: int| 0 <= k < d.len() ==> d[k] == 0,
    ensures
        magnitude(d) == 0,
    decreases d.len(),
{
    if d.len() > 0 {
        assert forall|k: int| 0 <= k < d.drop_first().len() implies d.drop_first()[k] == 0 by {
            assert(d.drop_first()[k] == d[k + 1]);
        }
        lemma_magnitude_zero(d.drop_first());
    }
}

/// A nonzero digit makes the magnitude positive.
proof fn lemma_magnitude_positive(d: Seq<u32>, k: int)
    requires
        0 <= k < d.len(),
        d[k] != 0,
    ensures
        magnitude(d) >= 1,
    decreases d.len(),
{
    if k > 0 {
        assert(d.drop_first()[k - 1] == d[k]);
        lemma_magnitude_positive(d.drop_first(), k - 1);
    }
}

/// The magnitude of `digits` when it fits in 32 bits.
fn small_magnitude(digits: &Vec<u32>) -> (r: Option<u32>)
    ensures
        r matches Some(v) ==> v as nat == magnitude(digits@),
        r is None ==> magnitude(digits@) > 4294967295,
{
    if digits.len() == 0 {
        return Some(0);
    }
    let mut i: usize = 1;
    while i < digits.len()
        invariant
            1 <= i <= digits@.len(),
            forall|k: int| 1 <= k < i ==> digits@[k] == 0,
        decreases digits@.len() - i,
    {
        if digits[i] != 0 {
            proof {
                assert(digits@.drop_first()[i - 1] == digits@[i as int]);
                lemma_magnitude_positive(digits@.drop_first(), i - 1);
            }
            return None;
        }
        i = i + 1;
    }
    proof {
        assert forall|k: int| 0 <= k < digits@.drop_first().len() implies digits@.drop_first()[k]
            == 0 by {
            assert(digits@.drop_first()[k] == digits@[k + 1]);
        }
        lemma_magnitude_zero(digits@.drop_first());
    }
    Some(digits[0])
}

/// The memory id an integer literal gives.
pub fn big_int_to_memory_id(lit: &IntLiteral) -> (r: Result<u8, ErrorKind>)
    ensures
        r == memory_id_of_literal(*lit),
{
    let small = small_magnitude(&lit.digits);
    if lit.negative {
        match small {
            Some(0) => {},
            _ => return Err(ErrorKind::MemoryIdMustBeNonNegative),
        }
    }
    match small {
        None => Err(ErrorKind::MemoryIdTooBig),
        Some(v) => if v > 255 {
            Err(ErrorKind::MemoryIdTooBig)
        } else {
            Ok(v as u8)
        },
    }
}

/// The max size an integer literal gives.
pub fn big_int_to_max_size(lit: &IntLiteral) -> (r: Result<u32, ErrorKind>)
    ensures
        r == max_size_of_literal(*lit),
{
    let small = small_magnitude(&lit.digits);
    if lit.negative {
        match small {
            Some(0) => {},
            _ => return Err(ErrorKind::MaxSizeMustBeNonNegative),
        }
    }
    match small {
        None => Err(ErrorKind::MaxSizeTooBig),
        Some(v) => Ok(v),
    }
}

/// The value of the first keyword argument named `name`.
pub fn get_keyword_by_name<'a>(name: &str, keywords: &'a Vec<Keyword>) -> (r: Option<&'a Expr>)
    ensures
        match keyword_from(keywords@, name@, 0) {
            Some(v) => r == Some(&v),
            None => r is None,
        },
{
    let mut i: usize = 0;
    while i < keywords.len()
        invariant
            i <= keywords@.len(),
            keyword_from(keywords@, name@, 0) == keyword_from(keywords@, name@, i as int),
        decreases keywords@.len() - i,
    {
        let kw = &keywords[i];
        let found = match &kw.arg {
            Some(a) => *a == String::from_str(name),
            None => false,
        };
        if found {
            return Some(&kw.value);
        }
        i = i + 1;
    }
    None
}

fn get_field<'a>(
    args: &'a Vec<Expr>,
    keywords: &'a Vec<Keyword>,
    index: usize,
    name: &str,
) -> (r: Option<&'a Expr>)
    ensures
        match field_arg(args@, keywords@, index as int, name@) {
            Some(v) => r == Some(&v),
            None => r is None,
        },
{
    if args.len() > index {
        Some(&args[index])
    } else {
        get_keyword_by_name(name, keywords)
    }
}

fn memory_id_from(arg: Option<&Expr>) -> (r: Result<u8, ErrorKind>)
    ensures
        r == memory_id_result(match arg {
            Some(e) => Some(*e),
            None => None,
        }),
{
    match arg {
        None => Err(ErrorKind::MissingMemoryId),
        Some(Expr::Int(lit)) => big_int_to_memory_id(lit),
        Some(_) => Err(ErrorKind::MemoryIdMustBeInteger),
    }
}

fn max_size_from(arg: Option<&Expr>, missing: ErrorKind) -> (r: Result<u32, ErrorKind>)
    ensures
        r == max_size_result(match arg {
            Some(e) => Some(*e),
            None => None,
        }, missing),
{
    match arg {
        None => Err(missing),
        Some(Expr::Int(lit)) => big_int_to_max_size(lit),
        Some(_) => Err(ErrorKind::MaxSizeMustBeInteger),
    }
}

fn push_kind_error<T>(errors: &mut Vec<Error>, r: &Result<T, ErrorKind>, loc: Location)
    ensures
        final(errors)@ == old(errors)@ + kind_errors(*r, loc),
{
    match r {
        Ok(_) => {
            assert(kind_errors(*r, loc) =~= Seq::<Error>::empty());
        },
        Err(k) => {
            errors.push(Error::new(*k, loc));
        },
    }
}

/// Resolves the key and value types of a `StableBTreeMap[K, V]` subscript.
fn key_value_types(slice: &Expr, loc: Location) -> (r: Result<(CandidType, CandidType), Vec<Error>>)
    ensures
        r is Err <==> type_errors(*slice, loc).len() > 0,
        r matches Err(es) ==> es@ == type_errors(*slice, loc),
        r matches Ok(kv) ==> key_value_exprs(*slice) matches Some((k, v)) && resolves_to(k, kv.0)
            && resolves_to(v, kv.1),
{
    match slice {
        Expr::Tuple(elts) => {
            if elts.len() == 2 {
                let k = to_candid_type(&elts[0], loc);
                let v = to_candid_type(&elts[1], loc);
                match (k, v) {
                    (Ok(k), Ok(v)) => {
                        assert(type_errors(*slice, loc) =~= Seq::<Error>::empty());
                        Ok((k, v))
                    },
                    (Err(a), Ok(_)) => {
                        assert(type_errors(*slice, loc) =~= seq![a]);
                        Err(vec![a])
                    },
                    (Ok(_), Err(b)) => {
                        assert(type_errors(*slice, loc) =~= seq![b]);
                        Err(vec![b])
                    },
                    (Err(a), Err(b)) => {
                        assert(type_errors(*slice, loc) =~= seq![a, b]);
                        Err(vec![a, b])
                    },
                }
            } else {
                Err(vec![Error::new(ErrorKind::StableBTreeMapNodeFormat, loc)])
            }
        },
        _ => Err(vec![Error::new(ErrorKind::StableBTreeMapNodeFormat, loc)]),
    }
}

/// The bounded map a statement declares, if it declares one. Every field is
/// examined, so every diagnostic of the declaration is reported.
pub fn as_stable_b_tree_map_node(s: &Stmt) -> (r: Result<Option<StableBTreeMapNode>, Vec<Error>>)
    ensures
        !is_storage_decl(*s) ==> r matches Ok(None),
        is_storage_decl(*s) ==> {
            &&& r is Err <==> storage_errors(*s).len() > 0
            &&& r matches Err(es) ==> es@ == storage_errors(*s)
            &&& r matches Ok(o) ==> o matches Some(n) && storage_decl_matches(*s, n)
        },
{
    let value = match s.get_assign_value() {
        Some(v) => v,
        None => return Ok(None),
    };
    let (func, args, keywords) = match value {
        Expr::Call { func, args, keywords } => (func, args, keywords),
        _ => return Ok(None),
    };
    let slice = match crate::ast::get_subscript_slice_for(func, "StableBTreeMap") {
        Some(x) => x,
        None => return Ok(None),
    };
    let loc = s.location;
    let memory_id = memory_id_from(get_field(args, keywords, 0, "memory_id"));
    let types = key_value_types(slice, loc);
    let max_key_size = max_size_from(
        get_field(args, keywords, 1, "max_key_size"),
        ErrorKind::MaxKeySizeMissing,
    );
    let max_value_size = max_size_from(
        get_field(args, keywords, 2, "max_value_size"),
        ErrorKind::MaxValueSizeMissing,
    );
    let mut errors: Vec<Error> = Vec::new();
    push_kind_error(&mut errors, &memory_id, loc);
    match &types {
        Ok(_) => {},
        Err(es) => {
            let mut more = es.clone();
            errors.append(&mut more);
        },
    }
    push_kind_error(&mut errors, &max_key_size, loc);
    push_kind_error(&mut errors, &max_value_size, loc);
    proof {
        let call = storage_call(*s)->Some_0;
        assert(errors@ =~= storage_errors(*s));
    }
    match (memory_id, types, max_key_size, max_value_size) {
        (Ok(memory_id), Ok((key_type, value_type)), Ok(max_key_size), Ok(max_value_size)) => {
            Ok(Some(StableBTreeMapNode { memory_id, key_type, value_type, max_key_size, max_value_size }))
        },
        _ => Err(errors),
    }
}


/// Giving the memory id, max key size and max value size positionally, or
/// giving the same values by keyword, declares the same bounded map: both
/// fail with diagnostics of the same kinds, or both declare the same node.
pub proof fn lemma_positional_and_keyword_agree(s1: Stmt, s2: Stmt)
    requires
        ({
            let c1 = storage_call(s1)->Some_0;
            let c2 = storage_call(s2)->Some_0;
            &&& storage_call(s1) is Some
            &&& storage_call(s2) is Some
            &&& c1.0 == c2.0
            &&& c1.1.len() == 3
            &&& c2.1.len() == 0
            &&& keyword_from(c2.2, "memory_id"@, 0) == Some(c1.1[0])
            &&& keyword_from(c2.2, "max_key_size"@, 0) == Some(c1.1[1])
            &&& keyword_from(c2.2, "max_value_size"@, 0) == Some(c1.1[2])
        }),
    ensures
        storage_errors(s1).map_values(|e: Error| e.kind) == storage_errors(s2).map_values(
            |e: Error| e.kind,
        ),
        forall|n: StableBTreeMapNode|
            storage_decl_matches(s1, n) <==> storage_decl_matches(s2, n),
{
    let c1 = storage_call(s1)->Some_0;
    let c2 = storage_call(s2)->Some_0;
    assert(memory_id_field(c1) == memory_id_field(c2));
    assert(max_key_size_field(c1) == max_key_size_field(c2));
    assert(max_value_size_field(c1) == max_value_size_field(c2));
    assert(storage_errors(s1).map_values(|e: Error| e.kind) =~= storage_errors(s2).map_values(
        |e: Error| e.kind,
    ));
}

} // verus!
