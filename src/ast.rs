//! The syntax tree that the analysis reads: module-level statements and the
//! expressions inside them, each statement carrying its source location.
use vstd::prelude::*;

verus! {

/// Where a statement starts in its source file.
#[derive(Clone, Copy, Debug, PartialEq, Eq, Structural)]
pub struct Location {
    pub line: u32,
    pub column: u32,
}

/// An integer literal of any size: a sign and the magnitude's base-2^32
/// digits, least significant first.
#[derive(Debug)]
pub struct IntLiteral {
    pub negative: bool,
    pub digits: Vec<u32>,
}

/// The value of a magnitude given as base-2^32 digits, least significant first.
pub open spec fn magnitude(digits: Seq<u32>) -> nat
    decreases digits.len(),
{
    if digits.len() == 0 {
        0
    } else {
        (digits[0] as nat + 4294967296 * magnitude(digits.drop_first())) as nat
    }
}

impl IntLiteral {
    /// The integer the literal denotes.
    pub open spec fn value(&self) -> int {
        if self.negative {
            -magnitude(self.digits@)
        } else {
            magnitude(self.digits@) as int
        }
    }
}

/// An expression. Forms the analysis does not inspect are `Other`.
#[derive(Debug)]
pub enum Expr {
    /// A bare identifier.
    Name(String),
    /// `value[slice]`.
    Subscript { value: Box<Expr>, slice: Box<Expr> },
    /// A parenthesised or bare tuple `a, b`.
    Tuple(Vec<Expr>),
    /// `func(args..., keywords...)`.
    Call { func: Box<Expr>, args: Vec<Expr>, keywords: Vec<Keyword> },
    /// An integer literal, possibly negated.
    Int(IntLiteral),
    Other,
}

/// A keyword argument `arg=value` of a call; `arg` is absent for `**value`.
#[derive(Debug)]
pub struct Keyword {
    pub arg: Option<String>,
    pub value: Expr,
}

/// A statement together with where it starts.
#[derive(Debug)]
pub struct Stmt {
    pub kind: StmtKind,
    pub location: Location,
}

/// A parameter `arg` or `arg: annotation` of a function definition.
#[derive(Debug)]
pub struct Arg {
    pub arg: String,
    pub annotation: Option<Expr>,
}

/// The statement forms the analysis distinguishes; all others are `Other`.
#[derive(Debug)]
pub enum StmtKind {
    /// `def name(args...): ...`; the body is not analysed.
    FunctionDef { name: String, args: Vec<Arg> },
    /// `class name(bases...): body`.
    ClassDef { name: String, bases: Vec<Expr>, body: Vec<Stmt> },
    /// `targets[0] = targets[1] = ... = value`.
    Assign { targets: Vec<Expr>, value: Expr },
    /// `target: annotation` or `target: annotation = value`.
    AnnAssign { target: Expr, annotation: Expr, value: Option<Expr> },
    /// An expression standing alone as a statement.
    Expr(Expr),
    Other,
}

/// `e` is the identifier `n`.
pub open spec fn is_name(e: Expr, n: Seq<char>) -> bool {
    e matches Expr::Name(id) && id@ == n
}

/// The slice of `e` when `e` is `g[slice]` for the identifier `g`.
pub open spec fn subscript_of(e: Expr, g: Seq<char>) -> Option<Expr> {
    match e {
        Expr::Subscript { value, slice } => if is_name(*value, g) {
            Some(*slice)
        } else {
            None
        },
        _ => None,
    }
}

/// The value a statement binds: that of a plain assignment, or of an
/// annotated one that has a value.
pub open spec fn assigned_value(s: Stmt) -> Option<Expr> {
    match s.kind {
        StmtKind::Assign { value, .. } => Some(value),
        StmtKind::AnnAssign { value, .. } => value,
        _ => None,
    }
}

/// The name a statement binds: its single target when that is an identifier.
pub open spec fn binding_name(s: Stmt) -> Option<Seq<char>> {
    match s.kind {
        StmtKind::Assign { targets, .. } => if targets.len() == 1 && targets[0] is Name {
            Some(targets[0]->Name_0@)
        } else {
            None
        },
        StmtKind::AnnAssign { target, .. } => match target {
            Expr::Name(id) => Some(id@),
            _ => None,
        },
        _ => None,
    }
}

/// Whether `e` is the identifier `n`.
pub fn is_named(e: &Expr, n: &str) -> (r: bool)
    ensures
        r == is_name(*e, n@),
{
    match e {
        Expr::Name(id) => *id == String::from_str(n),
        _ => false,
    }
}

/// The slice of `e` when `e` is `g[slice]`.
pub fn get_subscript_slice_for<'a>(e: &'a Expr, g: &str) -> (r: Option<&'a Expr>)
    ensures
        match subscript_of(*e, g@) {
            Some(s) => r == Some(&s),
            None => r is None,
        },
{
    match e {
        Expr::Subscript { value, slice } => {
            if is_named(value, g) {
                Some(&**slice)
            } else {
                None
            }
        },
        _ => None,
    }
}

impl Stmt {
    /// The value this statement binds, if it is an assignment with a value.
    pub fn get_assign_value(&self) -> (r: Option<&Expr>)
        ensures
            match assigned_value(*self) {
                Some(v) => r == Some(&v),
                None => r is None,
            },
    {
        match &self.kind {
            StmtKind::Assign { value, .. } => Some(value),
            StmtKind::AnnAssign { value, .. } => match value {
                Some(v) => Some(v),
                None => None,
            },
            _ => None,
        }
    }

    /// The name this statement binds, if any.
    pub fn get_name(&self) -> (r: Option<String>)
        ensures
            match binding_name(*self) {
                Some(n) => r matches Some(s) && s@ == n,
                None => r is None,
            },
    {
        match &self.kind {
            StmtKind::Assign { targets, .. } => {
                if targets.len() == 1 {
                    match &targets[0] {
                        Expr::Name(id) => Some(id.clone()),
                        _ => None,
                    }
                } else {
                    None
                }
            },
            StmtKind::AnnAssign { target, .. } => match target {
                Expr::Name(id) => Some(id.clone()),
                _ => None,
            },
            _ => None,
        }
    }
}

} // verus!
