//! The abstract syntax tree of a Simpla program.
//!
//! Every expression node carries a source span (`Location`, a half-open
//! pair of byte offsets into the source text) and a type slot that is
//! empty after parsing and filled by the semantic analyzer.

use vstd::prelude::*;

verus! {

/// A half-open span `[begin, end)` of byte offsets into the source text.
#[derive(Clone, Copy, PartialEq, Eq, Structural, Debug)]
pub struct Location {
    pub begin: usize,
    pub end: usize,
}

impl Location {
    pub fn new(begin: usize, end: usize) -> (r: Self)
        ensures
            r.begin == begin,
            r.end == end,
    {
        Self { begin, end }
    }
}

/// The five kinds of the language. `Void` is legal only as a function
/// result, never as a variable or expression type.
#[derive(Clone, Copy, PartialEq, Eq, Structural, Debug)]
pub enum Kind {
    Int,
    Real,
    Str,
    Bool,
    Void,
}

/// Binary operators: relational, numeric, and logic.
#[derive(Clone, Copy, PartialEq, Eq, Structural, Debug)]
pub enum Operator {
    Equal,
    NotEqual,
    Greater,
    GreaterEqual,
    Less,
    LessEqual,
    Add,
    Sub,
    Mul,
    Div,
    And,
    Or,
}

/// A variable declaration: a non-empty list of names, all of one kind.
#[derive(PartialEq, Debug)]
pub struct VarDecl {
    pub id_list: IdList,
    pub kind: Kind,
    pub loc: Location,
}

impl VarDecl {
    pub fn new(id_list: IdList, kind: Kind, begin: usize, end: usize) -> (r: Self)
        ensures
            r.id_list == id_list,
            r.kind == kind,
            r.loc == (Location { begin, end }),
    {
        Self { id_list, kind, loc: Location::new(begin, end) }
    }
}

/// A formal parameter; the enclosing function's span locates it.
#[derive(PartialEq, Debug)]
pub struct ParamDecl {
    pub id: String,
    pub kind: Kind,
}

impl ParamDecl {
    pub fn new(id: String, kind: Kind) -> (r: Self)
        ensures
            r.id == id,
            r.kind == kind,
    {
        Self { id, kind }
    }
}

impl Clone for ParamDecl {
    fn clone(&self) -> (res: Self)
        ensures
            res == *self,
    {
        ParamDecl { id: self.id.clone(), kind: self.kind }
    }
}

impl Clone for VarDecl {
    fn clone(&self) -> (res: Self)
        ensures
            res.id_list@ == self.id_list@,
            res.kind == self.kind,
            res.loc == self.loc,
    {
        let ids = self.id_list.clone();
        proof {
            assert(ids@ =~= self.id_list@);
        }
        VarDecl { id_list: ids, kind: self.kind, loc: self.loc }
    }
}

/// A function declaration. Parameters and local variables share one
/// scope; the body is checked against the declared result kind.
#[derive(PartialEq, Debug)]
pub struct FuncDecl {
    pub id: String,
    pub kind: Kind,
    pub params: ParamList,
    pub vars: VarDeclList,
    pub body: StatList,
    pub loc: Location,
}

impl FuncDecl {
    pub fn new(
        id: String,
        params: ParamList,
        kind: Kind,
        vars: VarDeclList,
        body: StatList,
        begin: usize,
        end: usize,
    ) -> (r: Self)
        ensures
            r.id == id,
            r.kind == kind,
            r.params == params,
            r.vars == vars,
            r.body == body,
            r.loc == (Location { begin, end }),
    {
        Self { id, params, kind, vars, body, loc: Location::new(begin, end) }
    }
}

/// A whole program: global variables, functions, and the main body.
#[derive(PartialEq, Debug)]
pub struct Program {
    pub global_vars: VarDeclList,
    pub functions: FuncDeclList,
    pub body: StatList,
}

impl Program {
    pub fn new(global_vars: VarDeclList, functions: FuncDeclList, body: StatList) -> (r: Self)
        ensures
            r.global_vars == global_vars,
            r.functions == functions,
            r.body == body,
    {
        Self { global_vars, functions, body }
    }
}

/// A statement together with its source span.
#[derive(PartialEq, Debug)]
pub struct Stat {
    pub loc: Location,
    pub stat: StatType,
}

impl Stat {
    pub fn new(stat: StatType, begin: usize, end: usize) -> (r: Self)
        ensures
            r.stat == stat,
            r.loc == (Location { begin, end }),
    {
        Self { stat, loc: Location::new(begin, end) }
    }
}

/// The statement variants.
#[derive(PartialEq, Debug)]
pub enum StatType {
    AssignStat(AssignStat),
    IfStat(IfStat),
    WhileStat(WhileStat),
    ForStat(ForStat),
    ReturnStat(Option<Expr>),
    ReadStat(IdList),
    WriteStat(WriteStat),
    FuncCall(FuncCall),
    Break,
}

/// An assignment `id = expr`.
#[derive(PartialEq, Debug)]
pub struct AssignStat {
    pub id: String,
    pub expr: Expr,
}

impl AssignStat {
    pub fn new(id: String, expr: Expr) -> (r: Self)
        ensures
            r.id == id,
            r.expr == expr,
    {
        Self { id, expr }
    }
}

/// An `if` statement with an optional `else` branch.
#[derive(PartialEq, Debug)]
pub struct IfStat {
    pub cond: Expr,
    pub if_body: StatList,
    pub else_body: Option<StatList>,
}

impl IfStat {
    pub fn new(cond: Expr, if_body: StatList, else_body: Option<StatList>) -> (r: Self)
        ensures
            r.cond == cond,
            r.if_body == if_body,
            r.else_body == else_body,
    {
        Self { cond, if_body, else_body }
    }
}

/// A `while` loop.
#[derive(PartialEq, Debug)]
pub struct WhileStat {
    pub cond: Expr,
    pub body: StatList,
}

impl WhileStat {
    pub fn new(cond: Expr, body: StatList) -> (r: Self)
        ensures
            r.cond == cond,
            r.body == body,
    {
        Self { cond, body }
    }
}

/// A `for id = begin to end do ... end` loop.
#[derive(PartialEq, Debug)]
pub struct ForStat {
    pub id: String,
    pub begin_expr: Expr,
    pub end_expr: Expr,
    pub body: StatList,
}

impl ForStat {
    pub fn new(id: String, begin_expr: Expr, end_expr: Expr, body: StatList) -> (r: Self)
        ensures
            r.id == id,
            r.begin_expr == begin_expr,
            r.end_expr == end_expr,
            r.body == body,
    {
        Self { id, begin_expr, end_expr, body }
    }
}

/// A `write` or `writeln` statement with its argument list.
#[derive(PartialEq, Debug)]
pub enum WriteStat {
    WriteLine(ExprList),
    Write(ExprList),
}

/// A function call, as a statement or as a factor.
#[derive(PartialEq, Debug)]
pub struct FuncCall {
    pub id: String,
    pub args: ExprList,
}

impl FuncCall {
    pub fn new(id: String, args: ExprList) -> (r: Self)
        ensures
            r.id == id,
            r.args == args,
    {
        Self { id, args }
    }
}

/// An expression: a span, a type slot, and the expression tree itself.
/// The parser leaves `kind` empty; the type checker fills it once.
#[derive(PartialEq, Debug)]
pub struct Expr {
    pub loc: Location,
    pub expr: ExprTree,
    pub kind: Option<Kind>,
}

impl Expr {
    pub fn new(expr: ExprTree, begin: usize, end: usize) -> (r: Self)
        ensures
            r.expr == expr,
            r.loc == (Location { begin, end }),
            r.kind is None,
    {
        Self { expr, loc: Location::new(begin, end), kind: None }
    }
}

/// Either a binary node or a single factor.
#[derive(PartialEq, Debug)]
pub enum ExprTree {
    Node(Box<Expr>, Operator, Box<Expr>),
    Factor(Factor),
}

/// A factor with its own type slot, filled by the type checker.
#[derive(PartialEq, Debug)]
pub struct Factor {
    pub fact: FactorValue,
    pub kind: Option<Kind>,
}

impl Factor {
    pub fn new(fact: FactorValue) -> (r: Self)
        ensures
            r.fact == fact,
            r.kind is None,
    {
        Self { fact, kind: None }
    }
}

/// The factor variants. `HighPrecedence` keeps a parenthesized
/// expression in the tree so the syntax round-trips.
#[derive(PartialEq, Debug)]
pub enum FactorValue {
    Id(String),
    UnaryOp(UnaryOp),
    CondExpr(CondExpr),
    CastExpr(CastExpr),
    FuncCall(FuncCall),
    Const(Const),
    HighPrecedence(Box<Expr>),
}

/// A literal constant. A real literal is carried as the bit pattern of
/// its IEEE-754 double value, which is also exactly what the bytecode
/// stream stores for it.
#[derive(PartialEq, Debug)]
pub enum Const {
    IntConst(i32),
    RealConst(u64),
    StrConst(String),
    BoolConst(bool),
}

impl Clone for Const {
    fn clone(&self) -> (res: Self)
        ensures
            res == *self,
    {
        match self {
            Const::IntConst(i) => Const::IntConst(*i),
            Const::RealConst(r) => Const::RealConst(*r),
            Const::StrConst(s) => Const::StrConst(s.clone()),
            Const::BoolConst(b) => Const::BoolConst(*b),
        }
    }
}

/// Arithmetic negation (`-`) or logic negation (`not`) of a factor.
#[derive(PartialEq, Debug)]
pub enum UnaryOp {
    Negate(Box<Factor>),
    Minus(Box<Factor>),
}

/// A conditional expression `if cond then e1 else e2`.
#[derive(PartialEq, Debug)]
pub struct CondExpr {
    pub cond: Box<Expr>,
    pub true_stat: Box<Expr>,
    pub false_stat: Box<Expr>,
}

impl CondExpr {
    pub fn new(cond: Expr, true_stat: Expr, false_stat: Expr) -> (r: Self)
        ensures
            r.cond == Box::new(cond),
            r.true_stat == Box::new(true_stat),
            r.false_stat == Box::new(false_stat),
    {
        Self {
            cond: Box::new(cond),
            true_stat: Box::new(true_stat),
            false_stat: Box::new(false_stat),
        }
    }
}

/// A cast to integer or to real.
#[derive(PartialEq, Debug)]
pub enum CastExpr {
    Integer(Box<Expr>),
    Real(Box<Expr>),
}

pub type StatList = Vec<Stat>;

pub type VarDeclList = Vec<VarDecl>;

pub type ParamList = Vec<ParamDecl>;

pub type IdList = Vec<String>;

pub type ExprList = Vec<Expr>;

pub type FuncDeclList = Vec<FuncDecl>;

} // verus!
