//! Syntax trees of CEL expressions.
//!
//! Every node carries the range of source bytes that it was read from. Nodes
//! that a macro expansion put into the tree carry the range of the macro call.

use vstd::prelude::*;

verus! {

/// A range of byte offsets into the source: from `start` up to, not including, `end`.
#[derive(Debug, Clone, Copy, PartialEq, Eq)]
pub struct Span {
    pub start: usize,
    pub end: usize,
}

/// An expression with its place in the source and the number that the parser gave it.
#[derive(Debug)]
pub struct SpannedExpr {
    pub id: i64,
    pub node: Expr,
    pub span: Span,
}

/// An element of a list literal.
#[derive(Debug)]
pub struct ListElement {
    pub expr: SpannedExpr,
    pub optional: bool,
}

/// An entry of a map literal.
#[derive(Debug)]
pub struct MapEntry {
    pub key: SpannedExpr,
    pub value: SpannedExpr,
    pub optional: bool,
}

/// A field of a message literal.
#[derive(Debug)]
pub struct StructField {
    pub name: String,
    pub value: SpannedExpr,
    pub optional: bool,
}

/// What a macro such as `all`, `exists`, `map` or `filter` expands to.
#[derive(Debug)]
pub struct ComprehensionData {
    /// The first iteration variable.
    pub iter_var: String,
    /// The second iteration variable, empty where the macro has one only.
    pub iter_var2: String,
    /// What is iterated over: the receiver of the macro call.
    pub iter_range: Box<SpannedExpr>,
    /// The step of the loop, which holds the expression that the user wrote.
    pub loop_step: Box<SpannedExpr>,
}

/// A CEL expression.
#[allow(inconsistent_fields)]
#[derive(Debug)]
pub enum Expr {
    Null,
    Bool(bool),
    Int(i64),
    UInt(u64),
    /// A floating-point literal. Its value is left to the source text.
    Float,
    String(String),
    Bytes(Vec<u8>),
    Ident(String),
    /// An identifier of the root scope, written with a leading dot.
    RootIdent(String),
    List(Vec<ListElement>),
    MapLiteral(Vec<MapEntry>),
    Unary { op: UnaryOp, expr: Box<SpannedExpr> },
    Binary { op: BinaryOp, left: Box<SpannedExpr>, right: Box<SpannedExpr> },
    Ternary {
        cond: Box<SpannedExpr>,
        then_expr: Box<SpannedExpr>,
        else_expr: Box<SpannedExpr>,
    },
    Member { expr: Box<SpannedExpr>, field: String, optional: bool },
    Index { expr: Box<SpannedExpr>, index: Box<SpannedExpr>, optional: bool },
    Call { expr: Box<SpannedExpr>, args: Vec<SpannedExpr> },
    Struct { message_type: Box<SpannedExpr>, fields: Vec<StructField> },
    Comprehension(ComprehensionData),
    /// What `has(expr.field)` expands to.
    MemberTestOnly { expr: Box<SpannedExpr>, field: String },
    /// What `cel.bind(var_name, init, body)` expands to.
    Bind { var_name: String, init: Box<SpannedExpr>, body: Box<SpannedExpr> },
    /// A part of the source that could not be parsed.
    Error,
}

#[derive(Debug, Clone, Copy, PartialEq, Eq)]
pub enum UnaryOp {
    Neg,
    Not,
}

#[derive(Debug, Clone, Copy, PartialEq, Eq)]
pub enum BinaryOp {
    Add,
    Sub,
    Mul,
    Div,
    Mod,
    Eq,
    Ne,
    Lt,
    Le,
    Gt,
    Ge,
    In,
    And,
    Or,
}

impl BinaryOp {
    /// The operator as it is written.
    pub open spec fn text(self) -> Seq<char> {
        match self {
            BinaryOp::Add => "+"@,
            BinaryOp::Sub => "-"@,
            BinaryOp::Mul => "*"@,
            BinaryOp::Div => "/"@,
            BinaryOp::Mod => "%"@,
            BinaryOp::Eq => "=="@,
            BinaryOp::Ne => "!="@,
            BinaryOp::Lt => "<"@,
            BinaryOp::Le => "<="@,
            BinaryOp::Gt => ">"@,
            BinaryOp::Ge => ">="@,
            BinaryOp::In => "in"@,
            BinaryOp::And => "&&"@,
            BinaryOp::Or => "||"@,
        }
    }

    /// Every operator is written with at least one character.
    pub proof fn text_is_not_empty(self)
        ensures
            self.text().len() > 0,
    {
        reveal_strlit("+");
        reveal_strlit("-");
        reveal_strlit("*");
        reveal_strlit("/");
        reveal_strlit("%");
        reveal_strlit("==");
        reveal_strlit("!=");
        reveal_strlit("<");
        reveal_strlit("<=");
        reveal_strlit(">");
        reveal_strlit(">=");
        reveal_strlit("in");
        reveal_strlit("&&");
        reveal_strlit("||");
    }

    /// Operators are spelled as in CEL: with one sign, with two, or as a word.
    pub proof fn operators_are_spelled(self)
        ensures
            self.text() == match self {
                BinaryOp::Add => seq!['+'],
                BinaryOp::Sub => seq!['-'],
                BinaryOp::Mul => seq!['*'],
                BinaryOp::Div => seq!['/'],
                BinaryOp::Mod => seq!['%'],
                BinaryOp::Eq => seq!['=', '='],
                BinaryOp::Ne => seq!['!', '='],
                BinaryOp::Lt => seq!['<'],
                BinaryOp::Le => BinaryOp::Lt.text() + seq!['='],
                BinaryOp::Gt => seq!['>'],
                BinaryOp::Ge => BinaryOp::Gt.text() + seq!['='],
                BinaryOp::In => seq!['i', 'n'],
                BinaryOp::And => seq!['&', '&'],
                BinaryOp::Or => seq!['|', '|'],
            },
    {
        reveal_strlit("+");
        reveal_strlit("-");
        reveal_strlit("*");
        reveal_strlit("/");
        reveal_strlit("%");
        reveal_strlit("==");
        reveal_strlit("!=");
        reveal_strlit("<");
        reveal_strlit("<=");
        reveal_strlit(">");
        reveal_strlit(">=");
        reveal_strlit("in");
        reveal_strlit("&&");
        reveal_strlit("||");
        assert(BinaryOp::Lt.text() + seq!['='] =~= "<="@);
        assert(BinaryOp::Gt.text() + seq!['='] =~= ">="@);
    }

    /// The operator as it is written.
    pub fn as_str(self) -> (text: &'static str)
        ensures
            text@ == self.text(),
    {
        match self {
            BinaryOp::Add => "+",
            BinaryOp::Sub => "-",
            BinaryOp::Mul => "*",
            BinaryOp::Div => "/",
            BinaryOp::Mod => "%",
            BinaryOp::Eq => "==",
            BinaryOp::Ne => "!=",
            BinaryOp::Lt => "<",
            BinaryOp::Le => "<=",
            BinaryOp::Gt => ">",
            BinaryOp::Ge => ">=",
            BinaryOp::In => "in",
            BinaryOp::And => "&&",
            BinaryOp::Or => "||",
        }
    }
}

} // verus!
