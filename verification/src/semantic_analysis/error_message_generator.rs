//! The diagnostic text of each semantic error: a kind, a description,
//! and the source excerpt of every span the error carries. The wording
//! of every message is stated once (`err_message_bytes`); the formatter
//! produces exactly those bytes.

use vstd::prelude::*;
use vstd::string::StringSliceAdditionalSpecFns;
use vstd::utf8::{encode_utf8, valid_utf8};
use crate::extract_line_error::{
    dec_bytes, excerpt_bytes, message_bytes, push_dec, push_lit, string_from_bytes,
};
use crate::syntax_tree::{Kind, Location, Operator};
use super::semantic_error::{
    CastErrorType, ForLoopErrorType, MismatchedUnaryType, NonBooleanConditionType, Ridefinition,
    ReturnErrorType, SemanticError,
};

verus! {

/// The name of a kind in diagnostics.
pub open spec fn kind_bytes(k: Kind) -> Seq<u8> {
    match k {
        Kind::Bool => "bool".spec_bytes(),
        Kind::Int => "integer".spec_bytes(),
        Kind::Real => "real".spec_bytes(),
        Kind::Str => "string".spec_bytes(),
        Kind::Void => "void".spec_bytes(),
    }
}

/// The name of an operator in diagnostics.
pub open spec fn operator_bytes(o: Operator) -> Seq<u8> {
    match o {
        Operator::Equal => "Equal".spec_bytes(),
        Operator::NotEqual => "NotEqual".spec_bytes(),
        Operator::Greater => "Greater".spec_bytes(),
        Operator::GreaterEqual => "GreaterEqual".spec_bytes(),
        Operator::Less => "Less".spec_bytes(),
        Operator::LessEqual => "LessEqual".spec_bytes(),
        Operator::Add => "Add".spec_bytes(),
        Operator::Sub => "Sub".spec_bytes(),
        Operator::Mul => "Mul".spec_bytes(),
        Operator::Div => "Div".spec_bytes(),
        Operator::And => "And".spec_bytes(),
        Operator::Or => "Or".spec_bytes(),
    }
}

/// Where a colliding definition lives, with its excerpt.
pub open spec fn ridef_bytes(r: Ridefinition, b: Seq<u8>) -> Seq<u8> {
    match r {
        Ridefinition::Function(loc) => "function here:\n".spec_bytes() + message_bytes(
            b,
            loc.begin as int,
            loc.end as int,
        ),
        Ridefinition::Variable(loc) => "variable here:\n".spec_bytes() + message_bytes(
            b,
            loc.begin as int,
            loc.end as int,
        ),
    }
}

/// A name list joined with commas.
pub open spec fn joined_bytes(ids: Seq<String>, i: int) -> Seq<u8>
    decreases ids.len() - i,
{
    if i < 0 || i >= ids.len() {
        Seq::empty()
    } else if i == ids.len() - 1 {
        encode_utf8(ids[i]@)
    } else {
        encode_utf8(ids[i]@) + ", ".spec_bytes() + joined_bytes(ids, i + 1)
    }
}

/// The excerpt of a span.
pub open spec fn span_bytes(loc: Location, b: Seq<u8>) -> Seq<u8> {
    message_bytes(b, loc.begin as int, loc.end as int)
}

/// The full diagnostic of an error, over the source bytes `b`: its
/// kind, its description, and the excerpt of every span it carries.
pub open spec fn err_message_bytes(e: SemanticError, b: Seq<u8>) -> Seq<u8> {
    match e {
        SemanticError::NameRidefinition(r) => "name error: ".spec_bytes() + encode_utf8(r.name@)
            + " defined multiple times, originally: ".spec_bytes() + ridef_bytes(r.original, b)
            + ", redefined: ".spec_bytes() + ridef_bytes(r.new, b),
        SemanticError::VoidVariableDeclaration(v) => "void declaration error: Variables: [".spec_bytes()
            + joined_bytes(v.names@, 0)
            + "] defined as type void: only function can have type void:\n".spec_bytes()
            + span_bytes(v.loc, b),
        SemanticError::MismatchedOperationTypes(m) => "mismatched operation error: left type: ".spec_bytes()
            + kind_bytes(m.left) + " right type: ".spec_bytes() + kind_bytes(m.right)
            + ":\n".spec_bytes() + span_bytes(m.loc, b),
        SemanticError::IncoherentOperation(i) => "incoherent operation error: cannot apply operator ".spec_bytes()
            + operator_bytes(i.operator) + " to type ".spec_bytes() + kind_bytes(i.var_kind)
            + "\n".spec_bytes() + span_bytes(i.loc, b),
        SemanticError::CastError(c) => match c.error {
            CastErrorType::ToInt(k) => "cast error: cannot cast ".spec_bytes() + kind_bytes(k)
                + " into integer:\n".spec_bytes() + span_bytes(c.loc, b),
            CastErrorType::ToReal(k) => "cast error: cannot cast ".spec_bytes() + kind_bytes(k)
                + " into real:\n".spec_bytes() + span_bytes(c.loc, b),
        },
        SemanticError::NonBooleanCondition(n) => "condition error: ".spec_bytes() + (match n.error {
            NonBooleanConditionType::IfStat(k) => "if statement requires a boolean expression as condition, found: ".spec_bytes()
                + kind_bytes(k),
            NonBooleanConditionType::WhileStat(k) => "while statement requires a boolean expression as condition, found: ".spec_bytes()
                + kind_bytes(k),
            NonBooleanConditionType::CondStat(k) => "conditional statement requires a boolean expression as condition, found: ".spec_bytes()
                + kind_bytes(k),
        }) + "\n".spec_bytes() + span_bytes(n.loc, b),
        SemanticError::MismatchedConditionalExpression(m) => "conditional expression error: left type: ".spec_bytes()
            + kind_bytes(m.left) + " right type: ".spec_bytes() + kind_bytes(m.right)
            + ":\n".spec_bytes() + span_bytes(m.loc, b),
        SemanticError::UnknownFunction(name) => "unknown function error: ".spec_bytes()
            + encode_utf8(name@),
        SemanticError::UnknownVariable(name) => "unknown variable error: ".spec_bytes()
            + encode_utf8(name@),
        SemanticError::MismatchedUnary(m) => "negation error: ".spec_bytes() + (match m.error {
            MismatchedUnaryType::Logic(k) => "logic negation cannot be applied to type: ".spec_bytes()
                + kind_bytes(k),
            MismatchedUnaryType::Numeric(k) => "arithmetic negation cannot be applied to type: ".spec_bytes()
                + kind_bytes(k),
        }) + "\n".spec_bytes() + span_bytes(m.loc, b),
        SemanticError::ArgumentCountError(a) => "argument count error: function: ".spec_bytes()
            + encode_utf8(a.func_name@) + " expected ".spec_bytes() + dec_bytes(a.expected as int)
            + " args, but ".spec_bytes() + dec_bytes(a.found as int)
            + " are used in function call:\n".spec_bytes() + span_bytes(a.func_loc, b),
        SemanticError::MismatchedArgumentType(m) => "argument type error: calling function ".spec_bytes()
            + encode_utf8(m.func_name@) + " argument expected type: ".spec_bytes() + kind_bytes(
            m.correct,
        ) + ", found ".spec_bytes() + kind_bytes(m.given) + " in position ".spec_bytes()
            + dec_bytes(shown_position(m.index as int)) + ":\nFunction declaration: ".spec_bytes() + span_bytes(
            m.func_loc,
            b,
        ) + "\nFunction call: ".spec_bytes() + span_bytes(m.loc, b),
        SemanticError::MismatchedAssignment(m) => "assignment error: expected ".spec_bytes()
            + kind_bytes(m.correct) + ", found ".spec_bytes() + kind_bytes(m.given)
            + " in variable ".spec_bytes() + encode_utf8(m.name@) + " assignment:\n".spec_bytes()
            + span_bytes(m.loc, b),
        SemanticError::BreakOutsideLoop => "break error: break outside loop".spec_bytes(),
        SemanticError::ForLoopError(f) => "for loop error: ".spec_bytes() + (match f.error {
            ForLoopErrorType::CountVariableAssignment(name) => "count variable ".spec_bytes()
                + encode_utf8(name@) + " is modified into loop body".spec_bytes(),
            ForLoopErrorType::NonIntegerCount(k) => "count variable is declared as ".spec_bytes()
                + kind_bytes(k) + ", expected integer".spec_bytes(),
            ForLoopErrorType::NonIntegerStart(k) => "for loop start expression of type ".spec_bytes()
                + kind_bytes(k) + ", expected integer".spec_bytes(),
            ForLoopErrorType::NonIntegerEnd(k) => "for loop end expression of type ".spec_bytes()
                + kind_bytes(k) + ", expected integer".spec_bytes(),
        }) + "\n".spec_bytes() + span_bytes(f.loc, b),
        SemanticError::ReturnError(r) => "return error: ".spec_bytes() + (match r.error {
            ReturnErrorType::ReturnOutsideFunction => "return statement is not allowed in main body, only in function declaration:".spec_bytes(),
            ReturnErrorType::MismatchedReturnType(correct, given) => "return statement type: ".spec_bytes()
                + kind_bytes(correct) + ", but ".spec_bytes() + kind_bytes(given)
                + " was expected:".spec_bytes(),
        }) + "\n".spec_bytes() + span_bytes(r.loc, b),
        SemanticError::MissingReturn(m) => "missing return error: a function of type ".spec_bytes()
            + kind_bytes(m.kind)
            + " must end every path with a return statement:\n".spec_bytes() + span_bytes(
            m.func_loc,
            b,
        ) + "\nlast statement here:\n".spec_bytes() + span_bytes(m.stat_loc, b),
    }
}

/// Write a kind's name.
fn push_kind(out: &mut Vec<u8>, k: &Kind)
    ensures
        final (out)@ == old(out)@ + kind_bytes(*k),
{
    match k {
        Kind::Bool => push_lit(out, "bool"),
        Kind::Int => push_lit(out, "integer"),
        Kind::Real => push_lit(out, "real"),
        Kind::Str => push_lit(out, "string"),
        Kind::Void => push_lit(out, "void"),
    }
}

/// Write an operator's name.
fn push_operator(out: &mut Vec<u8>, o: &Operator)
    ensures
        final (out)@ == old(out)@ + operator_bytes(*o),
{
    match o {
        Operator::Equal => push_lit(out, "Equal"),
        Operator::NotEqual => push_lit(out, "NotEqual"),
        Operator::Greater => push_lit(out, "Greater"),
        Operator::GreaterEqual => push_lit(out, "GreaterEqual"),
        Operator::Less => push_lit(out, "Less"),
        Operator::LessEqual => push_lit(out, "LessEqual"),
        Operator::Add => push_lit(out, "Add"),
        Operator::Sub => push_lit(out, "Sub"),
        Operator::Mul => push_lit(out, "Mul"),
        Operator::Div => push_lit(out, "Div"),
        Operator::And => push_lit(out, "And"),
        Operator::Or => push_lit(out, "Or"),
    }
}

/// Write a number in decimal.
fn push_count(out: &mut Vec<u8>, n: usize)
    ensures
        final (out)@ == old(out)@ + dec_bytes(n as int),
{
    push_dec(out, n);
}

/// A position shown to the user: one past the index, within the
/// machine's range.
pub open spec fn shown_position(i: int) -> int {
    if i < usize::MAX {
        i + 1
    } else {
        i
    }
}

/// Write the bytes of a name.
fn push_name(out: &mut Vec<u8>, name: &String)
    ensures
        final (out)@ == old(out)@ + encode_utf8(name@),
{
    push_lit(out, name.as_str());
}

/// Write the excerpt of a span.
fn push_span(out: &mut Vec<u8>, loc: &Location, code: &str)
    ensures
        final (out)@ == old(out)@ + span_bytes(*loc, code.spec_bytes()),
{
    let ex = excerpt_bytes(code, loc.begin, loc.end);
    let m = ex.len();
    for i in 0..m
        invariant
            m == ex@.len(),
            ex@ == span_bytes(*loc, code.spec_bytes()),
            out@ == old(out)@ + ex@.take(i as int),
    {
        out.push(ex[i]);
        proof {
            assert(out@ =~= old(out)@ + ex@.take(i as int + 1));
        }
    }
    proof {
        assert(ex@.take(m as int) =~= ex@);
    }
}

/// Write one colliding definition with its excerpt.
fn push_ridef(out: &mut Vec<u8>, r: &Ridefinition, code: &str)
    ensures
        final (out)@ == old(out)@ + ridef_bytes(*r, code.spec_bytes()),
{
    match r {
        Ridefinition::Function(loc) => {
            push_lit(out, "function here:\n");
            push_span(out, loc, code);
        },
        Ridefinition::Variable(loc) => {
            push_lit(out, "variable here:\n");
            push_span(out, loc, code);
        },
    }
}

/// Write a name list joined with commas.
fn push_joined(out: &mut Vec<u8>, ids: &Vec<String>, i: usize)
    requires
        i <= ids@.len(),
    ensures
        final (out)@ == old(out)@ + joined_bytes(ids@, i as int),
    decreases ids@.len() - i,
{
    if i >= ids.len() {
        proof {
            assert(old(out)@ + joined_bytes(ids@, i as int) =~= old(out)@);
        }
    } else if i == ids.len() - 1 {
        push_name(out, &ids[i]);
    } else {
        push_name(out, &ids[i]);
        push_lit(out, ", ");
        push_joined(out, ids, i + 1);
        proof {
            assert(final (out)@ =~= old(out)@ + joined_bytes(ids@, i as int));
        }
    }
}

impl SemanticError {
    /// The full diagnostic of this error: exactly the bytes of
    /// `err_message_bytes`, as text.
    #[verifier::rlimit(100)]
    pub fn format_error(&self, code: &str) -> (r: String)
        ensures
            valid_utf8(err_message_bytes(*self, code.spec_bytes())) ==> encode_utf8(r@)
                == err_message_bytes(*self, code.spec_bytes()),
    {
        let ghost b = code.spec_bytes();
        let mut msg: Vec<u8> = Vec::new();
        match self {
            SemanticError::NameRidefinition(r) => {
                push_lit(&mut msg, "name error: ");
                push_name(&mut msg, &r.name);
                push_lit(&mut msg, " defined multiple times, originally: ");
                push_ridef(&mut msg, &r.original, code);
                push_lit(&mut msg, ", redefined: ");
                push_ridef(&mut msg, &r.new, code);
            },
            SemanticError::VoidVariableDeclaration(v) => {
                push_lit(&mut msg, "void declaration error: Variables: [");
                push_joined(&mut msg, &v.names, 0);
                push_lit(&mut msg, "] defined as type void: only function can have type void:\n");
                push_span(&mut msg, &v.loc, code);
            },
            SemanticError::MismatchedOperationTypes(m) => {
                push_lit(&mut msg, "mismatched operation error: left type: ");
                push_kind(&mut msg, &m.left);
                push_lit(&mut msg, " right type: ");
                push_kind(&mut msg, &m.right);
                push_lit(&mut msg, ":\n");
                push_span(&mut msg, &m.loc, code);
            },
            SemanticError::IncoherentOperation(i) => {
                push_lit(&mut msg, "incoherent operation error: cannot apply operator ");
                push_operator(&mut msg, &i.operator);
                push_lit(&mut msg, " to type ");
                push_kind(&mut msg, &i.var_kind);
                push_lit(&mut msg, "\n");
                push_span(&mut msg, &i.loc, code);
            },
            SemanticError::CastError(c) => {
                push_lit(&mut msg, "cast error: cannot cast ");
                match &c.error {
                    CastErrorType::ToInt(k) => {
                        push_kind(&mut msg, k);
                        push_lit(&mut msg, " into integer:\n");
                    },
                    CastErrorType::ToReal(k) => {
                        push_kind(&mut msg, k);
                        push_lit(&mut msg, " into real:\n");
                    },
                }
                push_span(&mut msg, &c.loc, code);
            },
            SemanticError::NonBooleanCondition(n) => {
                push_lit(&mut msg, "condition error: ");
                match &n.error {
                    NonBooleanConditionType::IfStat(k) => {
                        push_lit(
                            &mut msg,
                            "if statement requires a boolean expression as condition, found: ",
                        );
                        push_kind(&mut msg, k);
                    },
                    NonBooleanConditionType::WhileStat(k) => {
                        push_lit(
                            &mut msg,
                            "while statement requires a boolean expression as condition, found: ",
                        );
                        push_kind(&mut msg, k);
                    },
                    NonBooleanConditionType::CondStat(k) => {
                        push_lit(
                            &mut msg,
                            "conditional statement requires a boolean expression as condition, found: ",
                        );
                        push_kind(&mut msg, k);
                    },
                }
                push_lit(&mut msg, "\n");
                push_span(&mut msg, &n.loc, code);
            },
            SemanticError::MismatchedConditionalExpression(m) => {
                push_lit(&mut msg, "conditional expression error: left type: ");
                push_kind(&mut msg, &m.left);
                push_lit(&mut msg, " right type: ");
                push_kind(&mut msg, &m.right);
                push_lit(&mut msg, ":\n");
                push_span(&mut msg, &m.loc, code);
            },
            SemanticError::UnknownFunction(name) => {
                push_lit(&mut msg, "unknown function error: ");
                push_name(&mut msg, name);
            },
            SemanticError::UnknownVariable(name) => {
                push_lit(&mut msg, "unknown variable error: ");
                push_name(&mut msg, name);
            },
            SemanticError::MismatchedUnary(m) => {
                push_lit(&mut msg, "negation error: ");
                match &m.error {
                    MismatchedUnaryType::Logic(k) => {
                        push_lit(&mut msg, "logic negation cannot be applied to type: ");
                        push_kind(&mut msg, k);
                    },
                    MismatchedUnaryType::Numeric(k) => {
                        push_lit(&mut msg, "arithmetic negation cannot be applied to type: ");
                        push_kind(&mut msg, k);
                    },
                }
                push_lit(&mut msg, "\n");
                push_span(&mut msg, &m.loc, code);
            },
            SemanticError::ArgumentCountError(a) => {
                push_lit(&mut msg, "argument count error: function: ");
                push_name(&mut msg, &a.func_name);
                push_lit(&mut msg, " expected ");
                push_count(&mut msg, a.expected);
                push_lit(&mut msg, " args, but ");
                push_count(&mut msg, a.found);
                push_lit(&mut msg, " are used in function call:\n");
                push_span(&mut msg, &a.func_loc, code);
            },
            SemanticError::MismatchedArgumentType(m) => {
                push_lit(&mut msg, "argument type error: calling function ");
                push_name(&mut msg, &m.func_name);
                push_lit(&mut msg, " argument expected type: ");
                push_kind(&mut msg, &m.correct);
                push_lit(&mut msg, ", found ");
                push_kind(&mut msg, &m.given);
                push_lit(&mut msg, " in position ");
                if m.index < usize::MAX {
                    push_count(&mut msg, m.index + 1);
                } else {
                    push_count(&mut msg, m.index);
                }
                push_lit(&mut msg, ":\nFunction declaration: ");
                push_span(&mut msg, &m.func_loc, code);
                push_lit(&mut msg, "\nFunction call: ");
                push_span(&mut msg, &m.loc, code);
            },
            SemanticError::MismatchedAssignment(m) => {
                push_lit(&mut msg, "assignment error: expected ");
                push_kind(&mut msg, &m.correct);
                push_lit(&mut msg, ", found ");
                push_kind(&mut msg, &m.given);
                push_lit(&mut msg, " in variable ");
                push_name(&mut msg, &m.name);
                push_lit(&mut msg, " assignment:\n");
                push_span(&mut msg, &m.loc, code);
            },
            SemanticError::BreakOutsideLoop => {
                push_lit(&mut msg, "break error: break outside loop");
            },
            SemanticError::ForLoopError(f) => {
                push_lit(&mut msg, "for loop error: ");
                match &f.error {
                    ForLoopErrorType::CountVariableAssignment(name) => {
                        push_lit(&mut msg, "count variable ");
                        push_name(&mut msg, name);
                        push_lit(&mut msg, " is modified into loop body");
                    },
                    ForLoopErrorType::NonIntegerCount(k) => {
                        push_lit(&mut msg, "count variable is declared as ");
                        push_kind(&mut msg, k);
                        push_lit(&mut msg, ", expected integer");
                    },
                    ForLoopErrorType::NonIntegerStart(k) => {
                        push_lit(&mut msg, "for loop start expression of type ");
                        push_kind(&mut msg, k);
                        push_lit(&mut msg, ", expected integer");
                    },
                    ForLoopErrorType::NonIntegerEnd(k) => {
                        push_lit(&mut msg, "for loop end expression of type ");
                        push_kind(&mut msg, k);
                        push_lit(&mut msg, ", expected integer");
                    },
                }
                push_lit(&mut msg, "\n");
                push_span(&mut msg, &f.loc, code);
            },
            SemanticError::ReturnError(r) => {
                push_lit(&mut msg, "return error: ");
                match &r.error {
                    ReturnErrorType::ReturnOutsideFunction => {
                        push_lit(
                            &mut msg,
                            "return statement is not allowed in main body, only in function declaration:",
                        );
                    },
                    ReturnErrorType::MismatchedReturnType(correct, given) => {
                        push_lit(&mut msg, "return statement type: ");
                        push_kind(&mut msg, correct);
                        push_lit(&mut msg, ", but ");
                        push_kind(&mut msg, given);
                        push_lit(&mut msg, " was expected:");
                    },
                }
                push_lit(&mut msg, "\n");
                push_span(&mut msg, &r.loc, code);
            },
            SemanticError::MissingReturn(m) => {
                push_lit(&mut msg, "missing return error: a function of type ");
                push_kind(&mut msg, &m.kind);
                push_lit(&mut msg, " must end every path with a return statement:\n");
                push_span(&mut msg, &m.func_loc, code);
                push_lit(&mut msg, "\nlast statement here:\n");
                push_span(&mut msg, &m.stat_loc, code);
            },
        }
        proof {
            assert(msg@ =~= err_message_bytes(*self, b));
        }
        string_from_bytes(msg)
    }
}

} // verus!
