use vstd::prelude::*;
use crate::errors::{Diag, ErrorKind, TypesCheck};
use crate::lexer::Token;
use crate::parser::{AstKind, AstNode, Cast, ElseBlock};
use crate::scope::NamedMap;
use crate::bytecode::{args_view, copy_args};

verus! {

// The static checker: identifier resolution, const-ness, arity and
// the four-type lattice, in two passes over the tree.

/// A procedure signature as the checker sees it.
pub struct ProcSig {
    pub args: Vec<(String, TypesCheck)>,
}

impl View for ProcSig {
    type V = Seq<(Seq<char>, TypesCheck)>;

    open spec fn view(&self) -> Seq<(Seq<char>, TypesCheck)> {
        args_view(self.args@)
    }
}

pub type VarsV = Map<Seq<char>, (TypesCheck, bool)>;

pub type ConstsV = Map<Seq<char>, TypesCheck>;

pub type ProcsV = Map<Seq<char>, Seq<(Seq<char>, TypesCheck)>>;

/// The static type of one expression, under the given frames.
pub open spec fn spec_expr_check(vars: VarsV, consts: ConstsV, e: AstKind) -> Result<
    TypesCheck,
    ErrorKind,
>
    decreases e,
{
    match e {
        AstKind::Number(_) => Ok(TypesCheck::Number),
        AstKind::Float(_) => Ok(TypesCheck::Float),
        AstKind::String(_) => Ok(TypesCheck::String),
        AstKind::Boolean(_) => Ok(TypesCheck::Boolean),
        AstKind::Ident(n) => {
            if vars.contains_key(n@) {
                Ok(vars[n@].0)
            } else if consts.contains_key(n@) {
                Ok(consts[n@])
            } else if n@ == "input"@ {
                Ok(TypesCheck::String)
            } else {
                Err(ErrorKind::UnknownIdent)
            }
        },
        AstKind::UnaryOp { op, expr } => match spec_expr_check(vars, consts, *expr) {
            Ok(t) => match op {
                Token::Not => if t == TypesCheck::Boolean {
                    Ok(TypesCheck::Boolean)
                } else {
                    Err(ErrorKind::BadLogicType)
                },
                Token::Minus => if t == TypesCheck::Number || t == TypesCheck::Float {
                    Ok(t)
                } else {
                    Err(ErrorKind::BadArithType)
                },
                _ => Err(ErrorKind::InvalidExpression),
            },
            Err(k) => Err(k),
        },
        AstKind::AsOp { expr, op } => match spec_expr_check(vars, consts, *expr) {
            Ok(t) => match op {
                Cast::String => if t == TypesCheck::String {
                    Err(ErrorKind::RedundantCast)
                } else {
                    Ok(TypesCheck::String)
                },
                Cast::Number => if t == TypesCheck::Number {
                    Err(ErrorKind::RedundantCast)
                } else {
                    Ok(TypesCheck::Number)
                },
                Cast::Float => if t == TypesCheck::Float {
                    Err(ErrorKind::RedundantCast)
                } else {
                    Ok(TypesCheck::Float)
                },
                Cast::Boolean => if t == TypesCheck::Boolean {
                    Err(ErrorKind::RedundantCast)
                } else {
                    Ok(TypesCheck::Boolean)
                },
                _ => if t == TypesCheck::Float {
                    Ok(TypesCheck::Float)
                } else {
                    Err(ErrorKind::BadTransCastDomain)
                },
            },
            Err(k) => Err(k),
        },
        AstKind::BinaryOp { left, op, right } => match spec_expr_check(vars, consts, *left) {
            Ok(l) => match spec_expr_check(vars, consts, *right) {
                Ok(r) => spec_binop_type(l, op, r),
                Err(k) => Err(k),
            },
            Err(k) => Err(k),
        },
        _ => Err(ErrorKind::InvalidExpression),
    }
}

/// The operator table of the lattice.
pub open spec fn spec_binop_type(l: TypesCheck, op: Token, r: TypesCheck) -> Result<
    TypesCheck,
    ErrorKind,
> {
    match op {
        Token::Or | Token::And => {
            if l == TypesCheck::Boolean && r == TypesCheck::Boolean {
                Ok(TypesCheck::Boolean)
            } else {
                Err(ErrorKind::BadLogicType)
            }
        },
        Token::Equal | Token::NotEqual => {
            if l == r {
                Ok(TypesCheck::Boolean)
            } else {
                Err(ErrorKind::BadLogicType)
            }
        },
        Token::Greater | Token::Less | Token::GreaterEqual | Token::LessEqual => {
            if l == r && l != TypesCheck::Boolean {
                Ok(TypesCheck::Boolean)
            } else {
                Err(ErrorKind::BadLogicType)
            }
        },
        Token::Plus => {
            if l == r && l != TypesCheck::Boolean {
                Ok(l)
            } else {
                Err(ErrorKind::BadArithType)
            }
        },
        Token::Minus | Token::Divide => {
            if l == r && (l == TypesCheck::Number || l == TypesCheck::Float) {
                Ok(l)
            } else {
                Err(ErrorKind::BadArithType)
            }
        },
        Token::Multiply => {
            if l == TypesCheck::String && r == TypesCheck::Number {
                Ok(TypesCheck::String)
            } else if l == TypesCheck::Number && r == TypesCheck::String {
                Ok(TypesCheck::String)
            } else if l == r && (l == TypesCheck::Number || l == TypesCheck::Float) {
                Ok(l)
            } else {
                Err(ErrorKind::BadArithType)
            }
        },
        Token::Mod => {
            if l == TypesCheck::Number && r == TypesCheck::Number {
                Ok(TypesCheck::Number)
            } else {
                Err(ErrorKind::BadArithType)
            }
        },
        _ => Err(ErrorKind::InvalidExpression),
    }
}

/// The allowed pairs of a compound assignment.
pub open spec fn spec_assign_ok(target: TypesCheck, op: Token, value: TypesCheck) -> Result<
    (),
    ErrorKind,
> {
    match op {
        Token::Assign => if target == value {
            Ok(())
        } else {
            Err(ErrorKind::DeclTypeMismatch)
        },
        Token::PlusAssign => match (target, value) {
            (TypesCheck::String, TypesCheck::String) => Ok(()),
            (TypesCheck::Number, TypesCheck::Number) => Ok(()),
            (TypesCheck::Float, TypesCheck::Float) => Ok(()),
            _ => Err(ErrorKind::BadArithType),
        },
        Token::MinusAssign | Token::DivideAssign => match (target, value) {
            (TypesCheck::Number, TypesCheck::Number) => Ok(()),
            (TypesCheck::Float, TypesCheck::Float) => Ok(()),
            _ => Err(ErrorKind::BadArithType),
        },
        Token::MultiplyAssign => match (target, value) {
            (TypesCheck::String, TypesCheck::Number) => Ok(()),
            (TypesCheck::Number, TypesCheck::Number) => Ok(()),
            (TypesCheck::Float, TypesCheck::Float) => Ok(()),
            _ => Err(ErrorKind::BadArithType),
        },
        Token::ModAssign => match (target, value) {
            (TypesCheck::Number, TypesCheck::Number) => Ok(()),
            _ => Err(ErrorKind::BadArithType),
        },
        _ => Err(ErrorKind::InvalidExpression),
    }
}

/// The static type of one call argument.
pub open spec fn spec_arg_type(vars: VarsV, consts: ConstsV, t: Token) -> Result<
    TypesCheck,
    ErrorKind,
> {
    match t {
        Token::Ident(n) => spec_expr_check(vars, consts, AstKind::Ident(n)),
        Token::NumberValue(_) => Ok(TypesCheck::Number),
        Token::FloatValue(_) => Ok(TypesCheck::Float),
        Token::StringValue(_) => Ok(TypesCheck::String),
        Token::BooleanValue(_) => Ok(TypesCheck::Boolean),
        _ => Err(ErrorKind::InvalidExpression),
    }
}

/// Every call argument against the matching formal.
pub open spec fn spec_args_check(
    vars: VarsV,
    consts: ConstsV,
    args: Seq<Token>,
    formals: Seq<(Seq<char>, TypesCheck)>,
    i: int,
) -> Result<(), ErrorKind>
    decreases args.len() - i,
{
    if i < 0 || i >= args.len() {
        Ok(())
    } else {
        match spec_arg_type(vars, consts, args[i]) {
            Ok(t) => if t == formals[i].1 {
                spec_args_check(vars, consts, args, formals, i + 1)
            } else {
                Err(ErrorKind::TypeMismatch)
            },
            Err(k) => Err(k),
        }
    }
}

/// One statement; declarations and deletions change the frame.
pub open spec fn spec_stmt_check(
    procs: ProcsV,
    vars: VarsV,
    consts: ConstsV,
    k: AstKind,
) -> Result<VarsV, ErrorKind>
    decreases k, 1int,
{
    match k {
        AstKind::Delete(n) => {
            if vars.contains_key(n@) {
                if vars[n@].1 {
                    Err(ErrorKind::ConstDelete)
                } else {
                    Ok(vars.remove(n@))
                }
            } else {
                Err(ErrorKind::UnknownIdent)
            }
        },
        AstKind::Echo(e) => match spec_expr_check(vars, consts, *e) {
            Ok(_) => Ok(vars),
            Err(kk) => Err(kk),
        },
        AstKind::Exit(_) => Ok(vars),
        AstKind::VarDecl { name, type_, value, is_const } => {
            match spec_expr_check(vars, consts, *value) {
                Ok(t) => {
                    if t != type_ {
                        Err(ErrorKind::DeclTypeMismatch)
                    } else if vars.contains_key(name@) {
                        Err(ErrorKind::ConstReassign)
                    } else {
                        Ok(vars.insert(name@, (type_, is_const)))
                    }
                },
                Err(kk) => Err(kk),
            }
        },
        AstKind::Assign { name, op, expr } => {
            if !vars.contains_key(name@) {
                Err(ErrorKind::UnknownIdent)
            } else if vars[name@].1 {
                Err(ErrorKind::ConstReassign)
            } else {
                match spec_expr_check(vars, consts, *expr) {
                    Ok(t) => match spec_assign_ok(vars[name@].0, op, t) {
                        Ok(_) => Ok(vars),
                        Err(kk) => Err(kk),
                    },
                    Err(kk) => Err(kk),
                }
            }
        },
        AstKind::ProcCall { name, args } => {
            if !procs.contains_key(name@) {
                Err(ErrorKind::UnknownProc)
            } else if procs[name@].len() != args@.len() {
                Err(ErrorKind::ArityMismatch)
            } else {
                match spec_args_check(vars, consts, args@, procs[name@], 0) {
                    Ok(_) => Ok(vars),
                    Err(kk) => Err(kk),
                }
            }
        },
        AstKind::Condition { expr, yes, no } => match spec_expr_check(vars, consts, *expr) {
            Ok(TypesCheck::Boolean) => match spec_body_check(procs, vars, consts, yes@) {
                Ok(v2) => match no {
                    None => Ok(v2),
                    Some(ElseBlock::Else(els)) => spec_body_check(procs, v2, consts, els@),
                    Some(ElseBlock::ElseIf(inner)) => spec_stmt_check(
                        procs,
                        v2,
                        consts,
                        inner.kind,
                    ),
                },
                Err(kk) => Err(kk),
            },
            Ok(_) => Err(ErrorKind::InvalidExpression),
            Err(kk) => Err(kk),
        },
        AstKind::While { expr, body } => match spec_expr_check(vars, consts, *expr) {
            Ok(TypesCheck::Boolean) => spec_body_check(procs, vars, consts, body@),
            Ok(_) => Err(ErrorKind::InvalidExpression),
            Err(kk) => Err(kk),
        },
        AstKind::For { var_name, start, end, step, body } => {
            match spec_expr_check(vars, consts, *start) {
                Ok(ts) => {
                    if ts != TypesCheck::Number && ts != TypesCheck::Float {
                        Err(ErrorKind::InvalidExpression)
                    } else {
                        match spec_expr_check(vars, consts, *end) {
                            Ok(te) => {
                                if te != TypesCheck::Number && te != TypesCheck::Float {
                                    Err(ErrorKind::InvalidExpression)
                                } else {
                                    let stepr = (match *step {
                                        Some(se) => spec_expr_check(vars, consts, se),
                                        None => Ok(ts),
                                    });
                                    match stepr {
                                        Ok(tk) => {
                                            if tk != TypesCheck::Number && tk
                                                != TypesCheck::Float {
                                                Err(ErrorKind::InvalidExpression)
                                            } else {
                                                spec_body_check(
                                                    procs,
                                                    vars.insert(var_name@, (ts, false)),
                                                    consts,
                                                    body@,
                                                )
                                            }
                                        },
                                        Err(kk) => Err(kk),
                                    }
                                }
                            },
                            Err(kk) => Err(kk),
                        }
                    }
                },
                Err(kk) => Err(kk),
            }
        },
        _ => Err(ErrorKind::TopLevelOnlyInProc),
    }
}

/// A run of statements, threading the frame.
pub open spec fn spec_body_check(
    procs: ProcsV,
    vars: VarsV,
    consts: ConstsV,
    body: Seq<AstNode>,
) -> Result<VarsV, ErrorKind>
    decreases body, 0int,
{
    if body.len() == 0 {
        Ok(vars)
    } else {
        match spec_stmt_check(procs, vars, consts, body[0].kind) {
            Ok(v2) => spec_body_check(procs, v2, consts, body.drop_first()),
            Err(kk) => Err(kk),
        }
    }
}

/// The formals of a procedure, as the frame its body starts from.
pub open spec fn spec_seed_vars(args: Seq<(Seq<char>, TypesCheck)>) -> VarsV
    decreases args.len(),
{
    if args.len() == 0 {
        Map::empty()
    } else {
        spec_seed_vars(args.drop_last()).insert(args.last().0, (args.last().1, false))
    }
}

/// Pass one: the set of procedures; a duplicate name is fatal.
pub open spec fn spec_collect_procs(ast: Seq<AstNode>) -> Result<ProcsV, Diag>
    decreases ast.len(),
{
    if ast.len() == 0 {
        Ok(Map::empty())
    } else {
        match spec_collect_procs(ast.drop_last()) {
            Ok(m) => match ast.last().kind {
                AstKind::Proc { name, args, .. } => {
                    if m.contains_key(name@) {
                        Err(Diag { line: ast.last().line, kind: ErrorKind::DuplicateProc })
                    } else {
                        Ok(m.insert(name@, args_view(args@)))
                    }
                },
                _ => Ok(m),
            },
            Err(d) => Err(d),
        }
    }
}

/// Pass two over one procedure body: each statement checked, a
/// failure reported with the statement's own line.
pub open spec fn spec_check_proc_body(
    procs: ProcsV,
    vars: VarsV,
    consts: ConstsV,
    body: Seq<AstNode>,
) -> Result<VarsV, Diag>
    decreases body.len(),
{
    if body.len() == 0 {
        Ok(vars)
    } else {
        match spec_stmt_check(procs, vars, consts, body[0].kind) {
            Ok(v2) => spec_check_proc_body(procs, v2, consts, body.drop_first()),
            Err(kk) => Err(Diag { line: body[0].line, kind: kk }),
        }
    }
}

/// Pass two: top-level constants are collected in order, and each
/// procedure body is checked against the constants above it.
pub open spec fn spec_check_program_from(ast: Seq<AstNode>, procs: ProcsV, consts: ConstsV) -> Result<
    (),
    Diag,
>
    decreases ast.len(),
{
    if ast.len() == 0 {
        Ok(())
    } else {
        let n = ast[0];
        match n.kind {
            AstKind::VarDecl { name, type_, .. } => {
                if consts.contains_key(name@) {
                    Err(Diag { line: n.line, kind: ErrorKind::DuplicateDecl })
                } else {
                    spec_check_program_from(ast.drop_first(), procs, consts.insert(name@, type_))
                }
            },
            AstKind::Proc { args, body, .. } => {
                match spec_check_proc_body(procs, spec_seed_vars(args_view(args@)), consts, body@) {
                    Ok(_) => spec_check_program_from(ast.drop_first(), procs, consts),
                    Err(d) => Err(d),
                }
            },
            _ => Err(Diag { line: n.line, kind: ErrorKind::TopLevelOnlyInProc }),
        }
    }
}

/// The built-in constants every program sees.
pub open spec fn spec_builtin_consts() -> ConstsV {
    Map::empty().insert("PI"@, TypesCheck::Float).insert("TAU"@, TypesCheck::Float).insert(
        "E"@,
        TypesCheck::Float,
    ).insert("SQRT_2"@, TypesCheck::Float)
}

/// The whole static check.
pub open spec fn spec_check_program(ast: Seq<AstNode>) -> Result<(), Diag> {
    match spec_collect_procs(ast) {
        Ok(procs) => spec_check_program_from(ast, procs, spec_builtin_consts()),
        Err(d) => Err(d),
    }
}


// ---------------------------------------------------------------------
// The checker itself, proved to decide exactly the judgment above.

use crate::textops::str_eq;

fn expr_check(
    vars: &NamedMap<(TypesCheck, bool)>,
    consts: &NamedMap<TypesCheck>,
    e: &AstKind,
) -> (r: Result<TypesCheck, ErrorKind>)
    requires
        vars.wf(),
        consts.wf(),
    ensures
        r == spec_expr_check(vars@, consts@, *e),
    decreases *e,
{
    match e {
        AstKind::Number(_) => Ok(TypesCheck::Number),
        AstKind::Float(_) => Ok(TypesCheck::Float),
        AstKind::String(_) => Ok(TypesCheck::String),
        AstKind::Boolean(_) => Ok(TypesCheck::Boolean),
        AstKind::Ident(n) => match vars.lookup(n.as_str()) {
            Some(slot) => Ok(slot.0),
            None => match consts.lookup(n.as_str()) {
                Some(t) => Ok(*t),
                None => {
                    if str_eq(n.as_str(), "input") {
                        Ok(TypesCheck::String)
                    } else {
                        Err(ErrorKind::UnknownIdent)
                    }
                },
            },
        },
        AstKind::UnaryOp { op, expr } => {
            let t = expr_check(vars, consts, expr)?;
            match op {
                Token::Not => if t == TypesCheck::Boolean {
                    Ok(TypesCheck::Boolean)
                } else {
                    Err(ErrorKind::BadLogicType)
                },
                Token::Minus => if t == TypesCheck::Number || t == TypesCheck::Float {
                    Ok(t)
                } else {
                    Err(ErrorKind::BadArithType)
                },
                _ => Err(ErrorKind::InvalidExpression),
            }
        },
        AstKind::AsOp { expr, op } => {
            let t = expr_check(vars, consts, expr)?;
            match op {
                Cast::String => if t == TypesCheck::String {
                    Err(ErrorKind::RedundantCast)
                } else {
                    Ok(TypesCheck::String)
                },
                Cast::Number => if t == TypesCheck::Number {
                    Err(ErrorKind::RedundantCast)
                } else {
                    Ok(TypesCheck::Number)
                },
                Cast::Float => if t == TypesCheck::Float {
                    Err(ErrorKind::RedundantCast)
                } else {
                    Ok(TypesCheck::Float)
                },
                Cast::Boolean => if t == TypesCheck::Boolean {
                    Err(ErrorKind::RedundantCast)
                } else {
                    Ok(TypesCheck::Boolean)
                },
                Cast::Sin | Cast::Cos | Cast::Sqrt => if t == TypesCheck::Float {
                    Ok(TypesCheck::Float)
                } else {
                    Err(ErrorKind::BadTransCastDomain)
                },
            }
        },
        AstKind::BinaryOp { left, op, right } => {
            let l = expr_check(vars, consts, left)?;
            let r2 = expr_check(vars, consts, right)?;
            binop_type(l, op, r2)
        },
        _ => Err(ErrorKind::InvalidExpression),
    }
}

fn binop_type(l: TypesCheck, op: &Token, r: TypesCheck) -> (res: Result<TypesCheck, ErrorKind>)
    ensures
        res == spec_binop_type(l, *op, r),
{
    match op {
        Token::Or | Token::And => {
            if l == TypesCheck::Boolean && r == TypesCheck::Boolean {
                Ok(TypesCheck::Boolean)
            } else {
                Err(ErrorKind::BadLogicType)
            }
        },
        Token::Equal | Token::NotEqual => {
            if l == r {
                Ok(TypesCheck::Boolean)
            } else {
                Err(ErrorKind::BadLogicType)
            }
        },
        Token::Greater | Token::Less | Token::GreaterEqual | Token::LessEqual => {
            if l == r && l != TypesCheck::Boolean {
                Ok(TypesCheck::Boolean)
            } else {
                Err(ErrorKind::BadLogicType)
            }
        },
        Token::Plus => {
            if l == r && l != TypesCheck::Boolean {
                Ok(l)
            } else {
                Err(ErrorKind::BadArithType)
            }
        },
        Token::Minus | Token::Divide => {
            if l == r && (l == TypesCheck::Number || l == TypesCheck::Float) {
                Ok(l)
            } else {
                Err(ErrorKind::BadArithType)
            }
        },
        Token::Multiply => {
            if l == TypesCheck::String && r == TypesCheck::Number {
                Ok(TypesCheck::String)
            } else if l == TypesCheck::Number && r == TypesCheck::String {
                Ok(TypesCheck::String)
            } else if l == r && (l == TypesCheck::Number || l == TypesCheck::Float) {
                Ok(l)
            } else {
                Err(ErrorKind::BadArithType)
            }
        },
        Token::Mod => {
            if l == TypesCheck::Number && r == TypesCheck::Number {
                Ok(TypesCheck::Number)
            } else {
                Err(ErrorKind::BadArithType)
            }
        },
        _ => Err(ErrorKind::InvalidExpression),
    }
}

fn assign_ok(target: TypesCheck, op: &Token, value: TypesCheck) -> (r: Result<(), ErrorKind>)
    ensures
        r == spec_assign_ok(target, *op, value),
{
    match op {
        Token::Assign => if target == value {
            Ok(())
        } else {
            Err(ErrorKind::DeclTypeMismatch)
        },
        Token::PlusAssign => match (target, value) {
            (TypesCheck::String, TypesCheck::String) => Ok(()),
            (TypesCheck::Number, TypesCheck::Number) => Ok(()),
            (TypesCheck::Float, TypesCheck::Float) => Ok(()),
            _ => Err(ErrorKind::BadArithType),
        },
        Token::MinusAssign | Token::DivideAssign => match (target, value) {
            (TypesCheck::Number, TypesCheck::Number) => Ok(()),
            (TypesCheck::Float, TypesCheck::Float) => Ok(()),
            _ => Err(ErrorKind::BadArithType),
        },
        Token::MultiplyAssign => match (target, value) {
            (TypesCheck::String, TypesCheck::Number) => Ok(()),
            (TypesCheck::Number, TypesCheck::Number) => Ok(()),
            (TypesCheck::Float, TypesCheck::Float) => Ok(()),
            _ => Err(ErrorKind::BadArithType),
        },
        Token::ModAssign => match (target, value) {
            (TypesCheck::Number, TypesCheck::Number) => Ok(()),
            _ => Err(ErrorKind::BadArithType),
        },
        _ => Err(ErrorKind::InvalidExpression),
    }
}

/// One statement of a procedure body.
#[verifier::rlimit(60)]
fn main_check(
    procs: &NamedMap<ProcSig>,
    vars: &mut NamedMap<(TypesCheck, bool)>,
    consts: &NamedMap<TypesCheck>,
    k: &AstKind,
) -> (r: Result<(), ErrorKind>)
    requires
        procs.wf(),
        old(vars).wf(),
        consts.wf(),
    ensures
        final(vars).wf(),
        (match r {
            Ok(_) => spec_stmt_check(procs@, old(vars)@, consts@, *k) == Ok::<VarsV, ErrorKind>(
                final(vars)@,
            ),
            Err(kk) => spec_stmt_check(procs@, old(vars)@, consts@, *k) == Err::<
                VarsV,
                ErrorKind,
            >(kk),
        }),
    decreases *k, 1int,
{
    match k {
        AstKind::Delete(n) => {
            let found = match vars.lookup(n.as_str()) {
                Some(slot) => Some(slot.1),
                None => None,
            };
            match found {
                Some(true) => Err(ErrorKind::ConstDelete),
                Some(false) => {
                    vars.unbind(n.as_str());
                    Ok(())
                },
                None => Err(ErrorKind::UnknownIdent),
            }
        },
        AstKind::Echo(e) => {
            expr_check(vars, consts, e)?;
            Ok(())
        },
        AstKind::Exit(_) => Ok(()),
        AstKind::VarDecl { name, type_, value, is_const } => {
            let t = expr_check(vars, consts, value)?;
            if t != *type_ {
                Err(ErrorKind::DeclTypeMismatch)
            } else if vars.contains(name.as_str()) {
                Err(ErrorKind::ConstReassign)
            } else {
                vars.bind(name.clone(), (*type_, *is_const));
                Ok(())
            }
        },
        AstKind::Assign { name, op, expr } => {
            let found = match vars.lookup(name.as_str()) {
                Some(slot) => Some(*slot),
                None => None,
            };
            match found {
                None => Err(ErrorKind::UnknownIdent),
                Some((t, true)) => Err(ErrorKind::ConstReassign),
                Some((t, false)) => {
                    let tv = expr_check(vars, consts, expr)?;
                    assign_ok(t, op, tv)?;
                    Ok(())
                },
            }
        },
        AstKind::ProcCall { name, args } => {
            let sig = match procs.lookup(name.as_str()) {
                Some(sig) => sig,
                None => {
                    return Err(ErrorKind::UnknownProc);
                },
            };
            if sig.args.len() != args.len() {
                return Err(ErrorKind::ArityMismatch);
            }
            let mut i: usize = 0;
            while i < args.len()
                invariant
                    i <= args@.len(),
                    procs.wf(),
                    vars.wf(),
                    consts.wf(),
                    vars@ == old(vars)@,
                    args@.len() == sig@.len(),
                    k is ProcCall,
                    procs@.contains_key(k->ProcCall_name@),
                    sig@ == procs@[k->ProcCall_name@],
                    args@ == k->ProcCall_args@,
                    spec_args_check(vars@, consts@, args@, sig@, 0) == spec_args_check(
                        vars@,
                        consts@,
                        args@,
                        sig@,
                        i as int,
                    ),
                decreases args@.len() - i,
            {
                let at: Result<TypesCheck, ErrorKind> = match &args[i] {
                    Token::Ident(n) => expr_check(vars, consts, &AstKind::Ident(n.clone())),
                    Token::NumberValue(_) => Ok(TypesCheck::Number),
                    Token::FloatValue(_) => Ok(TypesCheck::Float),
                    Token::StringValue(_) => Ok(TypesCheck::String),
                    Token::BooleanValue(_) => Ok(TypesCheck::Boolean),
                    _ => Err(ErrorKind::InvalidExpression),
                };
                match at {
                    Ok(t) => {
                        if t != sig.args[i].1 {
                            return Err(ErrorKind::TypeMismatch);
                        }
                    },
                    Err(kk) => {
                        return Err(kk);
                    },
                }
                i = i + 1;
            }
            Ok(())
        },
        AstKind::Condition { expr, yes, no } => {
            let t = expr_check(vars, consts, expr)?;
            if t != TypesCheck::Boolean {
                return Err(ErrorKind::InvalidExpression);
            }
            check_body(procs, vars, consts, yes)?;
            match no {
                None => Ok(()),
                Some(ElseBlock::Else(els)) => check_body(procs, vars, consts, els),
                Some(ElseBlock::ElseIf(inner)) => main_check(procs, vars, consts, &inner.kind),
            }
        },
        AstKind::While { expr, body } => {
            let t = expr_check(vars, consts, expr)?;
            if t != TypesCheck::Boolean {
                return Err(ErrorKind::InvalidExpression);
            }
            check_body(procs, vars, consts, body)
        },
        AstKind::For { var_name, start, end, step, body } => {
            let ts = expr_check(vars, consts, start)?;
            if ts != TypesCheck::Number && ts != TypesCheck::Float {
                return Err(ErrorKind::InvalidExpression);
            }
            let te = expr_check(vars, consts, end)?;
            if te != TypesCheck::Number && te != TypesCheck::Float {
                return Err(ErrorKind::InvalidExpression);
            }
            let tk = match &**step {
                Some(se) => expr_check(vars, consts, se)?,
                None => ts,
            };
            if tk != TypesCheck::Number && tk != TypesCheck::Float {
                return Err(ErrorKind::InvalidExpression);
            }
            vars.bind(var_name.clone(), (ts, false));
            check_body(procs, vars, consts, body)
        },
        _ => Err(ErrorKind::TopLevelOnlyInProc),
    }
}

/// A run of statements, threading the frame.
fn check_body(
    procs: &NamedMap<ProcSig>,
    vars: &mut NamedMap<(TypesCheck, bool)>,
    consts: &NamedMap<TypesCheck>,
    body: &Vec<AstNode>,
) -> (r: Result<(), ErrorKind>)
    requires
        procs.wf(),
        old(vars).wf(),
        consts.wf(),
    ensures
        final(vars).wf(),
        (match r {
            Ok(_) => spec_body_check(procs@, old(vars)@, consts@, body@) == Ok::<VarsV, ErrorKind>(
                final(vars)@,
            ),
            Err(kk) => spec_body_check(procs@, old(vars)@, consts@, body@) == Err::<
                VarsV,
                ErrorKind,
            >(kk),
        }),
    decreases body@, 0int,
{
    let mut i: usize = 0;
    proof {
        assert(body@.subrange(0, body@.len() as int) =~= body@);
    }
    while i < body.len()
        invariant
            i <= body@.len(),
            procs.wf(),
            vars.wf(),
            consts.wf(),
            spec_body_check(procs@, old(vars)@, consts@, body@) == spec_body_check(
                procs@,
                vars@,
                consts@,
                body@.subrange(i as int, body@.len() as int),
            ),
        decreases body@.len() - i,
    {
        let ghost rest = body@.subrange(i as int, body@.len() as int);
        proof {
            assert(rest[0] == body@[i as int]);
            assert(rest.drop_first() =~= body@.subrange(i + 1, body@.len() as int));
        }
        match main_check(procs, vars, consts, &body[i].kind) {
            Ok(_) => {},
            Err(kk) => {
                return Err(kk);
            },
        }
        i = i + 1;
    }
    proof {
        assert(body@.subrange(body@.len() as int, body@.len() as int)
            =~= Seq::<AstNode>::empty());
    }
    Ok(())
}

/// The whole static check of a parsed program.
pub fn check_types(ast: &Vec<AstNode>) -> (r: Result<(), Diag>)
    ensures
        r == spec_check_program(ast@),
{
    // Pass one: collect the procedures.
    let mut procs: NamedMap<ProcSig> = NamedMap::new();
    let mut i: usize = 0;
    proof {
        assert(ast@.subrange(0, 0) =~= Seq::<AstNode>::empty());
    }
    while i < ast.len()
        invariant
            i <= ast@.len(),
            procs.wf(),
            spec_collect_procs(ast@.subrange(0, i as int)) == Ok::<ProcsV, Diag>(procs@),
        decreases ast@.len() - i,
    {
        let ghost done = ast@.subrange(0, i as int);
        proof {
            assert(ast@.subrange(0, i + 1).drop_last() =~= done);
            assert(ast@.subrange(0, i + 1).last() == ast@[i as int]);
        }
        match &ast[i].kind {
            AstKind::Proc { name, args, .. } => {
                if procs.contains(name.as_str()) {
                    proof {
                        lemma_collect_prefix_err(ast@, i + 1);
                    }
                    return Err(Diag { line: ast[i].line, kind: ErrorKind::DuplicateProc });
                }
                let copied = copy_args(args);
                proof {
                    assert(args_view(copied@) =~= args_view(ast@[i as int].kind->Proc_args@));
                }
                procs.bind(name.clone(), ProcSig { args: copied });
            },
            _ => {},
        }
        i = i + 1;
    }
    proof {
        assert(ast@.subrange(0, ast@.len() as int) =~= ast@);
    }
    // Pass two: constants in order, procedure bodies against them,
    // starting from the built-in mathematical constants.
    let mut consts: NamedMap<TypesCheck> = NamedMap::new();
    consts.bind("PI".to_owned(), TypesCheck::Float);
    consts.bind("TAU".to_owned(), TypesCheck::Float);
    consts.bind("E".to_owned(), TypesCheck::Float);
    consts.bind("SQRT_2".to_owned(), TypesCheck::Float);
    proof {
        assert(consts@ =~= spec_builtin_consts());
    }
    let mut j: usize = 0;
    while j < ast.len()
        invariant
            j <= ast@.len(),
            procs.wf(),
            consts.wf(),
            spec_collect_procs(ast@) == Ok::<ProcsV, Diag>(procs@),
            spec_check_program_from(ast@, procs@, spec_builtin_consts())
                == spec_check_program_from(
                ast@.subrange(j as int, ast@.len() as int),
                procs@,
                consts@,
            ),
        decreases ast@.len() - j,
    {
        let ghost rest = ast@.subrange(j as int, ast@.len() as int);
        proof {
            assert(rest[0] == ast@[j as int]);
            assert(rest.drop_first() =~= ast@.subrange(j + 1, ast@.len() as int));
        }
        let node = &ast[j];
        match &node.kind {
            AstKind::VarDecl { name, type_, .. } => {
                if consts.contains(name.as_str()) {
                    return Err(Diag { line: node.line, kind: ErrorKind::DuplicateDecl });
                }
                consts.bind(name.clone(), *type_);
            },
            AstKind::Proc { args, body, .. } => {
                let mut vars: NamedMap<(TypesCheck, bool)> = NamedMap::new();
                let mut a: usize = 0;
                proof {
                    assert(args_view(args@).subrange(0, 0) =~= Seq::<
                        (Seq<char>, TypesCheck),
                    >::empty());
                }
                while a < args.len()
                    invariant
                        a <= args@.len(),
                        vars.wf(),
                        args@ == ast@[j as int].kind->Proc_args@,
                        j < ast@.len(),
                        vars@ == spec_seed_vars(args_view(args@).subrange(0, a as int)),
                    decreases args@.len() - a,
                {
                    vars.bind(args[a].0.clone(), (args[a].1, false));
                    a = a + 1;
                    proof {
                        let pre = args_view(args@).subrange(0, a - 1);
                        let cur = args_view(args@).subrange(0, a as int);
                        assert(cur.drop_last() =~= pre);
                        assert(cur.last() == args_view(args@)[a - 1]);
                    }
                }
                proof {
                    assert(args_view(args@).subrange(0, args_view(args@).len() as int)
                        =~= args_view(args@));
                }
                // Check the body statement by statement, keeping the
                // line of the first failing statement.
                let mut b: usize = 0;
                proof {
                    assert(body@.subrange(0, body@.len() as int) =~= body@);
                }
                while b < body.len()
                    invariant
                        b <= body@.len(),
                        procs.wf(),
                        vars.wf(),
                        consts.wf(),
                        body@ == ast@[j as int].kind->Proc_body@,
                        j < ast@.len(),
                        ast@[j as int].kind is Proc,
                        spec_collect_procs(ast@) == Ok::<ProcsV, Diag>(procs@),
                        spec_check_program_from(ast@, procs@, spec_builtin_consts())
                            == spec_check_program_from(
                            ast@.subrange(j as int, ast@.len() as int),
                            procs@,
                            consts@,
                        ),
                        spec_check_proc_body(
                            procs@,
                            spec_seed_vars(args_view(ast@[j as int].kind->Proc_args@)),
                            consts@,
                            body@,
                        ) == spec_check_proc_body(
                            procs@,
                            vars@,
                            consts@,
                            body@.subrange(b as int, body@.len() as int),
                        ),
                    decreases body@.len() - b,
                {
                    let ghost brest = body@.subrange(b as int, body@.len() as int);
                    proof {
                        assert(brest[0] == body@[b as int]);
                        assert(brest.drop_first() =~= body@.subrange(b + 1, body@.len() as int));
                    }
                    match main_check(&procs, &mut vars, &consts, &body[b].kind) {
                        Ok(_) => {},
                        Err(kk) => {
                            return Err(Diag { line: body[b].line, kind: kk });
                        },
                    }
                    b = b + 1;
                }
                proof {
                    assert(body@.subrange(body@.len() as int, body@.len() as int)
                        =~= Seq::<AstNode>::empty());
                }
            },
            _ => {
                return Err(Diag { line: node.line, kind: ErrorKind::TopLevelOnlyInProc });
            },
        }
        j = j + 1;
    }
    proof {
        assert(ast@.subrange(ast@.len() as int, ast@.len() as int) =~= Seq::<AstNode>::empty());
    }
    Ok(())
}

/// A duplicate in a prefix fails the whole first pass.
proof fn lemma_collect_prefix_err(ast: Seq<AstNode>, j: int)
    requires
        0 <= j <= ast.len(),
        spec_collect_procs(ast.subrange(0, j)) is Err,
    ensures
        spec_collect_procs(ast) == spec_collect_procs(ast.subrange(0, j)),
    decreases ast.len() - j,
{
    if j == ast.len() {
        assert(ast.subrange(0, j) =~= ast);
    } else {
        assert(ast.subrange(0, j + 1).drop_last() =~= ast.subrange(0, j));
        lemma_collect_prefix_err(ast, j + 1);
    }
}

} // verus!
