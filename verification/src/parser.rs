use vstd::prelude::*;
use crate::errors::TypesCheck;
use crate::lexer::Token;

verus! {

/// One node of the tree, with the index of the source line it came
/// from, for diagnostics.
#[derive(Debug)]
pub struct AstNode {
    pub line: usize,
    pub kind: AstKind,
}

/// The tree itself. At the top level only `VarDecl` (for constants)
/// and `Proc` appear; the rest are the statements and expressions of
/// procedure bodies.
#[derive(Debug)]
pub enum AstKind {
    Ident(String),
    Number(i64),
    Float(u64),
    String(String),
    Boolean(bool),

    Delete(String),
    Echo(Box<AstKind>),
    Exit(i32),

    Proc { name: String, body: Vec<AstNode>, args: Vec<(String, TypesCheck)> },
    VarDecl { name: String, type_: TypesCheck, value: Box<AstKind>, is_const: bool },
    ProcCall { name: String, args: Vec<Token> },
    Assign { name: String, op: Token, expr: Box<AstKind> },
    BinaryOp { left: Box<AstKind>, op: Token, right: Box<AstKind> },
    UnaryOp { op: Token, expr: Box<AstKind> },
    AsOp { expr: Box<AstKind>, op: Cast },
    Condition { expr: Box<AstKind>, yes: Vec<AstNode>, no: Option<ElseBlock> },
    While { expr: Box<AstKind>, body: Vec<AstNode> },
    For {
        var_name: String,
        start: Box<AstKind>,
        end: Box<AstKind>,
        step: Box<Option<AstKind>>,
        body: Vec<AstNode>,
    },
}

#[derive(Debug)]
pub enum ElseBlock {
    ElseIf(Box<AstNode>),
    Else(Vec<AstNode>),
}

/// The conversion set reachable through `as`.
#[derive(Debug, Clone, Copy, PartialEq, Eq, Structural)]
pub enum Cast {
    String,
    Number,
    Float,
    Boolean,
    Sin,
    Cos,
    Sqrt,
}


// ---------------------------------------------------------------------
// The mathematical shadow of the tree, and the grammar itself: a
// functional parser over the token grid that the executable parser is
// proved to implement exactly.

use crate::lexer::{TokenV, toks_dv, grid_dv};
use vstd::utf8::is_ascii_chars;

pub struct AstNodeV {
    pub line: usize,
    pub kind: AstKindV,
}

pub enum AstKindV {
    Ident(Seq<char>),
    Number(i64),
    Float(u64),
    String(Seq<char>),
    Boolean(bool),
    Delete(Seq<char>),
    Echo(Box<AstKindV>),
    Exit(i32),
    Proc { name: Seq<char>, body: Seq<AstNodeV>, args: Seq<(Seq<char>, TypesCheck)> },
    VarDecl { name: Seq<char>, type_: TypesCheck, value: Box<AstKindV>, is_const: bool },
    ProcCall { name: Seq<char>, args: Seq<TokenV> },
    Assign { name: Seq<char>, op: TokenV, expr: Box<AstKindV> },
    BinaryOp { left: Box<AstKindV>, op: TokenV, right: Box<AstKindV> },
    UnaryOp { op: TokenV, expr: Box<AstKindV> },
    AsOp { expr: Box<AstKindV>, op: Cast },
    Condition { expr: Box<AstKindV>, yes: Seq<AstNodeV>, no: Option<ElseBlockV> },
    While { expr: Box<AstKindV>, body: Seq<AstNodeV> },
    For {
        var_name: Seq<char>,
        start: Box<AstKindV>,
        end: Box<AstKindV>,
        step: Option<Box<AstKindV>>,
        body: Seq<AstNodeV>,
    },
}

pub enum ElseBlockV {
    ElseIf(Box<AstNodeV>),
    Else(Seq<AstNodeV>),
}

pub open spec fn ast_kind_v(k: AstKind) -> AstKindV
    decreases k,
{
    match k {
        AstKind::Ident(n) => AstKindV::Ident(n@),
        AstKind::Number(v) => AstKindV::Number(v),
        AstKind::Float(b) => AstKindV::Float(b),
        AstKind::String(sv) => AstKindV::String(sv@),
        AstKind::Boolean(b) => AstKindV::Boolean(b),
        AstKind::Delete(n) => AstKindV::Delete(n@),
        AstKind::Echo(e) => AstKindV::Echo(Box::new(ast_kind_v(*e))),
        AstKind::Exit(c) => AstKindV::Exit(c),
        AstKind::Proc { name, body, args } => AstKindV::Proc {
            name: name@,
            body: ast_nodes_v(body@),
            args: crate::bytecode::args_view(args@),
        },
        AstKind::VarDecl { name, type_, value, is_const } => AstKindV::VarDecl {
            name: name@,
            type_,
            value: Box::new(ast_kind_v(*value)),
            is_const,
        },
        AstKind::ProcCall { name, args } => AstKindV::ProcCall {
            name: name@,
            args: toks_dv(args@),
        },
        AstKind::Assign { name, op, expr } => AstKindV::Assign {
            name: name@,
            op: op@,
            expr: Box::new(ast_kind_v(*expr)),
        },
        AstKind::BinaryOp { left, op, right } => AstKindV::BinaryOp {
            left: Box::new(ast_kind_v(*left)),
            op: op@,
            right: Box::new(ast_kind_v(*right)),
        },
        AstKind::UnaryOp { op, expr } => AstKindV::UnaryOp {
            op: op@,
            expr: Box::new(ast_kind_v(*expr)),
        },
        AstKind::AsOp { expr, op } => AstKindV::AsOp {
            expr: Box::new(ast_kind_v(*expr)),
            op,
        },
        AstKind::Condition { expr, yes, no } => AstKindV::Condition {
            expr: Box::new(ast_kind_v(*expr)),
            yes: ast_nodes_v(yes@),
            no: match no {
                Some(e) => Some(else_v(e)),
                None => None,
            },
        },
        AstKind::While { expr, body } => AstKindV::While {
            expr: Box::new(ast_kind_v(*expr)),
            body: ast_nodes_v(body@),
        },
        AstKind::For { var_name, start, end, step, body } => AstKindV::For {
            var_name: var_name@,
            start: Box::new(ast_kind_v(*start)),
            end: Box::new(ast_kind_v(*end)),
            step: match *step {
                Some(k2) => Some(Box::new(ast_kind_v(k2))),
                None => None,
            },
            body: ast_nodes_v(body@),
        },
    }
}

pub open spec fn ast_node_v(n: AstNode) -> AstNodeV
    decreases n,
{
    AstNodeV { line: n.line, kind: ast_kind_v(n.kind) }
}

pub open spec fn ast_nodes_v(s: Seq<AstNode>) -> Seq<AstNodeV>
    decreases s,
{
    if s.len() == 0 {
        Seq::empty()
    } else {
        ast_nodes_v(s.drop_last()).push(ast_node_v(s.last()))
    }
}

pub open spec fn else_v(e: ElseBlock) -> ElseBlockV
    decreases e,
{
    match e {
        ElseBlock::ElseIf(n) => ElseBlockV::ElseIf(Box::new(ast_node_v(*n))),
        ElseBlock::Else(b) => ElseBlockV::Else(ast_nodes_v(b@)),
    }
}

// ---------------------------------------------------------------------
// The grammar, stated over the token grid with a (line, position)
// cursor. Every rule returns the node read and where the cursor
// stands after it; the recursion carries the same depth budget the
// executable parser burns.

/// The token under the cursor, if any.
pub open spec fn spec_cur(grid: Seq<Seq<TokenV>>, line: int, pos: int) -> Option<TokenV> {
    if 0 <= line < grid.len() && 0 <= pos < grid[line].len() {
        Some(grid[line][pos])
    } else {
        None
    }
}

/// The precedence ladder, low to high: `or`, `and`, comparisons,
/// additive, multiplicative, and `as` above the unary level.
pub open spec fn spec_prec(t: TokenV) -> Option<u8> {
    match t {
        TokenV::Or => Some(1u8),
        TokenV::And => Some(2u8),
        TokenV::Equal | TokenV::NotEqual | TokenV::Greater | TokenV::Less
            | TokenV::GreaterEqual | TokenV::LessEqual => Some(3u8),
        TokenV::Plus | TokenV::Minus => Some(4u8),
        TokenV::Multiply | TokenV::Divide | TokenV::Mod => Some(5u8),
        TokenV::As => Some(7u8),
        _ => None,
    }
}

/// The conversion set: the only names allowed to the right of `as`.
pub open spec fn spec_as_target(k: AstKindV) -> Option<Cast> {
    match k {
        AstKindV::Ident(n) => {
            if n == "string"@ { Some(Cast::String) }
            else if n == "number"@ { Some(Cast::Number) }
            else if n == "float"@ { Some(Cast::Float) }
            else if n == "bool"@ { Some(Cast::Boolean) }
            else if n == "sin"@ { Some(Cast::Sin) }
            else if n == "cos"@ { Some(Cast::Cos) }
            else if n == "sqrt"@ { Some(Cast::Sqrt) }
            else { None }
        },
        _ => None,
    }
}

/// A source name must be non-empty ASCII of at most 256 characters,
/// not starting with a digit.
pub open spec fn spec_name_ok(n: Seq<char>) -> bool {
    n.len() > 0 && is_ascii_chars(n) && n.len() <= 256 && !crate::numtext::spec_is_digit(n[0])
}

pub open spec fn toks_in(grid: Seq<Seq<TokenV>>, line: int, pos: int) -> int {
    if 0 <= line < grid.len() && 0 <= pos <= grid[line].len() {
        grid[line].len() - pos
    } else {
        0
    }
}

pub open spec fn lines_in(grid: Seq<Seq<TokenV>>, line: int) -> int {
    if 0 <= line <= grid.len() {
        grid.len() - line
    } else {
        0
    }
}

/// A returned cursor, fenced for use as a measure: the grammar rules
/// always move forward, so the fence never fires on their results.
pub open spec fn fence_pos(grid: Seq<Seq<TokenV>>, line: int, pos: int, p2: int) -> int {
    if pos < p2 <= grid[line].len() {
        p2
    } else {
        pos + 1
    }
}

pub open spec fn fence_line(grid: Seq<Seq<TokenV>>, line: int, l2: int) -> int {
    if line < l2 <= grid.len() {
        l2
    } else {
        line + 1
    }
}

/// One expression: a prefix form, then the operator ladder.
pub open spec fn spec_parse_expr(
    grid: Seq<Seq<TokenV>>,
    line: int,
    pos: int,
    min_prec: u8,
    fuel: nat,
) -> Result<(AstKindV, int), ErrorKind>
    decreases fuel, toks_in(grid, line, pos), 1int,
{
    if fuel == 0 {
        Err(ErrorKind::InvalidExpression)
    } else {
        match spec_cur(grid, line, pos) {
            None => Err(ErrorKind::InvalidExpression),
            Some(t) => match t {
                TokenV::Minus | TokenV::Not => {
                    let op = if t is Minus {
                        TokenV::Minus
                    } else {
                        TokenV::Not
                    };
                    match spec_parse_expr(grid, line, pos + 1, 6, (fuel - 1) as nat) {
                        Ok((e, p2)) => spec_expr_ops(
                            grid,
                            line,
                            fence_pos(grid, line, pos, p2),
                            min_prec,
                            AstKindV::UnaryOp { op, expr: Box::new(e) },
                            fuel,
                        ),
                        Err(k) => Err(k),
                    }
                },
                TokenV::OpenParen => {
                    match spec_parse_expr(grid, line, pos + 1, 0, (fuel - 1) as nat) {
                        Ok((e, p2)) => {
                            let p3 = fence_pos(grid, line, pos, p2);
                            match spec_cur(grid, line, p3) {
                                Some(TokenV::CloseParen) => spec_expr_ops(
                                    grid,
                                    line,
                                    p3 + 1,
                                    min_prec,
                                    e,
                                    fuel,
                                ),
                                _ => Err(ErrorKind::UnbalancedParen),
                            }
                        },
                        Err(k) => Err(k),
                    }
                },
                TokenV::Ident(n) => spec_expr_ops(
                    grid,
                    line,
                    pos + 1,
                    min_prec,
                    AstKindV::Ident(n),
                    fuel,
                ),
                TokenV::Number => spec_expr_ops(
                    grid,
                    line,
                    pos + 1,
                    min_prec,
                    AstKindV::Ident("number"@),
                    fuel,
                ),
                TokenV::Float => spec_expr_ops(
                    grid,
                    line,
                    pos + 1,
                    min_prec,
                    AstKindV::Ident("float"@),
                    fuel,
                ),
                TokenV::String => spec_expr_ops(
                    grid,
                    line,
                    pos + 1,
                    min_prec,
                    AstKindV::Ident("string"@),
                    fuel,
                ),
                TokenV::Bool => spec_expr_ops(
                    grid,
                    line,
                    pos + 1,
                    min_prec,
                    AstKindV::Ident("bool"@),
                    fuel,
                ),
                TokenV::NumberValue(v) => spec_expr_ops(
                    grid,
                    line,
                    pos + 1,
                    min_prec,
                    AstKindV::Number(v),
                    fuel,
                ),
                TokenV::FloatValue(v) => spec_expr_ops(
                    grid,
                    line,
                    pos + 1,
                    min_prec,
                    AstKindV::Float(v),
                    fuel,
                ),
                TokenV::StringValue(v) => spec_expr_ops(
                    grid,
                    line,
                    pos + 1,
                    min_prec,
                    AstKindV::String(v),
                    fuel,
                ),
                TokenV::BooleanValue(v) => spec_expr_ops(
                    grid,
                    line,
                    pos + 1,
                    min_prec,
                    AstKindV::Boolean(v),
                    fuel,
                ),
                _ => Err(ErrorKind::InvalidExpression),
            },
        }
    }
}

/// The operator ladder: while the next token is an operator binding
/// at least `min_prec`, read the right operand one level tighter and
/// fold left — so every binary operator is left-associative, and the
/// right operand of `as` must name a conversion.
pub open spec fn spec_expr_ops(
    grid: Seq<Seq<TokenV>>,
    line: int,
    pos: int,
    min_prec: u8,
    left: AstKindV,
    fuel: nat,
) -> Result<(AstKindV, int), ErrorKind>
    decreases fuel, toks_in(grid, line, pos), 0int,
{
    if fuel == 0 {
        Err(ErrorKind::InvalidExpression)
    } else {
    match spec_cur(grid, line, pos) {
        None => Ok((left, pos)),
        Some(tok) => match spec_prec(tok) {
            None => Ok((left, pos)),
            Some(p) => {
                if p < min_prec {
                    Ok((left, pos))
                } else {
                    match spec_parse_expr(grid, line, pos + 1, (p + 1) as u8, (fuel - 1) as nat) {
                        Ok((right, p2)) => {
                            let p3 = fence_pos(grid, line, pos, p2);
                            if tok is As {
                                match spec_as_target(right) {
                                    Some(c) => spec_expr_ops(
                                        grid,
                                        line,
                                        p3,
                                        min_prec,
                                        AstKindV::AsOp { expr: Box::new(left), op: c },
                                        fuel,
                                    ),
                                    None => Err(ErrorKind::InvalidExpression),
                                }
                            } else {
                                spec_expr_ops(
                                    grid,
                                    line,
                                    p3,
                                    min_prec,
                                    AstKindV::BinaryOp {
                                        left: Box::new(left),
                                        op: tok,
                                        right: Box::new(right),
                                    },
                                    fuel,
                                )
                            }
                        },
                        Err(k) => Err(k),
                    }
                }
            },
        },
    }
    }
}

/// A full expression: it must reach the end of the line, or stop
/// before `to` / `step` inside a counted-loop header.
pub open spec fn spec_parse_value(grid: Seq<Seq<TokenV>>, line: int, pos: int, fuel: nat) -> Result<
    (AstKindV, int),
    ErrorKind,
>
    decreases fuel,
{
    if fuel == 0 {
        Err(ErrorKind::InvalidExpression)
    } else {
        match spec_parse_expr(grid, line, pos, 0, (fuel - 1) as nat) {
            Ok((e, p2)) => match spec_cur(grid, line, p2) {
                None => Ok((e, p2)),
                Some(TokenV::To) => Ok((e, p2)),
                Some(TokenV::Step) => Ok((e, p2)),
                Some(_) => Err(ErrorKind::InvalidExpression),
            },
            Err(k) => Err(k),
        }
    }
}

/// A declaration: `[const] <type> NAME = expr`, with the name rules
/// of the language.
pub open spec fn spec_parse_var(grid: Seq<Seq<TokenV>>, line: int, pos: int, fuel: nat) -> Result<
    (AstNodeV, int),
    ErrorKind,
>
    decreases fuel,
{
    if fuel == 0 {
        Err(ErrorKind::InvalidExpression)
    } else {
        let is_const = spec_cur(grid, line, pos) == Some(TokenV::Const);
        let p0 = if is_const {
            pos + 1
        } else {
            pos
        };
        let ty = (match spec_cur(grid, line, p0) {
            Some(TokenV::Number) => Some(TypesCheck::Number),
            Some(TokenV::Float) => Some(TypesCheck::Float),
            Some(TokenV::String) => Some(TypesCheck::String),
            Some(TokenV::Bool) => Some(TypesCheck::Boolean),
            _ => None,
        });
        match ty {
            None => Err(ErrorKind::InvalidExpression),
            Some(type_) => match spec_cur(grid, line, p0 + 1) {
                Some(TokenV::Ident(name)) => {
                    if !spec_name_ok(name) {
                        Err(ErrorKind::InvalidName)
                    } else {
                        match spec_cur(grid, line, p0 + 2) {
                            Some(TokenV::Assign) => {
                                match spec_parse_value(grid, line, p0 + 3, (fuel - 1) as nat) {
                                    Ok((value, p2)) => Ok(
                                        (
                                            AstNodeV {
                                                line: line as usize,
                                                kind: AstKindV::VarDecl {
                                                    name,
                                                    type_,
                                                    value: Box::new(value),
                                                    is_const,
                                                },
                                            },
                                            p2,
                                        ),
                                    ),
                                    Err(k) => Err(k),
                                }
                            },
                            _ => Err(ErrorKind::ExpectedAssignOperator),
                        }
                    }
                },
                _ => Err(ErrorKind::InvalidExpression),
            },
        }
    }
}

/// The arguments of a `call` statement: identifiers and literals to
/// the end of the line.
pub open spec fn spec_parse_call_args(grid: Seq<Seq<TokenV>>, line: int, pos: int) -> Result<
    Seq<TokenV>,
    ErrorKind,
>
    decreases toks_in(grid, line, pos),
{
    match spec_cur(grid, line, pos) {
        None => Ok(Seq::empty()),
        Some(t) => {
            let arg = (match t {
                TokenV::Ident(_) | TokenV::NumberValue(_) | TokenV::FloatValue(_)
                    | TokenV::StringValue(_) | TokenV::BooleanValue(_) => Some(t),
                _ => None,
            });
            match arg {
                None => Err(ErrorKind::InvalidExpression),
                Some(a) => match spec_parse_call_args(grid, line, pos + 1) {
                    Ok(rest) => Ok(seq![a] + rest),
                    Err(k) => Err(k),
                },
            }
        },
    }
}

/// The formals of a procedure header: `ident : type` to the end of
/// the line.
pub open spec fn spec_parse_params(grid: Seq<Seq<TokenV>>, line: int, pos: int) -> Result<
    Seq<(Seq<char>, TypesCheck)>,
    ErrorKind,
>
    decreases toks_in(grid, line, pos),
{
    match spec_cur(grid, line, pos) {
        None => Ok(Seq::empty()),
        Some(TokenV::Ident(a)) => match spec_cur(grid, line, pos + 1) {
            Some(TokenV::Colon) => {
                let ty = (match spec_cur(grid, line, pos + 2) {
                    Some(TokenV::Number) => Some(TypesCheck::Number),
                    Some(TokenV::Float) => Some(TypesCheck::Float),
                    Some(TokenV::String) => Some(TypesCheck::String),
                    Some(TokenV::Bool) => Some(TypesCheck::Boolean),
                    _ => None,
                });
                match ty {
                    None => Err(ErrorKind::InvalidExpression),
                    Some(t) => match spec_parse_params(grid, line, pos + 3) {
                        Ok(rest) => Ok(seq![(a, t)] + rest),
                        Err(k) => Err(k),
                    },
                }
            },
            _ => Err(ErrorKind::InvalidExpression),
        },
        Some(_) => Err(ErrorKind::InvalidExpression),
    }
}

/// One statement of a procedure body; the returned cursor is the line
/// the statement ends on (its terminator line, for the block forms).
pub open spec fn spec_parse_main(grid: Seq<Seq<TokenV>>, line: int, pos: int, fuel: nat) -> Result<
    (AstNodeV, int),
    ErrorKind,
>
    decreases fuel, lines_in(grid, line), 1int,
{
    if fuel == 0 {
        Err(ErrorKind::InvalidExpression)
    } else {
        match spec_cur(grid, line, pos) {
            None => Err(ErrorKind::TopLevelOnlyInProc),
            Some(cur) => match cur {
                TokenV::Echo => match spec_parse_value(grid, line, pos + 1, (fuel - 1) as nat) {
                    Ok((e, _)) => Ok(
                        (
                            AstNodeV {
                                line: line as usize,
                                kind: AstKindV::Echo(Box::new(e)),
                            },
                            line,
                        ),
                    ),
                    Err(k) => Err(k),
                },
                TokenV::Delete => match spec_cur(grid, line, pos + 1) {
                    Some(TokenV::Ident(n)) => Ok(
                        (
                            AstNodeV { line: line as usize, kind: AstKindV::Delete(n) },
                            line,
                        ),
                    ),
                    _ => Err(ErrorKind::InvalidName),
                },
                TokenV::Exit => match spec_cur(grid, line, pos + 1) {
                    Some(TokenV::NumberValue(code)) => Ok(
                        (
                            AstNodeV {
                                line: line as usize,
                                kind: AstKindV::Exit(code as i32),
                            },
                            line,
                        ),
                    ),
                    _ => Err(ErrorKind::MissingExitCode),
                },
                TokenV::Number | TokenV::Float | TokenV::String | TokenV::Bool
                    | TokenV::Const => match spec_parse_var(grid, line, pos, (fuel - 1) as nat) {
                    Ok((node, _)) => Ok((node, line)),
                    Err(k) => Err(k),
                },
                TokenV::Call => match spec_cur(grid, line, pos + 1) {
                    Some(TokenV::Ident(name)) => match spec_parse_call_args(
                        grid,
                        line,
                        pos + 2,
                    ) {
                        Ok(args) => Ok(
                            (
                                AstNodeV {
                                    line: line as usize,
                                    kind: AstKindV::ProcCall { name, args },
                                },
                                line,
                            ),
                        ),
                        Err(k) => Err(k),
                    },
                    _ => Err(ErrorKind::InvalidExpression),
                },
                TokenV::While => match spec_parse_value(grid, line, pos + 1, (fuel - 1) as nat) {
                    Ok((cond, _)) => match spec_parse_block(
                        grid,
                        line + 1,
                        |t: TokenV| t is EndWhile,
                        fuel,
                    ) {
                        Ok((body, l2)) => match spec_cur(grid, l2, 0) {
                            Some(_) => Ok(
                                (
                                    AstNodeV {
                                        line: l2 as usize,
                                        kind: AstKindV::While {
                                            expr: Box::new(cond),
                                            body,
                                        },
                                    },
                                    l2,
                                ),
                            ),
                            None => Err(ErrorKind::InvalidExpression),
                        },
                        Err(k) => Err(k),
                    },
                    Err(k) => Err(k),
                },
                TokenV::For => match spec_cur(grid, line, pos + 1) {
                    Some(TokenV::Ident(name)) => {
                        if !spec_name_ok(name) {
                            Err(ErrorKind::InvalidName)
                        } else {
                            match spec_cur(grid, line, pos + 2) {
                                Some(TokenV::From) => {
                                    match spec_parse_value(grid, line, pos + 3, (fuel - 1) as nat) {
                                        Ok((start, ps)) => match spec_cur(grid, line, ps) {
                                            Some(TokenV::To) => match spec_parse_value(
                                                grid,
                                                line,
                                                ps + 1,
                                                (fuel - 1) as nat,
                                            ) {
                                                Ok((endv, pe)) => {
                                                    let stepr = (match spec_cur(grid, line, pe) {
                                                        Some(TokenV::Step) => {
                                                            match spec_parse_value(
                                                                grid,
                                                                line,
                                                                pe + 1,
                                                                (fuel - 1) as nat,
                                                            ) {
                                                                Ok((sv, _)) => Ok(Some(sv)),
                                                                Err(k) => Err(k),
                                                            }
                                                        },
                                                        _ => Ok(None),
                                                    });
                                                    match stepr {
                                                        Ok(step) => match spec_parse_block(
                                                            grid,
                                                            line + 1,
                                                            |t: TokenV| t is EndFor,
                                                            fuel,
                                                        ) {
                                                            Ok((body, l2)) => match spec_cur(
                                                                grid,
                                                                l2,
                                                                0,
                                                            ) {
                                                                Some(_) => Ok(
                                                                    (
                                                                        AstNodeV {
                                                                            line: l2 as usize,
                                                                            kind: AstKindV::For {
                                                                                var_name: name,
                                                                                start: Box::new(start),
                                                                                end: Box::new(endv),
                                                                                step: match step {
                                                                                    Some(sv) => Some(Box::new(sv)),
                                                                                    None => None,
                                                                                },
                                                                                body,
                                                                            },
                                                                        },
                                                                        l2,
                                                                    ),
                                                                ),
                                                                None => Err(
                                                                    ErrorKind::InvalidExpression,
                                                                ),
                                                            },
                                                            Err(k) => Err(k),
                                                        },
                                                        Err(k) => Err(k),
                                                    }
                                                },
                                                Err(k) => Err(k),
                                            },
                                            _ => Err(ErrorKind::InvalidExpression),
                                        },
                                        Err(k) => Err(k),
                                    }
                                },
                                _ => Err(ErrorKind::InvalidExpression),
                            }
                        }
                    },
                    _ => Err(ErrorKind::InvalidExpression),
                },
                TokenV::If => match spec_parse_value(grid, line, pos + 1, (fuel - 1) as nat) {
                    Ok((cond, _)) => match spec_parse_block(
                        grid,
                        line + 1,
                        |t: TokenV| t is EndIf || t is Else,
                        fuel,
                    ) {
                        Ok((body, l2)) => match spec_cur(grid, l2, 0) {
                            Some(TokenV::EndIf) => Ok(
                                (
                                    AstNodeV {
                                        line: l2 as usize,
                                        kind: AstKindV::Condition {
                                            expr: Box::new(cond),
                                            yes: body,
                                            no: None,
                                        },
                                    },
                                    l2,
                                ),
                            ),
                            Some(TokenV::Else) => match spec_cur(grid, l2, 1) {
                                Some(TokenV::If) => match spec_parse_main(
                                    grid,
                                    fence_line(grid, line, l2),
                                    1,
                                    (fuel - 1) as nat,
                                ) {
                                    Ok((inner, l3)) => Ok(
                                        (
                                            AstNodeV {
                                                line: l3 as usize,
                                                kind: AstKindV::Condition {
                                                    expr: Box::new(cond),
                                                    yes: body,
                                                    no: Some(
                                                        ElseBlockV::ElseIf(Box::new(inner)),
                                                    ),
                                                },
                                            },
                                            l3,
                                        ),
                                    ),
                                    Err(k) => Err(k),
                                },
                                None => match spec_parse_block(
                                    grid,
                                    fence_line(grid, line, l2) + 1,
                                    |t: TokenV| t is EndIf,
                                    fuel,
                                ) {
                                    Ok((else_body, l3)) => match spec_cur(grid, l3, 0) {
                                        Some(_) => Ok(
                                            (
                                                AstNodeV {
                                                    line: l3 as usize,
                                                    kind: AstKindV::Condition {
                                                        expr: Box::new(cond),
                                                        yes: body,
                                                        no: Some(ElseBlockV::Else(else_body)),
                                                    },
                                                },
                                                l3,
                                            ),
                                        ),
                                        None => Err(ErrorKind::InvalidExpression),
                                    },
                                    Err(k) => Err(k),
                                },
                                Some(_) => Err(ErrorKind::InvalidExpression),
                            },
                            _ => Err(ErrorKind::InvalidExpression),
                        },
                        Err(k) => Err(k),
                    },
                    Err(k) => Err(k),
                },
                TokenV::Ident(receiver) => {
                    let op = (match spec_cur(grid, line, pos + 1) {
                        Some(TokenV::Assign) => Some(TokenV::Assign),
                        Some(TokenV::PlusAssign) => Some(TokenV::PlusAssign),
                        Some(TokenV::MinusAssign) => Some(TokenV::MinusAssign),
                        Some(TokenV::MultiplyAssign) => Some(TokenV::MultiplyAssign),
                        Some(TokenV::DivideAssign) => Some(TokenV::DivideAssign),
                        Some(TokenV::ModAssign) => Some(TokenV::ModAssign),
                        _ => None,
                    });
                    match op {
                        None => Err(ErrorKind::InvalidExpression),
                        Some(o) => match spec_parse_value(grid, line, pos + 2, (fuel - 1) as nat) {
                            Ok((e, _)) => Ok(
                                (
                                    AstNodeV {
                                        line: line as usize,
                                        kind: AstKindV::Assign {
                                            name: receiver,
                                            op: o,
                                            expr: Box::new(e),
                                        },
                                    },
                                    line,
                                ),
                            ),
                            Err(k) => Err(k),
                        },
                    }
                },
                _ => Err(ErrorKind::TopLevelOnlyInProc),
            },
        }
    }
}

/// A run of statements, one line after another, up to a terminator
/// line; the returned cursor is the terminator's line.
pub open spec fn spec_parse_block(
    grid: Seq<Seq<TokenV>>,
    line: int,
    stop: spec_fn(TokenV) -> bool,
    fuel: nat,
) -> Result<(Seq<AstNodeV>, int), ErrorKind>
    decreases fuel, lines_in(grid, line), 0int,
{
    let stopped = (match spec_cur(grid, line, 0) {
        Some(t) => stop(t),
        None => false,
    });
    if stopped {
        Ok((Seq::empty(), line))
    } else if fuel == 0 {
        Err(ErrorKind::InvalidExpression)
    } else if line < 0 || line >= grid.len() {
        // Off the grid the statement rule is consulted and rejects
        // the missing line.
        if fuel == 1 {
            Err(ErrorKind::InvalidExpression)
        } else {
            Err(ErrorKind::TopLevelOnlyInProc)
        }
    } else {
        match spec_parse_main(grid, line, 0, (fuel - 1) as nat) {
            Ok((node, l2)) => {
                match spec_parse_block(grid, fence_line(grid, line, l2 + 1), stop, fuel) {
                    Ok((rest, l3)) => Ok((seq![node] + rest, l3)),
                    Err(k) => Err(k),
                }
            },
            Err(k) => Err(k),
        }
    }
}

/// A procedure: `proc NAME (ident : type)*`, the body, and `end`; the
/// returned cursor is the line after `end`.
pub open spec fn spec_parse_proc(grid: Seq<Seq<TokenV>>, line: int, fuel: nat) -> Result<
    (AstNodeV, int),
    ErrorKind,
>
    decreases fuel, lines_in(grid, line), 2int,
{
    if fuel == 0 {
        Err(ErrorKind::InvalidExpression)
    } else {
        match spec_cur(grid, line, 1) {
            Some(TokenV::Ident(name)) => match spec_parse_params(grid, line, 2) {
                Ok(args) => match spec_parse_block(grid, line + 1, |t: TokenV| t is End, (fuel - 1) as nat) {
                    Ok((body, l2)) => match spec_cur(grid, l2, 0) {
                        Some(_) => Ok(
                            (
                                AstNodeV {
                                    line: (l2 + 1) as usize,
                                    kind: AstKindV::Proc { name, body, args },
                                },
                                l2 + 1,
                            ),
                        ),
                        None => Err(ErrorKind::InvalidExpression),
                    },
                    Err(k) => Err(k),
                },
                Err(k) => Err(k),
            },
            _ => Err(ErrorKind::InvalidExpression),
        }
    }
}

/// One top-level item: a procedure or a constant declaration; any
/// other line at the top level is rejected.
pub open spec fn spec_parse_top(grid: Seq<Seq<TokenV>>, line: int, fuel: nat) -> Result<
    (AstNodeV, int),
    ErrorKind,
>
    decreases fuel,
{
    if fuel == 0 {
        Err(ErrorKind::InvalidExpression)
    } else {
        match spec_cur(grid, line, 0) {
            Some(TokenV::Proc) => spec_parse_proc(grid, line, (fuel - 1) as nat),
            Some(TokenV::Const) => match spec_parse_var(grid, line, 0, (fuel - 1) as nat) {
                Ok((node, _)) => Ok((node, line + 1)),
                Err(k) => Err(k),
            },
            _ => Err(ErrorKind::TopLevelOnlyInProc),
        }
    }
}

/// The depth budget of the parser: far above the nesting any grid
/// could hold.
pub const PARSE_FUEL: u64 = 0xFFFF_FFFF_FFFF_FFF0;

pub open spec fn spec_parse_program_from(grid: Seq<Seq<TokenV>>, line: int, fuel: nat) -> Result<
    Seq<AstNodeV>,
    Diag,
>
    decreases lines_in(grid, line),
{
    if line >= grid.len() || line < 0 {
        Ok(Seq::empty())
    } else {
        match spec_parse_top(grid, line, fuel) {
            Ok((node, l2)) => {
                match spec_parse_program_from(grid, fence_line(grid, line, l2), fuel) {
                    Ok(rest) => Ok(seq![node] + rest),
                    Err(d) => Err(d),
                }
            },
            Err(k) => Err(Diag { line: line as usize, kind: k }),
        }
    }
}

/// The grammar of a whole source file.
pub open spec fn spec_parse_program(grid: Seq<Seq<TokenV>>) -> Result<Seq<AstNodeV>, Diag> {
    spec_parse_program_from(grid, 0, PARSE_FUEL as nat)
}

// ---------------------------------------------------------------------
// The parser: recursive descent over the token grid with an explicit
// line and position cursor. Statements are line-oriented; the block
// forms span lines. Expressions follow the precedence ladder `or`,
// `and`, comparisons, additive, multiplicative, unary, `as`, with all
// binary operators left-associative. Recursion carries a depth budget
// far above any program's nesting, so that every call terminates.

use crate::errors::{Diag, ErrorKind};

/// Which terminator a block form waits for.
#[derive(Clone, Copy)]
pub enum BlockStop {
    AtEndWhile,
    AtEndFor,
    AtEndIfOrElse,
    AtEndIf,
    AtEnd,
}

pub open spec fn stop_of(b: BlockStop) -> spec_fn(TokenV) -> bool {
    match b {
        BlockStop::AtEndWhile => |t: TokenV| t is EndWhile,
        BlockStop::AtEndFor => |t: TokenV| t is EndFor,
        BlockStop::AtEndIfOrElse => |t: TokenV| t is EndIf || t is Else,
        BlockStop::AtEndIf => |t: TokenV| t is EndIf,
        BlockStop::AtEnd => |t: TokenV| t is End,
    }
}

fn is_stop(b: &BlockStop, t: &Token) -> (r: bool)
    ensures
        r == stop_of(*b)(t@),
{
    match b {
        BlockStop::AtEndWhile => matches!(t, Token::EndWhile),
        BlockStop::AtEndFor => matches!(t, Token::EndFor),
        BlockStop::AtEndIfOrElse => matches!(t, Token::EndIf) || matches!(t, Token::Else),
        BlockStop::AtEndIf => matches!(t, Token::EndIf),
        BlockStop::AtEnd => matches!(t, Token::End),
    }
}

pub struct Parser {
    pub tokens: Vec<Vec<Token>>,
    pub line: usize,
    pub pos: usize,
}

impl Parser {
    pub fn new(tokens: Vec<Vec<Token>>) -> (r: Parser)
        ensures
            r.tokens@ == tokens@,
            r.line == 0,
            r.pos == 0,
    {
        Parser { line: 0, pos: 0, tokens }
    }

    fn current_token(&self) -> (r: Option<&Token>)
        ensures
            r is Some <==> self.line < self.tokens@.len() && self.pos
                < self.tokens@[self.line as int]@.len(),
            r is Some ==> r->0 == &self.tokens@[self.line as int]@[self.pos as int],
            r is Some ==> self.pos < usize::MAX && self.line < usize::MAX,
            (match r {
                Some(t) => spec_cur(grid_dv(self.tokens@), self.line as int, self.pos as int)
                    == Some(t@),
                None => spec_cur(grid_dv(self.tokens@), self.line as int, self.pos as int)
                    is None,
            }),
    {
        proof {
            if self.line < self.tokens@.len() {
                assert(grid_dv(self.tokens@)[self.line as int] == toks_dv(
                    self.tokens@[self.line as int]@,
                ));
            }
        }
        if self.line < self.tokens.len() {
            let row = &self.tokens[self.line];
            if self.pos < row.len() {
                Some(&row[self.pos])
            } else {
                None
            }
        } else {
            None
        }
    }

    fn next_line(&mut self)
        requires
            old(self).line < old(self).tokens@.len(),
        ensures
            final(self).tokens@ == old(self).tokens@,
            final(self).line == old(self).line + 1,
            final(self).pos == 0,
    {
        let cap = self.tokens.len();
        proof {
            assert(self.line < cap);
        }
        self.line = self.line + 1;
        self.pos = 0;
    }

    fn precedence(tok: &Token) -> (r: Option<u8>)
        ensures
            r == spec_prec(tok@),
            r is Some ==> r->0 <= 7,
    {
        match tok {
            Token::Or => Some(1),
            Token::And => Some(2),
            Token::Equal | Token::NotEqual | Token::Greater | Token::Less
                | Token::GreaterEqual | Token::LessEqual => Some(3),
            Token::Plus | Token::Minus => Some(4),
            Token::Multiply | Token::Divide | Token::Mod => Some(5),
            Token::As => Some(7),
            _ => None,
        }
    }

    /// One expression at the current cursor, binding at least
    /// `min_prec`; it reads exactly the tree and cursor the grammar
    /// gives.
    #[verifier::rlimit(100)]
    fn parse_expr(&mut self, min_prec: u8, fuel: u64) -> (r: Result<AstKind, ErrorKind>)
        requires
            old(self).line <= old(self).tokens@.len(),
        ensures
            final(self).tokens@ == old(self).tokens@,
            final(self).line == old(self).line,
            final(self).line <= final(self).tokens@.len(),
            r is Ok ==> final(self).pos > old(self).pos,
            r is Err ==> final(self).pos >= old(self).pos,
            r is Ok ==> old(self).line < old(self).tokens@.len() && final(self).pos
                <= old(self).tokens@[old(self).line as int]@.len(),
            (match r {
                Ok(k) => spec_parse_expr(
                    grid_dv(old(self).tokens@),
                    old(self).line as int,
                    old(self).pos as int,
                    min_prec,
                    fuel as nat,
                ) == Ok::<(AstKindV, int), ErrorKind>((ast_kind_v(k), final(self).pos as int)),
                Err(e) => spec_parse_expr(
                    grid_dv(old(self).tokens@),
                    old(self).line as int,
                    old(self).pos as int,
                    min_prec,
                    fuel as nat,
                ) == Err::<(AstKindV, int), ErrorKind>(e),
            }),
        decreases fuel,
    {
        let ghost g = grid_dv(old(self).tokens@);
        let ghost lx = old(self).line as int;
        let ghost p0 = old(self).pos as int;
        proof {
            if old(self).line < old(self).tokens@.len() {
                assert(g[lx] == toks_dv(old(self).tokens@[lx]@));
            }
        }
        if fuel == 0 {
            return Err(ErrorKind::InvalidExpression);
        }
        let first = match self.current_token() {
            Some(t) => t,
            None => {
                return Err(ErrorKind::InvalidExpression);
            },
        };
        let ghost rowlen = g[lx].len();
        let mut left: AstKind = match first {
            Token::Minus | Token::Not => {
                let op = if first.is_minus() {
                    Token::Minus
                } else {
                    Token::Not
                };
                self.pos = self.pos + 1;
                let expr = match self.parse_expr(6, fuel - 1) {
                    Ok(e) => e,
                    Err(k) => {
                        return Err(k);
                    },
                };
                proof {
                    assert(fence_pos(g, lx, p0, self.pos as int) == self.pos as int);
                }
                AstKind::UnaryOp { op, expr: Box::new(expr) }
            },
            Token::OpenParen => {
                self.pos = self.pos + 1;
                let expr = match self.parse_expr(0, fuel - 1) {
                    Ok(e) => e,
                    Err(k) => {
                        return Err(k);
                    },
                };
                proof {
                    assert(fence_pos(g, lx, p0, self.pos as int) == self.pos as int);
                }
                match self.current_token() {
                    Some(Token::CloseParen) => {
                        self.pos = self.pos + 1;
                    },
                    _ => {
                        return Err(ErrorKind::UnbalancedParen);
                    },
                }
                expr
            },
            Token::Ident(name) => {
                let n = name.clone();
                self.pos = self.pos + 1;
                AstKind::Ident(n)
            },
            Token::Number => {
                self.pos = self.pos + 1;
                AstKind::Ident("number".to_owned())
            },
            Token::Float => {
                self.pos = self.pos + 1;
                AstKind::Ident("float".to_owned())
            },
            Token::String => {
                self.pos = self.pos + 1;
                AstKind::Ident("string".to_owned())
            },
            Token::Bool => {
                self.pos = self.pos + 1;
                AstKind::Ident("bool".to_owned())
            },
            Token::NumberValue(v) => {
                let v2 = *v;
                self.pos = self.pos + 1;
                AstKind::Number(v2)
            },
            Token::FloatValue(v) => {
                let v2 = *v;
                self.pos = self.pos + 1;
                AstKind::Float(v2)
            },
            Token::StringValue(v) => {
                let v2 = v.clone();
                self.pos = self.pos + 1;
                AstKind::String(v2)
            },
            Token::BooleanValue(v) => {
                let v2 = *v;
                self.pos = self.pos + 1;
                AstKind::Boolean(v2)
            },
            _ => {
                return Err(ErrorKind::InvalidExpression);
            },
        };
        let ghost mut lv = ast_kind_v(left);
        proof {
            assert(spec_parse_expr(g, lx, p0, min_prec, fuel as nat) == spec_expr_ops(
                g,
                lx,
                self.pos as int,
                min_prec,
                lv,
                fuel as nat,
            ));
        }
        loop
            invariant
                self.tokens@ == old(self).tokens@,
                self.line == old(self).line,
                self.line < self.tokens@.len(),
                g == grid_dv(old(self).tokens@),
                lx == old(self).line as int,
                p0 == old(self).pos as int,
                rowlen == g[lx].len(),
                rowlen == self.tokens@[lx]@.len(),
                self.pos > old(self).pos,
                self.pos as int <= rowlen,
                fuel >= 1,
                lv == ast_kind_v(left),
                spec_parse_expr(g, lx, p0, min_prec, fuel as nat) == spec_expr_ops(
                    g,
                    lx,
                    self.pos as int,
                    min_prec,
                    lv,
                    fuel as nat,
                ),
            ensures
                self.tokens@ == old(self).tokens@,
                self.line == old(self).line,
                self.line < self.tokens@.len(),
                self.pos > old(self).pos,
                self.pos as int <= self.tokens@[old(self).line as int]@.len(),
                spec_parse_expr(g, lx, p0, min_prec, fuel as nat) == Ok::<
                    (AstKindV, int),
                    ErrorKind,
                >((ast_kind_v(left), self.pos as int)),
            decreases rowlen - self.pos,
        {
            let (op_tok, prec) = match self.current_token() {
                Some(tok) => match Self::precedence(tok) {
                    Some(p) => {
                        if p >= min_prec {
                            (tok.shallow_copy(), p)
                        } else {
                            proof {
                                assert(spec_expr_ops(g, lx, self.pos as int, min_prec, lv, fuel as nat)
                                    == Ok::<(AstKindV, int), ErrorKind>((lv, self.pos as int)));
                            }
                            break;
                        }
                    },
                    None => {
                        proof {
                            assert(spec_expr_ops(g, lx, self.pos as int, min_prec, lv, fuel as nat)
                                == Ok::<(AstKindV, int), ErrorKind>((lv, self.pos as int)));
                        }
                        break;
                    },
                },
                None => {
                    proof {
                        assert(spec_expr_ops(g, lx, self.pos as int, min_prec, lv, fuel as nat)
                            == Ok::<(AstKindV, int), ErrorKind>((lv, self.pos as int)));
                    }
                    break;
                },
            };
            let ghost phead = self.pos as int;
            self.pos = self.pos + 1;
            let right = match self.parse_expr(prec + 1, fuel - 1) {
                Ok(e) => e,
                Err(k) => {
                    return Err(k);
                },
            };
            proof {
                assert(fence_pos(g, lx, phead, self.pos as int) == self.pos as int);
            }
            if op_tok.is_as() {
                let cast = (match &right {
                    AstKind::Ident(n) => {
                        if crate::textops::str_eq(n.as_str(), "string") { Some(Cast::String) }
                        else if crate::textops::str_eq(n.as_str(), "number") { Some(Cast::Number) }
                        else if crate::textops::str_eq(n.as_str(), "float") { Some(Cast::Float) }
                        else if crate::textops::str_eq(n.as_str(), "bool") { Some(Cast::Boolean) }
                        else if crate::textops::str_eq(n.as_str(), "sin") { Some(Cast::Sin) }
                        else if crate::textops::str_eq(n.as_str(), "cos") { Some(Cast::Cos) }
                        else if crate::textops::str_eq(n.as_str(), "sqrt") { Some(Cast::Sqrt) }
                        else { None }
                    },
                    _ => None,
                });
                proof {
                    assert(spec_as_target(ast_kind_v(right)) == cast);
                }
                match cast {
                    Some(c) => {
                        left = AstKind::AsOp { expr: Box::new(left), op: c };
                        proof {
                            lv = ast_kind_v(left);
                        }
                    },
                    None => {
                        return Err(ErrorKind::InvalidExpression);
                    },
                }
            } else {
                left = AstKind::BinaryOp {
                    left: Box::new(left),
                    op: op_tok,
                    right: Box::new(right),
                };
                proof {
                    lv = ast_kind_v(left);
                }
            }
        }
        Ok(left)
    }

    /// One full expression: the cursor must then stand at the end of
    /// the line or before `to` / `step` (inside a counted loop head).
    pub fn parse_value(&mut self, fuel: u64) -> (r: Result<AstKind, ErrorKind>)
        requires
            old(self).line <= old(self).tokens@.len(),
        ensures
            final(self).tokens@ == old(self).tokens@,
            final(self).line == old(self).line,
            final(self).line <= final(self).tokens@.len(),
            r is Ok ==> final(self).pos > old(self).pos,
            r is Ok ==> old(self).line < old(self).tokens@.len() && final(self).pos
                <= old(self).tokens@[old(self).line as int]@.len(),
            (match r {
                Ok(k) => spec_parse_value(
                    grid_dv(old(self).tokens@),
                    old(self).line as int,
                    old(self).pos as int,
                    fuel as nat,
                ) == Ok::<(AstKindV, int), ErrorKind>((ast_kind_v(k), final(self).pos as int)),
                Err(e) => spec_parse_value(
                    grid_dv(old(self).tokens@),
                    old(self).line as int,
                    old(self).pos as int,
                    fuel as nat,
                ) == Err::<(AstKindV, int), ErrorKind>(e),
            }),
        decreases fuel,
    {
        if fuel == 0 {
            return Err(ErrorKind::InvalidExpression);
        }
        let first = self.parse_expr(0, fuel - 1)?;
        match self.current_token() {
            None => Ok(first),
            Some(Token::To) => Ok(first),
            Some(Token::Step) => Ok(first),
            Some(_) => Err(ErrorKind::InvalidExpression),
        }
    }

    /// `<type> NAME = expr`, with an optional leading `const`; it
    /// reads exactly the declaration the grammar gives.
    fn parse_var(&mut self, fuel: u64) -> (r: Result<AstNode, ErrorKind>)
        requires
            old(self).line <= old(self).tokens@.len(),
        ensures
            final(self).tokens@ == old(self).tokens@,
            final(self).line == old(self).line,
            final(self).line <= final(self).tokens@.len(),
            (match r {
                Ok(node) => spec_parse_var(
                    grid_dv(old(self).tokens@),
                    old(self).line as int,
                    old(self).pos as int,
                    fuel as nat,
                ) == Ok::<(AstNodeV, int), ErrorKind>(
                    (ast_node_v(node), final(self).pos as int),
                ),
                Err(e) => spec_parse_var(
                    grid_dv(old(self).tokens@),
                    old(self).line as int,
                    old(self).pos as int,
                    fuel as nat,
                ) == Err::<(AstNodeV, int), ErrorKind>(e),
            }),
        decreases fuel,
    {
        if fuel == 0 {
            return Err(ErrorKind::InvalidExpression);
        }
        let is_const = match self.current_token() {
            Some(Token::Const) => true,
            _ => false,
        };
        if is_const {
            self.pos = self.pos + 1;
        }
        let type_ = match self.current_token() {
            Some(Token::Number) => TypesCheck::Number,
            Some(Token::Float) => TypesCheck::Float,
            Some(Token::String) => TypesCheck::String,
            Some(Token::Bool) => TypesCheck::Boolean,
            _ => {
                return Err(ErrorKind::InvalidExpression);
            },
        };
        self.pos = self.pos + 1;
        let name = match self.current_token() {
            Some(Token::Ident(n)) => n.clone(),
            _ => {
                return Err(ErrorKind::InvalidExpression);
            },
        };
        self.pos = self.pos + 1;
        if name.as_str().unicode_len() == 0 || !name.as_str().is_ascii()
            || name.as_str().unicode_len() > 256
            || crate::numtext::exec_is_digit_pub(name.as_str().get_char(0)) {
            return Err(ErrorKind::InvalidName);
        }
        match self.current_token() {
            Some(Token::Assign) => {
                self.pos = self.pos + 1;
            },
            _ => {
                return Err(ErrorKind::ExpectedAssignOperator);
            },
        }
        let value = self.parse_value(fuel - 1)?;
        Ok(
            AstNode {
                line: self.line,
                kind: AstKind::VarDecl { name, type_, value: Box::new(value), is_const },
            },
        )
    }

    /// One statement of a procedure body, block forms included; it
    /// reads exactly the statement the grammar gives, and ends on the
    /// statement's last line.
    #[verifier::rlimit(100)]
    fn parse_main(&mut self, fuel: u64) -> (r: Result<AstNode, ErrorKind>)
        requires
            old(self).line <= old(self).tokens@.len(),
        ensures
            final(self).tokens@ == old(self).tokens@,
            final(self).line >= old(self).line,
            final(self).line <= final(self).tokens@.len(),
            r is Ok ==> final(self).line < final(self).tokens@.len(),
            (match r {
                Ok(node) => spec_parse_main(
                    grid_dv(old(self).tokens@),
                    old(self).line as int,
                    old(self).pos as int,
                    fuel as nat,
                ) == Ok::<(AstNodeV, int), ErrorKind>(
                    (ast_node_v(node), final(self).line as int),
                ),
                Err(e) => spec_parse_main(
                    grid_dv(old(self).tokens@),
                    old(self).line as int,
                    old(self).pos as int,
                    fuel as nat,
                ) == Err::<(AstNodeV, int), ErrorKind>(e),
            }),
        decreases fuel, lines_in(grid_dv(old(self).tokens@), old(self).line as int), 1int,
    {
        let ghost g = grid_dv(old(self).tokens@);
        let ghost lx = old(self).line as int;
        let ghost p0 = old(self).pos as int;
        if fuel == 0 {
            return Err(ErrorKind::InvalidExpression);
        }
        let cur = match self.current_token() {
            Some(t) => t,
            None => {
                return Err(ErrorKind::TopLevelOnlyInProc);
            },
        };
        match cur {
            Token::Echo => {
                self.pos = self.pos + 1;
                let e = self.parse_value(fuel - 1)?;
                Ok(AstNode { line: self.line, kind: AstKind::Echo(Box::new(e)) })
            },
            Token::Delete => {
                self.pos = self.pos + 1;
                match self.current_token() {
                    Some(Token::Ident(n)) => {
                        let name = n.clone();
                        self.pos = self.pos + 1;
                        Ok(AstNode { line: self.line, kind: AstKind::Delete(name) })
                    },
                    _ => Err(ErrorKind::InvalidName),
                }
            },
            Token::Exit => {
                self.pos = self.pos + 1;
                match self.current_token() {
                    Some(Token::NumberValue(code)) => {
                        let c = *code;
                        self.pos = self.pos + 1;
                        #[verifier::truncate]
                        let c32 = c as i32;
                        Ok(AstNode { line: self.line, kind: AstKind::Exit(c32) })
                    },
                    _ => Err(ErrorKind::MissingExitCode),
                }
            },
            Token::Number | Token::Float | Token::String | Token::Bool | Token::Const => {
                let node = self.parse_var(fuel - 1)?;
                Ok(node)
            },
            Token::Call => {
                self.pos = self.pos + 1;
                let name = match self.current_token() {
                    Some(Token::Ident(n)) => n.clone(),
                    _ => {
                        return Err(ErrorKind::InvalidExpression);
                    },
                };
                self.pos = self.pos + 1;
                let ghost a0 = self.pos as int;
                let mut args: Vec<Token> = Vec::new();
                proof {
                    assert(toks_dv(args@) =~= Seq::<TokenV>::empty());
                }
                loop
                    invariant
                        self.tokens@ == old(self).tokens@,
                        self.line == old(self).line,
                        self.line < self.tokens@.len(),
                        g == grid_dv(old(self).tokens@),
                        lx == old(self).line as int,
                        p0 == old(self).pos as int,
                        self.pos >= a0,
                        spec_parse_main(g, lx, p0, fuel as nat) == (match spec_parse_call_args(
                            g,
                            lx,
                            a0,
                        ) {
                            Ok(args2) => Ok::<(AstNodeV, int), ErrorKind>(
                                (
                                    AstNodeV {
                                        line: lx as usize,
                                        kind: AstKindV::ProcCall { name: name@, args: args2 },
                                    },
                                    lx,
                                ),
                            ),
                            Err(k) => Err::<(AstNodeV, int), ErrorKind>(k),
                        }),
                        (match spec_parse_call_args(g, lx, self.pos as int) {
                            Ok(rest) => spec_parse_call_args(g, lx, a0) == Ok::<
                                Seq<TokenV>,
                                ErrorKind,
                            >(toks_dv(args@) + rest),
                            Err(k) => spec_parse_call_args(g, lx, a0) == Err::<
                                Seq<TokenV>,
                                ErrorKind,
                            >(k),
                        }),
                    ensures
                        self.tokens@ == old(self).tokens@,
                        self.line == old(self).line,
                        self.line < self.tokens@.len(),
                        spec_parse_call_args(g, lx, a0) == Ok::<Seq<TokenV>, ErrorKind>(
                            toks_dv(args@),
                        ),
                    decreases
                            (if self.pos as int <= self.tokens@[lx]@.len() {
                                self.tokens@[lx]@.len() - self.pos as int
                            } else {
                                0int
                            }),
                {
                    let ghost argspre = args@;
                    let arg = match self.current_token() {
                        Some(t) => match t {
                            Token::Ident(n) => Token::Ident(n.clone()),
                            Token::NumberValue(v) => Token::NumberValue(*v),
                            Token::FloatValue(v) => Token::FloatValue(*v),
                            Token::StringValue(v) => Token::StringValue(v.clone()),
                            Token::BooleanValue(v) => Token::BooleanValue(*v),
                            _ => {
                                proof {
                                    assert(spec_parse_call_args(g, lx, self.pos as int) == Err::<
                                        Seq<TokenV>,
                                        ErrorKind,
                                    >(ErrorKind::InvalidExpression));
                                    assert(spec_parse_main(g, lx, p0, fuel as nat) == Err::<
                                        (AstNodeV, int),
                                        ErrorKind,
                                    >(ErrorKind::InvalidExpression));
                                }
                                return Err(ErrorKind::InvalidExpression);
                            },
                        },
                        None => {
                            proof {
                                assert(toks_dv(args@) + Seq::<TokenV>::empty() =~= toks_dv(
                                    args@,
                                ));
                            }
                            break;
                        },
                    };
                    proof {
                        crate::lexer::lemma_toks_dv_push(argspre, arg);
                    }
                    args.push(arg);
                    self.pos = self.pos + 1;
                    proof {
                        match spec_parse_call_args(g, lx, self.pos as int) {
                            Ok(rest) => {
                                assert(toks_dv(argspre) + (seq![arg@] + rest) =~= toks_dv(args@)
                                    + rest);
                            },
                            Err(_) => {},
                        }
                    }
                }
                Ok(AstNode { line: self.line, kind: AstKind::ProcCall { name, args } })
            },
            Token::While => {
                self.pos = self.pos + 1;
                let cond = self.parse_value(fuel - 1)?;
                self.next_line();
                let body = self.parse_block(BlockStop::AtEndWhile, fuel)?;
                Ok(
                    AstNode {
                        line: self.line,
                        kind: AstKind::While { expr: Box::new(cond), body },
                    },
                )
            },
            Token::For => {
                self.pos = self.pos + 1;
                let name = match self.current_token() {
                    Some(Token::Ident(n)) => n.clone(),
                    _ => {
                        return Err(ErrorKind::InvalidExpression);
                    },
                };
                if name.as_str().unicode_len() == 0 || !name.as_str().is_ascii()
                    || name.as_str().unicode_len() > 256
                    || crate::numtext::exec_is_digit_pub(name.as_str().get_char(0)) {
                    return Err(ErrorKind::InvalidName);
                }
                self.pos = self.pos + 1;
                match self.current_token() {
                    Some(Token::From) => {
                        self.pos = self.pos + 1;
                    },
                    _ => {
                        return Err(ErrorKind::InvalidExpression);
                    },
                }
                let start = self.parse_value(fuel - 1)?;
                match self.current_token() {
                    Some(Token::To) => {
                        self.pos = self.pos + 1;
                    },
                    _ => {
                        return Err(ErrorKind::InvalidExpression);
                    },
                }
                let end = self.parse_value(fuel - 1)?;
                let step = match self.current_token() {
                    Some(Token::Step) => {
                        self.pos = self.pos + 1;
                        Some(self.parse_value(fuel - 1)?)
                    },
                    _ => None,
                };
                self.next_line();
                let body = self.parse_block(BlockStop::AtEndFor, fuel)?;
                Ok(
                    AstNode {
                        line: self.line,
                        kind: AstKind::For {
                            var_name: name,
                            start: Box::new(start),
                            end: Box::new(end),
                            step: Box::new(step),
                            body,
                        },
                    },
                )
            },
            Token::If => {
                self.pos = self.pos + 1;
                let cond = self.parse_value(fuel - 1)?;
                self.next_line();
                let body = self.parse_block(BlockStop::AtEndIfOrElse, fuel)?;
                match self.current_token() {
                    Some(Token::EndIf) => Ok(
                        AstNode {
                            line: self.line,
                            kind: AstKind::Condition {
                                expr: Box::new(cond),
                                yes: body,
                                no: None,
                            },
                        },
                    ),
                    Some(Token::Else) => {
                        self.pos = self.pos + 1;
                        match self.current_token() {
                            Some(Token::If) => {
                                proof {
                                    assert(fence_line(g, lx, self.line as int)
                                        == self.line as int);
                                }
                                let inner = self.parse_main(fuel - 1)?;
                                Ok(
                                    AstNode {
                                        line: self.line,
                                        kind: AstKind::Condition {
                                            expr: Box::new(cond),
                                            yes: body,
                                            no: Some(ElseBlock::ElseIf(Box::new(inner))),
                                        },
                                    },
                                )
                            },
                            None => {
                                proof {
                                    assert(fence_line(g, lx, self.line as int)
                                        == self.line as int);
                                }
                                self.next_line();
                                let else_body = self.parse_block(BlockStop::AtEndIf, fuel)?;
                                Ok(
                                    AstNode {
                                        line: self.line,
                                        kind: AstKind::Condition {
                                            expr: Box::new(cond),
                                            yes: body,
                                            no: Some(ElseBlock::Else(else_body)),
                                        },
                                    },
                                )
                            },
                            _ => Err(ErrorKind::InvalidExpression),
                        }
                    },
                    _ => Err(ErrorKind::InvalidExpression),
                }
            },
            Token::Ident(receiver) => {
                let name = receiver.clone();
                self.pos = self.pos + 1;
                let op = match self.current_token() {
                    Some(Token::Assign) => Token::Assign,
                    Some(Token::PlusAssign) => Token::PlusAssign,
                    Some(Token::MinusAssign) => Token::MinusAssign,
                    Some(Token::MultiplyAssign) => Token::MultiplyAssign,
                    Some(Token::DivideAssign) => Token::DivideAssign,
                    Some(Token::ModAssign) => Token::ModAssign,
                    _ => {
                        return Err(ErrorKind::InvalidExpression);
                    },
                };
                self.pos = self.pos + 1;
                let expr = self.parse_value(fuel - 1)?;
                Ok(
                    AstNode {
                        line: self.line,
                        kind: AstKind::Assign { name, op, expr: Box::new(expr) },
                    },
                )
            },
            _ => Err(ErrorKind::TopLevelOnlyInProc),
        }
    }

    /// The body of one block form, up to its terminator line.
    fn parse_block(&mut self, stop: BlockStop, fuel: u64) -> (r: Result<Vec<AstNode>, ErrorKind>)
        requires
            old(self).line <= old(self).tokens@.len(),
            old(self).pos == 0,
        ensures
            final(self).tokens@ == old(self).tokens@,
            final(self).line >= old(self).line,
            final(self).line <= final(self).tokens@.len(),
            (match r {
                Ok(body) => spec_parse_block(
                    grid_dv(old(self).tokens@),
                    old(self).line as int,
                    stop_of(stop),
                    fuel as nat,
                ) == Ok::<(Seq<AstNodeV>, int), ErrorKind>(
                    (ast_nodes_v(body@), final(self).line as int),
                ) && final(self).line < final(self).tokens@.len() && final(self).pos == 0
                    && final(self).tokens@[final(self).line as int]@.len() > 0 && stop_of(stop)(
                    final(self).tokens@[final(self).line as int]@[0]@,
                ),
                Err(e) => spec_parse_block(
                    grid_dv(old(self).tokens@),
                    old(self).line as int,
                    stop_of(stop),
                    fuel as nat,
                ) == Err::<(Seq<AstNodeV>, int), ErrorKind>(e),
            }),
        decreases fuel, lines_in(grid_dv(old(self).tokens@), old(self).line as int), 0int,
    {
        let ghost g = grid_dv(old(self).tokens@);
        let ghost b0 = old(self).line as int;
        let ghost stopf = stop_of(stop);
        let mut body: Vec<AstNode> = Vec::new();
        proof {
            assert(ast_nodes_v(body@) =~= Seq::<AstNodeV>::empty());
        }
        loop
            invariant
                self.tokens@ == old(self).tokens@,
                b0 == old(self).line as int,
                self.line >= b0,
                self.line <= self.tokens@.len(),
                self.pos == 0,
                g == grid_dv(old(self).tokens@),
                stopf == stop_of(stop),
                (match spec_parse_block(g, self.line as int, stopf, fuel as nat) {
                    Ok(t) => spec_parse_block(g, b0, stopf, fuel as nat) == Ok::<
                        (Seq<AstNodeV>, int),
                        ErrorKind,
                    >((ast_nodes_v(body@) + t.0, t.1)),
                    Err(k) => spec_parse_block(g, b0, stopf, fuel as nat) == Err::<
                        (Seq<AstNodeV>, int),
                        ErrorKind,
                    >(k),
                }),
            ensures
                self.tokens@ == old(self).tokens@,
                self.line >= b0,
                self.pos == 0,
                self.line < self.tokens@.len(),
                self.tokens@[self.line as int]@.len() > 0,
                stop_of(stop)(self.tokens@[self.line as int]@[0]@),
                spec_parse_block(g, b0, stopf, fuel as nat) == Ok::<
                    (Seq<AstNodeV>, int),
                    ErrorKind,
                >((ast_nodes_v(body@), self.line as int)),
            decreases lines_in(g, self.line as int),
        {
            match self.current_token() {
                Some(t) => {
                    if is_stop(&stop, t) {
                        proof {
                            assert(ast_nodes_v(body@) + Seq::<AstNodeV>::empty() =~= ast_nodes_v(
                                body@,
                            ));
                        }
                        break;
                    }
                },
                None => {},
            }
            if fuel == 0 {
                return Err(ErrorKind::InvalidExpression);
            }
            let ghost bodypre = body@;
            let ghost lcur = self.line as int;
            let node = match self.parse_main(fuel - 1) {
                Ok(n) => n,
                Err(k) => {
                    return Err(k);
                },
            };
            proof {
                assert(fence_line(g, lcur, self.line as int + 1) == self.line as int + 1);
            }
            body.push(node);
            self.next_line();
            proof {
                assert(ast_nodes_v(body@) == ast_nodes_v(bodypre).push(ast_node_v(node))) by {
                    assert(body@.drop_last() =~= bodypre);
                }
                match spec_parse_block(g, self.line as int, stopf, fuel as nat) {
                    Ok(t) => {
                        assert(ast_nodes_v(bodypre) + (seq![ast_node_v(node)] + t.0)
                            =~= ast_nodes_v(body@) + t.0);
                    },
                    Err(_) => {},
                }
            }
        }
        Ok(body)
    }

    /// `proc NAME (ident : type)*`, then the body, then `end`; it
    /// reads exactly the procedure the grammar gives and ends on the
    /// line after `end`.
    #[verifier::rlimit(100)]
    fn parse_proc(&mut self, fuel: u64) -> (r: Result<AstNode, ErrorKind>)
        requires
            old(self).line < old(self).tokens@.len(),
            old(self).pos == 0,
        ensures
            final(self).tokens@ == old(self).tokens@,
            final(self).line >= old(self).line,
            final(self).line <= final(self).tokens@.len(),
            r is Ok ==> final(self).line > old(self).line,
            (match r {
                Ok(node) => spec_parse_proc(
                    grid_dv(old(self).tokens@),
                    old(self).line as int,
                    fuel as nat,
                ) == Ok::<(AstNodeV, int), ErrorKind>(
                    (ast_node_v(node), final(self).line as int),
                ),
                Err(e) => spec_parse_proc(
                    grid_dv(old(self).tokens@),
                    old(self).line as int,
                    fuel as nat,
                ) == Err::<(AstNodeV, int), ErrorKind>(e),
            }),
        decreases fuel,
    {
        let ghost g = grid_dv(old(self).tokens@);
        let ghost lx = old(self).line as int;
        if fuel == 0 {
            return Err(ErrorKind::InvalidExpression);
        }
        self.pos = self.pos + 1;
        let name = match self.current_token() {
            Some(Token::Ident(n)) => n.clone(),
            _ => {
                return Err(ErrorKind::InvalidExpression);
            },
        };
        self.pos = self.pos + 1;
        let ghost a0 = self.pos as int;
        let mut args: Vec<(String, TypesCheck)> = Vec::new();
        proof {
            assert(crate::bytecode::args_view(args@) =~= Seq::<(Seq<char>, TypesCheck)>::empty());
        }
        loop
            invariant
                self.tokens@ == old(self).tokens@,
                self.line == old(self).line,
                self.line < self.tokens@.len(),
                g == grid_dv(old(self).tokens@),
                lx == old(self).line as int,
                a0 == 2,
                self.pos >= a0,
                fuel >= 1,
                spec_cur(g, lx, 1) == Some(TokenV::Ident(name@)),
                (match spec_parse_params(g, lx, self.pos as int) {
                    Ok(rest) => spec_parse_params(g, lx, a0) == Ok::<
                        Seq<(Seq<char>, TypesCheck)>,
                        ErrorKind,
                    >(crate::bytecode::args_view(args@) + rest),
                    Err(k) => spec_parse_params(g, lx, a0) == Err::<
                        Seq<(Seq<char>, TypesCheck)>,
                        ErrorKind,
                    >(k),
                }),
            ensures
                self.tokens@ == old(self).tokens@,
                self.line == old(self).line,
                self.line < self.tokens@.len(),
                fuel >= 1,
                spec_cur(g, lx, 1) == Some(TokenV::Ident(name@)),
                spec_parse_params(g, lx, a0) == Ok::<Seq<(Seq<char>, TypesCheck)>, ErrorKind>(
                    crate::bytecode::args_view(args@),
                ),
            decreases
                    (if self.pos as int <= self.tokens@[lx]@.len() {
                        self.tokens@[lx]@.len() - self.pos as int
                    } else {
                        0int
                    }),
        {
            let ghost argspre = args@;
            let arg = match self.current_token() {
                Some(Token::Ident(a)) => a.clone(),
                Some(_) => {
                    return Err(ErrorKind::InvalidExpression);
                },
                None => {
                    proof {
                        assert(crate::bytecode::args_view(args@) + Seq::<
                            (Seq<char>, TypesCheck),
                        >::empty() =~= crate::bytecode::args_view(args@));
                    }
                    break;
                },
            };
            self.pos = self.pos + 1;
            match self.current_token() {
                Some(Token::Colon) => {
                    self.pos = self.pos + 1;
                },
                _ => {
                    return Err(ErrorKind::InvalidExpression);
                },
            }
            let ty = match self.current_token() {
                Some(Token::Number) => TypesCheck::Number,
                Some(Token::Float) => TypesCheck::Float,
                Some(Token::String) => TypesCheck::String,
                Some(Token::Bool) => TypesCheck::Boolean,
                _ => {
                    return Err(ErrorKind::InvalidExpression);
                },
            };
            self.pos = self.pos + 1;
            args.push((arg, ty));
            proof {
                assert(crate::bytecode::args_view(args@) =~= crate::bytecode::args_view(
                    argspre,
                ).push((args@[args@.len() - 1].0@, args@[args@.len() - 1].1)));
                match spec_parse_params(g, lx, self.pos as int) {
                    Ok(rest) => {
                        assert(crate::bytecode::args_view(argspre) + (seq![
                            (args@[args@.len() - 1].0@, args@[args@.len() - 1].1),
                        ] + rest) =~= crate::bytecode::args_view(args@) + rest);
                    },
                    Err(_) => {},
                }
            }
        }
        self.next_line();
        let body = self.parse_block(BlockStop::AtEnd, fuel - 1)?;
        match self.current_token() {
            Some(_) => {},
            None => {
                return Err(ErrorKind::InvalidExpression);
            },
        }
        self.next_line();
        Ok(AstNode { line: self.line, kind: AstKind::Proc { name, body, args } })
    }

    /// One top-level item: a procedure or a constant declaration; any
    /// other line is rejected at the top level.
    fn parse(&mut self, fuel: u64) -> (r: Result<AstNode, ErrorKind>)
        requires
            old(self).line < old(self).tokens@.len(),
            old(self).pos == 0,
        ensures
            final(self).tokens@ == old(self).tokens@,
            final(self).line <= final(self).tokens@.len(),
            r is Ok ==> final(self).line > old(self).line && final(self).pos == 0,
            r is Ok ==> (r->Ok_0.kind is Proc || r->Ok_0.kind is VarDecl),
            (match r {
                Ok(node) => spec_parse_top(
                    grid_dv(old(self).tokens@),
                    old(self).line as int,
                    fuel as nat,
                ) == Ok::<(AstNodeV, int), ErrorKind>(
                    (ast_node_v(node), final(self).line as int),
                ),
                Err(e) => spec_parse_top(
                    grid_dv(old(self).tokens@),
                    old(self).line as int,
                    fuel as nat,
                ) == Err::<(AstNodeV, int), ErrorKind>(e),
            }),
        decreases fuel,
    {
        if fuel == 0 {
            return Err(ErrorKind::InvalidExpression);
        }
        match self.current_token() {
            Some(Token::Proc) => {
                let node = self.parse_proc(fuel - 1)?;
                self.pos = 0;
                match &node.kind {
                    AstKind::Proc { .. } => Ok(node),
                    _ => {
                        proof {
                            assert(false);
                        }
                        Err(ErrorKind::TopLevelOnlyInProc)
                    },
                }
            },
            Some(Token::Const) => {
                let node = self.parse_var(fuel - 1)?;
                self.next_line();
                match &node.kind {
                    AstKind::VarDecl { .. } => Ok(node),
                    _ => {
                        proof {
                            assert(false);
                        }
                        Err(ErrorKind::TopLevelOnlyInProc)
                    },
                }
            },
            _ => Err(ErrorKind::TopLevelOnlyInProc),
        }
    }

    /// The whole grid: a run of top-level constant declarations and
    /// procedure definitions — exactly the program the grammar gives.
    pub fn start(&mut self) -> (r: Result<Vec<AstNode>, Diag>)
        requires
            old(self).line == 0,
            old(self).pos == 0,
        ensures
            (match r {
                Ok(tree) => spec_parse_program(grid_dv(old(self).tokens@)) == Ok::<
                    Seq<AstNodeV>,
                    Diag,
                >(ast_nodes_v(tree@)) && forall|i: int|
                    0 <= i < tree@.len() ==> ((#[trigger] tree@[i]).kind is Proc
                        || tree@[i].kind is VarDecl),
                Err(d) => spec_parse_program(grid_dv(old(self).tokens@)) == Err::<
                    Seq<AstNodeV>,
                    Diag,
                >(d),
            }),
    {
        let ghost g = grid_dv(old(self).tokens@);
        let mut tree: Vec<AstNode> = Vec::new();
        let fuel: u64 = PARSE_FUEL;
        proof {
            assert(ast_nodes_v(tree@) =~= Seq::<AstNodeV>::empty());
        }
        loop
            invariant
                self.tokens@ == old(self).tokens@,
                self.line <= self.tokens@.len(),
                self.pos == 0,
                g == grid_dv(old(self).tokens@),
                fuel == PARSE_FUEL,
                forall|i: int|
                    0 <= i < tree@.len() ==> ((#[trigger] tree@[i]).kind is Proc
                        || tree@[i].kind is VarDecl),
                (match spec_parse_program_from(g, self.line as int, fuel as nat) {
                    Ok(rest) => spec_parse_program_from(g, 0, fuel as nat) == Ok::<
                        Seq<AstNodeV>,
                        Diag,
                    >(ast_nodes_v(tree@) + rest),
                    Err(d) => spec_parse_program_from(g, 0, fuel as nat) == Err::<
                        Seq<AstNodeV>,
                        Diag,
                    >(d),
                }),
            ensures
                spec_parse_program_from(g, 0, fuel as nat) == Ok::<Seq<AstNodeV>, Diag>(
                    ast_nodes_v(tree@),
                ),
                forall|i: int|
                    0 <= i < tree@.len() ==> ((#[trigger] tree@[i]).kind is Proc
                        || tree@[i].kind is VarDecl),
            decreases lines_in(g, self.line as int),
        {
            if self.line >= self.tokens.len() {
                proof {
                    assert(ast_nodes_v(tree@) + Seq::<AstNodeV>::empty() =~= ast_nodes_v(tree@));
                }
                break;
            }
            let at = self.line;
            let ghost lcur = self.line as int;
            let ghost treepre = tree@;
            match self.parse(fuel) {
                Ok(node) => {
                    proof {
                        assert(fence_line(g, lcur, self.line as int) == self.line as int);
                    }
                    tree.push(node);
                    proof {
                        assert(ast_nodes_v(tree@) == ast_nodes_v(treepre).push(
                            ast_node_v(node),
                        )) by {
                            assert(tree@.drop_last() =~= treepre);
                        }
                        match spec_parse_program_from(g, self.line as int, fuel as nat) {
                            Ok(rest) => {
                                assert(ast_nodes_v(treepre) + (seq![ast_node_v(node)] + rest)
                                    =~= ast_nodes_v(tree@) + rest);
                            },
                            Err(_) => {},
                        }
                    }
                },
                Err(k) => {
                    return Err(Diag { line: at, kind: k });
                },
            }
        }
        Ok(tree)
    }
}

impl Token {
    fn is_minus(&self) -> (r: bool)
        ensures
            r == (*self is Minus),
    {
        match self {
            Token::Minus => true,
            _ => false,
        }
    }

    fn is_as(&self) -> (r: bool)
        ensures
            r == (*self is As),
    {
        match self {
            Token::As => true,
            _ => false,
        }
    }

    /// A copy of an operator token (operators carry no payload).
    fn shallow_copy(&self) -> (r: Token)
        ensures
            r@ == self@,
    {
        match self {
            Token::Ident(s) => Token::Ident(s.clone()),
            Token::NumberValue(v) => Token::NumberValue(*v),
            Token::FloatValue(v) => Token::FloatValue(*v),
            Token::StringValue(s) => Token::StringValue(s.clone()),
            Token::BooleanValue(b) => Token::BooleanValue(*b),
            Token::Call => Token::Call,
            Token::As => Token::As,
            Token::While => Token::While,
            Token::EndWhile => Token::EndWhile,
            Token::Var => Token::Var,
            Token::Const => Token::Const,
            Token::If => Token::If,
            Token::Else => Token::Else,
            Token::EndIf => Token::EndIf,
            Token::Echo => Token::Echo,
            Token::Exit => Token::Exit,
            Token::Delete => Token::Delete,
            Token::Proc => Token::Proc,
            Token::End => Token::End,
            Token::For => Token::For,
            Token::From => Token::From,
            Token::To => Token::To,
            Token::Step => Token::Step,
            Token::EndFor => Token::EndFor,
            Token::Number => Token::Number,
            Token::Float => Token::Float,
            Token::String => Token::String,
            Token::Bool => Token::Bool,
            Token::Plus => Token::Plus,
            Token::Minus => Token::Minus,
            Token::Multiply => Token::Multiply,
            Token::Divide => Token::Divide,
            Token::Mod => Token::Mod,
            Token::Assign => Token::Assign,
            Token::PlusAssign => Token::PlusAssign,
            Token::MinusAssign => Token::MinusAssign,
            Token::MultiplyAssign => Token::MultiplyAssign,
            Token::DivideAssign => Token::DivideAssign,
            Token::ModAssign => Token::ModAssign,
            Token::Equal => Token::Equal,
            Token::NotEqual => Token::NotEqual,
            Token::Greater => Token::Greater,
            Token::Less => Token::Less,
            Token::GreaterEqual => Token::GreaterEqual,
            Token::LessEqual => Token::LessEqual,
            Token::OpenParen => Token::OpenParen,
            Token::CloseParen => Token::CloseParen,
            Token::OpenBracket => Token::OpenBracket,
            Token::CloseBracket => Token::CloseBracket,
            Token::OpenBrace => Token::OpenBrace,
            Token::CloseBrace => Token::CloseBrace,
            Token::Comma => Token::Comma,
            Token::Colon => Token::Colon,
            Token::And => Token::And,
            Token::Or => Token::Or,
            Token::Not => Token::Not,
        }
    }
}

} // verus!
