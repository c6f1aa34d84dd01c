use vstd::prelude::*;
use crate::errors::{Diag, ErrorKind, TypesCheck};
use crate::lexer::Token;
use crate::parser::{AstKind, AstNode, Cast, ElseBlock};
use crate::types::{Types, ValV};
use crate::scope::NamedMap;

verus! {

// The instruction tape. Lowering follows the rules of the surface
// language directly; two notes on choices the instruction set forces:
//
// - A compound assignment `x op= e` is lowered as the binary
//   expression `x op e` (operand tapes right first, so the target is
//   popped first and stays the left operand), then a store.
// - A counted loop needs a step of the operand's own numeric kind and
//   a direction that both depend on runtime values, which no fixed
//   arithmetic instruction can synthesize. `ForSetup` binds the loop
//   variable and two hidden cells (their names start with a digit, so
//   no source identifier can collide) and `ForTest` is the
//   direction-aware bound test.

#[derive(Debug, Clone, PartialEq)]
pub enum Instruction {
    StoreConst(String),
    StoreLocal(String),
    Push(Types),
    Load(String),
    Neg,
    Not,
    Or,
    And,
    Equal,
    NotEqual,
    Greater,
    Less,
    GreaterEqual,
    LessEqual,
    Plus,
    Minus,
    Multiply,
    Divide,
    Mod,
    CastToString,
    CastToFloat,
    CastToNumber,
    CastToBoolean,
    Sin,
    Cos,
    Sqrt,

    Echo,
    Exit(i32),
    Delete(String),
    Call(String, usize),

    Jump(usize),
    JumpIfFalse(usize),
    ForSetup(String, bool),
    ForTest(String, usize),
}

/// The mathematical shadow of an instruction.
pub enum InstrV {
    StoreConst(Seq<char>),
    StoreLocal(Seq<char>),
    Push(ValV),
    Load(Seq<char>),
    Neg,
    Not,
    Or,
    And,
    Equal,
    NotEqual,
    Greater,
    Less,
    GreaterEqual,
    LessEqual,
    Plus,
    Minus,
    Multiply,
    Divide,
    Mod,
    CastToString,
    CastToFloat,
    CastToNumber,
    CastToBoolean,
    Sin,
    Cos,
    Sqrt,

    Echo,
    Exit(i32),
    Delete(Seq<char>),
    Call(Seq<char>, usize),

    Jump(usize),
    JumpIfFalse(usize),
    ForSetup(Seq<char>, bool),
    ForTest(Seq<char>, usize),
}

impl View for Instruction {
    type V = InstrV;

    open spec fn view(&self) -> InstrV {
        match self {
            Instruction::StoreConst(s) => InstrV::StoreConst(s@),
            Instruction::StoreLocal(s) => InstrV::StoreLocal(s@),
            Instruction::Push(v) => InstrV::Push(v@),
            Instruction::Load(s) => InstrV::Load(s@),
            Instruction::Neg => InstrV::Neg,
            Instruction::Not => InstrV::Not,
            Instruction::Or => InstrV::Or,
            Instruction::And => InstrV::And,
            Instruction::Equal => InstrV::Equal,
            Instruction::NotEqual => InstrV::NotEqual,
            Instruction::Greater => InstrV::Greater,
            Instruction::Less => InstrV::Less,
            Instruction::GreaterEqual => InstrV::GreaterEqual,
            Instruction::LessEqual => InstrV::LessEqual,
            Instruction::Plus => InstrV::Plus,
            Instruction::Minus => InstrV::Minus,
            Instruction::Multiply => InstrV::Multiply,
            Instruction::Divide => InstrV::Divide,
            Instruction::Mod => InstrV::Mod,
            Instruction::CastToString => InstrV::CastToString,
            Instruction::CastToFloat => InstrV::CastToFloat,
            Instruction::CastToNumber => InstrV::CastToNumber,
            Instruction::CastToBoolean => InstrV::CastToBoolean,
            Instruction::Sin => InstrV::Sin,
            Instruction::Cos => InstrV::Cos,
            Instruction::Sqrt => InstrV::Sqrt,
            Instruction::Echo => InstrV::Echo,
            Instruction::Exit(c) => InstrV::Exit(*c),
            Instruction::Delete(s) => InstrV::Delete(s@),
            Instruction::Call(s, n) => InstrV::Call(s@, *n),
            Instruction::Jump(t) => InstrV::Jump(*t),
            Instruction::JumpIfFalse(t) => InstrV::JumpIfFalse(*t),
            Instruction::ForSetup(s, b) => InstrV::ForSetup(s@, *b),
            Instruction::ForTest(s, t) => InstrV::ForTest(s@, *t),
        }
    }
}

impl DeepView for Instruction {
    type V = InstrV;

    open spec fn deep_view(&self) -> InstrV {
        self@
    }
}

/// One tape cell: an instruction and the source line it came from.
#[derive(Debug, Clone, PartialEq)]
pub struct Node {
    pub instruction: Instruction,
    pub line_number: usize,
}

pub struct NodeV {
    pub instruction: InstrV,
    pub line_number: usize,
}

impl View for Node {
    type V = NodeV;

    open spec fn view(&self) -> NodeV {
        NodeV { instruction: self.instruction@, line_number: self.line_number }
    }
}

impl DeepView for Node {
    type V = NodeV;

    open spec fn deep_view(&self) -> NodeV {
        self@
    }
}

/// A compiled procedure: its parameter list and its tape.
#[derive(Debug)]
pub struct Proc {
    pub args: Vec<(String, TypesCheck)>,
    pub body: Vec<Node>,
}

pub struct ProcV {
    pub args: Seq<(Seq<char>, TypesCheck)>,
    pub body: Seq<NodeV>,
}

pub open spec fn args_view(args: Seq<(String, TypesCheck)>) -> Seq<(Seq<char>, TypesCheck)> {
    Seq::new(args.len(), |i: int| (args[i].0@, args[i].1))
}

impl View for Proc {
    type V = ProcV;

    open spec fn view(&self) -> ProcV {
        ProcV { args: args_view(self.args@), body: tape_dv(self.body@) }
    }
}

/// The shadows of a run of tape cells.
pub open spec fn tape_dv(s: Seq<Node>) -> Seq<NodeV> {
    Seq::new(s.len(), |i: int| s[i]@)
}

// ---------------------------------------------------------------------
// What the compiler emits, stated as functions of the tree.

/// The names of the two hidden loop cells for variable `v`: they start
/// with a digit, which no source identifier can.
pub open spec fn spec_hid_end(v: Seq<char>) -> Seq<char> {
    "0 end "@ + v
}

pub open spec fn spec_hid_step(v: Seq<char>) -> Seq<char> {
    "0 step "@ + v
}

/// The instruction of a binary operator token, if it is one.
pub open spec fn spec_binop_instr(op: Token) -> Option<InstrV> {
    match op {
        Token::Or => Some(InstrV::Or),
        Token::And => Some(InstrV::And),
        Token::Equal => Some(InstrV::Equal),
        Token::NotEqual => Some(InstrV::NotEqual),
        Token::Greater => Some(InstrV::Greater),
        Token::Less => Some(InstrV::Less),
        Token::GreaterEqual => Some(InstrV::GreaterEqual),
        Token::LessEqual => Some(InstrV::LessEqual),
        Token::Plus => Some(InstrV::Plus),
        Token::Minus => Some(InstrV::Minus),
        Token::Multiply => Some(InstrV::Multiply),
        Token::Divide => Some(InstrV::Divide),
        Token::Mod => Some(InstrV::Mod),
        _ => None,
    }
}

pub open spec fn spec_cast_instr(c: Cast) -> InstrV {
    match c {
        Cast::String => InstrV::CastToString,
        Cast::Number => InstrV::CastToNumber,
        Cast::Float => InstrV::CastToFloat,
        Cast::Boolean => InstrV::CastToBoolean,
        Cast::Sin => InstrV::Sin,
        Cast::Cos => InstrV::Cos,
        Cast::Sqrt => InstrV::Sqrt,
    }
}

/// Expressions lower to reverse Polish order: the right operand's
/// tape, then the left operand's, then the operator, so that the
/// machine pops the left operand first.
pub open spec fn spec_compile_expr(e: AstKind) -> Result<Seq<InstrV>, ErrorKind>
    decreases e,
{
    match e {
        AstKind::UnaryOp { op, expr } => match spec_compile_expr(*expr) {
            Ok(s) => match op {
                Token::Not => Ok(s.push(InstrV::Not)),
                Token::Minus => Ok(s.push(InstrV::Neg)),
                _ => Err(ErrorKind::InvalidExpression),
            },
            Err(k) => Err(k),
        },
        AstKind::AsOp { expr, op } => match spec_compile_expr(*expr) {
            Ok(s) => Ok(s.push(spec_cast_instr(op))),
            Err(k) => Err(k),
        },
        AstKind::BinaryOp { left, op, right } => match spec_compile_expr(*right) {
            Ok(r) => match spec_compile_expr(*left) {
                Ok(l) => match spec_binop_instr(op) {
                    Some(i) => Ok(r + l + seq![i]),
                    None => Err(ErrorKind::InvalidExpression),
                },
                Err(k) => Err(k),
            },
            Err(k) => Err(k),
        },
        AstKind::Ident(n) => Ok(seq![InstrV::Load(n@)]),
        AstKind::Number(v) => Ok(seq![InstrV::Push(ValV::Number(v))]),
        AstKind::Float(b) => Ok(seq![InstrV::Push(ValV::Float(b))]),
        AstKind::String(s) => Ok(seq![InstrV::Push(ValV::Str(s@))]),
        AstKind::Boolean(b) => Ok(seq![InstrV::Push(ValV::Boolean(b))]),
        _ => Err(ErrorKind::InvalidExpression),
    }
}

/// Tape cells for a run of instructions that all belong to one source
/// line.
pub open spec fn with_line(s: Seq<InstrV>, ln: usize) -> Seq<NodeV> {
    Seq::new(s.len(), |i: int| NodeV { instruction: s[i], line_number: ln })
}

/// What one call argument pushes: a literal directly, an identifier
/// through a load.
pub open spec fn spec_arg_instr(t: Token) -> Option<InstrV> {
    match t {
        Token::Ident(n) => Some(InstrV::Load(n@)),
        Token::NumberValue(v) => Some(InstrV::Push(ValV::Number(v))),
        Token::FloatValue(b) => Some(InstrV::Push(ValV::Float(b))),
        Token::StringValue(s) => Some(InstrV::Push(ValV::Str(s@))),
        Token::BooleanValue(b) => Some(InstrV::Push(ValV::Boolean(b))),
        _ => None,
    }
}

/// Call arguments are pushed in reverse, so the first formal is the
/// last pushed and the first popped.
pub open spec fn spec_args_code(args: Seq<Token>) -> Result<Seq<InstrV>, ErrorKind>
    decreases args.len(),
{
    if args.len() == 0 {
        Ok(Seq::empty())
    } else {
        match spec_arg_instr(args[0]) {
            Some(i) => match spec_args_code(args.drop_first()) {
                Ok(rest) => Ok(rest.push(i)),
                Err(k) => Err(k),
            },
            None => Err(ErrorKind::InvalidExpression),
        }
    }
}

/// The only failure of the argument run is an argument that is
/// neither a literal nor an identifier, and one bad argument anywhere
/// fails the run.
proof fn lemma_args_code_err(args: Seq<Token>)
    ensures
        spec_args_code(args) is Err <==> exists|j: int|
            0 <= j < args.len() && spec_arg_instr(#[trigger] args[j]) is None,
        spec_args_code(args) is Err ==> spec_args_code(args) == Err::<Seq<InstrV>, ErrorKind>(
            ErrorKind::InvalidExpression,
        ),
    decreases args.len(),
{
    if args.len() > 0 {
        lemma_args_code_err(args.drop_first());
        if spec_arg_instr(args[0]) is None {
        } else {
            if spec_args_code(args) is Err {
                let j = choose|j: int|
                    0 <= j < args.drop_first().len() && spec_arg_instr(
                        #[trigger] args.drop_first()[j],
                    ) is None;
                assert(args[j + 1] == args.drop_first()[j]);
            }
            if exists|j: int| 0 <= j < args.len() && spec_arg_instr(#[trigger] args[j]) is None {
                let j = choose|j: int|
                    0 <= j < args.len() && spec_arg_instr(#[trigger] args[j]) is None;
                assert(args.drop_first()[j - 1] == args[j]);
            }
        }
    }
}

/// One statement's tape, laid out from absolute address `base`.
pub open spec fn spec_compile_stmt(n: AstNode, base: int) -> Result<Seq<NodeV>, Diag>
    decreases n, 1int,
{
    let line = n.line;
    match n.kind {
        AstKind::Echo(e) => match spec_compile_expr(*e) {
            Ok(c) => Ok(with_line(c.push(InstrV::Echo), line)),
            Err(k) => Err(Diag { line, kind: k }),
        },
        AstKind::Delete(name) => Ok(with_line(seq![InstrV::Delete(name@)], line)),
        AstKind::Exit(code) => Ok(with_line(seq![InstrV::Exit(code)], line)),
        AstKind::VarDecl { name, value, is_const, .. } => match spec_compile_expr(*value) {
            Ok(c) => Ok(
                with_line(
                    c.push(
                        if is_const {
                            InstrV::StoreConst(name@)
                        } else {
                            InstrV::StoreLocal(name@)
                        },
                    ),
                    line,
                ),
            ),
            Err(k) => Err(Diag { line, kind: k }),
        },
        AstKind::Assign { name, op, expr } => match spec_compile_expr(*expr) {
            Ok(c) => match op {
                Token::Assign => Ok(with_line(c.push(InstrV::StoreLocal(name@)), line)),
                Token::PlusAssign => Ok(
                    with_line(
                        c + seq![
                            InstrV::Load(name@),
                            InstrV::Plus,
                            InstrV::StoreLocal(name@),
                        ],
                        line,
                    ),
                ),
                Token::MinusAssign => Ok(
                    with_line(
                        c + seq![
                            InstrV::Load(name@),
                            InstrV::Minus,
                            InstrV::StoreLocal(name@),
                        ],
                        line,
                    ),
                ),
                Token::MultiplyAssign => Ok(
                    with_line(
                        c + seq![
                            InstrV::Load(name@),
                            InstrV::Multiply,
                            InstrV::StoreLocal(name@),
                        ],
                        line,
                    ),
                ),
                Token::DivideAssign => Ok(
                    with_line(
                        c + seq![
                            InstrV::Load(name@),
                            InstrV::Divide,
                            InstrV::StoreLocal(name@),
                        ],
                        line,
                    ),
                ),
                Token::ModAssign => Ok(
                    with_line(
                        c + seq![
                            InstrV::Load(name@),
                            InstrV::Mod,
                            InstrV::StoreLocal(name@),
                        ],
                        line,
                    ),
                ),
                _ => Err(Diag { line, kind: ErrorKind::InvalidExpression }),
            },
            Err(k) => Err(Diag { line, kind: k }),
        },
        AstKind::ProcCall { name, args } => match spec_args_code(args@) {
            Ok(c) => Ok(with_line(c.push(InstrV::Call(name@, args.len() as usize)), line)),
            Err(k) => Err(Diag { line, kind: k }),
        },
        AstKind::Condition { expr, yes, no } => match spec_compile_expr(*expr) {
            Ok(c) => match spec_compile_body(yes@, base + c.len() + 1) {
                Ok(yc) => match no {
                    None => Ok(
                        with_line(c, line) + with_line(
                            seq![InstrV::JumpIfFalse((base + c.len() + 1 + yc.len()) as usize)],
                            line,
                        ) + yc,
                    ),
                    Some(ElseBlock::Else(els)) => match spec_compile_body(
                        els@,
                        base + c.len() + 1 + yc.len() + 1,
                    ) {
                        Ok(ec) => Ok(
                            with_line(c, line) + with_line(
                                seq![
                                    InstrV::JumpIfFalse(
                                        (base + c.len() + 1 + yc.len() + 1) as usize,
                                    ),
                                ],
                                line,
                            ) + yc + with_line(
                                seq![
                                    InstrV::Jump(
                                        (base + c.len() + 1 + yc.len() + 1 + ec.len()) as usize,
                                    ),
                                ],
                                line,
                            ) + ec,
                        ),
                        Err(d) => Err(d),
                    },
                    Some(ElseBlock::ElseIf(inner)) => match spec_compile_stmt(
                        *inner,
                        base + c.len() + 1 + yc.len() + 1,
                    ) {
                        Ok(ec) => Ok(
                            with_line(c, line) + with_line(
                                seq![
                                    InstrV::JumpIfFalse(
                                        (base + c.len() + 1 + yc.len() + 1) as usize,
                                    ),
                                ],
                                line,
                            ) + yc + with_line(
                                seq![
                                    InstrV::Jump(
                                        (base + c.len() + 1 + yc.len() + 1 + ec.len()) as usize,
                                    ),
                                ],
                                line,
                            ) + ec,
                        ),
                        Err(d) => Err(d),
                    },
                },
                Err(d) => Err(d),
            },
            Err(k) => Err(Diag { line, kind: k }),
        },
        AstKind::While { expr, body } => match spec_compile_expr(*expr) {
            Ok(c) => match spec_compile_body(body@, base + c.len() + 1) {
                Ok(bc) => Ok(
                    with_line(c, line) + with_line(
                        seq![
                            InstrV::JumpIfFalse((base + c.len() + 1 + bc.len() + 1) as usize),
                        ],
                        line,
                    ) + bc + with_line(seq![InstrV::Jump(base as usize)], line),
                ),
                Err(d) => Err(d),
            },
            Err(k) => Err(Diag { line, kind: k }),
        },
        AstKind::For { var_name, start, end, step, body } => {
            let stepc = match *step {
                Some(k) => spec_compile_expr(k),
                None => Ok(Seq::empty()),
            };
            match stepc {
                Ok(sc) => match spec_compile_expr(*end) {
                    Ok(ec) => match spec_compile_expr(*start) {
                        Ok(stc) => {
                            let has_step = (*step) is Some;
                            let setup = sc + ec + stc + seq![
                                InstrV::ForSetup(var_name@, has_step),
                            ];
                            let head = base + setup.len();
                            match spec_compile_body(body@, head + 1) {
                                Ok(bc) => {
                                    let exit = head + 1 + bc.len() + 5;
                                    Ok(
                                        with_line(setup, line) + with_line(
                                            seq![InstrV::ForTest(var_name@, exit as usize)],
                                            line,
                                        ) + bc + with_line(
                                            seq![
                                                InstrV::Load(spec_hid_step(var_name@)),
                                                InstrV::Load(var_name@),
                                                InstrV::Plus,
                                                InstrV::StoreLocal(var_name@),
                                                InstrV::Jump(head as usize),
                                            ],
                                            line,
                                        ),
                                    )
                                },
                                Err(d) => Err(d),
                            }
                        },
                        Err(k) => Err(Diag { line, kind: k }),
                    },
                    Err(k) => Err(Diag { line, kind: k }),
                },
                Err(k) => Err(Diag { line, kind: k }),
            }
        },
        _ => Err(Diag { line, kind: ErrorKind::TopLevelOnlyInProc }),
    }
}

/// A run of statements, laid out one after the other from `base`.
pub open spec fn spec_compile_body(nodes: Seq<AstNode>, base: int) -> Result<Seq<NodeV>, Diag>
    decreases nodes, 0int,
{
    if nodes.len() == 0 {
        Ok(Seq::empty())
    } else {
        match spec_compile_stmt(nodes[0], base) {
            Ok(h) => match spec_compile_body(nodes.drop_first(), base + h.len()) {
                Ok(t) => Ok(h + t),
                Err(d) => Err(d),
            },
            Err(d) => Err(d),
        }
    }
}

/// The whole program: every top-level constant declaration appended to
/// one initializer tape, every procedure compiled from address zero.
pub open spec fn spec_compile_program(ast: Seq<AstNode>) -> Result<
    (Map<Seq<char>, ProcV>, Seq<NodeV>),
    Diag,
>
    decreases ast.len(),
{
    if ast.len() == 0 {
        Ok((Map::empty(), Seq::empty()))
    } else {
        match spec_compile_program(ast.drop_last()) {
            Ok((m, c)) => {
                let n = ast.last();
                match n.kind {
                    AstKind::VarDecl { .. } => match spec_compile_stmt(n, c.len() as int) {
                        Ok(code) => Ok((m, c + code)),
                        Err(d) => Err(d),
                    },
                    AstKind::Proc { name, body, args } => match spec_compile_body(body@, 0) {
                        Ok(code) => Ok(
                            (
                                m.insert(
                                    name@,
                                    ProcV { args: args_view(args@), body: code },
                                ),
                                c,
                            ),
                        ),
                        Err(d) => Err(d),
                    },
                    _ => Err(Diag { line: n.line, kind: ErrorKind::TopLevelOnlyInProc }),
                }
            },
            Err(d) => Err(d),
        }
    }
}


// ---------------------------------------------------------------------
// The compiler itself, proved to emit exactly the tapes above.

proof fn lemma_tape_dv_push(s: Seq<Node>, n: Node)
    ensures
        tape_dv(s.push(n)) == tape_dv(s).push(n@),
{
    assert(tape_dv(s.push(n)) =~= tape_dv(s).push(n@));
}

proof fn lemma_tape_dv_update(s: Seq<Node>, i: int, n: Node)
    requires
        0 <= i < s.len(),
    ensures
        tape_dv(s.update(i, n)) == tape_dv(s).update(i, n@),
{
    assert(tape_dv(s.update(i, n)) =~= tape_dv(s).update(i, n@));
}

proof fn lemma_wl_snoc(pre: Seq<NodeV>, s: Seq<InstrV>, x: InstrV, ln: usize)
    ensures
        (pre + with_line(s, ln)).push(NodeV { instruction: x, line_number: ln }) == pre
            + with_line(s.push(x), ln),
{
    assert((pre + with_line(s, ln)).push(NodeV { instruction: x, line_number: ln }) =~= pre
        + with_line(s.push(x), ln));
}

proof fn lemma_wl_concat(pre: Seq<NodeV>, a: Seq<InstrV>, b: Seq<InstrV>, ln: usize)
    ensures
        (pre + with_line(a, ln)) + with_line(b, ln) == pre + with_line(a + b, ln),
{
    assert((pre + with_line(a, ln)) + with_line(b, ln) =~= pre + with_line(a + b, ln));
}

pub(crate) fn hid_step_name(v: &String) -> (r: String)
    ensures
        r@ == spec_hid_step(v@),
{
    "0 step ".to_owned().concat(v.as_str())
}

pub(crate) fn hid_end_name(v: &String) -> (r: String)
    ensures
        r@ == spec_hid_end(v@),
{
    "0 end ".to_owned().concat(v.as_str())
}

fn arg_instr(t: &Token) -> (r: Option<Instruction>)
    ensures
        (match r {
            Some(i) => spec_arg_instr(*t) == Some(i@),
            None => spec_arg_instr(*t) is None,
        }),
{
    match t {
        Token::Ident(n) => Some(Instruction::Load(n.clone())),
        Token::NumberValue(v) => Some(Instruction::Push(Types::Number(*v))),
        Token::FloatValue(b) => Some(Instruction::Push(Types::Float(*b))),
        Token::StringValue(s) => Some(Instruction::Push(Types::String(s.clone()))),
        Token::BooleanValue(b) => Some(Instruction::Push(Types::Boolean(*b))),
        _ => None,
    }
}

/// Pushes one tape cell; kept separate so every append leaves an
/// equation rather than a pointwise proof.
fn emit(out: &mut Vec<Node>, instruction: Instruction, line: usize)
    ensures
        final(out)@.len() == old(out)@.len() + 1,
        tape_dv(final(out)@) == tape_dv(old(out)@).push(
            NodeV { instruction: instruction@, line_number: line },
        ),
{
    let ghost pre = out@;
    let ghost iv = instruction@;
    let node = Node { instruction, line_number: line };
    out.push(node);
    proof {
        lemma_tape_dv_push(pre, node);
    }
}

/// Appends the tape of one expression.
fn compile_expr(e: &AstKind, line: usize, out: &mut Vec<Node>) -> (r: Result<(), ErrorKind>)
    ensures
        (match r {
            Ok(_) => spec_compile_expr(*e) is Ok && tape_dv(final(out)@) == tape_dv(old(out)@)
                + with_line(spec_compile_expr(*e)->Ok_0, line),
            Err(k) => spec_compile_expr(*e) == Err::<Seq<InstrV>, ErrorKind>(k),
        }),
    decreases *e,
{
    let ghost pre = tape_dv(out@);
    match e {
        AstKind::UnaryOp { op, expr } => {
            compile_expr(expr, line, out)?;
            let ghost sub = spec_compile_expr(**expr)->Ok_0;
            let instr = match op {
                Token::Not => Instruction::Not,
                Token::Minus => Instruction::Neg,
                _ => {
                    return Err(ErrorKind::InvalidExpression);
                },
            };
            proof {
                lemma_wl_snoc(pre, sub, instr@, line);
            }
            emit(out, instr, line);
            Ok(())
        },
        AstKind::AsOp { expr, op } => {
            compile_expr(expr, line, out)?;
            let ghost sub = spec_compile_expr(**expr)->Ok_0;
            let instr = match op {
                Cast::String => Instruction::CastToString,
                Cast::Number => Instruction::CastToNumber,
                Cast::Float => Instruction::CastToFloat,
                Cast::Boolean => Instruction::CastToBoolean,
                Cast::Sin => Instruction::Sin,
                Cast::Cos => Instruction::Cos,
                Cast::Sqrt => Instruction::Sqrt,
            };
            proof {
                lemma_wl_snoc(pre, sub, instr@, line);
            }
            emit(out, instr, line);
            Ok(())
        },
        AstKind::BinaryOp { left, op, right } => {
            compile_expr(right, line, out)?;
            let ghost rc = spec_compile_expr(**right)->Ok_0;
            compile_expr(left, line, out)?;
            let ghost lc = spec_compile_expr(**left)->Ok_0;
            let instr = match op {
                Token::Or => Instruction::Or,
                Token::And => Instruction::And,
                Token::Equal => Instruction::Equal,
                Token::NotEqual => Instruction::NotEqual,
                Token::Greater => Instruction::Greater,
                Token::Less => Instruction::Less,
                Token::GreaterEqual => Instruction::GreaterEqual,
                Token::LessEqual => Instruction::LessEqual,
                Token::Plus => Instruction::Plus,
                Token::Minus => Instruction::Minus,
                Token::Multiply => Instruction::Multiply,
                Token::Divide => Instruction::Divide,
                Token::Mod => Instruction::Mod,
                _ => {
                    return Err(ErrorKind::InvalidExpression);
                },
            };
            proof {
                lemma_wl_concat(pre, rc, lc, line);
                lemma_wl_snoc(pre, rc + lc, instr@, line);
                assert((rc + lc).push(instr@) =~= rc + lc + seq![instr@]);
            }
            emit(out, instr, line);
            Ok(())
        },
        AstKind::Ident(n) => {
            proof {
                lemma_wl_snoc(pre, Seq::empty(), InstrV::Load(n@), line);
                assert(pre + with_line(Seq::empty(), line) =~= pre);
                assert(Seq::empty().push(InstrV::Load(n@)) =~= seq![InstrV::Load(n@)]);
            }
            emit(out, Instruction::Load(n.clone()), line);
            Ok(())
        },
        AstKind::Number(v) => {
            proof {
                lemma_wl_snoc(pre, Seq::empty(), InstrV::Push(ValV::Number(*v)), line);
                assert(pre + with_line(Seq::empty(), line) =~= pre);
                assert(Seq::empty().push(InstrV::Push(ValV::Number(*v))) =~= seq![
                    InstrV::Push(ValV::Number(*v)),
                ]);
            }
            emit(out, Instruction::Push(Types::Number(*v)), line);
            Ok(())
        },
        AstKind::Float(b) => {
            proof {
                lemma_wl_snoc(pre, Seq::empty(), InstrV::Push(ValV::Float(*b)), line);
                assert(pre + with_line(Seq::empty(), line) =~= pre);
                assert(Seq::empty().push(InstrV::Push(ValV::Float(*b))) =~= seq![
                    InstrV::Push(ValV::Float(*b)),
                ]);
            }
            emit(out, Instruction::Push(Types::Float(*b)), line);
            Ok(())
        },
        AstKind::String(s) => {
            proof {
                lemma_wl_snoc(pre, Seq::empty(), InstrV::Push(ValV::Str(s@)), line);
                assert(pre + with_line(Seq::empty(), line) =~= pre);
                assert(Seq::empty().push(InstrV::Push(ValV::Str(s@))) =~= seq![
                    InstrV::Push(ValV::Str(s@)),
                ]);
            }
            emit(out, Instruction::Push(Types::String(s.clone())), line);
            Ok(())
        },
        AstKind::Boolean(b) => {
            proof {
                lemma_wl_snoc(pre, Seq::empty(), InstrV::Push(ValV::Boolean(*b)), line);
                assert(pre + with_line(Seq::empty(), line) =~= pre);
                assert(Seq::empty().push(InstrV::Push(ValV::Boolean(*b))) =~= seq![
                    InstrV::Push(ValV::Boolean(*b)),
                ]);
            }
            emit(out, Instruction::Push(Types::Boolean(*b)), line);
            Ok(())
        },
        _ => Err(ErrorKind::InvalidExpression),
    }
}


/// Splitting a run of statements after a compiled prefix.
proof fn lemma_body_split(nodes: Seq<AstNode>, base: int, i: int)
    requires
        0 <= i <= nodes.len(),
        spec_compile_body(nodes.subrange(0, i), base) is Ok,
    ensures
        spec_compile_body(nodes, base) == (match spec_compile_body(
            nodes.subrange(i, nodes.len() as int),
            base + spec_compile_body(nodes.subrange(0, i), base)->Ok_0.len(),
        ) {
            Ok(rest) => Ok::<Seq<NodeV>, Diag>(
                spec_compile_body(nodes.subrange(0, i), base)->Ok_0 + rest,
            ),
            Err(d) => Err::<Seq<NodeV>, Diag>(d),
        }),
    decreases i,
{
    if i == 0 {
        assert(nodes.subrange(0, 0) =~= Seq::<AstNode>::empty());
        assert(nodes.subrange(0, nodes.len() as int) =~= nodes);
        match spec_compile_body(nodes, base) {
            Ok(rest) => {
                assert(Seq::<NodeV>::empty() + rest =~= rest);
            },
            Err(_) => {},
        }
    } else {
        let pre = nodes.subrange(0, i);
        assert(pre[0] == nodes[0]);
        assert(pre.drop_first() =~= nodes.drop_first().subrange(0, i - 1));
        let h = spec_compile_stmt(nodes[0], base);
        assert(h is Ok);
        let hc = h->Ok_0;
        lemma_body_split(nodes.drop_first(), base + hc.len(), i - 1);
        assert(nodes.drop_first().subrange(i - 1, nodes.drop_first().len() as int)
            =~= nodes.subrange(i, nodes.len() as int));
        let prerest = spec_compile_body(pre.drop_first(), base + hc.len());
        assert(prerest is Ok);
        let tail = spec_compile_body(
            nodes.subrange(i, nodes.len() as int),
            base + hc.len() + prerest->Ok_0.len(),
        );
        assert(spec_compile_body(pre, base)->Ok_0 =~= hc + prerest->Ok_0);
        assert(base + spec_compile_body(pre, base)->Ok_0.len() == base + hc.len()
            + prerest->Ok_0.len());
        match tail {
            Ok(rest) => {
                assert(hc + (prerest->Ok_0 + rest) =~= (hc + prerest->Ok_0) + rest);
            },
            Err(_) => {},
        }
    }
}


// Shapes of a patched tape, proved once and applied per statement
// form. `u` is the placeholder, `v` what it is patched to.

proof fn lemma_patch_a(pre: Seq<NodeV>, a: Seq<NodeV>, u: NodeV, v: NodeV, b: Seq<NodeV>)
    ensures
        ((pre + a).push(u) + b).update((pre.len() + a.len()) as int, v) == pre + (a + seq![v] + b),
{
    let lhs = ((pre + a).push(u) + b).update((pre.len() + a.len()) as int, v);
    let rhs = pre + (a + seq![v] + b);
    assert forall|k: int| 0 <= k < lhs.len() implies lhs[k] == rhs[k] by {
        let j = pre.len() + a.len();
        if k < j {
            assert(lhs[k] == ((pre + a).push(u) + b)[k]);
        } else if k == j {
        } else {
            assert(lhs[k] == ((pre + a).push(u) + b)[k]);
            assert(((pre + a).push(u) + b)[k] == b[k - j - 1]);
        }
    }
    assert(lhs =~= rhs);
}

proof fn lemma_patch_b(
    pre: Seq<NodeV>,
    a: Seq<NodeV>,
    u: NodeV,
    v: NodeV,
    b: Seq<NodeV>,
    w: NodeV,
)
    ensures
        (((pre + a).push(u) + b).push(w)).update((pre.len() + a.len()) as int, v) == pre + (a + seq![v] + b
            + seq![w]),
{
    let lhs = (((pre + a).push(u) + b).push(w)).update((pre.len() + a.len()) as int, v);
    let rhs = pre + (a + seq![v] + b + seq![w]);
    assert forall|k: int| 0 <= k < lhs.len() implies lhs[k] == rhs[k] by {
        let j = pre.len() + a.len();
        if k < j {
            assert(lhs[k] == (((pre + a).push(u) + b).push(w))[k]);
            assert(lhs[k] == ((pre + a).push(u) + b)[k]);
        } else if k == j {
        } else if k < lhs.len() - 1 {
            assert(lhs[k] == (((pre + a).push(u) + b).push(w))[k]);
            assert(lhs[k] == ((pre + a).push(u) + b)[k]);
            assert(((pre + a).push(u) + b)[k] == b[k - j - 1]);
        } else {
            assert(lhs[k] == (((pre + a).push(u) + b).push(w))[k]);
        }
    }
    assert(lhs =~= rhs);
}

proof fn lemma_patch_c(
    pre: Seq<NodeV>,
    a: Seq<NodeV>,
    u1: NodeV,
    v: NodeV,
    b: Seq<NodeV>,
    u2: NodeV,
    w: NodeV,
    e: Seq<NodeV>,
)
    ensures
        (((((pre + a).push(u1) + b).push(u2)).update((pre.len() + a.len()) as int, v) + e).update((pre.len() + a.len() + 1 + b.len()) as int, w)) == pre + (a + seq![v] + b + seq![w] + e),
{
    let base1 = (((pre + a).push(u1) + b).push(u2)).update((pre.len() + a.len()) as int, v);
    let lhs = (base1 + e).update((pre.len() + a.len() + 1 + b.len()) as int, w);
    let rhs = pre + (a + seq![v] + b + seq![w] + e);
    assert forall|k: int| 0 <= k < lhs.len() implies lhs[k] == rhs[k] by {
        let j = pre.len() + a.len();
        let j2 = j + 1 + b.len();
        if k != j2 {
            assert(lhs[k] == (base1 + e)[k]);
            if k < base1.len() {
                if k != j {
                    assert(base1[k] == (((pre + a).push(u1) + b).push(u2))[k]);
                    if k < j {
                        assert(base1[k] == ((pre + a).push(u1) + b)[k]);
                    } else if k < j2 {
                        assert(base1[k] == ((pre + a).push(u1) + b)[k]);
                        assert(((pre + a).push(u1) + b)[k] == b[k - j - 1]);
                    }
                }
            } else {
                assert((base1 + e)[k] == e[k - base1.len()]);
            }
        }
    }
    assert(lhs =~= rhs);
}

proof fn lemma_patch_d(
    pre: Seq<NodeV>,
    a: Seq<NodeV>,
    u: NodeV,
    v: NodeV,
    b: Seq<NodeV>,
    t: Seq<NodeV>,
)
    ensures
        ((pre + a).push(u) + b + t).update((pre.len() + a.len()) as int, v) == pre + (a + seq![v] + b + t),
{
    let lhs = ((pre + a).push(u) + b + t).update((pre.len() + a.len()) as int, v);
    let rhs = pre + (a + seq![v] + b + t);
    assert forall|k: int| 0 <= k < lhs.len() implies lhs[k] == rhs[k] by {
        let j = pre.len() + a.len();
        if k != j {
            assert(lhs[k] == ((pre + a).push(u) + b + t)[k]);
            if k < j {
                assert(lhs[k] == ((pre + a).push(u) + b)[k]);
                assert(lhs[k] == ((pre + a).push(u))[k]);
            } else if k < j + 1 + b.len() {
                assert(lhs[k] == ((pre + a).push(u) + b)[k]);
                assert(((pre + a).push(u) + b)[k] == b[k - j - 1]);
            } else {
                assert(((pre + a).push(u) + b + t)[k] == t[k - j - 1 - b.len()]);
            }
        }
    }
    assert(lhs =~= rhs);
}

/// A singleton tape cell run.
proof fn lemma_wl_one(x: InstrV, ln: usize)
    ensures
        with_line(seq![x], ln) == seq![NodeV { instruction: x, line_number: ln }],
{
    assert(with_line(seq![x], ln) =~= seq![NodeV { instruction: x, line_number: ln }]);
}

/// Appends the tape of a conditional.
#[verifier::rlimit(100)]
fn compile_cond_stmt(n: &AstNode, out: &mut Vec<Node>) -> (r: Result<(), Diag>)
    requires
        n.kind is Condition,
    ensures
        (match r {
            Ok(_) => spec_compile_stmt(*n, old(out)@.len() as int) is Ok && tape_dv(final(out)@)
                == tape_dv(old(out)@) + spec_compile_stmt(*n, old(out)@.len() as int)->Ok_0,
            Err(d) => spec_compile_stmt(*n, old(out)@.len() as int) == Err::<Seq<NodeV>, Diag>(d),
        }),
    decreases n, 2int,
{
    let ghost pre = tape_dv(out@);
    let ghost base = out@.len() as int;
    let line = n.line;
    match &n.kind {
        AstKind::Condition { expr, yes, no } => {
            match compile_expr(expr, line, out) {
                Ok(_) => {},
                Err(k) => {
                    return Err(Diag { line, kind: k });
                },
            }
            let ghost c = spec_compile_expr(*n.kind->Condition_expr)->Ok_0;
            let ghost cw = with_line(c, line);
            proof {
                assert(tape_dv(out@).len() == out@.len());
                assert(out@.len() == pre.len() + c.len());
            }
            let jif_at = out.len();
            emit(out, Instruction::JumpIfFalse(0), line);
            let ghost ph = NodeV { instruction: InstrV::JumpIfFalse(0), line_number: line };
            match compile_body(yes, out) {
                Ok(_) => {},
                Err(d) => {
                    return Err(d);
                },
            }
            let ghost yc = spec_compile_body(n.kind->Condition_yes@, base + c.len() + 1)->Ok_0;
            proof {
                assert(tape_dv(out@) == (pre + cw).push(ph) + yc);
                assert(tape_dv(out@).len() == out@.len());
                assert(out@.len() == pre.len() + c.len() + 1 + yc.len());
            }
            match no {
                None => {
                    let target = out.len();
                    let ghost preset = out@;
                    proof {
                        assert(out@.len() == pre.len() + c.len() + 1 + yc.len());
                        assert(jif_at < out@.len());
                    }
                    let patched = Node {
                        instruction: Instruction::JumpIfFalse(target),
                        line_number: line,
                    };
                    out[jif_at] = patched;
                    proof {
                        lemma_tape_dv_update(preset, jif_at as int, patched);
                        lemma_patch_a(pre, cw, ph, patched@, yc);
                        lemma_wl_one(InstrV::JumpIfFalse(target), line);
                        assert(cw + seq![patched@] + yc =~= cw + with_line(
                            seq![InstrV::JumpIfFalse(target)],
                            line,
                        ) + yc);
                    }
                    Ok(())
                },
                Some(ElseBlock::Else(els)) => {
                    let jmp_at = out.len();
                    emit(out, Instruction::Jump(0), line);
                    let ghost ph2 = NodeV { instruction: InstrV::Jump(0), line_number: line };
                    let target_else = out.len();
                    let ghost preset = out@;
                    proof {
                        assert(out@.len() == pre.len() + c.len() + 1 + yc.len() + 1);
                        assert(jif_at < out@.len());
                    }
                    let patched = Node {
                        instruction: Instruction::JumpIfFalse(target_else),
                        line_number: line,
                    };
                    out[jif_at] = patched;
                    proof {
                        lemma_tape_dv_update(preset, jif_at as int, patched);
                        assert(tape_dv(out@).len() == out@.len());
                        assert(out@.len() == pre.len() + c.len() + 1 + yc.len() + 1);
                    }
                    match compile_body(els, out) {
                        Ok(_) => {},
                        Err(d) => {
                            return Err(d);
                        },
                    }
                    let ghost ec = spec_compile_body(
                        n.kind->Condition_no->Some_0->Else_0@,
                        base + c.len() + 1 + yc.len() + 1,
                    )->Ok_0;
                    let end_at = out.len();
                    let ghost preset2 = out@;
                    proof {
                        assert(tape_dv(out@).len() == out@.len());
                        assert(out@.len() == pre.len() + c.len() + 1 + yc.len() + 1 + ec.len());
                        assert(jmp_at < out@.len());
                    }
                    let patched2 = Node {
                        instruction: Instruction::Jump(end_at),
                        line_number: line,
                    };
                    out[jmp_at] = patched2;
                    proof {
                        lemma_tape_dv_update(preset2, jmp_at as int, patched2);
                        lemma_patch_c(pre, cw, ph, patched@, yc, ph2, patched2@, ec);
                        lemma_wl_one(InstrV::JumpIfFalse(target_else), line);
                        lemma_wl_one(InstrV::Jump(end_at), line);
                        assert(cw + seq![patched@] + yc + seq![patched2@] + ec =~= cw
                            + with_line(seq![InstrV::JumpIfFalse(target_else)], line) + yc
                            + with_line(seq![InstrV::Jump(end_at)], line) + ec);
                    }
                    Ok(())
                },
                Some(ElseBlock::ElseIf(inner)) => {
                    let jmp_at = out.len();
                    emit(out, Instruction::Jump(0), line);
                    let ghost ph2 = NodeV { instruction: InstrV::Jump(0), line_number: line };
                    let target_else = out.len();
                    let ghost preset = out@;
                    proof {
                        assert(out@.len() == pre.len() + c.len() + 1 + yc.len() + 1);
                        assert(jif_at < out@.len());
                    }
                    let patched = Node {
                        instruction: Instruction::JumpIfFalse(target_else),
                        line_number: line,
                    };
                    out[jif_at] = patched;
                    proof {
                        lemma_tape_dv_update(preset, jif_at as int, patched);
                        assert(tape_dv(out@).len() == out@.len());
                        assert(out@.len() == pre.len() + c.len() + 1 + yc.len() + 1);
                    }
                    match compile_stmt(inner, out) {
                        Ok(_) => {},
                        Err(d) => {
                            return Err(d);
                        },
                    }
                    let ghost ec = spec_compile_stmt(
                        *n.kind->Condition_no->Some_0->ElseIf_0,
                        base + c.len() + 1 + yc.len() + 1,
                    )->Ok_0;
                    let end_at = out.len();
                    let ghost preset2 = out@;
                    proof {
                        assert(tape_dv(out@).len() == out@.len());
                        assert(out@.len() == pre.len() + c.len() + 1 + yc.len() + 1 + ec.len());
                        assert(jmp_at < out@.len());
                    }
                    let patched2 = Node {
                        instruction: Instruction::Jump(end_at),
                        line_number: line,
                    };
                    out[jmp_at] = patched2;
                    proof {
                        lemma_tape_dv_update(preset2, jmp_at as int, patched2);
                        lemma_patch_c(pre, cw, ph, patched@, yc, ph2, patched2@, ec);
                        lemma_wl_one(InstrV::JumpIfFalse(target_else), line);
                        lemma_wl_one(InstrV::Jump(end_at), line);
                        assert(cw + seq![patched@] + yc + seq![patched2@] + ec =~= cw
                            + with_line(seq![InstrV::JumpIfFalse(target_else)], line) + yc
                            + with_line(seq![InstrV::Jump(end_at)], line) + ec);
                    }
                    Ok(())
                },
            }
        },
        _ => {
            proof {
                assert(false);
            }
            Err(Diag { line, kind: ErrorKind::InvalidExpression })
        },
    }
}

/// Appends the tape of a while loop.
#[verifier::rlimit(100)]
fn compile_while_stmt(n: &AstNode, out: &mut Vec<Node>) -> (r: Result<(), Diag>)
    requires
        n.kind is While,
    ensures
        (match r {
            Ok(_) => spec_compile_stmt(*n, old(out)@.len() as int) is Ok && tape_dv(final(out)@)
                == tape_dv(old(out)@) + spec_compile_stmt(*n, old(out)@.len() as int)->Ok_0,
            Err(d) => spec_compile_stmt(*n, old(out)@.len() as int) == Err::<Seq<NodeV>, Diag>(d),
        }),
    decreases n, 2int,
{
    let ghost pre = tape_dv(out@);
    let ghost base = out@.len() as int;
    let line = n.line;
    match &n.kind {
        AstKind::While { expr, body } => {
            let base_x = out.len();
            match compile_expr(expr, line, out) {
                Ok(_) => {},
                Err(k) => {
                    return Err(Diag { line, kind: k });
                },
            }
            let ghost c = spec_compile_expr(*n.kind->While_expr)->Ok_0;
            let ghost cw = with_line(c, line);
            proof {
                assert(tape_dv(out@).len() == out@.len());
                assert(out@.len() == pre.len() + c.len());
            }
            let jif_at = out.len();
            emit(out, Instruction::JumpIfFalse(0), line);
            let ghost ph = NodeV { instruction: InstrV::JumpIfFalse(0), line_number: line };
            match compile_body(body, out) {
                Ok(_) => {},
                Err(d) => {
                    return Err(d);
                },
            }
            let ghost bc = spec_compile_body(n.kind->While_body@, base + c.len() + 1)->Ok_0;
            proof {
                assert(tape_dv(out@).len() == out@.len());
                assert(out@.len() == pre.len() + c.len() + 1 + bc.len());
            }
            emit(out, Instruction::Jump(base_x), line);
            let ghost jmp = NodeV { instruction: InstrV::Jump(base_x), line_number: line };
            let exit_at = out.len();
            let ghost preset = out@;
            proof {
                assert(out@.len() == pre.len() + c.len() + 1 + bc.len() + 1);
                assert(jif_at < out@.len());
            }
            let patched = Node {
                instruction: Instruction::JumpIfFalse(exit_at),
                line_number: line,
            };
            out[jif_at] = patched;
            proof {
                lemma_tape_dv_update(preset, jif_at as int, patched);
                lemma_patch_b(pre, cw, ph, patched@, bc, jmp);
                lemma_wl_one(InstrV::JumpIfFalse(exit_at), line);
                lemma_wl_one(InstrV::Jump(base_x), line);
                assert(cw + seq![patched@] + bc + seq![jmp] =~= cw + with_line(
                    seq![InstrV::JumpIfFalse(exit_at)],
                    line,
                ) + bc + with_line(seq![InstrV::Jump(base_x)], line));
            }
            Ok(())
        },
        _ => {
            proof {
                assert(false);
            }
            Err(Diag { line, kind: ErrorKind::InvalidExpression })
        },
    }
}

/// Appends the tape of a counted loop.
#[verifier::rlimit(100)]
fn compile_for_stmt(n: &AstNode, out: &mut Vec<Node>) -> (r: Result<(), Diag>)
    requires
        n.kind is For,
    ensures
        (match r {
            Ok(_) => spec_compile_stmt(*n, old(out)@.len() as int) is Ok && tape_dv(final(out)@)
                == tape_dv(old(out)@) + spec_compile_stmt(*n, old(out)@.len() as int)->Ok_0,
            Err(d) => spec_compile_stmt(*n, old(out)@.len() as int) == Err::<Seq<NodeV>, Diag>(d),
        }),
    decreases n, 2int,
{
    let ghost pre = tape_dv(out@);
    let ghost base = out@.len() as int;
    let line = n.line;
    match &n.kind {
        AstKind::For { var_name, start, end, step, body } => {
            let has_step = match &**step {
                Some(kx) => {
                    match compile_expr(kx, line, out) {
                        Ok(_) => {},
                        Err(e2) => {
                            return Err(Diag { line, kind: e2 });
                        },
                    }
                    true
                },
                None => false,
            };
            let ghost sc = (match *n.kind->For_step {
                Some(kx) => spec_compile_expr(kx)->Ok_0,
                None => Seq::<InstrV>::empty(),
            });
            proof {
                if !has_step {
                    assert(tape_dv(out@) =~= pre + with_line(sc, line));
                }
            }
            match compile_expr(end, line, out) {
                Ok(_) => {},
                Err(e2) => {
                    return Err(Diag { line, kind: e2 });
                },
            }
            let ghost ec = spec_compile_expr(*n.kind->For_end)->Ok_0;
            match compile_expr(start, line, out) {
                Ok(_) => {},
                Err(e2) => {
                    return Err(Diag { line, kind: e2 });
                },
            }
            let ghost stc = spec_compile_expr(*n.kind->For_start)->Ok_0;
            emit(out, Instruction::ForSetup(var_name.clone(), has_step), line);
            let test_at = out.len();
            let ghost setup = sc + ec + stc + seq![InstrV::ForSetup(var_name@, has_step)];
            let ghost sw = with_line(setup, line);
            proof {
                lemma_wl_concat(pre, sc, ec, line);
                lemma_wl_concat(pre, sc + ec, stc, line);
                lemma_wl_snoc(pre, sc + ec + stc, InstrV::ForSetup(var_name@, has_step), line);
                assert((sc + ec + stc).push(InstrV::ForSetup(var_name@, has_step)) =~= setup);
                assert(tape_dv(out@) == pre + sw);
                assert(tape_dv(out@).len() == out@.len());
                assert(out@.len() == pre.len() + setup.len());
            }
            emit(out, Instruction::ForTest(var_name.clone(), 0), line);
            let ghost ph = NodeV {
                instruction: InstrV::ForTest(var_name@, 0),
                line_number: line,
            };
            match compile_body(body, out) {
                Ok(_) => {},
                Err(d) => {
                    return Err(d);
                },
            }
            let ghost head = base + setup.len();
            let ghost bc = spec_compile_body(n.kind->For_body@, head + 1)->Ok_0;
            proof {
                assert(tape_dv(out@).len() == out@.len());
                assert(out@.len() == pre.len() + setup.len() + 1 + bc.len());
            }
            let step_load = Instruction::Load(hid_step_name(var_name));
            emit(out, step_load, line);
            emit(out, Instruction::Load(var_name.clone()), line);
            emit(out, Instruction::Plus, line);
            emit(out, Instruction::StoreLocal(var_name.clone()), line);
            emit(out, Instruction::Jump(test_at), line);
            let ghost tail = seq![
                InstrV::Load(spec_hid_step(var_name@)),
                InstrV::Load(var_name@),
                InstrV::Plus,
                InstrV::StoreLocal(var_name@),
                InstrV::Jump(head as usize),
            ];
            let ghost tw = with_line(tail, line);
            proof {
                assert(tape_dv(out@) =~= (pre + sw).push(ph) + bc + tw);
            }
            let exit_at = out.len();
            let ghost preset = out@;
            proof {
                assert(out@.len() == pre.len() + setup.len() + 1 + bc.len() + 5);
                assert(test_at < out@.len());
            }
            let patched = Node {
                instruction: Instruction::ForTest(var_name.clone(), exit_at),
                line_number: line,
            };
            out[test_at] = patched;
            proof {
                lemma_tape_dv_update(preset, test_at as int, patched);
                lemma_patch_d(pre, sw, ph, patched@, bc, tw);
                lemma_wl_one(InstrV::ForTest(var_name@, exit_at), line);
                assert(sw + seq![patched@] + bc + tw =~= sw + with_line(
                    seq![InstrV::ForTest(var_name@, exit_at)],
                    line,
                ) + bc + tw);
            }
            Ok(())
        },
        _ => {
            proof {
                assert(false);
            }
            Err(Diag { line, kind: ErrorKind::InvalidExpression })
        },
    }
}

/// Appends the tape of one statement; the tape starts at the current
/// end of `out`, which is its base address.
#[verifier::rlimit(100)]
fn compile_stmt(n: &AstNode, out: &mut Vec<Node>) -> (r: Result<(), Diag>)
    ensures
        (match r {
            Ok(_) => spec_compile_stmt(*n, old(out)@.len() as int) is Ok && tape_dv(final(out)@)
                == tape_dv(old(out)@) + spec_compile_stmt(*n, old(out)@.len() as int)->Ok_0,
            Err(d) => spec_compile_stmt(*n, old(out)@.len() as int) == Err::<Seq<NodeV>, Diag>(d),
        }),
    decreases n, 3int,
{
    let ghost pre = tape_dv(out@);
    let ghost base = out@.len() as int;
    let line = n.line;
    match &n.kind {
        AstKind::Condition { .. } => compile_cond_stmt(n, out),
        AstKind::While { .. } => compile_while_stmt(n, out),
        AstKind::For { .. } => compile_for_stmt(n, out),
        AstKind::Echo(e) => {
            match compile_expr(e, line, out) {
                Ok(_) => {},
                Err(k) => {
                    return Err(Diag { line, kind: k });
                },
            }
            let ghost c = spec_compile_expr(*n.kind->Echo_0)->Ok_0;
            proof {
                lemma_wl_snoc(pre, c, InstrV::Echo, line);
            }
            emit(out, Instruction::Echo, line);
            Ok(())
        },
        AstKind::Delete(name) => {
            proof {
                lemma_wl_snoc(pre, Seq::empty(), InstrV::Delete(name@), line);
                assert(pre + with_line(Seq::empty(), line) =~= pre);
                assert(Seq::empty().push(InstrV::Delete(name@)) =~= seq![InstrV::Delete(name@)]);
            }
            emit(out, Instruction::Delete(name.clone()), line);
            Ok(())
        },
        AstKind::Exit(code) => {
            proof {
                lemma_wl_snoc(pre, Seq::empty(), InstrV::Exit(*code), line);
                assert(pre + with_line(Seq::empty(), line) =~= pre);
                assert(Seq::empty().push(InstrV::Exit(*code)) =~= seq![InstrV::Exit(*code)]);
            }
            emit(out, Instruction::Exit(*code), line);
            Ok(())
        },
        AstKind::VarDecl { name, value, is_const, .. } => {
            match compile_expr(value, line, out) {
                Ok(_) => {},
                Err(k) => {
                    return Err(Diag { line, kind: k });
                },
            }
            let ghost c = spec_compile_expr(*n.kind->VarDecl_value)->Ok_0;
            let instr = if *is_const {
                Instruction::StoreConst(name.clone())
            } else {
                Instruction::StoreLocal(name.clone())
            };
            proof {
                lemma_wl_snoc(pre, c, instr@, line);
            }
            emit(out, instr, line);
            Ok(())
        },
        AstKind::Assign { name, op, expr } => {
            match compile_expr(expr, line, out) {
                Ok(_) => {},
                Err(k) => {
                    return Err(Diag { line, kind: k });
                },
            }
            let ghost c = spec_compile_expr(*n.kind->Assign_expr)->Ok_0;
            match op {
                Token::Assign => {
                    proof {
                        lemma_wl_snoc(pre, c, InstrV::StoreLocal(name@), line);
                    }
                    emit(out, Instruction::StoreLocal(name.clone()), line);
                    Ok(())
                },
                Token::PlusAssign | Token::MinusAssign | Token::MultiplyAssign
                    | Token::DivideAssign | Token::ModAssign => {
                    let instr = match op {
                        Token::PlusAssign => Instruction::Plus,
                        Token::MinusAssign => Instruction::Minus,
                        Token::MultiplyAssign => Instruction::Multiply,
                        Token::DivideAssign => Instruction::Divide,
                        _ => Instruction::Mod,
                    };
                    proof {
                        lemma_wl_snoc(pre, c, InstrV::Load(name@), line);
                        lemma_wl_snoc(pre, c.push(InstrV::Load(name@)), instr@, line);
                        lemma_wl_snoc(
                            pre,
                            c.push(InstrV::Load(name@)).push(instr@),
                            InstrV::StoreLocal(name@),
                            line,
                        );
                        assert(c.push(InstrV::Load(name@)).push(instr@).push(
                            InstrV::StoreLocal(name@),
                        ) =~= c + seq![InstrV::Load(name@), instr@, InstrV::StoreLocal(name@)]);
                    }
                    emit(out, Instruction::Load(name.clone()), line);
                    emit(out, instr, line);
                    emit(out, Instruction::StoreLocal(name.clone()), line);
                    Ok(())
                },
                _ => Err(Diag { line, kind: ErrorKind::InvalidExpression }),
            }
        },
        AstKind::ProcCall { name, args } => {
            let mut k: usize = args.len();
            proof {
                assert(args@.subrange(args@.len() as int, args@.len() as int)
                    =~= Seq::<Token>::empty());
                assert(tape_dv(out@) =~= pre + with_line(Seq::empty(), line));
            }
            while k > 0
                invariant
                    k <= args@.len(),
                    pre == tape_dv(old(out)@),
                    n.kind is ProcCall,
                    args@ == n.kind->ProcCall_args@,
                    line == n.line,
                    spec_args_code(args@.subrange(k as int, args@.len() as int)) is Ok,
                    tape_dv(out@) == pre + with_line(
                        spec_args_code(args@.subrange(k as int, args@.len() as int))->Ok_0,
                        line,
                    ),
                decreases k,
            {
                let ghost before = args@.subrange(k as int, args@.len() as int);
                k = k - 1;
                let ghost s = args@.subrange(k as int, args@.len() as int);
                proof {
                    assert(s[0] == args@[k as int]);
                    assert(s.drop_first() =~= before);
                }
                match arg_instr(&args[k]) {
                    Some(i) => {
                        proof {
                            lemma_wl_snoc(pre, spec_args_code(before)->Ok_0, i@, line);
                        }
                        emit(out, i, line);
                    },
                    None => {
                        proof {
                            lemma_args_code_err(args@);
                            assert(spec_arg_instr(args@[k as int]) is None);
                        }
                        return Err(Diag { line, kind: ErrorKind::InvalidExpression });
                    },
                }
            }
            proof {
                assert(args@.subrange(0, args@.len() as int) =~= args@);
            }
            let ghost c = spec_args_code(args@)->Ok_0;
            proof {
                lemma_wl_snoc(pre, c, InstrV::Call(name@, args@.len() as usize), line);
            }
            emit(out, Instruction::Call(name.clone(), args.len()), line);
            Ok(())
        },
        _ => Err(Diag { line, kind: ErrorKind::TopLevelOnlyInProc }),
    }
}

/// Appends the tapes of a run of statements.
fn compile_body(nodes: &Vec<AstNode>, out: &mut Vec<Node>) -> (r: Result<(), Diag>)
    ensures
        r is Ok ==> spec_compile_body(nodes@, old(out)@.len() as int) is Ok
            && tape_dv(final(out)@) == tape_dv(old(out)@) + spec_compile_body(
            nodes@,
            old(out)@.len() as int,
        )->Ok_0,
        r is Err ==> spec_compile_body(nodes@, old(out)@.len() as int) == Err::<
            Seq<NodeV>,
            Diag,
        >(r->Err_0),
    decreases nodes@, 4int,
{
    let ghost pre = tape_dv(out@);
    let ghost base = out@.len() as int;
    let mut i: usize = 0;
    proof {
        assert(out@.len() == old(out)@.len());
        assert(nodes@.subrange(0, 0) =~= Seq::<AstNode>::empty());
        assert(pre + Seq::<NodeV>::empty() =~= pre);
    }
    while i < nodes.len()
        invariant
            i <= nodes@.len(),
            base == pre.len(),
            base == old(out)@.len() as int,
            pre == tape_dv(old(out)@),
            spec_compile_body(nodes@.subrange(0, i as int), base) is Ok,
            tape_dv(out@) == pre + spec_compile_body(nodes@.subrange(0, i as int), base)->Ok_0,
        decreases nodes@.len() - i,
    {
        let ghost done = nodes@.subrange(0, i as int);
        let ghost donec = spec_compile_body(done, base)->Ok_0;
        proof {
            assert(tape_dv(out@).len() == out@.len());
            assert(out@.len() == base + donec.len());
        }
        let r = compile_stmt(&nodes[i], out);
        proof {
            lemma_body_split(nodes@, base, i as int);
            let rest = nodes@.subrange(i as int, nodes@.len() as int);
            assert(rest[0] == nodes@[i as int]);
            assert(rest.drop_first() =~= nodes@.subrange(i + 1, nodes@.len() as int));
        }
        match r {
            Ok(_) => {},
            Err(d) => {
                proof {
                    let rest = nodes@.subrange(i as int, nodes@.len() as int);
                    assert(spec_compile_stmt(rest[0], base + donec.len()) == Err::<
                        Seq<NodeV>,
                        Diag,
                    >(d));
                    assert(spec_compile_body(rest, base + donec.len()) == Err::<
                        Seq<NodeV>,
                        Diag,
                    >(d));
                    assert(spec_compile_body(nodes@, base) == Err::<Seq<NodeV>, Diag>(d));
                    assert(old(out)@.len() as int == base);
                    assert(spec_compile_body(nodes@, old(out)@.len() as int) == Err::<
                        Seq<NodeV>,
                        Diag,
                    >(d));
                }
                return Err(d);
            },
        }
        i = i + 1;
        proof {
            let stepc = spec_compile_stmt(nodes@[i - 1], base + donec.len())->Ok_0;
            let done2 = nodes@.subrange(0, i as int);
            assert(spec_compile_body(done2, base) is Ok && spec_compile_body(
                done2,
                base,
            )->Ok_0 == donec + stepc) by {
                assert(done2.subrange(0, i - 1) =~= done);
                lemma_body_split(done2, base, i - 1);
                assert(done2.subrange(i - 1, done2.len() as int) =~= seq![nodes@[i - 1]]);
                let single = seq![nodes@[i - 1]];
                assert(single.drop_first() =~= Seq::<AstNode>::empty());
                assert(single[0] == nodes@[i - 1]);
                assert(spec_compile_stmt(nodes@[i - 1], base + donec.len()) is Ok);
                assert(spec_compile_body(single.drop_first(), base + donec.len() + stepc.len())
                    is Ok);
                assert(spec_compile_body(single, base + donec.len()) is Ok);
                assert(spec_compile_body(single, base + donec.len())->Ok_0 == stepc
                    + Seq::<NodeV>::empty());
                assert(stepc + Seq::<NodeV>::empty() =~= stepc);
                assert(spec_compile_body(done2, base) == Ok::<Seq<NodeV>, Diag>(donec + stepc));
            }
            assert(pre + donec + stepc =~= pre + (donec + stepc));
        }
    }
    proof {
        assert(nodes@.subrange(0, nodes@.len() as int) =~= nodes@);
    }
    Ok(())
}

/// A failing prefix fails the whole program with the same diagnostic.
proof fn lemma_program_prefix_err(ast: Seq<AstNode>, j: int)
    requires
        0 <= j <= ast.len(),
        spec_compile_program(ast.subrange(0, j)) is Err,
    ensures
        spec_compile_program(ast) == spec_compile_program(ast.subrange(0, j)),
    decreases ast.len() - j,
{
    if j == ast.len() {
        assert(ast.subrange(0, j) =~= ast);
    } else {
        assert(ast.subrange(0, j + 1).drop_last() =~= ast.subrange(0, j));
        lemma_program_prefix_err(ast, j + 1);
    }
}

/// Compiles a whole program: every top-level constant declaration
/// appended to one initializer tape, every procedure compiled from
/// address zero.
pub fn compile(ast: &Vec<AstNode>) -> (r: Result<(NamedMap<Proc>, Vec<Node>), Diag>)
    ensures
        (match r {
            Ok(pc) => spec_compile_program(ast@) is Ok && pc.0@ == spec_compile_program(
                ast@,
            )->Ok_0.0 && pc.0.wf() && tape_dv(pc.1@) == spec_compile_program(ast@)->Ok_0.1,
            Err(d) => spec_compile_program(ast@) == Err::<
                (Map<Seq<char>, ProcV>, Seq<NodeV>),
                Diag,
            >(d),
        }),
{
    let mut procs: NamedMap<Proc> = NamedMap::new();
    let mut const_code: Vec<Node> = Vec::new();
    let mut i: usize = 0;
    proof {
        assert(ast@.subrange(0, 0) =~= Seq::<AstNode>::empty());
        assert(tape_dv(const_code@) =~= Seq::<NodeV>::empty());
    }
    while i < ast.len()
        invariant
            i <= ast@.len(),
            procs.wf(),
            spec_compile_program(ast@.subrange(0, i as int)) is Ok,
            procs@ == spec_compile_program(ast@.subrange(0, i as int))->Ok_0.0,
            tape_dv(const_code@) == spec_compile_program(ast@.subrange(0, i as int))->Ok_0.1,
        decreases ast@.len() - i,
    {
        let ghost done = ast@.subrange(0, i as int);
        let node = &ast[i];
        proof {
            assert(ast@.subrange(0, i + 1).drop_last() =~= done);
            assert(ast@.subrange(0, i + 1).last() == ast@[i as int]);
        }
        match &node.kind {
            AstKind::VarDecl { .. } => {
                proof {
                    assert(tape_dv(const_code@).len() == const_code@.len());
                }
                match compile_stmt(node, &mut const_code) {
                    Ok(_) => {},
                    Err(d) => {
                        proof {
                            assert(spec_compile_program(ast@.subrange(0, i + 1)) == Err::<
                                (Map<Seq<char>, ProcV>, Seq<NodeV>),
                                Diag,
                            >(d));
                            lemma_program_prefix_err(ast@, i + 1);
                        }
                        return Err(d);
                    },
                }
            },
            AstKind::Proc { name, body, args } => {
                let mut tape: Vec<Node> = Vec::new();
                proof {
                    assert(tape_dv(tape@) =~= Seq::<NodeV>::empty());
                }
                match compile_body(body, &mut tape) {
                    Ok(_) => {},
                    Err(d) => {
                        proof {
                            assert(spec_compile_program(ast@.subrange(0, i + 1)) == Err::<
                                (Map<Seq<char>, ProcV>, Seq<NodeV>),
                                Diag,
                            >(d));
                            lemma_program_prefix_err(ast@, i + 1);
                        }
                        return Err(d);
                    },
                }
                proof {
                    assert(Seq::<NodeV>::empty() + spec_compile_body(
                        node.kind->Proc_body@,
                        0,
                    )->Ok_0 =~= spec_compile_body(node.kind->Proc_body@, 0)->Ok_0);
                }
                let copied = copy_args(args);
                proof {
                    assert(args_view(copied@) =~= args_view(node.kind->Proc_args@));
                }
                procs.bind(name.clone(), Proc { args: copied, body: tape });
            },
            _ => {
                proof {
                    lemma_program_prefix_err(ast@, i + 1);
                }
                return Err(Diag { line: node.line, kind: ErrorKind::TopLevelOnlyInProc });
            },
        }
        i = i + 1;
    }
    proof {
        assert(ast@.subrange(0, ast@.len() as int) =~= ast@);
    }
    Ok((procs, const_code))
}

pub(crate) fn copy_args(args: &Vec<(String, TypesCheck)>) -> (r: Vec<(String, TypesCheck)>)
    ensures
        r@.len() == args@.len(),
        forall|i: int|
            0 <= i < args@.len() ==> (#[trigger] r@[i]).0@ == args@[i].0@ && r@[i].1 == args@[i].1,
{
    let mut out: Vec<(String, TypesCheck)> = Vec::new();
    let mut i: usize = 0;
    while i < args.len()
        invariant
            i <= args@.len(),
            out@.len() == i as int,
            forall|j: int|
                0 <= j < i ==> (#[trigger] out@[j]).0@ == args@[j].0@ && out@[j].1 == args@[j].1,
        decreases args@.len() - i,
    {
        out.push((args[i].0.clone(), args[i].1));
        i = i + 1;
    }
    out
}

} // verus!
