use vstd::prelude::*;
use crate::bytecode::{InstrV, NodeV, ProcV};
use crate::errors::ErrorKind;
use crate::types::ValV;
use crate::vm::{
    run_tape, step_data, bind_args, MachV, StepOut, is_data_instr,
};

verus! {

// The stated laws of the machine, proved from the specifications the
// executable pipeline is verified against.

/// Scope isolation: when a call returns normally, the caller resumes
/// with exactly the local frame it had before the call, whatever the
/// callee did with its parameters. Only the shared state (constants,
/// transcript, inputs) moves forward.
pub proof fn lemma_call_keeps_caller_frame(
    procs: Map<Seq<char>, ProcV>,
    tape: Seq<NodeV>,
    m: MachV,
    locals: Map<Seq<char>, (ValV, bool)>,
    stack: Seq<ValV>,
    ip: int,
    fuel: nat,
    name: Seq<char>,
    argc: usize,
)
    requires
        fuel > 0,
        0 <= ip < tape.len(),
        tape[ip].instruction == InstrV::Call(name, argc),
        procs.contains_key(name),
        procs[name].args.len() == argc,
        stack.len() >= argc,
        run_tape(
            procs,
            procs[name].body,
            m,
            bind_args(procs[name].args, stack),
            Seq::empty(),
            0,
            (fuel - 1) as nat,
        ) is Done,
    ensures
        run_tape(procs, tape, m, locals, stack, ip, fuel) == run_tape(
            procs,
            tape,
            run_tape(
                procs,
                procs[name].body,
                m,
                bind_args(procs[name].args, stack),
                Seq::empty(),
                0,
                (fuel - 1) as nat,
            )->Done_m,
            locals,
            stack.subrange(0, stack.len() - argc),
            ip + 1,
            (fuel - 1) as nat,
        ),
{
}

/// The constant frame only grows: no step of any run removes or
/// replaces a binding that the frame already holds. Mutation attempts
/// fail instead.
pub open spec fn consts_preserved(before: MachV, after: MachV) -> bool {
    forall|k: Seq<char>|
        #[trigger] before.consts.contains_key(k) ==> after.consts.contains_key(k)
            && after.consts[k] == before.consts[k]
}

/// The shared state a run ends with, for the outcomes that carry one.
pub open spec fn out_mach(o: StepOut) -> Option<MachV> {
    match o {
        StepOut::Done { m } => Some(m),
        StepOut::Exited { m, .. } => Some(m),
        StepOut::Failed { m, .. } => Some(m),
        StepOut::OutOfFuel { m } => Some(m),
    }
}

proof fn lemma_step_data_consts(
    i: InstrV,
    m: MachV,
    locals: Map<Seq<char>, (ValV, bool)>,
    stack: Seq<ValV>,
)
    ensures
        (match step_data(i, m, locals, stack) {
            Ok(t) => consts_preserved(m, t.0),
            Err(_) => true,
        }),
{
}

/// Const frame invariance, over whole runs: every binding the
/// constant frame holds when a tape starts to run is still there,
/// unchanged, however the run ends.
pub proof fn lemma_run_preserves_consts(
    procs: Map<Seq<char>, ProcV>,
    tape: Seq<NodeV>,
    m: MachV,
    locals: Map<Seq<char>, (ValV, bool)>,
    stack: Seq<ValV>,
    ip: int,
    fuel: nat,
)
    ensures
        (match out_mach(run_tape(procs, tape, m, locals, stack, ip, fuel)) {
            Some(m2) => consts_preserved(m, m2),
            None => true,
        }),
    decreases fuel,
{
    if fuel == 0 {
    } else if ip < 0 || ip >= tape.len() {
    } else {
        let nd = tape[ip];
        if is_data_instr(nd.instruction) {
            lemma_step_data_consts(nd.instruction, m, locals, stack);
            match step_data(nd.instruction, m, locals, stack) {
                Ok(t) => {
                    lemma_run_preserves_consts(
                        procs,
                        tape,
                        t.0,
                        t.1,
                        t.2,
                        ip + 1,
                        (fuel - 1) as nat,
                    );
                },
                Err(_) => {},
            }
        } else {
            match nd.instruction {
                InstrV::Jump(t) => {
                    lemma_run_preserves_consts(
                        procs,
                        tape,
                        m,
                        locals,
                        stack,
                        t as int,
                        (fuel - 1) as nat,
                    );
                },
                InstrV::JumpIfFalse(t) => {
                    if stack.len() > 0 {
                        match stack.last() {
                            ValV::Boolean(b) => {
                                lemma_run_preserves_consts(
                                    procs,
                                    tape,
                                    m,
                                    locals,
                                    stack.drop_last(),
                                    if b {
                                        ip + 1
                                    } else {
                                        t as int
                                    },
                                    (fuel - 1) as nat,
                                );
                            },
                            _ => {},
                        }
                    }
                },
                InstrV::ForTest(name, t) => {
                    if locals.contains_key(name) && locals.contains_key(
                        crate::bytecode::spec_hid_end(name),
                    ) && locals.contains_key(crate::bytecode::spec_hid_step(name)) {
                        match crate::vm::spec_for_test(
                            locals[name].0,
                            locals[crate::bytecode::spec_hid_end(name)].0,
                            locals[crate::bytecode::spec_hid_step(name)].0,
                        ) {
                            Ok(cont) => {
                                lemma_run_preserves_consts(
                                    procs,
                                    tape,
                                    m,
                                    locals,
                                    stack,
                                    if cont {
                                        ip + 1
                                    } else {
                                        t as int
                                    },
                                    (fuel - 1) as nat,
                                );
                            },
                            Err(_) => {},
                        }
                    }
                },
                InstrV::Call(name, argc) => {
                    if procs.contains_key(name) && procs[name].args.len() == argc && stack.len()
                        >= argc {
                        let callee = procs[name];
                        let sub = run_tape(
                            procs,
                            callee.body,
                            m,
                            bind_args(callee.args, stack),
                            Seq::empty(),
                            0,
                            (fuel - 1) as nat,
                        );
                        lemma_run_preserves_consts(
                            procs,
                            callee.body,
                            m,
                            bind_args(callee.args, stack),
                            Seq::empty(),
                            0,
                            (fuel - 1) as nat,
                        );
                        match sub {
                            StepOut::Done { m: m2 } => {
                                lemma_run_preserves_consts(
                                    procs,
                                    tape,
                                    m2,
                                    locals,
                                    stack.subrange(0, stack.len() - argc),
                                    ip + 1,
                                    (fuel - 1) as nat,
                                );
                            },
                            _ => {},
                        }
                    }
                },
                _ => {},
            }
        }
    }
}

/// The trip count of a counted loop with a positive step: starting at
/// `a` and stepping by `k` while the value stays below `b`, the body
/// runs exactly `max(0, ceil((b - a) / k))` times, and the first value
/// that fails the bound is `a + n * k`.
pub proof fn lemma_for_trip_count(a: int, b: int, k: int, n: int)
    requires
        k > 0,
        n == if b <= a {
            0int
        } else {
            (b - a + k - 1) / k
        },
    ensures
        n >= 0,
        a + n * k >= b || n == 0,
        b <= a ==> n == 0,
        n > 0 ==> a + (n - 1) * k < b,
        forall|j: int| 0 <= j < n ==> a + #[trigger] (j * k) < b,
{
    if b <= a {
    } else {
        let d = b - a;
        assert(n == (d + k - 1) / k);
        assert(n * k >= d && (n - 1) * k < d) by (nonlinear_arith)
            requires
                k > 0,
                d > 0,
                n == (d + k - 1) / k,
        ;
        assert forall|j: int| 0 <= j < n implies a + #[trigger] (j * k) < b by {
            assert(j * k <= (n - 1) * k) by (nonlinear_arith)
                requires
                    j <= n - 1,
                    k > 0,
            ;
        }
    }
}


// ---------------------------------------------------------------------
// Stack discipline of compiled expressions.

/// A straight-line run of data instructions: exactly how the machine
/// treats an expression tape, which holds no branch, call or exit.
pub open spec fn run_straight(
    code: Seq<InstrV>,
    m: MachV,
    locals: Map<Seq<char>, (ValV, bool)>,
    stack: Seq<ValV>,
) -> Result<(MachV, Map<Seq<char>, (ValV, bool)>, Seq<ValV>), ErrorKind>
    decreases code.len(),
{
    if code.len() == 0 {
        Ok((m, locals, stack))
    } else {
        match step_data(code[0], m, locals, stack) {
            Ok(t) => run_straight(code.drop_first(), t.0, t.1, t.2),
            Err(k) => Err(k),
        }
    }
}

/// A straight-line run splits at any concatenation point.
proof fn lemma_straight_split(
    a: Seq<InstrV>,
    b: Seq<InstrV>,
    m: MachV,
    locals: Map<Seq<char>, (ValV, bool)>,
    stack: Seq<ValV>,
)
    ensures
        run_straight(a + b, m, locals, stack) == (match run_straight(a, m, locals, stack) {
            Ok(t) => run_straight(b, t.0, t.1, t.2),
            Err(k) => Err(k),
        }),
    decreases a.len(),
{
    if a.len() == 0 {
        assert(a + b =~= b);
    } else {
        assert((a + b)[0] == a[0]);
        match step_data(a[0], m, locals, stack) {
            Ok(t) => {
                assert((a + b).drop_first() =~= a.drop_first() + b);
                lemma_straight_split(a.drop_first(), b, t.0, t.1, t.2);
            },
            Err(_) => {},
        }
    }
}

/// What a compiled expression tape is allowed to do to the machine:
/// it never pops past the stack it was given. When it completes, it
/// has pushed exactly one value on top of the untouched caller stack
/// and has left the local frame alone; when it stops early, the
/// diagnostic is a genuine evaluation error, never a stack underflow.
/// One trailing unary-form instruction over an evaluated operand.
proof fn lemma_unary_tail(
    x: InstrV,
    l: Map<Seq<char>, (ValV, bool)>,
    s0: Seq<ValV>,
    t: (MachV, Map<Seq<char>, (ValV, bool)>, Seq<ValV>),
)
    requires
        x is Neg || x is Not || x is CastToString || x is CastToNumber || x is CastToFloat
            || x is CastToBoolean || x is Sin || x is Cos || x is Sqrt,
        t.2.len() == s0.len() + 1,
        t.2.drop_last() == s0,
        t.1 == l,
    ensures
        (match step_data(x, t.0, t.1, t.2) {
            Ok(t2) => t2.2.len() == s0.len() + 1 && t2.2.drop_last() == s0 && t2.1 == l,
            Err(k) => k != ErrorKind::StackUnderflow,
        }),
{
    match step_data(x, t.0, t.1, t.2) {
        Ok(t2) => {
            assert(t2.2.drop_last() =~= s0);
        },
        Err(_) => {},
    }
}

/// One trailing binary instruction over two evaluated operands.
proof fn lemma_binop_tail(
    x: InstrV,
    l: Map<Seq<char>, (ValV, bool)>,
    s0: Seq<ValV>,
    t: (MachV, Map<Seq<char>, (ValV, bool)>, Seq<ValV>),
)
    requires
        x is Or || x is And || x is Equal || x is NotEqual || x is Greater || x is Less
            || x is GreaterEqual || x is LessEqual || x is Plus || x is Minus || x is Multiply
            || x is Divide || x is Mod,
        t.2.len() == s0.len() + 2,
        t.2.drop_last().drop_last() == s0,
        t.1 == l,
    ensures
        (match step_data(x, t.0, t.1, t.2) {
            Ok(t2) => t2.2.len() == s0.len() + 1 && t2.2.drop_last() == s0 && t2.1 == l,
            Err(k) => k != ErrorKind::StackUnderflow,
        }),
{
    match step_data(x, t.0, t.1, t.2) {
        Ok(t2) => {
            assert(t2.2.drop_last() =~= s0);
        },
        Err(_) => {},
    }
}

/// What a compiled expression tape is allowed to do to the machine:
/// it never pops past the stack it was given. When it completes, it
/// has pushed exactly one value on top of the untouched caller stack
/// and has left the local frame alone; when it stops early, the
/// diagnostic is a genuine evaluation error, never a stack underflow.
#[verifier::rlimit(100)]
#[verifier::spinoff_prover]
pub proof fn lemma_expr_tape_no_underflow(
    e: crate::parser::AstKind,
    m: MachV,
    locals: Map<Seq<char>, (ValV, bool)>,
    stack: Seq<ValV>,
)
    requires
        crate::bytecode::spec_compile_expr(e) is Ok,
    ensures
        (match run_straight(crate::bytecode::spec_compile_expr(e)->Ok_0, m, locals, stack) {
            Ok(t) => t.2.len() == stack.len() + 1 && t.2.drop_last() == stack && t.1 == locals,
            Err(k) => k != ErrorKind::StackUnderflow,
        }),
    decreases e,
{
    reveal_with_fuel(run_straight, 3);
    let code = crate::bytecode::spec_compile_expr(e)->Ok_0;
    match e {
        crate::parser::AstKind::UnaryOp { op, expr } => {
            let sub = crate::bytecode::spec_compile_expr(*expr)->Ok_0;
            lemma_expr_tape_no_underflow(*expr, m, locals, stack);
            let x = (match op {
                crate::lexer::Token::Not => InstrV::Not,
                _ => InstrV::Neg,
            });
            assert(code =~= sub + seq![x]);
            lemma_straight_split(sub, seq![x], m, locals, stack);
            match run_straight(sub, m, locals, stack) {
                Ok(t) => {
                    assert(seq![x].drop_first() =~= Seq::<InstrV>::empty());
                    lemma_unary_tail(x, locals, stack, t);
                },
                Err(_) => {},
            }
        },
        crate::parser::AstKind::AsOp { expr, op } => {
            let sub = crate::bytecode::spec_compile_expr(*expr)->Ok_0;
            lemma_expr_tape_no_underflow(*expr, m, locals, stack);
            let x = crate::bytecode::spec_cast_instr(op);
            assert(code =~= sub + seq![x]);
            lemma_straight_split(sub, seq![x], m, locals, stack);
            match run_straight(sub, m, locals, stack) {
                Ok(t) => {
                    assert(seq![x].drop_first() =~= Seq::<InstrV>::empty());
                    lemma_unary_tail(x, locals, stack, t);
                },
                Err(_) => {},
            }
        },
        crate::parser::AstKind::BinaryOp { left, op, right } => {
            let rc = crate::bytecode::spec_compile_expr(*right)->Ok_0;
            let lc = crate::bytecode::spec_compile_expr(*left)->Ok_0;
            let x = crate::bytecode::spec_binop_instr(op)->Some_0;
            assert(code =~= (rc + lc) + seq![x]);
            lemma_straight_split(rc + lc, seq![x], m, locals, stack);
            lemma_straight_split(rc, lc, m, locals, stack);
            lemma_expr_tape_no_underflow(*right, m, locals, stack);
            match run_straight(rc, m, locals, stack) {
                Ok(tr) => {
                    lemma_expr_tape_no_underflow(*left, tr.0, tr.1, tr.2);
                    match run_straight(lc, tr.0, tr.1, tr.2) {
                        Ok(tl) => {
                            assert(seq![x].drop_first() =~= Seq::<InstrV>::empty());
                            assert(tl.2.drop_last().drop_last() =~= stack);
                            lemma_binop_tail(x, locals, stack, tl);
                        },
                        Err(_) => {},
                    }
                },
                Err(_) => {},
            }
        },
        crate::parser::AstKind::Ident(n) => {
            assert(code =~= seq![InstrV::Load(n@)]);
            assert(code.drop_first() =~= Seq::<InstrV>::empty());
            match step_data(InstrV::Load(n@), m, locals, stack) {
                Ok(t) => {
                    assert(t.2.drop_last() =~= stack);
                },
                Err(_) => {},
            }
        },
        crate::parser::AstKind::Number(v) => {
            lemma_push_case(ValV::Number(v), m, locals, stack);
            assert(code =~= seq![InstrV::Push(ValV::Number(v))]);
        },
        crate::parser::AstKind::Float(b) => {
            lemma_push_case(ValV::Float(b), m, locals, stack);
            assert(code =~= seq![InstrV::Push(ValV::Float(b))]);
        },
        crate::parser::AstKind::String(sv) => {
            lemma_push_case(ValV::Str(sv@), m, locals, stack);
            assert(code =~= seq![InstrV::Push(ValV::Str(sv@))]);
        },
        crate::parser::AstKind::Boolean(b) => {
            lemma_push_case(ValV::Boolean(b), m, locals, stack);
            assert(code =~= seq![InstrV::Push(ValV::Boolean(b))]);
        },
        _ => {
            assert(false);
        },
    }
}

/// The literal case: a single push.
proof fn lemma_push_case(
    v: ValV,
    m: MachV,
    locals: Map<Seq<char>, (ValV, bool)>,
    stack: Seq<ValV>,
)
    ensures
        run_straight(seq![InstrV::Push(v)], m, locals, stack) == Ok::<
            (MachV, Map<Seq<char>, (ValV, bool)>, Seq<ValV>),
            ErrorKind,
        >((m, locals, stack.push(v))),
        stack.push(v).len() == stack.len() + 1,
        stack.push(v).drop_last() == stack,
{
    reveal_with_fuel(run_straight, 3);
    let code = seq![InstrV::Push(v)];
    assert(code[0] == InstrV::Push(v));
    assert(code.drop_first() =~= Seq::<InstrV>::empty());
    assert(stack.push(v).drop_last() =~= stack);
}

} // verus!
