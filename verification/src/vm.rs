use vstd::prelude::*;
use crate::errors::{Diag, ErrorKind, WarningKind};
use crate::bytecode::{InstrV, NodeV, Node, Proc, ProcV, Instruction, tape_dv, spec_hid_end, spec_hid_step};
use crate::scope::{Scope, NamedMap};
use crate::types::{
    Types, ValV, spec_plus, spec_minus, spec_multiply, spec_divide, spec_modulo, spec_negate,
    spec_not, spec_logic, spec_eq_val, spec_order, spec_cast_string, spec_cast_number,
    spec_cast_float, spec_cast_boolean, spec_float_fn, spec_value_text, OrderOp, FloatFn,
};
use crate::float::{
    float_lt, float_gt, float_eq, f_is_sign_neg, F_ZERO, F_ONE, F_PI, F_TAU, F_E, F_SQRT_2,
    apf_lt, apf_eq, f64_is_sign_neg,
};
use crate::errors::spec_warning_text;
use crate::textops::{spec_trim, trim_str, str_eq};

verus! {

// The machine. Execution is a pure function of the program, the
// supplied input lines and a step budget: the spec functions below
// say exactly which transcript, exit code or diagnostic comes out,
// and the executable machine is proved to return precisely that.

/// The machine state shared by every activation: the constant frame,
/// the stdout transcript, and the input lines not yet read.
#[verifier::ext_equal]
pub struct MachV {
    pub consts: Map<Seq<char>, (ValV, bool)>,
    pub transcript: Seq<Seq<char>>,
    pub inputs: Seq<Seq<char>>,
}

/// How a tape run ends.
pub enum StepOut {
    /// The tape ran off its end.
    Done { m: MachV },
    /// An `exit` instruction.
    Exited { m: MachV, code: i32 },
    /// A fatal diagnostic; the transcript so far is kept.
    Failed { m: MachV, line: usize, kind: ErrorKind },
    /// The step budget ran out; the transcript so far is kept.
    OutOfFuel { m: MachV },
}

/// The two stdout lines of a non-fatal warning.
pub open spec fn warning_lines(k: WarningKind) -> Seq<Seq<char>> {
    seq![
        "Warning "@ + spec_warning_text(k),
        "For details, visit: https://cylium.site/materials/errors"@,
    ]
}

/// The callee frame: formal `i` is bound to the `i`-th value popped,
/// which is the last pushed.
pub open spec fn bind_args(
    args: Seq<(Seq<char>, crate::errors::TypesCheck)>,
    stack: Seq<ValV>,
) -> Map<Seq<char>, (ValV, bool)>
    decreases args.len(),
{
    if args.len() == 0 {
        Map::empty()
    } else {
        bind_args(args.drop_last(), stack).insert(
            args.last().0,
            (stack[stack.len() - args.len()], false),
        )
    }
}

/// What `for` setup makes of its operands: the initial value, bound
/// and step, all of one numeric kind, the step synthesized as a one
/// of that kind when absent.
pub open spec fn spec_for_setup(start: ValV, end: ValV, step: Option<ValV>) -> Result<
    (ValV, ValV, ValV),
    ErrorKind,
> {
    match (start, end) {
        (ValV::Number(a), ValV::Number(b)) => match step {
            None => Ok((start, end, ValV::Number(if a > b { -1i64 } else { 1i64 }))),
            Some(ValV::Number(k)) => if k == 0 {
                Err(ErrorKind::ForStepInvalid)
            } else {
                Ok((start, end, ValV::Number(k)))
            },
            Some(_) => Err(ErrorKind::ForDirectionInvalid),
        },
        (ValV::Float(a), ValV::Float(b)) => match step {
            None => Ok(
                (
                    start,
                    end,
                    ValV::Float(if float_gt(a, b) { F_ONE ^ 0x8000_0000_0000_0000 } else { F_ONE }),
                ),
            ),
            Some(ValV::Float(k)) => if float_eq(k, F_ZERO) {
                Err(ErrorKind::ForStepInvalid)
            } else {
                Ok((start, end, ValV::Float(k)))
            },
            Some(_) => Err(ErrorKind::ForDirectionInvalid),
        },
        _ => Err(ErrorKind::ForDirectionInvalid),
    }
}

/// The loop test: against the bound, away from the step's direction.
pub open spec fn spec_for_test(v: ValV, e: ValV, k: ValV) -> Result<bool, ErrorKind> {
    match (v, e, k) {
        (ValV::Number(a), ValV::Number(b), ValV::Number(s)) => Ok(
            if s < 0 {
                a > b
            } else {
                a < b
            },
        ),
        (ValV::Float(a), ValV::Float(b), ValV::Float(s)) => Ok(
            if f_is_sign_neg(s) {
                float_gt(a, b)
            } else {
                float_lt(a, b)
            },
        ),
        _ => Err(ErrorKind::ForDirectionInvalid),
    }
}

/// One data instruction: everything that neither branches nor calls.
/// On an error the shared state is unchanged.
pub open spec fn step_data(
    i: InstrV,
    m: MachV,
    locals: Map<Seq<char>, (ValV, bool)>,
    stack: Seq<ValV>,
) -> Result<(MachV, Map<Seq<char>, (ValV, bool)>, Seq<ValV>), ErrorKind> {
    match i {
        InstrV::Push(v) => Ok((m, locals, stack.push(v))),
        InstrV::Load(name) => {
            if name == "input"@ {
                if m.inputs.len() > 0 {
                    Ok(
                        (
                            MachV {
                                inputs: m.inputs.drop_first(),
                                ..m
                            },
                            locals,
                            stack.push(ValV::Str(spec_trim(m.inputs[0]))),
                        ),
                    )
                } else {
                    Ok(
                        (
                            MachV {
                                transcript: m.transcript + warning_lines(
                                    WarningKind::InputReadFailure,
                                ),
                                ..m
                            },
                            locals,
                            stack.push(ValV::Str(Seq::empty())),
                        ),
                    )
                }
            } else if locals.contains_key(name) {
                Ok((m, locals, stack.push(locals[name].0)))
            } else if m.consts.contains_key(name) {
                Ok((m, locals, stack.push(m.consts[name].0)))
            } else {
                Err(ErrorKind::UnknownIdent)
            }
        },
        InstrV::StoreLocal(name) => {
            if stack.len() == 0 {
                Err(ErrorKind::StackUnderflow)
            } else {
                Ok((m, locals.insert(name, (stack.last(), false)), stack.drop_last()))
            }
        },
        InstrV::StoreConst(name) => {
            if m.consts.contains_key(name) {
                Err(ErrorKind::ConstReassign)
            } else if stack.len() == 0 {
                Err(ErrorKind::StackUnderflow)
            } else {
                Ok(
                    (
                        MachV { consts: m.consts.insert(name, (stack.last(), true)), ..m },
                        locals,
                        stack.drop_last(),
                    ),
                )
            }
        },
        InstrV::Delete(name) => {
            if m.consts.contains_key(name) {
                Err(ErrorKind::ConstDelete)
            } else if !locals.contains_key(name) {
                Err(ErrorKind::UnknownIdent)
            } else {
                Ok((m, locals.remove(name), stack))
            }
        },
        InstrV::Neg | InstrV::Not | InstrV::CastToString | InstrV::CastToNumber
            | InstrV::CastToFloat | InstrV::CastToBoolean | InstrV::Sin | InstrV::Cos
            | InstrV::Sqrt | InstrV::Echo => {
            if stack.len() == 0 {
                Err(ErrorKind::StackUnderflow)
            } else {
                let v = stack.last();
                let rest = stack.drop_last();
                match i {
                    InstrV::Neg => match spec_negate(v) {
                        Ok(r) => Ok((m, locals, rest.push(r))),
                        Err(k) => Err(k),
                    },
                    InstrV::Not => match spec_not(v) {
                        Ok(r) => Ok((m, locals, rest.push(r))),
                        Err(k) => Err(k),
                    },
                    InstrV::CastToString => {
                        let (r, w) = spec_cast_string(v);
                        Ok((cast_warned(m, w), locals, rest.push(r)))
                    },
                    InstrV::CastToNumber => match spec_cast_number(v) {
                        Ok((r, w)) => Ok((cast_warned(m, w), locals, rest.push(r))),
                        Err(k) => Err(k),
                    },
                    InstrV::CastToFloat => match spec_cast_float(v) {
                        Ok((r, w)) => Ok((cast_warned(m, w), locals, rest.push(r))),
                        Err(k) => Err(k),
                    },
                    InstrV::CastToBoolean => match spec_cast_boolean(v) {
                        Ok((r, w)) => Ok((cast_warned(m, w), locals, rest.push(r))),
                        Err(k) => Err(k),
                    },
                    InstrV::Sin => match spec_float_fn(v, FloatFn::Sin) {
                        Ok(r) => Ok((m, locals, rest.push(r))),
                        Err(k) => Err(k),
                    },
                    InstrV::Cos => match spec_float_fn(v, FloatFn::Cos) {
                        Ok(r) => Ok((m, locals, rest.push(r))),
                        Err(k) => Err(k),
                    },
                    InstrV::Sqrt => match spec_float_fn(v, FloatFn::Sqrt) {
                        Ok(r) => Ok((m, locals, rest.push(r))),
                        Err(k) => Err(k),
                    },
                    _ => Ok(
                        (
                            MachV { transcript: m.transcript.push(spec_value_text(v)), ..m },
                            locals,
                            rest,
                        ),
                    ),
                }
            }
        },
        InstrV::Or | InstrV::And | InstrV::Equal | InstrV::NotEqual | InstrV::Greater
            | InstrV::Less | InstrV::GreaterEqual | InstrV::LessEqual | InstrV::Plus
            | InstrV::Minus | InstrV::Multiply | InstrV::Divide | InstrV::Mod => {
            if stack.len() < 2 {
                Err(ErrorKind::StackUnderflow)
            } else {
                let a = stack.last();
                let b = stack.drop_last().last();
                let rest = stack.drop_last().drop_last();
                let rr = (match i {
                    InstrV::Or => spec_logic(a, b, false),
                    InstrV::And => spec_logic(a, b, true),
                    InstrV::Equal => Ok(ValV::Boolean(spec_eq_val(a, b))),
                    InstrV::NotEqual => Ok(ValV::Boolean(!spec_eq_val(a, b))),
                    InstrV::Greater => spec_order(a, b, OrderOp::Greater),
                    InstrV::Less => spec_order(a, b, OrderOp::Less),
                    InstrV::GreaterEqual => spec_order(a, b, OrderOp::GreaterEqual),
                    InstrV::LessEqual => spec_order(a, b, OrderOp::LessEqual),
                    InstrV::Plus => spec_plus(a, b),
                    InstrV::Minus => spec_minus(a, b),
                    InstrV::Multiply => spec_multiply(a, b),
                    InstrV::Divide => spec_divide(a, b),
                    _ => spec_modulo(a, b),
                });
                match rr {
                    Ok(r) => Ok((m, locals, rest.push(r))),
                    Err(k) => Err(k),
                }
            }
        },
        InstrV::ForSetup(name, has_step) => {
            let need: int = if has_step { 3 } else { 2 };
            if stack.len() < need {
                Err(ErrorKind::StackUnderflow)
            } else {
                let start = stack.last();
                let endv = stack.drop_last().last();
                let stepv = if has_step {
                    Some(stack.drop_last().drop_last().last())
                } else {
                    None
                };
                let rest = if has_step {
                    stack.drop_last().drop_last().drop_last()
                } else {
                    stack.drop_last().drop_last()
                };
                match spec_for_setup(start, endv, stepv) {
                    Ok((v0, e0, k0)) => Ok(
                        (
                            m,
                            locals.insert(name, (v0, false)).insert(
                                spec_hid_end(name),
                                (e0, false),
                            ).insert(spec_hid_step(name), (k0, false)),
                            rest,
                        ),
                    ),
                    Err(k) => Err(k),
                }
            }
        },
        _ => Err(ErrorKind::InvalidExpression),
    }
}

/// Warnings from a redundant cast go to the transcript.
pub open spec fn cast_warned(m: MachV, w: Option<WarningKind>) -> MachV {
    match w {
        Some(k) => MachV { transcript: m.transcript + warning_lines(k), ..m },
        None => m,
    }
}

/// Whether an instruction is handled by `step_data`.
pub open spec fn is_data_instr(i: InstrV) -> bool {
    !(i is Jump || i is JumpIfFalse || i is Call || i is Exit || i is ForTest)
}

/// Runs one tape to its end. Every step burns one unit of the budget;
/// a call gives the callee the rest of the budget less one, and the
/// caller continues with what the call started with, less one.
pub open spec fn run_tape(
    procs: Map<Seq<char>, ProcV>,
    tape: Seq<NodeV>,
    m: MachV,
    locals: Map<Seq<char>, (ValV, bool)>,
    stack: Seq<ValV>,
    ip: int,
    fuel: nat,
) -> StepOut
    decreases fuel,
{
    if fuel == 0 {
        StepOut::OutOfFuel { m }
    } else if ip < 0 || ip >= tape.len() {
        StepOut::Done { m }
    } else {
        let nd = tape[ip];
        let line = nd.line_number;
        if is_data_instr(nd.instruction) {
            match step_data(nd.instruction, m, locals, stack) {
                Ok((m2, l2, s2)) => run_tape(procs, tape, m2, l2, s2, ip + 1, (fuel - 1) as nat),
                Err(k) => StepOut::Failed { m, line, kind: k },
            }
        } else {
            match nd.instruction {
                InstrV::Jump(t) => run_tape(procs, tape, m, locals, stack, t as int, (fuel - 1) as nat),
                InstrV::JumpIfFalse(t) => {
                    if stack.len() == 0 {
                        StepOut::Failed { m, line, kind: ErrorKind::StackUnderflow }
                    } else {
                        match stack.last() {
                            ValV::Boolean(b) => run_tape(
                                procs,
                                tape,
                                m,
                                locals,
                                stack.drop_last(),
                                if b {
                                    ip + 1
                                } else {
                                    t as int
                                },
                                (fuel - 1) as nat,
                            ),
                            _ => StepOut::Failed {
                                m,
                                line,
                                kind: ErrorKind::InvalidExpression,
                            },
                        }
                    }
                },
                InstrV::Exit(code) => StepOut::Exited { m, code },
                InstrV::ForTest(name, t) => {
                    if locals.contains_key(name) && locals.contains_key(spec_hid_end(name))
                        && locals.contains_key(spec_hid_step(name)) {
                        match spec_for_test(
                            locals[name].0,
                            locals[spec_hid_end(name)].0,
                            locals[spec_hid_step(name)].0,
                        ) {
                            Ok(cont) => run_tape(
                                procs,
                                tape,
                                m,
                                locals,
                                stack,
                                if cont {
                                    ip + 1
                                } else {
                                    t as int
                                },
                                (fuel - 1) as nat,
                            ),
                            Err(k) => StepOut::Failed { m, line, kind: k },
                        }
                    } else {
                        StepOut::Failed { m, line, kind: ErrorKind::UnknownIdent }
                    }
                },
                InstrV::Call(name, argc) => {
                    if !procs.contains_key(name) {
                        StepOut::Failed { m, line, kind: ErrorKind::UnknownProc }
                    } else if procs[name].args.len() != argc {
                        StepOut::Failed { m, line, kind: ErrorKind::ArityMismatch }
                    } else if stack.len() < argc {
                        StepOut::Failed { m, line, kind: ErrorKind::StackUnderflow }
                    } else {
                        let callee = procs[name];
                        let l2 = bind_args(callee.args, stack);
                        match run_tape(
                            procs,
                            callee.body,
                            m,
                            l2,
                            Seq::empty(),
                            0,
                            (fuel - 1) as nat,
                        ) {
                            StepOut::Done { m: m2 } => run_tape(
                                procs,
                                tape,
                                m2,
                                locals,
                                stack.subrange(0, stack.len() - argc),
                                ip + 1,
                                (fuel - 1) as nat,
                            ),
                            other => other,
                        }
                    }
                },
                _ => StepOut::Failed { m, line, kind: ErrorKind::InvalidExpression },
            }
        }
    }
}

/// The constant frame a program starts from: the built-in
/// mathematical constants.
pub open spec fn seed_consts() -> Map<Seq<char>, (ValV, bool)> {
    Map::empty().insert("PI"@, (ValV::Float(F_PI), true)).insert(
        "TAU"@,
        (ValV::Float(F_TAU), true),
    ).insert("E"@, (ValV::Float(F_E), true)).insert("SQRT_2"@, (ValV::Float(F_SQRT_2), true))
}

/// A whole program run: the constant initializer against the seeded
/// constant frame, then `main` with a fresh frame, both under one
/// step budget.
pub open spec fn run_program(
    procs: Map<Seq<char>, ProcV>,
    const_tape: Seq<NodeV>,
    inputs: Seq<Seq<char>>,
    fuel: nat,
) -> StepOut {
    let m0 = MachV { consts: seed_consts(), transcript: Seq::empty(), inputs };
    match run_tape(procs, const_tape, m0, Map::empty(), Seq::empty(), 0, fuel) {
        StepOut::Done { m } => {
            if !procs.contains_key("main"@) {
                StepOut::Failed { m, line: 0, kind: ErrorKind::NoMainProc }
            } else {
                match run_tape(
                    procs,
                    procs["main"@].body,
                    m,
                    Map::empty(),
                    Seq::empty(),
                    0,
                    fuel,
                ) {
                    StepOut::Done { m: m2 } => StepOut::Exited { m: m2, code: 0 },
                    other => other,
                }
            }
        },
        other => other,
    }
}


// ---------------------------------------------------------------------
// The machine itself, proved to compute exactly the run above.

/// The shadows of a vector of lines.
pub open spec fn strs_dv(s: Seq<String>) -> Seq<Seq<char>> {
    Seq::new(s.len(), |i: int| s[i]@)
}

/// The shadows of an operand stack.
pub open spec fn stack_dv(s: Seq<Types>) -> Seq<ValV> {
    Seq::new(s.len(), |i: int| s[i]@)
}

proof fn lemma_stack_dv_push(s: Seq<Types>, v: Types)
    ensures
        stack_dv(s.push(v)) == stack_dv(s).push(v@),
{
    assert(stack_dv(s.push(v)) =~= stack_dv(s).push(v@));
}

proof fn lemma_stack_dv_drop(s: Seq<Types>)
    requires
        s.len() > 0,
    ensures
        stack_dv(s.drop_last()) == stack_dv(s).drop_last(),
        stack_dv(s).last() == s.last()@,
{
    assert(stack_dv(s.drop_last()) =~= stack_dv(s).drop_last());
}

proof fn lemma_strs_dv_push(s: Seq<String>, v: String)
    ensures
        strs_dv(s.push(v)) == strs_dv(s).push(v@),
{
    assert(strs_dv(s.push(v)) =~= strs_dv(s).push(v@));
}

/// The shared machine state.
pub struct Mach {
    pub consts: Scope,
    pub transcript: Vec<String>,
    pub inputs: Vec<String>,
}

impl View for Mach {
    type V = MachV;

    open spec fn view(&self) -> MachV {
        MachV {
            consts: self.consts@,
            transcript: strs_dv(self.transcript@),
            inputs: strs_dv(self.inputs@),
        }
    }
}

impl Mach {
    pub open spec fn wf(&self) -> bool {
        self.consts.wf()
    }

    /// A fresh machine: the seeded constant frame, an empty
    /// transcript, the given input lines.
    pub fn new(inputs: Vec<String>) -> (r: Mach)
        ensures
            r.wf(),
            r@.consts == seed_consts(),
            r@.transcript == Seq::<Seq<char>>::empty(),
            r@.inputs == strs_dv(inputs@),
    {
        let mut consts = Scope::new();
        consts.declare("PI".to_owned(), Types::Float(F_PI), true);
        consts.declare("TAU".to_owned(), Types::Float(F_TAU), true);
        consts.declare("E".to_owned(), Types::Float(F_E), true);
        consts.declare("SQRT_2".to_owned(), Types::Float(F_SQRT_2), true);
        let r = Mach { consts, transcript: Vec::new(), inputs };
        proof {
            assert(r@.transcript =~= Seq::<Seq<char>>::empty());
        }
        r
    }
}

/// Appends the two lines of a warning to the transcript.
fn push_warning(transcript: &mut Vec<String>, k: WarningKind)
    ensures
        strs_dv(final(transcript)@) == strs_dv(old(transcript)@) + warning_lines(k),
{
    let ghost pre = transcript@;
    let first = "Warning ".to_owned().concat(k.code_text().as_str());
    let second = "For details, visit: https://cylium.site/materials/errors".to_owned();
    proof {
        lemma_strs_dv_push(pre, first);
    }
    let ghost mid = pre.push(first);
    transcript.push(first);
    proof {
        lemma_strs_dv_push(mid, second);
        assert(strs_dv(pre).push(("Warning "@ + spec_warning_text(k))).push(second@)
            =~= strs_dv(pre) + warning_lines(k));
    }
    transcript.push(second);
}

fn exec_for_setup(start: &Types, endv: &Types, stepv: &Option<Types>) -> (r: Result<
    (Types, Types, Types),
    ErrorKind,
>)
    ensures
        (match r {
            Ok(t) => spec_for_setup(start@, endv@, spec_opt_v(*stepv)) == Ok::<
                (ValV, ValV, ValV),
                ErrorKind,
            >((t.0@, t.1@, t.2@)),
            Err(k) => spec_for_setup(start@, endv@, spec_opt_v(*stepv)) == Err::<
                (ValV, ValV, ValV),
                ErrorKind,
            >(k),
        }),
{
    match (start, endv) {
        (Types::Number(a), Types::Number(b)) => match stepv {
            Option::None => Ok(
                (
                    Types::Number(*a),
                    Types::Number(*b),
                    Types::Number(if *a > *b { -1 } else { 1 }),
                ),
            ),
            Option::Some(Types::Number(k)) => {
                if *k == 0 {
                    Err(ErrorKind::ForStepInvalid)
                } else {
                    Ok((Types::Number(*a), Types::Number(*b), Types::Number(*k)))
                }
            },
            Option::Some(_) => Err(ErrorKind::ForDirectionInvalid),
        },
        (Types::Float(a), Types::Float(b)) => match stepv {
            Option::None => Ok(
                (
                    Types::Float(*a),
                    Types::Float(*b),
                    Types::Float(
                        if apf_lt(*b, *a) {
                            F_ONE ^ 0x8000_0000_0000_0000
                        } else {
                            F_ONE
                        },
                    ),
                ),
            ),
            Option::Some(Types::Float(k)) => {
                if apf_eq(*k, F_ZERO) {
                    Err(ErrorKind::ForStepInvalid)
                } else {
                    Ok((Types::Float(*a), Types::Float(*b), Types::Float(*k)))
                }
            },
            Option::Some(_) => Err(ErrorKind::ForDirectionInvalid),
        },
        _ => Err(ErrorKind::ForDirectionInvalid),
    }
}

/// The shadow of an optional value.
pub open spec fn spec_opt_v(o: Option<Types>) -> Option<ValV> {
    match o {
        Some(v) => Some(v@),
        None => None,
    }
}

fn exec_for_test(v: &Types, e: &Types, k: &Types) -> (r: Result<bool, ErrorKind>)
    ensures
        r == spec_for_test(v@, e@, k@),
{
    match (v, e, k) {
        (Types::Number(a), Types::Number(b), Types::Number(s)) => Ok(
            if *s < 0 {
                *a > *b
            } else {
                *a < *b
            },
        ),
        (Types::Float(a), Types::Float(b), Types::Float(s)) => Ok(
            if f64_is_sign_neg(*s) {
                apf_lt(*b, *a)
            } else {
                apf_lt(*a, *b)
            },
        ),
        _ => Err(ErrorKind::ForDirectionInvalid),
    }
}

/// One data instruction against the live state; on an error the
/// shared state is left as it was.
#[verifier::rlimit(100)]
#[verifier::spinoff_prover]
fn exec_data(
    instr: &Instruction,
    mach: &mut Mach,
    locals: &mut Scope,
    stack: &mut Vec<Types>,
) -> (r: Result<(), ErrorKind>)
    requires
        old(mach).wf(),
        old(locals).wf(),
        is_data_instr(instr@),
    ensures
        final(mach).wf(),
        final(locals).wf(),
        (match step_data(instr@, old(mach)@, old(locals)@, stack_dv(old(stack)@)) {
            Ok(t) => r is Ok && final(mach)@ == t.0 && final(locals)@ == t.1
                && stack_dv(final(stack)@) == t.2,
            Err(k) => r == Err::<(), ErrorKind>(k) && final(mach)@ == old(mach)@
                && final(locals)@ == old(locals)@,
        }),
{
    let ghost s0 = stack_dv(stack@);
    match instr {
        Instruction::Push(v) => {
            proof {
                lemma_stack_dv_push(stack@, *v);
            }
            stack.push(v.duplicate());
            proof {
                assert(stack_dv(stack@) =~= s0.push(v@));
            }
            Ok(())
        },
        Instruction::Load(name) => {
            if str_eq(name.as_str(), "input") {
                if mach.inputs.len() > 0 {
                    let ghost ins0 = mach.inputs@;
                    let line = mach.inputs.remove(0);
                    let trimmed = trim_str(line.as_str());
                    proof {
                        lemma_stack_dv_push(stack@, Types::String(trimmed));
                        assert(strs_dv(ins0.remove(0)) =~= strs_dv(ins0).drop_first());
                    }
                    stack.push(Types::String(trimmed));
                    Ok(())
                } else {
                    push_warning(&mut mach.transcript, WarningKind::InputReadFailure);
                    let empty = String::new();
                    proof {
                        lemma_stack_dv_push(stack@, Types::String(empty));
                    }
                    stack.push(Types::String(empty));
                    Ok(())
                }
            } else {
                let found = match locals.get(&mach.consts, name.as_str()) {
                    Some(slot) => Some(slot.0.duplicate()),
                    None => None,
                };
                match found {
                    Some(v) => {
                        proof {
                            lemma_stack_dv_push(stack@, v);
                        }
                        stack.push(v);
                        Ok(())
                    },
                    None => Err(ErrorKind::UnknownIdent),
                }
            }
        },
        Instruction::StoreLocal(name) => {
            let ghost sp = stack@;
            match stack.pop() {
                Some(v) => {
                    proof {
                        lemma_stack_dv_drop(sp);
                    }
                    locals.declare(name.clone(), v, false);
                    Ok(())
                },
                None => Err(ErrorKind::StackUnderflow),
            }
        },
        Instruction::StoreConst(name) => {
            if mach.consts.exist(name.as_str()) {
                Err(ErrorKind::ConstReassign)
            } else {
                let ghost sp = stack@;
                match stack.pop() {
                    Some(v) => {
                        proof {
                            lemma_stack_dv_drop(sp);
                        }
                        mach.consts.declare(name.clone(), v, true);
                        Ok(())
                    },
                    None => Err(ErrorKind::StackUnderflow),
                }
            }
        },
        Instruction::Delete(name) => {
            if mach.consts.exist(name.as_str()) {
                Err(ErrorKind::ConstDelete)
            } else if !locals.exist(name.as_str()) {
                Err(ErrorKind::UnknownIdent)
            } else {
                locals.remove(name.as_str());
                Ok(())
            }
        },
        Instruction::ForSetup(name, has_step) => {
            let need: usize = if *has_step { 3 } else { 2 };
            if stack.len() < need {
                Err(ErrorKind::StackUnderflow)
            } else {
                let ghost sp1 = stack@;
                let start = stack.pop().unwrap();
                proof {
                    lemma_stack_dv_drop(sp1);
                }
                let ghost sp2 = stack@;
                let endv = stack.pop().unwrap();
                proof {
                    lemma_stack_dv_drop(sp2);
                }
                let stepv = if *has_step {
                    let ghost sp3 = stack@;
                    let sv = stack.pop().unwrap();
                    proof {
                        lemma_stack_dv_drop(sp3);
                    }
                    Some(sv)
                } else {
                    None
                };
                match exec_for_setup(&start, &endv, &stepv) {
                    Ok(t) => {
                        locals.declare(name.clone(), t.0, false);
                        locals.declare(crate::bytecode::hid_end_name(name), t.1, false);
                        locals.declare(crate::bytecode::hid_step_name(name), t.2, false);
                        Ok(())
                    },
                    Err(k) => Err(k),
                }
            }
        },
        Instruction::Echo => {
            let ghost sp = stack@;
            match stack.pop() {
            Some(v) => {
                proof {
                    lemma_stack_dv_drop(sp);
                }
                let ghost t0 = mach.transcript@;
                let text = v.to_text();
                proof {
                    lemma_strs_dv_push(t0, text);
                }
                mach.transcript.push(text);
                Ok(())
            },
            None => Err(ErrorKind::StackUnderflow),
            }
        },
        Instruction::Neg | Instruction::Not | Instruction::CastToString
            | Instruction::CastToNumber | Instruction::CastToFloat | Instruction::CastToBoolean
            | Instruction::Sin | Instruction::Cos | Instruction::Sqrt => {
            let ghost sp = stack@;
            match stack.pop() {
                Some(v) => {
                    proof {
                        lemma_stack_dv_drop(sp);
                    }
                    let rr: Result<Types, ErrorKind> = match instr {
                        Instruction::Neg => v.negate(),
                        Instruction::Not => v.logic_not(),
                        Instruction::Sin => v.float_fn(FloatFn::Sin),
                        Instruction::Cos => v.float_fn(FloatFn::Cos),
                        Instruction::Sqrt => v.float_fn(FloatFn::Sqrt),
                        Instruction::CastToString => {
                            let (nv, w) = v.cast_string();
                            if let Some(wk) = w {
                                push_warning(&mut mach.transcript, wk);
                            }
                            Ok(nv)
                        },
                        Instruction::CastToNumber => match v.cast_number() {
                            Ok((nv, w)) => {
                                if let Some(wk) = w {
                                    push_warning(&mut mach.transcript, wk);
                                }
                                Ok(nv)
                            },
                            Err(k) => Err(k),
                        },
                        Instruction::CastToFloat => match v.cast_float() {
                            Ok((nv, w)) => {
                                if let Some(wk) = w {
                                    push_warning(&mut mach.transcript, wk);
                                }
                                Ok(nv)
                            },
                            Err(k) => Err(k),
                        },
                        _ => match v.cast_boolean() {
                            Ok((nv, w)) => {
                                if let Some(wk) = w {
                                    push_warning(&mut mach.transcript, wk);
                                }
                                Ok(nv)
                            },
                            Err(k) => Err(k),
                        },
                    };
                    match rr {
                        Ok(nv) => {
                            proof {
                                lemma_stack_dv_push(stack@, nv);
                            }
                            stack.push(nv);
                            Ok(())
                        },
                        Err(k) => Err(k),
                    }
                },
                None => Err(ErrorKind::StackUnderflow),
            }
        },
        Instruction::Or | Instruction::And | Instruction::Equal | Instruction::NotEqual
            | Instruction::Greater | Instruction::Less | Instruction::GreaterEqual
            | Instruction::LessEqual | Instruction::Plus | Instruction::Minus
            | Instruction::Multiply | Instruction::Divide | Instruction::Mod => {
            if stack.len() < 2 {
                Err(ErrorKind::StackUnderflow)
            } else {
                let ghost sp1 = stack@;
                let a = stack.pop().unwrap();
                proof {
                    lemma_stack_dv_drop(sp1);
                }
                let ghost sp2 = stack@;
                let b = stack.pop().unwrap();
                proof {
                    lemma_stack_dv_drop(sp2);
                }
                let rr: Result<Types, ErrorKind> = match instr {
                    Instruction::Or => a.logic(&b, false),
                    Instruction::And => a.logic(&b, true),
                    Instruction::Equal => Ok(Types::Boolean(a.value_eq(&b))),
                    Instruction::NotEqual => Ok(Types::Boolean(!a.value_eq(&b))),
                    Instruction::Greater => a.order(&b, OrderOp::Greater),
                    Instruction::Less => a.order(&b, OrderOp::Less),
                    Instruction::GreaterEqual => a.order(&b, OrderOp::GreaterEqual),
                    Instruction::LessEqual => a.order(&b, OrderOp::LessEqual),
                    Instruction::Plus => a.add(&b),
                    Instruction::Minus => a.sub(&b),
                    Instruction::Multiply => a.mul(&b),
                    Instruction::Divide => a.div(&b),
                    _ => a.rem(&b),
                };
                match rr {
                    Ok(nv) => {
                        proof {
                            lemma_stack_dv_push(stack@, nv);
                        }
                        stack.push(nv);
                        Ok(())
                    },
                    Err(k) => Err(k),
                }
            }
        },
        _ => Err(ErrorKind::InvalidExpression),
    }
}


/// How one run ends, for callers outside the machine.
#[derive(Clone, Copy, PartialEq, Eq, Structural, Debug)]
pub enum RunOutcome {
    Exited(i32),
    Failed(Diag),
    OutOfFuel,
}

enum TapeOut {
    Done,
    Exited(i32),
    Failed(Diag),
    OutOfFuel,
}

/// Runs one tape against the machine, with its own frame and stack.
#[verifier::rlimit(100)]
fn exec_tape(
    procs: &NamedMap<Proc>,
    tape: &Vec<Node>,
    mach: &mut Mach,
    locals: &mut Scope,
    stack: &mut Vec<Types>,
    fuel: u64,
) -> (r: TapeOut)
    requires
        old(mach).wf(),
        old(locals).wf(),
        procs.wf(),
    ensures
        final(mach).wf(),
        (match run_tape(
            procs@,
            tape_dv(tape@),
            old(mach)@,
            old(locals)@,
            stack_dv(old(stack)@),
            0,
            fuel as nat,
        ) {
            StepOut::Done { m } => r is Done && final(mach)@ == m,
            StepOut::Exited { m, code } => r == TapeOut::Exited(code) && final(mach)@ == m,
            StepOut::Failed { m, line, kind } => r == TapeOut::Failed(Diag { line, kind })
                && final(mach)@ == m,
            StepOut::OutOfFuel { m } => r is OutOfFuel && final(mach)@ == m,
        }),
    decreases fuel,
{
    let ghost tdv = tape_dv(tape@);
    let mut ip: usize = 0;
    let mut f: u64 = fuel;
    loop
        invariant
            mach.wf(),
            locals.wf(),
            procs.wf(),
            f <= fuel,
            tdv == tape_dv(tape@),
            run_tape(
                procs@,
                tdv,
                old(mach)@,
                old(locals)@,
                stack_dv(old(stack)@),
                0,
                fuel as nat,
            ) == run_tape(
                procs@,
                tdv,
                mach@,
                locals@,
                stack_dv(stack@),
                ip as int,
                f as nat,
            ),
        decreases f,
    {
        if f == 0 {
            return TapeOut::OutOfFuel;
        }
        if ip >= tape.len() {
            return TapeOut::Done;
        }
        let nd = &tape[ip];
        let line = nd.line_number;
        proof {
            assert(tdv[ip as int] == tape@[ip as int]@);
        }
        let ghost fpre = f;
        f = f - 1;
        match &nd.instruction {
            Instruction::Jump(t) => {
                ip = *t;
            },
            Instruction::JumpIfFalse(t) => {
                let ghost sp = stack@;
                match stack.pop() {
                    Some(v) => {
                        proof {
                            lemma_stack_dv_drop(sp);
                        }
                        match v {
                            Types::Boolean(b) => {
                                if b {
                                    ip = ip + 1;
                                } else {
                                    ip = *t;
                                }
                            },
                            _ => {
                                return TapeOut::Failed(
                                    Diag { line, kind: ErrorKind::InvalidExpression },
                                );
                            },
                        }
                    },
                    None => {
                        return TapeOut::Failed(Diag { line, kind: ErrorKind::StackUnderflow });
                    },
                }
            },
            Instruction::Exit(code) => {
                return TapeOut::Exited(*code);
            },
            Instruction::ForTest(name, t) => {
                let hid_e = crate::bytecode::hid_end_name(name);
                let hid_k = crate::bytecode::hid_step_name(name);
                let cont_or: Option<Result<bool, ErrorKind>> = match (
                    locals.get_local(name.as_str()),
                    locals.get_local(hid_e.as_str()),
                    locals.get_local(hid_k.as_str()),
                ) {
                    (Some(v), Some(e), Some(k)) => Some(exec_for_test(&v.0, &e.0, &k.0)),
                    _ => None,
                };
                match cont_or {
                    Some(Ok(cont)) => {
                        if cont {
                            ip = ip + 1;
                        } else {
                            ip = *t;
                        }
                    },
                    Some(Err(k)) => {
                        return TapeOut::Failed(Diag { line, kind: k });
                    },
                    None => {
                        return TapeOut::Failed(Diag { line, kind: ErrorKind::UnknownIdent });
                    },
                }
            },
            Instruction::Call(name, argc) => {
                let found = procs.lookup(name.as_str());
                match found {
                    None => {
                        return TapeOut::Failed(Diag { line, kind: ErrorKind::UnknownProc });
                    },
                    Some(p) => {
                        if p.args.len() != *argc {
                            return TapeOut::Failed(Diag { line, kind: ErrorKind::ArityMismatch });
                        }
                        if stack.len() < *argc {
                            return TapeOut::Failed(
                                Diag { line, kind: ErrorKind::StackUnderflow },
                            );
                        }
                        let mut callee_locals = Scope::new();
                        let mut j: usize = 0;
                        proof {
                            assert(args_view_of(p@.args, 0) =~= p@.args.subrange(0, 0));
                            assert(callee_locals@ =~= bind_args(
                                p@.args.subrange(0, 0),
                                stack_dv(stack@),
                            ));
                        }
                        while j < *argc
                            invariant
                                j <= p@.args.len(),
                                p@.args.len() == *argc <= stack@.len(),
                                p@.args == procs@[name@].args,
                                callee_locals.wf(),
                                callee_locals@ == bind_args(
                                    p@.args.subrange(0, j as int),
                                    stack_dv(stack@),
                                ),
                            decreases *argc - j,
                        {
                            let idx = stack.len() - 1 - j;
                            callee_locals.declare(
                                p.args[j].0.clone(),
                                stack[idx].duplicate(),
                                false,
                            );
                            j = j + 1;
                            proof {
                                let pa = p@.args.subrange(0, j as int);
                                assert(pa.drop_last() =~= p@.args.subrange(0, j - 1));
                                assert(pa.last() == p@.args[j - 1]);
                                assert(stack_dv(stack@)[stack@.len() - j] == stack@[
                                    stack@.len() - j
                                ]@);
                            }
                        }
                        proof {
                            assert(p@.args.subrange(0, p@.args.len() as int) =~= p@.args);
                        }
                        let mut callee_stack: Vec<Types> = Vec::new();
                        let ghost mcall = mach@;
                        let ghost lcur = locals@;
                        let ghost scall = stack_dv(stack@);
                        proof {
                            assert(stack_dv(callee_stack@) =~= Seq::<ValV>::empty());
                            assert(scall.len() == stack@.len());
                            assert(tdv[ip as int].instruction == InstrV::Call(name@, *argc));
                            assert(run_tape(
                                procs@,
                                tdv,
                                old(mach)@,
                                old(locals)@,
                                stack_dv(old(stack)@),
                                0,
                                fuel as nat,
                            ) == (match run_tape(
                                procs@,
                                procs@[name@].body,
                                mcall,
                                bind_args(procs@[name@].args, scall),
                                Seq::empty(),
                                0,
                                f as nat,
                            ) {
                                StepOut::Done { m: m2 } => run_tape(
                                    procs@,
                                    tdv,
                                    m2,
                                    lcur,
                                    scall.subrange(0, scall.len() - (*argc) as int),
                                    ip + 1,
                                    f as nat,
                                ),
                                other => other,
                            }));
                        }
                        let sub = exec_tape(
                            procs,
                            &p.body,
                            mach,
                            &mut callee_locals,
                            &mut callee_stack,
                            f,
                        );
                        match sub {
                            TapeOut::Done => {
                                let ghost spre = stack@;
                                stack.truncate(stack.len() - *argc);
                                proof {
                                    assert(stack_dv(stack@) =~= stack_dv(spre).subrange(
                                        0,
                                        spre.len() - (*argc) as int,
                                    ));
                                }
                                ip = ip + 1;
                            },
                            TapeOut::Exited(c) => {
                                return TapeOut::Exited(c);
                            },
                            TapeOut::Failed(d) => {
                                return TapeOut::Failed(d);
                            },
                            TapeOut::OutOfFuel => {
                                return TapeOut::OutOfFuel;
                            },
                        }
                    },
                }
            },
            _ => {
                proof {
                    assert(is_data_instr(tdv[ip as int].instruction));
                }
                match exec_data(&nd.instruction, mach, locals, stack) {
                    Ok(_) => {
                        ip = ip + 1;
                    },
                    Err(k) => {
                        return TapeOut::Failed(Diag { line, kind: k });
                    },
                }
            },
        }
    }
}

/// A helper name for a prefix of the formals, used in the binding
/// loop above.
pub open spec fn args_view_of(
    args: Seq<(Seq<char>, crate::errors::TypesCheck)>,
    j: int,
) -> Seq<(Seq<char>, crate::errors::TypesCheck)> {
    args.subrange(0, j)
}

/// A compiled program, ready to run.
pub struct Interpreter {
    pub procs: NamedMap<Proc>,
    pub const_code: Vec<Node>,
}

impl Interpreter {
    pub open spec fn wf(&self) -> bool {
        self.procs.wf()
    }

    pub fn new(procs: NamedMap<Proc>, const_code: Vec<Node>) -> (r: Interpreter)
        requires
            procs.wf(),
        ensures
            r.wf(),
            r.procs@ == procs@,
            tape_dv(r.const_code@) == tape_dv(const_code@),
    {
        Interpreter { procs, const_code }
    }

    /// Runs the program: the constant initializer, then `main`. The
    /// transcript is every stdout line in order; the outcome is the
    /// exit code or the first fatal diagnostic.
    pub fn run(&self, inputs: Vec<String>, fuel: u64) -> (r: (Vec<String>, RunOutcome))
        requires
            self.wf(),
        ensures
            (match run_program(
                self.procs@,
                tape_dv(self.const_code@),
                strs_dv(inputs@),
                fuel as nat,
            ) {
                StepOut::Exited { m, code } => r.1 == RunOutcome::Exited(code) && strs_dv(r.0@)
                    == m.transcript,
                StepOut::Failed { m, line, kind } => r.1 == RunOutcome::Failed(
                    Diag { line, kind },
                ) && strs_dv(r.0@) == m.transcript,
                StepOut::OutOfFuel { m } => r.1 == RunOutcome::OutOfFuel && strs_dv(r.0@)
                    == m.transcript,
                StepOut::Done { .. } => false,
            }),
    {
        let mut mach = Mach::new(inputs);
        proof {
            assert(mach@ =~= MachV {
                consts: seed_consts(),
                transcript: Seq::<Seq<char>>::empty(),
                inputs: strs_dv(inputs@),
            });
        }
        let mut init_locals = Scope::new();
        let mut init_stack: Vec<Types> = Vec::new();
        proof {
            assert(stack_dv(init_stack@) =~= Seq::<ValV>::empty());
        }
        let out = exec_tape(
            &self.procs,
            &self.const_code,
            &mut mach,
            &mut init_locals,
            &mut init_stack,
            fuel,
        );
        match out {
            TapeOut::Done => {},
            TapeOut::Exited(c) => {
                return (mach.transcript, RunOutcome::Exited(c));
            },
            TapeOut::Failed(d) => {
                return (mach.transcript, RunOutcome::Failed(d));
            },
            TapeOut::OutOfFuel => {
                return (mach.transcript, RunOutcome::OutOfFuel);
            },
        }
        let main_proc = self.procs.lookup("main");
        match main_proc {
            None => {
                return (
                    mach.transcript,
                    RunOutcome::Failed(Diag { line: 0, kind: ErrorKind::NoMainProc }),
                );
            },
            Some(p) => {
                let mut main_locals = Scope::new();
                let mut main_stack: Vec<Types> = Vec::new();
                proof {
                    assert(stack_dv(main_stack@) =~= Seq::<ValV>::empty());
                }
                let out2 = exec_tape(
                    &self.procs,
                    &p.body,
                    &mut mach,
                    &mut main_locals,
                    &mut main_stack,
                    fuel,
                );
                match out2 {
                    TapeOut::Done => (mach.transcript, RunOutcome::Exited(0)),
                    TapeOut::Exited(c) => (mach.transcript, RunOutcome::Exited(c)),
                    TapeOut::Failed(d) => (mach.transcript, RunOutcome::Failed(d)),
                    TapeOut::OutOfFuel => (mach.transcript, RunOutcome::OutOfFuel),
                }
            },
        }
    }
}

} // verus!
