use vstd::prelude::*;
use crate::chunk::{ChunkView, OpCode, slot_of};
use crate::display::display;
use crate::fault::{Fault, FaultKind};
use crate::frame::FrameView;
use crate::heap::ArrayView;
use crate::instance::Instance;
use crate::operators::{BinaryOp, arith_spec, compare_spec, equate_spec, negate_spec, logic_negate_spec};
use crate::register::{VariableView, read_spec, write_spec, truncate_spec};
use crate::string_pool::intern_spec;
use crate::types::{TypeView, type_is};
use crate::vm::{
    InstructionResult, below, from_top, index_get_spec, index_set_spec, inferred_type, concat_spec,
    empty_chunk, argument_slots,
};

verus! {

/// The whole state of a machine, as plain values.
pub struct MachineView {
    pub stack: Seq<Instance>,
    pub registers: Seq<VariableView>,
    pub arrays: Seq<ArrayView>,
    pub strings: Seq<Seq<char>>,
    pub output: Seq<Seq<char>>,
    pub diagnostics: nat,
    pub types: Seq<TypeView>,
    /// The body of each function of the function table.
    pub bodies: Seq<ChunkView>,
    /// The parameter types of each function of the function table.
    pub params: Seq<Seq<TypeView>>,
}

/// What an instruction asks of the dispatch loop, as plain values.
pub enum FlowView {
    Next,
    Jump(usize),
    Call(usize, FrameView),
    Return(Option<Instance>),
}

/// A running activation, as plain values.
pub struct ActView {
    pub function: Option<usize>,
    pub pc: usize,
    pub frame: FrameView,
}

pub open spec fn with_stack(m: MachineView, s: Seq<Instance>) -> MachineView {
    MachineView { stack: s, ..m }
}

/// The chunk an activation runs.
pub open spec fn chunk_at(m: MachineView, top: ChunkView, func: Option<usize>) -> ChunkView {
    match func {
        None => top,
        Some(i) => if i < m.bodies.len() {
            m.bodies[i as int]
        } else {
            empty_chunk()
        },
    }
}

/// The arithmetic operator an instruction applies, if it is one.
pub open spec fn arith_op(op: OpCode) -> Option<BinaryOp> {
    match op {
        OpCode::Add => Some(BinaryOp::Add),
        OpCode::Subtract => Some(BinaryOp::Subtract),
        OpCode::Multiply => Some(BinaryOp::Multiply),
        OpCode::Divide => Some(BinaryOp::Divide),
        OpCode::Power => Some(BinaryOp::Power),
        _ => None,
    }
}

/// Whether an ordering instruction swaps its operands.
pub open spec fn compare_flip(op: OpCode) -> bool {
    op == OpCode::Greater || op == OpCode::GreaterOrEq
}

/// Whether an ordering instruction also holds for equal operands.
pub open spec fn compare_allows_equal(op: OpCode) -> bool {
    op == OpCode::LessOrEq || op == OpCode::GreaterOrEq
}

/// A binary instruction that replaces its two operands by `result`.
pub open spec fn binary_step(m: MachineView, fl: int, frame: FrameView, result: Result<Instance, FaultKind>) -> Result<(MachineView, FrameView, FlowView), FaultKind> {
    if m.stack.len() < fl + 2 {
        Err(FaultKind::StackUnderflow)
    } else {
        match result {
            Ok(v) => Ok((with_stack(m, below(m.stack, 2).push(v)), frame, FlowView::Next)),
            Err(e) => Err(e),
        }
    }
}

/// A unary instruction that replaces its operand by `result`.
pub open spec fn unary_step(m: MachineView, fl: int, frame: FrameView, result: Result<Instance, FaultKind>) -> Result<(MachineView, FrameView, FlowView), FaultKind> {
    if m.stack.len() <= fl {
        Err(FaultKind::StackUnderflow)
    } else {
        match result {
            Ok(v) => Ok((with_stack(m, below(m.stack, 1).push(v)), frame, FlowView::Next)),
            Err(e) => Err(e),
        }
    }
}

/// The register-file size a scope of `amount` slots is cut back to: `amount`
/// below `len`, but never below the frame's window start `access`.
pub open spec fn scope_cut(len: int, amount: int, access: int) -> int {
    if len - amount >= access {
        len - amount
    } else {
        access
    }
}

/// `Call`: the machine after binding the arguments, the callee and its frame.
pub open spec fn call_spec(m: MachineView, fl: int) -> Result<(MachineView, usize, FrameView), FaultKind> {
    let s = m.stack;
    if s.len() <= fl {
        Err(FaultKind::StackUnderflow)
    } else {
        match s.last() {
            Instance::Func(id) => if id >= m.params.len() {
                Err(FaultKind::NotAFunction)
            } else {
                let params = m.params[id as int];
                let n = params.len() as int;
                if s.len() - 1 - fl < n {
                    Err(FaultKind::ArityMismatch)
                } else if m.registers.len() > u16::MAX {
                    Err(FaultKind::Overflow)
                } else {
                    Ok(
                        (
                            MachineView {
                                stack: below(s, n + 1),
                                registers: m.registers + argument_slots(s.subrange(s.len() - 1 - n, s.len() - 1), params),
                                ..m
                            },
                            id,
                            FrameView {
                                access: m.registers.len() as u16,
                                declare: m.registers.len() as u16,
                                stack: (s.len() - 1 - n) as usize,
                                scopes: Seq::empty(),
                            },
                        ),
                    )
                }
            },
            _ => Err(FaultKind::NotAFunction),
        }
    }
}

/// Executing `op` of chunk `c` in `frame`: the machine and frame afterwards
/// and what the dispatch loop does next.
pub open spec fn instruction_spec(m: MachineView, op: OpCode, c: ChunkView, frame: FrameView) -> Result<(MachineView, FrameView, FlowView), FaultKind> {
    let s = m.stack;
    let fl = frame.stack as int;
    let next = |m2: MachineView| Ok::<(MachineView, FrameView, FlowView), FaultKind>((m2, frame, FlowView::Next));
    match op {
        OpCode::GetTrue => next(with_stack(m, s.push(Instance::Bool(true)))),
        OpCode::GetFalse => next(with_stack(m, s.push(Instance::Bool(false)))),
        OpCode::Get(true, idx) => match slot_of(c.consts, idx as int) {
            Some(x) => next(with_stack(m, s.push(x))),
            None => Err(FaultKind::ConstantAbsent),
        },
        OpCode::Get(false, idx) => match read_spec(m.registers, idx + frame.access) {
            Ok(x) => next(with_stack(m, s.push(x))),
            Err(e) => Err(e),
        },
        OpCode::Declare(is_const, t) => if s.len() <= fl {
            Err(FaultKind::StackUnderflow)
        } else if t >= m.types.len() {
            Err(FaultKind::UnknownType)
        } else {
            next(
                MachineView {
                    stack: below(s, 1),
                    registers: m.registers.push(VariableView { is_const, stored: s.last(), ty: m.types[t as int] }),
                    ..m
                },
            )
        },
        OpCode::Store(idx) => if s.len() <= fl {
            Err(FaultKind::StackUnderflow)
        } else {
            match write_spec(m.registers, idx + frame.access, s.last()) {
                Ok(regs) => next(MachineView { stack: below(s, 1), registers: regs, ..m }),
                Err(e) => Err(e),
            }
        },
        OpCode::Add | OpCode::Subtract | OpCode::Multiply | OpCode::Divide | OpCode::Power => binary_step(
            m,
            fl,
            frame,
            arith_spec(arith_op(op)->0, from_top(s, 1), from_top(s, 0)),
        ),
        OpCode::Less | OpCode::LessOrEq | OpCode::Greater | OpCode::GreaterOrEq => binary_step(
            m,
            fl,
            frame,
            match compare_spec(compare_flip(op), compare_allows_equal(op), from_top(s, 1), from_top(s, 0)) {
                Ok(b) => Ok(Instance::Bool(b)),
                Err(e) => Err(e),
            },
        ),
        OpCode::Eq => binary_step(m, fl, frame, Ok(Instance::Bool(equate_spec(false, from_top(s, 1), from_top(s, 0))))),
        OpCode::NotEq => binary_step(m, fl, frame, Ok(Instance::Bool(equate_spec(true, from_top(s, 1), from_top(s, 0))))),
        OpCode::IntNegate => unary_step(m, fl, frame, negate_spec(s.last())),
        OpCode::LogicNegate => unary_step(m, fl, frame, logic_negate_spec(s.last())),
        OpCode::Is(t) => if s.len() <= fl {
            Err(FaultKind::StackUnderflow)
        } else if t >= m.types.len() {
            Err(FaultKind::UnknownType)
        } else {
            next(with_stack(m, below(s, 1).push(Instance::Bool(type_is(m.types[t as int], s.last())))))
        },
        OpCode::Concat => if s.len() < fl + 2 {
            Err(FaultKind::StackUnderflow)
        } else {
            match concat_spec(m.arrays, m.strings, from_top(s, 1), from_top(s, 0)) {
                Ok(text) => next(
                    MachineView {
                        stack: below(s, 2).push(Instance::Str(intern_spec(m.strings, text).1 as usize)),
                        strings: intern_spec(m.strings, text).0,
                        ..m
                    },
                ),
                Err(e) => Err(e),
            }
        },
        OpCode::Jump(false, label) => match slot_of(c.jumps, label as int) {
            Some(t) => Ok((m, frame, FlowView::Jump(t))),
            None => Err(FaultKind::UnresolvedJump),
        },
        OpCode::Jump(true, label) => if s.len() <= fl {
            Err(FaultKind::StackUnderflow)
        } else {
            match s.last() {
                Instance::Bool(true) => next(with_stack(m, below(s, 1))),
                Instance::Bool(false) => match slot_of(c.jumps, label as int) {
                    Some(t) => Ok((with_stack(m, below(s, 1)), frame, FlowView::Jump(t))),
                    None => Err(FaultKind::UnresolvedJump),
                },
                _ => Err(FaultKind::TypeMismatch),
            }
        },
        OpCode::Call => match call_spec(m, fl) {
            Ok((m2, id, callee)) => Ok((m2, frame, FlowView::Call(id, callee))),
            Err(e) => Err(e),
        },
        OpCode::Return(false) => Ok((m, frame, FlowView::Return(None))),
        OpCode::Return(true) => if s.len() <= fl {
            Err(FaultKind::StackUnderflow)
        } else {
            Ok((with_stack(m, below(s, 1)), frame, FlowView::Return(Some(s.last()))))
        },
        OpCode::InitArray(n) => if s.len() < fl + n {
            Err(FaultKind::StackUnderflow)
        } else {
            let items = s.subrange(s.len() - n, s.len() as int);
            match inferred_type(items) {
                Some(t) => next(
                    MachineView {
                        stack: below(s, n as int).push(Instance::Array(m.arrays.len() as usize)),
                        arrays: m.arrays.push(ArrayView { items, elem: m.types[t] }),
                        ..m
                    },
                ),
                None => Err(FaultKind::UnknownType),
            }
        },
        OpCode::IndexGet => binary_step(m, fl, frame, index_get_spec(m.arrays, m.strings, from_top(s, 1), from_top(s, 0))),
        OpCode::IndexSet => if s.len() < fl + 3 {
            Err(FaultKind::StackUnderflow)
        } else {
            match index_set_spec(m.arrays, from_top(s, 2), from_top(s, 1), from_top(s, 0)) {
                Ok(heap) => next(MachineView { stack: below(s, 3), arrays: heap, ..m }),
                Err(e) => Err(e),
            }
        },
        OpCode::EnterScope(n) => if frame.declare + n <= u16::MAX {
            Ok(
                (
                    m,
                    FrameView { declare: (frame.declare + n) as u16, scopes: frame.scopes.push(n), ..frame },
                    FlowView::Next,
                ),
            )
        } else {
            Err(FaultKind::Overflow)
        },
        OpCode::ExitScope => if frame.scopes.len() == 0 {
            next(MachineView { diagnostics: m.diagnostics + 1, ..m })
        } else {
            let amount = frame.scopes.last();
            Ok(
                (
                    MachineView {
                        registers: truncate_spec(m.registers, scope_cut(m.registers.len() as int, amount as int, frame.access as int)),
                        ..m
                    },
                    FrameView { declare: (frame.declare - amount) as u16, scopes: frame.scopes.drop_last(), ..frame },
                    FlowView::Next,
                ),
            )
        },
        OpCode::Print => if s.len() <= fl {
            Err(FaultKind::StackUnderflow)
        } else {
            next(
                MachineView {
                    stack: below(s, 1),
                    output: m.output.push(display(m.arrays, m.strings, s.last(), m.arrays.len())),
                    ..m
                },
            )
        },
    }
}

/// Closing a scope that was never opened is tolerated: the frame, its
/// declare offset and the register file stay as they were, and only a
/// diagnostic is recorded.
pub proof fn lemma_stray_exit_scope(m: MachineView, c: ChunkView, frame: FrameView)
    requires
        frame.scopes.len() == 0,
    ensures
        instruction_spec(m, OpCode::ExitScope, c, frame) == Ok::<(MachineView, FrameView, FlowView), FaultKind>(
            (MachineView { diagnostics: m.diagnostics + 1, ..m }, frame, FlowView::Next),
        ),
{
}

/// `s` cut to its first `n` values (unchanged if shorter).
pub open spec fn cut_stack(s: Seq<Instance>, n: int) -> Seq<Instance> {
    if n <= s.len() {
        s.subrange(0, n)
    } else {
        s
    }
}

/// The caller's view of a callee that ended in `frame` with `value`: the
/// callee's register slots and stack values are gone, and its value, if
/// any, is pushed.
pub open spec fn returned(m: MachineView, frame: FrameView, value: Option<Instance>) -> MachineView {
    let s = cut_stack(m.stack, frame.stack as int);
    MachineView {
        registers: truncate_spec(m.registers, frame.access as int),
        stack: match value {
            Some(v) => s.push(v),
            None => s,
        },
        ..m
    }
}

/// The register slots below `r0.len()` and the stack values below
/// `s0.len()` are `r0` and `s0`.
pub open spec fn keeps_below(m: MachineView, r0: Seq<VariableView>, s0: Seq<Instance>) -> bool {
    &&& m.registers.len() >= r0.len()
    &&& m.registers.subrange(0, r0.len() as int) == r0
    &&& m.stack.len() >= s0.len()
    &&& m.stack.subrange(0, s0.len() as int) == s0
}

/// A frame whose window starts at or above `base` and whose stack floor is
/// at or above `floor`.
pub open spec fn frame_above(f: FrameView, base: int, floor: int) -> bool {
    f.access >= base && f.stack >= floor
}

proof fn lemma_stack_below(s: Seq<Instance>, k: int, s0: Seq<Instance>, v: Instance)
    requires
        0 <= k,
        s.len() - k >= s0.len(),
        s.subrange(0, s0.len() as int) == s0,
    ensures
        below(s, k).subrange(0, s0.len() as int) == s0,
        below(s, k).push(v).subrange(0, s0.len() as int) == s0,
{
    assert(below(s, k).subrange(0, s0.len() as int) =~= s.subrange(0, s0.len() as int));
    assert(below(s, k).push(v).subrange(0, s0.len() as int) =~= s.subrange(0, s0.len() as int));
}

proof fn lemma_registers_grow(r: Seq<VariableView>, extra: Seq<VariableView>, r0: Seq<VariableView>)
    requires
        r.len() >= r0.len(),
        r.subrange(0, r0.len() as int) == r0,
    ensures
        (r + extra).subrange(0, r0.len() as int) == r0,
{
    assert((r + extra).subrange(0, r0.len() as int) =~= r.subrange(0, r0.len() as int));
}

/// A step of an activation whose frame lies above `r0` and `s0` leaves them
/// in place, keeps the frame's window and floor, and starts any callee above
/// them too.
pub proof fn lemma_step_keeps_below(m: MachineView, op: OpCode, c: ChunkView, frame: FrameView, r0: Seq<VariableView>, s0: Seq<Instance>)
    requires
        keeps_below(m, r0, s0),
        frame_above(frame, r0.len() as int, s0.len() as int),
        m.stack.len() <= usize::MAX,
        instruction_spec(m, op, c, frame) is Ok,
    ensures
        keeps_below(instruction_spec(m, op, c, frame)->Ok_0.0, r0, s0),
        frame_above(instruction_spec(m, op, c, frame)->Ok_0.1, r0.len() as int, s0.len() as int),
        instruction_spec(m, op, c, frame)->Ok_0.1.access == frame.access,
        instruction_spec(m, op, c, frame)->Ok_0.1.stack == frame.stack,
        instruction_spec(m, op, c, frame)->Ok_0.2 is Call ==> frame_above(
            instruction_spec(m, op, c, frame)->Ok_0.2->Call_1,
            r0.len() as int,
            s0.len() as int,
        ),
{
    let s = m.stack;
    let fl = frame.stack as int;
    let (m2, f2, flow) = instruction_spec(m, op, c, frame)->Ok_0;
    let anyv = Instance::Void;
    if s.len() >= fl {
        lemma_stack_below(s, 0, s0, anyv);
        assert(below(s, 0) =~= s);
    }
    if s.len() >= fl + 1 {
        lemma_stack_below(s, 1, s0, anyv);
        lemma_stack_below(s, 1, s0, m2.stack.last());
    }
    if s.len() >= fl + 2 {
        lemma_stack_below(s, 2, s0, m2.stack.last());
    }
    if s.len() >= fl + 3 {
        lemma_stack_below(s, 3, s0, anyv);
    }
    assert(s.push(m2.stack.last()).subrange(0, s0.len() as int) =~= s.subrange(0, s0.len() as int));
    match op {
        OpCode::Declare(_, _) => {
            lemma_registers_grow(m.registers, seq![m2.registers.last()], r0);
            assert(m2.registers =~= m.registers + seq![m2.registers.last()]);
        },
        OpCode::Store(idx) => {
            assert(m2.registers.subrange(0, r0.len() as int) =~= m.registers.subrange(0, r0.len() as int));
        },
        OpCode::InitArray(n) => {
            if s.len() >= fl + n {
                lemma_stack_below(s, n as int, s0, m2.stack.last());
            }
        },
        OpCode::ExitScope => {
            assert(m2.registers.subrange(0, r0.len() as int) =~= m.registers.subrange(0, r0.len() as int));
        },
        OpCode::Call => {
            let id = s.last()->Func_0;
            let n = m.params[id as int].len() as int;
            lemma_stack_below(s, n + 1, s0, anyv);
            lemma_registers_grow(
                m.registers,
                argument_slots(s.subrange(s.len() - 1 - n, s.len() - 1), m.params[id as int]),
                r0,
            );
        },
        _ => {},
    }
}

/// Returning from a callee whose frame lies above `r0` and `s0` leaves them
/// in place.
pub proof fn lemma_return_keeps_below(m: MachineView, f: FrameView, v: Option<Instance>, r0: Seq<VariableView>, s0: Seq<Instance>)
    requires
        keeps_below(m, r0, s0),
        frame_above(f, r0.len() as int, s0.len() as int),
    ensures
        keeps_below(returned(m, f, v), r0, s0),
{
    let r = returned(m, f, v);
    assert(r.registers.subrange(0, r0.len() as int) =~= m.registers.subrange(0, r0.len() as int));
    let cs = cut_stack(m.stack, f.stack as int);
    assert(cs.subrange(0, s0.len() as int) =~= m.stack.subrange(0, s0.len() as int));
    match v {
        Some(x) => {
            assert(cs.push(x).subrange(0, s0.len() as int) =~= m.stack.subrange(0, s0.len() as int));
        },
        None => {},
    }
}

/// Running the activations `acts` (the last one is running) for at most
/// `fuel` instructions. An activation that runs past its chunk's end
/// returns without a value.
pub open spec fn run_spec(m: MachineView, top: ChunkView, acts: Seq<ActView>, fuel: nat) -> Result<(MachineView, InstructionResult), Fault>
    decreases fuel,
{
    if acts.len() == 0 {
        Err(Fault { kind: FaultKind::StepLimit, pc: 0, function: None })
    } else if fuel == 0 {
        Err(Fault { kind: FaultKind::StepLimit, pc: acts.last().pc, function: acts.last().function })
    } else {
        let act = acts.last();
        let rest = acts.drop_last();
        let c = chunk_at(m, top, act.function);
        let stepped = if act.pc < c.ops.len() {
            instruction_spec(m, c.ops[act.pc as int], c, act.frame)
        } else {
            Ok((m, act.frame, FlowView::Return(None)))
        };
        match stepped {
            Err(kind) => Err(Fault { kind, pc: act.pc, function: act.function }),
            Ok((m2, f2, flow)) => match flow {
                FlowView::Next => run_spec(
                    m2,
                    top,
                    rest.push(ActView { pc: (act.pc + 1) as usize, frame: f2, ..act }),
                    (fuel - 1) as nat,
                ),
                FlowView::Jump(t) => run_spec(m2, top, rest.push(ActView { pc: t, frame: f2, ..act }), (fuel - 1) as nat),
                FlowView::Call(id, callee) => run_spec(
                    m2,
                    top,
                    rest.push(ActView { pc: (act.pc + 1) as usize, frame: f2, ..act }).push(
                        ActView { function: Some(id), pc: 0, frame: callee },
                    ),
                    (fuel - 1) as nat,
                ),
                FlowView::Return(v) => if rest.len() == 0 {
                    Ok(
                        (
                            m2,
                            match v {
                                Some(x) => InstructionResult::ReturnWith(x),
                                None => InstructionResult::Return,
                            },
                        ),
                    )
                } else {
                    run_spec(returned(m2, f2, v), top, rest, (fuel - 1) as nat)
                },
            },
        }
    }
}

} // verus!
