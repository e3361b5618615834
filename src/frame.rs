use vstd::prelude::*;
use crate::fault::FaultKind;

verus! {

/// Per-invocation addressing context: the base added to register reads, the
/// base for new declarations (raised on scope entry), the operand-stack depth
/// this frame may not pop below, and the sizes of the open lexical scopes.
pub struct CallFrame {
    register_access_offset: u16,
    register_declare_offset: u16,
    stack_offset: usize,
    scope_allocations: Vec<u16>,
}

/// What a `CallFrame` holds, as plain values.
pub struct FrameView {
    pub access: u16,
    pub declare: u16,
    pub stack: usize,
    pub scopes: Seq<u16>,
}

/// The sum of the open scopes' sizes.
pub open spec fn total(s: Seq<u16>) -> int
    decreases s.len(),
{
    if s.len() == 0 {
        0
    } else {
        total(s.drop_last()) + s.last()
    }
}

/// The declare offset covers every open scope.
pub open spec fn frame_wf(f: FrameView) -> bool {
    f.declare >= total(f.scopes)
}

proof fn lemma_total_nonneg(s: Seq<u16>)
    ensures
        total(s) >= 0,
    decreases s.len(),
{
    if s.len() > 0 {
        lemma_total_nonneg(s.drop_last());
    }
}

proof fn lemma_total_push(s: Seq<u16>, x: u16)
    ensures
        total(s.push(x)) == total(s) + x,
{
    assert(s.push(x).drop_last() =~= s);
}

impl CallFrame {
    pub closed spec fn view(&self) -> FrameView {
        FrameView {
            access: self.register_access_offset,
            declare: self.register_declare_offset,
            stack: self.stack_offset,
            scopes: self.scope_allocations@,
        }
    }

    /// The frame of a top-level activation: every offset zero.
    pub fn new() -> (r: CallFrame)
        ensures
            r@ == (FrameView { access: 0, declare: 0, stack: 0, scopes: Seq::empty() }),
            frame_wf(r@),
    {
        CallFrame {
            register_access_offset: 0,
            register_declare_offset: 0,
            stack_offset: 0,
            scope_allocations: Vec::new(),
        }
    }

    /// A frame with the given offsets and no open scope.
    pub fn new_with_offset(register_access_offset: u16, register_declare_offset: u16, stack_offset: usize) -> (r: CallFrame)
        ensures
            r@ == (FrameView {
                access: register_access_offset,
                declare: register_declare_offset,
                stack: stack_offset,
                scopes: Seq::empty(),
            }),
            frame_wf(r@),
    {
        CallFrame { register_access_offset, register_declare_offset, stack_offset, scope_allocations: Vec::new() }
    }

    pub fn register_access_offset(&self) -> (r: u16)
        ensures
            r == self@.access,
    {
        self.register_access_offset
    }

    pub fn register_declare_offset(&self) -> (r: u16)
        ensures
            r == self@.declare,
    {
        self.register_declare_offset
    }

    pub fn stack_offset(&self) -> (r: usize)
        ensures
            r == self@.stack,
    {
        self.stack_offset
    }

    /// Number of open scopes.
    pub fn scope_depth(&self) -> (r: usize)
        ensures
            r == self@.scopes.len(),
    {
        self.scope_allocations.len()
    }

    /// Opens a scope of `size` slots; refused when the declare offset would
    /// leave the `u16` range.
    pub fn enter_scope(&mut self, size: u16) -> (r: Result<(), FaultKind>)
        requires
            frame_wf(old(self)@),
        ensures
            frame_wf(final(self)@),
            old(self)@.declare + size <= u16::MAX ==> r is Ok && final(self)@ == (FrameView {
                declare: (old(self)@.declare + size) as u16,
                scopes: old(self)@.scopes.push(size),
                ..old(self)@
            }),
            old(self)@.declare + size > u16::MAX ==> r == Err::<(), FaultKind>(FaultKind::Overflow)
                && final(self)@ == old(self)@,
    {
        if self.register_declare_offset > u16::MAX - size {
            return Err(FaultKind::Overflow);
        }
        proof {
            lemma_total_push(self.scope_allocations@, size);
        }
        self.scope_allocations.push(size);
        self.register_declare_offset = self.register_declare_offset + size;
        Ok(())
    }

    /// Closes the innermost scope and returns its size; `None`, with the
    /// frame unchanged, when no scope is open.
    pub fn exit_scope(&mut self) -> (r: Option<u16>)
        requires
            frame_wf(old(self)@),
        ensures
            frame_wf(final(self)@),
            old(self)@.scopes.len() == 0 ==> r is None && final(self)@ == old(self)@,
            old(self)@.scopes.len() > 0 ==> r == Some(old(self)@.scopes.last()) && final(self)@ == (FrameView {
                declare: (old(self)@.declare - old(self)@.scopes.last()) as u16,
                scopes: old(self)@.scopes.drop_last(),
                ..old(self)@
            }),
    {
        let ghost before = self@.scopes;
        match self.scope_allocations.pop() {
            Some(amount) => {
                proof {
                    assert(before =~= self.scope_allocations@.push(amount));
                    lemma_total_push(self.scope_allocations@, amount);
                    lemma_total_nonneg(self.scope_allocations@);
                }
                self.register_declare_offset = self.register_declare_offset - amount;
                Some(amount)
            },
            None => None,
        }
    }
}

} // verus!
