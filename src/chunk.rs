use vstd::prelude::*;
use crate::fault::FaultKind;
use crate::instance::Instance;
use crate::types::{Type, TypeView};

verus! {

/// The instruction set.
#[derive(Clone, Copy, Debug, PartialEq, Eq, Structural)]
pub enum OpCode {
    /// Pushes `true`.
    GetTrue,
    /// Pushes `false`.
    GetFalse,
    /// Pushes constant `idx` when the flag is set, else register
    /// `idx + access offset`.
    Get(bool, u16),
    /// Pops a value and declares a slot for it, of the registry type given,
    /// constant when the flag is set.
    Declare(bool, u16),
    /// Pops a value into register `idx + access offset`.
    Store(u16),
    Add,
    Subtract,
    Multiply,
    Divide,
    Power,
    IntNegate,
    LogicNegate,
    Less,
    Greater,
    LessOrEq,
    GreaterOrEq,
    Eq,
    NotEq,
    /// Pops a value and pushes whether it is of the registry type given.
    Is(u16),
    /// Pops right then left; pushes the interned concatenation.
    Concat,
    /// Jumps to a label: always when the flag is clear, else only when a
    /// popped boolean is `false`.
    Jump(bool, u16),
    /// Pops a function value and calls it.
    Call,
    /// Ends the activation, returning the popped value when the flag is set.
    Return(bool),
    /// Pops that many values into a new array.
    InitArray(u16),
    IndexGet,
    IndexSet,
    /// Opens a lexical scope of that many slots.
    EnterScope(u16),
    /// Closes the innermost lexical scope.
    ExitScope,
    /// Renders the popped value to the machine's output.
    Print,
}

/// A table from small integer keys to values.
pub struct SlotTable<T> {
    slots: Vec<Option<T>>,
}

/// The entry under key `i`.
pub open spec fn slot_of<T>(s: Seq<Option<T>>, i: int) -> Option<T> {
    if 0 <= i < s.len() {
        s[i]
    } else {
        None
    }
}

impl<T: Copy> SlotTable<T> {
    pub closed spec fn view(&self) -> Seq<Option<T>> {
        self.slots@
    }

    pub fn new() -> (r: SlotTable<T>)
        ensures
            forall|i: int| slot_of(r@, i) is None,
    {
        SlotTable { slots: Vec::new() }
    }

    /// Stores `value` under `index`, replacing any earlier entry.
    pub fn set(&mut self, index: u16, value: T)
        ensures
            forall|i: int| slot_of(final(self)@, i) == if i == index as int {
                Some(value)
            } else {
                slot_of(old(self)@, i)
            },
    {
        let ghost before = self.slots@;
        while self.slots.len() <= index as usize
            invariant
                self.slots@.len() >= before.len(),
                forall|i: int| 0 <= i < before.len() ==> self.slots@[i] == before[i],
                forall|i: int| before.len() <= i < self.slots@.len() ==> self.slots@[i] is None,
            decreases index as usize + 1 - self.slots.len(),
        {
            self.slots.push(None);
        }
        self.slots.set(index as usize, Some(value));
    }

    /// The entry under `index`.
    pub fn get(&self, index: u16) -> (r: Option<T>)
        ensures
            r == slot_of(self@, index as int),
    {
        if (index as usize) < self.slots.len() {
            self.slots[index as usize]
        } else {
            None
        }
    }
}

/// A unit of bytecode: instructions, jump table (label to instruction
/// index), constant table and register-window size. Once locked it takes no
/// further change.
pub struct Chunk {
    op_codes: Vec<OpCode>,
    is_locked: bool,
    jump_table: SlotTable<usize>,
    const_table: SlotTable<Instance>,
    register_size: u16,
}

/// What a `Chunk` holds, as plain values.
pub struct ChunkView {
    pub ops: Seq<OpCode>,
    pub locked: bool,
    pub jumps: Seq<Option<usize>>,
    pub consts: Seq<Option<Instance>>,
    pub register_size: u16,
}

impl Chunk {
    pub closed spec fn view(&self) -> ChunkView {
        ChunkView {
            ops: self.op_codes@,
            locked: self.is_locked,
            jumps: self.jump_table@,
            consts: self.const_table@,
            register_size: self.register_size,
        }
    }

    /// An empty, unlocked chunk.
    pub fn new() -> (r: Chunk)
        ensures
            r@.ops.len() == 0,
            !r@.locked,
            forall|i: int| slot_of(r@.jumps, i) is None,
            forall|i: int| slot_of(r@.consts, i) is None,
            r@.register_size == 0,
    {
        Chunk {
            op_codes: Vec::new(),
            is_locked: false,
            jump_table: SlotTable::new(),
            const_table: SlotTable::new(),
            register_size: 0,
        }
    }

    /// Appends an instruction; refused once locked.
    pub fn write(&mut self, op: OpCode) -> (r: Result<(), FaultKind>)
        ensures
            old(self)@.locked ==> r == Err::<(), FaultKind>(FaultKind::ChunkLocked) && final(self)@ == old(self)@,
            !old(self)@.locked ==> r is Ok && final(self)@ == (ChunkView { ops: old(self)@.ops.push(op), ..old(self)@ }),
    {
        if self.is_locked {
            return Err(FaultKind::ChunkLocked);
        }
        self.op_codes.push(op);
        Ok(())
    }

    /// Stores constant `index`; refused once locked.
    pub fn add_const(&mut self, index: u16, constant: Instance) -> (r: Result<(), FaultKind>)
        ensures
            old(self)@.locked ==> r == Err::<(), FaultKind>(FaultKind::ChunkLocked) && final(self)@ == old(self)@,
            !old(self)@.locked ==> r is Ok && final(self)@.ops == old(self)@.ops && !final(self)@.locked
                && final(self)@.jumps == old(self)@.jumps && final(self)@.register_size == old(self)@.register_size
                && forall|i: int| slot_of(final(self)@.consts, i) == if i == index as int {
                    Some(constant)
                } else {
                    slot_of(old(self)@.consts, i)
                },
    {
        if self.is_locked {
            return Err(FaultKind::ChunkLocked);
        }
        self.const_table.set(index, constant);
        Ok(())
    }

    /// Resolves jump label `label` to instruction index `target`; refused
    /// once locked.
    pub fn add_jump_point(&mut self, label: u16, target: usize) -> (r: Result<(), FaultKind>)
        ensures
            old(self)@.locked ==> r == Err::<(), FaultKind>(FaultKind::ChunkLocked) && final(self)@ == old(self)@,
            !old(self)@.locked ==> r is Ok && final(self)@.ops == old(self)@.ops && !final(self)@.locked
                && final(self)@.consts == old(self)@.consts && final(self)@.register_size == old(self)@.register_size
                && forall|i: int| slot_of(final(self)@.jumps, i) == if i == label as int {
                    Some(target)
                } else {
                    slot_of(old(self)@.jumps, i)
                },
    {
        if self.is_locked {
            return Err(FaultKind::ChunkLocked);
        }
        self.jump_table.set(label, target);
        Ok(())
    }

    /// Declares the register-window size; refused once locked.
    pub fn set_register_size(&mut self, size: u16) -> (r: Result<(), FaultKind>)
        ensures
            old(self)@.locked ==> r == Err::<(), FaultKind>(FaultKind::ChunkLocked) && final(self)@ == old(self)@,
            !old(self)@.locked ==> r is Ok && final(self)@ == (ChunkView { register_size: size, ..old(self)@ }),
    {
        if self.is_locked {
            return Err(FaultKind::ChunkLocked);
        }
        self.register_size = size;
        Ok(())
    }

    /// Locks the chunk for good.
    pub fn lock(&mut self)
        ensures
            final(self)@ == (ChunkView { locked: true, ..old(self)@ }),
    {
        self.is_locked = true;
    }

    pub fn is_locked(&self) -> (r: bool)
        ensures
            r == self@.locked,
    {
        self.is_locked
    }

    pub fn register_size(&self) -> (r: u16)
        ensures
            r == self@.register_size,
    {
        self.register_size
    }

    /// Number of instructions.
    pub fn len(&self) -> (r: usize)
        ensures
            r == self@.ops.len(),
    {
        self.op_codes.len()
    }

    /// The instruction at `pt`, if there is one.
    pub fn get(&self, pt: usize) -> (r: Option<OpCode>)
        ensures
            self@.ops.len() <= usize::MAX,
            pt < self@.ops.len() ==> r == Some(self@.ops[pt as int]),
            pt >= self@.ops.len() ==> r is None,
    {
        if pt < self.op_codes.len() {
            Some(self.op_codes[pt])
        } else {
            None
        }
    }

    /// Constant `index`.
    pub fn get_const(&self, index: u16) -> (r: Result<Instance, FaultKind>)
        ensures
            match slot_of(self@.consts, index as int) {
                Some(x) => r == Ok::<Instance, FaultKind>(x),
                None => r == Err::<Instance, FaultKind>(FaultKind::ConstantAbsent),
            },
    {
        match self.const_table.get(index) {
            Some(x) => Ok(x),
            None => Err(FaultKind::ConstantAbsent),
        }
    }

    /// The instruction index that label `label` resolves to.
    pub fn jump_target(&self, label: u16) -> (r: Result<usize, FaultKind>)
        ensures
            match slot_of(self@.jumps, label as int) {
                Some(t) => r == Ok::<usize, FaultKind>(t),
                None => r == Err::<usize, FaultKind>(FaultKind::UnresolvedJump),
            },
    {
        match self.jump_table.get(label) {
            Some(t) => Ok(t),
            None => Err(FaultKind::UnresolvedJump),
        }
    }
}

/// A function value: its arity, parameter types (one per parameter), return
/// type and body.
pub struct Function {
    arity: u8,
    params: Vec<Type>,
    return_type: Type,
    chunk: Chunk,
}

impl Function {
    #[verifier::type_invariant]
    closed spec fn inv(&self) -> bool {
        self.params@.len() == self.arity as int
    }

    pub closed spec fn arity_spec(&self) -> u8 {
        self.arity
    }

    pub closed spec fn params_spec(&self) -> Seq<TypeView> {
        self.params@.map_values(|t: Type| t@)
    }

    pub closed spec fn return_type_spec(&self) -> TypeView {
        self.return_type@
    }

    pub closed spec fn chunk_spec(&self) -> ChunkView {
        self.chunk@
    }

    /// A function; refused unless there is one parameter type per parameter.
    pub fn new(arity: u8, params: Vec<Type>, return_type: Type, chunk: Chunk) -> (r: Result<Function, FaultKind>)
        ensures
            params@.len() != arity as int ==> r == Err::<Function, FaultKind>(FaultKind::ArityMismatch),
            params@.len() == arity as int ==> r is Ok && r->Ok_0.arity_spec() == arity
                && r->Ok_0.params_spec() == params@.map_values(|t: Type| t@)
                && r->Ok_0.return_type_spec() == return_type@ && r->Ok_0.chunk_spec() == chunk@,
    {
        if params.len() != arity as usize {
            return Err(FaultKind::ArityMismatch);
        }
        Ok(Function { arity, params, return_type, chunk })
    }

    pub fn arity(&self) -> (r: u8)
        ensures
            r == self.arity_spec(),
            r as int == self.params_spec().len(),
    {
        proof {
            use_type_invariant(self);
        }
        self.arity
    }

    /// The type of parameter `i`.
    pub fn param(&self, i: usize) -> (r: &Type)
        requires
            i < self.params_spec().len(),
        ensures
            r@ == self.params_spec()[i as int],
    {
        &self.params[i]
    }

    pub fn return_type(&self) -> (r: &Type)
        ensures
            r@ == self.return_type_spec(),
    {
        &self.return_type
    }

    pub fn chunk(&self) -> (r: &Chunk)
        ensures
            r@ == self.chunk_spec(),
    {
        &self.chunk
    }
}

} // verus!
