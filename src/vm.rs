use vstd::prelude::*;
use crate::chunk::{Chunk, ChunkView, Function, OpCode, slot_of};
use crate::display::{display, display_form, push_char};
use crate::fault::{Fault, FaultKind};
use crate::frame::{CallFrame, FrameView, frame_wf};
use crate::heap::{ArrayHeap, ArrayView, item_spec, set_item_spec};
use crate::instance::{Instance, type_index, OBJECT_TYPE, BUILTIN_TYPE_COUNT};
use crate::operators::{
    is_integer, int_value, BinaryOp, arith, arith_spec, compare, compare_spec, equate, equate_spec, negate, negate_spec,
    logic_negate, logic_negate_spec,
};
use crate::register::{Register, VariableView, read_spec, write_spec, truncate_spec};
use crate::string_pool::{StringPool, intern_spec, distinct};
use crate::types::{Type, TypeRegistry, TypeView, type_is, is_builtin_catalogue};
use crate::semantics::{
    MachineView, FlowView, ActView, chunk_at, instruction_spec, run_spec, scope_cut, call_spec, returned,
    keeps_below, frame_above, lemma_step_keeps_below, lemma_return_keeps_below,
};

verus! {

/// What an executed instruction asks of the dispatch loop.
pub enum Flow {
    /// Go on with the next instruction.
    Next,
    /// Go on at this instruction index.
    Jump(usize),
    /// Run the body of this function in this frame, then come back.
    Call(usize, CallFrame),
    /// End the activation, with a value or without.
    Return(Option<Instance>),
}

impl Flow {
    pub open spec fn view(&self) -> FlowView {
        match self {
            Flow::Next => FlowView::Next,
            Flow::Jump(t) => FlowView::Jump(*t),
            Flow::Call(id, f) => FlowView::Call(*id, f@),
            Flow::Return(v) => FlowView::Return(*v),
        }
    }
}

/// One running activation: its chunk (`None` for the chunk handed to
/// `execute_chunk`, else a function's body), program counter and frame.
pub struct Activation {
    pub function: Option<usize>,
    pub pc: usize,
    pub frame: CallFrame,
}

/// How a finished activation ended.
#[derive(Clone, Copy, Debug, PartialEq, Eq, Structural)]
pub enum InstructionResult {
    /// Ended without a value: a `Return(false)`, or the end of the chunk.
    Return,
    /// Ended with a value.
    ReturnWith(Instance),
}

/// The machine: operand stack, register file, type registry, interner,
/// array heap and function table.
pub struct VM {
    type_registry: TypeRegistry,
    string_pool: StringPool,
    arrays: ArrayHeap,
    functions: Vec<Function>,
    register: Register,
    stack: Vec<Instance>,
    output: Vec<String>,
    diagnostics: Vec<String>,
}

impl VM {
    /// The whole state, as plain values.
    pub closed spec fn view(&self) -> MachineView {
        MachineView {
            stack: self.stack@,
            registers: self.register@,
            arrays: self.arrays@,
            strings: self.string_pool@,
            output: self.output@.map_values(|s: String| s@),
            diagnostics: self.diagnostics@.len(),
            types: self.type_registry@,
            bodies: self.functions@.map_values(|f: Function| f.chunk_spec()),
            params: self.functions@.map_values(|f: Function| f.params_spec()),
        }
    }

    pub open spec fn stack_spec(&self) -> Seq<Instance> {
        self@.stack
    }

    pub open spec fn registers_spec(&self) -> Seq<VariableView> {
        self@.registers
    }

    pub open spec fn arrays_spec(&self) -> Seq<ArrayView> {
        self@.arrays
    }

    pub open spec fn strings_spec(&self) -> Seq<Seq<char>> {
        self@.strings
    }

    pub open spec fn types_spec(&self) -> Seq<TypeView> {
        self@.types
    }

    pub open spec fn output_spec(&self) -> Seq<Seq<char>> {
        self@.output
    }

    pub open spec fn diagnostics_len(&self) -> nat {
        self@.diagnostics
    }

    pub open spec fn function_count(&self) -> nat {
        self@.params.len()
    }

    /// The machine's invariant: the interner holds each content once and the
    /// registry holds the built-in catalogue.
    pub open spec fn wf(&self) -> bool {
        &&& distinct(self@.strings)
        &&& is_builtin_catalogue(self@.types)
    }

    /// A machine with empty stack, registers, heap and function table.
    pub fn new() -> (r: VM)
        ensures
            r.wf(),
            is_builtin_catalogue(r@.types),
            r@ == (MachineView {
                stack: Seq::empty(),
                registers: Seq::empty(),
                arrays: Seq::empty(),
                strings: Seq::empty(),
                output: Seq::empty(),
                diagnostics: 0,
                types: r@.types,
                bodies: Seq::empty(),
                params: Seq::empty(),
            }),
    {
        let r = VM {
            type_registry: TypeRegistry::new(),
            string_pool: StringPool::new(),
            arrays: ArrayHeap::new(),
            functions: Vec::new(),
            register: Register::new(),
            stack: Vec::new(),
            output: Vec::new(),
            diagnostics: Vec::new(),
        };
        proof {
            assert(r@.output =~= Seq::<Seq<char>>::empty());
            assert(r@.registers =~= Seq::<VariableView>::empty());
            assert(r@.stack =~= Seq::<Instance>::empty());
            assert(r@.arrays =~= Seq::<ArrayView>::empty());
            assert(r@.strings =~= Seq::<Seq<char>>::empty());
            assert(r@.bodies =~= Seq::<ChunkView>::empty());
            assert(r@.params =~= Seq::<Seq<TypeView>>::empty());
        }
        r
    }

    /// The operand stack, bottom first.
    pub fn stack(&self) -> (r: &Vec<Instance>)
        ensures
            r@ == self.stack_spec(),
    {
        &self.stack
    }

    /// The register file.
    pub fn register(&self) -> (r: &Register)
        ensures
            r@ == self.registers_spec(),
    {
        &self.register
    }

    /// The type registry.
    pub fn type_registry(&self) -> (r: &TypeRegistry)
        ensures
            r@ == self.types_spec(),
    {
        &self.type_registry
    }

    /// The lines rendered by `Print` so far, oldest first.
    pub fn output(&self) -> (r: &Vec<String>)
        ensures
            r@.map_values(|s: String| s@) == self.output_spec(),
    {
        &self.output
    }

    /// Diagnostics of tolerated front-end errors, oldest first.
    pub fn diagnostics(&self) -> (r: &Vec<String>)
        ensures
            r@.len() == self.diagnostics_len(),
    {
        &self.diagnostics
    }

    /// Interns `text`, returning the string value.
    pub fn intern(&mut self, text: &str) -> (r: Instance)
        requires
            old(self).wf(),
        ensures
            final(self).wf(),
            r == Instance::Str(intern_spec(old(self).strings_spec(), text@).1 as usize),
            final(self).strings_spec() == intern_spec(old(self).strings_spec(), text@).0,
            final(self).stack_spec() == old(self).stack_spec(),
            final(self).registers_spec() == old(self).registers_spec(),
            final(self).arrays_spec() == old(self).arrays_spec(),
    {
        let h = self.string_pool.pool_str(text);
        Instance::Str(h)
    }

    /// The content of a string value; `None` for any other value.
    pub fn string_content(&self, x: Instance) -> (r: Option<String>)
        ensures
            match x {
                Instance::Str(h) => if h < self.strings_spec().len() {
                    r is Some && r->0@ == self.strings_spec()[h as int]
                } else {
                    r is None
                },
                _ => r is None,
            },
    {
        match x {
            Instance::Str(h) => {
                if h < self.string_pool.len() {
                    Some(self.string_pool.content(h).clone())
                } else {
                    None
                }
            },
            _ => None,
        }
    }

    /// The elements of an array value; `None` for any other value.
    pub fn array_items(&self, x: Instance) -> (r: Option<Vec<Instance>>)
        ensures
            match x {
                Instance::Array(h) => if h < self.arrays_spec().len() {
                    r is Some && r->0@ == self.arrays_spec()[h as int].items
                } else {
                    r is None
                },
                _ => r is None,
            },
    {
        match x {
            Instance::Array(h) => {
                if h < self.arrays.len() {
                    Some(self.arrays.items(h).clone())
                } else {
                    None
                }
            },
            _ => None,
        }
    }

    /// The element type of an array value; `None` for any other value.
    pub fn array_type(&self, x: Instance) -> (r: Option<&Type>)
        ensures
            match x {
                Instance::Array(h) => if h < self.arrays_spec().len() {
                    r is Some && r->0@ == self.arrays_spec()[h as int].elem
                } else {
                    r is None
                },
                _ => r is None,
            },
    {
        match x {
            Instance::Array(h) => {
                if h < self.arrays.len() {
                    Some(self.arrays.elem_type(h))
                } else {
                    None
                }
            },
            _ => None,
        }
    }

    /// Adds `f` to the function table, returning the function value.
    pub fn define_function(&mut self, f: Function) -> (r: Instance)
        requires
            old(self).wf(),
        ensures
            final(self).wf(),
            r == Instance::Func(old(self).function_count() as usize),
            final(self).function_count() == old(self).function_count() + 1,
            final(self)@ == (MachineView {
                bodies: old(self)@.bodies.push(f.chunk_spec()),
                params: old(self)@.params.push(f.params_spec()),
                ..old(self)@
            }),
    {
        let id = self.functions.len();
        let ghost before = self.functions@;
        self.functions.push(f);
        proof {
            assert(self.functions@.map_values(|g: Function| g.chunk_spec()) =~= before.map_values(
                |g: Function| g.chunk_spec(),
            ).push(f.chunk_spec()));
            assert(self.functions@.map_values(|g: Function| g.params_spec()) =~= before.map_values(
                |g: Function| g.params_spec(),
            ).push(f.params_spec()));
        }
        Instance::Func(id)
    }

    /// The display form of `x`.
    pub fn display(&self, x: Instance) -> (r: String)
        ensures
            r@ == display(self.arrays_spec(), self.strings_spec(), x, self.arrays_spec().len()),
    {
        display_form(&self.arrays, &self.string_pool, x)
    }

    /// Pushes `x` on the operand stack.
    pub fn push(&mut self, x: Instance)
        ensures
            final(self).stack_spec() == old(self).stack_spec().push(x),
            final(self).same_but_stack(*old(self)),
            old(self).wf() ==> final(self).wf(),
    {
        self.stack.push(x);
    }

    /// Everything but the operand stack is unchanged.
    pub open spec fn same_but_stack(&self, other: VM) -> bool {
        self@ == MachineView { stack: self@.stack, ..other@ }
    }

    /// The type registry and the function table are unchanged.
    pub open spec fn same_tables(&self, other: VM) -> bool {
        &&& self@.types == other@.types
        &&& self@.bodies == other@.bodies
        &&& self@.params == other@.params
    }

    /// Pops the top of the stack; refused when that would pop below
    /// `stack_offset`.
    pub fn get_stack_top(&mut self, stack_offset: usize) -> (r: Result<Instance, FaultKind>)
        ensures
            final(self).same_but_stack(*old(self)),
            old(self).stack_spec().len() > stack_offset ==> r == Ok::<Instance, FaultKind>(
                old(self).stack_spec().last(),
            ) && final(self).stack_spec() == old(self).stack_spec().drop_last(),
            old(self).stack_spec().len() <= stack_offset ==> r == Err::<Instance, FaultKind>(
                FaultKind::StackUnderflow,
            ) && final(self).stack_spec() == old(self).stack_spec(),
    {
        if self.stack.len() <= stack_offset {
            return Err(FaultKind::StackUnderflow);
        }
        let x = self.stack.pop().unwrap();
        Ok(x)
    }

    /// Pops the top `amount` values, in the order they were pushed; refused, with
    /// the stack unchanged, when that would pop below `stack_offset`.
    pub fn split_stack(&mut self, amount: usize, stack_offset: usize) -> (r: Result<Vec<Instance>, FaultKind>)
        ensures
            final(self).same_but_stack(*old(self)),
            old(self).stack_spec().len() >= stack_offset + amount ==> r is Ok && r->Ok_0@
                == old(self).stack_spec().subrange(
                old(self).stack_spec().len() - amount,
                old(self).stack_spec().len() as int,
            ) && final(self).stack_spec() == old(self).stack_spec().subrange(
                0,
                old(self).stack_spec().len() - amount,
            ),
            old(self).stack_spec().len() < stack_offset + amount ==> r == Err::<Vec<Instance>, FaultKind>(
                FaultKind::StackUnderflow,
            ) && final(self).stack_spec() == old(self).stack_spec(),
    {
        if self.stack.len() < stack_offset || self.stack.len() - stack_offset < amount {
            return Err(FaultKind::StackUnderflow);
        }
        let at = self.stack.len() - amount;
        let items = self.stack.split_off(at);
        Ok(items)
    }
}


/// The stack without its top `n` values.
pub open spec fn below(s: Seq<Instance>, n: int) -> Seq<Instance> {
    s.subrange(0, s.len() - n)
}

/// The value `k` places below the top (`0` is the top).
pub open spec fn from_top(s: Seq<Instance>, k: int) -> Instance {
    s[s.len() - 1 - k]
}

impl VM {
    /// The two operands of a binary instruction, left then right, without
    /// popping them.
    fn peek_operands(&self, stack_offset: usize) -> (r: Result<(Instance, Instance), FaultKind>)
        ensures
            self.stack_spec().len() >= stack_offset + 2 ==> r == Ok::<(Instance, Instance), FaultKind>(
                (from_top(self.stack_spec(), 1), from_top(self.stack_spec(), 0)),
            ),
            self.stack_spec().len() < stack_offset + 2 ==> r == Err::<(Instance, Instance), FaultKind>(
                FaultKind::StackUnderflow,
            ),
    {
        if self.stack.len() < stack_offset || self.stack.len() - stack_offset < 2 {
            return Err(FaultKind::StackUnderflow);
        }
        let n = self.stack.len();
        Ok((self.stack[n - 2], self.stack[n - 1]))
    }

    /// The top of the stack, without popping it; refused below `stack_offset`.
    fn peek_top(&self, stack_offset: usize) -> (r: Result<Instance, FaultKind>)
        ensures
            self.stack_spec().len() > stack_offset ==> r == Ok::<Instance, FaultKind>(self.stack_spec().last()),
            self.stack_spec().len() <= stack_offset ==> r == Err::<Instance, FaultKind>(FaultKind::StackUnderflow),
    {
        if self.stack.len() <= stack_offset {
            return Err(FaultKind::StackUnderflow);
        }
        Ok(self.stack[self.stack.len() - 1])
    }

    /// Removes the top `n` values.
    fn drop_top(&mut self, n: usize)
        requires
            n <= old(self).stack_spec().len(),
        ensures
            final(self)@ == (MachineView { stack: below(old(self).stack_spec(), n as int), ..old(self)@ }),
    {
        let len = self.stack.len();
        self.stack.truncate(len - n);
    }

    /// `Add`, `Subtract`, `Multiply`, `Divide` and `Power`: pops right then
    /// left and pushes `left op right`.
    pub fn arith_operands(&mut self, op: BinaryOp, stack_offset: usize) -> (r: Result<(), FaultKind>)
        ensures
            final(self).same_but_stack(*old(self)),
            old(self).stack_spec().len() < stack_offset + 2 ==> r == Err::<(), FaultKind>(FaultKind::StackUnderflow) && final(self)@ == old(self)@,
            old(self).stack_spec().len() >= stack_offset + 2 ==> match arith_spec(
                op,
                from_top(old(self).stack_spec(), 1),
                from_top(old(self).stack_spec(), 0),
            ) {
                Ok(v) => r is Ok && final(self).stack_spec() == below(old(self).stack_spec(), 2).push(v),
                Err(e) => r == Err::<(), FaultKind>(e) && final(self)@ == old(self)@,
            },
    {
        let (left, right) = self.peek_operands(stack_offset)?;
        let v = arith(op, left, right)?;
        self.drop_top(2);
        self.stack.push(v);
        Ok(())
    }

    /// `Less`, `Greater`, `LessOrEq` and `GreaterOrEq`.
    pub fn compare_operand_size(&mut self, flip_operator: bool, equal: bool, stack_offset: usize) -> (r: Result<(), FaultKind>)
        ensures
            final(self).same_but_stack(*old(self)),
            old(self).stack_spec().len() < stack_offset + 2 ==> r == Err::<(), FaultKind>(FaultKind::StackUnderflow) && final(self)@ == old(self)@,
            old(self).stack_spec().len() >= stack_offset + 2 ==> match compare_spec(
                flip_operator,
                equal,
                from_top(old(self).stack_spec(), 1),
                from_top(old(self).stack_spec(), 0),
            ) {
                Ok(b) => r is Ok && final(self).stack_spec() == below(old(self).stack_spec(), 2).push(
                    Instance::Bool(b),
                ),
                Err(e) => r == Err::<(), FaultKind>(e) && final(self)@ == old(self)@,
            },
    {
        let (left, right) = self.peek_operands(stack_offset)?;
        let b = compare(flip_operator, equal, left, right)?;
        self.drop_top(2);
        self.stack.push(Instance::Bool(b));
        Ok(())
    }

    /// `Eq` and `NotEq`.
    pub fn equate_operands(&mut self, negate: bool, stack_offset: usize) -> (r: Result<(), FaultKind>)
        ensures
            final(self).same_but_stack(*old(self)),
            old(self).stack_spec().len() < stack_offset + 2 ==> r == Err::<(), FaultKind>(FaultKind::StackUnderflow) && final(self)@ == old(self)@,
            old(self).stack_spec().len() >= stack_offset + 2 ==> r is Ok && final(self).stack_spec() == below(
                old(self).stack_spec(),
                2,
            ).push(
                Instance::Bool(
                    equate_spec(negate, from_top(old(self).stack_spec(), 1), from_top(old(self).stack_spec(), 0)),
                ),
            ),
    {
        let (left, right) = self.peek_operands(stack_offset)?;
        let b = equate(negate, left, right);
        self.drop_top(2);
        self.stack.push(Instance::Bool(b));
        Ok(())
    }

    /// `IntNegate`.
    pub fn negate_operand(&mut self, stack_offset: usize) -> (r: Result<(), FaultKind>)
        ensures
            final(self).same_but_stack(*old(self)),
            old(self).stack_spec().len() <= stack_offset ==> r == Err::<(), FaultKind>(FaultKind::StackUnderflow) && final(self)@ == old(self)@,
            old(self).stack_spec().len() > stack_offset ==> match negate_spec(old(self).stack_spec().last()) {
                Ok(v) => r is Ok && final(self).stack_spec() == below(old(self).stack_spec(), 1).push(v),
                Err(e) => r == Err::<(), FaultKind>(e) && final(self)@ == old(self)@,
            },
    {
        let x = self.peek_top(stack_offset)?;
        let v = negate(x)?;
        self.drop_top(1);
        self.stack.push(v);
        Ok(())
    }

    /// `LogicNegate`.
    pub fn logic_negate_operand(&mut self, stack_offset: usize) -> (r: Result<(), FaultKind>)
        ensures
            final(self).same_but_stack(*old(self)),
            old(self).stack_spec().len() <= stack_offset ==> r == Err::<(), FaultKind>(FaultKind::StackUnderflow) && final(self)@ == old(self)@,
            old(self).stack_spec().len() > stack_offset ==> match logic_negate_spec(old(self).stack_spec().last()) {
                Ok(v) => r is Ok && final(self).stack_spec() == below(old(self).stack_spec(), 1).push(v),
                Err(e) => r == Err::<(), FaultKind>(e) && final(self)@ == old(self)@,
            },
    {
        let x = self.peek_top(stack_offset)?;
        let v = logic_negate(x)?;
        self.drop_top(1);
        self.stack.push(v);
        Ok(())
    }

    /// `Is(type_index)`: pops a value and pushes whether it is of that type.
    pub fn type_test(&mut self, type_index: u16, stack_offset: usize) -> (r: Result<(), FaultKind>)
        ensures
            final(self).same_but_stack(*old(self)),
            old(self).stack_spec().len() <= stack_offset ==> r == Err::<(), FaultKind>(FaultKind::StackUnderflow) && final(self)@ == old(self)@,
            old(self).stack_spec().len() > stack_offset && type_index as int >= old(self).types_spec().len()
                ==> r == Err::<(), FaultKind>(FaultKind::UnknownType) && final(self)@ == old(self)@,
            old(self).stack_spec().len() > stack_offset && (type_index as int) < old(self).types_spec().len()
                ==> r is Ok && final(self).stack_spec() == below(old(self).stack_spec(), 1).push(
                Instance::Bool(type_is(old(self).types_spec()[type_index as int], old(self).stack_spec().last())),
            ),
    {
        let x = self.peek_top(stack_offset)?;
        let b = match self.type_registry.get(type_index) {
            Some(t) => t.is(&x),
            None => return Err(FaultKind::UnknownType),
        };
        self.drop_top(1);
        self.stack.push(Instance::Bool(b));
        Ok(())
    }

    /// Pops a boolean; any other value is a type fault.
    pub fn test_logic(&mut self, stack_offset: usize) -> (r: Result<bool, FaultKind>)
        ensures
            final(self).same_but_stack(*old(self)),
            old(self).stack_spec().len() <= stack_offset ==> r == Err::<bool, FaultKind>(FaultKind::StackUnderflow) && final(self)@ == old(self)@,
            old(self).stack_spec().len() > stack_offset ==> match old(self).stack_spec().last() {
                Instance::Bool(b) => r == Ok::<bool, FaultKind>(b) && final(self).stack_spec() == below(
                    old(self).stack_spec(),
                    1,
                ),
                _ => r == Err::<bool, FaultKind>(FaultKind::TypeMismatch) && final(self)@ == old(self)@,
            },
    {
        let x = self.peek_top(stack_offset)?;
        match x {
            Instance::Bool(b) => {
                self.drop_top(1);
                Ok(b)
            },
            _ => Err(FaultKind::TypeMismatch),
        }
    }
}


/// Position `x` as an index: an integer value of any width; one that no
/// position can have is out of bounds.
pub open spec fn index_spec(x: Instance) -> Result<int, FaultKind> {
    if !is_integer(x) {
        Err(FaultKind::TypeMismatch)
    } else if 0 <= int_value(x) <= usize::MAX {
        Ok(int_value(x))
    } else {
        Err(FaultKind::IndexOutOfBounds)
    }
}

/// `IndexGet` on `target[index]`: an array element, or a string's character.
pub open spec fn index_get_spec(arrays: Seq<ArrayView>, strings: Seq<Seq<char>>, target: Instance, index: Instance) -> Result<Instance, FaultKind> {
    match target {
        Instance::Array(h) => match index_spec(index) {
            Ok(i) => item_spec(arrays, h as int, i),
            Err(e) => Err(e),
        },
        Instance::Str(h) => match index_spec(index) {
            Ok(i) => if h < strings.len() && 0 <= i < strings[h as int].len() {
                Ok(Instance::Char(strings[h as int][i]))
            } else {
                Err(FaultKind::IndexOutOfBounds)
            },
            Err(e) => Err(e),
        },
        _ => Err(FaultKind::TypeMismatch),
    }
}

/// `IndexSet` of `target[index] = item`: the heap afterwards.
pub open spec fn index_set_spec(arrays: Seq<ArrayView>, target: Instance, index: Instance, item: Instance) -> Result<Seq<ArrayView>, FaultKind> {
    match target {
        Instance::Array(h) => match index_spec(index) {
            Ok(i) => set_item_spec(arrays, h as int, i, item),
            Err(e) => Err(e),
        },
        _ => Err(FaultKind::TypeMismatch),
    }
}

/// Registry index of the element type inferred for an array of `items`:
/// the first element's type when every element shares it, else `Object`;
/// `None` when the first element's type is not in the catalogue.
pub open spec fn inferred_type(items: Seq<Instance>) -> Option<int> {
    if items.len() == 0 {
        Some(OBJECT_TYPE as int)
    } else if type_index(items[0]) >= BUILTIN_TYPE_COUNT as int {
        None
    } else if forall|k: int| 0 <= k < items.len() ==> type_index(#[trigger] items[k]) == type_index(items[0]) {
        Some(type_index(items[0]))
    } else {
        Some(OBJECT_TYPE as int)
    }
}

/// The text that `Concat` appends for its right operand: a string's or a
/// character's content, else the display form.
pub open spec fn concat_text(arrays: Seq<ArrayView>, strings: Seq<Seq<char>>, right: Instance) -> Seq<char> {
    match right {
        Instance::Str(h) => strings[h as int],
        Instance::Char(c) => seq![c],
        _ => display(arrays, strings, right, arrays.len()),
    }
}

/// A string handle that names nothing.
pub open spec fn dangling_str(strings: Seq<Seq<char>>, x: Instance) -> bool {
    match x {
        Instance::Str(h) => h >= strings.len(),
        _ => false,
    }
}

fn index_of(x: Instance) -> (r: Result<usize, FaultKind>)
    ensures
        match index_spec(x) {
            Ok(i) => r == Ok::<usize, FaultKind>(i as usize),
            Err(e) => r == Err::<usize, FaultKind>(e),
        },
{
    let v: u128 = match x {
        Instance::Byte(n) => if n < 0 { return Err(FaultKind::IndexOutOfBounds) } else { n as u128 },
        Instance::Int16(n) => if n < 0 { return Err(FaultKind::IndexOutOfBounds) } else { n as u128 },
        Instance::Int32(n) => if n < 0 { return Err(FaultKind::IndexOutOfBounds) } else { n as u128 },
        Instance::Int64(n) => if n < 0 { return Err(FaultKind::IndexOutOfBounds) } else { n as u128 },
        Instance::Int128(n) => if n < 0 { return Err(FaultKind::IndexOutOfBounds) } else { n as u128 },
        Instance::UByte(n) => n as u128,
        Instance::UInt16(n) => n as u128,
        Instance::UInt32(n) => n as u128,
        Instance::UInt64(n) => n as u128,
        Instance::UInt128(n) => n,
        _ => return Err(FaultKind::TypeMismatch),
    };
    if v > usize::MAX as u128 {
        return Err(FaultKind::IndexOutOfBounds);
    }
    Ok(v as usize)
}

impl VM {
    /// Only the operand stack and the array heap changed.
    pub open spec fn same_but_stack_arrays(&self, other: VM) -> bool {
        self@ == MachineView { stack: self@.stack, arrays: self@.arrays, ..other@ }
    }

    /// Only the operand stack and the register file changed.
    pub open spec fn same_but_stack_registers(&self, other: VM) -> bool {
        self@ == MachineView { stack: self@.stack, registers: self@.registers, ..other@ }
    }

    /// `Declare(is_const, type_index)`: pops a value and declares a slot for
    /// it of the registry type at `type_index`.
    pub fn declare_variable(&mut self, type_index: u16, is_const: bool, stack_offset: usize) -> (r: Result<usize, FaultKind>)
        requires
            old(self).wf(),
        ensures
            final(self).wf(),
            final(self).same_but_stack_registers(*old(self)),
            old(self).stack_spec().len() <= stack_offset ==> r == Err::<usize, FaultKind>(FaultKind::StackUnderflow) && final(self)@ == old(self)@,
            old(self).stack_spec().len() > stack_offset && type_index as int >= old(self).types_spec().len()
                ==> r == Err::<usize, FaultKind>(FaultKind::UnknownType) && final(self)@ == old(self)@,
            old(self).stack_spec().len() > stack_offset && (type_index as int) < old(self).types_spec().len()
                ==> r == Ok::<usize, FaultKind>(old(self).registers_spec().len() as usize)
                && final(self).stack_spec() == below(old(self).stack_spec(), 1)
                && final(self).registers_spec() == old(self).registers_spec().push(
                VariableView {
                    is_const,
                    stored: old(self).stack_spec().last(),
                    ty: old(self).types_spec()[type_index as int],
                },
            ),
    {
        let x = self.peek_top(stack_offset)?;
        let t = match self.type_registry.get(type_index) {
            Some(t) => t.duplicate(),
            None => return Err(FaultKind::UnknownType),
        };
        self.drop_top(1);
        Ok(self.register.declare(is_const, x, t))
    }

    /// `Store(idx)`: pops a value into register `idx + access offset`.
    pub fn set_variable(&mut self, index: u16, access_offset: u16, stack_offset: usize) -> (r: Result<(), FaultKind>)
        requires
            old(self).wf(),
        ensures
            final(self).wf(),
            final(self).same_but_stack_registers(*old(self)),
            old(self).stack_spec().len() <= stack_offset ==> r == Err::<(), FaultKind>(FaultKind::StackUnderflow) && final(self)@ == old(self)@,
            old(self).stack_spec().len() > stack_offset ==> match write_spec(
                old(self).registers_spec(),
                index + access_offset,
                old(self).stack_spec().last(),
            ) {
                Ok(regs) => r is Ok && final(self).registers_spec() == regs && final(self).stack_spec() == below(
                    old(self).stack_spec(),
                    1,
                ),
                Err(e) => r == Err::<(), FaultKind>(e) && final(self)@ == old(self)@,
            },
    {
        let x = self.peek_top(stack_offset)?;
        self.register.set(index as usize + access_offset as usize, x)?;
        self.drop_top(1);
        Ok(())
    }

    /// `InitArray(size)`: pops `size` values, in the order they were pushed, into a
    /// new array whose element type is inferred from them.
    pub fn make_array(&mut self, array_size: u16, stack_offset: usize) -> (r: Result<(), FaultKind>)
        requires
            old(self).wf(),
        ensures
            r is Err ==> final(self)@ == old(self)@,
            final(self).wf(),
            final(self).same_but_stack_arrays(*old(self)),
            old(self).stack_spec().len() < stack_offset + array_size ==> r == Err::<(), FaultKind>(
                FaultKind::StackUnderflow,
            ),
            old(self).stack_spec().len() >= stack_offset + array_size ==> ({
                let items = old(self).stack_spec().subrange(
                    old(self).stack_spec().len() - array_size,
                    old(self).stack_spec().len() as int,
                );
                match inferred_type(items) {
                    Some(t) => r is Ok && final(self).arrays_spec() == old(self).arrays_spec().push(
                        ArrayView { items, elem: old(self).types_spec()[t] },
                    ) && final(self).stack_spec() == below(old(self).stack_spec(), array_size as int).push(
                        Instance::Array(old(self).arrays_spec().len() as usize),
                    ),
                    None => r == Err::<(), FaultKind>(FaultKind::UnknownType) && final(self)@ == old(self)@,
                }
            }),
    {
        if self.stack.len() < stack_offset || self.stack.len() - stack_offset < array_size as usize {
            return Err(FaultKind::StackUnderflow);
        }
        if array_size > 0 && self.stack[self.stack.len() - array_size as usize].type_index() >= BUILTIN_TYPE_COUNT {
            return Err(FaultKind::UnknownType);
        }
        let items = self.split_stack(array_size as usize, stack_offset)?;
        let mut type_id: u16 = OBJECT_TYPE;
        if items.len() > 0 {
            let first = items[0].type_index();
            type_id = first;
            let mut i: usize = 1;
            while i < items.len() && type_id == first
                invariant
                    1 <= i <= items@.len(),
                    first as int == type_index(items@[0]),
                    type_id == first || type_id == OBJECT_TYPE,
                    type_id == first ==> forall|k: int| 0 <= k < i ==> type_index(#[trigger] items@[k]) == first as int,
                    type_id != first ==> exists|k: int| 0 <= k < items@.len() && type_index(#[trigger] items@[k]) != first as int,
                decreases items@.len() - i,
            {
                if items[i].type_index() != first {
                    type_id = OBJECT_TYPE;
                }
                i = i + 1;
            }
        }
        proof {
            assert(self.type_registry@.len() == BUILTIN_TYPE_COUNT as int);
        }
        let t = self.type_registry.get(type_id).unwrap().duplicate();
        let h = self.arrays.allocate(items, t);
        self.stack.push(Instance::Array(h));
        Ok(())
    }

    /// `IndexGet`: pops the index, then the array or string, and pushes the
    /// element or character found there.
    pub fn index_get(&mut self, stack_offset: usize) -> (r: Result<(), FaultKind>)
        ensures
            final(self).same_but_stack(*old(self)),
            old(self).stack_spec().len() < stack_offset + 2 ==> r == Err::<(), FaultKind>(FaultKind::StackUnderflow) && final(self)@ == old(self)@,
            old(self).stack_spec().len() >= stack_offset + 2 ==> match index_get_spec(
                old(self).arrays_spec(),
                old(self).strings_spec(),
                from_top(old(self).stack_spec(), 1),
                from_top(old(self).stack_spec(), 0),
            ) {
                Ok(v) => r is Ok && final(self).stack_spec() == below(old(self).stack_spec(), 2).push(v),
                Err(e) => r == Err::<(), FaultKind>(e) && final(self)@ == old(self)@,
            },
    {
        let (indexable, index) = self.peek_operands(stack_offset)?;
        let v = match indexable {
            Instance::Array(h) => {
                let i = index_of(index)?;
                self.arrays.get_item(h, i)?
            },
            Instance::Str(h) => {
                let i = index_of(index)?;
                if h >= self.string_pool.len() {
                    return Err(FaultKind::IndexOutOfBounds);
                }
                let text = self.string_pool.content(h).as_str();
                if i >= text.unicode_len() {
                    return Err(FaultKind::IndexOutOfBounds);
                }
                Instance::Char(text.get_char(i))
            },
            _ => return Err(FaultKind::TypeMismatch),
        };
        self.drop_top(2);
        self.stack.push(v);
        Ok(())
    }

    /// `IndexSet`: pops the new element, the index and the array, and
    /// replaces that element; every alias of the array sees the change. On a
    /// fault the heap is unmodified.
    pub fn index_set(&mut self, stack_offset: usize) -> (r: Result<(), FaultKind>)
        ensures
            final(self).same_but_stack_arrays(*old(self)),
            old(self).stack_spec().len() < stack_offset + 3 ==> r == Err::<(), FaultKind>(FaultKind::StackUnderflow)
                && final(self)@ == old(self)@,
            old(self).stack_spec().len() >= stack_offset + 3 ==> match index_set_spec(
                old(self).arrays_spec(),
                from_top(old(self).stack_spec(), 2),
                from_top(old(self).stack_spec(), 1),
                from_top(old(self).stack_spec(), 0),
            ) {
                Ok(heap) => r is Ok && final(self).arrays_spec() == heap && final(self).stack_spec() == below(
                    old(self).stack_spec(),
                    3,
                ),
                Err(e) => r == Err::<(), FaultKind>(e) && final(self)@ == old(self)@,
            },
    {
        if self.stack.len() < stack_offset || self.stack.len() - stack_offset < 3 {
            return Err(FaultKind::StackUnderflow);
        }
        let n = self.stack.len();
        let item = self.stack[n - 1];
        let index = self.stack[n - 2];
        let array = self.stack[n - 3];
        match array {
            Instance::Array(h) => {
                let i = index_of(index)?;
                self.arrays.set_item(h, i, item)?;
                self.drop_top(3);
                Ok(())
            },
            _ => Err(FaultKind::TypeMismatch),
        }
    }
}


/// `Concat` of `l` and `r`: the text to intern. The left operand must be a
/// string; a string handle that names nothing is out of bounds.
pub open spec fn concat_spec(arrays: Seq<ArrayView>, strings: Seq<Seq<char>>, l: Instance, r: Instance) -> Result<Seq<char>, FaultKind> {
    match l {
        Instance::Str(h) => if h >= strings.len() || dangling_str(strings, r) {
            Err(FaultKind::IndexOutOfBounds)
        } else {
            Ok(strings[h as int] + concat_text(arrays, strings, r))
        },
        _ => Err(FaultKind::TypeMismatch),
    }
}

/// A chunk with nothing in it.
pub open spec fn empty_chunk() -> ChunkView {
    ChunkView { ops: Seq::empty(), locked: true, jumps: Seq::empty(), consts: Seq::empty(), register_size: 0 }
}

/// The slots that a call declares for its arguments: non-constant, typed by
/// the parameters.
pub open spec fn argument_slots(args: Seq<Instance>, params: Seq<TypeView>) -> Seq<VariableView> {
    Seq::new(args.len(), |i: int| VariableView { is_const: false, stored: args[i], ty: params[i] })
}

impl VM {
    /// Only the operand stack and the interner changed.
    pub open spec fn same_but_stack_strings(&self, other: VM) -> bool {
        self@ == MachineView { stack: self@.stack, strings: self@.strings, ..other@ }
    }

    /// `Concat`: pops right then left, and pushes the interned concatenation
    /// of the left string with the right operand's text.
    pub fn concat(&mut self, stack_offset: usize) -> (r: Result<(), FaultKind>)
        requires
            old(self).wf(),
        ensures
            final(self).wf(),
            final(self).same_but_stack_strings(*old(self)),
            old(self).stack_spec().len() < stack_offset + 2 ==> r == Err::<(), FaultKind>(FaultKind::StackUnderflow) && final(self)@ == old(self)@,
            old(self).stack_spec().len() >= stack_offset + 2 ==> match concat_spec(
                old(self).arrays_spec(),
                old(self).strings_spec(),
                from_top(old(self).stack_spec(), 1),
                from_top(old(self).stack_spec(), 0),
            ) {
                Ok(text) => r is Ok && final(self).strings_spec() == intern_spec(old(self).strings_spec(), text).0
                    && final(self).stack_spec() == below(old(self).stack_spec(), 2).push(
                    Instance::Str(intern_spec(old(self).strings_spec(), text).1 as usize),
                ),
                Err(e) => r == Err::<(), FaultKind>(e) && final(self)@ == old(self)@,
            },
    {
        let (left, right) = self.peek_operands(stack_offset)?;
        let h = match left {
            Instance::Str(h) => h,
            _ => return Err(FaultKind::TypeMismatch),
        };
        if h >= self.string_pool.len() {
            return Err(FaultKind::IndexOutOfBounds);
        }
        let mut text = self.string_pool.content(h).clone();
        let ghost arrays = self.arrays@;
        let ghost strings = self.string_pool@;
        match right {
            Instance::Str(h2) => {
                if h2 >= self.string_pool.len() {
                    return Err(FaultKind::IndexOutOfBounds);
                }
                text.append(self.string_pool.content(h2).as_str());
            },
            Instance::Char(c) => {
                push_char(&mut text, c);
            },
            _ => {
                let shown = display_form(&self.arrays, &self.string_pool, right);
                text.append(shown.as_str());
            },
        }
        proof {
            assert(text@ =~= strings[h as int] + concat_text(arrays, strings, right));
        }
        let pooled = self.string_pool.pool_string(text);
        self.drop_top(2);
        self.stack.push(Instance::Str(pooled));
        Ok(())
    }

    /// `Print`: pops a value and appends its display form to the output.
    pub fn print(&mut self, stack_offset: usize) -> (r: Result<(), FaultKind>)
        requires
            old(self).wf(),
        ensures
            final(self).wf(),
            final(self).same_tables(*old(self)),
            final(self).registers_spec() == old(self).registers_spec(),
            final(self).arrays_spec() == old(self).arrays_spec(),
            final(self).strings_spec() == old(self).strings_spec(),
            final(self).diagnostics_len() == old(self).diagnostics_len(),
            old(self).stack_spec().len() <= stack_offset ==> r == Err::<(), FaultKind>(FaultKind::StackUnderflow) && final(self)@ == old(self)@,
            old(self).stack_spec().len() > stack_offset ==> r is Ok && final(self).stack_spec() == below(
                old(self).stack_spec(),
                1,
            ) && final(self).output_spec() == old(self).output_spec().push(
                display(old(self).arrays_spec(), old(self).strings_spec(), old(self).stack_spec().last(), old(self).arrays_spec().len()),
            ),
    {
        let x = self.get_stack_top(stack_offset)?;
        let shown = display_form(&self.arrays, &self.string_pool, x);
        let ghost before = self.output@;
        self.output.push(shown);
        proof {
            assert(self.output@.map_values(|s: String| s@) =~= before.map_values(|s: String| s@).push(shown@));
        }
        Ok(())
    }

    /// `EnterScope(size)`: opens a lexical scope of `size` slots.
    pub fn enter_scope(&mut self, additional_size: u16, frame: &mut CallFrame) -> (r: Result<(), FaultKind>)
        requires
            frame_wf(old(frame)@),
        ensures
            r is Err ==> final(frame)@ == old(frame)@,
            frame_wf(final(frame)@),
            *final(self) == *old(self),
            old(frame)@.declare + additional_size <= u16::MAX ==> r is Ok && final(frame)@ == (FrameView {
                declare: (old(frame)@.declare + additional_size) as u16,
                scopes: old(frame)@.scopes.push(additional_size),
                ..old(frame)@
            }),
            old(frame)@.declare + additional_size > u16::MAX ==> r == Err::<(), FaultKind>(FaultKind::Overflow),
    {
        frame.enter_scope(additional_size)
    }

    /// `ExitScope`: closes the innermost scope, truncating the register file
    /// by its size (never below the frame's own window) and rewinding the
    /// declare offset. With no scope open it
    /// records a diagnostic and changes neither the frame nor the registers.
    pub fn exit_scope(&mut self, frame: &mut CallFrame)
        requires
            frame_wf(old(frame)@),
            old(self).wf(),
        ensures
            final(self).wf(),
            frame_wf(final(frame)@),
            final(self).same_tables(*old(self)),
            final(self).stack_spec() == old(self).stack_spec(),
            final(self).arrays_spec() == old(self).arrays_spec(),
            final(self).strings_spec() == old(self).strings_spec(),
            final(self).output_spec() == old(self).output_spec(),
            old(frame)@.scopes.len() == 0 ==> final(frame)@ == old(frame)@ && final(self).registers_spec()
                == old(self).registers_spec() && final(self).diagnostics_len() == old(self).diagnostics_len() + 1,
            old(frame)@.scopes.len() > 0 ==> final(frame)@ == (FrameView {
                declare: (old(frame)@.declare - old(frame)@.scopes.last()) as u16,
                scopes: old(frame)@.scopes.drop_last(),
                ..old(frame)@
            }) && final(self).registers_spec() == truncate_spec(
                old(self).registers_spec(),
                scope_cut(old(self).registers_spec().len() as int, old(frame)@.scopes.last() as int, old(frame)@.access as int),
            ) && final(self).diagnostics_len() == old(self).diagnostics_len(),
    {
        let access = frame.register_access_offset() as usize;
        match frame.exit_scope() {
            Some(amount) => {
                let size = self.register.len();
                let to_size = if size >= amount as usize && size - amount as usize >= access {
                    size - amount as usize
                } else {
                    access
                };
                self.register.truncate(to_size);
            },
            None => {
                self.diagnostics.push("Exited inner scope that did not exist.".to_string());
            },
        }
    }

    /// The chunk that activation `func` runs: `top` for the outermost
    /// activation, else the body of function `func`.
    pub open spec fn chunk_of(&self, top: ChunkView, func: Option<usize>) -> ChunkView {
        chunk_at(self@, top, func)
    }

    /// The parameter types of function `i`.
    pub open spec fn function_params(&self, i: int) -> Seq<TypeView> {
        self@.params[i]
    }

    fn fetch_op(&self, top: &Chunk, func: Option<usize>, pc: usize) -> (r: Option<OpCode>)
        ensures
            r is Some ==> pc < usize::MAX,
            pc < self.chunk_of(top@, func).ops.len() ==> r == Some(self.chunk_of(top@, func).ops[pc as int]),
            pc >= self.chunk_of(top@, func).ops.len() ==> r is None,
    {
        match func {
            None => top.get(pc),
            Some(i) => if i < self.functions.len() {
                self.functions[i].chunk().get(pc)
            } else {
                None
            },
        }
    }

    /// The instruction index that `label` resolves to in the running chunk.
    pub fn jump(&self, top: &Chunk, func: Option<usize>, label: u16) -> (r: Result<usize, FaultKind>)
        ensures
            match slot_of(self.chunk_of(top@, func).jumps, label as int) {
                Some(t) => r == Ok::<usize, FaultKind>(t),
                None => r == Err::<usize, FaultKind>(FaultKind::UnresolvedJump),
            },
    {
        match func {
            None => top.jump_target(label),
            Some(i) => if i < self.functions.len() {
                self.functions[i].chunk().jump_target(label)
            } else {
                Err(FaultKind::UnresolvedJump)
            },
        }
    }

    /// `Get(get_const, index)`: pushes constant `index` of the running chunk,
    /// or register `index + access offset`.
    pub fn get_variable(&mut self, index: u16, get_const: bool, top: &Chunk, func: Option<usize>, access_offset: u16) -> (r: Result<(), FaultKind>)
        ensures
            r is Err ==> final(self)@ == old(self)@,
            final(self).same_but_stack(*old(self)),
            get_const ==> match slot_of(old(self).chunk_of(top@, func).consts, index as int) {
                Some(x) => r is Ok && final(self).stack_spec() == old(self).stack_spec().push(x),
                None => r == Err::<(), FaultKind>(FaultKind::ConstantAbsent),
            },
            !get_const ==> match read_spec(old(self).registers_spec(), index + access_offset) {
                Ok(x) => r is Ok && final(self).stack_spec() == old(self).stack_spec().push(x),
                Err(e) => r == Err::<(), FaultKind>(e) && final(self)@ == old(self)@,
            },
    {
        let x = if get_const {
            match func {
                None => top.get_const(index)?,
                Some(i) => if i < self.functions.len() {
                    self.functions[i].chunk().get_const(index)?
                } else {
                    return Err(FaultKind::ConstantAbsent);
                },
            }
        } else {
            self.register.get(index as usize + access_offset as usize)?
        };
        self.stack.push(x);
        Ok(())
    }

    /// `Call`: pops a function value and its arguments (pushed left to
    /// right), declares each argument as a fresh non-constant slot typed by
    /// its parameter, and returns the callee and its frame, whose window
    /// starts past every slot declared so far.
    pub fn bind_call(&mut self, stack_offset: usize) -> (r: Result<(usize, CallFrame), FaultKind>)
        requires
            old(self).wf(),
        ensures
            final(self).wf(),
            final(self).same_tables(*old(self)),
            final(self).arrays_spec() == old(self).arrays_spec(),
            final(self).strings_spec() == old(self).strings_spec(),
            final(self).output_spec() == old(self).output_spec(),
            final(self).diagnostics_len() == old(self).diagnostics_len(),
            r is Err ==> final(self)@ == old(self)@,
            old(self).stack_spec().len() <= stack_offset ==> r == Err::<(usize, CallFrame), FaultKind>(
                FaultKind::StackUnderflow,
            ),
            old(self).stack_spec().len() > stack_offset ==> match old(self).stack_spec().last() {
                Instance::Func(id) => if id >= old(self).function_count() {
                    r == Err::<(usize, CallFrame), FaultKind>(FaultKind::NotAFunction)
                } else {
                    let params = old(self).function_params(id as int);
                    let n = params.len() as int;
                    let s = old(self).stack_spec();
                    if s.len() - 1 - stack_offset < n {
                        r == Err::<(usize, CallFrame), FaultKind>(FaultKind::ArityMismatch)
                    } else if old(self).registers_spec().len() > u16::MAX {
                        r == Err::<(usize, CallFrame), FaultKind>(FaultKind::Overflow)
                    } else {
                        r is Ok && r->Ok_0.0 == id && final(self).stack_spec() == below(s, n + 1)
                            && final(self).registers_spec() == old(self).registers_spec() + argument_slots(
                            s.subrange(s.len() - 1 - n, s.len() - 1),
                            params,
                        ) && r->Ok_0.1@ == (FrameView {
                            access: old(self).registers_spec().len() as u16,
                            declare: old(self).registers_spec().len() as u16,
                            stack: (s.len() - 1 - n) as usize,
                            scopes: Seq::empty(),
                        })
                    }
                },
                _ => r == Err::<(usize, CallFrame), FaultKind>(FaultKind::NotAFunction),
            },
    {
        let f = self.peek_top(stack_offset)?;
        let id = match f {
            Instance::Func(id) => id,
            _ => return Err(FaultKind::NotAFunction),
        };
        if id >= self.functions.len() {
            return Err(FaultKind::NotAFunction);
        }
        let arity = self.functions[id].arity() as usize;
        if self.stack.len() - 1 - stack_offset < arity {
            return Err(FaultKind::ArityMismatch);
        }
        let base = self.register.len();
        if base > u16::MAX as usize {
            return Err(FaultKind::Overflow);
        }
        self.drop_top(1);
        let args = self.split_stack(arity, stack_offset)?;
        let ghost params = self.function_params(id as int);
        let ghost regs0 = self.register@;
        let mut i: usize = 0;
        while i < arity
            invariant
                self.wf(),
                args@.len() == arity,
                params.len() == arity,
                id < self@.params.len(),
                params == self.function_params(id as int),
                i <= arity,
                self.register@ == regs0 + argument_slots(args@.subrange(0, i as int), params),
                self@ == (MachineView { stack: self@.stack, registers: self@.registers, ..old(self)@ }),
                self.stack@ == below(old(self).stack@, arity as int + 1),
            decreases arity - i,
        {
            let t = self.functions[id].param(i).duplicate();
            self.register.declare(false, args[i], t);
            i = i + 1;
            proof {
                assert(argument_slots(args@.subrange(0, i as int), params) =~= argument_slots(
                    args@.subrange(0, i - 1),
                    params,
                ).push(VariableView { is_const: false, stored: args@[i - 1], ty: params[i - 1] }));
            }
        }
        proof {
            assert(args@.subrange(0, arity as int) =~= args@);
        }
        let frame = CallFrame::new_with_offset(base as u16, base as u16, self.stack.len());
        Ok((id, frame))
    }
}


impl VM {
    /// `Jump(true, label)`: pops a boolean and yields the label's target when
    /// it is `false`; when it is `true` nothing else is popped and there is
    /// no jump.
    pub fn try_jump(&mut self, top: &Chunk, func: Option<usize>, label: u16, stack_offset: usize) -> (r: Result<Option<usize>, FaultKind>)
        ensures
            final(self).same_but_stack(*old(self)),
            old(self).stack_spec().len() <= stack_offset ==> r == Err::<Option<usize>, FaultKind>(
                FaultKind::StackUnderflow,
            ) && final(self)@ == old(self)@,
            old(self).stack_spec().len() > stack_offset ==> match old(self).stack_spec().last() {
                Instance::Bool(true) => r == Ok::<Option<usize>, FaultKind>(None) && final(self).stack_spec()
                    == below(old(self).stack_spec(), 1),
                Instance::Bool(false) => match slot_of(old(self).chunk_of(top@, func).jumps, label as int) {
                    Some(t) => r == Ok::<Option<usize>, FaultKind>(Some(t)) && final(self).stack_spec() == below(
                        old(self).stack_spec(),
                        1,
                    ),
                    None => r == Err::<Option<usize>, FaultKind>(FaultKind::UnresolvedJump) && final(self)@ == old(
                        self,
                    )@,
                },
                _ => r == Err::<Option<usize>, FaultKind>(FaultKind::TypeMismatch) && final(self)@ == old(self)@,
            },
    {
        let x = self.peek_top(stack_offset)?;
        match x {
            Instance::Bool(true) => {
                self.drop_top(1);
                Ok(None)
            },
            Instance::Bool(false) => {
                let target = self.jump(top, func, label)?;
                self.drop_top(1);
                Ok(Some(target))
            },
            _ => Err(FaultKind::TypeMismatch),
        }
    }

    /// Executes one instruction of the activation running `func` in `frame`.
    #[verifier::rlimit(60)]
    pub fn execute_instruction(&mut self, op_code: OpCode, top: &Chunk, func: Option<usize>, frame: &mut CallFrame) -> (r: Result<Flow, FaultKind>)
        requires
            old(self).wf(),
            frame_wf(old(frame)@),
        ensures
            final(self).wf(),
            frame_wf(final(frame)@),
            final(self).same_tables(*old(self)),
            match r {
                Ok(Flow::Call(id, f)) => frame_wf(f@) && id < old(self).function_count(),
                _ => true,
            },
            r is Err ==> final(self)@ == old(self)@ && final(frame)@ == old(frame)@,
            match instruction_spec(old(self)@, op_code, old(self).chunk_of(top@, func), old(frame)@) {
                Ok((m, f, flow)) => r is Ok && final(self)@ == m && final(frame)@ == f && r->Ok_0@ == flow,
                Err(e) => r == Err::<Flow, FaultKind>(e),
            },
    {
        let stack_offset = frame.stack_offset();
        match op_code {
            OpCode::GetTrue => {
                self.push(Instance::Bool(true));
                Ok(Flow::Next)
            },
            OpCode::GetFalse => {
                self.push(Instance::Bool(false));
                Ok(Flow::Next)
            },
            OpCode::Get(get_const, index) => {
                self.get_variable(index, get_const, top, func, frame.register_access_offset())?;
                Ok(Flow::Next)
            },
            OpCode::Declare(is_const, type_index) => {
                self.declare_variable(type_index, is_const, stack_offset)?;
                Ok(Flow::Next)
            },
            OpCode::Store(index) => {
                self.set_variable(index, frame.register_access_offset(), stack_offset)?;
                Ok(Flow::Next)
            },
            OpCode::Add => {
                self.arith_operands(BinaryOp::Add, stack_offset)?;
                Ok(Flow::Next)
            },
            OpCode::Subtract => {
                self.arith_operands(BinaryOp::Subtract, stack_offset)?;
                Ok(Flow::Next)
            },
            OpCode::Multiply => {
                self.arith_operands(BinaryOp::Multiply, stack_offset)?;
                Ok(Flow::Next)
            },
            OpCode::Divide => {
                self.arith_operands(BinaryOp::Divide, stack_offset)?;
                Ok(Flow::Next)
            },
            OpCode::Power => {
                self.arith_operands(BinaryOp::Power, stack_offset)?;
                Ok(Flow::Next)
            },
            OpCode::IntNegate => {
                self.negate_operand(stack_offset)?;
                Ok(Flow::Next)
            },
            OpCode::LogicNegate => {
                self.logic_negate_operand(stack_offset)?;
                Ok(Flow::Next)
            },
            OpCode::Less => {
                self.compare_operand_size(false, false, stack_offset)?;
                Ok(Flow::Next)
            },
            OpCode::LessOrEq => {
                self.compare_operand_size(false, true, stack_offset)?;
                Ok(Flow::Next)
            },
            OpCode::Greater => {
                self.compare_operand_size(true, false, stack_offset)?;
                Ok(Flow::Next)
            },
            OpCode::GreaterOrEq => {
                self.compare_operand_size(true, true, stack_offset)?;
                Ok(Flow::Next)
            },
            OpCode::Eq => {
                self.equate_operands(false, stack_offset)?;
                Ok(Flow::Next)
            },
            OpCode::NotEq => {
                self.equate_operands(true, stack_offset)?;
                Ok(Flow::Next)
            },
            OpCode::Is(type_index) => {
                self.type_test(type_index, stack_offset)?;
                Ok(Flow::Next)
            },
            OpCode::Concat => {
                self.concat(stack_offset)?;
                Ok(Flow::Next)
            },
            OpCode::Jump(conditional, label) => {
                if !conditional {
                    Ok(Flow::Jump(self.jump(top, func, label)?))
                } else {
                    match self.try_jump(top, func, label, stack_offset)? {
                        Some(target) => Ok(Flow::Jump(target)),
                        None => Ok(Flow::Next),
                    }
                }
            },
            OpCode::Call => {
                let (id, callee) = self.bind_call(stack_offset)?;
                Ok(Flow::Call(id, callee))
            },
            OpCode::Return(with_value) => {
                if with_value {
                    let v = self.get_stack_top(stack_offset)?;
                    Ok(Flow::Return(Some(v)))
                } else {
                    Ok(Flow::Return(None))
                }
            },
            OpCode::InitArray(size) => {
                self.make_array(size, stack_offset)?;
                Ok(Flow::Next)
            },
            OpCode::IndexGet => {
                self.index_get(stack_offset)?;
                Ok(Flow::Next)
            },
            OpCode::IndexSet => {
                self.index_set(stack_offset)?;
                Ok(Flow::Next)
            },
            OpCode::EnterScope(size) => {
                self.enter_scope(size, frame)?;
                Ok(Flow::Next)
            },
            OpCode::ExitScope => {
                self.exit_scope(frame);
                Ok(Flow::Next)
            },
            OpCode::Print => {
                self.print(stack_offset)?;
                Ok(Flow::Next)
            },
        }
    }
}


/// Every frame of `acts` lies above `base` and `floor`.
pub open spec fn all_above(acts: Seq<ActView>, base: int, floor: int) -> bool {
    forall|k: int| 0 <= k < acts.len() ==> frame_above(#[trigger] acts[k].frame, base, floor)
}

/// The value an ended activation hands back.
pub open spec fn result_value(res: InstructionResult) -> Option<Instance> {
    match res {
        InstructionResult::ReturnWith(v) => Some(v),
        InstructionResult::Return => None,
    }
}

/// Every frame of an activation stack keeps its declare offset above its
/// open scopes.
pub open spec fn frames_wf(acts: Seq<Activation>) -> bool {
    forall|i: int| 0 <= i < acts.len() ==> frame_wf(#[trigger] acts[i].frame@)
}

impl Activation {
    pub open spec fn view(&self) -> ActView {
        ActView { function: self.function, pc: self.pc, frame: self.frame@ }
    }
}

/// The activation stack, as plain values.
pub open spec fn acts_view(acts: Seq<Activation>) -> Seq<ActView> {
    acts.map_values(|a: Activation| a@)
}

/// The views of a list of types.
pub open spec fn type_views(ts: Seq<Type>) -> Seq<TypeView> {
    ts.map_values(|t: Type| t@)
}

/// The machine after declaring `args` as non-constant slots of `types`.
pub open spec fn with_arguments(m: MachineView, args: Seq<Instance>, types: Seq<TypeView>) -> MachineView {
    MachineView { registers: m.registers + argument_slots(args, types), ..m }
}

impl VM {
    /// Runs `chunk` as the outermost activation, in `frame`, after declaring
    /// `args` as non-constant slots typed by `arg_types`. Calls run nested
    /// activations of function bodies; when one ends, the register slots and
    /// stack values it added are reclaimed and its return value, if any, is
    /// pushed for the caller. At most `fuel` instructions are executed.
    pub fn execute_chunk(&mut self, chunk: &Chunk, frame: CallFrame, args: Vec<Instance>, arg_types: Vec<Type>, fuel: u64) -> (r: Result<InstructionResult, Fault>)
        requires
            old(self).wf(),
            frame_wf(frame@),
        ensures
            final(self).wf(),
            final(self).same_tables(*old(self)),
            !chunk@.locked ==> r == Err::<InstructionResult, Fault>(
                Fault { kind: FaultKind::ChunkUnlocked, pc: 0, function: None },
            ) && final(self)@ == old(self)@,
            chunk@.locked && args@.len() != arg_types@.len() ==> r == Err::<InstructionResult, Fault>(
                Fault { kind: FaultKind::ArityMismatch, pc: 0, function: None },
            ) && final(self)@ == old(self)@,
            chunk@.locked && args@.len() == arg_types@.len() ==> match run_spec(
                with_arguments(old(self)@, args@, type_views(arg_types@)),
                chunk@,
                seq![ActView { function: None, pc: 0, frame: frame@ }],
                fuel as nat,
            ) {
                Ok((m, res)) => r == Ok::<InstructionResult, Fault>(res) && final(self)@ == m,
                Err(f) => r == Err::<InstructionResult, Fault>(f),
            },
    {
        if !chunk.is_locked() {
            return Err(Fault { kind: FaultKind::ChunkUnlocked, pc: 0, function: None });
        }
        if args.len() != arg_types.len() {
            return Err(Fault { kind: FaultKind::ArityMismatch, pc: 0, function: None });
        }
        let ghost types = type_views(arg_types@);
        let mut i: usize = 0;
        while i < args.len()
            invariant
                self.wf(),
                self.same_tables(*old(self)),
                args@.len() == arg_types@.len(),
                types == type_views(arg_types@),
                i <= args@.len(),
                self@ == with_arguments(old(self)@, args@.subrange(0, i as int), types),
            decreases args@.len() - i,
        {
            self.register.declare(false, args[i], arg_types[i].duplicate());
            i = i + 1;
            proof {
                assert(argument_slots(args@.subrange(0, i as int), types) =~= argument_slots(
                    args@.subrange(0, i - 1),
                    types,
                ).push(VariableView { is_const: false, stored: args@[i - 1], ty: types[i - 1] }));
                assert(old(self)@.registers + argument_slots(args@.subrange(0, i as int), types) =~= (
                old(self)@.registers + argument_slots(args@.subrange(0, i - 1), types)).push(
                    VariableView { is_const: false, stored: args@[i - 1], ty: types[i - 1] },
                ));
            }
        }
        proof {
            assert(args@.subrange(0, args@.len() as int) =~= args@);
        }
        let mut acts: Vec<Activation> = Vec::new();
        let ghost frame0 = frame@;
        acts.push(Activation { function: None, pc: 0, frame });
        proof {
            assert(acts_view(acts@) =~= seq![ActView { function: None, pc: 0, frame: frame0 }]);
        }
        self.run_activations(chunk, acts, fuel, Ghost(Seq::empty()), Ghost(Seq::empty()))
    }

    /// Runs the activation stack `acts` (the last one is running) for at
    /// most `fuel` instructions. Register slots `r0` and stack values `s0` at
    /// the bottom stay in place when every frame lies above them.
    #[verifier::rlimit(100)]
    fn run_activations(&mut self, top: &Chunk, initial: Vec<Activation>, fuel: u64, Ghost(r0): Ghost<Seq<VariableView>>, Ghost(s0): Ghost<Seq<Instance>>) -> (r: Result<InstructionResult, Fault>)
        requires
            old(self).wf(),
            initial@.len() >= 1,
            frames_wf(initial@),
        ensures
            final(self).wf(),
            final(self).same_tables(*old(self)),
            match run_spec(old(self)@, top@, acts_view(initial@), fuel as nat) {
                Ok((m, res)) => r == Ok::<InstructionResult, Fault>(res) && final(self)@ == m,
                Err(f) => r == Err::<InstructionResult, Fault>(f),
            },
            keeps_below(old(self)@, r0, s0) && all_above(acts_view(initial@), r0.len() as int, s0.len() as int)
                ==> keeps_below(final(self)@, r0, s0),
    {
        let ghost acts0 = acts_view(initial@);
        let mut acts = initial;
        let ghost pre = keeps_below(self@, r0, s0) && all_above(acts_view(acts@), r0.len() as int, s0.len() as int);
        let ghost goal = run_spec(self@, top@, acts_view(acts@), fuel as nat);
        let mut steps: u64 = 0;
        while steps < fuel
            invariant
                self.wf(),
                self.same_tables(*old(self)),
                acts@.len() >= 1,
                frames_wf(acts@),
                steps <= fuel,
                goal == run_spec(old(self)@, top@, acts0, fuel as nat),
                goal == run_spec(self@, top@, acts_view(acts@), (fuel - steps) as nat),
                pre == (keeps_below(old(self)@, r0, s0) && all_above(acts0, r0.len() as int, s0.len() as int)),
                acts0 == acts_view(initial@),
                pre ==> keeps_below(self@, r0, s0) && all_above(acts_view(acts@), r0.len() as int, s0.len() as int),
            decreases fuel - steps,
        {
            let ghost acts_before = acts_view(acts@);
            let ghost m0 = self@;
            let stack_len = self.stack.len();
            let mut act = acts.pop().unwrap();
            let ghost act0 = act@;
            proof {
                assert(acts_view(acts@) =~= acts_before.drop_last());
                assert(act0 == acts_before.last());
                assert(frame_wf(act.frame@));
                assert(m0.stack.len() == stack_len);
            }
            steps = steps + 1;
            let flow = match self.fetch_op(top, act.function, act.pc) {
                None => Flow::Return(None),
                Some(op) => match self.execute_instruction(op, top, act.function, &mut act.frame) {
                    Ok(flow) => {
                        proof {
                            if pre {
                                lemma_step_keeps_below(m0, op, self.chunk_of(top@, act0.function), act0.frame, r0, s0);
                            }
                        }
                        flow
                    },
                    Err(kind) => return Err(Fault { kind, pc: act.pc, function: act.function }),
                },
            };
            let ghost rest = acts_view(acts@);
            proof {
                if pre {
                    assert(frame_above(act.frame@, r0.len() as int, s0.len() as int));
                    assert(all_above(rest, r0.len() as int, s0.len() as int));
                }
            }
            match flow {
                Flow::Next => {
                    act.pc = act.pc + 1;
                    acts.push(act);
                    proof {
                        assert(acts_view(acts@) =~= rest.push(act@));
                    }
                },
                Flow::Jump(target) => {
                    act.pc = target;
                    acts.push(act);
                    proof {
                        assert(acts_view(acts@) =~= rest.push(act@));
                    }
                },
                Flow::Call(id, callee) => {
                    act.pc = act.pc + 1;
                    acts.push(act);
                    let ghost callee_view = callee@;
                    acts.push(Activation { function: Some(id), pc: 0, frame: callee });
                    proof {
                        assert(acts_view(acts@) =~= rest.push(act@).push(
                            ActView { function: Some(id), pc: 0, frame: callee_view },
                        ));
                    }
                },
                Flow::Return(value) => {
                    if acts.len() == 0 {
                        return Ok(
                            match value {
                                Some(v) => InstructionResult::ReturnWith(v),
                                None => InstructionResult::Return,
                            },
                        );
                    }
                    let ghost m2 = self@;
                    self.register.truncate(act.frame.register_access_offset() as usize);
                    self.stack.truncate(act.frame.stack_offset());
                    match value {
                        Some(v) => self.stack.push(v),
                        None => {},
                    }
                    proof {
                        assert(self@ == returned(m2, act.frame@, value));
                        if pre {
                            lemma_return_keeps_below(m2, act.frame@, value, r0, s0);
                        }
                    }
                },
            }
        }
        let last = acts.len() - 1;
        Err(Fault { kind: FaultKind::StepLimit, pc: acts[last].pc, function: acts[last].function })
    }

    /// `Call`, whole: pops a function value and its arguments, runs the
    /// function's body for at most `fuel` instructions, then reclaims the
    /// callee's register slots and stack values and pushes its return value,
    /// if any. The caller's register file comes back with the same length
    /// and slots, and its stack is as before the arguments were pushed, plus
    /// the returned value. A fault names the calling instruction (`pc` in
    /// the chunk of `func`) when the binding fails, else the callee's own.
    pub fn call_func(&mut self, top: &Chunk, func: Option<usize>, pc: usize, stack_offset: usize, fuel: u64) -> (r: Result<Option<Instance>, Fault>)
        requires
            old(self).wf(),
        ensures
            final(self).wf(),
            final(self).same_tables(*old(self)),
            match call_spec(old(self)@, stack_offset as int) {
                Err(kind) => r == Err::<Option<Instance>, Fault>(Fault { kind, pc, function: func }) && final(self)@
                    == old(self)@,
                Ok((m1, id, cf)) => match run_spec(
                    m1,
                    top@,
                    seq![ActView { function: Some(id), pc: 0, frame: cf }],
                    fuel as nat,
                ) {
                    Ok((m2, res)) => r == Ok::<Option<Instance>, Fault>(result_value(res))
                        && final(self)@ == returned(m2, cf, result_value(res))
                        && final(self)@.registers == old(self)@.registers
                        && final(self)@.stack == below(old(self)@.stack, old(self)@.params[id as int].len() as int + 1)
                            + match result_value(res) {
                            Some(v) => seq![v],
                            None => Seq::<Instance>::empty(),
                        },
                    Err(f) => r == Err::<Option<Instance>, Fault>(f),
                },
            },
    {
        let depth = self.stack.len();
        proof {
            assert(old(self)@.stack.len() == depth);
        }
        let (id, callee) = match self.bind_call(stack_offset) {
            Ok(bound) => bound,
            Err(kind) => return Err(Fault { kind, pc, function: func }),
        };
        let base = callee.register_access_offset() as usize;
        let floor = callee.stack_offset();
        let ghost r0 = self@.registers.subrange(0, base as int);
        let ghost s0 = self@.stack.subrange(0, floor as int);
        let ghost cf = callee@;
        let ghost m1 = self@;
        proof {
            assert(r0 =~= old(self)@.registers);
            assert(s0 =~= self@.stack);
            assert(keeps_below(self@, r0, s0));
        }
        let mut acts: Vec<Activation> = Vec::new();
        acts.push(Activation { function: Some(id), pc: 0, frame: callee });
        proof {
            assert(acts_view(acts@) =~= seq![ActView { function: Some(id), pc: 0, frame: cf }]);
            assert(all_above(acts_view(acts@), r0.len() as int, s0.len() as int));
        }
        let res = self.run_activations(top, acts, fuel, Ghost(r0), Ghost(s0))?;
        let ghost m2 = self@;
        self.register.truncate(base);
        self.stack.truncate(floor);
        let value = match res {
            InstructionResult::ReturnWith(v) => {
                self.stack.push(v);
                Some(v)
            },
            InstructionResult::Return => None,
        };
        proof {
            assert(self@ == returned(m2, cf, value));
            assert(self@.registers =~= r0);
            match value {
                Some(v) => assert(self@.stack =~= s0 + seq![v]),
                None => assert(self@.stack =~= s0 + Seq::<Instance>::empty()),
            }
        }
        Ok(value)
    }
}

} // verus!
