use vstd::prelude::*;
use crate::fault::FaultKind;
use crate::instance::Instance;
use crate::types::{Type, TypeView, type_is};

verus! {

/// A named, typed, mutable slot.
pub struct Variable {
    is_const: bool,
    stored: Instance,
    ty: Type,
}

/// What a `Variable` holds, as plain values.
pub struct VariableView {
    pub is_const: bool,
    pub stored: Instance,
    pub ty: TypeView,
}

/// Writing `x` into `v`: refused for a constant slot or a value that is not
/// of the slot's type.
pub open spec fn assign_spec(v: VariableView, x: Instance) -> Result<VariableView, FaultKind> {
    if v.is_const || !type_is(v.ty, x) {
        Err(FaultKind::TypeMismatch)
    } else {
        Ok(VariableView { stored: x, ..v })
    }
}

impl Variable {
    pub closed spec fn view(&self) -> VariableView {
        VariableView { is_const: self.is_const, stored: self.stored, ty: self.ty@ }
    }

    pub fn new(is_const: bool, stored: Instance, ty: Type) -> (r: Variable)
        ensures
            r@ == (VariableView { is_const, stored, ty: ty@ }),
    {
        Variable { is_const, stored, ty }
    }

    /// The value held.
    pub fn get(&self) -> (r: Instance)
        ensures
            r == self@.stored,
    {
        self.stored
    }

    /// Writes `instance`, unless the slot is constant or of another type.
    pub fn set(&mut self, instance: Instance) -> (r: Result<(), FaultKind>)
        ensures
            match assign_spec(old(self)@, instance) {
                Ok(v) => r is Ok && final(self)@ == v,
                Err(e) => r == Err::<(), FaultKind>(e) && final(self)@ == old(self)@,
            },
    {
        if self.is_const {
            return Err(FaultKind::TypeMismatch);
        }
        if self.ty.is(&instance) {
            self.stored = instance;
            return Ok(());
        }
        Err(FaultKind::TypeMismatch)
    }
}

/// An indexed store of typed variable slots, reclaimed only by truncation.
pub struct Register {
    slots: Vec<Variable>,
}

/// Reading slot `i`.
pub open spec fn read_spec(s: Seq<VariableView>, i: int) -> Result<Instance, FaultKind> {
    if 0 <= i < s.len() {
        Ok(s[i].stored)
    } else {
        Err(FaultKind::RegisterAbsent)
    }
}

/// Writing `x` into slot `i`.
pub open spec fn write_spec(s: Seq<VariableView>, i: int, x: Instance) -> Result<Seq<VariableView>, FaultKind> {
    if 0 <= i < s.len() {
        match assign_spec(s[i], x) {
            Ok(v) => Ok(s.update(i, v)),
            Err(e) => Err(e),
        }
    } else {
        Err(FaultKind::RegisterAbsent)
    }
}

/// Truncating to `n` slots: every slot from index `n` on is removed.
pub open spec fn truncate_spec(s: Seq<VariableView>, n: int) -> Seq<VariableView> {
    if n < s.len() {
        s.subrange(0, n)
    } else {
        s
    }
}

/// After truncating to `n` (at most the current size), the next declaration
/// lands at index `n`, the slots below `n` are untouched and nothing is
/// left at or above `n` but the new slot.
pub proof fn lemma_truncate_then_declare(s: Seq<VariableView>, n: int, v: VariableView)
    requires
        0 <= n <= s.len(),
    ensures
        truncate_spec(s, n).len() == n,
        truncate_spec(s, n).push(v).len() == n + 1,
        truncate_spec(s, n).push(v)[n] == v,
        forall|i: int| 0 <= i < n ==> truncate_spec(s, n).push(v)[i] == s[i],
        forall|i: int| i > n ==> read_spec(truncate_spec(s, n).push(v), i) == Err::<Instance, FaultKind>(FaultKind::RegisterAbsent),
{
}

/// A value declared into a slot reads back unchanged.
pub proof fn lemma_declare_then_get(s: Seq<VariableView>, x: Instance, t: TypeView, is_const: bool)
    ensures
        read_spec(s.push(VariableView { is_const, stored: x, ty: t }), s.len() as int) == Ok::<Instance, FaultKind>(x),
{
}

impl Register {
    pub closed spec fn view(&self) -> Seq<VariableView> {
        self.slots@.map_values(|v: Variable| v@)
    }

    pub fn new() -> (r: Register)
        ensures
            r@ == Seq::<VariableView>::empty(),
    {
        let r = Register { slots: Vec::new() };
        proof {
            assert(r@ =~= Seq::<VariableView>::empty());
        }
        r
    }

    /// Number of slots.
    pub fn len(&self) -> (r: usize)
        ensures
            r == self@.len(),
    {
        self.slots.len()
    }

    /// Appends a slot and returns its index.
    pub fn declare(&mut self, is_const: bool, instance: Instance, ty: Type) -> (r: usize)
        ensures
            final(self)@ == old(self)@.push(VariableView { is_const, stored: instance, ty: ty@ }),
            r == old(self)@.len(),
    {
        let index = self.slots.len();
        let ghost before = self@;
        let variable = Variable::new(is_const, instance, ty);
        self.slots.push(variable);
        proof {
            assert(self@ =~= before.push(VariableView { is_const, stored: instance, ty: ty@ }));
        }
        index
    }

    /// Writes `instance` into slot `index`.
    pub fn set(&mut self, index: usize, instance: Instance) -> (r: Result<(), FaultKind>)
        ensures
            match write_spec(old(self)@, index as int, instance) {
                Ok(s) => r is Ok && final(self)@ == s,
                Err(e) => r == Err::<(), FaultKind>(e) && final(self)@ == old(self)@,
            },
    {
        if index >= self.slots.len() {
            return Err(FaultKind::RegisterAbsent);
        }
        let ghost before = self@;
        let r = self.slots[index].set(instance);
        proof {
            match write_spec(before, index as int, instance) {
                Ok(s) => {
                    assert(self@ =~= s);
                },
                Err(e) => {
                    assert(self@ =~= before);
                },
            }
        }
        r
    }

    /// The value in slot `index`.
    pub fn get(&self, index: usize) -> (r: Result<Instance, FaultKind>)
        ensures
            r == read_spec(self@, index as int),
    {
        if index < self.slots.len() {
            Ok(self.slots[index].get())
        } else {
            Err(FaultKind::RegisterAbsent)
        }
    }

    /// Removes every slot with index `to_size` or more.
    pub fn truncate(&mut self, to_size: usize)
        ensures
            final(self)@ == truncate_spec(old(self)@, to_size as int),
    {
        let ghost before = self@;
        self.slots.truncate(to_size);
        proof {
            assert(self@ =~= truncate_spec(before, to_size as int));
        }
    }
}

} // verus!
