use vstd::prelude::*;
use crate::fault::FaultKind;
use crate::instance::Instance;
use crate::types::{Type, TypeView, type_is};

verus! {

/// A shared array: its elements and its inferred element type.
pub struct ArrayObj {
    items: Vec<Instance>,
    elem_type: Type,
}

/// What an `ArrayObj` holds, as plain values.
pub struct ArrayView {
    pub items: Seq<Instance>,
    pub elem: TypeView,
}

/// Storage for every array of a machine; an array handle is an index here.
pub struct ArrayHeap {
    arrays: Vec<ArrayObj>,
}

/// Reading element `i` of array `h`.
pub open spec fn item_spec(heap: Seq<ArrayView>, h: int, i: int) -> Result<Instance, FaultKind> {
    if 0 <= h < heap.len() && 0 <= i < heap[h].items.len() {
        Ok(heap[h].items[i])
    } else {
        Err(FaultKind::IndexOutOfBounds)
    }
}

/// Writing `x` as element `i` of array `h`: the index must exist and `x`
/// must be of the array's element type.
pub open spec fn set_item_spec(heap: Seq<ArrayView>, h: int, i: int, x: Instance) -> Result<Seq<ArrayView>, FaultKind> {
    if !(0 <= h < heap.len() && 0 <= i < heap[h].items.len()) {
        Err(FaultKind::IndexOutOfBounds)
    } else if !type_is(heap[h].elem, x) {
        Err(FaultKind::TypeMismatch)
    } else {
        Ok(heap.update(h, ArrayView { items: heap[h].items.update(i, x), elem: heap[h].elem }))
    }
}

impl ArrayObj {
    pub closed spec fn view(&self) -> ArrayView {
        ArrayView { items: self.items@, elem: self.elem_type@ }
    }
}

impl ArrayHeap {
    pub closed spec fn view(&self) -> Seq<ArrayView> {
        self.arrays@.map_values(|a: ArrayObj| a@)
    }

    pub fn new() -> (r: ArrayHeap)
        ensures
            r@ == Seq::<ArrayView>::empty(),
    {
        let r = ArrayHeap { arrays: Vec::new() };
        proof {
            assert(r@ =~= Seq::<ArrayView>::empty());
        }
        r
    }

    /// Number of arrays.
    pub fn len(&self) -> (r: usize)
        ensures
            r == self@.len(),
    {
        self.arrays.len()
    }

    /// Stores a new array and returns its handle.
    pub fn allocate(&mut self, items: Vec<Instance>, elem_type: Type) -> (r: usize)
        ensures
            final(self)@ == old(self)@.push(ArrayView { items: items@, elem: elem_type@ }),
            r == old(self)@.len(),
    {
        let index = self.arrays.len();
        let ghost before = self@;
        let ghost added = ArrayView { items: items@, elem: elem_type@ };
        self.arrays.push(ArrayObj { items, elem_type });
        proof {
            assert(self@ =~= before.push(added));
        }
        index
    }

    /// The elements of array `h`.
    pub fn items(&self, h: usize) -> (r: &Vec<Instance>)
        requires
            h < self@.len(),
        ensures
            r@ == self@[h as int].items,
    {
        &self.arrays[h].items
    }

    /// The element type of array `h`.
    pub fn elem_type(&self, h: usize) -> (r: &Type)
        requires
            h < self@.len(),
        ensures
            r@ == self@[h as int].elem,
    {
        &self.arrays[h].elem_type
    }

    /// Element `i` of array `h`.
    pub fn get_item(&self, h: usize, i: usize) -> (r: Result<Instance, FaultKind>)
        ensures
            r == item_spec(self@, h as int, i as int),
    {
        if h < self.arrays.len() && i < self.arrays[h].items.len() {
            Ok(self.arrays[h].items[i])
        } else {
            Err(FaultKind::IndexOutOfBounds)
        }
    }

    /// Replaces element `i` of array `h` with `x`; on a fault the heap is
    /// left unmodified.
    pub fn set_item(&mut self, h: usize, i: usize, x: Instance) -> (r: Result<(), FaultKind>)
        ensures
            match set_item_spec(old(self)@, h as int, i as int, x) {
                Ok(s) => r is Ok && final(self)@ == s,
                Err(e) => r == Err::<(), FaultKind>(e) && final(self)@ == old(self)@,
            },
    {
        if !(h < self.arrays.len() && i < self.arrays[h].items.len()) {
            return Err(FaultKind::IndexOutOfBounds);
        }
        if !self.arrays[h].elem_type.is(&x) {
            return Err(FaultKind::TypeMismatch);
        }
        let ghost before = self@;
        self.arrays[h].items.set(i, x);
        proof {
            assert(self@ =~= before.update(
                h as int,
                ArrayView { items: before[h as int].items.update(i as int, x), elem: before[h as int].elem },
            ));
        }
        Ok(())
    }
}

} // verus!
