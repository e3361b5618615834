use vstd::prelude::*;

verus! {

/// A value of the tree-walking front end: text or a natural number.
pub enum Type {
    String(String),
    Num(u64),
}

/// What a `Type` holds, as plain values.
pub enum Val {
    Text(Seq<char>),
    Num(u64),
}

impl Type {
    pub open spec fn view(&self) -> Val {
        match self {
            Type::String(s) => Val::Text(s@),
            Type::Num(n) => Val::Num(*n),
        }
    }

    /// A second, independent copy of this value.
    pub fn duplicate(&self) -> (r: Type)
        ensures
            r@ == self@,
    {
        match self {
            Type::String(s) => Type::String(s.clone()),
            Type::Num(n) => Type::Num(*n),
        }
    }
}

} // verus!
