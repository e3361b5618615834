use vstd::prelude::*;

verus! {

/// A runtime value.
///
/// Strings, arrays and functions are handles: a string handle indexes the
/// machine's interner, an array handle its array heap, a function handle its
/// function table. Two values holding the same handle share the referent,
/// so a write through one alias is seen through every other.
#[derive(Clone, Copy, Debug, PartialEq, Eq, Structural)]
pub enum Instance {
    Bool(bool),
    Byte(i8),
    UByte(u8),
    Int16(i16),
    UInt16(u16),
    Int32(i32),
    UInt32(u32),
    Int64(i64),
    UInt64(u64),
    Int128(i128),
    UInt128(u128),
    Char(char),
    Str(usize),
    Array(usize),
    Func(usize),
    Void,
}

/// Index of the root type `Object` in the built-in catalogue.
pub const OBJECT_TYPE: u16 = 0;

/// Number of types in the built-in catalogue.
pub const BUILTIN_TYPE_COUNT: u16 = 18;

/// Canonical name of the built-in type with catalogue index `id`.
pub open spec fn builtin_name(id: int) -> Seq<char> {
    if id == 0 {
        "silicon.lang.Object"@
    } else if id == 1 {
        "silicon.lang.Boolean"@
    } else if id == 2 {
        "silicon.lang.Byte"@
    } else if id == 3 {
        "silicon.lang.UByte"@
    } else if id == 4 {
        "silicon.lang.Int16"@
    } else if id == 5 {
        "silicon.lang.UInt16"@
    } else if id == 6 {
        "silicon.lang.Int32"@
    } else if id == 7 {
        "silicon.lang.UInt32"@
    } else if id == 8 {
        "silicon.lang.Int64"@
    } else if id == 9 {
        "silicon.lang.UInt64"@
    } else if id == 10 {
        "silicon.lang.Int128"@
    } else if id == 11 {
        "silicon.lang.UInt128"@
    } else if id == 12 {
        "silicon.lang.Float32"@
    } else if id == 13 {
        "silicon.lang.Float64"@
    } else if id == 14 {
        "silicon.lang.Char"@
    } else if id == 15 {
        "silicon.lang.String"@
    } else if id == 16 {
        "silicon.lang.Array"@
    } else {
        "silicon.lang.Func"@
    }
}

/// The canonical name of the root type.
pub open spec fn object_name() -> Seq<char> {
    "silicon.lang.Object"@
}

/// The intrinsic canonical name of a value.
pub open spec fn instance_name(x: Instance) -> Seq<char> {
    match x {
        Instance::Bool(_) => "silicon.lang.Boolean"@,
        Instance::Byte(_) => "silicon.lang.Byte"@,
        Instance::UByte(_) => "silicon.lang.UByte"@,
        Instance::Int16(_) => "silicon.lang.Int16"@,
        Instance::UInt16(_) => "silicon.lang.UInt16"@,
        Instance::Int32(_) => "silicon.lang.Int32"@,
        Instance::UInt32(_) => "silicon.lang.UInt32"@,
        Instance::Int64(_) => "silicon.lang.Int64"@,
        Instance::UInt64(_) => "silicon.lang.UInt64"@,
        Instance::Int128(_) => "silicon.lang.Int128"@,
        Instance::UInt128(_) => "silicon.lang.UInt128"@,
        Instance::Char(_) => "silicon.lang.Char"@,
        Instance::Str(_) => "silicon.lang.String"@,
        Instance::Array(_) => "silicon.lang.Array"@,
        Instance::Func(_) => "silicon.lang.Func"@,
        Instance::Void => "silicon.lang.Void"@,
    }
}

impl Instance {
    /// The canonical name of this value's intrinsic type.
    pub fn get_canonical_name(&self) -> (r: String)
        ensures
            r@ == instance_name(*self),
    {
        let name: &str = match self {
            Instance::Bool(_) => "silicon.lang.Boolean",
            Instance::Byte(_) => "silicon.lang.Byte",
            Instance::UByte(_) => "silicon.lang.UByte",
            Instance::Int16(_) => "silicon.lang.Int16",
            Instance::UInt16(_) => "silicon.lang.UInt16",
            Instance::Int32(_) => "silicon.lang.Int32",
            Instance::UInt32(_) => "silicon.lang.UInt32",
            Instance::Int64(_) => "silicon.lang.Int64",
            Instance::UInt64(_) => "silicon.lang.UInt64",
            Instance::Int128(_) => "silicon.lang.Int128",
            Instance::UInt128(_) => "silicon.lang.UInt128",
            Instance::Char(_) => "silicon.lang.Char",
            Instance::Str(_) => "silicon.lang.String",
            Instance::Array(_) => "silicon.lang.Array",
            Instance::Func(_) => "silicon.lang.Func",
            Instance::Void => "silicon.lang.Void",
        };
        name.to_string()
    }
}


/// Catalogue index of a value's intrinsic type; `Void` has the index just
/// past the catalogue, since no type of the catalogue names it.
pub open spec fn type_index(x: Instance) -> int {
    match x {
        Instance::Bool(_) => 1,
        Instance::Byte(_) => 2,
        Instance::UByte(_) => 3,
        Instance::Int16(_) => 4,
        Instance::UInt16(_) => 5,
        Instance::Int32(_) => 6,
        Instance::UInt32(_) => 7,
        Instance::Int64(_) => 8,
        Instance::UInt64(_) => 9,
        Instance::Int128(_) => 10,
        Instance::UInt128(_) => 11,
        Instance::Char(_) => 14,
        Instance::Str(_) => 15,
        Instance::Array(_) => 16,
        Instance::Func(_) => 17,
        Instance::Void => 18,
    }
}

/// Two values are of the same variant.
pub open spec fn same_variant(l: Instance, r: Instance) -> bool {
    type_index(l) == type_index(r)
}

impl Instance {
    /// Catalogue index of this value's intrinsic type.
    pub fn type_index(&self) -> (r: u16)
        ensures
            r as int == type_index(*self),
    {
        match self {
            Instance::Bool(_) => 1,
            Instance::Byte(_) => 2,
            Instance::UByte(_) => 3,
            Instance::Int16(_) => 4,
            Instance::UInt16(_) => 5,
            Instance::Int32(_) => 6,
            Instance::UInt32(_) => 7,
            Instance::Int64(_) => 8,
            Instance::UInt64(_) => 9,
            Instance::Int128(_) => 10,
            Instance::UInt128(_) => 11,
            Instance::Char(_) => 14,
            Instance::Str(_) => 15,
            Instance::Array(_) => 16,
            Instance::Func(_) => 17,
            Instance::Void => 18,
        }
    }
}

} // verus!
