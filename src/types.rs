use vstd::prelude::*;
use crate::instance::{Instance, instance_name, object_name, builtin_name, BUILTIN_TYPE_COUNT};

verus! {

/// A nominal type: a canonical dotted name, whether it is generic, and, once
/// reified, the canonical names of its type arguments.
pub struct Type {
    canonical_name: String,
    is_generic: bool,
    type_args: Vec<String>,
}

/// What a `Type` holds, as plain values.
pub struct TypeView {
    pub name: Seq<char>,
    pub generic: bool,
    pub args: Seq<Seq<char>>,
}

/// `t.is(x)`: the type is the root type, or names `x`'s intrinsic type.
pub open spec fn type_is(t: TypeView, x: Instance) -> bool {
    t.name == object_name() || t.name == instance_name(x)
}

/// Type arguments joined by commas.
pub open spec fn joined(args: Seq<Seq<char>>) -> Seq<char>
    decreases args.len(),
{
    if args.len() == 0 {
        Seq::empty()
    } else if args.len() == 1 {
        args[0]
    } else {
        joined(args.drop_last()) + ","@ + args.last()
    }
}

/// The full canonical name: the base name, followed by the type arguments in
/// angle brackets when there are any.
pub open spec fn full_name(t: TypeView) -> Seq<char> {
    if t.args.len() == 0 {
        t.name
    } else {
        t.name + "<"@ + joined(t.args) + ">"@
    }
}

/// The root type matches every value.
pub proof fn lemma_object_is_universal(t: TypeView, x: Instance)
    requires
        t.name == object_name(),
    ensures
        type_is(t, x),
{
}

/// A type other than the root type matches exactly the values whose
/// intrinsic canonical name is its own.
pub proof fn lemma_is_by_name(t: TypeView, x: Instance)
    requires
        t.name != object_name(),
    ensures
        type_is(t, x) <==> t.name == instance_name(x),
{
}

fn copy_strings(v: &Vec<String>) -> (r: Vec<String>)
    ensures
        r@.map_values(|s: String| s@) == v@.map_values(|s: String| s@),
{
    let mut r: Vec<String> = Vec::new();
    let mut i: usize = 0;
    while i < v.len()
        invariant
            i <= v.len(),
            r@.map_values(|s: String| s@) == v@.subrange(0, i as int).map_values(|s: String| s@),
        decreases v.len() - i,
    {
        r.push(v[i].clone());
        i = i + 1;
        proof {
            assert(v@.subrange(0, i as int).map_values(|s: String| s@) =~= v@.subrange(0, i - 1).map_values(
                |s: String| s@,
            ).push(v@[i - 1]@));
        }
    }
    proof {
        assert(v@.subrange(0, v.len() as int) =~= v@);
    }
    r
}

impl Type {
    pub closed spec fn view(&self) -> TypeView {
        TypeView {
            name: self.canonical_name@,
            generic: self.is_generic,
            args: self.type_args@.map_values(|s: String| s@),
        }
    }

    /// A non-generic type named `canonical_name`.
    pub fn new(canonical_name: String) -> (r: Type)
        ensures
            r@ == (TypeView { name: canonical_name@, generic: false, args: Seq::empty() }),
    {
        let r = Type { canonical_name, is_generic: false, type_args: Vec::new() };
        proof {
            assert(r@.args =~= Seq::<Seq<char>>::empty());
        }
        r
    }

    /// A generic type named `canonical_name`, not yet reified.
    pub fn new_generic(canonical_name: String) -> (r: Type)
        ensures
            r@ == (TypeView { name: canonical_name@, generic: true, args: Seq::empty() }),
    {
        let r = Type { canonical_name, is_generic: true, type_args: Vec::new() };
        proof {
            assert(r@.args =~= Seq::<Seq<char>>::empty());
        }
        r
    }

    /// The base canonical name, without type arguments.
    pub fn name(&self) -> (r: &String)
        ensures
            r@ == self@.name,
    {
        &self.canonical_name
    }

    pub fn is_generic(&self) -> (r: bool)
        ensures
            r == self@.generic,
    {
        self.is_generic
    }

    /// A second, independent value of this type.
    pub fn duplicate(&self) -> (r: Type)
        ensures
            r@ == self@,
    {
        Type {
            canonical_name: self.canonical_name.clone(),
            is_generic: self.is_generic,
            type_args: copy_strings(&self.type_args),
        }
    }

    /// The full canonical name, with the type arguments if there are any.
    pub fn get_canonical_name(&self) -> (r: String)
        ensures
            r@ == full_name(self@),
    {
        let mut actual_name = self.canonical_name.clone();
        let n = self.type_args.len();
        if n > 0 {
            let ghost args = self@.args;
            actual_name.append("<");
            let ghost base = actual_name@;
            let mut i: usize = 0;
            while i < n
                invariant
                    n == self.type_args.len(),
                    args == self@.args,
                    args.len() == n,
                    i <= n,
                    actual_name@ == base + joined(args.subrange(0, i as int)),
                decreases n - i,
            {
                if i > 0 {
                    actual_name.append(",");
                }
                actual_name.append(self.type_args[i].as_str());
                i = i + 1;
                proof {
                    let s = args.subrange(0, i as int);
                    assert(s.drop_last() =~= args.subrange(0, i - 1));
                    assert(s.last() == args[i - 1]);
                    if i == 1 {
                        assert(args.subrange(0, 0) =~= Seq::<Seq<char>>::empty());
                    }
                }
            }
            actual_name.append(">");
            proof {
                assert(args.subrange(0, n as int) =~= args);
            }
        }
        actual_name
    }

    /// The type made from this generic type by supplying `type_args`;
    /// `None` when this type is not generic.
    pub fn reify(&self, type_args: Vec<Type>) -> (r: Option<Type>)
        ensures
            !self@.generic ==> r is None,
            self@.generic ==> r is Some && r->0@.name == self@.name && !r->0@.generic
                && r->0@.args.len() == type_args@.len()
                && forall|i: int| 0 <= i < type_args@.len() ==> r->0@.args[i] == full_name(
                    #[trigger] type_args@[i]@,
                ),
    {
        if !self.is_generic {
            return None;
        }
        let mut names: Vec<String> = Vec::new();
        let mut i: usize = 0;
        while i < type_args.len()
            invariant
                i <= type_args.len(),
                names@.len() == i,
                forall|k: int| 0 <= k < i ==> names@[k]@ == full_name(#[trigger] type_args@[k]@),
            decreases type_args.len() - i,
        {
            names.push(type_args[i].get_canonical_name());
            i = i + 1;
        }
        Some(Type { canonical_name: self.canonical_name.clone(), is_generic: false, type_args: names })
    }

    /// Whether `instance` is a value of this type.
    pub fn is(&self, instance: &Instance) -> (r: bool)
        ensures
            r == type_is(self@, *instance),
    {
        let object = "silicon.lang.Object".to_string();
        self.canonical_name == object || self.canonical_name == instance.get_canonical_name()
    }
}


/// The catalogue of built-in types, addressable by dense index or by name.
pub struct TypeRegistry {
    types: Vec<Type>,
}

/// The registry holds exactly the built-in catalogue.
pub open spec fn is_builtin_catalogue(types: Seq<TypeView>) -> bool {
    &&& types.len() == BUILTIN_TYPE_COUNT as int
    &&& forall|i: int|
        0 <= i < types.len() ==> (#[trigger] types[i]) == (TypeView {
            name: builtin_name(i),
            generic: false,
            args: Seq::empty(),
        })
}

/// Index of the first type in `types` named `name`, if any.
pub open spec fn first_named(types: Seq<TypeView>, name: Seq<char>) -> Option<int> {
    if exists|i: int| 0 <= i < types.len() && types[i].name == name {
        Some(
            choose|i: int|
                0 <= i < types.len() && types[i].name == name && forall|k: int|
                    0 <= k < i ==> types[k].name != name,
        )
    } else {
        None
    }
}

impl TypeRegistry {
    pub closed spec fn view(&self) -> Seq<TypeView> {
        self.types@.map_values(|t: Type| t@)
    }

    /// A registry holding the built-in catalogue, `Object` at index 0.
    pub fn new() -> (r: TypeRegistry)
        ensures
            is_builtin_catalogue(r@),
    {
        let mut registry = TypeRegistry { types: Vec::new() };
        registry.register(Type::new("silicon.lang.Object".to_string()));
        registry.register(Type::new("silicon.lang.Boolean".to_string()));
        registry.register(Type::new("silicon.lang.Byte".to_string()));
        registry.register(Type::new("silicon.lang.UByte".to_string()));
        registry.register(Type::new("silicon.lang.Int16".to_string()));
        registry.register(Type::new("silicon.lang.UInt16".to_string()));
        registry.register(Type::new("silicon.lang.Int32".to_string()));
        registry.register(Type::new("silicon.lang.UInt32".to_string()));
        registry.register(Type::new("silicon.lang.Int64".to_string()));
        registry.register(Type::new("silicon.lang.UInt64".to_string()));
        registry.register(Type::new("silicon.lang.Int128".to_string()));
        registry.register(Type::new("silicon.lang.UInt128".to_string()));
        registry.register(Type::new("silicon.lang.Float32".to_string()));
        registry.register(Type::new("silicon.lang.Float64".to_string()));
        registry.register(Type::new("silicon.lang.Char".to_string()));
        registry.register(Type::new("silicon.lang.String".to_string()));
        registry.register(Type::new("silicon.lang.Array".to_string()));
        registry.register(Type::new("silicon.lang.Func".to_string()));
        proof {
            assert forall|i: int| 0 <= i < registry@.len() implies (#[trigger] registry@[i]) == (TypeView {
                name: builtin_name(i),
                generic: false,
                args: Seq::empty(),
            }) by {
                assert(registry@[i] == registry.types@[i]@);
            }
        }
        registry
    }

    /// Appends `ty` under the next free index.
    pub fn register(&mut self, ty: Type) -> (r: usize)
        ensures
            final(self)@ == old(self)@.push(ty@),
            r == old(self)@.len(),
    {
        let index = self.types.len();
        let ghost before = self@;
        self.types.push(ty);
        proof {
            assert(self@ =~= before.push(ty@));
        }
        index
    }

    /// Number of registered types.
    pub fn len(&self) -> (r: usize)
        ensures
            r == self@.len(),
    {
        self.types.len()
    }

    /// The type at `index`; `None` if no type has that index.
    pub fn get(&self, index: u16) -> (r: Option<&Type>)
        ensures
            (index as int) < self@.len() ==> r is Some && r->0@ == self@[index as int],
            (index as int) >= self@.len() ==> r is None,
    {
        if (index as usize) < self.types.len() {
            Some(&self.types[index as usize])
        } else {
            None
        }
    }

    /// The first type named `name`; `None` if no type has that name.
    pub fn get_by_name(&self, name: &String) -> (r: Option<&Type>)
        ensures
            match first_named(self@, name@) {
                Some(i) => r is Some && r->0@ == self@[i],
                None => r is None,
            },
    {
        let mut i: usize = 0;
        while i < self.types.len()
            invariant
                i <= self.types.len(),
                forall|k: int| 0 <= k < i ==> self@[k].name != name@,
            decreases self.types.len() - i,
        {
            if self.types[i].name().eq(name) {
                proof {
                    assert(self@[i as int].name == name@);
                    let j = choose|j: int|
                        0 <= j < self@.len() && self@[j].name == name@ && forall|k: int|
                            0 <= k < j ==> self@[k].name != name@;
                    assert(j == i);
                }
                return Some(&self.types[i]);
            }
            i = i + 1;
        }
        None
    }
}

} // verus!
