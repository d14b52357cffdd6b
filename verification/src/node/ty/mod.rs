use vstd::prelude::*;

pub mod assign;
pub mod bytes;
pub mod list;
pub mod option;
pub mod primitive;
pub mod ptr;
pub mod reference;



pub use primitive::{kinds_compatible, PrimitiveKind, PrimitiveTypeEnum};
pub use list::{ListAllocation, ListDescriptor};
pub use option::OptionFlags;
pub use ptr::is_pointer;


verus! {

/// Size in bytes of an allocation pointer stored inside a value.
pub const POINTER_SIZE: usize = 8;

/// Points at a dynamically allocated value: the index of its slot in the allocator.
#[derive(Debug, Clone, Copy, PartialEq, Eq, Structural, Hash)]
pub struct AllocationPointer {
    pub index: u64,
}

/// The type of the value carried by a channel.
#[derive(Debug, Hash, PartialEq, Eq)]
pub enum TypeEnum {
    Shared(Shared),
    Unique(Unique),
    Primitive(PrimitiveTypeEnum),
    Option(OptionType),
    Array(ArrayType),
    List(ListType),
    Texture(TextureType),
}

/// A shared (reference-counted, read-only) pointer to a value of `child_ty`.
#[derive(Debug, Hash, PartialEq, Eq)]
pub struct Shared {
    pub child_ty: Box<TypeEnum>,
}

/// A uniquely owned pointer to a value of `child_ty`.
#[derive(Debug, Hash, PartialEq, Eq)]
pub struct Unique {
    pub child_ty: Box<TypeEnum>,
}

/// A value of `child_ty` followed by a presence flag byte.
#[derive(Debug, Hash, PartialEq, Eq)]
pub struct OptionType {
    pub child_ty: Box<TypeEnum>,
}

/// `len` consecutive values of `item_type`.
#[derive(Debug, Hash, PartialEq, Eq)]
pub struct ArrayType {
    pub item_type: Box<TypeEnum>,
    pub len: usize,
}

/// A dynamically sized list of values of `child_ty`, allocated on the heap.
#[derive(Debug, Hash, PartialEq, Eq)]
pub struct ListType {
    pub child_ty: Box<TypeEnum>,
}

/// A GPU texture, allocated on the heap.
#[derive(Debug, Hash, PartialEq, Eq)]
pub struct TextureType {}

/// A pattern a type can be resolved against: a concrete type constructor whose children are
/// patterns again, or the wildcard that stands for any type.
pub enum TypeDesc {
    Wildcard,
    Shared(Box<TypeDesc>),
    Unique(Box<TypeDesc>),
    Primitive(PrimitiveTypeEnum),
    Option(Box<TypeDesc>),
    Array,
    List(Box<TypeDesc>),
    Texture,
}

/// The result of resolving a type against a pattern.
pub enum TypeResolution<Resolved, Unresolved> {
    Resolved(Resolved),
    Wildcard(Unresolved),
}

impl<Resolved, Unresolved> TypeResolution<Resolved, Unresolved> {
    /// The resolved value; only called on a resolution that is `Resolved`.
    pub fn unwrap_resolved(self) -> (r: Resolved)
        requires
            self is Resolved,
        ensures
            self == TypeResolution::<Resolved, Unresolved>::Resolved(r),
    {
        match self {
            TypeResolution::Resolved(resolved) => resolved,
            TypeResolution::Wildcard(_) => { proof { assert(false); } unreached() },
        }
    }
}

/// Resolving `ty` against `desc`: `None` if the type does not match the pattern,
/// `Some(true)` if it resolves to a concrete type, `Some(false)` if the pattern is the wildcard.
/// A shared pointer only matches when its child resolves concretely.
pub open spec fn resolve(desc: TypeDesc, ty: TypeEnum) -> Option<bool>
    decreases desc,
{
    match desc {
        TypeDesc::Wildcard => Some(false),
        TypeDesc::Shared(d) => match ty {
            TypeEnum::Shared(s) => if resolve(*d, *s.child_ty) == Some(true) {
                Some(true)
            } else {
                None
            },
            _ => None,
        },
        TypeDesc::Unique(d) => match ty {
            TypeEnum::Unique(u) => if resolve(*d, *u.child_ty) is Some {
                Some(true)
            } else {
                None
            },
            _ => None,
        },
        TypeDesc::Primitive(p) => if ty == TypeEnum::Primitive(p) {
            Some(true)
        } else {
            None
        },
        TypeDesc::Option(d) => match ty {
            TypeEnum::Option(o) => if resolve(*d, *o.child_ty) is Some {
                Some(true)
            } else {
                None
            },
            _ => None,
        },
        TypeDesc::Array => if ty is Array {
            Some(true)
        } else {
            None
        },
        TypeDesc::List(d) => match ty {
            TypeEnum::List(l) => if resolve(*d, *l.child_ty) is Some {
                Some(true)
            } else {
                None
            },
            _ => None,
        },
        TypeDesc::Texture => if ty is Texture {
            Some(true)
        } else {
            None
        },
    }
}

/// Number of nodes of a type tree; decreases on every child.
pub open spec fn ty_size(ty: TypeEnum) -> nat
    decreases ty,
{
    match ty {
        TypeEnum::Shared(s) => 1 + ty_size(*s.child_ty),
        TypeEnum::Unique(u) => 1 + ty_size(*u.child_ty),
        TypeEnum::Primitive(_) => 1,
        TypeEnum::Option(o) => 1 + ty_size(*o.child_ty),
        TypeEnum::Array(a) => 1 + ty_size(*a.item_type),
        TypeEnum::List(l) => 1 + ty_size(*l.child_ty),
        TypeEnum::Texture(_) => 1,
    }
}

/// The size of a value of type `ty` in bytes, or `None` for types that only live on the heap.
pub open spec fn value_size(ty: TypeEnum) -> Option<nat>
    decreases ty,
{
    match ty {
        TypeEnum::Shared(_) => Some(POINTER_SIZE as nat),
        TypeEnum::Unique(_) => Some(POINTER_SIZE as nat),
        TypeEnum::Primitive(p) => Some(p.size()),
        TypeEnum::Option(o) => match value_size(*o.child_ty) {
            Some(s) => Some(s + 1),
            None => None,
        },
        TypeEnum::Array(a) => match value_size(*a.item_type) {
            Some(s) => Some(a.len as nat * s),
            None => None,
        },
        TypeEnum::List(_) => None,
        TypeEnum::Texture(_) => None,
    }
}

/// Whether a value of `ty` can be cloned.
pub open spec fn cloneable(ty: TypeEnum) -> bool
    decreases ty,
{
    match ty {
        TypeEnum::Shared(_) => true,
        TypeEnum::Unique(_) => false,
        TypeEnum::Primitive(_) => true,
        TypeEnum::Option(o) => cloneable(*o.child_ty),
        TypeEnum::Array(a) => cloneable(*a.item_type),
        TypeEnum::List(_) => false,
        TypeEnum::Texture(_) => false,
    }
}

/// Whether the bytes of a value of `ty` may be exposed to the user.
pub open spec fn safe_binary_representation(ty: TypeEnum) -> bool
    decreases ty,
{
    match ty {
        TypeEnum::Shared(_) => false,
        TypeEnum::Unique(_) => false,
        TypeEnum::Primitive(_) => true,
        TypeEnum::Option(o) => safe_binary_representation(*o.child_ty),
        TypeEnum::Array(a) => safe_binary_representation(*a.item_type),
        TypeEnum::List(_) => false,
        TypeEnum::Texture(_) => false,
    }
}

/// A well-formed type: options, arrays and lists hold sized children, and every size in the
/// tree fits in a `usize`.
pub open spec fn wf(ty: TypeEnum) -> bool
    decreases ty,
{
    &&& (value_size(ty) matches Some(s) ==> s <= usize::MAX)
    &&& match ty {
        TypeEnum::Shared(s) => wf(*s.child_ty),
        TypeEnum::Unique(u) => wf(*u.child_ty),
        TypeEnum::Primitive(_) => true,
        TypeEnum::Option(o) => value_size(*o.child_ty) is Some && wf(*o.child_ty),
        TypeEnum::Array(a) => value_size(*a.item_type) is Some && wf(*a.item_type),
        TypeEnum::List(l) => value_size(*l.child_ty) is Some && wf(*l.child_ty),
        TypeEnum::Texture(_) => true,
    }
}

/// The item type left after stripping all nested array layers.
pub open spec fn innermost(ty: TypeEnum) -> TypeEnum
    decreases ty,
{
    match ty {
        TypeEnum::Array(a) => innermost(*a.item_type),
        _ => ty,
    }
}

/// Stripping array layers never grows the type tree and leaves a non-array type.
pub proof fn lemma_innermost(ty: TypeEnum)
    ensures
        ty_size(innermost(ty)) <= ty_size(ty),
        !(innermost(ty) is Array),
        !(ty is Array) ==> innermost(ty) == ty,
    decreases ty,
{
    if let TypeEnum::Array(a) = ty {
        lemma_innermost(*a.item_type);
    }
}

/// Views a sized type as an array: arrays stay as they are, any other type becomes an array
/// with a single item.
pub open spec fn as_array(ty: TypeEnum) -> ArrayType {
    match ty {
        TypeEnum::Array(a) => a,
        _ => ArrayType { item_type: Box::new(ty), len: 1 },
    }
}

/// Whether values of two types may be reinterpreted as one another; `None` where the
/// question is answered by a failure (two textures compared directly). Two option types
/// compared directly have no rule of their own and are not compatible.
pub open spec fn abi_compatible(a: TypeEnum, b: TypeEnum) -> Option<bool>
    decreases ty_size(a) + ty_size(b),
{
    if a is Array || b is Array {
        if value_size(a) is None || value_size(b) is None {
            Some(false)
        } else {
            let aa = as_array(a);
            let bb = as_array(b);
            if value_size(TypeEnum::Array(aa)) != value_size(TypeEnum::Array(bb)) {
                Some(false)
            } else {
                let ia = innermost(*aa.item_type);
                let ib = innermost(*bb.item_type);
                if let (TypeEnum::Primitive(pa), TypeEnum::Primitive(pb)) = (ia, ib) {
                    Some(kinds_compatible(pa.spec_kind(), pb.spec_kind()))
                } else {
                    proof {
                        lemma_innermost(*aa.item_type);
                        lemma_innermost(*bb.item_type);
                    }
                    abi_compatible(ia, ib)
                }
            }
        }
    } else {
        match (a, b) {
            (TypeEnum::Unique(x), TypeEnum::Unique(y)) => abi_compatible(*x.child_ty, *y.child_ty),
            (TypeEnum::Shared(x), TypeEnum::Shared(y)) => abi_compatible(*x.child_ty, *y.child_ty),
            (TypeEnum::Primitive(x), TypeEnum::Primitive(y)) => Some(x == y),
            (TypeEnum::List(x), TypeEnum::List(y)) => abi_compatible(*x.child_ty, *y.child_ty),
            (TypeEnum::Texture(_), TypeEnum::Texture(_)) => None,
            _ => Some(false),
        }
    }
}

/// Compatibility does not depend on the order of the two types.
pub proof fn lemma_abi_compatible_symmetric(a: TypeEnum, b: TypeEnum)
    ensures
        abi_compatible(a, b) == abi_compatible(b, a),
    decreases ty_size(a) + ty_size(b),
{
    if a is Array || b is Array {
        if value_size(a) is Some && value_size(b) is Some {
            let aa = as_array(a);
            let bb = as_array(b);
            if value_size(TypeEnum::Array(aa)) == value_size(TypeEnum::Array(bb)) {
                let ia = innermost(*aa.item_type);
                let ib = innermost(*bb.item_type);
                lemma_innermost(*aa.item_type);
                lemma_innermost(*bb.item_type);
                if !(ia is Primitive && ib is Primitive) {
                    lemma_abi_compatible_symmetric(ia, ib);
                }
            }
        }
    } else {
        match (a, b) {
            (TypeEnum::Unique(x), TypeEnum::Unique(y)) => {
                lemma_abi_compatible_symmetric(*x.child_ty, *y.child_ty);
            },
            (TypeEnum::Shared(x), TypeEnum::Shared(y)) => {
                lemma_abi_compatible_symmetric(*x.child_ty, *y.child_ty);
            },
            (TypeEnum::List(x), TypeEnum::List(y)) => {
                lemma_abi_compatible_symmetric(*x.child_ty, *y.child_ty);
            },
            _ => {},
        }
    }
}

/// A texture type occurs in `ty`, itself or among the types it is made of.
pub open spec fn has_texture(ty: TypeEnum) -> bool
    decreases ty,
{
    match ty {
        TypeEnum::Shared(s) => has_texture(*s.child_ty),
        TypeEnum::Unique(u) => has_texture(*u.child_ty),
        TypeEnum::Primitive(_) => false,
        TypeEnum::Option(o) => has_texture(*o.child_ty),
        TypeEnum::Array(a) => has_texture(*a.item_type),
        TypeEnum::List(l) => has_texture(*l.child_ty),
        TypeEnum::Texture(_) => true,
    }
}

/// A type that the innermost item type of `ty` holds a texture in holds one itself.
proof fn lemma_innermost_texture(ty: TypeEnum)
    ensures
        has_texture(innermost(ty)) ==> has_texture(ty),
    decreases ty,
{
    if let TypeEnum::Array(a) = ty {
        lemma_innermost_texture(*a.item_type);
    }
}

/// Compatibility is decided for every two types without a texture in them.
pub proof fn lemma_abi_decided(a: TypeEnum, b: TypeEnum)
    requires
        !has_texture(a),
    ensures
        abi_compatible(a, b) is Some,
    decreases ty_size(a) + ty_size(b),
{
    if a is Array || b is Array {
        if value_size(a) is Some && value_size(b) is Some {
            let aa = as_array(a);
            let bb = as_array(b);
            if value_size(TypeEnum::Array(aa)) == value_size(TypeEnum::Array(bb)) {
                let ia = innermost(*aa.item_type);
                let ib = innermost(*bb.item_type);
                lemma_innermost(*aa.item_type);
                lemma_innermost(*bb.item_type);
                lemma_innermost_texture(*aa.item_type);
                if !(ia is Primitive && ib is Primitive) {
                    lemma_abi_decided(ia, ib);
                }
            }
        }
    } else {
        match (a, b) {
            (TypeEnum::Unique(x), TypeEnum::Unique(y)) => {
                lemma_abi_decided(*x.child_ty, *y.child_ty);
            },
            (TypeEnum::Shared(x), TypeEnum::Shared(y)) => {
                lemma_abi_decided(*x.child_ty, *y.child_ty);
            },
            (TypeEnum::List(x), TypeEnum::List(y)) => {
                lemma_abi_decided(*x.child_ty, *y.child_ty);
            },
            _ => {},
        }
    }
}

/// Compatibility of two array types: equal sizes, and compatible innermost item types.
pub open spec fn array_abi_compatible(a: ArrayType, b: ArrayType) -> Option<bool> {
    if value_size(TypeEnum::Array(a)) != value_size(TypeEnum::Array(b)) {
        Some(false)
    } else {
        let ia = innermost(*a.item_type);
        let ib = innermost(*b.item_type);
        if let (TypeEnum::Primitive(pa), TypeEnum::Primitive(pb)) = (ia, ib) {
            Some(kinds_compatible(pa.spec_kind(), pb.spec_kind()))
        } else {
            abi_compatible(ia, ib)
        }
    }
}

impl Clone for TypeEnum {
    fn clone(&self) -> (r: Self)
        ensures
            r == *self,
        decreases self,
    {
        match self {
            TypeEnum::Shared(s) => TypeEnum::Shared(Shared { child_ty: Box::new((*s.child_ty).clone()) }),
            TypeEnum::Unique(u) => TypeEnum::Unique(Unique { child_ty: Box::new((*u.child_ty).clone()) }),
            TypeEnum::Primitive(p) => TypeEnum::Primitive(*p),
            TypeEnum::Option(o) => TypeEnum::Option(OptionType { child_ty: Box::new((*o.child_ty).clone()) }),
            TypeEnum::Array(a) => TypeEnum::Array(
                ArrayType { item_type: Box::new((*a.item_type).clone()), len: a.len },
            ),
            TypeEnum::List(l) => TypeEnum::List(ListType { child_ty: Box::new((*l.child_ty).clone()) }),
            TypeEnum::Texture(_) => TypeEnum::Texture(TextureType {}),
        }
    }
}

impl TypeEnum {
    /// The size of a value of this type in bytes, or `None` if the type is unsized.
    pub fn value_size_if_sized(&self) -> (r: Option<usize>)
        requires
            wf(*self),
        ensures
            r matches Some(s) ==> value_size(*self) == Some(s as nat),
            r is None <==> value_size(*self) is None,
        decreases self,
    {
        match self {
            TypeEnum::Shared(_) => Some(POINTER_SIZE),
            TypeEnum::Unique(_) => Some(POINTER_SIZE),
            TypeEnum::Primitive(p) => Some(p.value_size()),
            TypeEnum::Option(o) => {
                let child = o.child_ty.value_size_if_sized();
                match child {
                    Some(s) => Some(s + 1),
                    None => None,
                }
            },
            TypeEnum::Array(a) => {
                let item = a.item_type.value_size_if_sized();
                match item {
                    Some(s) => {
                        proof {
                            assert(a.len * s <= usize::MAX);
                        }
                        Some(a.len * s)
                    },
                    None => None,
                }
            },
            TypeEnum::List(_) => None,
            TypeEnum::Texture(_) => None,
        }
    }

    /// Whether the type is sized.
    pub fn is_sized(&self) -> (r: bool)
        requires
            wf(*self),
        ensures
            r == (value_size(*self) is Some),
    {
        self.value_size_if_sized().is_some()
    }

    /// Whether a value of this type can be cloned.
    pub fn is_cloneable(&self) -> (r: bool)
        ensures
            r == cloneable(*self),
        decreases self,
    {
        match self {
            TypeEnum::Shared(_) => true,
            TypeEnum::Unique(_) => false,
            TypeEnum::Primitive(_) => true,
            TypeEnum::Option(o) => o.child_ty.is_cloneable(),
            TypeEnum::Array(a) => a.item_type.is_cloneable(),
            TypeEnum::List(_) => false,
            TypeEnum::Texture(_) => false,
        }
    }

    /// Whether the bytes of a value of this type may be exposed to the user.
    pub fn has_safe_binary_representation(&self) -> (r: bool)
        ensures
            r == safe_binary_representation(*self),
        decreases self,
    {
        match self {
            TypeEnum::Shared(_) => false,
            TypeEnum::Unique(_) => false,
            TypeEnum::Primitive(_) => true,
            TypeEnum::Option(o) => o.child_ty.has_safe_binary_representation(),
            TypeEnum::Array(a) => a.item_type.has_safe_binary_representation(),
            TypeEnum::List(_) => false,
            TypeEnum::Texture(_) => false,
        }
    }

    /// Resolves the type against a pattern.
    pub fn resolve_ref<'a>(&'a self, desc: &TypeDesc) -> (r: Option<TypeResolution<&'a TypeEnum, &'a TypeEnum>>)
        ensures
            r is Some <==> resolve(*desc, *self) is Some,
            resolve(*desc, *self) == Some(true) ==> r == Some(
                TypeResolution::<&'a TypeEnum, &'a TypeEnum>::Resolved(self),
            ),
            resolve(*desc, *self) == Some(false) ==> r == Some(
                TypeResolution::<&'a TypeEnum, &'a TypeEnum>::Wildcard(self),
            ),
    {
        match self.resolution(desc) {
            Some(true) => Some(TypeResolution::Resolved(self)),
            Some(false) => Some(TypeResolution::Wildcard(self)),
            None => None,
        }
    }

    /// Resolves the type against a pattern, taking ownership.
    pub fn resolve(self, desc: &TypeDesc) -> (r: Option<TypeResolution<TypeEnum, TypeEnum>>)
        ensures
            r is Some <==> resolve(*desc, self) is Some,
            resolve(*desc, self) == Some(true) ==> r == Some(
                TypeResolution::<TypeEnum, TypeEnum>::Resolved(self),
            ),
            resolve(*desc, self) == Some(false) ==> r == Some(
                TypeResolution::<TypeEnum, TypeEnum>::Wildcard(self),
            ),
    {
        match self.resolution(desc) {
            Some(true) => Some(TypeResolution::Resolved(self)),
            Some(false) => Some(TypeResolution::Wildcard(self)),
            None => None,
        }
    }

    /// The type itself, if it resolves concretely against the pattern.
    pub fn downcast_ref<'a>(&'a self, desc: &TypeDesc) -> (r: Option<&'a TypeEnum>)
        ensures
            r is Some <==> resolve(*desc, *self) == Some(true),
            r matches Some(t) ==> *t == *self,
    {
        match self.resolution(desc) {
            Some(true) => Some(self),
            _ => None,
        }
    }

    /// The type itself, if it resolves concretely against the pattern, taking ownership.
    pub fn downcast(self, desc: &TypeDesc) -> (r: Option<TypeEnum>)
        ensures
            r is Some <==> resolve(*desc, self) == Some(true),
            r matches Some(t) ==> t == self,
    {
        match self.resolution(desc) {
            Some(true) => Some(self),
            _ => None,
        }
    }

    /// Computes `resolve(desc, self)`.
    fn resolution(&self, desc: &TypeDesc) -> (r: Option<bool>)
        ensures
            r == resolve(*desc, *self),
        decreases desc,
    {
        match desc {
            TypeDesc::Wildcard => Some(false),
            TypeDesc::Shared(d) => match self {
                TypeEnum::Shared(s) => {
                    if s.child_ty.resolution(d) == Some(true) {
                        Some(true)
                    } else {
                        None
                    }
                },
                _ => None,
            },
            TypeDesc::Unique(d) => match self {
                TypeEnum::Unique(u) => {
                    if u.child_ty.resolution(d).is_some() {
                        Some(true)
                    } else {
                        None
                    }
                },
                _ => None,
            },
            TypeDesc::Primitive(p) => match self {
                TypeEnum::Primitive(q) => {
                    if *p == *q {
                        Some(true)
                    } else {
                        None
                    }
                },
                _ => None,
            },
            TypeDesc::Option(d) => match self {
                TypeEnum::Option(o) => {
                    if o.child_ty.resolution(d).is_some() {
                        Some(true)
                    } else {
                        None
                    }
                },
                _ => None,
            },
            TypeDesc::Array => match self {
                TypeEnum::Array(_) => Some(true),
                _ => None,
            },
            TypeDesc::List(d) => match self {
                TypeEnum::List(l) => {
                    if l.child_ty.resolution(d).is_some() {
                        Some(true)
                    } else {
                        None
                    }
                },
                _ => None,
            },
            TypeDesc::Texture => match self {
                TypeEnum::Texture(_) => Some(true),
                _ => None,
            },
        }
    }

    /// Whether a texture type occurs in the type.
    pub fn contains_texture(&self) -> (r: bool)
        ensures
            r == has_texture(*self),
        decreases self,
    {
        match self {
            TypeEnum::Shared(s) => s.child_ty.contains_texture(),
            TypeEnum::Unique(u) => u.child_ty.contains_texture(),
            TypeEnum::Primitive(_) => false,
            TypeEnum::Option(o) => o.child_ty.contains_texture(),
            TypeEnum::Array(a) => a.item_type.contains_texture(),
            TypeEnum::List(l) => l.child_ty.contains_texture(),
            TypeEnum::Texture(_) => true,
        }
    }

    /// Whether the type is well-formed, and its size where it is well-formed and sized.
    pub fn checked_size(&self) -> (r: (bool, Option<usize>))
        ensures
            r.0 == wf(*self),
            r.0 ==> (r.1 is None <==> value_size(*self) is None),
            r.0 ==> (r.1 matches Some(s) ==> value_size(*self) == Some(s as nat)),
        decreases self,
    {
        match self {
            TypeEnum::Shared(s) => (s.child_ty.checked_size().0, Some(POINTER_SIZE)),
            TypeEnum::Unique(u) => (u.child_ty.checked_size().0, Some(POINTER_SIZE)),
            TypeEnum::Primitive(p) => (true, Some(p.value_size())),
            TypeEnum::Option(o) => {
                let (child_wf, child_size) = o.child_ty.checked_size();
                match child_size {
                    Some(size) if child_wf => match size.checked_add(1) {
                        Some(total) => (true, Some(total)),
                        None => (false, None),
                    },
                    _ => (false, None),
                }
            },
            TypeEnum::Array(a) => {
                let (item_wf, item_size) = a.item_type.checked_size();
                match item_size {
                    Some(size) if item_wf => match a.len.checked_mul(size) {
                        Some(total) => (true, Some(total)),
                        None => (false, None),
                    },
                    _ => (false, None),
                }
            },
            TypeEnum::List(l) => {
                let (child_wf, child_size) = l.child_ty.checked_size();
                (child_wf && child_size.is_some(), None)
            },
            TypeEnum::Texture(_) => (true, None),
        }
    }

    /// Whether values of the two types may be reinterpreted as one another.
    pub fn is_abi_compatible(&self, other: &Self) -> (r: bool)
        requires
            wf(*self),
            wf(*other),
            abi_compatible(*self, *other) is Some,
        ensures
            r == abi_compatible(*self, *other).unwrap(),
        decreases ty_size(*self) + ty_size(*other), 0nat,
    {
        let self_array = matches!(self, TypeEnum::Array(_));
        let other_array = matches!(other, TypeEnum::Array(_));
        if self_array || other_array {
            if self.value_size_if_sized().is_none() || other.value_size_if_sized().is_none() {
                return false;
            }
            let a = match self {
                TypeEnum::Array(array) => array.clone_array(),
                _ => ArrayType::single_if_sized(self.clone()).unwrap(),
            };
            let b = match other {
                TypeEnum::Array(array) => array.clone_array(),
                _ => ArrayType::single_if_sized(other.clone()).unwrap(),
            };
            proof {
                assert(a == as_array(*self));
                assert(b == as_array(*other));
                lemma_array_wf(*self);
                lemma_array_wf(*other);
            }
            return a.is_abi_compatible(&b);
        }
        match (self, other) {
            (TypeEnum::Unique(a), TypeEnum::Unique(b)) => a.child_ty.is_abi_compatible(&b.child_ty),
            (TypeEnum::Shared(a), TypeEnum::Shared(b)) => a.child_ty.is_abi_compatible(&b.child_ty),
            (TypeEnum::Primitive(a), TypeEnum::Primitive(b)) => *a == *b,
            (TypeEnum::List(a), TypeEnum::List(b)) => a.child_ty.is_abi_compatible(&b.child_ty),
            _ => false,
        }
    }
}

/// Viewing a well-formed sized type as an array gives a well-formed array of the same size.
pub proof fn lemma_array_wf(ty: TypeEnum)
    requires
        wf(ty),
        value_size(ty) is Some,
    ensures
        wf(TypeEnum::Array(as_array(ty))),
        value_size(TypeEnum::Array(as_array(ty))) == value_size(ty),
        ty_size(*as_array(ty).item_type) <= ty_size(ty),
        ty is Array ==> ty_size(*as_array(ty).item_type) < ty_size(ty),
{
}

/// The innermost item type of a well-formed type is well-formed.
pub proof fn lemma_innermost_wf(ty: TypeEnum)
    requires
        wf(ty),
    ensures
        wf(innermost(ty)),
    decreases ty,
{
    if let TypeEnum::Array(a) = ty {
        lemma_innermost_wf(*a.item_type);
    }
}

/// An option type occurs in `ty`, itself or among the types it is made of.
pub open spec fn has_option(ty: TypeEnum) -> bool
    decreases ty,
{
    match ty {
        TypeEnum::Shared(s) => has_option(*s.child_ty),
        TypeEnum::Unique(u) => has_option(*u.child_ty),
        TypeEnum::Primitive(_) => false,
        TypeEnum::Option(_) => true,
        TypeEnum::Array(a) => has_option(*a.item_type),
        TypeEnum::List(l) => has_option(*l.child_ty),
        TypeEnum::Texture(_) => false,
    }
}

/// A type whose innermost item type holds an option holds one itself.
proof fn lemma_innermost_option(ty: TypeEnum)
    ensures
        has_option(innermost(ty)) ==> has_option(ty),
    decreases ty,
{
    if let TypeEnum::Array(a) = ty {
        lemma_innermost_option(*a.item_type);
    }
}

/// Every well-formed type without textures and options is compatible with itself: a value
/// can always be reinterpreted as a value of its own type.
pub proof fn lemma_abi_compatible_reflexive(ty: TypeEnum)
    requires
        wf(ty),
        !has_texture(ty),
        !has_option(ty),
    ensures
        abi_compatible(ty, ty) == Some(true),
    decreases ty_size(ty),
{
    if ty is Array {
        let a = as_array(ty);
        lemma_array_wf(ty);
        let ia = innermost(*a.item_type);
        lemma_innermost(*a.item_type);
        lemma_innermost_wf(*a.item_type);
        lemma_innermost_texture(*a.item_type);
        lemma_innermost_option(*a.item_type);
        if let TypeEnum::Primitive(p) = ia {
            assert(kinds_compatible(p.spec_kind(), p.spec_kind()));
        } else {
            lemma_abi_compatible_reflexive(ia);
        }
    } else {
        match ty {
            TypeEnum::Unique(u) => lemma_abi_compatible_reflexive(*u.child_ty),
            TypeEnum::Shared(s) => lemma_abi_compatible_reflexive(*s.child_ty),
            TypeEnum::List(l) => lemma_abi_compatible_reflexive(*l.child_ty),
            _ => {},
        }
    }
}

/// Two pointer types of the same kind, or two list types, are compatible exactly when their
/// child types are; a unique pointer and a shared pointer never are.
pub proof fn lemma_abi_compatible_pointers(x: TypeEnum, y: TypeEnum)
    ensures
        abi_compatible(TypeEnum::Unique(Unique { child_ty: Box::new(x) }), TypeEnum::Unique(Unique { child_ty: Box::new(y) }))
            == abi_compatible(x, y),
        abi_compatible(TypeEnum::Shared(Shared { child_ty: Box::new(x) }), TypeEnum::Shared(Shared { child_ty: Box::new(y) }))
            == abi_compatible(x, y),
        abi_compatible(TypeEnum::List(ListType { child_ty: Box::new(x) }), TypeEnum::List(ListType { child_ty: Box::new(y) }))
            == abi_compatible(x, y),
        abi_compatible(TypeEnum::Unique(Unique { child_ty: Box::new(x) }), TypeEnum::Shared(Shared { child_ty: Box::new(y) }))
            == Some(false),
{
}

/// Compatible types have values of the same size: a value is only ever reinterpreted as one
/// that takes up as many bytes.
pub proof fn lemma_abi_compatible_same_size(a: TypeEnum, b: TypeEnum)
    requires
        abi_compatible(a, b) == Some(true),
    ensures
        value_size(a) == value_size(b),
{
    if a is Array || b is Array {
        assert(value_size(a) is Some && value_size(b) is Some);
        let aa = as_array(a);
        let bb = as_array(b);
        if !(a is Array) {
            assert(aa.len == 1 && *aa.item_type == a);
            assert(1 * value_size(a)->0 == value_size(a)->0);
        }
        if !(b is Array) {
            assert(bb.len == 1 && *bb.item_type == b);
            assert(1 * value_size(b)->0 == value_size(b)->0);
        }
        assert(value_size(TypeEnum::Array(aa)) == value_size(a));
        assert(value_size(TypeEnum::Array(bb)) == value_size(b));
    }
}

/// A sized type without textures and options that is not an array is compatible with the
/// array that holds one value of it.
pub proof fn lemma_abi_compatible_single_item(ty: TypeEnum)
    requires
        wf(ty),
        value_size(ty) is Some,
        !(ty is Array),
        !has_texture(ty),
        !has_option(ty),
    ensures
        abi_compatible(TypeEnum::Array(ArrayType { item_type: Box::new(ty), len: 1 }), ty) == Some(true),
{
    lemma_innermost(ty);
    if !(ty is Primitive) {
        lemma_abi_compatible_reflexive(ty);
    }
    assert(value_size(TypeEnum::Array(ArrayType { item_type: Box::new(ty), len: 1 })) == value_size(ty));
}

/// Only the wildcard pattern matches a type without resolving it; a primitive pattern
/// matches exactly its own primitive type, and the array and texture patterns exactly the
/// array and texture types.
pub proof fn lemma_resolve_concrete_patterns(d: TypeDesc, ty: TypeEnum)
    ensures
        resolve(d, ty) == Some(false) <==> d is Wildcard,
        d matches TypeDesc::Primitive(p) ==> (resolve(d, ty) is Some <==> ty == TypeEnum::Primitive(p)),
        d is Array ==> (resolve(d, ty) is Some <==> ty is Array),
        d is Texture ==> (resolve(d, ty) is Some <==> ty is Texture),
{
}

/// The wildcard pattern matches every type, without resolving it. An option, unique pointer or
/// list pattern matches exactly the types built with that constructor whose child type matches
/// the inner pattern, concretely or as a wildcard, and then resolves concretely; so the pattern
/// of an option of anything matches every option type. A shared pointer pattern matches a
/// shared pointer only where its child resolves concretely.
pub proof fn lemma_resolve_constructors(d: TypeDesc, ty: TypeEnum)
    ensures
        resolve(TypeDesc::Wildcard, ty) == Some(false),
        resolve(TypeDesc::Option(Box::new(d)), ty) is Some <==> (ty matches TypeEnum::Option(o) && resolve(
            d,
            *o.child_ty,
        ) is Some),
        resolve(TypeDesc::Unique(Box::new(d)), ty) is Some <==> (ty matches TypeEnum::Unique(u) && resolve(
            d,
            *u.child_ty,
        ) is Some),
        resolve(TypeDesc::List(Box::new(d)), ty) is Some <==> (ty matches TypeEnum::List(l) && resolve(
            d,
            *l.child_ty,
        ) is Some),
        resolve(TypeDesc::Shared(Box::new(d)), ty) is Some <==> (ty matches TypeEnum::Shared(s) && resolve(
            d,
            *s.child_ty,
        ) == Some(true)),
        resolve(TypeDesc::Option(Box::new(d)), ty) is Some ==> resolve(TypeDesc::Option(Box::new(d)), ty)
            == Some(true),
        resolve(TypeDesc::Unique(Box::new(d)), ty) is Some ==> resolve(TypeDesc::Unique(Box::new(d)), ty)
            == Some(true),
        resolve(TypeDesc::List(Box::new(d)), ty) is Some ==> resolve(TypeDesc::List(Box::new(d)), ty)
            == Some(true),
        ty is Option ==> resolve(TypeDesc::Option(Box::new(TypeDesc::Wildcard)), ty) == Some(true),
        ty is Unique ==> resolve(TypeDesc::Unique(Box::new(TypeDesc::Wildcard)), ty) == Some(true),
        ty is List ==> resolve(TypeDesc::List(Box::new(TypeDesc::Wildcard)), ty) == Some(true),
{
    match ty {
        TypeEnum::Option(o) => assert(resolve(TypeDesc::Wildcard, *o.child_ty) == Some(false)),
        TypeEnum::Unique(u) => assert(resolve(TypeDesc::Wildcard, *u.child_ty) == Some(false)),
        TypeEnum::List(l) => assert(resolve(TypeDesc::Wildcard, *l.child_ty) == Some(false)),
        _ => {},
    }
}

/// Follows nested arrays down to their innermost item type.
fn innermost_ref(ty: &TypeEnum) -> (r: &TypeEnum)
    ensures
        *r == innermost(*ty),
    decreases ty,
{
    match ty {
        TypeEnum::Array(a) => innermost_ref(&a.item_type),
        _ => ty,
    }
}

impl ArrayType {
    /// An array of `len` items of a sized `item_type`.
    pub fn new(item_type: TypeEnum, len: usize) -> (r: Self)
        requires
            value_size(item_type) is Some,
        ensures
            r == (ArrayType { item_type: Box::new(item_type), len }),
    {
        ArrayType { item_type: Box::new(item_type), len }
    }

    /// An array of a single item of a sized `item_type`.
    pub fn single(item_type: TypeEnum) -> (r: Self)
        requires
            value_size(item_type) is Some,
        ensures
            r == (ArrayType { item_type: Box::new(item_type), len: 1 }),
    {
        Self::new(item_type, 1)
    }

    /// Whether the bytes of an array value may be exposed to the user.
    pub fn has_safe_binary_representation(&self) -> (r: bool)
        ensures
            r == safe_binary_representation(TypeEnum::Array(*self)),
    {
        self.item_type.has_safe_binary_representation()
    }

    /// Whether an array value can be cloned.
    pub fn is_cloneable(&self) -> (r: bool)
        ensures
            r == cloneable(TypeEnum::Array(*self)),
    {
        self.item_type.is_cloneable()
    }

    pub fn clone_array(&self) -> (r: Self)
        ensures
            r == *self,
    {
        ArrayType { item_type: Box::new((*self.item_type).clone()), len: self.len }
    }

    /// An array of `len` items of `item_type`, if the item type is sized.
    pub fn new_if_sized(item_type: TypeEnum, len: usize) -> (r: Option<Self>)
        requires
            wf(item_type),
        ensures
            r is Some <==> value_size(item_type) is Some,
            r matches Some(a) ==> a == (ArrayType { item_type: Box::new(item_type), len }),
    {
        if item_type.is_sized() {
            Some(ArrayType { item_type: Box::new(item_type), len })
        } else {
            None
        }
    }

    /// An array of a single item of `item_type`, if the item type is sized.
    pub fn single_if_sized(item_type: TypeEnum) -> (r: Option<Self>)
        requires
            wf(item_type),
        ensures
            r is Some <==> value_size(item_type) is Some,
            r matches Some(a) ==> a == (ArrayType { item_type: Box::new(item_type), len: 1 }),
    {
        Self::new_if_sized(item_type, 1)
    }

    /// Whether values of the two array types may be reinterpreted as one another.
    pub fn is_abi_compatible(&self, other: &Self) -> (r: bool)
        requires
            wf(TypeEnum::Array(*self)),
            wf(TypeEnum::Array(*other)),
            array_abi_compatible(*self, *other) is Some,
        ensures
            r == array_abi_compatible(*self, *other).unwrap(),
        decreases ty_size(*self.item_type) + ty_size(*other.item_type), 1nat,
    {
        let size_a = self.value_size();
        let size_b = other.value_size();
        if size_a != size_b {
            return false;
        }
        let item_a = innermost_ref(&self.item_type);
        let item_b = innermost_ref(&other.item_type);
        proof {
            lemma_innermost(*self.item_type);
            lemma_innermost(*other.item_type);
            lemma_innermost_wf(*self.item_type);
            lemma_innermost_wf(*other.item_type);
        }
        match (item_a, item_b) {
            (TypeEnum::Primitive(pa), TypeEnum::Primitive(pb)) => pa.kind().is_abi_compatible(
                &pb.kind(),
            ),
            _ => item_a.is_abi_compatible(item_b),
        }
    }

    /// The size of a value of the array type in bytes.
    pub fn value_size(&self) -> (r: usize)
        requires
            wf(TypeEnum::Array(*self)),
        ensures
            value_size(TypeEnum::Array(*self)) == Some(r as nat),
    {
        let item = self.item_type.value_size_if_sized().unwrap();
        proof {
            assert(self.len * item <= usize::MAX);
        }
        self.len * item
    }
}

impl ListType {
    /// A list of a sized child type.
    pub fn new(child_ty: TypeEnum) -> (r: Self)
        requires
            value_size(child_ty) is Some,
        ensures
            *r.child_ty == child_ty,
    {
        ListType { child_ty: Box::new(child_ty) }
    }

    /// A list of `child_ty`, if that type is sized.
    pub fn new_if_sized(child_ty: TypeEnum) -> (r: Option<Self>)
        requires
            wf(child_ty),
        ensures
            r is Some <==> value_size(child_ty) is Some,
            r matches Some(l) ==> *l.child_ty == child_ty,
    {
        if child_ty.is_sized() {
            Some(ListType { child_ty: Box::new(child_ty) })
        } else {
            None
        }
    }

    /// The list type itself, if its child type matches the pattern.
    pub fn downcast_child(self, desc: &TypeDesc) -> (r: Option<Self>)
        ensures
            r is Some <==> resolve(*desc, *self.child_ty) is Some,
            r matches Some(l) ==> l == self,
    {
        if self.child_ty.resolve_ref(desc).is_some() {
            Some(self)
        } else {
            None
        }
    }

    /// Forgets what is known of the child type.
    pub fn upcast(self) -> (r: Self)
        ensures
            r == self,
    {
        self
    }

    /// Whether values of two list types may be reinterpreted as one another.
    pub fn is_abi_compatible(&self, other: &Self) -> (r: bool)
        requires
            wf(*self.child_ty),
            wf(*other.child_ty),
            abi_compatible(*self.child_ty, *other.child_ty) is Some,
        ensures
            r == abi_compatible(*self.child_ty, *other.child_ty).unwrap(),
    {
        self.child_ty.is_abi_compatible(&other.child_ty)
    }
}

impl OptionType {
    /// An option of `child_ty`, if that type is sized.
    pub fn from_enum_if_sized(child_ty: TypeEnum) -> (r: Option<Self>)
        requires
            wf(child_ty),
        ensures
            r is Some <==> value_size(child_ty) is Some,
            r matches Some(o) ==> *o.child_ty == child_ty,
    {
        if child_ty.is_sized() {
            Some(OptionType { child_ty: Box::new(child_ty) })
        } else {
            None
        }
    }

    /// An option of a sized child type.
    pub fn new(child_ty: TypeEnum) -> (r: Self)
        requires
            value_size(child_ty) is Some,
        ensures
            *r.child_ty == child_ty,
    {
        OptionType { child_ty: Box::new(child_ty) }
    }

    /// The option type itself, if its child type matches the pattern.
    pub fn downcast_child(self, desc: &TypeDesc) -> (r: Option<Self>)
        ensures
            r is Some <==> resolve(*desc, *self.child_ty) is Some,
            r matches Some(o) ==> o == self,
    {
        if self.child_ty.resolve_ref(desc).is_some() {
            Some(self)
        } else {
            None
        }
    }

    /// Forgets what is known of the child type.
    pub fn upcast(self) -> (r: Self)
        ensures
            r == self,
    {
        self
    }

    /// The size of an option value: the child value followed by one flag byte.
    pub fn value_size(&self) -> (r: usize)
        requires
            wf(TypeEnum::Option(*self)),
        ensures
            value_size(TypeEnum::Option(*self)) == Some(r as nat),
            r == value_size(*self.child_ty).unwrap() + 1,
    {
        let child = self.child_ty.value_size_if_sized().unwrap();
        child + 1
    }

    /// Whether values of two option types may be reinterpreted as one another.
    pub fn is_abi_compatible(&self, other: &Self) -> (r: bool)
        requires
            wf(*self.child_ty),
            wf(*other.child_ty),
            abi_compatible(*self.child_ty, *other.child_ty) is Some,
        ensures
            r == abi_compatible(*self.child_ty, *other.child_ty).unwrap(),
    {
        self.child_ty.is_abi_compatible(&other.child_ty)
    }
}

impl Unique {
    /// A unique pointer to a value of `child_ty`.
    pub fn from_enum(child_ty: TypeEnum) -> (r: Self)
        ensures
            *r.child_ty == child_ty,
    {
        Unique { child_ty: Box::new(child_ty) }
    }

    /// A unique pointer to a value of `child_ty`.
    pub fn new(child_ty: TypeEnum) -> (r: Self)
        ensures
            *r.child_ty == child_ty,
    {
        Unique { child_ty: Box::new(child_ty) }
    }

    /// The pointer type itself, if its child type matches the pattern.
    pub fn downcast_child(self, desc: &TypeDesc) -> (r: Option<Self>)
        ensures
            r is Some <==> resolve(*desc, *self.child_ty) is Some,
            r matches Some(u) ==> u == self,
    {
        if self.child_ty.resolve_ref(desc).is_some() {
            Some(self)
        } else {
            None
        }
    }

    /// Forgets what is known of the child type.
    pub fn upcast(self) -> (r: Self)
        ensures
            r == self,
    {
        self
    }

    /// The size of a pointer value.
    pub fn value_size(&self) -> (r: usize)
        ensures
            value_size(TypeEnum::Unique(*self)) == Some(r as nat),
    {
        POINTER_SIZE
    }
}

impl Shared {
    /// A shared pointer to a value of `child_ty`.
    pub fn from_enum(child_ty: TypeEnum) -> (r: Self)
        ensures
            *r.child_ty == child_ty,
    {
        Shared { child_ty: Box::new(child_ty) }
    }

    /// A shared pointer to a value of `child_ty`.
    pub fn new(child_ty: TypeEnum) -> (r: Self)
        ensures
            *r.child_ty == child_ty,
    {
        Shared { child_ty: Box::new(child_ty) }
    }

    /// The pointer type itself, if its child type resolves concretely against the pattern.
    pub fn downcast_child(self, desc: &TypeDesc) -> (r: Option<Self>)
        ensures
            r is Some <==> resolve(*desc, *self.child_ty) == Some(true),
            r matches Some(s) ==> s == self,
    {
        if self.child_ty.downcast_ref(desc).is_some() {
            Some(self)
        } else {
            None
        }
    }

    /// Forgets what is known of the child type.
    pub fn upcast(self) -> (r: Self)
        ensures
            r == self,
    {
        self
    }

    /// The size of a pointer value.
    pub fn value_size(&self) -> (r: usize)
        ensures
            value_size(TypeEnum::Shared(*self)) == Some(r as nat),
    {
        POINTER_SIZE
    }
}

impl TextureType {
    pub fn new() -> (r: Self)
        ensures
            r == (TextureType {}),
    {
        TextureType {}
    }
}

/// Describes a texture to be allocated.
#[derive(Debug)]
pub struct TextureDescriptor;

impl TextureDescriptor {
    /// The type of the values the descriptor describes.
    pub fn get_type(&self) -> (r: TextureType)
        ensures
            r == (TextureType {}),
    {
        TextureType {}
    }
}

} // verus!
