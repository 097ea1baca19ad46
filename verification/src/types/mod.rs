//! The type system: numeric literals, type representation and the type
//! environment.

use vstd::prelude::*;
use vstd::std_specs::cmp::PartialEqSpecImpl;
use vstd::std_specs::convert::FromSpecImpl;
use crate::text::chars_of;

pub mod environment;
pub mod number;
pub mod order;
pub mod typer;

pub use environment::TypeEnvironment;
pub use number::Number;

verus! {

/// The built-in types: numbers tagged by width, and strings.
#[derive(Debug, Clone, Copy, PartialEq, Eq, Structural)]
pub enum PrimitiveType {
    U8,
    U16,
    U32,
    U64,
    I8,
    I16,
    I32,
    I64,
    F32,
    F64,
    Str,
}

/// The type of an identifier or an expression.
#[derive(Debug)]
pub enum Type {
    /// Not resolved yet.
    Undefined,
    /// A function, with the type it returns.
    Function(Box<Type>),
    /// A type known by its name only.
    Defined(String),
    /// The product of several types, as a multi-target assignment has it.
    Compound(Vec<Type>),
    /// A built-in type.
    Primitive(PrimitiveType),
}

/// Mathematical value of a [`Type`].
pub enum TypeView {
    Undefined,
    Function(Box<TypeView>),
    Defined(Seq<char>),
    Compound(Seq<TypeView>),
    Primitive(PrimitiveType),
}

impl Type {
    /// The value this type stands for.
    pub open spec fn model(&self) -> TypeView
        decreases self,
    {
        match self {
            Type::Undefined => TypeView::Undefined,
            Type::Function(inner) => TypeView::Function(Box::new((**inner).model())),
            Type::Defined(name) => TypeView::Defined(name@),
            Type::Compound(members) => TypeView::Compound(type_views(members@)),
            Type::Primitive(p) => TypeView::Primitive(*p),
        }
    }
}

/// The values of a list of types.
pub open spec fn type_views(types: Seq<Type>) -> Seq<TypeView>
    decreases types,
{
    Seq::new(
        types.len(),
        |i: int|
            if 0 <= i < types.len() {
                types[i].model()
            } else {
                TypeView::Undefined
            },
    )
}

/// The values of a list that gained a member.
pub proof fn lemma_type_views_push(types: Seq<Type>, last: Type)
    ensures
        type_views(types.push(last)) == type_views(types).push(last@),
{
    assert(type_views(types.push(last)) =~= type_views(types).push(last@));
}

impl View for Type {
    type V = TypeView;

    open spec fn view(&self) -> TypeView {
        self.model()
    }
}

impl PrimitiveType {
    /// The name the type is written with.
    pub open spec fn name(self) -> Seq<char> {
        match self {
            PrimitiveType::U8 => seq!['U', '8'],
            PrimitiveType::U16 => seq!['U', '1', '6'],
            PrimitiveType::U32 => seq!['U', '3', '2'],
            PrimitiveType::U64 => seq!['U', '6', '4'],
            PrimitiveType::I8 => seq!['I', '8'],
            PrimitiveType::I16 => seq!['I', '1', '6'],
            PrimitiveType::I32 => seq!['I', '3', '2'],
            PrimitiveType::I64 => seq!['I', '6', '4'],
            PrimitiveType::F32 => seq!['F', '3', '2'],
            PrimitiveType::F64 => seq!['F', '6', '4'],
            PrimitiveType::Str => seq!['S', 't', 'r'],
        }
    }

    /// The name the type is written with.
    pub fn to_name(&self) -> (text: &'static str)
        ensures
            text@ == self.name(),
    {
        proof {
            reveal_strlit("U8");
            reveal_strlit("U16");
            reveal_strlit("U32");
            reveal_strlit("U64");
            reveal_strlit("I8");
            reveal_strlit("I16");
            reveal_strlit("I32");
            reveal_strlit("I64");
            reveal_strlit("F32");
            reveal_strlit("F64");
            reveal_strlit("Str");
        }
        let text = match self {
            PrimitiveType::U8 => "U8",
            PrimitiveType::U16 => "U16",
            PrimitiveType::U32 => "U32",
            PrimitiveType::U64 => "U64",
            PrimitiveType::I8 => "I8",
            PrimitiveType::I16 => "I16",
            PrimitiveType::I32 => "I32",
            PrimitiveType::I64 => "I64",
            PrimitiveType::F32 => "F32",
            PrimitiveType::F64 => "F64",
            PrimitiveType::Str => "Str",
        };
        assert(text@ =~= self.name());
        text
    }

    /// The primitive type of that name, if there is one.
    pub fn from_name(name: &str) -> (p: Option<PrimitiveType>)
        ensures
            p == primitive_named(name@),
    {
        let chars = chars_of(name);
        if chars.len() == 2 {
            if chars[1] != '8' {
                None
            } else if chars[0] == 'U' {
                Some(PrimitiveType::U8)
            } else if chars[0] == 'I' {
                Some(PrimitiveType::I8)
            } else {
                None
            }
        } else if chars.len() == 3 {
            let kind = chars[0];
            let a = chars[1];
            let b = chars[2];
            if kind == 'S' && a == 't' && b == 'r' {
                Some(PrimitiveType::Str)
            } else if a == '1' && b == '6' {
                if kind == 'U' {
                    Some(PrimitiveType::U16)
                } else if kind == 'I' {
                    Some(PrimitiveType::I16)
                } else {
                    None
                }
            } else if a == '3' && b == '2' {
                if kind == 'U' {
                    Some(PrimitiveType::U32)
                } else if kind == 'I' {
                    Some(PrimitiveType::I32)
                } else if kind == 'F' {
                    Some(PrimitiveType::F32)
                } else {
                    None
                }
            } else if a == '6' && b == '4' {
                if kind == 'U' {
                    Some(PrimitiveType::U64)
                } else if kind == 'I' {
                    Some(PrimitiveType::I64)
                } else if kind == 'F' {
                    Some(PrimitiveType::F64)
                } else {
                    None
                }
            } else {
                None
            }
        } else {
            None
        }
    }
}

/// The primitive type that is written `name`: a kind letter and a width in
/// bits, or `Str`.
pub open spec fn primitive_named(name: Seq<char>) -> Option<PrimitiveType> {
    if name.len() == 2 {
        if name[1] != '8' {
            None
        } else if name[0] == 'U' {
            Some(PrimitiveType::U8)
        } else if name[0] == 'I' {
            Some(PrimitiveType::I8)
        } else {
            None
        }
    } else if name.len() == 3 {
        let kind = name[0];
        let a = name[1];
        let b = name[2];
        if kind == 'S' && a == 't' && b == 'r' {
            Some(PrimitiveType::Str)
        } else if a == '1' && b == '6' {
            if kind == 'U' {
                Some(PrimitiveType::U16)
            } else if kind == 'I' {
                Some(PrimitiveType::I16)
            } else {
                None
            }
        } else if a == '3' && b == '2' {
            if kind == 'U' {
                Some(PrimitiveType::U32)
            } else if kind == 'I' {
                Some(PrimitiveType::I32)
            } else if kind == 'F' {
                Some(PrimitiveType::F32)
            } else {
                None
            }
        } else if a == '6' && b == '4' {
            if kind == 'U' {
                Some(PrimitiveType::U64)
            } else if kind == 'I' {
                Some(PrimitiveType::I64)
            } else if kind == 'F' {
                Some(PrimitiveType::F64)
            } else {
                None
            }
        } else {
            None
        }
    } else {
        None
    }
}

/// Every primitive type is found again by its name.
pub proof fn lemma_primitive_names(p: PrimitiveType)
    ensures
        primitive_named(p.name()) == Some(p),
{
}

impl TypeView {
    /// The type with every name of a primitive type replaced by that type.
    pub open spec fn resolved(self) -> TypeView
        decreases self,
    {
        match self {
            TypeView::Defined(name) => match primitive_named(name) {
                Some(p) => TypeView::Primitive(p),
                None => self,
            },
            TypeView::Function(inner) => TypeView::Function(Box::new((*inner).resolved())),
            TypeView::Compound(members) => TypeView::Compound(
                Seq::new(
                    members.len(),
                    |i: int|
                        if 0 <= i < members.len() {
                            members[i].resolved()
                        } else {
                            TypeView::Undefined
                        },
                ),
            ),
            _ => self,
        }
    }
}

impl PartialEq for Type {
    /// Two types are equal where they have the same structure, names and
    /// primitive types.
    fn eq(&self, other: &Type) -> (b: bool) {
        self.same(other)
    }
}

impl PartialEqSpecImpl for Type {
    open spec fn obeys_eq_spec() -> bool {
        true
    }

    open spec fn eq_spec(&self, other: &Type) -> bool {
        self@ == other@
    }
}

impl Clone for Type {
    fn clone(&self) -> (copy: Type)
        ensures
            copy@ == self@,
    {
        self.duplicate()
    }
}

impl Type {
    /// A copy of this type.
    pub fn duplicate(&self) -> (copy: Type)
        ensures
            copy@ == self@,
        decreases self,
    {
        match self {
            Type::Undefined => Type::Undefined,
            Type::Function(inner) => Type::Function(Box::new((**inner).duplicate())),
            Type::Defined(name) => Type::Defined(name.clone()),
            Type::Compound(members) => {
                let mut out: Vec<Type> = Vec::new();
                let mut i: usize = 0;
                while i < members.len()
                    invariant
                        i <= members.len(),
                        out.len() == i,
                        self is Compound,
                        self->Compound_0 == members,
                        forall|j: int| 0 <= j < i ==> out@[j]@ == members@[j]@,
                    decreases members.len() - i,
                {
                    out.push(members[i].duplicate());
                    i = i + 1;
                }
                assert(type_views(out@) =~= type_views(members@));
                Type::Compound(out)
            },
            Type::Primitive(p) => Type::Primitive(*p),
        }
    }

    /// Whether the two types are the same.
    fn same(&self, other: &Type) -> (b: bool)
        ensures
            b == (self@ == other@),
        decreases self,
    {
        match (self, other) {
            (Type::Undefined, Type::Undefined) => true,
            (Type::Function(a), Type::Function(b)) => (**a).same(&**b),
            (Type::Defined(a), Type::Defined(b)) => *a == *b,
            (Type::Primitive(a), Type::Primitive(b)) => *a == *b,
            (Type::Compound(a), Type::Compound(b)) => {
                if a.len() != b.len() {
                    assert(type_views(a@).len() != type_views(b@).len());
                    return false;
                }
                let mut i: usize = 0;
                while i < a.len()
                    invariant
                        i <= a.len(),
                        a.len() == b.len(),
                        self is Compound,
                        self->Compound_0 == a,
                        other is Compound,
                        other->Compound_0 == b,
                        forall|j: int| 0 <= j < i ==> a@[j]@ == b@[j]@,
                    decreases a.len() - i,
                {
                    if !a[i].same(&b[i]) {
                        assert(type_views(a@)[i as int] == a@[i as int]@);
                        assert(type_views(b@)[i as int] == b@[i as int]@);
                        return false;
                    }
                    i = i + 1;
                }
                assert(type_views(a@) =~= type_views(b@));
                true
            },
            _ => false,
        }
    }

    /// This type with every name of a primitive type replaced by that type.
    pub fn resolve(&self) -> (r: Type)
        ensures
            r@ == self@.resolved(),
        decreases self,
    {
        match self {
            Type::Undefined => Type::Undefined,
            Type::Function(inner) => Type::Function(Box::new((**inner).resolve())),
            Type::Defined(name) => match PrimitiveType::from_name(name.as_str()) {
                Some(p) => Type::Primitive(p),
                None => Type::Defined(name.clone()),
            },
            Type::Compound(members) => {
                let mut out: Vec<Type> = Vec::new();
                let mut i: usize = 0;
                while i < members.len()
                    invariant
                        i <= members.len(),
                        out.len() == i,
                        self is Compound,
                        self->Compound_0 == members,
                        forall|j: int| 0 <= j < i ==> out@[j]@ == members@[j]@.resolved(),
                    decreases members.len() - i,
                {
                    out.push(members[i].resolve());
                    i = i + 1;
                }
                assert forall|j: int| 0 <= j < out@.len() implies type_views(out@)[j]
                    == self@.resolved()->Compound_0[j] by {
                    assert(type_views(members@)[j] == members@[j]@);
                }
                assert(type_views(out@) =~= self@.resolved()->Compound_0);
                Type::Compound(out)
            },
            Type::Primitive(p) => Type::Primitive(*p),
        }
    }
}

impl From<String> for Type {
    /// The primitive type of that name, or the type known by that name.
    fn from(value: String) -> (t: Type) {
        match PrimitiveType::from_name(value.as_str()) {
            Some(p) => Type::Primitive(p),
            None => Type::Defined(value),
        }
    }
}

impl FromSpecImpl<String> for Type {
    open spec fn obeys_from_spec() -> bool {
        true
    }

    open spec fn from_spec(value: String) -> Type {
        match primitive_named(value@) {
            Some(p) => Type::Primitive(p),
            None => Type::Defined(value),
        }
    }
}

} // verus!
