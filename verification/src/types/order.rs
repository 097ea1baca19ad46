//! The widening order of types.

use vstd::prelude::*;
use vstd::std_specs::cmp::PartialOrdSpecImpl;
use std::cmp::Ordering;
use crate::types::{PrimitiveType, Type, TypeView};

verus! {

impl PrimitiveType {
    /// Bytes that a value of the type takes; a string has no fixed width.
    pub open spec fn width(self) -> Option<nat> {
        match self {
            PrimitiveType::U8 | PrimitiveType::I8 => Some(1),
            PrimitiveType::U16 | PrimitiveType::I16 => Some(2),
            PrimitiveType::U32 | PrimitiveType::I32 | PrimitiveType::F32 => Some(4),
            PrimitiveType::U64 | PrimitiveType::I64 | PrimitiveType::F64 => Some(8),
            PrimitiveType::Str => None,
        }
    }

    /// Bytes that a value of the type takes.
    pub fn byte_width(&self) -> (w: Option<u8>)
        ensures
            w is Some <==> self.width() is Some,
            w matches Some(n) ==> self.width() == Some(n as nat),
    {
        match self {
            PrimitiveType::U8 | PrimitiveType::I8 => Some(1),
            PrimitiveType::U16 | PrimitiveType::I16 => Some(2),
            PrimitiveType::U32 | PrimitiveType::I32 | PrimitiveType::F32 => Some(4),
            PrimitiveType::U64 | PrimitiveType::I64 | PrimitiveType::F64 => Some(8),
            PrimitiveType::Str => None,
        }
    }

}

impl PartialOrd for PrimitiveType {
    /// Orders the numeric types by their width; a string stands in no
    /// relation to any type.
    fn partial_cmp(&self, other: &PrimitiveType) -> (r: Option<Ordering>) {
        let a = match self.byte_width() {
            Some(a) => a,
            None => {
                return None;
            },
        };
        let b = match other.byte_width() {
            Some(b) => b,
            None => {
                return None;
            },
        };
        if a < b {
            Some(Ordering::Less)
        } else if a == b {
            Some(Ordering::Equal)
        } else {
            Some(Ordering::Greater)
        }
    }
}

impl PartialOrdSpecImpl for PrimitiveType {
    open spec fn obeys_partial_cmp_spec() -> bool {
        true
    }

    open spec fn partial_cmp_spec(&self, other: &PrimitiveType) -> Option<Ordering> {
        width_order(self.width(), other.width())
    }
}

/// How two widths compare, where both types have one.
pub open spec fn width_order(a: Option<nat>, b: Option<nat>) -> Option<Ordering> {
    match (a, b) {
        (Some(x), Some(y)) => Some(
            if x < y {
                Ordering::Less
            } else if x == y {
                Ordering::Equal
            } else {
                Ordering::Greater
            },
        ),
        _ => None,
    }
}

impl TypeView {
    /// How this type compares with `other` in the widening order: two
    /// primitive types by their widths, any other pair not at all.
    pub open spec fn order(self, other: TypeView) -> Option<Ordering> {
        match (self, other) {
            (TypeView::Primitive(a), TypeView::Primitive(b)) => width_order(a.width(), b.width()),
            _ => None,
        }
    }

    /// Whether a value of this type widens to `other`: both are numeric
    /// primitive types, and `other` is strictly wider.
    pub open spec fn narrower_than(self, other: TypeView) -> bool {
        self.order(other) == Some(Ordering::Less)
    }
}

impl PartialOrd for Type {
    /// Compares two types in the widening order.
    fn partial_cmp(&self, other: &Type) -> (r: Option<Ordering>) {
        match (self, other) {
            (Type::Primitive(a), Type::Primitive(b)) => a.partial_cmp(b),
            _ => None,
        }
    }
}

impl PartialOrdSpecImpl for Type {
    open spec fn obeys_partial_cmp_spec() -> bool {
        true
    }

    open spec fn partial_cmp_spec(&self, other: &Type) -> Option<Ordering> {
        self@.order(other@)
    }
}

impl Type {
    /// Whether a value of this type widens to `other`.
    pub fn narrower_than(&self, other: &Type) -> (b: bool)
        ensures
            b == self@.narrower_than(other@),
    {
        *self < *other
    }
}

/// The widening order is strict: no type is narrower than itself, and of two
/// types at most one is narrower than the other.
pub proof fn lemma_order_strict(a: TypeView, b: TypeView)
    ensures
        !a.narrower_than(a),
        !(a.narrower_than(b) && b.narrower_than(a)),
{
}

/// The widening order is transitive.
pub proof fn lemma_order_transitive(a: TypeView, b: TypeView, c: TypeView)
    requires
        a.narrower_than(b),
        b.narrower_than(c),
    ensures
        a.narrower_than(c),
{
}

/// The string type stands in no relation to any type.
pub proof fn lemma_string_incomparable(other: TypeView)
    ensures
        TypeView::Primitive(PrimitiveType::Str).order(other) is None,
        other.order(TypeView::Primitive(PrimitiveType::Str)) is None,
{
}

} // verus!
