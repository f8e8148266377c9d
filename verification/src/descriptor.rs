//! The structural description of the type being processed.

use vstd::prelude::*;

verus! {

/// One field slot of a variant: an optional declared name (present for
/// named shapes, absent for tuple shapes) and the generator-relevant
/// metadata of the slot.  This library reads nothing of a field beyond its
/// name; the metadata travels with the slot so that the caller's own logic
/// can inspect or rewrite it, addressed by the position carried in a
/// [`crate::BindingInfo`].
pub struct Field {
    /// The declared field name, for named shapes.
    pub ident: Option<String>,
    /// The rendered type of the field, kept for the caller.
    pub ty: String,
    /// The attributes of the field, kept for the caller (for instance so a
    /// generator can strike one out once it has consumed it).
    pub attrs: Vec<String>,
}

/// The field layout of one variant.
pub enum FieldShape {
    /// No fields at all.
    Unit,
    /// Unnamed fields, in declaration order.
    Tuple(Vec<Field>),
    /// Named fields, in declaration order.
    Named(Vec<Field>),
}

/// One case of an enum: its name and its field layout.
pub struct Variant {
    /// The case's name.
    pub ident: String,
    /// The case's field layout.
    pub shape: FieldShape,
}

/// The body of a type: one field layout for a struct, or the cases of an
/// enum in declaration order.
pub enum Body {
    /// A struct's single, implicit variant.
    Struct(FieldShape),
    /// An enum's explicit variants.
    Enum(Vec<Variant>),
}

/// The structural description of the struct or enum being processed: its
/// name and its body.  The caller owns it; this library only reads it, and
/// addresses its field slots by position.
pub struct TypeDescriptor {
    /// The type's name.
    pub ident: String,
    /// The type's body.
    pub body: Body,
}

/// The declared name of a field, or the empty sequence when it has none.
pub open spec fn field_name(f: Field) -> Seq<char> {
    match f.ident {
        Option::Some(name) => name@,
        Option::None => Seq::empty(),
    }
}

/// The fields of a shape, in declaration order (empty for `Unit`).
pub open spec fn shape_fields(shape: FieldShape) -> Seq<Field> {
    match shape {
        FieldShape::Unit => Seq::empty(),
        FieldShape::Tuple(fields) => fields@,
        FieldShape::Named(fields) => fields@,
    }
}

/// The number of field slots of a shape.
pub open spec fn num_fields(shape: FieldShape) -> nat {
    shape_fields(shape).len()
}

/// A shape is well formed when every field of a named shape carries a
/// name.  A named shape with an anonymous field could not be rendered as a
/// destructuring pattern; the descriptor's producer owes this invariant,
/// and the traversal functions demand it rather than emit broken output.
pub open spec fn shape_wf(shape: FieldShape) -> bool {
    match shape {
        FieldShape::Named(fields) => forall|i: int|
            0 <= i < fields@.len() ==> (#[trigger] fields@[i].ident) is Some,
        _ => true,
    }
}

/// The number of variants a traversal walks: one for a struct, one per
/// case for an enum.
pub open spec fn num_variants(input: TypeDescriptor) -> nat {
    match input.body {
        Body::Struct(_) => 1,
        Body::Enum(variants) => variants@.len(),
    }
}

/// The field layout of variant `v` of the descriptor.
pub open spec fn variant_shape(input: TypeDescriptor, v: int) -> FieldShape {
    match input.body {
        Body::Struct(shape) => shape,
        Body::Enum(variants) => variants@[v].shape,
    }
}

/// The tokens naming variant `v` in a pattern: the bare type name for a
/// struct, `Type :: Variant` for an enum case.
pub open spec fn variant_path(input: TypeDescriptor, v: int) -> Seq<Seq<char>> {
    match input.body {
        Body::Struct(_) => seq![input.ident@],
        Body::Enum(variants) => seq![input.ident@, "::"@, variants@[v].ident@],
    }
}

/// The name of variant `v`: the type's own name for a struct's single
/// implicit variant, the case's name for an enum.
pub open spec fn variant_ident(input: TypeDescriptor, v: int) -> Seq<char> {
    match input.body {
        Body::Struct(_) => input.ident@,
        Body::Enum(variants) => variants@[v].ident@,
    }
}

/// A descriptor is well formed when each of its variants' shapes is.
pub open spec fn descriptor_wf(input: TypeDescriptor) -> bool {
    forall|v: int|
        0 <= v < num_variants(input) ==> shape_wf(#[trigger] variant_shape(input, v))
}

} // verus!
