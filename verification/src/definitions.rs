//! The type intermediate representation: an ordered sequence of resolved type
//! declarations that the code generator walks. All cross-references are
//! assumed already resolved to a target-language name; the renderer only
//! reads these values and never validates them.
use vstd::prelude::*;

verus! {

/// The closed set of primitive types a schema can mention.
#[derive(Clone, Copy)]
pub enum TPrimitive {
    String,
    Tbool,
    Ti64,
    Tf64,
}

/// A resolved handle to another declaration, exposing only its target name.
pub struct TReference {
    pub name: String,
}

/// The value side of an ordered-map shape: a primitive or a reference.
pub enum TMapValue {
    TPrimitive(TPrimitive),
    Reference(TReference),
}

/// An ordered map from a primitive key to a primitive or referenced value.
pub struct TMap {
    pub key: TPrimitive,
    pub value: TMapValue,
}

/// A sequence of primitives or references.
pub enum TVec {
    TPrimitive(TPrimitive),
    Reference(TReference),
}

/// An ordered set of primitives or references.
pub enum TSet {
    TPrimitive(TPrimitive),
    Reference(TReference),
}

/// An optional wrapper; options never directly contain options or tuples.
pub enum TOption {
    TPrimitive(TPrimitive),
    Reference(TReference),
    TMap(TMap),
    TVec(TVec),
    TSet(TSet),
}

/// One item of a tuple shape.
pub enum TupleItem {
    TPrimitive(TPrimitive),
    Reference(TReference),
}

/// An ordered tuple of items.
pub struct TTuple {
    pub items: Vec<TupleItem>,
}

/// The shape of one struct field.
pub enum StructFieldType {
    TPrimitive(TPrimitive),
    Reference(TReference),
    TMap(TMap),
    TOption(TOption),
    TSet(TSet),
    TTuple(TTuple),
    TVec(TVec),
}

/// A backend-specific annotation attached to a field, emitted verbatim.
pub enum StructFieldConfig {
    RustAttribute(String),
}

/// One named, ordered field of a struct.
pub struct StructField {
    pub name: String,
    pub docs: Option<String>,
    pub config: Vec<StructFieldConfig>,
    pub field_type: StructFieldType,
}

/// A struct shape: named, ordered fields.
pub struct TStruct {
    pub fields: Vec<StructField>,
}

/// The payload of an enum variant: nothing, a tuple, or a struct block.
pub enum EnumVariantType {
    Empty,
    Tuple(TTuple),
    Struct(TStruct),
}

/// One named, ordered variant of an enum.
pub struct EnumVariant {
    pub name: String,
    pub docs: Option<String>,
    pub variant_type: EnumVariantType,
}

/// An enum shape: named, ordered variants.
pub struct TEnum {
    pub variants: Vec<EnumVariant>,
}

/// A backend-specific annotation attached to a declaration, emitted verbatim.
pub enum TypeDeclarationConfig {
    RustAttribute(String),
}

/// The value of one top-level declaration; exactly one variant is active.
pub enum DeclarationValue {
    TPrimitive(TPrimitive),
    TMap(TMap),
    TTuple(TTuple),
    TStruct(TStruct),
    TEnum(TEnum),
    Docs,
}

/// One named top-level entry of the intermediate representation.
/// `name` is unused when `value` is `Docs`.
pub struct TypeDeclaration {
    pub name: String,
    pub docs: Option<String>,
    pub config: Vec<TypeDeclarationConfig>,
    pub value: DeclarationValue,
}

/// The ordered sequence of declarations consumed by one rendering pass.
/// Order is significant: it is preserved in the output.
pub struct Declarations {
    pub declarations: Vec<TypeDeclaration>,
}

} // verus!
