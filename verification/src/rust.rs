//! The Rust rendering backend: walks a tree of type declarations and emits
//! Rust source text for the same type shapes, collecting the `use`
//! statements the shapes require and prepending them, deduplicated and
//! sorted, to the rendered declarations.
use vstd::prelude::*;

use crate::definitions::{
    DeclarationValue, Declarations, EnumVariant, EnumVariantType, StructField, StructFieldConfig,
    StructFieldType, TEnum, TMap, TMapValue, TOption, TPrimitive, TSet, TStruct, TTuple, TVec,
    TupleItem, TypeDeclaration, TypeDeclarationConfig,
};
use crate::docs::{
    format_docstring, spec_format_docstring, spec_spaces, CommentStyle, make_spaces,
};
use crate::imports::{lemma_seq_lt_skip, lemma_sorted_unique_representation, seq_lt, ImportSet};

verus! {

/// The statement that the ordered-map container requires.
pub open spec fn map_import() -> Seq<char> {
    "use std::collections::BTreeMap;"@
}

/// The statement that the ordered-set container requires.
pub open spec fn set_import() -> Seq<char> {
    "use std::collections::BTreeSet;"@
}

/// The fixed spelling of each primitive type.
pub open spec fn spec_primitive(p: TPrimitive) -> Seq<char> {
    match p {
        TPrimitive::String => "String"@,
        TPrimitive::Tbool => "bool"@,
        TPrimitive::Ti64 => "i64"@,
        TPrimitive::Tf64 => "f64"@,
    }
}

/// The value side of a map: a primitive spelling or a referenced name.
pub open spec fn spec_map_value(v: TMapValue) -> Seq<char> {
    match v {
        TMapValue::TPrimitive(p) => spec_primitive(p),
        TMapValue::Reference(r) => r.name@,
    }
}

/// An ordered-map shape.
pub open spec fn spec_map(m: TMap) -> Seq<char> {
    "BTreeMap<"@ + spec_primitive(m.key) + ", "@ + spec_map_value(m.value) + ">"@
}

/// The element of a sequence shape.
pub open spec fn spec_vec_value(v: TVec) -> Seq<char> {
    match v {
        TVec::TPrimitive(p) => spec_primitive(p),
        TVec::Reference(r) => r.name@,
    }
}

/// A sequence shape.
pub open spec fn spec_vec(v: TVec) -> Seq<char> {
    "Vec<"@ + spec_vec_value(v) + ">"@
}

/// The element of an ordered-set shape.
pub open spec fn spec_set_value(s: TSet) -> Seq<char> {
    match s {
        TSet::TPrimitive(p) => spec_primitive(p),
        TSet::Reference(r) => r.name@,
    }
}

/// An ordered-set shape.
pub open spec fn spec_set(s: TSet) -> Seq<char> {
    "BTreeSet<"@ + spec_set_value(s) + ">"@
}

/// The payload of an optional shape.
pub open spec fn spec_option_value(o: TOption) -> Seq<char> {
    match o {
        TOption::TPrimitive(p) => spec_primitive(p),
        TOption::Reference(r) => r.name@,
        TOption::TMap(m) => spec_map(m),
        TOption::TVec(v) => spec_vec(v),
        TOption::TSet(s) => spec_set(s),
    }
}

/// An optional shape.
pub open spec fn spec_option(o: TOption) -> Seq<char> {
    "Option<"@ + spec_option_value(o) + ">"@
}

/// One tuple item: a primitive spelling or a referenced name.
pub open spec fn spec_tuple_item(i: TupleItem) -> Seq<char> {
    match i {
        TupleItem::TPrimitive(p) => spec_primitive(p),
        TupleItem::Reference(r) => r.name@,
    }
}

/// Tuple items joined by a comma and a space, in declared order.
pub open spec fn spec_tuple_items(items: Seq<TupleItem>) -> Seq<char>
    decreases items.len(),
{
    if items.len() == 0 {
        Seq::empty()
    } else if items.len() == 1 {
        spec_tuple_item(items[0])
    } else {
        spec_tuple_item(items[0]) + ", "@ + spec_tuple_items(items.skip(1))
    }
}

/// A tuple shape: its items, comma-separated, in parentheses.
pub open spec fn spec_tuple(t: TTuple) -> Seq<char> {
    "("@ + spec_tuple_items(t.items@) + ")"@
}

/// Appending one tuple item extends the joined text at its end: item order
/// in the output is exactly the declared order.
pub proof fn lemma_tuple_items_snoc(items: Seq<TupleItem>, x: TupleItem)
    ensures
        spec_tuple_items(items.push(x)) == if items.len() == 0 {
            spec_tuple_item(x)
        } else {
            spec_tuple_items(items) + ", "@ + spec_tuple_item(x)
        },
    decreases items.len(),
{
    let p = items.push(x);
    if items.len() == 0 {
        assert(p.len() == 1);
        assert(p[0] == x);
    } else {
        assert(p.skip(1) =~= items.skip(1).push(x));
        lemma_tuple_items_snoc(items.skip(1), x);
        if items.len() == 1 {
            assert(spec_tuple_items(p) =~= spec_tuple_items(items) + ", "@ + spec_tuple_item(x));
        } else {
            assert(spec_tuple_items(items) + ", "@ + spec_tuple_items(items.skip(1)).add(
                ", "@,
            ).add(spec_tuple_item(x)) =~= spec_tuple_items(items).add(", "@).add(
                spec_tuple_items(items.skip(1)),
            ) + ", "@ + spec_tuple_item(x));
            assert(spec_tuple_items(p) =~= spec_tuple_items(items) + ", "@ + spec_tuple_item(x));
        }
    }
}

/// The import statements an optional shape requires.
pub open spec fn spec_option_needs(o: TOption) -> Set<Seq<char>> {
    match o {
        TOption::TMap(_) => set![map_import()],
        TOption::TSet(_) => set![set_import()],
        _ => Set::empty(),
    }
}

/// Whether a doc string is present and non-empty, i.e. will be emitted.
pub open spec fn spec_has_docs(d: Option<String>) -> bool {
    d is Some && d->0@.len() > 0
}

/// The text of one field-level attribute.
pub open spec fn spec_field_attr(c: StructFieldConfig) -> Seq<char> {
    match c {
        StructFieldConfig::RustAttribute(a) => a@,
    }
}

/// The literal attribute lines put before a field, in declared order.
pub open spec fn spec_field_config(cfgs: Seq<StructFieldConfig>, indent: Seq<char>) -> Seq<char>
    decreases cfgs.len(),
{
    if cfgs.len() == 0 {
        Seq::empty()
    } else {
        "\n    "@ + indent + spec_field_attr(cfgs[0]) + spec_field_config(cfgs.skip(1), indent)
    }
}

/// Appending one attribute extends the attribute lines at their end.
pub proof fn lemma_field_config_snoc(cfgs: Seq<StructFieldConfig>, c: StructFieldConfig, indent: Seq<char>)
    ensures
        spec_field_config(cfgs.push(c), indent) == spec_field_config(cfgs, indent) + ("\n    "@
            + indent + spec_field_attr(c)),
    decreases cfgs.len(),
{
    let p = cfgs.push(c);
    if cfgs.len() == 0 {
        assert(p[0] == c);
        assert(p.skip(1) =~= Seq::<StructFieldConfig>::empty());
        assert(spec_field_config(Seq::<StructFieldConfig>::empty(), indent)
            == Seq::<char>::empty());
        assert(spec_field_config(p.skip(1), indent) == Seq::<char>::empty());
        assert(spec_field_config(p, indent) =~= spec_field_config(cfgs, indent) + ("\n    "@
            + indent + spec_field_attr(c)));
    } else {
        assert(p[0] == cfgs[0]);
        assert(p.skip(1) =~= cfgs.skip(1).push(c));
        lemma_field_config_snoc(cfgs.skip(1), c, indent);
        assert(spec_field_config(p, indent) == "\n    "@ + indent + spec_field_attr(cfgs[0])
            + spec_field_config(p.skip(1), indent));
        assert(spec_field_config(p.skip(1), indent) == spec_field_config(cfgs.skip(1), indent)
            + ("\n    "@ + indent + spec_field_attr(c)));
        assert(spec_field_config(cfgs, indent) == "\n    "@ + indent + spec_field_attr(cfgs[0])
            + spec_field_config(cfgs.skip(1), indent));
        assert(spec_field_config(p, indent) =~= spec_field_config(cfgs, indent) + ("\n    "@
            + indent + spec_field_attr(c)));
    }
}

/// The rendered shape of one field's type.
pub open spec fn spec_field_type(ft: StructFieldType) -> Seq<char> {
    match ft {
        StructFieldType::TPrimitive(p) => spec_primitive(p),
        StructFieldType::Reference(r) => r.name@,
        StructFieldType::TMap(m) => spec_map(m),
        StructFieldType::TOption(o) => spec_option(o),
        StructFieldType::TSet(s) => spec_set(s),
        StructFieldType::TTuple(t) => spec_tuple(t),
        StructFieldType::TVec(v) => spec_vec(v),
    }
}

/// The import statements one field's type requires.
pub open spec fn spec_field_type_needs(ft: StructFieldType) -> Set<Seq<char>> {
    match ft {
        StructFieldType::TMap(_) => set![map_import()],
        StructFieldType::TSet(_) => set![set_import()],
        StructFieldType::TOption(o) => spec_option_needs(o),
        _ => Set::empty(),
    }
}

/// One rendered field: its attribute lines, its documentation if any, then
/// its name and rendered type on an indented line.
pub open spec fn spec_field(f: StructField, indent_level: nat) -> Seq<char> {
    let indent = spec_spaces(indent_level);
    let base = "\n    "@ + indent + f.name@ + ": "@ + spec_field_type(f.field_type) + ","@;
    let documented = if spec_has_docs(f.docs) {
        "\n"@ + spec_format_docstring(f.docs->0@, CommentStyle::TripleSlash, indent_level + 4)
            + base
    } else {
        base
    };
    spec_field_config(f.config@, indent) + documented
}

/// The rendered fields of a struct, in declared order.
pub open spec fn spec_fields(fs: Seq<StructField>, indent_level: nat) -> Seq<char>
    decreases fs.len(),
{
    if fs.len() == 0 {
        Seq::empty()
    } else {
        spec_field(fs[0], indent_level) + spec_fields(fs.skip(1), indent_level)
    }
}

/// Appending one field extends the rendered field block at its end: field
/// order in the output is exactly the declared order.
pub proof fn lemma_fields_snoc(fs: Seq<StructField>, f: StructField, indent_level: nat)
    ensures
        spec_fields(fs.push(f), indent_level) == spec_fields(fs, indent_level) + spec_field(
            f,
            indent_level,
        ),
    decreases fs.len(),
{
    let p = fs.push(f);
    if fs.len() == 0 {
        assert(p[0] == f);
        assert(p.skip(1) =~= Seq::<StructField>::empty());
        assert(spec_fields(Seq::<StructField>::empty(), indent_level) == Seq::<char>::empty());
        assert(spec_fields(p.skip(1), indent_level) == Seq::<char>::empty());
        assert(spec_fields(p, indent_level) =~= spec_fields(fs, indent_level) + spec_field(
            f,
            indent_level,
        ));
    } else {
        assert(p[0] == fs[0]);
        assert(p.skip(1) =~= fs.skip(1).push(f));
        lemma_fields_snoc(fs.skip(1), f, indent_level);
        assert(spec_fields(p, indent_level) == spec_field(fs[0], indent_level) + spec_fields(
            p.skip(1),
            indent_level,
        ));
        assert(spec_fields(p.skip(1), indent_level) == spec_fields(fs.skip(1), indent_level)
            + spec_field(f, indent_level));
        assert(spec_fields(fs, indent_level) == spec_field(fs[0], indent_level) + spec_fields(
            fs.skip(1),
            indent_level,
        ));
        assert(spec_fields(p, indent_level) =~= spec_fields(fs, indent_level) + spec_field(
            f,
            indent_level,
        ));
    }
}

/// The import statements a sequence of fields requires.
pub open spec fn spec_fields_needs(fs: Seq<StructField>) -> Set<Seq<char>>
    decreases fs.len(),
{
    if fs.len() == 0 {
        Set::empty()
    } else {
        spec_field_type_needs(fs[0].field_type).union(spec_fields_needs(fs.skip(1)))
    }
}

/// Appending one field adds exactly its type's imports to the needs.
pub proof fn lemma_fields_needs_snoc(fs: Seq<StructField>, f: StructField)
    ensures
        spec_fields_needs(fs.push(f)) == spec_fields_needs(fs).union(
            spec_field_type_needs(f.field_type),
        ),
    decreases fs.len(),
{
    let p = fs.push(f);
    if fs.len() == 0 {
        assert(p[0] == f);
        assert(p.skip(1) =~= Seq::<StructField>::empty());
        assert(spec_fields_needs(Seq::<StructField>::empty()) == Set::<Seq<char>>::empty());
        assert(spec_fields_needs(p.skip(1)) == Set::<Seq<char>>::empty());
        assert(spec_fields_needs(p) =~= spec_fields_needs(fs).union(
            spec_field_type_needs(f.field_type),
        ));
    } else {
        assert(p[0] == fs[0]);
        assert(p.skip(1) =~= fs.skip(1).push(f));
        lemma_fields_needs_snoc(fs.skip(1), f);
        assert(spec_fields_needs(p) == spec_field_type_needs(fs[0].field_type).union(
            spec_fields_needs(p.skip(1)),
        ));
        assert(spec_fields_needs(p.skip(1)) == spec_fields_needs(fs.skip(1)).union(
            spec_field_type_needs(f.field_type),
        ));
        assert(spec_fields_needs(fs) == spec_field_type_needs(fs[0].field_type).union(
            spec_fields_needs(fs.skip(1)),
        ));
        assert(spec_fields_needs(p) =~= spec_fields_needs(fs).union(
            spec_field_type_needs(f.field_type),
        ));
    }
}

/// A rendered struct block: the fields between braces, the closing brace on
/// its own line at the struct's indentation.
pub open spec fn spec_struct(s: TStruct, indent_level: nat) -> Seq<char> {
    "{"@ + spec_fields(s.fields@, indent_level) + "\n"@ + spec_spaces(indent_level) + "}"@
}

/// The import statements a struct requires: those of its fields.
pub open spec fn spec_struct_needs(s: TStruct) -> Set<Seq<char>> {
    spec_fields_needs(s.fields@)
}

/// The rendered payload of one enum variant.
pub open spec fn spec_variant_type(vt: EnumVariantType) -> Seq<char> {
    match vt {
        EnumVariantType::Empty => Seq::empty(),
        EnumVariantType::Tuple(t) => spec_tuple(t),
        EnumVariantType::Struct(s) => " "@ + spec_struct(s, 4),
    }
}

/// The import statements one variant's payload requires.
pub open spec fn spec_variant_needs(vt: EnumVariantType) -> Set<Seq<char>> {
    match vt {
        EnumVariantType::Struct(s) => spec_struct_needs(s),
        _ => Set::empty(),
    }
}

/// One rendered variant: its documentation if any, then its name and
/// rendered payload on an indented line.
pub open spec fn spec_variant(v: EnumVariant) -> Seq<char> {
    let base = "\n    "@ + v.name@ + spec_variant_type(v.variant_type) + ","@;
    if spec_has_docs(v.docs) {
        "\n"@ + spec_format_docstring(v.docs->0@, CommentStyle::TripleSlash, 4) + base
    } else {
        base
    }
}

/// The rendered variants of an enum, in declared order.
pub open spec fn spec_variants(vs: Seq<EnumVariant>) -> Seq<char>
    decreases vs.len(),
{
    if vs.len() == 0 {
        Seq::empty()
    } else {
        spec_variant(vs[0]) + spec_variants(vs.skip(1))
    }
}

/// Appending one variant extends the rendered variant block at its end:
/// variant order in the output is exactly the declared order.
pub proof fn lemma_variants_snoc(vs: Seq<EnumVariant>, v: EnumVariant)
    ensures
        spec_variants(vs.push(v)) == spec_variants(vs) + spec_variant(v),
    decreases vs.len(),
{
    let p = vs.push(v);
    if vs.len() == 0 {
        assert(p[0] == v);
        assert(p.skip(1) =~= Seq::<EnumVariant>::empty());
        assert(spec_variants(Seq::<EnumVariant>::empty()) == Seq::<char>::empty());
        assert(spec_variants(p.skip(1)) == Seq::<char>::empty());
        assert(spec_variants(p) =~= spec_variants(vs) + spec_variant(v));
    } else {
        assert(p[0] == vs[0]);
        assert(p.skip(1) =~= vs.skip(1).push(v));
        lemma_variants_snoc(vs.skip(1), v);
        assert(spec_variants(p) == spec_variant(vs[0]) + spec_variants(p.skip(1)));
        assert(spec_variants(p.skip(1)) == spec_variants(vs.skip(1)) + spec_variant(v));
        assert(spec_variants(vs) == spec_variant(vs[0]) + spec_variants(vs.skip(1)));
        assert(spec_variants(p) =~= spec_variants(vs) + spec_variant(v));
    }
}

/// The import statements a sequence of variants requires.
pub open spec fn spec_variants_needs(vs: Seq<EnumVariant>) -> Set<Seq<char>>
    decreases vs.len(),
{
    if vs.len() == 0 {
        Set::empty()
    } else {
        spec_variant_needs(vs[0].variant_type).union(spec_variants_needs(vs.skip(1)))
    }
}

/// Appending one variant adds exactly its payload's imports to the needs.
pub proof fn lemma_variants_needs_snoc(vs: Seq<EnumVariant>, v: EnumVariant)
    ensures
        spec_variants_needs(vs.push(v)) == spec_variants_needs(vs).union(
            spec_variant_needs(v.variant_type),
        ),
    decreases vs.len(),
{
    let p = vs.push(v);
    if vs.len() == 0 {
        assert(p[0] == v);
        assert(p.skip(1) =~= Seq::<EnumVariant>::empty());
        assert(spec_variants_needs(Seq::<EnumVariant>::empty()) == Set::<Seq<char>>::empty());
        assert(spec_variants_needs(p.skip(1)) == Set::<Seq<char>>::empty());
        assert(spec_variants_needs(p) =~= spec_variants_needs(vs).union(
            spec_variant_needs(v.variant_type),
        ));
    } else {
        assert(p[0] == vs[0]);
        assert(p.skip(1) =~= vs.skip(1).push(v));
        lemma_variants_needs_snoc(vs.skip(1), v);
        assert(spec_variants_needs(p) == spec_variant_needs(vs[0].variant_type).union(
            spec_variants_needs(p.skip(1)),
        ));
        assert(spec_variants_needs(p.skip(1)) == spec_variants_needs(vs.skip(1)).union(
            spec_variant_needs(v.variant_type),
        ));
        assert(spec_variants_needs(vs) == spec_variant_needs(vs[0].variant_type).union(
            spec_variants_needs(vs.skip(1)),
        ));
        assert(spec_variants_needs(p) =~= spec_variants_needs(vs).union(
            spec_variant_needs(v.variant_type),
        ));
    }
}

/// A rendered enum block: the variants between braces, the closing brace on
/// a line of its own.
pub open spec fn spec_enum(e: TEnum) -> Seq<char> {
    "{"@ + spec_variants(e.variants@) + "\n}"@
}

/// The import statements an enum requires: those of its variant payloads.
pub open spec fn spec_enum_needs(e: TEnum) -> Set<Seq<char>> {
    spec_variants_needs(e.variants@)
}

/// The text of one declaration-level attribute.
pub open spec fn spec_decl_attr(c: TypeDeclarationConfig) -> Seq<char> {
    match c {
        TypeDeclarationConfig::RustAttribute(a) => a@,
    }
}

/// The literal attribute lines put before a declaration, in declared order,
/// each followed by a line break.
pub open spec fn spec_decl_config(cfgs: Seq<TypeDeclarationConfig>) -> Seq<char>
    decreases cfgs.len(),
{
    if cfgs.len() == 0 {
        Seq::empty()
    } else {
        spec_decl_attr(cfgs[0]) + "\n"@ + spec_decl_config(cfgs.skip(1))
    }
}

/// Appending one attribute extends the attribute lines at their end.
pub proof fn lemma_decl_config_snoc(cfgs: Seq<TypeDeclarationConfig>, c: TypeDeclarationConfig)
    ensures
        spec_decl_config(cfgs.push(c)) == spec_decl_config(cfgs) + (spec_decl_attr(c) + "\n"@),
    decreases cfgs.len(),
{
    let p = cfgs.push(c);
    if cfgs.len() == 0 {
        assert(p[0] == c);
        assert(p.skip(1) =~= Seq::<TypeDeclarationConfig>::empty());
        assert(spec_decl_config(Seq::<TypeDeclarationConfig>::empty()) == Seq::<char>::empty());
        assert(spec_decl_config(p.skip(1)) == Seq::<char>::empty());
        assert(spec_decl_config(p) =~= spec_decl_config(cfgs) + (spec_decl_attr(c) + "\n"@));
    } else {
        assert(p[0] == cfgs[0]);
        assert(p.skip(1) =~= cfgs.skip(1).push(c));
        lemma_decl_config_snoc(cfgs.skip(1), c);
        assert(spec_decl_config(p) == spec_decl_attr(cfgs[0]) + "\n"@ + spec_decl_config(
            p.skip(1),
        ));
        assert(spec_decl_config(cfgs) == spec_decl_attr(cfgs[0]) + "\n"@ + spec_decl_config(
            cfgs.skip(1),
        ));
        assert(spec_decl_config(p) =~= spec_decl_config(cfgs) + (spec_decl_attr(c) + "\n"@));
    }
}

/// The fixed serialization-and-debug support marker put before every
/// rendered struct declaration.
pub open spec fn spec_derive_line() -> Seq<char> {
    "#[derive(Debug, serde::Serialize, serde::Deserialize)]\n"@
}

/// The fixed derive marker of a declaration: the serialization-and-debug
/// line for a struct, nothing otherwise. It stands immediately before the
/// struct header, after the documentation; the config list only adds extra
/// attributes, it never replaces this default.
pub open spec fn spec_decl_derive(d: TypeDeclaration) -> Seq<char> {
    if d.value is TStruct {
        spec_derive_line()
    } else {
        Seq::<char>::empty()
    }
}

/// The declaration's own text, before documentation and attributes:
/// an alias line, a struct or enum block, or nothing for a pure
/// documentation block.
pub open spec fn spec_decl_body(d: TypeDeclaration) -> Seq<char> {
    match d.value {
        DeclarationValue::TPrimitive(p) => "pub type "@ + d.name@ + " = "@ + spec_primitive(p)
            + ";"@,
        DeclarationValue::TMap(m) => "pub type "@ + d.name@ + " = "@ + spec_map(m) + ";"@,
        DeclarationValue::TTuple(t) => "pub type "@ + d.name@ + " = "@ + spec_tuple(t) + ";"@,
        DeclarationValue::TStruct(s) => "pub struct "@ + d.name@ + " "@ + spec_struct(s, 0),
        DeclarationValue::TEnum(e) => "pub enum "@ + d.name@ + " "@ + spec_enum(e),
        DeclarationValue::Docs => Seq::empty(),
    }
}

/// The comment style of a declaration's own documentation: a plain comment
/// for a free-standing documentation block, a doc comment otherwise.
pub open spec fn spec_decl_style(d: TypeDeclaration) -> CommentStyle {
    if d.value is Docs {
        CommentStyle::DoubleSlash
    } else {
        CommentStyle::TripleSlash
    }
}

/// One fully rendered declaration: attribute lines, the documentation if
/// any, the derive marker for a struct immediately before its header, then
/// the declaration's own text.
pub open spec fn spec_declaration(d: TypeDeclaration) -> Seq<char> {
    spec_decl_config(d.config@) + if spec_has_docs(d.docs) {
        spec_format_docstring(d.docs->0@, spec_decl_style(d), 0) + "\n"@ + (spec_decl_derive(d)
            + spec_decl_body(d))
    } else {
        spec_decl_derive(d) + spec_decl_body(d)
    }
}

/// The import statements one declaration requires.
pub open spec fn spec_decl_needs(d: TypeDeclaration) -> Set<Seq<char>> {
    match d.value {
        DeclarationValue::TMap(_) => set![map_import()],
        DeclarationValue::TStruct(s) => spec_struct_needs(s),
        DeclarationValue::TEnum(e) => spec_enum_needs(e),
        _ => Set::empty(),
    }
}

/// The rendered declarations in declared order, each between blank-line
/// separators.
pub open spec fn spec_decls_code(ds: Seq<TypeDeclaration>) -> Seq<char>
    decreases ds.len(),
{
    if ds.len() == 0 {
        Seq::empty()
    } else {
        "\n"@ + spec_declaration(ds[0]) + "\n"@ + spec_decls_code(ds.skip(1))
    }
}

/// Appending one declaration extends the rendered text at its end:
/// declaration order in the output is exactly the declared order.
pub proof fn lemma_decls_code_snoc(ds: Seq<TypeDeclaration>, d: TypeDeclaration)
    ensures
        spec_decls_code(ds.push(d)) == spec_decls_code(ds) + ("\n"@ + spec_declaration(d)
            + "\n"@),
    decreases ds.len(),
{
    let p = ds.push(d);
    if ds.len() == 0 {
        assert(p[0] == d);
        assert(p.skip(1) =~= Seq::<TypeDeclaration>::empty());
        assert(spec_decls_code(Seq::<TypeDeclaration>::empty()) == Seq::<char>::empty());
        assert(spec_decls_code(p.skip(1)) == Seq::<char>::empty());
        assert(spec_decls_code(p) =~= spec_decls_code(ds) + ("\n"@ + spec_declaration(d)
            + "\n"@));
    } else {
        assert(p[0] == ds[0]);
        assert(p.skip(1) =~= ds.skip(1).push(d));
        lemma_decls_code_snoc(ds.skip(1), d);
        assert(spec_decls_code(p) == "\n"@ + spec_declaration(ds[0]) + "\n"@ + spec_decls_code(
            p.skip(1),
        ));
        assert(spec_decls_code(ds) == "\n"@ + spec_declaration(ds[0]) + "\n"@ + spec_decls_code(
            ds.skip(1),
        ));
        assert(spec_decls_code(p) =~= spec_decls_code(ds) + ("\n"@ + spec_declaration(d)
            + "\n"@));
    }
}

/// The import statements a sequence of declarations requires.
pub open spec fn spec_decls_needs(ds: Seq<TypeDeclaration>) -> Set<Seq<char>>
    decreases ds.len(),
{
    if ds.len() == 0 {
        Set::empty()
    } else {
        spec_decl_needs(ds[0]).union(spec_decls_needs(ds.skip(1)))
    }
}

/// Appending one declaration adds exactly its imports to the needs.
pub proof fn lemma_decls_needs_snoc(ds: Seq<TypeDeclaration>, d: TypeDeclaration)
    ensures
        spec_decls_needs(ds.push(d)) == spec_decls_needs(ds).union(spec_decl_needs(d)),
    decreases ds.len(),
{
    let p = ds.push(d);
    if ds.len() == 0 {
        assert(p[0] == d);
        assert(p.skip(1) =~= Seq::<TypeDeclaration>::empty());
        assert(spec_decls_needs(Seq::<TypeDeclaration>::empty()) == Set::<Seq<char>>::empty());
        assert(spec_decls_needs(p.skip(1)) == Set::<Seq<char>>::empty());
        assert(spec_decls_needs(p) =~= spec_decls_needs(ds).union(spec_decl_needs(d)));
    } else {
        assert(p[0] == ds[0]);
        assert(p.skip(1) =~= ds.skip(1).push(d));
        lemma_decls_needs_snoc(ds.skip(1), d);
        assert(spec_decls_needs(p) == spec_decl_needs(ds[0]).union(spec_decls_needs(p.skip(1))));
        assert(spec_decls_needs(ds) == spec_decl_needs(ds[0]).union(spec_decls_needs(ds.skip(1))));
        assert(spec_decls_needs(p) =~= spec_decls_needs(ds).union(spec_decl_needs(d)));
    }
}

/// Every import statement a shape can require is one of the two container
/// imports.
pub open spec fn spec_known_imports(s: Set<Seq<char>>) -> bool {
    forall|x: Seq<char>| s.contains(x) ==> x == map_import() || x == set_import()
}

/// The needs of a field sequence hold only the two container imports.
pub proof fn lemma_fields_needs_bounded(fs: Seq<StructField>)
    ensures
        spec_known_imports(spec_fields_needs(fs)),
    decreases fs.len(),
{
    if fs.len() > 0 {
        lemma_fields_needs_bounded(fs.skip(1));
    }
}

/// The needs of a variant sequence hold only the two container imports.
pub proof fn lemma_variants_needs_bounded(vs: Seq<EnumVariant>)
    ensures
        spec_known_imports(spec_variants_needs(vs)),
    decreases vs.len(),
{
    if vs.len() > 0 {
        match vs[0].variant_type {
            EnumVariantType::Struct(s) => lemma_fields_needs_bounded(s.fields@),
            _ => (),
        }
        lemma_variants_needs_bounded(vs.skip(1));
    }
}

/// The needs of a declaration sequence hold only the two container imports.
pub proof fn lemma_decls_needs_bounded(ds: Seq<TypeDeclaration>)
    ensures
        spec_known_imports(spec_decls_needs(ds)),
    decreases ds.len(),
{
    if ds.len() > 0 {
        match ds[0].value {
            DeclarationValue::TStruct(s) => lemma_fields_needs_bounded(s.fields@),
            DeclarationValue::TEnum(e) => lemma_variants_needs_bounded(e.variants@),
            _ => (),
        }
        lemma_decls_needs_bounded(ds.skip(1));
    }
}

/// The ordered-map import sorts before the ordered-set import, so the
/// import block below is in lexicographic order.
pub proof fn lemma_import_order()
    ensures
        seq_lt(map_import(), set_import()),
{
    reveal_strlit("use std::collections::BTreeMap;");
    reveal_strlit("use std::collections::BTreeSet;");
    lemma_seq_lt_skip(map_import(), set_import(), 27);
    assert(map_import().skip(27)[0] == 'M');
    assert(set_import().skip(27)[0] == 'S');
    assert(seq_lt(map_import().skip(27), set_import().skip(27)));
}

/// The import block of a set of needed statements: each needed statement on
/// a line of its own, deduplicated, in lexicographic order.
pub open spec fn spec_imports_block(needs: Set<Seq<char>>) -> Seq<char> {
    (if needs.contains(map_import()) {
        map_import() + "\n"@
    } else {
        Seq::<char>::empty()
    }) + (if needs.contains(set_import()) {
        set_import() + "\n"@
    } else {
        Seq::<char>::empty()
    })
}

/// The flushed statements, one per line, in their stored order.
pub open spec fn spec_join_imports(ss: Seq<Seq<char>>) -> Seq<char>
    decreases ss.len(),
{
    if ss.len() == 0 {
        Seq::empty()
    } else {
        ss[0] + "\n"@ + spec_join_imports(ss.skip(1))
    }
}

/// Appending one statement extends the flushed text at its end.
pub proof fn lemma_join_imports_snoc(ss: Seq<Seq<char>>, s: Seq<char>)
    ensures
        spec_join_imports(ss.push(s)) == spec_join_imports(ss) + (s + "\n"@),
    decreases ss.len(),
{
    let p = ss.push(s);
    if ss.len() == 0 {
        assert(p[0] == s);
        assert(p.skip(1) =~= Seq::<Seq<char>>::empty());
        assert(spec_join_imports(Seq::<Seq<char>>::empty()) == Seq::<char>::empty());
        assert(spec_join_imports(p.skip(1)) == Seq::<char>::empty());
        assert(spec_join_imports(p) =~= spec_join_imports(ss) + (s + "\n"@));
    } else {
        assert(p[0] == ss[0]);
        assert(p.skip(1) =~= ss.skip(1).push(s));
        lemma_join_imports_snoc(ss.skip(1), s);
        assert(spec_join_imports(p) == ss[0] + "\n"@ + spec_join_imports(p.skip(1)));
        assert(spec_join_imports(ss) == ss[0] + "\n"@ + spec_join_imports(ss.skip(1)));
        assert(spec_join_imports(p) =~= spec_join_imports(ss) + (s + "\n"@));
    }
}

/// The full rendered output of one pass over a declaration sequence: the
/// import block, a blank line, then the declarations in declared order.
/// Rendering is a function of the declarations alone, so rendering the same
/// declarations twice yields identical output.
pub open spec fn spec_gen_declarations(ds: Seq<TypeDeclaration>) -> Seq<char> {
    spec_imports_block(spec_decls_needs(ds)) + "\n"@ + spec_decls_code(ds)
}

/// The renderer. It owns the one piece of mutable state of a rendering
/// pass: the import collector, threaded explicitly through the recursive
/// walk.
pub struct RustCodegen {
    pub imports: ImportSet,
}

impl RustCodegen {
    /// The renderer's invariant: its import collector is well formed.
    pub open spec fn inv(self) -> bool {
        self.imports.wf()
    }

    /// A fresh renderer with an empty import collector.
    pub fn new() -> (r: RustCodegen)
        ensures
            r.inv(),
            r.imports.strs() == Seq::<Seq<char>>::empty(),
    {
        RustCodegen { imports: ImportSet::new() }
    }

    /// Registers one import statement; idempotent.
    pub fn add_import(&mut self, import: &str)
        requires
            old(self).inv(),
        ensures
            final(self).inv(),
            final(self).imports.strs().to_set() == old(self).imports.strs().to_set().insert(
                import@,
            ),
    {
        self.imports.register(import);
    }

    /// The fixed, total spelling of a primitive type.
    pub fn gen_primitive_type(&self, ty: &TPrimitive) -> (r: &'static str)
        ensures
            r@ == spec_primitive(*ty),
    {
        match ty {
            TPrimitive::String => "String",
            TPrimitive::Tbool => "bool",
            TPrimitive::Ti64 => "i64",
            TPrimitive::Tf64 => "f64",
        }
    }

    /// Renders an ordered-map shape and registers the ordered-map import.
    pub fn gen_map(&mut self, m: &TMap) -> (r: String)
        requires
            old(self).inv(),
        ensures
            final(self).inv(),
            r@ == spec_map(*m),
            final(self).imports.strs().to_set() == old(self).imports.strs().to_set().insert(
                map_import(),
            ),
    {
        let value = match &m.value {
            TMapValue::TPrimitive(p) => self.gen_primitive_type(p).to_owned(),
            TMapValue::Reference(d) => d.name.clone(),
        };
        self.add_import("use std::collections::BTreeMap;");
        let mut r = String::new();
        r.append("BTreeMap<");
        r.append(self.gen_primitive_type(&m.key));
        r.append(", ");
        r.append(value.as_str());
        r.append(">");
        proof {
            assert(r@ =~= spec_map(*m));
        }
        r
    }

    /// Renders a sequence shape; the sequence container needs no import.
    pub fn gen_vec(&self, v: &TVec) -> (r: String)
        ensures
            r@ == spec_vec(*v),
    {
        let value = match v {
            TVec::TPrimitive(p) => self.gen_primitive_type(p).to_owned(),
            TVec::Reference(d) => d.name.clone(),
        };
        let mut r = String::new();
        r.append("Vec<");
        r.append(value.as_str());
        r.append(">");
        proof {
            assert(r@ =~= spec_vec(*v));
        }
        r
    }

    /// Renders an ordered-set shape and registers the ordered-set import.
    pub fn gen_set(&mut self, s: &TSet) -> (r: String)
        requires
            old(self).inv(),
        ensures
            final(self).inv(),
            r@ == spec_set(*s),
            final(self).imports.strs().to_set() == old(self).imports.strs().to_set().insert(
                set_import(),
            ),
    {
        let value = match s {
            TSet::TPrimitive(p) => self.gen_primitive_type(p).to_owned(),
            TSet::Reference(d) => d.name.clone(),
        };
        self.add_import("use std::collections::BTreeSet;");
        let mut r = String::new();
        r.append("BTreeSet<");
        r.append(value.as_str());
        r.append(">");
        proof {
            assert(r@ =~= spec_set(*s));
        }
        r
    }

    /// Renders an optional shape, registering whatever import its payload
    /// requires.
    pub fn gen_option(&mut self, o: &TOption) -> (r: String)
        requires
            old(self).inv(),
        ensures
            final(self).inv(),
            r@ == spec_option(*o),
            final(self).imports.strs().to_set() == old(self).imports.strs().to_set().union(
                spec_option_needs(*o),
            ),
    {
        let value = match o {
            TOption::Reference(r) => r.name.clone(),
            TOption::TPrimitive(p) => self.gen_primitive_type(p).to_owned(),
            TOption::TMap(m) => self.gen_map(m),
            TOption::TVec(v) => self.gen_vec(v),
            TOption::TSet(s) => self.gen_set(s),
        };
        proof {
            assert(self.imports.strs().to_set() =~= old(self).imports.strs().to_set().union(
                spec_option_needs(*o),
            ));
        }
        let mut r = String::new();
        r.append("Option<");
        r.append(value.as_str());
        r.append(">");
        proof {
            assert(r@ =~= spec_option(*o));
        }
        r
    }

    /// Renders a tuple shape: its items in declared order, comma-separated,
    /// in parentheses. An empty tuple renders as an empty parenthesis pair.
    pub fn gen_tuple(&self, t: &TTuple) -> (r: String)
        ensures
            r@ == spec_tuple(*t),
    {
        let mut values = String::new();
        let len = t.items.len();
        let mut n: usize = 0;
        proof {
            assert(t.items@.take(0) =~= Seq::<TupleItem>::empty());
        }
        while n < len
            invariant
                n <= len,
                len == t.items@.len(),
                values@ == spec_tuple_items(t.items@.take(n as int)) + if 0 < n < len {
                    ", "@
                } else {
                    Seq::<char>::empty()
                },
            decreases len - n,
        {
            let is_last = n == len - 1;
            let value = match &t.items[n] {
                TupleItem::Reference(d) => d.name.clone(),
                TupleItem::TPrimitive(p) => self.gen_primitive_type(p).to_owned(),
            };
            values.append(value.as_str());
            if !is_last {
                values.append(", ");
            }
            proof {
                let pre = t.items@.take(n as int);
                assert(t.items@.take(n + 1) =~= pre.push(t.items@[n as int]));
                lemma_tuple_items_snoc(pre, t.items@[n as int]);
                if n == 0 {
                    assert(spec_tuple_items(pre) + Seq::<char>::empty() =~= spec_tuple_items(pre));
                    assert(Seq::<char>::empty() + value@ =~= value@);
                } else {
                    assert(spec_tuple_items(pre) + ", "@ + value@ =~= spec_tuple_items(pre).add(
                        ", "@,
                    ).add(value@));
                }
                if !is_last {
                    assert(values@ =~= spec_tuple_items(t.items@.take(n + 1)) + ", "@);
                } else {
                    assert(values@ =~= spec_tuple_items(t.items@.take(n + 1)));
                }
            }
            n = n + 1;
        }
        proof {
            assert(t.items@.take(len as int) =~= t.items@);
            if len == 0 {
                assert(values@ =~= spec_tuple_items(t.items@));
            }
        }
        let mut r = String::new();
        r.append("(");
        r.append(values.as_str());
        r.append(")");
        proof {
            assert(r@ =~= spec_tuple(*t));
        }
        r
    }

    /// Renders a struct block: every field in declared order, each with its
    /// attribute lines, its documentation and its rendered type, registering
    /// whatever imports the field types require. The indentation level lets
    /// the same renderer serve top-level structs and structs nested inside
    /// enum variants.
    pub fn gen_struct(&mut self, s: &TStruct, indent_level: usize) -> (r: String)
        requires
            old(self).inv(),
            indent_level + 4 <= usize::MAX,
        ensures
            final(self).inv(),
            r@ == spec_struct(*s, indent_level as nat),
            final(self).imports.strs().to_set() == old(self).imports.strs().to_set().union(
                spec_struct_needs(*s),
            ),
    {
        let mut fields = String::new();
        let indent = make_spaces(indent_level);
        let len = s.fields.len();
        let mut i: usize = 0;
        proof {
            assert(s.fields@.take(0) =~= Seq::<StructField>::empty());
            assert(self.imports.strs().to_set() =~= old(self).imports.strs().to_set().union(
                spec_fields_needs(s.fields@.take(0)),
            ));
        }
        while i < len
            invariant
                i <= len,
                len == s.fields@.len(),
                indent_level + 4 <= usize::MAX,
                indent@ == spec_spaces(indent_level as nat),
                self.inv(),
                self.imports.strs().to_set() == old(self).imports.strs().to_set().union(
                    spec_fields_needs(s.fields@.take(i as int)),
                ),
                fields@ == spec_fields(s.fields@.take(i as int), indent_level as nat),
            decreases len - i,
        {
            let ghost pre_set = self.imports.strs().to_set();
            let field = &s.fields[i];
            let mut field_prefix = String::new();
            let clen = field.config.len();
            let mut j: usize = 0;
            proof {
                assert(field.config@.take(0) =~= Seq::<StructFieldConfig>::empty());
            }
            while j < clen
                invariant
                    j <= clen,
                    clen == field.config@.len(),
                    indent@ == spec_spaces(indent_level as nat),
                    field_prefix@ == spec_field_config(field.config@.take(j as int), indent@),
                decreases clen - j,
            {
                match &field.config[j] {
                    StructFieldConfig::RustAttribute(attr) => {
                        field_prefix.append("\n    ");
                        field_prefix.append(indent.as_str());
                        field_prefix.append(attr.as_str());
                    },
                }
                proof {
                    let pre = field.config@.take(j as int);
                    assert(field.config@.take(j + 1) =~= pre.push(field.config@[j as int]));
                    lemma_field_config_snoc(pre, field.config@[j as int], indent@);
                    assert(field_prefix@ =~= spec_field_config(
                        field.config@.take(j + 1),
                        indent@,
                    ));
                }
                j = j + 1;
            }
            proof {
                assert(field.config@.take(clen as int) =~= field.config@);
            }
            let field_type = match &field.field_type {
                StructFieldType::Reference(r) => r.name.clone(),
                StructFieldType::TMap(m) => self.gen_map(m),
                StructFieldType::TOption(o) => self.gen_option(o),
                StructFieldType::TPrimitive(p) => self.gen_primitive_type(p).to_owned(),
                StructFieldType::TSet(st) => self.gen_set(st),
                StructFieldType::TTuple(t) => self.gen_tuple(t),
                StructFieldType::TVec(v) => self.gen_vec(v),
            };
            proof {
                assert(self.imports.strs().to_set() =~= pre_set.union(
                    spec_field_type_needs(field.field_type),
                ));
            }
            let mut field_str = String::new();
            field_str.append("\n    ");
            field_str.append(indent.as_str());
            field_str.append(field.name.as_str());
            field_str.append(": ");
            field_str.append(field_type.as_str());
            field_str.append(",");
            let ghost base = field_str@;
            if let Option::Some(doc) = format_docstring(
                &field.docs,
                CommentStyle::TripleSlash,
                indent_level + 4,
            ) {
                let mut documented = String::new();
                documented.append("\n");
                documented.append(doc.as_str());
                documented.append(field_str.as_str());
                field_str = documented;
            }
            fields.append(field_prefix.as_str());
            fields.append(field_str.as_str());
            proof {
                let pre = s.fields@.take(i as int);
                let f = s.fields@[i as int];
                assert(s.fields@.take(i + 1) =~= pre.push(f));
                lemma_fields_snoc(pre, f, indent_level as nat);
                lemma_fields_needs_snoc(pre, f);
                assert(base =~= "\n    "@ + indent@ + f.name@ + ": "@ + spec_field_type(
                    f.field_type,
                ) + ","@);
                assert(field_str@ =~= if spec_has_docs(f.docs) {
                    "\n"@ + spec_format_docstring(
                        f.docs->0@,
                        CommentStyle::TripleSlash,
                        indent_level as nat + 4,
                    ) + base
                } else {
                    base
                });
                assert(fields@ =~= spec_fields(pre, indent_level as nat) + spec_field(
                    f,
                    indent_level as nat,
                ));
                assert(fields@ =~= spec_fields(s.fields@.take(i + 1), indent_level as nat));
                assert(self.imports.strs().to_set() =~= old(self).imports.strs().to_set().union(
                    spec_fields_needs(s.fields@.take(i + 1)),
                ));
            }
            i = i + 1;
        }
        proof {
            assert(s.fields@.take(len as int) =~= s.fields@);
        }
        let mut r = String::new();
        r.append("{");
        r.append(fields.as_str());
        r.append("\n");
        r.append(indent.as_str());
        r.append("}");
        proof {
            assert(r@ =~= spec_struct(*s, indent_level as nat));
        }
        r
    }

    /// Renders an enum block: every variant in declared order, each with its
    /// documentation and rendered payload, registering whatever imports
    /// struct payloads require.
    pub fn gen_enum(&mut self, e: &TEnum) -> (r: String)
        requires
            old(self).inv(),
        ensures
            final(self).inv(),
            r@ == spec_enum(*e),
            final(self).imports.strs().to_set() == old(self).imports.strs().to_set().union(
                spec_enum_needs(*e),
            ),
    {
        let mut variants = String::new();
        let len = e.variants.len();
        let mut i: usize = 0;
        proof {
            assert(e.variants@.take(0) =~= Seq::<EnumVariant>::empty());
            assert(self.imports.strs().to_set() =~= old(self).imports.strs().to_set().union(
                spec_variants_needs(e.variants@.take(0)),
            ));
        }
        while i < len
            invariant
                i <= len,
                len == e.variants@.len(),
                self.inv(),
                self.imports.strs().to_set() == old(self).imports.strs().to_set().union(
                    spec_variants_needs(e.variants@.take(i as int)),
                ),
                variants@ == spec_variants(e.variants@.take(i as int)),
            decreases len - i,
        {
            let ghost pre_set = self.imports.strs().to_set();
            let variant = &e.variants[i];
            let variant_type = match &variant.variant_type {
                EnumVariantType::Empty => String::new(),
                EnumVariantType::Tuple(t) => self.gen_tuple(t),
                EnumVariantType::Struct(s) => {
                    let block = self.gen_struct(s, 4);
                    let mut padded = String::new();
                    padded.append(" ");
                    padded.append(block.as_str());
                    padded
                },
            };
            proof {
                assert(self.imports.strs().to_set() =~= pre_set.union(
                    spec_variant_needs(variant.variant_type),
                ));
                assert(variant_type@ =~= spec_variant_type(variant.variant_type));
            }
            let mut variant_str = String::new();
            variant_str.append("\n    ");
            variant_str.append(variant.name.as_str());
            variant_str.append(variant_type.as_str());
            variant_str.append(",");
            let ghost base = variant_str@;
            if let Option::Some(doc) = format_docstring(&variant.docs, CommentStyle::TripleSlash, 4) {
                let mut documented = String::new();
                documented.append("\n");
                documented.append(doc.as_str());
                documented.append(variant_str.as_str());
                variant_str = documented;
            }
            variants.append(variant_str.as_str());
            proof {
                let pre = e.variants@.take(i as int);
                let v = e.variants@[i as int];
                assert(e.variants@.take(i + 1) =~= pre.push(v));
                lemma_variants_snoc(pre, v);
                lemma_variants_needs_snoc(pre, v);
                assert(base =~= "\n    "@ + v.name@ + spec_variant_type(v.variant_type) + ","@);
                assert(variant_str@ =~= spec_variant(v));
                assert(variants@ =~= spec_variants(e.variants@.take(i + 1)));
                assert(self.imports.strs().to_set() =~= old(self).imports.strs().to_set().union(
                    spec_variants_needs(e.variants@.take(i + 1)),
                ));
            }
            i = i + 1;
        }
        proof {
            assert(e.variants@.take(len as int) =~= e.variants@);
        }
        let mut r = String::new();
        r.append("{");
        r.append(variants.as_str());
        r.append("\n}");
        proof {
            assert(r@ =~= spec_enum(*e));
        }
        r
    }

    /// Renders one declaration: its attribute lines in declared order, its
    /// documentation if any, the fixed derive marker immediately before the
    /// header when the value is a struct, then the declaration's own text.
    /// A documentation-only declaration emits only its comment block.
    pub fn gen_declaration(&mut self, declaration: &TypeDeclaration) -> (r: String)
        requires
            old(self).inv(),
        ensures
            final(self).inv(),
            r@ == spec_declaration(*declaration),
            final(self).imports.strs().to_set() == old(self).imports.strs().to_set().union(
                spec_decl_needs(*declaration),
            ),
    {
        let mut prefix = String::new();
        let clen = declaration.config.len();
        let mut j: usize = 0;
        proof {
            assert(declaration.config@.take(0) =~= Seq::<TypeDeclarationConfig>::empty());
        }
        while j < clen
            invariant
                j <= clen,
                clen == declaration.config@.len(),
                prefix@ == spec_decl_config(declaration.config@.take(j as int)),
            decreases clen - j,
        {
            match &declaration.config[j] {
                TypeDeclarationConfig::RustAttribute(attr) => {
                    prefix.append(attr.as_str());
                    prefix.append("\n");
                },
            }
            proof {
                let pre = declaration.config@.take(j as int);
                assert(declaration.config@.take(j + 1) =~= pre.push(declaration.config@[j as int]));
                lemma_decl_config_snoc(pre, declaration.config@[j as int]);
                assert(prefix@ =~= spec_decl_config(declaration.config@.take(j + 1)));
            }
            j = j + 1;
        }
        proof {
            assert(declaration.config@.take(clen as int) =~= declaration.config@);
        }
        let ghost pre_set = self.imports.strs().to_set();
        let r = match &declaration.value {
            DeclarationValue::TPrimitive(p) => {
                let mut t = String::new();
                t.append("pub type ");
                t.append(declaration.name.as_str());
                t.append(" = ");
                t.append(self.gen_primitive_type(p));
                t.append(";");
                t
            },
            DeclarationValue::TMap(m) => {
                let shape = self.gen_map(m);
                let mut t = String::new();
                t.append("pub type ");
                t.append(declaration.name.as_str());
                t.append(" = ");
                t.append(shape.as_str());
                t.append(";");
                t
            },
            DeclarationValue::TTuple(tu) => {
                let shape = self.gen_tuple(tu);
                let mut t = String::new();
                t.append("pub type ");
                t.append(declaration.name.as_str());
                t.append(" = ");
                t.append(shape.as_str());
                t.append(";");
                t
            },
            DeclarationValue::TStruct(s) => {
                let block = self.gen_struct(s, 0);
                let mut t = String::new();
                t.append("pub struct ");
                t.append(declaration.name.as_str());
                t.append(" ");
                t.append(block.as_str());
                t
            },
            DeclarationValue::TEnum(e) => {
                let block = self.gen_enum(e);
                let mut t = String::new();
                t.append("pub enum ");
                t.append(declaration.name.as_str());
                t.append(" ");
                t.append(block.as_str());
                t
            },
            DeclarationValue::Docs => String::new(),
        };
        proof {
            assert(self.imports.strs().to_set() =~= pre_set.union(
                spec_decl_needs(*declaration),
            ));
            assert(r@ =~= spec_decl_body(*declaration));
        }
        let comment_style = match &declaration.value {
            DeclarationValue::Docs => CommentStyle::DoubleSlash,
            _ => CommentStyle::TripleSlash,
        };
        let mut out = prefix;
        if let Option::Some(doc) = format_docstring(&declaration.docs, comment_style, 0) {
            out.append(doc.as_str());
            out.append("\n");
        }
        if let DeclarationValue::TStruct(_) = &declaration.value {
            out.append("#[derive(Debug, serde::Serialize, serde::Deserialize)]\n");
        }
        out.append(r.as_str());
        proof {
            assert(out@ =~= spec_declaration(*declaration));
        }
        out
    }

    /// Renders a whole pass: every declaration in declared order between
    /// blank-line separators, preceded by the deduplicated, lexicographically
    /// sorted block of the import statements the shapes require and a blank
    /// line. The output is a function of the declarations alone.
    pub fn gen_declarations(declarations: &Declarations) -> (r: String)
        ensures
            r@ == spec_gen_declarations(declarations.declarations@),
    {
        let ghost ds = declarations.declarations@;
        let mut rc = RustCodegen::new();
        let mut declarations_code = String::new();
        let len = declarations.declarations.len();
        let mut i: usize = 0;
        proof {
            assert(ds.take(0) =~= Seq::<TypeDeclaration>::empty());
            assert(rc.imports.strs().to_set() =~= spec_decls_needs(ds.take(0)));
        }
        while i < len
            invariant
                i <= len,
                len == ds.len(),
                ds == declarations.declarations@,
                rc.inv(),
                rc.imports.strs().to_set() == spec_decls_needs(ds.take(i as int)),
                declarations_code@ == spec_decls_code(ds.take(i as int)),
            decreases len - i,
        {
            let ghost pre_set = rc.imports.strs().to_set();
            declarations_code.append("\n");
            let decl_code = rc.gen_declaration(&declarations.declarations[i]);
            declarations_code.append(decl_code.as_str());
            declarations_code.append("\n");
            proof {
                let pre = ds.take(i as int);
                let d = ds[i as int];
                assert(ds.take(i + 1) =~= pre.push(d));
                lemma_decls_code_snoc(pre, d);
                lemma_decls_needs_snoc(pre, d);
                assert(declarations_code@ =~= spec_decls_code(ds.take(i + 1)));
                assert(rc.imports.strs().to_set() =~= spec_decls_needs(ds.take(i + 1)));
            }
            i = i + 1;
        }
        proof {
            assert(ds.take(len as int) =~= ds);
        }
        let mut result = String::new();
        let icount = rc.imports.count();
        let mut k: usize = 0;
        proof {
            assert(rc.imports.strs().take(0) =~= Seq::<Seq<char>>::empty());
            assert(result@ =~= spec_join_imports(rc.imports.strs().take(0)));
        }
        while k < icount
            invariant
                k <= icount,
                icount == rc.imports.strs().len(),
                result@ == spec_join_imports(rc.imports.strs().take(k as int)),
            decreases icount - k,
        {
            result.append(rc.imports.stmt_at(k).as_str());
            result.append("\n");
            proof {
                let pre = rc.imports.strs().take(k as int);
                let s = rc.imports.strs()[k as int];
                assert(rc.imports.strs().take(k + 1) =~= pre.push(s));
                lemma_join_imports_snoc(pre, s);
                assert(result@ =~= spec_join_imports(rc.imports.strs().take(k + 1)));
            }
            k = k + 1;
        }
        proof {
            assert(rc.imports.strs().take(icount as int) =~= rc.imports.strs());
            let needs = spec_decls_needs(ds);
            let strs = rc.imports.strs();
            lemma_decls_needs_bounded(ds);
            lemma_import_order();
            if needs.contains(map_import()) && needs.contains(set_import()) {
                let cand = seq![map_import(), set_import()];
                assert(cand[0] == map_import());
                assert(cand[1] == set_import());
                assert forall|x: Seq<char>| needs.contains(x) implies cand.to_set().contains(
                    x,
                ) by {
                    if x == map_import() {
                        assert(cand.to_set().contains(cand[0]));
                    } else {
                        assert(cand.to_set().contains(cand[1]));
                    }
                }
                assert(cand.to_set() =~= needs);
                lemma_sorted_unique_representation(strs, cand);
                assert(cand.skip(1) =~= seq![set_import()]);
                assert(seq![set_import()].skip(1) =~= Seq::<Seq<char>>::empty());
                assert(spec_join_imports(Seq::<Seq<char>>::empty()) == Seq::<char>::empty());
                assert(spec_join_imports(seq![set_import()]) =~= set_import() + "\n"@);
                assert(spec_join_imports(cand) =~= spec_imports_block(needs));
            } else if needs.contains(map_import()) {
                let cand = seq![map_import()];
                assert(cand[0] == map_import());
                assert(cand.to_set() =~= needs);
                lemma_sorted_unique_representation(strs, cand);
                assert(cand.skip(1) =~= Seq::<Seq<char>>::empty());
                assert(spec_join_imports(Seq::<Seq<char>>::empty()) == Seq::<char>::empty());
                assert(spec_join_imports(cand) =~= spec_imports_block(needs));
            } else if needs.contains(set_import()) {
                let cand = seq![set_import()];
                assert(cand[0] == set_import());
                assert(cand.to_set() =~= needs);
                lemma_sorted_unique_representation(strs, cand);
                assert(cand.skip(1) =~= Seq::<Seq<char>>::empty());
                assert(spec_join_imports(Seq::<Seq<char>>::empty()) == Seq::<char>::empty());
                assert(spec_join_imports(cand) =~= spec_imports_block(needs));
            } else {
                let cand = Seq::<Seq<char>>::empty();
                assert(cand.to_set() =~= needs);
                lemma_sorted_unique_representation(strs, cand);
                assert(spec_join_imports(cand) =~= spec_imports_block(needs));
            }
            assert(result@ =~= spec_imports_block(needs));
        }
        result.append("\n");
        result.append(declarations_code.as_str());
        proof {
            assert(result@ =~= spec_gen_declarations(ds));
        }
        result
    }
}


/// Determinism: the rendered output is a function of the declarations
/// alone, so two renderings of the same declarations, with no mutation in
/// between, are identical character for character.
pub proof fn lemma_render_deterministic(ds: Seq<TypeDeclaration>, r1: Seq<char>, r2: Seq<char>)
    requires
        r1 == spec_gen_declarations(ds),
        r2 == spec_gen_declarations(ds),
    ensures
        r1 == r2,
{
}

/// Import idempotence: however many declarations require the ordered-map
/// container, the import block holds its statement exactly once, at the
/// front, followed at most by the one ordered-set statement.
pub proof fn lemma_import_dedup(ds: Seq<TypeDeclaration>)
    requires
        spec_decls_needs(ds).contains(map_import()),
    ensures
        spec_imports_block(spec_decls_needs(ds)) == map_import() + "\n"@ + (
        if spec_decls_needs(ds).contains(set_import()) {
            set_import() + "\n"@
        } else {
            Seq::<char>::empty()
        }),
{
    let needs = spec_decls_needs(ds);
    if needs.contains(set_import()) {
        assert(spec_imports_block(needs) =~= map_import() + "\n"@ + (set_import() + "\n"@));
        assert(map_import() + "\n"@ + (set_import() + "\n"@) =~= map_import() + "\n"@
            + set_import() + "\n"@);
    } else {
        assert(spec_imports_block(needs) =~= map_import() + "\n"@);
        assert(map_import() + "\n"@ + Seq::<char>::empty() =~= map_import() + "\n"@);
    }
}

/// Totality: every primitive renders to a non-empty, fixed spelling.
pub proof fn lemma_primitive_total(p: TPrimitive)
    ensures
        spec_primitive(p).len() > 0,
{
    reveal_strlit("String");
    reveal_strlit("bool");
    reveal_strlit("i64");
    reveal_strlit("f64");
}

/// Shape fidelity at the leaves: distinct primitives render to distinct
/// spellings, so a primitive's rendered text determines the primitive.
pub proof fn lemma_primitive_injective(p1: TPrimitive, p2: TPrimitive)
    requires
        spec_primitive(p1) == spec_primitive(p2),
    ensures
        p1 == p2,
{
    reveal_strlit("String");
    reveal_strlit("bool");
    reveal_strlit("i64");
    reveal_strlit("f64");
    assert("String"@.len() == 6);
    assert("bool"@.len() == 4);
    assert("i64"@.len() == 3);
    assert("f64"@.len() == 3);
    assert("i64"@[0] == 'i');
    assert("f64"@[0] == 'f');
}


/// The rendered map shape starts with the ordered-map container's spelling.
proof fn lemma_map_head(m: TMap)
    ensures
        spec_map(m).len() >= 9,
        spec_map(m)[0] == 'B',
        spec_map(m)[5] == 'M',
{
    reveal_strlit("BTreeMap<");
    let a = "BTreeMap<"@;
    let t1 = a + spec_primitive(m.key);
    let t2 = t1 + ", "@;
    let t3 = t2 + spec_map_value(m.value);
    let t4 = t3 + ">"@;
    assert(spec_map(m) == t4);
    assert(t1[0] == a[0] && t1[5] == a[5]);
    assert(t2[0] == t1[0] && t2[5] == t1[5]);
    assert(t3[0] == t2[0] && t3[5] == t2[5]);
    assert(t4[0] == t3[0] && t4[5] == t3[5]);
}

/// The rendered set shape starts with the ordered-set container's spelling.
proof fn lemma_set_head(s: TSet)
    ensures
        spec_set(s).len() >= 9,
        spec_set(s)[0] == 'B',
        spec_set(s)[5] == 'S',
{
    reveal_strlit("BTreeSet<");
    let a = "BTreeSet<"@;
    let t1 = a + spec_set_value(s);
    let t2 = t1 + ">"@;
    assert(spec_set(s) == t2);
    assert(t1[0] == a[0] && t1[5] == a[5]);
    assert(t2[0] == t1[0] && t2[5] == t1[5]);
}

/// The rendered sequence shape starts with the sequence container's spelling.
proof fn lemma_vec_head(v: TVec)
    ensures
        spec_vec(v).len() >= 4,
        spec_vec(v)[0] == 'V',
{
    reveal_strlit("Vec<");
    let a = "Vec<"@;
    let t1 = a + spec_vec_value(v);
    let t2 = t1 + ">"@;
    assert(spec_vec(v) == t2);
    assert(t1[0] == a[0]);
    assert(t2[0] == t1[0]);
}

/// The rendered optional shape starts with the optional wrapper's spelling.
proof fn lemma_option_head(o: TOption)
    ensures
        spec_option(o).len() >= 7,
        spec_option(o)[0] == 'O',
{
    reveal_strlit("Option<");
    let a = "Option<"@;
    let t1 = a + spec_option_value(o);
    let t2 = t1 + ">"@;
    assert(spec_option(o) == t2);
    assert(t1[0] == a[0]);
    assert(t2[0] == t1[0]);
}

/// The rendered tuple shape starts with an opening parenthesis.
proof fn lemma_tuple_head(t: TTuple)
    ensures
        spec_tuple(t).len() >= 1,
        spec_tuple(t)[0] == '(',
{
    reveal_strlit("(");
    let a = "("@;
    let t1 = a + spec_tuple_items(t.items@);
    let t2 = t1 + ")"@;
    assert(spec_tuple(t) == t2);
    assert(t1[0] == a[0]);
    assert(t2[0] == t1[0]);
}

/// Shape fidelity for composite shapes: each composite container's rendered
/// text begins with that container's own spelling, so equal rendered texts
/// can only come from the same kind of container.
pub proof fn lemma_composite_shapes_distinguishable(ft1: StructFieldType, ft2: StructFieldType)
    requires
        !(ft1 is TPrimitive),
        !(ft1 is Reference),
        !(ft2 is TPrimitive),
        !(ft2 is Reference),
        spec_field_type(ft1) == spec_field_type(ft2),
    ensures
        ft1 is TMap <==> ft2 is TMap,
        ft1 is TVec <==> ft2 is TVec,
        ft1 is TSet <==> ft2 is TSet,
        ft1 is TOption <==> ft2 is TOption,
        ft1 is TTuple <==> ft2 is TTuple,
{
    match ft1 {
        StructFieldType::TMap(m) => lemma_map_head(m),
        StructFieldType::TSet(s) => lemma_set_head(s),
        StructFieldType::TOption(o) => lemma_option_head(o),
        StructFieldType::TTuple(t) => lemma_tuple_head(t),
        StructFieldType::TVec(v) => lemma_vec_head(v),
        _ => (),
    }
    match ft2 {
        StructFieldType::TMap(m) => lemma_map_head(m),
        StructFieldType::TSet(s) => lemma_set_head(s),
        StructFieldType::TOption(o) => lemma_option_head(o),
        StructFieldType::TTuple(t) => lemma_tuple_head(t),
        StructFieldType::TVec(v) => lemma_vec_head(v),
        _ => (),
    }
}

/// Ordering preservation for struct fields, at every indentation and with
/// no precondition: the rendered field block splits at any point into the
/// block of the first fields followed by the block of the remaining fields,
/// so each field's line stands in the output in exactly its declared
/// position.
pub proof fn lemma_fields_split(fs: Seq<StructField>, k: int, indent_level: nat)
    requires
        0 <= k <= fs.len(),
    ensures
        spec_fields(fs, indent_level) == spec_fields(fs.take(k), indent_level) + spec_fields(
            fs.skip(k),
            indent_level,
        ),
    decreases k,
{
    if k == 0 {
        assert(fs.take(0) =~= Seq::<StructField>::empty());
        assert(fs.skip(0) =~= fs);
        assert(spec_fields(Seq::<StructField>::empty(), indent_level) == Seq::<char>::empty());
        assert(spec_fields(fs, indent_level) =~= spec_fields(fs.take(0), indent_level)
            + spec_fields(fs.skip(0), indent_level));
    } else {
        lemma_fields_split(fs, k - 1, indent_level);
        assert(fs.take(k) =~= fs.take(k - 1).push(fs[k - 1]));
        lemma_fields_snoc(fs.take(k - 1), fs[k - 1], indent_level);
        assert(fs.skip(k - 1)[0] == fs[k - 1]);
        assert(fs.skip(k - 1).skip(1) =~= fs.skip(k));
        assert(spec_fields(fs.skip(k - 1), indent_level) == spec_field(fs[k - 1], indent_level)
            + spec_fields(fs.skip(k), indent_level));
        assert(spec_fields(fs, indent_level) =~= spec_fields(fs.take(k), indent_level)
            + spec_fields(fs.skip(k), indent_level));
    }
}

} // verus!\n