use gull::definitions::{
    DeclarationValue, Declarations, EnumVariant, EnumVariantType, StructField, StructFieldConfig,
    StructFieldType, TEnum, TMap, TMapValue, TOption, TPrimitive, TReference, TSet, TStruct,
    TTuple, TVec, TupleItem, TypeDeclaration, TypeDeclarationConfig,
};
use gull::rust::RustCodegen;

fn decl(name: &str, value: DeclarationValue) -> TypeDeclaration {
    TypeDeclaration { name: name.to_string(), docs: None, config: vec![], value }
}

#[test]
fn primitive_alias_renders_one_line_without_import() {
    let decls = Declarations {
        declarations: vec![decl("UserId", DeclarationValue::TPrimitive(TPrimitive::Ti64))],
    };
    let out = RustCodegen::gen_declarations(&decls);
    assert_eq!(out, "\n\npub type UserId = i64;\n");
}

#[test]
fn set_field_struct_renders_one_sorted_import() {
    let decls = Declarations {
        declarations: vec![decl(
            "Profile",
            DeclarationValue::TStruct(TStruct {
                fields: vec![StructField {
                    name: "tags".to_string(),
                    docs: None,
                    config: vec![],
                    field_type: StructFieldType::TSet(TSet::TPrimitive(TPrimitive::String)),
                }],
            }),
        )],
    };
    let out = RustCodegen::gen_declarations(&decls);
    assert_eq!(
        out,
        "use std::collections::BTreeSet;\n\n\n\
         #[derive(Debug, serde::Serialize, serde::Deserialize)]\n\
         pub struct Profile {\n    tags: BTreeSet<String>,\n}\n"
    );
}

#[test]
fn enum_with_tuple_and_bare_variants() {
    let decls = Declarations {
        declarations: vec![decl(
            "Shape",
            DeclarationValue::TEnum(TEnum {
                variants: vec![
                    EnumVariant {
                        name: "Circle".to_string(),
                        docs: None,
                        variant_type: EnumVariantType::Tuple(TTuple {
                            items: vec![TupleItem::TPrimitive(TPrimitive::Tf64)],
                        }),
                    },
                    EnumVariant {
                        name: "Empty".to_string(),
                        docs: None,
                        variant_type: EnumVariantType::Empty,
                    },
                ],
            }),
        )],
    };
    let out = RustCodegen::gen_declarations(&decls);
    assert_eq!(out, "\n\npub enum Shape {\n    Circle(f64),\n    Empty,\n}\n");
}

#[test]
fn declaration_docs_render_as_doc_comment_at_indent_zero() {
    let mut d = decl("User", DeclarationValue::TPrimitive(TPrimitive::String));
    d.docs = Some("Represents a user.".to_string());
    let decls = Declarations { declarations: vec![d] };
    let out = RustCodegen::gen_declarations(&decls);
    assert_eq!(out, "\n\n/// Represents a user.\npub type User = String;\n");
}

#[test]
fn docs_only_declaration_renders_plain_comment_and_no_type() {
    let mut d = decl("ignored", DeclarationValue::Docs);
    d.docs = Some("Section: identifiers".to_string());
    let decls = Declarations { declarations: vec![d] };
    let out = RustCodegen::gen_declarations(&decls);
    assert_eq!(out, "\n\n// Section: identifiers\n\n");
    assert!(!out.contains("pub type"));
}

#[test]
fn map_alias_renders_with_map_import() {
    let decls = Declarations {
        declarations: vec![decl(
            "Index",
            DeclarationValue::TMap(TMap {
                key: TPrimitive::String,
                value: TMapValue::TPrimitive(TPrimitive::Ti64),
            }),
        )],
    };
    let out = RustCodegen::gen_declarations(&decls);
    assert_eq!(
        out,
        "use std::collections::BTreeMap;\n\n\npub type Index = BTreeMap<String, i64>;\n"
    );
}

#[test]
fn rendering_twice_is_identical() {
    let decls = Declarations {
        declarations: vec![
            decl("A", DeclarationValue::TPrimitive(TPrimitive::Tbool)),
            decl(
                "B",
                DeclarationValue::TMap(TMap {
                    key: TPrimitive::Ti64,
                    value: TMapValue::Reference(TReference { name: "A".to_string() }),
                }),
            ),
        ],
    };
    let first = RustCodegen::gen_declarations(&decls);
    let second = RustCodegen::gen_declarations(&decls);
    assert_eq!(first, second);
}

#[test]
fn many_map_declarations_emit_one_map_import() {
    let mk = |name: &str| {
        decl(
            name,
            DeclarationValue::TMap(TMap {
                key: TPrimitive::String,
                value: TMapValue::TPrimitive(TPrimitive::String),
            }),
        )
    };
    let decls = Declarations { declarations: vec![mk("M1"), mk("M2"), mk("M3")] };
    let out = RustCodegen::gen_declarations(&decls);
    assert_eq!(out.matches("use std::collections::BTreeMap;").count(), 1);
}

#[test]
fn import_block_is_sorted_regardless_of_use_order() {
    // The set container is used by the first declaration, the map container
    // by the second; the import block still lists the map statement first.
    let decls = Declarations {
        declarations: vec![
            decl(
                "S",
                DeclarationValue::TStruct(TStruct {
                    fields: vec![StructField {
                        name: "s".to_string(),
                        docs: None,
                        config: vec![],
                        field_type: StructFieldType::TSet(TSet::TPrimitive(TPrimitive::Ti64)),
                    }],
                }),
            ),
            decl(
                "M",
                DeclarationValue::TMap(TMap {
                    key: TPrimitive::String,
                    value: TMapValue::TPrimitive(TPrimitive::Ti64),
                }),
            ),
        ],
    };
    let out = RustCodegen::gen_declarations(&decls);
    assert!(out.starts_with(
        "use std::collections::BTreeMap;\nuse std::collections::BTreeSet;\n\n"
    ));
}

#[test]
fn declarations_keep_their_order() {
    let decls = Declarations {
        declarations: vec![
            decl("First", DeclarationValue::TPrimitive(TPrimitive::Ti64)),
            decl("Second", DeclarationValue::TPrimitive(TPrimitive::Tbool)),
        ],
    };
    let out = RustCodegen::gen_declarations(&decls);
    let first_at = out.find("First").unwrap();
    let second_at = out.find("Second").unwrap();
    assert!(first_at < second_at);
    assert_eq!(out, "\n\npub type First = i64;\n\npub type Second = bool;\n");
}

#[test]
fn every_primitive_renders_non_empty() {
    let rc = RustCodegen::new();
    assert_eq!(rc.gen_primitive_type(&TPrimitive::String), "String");
    assert_eq!(rc.gen_primitive_type(&TPrimitive::Tbool), "bool");
    assert_eq!(rc.gen_primitive_type(&TPrimitive::Ti64), "i64");
    assert_eq!(rc.gen_primitive_type(&TPrimitive::Tf64), "f64");
}

#[test]
fn empty_tuple_renders_empty_parentheses() {
    let rc = RustCodegen::new();
    let out = rc.gen_tuple(&TTuple { items: vec![] });
    assert_eq!(out, "()");
}

#[test]
fn tuple_items_keep_declared_order() {
    let rc = RustCodegen::new();
    let out = rc.gen_tuple(&TTuple {
        items: vec![
            TupleItem::TPrimitive(TPrimitive::Ti64),
            TupleItem::Reference(TReference { name: "Other".to_string() }),
            TupleItem::TPrimitive(TPrimitive::Tbool),
        ],
    });
    assert_eq!(out, "(i64, Other, bool)");
}

#[test]
fn option_of_vec_renders_nested_shape() {
    let mut rc = RustCodegen::new();
    let out = rc.gen_option(&TOption::TVec(TVec::TPrimitive(TPrimitive::String)));
    assert_eq!(out, "Option<Vec<String>>");
}

#[test]
fn struct_field_docs_and_config_render_in_place() {
    let decls = Declarations {
        declarations: vec![decl(
            "Account",
            DeclarationValue::TStruct(TStruct {
                fields: vec![StructField {
                    name: "id".to_string(),
                    docs: Some("The account key.".to_string()),
                    config: vec![StructFieldConfig::RustAttribute(
                        "#[serde(default)]".to_string(),
                    )],
                    field_type: StructFieldType::TPrimitive(TPrimitive::Ti64),
                }],
            }),
        )],
    };
    let out = RustCodegen::gen_declarations(&decls);
    assert_eq!(
        out,
        "\n\n#[derive(Debug, serde::Serialize, serde::Deserialize)]\n\
         pub struct Account {\n\
         \x20   #[serde(default)]\n\
         \x20   /// The account key.\n\
         \x20   id: i64,\n}\n"
    );
}

#[test]
fn declaration_config_lines_come_before_everything() {
    let mut d = decl("Flagged", DeclarationValue::TPrimitive(TPrimitive::Tbool));
    d.config = vec![TypeDeclarationConfig::RustAttribute("#[allow(dead_code)]".to_string())];
    d.docs = Some("Documented.".to_string());
    let decls = Declarations { declarations: vec![d] };
    let out = RustCodegen::gen_declarations(&decls);
    assert_eq!(
        out,
        "\n\n#[allow(dead_code)]\n/// Documented.\npub type Flagged = bool;\n"
    );
}

#[test]
fn enum_variant_with_struct_payload_nests_at_deeper_indent() {
    let decls = Declarations {
        declarations: vec![decl(
            "Event",
            DeclarationValue::TEnum(TEnum {
                variants: vec![EnumVariant {
                    name: "Login".to_string(),
                    docs: Some("A login happened.".to_string()),
                    variant_type: EnumVariantType::Struct(TStruct {
                        fields: vec![StructField {
                            name: "when".to_string(),
                            docs: None,
                            config: vec![],
                            field_type: StructFieldType::TPrimitive(TPrimitive::Ti64),
                        }],
                    }),
                }],
            }),
        )],
    };
    let out = RustCodegen::gen_declarations(&decls);
    assert_eq!(
        out,
        "\n\npub enum Event {\n\
         \x20   /// A login happened.\n\
         \x20   Login {\n\
         \x20       when: i64,\n\
         \x20   },\n}\n"
    );
}

#[test]
fn empty_declarations_render_only_the_separator() {
    let decls = Declarations { declarations: vec![] };
    let out = RustCodegen::gen_declarations(&decls);
    assert_eq!(out, "\n");
}

#[test]
fn tuple_alias_renders_parenthesized() {
    let decls = Declarations {
        declarations: vec![decl(
            "Pair",
            DeclarationValue::TTuple(TTuple {
                items: vec![
                    TupleItem::TPrimitive(TPrimitive::Ti64),
                    TupleItem::TPrimitive(TPrimitive::String),
                ],
            }),
        )],
    };
    let out = RustCodegen::gen_declarations(&decls);
    assert_eq!(out, "\n\npub type Pair = (i64, String);\n");
}

#[test]
fn empty_struct_renders_bare_braces() {
    let decls = Declarations {
        declarations: vec![decl("Unit", DeclarationValue::TStruct(TStruct { fields: vec![] }))],
    };
    let out = RustCodegen::gen_declarations(&decls);
    assert_eq!(
        out,
        "\n\n#[derive(Debug, serde::Serialize, serde::Deserialize)]\npub struct Unit {\n}\n"
    );
}

#[test]
fn option_of_set_field_registers_the_set_import() {
    let decls = Declarations {
        declarations: vec![decl(
            "Maybe",
            DeclarationValue::TStruct(TStruct {
                fields: vec![StructField {
                    name: "names".to_string(),
                    docs: None,
                    config: vec![],
                    field_type: StructFieldType::TOption(TOption::TSet(TSet::Reference(
                        TReference { name: "Name".to_string() },
                    ))),
                }],
            }),
        )],
    };
    let out = RustCodegen::gen_declarations(&decls);
    assert!(out.starts_with("use std::collections::BTreeSet;\n\n"));
    assert!(out.contains("names: Option<BTreeSet<Name>>,"));
}

#[test]
fn docs_only_declaration_without_text_renders_nothing() {
    let decls = Declarations { declarations: vec![decl("ignored", DeclarationValue::Docs)] };
    let out = RustCodegen::gen_declarations(&decls);
    assert_eq!(out, "\n\n\n");
}

#[test]
fn reference_fields_render_their_target_name_verbatim() {
    let decls = Declarations {
        declarations: vec![decl(
            "Wrapper",
            DeclarationValue::TStruct(TStruct {
                fields: vec![StructField {
                    name: "inner".to_string(),
                    docs: None,
                    config: vec![],
                    field_type: StructFieldType::Reference(TReference {
                        name: "Payload".to_string(),
                    }),
                }],
            }),
        )],
    };
    let out = RustCodegen::gen_declarations(&decls);
    assert!(out.contains("    inner: Payload,\n"));
}

#[test]
fn documented_struct_puts_docs_before_the_derive_marker() {
    let mut d = decl(
        "User",
        DeclarationValue::TStruct(TStruct {
            fields: vec![StructField {
                name: "id".to_string(),
                docs: None,
                config: vec![],
                field_type: StructFieldType::TPrimitive(TPrimitive::Ti64),
            }],
        }),
    );
    d.docs = Some("A user record.".to_string());
    let decls = Declarations { declarations: vec![d] };
    let out = RustCodegen::gen_declarations(&decls);
    assert_eq!(
        out,
        "\n\n/// A user record.\n\
         #[derive(Debug, serde::Serialize, serde::Deserialize)]\n\
         pub struct User {\n    id: i64,\n}\n"
    );
}

#[test]
fn documented_struct_with_config_orders_all_four_parts() {
    let mut d = decl("Tagged", DeclarationValue::TStruct(TStruct { fields: vec![] }));
    d.docs = Some("Documented.".to_string());
    d.config = vec![TypeDeclarationConfig::RustAttribute("#[non_exhaustive]".to_string())];
    let decls = Declarations { declarations: vec![d] };
    let out = RustCodegen::gen_declarations(&decls);
    assert_eq!(
        out,
        "\n\n#[non_exhaustive]\n\
         /// Documented.\n\
         #[derive(Debug, serde::Serialize, serde::Deserialize)]\n\
         pub struct Tagged {\n}\n"
    );
}
