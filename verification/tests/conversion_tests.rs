use reproto::ast;
use reproto::scope::Naming;
use reproto::bodies::{RpEnumType};
use reproto::errors::Error;
use reproto::model::{Loc, Pos, RpModifier, RpPackage, RpVersionedPackage};
use reproto::scope::Scope;

fn pos(line: usize) -> Pos {
    Pos { line, col: 1 }
}

fn scope() -> Scope {
    let package = RpVersionedPackage {
        package: RpPackage { parts: vec!["example".to_string(), "foo".to_string()] },
        version: None,
    };
    Scope::new(package, Vec::new(), None)
}

fn field(name: &str, alias: Option<&str>) -> ast::Field {
    ast::Field {
        modifier: RpModifier::Required,
        name: name.to_string(),
        comment: Vec::new(),
        ty: ast::Type::String,
        field_as: alias.map(|a| a.to_string()),
    }
}

fn member_field(name: &str, alias: Option<&str>, at: usize) -> Loc<ast::Member> {
    Loc { value: ast::Member::Field(field(name, alias)), pos: pos(at) }
}

#[test]
fn duplicate_field_identifiers_conflict() {
    let members = vec![member_field("name", None, 1), member_field("name", None, 2)];
    match reproto::into_model::members_into_model(&scope(), members) {
        Err(Error::FieldConflict(ident, new_pos, old_pos)) => {
            assert_eq!(ident, "name");
            assert_eq!(new_pos, pos(2));
            assert_eq!(old_pos, pos(1));
        }
        other => panic!("expected a field conflict, got {:?}", other),
    }
}

#[test]
fn duplicate_wire_names_conflict_even_with_distinct_identifiers() {
    let members = vec![
        member_field("first", Some("value"), 1),
        member_field("second", Some("value"), 2),
    ];
    assert!(matches!(
        reproto::into_model::members_into_model(&scope(), members),
        Err(Error::FieldConflict(_, _, _))
    ));
}

#[test]
fn distinct_fields_convert() {
    let members = vec![member_field("first", None, 1), member_field("second", None, 2)];
    let (fields, codes, options, decls) =
        reproto::into_model::members_into_model(&scope(), members).unwrap();
    assert_eq!(fields.len(), 2);
    assert!(codes.is_empty());
    assert!(options.is_empty());
    assert!(decls.is_empty());
    assert_eq!(fields[0].value.name, "first");
}

#[test]
fn duplicate_enum_variants_conflict() {
    let body = ast::EnumBody {
        name: "Mode".to_string(),
        comment: Vec::new(),
        ty: None,
        variants: vec![
            Loc {
                value: ast::EnumVariant {
                    name: Loc { value: "ON".to_string(), pos: pos(1) },
                    comment: Vec::new(),
                    argument: None,
                },
                pos: pos(1),
            },
            Loc {
                value: ast::EnumVariant {
                    name: Loc { value: "ON".to_string(), pos: pos(2) },
                    comment: Vec::new(),
                    argument: None,
                },
                pos: pos(2),
            },
        ],
        members: Vec::new(),
    };
    match body.into_model(&scope()) {
        Err(Error::EnumVariantConflict(old_pos, new_pos)) => {
            assert_eq!(old_pos, pos(1));
            assert_eq!(new_pos, pos(2));
        }
        other => panic!("expected an enum variant conflict, got {:?}", other),
    }
}

#[test]
fn enum_variants_with_distinct_names_convert() {
    let body = ast::EnumBody {
        name: "Mode".to_string(),
        comment: Vec::new(),
        ty: None,
        variants: vec![Loc {
            value: ast::EnumVariant {
                name: Loc { value: "ON".to_string(), pos: pos(1) },
                comment: Vec::new(),
                argument: None,
            },
            pos: pos(1),
        }],
        members: Vec::new(),
    };
    let model = body.into_model(&scope()).unwrap();
    assert_eq!(model.variant_type, RpEnumType::Generated);
    assert_eq!(model.variants.len(), 1);
    assert_eq!(model.variants[0].value.local_name.value, "ON");
}

#[test]
fn duplicate_accept_names_conflict() {
    let accepts = |name: &str, at: usize| Loc {
        value: ast::ServiceEntry::Accepts(ast::ServiceAccepts {
            comment: Vec::new(),
            name: Some(Loc { value: name.to_string(), pos: pos(at) }),
            ty: None,
            mime: None,
        }),
        pos: pos(at),
    };
    let entries = vec![accepts("store", 1), accepts("store", 2)];
    match reproto::into_model::service_entries(&scope(), &None, entries) {
        Err(Error::EndpointConflict(name, new_pos, old_pos)) => {
            assert_eq!(name, "store");
            assert_eq!(new_pos, pos(2));
            assert_eq!(old_pos, pos(1));
        }
        other => panic!("expected an endpoint conflict, got {:?}", other),
    }
}

#[test]
fn relative_names_resolve_against_the_scope_package() {
    let root = scope();
    let declared = root.child("Foo".to_string());
    let declared_name = declared.as_name();

    let reference = ast::Name::Relative { parts: vec!["Foo".to_string()] };
    let resolved = reference.into_model(&root).unwrap();

    assert_eq!(resolved.prefix, None);
    assert_eq!(resolved.parts, declared_name.parts);
    assert!(resolved.eq_name(&declared_name));
}

#[test]
fn missing_prefixes_are_reported() {
    let reference = ast::Name::Absolute {
        prefix: Some("ext".to_string()),
        parts: vec!["Foo".to_string()],
    };
    match reference.into_model(&scope()) {
        Err(Error::MissingPrefix(prefix)) => assert_eq!(prefix, "ext"),
        other => panic!("expected a missing prefix error, got {:?}", other),
    }
}

#[test]
fn sub_type_fragments_merge_and_their_field_collisions_fail() {
    let sub = |fields: Vec<Loc<ast::Member>>, at: usize| Loc {
        value: ast::SubType {
            name: "Variant".to_string(),
            comment: Vec::new(),
            members: fields,
        },
        pos: pos(at),
    };
    let body = ast::InterfaceBody {
        name: "Shape".to_string(),
        comment: Vec::new(),
        members: Vec::new(),
        sub_types: vec![
            sub(vec![member_field("first", None, 1)], 1),
            sub(vec![member_field("second", None, 2)], 2),
        ],
    };
    let model = body.into_model(&scope()).unwrap();
    assert_eq!(model.sub_types.len(), 1);
    assert_eq!(model.sub_types[0].value.fields.len(), 2);

    let clashing = ast::InterfaceBody {
        name: "Shape".to_string(),
        comment: Vec::new(),
        members: Vec::new(),
        sub_types: vec![
            sub(vec![member_field("first", None, 1)], 1),
            sub(vec![member_field("first", None, 2)], 2),
        ],
    };
    assert!(matches!(
        clashing.into_model(&scope()),
        Err(Error::FieldConflict(_, _, _))
    ));
}

#[test]
fn inherited_interface_fields_conflict_with_sub_type_fields() {
    let body = ast::InterfaceBody {
        name: "Shape".to_string(),
        comment: Vec::new(),
        members: vec![member_field("name", None, 1)],
        sub_types: vec![Loc {
            value: ast::SubType {
                name: "Variant".to_string(),
                comment: Vec::new(),
                members: vec![member_field("name", None, 2)],
            },
            pos: pos(2),
        }],
    };
    assert!(matches!(
        body.into_model(&scope()),
        Err(Error::FieldConflict(_, _, _))
    ));
}

#[test]
fn enums_reject_fields() {
    let body = ast::EnumBody {
        name: "Mode".to_string(),
        comment: Vec::new(),
        ty: None,
        variants: Vec::new(),
        members: vec![member_field("oops", None, 1)],
    };
    assert!(matches!(
        body.into_model(&scope()),
        Err(Error::EnumFieldsNotSupported)
    ));
}

#[test]
fn naming_policy_supplies_field_aliases() {
    let package = RpVersionedPackage {
        package: RpPackage { parts: vec!["example".to_string()] },
        version: None,
    };
    let scope = Scope::new(package, Vec::new(), Some(Naming::LowerCamel));
    let converted = field("first_name", None).into_model(&scope).unwrap();
    assert_eq!(converted.field_as.as_deref(), Some("firstName"));
    assert_eq!(converted.name(), "firstName");
    assert_eq!(converted.ident(), "first_name");
}

#[test]
fn mime_entries_parse_or_fail() {
    let entry = Some(Loc { value: "application/json".to_string(), pos: pos(1) });
    let mime = reproto::into_model::parse_mime(entry).unwrap().unwrap();
    assert_eq!(mime.top, "application");
    assert_eq!(mime.sub, "json");
    let bad = Some(Loc { value: "nonsense".to_string(), pos: pos(1) });
    assert!(matches!(
        reproto::into_model::parse_mime(bad),
        Err(Error::InvalidMimeType)
    ));
}
