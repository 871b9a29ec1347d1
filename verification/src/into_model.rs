//! Conversion from the parsed syntax tree into the semantic model: a pure,
//! fallible transform taking the active scope.
//!
//! The expected result of each conversion is written down as a spec
//! function; each executable conversion is proved to return exactly that
//! result, and to fail exactly where the spec has no result. Structural
//! conflicts (duplicate fields, variants or entries) surface as errors that
//! carry the positions of both colliding declarations.

use vstd::prelude::*;

use crate::ast;
use crate::errors::Error;
use crate::model::{
    clone_string, clone_string_option, clone_strings, FieldView, Loc, LocView, NameView,
    RpField, RpName, RpOptionDecl, RpType, TypeView,
};
use crate::scope::{spec_child, spec_scope_name, spec_lookup_prefix, Scope, ScopeView};

verus! {

/// The name a syntactic reference resolves to: a relative name gets the
/// scope's package and nested path; an absolute name with a prefix resolves
/// through the import table (and has no result when the prefix is unbound);
/// an absolute name without a prefix stays in the file's own package.
pub open spec fn spec_name_model(sv: ScopeView, n: ast::Name) -> Option<NameView> {
    match n {
        ast::Name::Relative { parts } => Some(
            NameView {
                prefix: None,
                package: sv.package,
                parts: sv.path + parts.deep_view(),
            },
        ),
        ast::Name::Absolute { prefix, parts } => match prefix {
            Some(prefix) => match spec_lookup_prefix(sv.prefixes, prefix@) {
                Some(package) => Some(
                    NameView { prefix: Some(prefix@), package, parts: parts.deep_view() },
                ),
                None => None,
            },
            None => Some(NameView { prefix: None, package: sv.package, parts: parts.deep_view() }),
        },
    }
}

/// The model type a syntactic type converts to; no result when a name in it
/// does not resolve.
pub open spec fn spec_type_model(sv: ScopeView, t: ast::Type) -> Option<TypeView>
    decreases t,
{
    match t {
        ast::Type::Double => Some(TypeView::Double),
        ast::Type::Float => Some(TypeView::Float),
        ast::Type::Signed { size } => Some(TypeView::Signed { size }),
        ast::Type::Unsigned { size } => Some(TypeView::Unsigned { size }),
        ast::Type::Boolean => Some(TypeView::Boolean),
        ast::Type::String => Some(TypeView::String),
        ast::Type::DateTime => Some(TypeView::DateTime),
        ast::Type::Bytes => Some(TypeView::Bytes),
        ast::Type::Any => Some(TypeView::Any),
        ast::Type::Name { name } => match spec_name_model(sv, name) {
            Some(name) => Some(TypeView::Name { name }),
            None => None,
        },
        ast::Type::Array { inner } => match spec_type_model(sv, *inner) {
            Some(inner) => Some(TypeView::Array { inner: Box::new(inner) }),
            None => None,
        },
        ast::Type::Dict { key, value } => match (
            spec_type_model(sv, *key),
            spec_type_model(sv, *value),
        ) {
            (Some(key), Some(value)) => Some(
                TypeView::Dict { key: Box::new(key), value: Box::new(value) },
            ),
            _ => None,
        },
    }
}

/// The wire alias of a field: the declared alias when present, else the
/// scope's naming policy applied to the identifier, else none.
pub open spec fn spec_field_alias(sv: ScopeView, f: ast::Field) -> Option<Seq<char>> {
    match f.field_as {
        Some(alias) => Some(alias@),
        None => match sv.naming {
            Some(naming) => Some(naming.spec_convert(f.name@)),
            None => None,
        },
    }
}

/// The model field a syntactic field converts to; no result when its type
/// does not resolve.
pub open spec fn spec_field_model(sv: ScopeView, f: ast::Field) -> Option<FieldView> {
    match spec_type_model(sv, f.ty) {
        Some(ty) => Some(
            FieldView {
                modifier: f.modifier,
                name: f.name@,
                comment: f.comment.deep_view(),
                ty,
                field_as: spec_field_alias(sv, f),
            },
        ),
        None => None,
    }
}

impl ast::Name {
    /// Resolve the reference against the scope.
    pub fn into_model(self, scope: &Scope) -> (r: Result<RpName, Error>)
        ensures
            r is Ok <==> spec_name_model(scope@, self) is Some,
            r matches Ok(v) ==> Some(v@) == spec_name_model(scope@, self),
            r matches Err(e) ==> (e matches Error::MissingPrefix(p) && (
            self matches ast::Name::Absolute { prefix: Some(q), .. } && p@ == q@)),
    {
        match self {
            ast::Name::Relative { parts } => {
                let base = scope.as_name();
                Ok(base.extend(parts))
            },
            ast::Name::Absolute { prefix, parts } => {
                let package = match &prefix {
                    Some(prefix) => match scope.lookup_prefix(prefix.as_str()) {
                        Some(package) => package.duplicate(),
                        None => {
                            return Err(Error::MissingPrefix(clone_string(prefix)));
                        },
                    },
                    None => scope.package(),
                };
                Ok(RpName { prefix, package, parts })
            },
        }
    }
}

impl ast::Type {
    /// Convert the type reference, resolving every name in it.
    pub fn into_model(self, scope: &Scope) -> (r: Result<RpType, Error>)
        ensures
            r is Ok <==> spec_type_model(scope@, self) is Some,
            r matches Ok(v) ==> Some(v@) == spec_type_model(scope@, self),
            r matches Err(e) ==> e is MissingPrefix,
        decreases self,
    {
        match self {
            ast::Type::Double => Ok(RpType::Double),
            ast::Type::Float => Ok(RpType::Float),
            ast::Type::Signed { size } => Ok(RpType::Signed { size }),
            ast::Type::Unsigned { size } => Ok(RpType::Unsigned { size }),
            ast::Type::Boolean => Ok(RpType::Boolean),
            ast::Type::String => Ok(RpType::String),
            ast::Type::DateTime => Ok(RpType::DateTime),
            ast::Type::Bytes => Ok(RpType::Bytes),
            ast::Type::Any => Ok(RpType::Any),
            ast::Type::Name { name } => {
                let name = match name.into_model(scope) {
                    Ok(name) => name,
                    Err(e) => {
                        return Err(e);
                    },
                };
                Ok(RpType::Name { name })
            },
            ast::Type::Array { inner } => {
                let inner = match (*inner).into_model(scope) {
                    Ok(inner) => inner,
                    Err(e) => {
                        return Err(e);
                    },
                };
                Ok(RpType::Array { inner: Box::new(inner) })
            },
            ast::Type::Dict { key, value } => {
                let key = match (*key).into_model(scope) {
                    Ok(key) => key,
                    Err(e) => {
                        return Err(e);
                    },
                };
                let value = match (*value).into_model(scope) {
                    Ok(value) => value,
                    Err(e) => {
                        return Err(e);
                    },
                };
                Ok(RpType::Dict { key: Box::new(key), value: Box::new(value) })
            },
        }
    }
}

impl ast::Field {
    /// Convert the field, resolving its type and computing its wire alias.
    pub fn into_model(self, scope: &Scope) -> (r: Result<RpField, Error>)
        ensures
            r is Ok <==> spec_field_model(scope@, self) is Some,
            r matches Ok(v) ==> Some(v@) == spec_field_model(scope@, self),
            r matches Err(e) ==> e is MissingPrefix,
    {
        let ast::Field { modifier, name, comment, ty, field_as } = self;
        let ty = match ty.into_model(scope) {
            Ok(ty) => ty,
            Err(e) => {
                return Err(e);
            },
        };
        let field_as = match field_as {
            Some(alias) => Some(alias),
            None => match scope.naming() {
                Some(naming) => Some(naming.convert(name.as_str())),
                None => None,
            },
        };
        Ok(RpField { modifier, name, comment, ty, field_as })
    }
}

impl ast::OptionDecl {
    /// Convert the option directive; its value carries over unchanged.
    pub fn into_model(self, _scope: &Scope) -> (r: Result<RpOptionDecl, Error>)
        ensures
            r matches Ok(v) && v@ == (crate::model::OptionDeclView {
                name: self.name@,
                value: self.value@,
            }),
    {
        Ok(RpOptionDecl { name: self.name, value: self.value })
    }
}

} // verus!

// === second stage: members and declaration bodies ===

use crate::bodies::{
    spec_fields_conflict, spec_fields_unique, DeclView, EnumBodyView, EnumVariantView,
    InterfaceBodyView, MimeView, OrdinalView, RpEnumType, ServiceBodyView, SubTypeView,
    TupleBodyView, TypeBodyView,
};
use crate::model::{CodeView, OptionDeclView, ValueView};

verus! {

/// The converted fields of the field members, in order; no result when one
/// of them does not convert.
pub open spec fn spec_converted_fields(sv: ScopeView, members: Seq<Loc<ast::Member>>) -> Option<
    Seq<LocView<FieldView>>,
>
    decreases members.len(),
{
    if members.len() == 0 {
        Some(Seq::empty())
    } else {
        let rest = spec_converted_fields(sv, members.subrange(1, members.len() as int));
        match members[0].value {
            ast::Member::Field(f) => match (spec_field_model(sv, f), rest) {
                (Some(fv), Some(rv)) => Some(
                    seq![LocView { value: fv, pos: members[0].pos }] + rv,
                ),
                _ => None,
            },
            _ => rest,
        }
    }
}

/// The code blocks among the members, in order.
pub open spec fn spec_codes_model(members: Seq<Loc<ast::Member>>) -> Seq<LocView<CodeView>>
    decreases members.len(),
{
    if members.len() == 0 {
        Seq::empty()
    } else {
        let rest = spec_codes_model(members.subrange(1, members.len() as int));
        match members[0].value {
            ast::Member::Code(context, lines) => seq![
                LocView {
                    value: CodeView { context: context@, lines: lines.deep_view() },
                    pos: members[0].pos,
                },
            ] + rest,
            _ => rest,
        }
    }
}

/// The option directives among the members, in order.
pub open spec fn spec_options_model(members: Seq<Loc<ast::Member>>) -> Seq<LocView<OptionDeclView>>
    decreases members.len(),
{
    if members.len() == 0 {
        Seq::empty()
    } else {
        let rest = spec_options_model(members.subrange(1, members.len() as int));
        match members[0].value {
            ast::Member::Option(o) => seq![
                LocView {
                    value: OptionDeclView { name: o.name@, value: o.value@ },
                    pos: members[0].pos,
                },
            ] + rest,
            _ => rest,
        }
    }
}

/// The string values of the options with the given name, in order; no
/// result when such an option holds a value that is not a string.
pub open spec fn spec_option_strings(
    options: Seq<LocView<OptionDeclView>>,
    name: Seq<char>,
) -> Option<Seq<LocView<Seq<char>>>>
    decreases options.len(),
{
    if options.len() == 0 {
        Some(Seq::empty())
    } else {
        let rest = spec_option_strings(options.subrange(1, options.len() as int), name);
        if options[0].value.name == name {
            match (options[0].value.value.value, rest) {
                (ValueView::String(s), Some(rv)) => Some(
                    seq![LocView { value: s, pos: options[0].value.value.pos }] + rv,
                ),
                _ => None,
            }
        } else {
            rest
        }
    }
}

/// The identifier values of the options with the given name, in order; no
/// result when such an option holds a value that is not an identifier.
pub open spec fn spec_option_identifiers(
    options: Seq<LocView<OptionDeclView>>,
    name: Seq<char>,
) -> Option<Seq<LocView<Seq<char>>>>
    decreases options.len(),
{
    if options.len() == 0 {
        Some(Seq::empty())
    } else {
        let rest = spec_option_identifiers(options.subrange(1, options.len() as int), name);
        if options[0].value.name == name {
            match (options[0].value.value.value, rest) {
                (ValueView::Identifier(s), Some(rv)) => Some(
                    seq![LocView { value: s, pos: options[0].value.value.pos }] + rv,
                ),
                _ => None,
            }
        } else {
            rest
        }
    }
}

/// The inner declarations among the members, each converted under its own
/// child scope; no result when one of them does not convert.
pub open spec fn spec_inner_decls(sv: ScopeView, members: Seq<Loc<ast::Member>>) -> Option<
    Seq<LocView<DeclView>>,
>
    decreases members, 0int,
{
    if members.len() == 0 {
        Some(Seq::empty())
    } else {
        let rest = spec_inner_decls(sv, members.subrange(1, members.len() as int));
        match members[0].value {
            ast::Member::InnerDecl(d) => match (spec_decl_model(sv, d), rest) {
                (Some(dv), Some(rv)) => Some(
                    seq![LocView { value: dv, pos: members[0].pos }] + rv,
                ),
                _ => None,
            },
            _ => rest,
        }
    }
}

/// Whether every part of a body's members converts: its fields (which must
/// also be free of conflicts) and its inner declarations.
pub open spec fn spec_members_ok(sv: ScopeView, members: Seq<Loc<ast::Member>>) -> bool
    decreases members, 1int,
{
    &&& spec_converted_fields(sv, members) is Some
    &&& spec_fields_unique(spec_converted_fields(sv, members).unwrap())
    &&& spec_inner_decls(sv, members) is Some
}

/// The model of a plain type declaration, under the body's own scope.
pub open spec fn spec_type_body_model(sv: ScopeView, b: ast::TypeBody) -> Option<TypeBodyView>
    decreases b, 2int,
{
    if spec_members_ok(sv, b.members@) && spec_option_identifiers(
        spec_options_model(b.members@),
        "reserved"@,
    ) is Some {
        Some(
            TypeBodyView {
                name: spec_scope_name(sv),
                local_name: b.name@,
                comment: b.comment.deep_view(),
                decls: spec_inner_decls(sv, b.members@).unwrap(),
                fields: spec_converted_fields(sv, b.members@).unwrap(),
                codes: spec_codes_model(b.members@),
                reserved: spec_option_identifiers(spec_options_model(b.members@), "reserved"@)
                    .unwrap(),
            },
        )
    } else {
        None
    }
}

/// The model of a tuple declaration, under the body's own scope.
pub open spec fn spec_tuple_body_model(sv: ScopeView, b: ast::TupleBody) -> Option<TupleBodyView>
    decreases b, 2int,
{
    if spec_members_ok(sv, b.members@) {
        Some(
            TupleBodyView {
                name: spec_scope_name(sv),
                local_name: b.name@,
                comment: b.comment.deep_view(),
                decls: spec_inner_decls(sv, b.members@).unwrap(),
                fields: spec_converted_fields(sv, b.members@).unwrap(),
                codes: spec_codes_model(b.members@),
            },
        )
    } else {
        None
    }
}

/// The declared value type of an enum: absent means generated ordinals,
/// `string` means string ordinals, and anything else has no result.
pub open spec fn spec_enum_type_model(sv: ScopeView, ty: Option<Loc<ast::Type>>) -> Option<
    RpEnumType,
> {
    match ty {
        None => Some(RpEnumType::Generated),
        Some(ty) => match spec_type_model(sv, ty.value) {
            Some(TypeView::String) => Some(RpEnumType::String),
            _ => None,
        },
    }
}

/// The ordinal of a variant: the explicit argument when present (which must
/// fit the declared enum type), a generated one otherwise.
pub open spec fn spec_ordinal_model(ty: RpEnumType, argument: Option<Loc<crate::model::RpValue>>)
    -> Option<OrdinalView> {
    match argument {
        None => Some(OrdinalView::Generated),
        Some(value) => match (ty, value.value@) {
            (RpEnumType::String, ValueView::String(s)) => Some(OrdinalView::String(s)),
            _ => None,
        },
    }
}

/// The model of one enum variant, under the enum's own scope.
pub open spec fn spec_variant_model(
    sv: ScopeView,
    ty: RpEnumType,
    v: ast::EnumVariant,
) -> Option<EnumVariantView> {
    match spec_ordinal_model(ty, v.argument) {
        Some(ordinal) => Some(
            EnumVariantView {
                name: NameView {
                    prefix: None,
                    package: sv.package,
                    parts: sv.path.push(v.name.value@),
                },
                local_name: v.name@,
                comment: v.comment.deep_view(),
                ordinal,
            },
        ),
        None => None,
    }
}

/// The models of the variants, in order; no result when one does not
/// convert.
pub open spec fn spec_variants_model(
    sv: ScopeView,
    ty: RpEnumType,
    variants: Seq<Loc<ast::EnumVariant>>,
) -> Option<Seq<LocView<EnumVariantView>>>
    decreases variants.len(),
{
    if variants.len() == 0 {
        Some(Seq::empty())
    } else {
        let rest = spec_variants_model(sv, ty, variants.subrange(1, variants.len() as int));
        match (spec_variant_model(sv, ty, variants[0].value), rest) {
            (Some(vv), Some(rv)) => Some(seq![LocView { value: vv, pos: variants[0].pos }] + rv),
            _ => None,
        }
    }
}

/// Whether no two variants share a local name.
pub open spec fn spec_variants_unique(variants: Seq<LocView<EnumVariantView>>) -> bool {
    forall|i: int, j: int|
        0 <= i < j < variants.len() ==> variants[i].value.local_name.value
            != variants[j].value.local_name.value
}

/// The model of an enum declaration, under the body's own scope: it may
/// hold no fields, its value type must be `string` or absent, every
/// variant's explicit value must fit that type, and no two variants may
/// share a local name.
pub open spec fn spec_enum_body_model(sv: ScopeView, b: ast::EnumBody) -> Option<EnumBodyView>
    decreases b, 2int,
{
    if spec_converted_fields(sv, b.members@) is Some && spec_converted_fields(
        sv,
        b.members@,
    ).unwrap().len() == 0 && spec_inner_decls(sv, b.members@) is Some && spec_enum_type_model(
        sv,
        b.ty,
    ) is Some && spec_variants_model(sv, spec_enum_type_model(sv, b.ty).unwrap(), b.variants@)
        is Some && spec_variants_unique(
        spec_variants_model(sv, spec_enum_type_model(sv, b.ty).unwrap(), b.variants@).unwrap(),
    ) {
        Some(
            EnumBodyView {
                name: spec_scope_name(sv),
                local_name: b.name@,
                comment: b.comment.deep_view(),
                decls: spec_inner_decls(sv, b.members@).unwrap(),
                variant_type: spec_enum_type_model(sv, b.ty).unwrap(),
                variants: spec_variants_model(
                    sv,
                    spec_enum_type_model(sv, b.ty).unwrap(),
                    b.variants@,
                ).unwrap(),
                codes: spec_codes_model(b.members@),
            },
        )
    } else {
        None
    }
}

/// The model of one sub-type, under the interface's scope.
pub open spec fn spec_sub_type_model(sv: ScopeView, s: ast::SubType) -> Option<SubTypeView>
    decreases s, 2int,
{
    if spec_members_ok(sv, s.members@) && spec_option_strings(
        spec_options_model(s.members@),
        "name"@,
    ) is Some {
        Some(
            SubTypeView {
                name: NameView {
                    prefix: None,
                    package: sv.package,
                    parts: sv.path.push(s.name@),
                },
                local_name: s.name@,
                comment: s.comment.deep_view(),
                decls: spec_inner_decls(sv, s.members@).unwrap(),
                fields: spec_converted_fields(sv, s.members@).unwrap(),
                codes: spec_codes_model(s.members@),
                names: spec_option_strings(spec_options_model(s.members@), "name"@).unwrap(),
            },
        )
    } else {
        None
    }
}

/// The models of the declared sub-types in declaration order, before
/// merging; no result when one does not convert.
pub open spec fn spec_sub_types_model(sv: ScopeView, subs: Seq<Loc<ast::SubType>>) -> Option<
    Seq<LocView<SubTypeView>>,
>
    decreases subs, 0int,
{
    if subs.len() == 0 {
        Some(Seq::empty())
    } else {
        let rest = spec_sub_types_model(sv, subs.subrange(1, subs.len() as int));
        match (spec_sub_type_model(sv, subs[0].value), rest) {
            (Some(s), Some(rv)) => Some(seq![LocView { value: s, pos: subs[0].pos }] + rv),
            _ => None,
        }
    }
}

/// Two sub-type fragments merged: fields and code blocks concatenated, the
/// alternate-name list extended; no result when their fields collide.
pub open spec fn spec_merge_two(a: LocView<SubTypeView>, b: LocView<SubTypeView>) -> Option<
    LocView<SubTypeView>,
> {
    if exists|i: int, j: int|
        0 <= i < a.value.fields.len() && 0 <= j < b.value.fields.len() && spec_fields_conflict(
            a.value.fields[i].value,
            b.value.fields[j].value,
        ) {
        None
    } else {
        Some(
            LocView {
                value: SubTypeView {
                    fields: a.value.fields + b.value.fields,
                    codes: a.value.codes + b.value.codes,
                    names: a.value.names + b.value.names,
                    ..a.value
                },
                pos: a.pos,
            },
        )
    }
}

/// A sub-type inserted into the accumulated list: merged into the first
/// entry with the same local name, appended otherwise.
pub open spec fn spec_insert_sub_type(
    acc: Seq<LocView<SubTypeView>>,
    s: LocView<SubTypeView>,
) -> Option<Seq<LocView<SubTypeView>>>
    decreases acc.len(),
{
    if acc.len() == 0 {
        Some(seq![s])
    } else if acc[0].value.local_name == s.value.local_name {
        match spec_merge_two(acc[0], s) {
            Some(merged) => Some(seq![merged] + acc.subrange(1, acc.len() as int)),
            None => None,
        }
    } else {
        match spec_insert_sub_type(acc.subrange(1, acc.len() as int), s) {
            Some(rest) => Some(seq![acc[0]] + rest),
            None => None,
        }
    }
}

/// The declared sub-types folded into the final list: fragments with the
/// same local name are merged, in first-occurrence order.
pub open spec fn spec_merge_fold(
    acc: Seq<LocView<SubTypeView>>,
    rest: Seq<LocView<SubTypeView>>,
) -> Option<Seq<LocView<SubTypeView>>>
    decreases rest.len(),
{
    if rest.len() == 0 {
        Some(acc)
    } else {
        match spec_insert_sub_type(acc, rest[0]) {
            Some(acc2) => spec_merge_fold(acc2, rest.subrange(1, rest.len() as int)),
            None => None,
        }
    }
}

/// Whether a sub-type's own fields stay clear of the interface's common
/// fields it inherits.
pub open spec fn spec_sub_type_clear_of(
    common: Seq<LocView<FieldView>>,
    sub: SubTypeView,
) -> bool {
    forall|i: int, j: int|
        0 <= i < common.len() && 0 <= j < sub.fields.len() ==> !spec_fields_conflict(
            common[i].value,
            sub.fields[j].value,
        )
}

/// The model of an interface declaration, under the body's own scope:
/// fragments of the same sub-type are merged, and each final sub-type's
/// fields must be clear of the interface's common fields.
pub open spec fn spec_interface_body_model(sv: ScopeView, b: ast::InterfaceBody) -> Option<
    InterfaceBodyView,
>
    decreases b, 2int,
{
    if spec_members_ok(sv, b.members@) && spec_sub_types_model(sv, b.sub_types@) is Some
        && spec_merge_fold(Seq::empty(), spec_sub_types_model(sv, b.sub_types@).unwrap()) is Some
        && (forall|k: int|
        0 <= k < spec_merge_fold(
            Seq::empty(),
            spec_sub_types_model(sv, b.sub_types@).unwrap(),
        ).unwrap().len() ==> spec_sub_type_clear_of(
            spec_converted_fields(sv, b.members@).unwrap(),
            spec_merge_fold(Seq::empty(), spec_sub_types_model(sv, b.sub_types@).unwrap()).unwrap()[
                k
            ].value,
        )) {
        Some(
            InterfaceBodyView {
                name: spec_scope_name(sv),
                local_name: b.name@,
                comment: b.comment.deep_view(),
                decls: spec_inner_decls(sv, b.members@).unwrap(),
                fields: spec_converted_fields(sv, b.members@).unwrap(),
                codes: spec_codes_model(b.members@),
                sub_types: spec_merge_fold(
                    Seq::empty(),
                    spec_sub_types_model(sv, b.sub_types@).unwrap(),
                ).unwrap(),
            },
        )
    } else {
        None
    }
}

/// The model of a declaration: its body converted under the child scope
/// named after it.
pub open spec fn spec_decl_model(sv: ScopeView, d: ast::Decl) -> Option<DeclView>
    decreases d, 0int,
{
    let child = spec_child(sv, d.spec_name());
    match d {
        ast::Decl::Type(b) => match spec_type_body_model(child, b) {
            Some(b) => Some(DeclView::Type(b)),
            None => None,
        },
        ast::Decl::Interface(b) => match spec_interface_body_model(child, b) {
            Some(b) => Some(DeclView::Interface(b)),
            None => None,
        },
        ast::Decl::Enum(b) => match spec_enum_body_model(child, b) {
            Some(b) => Some(DeclView::Enum(b)),
            None => None,
        },
        ast::Decl::Tuple(b) => match spec_tuple_body_model(child, b) {
            Some(b) => Some(DeclView::Tuple(b)),
            None => None,
        },
        ast::Decl::Service(b) => match spec_service_body_model(child, b) {
            Some(b) => Some(DeclView::Service(b)),
            None => None,
        },
    }
}

/// The model of a service declaration; endpoints are filled in by the
/// breadth-first walk defined below.
pub open spec fn spec_service_body_model(sv: ScopeView, b: ast::ServiceBody) -> Option<
    ServiceBodyView,
>
    decreases b, 2int,
{
    match spec_service_endpoints(sv, seq![(Seq::empty(), b.children@)]) {
        Some(endpoints) => Some(
            ServiceBodyView {
                name: spec_scope_name(sv),
                local_name: b.name@,
                comment: b.comment.deep_view(),
                decls: Seq::empty(),
                endpoints,
            },
        ),
        None => None,
    }
}

/// The size of a service tree node: itself plus its descendants.
pub open spec fn spec_nested_size(n: ast::ServiceNested) -> nat
    decreases n,
{
    match n {
        ast::ServiceNested::Segment { path: _, children } => 1 + spec_nested_list_size(children@),
        ast::ServiceNested::Endpoint { .. } => 1,
    }
}

/// The total size of a list of service tree nodes.
pub open spec fn spec_nested_list_size(l: Seq<ast::ServiceNested>) -> nat
    decreases l,
{
    if l.len() == 0 {
        0
    } else {
        spec_nested_size(l[0]) + spec_nested_list_size(l.subrange(1, l.len() as int))
    }
}

/// The total size of the queue of a breadth-first walk.
pub open spec fn spec_queue_size(
    queue: Seq<(Seq<crate::bodies::PathSegmentView>, Seq<ast::ServiceNested>)>,
) -> nat
    decreases queue,
{
    if queue.len() == 0 {
        0
    } else {
        spec_nested_list_size(queue[0].1) + spec_queue_size(queue.subrange(1, queue.len() as int))
    }
}

/// One entry of the breadth-first walk's queue: the accumulated ancestor
/// path, and the children still to visit under it.
pub type ServiceQueue = Seq<(Seq<crate::bodies::PathSegmentView>, Seq<ast::ServiceNested>)>;

/// Queue sizes add up over concatenation.
pub proof fn lemma_queue_size_concat(a: ServiceQueue, b: ServiceQueue)
    ensures
        spec_queue_size(a + b) == spec_queue_size(a) + spec_queue_size(b),
    decreases a.len(),
{
    if a.len() == 0 {
        assert(a + b =~= b);
    } else {
        lemma_queue_size_concat(a.subrange(1, a.len() as int), b);
        assert((a + b).subrange(1, (a + b).len() as int) =~= a.subrange(1, a.len() as int) + b);
        assert((a + b)[0] == a[0]);
    }
}

/// The size of a one-entry queue is the size of its child list.
pub proof fn lemma_queue_size_single(e: (Seq<crate::bodies::PathSegmentView>, Seq<ast::ServiceNested>))
    ensures
        spec_queue_size(seq![e]) == spec_nested_list_size(e.1),
{
    assert(seq![e].subrange(1, 1) =~= Seq::<(
        Seq<crate::bodies::PathSegmentView>,
        Seq<ast::ServiceNested>,
    )>::empty());
    assert(spec_queue_size(Seq::empty()) == 0);
    assert(seq![e][0] == e);
}

/// The endpoints a breadth-first walk of the queue produces, in walk order:
/// each queue entry carries the accumulated ancestor path; a segment child
/// is enqueued with its extended path, and an endpoint child is converted in
/// place.
pub open spec fn spec_service_endpoints(
    sv: ScopeView,
    queue: Seq<(Seq<crate::bodies::PathSegmentView>, Seq<ast::ServiceNested>)>,
) -> Option<Seq<crate::bodies::ServiceEndpointView>>
    decreases spec_queue_size(queue), queue.len(),
    via spec_service_endpoints_decreases
{
    if queue.len() == 0 {
        Some(Seq::empty())
    } else {
        let (path, children) = queue[0];
        let rest = queue.subrange(1, queue.len() as int);
        if children.len() == 0 {
            spec_service_endpoints(sv, rest)
        } else {
            let tail = (path, children.subrange(1, children.len() as int));
            match children[0] {
                ast::ServiceNested::Segment { path: seg_path, children: grandchildren } => {
                    match spec_segments_model(sv, seg_path.value.segments@) {
                        Some(segs) => spec_service_endpoints(
                            sv,
                            seq![tail] + rest + seq![(path + segs, grandchildren@)],
                        ),
                        None => None,
                    }
                },
                ast::ServiceNested::Endpoint {
                    comment,
                    method,
                    path: own_path,
                    default_name,
                    options: _,
                    entries,
                } => {
                    match spec_endpoint_model(
                        sv,
                        path,
                        comment,
                        method,
                        own_path,
                        default_name,
                        entries@,
                    ) {
                        Some(ep) => match spec_service_endpoints(sv, seq![tail] + rest) {
                            Some(eps) => Some(seq![ep] + eps),
                            None => None,
                        },
                        None => None,
                    }
                },
            }
        }
    }
}

#[via_fn]
proof fn spec_service_endpoints_decreases(
    sv: ScopeView,
    queue: Seq<(Seq<crate::bodies::PathSegmentView>, Seq<ast::ServiceNested>)>,
) {
    if queue.len() != 0 {
        let (path, children) = queue[0];
        let rest = queue.subrange(1, queue.len() as int);
        assert(spec_queue_size(queue) == spec_nested_list_size(children) + spec_queue_size(rest));
        if children.len() != 0 {
            let tail = (path, children.subrange(1, children.len() as int));
            assert(spec_nested_list_size(children) == spec_nested_size(children[0])
                + spec_nested_list_size(children.subrange(1, children.len() as int)));
            lemma_queue_size_single(tail);
            match children[0] {
                ast::ServiceNested::Segment { path: seg_path, children: grandchildren } => {
                    if spec_segments_model(sv, seg_path.value.segments@) is Some {
                        let segs = spec_segments_model(sv, seg_path.value.segments@).unwrap();
                        let added = (path + segs, grandchildren@);
                        lemma_queue_size_single(added);
                        lemma_queue_size_concat(seq![tail], rest);
                        lemma_queue_size_concat(seq![tail] + rest, seq![added]);
                        assert(spec_nested_size(children[0]) == 1 + spec_nested_list_size(
                            grandchildren@,
                        ));
                        assert(spec_queue_size(seq![tail] + rest + seq![added]) < spec_queue_size(
                            queue,
                        ));
                    }
                },
                ast::ServiceNested::Endpoint { .. } => {
                    lemma_queue_size_concat(seq![tail], rest);
                    assert(spec_nested_size(children[0]) == 1);
                    assert(spec_queue_size(seq![tail] + rest) < spec_queue_size(queue));
                },
            }
        }
    }
}

/// The converted segments of a path; no result when a variable's type does
/// not resolve.
pub open spec fn spec_segments_model(sv: ScopeView, segments: Seq<ast::PathSegment>) -> Option<
    Seq<crate::bodies::PathSegmentView>,
>
    decreases segments.len(),
{
    if segments.len() == 0 {
        Some(Seq::empty())
    } else {
        let rest = spec_segments_model(sv, segments.subrange(1, segments.len() as int));
        match segments[0] {
            ast::PathSegment::Literal { value } => match rest {
                Some(rv) => Some(
                    seq![crate::bodies::PathSegmentView::Literal { value: value@ }] + rv,
                ),
                None => None,
            },
            ast::PathSegment::Variable { name, ty } => match (spec_type_model(sv, ty.value), rest) {
                (Some(tv), Some(rv)) => Some(
                    seq![
                        crate::bodies::PathSegmentView::Variable {
                            name: name@,
                            ty: LocView { value: tv, pos: ty.pos },
                        },
                    ] + rv,
                ),
                _ => None,
            },
        }
    }
}

/// A MIME string split at its single slash into type and subtype, both
/// non-empty; no result otherwise.
pub open spec fn spec_mime_model(s: Seq<char>) -> Option<MimeView> {
    if exists|i: int|
        0 < i < s.len() - 1 && s[i] == '/' && (forall|j: int|
            0 <= j < s.len() && j != i ==> s[j] != '/') {
        let i = choose|i: int|
            0 < i < s.len() - 1 && s[i] == '/' && (forall|j: int|
                0 <= j < s.len() && j != i ==> s[j] != '/');
        Some(MimeView { top: s.take(i), sub: s.skip(i + 1) })
    } else {
        None
    }
}

/// The optional MIME entry converted; no result when it does not parse.
pub open spec fn spec_opt_mime_model(mime: Option<Loc<String>>) -> Option<Option<MimeView>> {
    match mime {
        None => Some(None),
        Some(m) => match spec_mime_model(m.value@) {
            Some(mv) => Some(Some(mv)),
            None => None,
        },
    }
}

/// The model of one accept entry: its name is its own, or the endpoint's
/// default; no result without either, or when its type or MIME entry does
/// not convert.
pub open spec fn spec_accepts_model(
    sv: ScopeView,
    default_name: Option<Loc<String>>,
    a: ast::ServiceAccepts,
) -> Option<crate::bodies::ServiceAcceptsView> {
    let name = match a.name {
        Some(n) => Some(n),
        None => default_name,
    };
    match name {
        None => None,
        Some(name) => match (spec_opt_type_model(sv, a.ty), spec_opt_mime_model(a.mime)) {
            (Some(ty), Some(mime)) => Some(
                crate::bodies::ServiceAcceptsView {
                    comment: a.comment.deep_view(),
                    ty,
                    mime,
                    name: name@,
                },
            ),
            _ => None,
        },
    }
}

/// The optional payload type converted; no result when it does not resolve.
pub open spec fn spec_opt_type_model(sv: ScopeView, ty: Option<Loc<ast::Type>>) -> Option<
    Option<LocView<TypeView>>,
> {
    match ty {
        None => Some(None),
        Some(ty) => match spec_type_model(sv, ty.value) {
            Some(tv) => Some(Some(LocView { value: tv, pos: ty.pos })),
            None => None,
        },
    }
}

/// The model of one return entry: its status must fit an unsigned 32-bit
/// value; no result otherwise, or when its type or MIME entry does not
/// convert.
pub open spec fn spec_returns_model(sv: ScopeView, r: ast::ServiceReturns) -> Option<
    crate::bodies::ServiceReturnsView,
> {
    if r.status.value.fraction is None && r.status.value.exponent is None && 0
        <= r.status.value.whole <= u32::MAX {
        match (spec_opt_type_model(sv, r.ty), spec_opt_mime_model(r.mime)) {
            (Some(ty), Some(mime)) => Some(
                crate::bodies::ServiceReturnsView {
                    comment: r.comment.deep_view(),
                    status: r.status.value.whole as u32,
                    ty,
                    mime,
                },
            ),
            _ => None,
        }
    } else {
        None
    }
}

/// The models of all accept entries, in order and before any conflict
/// check; no result when one does not convert.
pub open spec fn spec_all_accepts(
    sv: ScopeView,
    default_name: Option<Loc<String>>,
    entries: Seq<Loc<ast::ServiceEntry>>,
) -> Option<Seq<crate::bodies::ServiceAcceptsView>>
    decreases entries.len(),
{
    if entries.len() == 0 {
        Some(Seq::empty())
    } else {
        let rest = spec_all_accepts(sv, default_name, entries.subrange(1, entries.len() as int));
        match entries[0].value {
            ast::ServiceEntry::Accepts(a) => match (spec_accepts_model(sv, default_name, a), rest) {
                (Some(av), Some(rv)) => Some(seq![av] + rv),
                _ => None,
            },
            ast::ServiceEntry::Returns(_) => rest,
        }
    }
}

/// The models of all return entries, in order; no result when one does not
/// convert.
pub open spec fn spec_all_returns(sv: ScopeView, entries: Seq<Loc<ast::ServiceEntry>>) -> Option<
    Seq<crate::bodies::ServiceReturnsView>,
>
    decreases entries.len(),
{
    if entries.len() == 0 {
        Some(Seq::empty())
    } else {
        let rest = spec_all_returns(sv, entries.subrange(1, entries.len() as int));
        match entries[0].value {
            ast::ServiceEntry::Returns(r) => match (spec_returns_model(sv, r), rest) {
                (Some(rv), Some(rs)) => Some(seq![rv] + rs),
                _ => None,
            },
            ast::ServiceEntry::Accepts(_) => rest,
        }
    }
}

/// Whether no two accept entries share their effective name.
pub open spec fn spec_accepts_unique(accs: Seq<crate::bodies::ServiceAcceptsView>) -> bool {
    forall|k1: int, k2: int|
        0 <= k1 < k2 < accs.len() ==> accs[k1].name.value != accs[k2].name.value
}

/// The accept and return entries of an endpoint: every entry must convert,
/// and no two accept entries may share their effective name.
pub open spec fn spec_entries_model(
    sv: ScopeView,
    default_name: Option<Loc<String>>,
    entries: Seq<Loc<ast::ServiceEntry>>,
) -> Option<(Seq<crate::bodies::ServiceAcceptsView>, Seq<crate::bodies::ServiceReturnsView>)> {
    match (spec_all_accepts(sv, default_name, entries), spec_all_returns(sv, entries)) {
        (Some(accs), Some(rets)) => if spec_accepts_unique(accs) {
            Some((accs, rets))
        } else {
            None
        },
        _ => None,
    }
}

/// The model of one endpoint: its full path is the ancestors' path plus its
/// own, and its entries must convert without name conflicts.
pub open spec fn spec_endpoint_model(
    sv: ScopeView,
    acc_path: Seq<crate::bodies::PathSegmentView>,
    comment: Vec<String>,
    method: Option<Loc<String>>,
    own_path: Option<Loc<ast::PathSpec>>,
    default_name: Option<Loc<String>>,
    entries: Seq<Loc<ast::ServiceEntry>>,
) -> Option<crate::bodies::ServiceEndpointView> {
    let own = match own_path {
        None => Some(Seq::empty()),
        Some(p) => spec_segments_model(sv, p.value.segments@),
    };
    match (own, spec_entries_model(sv, default_name, entries)) {
        (Some(own), Some((accs, rets))) => Some(
            crate::bodies::ServiceEndpointView {
                comment: comment.deep_view(),
                method: method.deep_view(),
                path: acc_path + own,
                accepts: accs,
                returns: rets,
            },
        ),
        _ => None,
    }
}

} // verus!

// === third stage: executable conversions for services ===

use crate::bodies::{
    Mime, RpPathSegment, RpPathSpec, RpServiceAccepts, RpServiceBody, RpServiceEndpoint,
    RpServiceReturns,
};

verus! {

/// Parse an optional MIME entry of the form `type/subtype`.
pub fn parse_mime(mime: Option<Loc<String>>) -> (r: Result<Option<Mime>, Error>)
    ensures
        r is Ok <==> spec_opt_mime_model(mime) is Some,
        r matches Ok(v) ==> Some(v.deep_view()) == spec_opt_mime_model(mime),
        r matches Err(e) ==> e is InvalidMimeType,
{
    let located = match mime {
        None => {
            return Ok(None);
        },
        Some(located) => located,
    };
    let text = located.value.as_str();
    proof {
        assert(text@ == located.value@);
        assert(mime == Some(located));
    }
    let len = text.unicode_len();
    let mut slash: Option<usize> = None;
    let mut i: usize = 0;
    while i < len
        invariant
            i <= len,
            len == text@.len(),
            text@ == located.value@,
            mime == Some(located),
            match slash {
                Some(k) => k < i && text@[k as int] == '/' && forall|j: int|
                    0 <= j < i && j != k ==> text@[j] != '/',
                None => forall|j: int| 0 <= j < i ==> text@[j] != '/',
            },
        decreases len - i,
    {
        let c = text.get_char(i);
        if c == '/' {
            match slash {
                Some(prev) => {
                    proof {
                        assert forall|idx: int|
                            !(0 < idx < text@.len() - 1 && text@[idx] == '/' && (forall|j: int|
                                0 <= j < text@.len() && j != idx ==> text@[j] != '/')) by {
                            if idx == prev as int {
                                assert(text@[i as int] == '/');
                            } else {
                                assert(text@[prev as int] == '/');
                            }
                        }
                        lemma_mime_none(text@);
                        assert(text@ == located.value@);
                        assert(spec_mime_model(located.value@) is None);
                        assert(spec_opt_mime_model(mime) is None);
                    }
                    return Err(Error::InvalidMimeType);
                },
                None => {
                    slash = Some(i);
                },
            }
        }
        i = i + 1;
    }
    let k = match slash {
        Some(k) => k,
        None => {
            proof {
                lemma_mime_none(text@);
            }
            return Err(Error::InvalidMimeType);
        },
    };
    if k == 0 || k + 1 >= len {
        proof {
            lemma_mime_none(text@);
        }
        return Err(Error::InvalidMimeType);
    }
    let mut top = String::new();
    let mut j: usize = 0;
    while j < k
        invariant
            j <= k,
            k < len,
            len == text@.len(),
            top@ == text@.take(k as int).take(j as int),
        decreases k - j,
    {
        crate::text::push_char(&mut top, text.get_char(j));
        j = j + 1;
        proof {
            assert(text@.take(k as int).take(j as int) =~= text@.take(k as int).take(
                j - 1 as int,
            ).push(text@[j - 1]));
        }
    }
    let mut sub = String::new();
    let mut j: usize = k + 1;
    while j < len
        invariant
            k + 1 <= j <= len,
            len == text@.len(),
            sub@ == text@.skip(k + 1).take(j - (k + 1)),
        decreases len - j,
    {
        crate::text::push_char(&mut sub, text.get_char(j));
        j = j + 1;
        proof {
            assert(text@.skip(k + 1).take(j - (k + 1)) =~= text@.skip(k + 1).take(
                j - 1 - (k + 1),
            ).push(text@[j - 1]));
        }
    }
    proof {
        let s = text@;
        assert(0 < k < s.len() - 1 && s[k as int] == '/' && (forall|j: int|
            0 <= j < s.len() && j != k ==> s[j] != '/'));
        assert(spec_mime_model(s) is Some);
        let i = choose|i: int|
            0 < i < s.len() - 1 && s[i] == '/' && (forall|j: int|
                0 <= j < s.len() && j != i ==> s[j] != '/');
        assert(s[i] == '/');
        assert(i == k);
        assert(top@ =~= s.take(k as int));
        assert(sub@ =~= s.skip(k + 1).take(s.len() - (k + 1)));
        assert(s.skip(k + 1).take(s.len() - (k + 1)) =~= s.skip(k + 1));
    }
    Ok(Some(Mime { top, sub }))
}

/// A string with no single interior slash has no MIME reading.
proof fn lemma_mime_none(s: Seq<char>)
    requires
        !(exists|i: int|
            0 < i < s.len() - 1 && s[i] == '/' && (forall|j: int|
                0 <= j < s.len() && j != i ==> s[j] != '/')),
    ensures
        spec_mime_model(s) is None,
{
}

} // verus!

verus! {

/// Whether the error reports an endpoint conflict between two accept
/// entries of the list: their shared effective name, the later one's
/// position first.
pub open spec fn spec_endpoint_conflict_reported(
    accs: Seq<crate::bodies::ServiceAcceptsView>,
    e: Error,
) -> bool {
    e matches Error::EndpointConflict(n, p_new, p_old) && exists|k1: int, k2: int|
        0 <= k1 < k2 < accs.len() && accs[k1].name.value == accs[k2].name.value && n@ == accs[
            k2
        ].name.value && p_new == accs[k2].name.pos && p_old == accs[k1].name.pos
}

/// Clone a located string, keeping its characters and position.
pub fn clone_loc_string(l: &Loc<String>) -> (r: Loc<String>)
    ensures
        r@ == l@,
{
    Loc { value: clone_string(&l.value), pos: l.pos }
}

/// Convert an optional payload type.
fn convert_opt_type(ty: Option<Loc<ast::Type>>, scope: &Scope) -> (r: Result<
    Option<Loc<RpType>>,
    Error,
>)
    ensures
        r is Ok <==> spec_opt_type_model(scope@, ty) is Some,
        r matches Ok(v) ==> Some(v.deep_view()) == spec_opt_type_model(scope@, ty),
        r matches Err(e) ==> e is MissingPrefix,
{
    match ty {
        None => Ok(None),
        Some(ty) => {
            let pos = ty.pos;
            match ty.value.into_model(scope) {
                Ok(tv) => Ok(Some(Loc { value: tv, pos })),
                Err(e) => Err(e),
            }
        },
    }
}

impl ast::ServiceAccepts {
    /// Convert the accept entry: its effective name is its own, or the
    /// endpoint's default.
    pub fn into_model(self, scope: &Scope, default_name: &Option<Loc<String>>) -> (r: Result<
        RpServiceAccepts,
        Error,
    >)
        ensures
            r is Ok <==> spec_accepts_model(scope@, *default_name, self) is Some,
            r matches Ok(v) ==> Some(v@) == spec_accepts_model(scope@, *default_name, self),
            r matches Err(e) ==> (e is MissingName || e is MissingPrefix || e is InvalidMimeType),
    {
        let ast::ServiceAccepts { comment, name, ty, mime } = self;
        let name = match name {
            Some(n) => n,
            None => match default_name {
                Some(d) => clone_loc_string(d),
                None => {
                    return Err(Error::MissingName);
                },
            },
        };
        let ty = match convert_opt_type(ty, scope) {
            Ok(ty) => ty,
            Err(e) => {
                return Err(e);
            },
        };
        let mime = match parse_mime(mime) {
            Ok(m) => m,
            Err(e) => {
                return Err(e);
            },
        };
        Ok(RpServiceAccepts { comment, ty, mime, name })
    }
}

impl ast::ServiceReturns {
    /// Convert the return entry: its status must fit an unsigned 32-bit
    /// value.
    pub fn into_model(self, scope: &Scope) -> (r: Result<RpServiceReturns, Error>)
        ensures
            r is Ok <==> spec_returns_model(scope@, self) is Some,
            r matches Ok(v) ==> Some(v@) == spec_returns_model(scope@, self),
            r matches Err(e) ==> (e is InvalidStatusCode || e is MissingPrefix
                || e is InvalidMimeType),
    {
        let ast::ServiceReturns { comment, status, ty, mime } = self;
        let code = match status.value.to_u32() {
            Some(code) => code,
            None => {
                return Err(Error::InvalidStatusCode(status.pos));
            },
        };
        let ty = match convert_opt_type(ty, scope) {
            Ok(ty) => ty,
            Err(e) => {
                return Err(e);
            },
        };
        let mime = match parse_mime(mime) {
            Ok(m) => m,
            Err(e) => {
                return Err(e);
            },
        };
        Ok(RpServiceReturns { comment, status: code, ty, mime })
    }
}

/// Convert the entries of one endpoint, rejecting accept entries whose
/// effective name repeats: the error carries the positions of both names.
#[verifier::loop_isolation(false)]
#[verifier::rlimit(10)]
pub fn service_entries(
    scope: &Scope,
    default_name: &Option<Loc<String>>,
    entries: Vec<Loc<ast::ServiceEntry>>,
) -> (r: Result<(Vec<RpServiceAccepts>, Vec<RpServiceReturns>), Error>)
    ensures
        r is Ok <==> spec_entries_model(scope@, *default_name, entries@) is Some,
        r matches Ok(v) ==> Some((v.0.deep_view(), v.1.deep_view())) == spec_entries_model(
            scope@,
            *default_name,
            entries@,
        ),
        spec_all_accepts(scope@, *default_name, entries@) is Some && spec_all_returns(
            scope@,
            entries@,
        ) is Some && !spec_accepts_unique(
            spec_all_accepts(scope@, *default_name, entries@).unwrap(),
        ) ==> (r matches Err(e) && spec_endpoint_conflict_reported(
            spec_all_accepts(scope@, *default_name, entries@).unwrap(),
            e,
        )),
    {
    let ghost all = entries@;
    let mut remaining = entries;
    let mut accs: Vec<RpServiceAccepts> = Vec::new();
    let mut rets: Vec<RpServiceReturns> = Vec::new();
    let ghost sv = scope@;
    let ghost dn = *default_name;
    let total = remaining.len();
    proof {
        assert(all.len() == total);
        assert(all.skip(0) =~= all);
    }
    let mut i: usize = 0;
    while remaining.len() > 0
        invariant
            i + remaining@.len() == all.len(),
            remaining@ =~= all.skip(i as int),
            spec_all_accepts(sv, dn, all) == match spec_all_accepts(sv, dn, all.skip(i as int)) {
                Some(r) => Some(accs.deep_view() + r),
                None => None::<Seq<crate::bodies::ServiceAcceptsView>>,
            },
            spec_all_returns(sv, all) == match spec_all_returns(sv, all.skip(i as int)) {
                Some(r) => Some(rets.deep_view() + r),
                None => None::<Seq<crate::bodies::ServiceReturnsView>>,
            },
            spec_accepts_unique(accs.deep_view()),
        decreases remaining@.len(),
    {
        let ghost suffix = all.skip(i as int);
        proof {
            assert(suffix[0] == all[i as int]);
            assert(suffix.subrange(1, suffix.len() as int) =~= all.skip(i + 1));
        }
        let entry = remaining.remove(0);
        let pos = entry.pos;
        match entry.value {
            ast::ServiceEntry::Accepts(a) => {
                let av = match a.into_model(scope, default_name) {
                    Ok(av) => av,
                    Err(e) => {
                        return Err(e);
                    },
                };
                let mut k: usize = 0;
                while k < accs.len()
                    invariant
                        k <= accs@.len(),
                        forall|k1: int|
                            0 <= k1 < k ==> accs.deep_view()[k1].name.value != av@.name.value,
                    decreases accs@.len() - k,
                {
                    if accs[k].name.value.eq(&av.name.value) {
                        proof {
                            let full = spec_all_accepts(sv, dn, all);
                            if full is Some {
                                let fullseq = full.unwrap();
                                assert(fullseq[k as int] == accs.deep_view()[k as int]);
                                assert(fullseq[accs@.len() as int] == av@);
                            }
                        }
                        let name = clone_string(&av.name.value);
                        return Err(Error::EndpointConflict(name, av.name.pos, accs[k].name.pos));
                    }
                    k = k + 1;
                }
                let ghost pre = accs.deep_view();
                accs.push(av);
                proof {
                    assert(accs.deep_view() =~= pre.push(av@));
                    match spec_all_accepts(sv, dn, all.skip(i + 1)) {
                        Some(rv) => {
                            assert(pre.push(av@) + rv =~= pre + (seq![av@] + rv));
                        },
                        None => {},
                    }
                }
            },
            ast::ServiceEntry::Returns(ret) => {
                let rv = match ret.into_model(scope) {
                    Ok(rv) => rv,
                    Err(e) => {
                        return Err(e);
                    },
                };
                let ghost pre = rets.deep_view();
                rets.push(rv);
                proof {
                    assert(rets.deep_view() =~= pre.push(rv@));
                    match spec_all_returns(sv, all.skip(i + 1)) {
                        Some(rest_rets) => {
                            assert(pre.push(rv@) + rest_rets =~= pre + (seq![rv@] + rest_rets));
                        },
                        None => {},
                    }
                }
            },
        }
        i = i + 1;
    }
    proof {
        assert(all.skip(all.len() as int) =~= Seq::<Loc<ast::ServiceEntry>>::empty());
        assert(accs.deep_view() + Seq::<crate::bodies::ServiceAcceptsView>::empty() =~= accs
            .deep_view());
        assert(rets.deep_view() + Seq::<crate::bodies::ServiceReturnsView>::empty() =~= rets
            .deep_view());
    }
    Ok((accs, rets))
}

} // verus!

// === fourth stage: executable conversions for members and bodies ===

use crate::bodies::{
    find_conflicting_field, RpDecl, RpEnumBody, RpEnumOrdinal, RpEnumVariant, RpInterfaceBody,
    RpSubType, RpTupleBody, RpTypeBody,
};
use crate::model::{RpCode, RpValue};

verus! {

/// Whether the error reports a field conflict between two fields of the
/// list: the later one's identifier and position first.
pub open spec fn spec_field_conflict_reported(fields: Seq<LocView<FieldView>>, e: Error) -> bool {
    e matches Error::FieldConflict(id, p_new, p_old) && exists|k1: int, k2: int|
        0 <= k1 < k2 < fields.len() && spec_fields_conflict(fields[k1].value, fields[k2].value)
            && id@ == fields[k2].value.ident() && p_new == fields[k2].pos && p_old == fields[
            k1
        ].pos
}

/// A code block at a position.
pub fn code(pos: crate::model::Pos, context: String, lines: Vec<String>) -> (r: Loc<RpCode>)
    ensures
        r@.pos == pos,
        r@.value.context == context@,
        r@.value.lines == lines.deep_view(),
{
    Loc { value: RpCode { context, lines }, pos }
}

/// Partition and convert the members of a body into its fields, code
/// blocks, option directives and inner declarations. Two fields sharing a
/// wire name or identifier are a conflict: the error carries both
/// positions.
#[verifier::loop_isolation(false)]
#[verifier::rlimit(10)]
pub fn members_into_model(scope: &Scope, members: Vec<Loc<ast::Member>>) -> (r: Result<
    (Vec<Loc<RpField>>, Vec<Loc<RpCode>>, Vec<Loc<RpOptionDecl>>, Vec<Loc<RpDecl>>),
    Error,
>)
    ensures
        r is Ok <==> spec_members_ok(scope@, members@),
        r matches Ok(v) ==> {
            &&& Some(v.0.deep_view()) == spec_converted_fields(scope@, members@)
            &&& v.1.deep_view() == spec_codes_model(members@)
            &&& v.2.deep_view() == spec_options_model(members@)
            &&& Some(v.3.deep_view()) == spec_inner_decls(scope@, members@)
        },
        spec_converted_fields(scope@, members@) is Some && spec_inner_decls(scope@, members@)
            is Some && !spec_fields_unique(spec_converted_fields(scope@, members@).unwrap()) ==> (
        r matches Err(e) && spec_field_conflict_reported(
            spec_converted_fields(scope@, members@).unwrap(),
            e,
        )),
    decreases members, 1int,
{
    let ghost all = members@;
    let ghost sv = scope@;
    let mut remaining = members;
    let total = remaining.len();
    let mut fields: Vec<Loc<RpField>> = Vec::new();
    let mut codes: Vec<Loc<RpCode>> = Vec::new();
    let mut options: Vec<Loc<RpOptionDecl>> = Vec::new();
    let mut decls: Vec<Loc<RpDecl>> = Vec::new();
    proof {
        assert(all.len() == total);
        assert(all.skip(0) =~= all);
    }
    let mut i: usize = 0;
    while remaining.len() > 0
        invariant
            i + remaining@.len() == all.len(),
            remaining@ =~= all.skip(i as int),
            spec_converted_fields(sv, all) == match spec_converted_fields(sv, all.skip(i as int)) {
                Some(r) => Some(fields.deep_view() + r),
                None => None::<Seq<LocView<FieldView>>>,
            },
            spec_codes_model(all) =~= codes.deep_view() + spec_codes_model(all.skip(i as int)),
            spec_options_model(all) =~= options.deep_view() + spec_options_model(
                all.skip(i as int),
            ),
            spec_inner_decls(sv, all) == match spec_inner_decls(sv, all.skip(i as int)) {
                Some(r) => Some(decls.deep_view() + r),
                None => None::<Seq<LocView<DeclView>>>,
            },
            spec_fields_unique(fields.deep_view()),
        decreases remaining@.len(),
    {
        let ghost suffix = all.skip(i as int);
        proof {
            assert(suffix[0] == all[i as int]);
            assert(suffix.subrange(1, suffix.len() as int) =~= all.skip(i + 1));
        }
        let member = remaining.remove(0);
        let pos = member.pos;
        match member.value {
            ast::Member::Field(field) => {
                let field = match field.into_model(scope) {
                    Ok(field) => field,
                    Err(e) => {
                        return Err(e);
                    },
                };
                if let Some(k) = find_conflicting_field(&fields, &field) {
                    let ident = clone_string(field.ident());
                    let old_pos = fields[k].pos;
                    proof {
                        let full = spec_converted_fields(sv, all);
                        if full is Some {
                            let fullseq = full.unwrap();
                            let here = LocView { value: field@, pos: pos };
                            let n = fields@.len() as int;
                            assert(spec_converted_fields(sv, all.skip(i as int)).unwrap()[0]
                                == here);
                            assert(fullseq =~= fields.deep_view() + spec_converted_fields(
                                sv,
                                all.skip(i as int),
                            ).unwrap());
                            assert(fullseq[k as int] == fields.deep_view()[k as int]);
                            assert(fullseq[n] == here);
                            assert(fields.deep_view()[k as int].value == fields@[k as int]@.value);
                            assert(spec_fields_conflict(fullseq[k as int].value, fullseq[n].value));
                            assert(!spec_fields_unique(fullseq));
                            assert(fullseq[k as int].pos == old_pos);
                            assert(ident@ == fullseq[n].value.ident());
                            assert(spec_field_conflict_reported(
                                fullseq,
                                Error::FieldConflict(ident, pos, old_pos),
                            ));
                        }
                    }
                    return Err(Error::FieldConflict(ident, pos, old_pos));
                }
                let ghost pre = fields.deep_view();
                fields.push(Loc { value: field, pos });
                proof {
                    assert(fields.deep_view() =~= pre.push(LocView { value: field@, pos: pos }));
                    match spec_converted_fields(sv, all.skip(i + 1)) {
                        Some(rv) => {
                            assert(pre.push(LocView { value: field@, pos: pos }) + rv =~= pre + (
                            seq![LocView { value: field@, pos: pos }] + rv));
                        },
                        None => {},
                    }
                }
            },
            ast::Member::Code(context, lines) => {
                let ghost pre = codes.deep_view();
                let block = code(pos, context, lines);
                codes.push(block);
                proof {
                    assert(codes.deep_view() =~= pre.push(block@));
                    let ghost rv = spec_codes_model(all.skip(i + 1));
                    assert(pre.push(block@) + rv =~= pre + (seq![block@] + rv));
                }
            },
            ast::Member::Option(option) => {
                let converted = match option.into_model(scope) {
                    Ok(converted) => converted,
                    Err(e) => {
                        return Err(e);
                    },
                };
                let ghost pre = options.deep_view();
                options.push(Loc { value: converted, pos });
                proof {
                    assert(options.deep_view() =~= pre.push(
                        LocView { value: converted@, pos: pos },
                    ));
                    let ghost rv = spec_options_model(all.skip(i + 1));
                    assert(pre.push(LocView { value: converted@, pos: pos }) + rv =~= pre + (
                    seq![LocView { value: converted@, pos: pos }] + rv));
                }
            },
            ast::Member::InnerDecl(decl) => {
                proof {
                    assert(decreases_to!(all => all[i as int]));
                    assert(decreases_to!(all[i as int] => all[i as int].value));
                    assert(decreases_to!(all[i as int].value => all[i as int].value->InnerDecl_0));
                }
                let converted = match decl.into_model(scope) {
                    Ok(converted) => converted,
                    Err(e) => {
                        return Err(e);
                    },
                };
                let ghost pre = decls.deep_view();
                decls.push(Loc { value: converted, pos });
                proof {
                    assert(decls.deep_view() =~= pre.push(
                        LocView { value: converted@, pos: pos },
                    ));
                    match spec_inner_decls(sv, all.skip(i + 1)) {
                        Some(rv) => {
                            assert(pre.push(LocView { value: converted@, pos: pos }) + rv =~= pre + (
                            seq![LocView { value: converted@, pos: pos }] + rv));
                        },
                        None => {},
                    }
                }
            },
        }
        i = i + 1;
    }
    proof {
        assert(all.skip(all.len() as int) =~= Seq::<Loc<ast::Member>>::empty());
        assert(fields.deep_view() + Seq::<LocView<FieldView>>::empty() =~= fields.deep_view());
        assert(codes.deep_view() + Seq::<LocView<CodeView>>::empty() =~= codes.deep_view());
        assert(options.deep_view() + Seq::<LocView<OptionDeclView>>::empty() =~= options
            .deep_view());
        assert(decls.deep_view() + Seq::<LocView<DeclView>>::empty() =~= decls.deep_view());
    }
    Ok((fields, codes, options, decls))
}

} // verus!

// === fifth stage: declaration bodies ===

verus! {

/// The string values of the options with the given name.
#[verifier::loop_isolation(false)]
#[verifier::rlimit(10)]
pub fn find_all_strings(options: &Vec<Loc<RpOptionDecl>>, name: &str) -> (r: Result<
    Vec<Loc<String>>,
    Error,
>)
    ensures
        r is Ok <==> spec_option_strings(options.deep_view(), name@) is Some,
        r matches Ok(v) ==> Some(v.deep_view()) == spec_option_strings(
            options.deep_view(),
            name@,
        ),
        r matches Err(e) ==> e is InvalidOptionValue,
{
    let ghost all = options.deep_view();
    let mut out: Vec<Loc<String>> = Vec::new();
    proof {
        assert(all.skip(0) =~= all);
    }
    let mut i: usize = 0;
    while i < options.len()
        invariant
            i <= options@.len(),
            all.len() == options@.len(),
            spec_option_strings(all, name@) == match spec_option_strings(
                all.skip(i as int),
                name@,
            ) {
                Some(r) => Some(out.deep_view() + r),
                None => None::<Seq<LocView<Seq<char>>>>,
            },
        decreases options@.len() - i,
    {
        let ghost suffix = all.skip(i as int);
        proof {
            assert(suffix[0] == all[i as int]);
            assert(suffix.subrange(1, suffix.len() as int) =~= all.skip(i + 1));
            assert(all[i as int] == options@[i as int]@);
        }
        let option = &options[i].value;
        if crate::model::str_eq(option.name.as_str(), name) {
            match &option.value.value {
                RpValue::String(s) => {
                    let ghost pre = out.deep_view();
                    let item = Loc { value: clone_string(s), pos: option.value.pos };
                    out.push(item);
                    proof {
                        assert(out.deep_view() =~= pre.push(item@));
                        match spec_option_strings(all.skip(i + 1), name@) {
                            Some(rv) => {
                                assert(pre.push(item@) + rv =~= pre + (seq![item@] + rv));
                            },
                            None => {},
                        }
                    }
                },
                _ => {
                    return Err(Error::InvalidOptionValue(option.value.pos));
                },
            }
        }
        i = i + 1;
    }
    proof {
        assert(all.skip(all.len() as int) =~= Seq::<LocView<OptionDeclView>>::empty());
        assert(out.deep_view() + Seq::<LocView<Seq<char>>>::empty() =~= out.deep_view());
    }
    Ok(out)
}

/// The identifier values of the options with the given name.
#[verifier::loop_isolation(false)]
#[verifier::rlimit(10)]
pub fn find_all_identifiers(options: &Vec<Loc<RpOptionDecl>>, name: &str) -> (r: Result<
    Vec<Loc<String>>,
    Error,
>)
    ensures
        r is Ok <==> spec_option_identifiers(options.deep_view(), name@) is Some,
        r matches Ok(v) ==> Some(v.deep_view()) == spec_option_identifiers(
            options.deep_view(),
            name@,
        ),
        r matches Err(e) ==> e is InvalidOptionValue,
{
    let ghost all = options.deep_view();
    let mut out: Vec<Loc<String>> = Vec::new();
    proof {
        assert(all.skip(0) =~= all);
    }
    let mut i: usize = 0;
    while i < options.len()
        invariant
            i <= options@.len(),
            all.len() == options@.len(),
            spec_option_identifiers(all, name@) == match spec_option_identifiers(
                all.skip(i as int),
                name@,
            ) {
                Some(r) => Some(out.deep_view() + r),
                None => None::<Seq<LocView<Seq<char>>>>,
            },
        decreases options@.len() - i,
    {
        let ghost suffix = all.skip(i as int);
        proof {
            assert(suffix[0] == all[i as int]);
            assert(suffix.subrange(1, suffix.len() as int) =~= all.skip(i + 1));
            assert(all[i as int] == options@[i as int]@);
        }
        let option = &options[i].value;
        if crate::model::str_eq(option.name.as_str(), name) {
            match &option.value.value {
                RpValue::Identifier(s) => {
                    let ghost pre = out.deep_view();
                    let item = Loc { value: clone_string(s), pos: option.value.pos };
                    out.push(item);
                    proof {
                        assert(out.deep_view() =~= pre.push(item@));
                        match spec_option_identifiers(all.skip(i + 1), name@) {
                            Some(rv) => {
                                assert(pre.push(item@) + rv =~= pre + (seq![item@] + rv));
                            },
                            None => {},
                        }
                    }
                },
                _ => {
                    return Err(Error::InvalidOptionValue(option.value.pos));
                },
            }
        }
        i = i + 1;
    }
    proof {
        assert(all.skip(all.len() as int) =~= Seq::<LocView<OptionDeclView>>::empty());
        assert(out.deep_view() + Seq::<LocView<Seq<char>>>::empty() =~= out.deep_view());
    }
    Ok(out)
}

impl ast::TypeBody {
    /// Convert the type declaration under its own scope.
    pub fn into_model(self, scope: &Scope) -> (r: Result<RpTypeBody, Error>)
        ensures
            r is Ok <==> spec_type_body_model(scope@, self) is Some,
            r matches Ok(v) ==> Some(v@) == spec_type_body_model(scope@, self),
            spec_converted_fields(scope@, self.members@) is Some && spec_inner_decls(
                scope@,
                self.members@,
            ) is Some && !spec_fields_unique(
                spec_converted_fields(scope@, self.members@).unwrap(),
            ) ==> (r matches Err(e) && spec_field_conflict_reported(
                spec_converted_fields(scope@, self.members@).unwrap(),
                e,
            )),
        decreases self, 2int,
    {
        let ast::TypeBody { name: local_name, comment, members } = self;
        let (fields, codes, options, decls) = match members_into_model(scope, members) {
            Ok(parts) => parts,
            Err(e) => {
                return Err(e);
            },
        };
        let reserved = match find_all_identifiers(&options, "reserved") {
            Ok(reserved) => reserved,
            Err(e) => {
                return Err(e);
            },
        };
        proof {
            crate::bodies::lemma_decls_view(decls);
        }
        Ok(
            RpTypeBody {
                name: scope.as_name(),
                local_name,
                comment,
                decls,
                fields,
                codes,
                reserved,
            },
        )
    }
}

impl ast::TupleBody {
    /// Convert the tuple declaration under its own scope.
    pub fn into_model(self, scope: &Scope) -> (r: Result<RpTupleBody, Error>)
        ensures
            r is Ok <==> spec_tuple_body_model(scope@, self) is Some,
            r matches Ok(v) ==> Some(v@) == spec_tuple_body_model(scope@, self),
            spec_converted_fields(scope@, self.members@) is Some && spec_inner_decls(
                scope@,
                self.members@,
            ) is Some && !spec_fields_unique(
                spec_converted_fields(scope@, self.members@).unwrap(),
            ) ==> (r matches Err(e) && spec_field_conflict_reported(
                spec_converted_fields(scope@, self.members@).unwrap(),
                e,
            )),
        decreases self, 2int,
    {
        let ast::TupleBody { name: local_name, comment, members } = self;
        let (fields, codes, _options, decls) = match members_into_model(scope, members) {
            Ok(parts) => parts,
            Err(e) => {
                return Err(e);
            },
        };
        proof {
            crate::bodies::lemma_decls_view(decls);
        }
        Ok(RpTupleBody { name: scope.as_name(), local_name, comment, decls, fields, codes })
    }
}

} // verus!

// === sixth stage: enums, interfaces and services ===

verus! {

/// Whether the error reports a variant conflict between two variants of
/// the list: the earlier one's position first.
pub open spec fn spec_variant_conflict_reported(
    variants: Seq<LocView<EnumVariantView>>,
    e: Error,
) -> bool {
    e matches Error::EnumVariantConflict(p_old, p_new) && exists|k1: int, k2: int|
        0 <= k1 < k2 < variants.len() && variants[k1].value.local_name.value == variants[
            k2
        ].value.local_name.value && p_old == variants[k1].value.local_name.pos && p_new
            == variants[k2].value.local_name.pos
}

impl ast::EnumVariant {
    /// Convert one variant under the enum's scope: an explicit value must
    /// fit the declared enum type.
    pub fn into_model(self, scope: &Scope, ty: RpEnumType) -> (r: Result<RpEnumVariant, Error>)
        ensures
            r is Ok <==> spec_variant_model(scope@, ty, self) is Some,
            r matches Ok(v) ==> Some(v@) == spec_variant_model(scope@, ty, self),
            r matches Err(e) ==> e is UnexpectedEnumValue,
    {
        let ast::EnumVariant { name, comment, argument } = self;
        let ordinal = match argument {
            None => RpEnumOrdinal::Generated,
            Some(value) => {
                let pos = value.pos;
                match (ty, value.value) {
                    (RpEnumType::String, RpValue::String(s)) => RpEnumOrdinal::String(s),
                    _ => {
                        return Err(Error::UnexpectedEnumValue(pos));
                    },
                }
            },
        };
        let base = scope.as_name();
        let qualified = base.push(clone_string(&name.value));
        Ok(RpEnumVariant { name: qualified, local_name: name, comment, ordinal })
    }
}

impl ast::EnumBody {
    /// Convert the enum declaration under its own scope: it may hold no
    /// fields, its value type must be `string` or absent, and no two
    /// variants may share a local name.
    #[verifier::loop_isolation(false)]
    #[verifier::rlimit(10)]
    pub fn into_model(self, scope: &Scope) -> (r: Result<RpEnumBody, Error>)
        ensures
            r is Ok <==> spec_enum_body_model(scope@, self) is Some,
            r matches Ok(v) ==> Some(v@) == spec_enum_body_model(scope@, self),
            spec_converted_fields(scope@, self.members@) is Some && spec_converted_fields(
                scope@,
                self.members@,
            ).unwrap().len() == 0 && spec_inner_decls(scope@, self.members@) is Some
                && spec_enum_type_model(scope@, self.ty) is Some && spec_variants_model(
                scope@,
                spec_enum_type_model(scope@, self.ty).unwrap(),
                self.variants@,
            ) is Some && !spec_variants_unique(
                spec_variants_model(
                    scope@,
                    spec_enum_type_model(scope@, self.ty).unwrap(),
                    self.variants@,
                ).unwrap(),
            ) ==> (r matches Err(e) && spec_variant_conflict_reported(
                spec_variants_model(
                    scope@,
                    spec_enum_type_model(scope@, self.ty).unwrap(),
                    self.variants@,
                ).unwrap(),
                e,
            )),
        decreases self, 2int,
    {
        let ast::EnumBody { name: local_name, comment, ty, variants, members } = self;
        let (fields, codes, _options, decls) = match members_into_model(scope, members) {
            Ok(parts) => parts,
            Err(e) => {
                return Err(e);
            },
        };
        if fields.len() > 0 {
            return Err(Error::EnumFieldsNotSupported);
        }
        let variant_type = match ty {
            None => RpEnumType::Generated,
            Some(t) => match t.value.into_model(scope) {
                Ok(RpType::String) => RpEnumType::String,
                Ok(_) => {
                    return Err(Error::InvalidEnumVariantType);
                },
                Err(_) => {
                    return Err(Error::InvalidEnumVariantType);
                },
            },
        };
        let ghost all = variants@;
        let ghost sv = scope@;
        let mut remaining = variants;
        let total = remaining.len();
        let mut out: Vec<Loc<RpEnumVariant>> = Vec::new();
        proof {
            assert(all.len() == total);
            assert(all.skip(0) =~= all);
        }
        let mut i: usize = 0;
        while remaining.len() > 0
            invariant
                i + remaining@.len() == all.len(),
                remaining@ =~= all.skip(i as int),
                spec_variants_model(sv, variant_type, all) == match spec_variants_model(
                    sv,
                    variant_type,
                    all.skip(i as int),
                ) {
                    Some(r) => Some(out.deep_view() + r),
                    None => None::<Seq<LocView<EnumVariantView>>>,
                },
                spec_variants_unique(out.deep_view()),
            decreases remaining@.len(),
        {
            let ghost suffix = all.skip(i as int);
            proof {
                assert(suffix[0] == all[i as int]);
                assert(suffix.subrange(1, suffix.len() as int) =~= all.skip(i + 1));
            }
            let variant = remaining.remove(0);
            let pos = variant.pos;
            let converted = match variant.value.into_model(scope, variant_type) {
                Ok(converted) => converted,
                Err(e) => {
                    return Err(e);
                },
            };
            let mut k: usize = 0;
            while k < out.len()
                invariant
                    k <= out@.len(),
                    forall|k1: int|
                        0 <= k1 < k ==> out.deep_view()[k1].value.local_name.value
                            != converted@.local_name.value,
                decreases out@.len() - k,
            {
                if out[k].value.local_name.value.eq(&converted.local_name.value) {
                    proof {
                        let full = spec_variants_model(sv, variant_type, all);
                        if full is Some {
                            let fullseq = full.unwrap();
                            assert(fullseq[k as int] == out.deep_view()[k as int]);
                            assert(fullseq[out@.len() as int] == LocView {
                                value: converted@,
                                pos: pos,
                            });
                        }
                    }
                    return Err(
                        Error::EnumVariantConflict(
                            out[k].value.local_name.pos,
                            converted.local_name.pos,
                        ),
                    );
                }
                k = k + 1;
            }
            let ghost pre = out.deep_view();
            out.push(Loc { value: converted, pos });
            proof {
                assert(out.deep_view() =~= pre.push(LocView { value: converted@, pos: pos }));
                match spec_variants_model(sv, variant_type, all.skip(i + 1)) {
                    Some(rv) => {
                        assert(pre.push(LocView { value: converted@, pos: pos }) + rv =~= pre + (
                        seq![LocView { value: converted@, pos: pos }] + rv));
                    },
                    None => {},
                }
            }
            i = i + 1;
        }
        proof {
            assert(all.skip(all.len() as int) =~= Seq::<Loc<ast::EnumVariant>>::empty());
            assert(out.deep_view() + Seq::<LocView<EnumVariantView>>::empty() =~= out.deep_view());
        }
        proof {
            crate::bodies::lemma_decls_view(decls);
        }
        Ok(
            RpEnumBody {
                name: scope.as_name(),
                local_name,
                comment,
                decls,
                variant_type,
                variants: out,
                codes,
            },
        )
    }
}

impl ast::SubType {
    /// Convert one sub-type fragment under the interface's scope.
    pub fn into_model(self, scope: &Scope) -> (r: Result<RpSubType, Error>)
        ensures
            r is Ok <==> spec_sub_type_model(scope@, self) is Some,
            r matches Ok(v) ==> Some(v@) == spec_sub_type_model(scope@, self),
            spec_converted_fields(scope@, self.members@) is Some && spec_inner_decls(
                scope@,
                self.members@,
            ) is Some && !spec_fields_unique(
                spec_converted_fields(scope@, self.members@).unwrap(),
            ) ==> (r matches Err(e) && spec_field_conflict_reported(
                spec_converted_fields(scope@, self.members@).unwrap(),
                e,
            )),
        decreases self, 2int,
    {
        let ast::SubType { name: local_name, comment, members } = self;
        let (fields, codes, options, decls) = match members_into_model(scope, members) {
            Ok(parts) => parts,
            Err(e) => {
                return Err(e);
            },
        };
        let names = match find_all_strings(&options, "name") {
            Ok(names) => names,
            Err(e) => {
                return Err(e);
            },
        };
        let base = scope.as_name();
        let qualified = base.push(clone_string(&local_name));
        proof {
            crate::bodies::lemma_decls_view(decls);
        }
        Ok(RpSubType { name: qualified, local_name, comment, decls, fields, codes, names })
    }
}

} // verus!

// === seventh stage: interfaces, services, declarations and files ===

verus! {

/// Inserting a sub-type that matches the entry at `m` merges it there.
proof fn lemma_insert_found(acc: Seq<LocView<SubTypeView>>, s: LocView<SubTypeView>, m: int)
    requires
        0 <= m < acc.len(),
        acc[m].value.local_name == s.value.local_name,
        forall|j: int| 0 <= j < m ==> acc[j].value.local_name != s.value.local_name,
    ensures
        spec_insert_sub_type(acc, s) == match spec_merge_two(acc[m], s) {
            Some(merged) => Some(acc.update(m, merged)),
            None => None::<Seq<LocView<SubTypeView>>>,
        },
    decreases m,
{
    if m == 0 {
        match spec_merge_two(acc[0], s) {
            Some(merged) => {
                assert(seq![merged] + acc.subrange(1, acc.len() as int) =~= acc.update(0, merged));
            },
            None => {},
        }
    } else {
        let rest = acc.subrange(1, acc.len() as int);
        lemma_insert_found(rest, s, m - 1);
        assert(rest[m - 1] == acc[m]);
        match spec_merge_two(acc[m], s) {
            Some(merged) => {
                assert(seq![acc[0]] + rest.update(m - 1, merged) =~= acc.update(m, merged));
            },
            None => {},
        }
    }
}

/// Inserting a sub-type that matches no entry appends it.
proof fn lemma_insert_missing(acc: Seq<LocView<SubTypeView>>, s: LocView<SubTypeView>)
    requires
        forall|j: int| 0 <= j < acc.len() ==> acc[j].value.local_name != s.value.local_name,
    ensures
        spec_insert_sub_type(acc, s) == Some(acc.push(s)),
    decreases acc.len(),
{
    if acc.len() == 0 {
        assert(seq![s] =~= acc.push(s));
    } else {
        let rest = acc.subrange(1, acc.len() as int);
        lemma_insert_missing(rest, s);
        assert(seq![acc[0]] + rest.push(s) =~= acc.push(s));
    }
}

/// Convert the declared sub-type fragments in order.
#[verifier::loop_isolation(false)]
#[verifier::rlimit(20)]
fn convert_sub_types(scope: &Scope, sub_types: Vec<Loc<ast::SubType>>) -> (r: Result<
    Vec<Loc<RpSubType>>,
    Error,
>)
    ensures
        r is Ok <==> spec_sub_types_model(scope@, sub_types@) is Some,
        r matches Ok(v) ==> Some(v.deep_view()) == spec_sub_types_model(scope@, sub_types@),
    decreases sub_types, 0int,
{
    let ghost entry_subs = sub_types@;
    let ghost sv = scope@;
    let mut remaining = sub_types;
    let total = remaining.len();
    let mut converted: Vec<Loc<RpSubType>> = Vec::new();
    proof {
        assert(entry_subs.len() == total);
        assert(entry_subs.skip(0) =~= entry_subs);
    }
    let mut i: usize = 0;
    while remaining.len() > 0
        invariant
            i + remaining@.len() == entry_subs.len(),
            remaining@ =~= entry_subs.skip(i as int),
            spec_sub_types_model(sv, entry_subs) == match spec_sub_types_model(
                sv,
                entry_subs.skip(i as int),
            ) {
                Some(r) => Some(converted.deep_view() + r),
                None => None::<Seq<LocView<SubTypeView>>>,
            },
        decreases remaining@.len(),
    {
        let ghost suffix = entry_subs.skip(i as int);
        proof {
            assert(suffix[0] == entry_subs[i as int]);
            assert(suffix.subrange(1, suffix.len() as int) =~= entry_subs.skip(i + 1));
            assert(decreases_to!(entry_subs => entry_subs[i as int]));
            assert(decreases_to!(entry_subs[i as int] => entry_subs[i as int].value));
        }
        let sub = remaining.remove(0);
        let pos = sub.pos;
        let sub = match sub.value.into_model(scope) {
            Ok(sub) => sub,
            Err(e) => {
                return Err(e);
            },
        };
        let ghost pre = converted.deep_view();
        converted.push(Loc { value: sub, pos });
        proof {
            assert(converted.deep_view() =~= pre.push(LocView { value: sub@, pos: pos }));
            match spec_sub_types_model(sv, entry_subs.skip(i + 1)) {
                Some(rv) => {
                    assert(pre.push(LocView { value: sub@, pos: pos }) + rv =~= pre + (
                    seq![LocView { value: sub@, pos: pos }] + rv));
                },
                None => {},
            }
        }
        i = i + 1;
    }
    proof {
        assert(entry_subs.skip(entry_subs.len() as int) =~= Seq::<Loc<ast::SubType>>::empty());
        assert(converted.deep_view() + Seq::<LocView<SubTypeView>>::empty() =~= converted
            .deep_view());
    }
    Ok(converted)
}

/// Merge fragments with the same local name, in first-occurrence order: a
/// field collision between two fragments of one sub-type is an error.
#[verifier::loop_isolation(false)]
#[verifier::rlimit(20)]
fn merge_sub_type_fragments(converted: Vec<Loc<RpSubType>>) -> (r: Result<
    Vec<Loc<RpSubType>>,
    Error,
>)
    ensures
        r is Ok <==> spec_merge_fold(Seq::empty(), converted.deep_view()) is Some,
        r matches Ok(v) ==> Some(v.deep_view()) == spec_merge_fold(
            Seq::empty(),
            converted.deep_view(),
        ),
        r matches Err(e) ==> e is FieldConflict,
{
    let ghost all_views = converted.deep_view();
    let mut rest = converted;
    let rest_total = rest.len();
    let mut merged: Vec<Loc<RpSubType>> = Vec::new();
    proof {
        assert(all_views.len() == rest_total);
        assert(all_views.skip(0) =~= all_views);
        assert(merged.deep_view() =~= Seq::<LocView<SubTypeView>>::empty());
    }
    let mut i: usize = 0;
    while rest.len() > 0
        invariant
            i + rest@.len() == all_views.len(),
            rest.deep_view() =~= all_views.skip(i as int),
            spec_merge_fold(Seq::empty(), all_views) == spec_merge_fold(
                merged.deep_view(),
                all_views.skip(i as int),
            ),
        decreases rest@.len(),
    {
        let ghost suffix = all_views.skip(i as int);
        proof {
            assert(suffix[0] == all_views[i as int]);
            assert(suffix.subrange(1, suffix.len() as int) =~= all_views.skip(i + 1));
            assert(rest.deep_view()[0] == rest@[0]@);
        }
        let item = rest.remove(0);
        proof {
            assert(rest.deep_view() =~= all_views.skip(i + 1));
        }
        let mut m: usize = 0;
        let mut found: Option<usize> = None;
        while m < merged.len()
            invariant
                m <= merged@.len(),
                match found {
                    Some(f) => f < m && merged.deep_view()[f as int].value.local_name
                        == item@.value.local_name,
                    None => forall|j: int|
                        0 <= j < m ==> merged.deep_view()[j].value.local_name
                            != item@.value.local_name,
                },
                found is Some ==> forall|j: int|
                    0 <= j < found.unwrap() ==> merged.deep_view()[j].value.local_name
                        != item@.value.local_name,
            decreases merged@.len() - m,
        {
            if found.is_none() && merged[m].value.local_name.eq(&item.value.local_name) {
                found = Some(m);
            }
            m = m + 1;
        }
        match found {
            Some(f) => {
                let ghost pre_merged = merged.deep_view();
                let mut target = merged.remove(f);
                let merge_result = target.value.merge(item.value);
                merged.insert(f, target);
                proof {
                    lemma_insert_found(pre_merged, all_views[i as int], f as int);
                }
                match merge_result {
                    Ok(()) => {
                        proof {
                            assert(spec_merge_two(pre_merged[f as int], all_views[i as int])
                                matches Some(mg) && merged.deep_view() =~= pre_merged.update(
                                f as int,
                                mg,
                            ));
                        }
                    },
                    Err(e) => {
                        proof {
                            assert(spec_merge_two(pre_merged[f as int], all_views[i as int])
                                is None);
                            assert(spec_merge_fold(Seq::empty(), all_views) is None);
                        }
                        return Err(e);
                    },
                }
            },
            None => {
                let ghost pre_merged = merged.deep_view();
                merged.push(item);
                proof {
                    lemma_insert_missing(pre_merged, all_views[i as int]);
                    assert(merged.deep_view() =~= pre_merged.push(all_views[i as int]));
                }
            },
        }
        i = i + 1;
    }
    proof {
        assert(all_views.skip(all_views.len() as int) =~= Seq::<LocView<SubTypeView>>::empty());
        assert(spec_merge_fold(Seq::empty(), all_views) == Some(merged.deep_view()));
    }
    Ok(merged)
}

/// Check that every merged sub-type's own fields stay clear of the
/// interface's common fields.
#[verifier::loop_isolation(false)]
#[verifier::rlimit(20)]
fn check_clear_of_common(fields: &Vec<Loc<RpField>>, merged: &Vec<Loc<RpSubType>>) -> (r: Result<
    (),
    Error,
>)
    ensures
        r is Ok <==> (forall|k: int|
            0 <= k < merged.deep_view().len() ==> spec_sub_type_clear_of(
                fields.deep_view(),
                merged.deep_view()[k].value,
            )),
        r matches Err(e) ==> e is FieldConflict,
{
    let mut k: usize = 0;
    while k < merged.len()
        invariant
            k <= merged@.len(),
            forall|j: int|
                0 <= j < k ==> spec_sub_type_clear_of(
                    fields.deep_view(),
                    merged.deep_view()[j].value,
                ),
        decreases merged@.len() - k,
    {
        let mut c: usize = 0;
        while c < fields.len()
            invariant
                c <= fields@.len(),
                k < merged@.len(),
                forall|a: int, b: int|
                    0 <= a < c && 0 <= b < merged.deep_view()[k as int].value.fields.len()
                        ==> !spec_fields_conflict(
                        fields.deep_view()[a].value,
                        merged.deep_view()[k as int].value.fields[b].value,
                    ),
            decreases fields@.len() - c,
        {
            if let Some(b) = find_conflicting_field(&merged[k].value.fields, &fields[c].value) {
                proof {
                    assert(merged.deep_view()[k as int].value.fields[b as int].value == merged@[
                        k as int
                    ].value.fields@[b as int]@.value);
                    assert(fields.deep_view()[c as int].value == fields@[c as int]@.value);
                    assert(spec_fields_conflict(
                        fields.deep_view()[c as int].value,
                        merged.deep_view()[k as int].value.fields[b as int].value,
                    ));
                    assert(!spec_sub_type_clear_of(
                        fields.deep_view(),
                        merged.deep_view()[k as int].value,
                    ));
                }
                let ident = clone_string(fields[c].value.ident());
                return Err(
                    Error::FieldConflict(ident, merged[k].value.fields[b].pos, fields[c].pos),
                );
            }
            proof {
                assert forall|b: int|
                    0 <= b < merged.deep_view()[k as int].value.fields.len()
                        implies !spec_fields_conflict(
                    fields.deep_view()[c as int].value,
                    merged.deep_view()[k as int].value.fields[b].value,
                ) by {
                    assert(merged@[k as int]@.value.fields[b].value == merged@[
                        k as int
                    ].value.fields@[b]@.value);
                }
            }
            c = c + 1;
        }
        k = k + 1;
    }
    Ok(())
}

impl ast::InterfaceBody {
    /// Convert the interface declaration under its own scope: sub-type
    /// fragments with the same local name merge, and each final sub-type's
    /// own fields must stay clear of the interface's common fields.
    #[verifier::rlimit(20)]
    pub fn into_model(self, scope: &Scope) -> (r: Result<RpInterfaceBody, Error>)
        ensures
            r is Ok <==> spec_interface_body_model(scope@, self) is Some,
            r matches Ok(v) ==> Some(v@) == spec_interface_body_model(scope@, self),
            spec_converted_fields(scope@, self.members@) is Some && spec_inner_decls(
                scope@,
                self.members@,
            ) is Some && !spec_fields_unique(
                spec_converted_fields(scope@, self.members@).unwrap(),
            ) ==> (r matches Err(e) && spec_field_conflict_reported(
                spec_converted_fields(scope@, self.members@).unwrap(),
                e,
            )),
            spec_members_ok(scope@, self.members@) && spec_sub_types_model(scope@, self.sub_types@)
                is Some && spec_merge_fold(
                Seq::empty(),
                spec_sub_types_model(scope@, self.sub_types@).unwrap(),
            ) is None ==> (r matches Err(e) && e is FieldConflict),
            spec_members_ok(scope@, self.members@) && spec_sub_types_model(scope@, self.sub_types@)
                is Some && spec_merge_fold(
                Seq::empty(),
                spec_sub_types_model(scope@, self.sub_types@).unwrap(),
            ) is Some && spec_interface_body_model(scope@, self) is None ==> (r matches Err(e)
                && e is FieldConflict),
        decreases self, 2int,
    {
        let ast::InterfaceBody { name: local_name, comment, members, sub_types } = self;
        let (fields, codes, _options, decls) = match members_into_model(scope, members) {
            Ok(parts) => parts,
            Err(e) => {
                return Err(e);
            },
        };
        let converted = match convert_sub_types(scope, sub_types) {
            Ok(converted) => converted,
            Err(e) => {
                return Err(e);
            },
        };
        let merged = match merge_sub_type_fragments(converted) {
            Ok(merged) => merged,
            Err(e) => {
                return Err(e);
            },
        };
        match check_clear_of_common(&fields, &merged) {
            Ok(()) => {},
            Err(e) => {
                return Err(e);
            },
        }
        proof {
            crate::bodies::lemma_decls_view(decls);
            crate::bodies::lemma_sub_types_view(merged);
        }
        Ok(
            RpInterfaceBody {
                name: scope.as_name(),
                local_name,
                comment,
                decls,
                fields,
                codes,
                sub_types: merged,
            },
        )
    }
}

impl ast::Decl {
    /// Convert the declaration: its body converts under a child scope named
    /// after it.
    pub fn into_model(self, scope: &Scope) -> (r: Result<RpDecl, Error>)
        ensures
            r is Ok <==> spec_decl_model(scope@, self) is Some,
            r matches Ok(v) ==> Some(v@) == spec_decl_model(scope@, self),
        decreases self, 3int,
    {
        let child = scope.child(clone_string(self.name()));
        match self {
            ast::Decl::Type(body) => match body.into_model(&child) {
                Ok(body) => Ok(RpDecl::Type(body)),
                Err(e) => Err(e),
            },
            ast::Decl::Interface(body) => match body.into_model(&child) {
                Ok(body) => Ok(RpDecl::Interface(body)),
                Err(e) => Err(e),
            },
            ast::Decl::Enum(body) => match body.into_model(&child) {
                Ok(body) => Ok(RpDecl::Enum(body)),
                Err(e) => Err(e),
            },
            ast::Decl::Tuple(body) => match body.into_model(&child) {
                Ok(body) => Ok(RpDecl::Tuple(body)),
                Err(e) => Err(e),
            },
            ast::Decl::Service(body) => match body.into_model(&child) {
                Ok(body) => Ok(RpDecl::Service(body)),
                Err(e) => Err(e),
            },
        }
    }
}

} // verus!

// === eighth stage: paths, services and files ===

use crate::bodies::{RpFile, ServiceEndpointView};

verus! {

impl ast::PathSegment {
    /// Convert one path segment.
    pub fn into_model(self, scope: &Scope) -> (r: Result<RpPathSegment, Error>)
        ensures
            ({
                let single = spec_segments_model(scope@, seq![self]);
                &&& r is Ok <==> single is Some
                &&& r matches Ok(v) ==> Some(seq![v@]) == single
                &&& r matches Err(e) ==> e is MissingPrefix
            }),
    {
        proof {
            assert(seq![self].subrange(1, 1) =~= Seq::<ast::PathSegment>::empty());
            assert(seq![self][0] == self);
            assert(spec_segments_model(scope@, Seq::<ast::PathSegment>::empty()) == Some(
                Seq::<crate::bodies::PathSegmentView>::empty(),
            ));
        }
        match self {
            ast::PathSegment::Literal { value } => {
                let r = RpPathSegment::Literal { value };
                proof {
                    assert(seq![r@] + Seq::<crate::bodies::PathSegmentView>::empty() =~= seq![r@]);
                    assert(spec_segments_model(scope@, seq![self]) == Some(seq![r@]));
                }
                Ok(r)
            },
            ast::PathSegment::Variable { name, ty } => {
                let pos = ty.pos;
                match ty.value.into_model(scope) {
                    Ok(tv) => {
                        let r = RpPathSegment::Variable { name, ty: Loc { value: tv, pos } };
                        proof {
                            assert(seq![r@] + Seq::<crate::bodies::PathSegmentView>::empty()
                                =~= seq![r@]);
                            assert(spec_segments_model(scope@, seq![self]) == Some(seq![r@]));
                        }
                        Ok(r)
                    },
                    Err(e) => Err(e),
                }
            },
        }
    }
}

/// Splitting off the first segment splits its model.
proof fn lemma_segments_cons(sv: ScopeView, segments: Seq<ast::PathSegment>)
    requires
        segments.len() > 0,
    ensures
        spec_segments_model(sv, segments) == match (
            spec_segments_model(sv, seq![segments[0]]),
            spec_segments_model(sv, segments.subrange(1, segments.len() as int)),
        ) {
            (Some(h), Some(t)) => Some(h + t),
            _ => None::<Seq<crate::bodies::PathSegmentView>>,
        },
{
    assert(seq![segments[0]].subrange(1, 1) =~= Seq::<ast::PathSegment>::empty());
    assert(seq![segments[0]][0] == segments[0]);
    assert(spec_segments_model(sv, Seq::<ast::PathSegment>::empty()) == Some(
        Seq::<crate::bodies::PathSegmentView>::empty(),
    ));
    match segments[0] {
        ast::PathSegment::Literal { value } => {
            match spec_segments_model(sv, segments.subrange(1, segments.len() as int)) {
                Some(t) => {
                    assert(seq![crate::bodies::PathSegmentView::Literal { value: value@ }] + t
                        =~= (seq![crate::bodies::PathSegmentView::Literal { value: value@ }]
                        + Seq::<crate::bodies::PathSegmentView>::empty()) + t);
                },
                None => {},
            }
        },
        ast::PathSegment::Variable { name, ty } => {
            match (
                spec_type_model(sv, ty.value),
                spec_segments_model(sv, segments.subrange(1, segments.len() as int)),
            ) {
                (Some(tv), Some(t)) => {
                    let head = crate::bodies::PathSegmentView::Variable {
                        name: name@,
                        ty: LocView { value: tv, pos: ty.pos },
                    };
                    assert(seq![head] + t =~= (seq![head]
                        + Seq::<crate::bodies::PathSegmentView>::empty()) + t);
                },
                _ => {},
            }
        },
    }
}

impl ast::PathSpec {
    /// Convert a path: every segment in order.
    #[verifier::loop_isolation(false)]
    #[verifier::rlimit(10)]
    pub fn into_model(self, scope: &Scope) -> (r: Result<RpPathSpec, Error>)
        ensures
            r is Ok <==> spec_segments_model(scope@, self.segments@) is Some,
            r matches Ok(v) ==> Some(v@) == spec_segments_model(scope@, self.segments@),
            r matches Err(e) ==> e is MissingPrefix,
    {
        let ghost all = self.segments@;
        let ghost sv = scope@;
        let mut remaining = self.segments;
        let total = remaining.len();
        let mut out: Vec<RpPathSegment> = Vec::new();
        proof {
            assert(all.len() == total);
            assert(all.skip(0) =~= all);
        }
        let mut i: usize = 0;
        while remaining.len() > 0
            invariant
                i + remaining@.len() == all.len(),
                remaining@ =~= all.skip(i as int),
                spec_segments_model(sv, all) == match spec_segments_model(
                    sv,
                    all.skip(i as int),
                ) {
                    Some(r) => Some(out.deep_view() + r),
                    None => None::<Seq<crate::bodies::PathSegmentView>>,
                },
            decreases remaining@.len(),
        {
            let ghost suffix = all.skip(i as int);
            proof {
                assert(suffix[0] == all[i as int]);
                assert(suffix.subrange(1, suffix.len() as int) =~= all.skip(i + 1));
                lemma_segments_cons(sv, suffix);
            }
            let segment = remaining.remove(0);
            let converted = match segment.into_model(scope) {
                Ok(converted) => converted,
                Err(e) => {
                    return Err(e);
                },
            };
            let ghost pre = out.deep_view();
            out.push(converted);
            proof {
                assert(out.deep_view() =~= pre.push(converted@));
                match spec_segments_model(sv, all.skip(i + 1)) {
                    Some(rv) => {
                        assert(pre.push(converted@) + rv =~= pre + (seq![converted@] + rv));
                    },
                    None => {},
                }
            }
            i = i + 1;
        }
        proof {
            assert(all.skip(all.len() as int) =~= Seq::<ast::PathSegment>::empty());
            assert(out.deep_view() + Seq::<crate::bodies::PathSegmentView>::empty() =~= out
                .deep_view());
        }
        Ok(RpPathSpec { segments: out })
    }
}

/// Clone converted path segments, keeping their views.
pub fn clone_segments(segments: &Vec<RpPathSegment>) -> (r: Vec<RpPathSegment>)
    ensures
        r.deep_view() == segments.deep_view(),
{
    let mut out: Vec<RpPathSegment> = Vec::new();
    let mut i: usize = 0;
    while i < segments.len()
        invariant
            i <= segments@.len(),
            out@.len() == i,
            forall|j: int| 0 <= j < i ==> #[trigger] out@[j]@ == segments@[j]@,
        decreases segments@.len() - i,
    {
        let copy = match &segments[i] {
            RpPathSegment::Literal { value } => RpPathSegment::Literal {
                value: clone_loc_string(value),
            },
            RpPathSegment::Variable { name, ty } => RpPathSegment::Variable {
                name: clone_loc_string(name),
                ty: Loc { value: ty.value.clone(), pos: ty.pos },
            },
        };
        out.push(copy);
        i = i + 1;
    }
    proof {
        assert(out.deep_view() =~= segments.deep_view());
    }
    out
}

/// The view of the executable walk queue.
pub open spec fn spec_exec_queue(
    q: Seq<(Vec<RpPathSegment>, Vec<ast::ServiceNested>)>,
) -> ServiceQueue {
    Seq::new(q.len(), |i: int| (q[i].0.deep_view(), q[i].1@))
}

impl ast::ServiceBody {
    /// Convert the service declaration under its own scope: endpoints are
    /// collected by a breadth-first walk of the nested path segments, each
    /// endpoint's full path being the concatenation of its ancestors' path
    /// segments and its own.
    #[verifier::loop_isolation(false)]
    #[verifier::rlimit(10)]
    pub fn into_model(self, scope: &Scope) -> (r: Result<RpServiceBody, Error>)
        ensures
            r is Ok <==> spec_service_body_model(scope@, self) is Some,
            r matches Ok(v) ==> Some(v@) == spec_service_body_model(scope@, self),
    {
        let ghost sv = scope@;
        let ghost root_children = self.children@;
        let ast::ServiceBody { name: local_name, comment, children } = self;
        let mut queue: Vec<(Vec<RpPathSegment>, Vec<ast::ServiceNested>)> = Vec::new();
        let empty_path: Vec<RpPathSegment> = Vec::new();
        proof {
            assert(empty_path.deep_view() =~= Seq::<crate::bodies::PathSegmentView>::empty());
        }
        queue.push((empty_path, children));
        let ghost initial = seq![
            (Seq::<crate::bodies::PathSegmentView>::empty(), root_children),
        ];
        let mut endpoints: Vec<RpServiceEndpoint> = Vec::new();
        proof {
            assert(spec_exec_queue(queue@) =~= initial);
        }
        while queue.len() > 0
            invariant
                spec_service_endpoints(sv, initial) == match spec_service_endpoints(
                    sv,
                    spec_exec_queue(queue@),
                ) {
                    Some(r) => Some(endpoints.deep_view() + r),
                    None => None::<Seq<ServiceEndpointView>>,
                },
            decreases spec_queue_size(spec_exec_queue(queue@)), queue@.len(),
        {
            let ghost q_pre = spec_exec_queue(queue@);
            let (path, mut kids) = queue.remove(0);
            let ghost rest_q = q_pre.subrange(1, q_pre.len() as int);
            proof {
                assert(spec_exec_queue(queue@) =~= rest_q);
                assert(q_pre[0] == (path.deep_view(), kids@));
            }
            if kids.len() == 0 {
                proof {
                    assert(spec_queue_size(q_pre) == spec_nested_list_size(kids@)
                        + spec_queue_size(rest_q));
                }
                continue ;
            }
            let ghost kids_pre = kids@;
            let child = kids.remove(0);
            let ghost tail = (path.deep_view(), kids_pre.subrange(1, kids_pre.len() as int));
            proof {
                assert(kids@ =~= kids_pre.subrange(1, kids_pre.len() as int));
                assert(spec_queue_size(q_pre) == spec_nested_list_size(kids_pre)
                    + spec_queue_size(rest_q));
                assert(spec_nested_list_size(kids_pre) == spec_nested_size(kids_pre[0])
                    + spec_nested_list_size(kids_pre.subrange(1, kids_pre.len() as int)));
                lemma_queue_size_single(tail);
                lemma_queue_size_concat(seq![tail], rest_q);
            }
            let path_copy = clone_segments(&path);
            queue.insert(0, (path, kids));
            proof {
                assert(spec_exec_queue(queue@) =~= seq![tail] + rest_q);
            }
            match child {
                ast::ServiceNested::Segment { path: seg_path, children: grandchildren } => {
                    let converted = match seg_path.value.into_model(scope) {
                        Ok(converted) => converted,
                        Err(e) => {
                            return Err(e);
                        },
                    };
                    let mut new_path = path_copy;
                    let ghost segs = converted@;
                    crate::bodies::append_all(&mut new_path, converted.segments);
                    let ghost added = (tail.0 + segs, grandchildren@);
                    queue.push((new_path, grandchildren));
                    proof {
                        assert(spec_exec_queue(queue@) =~= (seq![tail] + rest_q) + seq![added]);
                        lemma_queue_size_single(added);
                        lemma_queue_size_concat(seq![tail] + rest_q, seq![added]);
                        assert(spec_queue_size(spec_exec_queue(queue@)) < spec_queue_size(q_pre));
                    }
                },
                ast::ServiceNested::Endpoint {
                    comment: ep_comment,
                    method,
                    path: own_path,
                    default_name,
                    options: _,
                    entries,
                } => {
                    let own = match own_path {
                        None => RpPathSpec { segments: Vec::new() },
                        Some(p) => match p.value.into_model(scope) {
                            Ok(own) => own,
                            Err(e) => {
                                return Err(e);
                            },
                        },
                    };
                    let entry_parts = match service_entries(scope, &default_name, entries) {
                        Ok(parts) => parts,
                        Err(e) => {
                            return Err(e);
                        },
                    };
                    let (accs, rets) = entry_parts;
                    let mut full_path = path_copy;
                    crate::bodies::append_all(&mut full_path, own.segments);
                    let endpoint = RpServiceEndpoint {
                        comment: ep_comment,
                        method,
                        path: RpPathSpec { segments: full_path },
                        accepts: accs,
                        returns: rets,
                    };
                    let ghost pre = endpoints.deep_view();
                    endpoints.push(endpoint);
                    proof {
                        assert(endpoints.deep_view() =~= pre.push(endpoint@));
                        match spec_service_endpoints(sv, spec_exec_queue(queue@)) {
                            Some(rv) => {
                                assert(pre.push(endpoint@) + rv =~= pre + (seq![endpoint@] + rv));
                            },
                            None => {},
                        }
                        assert(spec_queue_size(spec_exec_queue(queue@)) < spec_queue_size(q_pre));
                    }
                },
            }
        }
        proof {
            assert(spec_exec_queue(queue@) =~= Seq::<(
                Seq<crate::bodies::PathSegmentView>,
                Seq<ast::ServiceNested>,
            )>::empty());
            assert(endpoints.deep_view() + Seq::<ServiceEndpointView>::empty() =~= endpoints
                .deep_view());
        }
        let no_decls: Vec<Loc<RpDecl>> = Vec::new();
        proof {
            crate::bodies::lemma_decls_view(no_decls);
            assert(no_decls.deep_view() =~= Seq::<LocView<DeclView>>::empty());
        }
        Ok(
            RpServiceBody {
                name: scope.as_name(),
                local_name,
                comment,
                decls: no_decls,
                endpoints,
            },
        )
    }
}

/// The models of a file's declarations, in order; no result when one does
/// not convert.
pub open spec fn spec_file_decls(sv: ScopeView, decls: Seq<Loc<ast::Decl>>) -> Option<
    Seq<LocView<DeclView>>,
>
    decreases decls.len(),
{
    if decls.len() == 0 {
        Some(Seq::empty())
    } else {
        let rest = spec_file_decls(sv, decls.subrange(1, decls.len() as int));
        match (spec_decl_model(sv, decls[0].value), rest) {
            (Some(dv), Some(rv)) => Some(seq![LocView { value: dv, pos: decls[0].pos }] + rv),
            _ => None,
        }
    }
}

impl ast::File {
    /// Convert a whole parsed file under its root scope.
    #[verifier::loop_isolation(false)]
    #[verifier::rlimit(10)]
    pub fn into_model(self, scope: &Scope) -> (r: Result<RpFile, Error>)
        ensures
            r is Ok <==> spec_file_decls(scope@, self.decls@) is Some,
            r matches Ok(v) ==> Some(crate::bodies::spec_decls_view(v.decls@)) == spec_file_decls(
                scope@,
                self.decls@,
            ) && v.options.deep_view() == spec_file_options(self.options@),
    {
        let ghost all = self.decls@;
        let ghost sv = scope@;
        let ast::File { options, decls } = self;
        let mut converted_options: Vec<Loc<RpOptionDecl>> = Vec::new();
        let ghost opts_all = options@;
        let mut opts_remaining = options;
        proof {
            assert(opts_all.skip(0) =~= opts_all);
        }
        let opts_total = opts_remaining.len();
        proof {
            assert(opts_all.len() == opts_total);
        }
        let mut i: usize = 0;
        while opts_remaining.len() > 0
            invariant
                i + opts_remaining@.len() == opts_all.len(),
                opts_remaining@ =~= opts_all.skip(i as int),
                spec_file_options(opts_all) =~= converted_options.deep_view() + spec_file_options(
                    opts_all.skip(i as int),
                ),
            decreases opts_remaining@.len(),
        {
            let ghost suffix = opts_all.skip(i as int);
            proof {
                assert(suffix[0] == opts_all[i as int]);
                assert(suffix.subrange(1, suffix.len() as int) =~= opts_all.skip(i + 1));
            }
            let option = opts_remaining.remove(0);
            let pos = option.pos;
            let converted = match option.value.into_model(scope) {
                Ok(converted) => converted,
                Err(e) => {
                    return Err(e);
                },
            };
            let ghost pre = converted_options.deep_view();
            converted_options.push(Loc { value: converted, pos });
            proof {
                assert(converted_options.deep_view() =~= pre.push(
                    LocView { value: converted@, pos: pos },
                ));
                let ghost rv = spec_file_options(opts_all.skip(i + 1));
                assert(pre.push(LocView { value: converted@, pos: pos }) + rv =~= pre + (
                seq![LocView { value: converted@, pos: pos }] + rv));
            }
            i = i + 1;
        }
        proof {
            assert(opts_all.skip(opts_all.len() as int) =~= Seq::<Loc<ast::OptionDecl>>::empty());
            assert(converted_options.deep_view() + Seq::<LocView<OptionDeclView>>::empty()
                =~= converted_options.deep_view());
        }
        let mut out: Vec<Loc<RpDecl>> = Vec::new();
        let mut remaining = decls;
        let total = remaining.len();
        proof {
            assert(all.len() == total);
            assert(all.skip(0) =~= all);
        }
        let mut i: usize = 0;
        while remaining.len() > 0
            invariant
                i + remaining@.len() == all.len(),
                remaining@ =~= all.skip(i as int),
                spec_file_decls(sv, all) == match spec_file_decls(sv, all.skip(i as int)) {
                    Some(r) => Some(crate::bodies::spec_decls_view(out@) + r),
                    None => None::<Seq<LocView<DeclView>>>,
                },
            decreases remaining@.len(),
        {
            let ghost suffix = all.skip(i as int);
            proof {
                assert(suffix[0] == all[i as int]);
                assert(suffix.subrange(1, suffix.len() as int) =~= all.skip(i + 1));
            }
            let decl = remaining.remove(0);
            let pos = decl.pos;
            let converted = match decl.value.into_model(scope) {
                Ok(converted) => converted,
                Err(e) => {
                    return Err(e);
                },
            };
            let ghost pre = crate::bodies::spec_decls_view(out@);
            out.push(Loc { value: converted, pos });
            proof {
                assert(crate::bodies::spec_decls_view(out@) =~= pre.push(
                    LocView { value: converted@, pos: pos },
                ));
                match spec_file_decls(sv, all.skip(i + 1)) {
                    Some(rv) => {
                        assert(pre.push(LocView { value: converted@, pos: pos }) + rv =~= pre + (
                        seq![LocView { value: converted@, pos: pos }] + rv));
                    },
                    None => {},
                }
            }
            i = i + 1;
        }
        proof {
            assert(all.skip(all.len() as int) =~= Seq::<Loc<ast::Decl>>::empty());
            assert(crate::bodies::spec_decls_view(out@) + Seq::<LocView<DeclView>>::empty()
                =~= crate::bodies::spec_decls_view(out@));
        }
        Ok(RpFile { options: converted_options, decls: out })
    }
}

/// The converted file-level options, in order.
pub open spec fn spec_file_options(options: Seq<Loc<ast::OptionDecl>>) -> Seq<
    LocView<OptionDeclView>,
>
    decreases options.len(),
{
    if options.len() == 0 {
        Seq::empty()
    } else {
        seq![
            LocView {
                value: OptionDeclView {
                    name: options[0].value.name@,
                    value: options[0].value.value@,
                },
                pos: options[0].pos,
            },
        ] + spec_file_options(options.subrange(1, options.len() as int))
    }
}

} // verus!
