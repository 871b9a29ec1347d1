//! Declaration bodies: types, interfaces, enums, tuples and services, and
//! the tagged union over them.
//!
//! Each body carries its fully qualified name, its local display name, its
//! comment, and its nested declarations. Interfaces own sub-types; enums own
//! variants; services own endpoints.

use vstd::prelude::*;

use crate::errors::Error;
use crate::model::{
    CodeView, FieldView, Loc, LocView, NameView, OptionDeclView, Pos, RpCode, RpField, RpName,
    RpOptionDecl, RpType, TypeView,
};

verus! {

/// Whether two fields collide: they share their wire name or their
/// identifier.
pub open spec fn spec_fields_conflict(a: FieldView, b: FieldView) -> bool {
    a.wire_name() == b.wire_name() || a.ident() == b.ident()
}

/// Whether no two fields of the sequence collide.
pub open spec fn spec_fields_unique(fields: Seq<LocView<FieldView>>) -> bool {
    forall|i: int, j: int|
        0 <= i < j < fields.len() ==> !spec_fields_conflict(fields[i].value, fields[j].value)
}

/// Find a field colliding with `field`: the index of the first one, if any.
pub fn find_conflicting_field(fields: &Vec<Loc<RpField>>, field: &RpField) -> (r: Option<usize>)
    ensures
        match r {
            Some(i) => i < fields@.len() && spec_fields_conflict(fields@[i as int]@.value, field@)
                && forall|j: int|
                0 <= j < i ==> !spec_fields_conflict(fields@[j]@.value, field@),
            None => forall|j: int|
                0 <= j < fields@.len() ==> !spec_fields_conflict(fields@[j]@.value, field@),
        },
{
    let mut i: usize = 0;
    while i < fields.len()
        invariant
            i <= fields@.len(),
            forall|j: int| 0 <= j < i ==> !spec_fields_conflict(fields@[j]@.value, field@),
        decreases fields@.len() - i,
    {
        let existing = &fields[i].value;
        let wire_conflict = existing.name().eq(field.name());
        let ident_conflict = existing.ident().eq(field.ident());
        if wire_conflict || ident_conflict {
            return Some(i);
        }
        i = i + 1;
    }
    None
}

/// The ordinal of an enum variant: an explicit string value, or one
/// generated from the variant's position.
#[derive(Clone, Debug)]
pub enum RpEnumOrdinal {
    String(String),
    Generated,
}

/// The view of an ordinal.
pub enum OrdinalView {
    String(Seq<char>),
    Generated,
}

impl View for RpEnumOrdinal {
    type V = OrdinalView;

    open spec fn view(&self) -> OrdinalView {
        match self {
            RpEnumOrdinal::String(s) => OrdinalView::String(s@),
            RpEnumOrdinal::Generated => OrdinalView::Generated,
        }
    }
}

impl DeepView for RpEnumOrdinal {
    type V = OrdinalView;

    open spec fn deep_view(&self) -> OrdinalView {
        self.view()
    }
}

/// The declared value type of an enum: `string`, or generated ordinals.
#[derive(Clone, Copy, Debug, PartialEq, Eq, Structural)]
pub enum RpEnumType {
    String,
    Generated,
}

impl RpEnumType {
    /// Whether a value literal can serve as an ordinal of this enum type.
    pub open spec fn spec_assignable_from(self, value: crate::model::ValueView) -> bool {
        match self {
            RpEnumType::String => value is String,
            RpEnumType::Generated => false,
        }
    }
}

/// The view of an enum variant.
pub struct EnumVariantView {
    pub name: NameView,
    pub local_name: LocView<Seq<char>>,
    pub comment: Seq<Seq<char>>,
    pub ordinal: OrdinalView,
}

/// One variant of an enum: a local name and an ordinal.
#[derive(Clone, Debug)]
pub struct RpEnumVariant {
    pub name: RpName,
    pub local_name: Loc<String>,
    pub comment: Vec<String>,
    pub ordinal: RpEnumOrdinal,
}

impl View for RpEnumVariant {
    type V = EnumVariantView;

    open spec fn view(&self) -> EnumVariantView {
        EnumVariantView {
            name: self.name@,
            local_name: self.local_name@,
            comment: self.comment.deep_view(),
            ordinal: self.ordinal@,
        }
    }
}

impl DeepView for RpEnumVariant {
    type V = EnumVariantView;

    open spec fn deep_view(&self) -> EnumVariantView {
        self.view()
    }
}

/// A MIME type: the type and subtype parts of `type/subtype`.
#[derive(Clone, Debug)]
pub struct Mime {
    pub top: String,
    pub sub: String,
}

/// The view of a MIME type.
pub struct MimeView {
    pub top: Seq<char>,
    pub sub: Seq<char>,
}

impl View for Mime {
    type V = MimeView;

    open spec fn view(&self) -> MimeView {
        MimeView { top: self.top@, sub: self.sub@ }
    }
}

impl DeepView for Mime {
    type V = MimeView;

    open spec fn deep_view(&self) -> MimeView {
        self.view()
    }
}

/// One segment of an endpoint path: a literal, or a typed variable.
#[derive(Clone, Debug)]
pub enum RpPathSegment {
    Literal { value: Loc<String> },
    Variable { name: Loc<String>, ty: Loc<RpType> },
}

/// The view of a path segment.
pub enum PathSegmentView {
    Literal { value: LocView<Seq<char>> },
    Variable { name: LocView<Seq<char>>, ty: LocView<TypeView> },
}

impl View for RpPathSegment {
    type V = PathSegmentView;

    open spec fn view(&self) -> PathSegmentView {
        match self {
            RpPathSegment::Literal { value } => PathSegmentView::Literal { value: value@ },
            RpPathSegment::Variable { name, ty } => PathSegmentView::Variable {
                name: name@,
                ty: ty@,
            },
        }
    }
}

impl DeepView for RpPathSegment {
    type V = PathSegmentView;

    open spec fn deep_view(&self) -> PathSegmentView {
        self.view()
    }
}

impl RpPathSegment {
    /// The identifier of the segment: the literal text, or the variable
    /// name.
    pub open spec fn spec_id(self) -> Seq<char> {
        match self@ {
            PathSegmentView::Literal { value } => value.value,
            PathSegmentView::Variable { name, ty: _ } => name.value,
        }
    }

    pub fn id(&self) -> (r: &String)
        ensures
            r@ == self.spec_id(),
    {
        match self {
            RpPathSegment::Literal { value } => &value.value,
            RpPathSegment::Variable { name, ty: _ } => &name.value,
        }
    }
}

/// The path of an endpoint: its segments in root-to-leaf order.
#[derive(Clone, Debug)]
pub struct RpPathSpec {
    pub segments: Vec<RpPathSegment>,
}

impl View for RpPathSpec {
    type V = Seq<PathSegmentView>;

    open spec fn view(&self) -> Seq<PathSegmentView> {
        self.segments.deep_view()
    }
}

impl DeepView for RpPathSpec {
    type V = Seq<PathSegmentView>;

    open spec fn deep_view(&self) -> Seq<PathSegmentView> {
        self.view()
    }
}

impl RpPathSpec {
    pub fn new(segments: Vec<RpPathSegment>) -> (r: RpPathSpec)
        ensures
            r@ == segments.deep_view(),
    {
        RpPathSpec { segments }
    }
}

/// An accept entry of an endpoint: its effective name, payload type and MIME
/// type.
#[derive(Clone, Debug)]
pub struct RpServiceAccepts {
    pub comment: Vec<String>,
    pub ty: Option<Loc<RpType>>,
    pub mime: Option<Mime>,
    pub name: Loc<String>,
}

/// The view of an accept entry.
pub struct ServiceAcceptsView {
    pub comment: Seq<Seq<char>>,
    pub ty: Option<LocView<TypeView>>,
    pub mime: Option<MimeView>,
    pub name: LocView<Seq<char>>,
}

impl View for RpServiceAccepts {
    type V = ServiceAcceptsView;

    open spec fn view(&self) -> ServiceAcceptsView {
        ServiceAcceptsView {
            comment: self.comment.deep_view(),
            ty: self.ty.deep_view(),
            mime: self.mime.deep_view(),
            name: self.name@,
        }
    }
}

impl DeepView for RpServiceAccepts {
    type V = ServiceAcceptsView;

    open spec fn deep_view(&self) -> ServiceAcceptsView {
        self.view()
    }
}

/// A return entry of an endpoint: its status, payload type and MIME type.
#[derive(Clone, Debug)]
pub struct RpServiceReturns {
    pub comment: Vec<String>,
    pub status: u32,
    pub ty: Option<Loc<RpType>>,
    pub mime: Option<Mime>,
}

/// The view of a return entry.
pub struct ServiceReturnsView {
    pub comment: Seq<Seq<char>>,
    pub status: u32,
    pub ty: Option<LocView<TypeView>>,
    pub mime: Option<MimeView>,
}

impl View for RpServiceReturns {
    type V = ServiceReturnsView;

    open spec fn view(&self) -> ServiceReturnsView {
        ServiceReturnsView {
            comment: self.comment.deep_view(),
            status: self.status,
            ty: self.ty.deep_view(),
            mime: self.mime.deep_view(),
        }
    }
}

impl DeepView for RpServiceReturns {
    type V = ServiceReturnsView;

    open spec fn deep_view(&self) -> ServiceReturnsView {
        self.view()
    }
}

/// An endpoint of a service: an HTTP-like method, the accumulated path, and
/// its accept and return entries.
#[derive(Clone, Debug)]
pub struct RpServiceEndpoint {
    pub comment: Vec<String>,
    pub method: Option<Loc<String>>,
    pub path: RpPathSpec,
    pub accepts: Vec<RpServiceAccepts>,
    pub returns: Vec<RpServiceReturns>,
}

/// The view of an endpoint.
pub struct ServiceEndpointView {
    pub comment: Seq<Seq<char>>,
    pub method: Option<LocView<Seq<char>>>,
    pub path: Seq<PathSegmentView>,
    pub accepts: Seq<ServiceAcceptsView>,
    pub returns: Seq<ServiceReturnsView>,
}

impl View for RpServiceEndpoint {
    type V = ServiceEndpointView;

    open spec fn view(&self) -> ServiceEndpointView {
        ServiceEndpointView {
            comment: self.comment.deep_view(),
            method: self.method.deep_view(),
            path: self.path@,
            accepts: self.accepts.deep_view(),
            returns: self.returns.deep_view(),
        }
    }
}

impl DeepView for RpServiceEndpoint {
    type V = ServiceEndpointView;

    open spec fn deep_view(&self) -> ServiceEndpointView {
        self.view()
    }
}

/// The view of a type body.
pub struct TypeBodyView {
    pub name: NameView,
    pub local_name: Seq<char>,
    pub comment: Seq<Seq<char>>,
    pub decls: Seq<LocView<DeclView>>,
    pub fields: Seq<LocView<FieldView>>,
    pub codes: Seq<LocView<CodeView>>,
    pub reserved: Seq<LocView<Seq<char>>>,
}

/// A plain type declaration: fields plus reserved identifiers.
#[derive(Debug)]
pub struct RpTypeBody {
    pub name: RpName,
    pub local_name: String,
    pub comment: Vec<String>,
    pub decls: Vec<Loc<RpDecl>>,
    pub fields: Vec<Loc<RpField>>,
    pub codes: Vec<Loc<RpCode>>,
    pub reserved: Vec<Loc<String>>,
}

/// The view of a tuple body.
pub struct TupleBodyView {
    pub name: NameView,
    pub local_name: Seq<char>,
    pub comment: Seq<Seq<char>>,
    pub decls: Seq<LocView<DeclView>>,
    pub fields: Seq<LocView<FieldView>>,
    pub codes: Seq<LocView<CodeView>>,
}

/// A tuple declaration: positional fields.
#[derive(Debug)]
pub struct RpTupleBody {
    pub name: RpName,
    pub local_name: String,
    pub comment: Vec<String>,
    pub decls: Vec<Loc<RpDecl>>,
    pub fields: Vec<Loc<RpField>>,
    pub codes: Vec<Loc<RpCode>>,
}

/// The view of an enum body.
pub struct EnumBodyView {
    pub name: NameView,
    pub local_name: Seq<char>,
    pub comment: Seq<Seq<char>>,
    pub decls: Seq<LocView<DeclView>>,
    pub variant_type: RpEnumType,
    pub variants: Seq<LocView<EnumVariantView>>,
    pub codes: Seq<LocView<CodeView>>,
}

/// An enum declaration: a value type and its variants.
#[derive(Debug)]
pub struct RpEnumBody {
    pub name: RpName,
    pub local_name: String,
    pub comment: Vec<String>,
    pub decls: Vec<Loc<RpDecl>>,
    pub variant_type: RpEnumType,
    pub variants: Vec<Loc<RpEnumVariant>>,
    pub codes: Vec<Loc<RpCode>>,
}

/// The view of a sub-type.
pub struct SubTypeView {
    pub name: NameView,
    pub local_name: Seq<char>,
    pub comment: Seq<Seq<char>>,
    pub decls: Seq<LocView<DeclView>>,
    pub fields: Seq<LocView<FieldView>>,
    pub codes: Seq<LocView<CodeView>>,
    pub names: Seq<LocView<Seq<char>>>,
}

/// One variant of an interface: extends the interface's common fields, and
/// may declare alternate serialization names.
#[derive(Debug)]
pub struct RpSubType {
    pub name: RpName,
    pub local_name: String,
    pub comment: Vec<String>,
    pub decls: Vec<Loc<RpDecl>>,
    pub fields: Vec<Loc<RpField>>,
    pub codes: Vec<Loc<RpCode>>,
    pub names: Vec<Loc<String>>,
}

/// The view of an interface body.
pub struct InterfaceBodyView {
    pub name: NameView,
    pub local_name: Seq<char>,
    pub comment: Seq<Seq<char>>,
    pub decls: Seq<LocView<DeclView>>,
    pub fields: Seq<LocView<FieldView>>,
    pub codes: Seq<LocView<CodeView>>,
    pub sub_types: Seq<LocView<SubTypeView>>,
}

/// An interface declaration: common fields and a set of sub-types.
#[derive(Debug)]
pub struct RpInterfaceBody {
    pub name: RpName,
    pub local_name: String,
    pub comment: Vec<String>,
    pub decls: Vec<Loc<RpDecl>>,
    pub fields: Vec<Loc<RpField>>,
    pub codes: Vec<Loc<RpCode>>,
    pub sub_types: Vec<Loc<RpSubType>>,
}

/// The view of a service body.
pub struct ServiceBodyView {
    pub name: NameView,
    pub local_name: Seq<char>,
    pub comment: Seq<Seq<char>>,
    pub decls: Seq<LocView<DeclView>>,
    pub endpoints: Seq<ServiceEndpointView>,
}

/// A service declaration: its endpoints.
#[derive(Debug)]
pub struct RpServiceBody {
    pub name: RpName,
    pub local_name: String,
    pub comment: Vec<String>,
    pub decls: Vec<Loc<RpDecl>>,
    pub endpoints: Vec<RpServiceEndpoint>,
}

/// The view of a parsed file after conversion.
pub struct FileView {
    pub options: Seq<LocView<OptionDeclView>>,
    pub decls: Seq<LocView<DeclView>>,
}

/// A converted file: its file-level options and its declarations.
#[derive(Debug)]
pub struct RpFile {
    pub options: Vec<Loc<RpOptionDecl>>,
    pub decls: Vec<Loc<RpDecl>>,
}

/// The view of a declaration.
pub enum DeclView {
    Type(TypeBodyView),
    Interface(InterfaceBodyView),
    Enum(EnumBodyView),
    Tuple(TupleBodyView),
    Service(ServiceBodyView),
}

/// A declaration: the tagged union over the five declaration kinds.
#[derive(Debug)]
pub enum RpDecl {
    Type(RpTypeBody),
    Interface(RpInterfaceBody),
    Enum(RpEnumBody),
    Tuple(RpTupleBody),
    Service(RpServiceBody),
}

/// The views of a sequence of sub-types, elementwise.
pub open spec fn spec_sub_types_view(subs: Seq<Loc<RpSubType>>) -> Seq<LocView<SubTypeView>>
    decreases subs,
{
    Seq::new(
        subs.len(),
        |i: int|
            LocView {
                value: if 0 <= i < subs.len() {
                    spec_sub_type_view(subs[i].value)
                } else {
                    vstd::pervasive::arbitrary()
                },
                pos: subs[i].pos,
            },
    )
}

/// The views of nested declarations, elementwise.
pub open spec fn spec_decls_view(decls: Seq<Loc<RpDecl>>) -> Seq<LocView<DeclView>>
    decreases decls,
{
    Seq::new(
        decls.len(),
        |i: int|
            LocView {
                value: if 0 <= i < decls.len() {
                    spec_decl_view(decls[i].value)
                } else {
                    vstd::pervasive::arbitrary()
                },
                pos: decls[i].pos,
            },
    )
}

/// The view of a type body, defined by structural recursion.
pub open spec fn spec_type_body_view(b: RpTypeBody) -> TypeBodyView
    decreases b,
{
    TypeBodyView {
        name: b.name@,
        local_name: b.local_name@,
        comment: b.comment.deep_view(),
        decls: spec_decls_view(b.decls@),
        fields: b.fields.deep_view(),
        codes: b.codes.deep_view(),
        reserved: b.reserved.deep_view(),
    }
}

/// The view of a tuple body, defined by structural recursion.
pub open spec fn spec_tuple_body_view(b: RpTupleBody) -> TupleBodyView
    decreases b,
{
    TupleBodyView {
        name: b.name@,
        local_name: b.local_name@,
        comment: b.comment.deep_view(),
        decls: spec_decls_view(b.decls@),
        fields: b.fields.deep_view(),
        codes: b.codes.deep_view(),
    }
}

/// The view of an enum body, defined by structural recursion.
pub open spec fn spec_enum_body_view(b: RpEnumBody) -> EnumBodyView
    decreases b,
{
    EnumBodyView {
        name: b.name@,
        local_name: b.local_name@,
        comment: b.comment.deep_view(),
        decls: spec_decls_view(b.decls@),
        variant_type: b.variant_type,
        variants: b.variants.deep_view(),
        codes: b.codes.deep_view(),
    }
}

/// The view of a sub-type, defined by structural recursion.
pub open spec fn spec_sub_type_view(b: RpSubType) -> SubTypeView
    decreases b,
{
    SubTypeView {
        name: b.name@,
        local_name: b.local_name@,
        comment: b.comment.deep_view(),
        decls: spec_decls_view(b.decls@),
        fields: b.fields.deep_view(),
        codes: b.codes.deep_view(),
        names: b.names.deep_view(),
    }
}

/// The view of an interface body, defined by structural recursion.
pub open spec fn spec_interface_body_view(b: RpInterfaceBody) -> InterfaceBodyView
    decreases b,
{
    InterfaceBodyView {
        name: b.name@,
        local_name: b.local_name@,
        comment: b.comment.deep_view(),
        decls: spec_decls_view(b.decls@),
        fields: b.fields.deep_view(),
        codes: b.codes.deep_view(),
        sub_types: spec_sub_types_view(b.sub_types@),
    }
}

/// The view of a service body, defined by structural recursion.
pub open spec fn spec_service_body_view(b: RpServiceBody) -> ServiceBodyView
    decreases b,
{
    ServiceBodyView {
        name: b.name@,
        local_name: b.local_name@,
        comment: b.comment.deep_view(),
        decls: spec_decls_view(b.decls@),
        endpoints: b.endpoints.deep_view(),
    }
}

/// The view of a declaration, defined by structural recursion.
pub open spec fn spec_decl_view(d: RpDecl) -> DeclView
    decreases d,
{
    match d {
        RpDecl::Type(b) => DeclView::Type(spec_type_body_view(b)),
        RpDecl::Interface(b) => DeclView::Interface(spec_interface_body_view(b)),
        RpDecl::Enum(b) => DeclView::Enum(spec_enum_body_view(b)),
        RpDecl::Tuple(b) => DeclView::Tuple(spec_tuple_body_view(b)),
        RpDecl::Service(b) => DeclView::Service(spec_service_body_view(b)),
    }
}

impl View for RpDecl {
    type V = DeclView;

    open spec fn view(&self) -> DeclView {
        spec_decl_view(*self)
    }
}

impl DeepView for RpDecl {
    type V = DeclView;

    open spec fn deep_view(&self) -> DeclView {
        self.view()
    }
}

impl View for RpTypeBody {
    type V = TypeBodyView;

    open spec fn view(&self) -> TypeBodyView {
        spec_type_body_view(*self)
    }
}

impl View for RpTupleBody {
    type V = TupleBodyView;

    open spec fn view(&self) -> TupleBodyView {
        spec_tuple_body_view(*self)
    }
}

impl View for RpEnumBody {
    type V = EnumBodyView;

    open spec fn view(&self) -> EnumBodyView {
        spec_enum_body_view(*self)
    }
}

impl View for RpSubType {
    type V = SubTypeView;

    open spec fn view(&self) -> SubTypeView {
        spec_sub_type_view(*self)
    }
}

impl DeepView for RpSubType {
    type V = SubTypeView;

    open spec fn deep_view(&self) -> SubTypeView {
        self.view()
    }
}

impl View for RpInterfaceBody {
    type V = InterfaceBodyView;

    open spec fn view(&self) -> InterfaceBodyView {
        spec_interface_body_view(*self)
    }
}

impl View for RpServiceBody {
    type V = ServiceBodyView;

    open spec fn view(&self) -> ServiceBodyView {
        spec_service_body_view(*self)
    }
}

impl View for RpFile {
    type V = FileView;

    open spec fn view(&self) -> FileView {
        FileView { options: self.options.deep_view(), decls: spec_decls_view(self.decls@) }
    }
}

impl RpDecl {
    /// The fully qualified name of the declaration.
    pub open spec fn spec_name(self) -> NameView {
        match self@ {
            DeclView::Type(b) => b.name,
            DeclView::Interface(b) => b.name,
            DeclView::Enum(b) => b.name,
            DeclView::Tuple(b) => b.name,
            DeclView::Service(b) => b.name,
        }
    }

    /// The local display name of the declaration.
    pub open spec fn spec_local_name(self) -> Seq<char> {
        match self@ {
            DeclView::Type(b) => b.local_name,
            DeclView::Interface(b) => b.local_name,
            DeclView::Enum(b) => b.local_name,
            DeclView::Tuple(b) => b.local_name,
            DeclView::Service(b) => b.local_name,
        }
    }

    pub fn name(&self) -> (r: &RpName)
        ensures
            r@ == self.spec_name(),
    {
        match self {
            RpDecl::Type(b) => &b.name,
            RpDecl::Interface(b) => &b.name,
            RpDecl::Enum(b) => &b.name,
            RpDecl::Tuple(b) => &b.name,
            RpDecl::Service(b) => &b.name,
        }
    }

    pub fn local_name(&self) -> (r: &String)
        ensures
            r@ == self.spec_local_name(),
    {
        match self {
            RpDecl::Type(b) => &b.local_name,
            RpDecl::Interface(b) => &b.local_name,
            RpDecl::Enum(b) => &b.local_name,
            RpDecl::Tuple(b) => &b.local_name,
            RpDecl::Service(b) => &b.local_name,
        }
    }

    /// The kind of the declaration, as a word for display and file names.
    pub fn kind_text(&self) -> (r: &'static str)
        ensures
            self is Type ==> r@ == "type"@,
            self is Interface ==> r@ == "interface"@,
            self is Enum ==> r@ == "enum"@,
            self is Tuple ==> r@ == "tuple"@,
            self is Service ==> r@ == "service"@,
    {
        match self {
            RpDecl::Type(_) => "type",
            RpDecl::Interface(_) => "interface",
            RpDecl::Enum(_) => "enum",
            RpDecl::Tuple(_) => "tuple",
            RpDecl::Service(_) => "service",
        }
    }
}

impl RpSubType {
    /// The effective serialization name: the first declared alternate name,
    /// or the local name when none was declared.
    pub open spec fn spec_effective_name(self) -> Seq<char> {
        if self@.names.len() > 0 {
            self@.names[0].value
        } else {
            self@.local_name
        }
    }

    /// The effective serialization name of the sub-type.
    pub fn name(&self) -> (r: &String)
        ensures
            r@ == self.spec_effective_name(),
    {
        if self.names.len() > 0 {
            &self.names[0].value
        } else {
            &self.local_name
        }
    }

    /// The fields of the sub-type, in declaration order.
    pub fn fields(&self) -> (r: &Vec<Loc<RpField>>)
        ensures
            r.deep_view() == self@.fields,
    {
        &self.fields
    }

    /// Merge another fragment of the same sub-type into this one: fields and
    /// code blocks are concatenated, and the alternate-name list is extended.
    /// A field of the source colliding with one already present is a caller
    /// bug and is reported, never dropped silently.
    pub fn merge(&mut self, source: RpSubType) -> (r: Result<(), Error>)
        ensures
            match r {
                Ok(()) => final(self)@ == (SubTypeView {
                    fields: old(self)@.fields + source@.fields,
                    codes: old(self)@.codes + source@.codes,
                    names: old(self)@.names + source@.names,
                    ..old(self)@
                }) && forall|i: int, j: int|
                    0 <= i < old(self)@.fields.len() && 0 <= j < source@.fields.len()
                        ==> !spec_fields_conflict(
                        old(self)@.fields[i].value,
                        source@.fields[j].value,
                    ),
                Err(e) => e is FieldConflict && exists|i: int, j: int|
                    0 <= i < old(self)@.fields.len() && 0 <= j < source@.fields.len()
                        && spec_fields_conflict(
                        old(self)@.fields[i].value,
                        source@.fields[j].value,
                    ),
            },
    {
        let ghost base = self@.fields;
        let mut j: usize = 0;
        while j < source.fields.len()
            invariant
                j <= source.fields@.len(),
                self@.fields == base,
                forall|a: int, b: int|
                    0 <= a < base.len() && 0 <= b < j ==> !spec_fields_conflict(
                        base[a].value,
                        source@.fields[b].value,
                    ),
            decreases source.fields@.len() - j,
        {
            let incoming = &source.fields[j];
            if let Some(i) = find_conflicting_field(&self.fields, &incoming.value) {
                let ident = crate::model::clone_string(incoming.value.ident());
                proof {
                    assert(spec_fields_conflict(base[i as int].value, source@.fields[j as int].value));
                }
                return Err(Error::FieldConflict(ident, incoming.pos, self.fields[i].pos));
            }
            j = j + 1;
        }
        proof {
            assert forall|a: int, b: int|
                0 <= a < base.len() && 0 <= b < source@.fields.len() implies !spec_fields_conflict(
                base[a].value,
                source@.fields[b].value,
            ) by {
                assert(!spec_fields_conflict(base[a].value, source@.fields[b].value));
            }
        }
        let RpSubType { fields: source_fields, codes: source_codes, names: source_names, .. } =
            source;
        append_all(&mut self.fields, source_fields);
        append_all(&mut self.codes, source_codes);
        append_all(&mut self.names, source_names);
        Ok(())
    }
}

/// The elementwise deep view of converted declarations coincides with the
/// view used by the declaration bodies.
pub proof fn lemma_decls_view(v: Vec<Loc<RpDecl>>)
    ensures
        v.deep_view() == spec_decls_view(v@),
{
    assert forall|i: int| 0 <= i < v@.len() implies v.deep_view()[i] == spec_decls_view(v@)[i] by {
        assert(v.deep_view()[i] == v@[i].deep_view());
    }
    assert(v.deep_view() =~= spec_decls_view(v@));
}

/// The elementwise deep view of converted sub-types coincides with the view
/// used by the interface body.
pub proof fn lemma_sub_types_view(v: Vec<Loc<RpSubType>>)
    ensures
        v.deep_view() == spec_sub_types_view(v@),
{
    assert forall|i: int|
        0 <= i < v@.len() implies v.deep_view()[i] == spec_sub_types_view(v@)[i] by {
        assert(v.deep_view()[i] == v@[i].deep_view());
    }
    assert(v.deep_view() =~= spec_sub_types_view(v@));
}

/// Move all elements of `source` onto the end of `target`.
pub(crate) fn append_all<T: DeepView>(target: &mut Vec<T>, source: Vec<T>)
    ensures
        final(target).deep_view() == old(target).deep_view() + source.deep_view(),
{
    let ghost base = old(target).deep_view();
    let mut source = source;
    let mut moved: usize = 0;
    let ghost all = source.deep_view();
    let source_len = source.len();
    proof {
        assert(all.len() == source_len);
        assert(target.deep_view() =~= base + all.take(0));
    }
    while source.len() > 0
        invariant
            moved + source@.len() == all.len(),
            all.len() <= usize::MAX,
            all.skip(moved as int) =~= source.deep_view(),
            target.deep_view() =~= base + all.take(moved as int),
        decreases source@.len(),
    {
        let ghost src_pre = source.deep_view();
        let item = source.remove(0);
        proof {
            assert(item.deep_view() == src_pre[0]);
            assert(source.deep_view() =~= src_pre.skip(1));
        }
        let ghost pre = target.deep_view();
        target.push(item);
        moved = moved + 1;
        proof {
            assert(target.deep_view() =~= pre.push(item.deep_view()));
            assert(src_pre[0] == all[moved - 1]);
            assert(base + all.take(moved as int) =~= (base + all.take(moved - 1)).push(
                all[moved - 1],
            ));
            assert(all.skip(moved as int) =~= src_pre.skip(1));
        }
    }
    proof {
        assert(all.take(all.len() as int) =~= all);
    }
}

} // verus!
