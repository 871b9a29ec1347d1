//! The semantic model: packages, names, types, fields and values.
//!
//! Model values are built once by conversion from the parsed syntax tree and
//! are immutable afterwards. Every entity that can be reported in a
//! diagnostic carries the source position it was declared at. Each executable
//! type has a mathematical view (`...View`) that the contracts speak of.

use vstd::prelude::*;

use crate::version::Version;

verus! {

/// A position in a source file: line and column.
#[derive(Clone, Copy, Debug, PartialEq, Eq, Structural, Hash)]
pub struct Pos {
    pub line: usize,
    pub col: usize,
}

/// A value paired with the source position it was declared at.
#[derive(Clone, Debug, PartialEq)]
pub struct Loc<T> {
    pub value: T,
    pub pos: Pos,
}

/// The view of a located value: the inner view and the position.
pub struct LocView<V> {
    pub value: V,
    pub pos: Pos,
}

impl<T: DeepView> View for Loc<T> {
    type V = LocView<T::V>;

    open spec fn view(&self) -> LocView<T::V> {
        LocView { value: self.value.deep_view(), pos: self.pos }
    }
}

impl<T: DeepView> DeepView for Loc<T> {
    type V = LocView<T::V>;

    open spec fn deep_view(&self) -> LocView<T::V> {
        self.view()
    }
}

impl<T: DeepView> Loc<T> {
    pub fn new(value: T, pos: Pos) -> (r: Loc<T>)
        ensures
            r@.value == value.deep_view(),
            r@.pos == pos,
    {
        Loc { value, pos }
    }
}

/// An unversioned package: an ordered sequence of identifier parts.
#[derive(Clone, Debug, PartialEq)]
pub struct RpPackage {
    pub parts: Vec<String>,
}

impl View for RpPackage {
    type V = Seq<Seq<char>>;

    open spec fn view(&self) -> Seq<Seq<char>> {
        self.parts.deep_view()
    }
}

impl DeepView for RpPackage {
    type V = Seq<Seq<char>>;

    open spec fn deep_view(&self) -> Seq<Seq<char>> {
        self.view()
    }
}

impl RpPackage {
    pub fn new(parts: Vec<String>) -> (r: RpPackage)
        ensures
            r@ == parts.deep_view(),
    {
        RpPackage { parts }
    }

    /// The parts joined by `.`, the display form of a package.
    pub fn to_text(&self) -> (r: String)
        ensures
            r@ == spec_join(self@, "."@),
    {
        join_strings(&self.parts, ".")
    }

    pub fn eq_package(&self, other: &RpPackage) -> (r: bool)
        ensures
            r == (self@ == other@),
    {
        eq_strings(&self.parts, &other.parts)
    }

    pub fn duplicate(&self) -> (r: RpPackage)
        ensures
            r@ == self@,
    {
        RpPackage { parts: clone_strings(&self.parts) }
    }
}

/// The view of a versioned package: package parts and the optional version.
pub struct VersionedPackageView {
    pub package: Seq<Seq<char>>,
    pub version: Option<Version>,
}

/// A package together with an optional semantic version; the primary key of
/// the declaration registry and of repository lookups.
#[derive(Clone, Debug, PartialEq)]
pub struct RpVersionedPackage {
    pub package: RpPackage,
    pub version: Option<Version>,
}

impl View for RpVersionedPackage {
    type V = VersionedPackageView;

    open spec fn view(&self) -> VersionedPackageView {
        VersionedPackageView { package: self.package@, version: self.version }
    }
}

impl DeepView for RpVersionedPackage {
    type V = VersionedPackageView;

    open spec fn deep_view(&self) -> VersionedPackageView {
        self.view()
    }
}

impl RpVersionedPackage {
    pub fn new(package: RpPackage, version: Option<Version>) -> (r: RpVersionedPackage)
        ensures
            r@.package == package@,
            r@.version == version,
    {
        RpVersionedPackage { package, version }
    }

    pub fn eq_versioned(&self, other: &RpVersionedPackage) -> (r: bool)
        ensures
            r == (self@ == other@),
    {
        let packages_eq = self.package.eq_package(&other.package);
        let versions_eq = match (&self.version, &other.version) {
            (Some(a), Some(b)) => a.major == b.major && a.minor == b.minor && a.patch == b.patch,
            (None, None) => true,
            _ => false,
        };
        packages_eq && versions_eq
    }

    pub fn duplicate(&self) -> (r: RpVersionedPackage)
        ensures
            r@ == self@,
    {
        RpVersionedPackage { package: self.package.duplicate(), version: self.version }
    }
}

/// The view of a fully qualified name.
pub struct NameView {
    pub prefix: Option<Seq<char>>,
    pub package: VersionedPackageView,
    pub parts: Seq<Seq<char>>,
}

/// A fully qualified type name: the import prefix it was written under (if
/// any), the package it resolved to, and the path parts inside the package
/// (more than one part for nested declarations).
#[derive(Clone, Debug, PartialEq)]
pub struct RpName {
    pub prefix: Option<String>,
    pub package: RpVersionedPackage,
    pub parts: Vec<String>,
}

impl View for RpName {
    type V = NameView;

    open spec fn view(&self) -> NameView {
        NameView {
            prefix: self.prefix.deep_view(),
            package: self.package@,
            parts: self.parts.deep_view(),
        }
    }
}

impl DeepView for RpName {
    type V = NameView;

    open spec fn deep_view(&self) -> NameView {
        self.view()
    }
}

impl RpName {
    /// The name of a declaration nested one part below this one.
    pub fn push(&self, part: String) -> (r: RpName)
        ensures
            r@ == (NameView { parts: self@.parts.push(part@), ..self@ }),
    {
        let mut parts = clone_strings(&self.parts);
        parts.push(part);
        let r = RpName {
            prefix: clone_string_option(&self.prefix),
            package: self.package.duplicate(),
            parts,
        };
        proof {
            assert(r@.parts =~= self@.parts.push(part@));
        }
        r
    }

    /// This name extended by further path parts.
    pub fn extend(&self, extra: Vec<String>) -> (r: RpName)
        ensures
            r@ == (NameView { parts: self@.parts + extra.deep_view(), ..self@ }),
    {
        let mut parts = clone_strings(&self.parts);
        let base = parts.len();
        proof {
            assert(parts@.len() == self.parts@.len());
            assert forall|j: int| 0 <= j < base implies parts@[j]@ == self.parts@[j]@ by {
                assert(parts.deep_view()[j] == self.parts.deep_view()[j]);
            }
        }
        let mut i: usize = 0;
        while i < extra.len()
            invariant
                i <= extra.len(),
                base == self.parts@.len(),
                parts@.len() == base + i,
                forall|j: int| 0 <= j < base ==> #[trigger] parts@[j]@ == self.parts@[j]@,
                forall|j: int| 0 <= j < i ==> #[trigger] parts@[base + j]@ == extra@[j]@,
            decreases extra.len() - i,
        {
            let part = clone_string(&extra[i]);
            parts.push(part);
            i = i + 1;
        }
        proof {
            let combined = self.parts.deep_view() + extra.deep_view();
            assert forall|j: int| 0 <= j < parts@.len() implies parts.deep_view()[j] == combined[j]
                by {
                if j < base {
                    assert(parts@[j]@ == self.parts@[j]@);
                } else {
                    assert(parts@[base + (j - base)]@ == extra@[j - base]@);
                }
            }
            assert(parts.deep_view() =~= combined);
        }
        RpName {
            prefix: clone_string_option(&self.prefix),
            package: self.package.duplicate(),
            parts,
        }
    }

    /// The path parts joined by a separator, for display and anchors.
    pub fn join(&self, sep: &str) -> (r: String)
        ensures
            r@ == spec_join(self@.parts, sep@),
    {
        join_strings(&self.parts, sep)
    }

    pub fn eq_name(&self, other: &RpName) -> (r: bool)
        ensures
            r == (self@.package == other@.package && self@.parts == other@.parts),
    {
        self.package.eq_versioned(&other.package) && eq_strings(&self.parts, &other.parts)
    }

    pub fn duplicate(&self) -> (r: RpName)
        ensures
            r@ == self@,
    {
        RpName {
            prefix: clone_string_option(&self.prefix),
            package: self.package.duplicate(),
            parts: clone_strings(&self.parts),
        }
    }
}

/// A number literal: an integral part with an optional fractional part and
/// an optional exponent.
#[derive(Clone, Copy, Debug, PartialEq, Eq)]
pub struct RpNumber {
    pub whole: i64,
    pub fraction: Option<u64>,
    pub exponent: Option<u32>,
}

impl RpNumber {
    /// The number as a `u32`, when it is a plain non-negative integer that
    /// fits.
    pub fn to_u32(&self) -> (r: Option<u32>)
        ensures
            r is Some <==> (self.fraction is None && self.exponent is None && 0 <= self.whole
                <= u32::MAX),
            r is Some ==> r.unwrap() == self.whole,
    {
        if self.fraction.is_some() || self.exponent.is_some() {
            return None;
        }
        if self.whole < 0 || self.whole > u32::MAX as i64 {
            return None;
        }
        Some(self.whole as u32)
    }
}

/// The required/optional marker of a field.
#[derive(Clone, Copy, Debug, PartialEq, Eq, Structural)]
pub enum RpModifier {
    Required,
    Optional,
}

/// The view of a type reference.
pub enum TypeView {
    Double,
    Float,
    Signed { size: Option<usize> },
    Unsigned { size: Option<usize> },
    Boolean,
    String,
    DateTime,
    Bytes,
    Any,
    Name { name: NameView },
    Array { inner: Box<TypeView> },
    Dict { key: Box<TypeView>, value: Box<TypeView> },
}

/// A type reference: a primitive scalar, a named declaration, an array or a
/// map.
#[derive(Debug)]
pub enum RpType {
    Double,
    Float,
    Signed { size: Option<usize> },
    Unsigned { size: Option<usize> },
    Boolean,
    String,
    DateTime,
    Bytes,
    Any,
    Name { name: RpName },
    Array { inner: Box<RpType> },
    Dict { key: Box<RpType>, value: Box<RpType> },
}

/// The view of a type reference, defined by structural recursion.
pub open spec fn spec_type_view(t: RpType) -> TypeView
    decreases t,
{
    match t {
        RpType::Double => TypeView::Double,
        RpType::Float => TypeView::Float,
        RpType::Signed { size } => TypeView::Signed { size },
        RpType::Unsigned { size } => TypeView::Unsigned { size },
        RpType::Boolean => TypeView::Boolean,
        RpType::String => TypeView::String,
        RpType::DateTime => TypeView::DateTime,
        RpType::Bytes => TypeView::Bytes,
        RpType::Any => TypeView::Any,
        RpType::Name { name } => TypeView::Name { name: name@ },
        RpType::Array { inner } => TypeView::Array { inner: Box::new(spec_type_view(*inner)) },
        RpType::Dict { key, value } => TypeView::Dict {
            key: Box::new(spec_type_view(*key)),
            value: Box::new(spec_type_view(*value)),
        },
    }
}

impl View for RpType {
    type V = TypeView;

    open spec fn view(&self) -> TypeView {
        spec_type_view(*self)
    }
}

impl DeepView for RpType {
    type V = TypeView;

    open spec fn deep_view(&self) -> TypeView {
        self.view()
    }
}

impl Clone for RpType {
    /// Cloning keeps the view.
    fn clone(&self) -> (r: RpType)
        ensures
            r@ == self@,
        decreases self,
    {
        match self {
            RpType::Double => RpType::Double,
            RpType::Float => RpType::Float,
            RpType::Signed { size } => RpType::Signed { size: *size },
            RpType::Unsigned { size } => RpType::Unsigned { size: *size },
            RpType::Boolean => RpType::Boolean,
            RpType::String => RpType::String,
            RpType::DateTime => RpType::DateTime,
            RpType::Bytes => RpType::Bytes,
            RpType::Any => RpType::Any,
            RpType::Name { name } => RpType::Name { name: name.duplicate() },
            RpType::Array { inner } => RpType::Array { inner: Box::new((**inner).clone()) },
            RpType::Dict { key, value } => RpType::Dict {
                key: Box::new((**key).clone()),
                value: Box::new((**value).clone()),
            },
        }
    }
}

/// The view of a value literal.
pub enum ValueView {
    String(Seq<char>),
    Number(RpNumber),
    Boolean(bool),
    Identifier(Seq<char>),
    Array(Seq<LocView<ValueView>>),
}

/// A value literal: used for option values and enum variant arguments.
#[derive(Debug)]
pub enum RpValue {
    String(String),
    Number(RpNumber),
    Boolean(bool),
    Identifier(String),
    Array(Vec<Loc<RpValue>>),
}

/// The view of a value literal, defined by structural recursion.
pub open spec fn spec_value_view(v: RpValue) -> ValueView
    decreases v,
{
    match v {
        RpValue::String(s) => ValueView::String(s@),
        RpValue::Number(n) => ValueView::Number(n),
        RpValue::Boolean(b) => ValueView::Boolean(b),
        RpValue::Identifier(s) => ValueView::Identifier(s@),
        RpValue::Array(values) => ValueView::Array(
            Seq::new(values@.len(), |i: int| LocView {
                value: if 0 <= i < values@.len() {
                    spec_value_view(values@[i].value)
                } else {
                    ValueView::Boolean(false)
                },
                pos: values@[i].pos,
            }),
        ),
    }
}

impl View for RpValue {
    type V = ValueView;

    open spec fn view(&self) -> ValueView {
        spec_value_view(*self)
    }
}

impl DeepView for RpValue {
    type V = ValueView;

    open spec fn deep_view(&self) -> ValueView {
        self.view()
    }
}

impl Clone for RpValue {
    /// Cloning keeps the view.
    fn clone(&self) -> (r: RpValue)
        ensures
            r@ == self@,
        decreases self,
    {
        match self {
            RpValue::String(s) => RpValue::String(s.clone()),
            RpValue::Number(n) => RpValue::Number(*n),
            RpValue::Boolean(b) => RpValue::Boolean(*b),
            RpValue::Identifier(s) => RpValue::Identifier(s.clone()),
            RpValue::Array(values) => {
                let mut out: Vec<Loc<RpValue>> = Vec::new();
                let mut i: usize = 0;
                while i < values.len()
                    invariant
                        i <= values.len(),
                        out@.len() == i,
                        *self == RpValue::Array(*values),
                        forall|j: int| 0 <= j < i ==> #[trigger] out@[j]@ == values@[j]@,
                    decreases values.len() - i,
                {
                    proof {
                        assert(*values == self->Array_0);
                        assert(decreases_to!(*self => self->Array_0));
                        assert(decreases_to!(self->Array_0 => self->Array_0@[i as int]));
                        assert(decreases_to!(self->Array_0@[i as int] => self->Array_0@[
                            i as int
                        ].value));
                    }
                    let inner = values[i].value.clone();
                    out.push(Loc { value: inner, pos: values[i].pos });
                    i = i + 1;
                }
                let r = RpValue::Array(out);
                proof {
                    let rv = spec_value_view(r);
                    let sv = spec_value_view(*self);
                    assert forall|j: int| 0 <= j < values@.len() implies rv->0[j] == sv->0[j] by {
                        assert(out@[j]@ == values@[j]@);
                    }
                    assert(rv->0 =~= sv->0);
                }
                r
            },
        }
    }
}

/// The view of a field.
pub struct FieldView {
    pub modifier: RpModifier,
    pub name: Seq<char>,
    pub comment: Seq<Seq<char>>,
    pub ty: TypeView,
    pub field_as: Option<Seq<char>>,
}

impl FieldView {
    /// The identifier the field was declared under.
    pub open spec fn ident(self) -> Seq<char> {
        self.name
    }

    /// The effective wire name: the declared alias when present, the
    /// identifier otherwise.
    pub open spec fn wire_name(self) -> Seq<char> {
        match self.field_as {
            Some(alias) => alias,
            None => self.name,
        }
    }
}

/// A field of a type, tuple, interface or sub-type body.
#[derive(Clone, Debug)]
pub struct RpField {
    pub modifier: RpModifier,
    pub name: String,
    pub comment: Vec<String>,
    pub ty: RpType,
    pub field_as: Option<String>,
}

impl View for RpField {
    type V = FieldView;

    open spec fn view(&self) -> FieldView {
        FieldView {
            modifier: self.modifier,
            name: self.name@,
            comment: self.comment.deep_view(),
            ty: self.ty@,
            field_as: self.field_as.deep_view(),
        }
    }
}

impl DeepView for RpField {
    type V = FieldView;

    open spec fn deep_view(&self) -> FieldView {
        self.view()
    }
}

impl RpField {
    /// The identifier the field was declared under.
    pub fn ident(&self) -> (r: &String)
        ensures
            r@ == self@.ident(),
    {
        &self.name
    }

    /// The effective wire name: the declared alias when present, the
    /// identifier otherwise.
    pub fn name(&self) -> (r: &String)
        ensures
            r@ == self@.wire_name(),
    {
        match &self.field_as {
            Some(alias) => alias,
            None => &self.name,
        }
    }

    pub fn is_optional(&self) -> (r: bool)
        ensures
            r == (self.modifier is Optional),
    {
        match self.modifier {
            RpModifier::Optional => true,
            RpModifier::Required => false,
        }
    }
}

/// The view of an embedded code block.
pub struct CodeView {
    pub context: Seq<char>,
    pub lines: Seq<Seq<char>>,
}

/// A language-specific source-code injection block, tagged by the target
/// context it applies to.
#[derive(Clone, Debug, PartialEq)]
pub struct RpCode {
    pub context: String,
    pub lines: Vec<String>,
}

impl View for RpCode {
    type V = CodeView;

    open spec fn view(&self) -> CodeView {
        CodeView { context: self.context@, lines: self.lines.deep_view() }
    }
}

impl DeepView for RpCode {
    type V = CodeView;

    open spec fn deep_view(&self) -> CodeView {
        self.view()
    }
}

/// The view of an option declaration.
pub struct OptionDeclView {
    pub name: Seq<char>,
    pub value: LocView<ValueView>,
}

/// An option directive attached to a declaration body.
#[derive(Clone, Debug)]
pub struct RpOptionDecl {
    pub name: String,
    pub value: Loc<RpValue>,
}

impl View for RpOptionDecl {
    type V = OptionDeclView;

    open spec fn view(&self) -> OptionDeclView {
        OptionDeclView { name: self.name@, value: self.value@ }
    }
}

impl DeepView for RpOptionDecl {
    type V = OptionDeclView;

    open spec fn deep_view(&self) -> OptionDeclView {
        self.view()
    }
}

/// The parts joined by a separator: empty for no parts, and no trailing
/// separator otherwise.
pub open spec fn spec_join(parts: Seq<Seq<char>>, sep: Seq<char>) -> Seq<char>
    decreases parts.len(),
{
    if parts.len() == 0 {
        Seq::empty()
    } else if parts.len() == 1 {
        parts[0]
    } else {
        spec_join(parts.drop_last(), sep) + sep + parts.last()
    }
}

/// Join string parts by a separator.
pub fn join_strings(parts: &Vec<String>, sep: &str) -> (r: String)
    ensures
        r@ == spec_join(parts.deep_view(), sep@),
{
    let mut out = String::new();
    let mut i: usize = 0;
    while i < parts.len()
        invariant
            i <= parts.len(),
            out@ == spec_join(parts.deep_view().take(i as int), sep@),
        decreases parts.len() - i,
    {
        if i > 0 {
            out.append(sep);
        }
        out.append(parts[i].as_str());
        i = i + 1;
        proof {
            let taken = parts.deep_view().take(i as int);
            assert(taken.drop_last() =~= parts.deep_view().take(i - 1 as int));
            assert(taken.last() == parts.deep_view()[i - 1 as int]);
        }
    }
    proof {
        assert(parts.deep_view().take(parts.len() as int) =~= parts.deep_view());
    }
    out
}

/// Whether two string slices hold the same characters.
pub fn str_eq(a: &str, b: &str) -> (r: bool)
    ensures
        r == (a@ == b@),
{
    let a_owned = a.to_owned();
    let b_owned = b.to_owned();
    a_owned.eq(&b_owned)
}

/// Clone a string, keeping its characters.
pub fn clone_string(s: &String) -> (r: String)
    ensures
        r@ == s@,
{
    s.clone()
}

/// Clone an optional string, keeping its characters.
pub fn clone_string_option(s: &Option<String>) -> (r: Option<String>)
    ensures
        r.deep_view() == s.deep_view(),
{
    match s {
        Some(s) => Some(s.clone()),
        None => None,
    }
}

/// Clone a vector of strings, keeping the characters of every element.
pub fn clone_strings(v: &Vec<String>) -> (r: Vec<String>)
    ensures
        r.deep_view() == v.deep_view(),
{
    let mut out: Vec<String> = Vec::new();
    let mut i: usize = 0;
    while i < v.len()
        invariant
            i <= v.len(),
            out@.len() == i,
            forall|j: int| 0 <= j < i ==> #[trigger] out@[j]@ == v@[j]@,
        decreases v.len() - i,
    {
        out.push(v[i].clone());
        i = i + 1;
    }
    proof {
        assert(out.deep_view() =~= v.deep_view());
    }
    out
}

/// Clone a byte vector, keeping its contents.
pub fn clone_bytes(v: &Vec<u8>) -> (r: Vec<u8>)
    ensures
        r@ == v@,
{
    let mut out: Vec<u8> = Vec::new();
    let mut i: usize = 0;
    while i < v.len()
        invariant
            i <= v@.len(),
            out@ =~= v@.take(i as int),
        decreases v@.len() - i,
    {
        out.push(v[i]);
        i = i + 1;
        proof {
            assert(v@.take(i as int) =~= v@.take(i - 1 as int).push(v@[i - 1]));
        }
    }
    proof {
        assert(v@.take(v@.len() as int) =~= v@);
    }
    out
}

/// Whether two string vectors hold the same characters elementwise.
pub fn eq_strings(a: &Vec<String>, b: &Vec<String>) -> (r: bool)
    ensures
        r == (a.deep_view() == b.deep_view()),
{
    if a.len() != b.len() {
        proof {
            assert(a.deep_view().len() != b.deep_view().len());
        }
        return false;
    }
    let mut i: usize = 0;
    while i < a.len()
        invariant
            i <= a.len(),
            a.len() == b.len(),
            forall|j: int| 0 <= j < i ==> a.deep_view()[j] == b.deep_view()[j],
        decreases a.len() - i,
    {
        if !a[i].eq(&b[i]) {
            proof {
                assert(a.deep_view()[i as int] != b.deep_view()[i as int]);
            }
            return false;
        }
        i = i + 1;
    }
    proof {
        assert(a.deep_view() =~= b.deep_view());
    }
    true
}

} // verus!
