//! The parsed syntax tree: the input of conversion into the semantic model.
//!
//! The surface grammar and tokenizer are outside collaborators; conversion
//! starts from these already-parsed nodes. Value literals are shared with
//! the model.

use vstd::prelude::*;

use crate::model::{Loc, RpNumber, RpValue};

verus! {

/// A syntactic name reference: relative to the current scope, or absolute
/// within a package (its own, or an imported one named by a prefix).
#[derive(Debug)]
pub enum Name {
    Relative { parts: Vec<String> },
    Absolute { prefix: Option<String>, parts: Vec<String> },
}

/// A syntactic type reference.
#[derive(Debug)]
pub enum Type {
    Double,
    Float,
    Signed { size: Option<usize> },
    Unsigned { size: Option<usize> },
    Boolean,
    String,
    DateTime,
    Bytes,
    Any,
    Name { name: Name },
    Array { inner: Box<Type> },
    Dict { key: Box<Type>, value: Box<Type> },
}

/// A field declaration.
#[derive(Debug)]
pub struct Field {
    pub modifier: crate::model::RpModifier,
    pub name: String,
    pub comment: Vec<String>,
    pub ty: Type,
    pub field_as: Option<String>,
}

/// An option directive.
#[derive(Debug)]
pub struct OptionDecl {
    pub name: String,
    pub value: Loc<RpValue>,
}

/// A member of a declaration body, by syntactic kind.
#[derive(Debug)]
pub enum Member {
    Field(Field),
    Code(String, Vec<String>),
    Option(OptionDecl),
    InnerDecl(Decl),
}

/// A plain type declaration.
#[derive(Debug)]
pub struct TypeBody {
    pub name: String,
    pub comment: Vec<String>,
    pub members: Vec<Loc<Member>>,
}

/// A tuple declaration.
#[derive(Debug)]
pub struct TupleBody {
    pub name: String,
    pub comment: Vec<String>,
    pub members: Vec<Loc<Member>>,
}

/// One variant of an enum declaration.
#[derive(Debug)]
pub struct EnumVariant {
    pub name: Loc<String>,
    pub comment: Vec<String>,
    pub argument: Option<Loc<RpValue>>,
}

/// An enum declaration.
#[derive(Debug)]
pub struct EnumBody {
    pub name: String,
    pub comment: Vec<String>,
    pub ty: Option<Loc<Type>>,
    pub variants: Vec<Loc<EnumVariant>>,
    pub members: Vec<Loc<Member>>,
}

/// One sub-type of an interface declaration.
#[derive(Debug)]
pub struct SubType {
    pub name: String,
    pub comment: Vec<String>,
    pub members: Vec<Loc<Member>>,
}

/// An interface declaration.
#[derive(Debug)]
pub struct InterfaceBody {
    pub name: String,
    pub comment: Vec<String>,
    pub members: Vec<Loc<Member>>,
    pub sub_types: Vec<Loc<SubType>>,
}

/// One segment of an endpoint path.
#[derive(Debug)]
pub enum PathSegment {
    Literal { value: Loc<String> },
    Variable { name: Loc<String>, ty: Loc<Type> },
}

/// A path: a sequence of segments.
#[derive(Debug)]
pub struct PathSpec {
    pub segments: Vec<PathSegment>,
}

/// An accept entry of an endpoint.
#[derive(Debug)]
pub struct ServiceAccepts {
    pub comment: Vec<String>,
    pub name: Option<Loc<String>>,
    pub ty: Option<Loc<Type>>,
    pub mime: Option<Loc<String>>,
}

/// A return entry of an endpoint.
#[derive(Debug)]
pub struct ServiceReturns {
    pub comment: Vec<String>,
    pub status: Loc<RpNumber>,
    pub ty: Option<Loc<Type>>,
    pub mime: Option<Loc<String>>,
}

/// An entry of an endpoint: what it accepts or what it returns.
#[derive(Debug)]
pub enum ServiceEntry {
    Accepts(ServiceAccepts),
    Returns(ServiceReturns),
}

/// A node of a service declaration: a path segment grouping children, or an
/// endpoint.
#[derive(Debug)]
pub enum ServiceNested {
    Segment { path: Loc<PathSpec>, children: Vec<ServiceNested> },
    Endpoint {
        comment: Vec<String>,
        method: Option<Loc<String>>,
        path: Option<Loc<PathSpec>>,
        default_name: Option<Loc<String>>,
        options: Vec<Loc<OptionDecl>>,
        entries: Vec<Loc<ServiceEntry>>,
    },
}

/// A service declaration.
#[derive(Debug)]
pub struct ServiceBody {
    pub name: String,
    pub comment: Vec<String>,
    pub children: Vec<ServiceNested>,
}

/// A declaration: the tagged union over the five declaration kinds.
#[derive(Debug)]
pub enum Decl {
    Type(TypeBody),
    Interface(InterfaceBody),
    Enum(EnumBody),
    Tuple(TupleBody),
    Service(ServiceBody),
}

impl Decl {
    /// The local name of the declaration.
    pub open spec fn spec_name(self) -> Seq<char> {
        match self {
            Decl::Type(body) => body.name@,
            Decl::Interface(body) => body.name@,
            Decl::Enum(body) => body.name@,
            Decl::Tuple(body) => body.name@,
            Decl::Service(body) => body.name@,
        }
    }

    pub fn name(&self) -> (r: &String)
        ensures
            r@ == self.spec_name(),
    {
        match self {
            Decl::Type(body) => &body.name,
            Decl::Interface(body) => &body.name,
            Decl::Enum(body) => &body.name,
            Decl::Tuple(body) => &body.name,
            Decl::Service(body) => &body.name,
        }
    }
}

/// A parsed file: file-level options and its declarations.
#[derive(Debug)]
pub struct File {
    pub options: Vec<Loc<OptionDecl>>,
    pub decls: Vec<Loc<Decl>>,
}

} // verus!
