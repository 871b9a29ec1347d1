//! The error taxonomy: positioned semantic errors from conversion, aggregate
//! errors, and repository errors.
//!
//! Every structural conflict carries the positions of both colliding
//! declarations, so diagnostics can point at each of them.

use vstd::prelude::*;

use crate::model::{Pos, RpName};
use crate::text::num_text;

verus! {

/// An error of the toolchain.
#[derive(Debug)]
pub enum Error {
    /// A message tied to a source position.
    Pos(String, Pos),
    /// A free-form message, used for failures reported by outside
    /// collaborators.
    Message(String),
    /// An instance creation missing required fields: names, the position of
    /// the instance, and the positions of the missing fields.
    MissingRequired(Vec<String>, Pos, Vec<Pos>),
    /// A numeric literal that does not fit its target type.
    Overflow(Pos),
    /// Two enum variants with the same local name: both positions.
    EnumVariantConflict(Pos, Pos),
    /// Two fields of one body with the same identifier or wire name: the
    /// identifier, the position of the new field, and the position of the
    /// existing one.
    FieldConflict(String, Pos, Pos),
    /// Two accept entries of one endpoint with the same effective name: the
    /// name, the position of the new entry, and the position of the existing
    /// one.
    EndpointConflict(String, Pos, Pos),
    /// A batch of independent errors reported as one unit.
    Errors(Vec<Error>),
    /// No backend was configured for an operation that needs one.
    MissingBackend,
    /// The same qualified name was registered twice.
    RegisteredTypeConflict(RpName),
    /// A name was written under a prefix that no `use` declaration binds.
    MissingPrefix(String),
    /// An accept entry with neither its own name nor a default to fall back
    /// on.
    MissingName,
    /// A field declared on an enum.
    EnumFieldsNotSupported,
    /// An enum value type other than `string`.
    InvalidEnumVariantType,
    /// An explicit variant value that does not match the declared enum type.
    UnexpectedEnumValue(Pos),
    /// A status code outside the unsigned 32-bit range.
    InvalidStatusCode(Pos),
    /// A MIME entry not of the form `type/subtype`.
    InvalidMimeType,
    /// An option value of the wrong kind for its option.
    InvalidOptionValue(Pos),
    /// A URL whose scheme part could not be read.
    InvalidScheme(String),
    /// A URL scheme this toolchain does not support.
    UnsupportedScheme(String),
    /// A git-backed backend was selected but no local repository root is
    /// configured.
    MissingRepos,
    /// A publish against a read-only mirror index: the index's URL.
    NoPublishIndex(String),
    /// A version already deployed with different content: the recorded
    /// digest and the digest of the new artifact.
    ChecksumMismatch(Vec<u8>, Vec<u8>),
    /// A checksum string holding a character that is not a hex digit.
    InvalidHexCharacter,
    /// A checksum string whose byte length is not the digest length.
    InvalidChecksumLength(usize),
    /// The hint that semantic checking can be bypassed.
    NoSemckHint,
}

impl Error {
    /// Whether the error already carries source positions, so that wrapping
    /// it with another position would hide the better one.
    pub open spec fn is_positioned(self) -> bool {
        match self {
            Error::Pos(_, _) => true,
            Error::MissingRequired(_, _, _) => true,
            Error::Overflow(_) => true,
            Error::EnumVariantConflict(_, _) => true,
            Error::FieldConflict(_, _, _) => true,
            Error::EndpointConflict(_, _, _) => true,
            Error::Errors(_) => true,
            _ => false,
        }
    }

    /// A message tied to a source position.
    pub fn pos(message: String, pos: Pos) -> (r: Error)
        ensures
            r == Error::Pos(message, pos),
    {
        Error::Pos(message, pos)
    }

    /// Attach a position to an error that has none; an error that already
    /// carries positions is kept as it is.
    pub fn with_pos(self, pos: Pos) -> (r: Error)
        ensures
            self.is_positioned() ==> r == self,
            !self.is_positioned() ==> (r matches Error::Pos(_, p) && p == pos),
    {
        if self.already_positioned() {
            self
        } else {
            Error::Pos(self.text(), pos)
        }
    }

    fn already_positioned(&self) -> (r: bool)
        ensures
            r == self.is_positioned(),
    {
        match self {
            Error::Pos(_, _) => true,
            Error::MissingRequired(_, _, _) => true,
            Error::Overflow(_) => true,
            Error::EnumVariantConflict(_, _) => true,
            Error::FieldConflict(_, _, _) => true,
            Error::EndpointConflict(_, _, _) => true,
            Error::Errors(_) => true,
            _ => false,
        }
    }

    /// A human-readable description of the error.
    pub fn text(&self) -> String {
        let mut out = String::new();
        match self {
            Error::Pos(message, _) => out.append(message.as_str()),
            Error::Message(message) => out.append(message.as_str()),
            Error::MissingRequired(_, _, _) => out.append("missing required fields"),
            Error::Overflow(_) => out.append("numeric overflow"),
            Error::EnumVariantConflict(_, _) => out.append("enum value conflict"),
            Error::FieldConflict(ident, _, _) => {
                out.append("field conflict: ");
                out.append(ident.as_str());
            },
            Error::EndpointConflict(name, _, _) => {
                out.append("endpoint conflict: ");
                out.append(name.as_str());
            },
            Error::Errors(errors) => {
                out.append("encountered ");
                let count = num_text(errors.len() as u64);
                out.append(count.as_str());
                out.append(" error(s)");
            },
            Error::MissingBackend => out.append("missing backend"),
            Error::RegisteredTypeConflict(name) => {
                out.append("registered type conflict with: ");
                let joined = name.join("::");
                out.append(joined.as_str());
            },
            Error::MissingPrefix(prefix) => {
                out.append("missing prefix: ");
                out.append(prefix.as_str());
            },
            Error::MissingName => out.append("missing name"),
            Error::EnumFieldsNotSupported => out.append("enums can't have fields"),
            Error::InvalidEnumVariantType => out.append("expected string or absent"),
            Error::UnexpectedEnumValue(_) => out.append("unexpected value for enum variant type"),
            Error::InvalidStatusCode(_) => out.append("invalid status code"),
            Error::InvalidMimeType => out.append("invalid mime type"),
            Error::InvalidOptionValue(_) => out.append("invalid option value"),
            Error::InvalidScheme(url) => {
                out.append("invalid scheme: ");
                out.append(url.as_str());
            },
            Error::UnsupportedScheme(url) => {
                out.append("unsupported scheme: ");
                out.append(url.as_str());
            },
            Error::MissingRepos => out.append("repos: not specified"),
            Error::NoPublishIndex(url) => {
                out.append("no publish index: ");
                out.append(url.as_str());
            },
            Error::ChecksumMismatch(_, _) => {
                out.append("checksum mismatch: version already deployed with different content");
            },
            Error::InvalidHexCharacter => out.append("expected hex digits"),
            Error::InvalidChecksumLength(_) => out.append("expected 32 bytes"),
            Error::NoSemckHint => {
                out.append("Hint: Use `--no-semck` to disable semantic checking");
            },
        }
        out
    }
}

} // verus!
