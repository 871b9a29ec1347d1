//! The documentation backend: renders declarations of the resolved model
//! into HTML sections, one per declaration, wrapped into a page shell.
//!
//! The exact text every renderer produces is written down as a spec
//! function; each renderer is proved to append exactly that text.

use vstd::prelude::*;

use crate::bodies::{RpEnumBody, RpInterfaceBody, RpServiceBody, RpTupleBody, RpTypeBody};
use crate::errors::Error;
use crate::model::{spec_join, join_strings};

verus! {

/// An output buffer for one generated page.
#[derive(Debug)]
pub struct DocBuilder {
    pub buf: String,
}

impl DocBuilder {
    /// An empty page.
    pub fn new() -> (r: DocBuilder)
        ensures
            r.buf@ == Seq::<char>::empty(),
    {
        DocBuilder { buf: String::new() }
    }

    /// Append raw text.
    pub fn write_str(&mut self, text: &str)
        ensures
            final(self).buf@ == old(self).buf@ + text@,
    {
        self.buf.append(text);
    }
}

/// The page shell around a page's content: the head links the stylesheets
/// relative to the root, and the body holds the content.
pub open spec fn spec_doc_shell(root: Seq<char>, content: Seq<char>) -> Seq<char> {
    "<html><head><meta charset=\"utf-8\"><link rel=\"stylesheet\" type=\"text/css\" href=\""@
        + root + "/normalize.css\"><link rel=\"stylesheet\" type=\"text/css\" href=\""@ + root
        + "/doc.css\"></head><body>"@ + content + "</body></html>"@
}

/// A section for one declaration: its anchor, its kind and title, and its
/// body.
pub open spec fn spec_section(
    kind: Seq<char>,
    id: Seq<char>,
    title: Seq<char>,
    inner: Seq<char>,
) -> Seq<char> {
    "<section id=\""@ + id + "\" class=\"section-content section-"@ + kind
        + "\"><h1 class=\"section-title\"><span class=\"type\">"@ + kind
        + "</span><span class=\"name\">"@ + title + "</span></h1><div class=\"section-body\">"@
        + inner + "</div></section>"@
}

/// The section of a declaration body: its kind, anchor from the name parts
/// joined by underscores, and title from the name parts joined by `::`.
pub open spec fn spec_body_section(
    kind: Seq<char>,
    parts: Seq<Seq<char>>,
    inner: Seq<char>,
) -> Seq<char> {
    spec_section(kind, spec_join(parts, "_"@), spec_join(parts, "::"@), inner)
}

/// The documentation backend; the theme names the stylesheet set the
/// compiler ships next to the generated pages.
#[derive(Debug)]
pub struct DocBackend {
    pub theme: String,
}

impl DocBackend {
    /// A backend using the given theme.
    pub fn new(theme: String) -> (r: DocBackend)
        ensures
            r.theme == theme,
    {
        DocBackend { theme }
    }

    /// Check the backend's configuration; there is nothing to reject.
    pub fn verify(&self) -> (r: Result<(), Error>)
        ensures
            r is Ok,
    {
        Ok(())
    }

    /// Wrap rendered content into the page shell.
    pub fn write_doc(&self, out: &mut DocBuilder, root: &str, content: &str)
        ensures
            final(out).buf@ == old(out).buf@ + spec_doc_shell(root@, content@),
    {
        out.write_str(
            "<html><head><meta charset=\"utf-8\"><link rel=\"stylesheet\" type=\"text/css\" href=\"",
        );
        out.write_str(root);
        out.write_str("/normalize.css\"><link rel=\"stylesheet\" type=\"text/css\" href=\"");
        out.write_str(root);
        out.write_str("/doc.css\"></head><body>");
        out.write_str(content);
        out.write_str("</body></html>");
        proof {
            assert(final(out).buf@ =~= old(out).buf@ + spec_doc_shell(root@, content@));
        }
    }

    /// Render a plain type declaration into its section.
    pub fn process_type(&self, out: &mut DocBuilder, body: &RpTypeBody)
        ensures
            final(out).buf@ == old(out).buf@ + spec_body_section(
                "type"@,
                body@.name.parts,
                Seq::empty(),
            ),
    {
        self.write_section(out, "type", &body.name.parts);
    }

    /// Render a tuple declaration into its section.
    pub fn process_tuple(&self, out: &mut DocBuilder, body: &RpTupleBody)
        ensures
            final(out).buf@ == old(out).buf@ + spec_body_section(
                "tuple"@,
                body@.name.parts,
                Seq::empty(),
            ),
    {
        self.write_section(out, "tuple", &body.name.parts);
    }

    /// Render an enum declaration into its section.
    pub fn process_enum(&self, out: &mut DocBuilder, body: &RpEnumBody)
        ensures
            final(out).buf@ == old(out).buf@ + spec_body_section(
                "enum"@,
                body@.name.parts,
                Seq::empty(),
            ),
    {
        self.write_section(out, "enum", &body.name.parts);
    }

    /// Render an interface declaration into its section.
    pub fn process_interface(&self, out: &mut DocBuilder, body: &RpInterfaceBody)
        ensures
            final(out).buf@ == old(out).buf@ + spec_body_section(
                "interface"@,
                body@.name.parts,
                Seq::empty(),
            ),
    {
        self.write_section(out, "interface", &body.name.parts);
    }

    /// Render a service declaration into its section.
    pub fn process_service(&self, out: &mut DocBuilder, body: &RpServiceBody)
        ensures
            final(out).buf@ == old(out).buf@ + spec_body_section(
                "service"@,
                body@.name.parts,
                Seq::empty(),
            ),
    {
        self.write_section(out, "service", &body.name.parts);
    }

    /// Render the opening, title and closing of one declaration's section.
    fn write_section(&self, out: &mut DocBuilder, kind: &str, parts: &Vec<String>)
        ensures
            final(out).buf@ == old(out).buf@ + spec_body_section(
                kind@,
                parts.deep_view(),
                Seq::empty(),
            ),
    {
        let id = join_strings(parts, "_");
        let title = join_strings(parts, "::");
        out.write_str("<section id=\"");
        out.write_str(id.as_str());
        out.write_str("\" class=\"section-content section-");
        out.write_str(kind);
        out.write_str("\"><h1 class=\"section-title\"><span class=\"type\">");
        out.write_str(kind);
        out.write_str("</span><span class=\"name\">");
        out.write_str(title.as_str());
        out.write_str("</span></h1><div class=\"section-body\">");
        out.write_str("</div></section>");
        proof {
            assert(final(out).buf@ =~= old(out).buf@ + spec_body_section(
                kind@,
                parts.deep_view(),
                Seq::empty(),
            ));
        }
    }
}

} // verus!
