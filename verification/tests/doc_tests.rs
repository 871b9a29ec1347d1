use reproto::doc::{DocBackend, DocBuilder};
use reproto::bodies::RpTypeBody;
use reproto::model::{RpName, RpPackage, RpVersionedPackage};

fn type_body(parts: &[&str]) -> RpTypeBody {
    RpTypeBody {
        name: RpName {
            prefix: None,
            package: RpVersionedPackage {
                package: RpPackage { parts: vec!["example".to_string()] },
                version: None,
            },
            parts: parts.iter().map(|p| p.to_string()).collect(),
        },
        local_name: parts.last().unwrap().to_string(),
        comment: Vec::new(),
        decls: Vec::new(),
        fields: Vec::new(),
        codes: Vec::new(),
        reserved: Vec::new(),
    }
}

#[test]
fn a_type_section_carries_its_anchor_and_title() {
    let backend = DocBackend::new("light".to_string());
    let mut out = DocBuilder::new();
    backend.process_type(&mut out, &type_body(&["Foo", "Bar"]));
    assert_eq!(
        out.buf,
        "<section id=\"Foo_Bar\" class=\"section-content section-type\">\
         <h1 class=\"section-title\"><span class=\"type\">type</span>\
         <span class=\"name\">Foo::Bar</span></h1>\
         <div class=\"section-body\"></div></section>"
    );
}

#[test]
fn the_page_shell_links_stylesheets_relative_to_the_root() {
    let backend = DocBackend::new("light".to_string());
    backend.verify().unwrap();
    let mut out = DocBuilder::new();
    backend.write_doc(&mut out, "..", "<p>content</p>");
    assert!(out.buf.starts_with("<html><head>"));
    assert!(out.buf.contains("href=\"../normalize.css\""));
    assert!(out.buf.contains("href=\"../doc.css\""));
    assert!(out.buf.ends_with("<p>content</p></body></html>"));
}
