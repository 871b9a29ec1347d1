//! Generated-code building blocks for method declarations: a name, its
//! decorators, arguments and body elements, collected in order.

use vstd::prelude::*;

use crate::model::clone_string;

verus! {

/// A decorator line attached to a generated method.
#[derive(Debug)]
pub struct DecoratorSpec {
    pub line: String,
}

/// One statement of generated code.
#[derive(Debug)]
pub struct Statement {
    pub parts: Vec<String>,
}

/// One element of a generated method body.
#[derive(Debug)]
pub struct ElementSpec {
    pub lines: Vec<String>,
}

/// A generated method: its name, decorators, arguments and body elements.
#[derive(Debug)]
pub struct MethodSpec {
    pub name: String,
    pub decorators: Vec<DecoratorSpec>,
    pub arguments: Vec<Statement>,
    pub elements: Vec<ElementSpec>,
}

impl MethodSpec {
    /// An empty method with the given name.
    pub fn new(name: &str) -> (r: MethodSpec)
        ensures
            r.name@ == name@,
            r.decorators@.len() == 0,
            r.arguments@.len() == 0,
            r.elements@.len() == 0,
    {
        let owned = clone_string(&name.to_owned());
        MethodSpec {
            name: owned,
            decorators: Vec::new(),
            arguments: Vec::new(),
            elements: Vec::new(),
        }
    }

    /// Append a decorator.
    pub fn push_decorator(&mut self, decorator: DecoratorSpec)
        ensures
            final(self).decorators@ == old(self).decorators@.push(decorator),
            final(self).name == old(self).name,
            final(self).arguments == old(self).arguments,
            final(self).elements == old(self).elements,
    {
        self.decorators.push(decorator);
    }

    /// Append an argument.
    pub fn push_argument(&mut self, argument: Statement)
        ensures
            final(self).arguments@ == old(self).arguments@.push(argument),
            final(self).name == old(self).name,
            final(self).decorators == old(self).decorators,
            final(self).elements == old(self).elements,
    {
        self.arguments.push(argument);
    }

    /// Append a body element.
    pub fn push(&mut self, element: ElementSpec)
        ensures
            final(self).elements@ == old(self).elements@.push(element),
            final(self).name == old(self).name,
            final(self).decorators == old(self).decorators,
            final(self).arguments == old(self).arguments,
    {
        self.elements.push(element);
    }
}

} // verus!
