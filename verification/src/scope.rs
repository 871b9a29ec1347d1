//! The lexical context used while converting a file: the current package,
//! the file's import-prefix bindings, the configured field-naming policy,
//! and the path of nested declarations converted so far.

use vstd::prelude::*;

use crate::model::{
    clone_strings, NameView, RpName, RpVersionedPackage, VersionedPackageView,
};

verus! {

/// Whether the character is an ASCII upper-case letter.
pub open spec fn spec_is_upper(c: char) -> bool {
    'A' <= c && c <= 'Z'
}

/// The lower-case form of an ASCII letter; other characters are unchanged.
pub open spec fn spec_lower_char(c: char) -> char {
    if spec_is_upper(c) {
        ((c as u32) + 32) as char
    } else {
        c
    }
}

/// The upper-case form of an ASCII letter; other characters are unchanged.
pub open spec fn spec_upper_char(c: char) -> char {
    if 'a' <= c && c <= 'z' {
        ((c as u32) - 32) as char
    } else {
        c
    }
}

/// The lower-camel form of an identifier: underscores are removed and the
/// character following each underscore is upper-cased. `up` records whether
/// an underscore was just crossed.
pub open spec fn spec_camel(s: Seq<char>, up: bool) -> Seq<char>
    decreases s.len(),
{
    if s.len() == 0 {
        Seq::empty()
    } else if s[0] == '_' {
        spec_camel(s.skip(1), true)
    } else if up {
        seq![spec_upper_char(s[0])] + spec_camel(s.skip(1), false)
    } else {
        seq![s[0]] + spec_camel(s.skip(1), false)
    }
}

/// The lower-snake form of an identifier: each upper-case letter is
/// lower-cased and, except at the start, preceded by an underscore.
pub open spec fn spec_snake(s: Seq<char>, first: bool) -> Seq<char>
    decreases s.len(),
{
    if s.len() == 0 {
        Seq::empty()
    } else if spec_is_upper(s[0]) && !first {
        seq!['_', spec_lower_char(s[0])] + spec_snake(s.skip(1), false)
    } else {
        seq![spec_lower_char(s[0])] + spec_snake(s.skip(1), false)
    }
}

/// A field-naming policy: how a declared identifier is turned into its
/// default wire alias.
#[derive(Clone, Copy, Debug, PartialEq, Eq, Structural)]
pub enum Naming {
    LowerCamel,
    LowerSnake,
}

impl Naming {
    /// The alias the policy produces for an identifier.
    pub open spec fn spec_convert(self, s: Seq<char>) -> Seq<char> {
        match self {
            Naming::LowerCamel => spec_camel(s, false),
            Naming::LowerSnake => spec_snake(s, true),
        }
    }

    /// Convert an identifier under the policy.
    pub fn convert(&self, input: &str) -> (r: String)
        ensures
            r@ == self.spec_convert(input@),
    {
        let len = input.unicode_len();
        let mut out = String::new();
        proof {
            assert(input@.skip(0) =~= input@);
        }
        match self {
            Naming::LowerCamel => {
                let mut up = false;
                let mut i: usize = 0;
                proof {
                    assert(out@ + spec_camel(input@, false) =~= spec_camel(input@, false));
                }
                while i < len
                    invariant
                        i <= len,
                        len == input@.len(),
                        spec_camel(input@, false) == out@ + spec_camel(
                            input@.skip(i as int),
                            up,
                        ),
                    decreases len - i,
                {
                    let c = input.get_char(i);
                    let ghost rest = input@.skip(i as int);
                    proof {
                        assert(rest[0] == c);
                        assert(rest.skip(1) =~= input@.skip(i + 1));
                    }
                    if c == '_' {
                        up = true;
                    } else if up {
                        crate::text::push_char(&mut out, upper_char(c));
                        up = false;
                        proof {
                            assert(out@ + spec_camel(input@.skip(i + 1), false) =~= spec_camel(
                                input@,
                                false,
                            ));
                        }
                    } else {
                        crate::text::push_char(&mut out, c);
                        proof {
                            assert(out@ + spec_camel(input@.skip(i + 1), false) =~= spec_camel(
                                input@,
                                false,
                            ));
                        }
                    }
                    i = i + 1;
                }
                proof {
                    assert(input@.skip(len as int) =~= Seq::<char>::empty());
                    assert(out@ =~= spec_camel(input@, false));
                }
            },
            Naming::LowerSnake => {
                let mut first = true;
                let mut i: usize = 0;
                proof {
                    assert(out@ + spec_snake(input@, true) =~= spec_snake(input@, true));
                }
                while i < len
                    invariant
                        i <= len,
                        len == input@.len(),
                        spec_snake(input@, true) == out@ + spec_snake(
                            input@.skip(i as int),
                            first,
                        ),
                    decreases len - i,
                {
                    let c = input.get_char(i);
                    let ghost rest = input@.skip(i as int);
                    proof {
                        assert(rest[0] == c);
                        assert(rest.skip(1) =~= input@.skip(i + 1));
                    }
                    if is_upper(c) && !first {
                        crate::text::push_char(&mut out, '_');
                        crate::text::push_char(&mut out, lower_char(c));
                    } else {
                        crate::text::push_char(&mut out, lower_char(c));
                    }
                    first = false;
                    proof {
                        assert(out@ + spec_snake(input@.skip(i + 1), false) =~= spec_snake(
                            input@,
                            true,
                        ));
                    }
                    i = i + 1;
                }
                proof {
                    assert(input@.skip(len as int) =~= Seq::<char>::empty());
                    assert(out@ =~= spec_snake(input@, true));
                }
            },
        }
        out
    }
}

/// Whether the character is an ASCII upper-case letter.
pub fn is_upper(c: char) -> (r: bool)
    ensures
        r == spec_is_upper(c),
{
    c >= 'A' && c <= 'Z'
}

/// The lower-case form of an ASCII letter.
pub fn lower_char(c: char) -> (r: char)
    ensures
        r == spec_lower_char(c),
{
    if c >= 'A' && c <= 'Z' {
        (((c as u32) + 32) as u8) as char
    } else {
        c
    }
}

/// The upper-case form of an ASCII letter.
pub fn upper_char(c: char) -> (r: char)
    ensures
        r == spec_upper_char(c),
{
    if c >= 'a' && c <= 'z' {
        (((c as u32) - 32) as u8) as char
    } else {
        c
    }
}

/// The first bound package for the prefix, if any.
pub open spec fn spec_lookup_prefix(
    prefixes: Seq<(Seq<char>, VersionedPackageView)>,
    prefix: Seq<char>,
) -> Option<VersionedPackageView>
    decreases prefixes.len(),
{
    if prefixes.len() == 0 {
        None
    } else if prefixes[0].0 == prefix {
        Some(prefixes[0].1)
    } else {
        spec_lookup_prefix(prefixes.skip(1), prefix)
    }
}

/// The view of a scope.
pub struct ScopeView {
    pub package: VersionedPackageView,
    pub prefixes: Seq<(Seq<char>, VersionedPackageView)>,
    pub naming: Option<Naming>,
    pub path: Seq<Seq<char>>,
}

/// The name a scope stands for: its package and nested-declaration path.
pub open spec fn spec_scope_name(sv: ScopeView) -> NameView {
    NameView { prefix: None, package: sv.package, parts: sv.path }
}

/// The scope of a declaration nested under `name`.
pub open spec fn spec_child(sv: ScopeView, name: Seq<char>) -> ScopeView {
    ScopeView { path: sv.path.push(name), ..sv }
}

/// The lexical context of a conversion: the current package, the import
/// prefixes bound by the file's `use` declarations, the configured
/// field-naming policy, and the nested-declaration path.
#[derive(Debug)]
pub struct Scope {
    pub package: RpVersionedPackage,
    pub prefixes: Vec<(String, RpVersionedPackage)>,
    pub naming: Option<Naming>,
    pub path: Vec<String>,
}

impl View for Scope {
    type V = ScopeView;

    open spec fn view(&self) -> ScopeView {
        ScopeView {
            package: self.package@,
            prefixes: self.prefixes.deep_view(),
            naming: self.naming,
            path: self.path.deep_view(),
        }
    }
}

impl Scope {
    /// A root scope for a file of the given package.
    pub fn new(
        package: RpVersionedPackage,
        prefixes: Vec<(String, RpVersionedPackage)>,
        naming: Option<Naming>,
    ) -> (r: Scope)
        ensures
            r.package == package,
            r.prefixes == prefixes,
            r.naming == naming,
            r.path@.len() == 0,
    {
        Scope { package, prefixes, naming, path: Vec::new() }
    }

    /// The child scope for a declaration nested under `name`.
    pub fn child(&self, name: String) -> (r: Scope)
        ensures
            r@ == spec_child(self@, name@),
    {
        let mut path = clone_strings(&self.path);
        path.push(name);
        let mut prefixes: Vec<(String, RpVersionedPackage)> = Vec::new();
        let mut i: usize = 0;
        while i < self.prefixes.len()
            invariant
                i <= self.prefixes@.len(),
                prefixes@.len() == i,
                forall|j: int|
                    0 <= j < i ==> #[trigger] prefixes@[j].0@ == self.prefixes@[j].0@
                        && prefixes@[j].1@ == self.prefixes@[j].1@,
            decreases self.prefixes@.len() - i,
        {
            let (prefix, package) = &self.prefixes[i];
            prefixes.push((crate::model::clone_string(prefix), package.duplicate()));
            i = i + 1;
        }
        proof {
            assert forall|j: int|
                0 <= j < prefixes@.len() implies prefixes.deep_view()[j]
                == self.prefixes.deep_view()[j] by {
                assert(prefixes@[j].0@ == self.prefixes@[j].0@);
                assert(prefixes@[j].1@ == self.prefixes@[j].1@);
            }
            assert(prefixes.deep_view() =~= self.prefixes.deep_view());
            assert(path.deep_view() =~= self.path.deep_view().push(name@));
        }
        Scope { package: self.package.duplicate(), prefixes, naming: self.naming, path }
    }

    /// The fully qualified name of the declaration this scope stands in:
    /// the scope's package and the nested-declaration path.
    pub fn as_name(&self) -> (r: RpName)
        ensures
            r@ == spec_scope_name(self@),
    {
        RpName {
            prefix: None,
            package: self.package.duplicate(),
            parts: clone_strings(&self.path),
        }
    }

    /// The package bound to an import prefix, if the file binds it.
    pub fn lookup_prefix(&self, prefix: &str) -> (r: Option<&RpVersionedPackage>)
        ensures
            match r {
                Some(p) => spec_lookup_prefix(self.prefixes.deep_view(), prefix@) == Some(p@),
                None => spec_lookup_prefix(self.prefixes.deep_view(), prefix@) is None,
            },
    {
        let ghost all = self.prefixes.deep_view();
        let mut i: usize = 0;
        proof {
            assert(all.skip(0) =~= all);
        }
        while i < self.prefixes.len()
            invariant
                i <= self.prefixes@.len(),
                all == self.prefixes.deep_view(),
                spec_lookup_prefix(all, prefix@) == spec_lookup_prefix(
                    all.skip(i as int),
                    prefix@,
                ),
            decreases self.prefixes@.len() - i,
        {
            let (bound, package) = &self.prefixes[i];
            proof {
                assert(all.skip(i as int)[0] == all[i as int]);
                assert(all.skip(i as int).skip(1) =~= all.skip(i + 1));
            }
            if crate::model::str_eq(bound.as_str(), prefix) {
                return Some(package);
            }
            i = i + 1;
        }
        proof {
            assert(all.skip(self.prefixes@.len() as int) =~= Seq::<(
                Seq<char>,
                VersionedPackageView,
            )>::empty());
        }
        None
    }

    /// The scope's package.
    pub fn package(&self) -> (r: RpVersionedPackage)
        ensures
            r@ == self.package@,
    {
        self.package.duplicate()
    }

    /// The configured field-naming policy.
    pub fn naming(&self) -> (r: Option<Naming>)
        ensures
            r == self.naming,
    {
        self.naming
    }
}

} // verus!
