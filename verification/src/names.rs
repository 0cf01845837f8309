//! Type names, and their qualified form.
use crate::atom::Atom;
use crate::model::{is_internal_name, reserved_namespace, NameView};
use crate::text::{copy_strings, join, joined, str_eq, strings_eq, texts};
use vstd::prelude::*;

verus! {

/// A name with its namespace: `path` holds the components of the namespace,
/// the outermost first, and `id` the basename.
#[derive(Debug)]
pub struct InternalName {
    pub id: String,
    pub path: Vec<String>,
}

/// A name as it is written in a schema. It may carry a namespace or not.
#[derive(Debug)]
pub struct RawName(pub InternalName);

/// A name that can be brought into one qualified form.
pub trait TypeName: Sized {
    /// The qualified form of the name.
    spec fn qualified(&self) -> NameView;

    /// The qualified form of the name.
    fn qualify(&self) -> (name: InternalName)
        ensures
            name@ == self.qualified(),
    ;
}

/// The qualified forms of a list of names, read as a set.
pub open spec fn name_set<N: TypeName>(names: Seq<N>) -> Set<NameView> {
    names.map_values(|n: N| n.qualified()).to_set()
}

/// How a qualified name is written: its namespace components and its
/// basename with `::` between them.
pub open spec fn name_text(name: NameView) -> Seq<char> {
    joined(name.namespace.push(name.basename), "::"@)
}

impl View for InternalName {
    type V = NameView;

    open spec fn view(&self) -> NameView {
        NameView { basename: self.id@, namespace: texts(self.path@) }
    }
}

impl InternalName {
    /// The name `id` in the namespace `path`.
    pub fn new(id: String, path: Vec<String>) -> (name: Self)
        ensures
            name.id == id,
            name.path == path,
    {
        InternalName { id, path }
    }

    /// The name `id` without namespace.
    pub fn unqualified(id: String) -> (name: Self)
        ensures
            name@ == (NameView { basename: id@, namespace: Seq::empty() }),
    {
        let name = InternalName { id, path: Vec::new() };
        assert(name@.namespace =~= Seq::empty());
        name
    }

    /// A copy of the name.
    pub fn duplicate(&self) -> (copy: Self)
        ensures
            copy@ == self@,
    {
        InternalName { id: self.id.clone(), path: copy_strings(&self.path) }
    }
}

impl View for RawName {
    type V = NameView;

    open spec fn view(&self) -> NameView {
        self.0@
    }
}

impl TypeName for InternalName {
    open spec fn qualified(&self) -> NameView {
        self@
    }

    /// An internal name is qualified as it stands.
    fn qualify(&self) -> (name: InternalName)
        ensures
            name@ == self@,
    {
        self.duplicate()
    }
}

impl TypeName for RawName {
    open spec fn qualified(&self) -> NameView {
        self.0@
    }

    /// A raw name is qualified with no namespace: it stays as written.
    fn qualify(&self) -> (name: InternalName)
        ensures
            name@ == self.0@,
    {
        self.0.duplicate()
    }
}

impl Atom for InternalName {
    type Id = NameView;

    open spec fn id(&self) -> NameView {
        self@
    }

    open spec fn text(&self) -> Seq<char> {
        name_text(self@)
    }

    fn same(&self, other: &Self) -> (b: bool)
        ensures
            b == (self@ == other@),
    {
        self.id == other.id && strings_eq(&self.path, &other.path)
    }

    fn render(&self) -> (s: String)
        ensures
            s@ == name_text(self@),
    {
        let mut parts = copy_strings(&self.path);
        let ghost path = parts@;
        parts.push(self.id.clone());
        assert(texts(parts@) == self@.namespace.push(self@.basename)) by {
            assert(texts(path) == self@.namespace);
            assert(texts(parts@) =~= texts(path).push(self.id@));
        }
        proof {
            reveal_strlit("::");
        }
        let s = join(&parts, "::");
        assert(self.text() == joined(texts(parts@), "::"@));
        s
    }
}

impl Atom for Option<String> {
    type Id = Option<Seq<char>>;

    open spec fn id(&self) -> Option<Seq<char>> {
        match self {
            Some(s) => Some(s@),
            None => None,
        }
    }

    /// A namespace is named by its name, the root namespace by nothing.
    open spec fn text(&self) -> Seq<char> {
        match self {
            Some(s) => s@,
            None => Seq::empty(),
        }
    }

    fn same(&self, other: &Self) -> (b: bool)
        ensures
            b == (self.id() == other.id()),
    {
        match (self, other) {
            (Some(a), Some(b)) => *a == *b,
            (None, None) => true,
            _ => false,
        }
    }

    fn render(&self) -> (s: String)
        ensures
            s@ == self.text(),
    {
        match self {
            Some(a) => a.clone(),
            None => String::new(),
        }
    }
}

/// Whether `name`, once qualified, is the built-in type called `expected`:
/// its basename is `expected` and its namespace is exactly `__cedar`.
pub fn is_internal_type<N: TypeName>(name: &N, expected: &str) -> (b: bool)
    ensures
        b == is_internal_name(name.qualified(), expected@),
{
    let qualified = name.qualify();
    if qualified.path.len() != 1 {
        assert(qualified@.namespace.len() != 1);
        return false;
    }
    let reserved = str_eq(qualified.path[0].as_str(), "__cedar");
    let basename = str_eq(qualified.id.as_str(), expected);
    proof {
        let expected_namespace = seq![reserved_namespace()];
        if reserved {
            assert(qualified@.namespace =~= expected_namespace);
        } else {
            assert(qualified@.namespace[0] != expected_namespace[0]);
        }
    }
    basename && reserved
}

} // verus!
