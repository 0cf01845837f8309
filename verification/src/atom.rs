//! Values that are compared by strict equality: the keys of maps and the
//! elements of sets.
use vstd::prelude::*;

verus! {

/// A value with a mathematical identity, an equality test that decides that
/// identity, and a text for diagnostics.
pub trait Atom: Sized {
    /// What the value stands for.
    type Id;

    /// The identity of the value.
    spec fn id(&self) -> Self::Id;

    /// The text by which a diagnostic names the value.
    spec fn text(&self) -> Seq<char>;

    /// Whether the two values have the same identity.
    fn same(&self, other: &Self) -> (b: bool)
        ensures
            b == (self.id() == other.id()),
    ;

    /// The text by which a diagnostic names the value.
    fn render(&self) -> (s: String)
        ensures
            s@ == self.text(),
    ;
}

impl Atom for String {
    type Id = Seq<char>;

    open spec fn id(&self) -> Seq<char> {
        self@
    }

    open spec fn text(&self) -> Seq<char> {
        self@
    }

    fn same(&self, other: &Self) -> (b: bool)
        ensures
            b == (self@ == other@),
    {
        *self == *other
    }

    fn render(&self) -> (s: String)
        ensures
            s@ == self@,
    {
        self.clone()
    }
}

} // verus!
