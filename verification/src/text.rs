//! String-like values that can name or fill an attribute.

use vstd::prelude::*;

verus! {

/// A value that stands for a piece of text and can be turned into an owned `String`.
///
/// Everything the data model says about such a value is said about `text()`.
pub trait AttributeText: Sized {
    /// The characters this value stands for.
    spec fn text(&self) -> Seq<char>;

    /// An owned copy of the text.
    fn to_text(&self) -> (s: String)
        ensures
            s@ == self.text(),
    ;

    /// The text as an owned `String`, consuming the value.
    fn into_text(self) -> (s: String)
        ensures
            s@ == self.text(),
    ;
}

impl<'a> AttributeText for &'a str {
    open spec fn text(&self) -> Seq<char> {
        (**self)@
    }

    fn to_text(&self) -> (s: String) {
        (*self).to_owned()
    }

    fn into_text(self) -> (s: String) {
        self.to_owned()
    }
}

impl AttributeText for String {
    open spec fn text(&self) -> Seq<char> {
        self@
    }

    fn to_text(&self) -> (s: String) {
        self.clone()
    }

    fn into_text(self) -> (s: String) {
        self
    }
}

impl<'a> AttributeText for &'a String {
    open spec fn text(&self) -> Seq<char> {
        (**self)@
    }

    fn to_text(&self) -> (s: String) {
        (*self).clone()
    }

    fn into_text(self) -> (s: String) {
        self.clone()
    }
}

/// The texts of a sequence of (name, value) pairs, in the same order.
pub open spec fn pair_texts<K: AttributeText, V: AttributeText>(pairs: Seq<(K, V)>) -> Seq<
    (Seq<char>, Seq<char>),
> {
    Seq::new(pairs.len(), |i: int| (pairs[i].0.text(), pairs[i].1.text()))
}

} // verus!
