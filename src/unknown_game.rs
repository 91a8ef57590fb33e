//! Types for games other than Go, whose points, stones and moves are kept as
//! their text.
use vstd::prelude::*;
use crate::props::parse::{views, FromCompressedList};
use crate::text::{escape_string, escaped, owned, push_all};
use crate::values::{FromSgf, ToSgf};

verus! {

/// A property of a game other than Go, read with the general catalog.
pub type Prop = crate::props::Prop<String, String>;

/// A point of an unknown game: its text.
pub type Point = String;

/// A stone of an unknown game: its text.
pub type Stone = String;

/// A move of an unknown game: its text.
pub type Move = String;

impl FromSgf for String {
    open spec fn sgf_parse(s: Seq<char>) -> Option<Seq<char>> {
        Some(s)
    }

    fn from_sgf(s: &str) -> (r: Option<String>) {
        Some(owned(s))
    }
}

impl ToSgf for String {
    open spec fn sgf_text(v: Seq<char>) -> Seq<char> {
        escaped(v)
    }

    fn to_sgf(&self) -> (r: String) {
        escape_string(self.as_str())
    }
}

impl FromCompressedList for String {
    /// Without a geometry a rectangle cannot be expanded: the entry stays one
    /// opaque point, its text `ul:lr`.
    open spec fn spec_expand(ul: Seq<char>, lr: Seq<char>) -> Option<Seq<Seq<char>>> {
        Some(seq![ul + seq![':'] + lr])
    }

    fn from_compressed_list(ul: &String, lr: &String) -> (r: Option<Vec<String>>) {
        let mut s = owned(ul.as_str());
        s.push(':');
        push_all(&mut s, lr.as_str());
        assert(s@ =~= ul@ + seq![':'] + lr@);
        let mut v: Vec<String> = Vec::new();
        v.push(s);
        assert(v@ =~= seq![s]);
        assert(views(v@) =~= seq![ul@ + seq![':'] + lr@]);
        Some(v)
    }

    fn same(&self, other: &String) -> (r: bool) {
        self.eq(other)
    }

    fn copy_point(&self) -> (r: String) {
        owned(self.as_str())
    }
}

} // verus!
