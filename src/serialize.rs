//! Writing game trees as SGF text.
use vstd::prelude::*;
use crate::game_tree::{game_tree_text, GameTree};
use crate::text::push_all;

verus! {

/// The text of a collection: each tree's text, one after the other.
pub open spec fn collection_text(ts: Seq<GameTree>) -> Seq<char>
    decreases ts.len(),
{
    if ts.len() == 0 {
        Seq::empty()
    } else {
        collection_text(ts.drop_last()) + game_tree_text(ts.last())
    }
}

/// Writes a collection of game trees as SGF, each tree in its own
/// parentheses, with nothing between them.
pub fn serialize(gametrees: &Vec<GameTree>) -> (r: String)
    ensures
        r@ == collection_text(gametrees@),
{
    let mut out = String::new();
    let mut i: usize = 0;
    while i < gametrees.len()
        invariant
            i <= gametrees@.len(),
            out@ == collection_text(gametrees@.subrange(0, i as int)),
        decreases gametrees.len() - i,
    {
        let t = gametrees[i].serialize();
        push_all(&mut out, t.as_str());
        assert(gametrees@.subrange(0, i + 1).drop_last() =~= gametrees@.subrange(0, i as int));
        i = i + 1;
    }
    assert(gametrees@.subrange(0, gametrees@.len() as int) =~= gametrees@);
    out
}

} // verus!
