//! A parsed game tree, typed by the game it records.
use vstd::prelude::*;
use crate::go;
use crate::parser::SgfParseError;
use crate::sgf_node::SgfNode;
use crate::unknown_game;

verus! {

/// The game that a game tree records, from the `GM` property of its root.
#[derive(Debug, Clone, Copy, PartialEq, Eq, Structural)]
pub enum GameType {
    Go,
    Unknown,
}

/// One game tree of a collection: a Go game, or a game that is read with
/// the general property catalog.
#[derive(Clone, Debug, PartialEq)]
pub enum GameTree {
    GoGame(SgfNode<go::Prop>),
    Unknown(SgfNode<unknown_game::Prop>),
}

impl GameTree {
    /// The root node of a Go game.
    pub fn into_go_node(self) -> (r: Result<SgfNode<go::Prop>, SgfParseError>)
        ensures
            self matches GameTree::GoGame(n) ==> r == Ok::<SgfNode<go::Prop>, SgfParseError>(n),
            self is Unknown ==> r == Err::<SgfNode<go::Prop>, SgfParseError>(
                SgfParseError::UnexpectedGameType,
            ),
    {
        match self {
            GameTree::GoGame(n) => Ok(n),
            GameTree::Unknown(_) => Err(SgfParseError::UnexpectedGameType),
        }
    }

    /// The root node of a Go game, borrowed.
    pub fn as_go_node(&self) -> (r: Result<&SgfNode<go::Prop>, SgfParseError>)
        ensures
            self matches GameTree::GoGame(n) ==> r matches Ok(m) && *m == n,
            self is Unknown ==> r == Err::<&SgfNode<go::Prop>, SgfParseError>(
                SgfParseError::UnexpectedGameType,
            ),
    {
        match self {
            GameTree::GoGame(n) => Ok(n),
            GameTree::Unknown(_) => Err(SgfParseError::UnexpectedGameType),
        }
    }

    /// The game that the tree records.
    pub fn gametype(&self) -> (r: GameType)
        ensures
            r == (if self is GoGame {
                GameType::Go
            } else {
                GameType::Unknown
            }),
    {
        match self {
            GameTree::GoGame(_) => GameType::Go,
            GameTree::Unknown(_) => GameType::Unknown,
        }
    }

    /// Writes the tree as SGF: its root's text in parentheses.
    pub fn serialize(&self) -> (r: String)
        ensures
            r@ == game_tree_text(*self),
    {
        match self {
            GameTree::GoGame(n) => n.serialize(),
            GameTree::Unknown(n) => n.serialize(),
        }
    }
}

/// The SGF text of a game tree.
pub open spec fn game_tree_text(t: GameTree) -> Seq<char> {
    match t {
        GameTree::GoGame(n) => seq!['('] + crate::sgf_node::node_text(n) + seq![')'],
        GameTree::Unknown(n) => seq!['('] + crate::sgf_node::node_text(n) + seq![')'],
    }
}

impl From<SgfNode<go::Prop>> for GameTree {
    fn from(n: SgfNode<go::Prop>) -> GameTree {
        GameTree::GoGame(n)
    }
}

impl vstd::std_specs::convert::FromSpecImpl<SgfNode<go::Prop>> for GameTree {
    open spec fn obeys_from_spec() -> bool {
        true
    }

    open spec fn from_spec(n: SgfNode<go::Prop>) -> GameTree {
        GameTree::GoGame(n)
    }
}

impl From<SgfNode<unknown_game::Prop>> for GameTree {
    fn from(n: SgfNode<unknown_game::Prop>) -> GameTree {
        GameTree::Unknown(n)
    }
}

impl vstd::std_specs::convert::FromSpecImpl<SgfNode<unknown_game::Prop>> for GameTree {
    open spec fn obeys_from_spec() -> bool {
        true
    }

    open spec fn from_spec(n: SgfNode<unknown_game::Prop>) -> GameTree {
        GameTree::Unknown(n)
    }
}

} // verus!
