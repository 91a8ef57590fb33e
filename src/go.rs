//! Types specific to the game of Go: points, moves and the Go property set.
use vstd::prelude::*;
use crate::game_tree::GameTree;
use crate::parser::{parse_outcome, tree_matches, SgfParseError};
use crate::props::parse::{views, FromCompressedList};
use crate::sgf_node::SgfNode;
use crate::text::chars_of;
use crate::values::{FromSgf, ToSgf};

verus! {

/// An SGF Point (and Stone) for Go: column `x` and row `y`, counted from 0.
#[derive(Copy, Clone, Debug, Eq, PartialEq, Hash, Structural)]
pub struct Point {
    pub x: u8,
    pub y: u8,
}

/// A property of a Go game: the general catalog together with `HA`, `KM`, `TB` and `TW`.
pub type Prop = crate::props::Prop<Point, Move>;

/// An SGF Stone for Go, which is a point.
pub type Stone = Point;

/// An SGF Move for Go: a pass, or a stone played on a point.
#[derive(Copy, Clone, Debug, Eq, PartialEq, Hash, Structural)]
pub enum Move {
    Pass,
    Move(Point),
}

impl View for Point {
    type V = Point;

    open spec fn view(&self) -> Point {
        *self
    }
}

impl View for Move {
    type V = Move;

    open spec fn view(&self) -> Move {
        *self
    }
}

/// The coordinate that a letter stands for: `a`..`z` are 0..25, `A`..`Z` are 0..25 too.
pub open spec fn coord_of(c: char) -> Option<u8> {
    if 'a' <= c && c <= 'z' {
        Some((c as u32 - 'a' as u32) as u8)
    } else if 'A' <= c && c <= 'Z' {
        Some((c as u32 - 'A' as u32) as u8)
    } else {
        None
    }
}

/// The Go point that a two-letter text names.
pub open spec fn point_text(s: Seq<char>) -> Option<Point> {
    if s.len() == 2 && coord_of(s[0]) is Some && coord_of(s[1]) is Some {
        Some(Point { x: coord_of(s[0])->0, y: coord_of(s[1])->0 })
    } else {
        None
    }
}

/// The letter written for a coordinate (`a` for 0), wrapping past 255.
pub open spec fn letter_of(v: u8) -> char {
    ((v as int + 97) % 256) as u8 as char
}

fn coord(c: char) -> (r: Option<u8>)
    ensures
        r == coord_of(c),
{
    if 'a' <= c && c <= 'z' {
        Some((c as u32 - 'a' as u32) as u8)
    } else if 'A' <= c && c <= 'Z' {
        Some((c as u32 - 'A' as u32) as u8)
    } else {
        None
    }
}

impl FromSgf for Point {
    open spec fn sgf_parse(s: Seq<char>) -> Option<Point> {
        point_text(s)
    }

    fn from_sgf(s: &str) -> (r: Option<Point>) {
        let cs = chars_of(s);
        if cs.len() != 2 {
            return None;
        }
        match (coord(cs[0]), coord(cs[1])) {
            (Some(x), Some(y)) => Some(Point { x, y }),
            _ => None,
        }
    }
}

impl ToSgf for Point {
    open spec fn sgf_text(v: Point) -> Seq<char> {
        seq![letter_of(v.x), letter_of(v.y)]
    }

    fn to_sgf(&self) -> (r: String) {
        let mut out = String::new();
        out.push(self.x.wrapping_add(97) as char);
        out.push(self.y.wrapping_add(97) as char);
        assert(out@ =~= Self::sgf_text(self@));
        out
    }
}

impl FromSgf for Move {
    open spec fn sgf_parse(s: Seq<char>) -> Option<Move> {
        if s.len() == 0 {
            Some(Move::Pass)
        } else {
            match point_text(s) {
                Some(p) => Some(Move::Move(p)),
                None => None,
            }
        }
    }

    fn from_sgf(s: &str) -> (r: Option<Move>) {
        if s.is_empty() {
            Some(Move::Pass)
        } else {
            match Point::from_sgf(s) {
                Some(p) => Some(Move::Move(p)),
                None => None,
            }
        }
    }
}

impl ToSgf for Move {
    open spec fn sgf_text(v: Move) -> Seq<char> {
        match v {
            Move::Pass => Seq::empty(),
            Move::Move(p) => Point::sgf_text(p),
        }
    }

    fn to_sgf(&self) -> (r: String) {
        match self {
            Move::Pass => String::new(),
            Move::Move(p) => p.to_sgf(),
        }
    }
}

/// The points of column `x` from row `y1` to row `y2`, top to bottom.
pub open spec fn column(x: int, y1: int, y2: int) -> Seq<Point>
    decreases y2 - y1 + 1,
{
    if y2 < y1 {
        Seq::empty()
    } else {
        column(x, y1, y2 - 1).push(Point { x: x as u8, y: y2 as u8 })
    }
}

/// The points of the rectangle with corners `(x1, y1)` and `(x2, y2)`, column by column.
pub open spec fn rectangle(x1: int, x2: int, y1: int, y2: int) -> Seq<Point>
    decreases x2 - x1 + 1,
{
    if x2 < x1 {
        Seq::empty()
    } else {
        rectangle(x1, x2 - 1, y1, y2) + column(x2, y1, y2)
    }
}

impl FromCompressedList for Point {
    /// Every point of the rectangle from the upper-left to the lower-right
    /// corner; nothing when the corners are the wrong way round.
    open spec fn spec_expand(ul: Point, lr: Point) -> Option<Seq<Point>> {
        if ul.x > lr.x || ul.y > lr.y {
            None
        } else {
            Some(rectangle(ul.x as int, lr.x as int, ul.y as int, lr.y as int))
        }
    }

    fn from_compressed_list(ul: &Point, lr: &Point) -> (r: Option<Vec<Point>>) {
        if ul.x > lr.x || ul.y > lr.y {
            return None;
        }
        let mut out: Vec<Point> = Vec::new();
        let mut x: u32 = ul.x as u32;
        while x <= lr.x as u32
            invariant
                ul.x <= x <= lr.x + 1,
                ul.y <= lr.y,
                out@ == rectangle(ul.x as int, x - 1, ul.y as int, lr.y as int),
            decreases lr.x + 1 - x,
        {
            let mut y: u32 = ul.y as u32;
            while y <= lr.y as u32
                invariant
                    ul.x <= x <= lr.x,
                    ul.y <= y <= lr.y + 1,
                    out@ == rectangle(ul.x as int, x - 1, ul.y as int, lr.y as int) + column(
                        x as int,
                        ul.y as int,
                        y - 1,
                    ),
                decreases lr.y + 1 - y,
            {
                out.push(Point { x: x as u8, y: y as u8 });
                assert(out@ =~= rectangle(ul.x as int, x - 1, ul.y as int, lr.y as int) + column(
                    x as int,
                    ul.y as int,
                    y as int,
                ));
                y = y + 1;
            }
            x = x + 1;
        }
        assert(views(out@) =~= out@);
        Some(out)
    }

    fn same(&self, other: &Point) -> (r: bool) {
        self.x == other.x && self.y == other.y
    }

    fn copy_point(&self) -> (r: Point) {
        *self
    }
}

/// Parses `text` as a collection of Go games, with the default options.
/// Fails with `UnexpectedGameType` when a tree records another game.
pub fn parse(text: &str) -> (r: Result<Vec<SgfNode<Prop>>, SgfParseError>)
    ensures
        match parse_outcome(text@, true, false) {
            Err(e) => r == Err::<Vec<SgfNode<Prop>>, SgfParseError>(e),
            Ok(ts) => if forall|i: int| 0 <= i < ts.len() ==> (#[trigger] ts[i]).0 == crate::game_tree::GameType::Go {
                r matches Ok(v) && v@.len() == ts.len() && forall|i: int|
                    0 <= i < ts.len() ==> tree_matches(
                        GameTree::GoGame(#[trigger] v@[i]),
                        ts[i].0,
                        ts[i].1,
                    )
            } else {
                r == Err::<Vec<SgfNode<Prop>>, SgfParseError>(SgfParseError::UnexpectedGameType)
            },
        },
{
    let trees = match crate::parser::parse(text) {
        Ok(t) => t,
        Err(e) => {
            return Err(e);
        },
    };
    let ghost ts = parse_outcome(text@, true, false)->Ok_0;
    let ghost all = trees@;
    let mut out: Vec<SgfNode<Prop>> = Vec::new();
    let mut rest = trees;
    let mut k: usize = 0;
    let n = rest.len();
    assert(all.subrange(0, all.len() as int) =~= all);
    while rest.len() > 0
        invariant
            crate::parser::trees_match(all, ts),
            n == all.len(),
            parse_outcome(text@, true, false) == Ok::<Seq<(crate::game_tree::GameType, crate::assemble::RawNode)>, SgfParseError>(ts),
            k <= all.len(),
            rest@ == all.subrange(k as int, all.len() as int),
            out@.len() == k,
            forall|i: int| 0 <= i < k ==> all[i] == GameTree::GoGame(#[trigger] out@[i]),
            forall|i: int| 0 <= i < k ==> (#[trigger] ts[i]).0 == crate::game_tree::GameType::Go,
        decreases rest.len(),
    {
        let t = rest.remove(0);
        assert(t == all[k as int]);
        assert(rest@ =~= all.subrange(k + 1, all.len() as int));
        match t {
            GameTree::GoGame(n) => {
                out.push(n);
                assert(tree_matches(all[k as int], ts[k as int].0, ts[k as int].1));
            },
            GameTree::Unknown(_) => {
                assert(tree_matches(all[k as int], ts[k as int].0, ts[k as int].1));
                assert(ts[k as int].0 != crate::game_tree::GameType::Go);
                assert(!(forall|i: int|
                    0 <= i < ts.len() ==> (#[trigger] ts[i]).0 == crate::game_tree::GameType::Go));
                return Err(SgfParseError::UnexpectedGameType);
            },
        }
        k = k + 1;
    }
    assert(k == all.len());
    assert forall|i: int| 0 <= i < ts.len() implies tree_matches(
        GameTree::GoGame(#[trigger] out@[i]),
        ts[i].0,
        ts[i].1,
    ) by {
        assert(all[i] == GameTree::GoGame(out@[i]));
    }
    Ok(out)
}

} // verus!
