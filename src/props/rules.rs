//! The rules that the properties of one node must keep.
use vstd::prelude::*;
use crate::props::parse::{contains_point, views, FromCompressedList};
use crate::props::{Ident, Prop};
use crate::values::{FromSgf, PropertyType, ToSgf};

verus! {

/// A broken node rule.
#[derive(Debug, Clone, Copy, PartialEq, Eq, Structural)]
pub enum Violation {
    UnexpectedRootProperties,
    UnexpectedGameInfo,
    RepeatedMarkup,
    MultipleMoves,
    RepeatedIdentifier,
    SetupAndMove,
    KoWithoutMove,
    MultipleMoveAnnotations,
    UnexpectedMoveAnnotation,
    MultipleExclusiveAnnotations,
    InvalidProperty,
}

/// Whether some property of `ps` is `Invalid`.
pub open spec fn has_invalid<P: FromCompressedList, M: FromSgf + ToSgf>(ps: Seq<Prop<P, M>>) -> bool {
    exists|i: int| 0 <= i < ps.len() && (#[trigger] ps[i]) is Invalid
}

/// Whether two properties of `ps` share an identifier.
pub open spec fn repeated_identifier<P: FromCompressedList, M: FromSgf + ToSgf>(
    ps: Seq<Prop<P, M>>,
) -> bool {
    exists|i: int, j: int|
        0 <= i < j < ps.len() && (#[trigger] ps[i]).id_text() == (#[trigger] ps[j]).id_text()
}

/// Whether `ps` holds a property with catalog identifier `id`.
pub open spec fn has_ident<P: FromCompressedList, M: FromSgf + ToSgf>(
    ps: Seq<Prop<P, M>>,
    id: Ident,
) -> bool {
    exists|i: int| 0 <= i < ps.len() && (#[trigger] ps[i]).spec_ident() == Some(id)
}

/// Whether `ps` holds a property of category `t`.
pub open spec fn has_type<P: FromCompressedList, M: FromSgf + ToSgf>(
    ps: Seq<Prop<P, M>>,
    t: PropertyType,
) -> bool {
    exists|i: int| 0 <= i < ps.len() && (#[trigger] ps[i]).category() == Some(t)
}

/// The points that a markup property (circle, mark, select, square, triangle) marks.
pub open spec fn markup_of<P: FromCompressedList, M: FromSgf + ToSgf>(p: Prop<P, M>) -> Seq<P::V> {
    match p {
        Prop::CR(v) | Prop::MA(v) | Prop::SL(v) | Prop::SQ(v) | Prop::TR(v) => views(v@),
        _ => Seq::empty(),
    }
}

/// All the points that the markup properties of `ps` mark, in order.
pub open spec fn markup_points<P: FromCompressedList, M: FromSgf + ToSgf>(
    ps: Seq<Prop<P, M>>,
) -> Seq<P::V>
    decreases ps.len(),
{
    if ps.len() == 0 {
        Seq::empty()
    } else {
        markup_points(ps.drop_last()) + markup_of(ps.last())
    }
}

/// Whether `p` is a move annotation (bad move, doubtful, interesting, tesuji).
pub open spec fn is_move_annotation<P: FromCompressedList, M: FromSgf + ToSgf>(
    p: Prop<P, M>,
) -> bool {
    p is BM || p is DO || p is IT || p is TE
}

/// Whether `p` is an exclusive node annotation (even, unclear, good for white or black).
pub open spec fn is_node_annotation<P: FromCompressedList, M: FromSgf + ToSgf>(
    p: Prop<P, M>,
) -> bool {
    p is DM || p is UC || p is GW || p is GB
}

/// How many move annotations `ps` holds.
pub open spec fn move_annotations<P: FromCompressedList, M: FromSgf + ToSgf>(
    ps: Seq<Prop<P, M>>,
) -> nat
    decreases ps.len(),
{
    if ps.len() == 0 {
        0
    } else {
        move_annotations(ps.drop_last()) + if is_move_annotation(ps.last()) {
            1nat
        } else {
            0nat
        }
    }
}

/// How many exclusive node annotations `ps` holds.
pub open spec fn node_annotations<P: FromCompressedList, M: FromSgf + ToSgf>(
    ps: Seq<Prop<P, M>>,
) -> nat
    decreases ps.len(),
{
    if ps.len() == 0 {
        0
    } else {
        node_annotations(ps.drop_last()) + if is_node_annotation(ps.last()) {
            1nat
        } else {
            0nat
        }
    }
}

/// Whether `ps` holds a move (`B` or `W`).
pub open spec fn has_move<P: FromCompressedList, M: FromSgf + ToSgf>(ps: Seq<Prop<P, M>>) -> bool {
    has_ident(ps, Ident::B) || has_ident(ps, Ident::W)
}

/// The first rule, in this order, that the properties `ps` of a node break;
/// `is_root` tells whether the node is a root.
pub open spec fn node_violation<P: FromCompressedList, M: FromSgf + ToSgf>(
    ps: Seq<Prop<P, M>>,
    is_root: bool,
) -> Option<Violation> {
    if has_invalid(ps) {
        Some(Violation::InvalidProperty)
    } else if repeated_identifier(ps) {
        Some(Violation::RepeatedIdentifier)
    } else if has_ident(ps, Ident::B) && has_ident(ps, Ident::W) {
        Some(Violation::MultipleMoves)
    } else if !markup_points(ps).no_duplicates() {
        Some(Violation::RepeatedMarkup)
    } else if !is_root && has_type(ps, PropertyType::Root) {
        Some(Violation::UnexpectedRootProperties)
    } else if has_type(ps, PropertyType::Setup) && has_type(ps, PropertyType::Move) {
        Some(Violation::SetupAndMove)
    } else if has_ident(ps, Ident::KO) && !has_move(ps) {
        Some(Violation::KoWithoutMove)
    } else if move_annotations(ps) > 1 {
        Some(Violation::MultipleMoveAnnotations)
    } else if move_annotations(ps) == 1 && !has_move(ps) {
        Some(Violation::UnexpectedMoveAnnotation)
    } else if node_annotations(ps) > 1 {
        Some(Violation::MultipleExclusiveAnnotations)
    } else {
        None
    }
}

fn any_invalid<P: FromCompressedList, M: FromSgf + ToSgf>(ps: &Vec<Prop<P, M>>) -> (r: bool)
    ensures
        r == has_invalid(ps@),
{
    let mut i: usize = 0;
    while i < ps.len()
        invariant
            i <= ps@.len(),
            forall|k: int| 0 <= k < i ==> !(ps@[k] is Invalid),
        decreases ps.len() - i,
    {
        if let Prop::Invalid(..) = &ps[i] {
            return true;
        }
        i = i + 1;
    }
    false
}

fn any_repeated<P: FromCompressedList, M: FromSgf + ToSgf>(ps: &Vec<Prop<P, M>>) -> (r: bool)
    ensures
        r == repeated_identifier(ps@),
{
    let mut ids: Vec<String> = Vec::new();
    let mut i: usize = 0;
    while i < ps.len()
        invariant
            i <= ps@.len(),
            ids@.len() == i,
            forall|k: int| 0 <= k < i ==> (#[trigger] ids@[k])@ == ps@[k].id_text(),
        decreases ps.len() - i,
    {
        ids.push(ps[i].identifier_string());
        i = i + 1;
    }
    let mut j: usize = 0;
    while j < ids.len()
        invariant
            j <= ids@.len() == ps@.len(),
            forall|k: int| 0 <= k < ids@.len() ==> (#[trigger] ids@[k])@ == ps@[k].id_text(),
            forall|a: int, b: int| 0 <= a < b < j ==> ps@[a].id_text() != ps@[b].id_text(),
        decreases ids.len() - j,
    {
        let mut a: usize = 0;
        while a < j
            invariant
                a <= j < ids@.len() == ps@.len(),
                forall|k: int| 0 <= k < ids@.len() ==> (#[trigger] ids@[k])@ == ps@[k].id_text(),
                forall|x: int, y: int| 0 <= x < y < j ==> ps@[x].id_text() != ps@[y].id_text(),
                forall|x: int| 0 <= x < a ==> ps@[x].id_text() != ps@[j as int].id_text(),
            decreases j - a,
        {
            if ids[a].eq(&ids[j]) {
                assert(ids@[a as int]@ == ids@[j as int]@);
                return true;
            }
            a = a + 1;
        }
        j = j + 1;
    }
    false
}

fn any_ident<P: FromCompressedList, M: FromSgf + ToSgf>(ps: &Vec<Prop<P, M>>, id: Ident) -> (r:
    bool)
    ensures
        r == has_ident(ps@, id),
{
    let mut i: usize = 0;
    while i < ps.len()
        invariant
            i <= ps@.len(),
            forall|k: int| 0 <= k < i ==> (#[trigger] ps@[k]).spec_ident() != Some(id),
        decreases ps.len() - i,
    {
        if ps[i].ident() == Some(id) {
            return true;
        }
        i = i + 1;
    }
    false
}

fn any_type<P: FromCompressedList, M: FromSgf + ToSgf>(
    ps: &Vec<Prop<P, M>>,
    t: PropertyType,
) -> (r: bool)
    ensures
        r == has_type(ps@, t),
{
    let mut i: usize = 0;
    while i < ps.len()
        invariant
            i <= ps@.len(),
            forall|k: int| 0 <= k < i ==> (#[trigger] ps@[k]).category() != Some(t),
        decreases ps.len() - i,
    {
        if ps[i].category_of() == Some(t) {
            return true;
        }
        i = i + 1;
    }
    false
}

fn markup_repeats<P: FromCompressedList, M: FromSgf + ToSgf>(ps: &Vec<Prop<P, M>>) -> (r: bool)
    ensures
        r == !markup_points(ps@).no_duplicates(),
{
    let mut seen: Vec<P> = Vec::new();
    let mut i: usize = 0;
    while i < ps.len()
        invariant
            i <= ps@.len(),
            views(seen@) == markup_points(ps@.subrange(0, i as int)),
            views(seen@).no_duplicates(),
        decreases ps.len() - i,
    {
        assert(ps@.subrange(0, i + 1).drop_last() =~= ps@.subrange(0, i as int));
        let pts: Option<&Vec<P>> = match &ps[i] {
            Prop::CR(v) | Prop::MA(v) | Prop::SL(v) | Prop::SQ(v) | Prop::TR(v) => Some(v),
            _ => None,
        };
        if let Some(v) = pts {
            let ghost acc = views(seen@);
            let ghost full = acc + views(v@);
            assert(markup_of(ps@[i as int]) == views(v@));
            let mut j: usize = 0;
            assert(full.subrange(0, acc.len() as int) =~= views(seen@));
            assert(markup_points(ps@.subrange(0, i + 1)) == full);
            while j < v.len()
                invariant
                    i < ps@.len(),
                    markup_points(ps@.subrange(0, i + 1)) == full,
                    j <= v@.len(),
                    full == acc + views(v@),
                    views(seen@) == full.subrange(0, acc.len() + j),
                    full.subrange(0, acc.len() + j).no_duplicates(),
                decreases v.len() - j,
            {
                if contains_point(&seen, &v[j]) {
                    proof {
                        let k = choose|k: int|
                            0 <= k < views(seen@).len() && views(seen@)[k] == v@[j as int]@;
                        assert(full[k] == views(seen@)[k]);
                        assert(full[acc.len() + j] == v@[j as int]@);
                        assert(!full.no_duplicates());
                        lemma_markup_dup_grows(ps@, i + 1);
                    }
                    return true;
                }
                let ghost before = views(seen@);
                seen.push(v[j].copy_point());
                proof {
                    assert(views(seen@) =~= before.push(v@[j as int]@));
                    assert(views(seen@) =~= full.subrange(0, acc.len() + j + 1));
                }
                j = j + 1;
            }
            assert(full.subrange(0, full.len() as int) =~= full);
        } else {
            assert(markup_of(ps@[i as int]) =~= Seq::<P::V>::empty());
            assert(views(seen@) + markup_of(ps@[i as int]) =~= views(seen@));
        }
        i = i + 1;
    }
    assert(ps@.subrange(0, ps@.len() as int) =~= ps@);
    false
}

proof fn lemma_markup_dup_grows<P: FromCompressedList, M: FromSgf + ToSgf>(
    ps: Seq<Prop<P, M>>,
    i: int,
)
    requires
        0 <= i <= ps.len(),
        !markup_points(ps.subrange(0, i)).no_duplicates(),
    ensures
        !markup_points(ps).no_duplicates(),
    decreases ps.len() - i,
{
    if i < ps.len() {
        let a = markup_points(ps.subrange(0, i));
        let b = markup_points(ps.subrange(0, i + 1));
        assert(ps.subrange(0, i + 1).drop_last() =~= ps.subrange(0, i));
        let (x, y) = choose|x: int, y: int| 0 <= x < a.len() && 0 <= y < a.len() && x != y && a[x] == a[y];
        assert(b[x] == a[x] && b[y] == a[y]);
        lemma_markup_dup_grows(ps, i + 1);
    } else {
        assert(ps.subrange(0, i) =~= ps);
    }
}

fn count_annotations<P: FromCompressedList, M: FromSgf + ToSgf>(ps: &Vec<Prop<P, M>>) -> (r: (
    usize,
    usize,
))
    ensures
        r.0 == move_annotations(ps@),
        r.1 == node_annotations(ps@),
{
    let mut moves: usize = 0;
    let mut nodes: usize = 0;
    let mut i: usize = 0;
    while i < ps.len()
        invariant
            i <= ps@.len(),
            moves == move_annotations(ps@.subrange(0, i as int)),
            nodes == node_annotations(ps@.subrange(0, i as int)),
            moves <= i,
            nodes <= i,
        decreases ps.len() - i,
    {
        assert(ps@.subrange(0, i + 1).drop_last() =~= ps@.subrange(0, i as int));
        match &ps[i] {
            Prop::BM(_) | Prop::DO | Prop::IT | Prop::TE(_) => {
                moves = moves + 1;
            },
            Prop::DM(_) | Prop::UC(_) | Prop::GW(_) | Prop::GB(_) => {
                nodes = nodes + 1;
            },
            _ => {},
        }
        i = i + 1;
    }
    assert(ps@.subrange(0, ps@.len() as int) =~= ps@);
    (moves, nodes)
}

/// Finds the first rule, in the order of `node_violation`, that the
/// properties `ps` of a node break.
pub fn find_violation<P: FromCompressedList, M: FromSgf + ToSgf>(
    ps: &Vec<Prop<P, M>>,
    is_root: bool,
) -> (r: Option<Violation>)
    ensures
        r == node_violation(ps@, is_root),
{
    if any_invalid(ps) {
        return Some(Violation::InvalidProperty);
    }
    if any_repeated(ps) {
        return Some(Violation::RepeatedIdentifier);
    }
    let has_b = any_ident(ps, Ident::B);
    let has_w = any_ident(ps, Ident::W);
    if has_b && has_w {
        return Some(Violation::MultipleMoves);
    }
    if markup_repeats(ps) {
        return Some(Violation::RepeatedMarkup);
    }
    if !is_root && any_type(ps, PropertyType::Root) {
        return Some(Violation::UnexpectedRootProperties);
    }
    if any_type(ps, PropertyType::Setup) && any_type(ps, PropertyType::Move) {
        return Some(Violation::SetupAndMove);
    }
    if any_ident(ps, Ident::KO) && !(has_b || has_w) {
        return Some(Violation::KoWithoutMove);
    }
    let (moves, nodes) = count_annotations(ps);
    if moves > 1 {
        return Some(Violation::MultipleMoveAnnotations);
    }
    if moves == 1 && !(has_b || has_w) {
        return Some(Violation::UnexpectedMoveAnnotation);
    }
    if nodes > 1 {
        return Some(Violation::MultipleExclusiveAnnotations);
    }
    None
}

/// The SGF text of a list of properties, one after the other.
pub open spec fn list_text<P: FromCompressedList, M: FromSgf + ToSgf>(ps: Seq<Prop<P, M>>) -> Seq<
    char,
>
    decreases ps.len(),
{
    if ps.len() == 0 {
        Seq::empty()
    } else {
        list_text(ps.drop_last()) + ps.last().prop_text()
    }
}

/// Writes a list of properties one after the other. Property types reach
/// this through their catalog directly: the `SgfProp` impls cannot call the
/// generic writer that goes through `SgfProp` itself.
pub fn list_string<P: FromCompressedList, M: FromSgf + ToSgf>(ps: &Vec<Prop<P, M>>) -> (r: String)
    ensures
        r@ == list_text(ps@),
{
    let mut out = String::new();
    let mut i: usize = 0;
    while i < ps.len()
        invariant
            i <= ps@.len(),
            out@ == list_text(ps@.subrange(0, i as int)),
        decreases ps.len() - i,
    {
        let t = ps[i].text_string();
        crate::text::push_all(&mut out, t.as_str());
        assert(ps@.subrange(0, i + 1).drop_last() =~= ps@.subrange(0, i as int));
        i = i + 1;
    }
    assert(ps@.subrange(0, ps@.len() as int) =~= ps@);
    out
}

} // verus!
