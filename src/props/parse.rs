//! Codecs from lists of raw property values to typed values.
use vstd::prelude::*;
use crate::text::{chars_of, string_of_range};
use crate::values::{find_char, index_of, lemma_index_of, FromSgf, SgfPropError, SimpleText, ToSgf};

verus! {

/// The views of the items of `s`.
pub open spec fn views<T: View>(s: Seq<T>) -> Seq<T::V> {
    s.map_values(|t: T| t@)
}

/// The texts of a list of raw values.
pub open spec fn raw_view(v: Seq<String>) -> Seq<Seq<char>> {
    v.map_values(|s: String| s@)
}

/// A point type whose lists may use the compressed `UL:LR` form.
pub trait FromCompressedList: FromSgf + ToSgf {
    /// The points that the compressed entry `ul:lr` stands for, in order.
    spec fn spec_expand(ul: Self::V, lr: Self::V) -> Option<Seq<Self::V>>;

    fn from_compressed_list(ul: &Self, lr: &Self) -> (r: Option<Vec<Self>>)
        ensures
            r is None <==> Self::spec_expand(ul@, lr@) is None,
            r matches Some(v) ==> Self::spec_expand(ul@, lr@) == Some(views(v@)),
    ;

    fn same(&self, other: &Self) -> (r: bool)
        ensures
            r == (self@ == other@),
    ;

    fn copy_point(&self) -> (r: Self)
        ensures
            r@ == self@,
    ;
}

/// `s` cut at its first `:`, if it has one.
pub open spec fn split_at_colon(s: Seq<char>) -> Option<(Seq<char>, Seq<char>)> {
    let k = index_of(s, ':');
    if k < 0 {
        None
    } else {
        Some((s.subrange(0, k), s.subrange(k + 1, s.len() as int)))
    }
}

/// The composed value `a:b` read as a pair.
pub open spec fn tuple_parse<A: FromSgf, B: FromSgf>(s: Seq<char>) -> Option<(A::V, B::V)> {
    match split_at_colon(s) {
        Some((a, b)) => match (A::sgf_parse(a), B::sgf_parse(b)) {
            (Some(x), Some(y)) => Some((x, y)),
            _ => None,
        },
        None => None,
    }
}

/// A property that holds exactly one value, read as `T`.
pub open spec fn single_parse<T: FromSgf>(vals: Seq<Seq<char>>) -> Option<T::V> {
    if vals.len() == 1 {
        T::sgf_parse(vals[0])
    } else {
        None
    }
}

/// A flag property: no value, or one empty value.
pub open spec fn is_empty_value(vals: Seq<Seq<char>>) -> bool {
    vals.len() == 0 || (vals.len() == 1 && vals[0].len() == 0)
}

/// The points that one entry of a point list stands for: one point, or a
/// compressed rectangle `UL:LR`.
pub open spec fn entry_points<P: FromCompressedList>(v: Seq<char>) -> Option<Seq<P::V>> {
    if index_of(v, ':') >= 0 {
        match tuple_parse::<P, P>(v) {
            Some((ul, lr)) => P::spec_expand(ul, lr),
            None => None,
        }
    } else {
        match P::sgf_parse(v) {
            Some(p) => Some(seq![p]),
            None => None,
        }
    }
}

/// The points of a possibly empty point list, in order; nothing when an
/// entry is malformed or when a point comes twice.
pub open spec fn elist_points<P: FromCompressedList>(vals: Seq<Seq<char>>) -> Option<Seq<P::V>>
    decreases vals.len(),
{
    if vals.len() == 0 {
        Some(Seq::empty())
    } else {
        match (elist_points::<P>(vals.drop_last()), entry_points::<P>(vals.last())) {
            (Some(acc), Some(new)) => if (acc + new).no_duplicates() {
                Some(acc + new)
            } else {
                None
            },
            _ => None,
        }
    }
}

/// The points of a non-empty point list.
pub open spec fn list_points<P: FromCompressedList>(vals: Seq<Seq<char>>) -> Option<Seq<P::V>> {
    match elist_points::<P>(vals) {
        Some(s) => if s.len() > 0 {
            Some(s)
        } else {
            None
        },
        None => None,
    }
}

/// The pairs of a list of composed point pairs; nothing when an entry is
/// malformed, joins a point to itself or repeats an earlier pair.
pub open spec fn composed_pairs<P: FromCompressedList>(vals: Seq<Seq<char>>) -> Option<
    Seq<(P::V, P::V)>,
>
    decreases vals.len(),
{
    if vals.len() == 0 {
        Some(Seq::empty())
    } else {
        match (composed_pairs::<P>(vals.drop_last()), tuple_parse::<P, P>(vals.last())) {
            (Some(acc), Some(pair)) => if pair.0 != pair.1 && !acc.contains(pair) {
                Some(acc.push(pair))
            } else {
                None
            },
            _ => None,
        }
    }
}

/// The labels of a label list, a repeated label kept once; nothing when an
/// entry is malformed.
pub open spec fn label_pairs<P: FromCompressedList>(vals: Seq<Seq<char>>) -> Option<
    Seq<(P::V, Seq<char>)>,
>
    decreases vals.len(),
{
    if vals.len() == 0 {
        Some(Seq::empty())
    } else {
        match (label_pairs::<P>(vals.drop_last()), tuple_parse::<P, SimpleText>(vals.last())) {
            (Some(acc), Some(pair)) => if acc.contains(pair) {
                Some(acc)
            } else {
                Some(acc.push(pair))
            },
            _ => None,
        }
    }
}

/// The labels of a non-empty label list.
pub open spec fn labels_parse<P: FromCompressedList>(vals: Seq<Seq<char>>) -> Option<
    Seq<(P::V, Seq<char>)>,
> {
    match label_pairs::<P>(vals) {
        Some(s) => if s.len() > 0 {
            Some(s)
        } else {
            None
        },
        None => None,
    }
}

/// Reads exactly one value as `T`.
pub fn parse_single_value<T: FromSgf>(values: &Vec<String>) -> (r: Result<T, SgfPropError>)
    ensures
        r is Err <==> single_parse::<T>(raw_view(values@)) is None,
        r matches Ok(v) ==> single_parse::<T>(raw_view(values@)) == Some(v@),
{
    if values.len() != 1 {
        return Err(SgfPropError {  });
    }
    match T::from_sgf(values[0].as_str()) {
        Some(v) => Ok(v),
        None => Err(SgfPropError {  }),
    }
}

/// Cuts a composed value at its first `:`.
pub fn split_compose(value: &str) -> (r: Result<(String, String), SgfPropError>)
    ensures
        r is Err <==> split_at_colon(value@) is None,
        r matches Ok((a, b)) ==> split_at_colon(value@) == Some((a@, b@)),
{
    let cs = chars_of(value);
    proof {
        lemma_index_of(cs@, ':');
    }
    match find_char(&cs, ':') {
        None => Err(SgfPropError {  }),
        Some(k) => {
            let n = cs.len();
            assert(k < n);
            Ok((string_of_range(&cs, 0, k), string_of_range(&cs, k + 1, n)))
        },
    }
}

/// Reads a composed value `a:b` as a pair.
pub fn parse_tuple<A: FromSgf, B: FromSgf>(value: &str) -> (r: Result<(A, B), SgfPropError>)
    ensures
        r is Err <==> tuple_parse::<A, B>(value@) is None,
        r matches Ok((a, b)) ==> tuple_parse::<A, B>(value@) == Some((a@, b@)),
{
    let (s1, s2) = split_compose(value)?;
    match (A::from_sgf(s1.as_str()), B::from_sgf(s2.as_str())) {
        (Some(a), Some(b)) => Ok((a, b)),
        _ => Err(SgfPropError {  }),
    }
}

/// Accepts a flag property: no value, or one empty value.
pub fn verify_empty(values: &Vec<String>) -> (r: Result<(), SgfPropError>)
    ensures
        r is Ok <==> is_empty_value(raw_view(values@)),
{
    if values.len() == 0 || (values.len() == 1 && values[0].as_str().is_empty()) {
        Ok(())
    } else {
        Err(SgfPropError {  })
    }
}

pub fn contains_point<P: FromCompressedList>(items: &Vec<P>, p: &P) -> (r: bool)
    ensures
        r == views(items@).contains(p@),
{
    let mut i: usize = 0;
    while i < items.len()
        invariant
            i <= items@.len(),
            forall|k: int| 0 <= k < i ==> items@[k]@ != p@,
        decreases items.len() - i,
    {
        if items[i].same(p) {
            assert(views(items@)[i as int] == p@);
            return true;
        }
        i = i + 1;
    }
    assert(!views(items@).contains(p@));
    false
}

/// Reads the points of one list entry: a point or a compressed rectangle.
fn parse_entry<P: FromCompressedList>(value: &String) -> (r: Option<Vec<P>>)
    ensures
        r is None <==> entry_points::<P>(value@) is None,
        r matches Some(v) ==> entry_points::<P>(value@) == Some(views(v@)),
{
    let cs = chars_of(value.as_str());
    if find_char(&cs, ':').is_some() {
        match parse_tuple::<P, P>(value.as_str()) {
            Ok((ul, lr)) => P::from_compressed_list(&ul, &lr),
            Err(_) => None,
        }
    } else {
        match P::from_sgf(value.as_str()) {
            Some(p) => {
                let mut v: Vec<P> = Vec::new();
                v.push(p);
                assert(views(v@) =~= seq![p@]);
                Some(v)
            },
            None => None,
        }
    }
}

proof fn lemma_elist_none_grows<P: FromCompressedList>(vals: Seq<Seq<char>>, i: int)
    requires
        0 <= i <= vals.len(),
        elist_points::<P>(vals.subrange(0, i)) is None,
    ensures
        elist_points::<P>(vals) is None,
    decreases vals.len() - i,
{
    if i < vals.len() {
        assert(vals.subrange(0, i + 1).drop_last() =~= vals.subrange(0, i));
        lemma_elist_none_grows::<P>(vals, i + 1);
    } else {
        assert(vals.subrange(0, i) =~= vals);
    }
}

proof fn lemma_composed_none_grows<P: FromCompressedList>(vals: Seq<Seq<char>>, i: int)
    requires
        0 <= i <= vals.len(),
        composed_pairs::<P>(vals.subrange(0, i)) is None,
    ensures
        composed_pairs::<P>(vals) is None,
    decreases vals.len() - i,
{
    if i < vals.len() {
        assert(vals.subrange(0, i + 1).drop_last() =~= vals.subrange(0, i));
        lemma_composed_none_grows::<P>(vals, i + 1);
    } else {
        assert(vals.subrange(0, i) =~= vals);
    }
}

proof fn lemma_labels_none_grows<P: FromCompressedList>(vals: Seq<Seq<char>>, i: int)
    requires
        0 <= i <= vals.len(),
        label_pairs::<P>(vals.subrange(0, i)) is None,
    ensures
        label_pairs::<P>(vals) is None,
    decreases vals.len() - i,
{
    if i < vals.len() {
        assert(vals.subrange(0, i + 1).drop_last() =~= vals.subrange(0, i));
        lemma_labels_none_grows::<P>(vals, i + 1);
    } else {
        assert(vals.subrange(0, i) =~= vals);
    }
}

/// Reads a possibly empty point list. A compressed entry `UL:LR` stands for
/// every point of that rectangle; a point that comes twice is an error.
pub fn parse_elist<P: FromCompressedList>(values: &Vec<String>) -> (r: Result<
    Vec<P>,
    SgfPropError,
>)
    ensures
        r is Err <==> elist_points::<P>(raw_view(values@)) is None,
        r matches Ok(v) ==> elist_points::<P>(raw_view(values@)) == Some(views(v@)),
{
    let ghost rv = raw_view(values@);
    let mut out: Vec<P> = Vec::new();
    let mut i: usize = 0;
    assert(rv.subrange(0, 0) =~= Seq::<Seq<char>>::empty());
    while i < values.len()
        invariant
            i <= values@.len(),
            rv == raw_view(values@),
            rv.len() == values@.len(),
            elist_points::<P>(rv.subrange(0, i as int)) == Some(views(out@)),
        decreases values.len() - i,
    {
        let ghost vals = rv.subrange(0, i + 1);
        assert(vals.drop_last() =~= rv.subrange(0, i as int));
        assert(vals.last() == values@[i as int]@);
        let entry = match parse_entry::<P>(&values[i]) {
            Some(e) => e,
            None => {
                proof {
                    lemma_elist_none_grows::<P>(rv, i + 1);
                }
                return Err(SgfPropError {  });
            },
        };
        let ghost acc = views(out@);
        let ghost full = acc + views(entry@);
        let mut j: usize = 0;
        assert(full.subrange(0, acc.len() as int) =~= views(out@));
        while j < entry.len()
            invariant
                i < values@.len(),
                rv == raw_view(values@),
                rv.len() == values@.len(),
                elist_points::<P>(rv.subrange(0, i as int)) == Some(acc),
                entry_points::<P>(values@[i as int]@) == Some(views(entry@)),
                j <= entry@.len(),
                full == acc + views(entry@),
                views(out@) == full.subrange(0, acc.len() + j),
                full.subrange(0, acc.len() + j).no_duplicates(),
            decreases entry.len() - j,
        {
            if contains_point(&out, &entry[j]) {
                proof {
                    let k = choose|k: int|
                        0 <= k < views(out@).len() && views(out@)[k] == entry@[j as int]@;
                    assert(full[k] == views(out@)[k]);
                    assert(full[acc.len() + j] == entry@[j as int]@);
                    assert(!full.no_duplicates());
                    let vals = rv.subrange(0, i + 1);
                    assert(vals.drop_last() =~= rv.subrange(0, i as int));
                    assert(vals.last() == values@[i as int]@);
                    assert(elist_points::<P>(vals) is None);
                    lemma_elist_none_grows::<P>(rv, i + 1);
                }
                return Err(SgfPropError {  });
            }
            let ghost before = views(out@);
            out.push(entry[j].copy_point());
            proof {
                assert(views(out@) =~= before.push(entry@[j as int]@));
                assert(views(out@) =~= full.subrange(0, acc.len() + j + 1));
                assert(!before.contains(entry@[j as int]@));
            }
            j = j + 1;
        }
        assert(full.subrange(0, full.len() as int) =~= full);
        i = i + 1;
    }
    assert(rv.subrange(0, rv.len() as int) =~= rv);
    Ok(out)
}

/// Reads a non-empty list of points of a game.
pub fn parse_list_point<P: FromCompressedList>(values: &Vec<String>) -> (r: Result<
    Vec<P>,
    SgfPropError,
>)
    ensures
        r is Err <==> list_points::<P>(raw_view(values@)) is None,
        r matches Ok(v) ==> list_points::<P>(raw_view(values@)) == Some(views(v@)),
{
    parse_list::<P>(values)
}

/// Reads exactly one value as SimpleText.
pub fn parse_single_simple_text_value(values: &Vec<String>) -> (r: Result<SimpleText, SgfPropError>)
    ensures
        r is Err <==> values@.len() != 1,
        r matches Ok(t) ==> t@ == values@[0]@,
{
    parse_single_value::<SimpleText>(values)
}

/// Reads a non-empty point list.
pub fn parse_list<P: FromCompressedList>(values: &Vec<String>) -> (r: Result<Vec<P>, SgfPropError>)
    ensures
        r is Err <==> list_points::<P>(raw_view(values@)) is None,
        r matches Ok(v) ==> list_points::<P>(raw_view(values@)) == Some(views(v@)),
{
    let points = parse_elist::<P>(values)?;
    if points.len() == 0 {
        return Err(SgfPropError {  });
    }
    Ok(points)
}

fn contains_pair<P: FromCompressedList>(items: &Vec<(P, P)>, a: &P, b: &P) -> (r: bool)
    ensures
        r == views(items@).contains((a@, b@)),
{
    let mut i: usize = 0;
    while i < items.len()
        invariant
            i <= items@.len(),
            forall|k: int| 0 <= k < i ==> items@[k]@ != (a@, b@),
        decreases items.len() - i,
    {
        if items[i].0.same(a) && items[i].1.same(b) {
            assert(views(items@)[i as int] == (a@, b@));
            return true;
        }
        i = i + 1;
    }
    assert(!views(items@).contains((a@, b@)));
    false
}

/// Reads a list of composed point pairs (arrows, lines). A pair that joins a
/// point to itself, or repeats an earlier pair, is an error.
pub fn parse_list_composed<P: FromCompressedList>(values: &Vec<String>) -> (r: Result<
    Vec<(P, P)>,
    SgfPropError,
>)
    ensures
        r is Err <==> composed_pairs::<P>(raw_view(values@)) is None,
        r matches Ok(v) ==> composed_pairs::<P>(raw_view(values@)) == Some(views(v@)),
{
    let ghost rv = raw_view(values@);
    let mut out: Vec<(P, P)> = Vec::new();
    let mut i: usize = 0;
    assert(rv.subrange(0, 0) =~= Seq::<Seq<char>>::empty());
    while i < values.len()
        invariant
            i <= values@.len(),
            rv == raw_view(values@),
            rv.len() == values@.len(),
            composed_pairs::<P>(rv.subrange(0, i as int)) == Some(views(out@)),
        decreases values.len() - i,
    {
        let ghost vals = rv.subrange(0, i + 1);
        assert(vals.drop_last() =~= rv.subrange(0, i as int));
        assert(vals.last() == values@[i as int]@);
        let (a, b) = match parse_tuple::<P, P>(values[i].as_str()) {
            Ok(pair) => pair,
            Err(e) => {
                proof {
                    lemma_composed_none_grows::<P>(rv, i + 1);
                }
                return Err(e);
            },
        };
        if a.same(&b) || contains_pair(&out, &a, &b) {
            proof {
                lemma_composed_none_grows::<P>(rv, i + 1);
            }
            return Err(SgfPropError {  });
        }
        let ghost before = views(out@);
        out.push((a, b));
        assert(views(out@) =~= before.push((a@, b@)));
        i = i + 1;
    }
    assert(rv.subrange(0, rv.len() as int) =~= rv);
    Ok(out)
}

fn contains_label<P: FromCompressedList>(items: &Vec<(P, SimpleText)>, a: &P, t: &SimpleText) -> (r:
    bool)
    ensures
        r == views(items@).contains((a@, t@)),
{
    let mut i: usize = 0;
    while i < items.len()
        invariant
            i <= items@.len(),
            forall|k: int| 0 <= k < i ==> items@[k]@ != (a@, t@),
        decreases items.len() - i,
    {
        if items[i].0.same(a) && items[i].1.text.eq(&t.text) {
            assert(views(items@)[i as int] == (a@, t@));
            return true;
        }
        i = i + 1;
    }
    assert(!views(items@).contains((a@, t@)));
    false
}

/// Reads a non-empty label list: pairs of a point and its SimpleText label.
pub fn parse_labels<P: FromCompressedList>(values: &Vec<String>) -> (r: Result<
    Vec<(P, SimpleText)>,
    SgfPropError,
>)
    ensures
        r is Err <==> labels_parse::<P>(raw_view(values@)) is None,
        r matches Ok(v) ==> labels_parse::<P>(raw_view(values@)) == Some(views(v@)),
{
    let ghost rv = raw_view(values@);
    let mut out: Vec<(P, SimpleText)> = Vec::new();
    let mut i: usize = 0;
    assert(rv.subrange(0, 0) =~= Seq::<Seq<char>>::empty());
    while i < values.len()
        invariant
            i <= values@.len(),
            rv == raw_view(values@),
            rv.len() == values@.len(),
            label_pairs::<P>(rv.subrange(0, i as int)) == Some(views(out@)),
        decreases values.len() - i,
    {
        let ghost vals = rv.subrange(0, i + 1);
        assert(vals.drop_last() =~= rv.subrange(0, i as int));
        assert(vals.last() == values@[i as int]@);
        let (a, t) = match parse_tuple::<P, SimpleText>(values[i].as_str()) {
            Ok(pair) => pair,
            Err(e) => {
                proof {
                    lemma_labels_none_grows::<P>(rv, i + 1);
                }
                return Err(e);
            },
        };
        if !contains_label(&out, &a, &t) {
            let ghost before = views(out@);
            out.push((a, t));
            assert(views(out@) =~= before.push((a@, t@)));
        }
        i = i + 1;
    }
    assert(rv.subrange(0, rv.len() as int) =~= rv);
    if out.len() == 0 {
        return Err(SgfPropError {  });
    }
    Ok(out)
}

/// A board size: one number for a square board, or `columns:rows`.
pub open spec fn size_parse(vals: Seq<Seq<char>>) -> Option<(u8, u8)> {
    if vals.len() != 1 {
        None
    } else if index_of(vals[0], ':') >= 0 {
        tuple_parse::<u8, u8>(vals[0])
    } else {
        match u8::sgf_parse(vals[0]) {
            Some(n) => Some((n, n)),
            None => None,
        }
    }
}

/// Reads a board size.
pub fn parse_size(values: &Vec<String>) -> (r: Result<(u8, u8), SgfPropError>)
    ensures
        r is Err <==> size_parse(raw_view(values@)) is None,
        r matches Ok(v) ==> size_parse(raw_view(values@)) == Some(v),
{
    if values.len() != 1 {
        return Err(SgfPropError {  });
    }
    let cs = chars_of(values[0].as_str());
    if find_char(&cs, ':').is_some() {
        parse_tuple::<u8, u8>(values[0].as_str())
    } else {
        match u8::from_sgf(values[0].as_str()) {
            Some(n) => Ok((n, n)),
            None => Err(SgfPropError {  }),
        }
    }
}

/// A figure: nothing (no value, or one empty value), or `number:name`.
pub open spec fn figure_parse(vals: Seq<Seq<char>>) -> Option<Option<(i64, Seq<char>)>> {
    if is_empty_value(vals) {
        Some(None)
    } else if vals.len() > 1 {
        None
    } else {
        match tuple_parse::<i64, SimpleText>(vals[0]) {
            Some(p) => Some(Some(p)),
            None => None,
        }
    }
}

/// Reads a figure property.
pub fn parse_figure(values: &Vec<String>) -> (r: Result<Option<(i64, SimpleText)>, SgfPropError>)
    ensures
        r is Err <==> figure_parse(raw_view(values@)) is None,
        r matches Ok(v) ==> figure_parse(raw_view(values@)) == Some(
            match v {
                Some(p) => Some(p@),
                None => None,
            },
        ),
{
    if values.len() == 0 || (values.len() == 1 && values[0].as_str().is_empty()) {
        return Ok(None);
    }
    if values.len() > 1 {
        return Err(SgfPropError {  });
    }
    let p = parse_tuple::<i64, SimpleText>(values[0].as_str())?;
    Ok(Some(p))
}

/// Reads an application property: `name:version`.
pub fn parse_application(values: &Vec<String>) -> (r: Result<
    (SimpleText, SimpleText),
    SgfPropError,
>)
    ensures
        r is Err <==> single_tuple::<SimpleText, SimpleText>(raw_view(values@)) is None,
        r matches Ok(v) ==> single_tuple::<SimpleText, SimpleText>(raw_view(values@)) == Some(v@),
{
    if values.len() != 1 {
        return Err(SgfPropError {  });
    }
    parse_tuple::<SimpleText, SimpleText>(values[0].as_str())
}

/// Exactly one value, read as a composed pair.
pub open spec fn single_tuple<A: FromSgf, B: FromSgf>(vals: Seq<Seq<char>>) -> Option<
    (A::V, B::V),
> {
    if vals.len() == 1 {
        tuple_parse::<A, B>(vals[0])
    } else {
        None
    }
}

} // verus!
