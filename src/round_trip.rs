//! Reading back what is written: the tokenizer recovers the identifier and
//! the raw values of a property from the text that the writer produces.
use vstd::prelude::*;
use crate::lexer::{
    emit_property, lemma_escaped_value_reads_back, lemma_run_concat, run, LexState, Mode, TokenView,
};
use crate::props::parse::{raw_view, FromCompressedList};
use crate::props::Prop;
use crate::text::escaped;
use crate::go::{Move, Point};
use crate::values::{
    all_digits, decimal_text, digits_value, int_text, is_digit, join_values, unsigned_part, Color,
    Double, FromSgf, ToSgf,
};

verus! {

/// The bracketed values `[v1][v2]...`, each escaped.
pub open spec fn written_values(vs: Seq<Seq<char>>) -> Seq<char>
    decreases vs.len(),
{
    if vs.len() == 0 {
        Seq::empty()
    } else {
        written_values(vs.drop_last()) + seq!['['] + escaped(vs.last()) + seq![']']
    }
}

/// Whether `id` is a non-empty run of upper-case ASCII letters.
pub open spec fn is_plain_identifier(id: Seq<char>) -> bool {
    id.len() > 0 && forall|i: int| 0 <= i < id.len() ==> 'A' <= #[trigger] id[i] && id[i] <= 'Z'
}

/// After an identifier or a value, the written values `vs` bring the
/// tokenizer to the end of a value with `vs` added to the property's values.
proof fn lemma_values_read_back(st: LexState, vs: Seq<Seq<char>>, i0: int)
    requires
        st.err is None,
        st.mode == Mode::Ident || st.mode == Mode::AfterValue,
        vs.len() > 0,
    ensures
        run(st, written_values(vs), i0) == (LexState {
            mode: Mode::AfterValue,
            vals: st.vals + vs,
            cur: Seq::empty(),
            ..st
        }),
    decreases vs.len(),
{
    let last = vs.last();
    let piece = seq!['['] + escaped(last) + seq![']'];
    let w = written_values(vs.drop_last());
    assert(written_values(vs) == w + seq!['['] + escaped(last) + seq![']']);
    assert(w + seq!['['] + escaped(last) + seq![']'] =~= w + piece);
    lemma_run_concat(st, w, piece, i0);
    if vs.len() == 1 {
        assert(w =~= Seq::<char>::empty());
        assert(run(st, w, i0) == st);
        lemma_escaped_value_reads_back(st, last, i0);
        assert(st.vals + vs =~= st.vals.push(last));
    } else {
        lemma_values_read_back(st, vs.drop_last(), i0);
        let mid = LexState {
            mode: Mode::AfterValue,
            vals: st.vals + vs.drop_last(),
            cur: Seq::empty(),
            ..st
        };
        lemma_escaped_value_reads_back(mid, last, i0 + w.len());
        assert((st.vals + vs.drop_last()).push(last) =~= st.vals + vs);
    }
}

/// Right after a structural token, a plain identifier brings the tokenizer
/// into that identifier, starting where it starts.
proof fn lemma_identifier_read_back(st: LexState, id: Seq<char>, i0: int)
    requires
        st.err is None,
        st.mode == Mode::Trim || st.mode == Mode::Top,
        is_plain_identifier(id),
    ensures
        run(st, id, i0) == (LexState {
            mode: Mode::Ident,
            start: i0,
            ident: id,
            vals: Seq::empty(),
            ..st
        }),
    decreases id.len(),
{
    let c = id.last();
    assert('A' <= id[id.len() - 1] && id[id.len() - 1] <= 'Z');
    if id.len() == 1 {
        assert(id.drop_last() =~= Seq::<char>::empty());
        assert(run(st, id.drop_last(), i0) == st);
        assert(seq![c] =~= Seq::<char>::empty().push(c));
        assert(id =~= seq![c]);
    } else {
        assert forall|i: int| 0 <= i < id.drop_last().len() implies 'A' <= #[trigger] id.drop_last()[i]
            && id.drop_last()[i] <= 'Z' by {
            assert(id.drop_last()[i] == id[i]);
        }
        lemma_identifier_read_back(st, id.drop_last(), i0);
        assert(id.drop_last().push(c) =~= id);
    }
}

/// Reading back a written property: right after a structural token, the
/// text of a plain identifier followed by the written values `vs` is read
/// as one property token with that identifier and those values.
pub proof fn lemma_property_reads_back(st: LexState, id: Seq<char>, vs: Seq<Seq<char>>, i0: int, end: int)
    requires
        st.err is None,
        st.mode == Mode::Trim || st.mode == Mode::Top,
        is_plain_identifier(id),
        vs.len() > 0,
    ensures
        emit_property(run(st, id + written_values(vs), i0), end).tokens == st.tokens.push(
            TokenView::Property(id, vs),
        ),
        run(st, id + written_values(vs), i0).err is None,
{
    lemma_run_concat(st, id, written_values(vs), i0);
    lemma_identifier_read_back(st, id, i0);
    let named = LexState { mode: Mode::Ident, start: i0, ident: id, vals: Seq::empty(), ..st };
    lemma_values_read_back(named, vs, i0 + id.len());
    assert(Seq::<Seq<char>>::empty() + vs =~= vs);
}

/// The text of raw values `vs`, joined by `][` inside one pair of brackets,
/// is the written values.
proof fn lemma_bracketed_join(vs: Seq<Seq<char>>)
    requires
        vs.len() > 0,
    ensures
        seq!['['] + join_values(vs.map_values(|v: Seq<char>| escaped(v))) + seq![']'] == written_values(
            vs,
        ),
    decreases vs.len(),
{
    let e = vs.map_values(|v: Seq<char>| escaped(v));
    if vs.len() == 1 {
        assert(e =~= seq![escaped(vs[0])]);
        assert(written_values(vs.drop_last()) == Seq::<char>::empty());
        assert(seq!['['] + join_values(e) + seq![']'] =~= written_values(vs));
    } else {
        lemma_bracketed_join(vs.drop_last());
        let d = vs.drop_last().map_values(|v: Seq<char>| escaped(v));
        assert(e.drop_last() =~= d);
        assert(seq!['['] + join_values(e) + seq![']'] =~= written_values(vs));
    }
}

/// A property kept as raw values (an identifier outside the catalog, or a
/// known one whose values did not read) round-trips through its text: the
/// property writes its identifier and each raw value escaped in brackets, and
/// the tokenizer reads that text back as the same identifier and values.
pub proof fn lemma_raw_property_round_trip<P: FromCompressedList, M: FromSgf + ToSgf>(
    p: Prop<P, M>,
    st: LexState,
    i0: int,
    end: int,
)
    requires
        p is Unknown || p is Invalid,
        st.err is None,
        st.mode == Mode::Trim || st.mode == Mode::Top,
        is_plain_identifier(p.id_text()),
        p.value_from(raw_of(p)),
        raw_of(p).len() > 0,
    ensures
        p.prop_text() == p.id_text() + written_values(raw_of(p)),
        emit_property(run(st, p.prop_text(), i0), end).tokens == st.tokens.push(
            TokenView::Property(p.id_text(), raw_of(p)),
        ),
{
    let vs = raw_of(p);
    match p {
        Prop::Unknown(_, v) | Prop::Invalid(_, v) => {
            let texts = v@.map_values(|t: String| <String as ToSgf>::sgf_text(t@));
            assert(texts =~= vs.map_values(|x: Seq<char>| escaped(x)));
        },
        _ => {},
    }
    lemma_bracketed_join(vs);
    assert(p.prop_text() =~= p.id_text() + written_values(vs));
    lemma_property_reads_back(st, p.id_text(), vs, i0, end);
}

/// The raw values that a property keeps, if it keeps them.
pub open spec fn raw_of<P: FromCompressedList, M: FromSgf + ToSgf>(p: Prop<P, M>) -> Seq<Seq<char>> {
    match p {
        Prop::Unknown(_, v) | Prop::Invalid(_, v) => raw_view(v@),
        _ => Seq::empty(),
    }
}

proof fn lemma_decimal_digits(v: int)
    requires
        v >= 0,
    ensures
        decimal_text(v).len() > 0,
        all_digits(decimal_text(v)),
        digits_value(decimal_text(v)) == v,
        decimal_text(v)[0] != '-',
    decreases v,
{
    let d = decimal_text(v);
    if v < 10 {
        assert(d == seq![(v + '0' as int) as char]);
        assert(d.drop_last() =~= Seq::<char>::empty());
        assert(digits_value(d.drop_last()) == 0);
        assert(is_digit(d[0]));
    } else {
        let q = v / 10;
        let r = v % 10;
        assert(q * 10 + r == v && 0 <= r < 10 && 0 < q < v) by (nonlinear_arith)
            requires
                v >= 10,
                q == v / 10,
                r == v % 10,
        ;
        lemma_decimal_digits(q);
        let c = (r + '0' as int) as char;
        assert(d == decimal_text(q) + seq![c]);
        assert(d.drop_last() =~= decimal_text(q));
        assert(d.last() == c);
        assert forall|i: int| 0 <= i < d.len() implies is_digit(#[trigger] d[i]) by {
            if i < d.len() - 1 {
                assert(d[i] == decimal_text(q)[i]);
            }
        }
        assert(d[0] == decimal_text(q)[0]);
    }
}

/// A number reads back from the text that it writes.
pub proof fn lemma_number_reads_back(v: i64)
    ensures
        <i64 as FromSgf>::sgf_parse(<i64 as ToSgf>::sgf_text(v)) == Some(v),
{
    let t = decimal_text(v as int);
    if v < 0 {
        lemma_decimal_digits(-(v as int));
        assert(t == seq!['-'] + decimal_text(-(v as int)));
        assert(unsigned_part(t) =~= decimal_text(-(v as int)));
        assert(int_text(t) == Some(v as int));
    } else {
        lemma_decimal_digits(v as int);
        assert(unsigned_part(t) == t);
        assert(int_text(t) == Some(v as int));
    }
}

/// A Go point on a board of up to 26 lines reads back from its two letters.
pub proof fn lemma_point_reads_back(p: Point)
    requires
        p.x < 26,
        p.y < 26,
    ensures
        <Point as FromSgf>::sgf_parse(<Point as ToSgf>::sgf_text(p)) == Some(p),
        <Move as FromSgf>::sgf_parse(<Move as ToSgf>::sgf_text(Move::Move(p))) == Some(Move::Move(p)),
{
    let t = <Point as ToSgf>::sgf_text(p);
    assert(t[0] as u32 == p.x as u32 + 97);
    assert(t[1] as u32 == p.y as u32 + 97);
}

/// A pass, a Double and a Color read back from the text that they write.
pub proof fn lemma_flags_read_back(d: Double, c: Color)
    ensures
        <Move as FromSgf>::sgf_parse(<Move as ToSgf>::sgf_text(Move::Pass)) == Some(Move::Pass),
        <Double as FromSgf>::sgf_parse(<Double as ToSgf>::sgf_text(d)) == Some(d),
        <Color as FromSgf>::sgf_parse(<Color as ToSgf>::sgf_text(c)) == Some(c),
{
    assert(seq!['2'] != seq!['1']) by {
        assert(seq!['2'][0] != seq!['1'][0]);
    }
    assert(seq!['W'] != seq!['B']) by {
        assert(seq!['W'][0] != seq!['B'][0]);
    }
}

} // verus!
