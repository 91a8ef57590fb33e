//! SGF primitive value types and their text codecs.
use vstd::prelude::*;
use crate::text::{chars_of, escape_string, escaped, format_simple_text, format_text, formatted,
    formatted_simple, owned, push_all, string_of};

verus! {

/// Error for a property value that does not read as its type.
#[derive(Debug, Clone, Copy, PartialEq, Eq)]
pub struct SgfPropError {}

impl SgfPropError {
    /// A message that describes the error.
    pub fn message(&self) -> (r: String)
        ensures
            r@ == "Invalid property value"@,
    {
        owned("Invalid property value")
    }
}

/// The category of an SGF property, which the node rules look at.
#[derive(Debug, Clone, Copy, PartialEq, Eq, Hash, Structural)]
pub enum PropertyType {
    Move,
    Setup,
    Root,
    GameInfo,
    Inherit,
}

/// An SGF Color value.
#[derive(Debug, Clone, Copy, PartialEq, Eq, Hash, Structural)]
pub enum Color {
    Black,
    White,
}

/// An SGF Double value: normal or strong emphasis.
#[derive(Debug, Clone, Copy, PartialEq, Eq, Hash, Structural)]
pub enum Double {
    One,
    Two,
}

/// An SGF SimpleText value, holding the text as it stands in the file.
#[derive(Clone, Debug, Eq, PartialEq, Hash)]
pub struct SimpleText {
    pub text: String,
}

/// An SGF Text value, holding the text as it stands in the file.
#[derive(Clone, Debug, Eq, PartialEq, Hash)]
pub struct Text {
    pub text: String,
}

/// An SGF Real value, kept as its decimal text: a Number with an optional
/// fraction of one or more digits (`6.5`, `-3`, `+0.25`).
#[derive(Clone, Debug, Eq, PartialEq, Hash)]
pub struct Real {
    pub text: String,
}

impl View for SimpleText {
    type V = Seq<char>;

    open spec fn view(&self) -> Seq<char> {
        self.text@
    }
}

impl View for Text {
    type V = Seq<char>;

    open spec fn view(&self) -> Seq<char> {
        self.text@
    }
}

impl View for Real {
    type V = Seq<char>;

    open spec fn view(&self) -> Seq<char> {
        self.text@
    }
}

impl View for Color {
    type V = Color;

    open spec fn view(&self) -> Color {
        *self
    }
}

impl View for Double {
    type V = Double;

    open spec fn view(&self) -> Double {
        *self
    }
}

/// A value that has an SGF text form.
pub trait ToSgf: View {
    /// The SGF text of a value with view `v`.
    spec fn sgf_text(v: Self::V) -> Seq<char>;

    fn to_sgf(&self) -> (r: String)
        ensures
            r@ == Self::sgf_text(self@),
    ;
}

/// A value that can be read from its SGF text.
pub trait FromSgf: View + Sized {
    /// What the text `s` reads as, if it is valid for this type.
    spec fn sgf_parse(s: Seq<char>) -> Option<Self::V>;

    fn from_sgf(s: &str) -> (r: Option<Self>)
        ensures
            r is None <==> Self::sgf_parse(s@) is None,
            r matches Some(v) ==> Self::sgf_parse(s@) == Some(v@),
    ;
}

pub open spec fn is_digit(c: char) -> bool {
    '0' <= c && c <= '9'
}

pub open spec fn all_digits(s: Seq<char>) -> bool {
    forall|i: int| 0 <= i < s.len() ==> is_digit(#[trigger] s[i])
}

/// The value of a string of decimal digits.
pub open spec fn digits_value(s: Seq<char>) -> int
    decreases s.len(),
{
    if s.len() == 0 {
        0
    } else {
        digits_value(s.drop_last()) * 10 + (s.last() as int - '0' as int)
    }
}

/// Whether `s` starts with a sign character.
pub open spec fn has_sign(s: Seq<char>) -> bool {
    s.len() > 0 && (s[0] == '-' || s[0] == '+')
}

/// The digits of an integer text, after its optional sign.
pub open spec fn unsigned_part(s: Seq<char>) -> Seq<char> {
    if has_sign(s) {
        s.drop_first()
    } else {
        s
    }
}

/// The integer that `s` writes: an optional `+` or `-`, then one or more digits.
pub open spec fn int_text(s: Seq<char>) -> Option<int> {
    let d = unsigned_part(s);
    if d.len() > 0 && all_digits(d) {
        Some(
            if s[0] == '-' {
                -digits_value(d)
            } else {
                digits_value(d)
            },
        )
    } else {
        None
    }
}

/// An SGF Number that fits in an `i64`.
pub open spec fn i64_text(s: Seq<char>) -> Option<i64> {
    match int_text(s) {
        Some(v) => if i64::MIN <= v <= i64::MAX {
            Some(v as i64)
        } else {
            None
        },
        None => None,
    }
}

/// An unsigned number that fits in a `u8` (a `-` sign is refused, even before zero).
pub open spec fn u8_text(s: Seq<char>) -> Option<u8> {
    match int_text(s) {
        Some(v) => if s[0] != '-' && 0 <= v <= 255 {
            Some(v as u8)
        } else {
            None
        },
        None => None,
    }
}

/// The decimal text of `v`.
pub open spec fn decimal_text(v: int) -> Seq<char>
    decreases (if v < 0 { -v + 1 } else { v }),
{
    if v < 0 {
        seq!['-'] + decimal_text(-v)
    } else if v < 10 {
        seq![(v + '0' as int) as char]
    } else {
        decimal_text(v / 10) + seq![((v % 10) + '0' as int) as char]
    }
}

proof fn lemma_digits_nonneg(s: Seq<char>)
    requires
        all_digits(s),
    ensures
        0 <= digits_value(s),
    decreases s.len(),
{
    if s.len() > 0 {
        assert(is_digit(s[s.len() - 1]));
        lemma_digits_nonneg(s.drop_last());
    }
}

proof fn lemma_digits_monotone(s: Seq<char>, i: int, j: int)
    requires
        0 <= i <= j <= s.len(),
        all_digits(s),
    ensures
        digits_value(s.subrange(0, i)) <= digits_value(s.subrange(0, j)),
    decreases j,
{
    if i < j {
        lemma_digits_monotone(s, i, j - 1);
        assert(s.subrange(0, j).drop_last() =~= s.subrange(0, j - 1));
        assert(is_digit(s[j - 1]));
        lemma_digits_nonneg(s.subrange(0, j - 1));
    }
}

const LIMIT: u64 = 9223372036854775808;

/// Reads an integer text; `None` when it is malformed or its magnitude is
/// beyond 2^63.
fn parse_int(s: &str) -> (r: Option<(bool, u64)>)
    ensures
        r matches Some((neg, m)) ==> int_text(s@) == Some(if neg { -(m as int) } else { m as int })
            && neg == (s@[0] == '-') && m <= LIMIT,
        r is None ==> (int_text(s@) is None || (int_text(s@)->0 > LIMIT || int_text(s@)->0
            < -LIMIT)),
{
    let cs = chars_of(s);
    let n = cs.len();
    let mut start: usize = 0;
    let mut neg = false;
    if n > 0 && (cs[0] == '-' || cs[0] == '+') {
        start = 1;
        neg = cs[0] == '-';
    }
    let ghost d = unsigned_part(s@);
    assert(d =~= cs@.subrange(start as int, n as int));
    if start >= n {
        return None;
    }
    let mut acc: u64 = 0;
    let mut i = start;
    while i < n
        invariant
            start <= i <= n == cs@.len(),
            cs@ == s@,
            d == cs@.subrange(start as int, n as int),
            d == unsigned_part(s@),
            start == 1 <==> has_sign(s@),
            acc <= LIMIT,
            forall|k: int| 0 <= k < i - start ==> is_digit(#[trigger] d[k]),
            acc as int == digits_value(d.subrange(0, i - start)),
        decreases n - i,
    {
        let c = cs[i];
        assert(c == d[i - start]);
        if !('0' <= c && c <= '9') {
            assert(!is_digit(d[i - start]));
            assert(!all_digits(d));
            assert(int_text(s@) is None);
            return None;
        }
        let dv = (c as u32 - '0' as u32) as u64;
        assert(d.subrange(0, i + 1 - start).drop_last() =~= d.subrange(0, i - start));
        assert(digits_value(d.subrange(0, i + 1 - start)) == acc * 10 + dv);
        if acc > (LIMIT - dv) / 10 {
            proof {
                assert(acc * 10 + dv > LIMIT) by (nonlinear_arith)
                    requires
                        acc > (LIMIT - dv) / 10,
                        dv <= 9,
                ;
                if all_digits(d) {
                    lemma_digits_monotone(d, i + 1 - start, d.len() as int);
                    assert(d.subrange(0, d.len() as int) =~= d);
                    assert(digits_value(d) > LIMIT);
                    if s@[0] == '-' {
                        assert(int_text(s@)->0 < -LIMIT);
                    } else {
                        assert(int_text(s@)->0 > LIMIT);
                    }
                } else {
                    assert(int_text(s@) is None);
                }
            }
            return None;
        }
        acc = acc * 10 + dv;
        i = i + 1;
    }
    assert(d.subrange(0, n - start) =~= d);
    Some((neg, acc))
}

/// Reads an SGF Number into an `i64`.
pub fn parse_i64(s: &str) -> (r: Option<i64>)
    ensures
        r == i64_text(s@),
{
    match parse_int(s) {
        None => None,
        Some((neg, m)) => {
            if neg {
                if m == LIMIT {
                    Some(i64::MIN)
                } else {
                    Some(-(m as i64))
                }
            } else if m < LIMIT {
                Some(m as i64)
            } else {
                None
            }
        },
    }
}

/// Reads an unsigned number into a `u8`.
pub fn parse_u8(s: &str) -> (r: Option<u8>)
    ensures
        r == u8_text(s@),
{
    match parse_int(s) {
        None => None,
        Some((neg, m)) => {
            if !neg && m <= 255 {
                Some(m as u8)
            } else {
                None
            }
        },
    }
}

fn push_decimal(out: &mut String, m: u64)
    ensures
        final(out)@ == old(out)@ + decimal_text(m as int),
    decreases m,
{
    if m >= 10 {
        push_decimal(out, m / 10);
    }
    out.push(((m % 10) as u8 + 48u8) as char);
    assert(final(out)@ =~= old(out)@ + decimal_text(m as int));
}

/// Writes `v` in decimal.
pub fn decimal_string(v: i64) -> (r: String)
    ensures
        r@ == decimal_text(v as int),
{
    let mut out = String::new();
    if v < 0 {
        out.push('-');
        let m: u64 = if v == i64::MIN {
            LIMIT
        } else {
            (-v) as u64
        };
        push_decimal(&mut out, m);
    } else {
        push_decimal(&mut out, v as u64);
    }
    assert(out@ =~= decimal_text(v as int));
    out
}

/// The index of the first `c` in `s`, or -1.
pub open spec fn index_of(s: Seq<char>, c: char) -> int
    decreases s.len(),
{
    if s.len() == 0 {
        -1
    } else if index_of(s.drop_last(), c) >= 0 {
        index_of(s.drop_last(), c)
    } else if s.last() == c {
        s.len() - 1
    } else {
        -1
    }
}

pub proof fn lemma_index_of(s: Seq<char>, c: char)
    ensures
        -1 <= index_of(s, c) < s.len(),
        index_of(s, c) >= 0 ==> s[index_of(s, c)] == c,
        forall|k: int| 0 <= k < s.len() && (index_of(s, c) < 0 || k < index_of(s, c)) ==> s[k]
            != c,
    decreases s.len(),
{
    if s.len() > 0 {
        lemma_index_of(s.drop_last(), c);
        assert forall|k: int|
            0 <= k < s.len() && (index_of(s, c) < 0 || k < index_of(s, c)) implies s[k] != c by {
            if k < s.len() - 1 {
                assert(s[k] == s.drop_last()[k]);
            }
        }
    }
}

/// Finds the first `c` in `s`.
pub fn find_char(s: &Vec<char>, c: char) -> (r: Option<usize>)
    ensures
        r matches Some(k) ==> index_of(s@, c) == k,
        r is None ==> index_of(s@, c) == -1,
{
    let mut i: usize = 0;
    while i < s.len()
        invariant
            i <= s@.len(),
            index_of(s@.subrange(0, i as int), c) == -1,
        decreases s.len() - i,
    {
        assert(s@.subrange(0, i + 1).drop_last() =~= s@.subrange(0, i as int));
        if s[i] == c {
            proof { lemma_index_prefix(s@, i as int + 1, c); }
            return Some(i);
        }
        i = i + 1;
    }
    assert(s@.subrange(0, s@.len() as int) =~= s@);
    None
}

proof fn lemma_index_prefix(s: Seq<char>, j: int, c: char)
    requires
        0 < j <= s.len(),
        index_of(s.subrange(0, j), c) >= 0,
    ensures
        index_of(s, c) == index_of(s.subrange(0, j), c),
    decreases s.len() - j,
{
    if j < s.len() {
        assert(s.subrange(0, j + 1).drop_last() =~= s.subrange(0, j));
        lemma_index_prefix(s, j + 1, c);
    } else {
        assert(s.subrange(0, j) =~= s);
    }
}

/// Whether `s` is SGF Real text: a Number, then optionally `.` and one or more digits.
pub open spec fn is_real_text(s: Seq<char>) -> bool {
    let k = index_of(s, '.');
    if k < 0 {
        int_text(s) is Some
    } else {
        int_text(s.subrange(0, k)) is Some && k + 1 < s.len() && all_digits(
            s.subrange(k + 1, s.len() as int),
        )
    }
}

fn int_syntax(s: &Vec<char>, from: usize, to: usize) -> (r: bool)
    requires
        from <= to <= s@.len(),
    ensures
        r == (int_text(s@.subrange(from as int, to as int)) is Some),
{
    let ghost t = s@.subrange(from as int, to as int);
    let mut i = from;
    if i < to && (s[i] == '-' || s[i] == '+') {
        i = i + 1;
    }
    assert(unsigned_part(t) =~= s@.subrange(i as int, to as int));
    if i >= to {
        assert(unsigned_part(t).len() == 0);
        return false;
    }
    let start = i;
    while i < to
        invariant
            start <= i <= to <= s@.len(),
            unsigned_part(t) == s@.subrange(start as int, to as int),
            t == s@.subrange(from as int, to as int),
            forall|k: int| start <= k < i ==> is_digit(#[trigger] s@[k]),
        decreases to - i,
    {
        if !('0' <= s[i] && s[i] <= '9') {
            assert(unsigned_part(t)[i - start] == s@[i as int]);
            assert(!is_digit(unsigned_part(t)[i - start]));
            return false;
        }
        i = i + 1;
    }
    assert forall|k: int| 0 <= k < unsigned_part(t).len() implies is_digit(
        #[trigger] unsigned_part(t)[k],
    ) by {
        assert(unsigned_part(t)[k] == s@[k + start]);
    }
    true
}

fn digits_only(s: &Vec<char>, from: usize) -> (r: bool)
    requires
        from <= s@.len(),
    ensures
        r == all_digits(s@.subrange(from as int, s@.len() as int)),
{
    let mut i = from;
    while i < s.len()
        invariant
            from <= i <= s@.len(),
            forall|k: int| from <= k < i ==> is_digit(#[trigger] s@[k]),
        decreases s.len() - i,
    {
        if !('0' <= s[i] && s[i] <= '9') {
            assert(!is_digit(s@.subrange(from as int, s@.len() as int)[i - from]));
            return false;
        }
        i = i + 1;
    }
    assert forall|k: int| 0 <= k < s@.len() - from implies is_digit(
        #[trigger] s@.subrange(from as int, s@.len() as int)[k],
    ) by {
        assert(is_digit(s@[k + from]));
    }
    true
}

impl FromSgf for i64 {
    open spec fn sgf_parse(s: Seq<char>) -> Option<i64> {
        i64_text(s)
    }

    fn from_sgf(s: &str) -> (r: Option<i64>) {
        parse_i64(s)
    }
}

impl ToSgf for i64 {
    open spec fn sgf_text(v: i64) -> Seq<char> {
        decimal_text(v as int)
    }

    fn to_sgf(&self) -> (r: String) {
        decimal_string(*self)
    }
}

impl FromSgf for u8 {
    open spec fn sgf_parse(s: Seq<char>) -> Option<u8> {
        u8_text(s)
    }

    fn from_sgf(s: &str) -> (r: Option<u8>) {
        parse_u8(s)
    }
}

impl ToSgf for u8 {
    open spec fn sgf_text(v: u8) -> Seq<char> {
        decimal_text(v as int)
    }

    fn to_sgf(&self) -> (r: String) {
        decimal_string(*self as i64)
    }
}

impl FromSgf for Real {
    open spec fn sgf_parse(s: Seq<char>) -> Option<Seq<char>> {
        if is_real_text(s) {
            Some(s)
        } else {
            None
        }
    }

    fn from_sgf(s: &str) -> (r: Option<Real>) {
        let cs = chars_of(s);
        proof {
            lemma_index_of(cs@, '.');
        }
        let ok = match find_char(&cs, '.') {
            None => int_syntax(&cs, 0, cs.len()),
            Some(k) => int_syntax(&cs, 0, k) && k + 1 < cs.len() && digits_only(&cs, k + 1),
        };
        assert(cs@.subrange(0, cs@.len() as int) =~= cs@);
        if ok {
            Some(Real { text: string_of(&cs) })
        } else {
            None
        }
    }
}

impl ToSgf for Real {
    open spec fn sgf_text(v: Seq<char>) -> Seq<char> {
        v
    }

    fn to_sgf(&self) -> (r: String) {
        owned(self.text.as_str())
    }
}

impl FromSgf for Double {
    open spec fn sgf_parse(s: Seq<char>) -> Option<Double> {
        if s == seq!['1'] {
            Some(Double::One)
        } else if s == seq!['2'] {
            Some(Double::Two)
        } else {
            None
        }
    }

    fn from_sgf(s: &str) -> (r: Option<Double>) {
        let cs = chars_of(s);
        if cs.len() == 1 && cs[0] == '1' {
            assert(cs@ =~= seq!['1']);
            Some(Double::One)
        } else if cs.len() == 1 && cs[0] == '2' {
            assert(cs@ =~= seq!['2']);
            Some(Double::Two)
        } else {
            None
        }
    }
}

impl ToSgf for Double {
    open spec fn sgf_text(v: Double) -> Seq<char> {
        match v {
            Double::One => seq!['1'],
            Double::Two => seq!['2'],
        }
    }

    fn to_sgf(&self) -> (r: String) {
        let mut out = String::new();
        match self {
            Double::One => out.push('1'),
            Double::Two => out.push('2'),
        }
        assert(out@ =~= Self::sgf_text(self@));
        out
    }
}

impl FromSgf for Color {
    open spec fn sgf_parse(s: Seq<char>) -> Option<Color> {
        if s == seq!['B'] {
            Some(Color::Black)
        } else if s == seq!['W'] {
            Some(Color::White)
        } else {
            None
        }
    }

    fn from_sgf(s: &str) -> (r: Option<Color>) {
        let cs = chars_of(s);
        if cs.len() == 1 && cs[0] == 'B' {
            assert(cs@ =~= seq!['B']);
            Some(Color::Black)
        } else if cs.len() == 1 && cs[0] == 'W' {
            assert(cs@ =~= seq!['W']);
            Some(Color::White)
        } else {
            None
        }
    }
}

impl ToSgf for Color {
    open spec fn sgf_text(v: Color) -> Seq<char> {
        match v {
            Color::Black => seq!['B'],
            Color::White => seq!['W'],
        }
    }

    fn to_sgf(&self) -> (r: String) {
        let mut out = String::new();
        match self {
            Color::Black => out.push('B'),
            Color::White => out.push('W'),
        }
        assert(out@ =~= Self::sgf_text(self@));
        out
    }
}

impl FromSgf for SimpleText {
    open spec fn sgf_parse(s: Seq<char>) -> Option<Seq<char>> {
        Some(s)
    }

    fn from_sgf(s: &str) -> (r: Option<SimpleText>) {
        Some(SimpleText { text: owned(s) })
    }
}

impl ToSgf for SimpleText {
    open spec fn sgf_text(v: Seq<char>) -> Seq<char> {
        escaped(v)
    }

    fn to_sgf(&self) -> (r: String) {
        escape_string(self.text.as_str())
    }
}

impl FromSgf for Text {
    open spec fn sgf_parse(s: Seq<char>) -> Option<Seq<char>> {
        Some(s)
    }

    fn from_sgf(s: &str) -> (r: Option<Text>) {
        Some(Text { text: owned(s) })
    }
}

impl ToSgf for Text {
    open spec fn sgf_text(v: Seq<char>) -> Seq<char> {
        escaped(v)
    }

    fn to_sgf(&self) -> (r: String) {
        escape_string(self.text.as_str())
    }
}

impl SimpleText {
    /// The text as a reader sees it: escapes decoded, soft line breaks
    /// removed and every other line break or whitespace turned into a space.
    pub fn rendered(&self) -> (r: String)
        ensures
            r@ == formatted_simple(self.text@),
    {
        string_of(&format_simple_text(self.text.as_str()))
    }
}

impl Text {
    /// The text as a reader sees it: escapes decoded, soft line breaks
    /// removed, hard line breaks kept and other whitespace turned into spaces.
    pub fn rendered(&self) -> (r: String)
        ensures
            r@ == formatted(self.text@),
    {
        string_of(&format_text(self.text.as_str()))
    }
}

/// The texts `s` joined by `][`, as the values of one property are written.
pub open spec fn join_values(s: Seq<Seq<char>>) -> Seq<char>
    decreases s.len(),
{
    if s.len() == 0 {
        Seq::empty()
    } else if s.len() == 1 {
        s[0]
    } else {
        join_values(s.drop_last()) + seq![']', '['] + s.last()
    }
}

impl<T: ToSgf> ToSgf for Vec<T> {
    open spec fn sgf_text(v: Seq<T>) -> Seq<char> {
        join_values(v.map_values(|t: T| T::sgf_text(t@)))
    }

    fn to_sgf(&self) -> (r: String) {
        let ghost texts = self@.map_values(|t: T| T::sgf_text(t@));
        let mut out = String::new();
        let mut i: usize = 0;
        while i < self.len()
            invariant
                i <= self@.len(),
                texts == self@.map_values(|t: T| T::sgf_text(t@)),
                out@ == join_values(texts.subrange(0, i as int)),
            decreases self.len() - i,
        {
            if i > 0 {
                out.push(']');
                out.push('[');
            }
            let t = self[i].to_sgf();
            push_all(&mut out, t.as_str());
            assert(texts.subrange(0, i + 1).drop_last() =~= texts.subrange(0, i as int));
            i = i + 1;
        }
        assert(texts.subrange(0, self@.len() as int) =~= texts);
        out
    }
}

impl<A: ToSgf, B: ToSgf> ToSgf for (A, B) {
    open spec fn sgf_text(v: (A::V, B::V)) -> Seq<char> {
        A::sgf_text(v.0) + seq![':'] + B::sgf_text(v.1)
    }

    fn to_sgf(&self) -> (r: String) {
        let mut out = self.0.to_sgf();
        out.push(':');
        let b = self.1.to_sgf();
        push_all(&mut out, b.as_str());
        assert(out@ =~= Self::sgf_text(self@));
        out
    }
}

impl<T: ToSgf> ToSgf for Option<T> {
    open spec fn sgf_text(v: Option<T>) -> Seq<char> {
        match v {
            Some(t) => T::sgf_text(t@),
            None => Seq::empty(),
        }
    }

    fn to_sgf(&self) -> (r: String) {
        match self {
            Some(t) => t.to_sgf(),
            None => String::new(),
        }
    }
}

} // verus!
