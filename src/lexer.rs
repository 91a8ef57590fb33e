//! The tokenizer: SGF text to a flat list of structural and property tokens.
//!
//! It is stated as a machine that reads one character at a time. Token
//! positions are counted in characters.
use vstd::prelude::*;
use crate::props::parse::raw_view;
use crate::text::{ascii_ws, chars_of, is_ascii_ws, string_of};

verus! {

/// A token of SGF text.
#[derive(Debug, PartialEq)]
pub enum Token {
    StartGameTree,
    EndGameTree,
    StartNode,
    Property((String, Vec<String>)),
}

/// Error for text that cannot be tokenized.
#[derive(Debug, Clone, Copy, PartialEq, Eq, Structural)]
pub enum LexerError {
    UnexpectedPropertyIdentifier,
    MissingPropertyIdentifier,
    UnexpectedEndOfProperty,
}

/// The message for a tokenizer error.
pub open spec fn lexer_error_text(e: LexerError) -> Seq<char> {
    match e {
        LexerError::UnexpectedPropertyIdentifier => "Unexpected property identifier value"@,
        LexerError::MissingPropertyIdentifier => "Missing property identifier"@,
        LexerError::UnexpectedEndOfProperty => "Unexpected end of property"@,
    }
}

impl LexerError {
    /// A message that describes the error.
    pub fn message(&self) -> (r: String)
        ensures
            r@ == lexer_error_text(*self),
    {
        match self {
            LexerError::UnexpectedPropertyIdentifier => crate::text::owned(
                "Unexpected property identifier value",
            ),
            LexerError::MissingPropertyIdentifier => crate::text::owned("Missing property identifier"),
            LexerError::UnexpectedEndOfProperty => crate::text::owned("Unexpected end of property"),
        }
    }
}

/// A token as plain values: a property is its identifier and raw values.
pub enum TokenView {
    StartGameTree,
    EndGameTree,
    StartNode,
    Property(Seq<char>, Seq<Seq<char>>),
}

impl View for Token {
    type V = TokenView;

    open spec fn view(&self) -> TokenView {
        match self {
            Token::StartGameTree => TokenView::StartGameTree,
            Token::EndGameTree => TokenView::EndGameTree,
            Token::StartNode => TokenView::StartNode,
            Token::Property(p) => TokenView::Property(p.0@, raw_view(p.1@)),
        }
    }
}

/// What the tokenizer is in the middle of.
#[derive(Debug, Clone, Copy, PartialEq, Eq, Structural)]
pub enum Mode {
    /// Between tokens.
    Top,
    /// After a structural token, skipping ASCII whitespace.
    Trim,
    /// Reading a property identifier.
    Ident,
    /// Inside a bracketed value.
    Value,
    /// Inside a bracketed value, right after a backslash.
    Escape,
    /// Inside a bracketed value, right after an escaped line feed: a carriage
    /// return here belongs to the same soft line break.
    SoftLf,
    /// Inside a bracketed value, right after an escaped carriage return: a
    /// line feed here belongs to the same soft line break.
    SoftCr,
    /// After a value, skipping ASCII whitespace up to `[` or the next token.
    AfterValue,
}

/// The tokenizer's state after a prefix of the text.
pub struct LexState {
    pub mode: Mode,
    pub tokens: Seq<TokenView>,
    pub spans: Seq<(int, int)>,
    /// Where the property being read starts.
    pub start: int,
    pub ident: Seq<char>,
    pub vals: Seq<Seq<char>>,
    pub cur: Seq<char>,
    pub err: Option<LexerError>,
}

pub open spec fn initial_state() -> LexState {
    LexState {
        mode: Mode::Top,
        tokens: Seq::empty(),
        spans: Seq::empty(),
        start: 0,
        ident: Seq::empty(),
        vals: Seq::empty(),
        cur: Seq::empty(),
        err: None,
    }
}

pub open spec fn emit(st: LexState, t: TokenView, from: int, to: int) -> LexState {
    LexState { tokens: st.tokens.push(t), spans: st.spans.push((from, to)), ..st }
}

/// Completes the property being read, which ends at `to`.
pub open spec fn emit_property(st: LexState, to: int) -> LexState {
    emit(
        LexState { mode: Mode::Top, vals: Seq::empty(), ..st },
        TokenView::Property(st.ident, st.vals),
        st.start,
        to,
    )
}

/// Reads `c` as part of a property identifier: `[` opens its first value,
/// another ASCII character joins it, anything else is an error.
pub open spec fn step_ident(st: LexState, c: char) -> LexState {
    if c == '[' {
        LexState { mode: Mode::Value, cur: Seq::empty(), ..st }
    } else if (c as u32) < 128 {
        LexState { ident: st.ident.push(c), ..st }
    } else {
        LexState { err: Some(LexerError::UnexpectedPropertyIdentifier), ..st }
    }
}

/// Reads `c`, at position `i`, between tokens.
pub open spec fn step_top(st: LexState, c: char, i: int) -> LexState {
    if c == '(' {
        emit(LexState { mode: Mode::Trim, ..st }, TokenView::StartGameTree, i, i + 1)
    } else if c == ')' {
        emit(LexState { mode: Mode::Trim, ..st }, TokenView::EndGameTree, i, i + 1)
    } else if c == ';' {
        emit(LexState { mode: Mode::Trim, ..st }, TokenView::StartNode, i, i + 1)
    } else {
        step_ident(
            LexState {
                mode: Mode::Ident,
                start: i,
                ident: Seq::empty(),
                vals: Seq::empty(),
                ..st
            },
            c,
        )
    }
}

/// Reads `c` inside a bracketed value: `]` ends the value, a backslash
/// escapes the next character, anything else joins the value.
pub open spec fn step_value(st: LexState, c: char) -> LexState {
    if c == ']' {
        LexState {
            mode: Mode::AfterValue,
            vals: st.vals.push(st.cur),
            cur: Seq::empty(),
            ..st
        }
    } else if c == '\\' {
        LexState { mode: Mode::Escape, ..st }
    } else {
        LexState { cur: st.cur.push(c), ..st }
    }
}

/// Reads the character `c` at position `i`. An escaped line break, with an
/// optional complementary second break character, is dropped (a soft line
/// break); any other escaped character is kept.
pub open spec fn step(st: LexState, c: char, i: int) -> LexState {
    if st.err is Some {
        st
    } else {
        match st.mode {
            Mode::Top => step_top(st, c, i),
            Mode::Trim => if is_ascii_ws(c) {
                st
            } else {
                step_top(st, c, i)
            },
            Mode::Ident => step_ident(st, c),
            Mode::Value => step_value(st, c),
            Mode::Escape => if c == '\n' {
                LexState { mode: Mode::SoftLf, ..st }
            } else if c == '\r' {
                LexState { mode: Mode::SoftCr, ..st }
            } else {
                LexState { mode: Mode::Value, cur: st.cur.push(c), ..st }
            },
            Mode::SoftLf => if c == '\r' {
                LexState { mode: Mode::Value, ..st }
            } else {
                step_value(LexState { mode: Mode::Value, ..st }, c)
            },
            Mode::SoftCr => if c == '\n' {
                LexState { mode: Mode::Value, ..st }
            } else {
                step_value(LexState { mode: Mode::Value, ..st }, c)
            },
            Mode::AfterValue => if is_ascii_ws(c) {
                st
            } else if c == '[' {
                LexState { mode: Mode::Value, cur: Seq::empty(), ..st }
            } else {
                step_top(emit_property(st, i), c, i)
            },
        }
    }
}

/// The state after the first `i` characters of `s`.
pub open spec fn lex_prefix(s: Seq<char>, i: int) -> LexState
    decreases i,
{
    if i <= 0 || i > s.len() {
        initial_state()
    } else {
        step(lex_prefix(s, i - 1), s[i - 1], i - 1)
    }
}

/// The state at the end of text of length `n`: a property still open after a
/// value is complete; one still in its identifier lacks a value; one inside a
/// value is cut short.
pub open spec fn finish(st: LexState, n: int) -> LexState {
    if st.err is Some {
        st
    } else {
        match st.mode {
            Mode::Ident => LexState { err: Some(LexerError::MissingPropertyIdentifier), ..st },
            Mode::Value | Mode::Escape | Mode::SoftLf | Mode::SoftCr => LexState {
                err: Some(LexerError::UnexpectedEndOfProperty),
                ..st
            },
            Mode::AfterValue => emit_property(st, n),
            _ => st,
        }
    }
}

/// The tokens of `s` up to its first error, their positions, and that error.
pub open spec fn lex(s: Seq<char>) -> LexState {
    finish(lex_prefix(s, s.len() as int), s.len() as int)
}

pub open spec fn token_views(ts: Seq<Token>) -> Seq<TokenView> {
    ts.map_values(|t: Token| t@)
}

pub open spec fn span_views(ss: Seq<(usize, usize)>) -> Seq<(int, int)> {
    ss.map_values(|p: (usize, usize)| (p.0 as int, p.1 as int))
}

/// The tokenizer's working state.
struct Lexer {
    mode: Mode,
    tokens: Vec<Token>,
    spans: Vec<(usize, usize)>,
    start: usize,
    ident: Vec<char>,
    vals: Vec<String>,
    cur: Vec<char>,
    err: Option<LexerError>,
}

impl Lexer {
    spec fn matches(&self, st: LexState) -> bool {
        &&& self.mode == st.mode
        &&& token_views(self.tokens@) == st.tokens
        &&& span_views(self.spans@) == st.spans
        &&& self.start as int == st.start
        &&& self.ident@ == st.ident
        &&& raw_view(self.vals@) == st.vals
        &&& self.cur@ == st.cur
        &&& self.err == st.err
    }

    fn emit(&mut self, t: Token, from: usize, to: usize)
        ensures
            final(self).tokens@ == old(self).tokens@.push(t),
            final(self).spans@ == old(self).spans@.push((from, to)),
            final(self).mode == old(self).mode,
            final(self).start == old(self).start,
            final(self).ident == old(self).ident,
            final(self).vals == old(self).vals,
            final(self).cur == old(self).cur,
            final(self).err == old(self).err,
    {
        self.tokens.push(t);
        self.spans.push((from, to));
    }

    fn step_ident(&mut self, c: char, Ghost(st): Ghost<LexState>)
        requires
            old(self).matches(st),
        ensures
            final(self).matches(step_ident(st, c)),
    {
        if c == '[' {
            self.mode = Mode::Value;
            self.cur = Vec::new();
            assert(self.cur@ =~= Seq::<char>::empty());
        } else if (c as u32) < 128 {
            self.ident.push(c);
        } else {
            self.err = Some(LexerError::UnexpectedPropertyIdentifier);
        }
    }

    fn step_top(&mut self, c: char, i: usize, Ghost(st): Ghost<LexState>)
        requires
            old(self).matches(st),
            i < usize::MAX,
        ensures
            final(self).matches(step_top(st, c, i as int)),
    {
        if c == '(' || c == ')' || c == ';' {
            self.mode = Mode::Trim;
            let t = if c == '(' {
                Token::StartGameTree
            } else if c == ')' {
                Token::EndGameTree
            } else {
                Token::StartNode
            };
            let ghost before = *self;
            self.emit(t, i, i + 1);
            proof {
                assert(token_views(self.tokens@) =~= token_views(before.tokens@).push(t@));
                assert(span_views(self.spans@) =~= span_views(before.spans@).push(
                    (i as int, i + 1),
                ));
            }
        } else {
            self.mode = Mode::Ident;
            self.start = i;
            self.ident = Vec::new();
            self.vals = Vec::new();
            assert(self.ident@ =~= Seq::<char>::empty());
            assert(raw_view(self.vals@) =~= Seq::<Seq<char>>::empty());
            self.step_ident(
                c,
                Ghost(
                    LexState {
                        mode: Mode::Ident,
                        start: i as int,
                        ident: Seq::empty(),
                        vals: Seq::empty(),
                        ..st
                    },
                ),
            );
        }
    }

    fn emit_property(&mut self, to: usize, Ghost(st): Ghost<LexState>)
        requires
            old(self).matches(st),
        ensures
            final(self).matches(emit_property(st, to as int)),
    {
        let id = string_of(&self.ident);
        let mut vals: Vec<String> = Vec::new();
        std::mem::swap(&mut vals, &mut self.vals);
        assert(raw_view(self.vals@) =~= Seq::<Seq<char>>::empty());
        let ghost before = *self;
        self.mode = Mode::Top;
        let t = Token::Property((id, vals));
        let from = self.start;
        self.emit(t, from, to);
        proof {
            assert(t@ == TokenView::Property(st.ident, st.vals));
            assert(token_views(self.tokens@) =~= token_views(before.tokens@).push(t@));
            assert(span_views(self.spans@) =~= span_views(before.spans@).push(
                (st.start, to as int),
            ));
        }
    }

    fn step_value(&mut self, c: char, Ghost(st): Ghost<LexState>)
        requires
            old(self).matches(st),
        ensures
            final(self).matches(step_value(st, c)),
    {
        if c == ']' {
            let mut cur: Vec<char> = Vec::new();
            std::mem::swap(&mut cur, &mut self.cur);
            let ghost before = raw_view(self.vals@);
            self.vals.push(string_of(&cur));
            assert(raw_view(self.vals@) =~= before.push(cur@));
            assert(self.cur@ =~= Seq::<char>::empty());
            self.mode = Mode::AfterValue;
        } else if c == '\\' {
            self.mode = Mode::Escape;
        } else {
            self.cur.push(c);
        }
    }

    /// Reads the character `c` at position `i`.
    fn step(&mut self, c: char, i: usize, Ghost(st): Ghost<LexState>)
        requires
            old(self).matches(st),
            i < usize::MAX,
        ensures
            final(self).matches(step(st, c, i as int)),
    {
        if self.err.is_some() {
            return;
        }
        match self.mode {
            Mode::Top => self.step_top(c, i, Ghost(st)),
            Mode::Trim => {
                if !ascii_ws(c) {
                    self.step_top(c, i, Ghost(st));
                }
            },
            Mode::Ident => self.step_ident(c, Ghost(st)),
            Mode::Value => self.step_value(c, Ghost(st)),
            Mode::Escape => {
                if c == '\n' {
                    self.mode = Mode::SoftLf;
                } else if c == '\r' {
                    self.mode = Mode::SoftCr;
                } else {
                    self.cur.push(c);
                    self.mode = Mode::Value;
                }
            },
            Mode::SoftLf | Mode::SoftCr => {
                let pair = if self.mode == Mode::SoftLf {
                    '\r'
                } else {
                    '\n'
                };
                self.mode = Mode::Value;
                if c != pair {
                    self.step_value(c, Ghost(LexState { mode: Mode::Value, ..st }));
                }
            },
            Mode::AfterValue => {
                if ascii_ws(c) {
                } else if c == '[' {
                    self.mode = Mode::Value;
                    self.cur = Vec::new();
                    assert(self.cur@ =~= Seq::<char>::empty());
                } else {
                    self.emit_property(i, Ghost(st));
                    self.step_top(c, i, Ghost(emit_property(st, i as int)));
                }
            },
        }
    }
}

/// Tokenizes `text`: the tokens up to the first error, each with its
/// position (first character and one past the last, counted in characters),
/// and the error if there is one.
pub fn tokenize(text: &str) -> (r: (Vec<Token>, Vec<(usize, usize)>, Option<LexerError>))
    ensures
        token_views(r.0@) == lex(text@).tokens,
        span_views(r.1@) == lex(text@).spans,
        r.2 == lex(text@).err,
{
    let cs = chars_of(text);
    let n = cs.len();
    let mut lx = Lexer {
        mode: Mode::Top,
        tokens: Vec::new(),
        spans: Vec::new(),
        start: 0,
        ident: Vec::new(),
        vals: Vec::new(),
        cur: Vec::new(),
        err: None,
    };
    proof {
        assert(token_views(lx.tokens@) =~= Seq::<TokenView>::empty());
        assert(span_views(lx.spans@) =~= Seq::<(int, int)>::empty());
        assert(raw_view(lx.vals@) =~= Seq::<Seq<char>>::empty());
        assert(lx.ident@ =~= Seq::<char>::empty());
        assert(lx.cur@ =~= Seq::<char>::empty());
    }
    let mut i: usize = 0;
    while i < n
        invariant
            i <= n == cs@.len(),
            cs@ == text@,
            lx.matches(lex_prefix(cs@, i as int)),
        decreases n - i,
    {
        lx.step(cs[i], i, Ghost(lex_prefix(cs@, i as int)));
        i = i + 1;
    }
    let ghost st = lex_prefix(cs@, n as int);
    if lx.err.is_none() {
        match lx.mode {
            Mode::Ident => {
                lx.err = Some(LexerError::MissingPropertyIdentifier);
            },
            Mode::Value | Mode::Escape | Mode::SoftLf | Mode::SoftCr => {
                lx.err = Some(LexerError::UnexpectedEndOfProperty);
            },
            Mode::AfterValue => {
                lx.emit_property(n, Ghost(st));
            },
            _ => {},
        }
    }
    assert(lx.matches(finish(st, n as int)));
    (lx.tokens, lx.spans, lx.err)
}

/// The state after reading the characters `s`, the first at position `i0`,
/// from state `st`.
pub open spec fn run(st: LexState, s: Seq<char>, i0: int) -> LexState
    decreases s.len(),
{
    if s.len() == 0 {
        st
    } else {
        step(run(st, s.drop_last(), i0), s.last(), i0 + s.len() - 1)
    }
}

/// Reading `a` and then `b` is reading `a + b`.
pub proof fn lemma_run_concat(st: LexState, a: Seq<char>, b: Seq<char>, i0: int)
    ensures
        run(st, a + b, i0) == run(run(st, a, i0), b, i0 + a.len()),
    decreases b.len(),
{
    if b.len() == 0 {
        assert(a + b =~= a);
    } else {
        lemma_run_concat(st, a, b.drop_last(), i0);
        assert((a + b).drop_last() =~= a + b.drop_last());
    }
}

/// Reading the prefix `a` and then `b` is reading `a + b`.
pub proof fn lemma_lex_prefix_concat(a: Seq<char>, b: Seq<char>)
    ensures
        lex_prefix(a + b, (a.len() + b.len()) as int) == run(lex_prefix(a, a.len() as int), b, a.len() as int),
    decreases b.len(),
{
    if b.len() == 0 {
        assert(a + b =~= a);
    } else {
        lemma_lex_prefix_concat(a, b.drop_last());
        assert((a + b).subrange(0, a.len() + b.len() - 1) =~= a + b.drop_last());
        lemma_lex_prefix_of_prefix(a + b, a.len() + b.len() - 1);
        assert((a + b)[a.len() + b.len() - 1] == b.last());
    }
}

proof fn lemma_lex_prefix_of_prefix(s: Seq<char>, i: int)
    requires
        0 <= i <= s.len(),
    ensures
        lex_prefix(s, i) == lex_prefix(s.subrange(0, i), i),
    decreases i,
{
    if i > 0 {
        lemma_lex_prefix_of_prefix(s, i - 1);
        lemma_lex_prefix_of_prefix(s.subrange(0, i), i - 1);
        assert(s.subrange(0, i).subrange(0, i - 1) =~= s.subrange(0, i - 1));
    }
}

proof fn lemma_run_one(st: LexState, c: char, i0: int)
    ensures
        run(st, seq![c], i0) == step(st, c, i0),
{
    assert(seq![c].drop_last() =~= Seq::<char>::empty());
    assert(seq![c].last() == c);
    assert(run(st, Seq::<char>::empty(), i0) == st);
}

proof fn lemma_run_two(st: LexState, c: char, d: char, i0: int)
    ensures
        run(st, seq![c, d], i0) == step(step(st, c, i0), d, i0 + 1),
{
    assert(seq![c, d].drop_last() =~= seq![c]);
    assert(seq![c, d].last() == d);
    lemma_run_one(st, c, i0);
}

proof fn lemma_escaped_inside_value(st: LexState, v: Seq<char>, i0: int)
    requires
        st.err is None,
        st.mode == Mode::Value,
    ensures
        run(st, crate::text::escaped(v), i0) == (LexState { cur: st.cur + v, ..st }),
    decreases v.len(),
{
    if v.len() == 0 {
        assert(st.cur + v =~= st.cur);
        assert(crate::text::escaped(v) =~= Seq::<char>::empty());
    } else {
        let c = v.last();
        let e = crate::text::escaped(v.drop_last());
        lemma_escaped_inside_value(st, v.drop_last(), i0);
        let mid = LexState { cur: st.cur + v.drop_last(), ..st };
        assert(st.cur + v =~= (st.cur + v.drop_last()).push(c));
        lemma_run_concat(st, e, if c == '\\' || c == ']' || c == ':' {
            seq!['\\', c]
        } else {
            seq![c]
        }, i0);
        if c == '\\' || c == ']' || c == ':' {
            assert(crate::text::escaped(v) == e + seq!['\\', c]);
            lemma_run_two(mid, '\\', c, i0 + e.len());
        } else {
            assert(crate::text::escaped(v) == e + seq![c]);
            lemma_run_one(mid, c, i0 + e.len());
        }
    }
}

/// The tokenizer reads a written value back: after a property identifier or
/// a value, the text `[`, the value `v` escaped, `]` leaves the tokenizer at
/// the end of a value, with `v` added to the property's values.
pub proof fn lemma_escaped_value_reads_back(st: LexState, v: Seq<char>, i0: int)
    requires
        st.err is None,
        st.mode == Mode::Ident || st.mode == Mode::AfterValue,
    ensures
        run(st, seq!['['] + crate::text::escaped(v) + seq![']'], i0) == (LexState {
            mode: Mode::AfterValue,
            vals: st.vals.push(v),
            cur: Seq::empty(),
            ..st
        }),
{
    let open = seq!['['];
    let e = crate::text::escaped(v);
    let opened = LexState { mode: Mode::Value, cur: Seq::empty(), ..st };
    lemma_run_one(st, '[', i0);
    assert(run(st, open, i0) == opened);
    lemma_run_concat(st, open, e, i0);
    lemma_escaped_inside_value(opened, v, i0 + 1);
    assert(Seq::<char>::empty() + v =~= v);
    let filled = LexState { mode: Mode::Value, cur: v, ..st };
    assert(run(st, open + e, i0) == filled);
    lemma_run_concat(st, open + e, seq![']'], i0);
    lemma_run_one(filled, ']', i0 + 1 + e.len());
}

} // verus!
