//! Parsing SGF text into game trees.
use vstd::prelude::*;
use crate::assemble::{assemble, parse_gametree, root_matches, RawNode};
use crate::game_tree::{GameTree, GameType};
use crate::go;
use crate::lexer::{lex, token_views, tokenize, LexerError, Token, TokenView};
use crate::text::{chars_of, string_of, trim_chars, trimmed};
use crate::unknown_game;

verus! {

/// Error for text that cannot be parsed as an SGF collection.
#[derive(Debug, Clone, Copy, PartialEq, Eq, Structural)]
pub enum SgfParseError {
    LexerError(LexerError),
    UnexpectedGameTreeStart,
    UnexpectedGameTreeEnd,
    UnexpectedProperty,
    UnexpectedEndOfData,
    UnexpectedGameType,
    InvalidFF4Property,
}

/// The message for a parse error.
pub open spec fn parse_error_text(e: SgfParseError) -> Seq<char> {
    match e {
        SgfParseError::LexerError(l) => "Error tokenizing: "@ + crate::lexer::lexer_error_text(l),
        SgfParseError::UnexpectedGameTreeStart => "Unexpected start of game tree"@,
        SgfParseError::UnexpectedGameTreeEnd => "Unexpected end of game tree"@,
        SgfParseError::UnexpectedProperty => "Unexpected property"@,
        SgfParseError::UnexpectedEndOfData => "Unexpected end of data"@,
        SgfParseError::UnexpectedGameType => "Unexpected game type"@,
        SgfParseError::InvalidFF4Property => "Invalid FF[4] property without `convert_mixed_case_identifiers`"@,
    }
}

impl SgfParseError {
    /// A message that describes the error.
    pub fn message(&self) -> (r: String)
        ensures
            r@ == parse_error_text(*self),
    {
        match self {
            SgfParseError::LexerError(l) => {
                let mut out = crate::text::owned("Error tokenizing: ");
                let m = l.message();
                crate::text::push_all(&mut out, m.as_str());
                out
            },
            SgfParseError::UnexpectedGameTreeStart => crate::text::owned("Unexpected start of game tree"),
            SgfParseError::UnexpectedGameTreeEnd => crate::text::owned("Unexpected end of game tree"),
            SgfParseError::UnexpectedProperty => crate::text::owned("Unexpected property"),
            SgfParseError::UnexpectedEndOfData => crate::text::owned("Unexpected end of data"),
            SgfParseError::UnexpectedGameType => crate::text::owned("Unexpected game type"),
            SgfParseError::InvalidFF4Property => crate::text::owned(
                "Invalid FF[4] property without `convert_mixed_case_identifiers`",
            ),
        }
    }
}

/// Options for parsing.
pub struct ParseOptions {
    /// Whether an identifier with lower-case letters (an older form, such as
    /// `CoPyright`) is read as its upper-case letters (`CP`) rather than refused.
    pub convert_mixed_case_identifiers: bool,
    /// Whether to parse leniently: never fail, and return what was read up
    /// to the first problem.
    pub lenient: bool,
}

impl Default for ParseOptions {
    fn default() -> (r: ParseOptions)
        ensures
            r.convert_mixed_case_identifiers,
            !r.lenient,
    {
        ParseOptions { convert_mixed_case_identifiers: true, lenient: false }
    }
}

/// The tokens of the text after trimming: strictly, a tokenizer error fails;
/// leniently, the tokens before it are kept.
pub open spec fn tokens_of(text: Seq<char>, lenient: bool) -> Result<Seq<TokenView>, SgfParseError> {
    let l = lex(trimmed(text));
    if lenient {
        Ok(l.tokens)
    } else {
        match l.err {
            Some(e) => Err(SgfParseError::LexerError(e)),
            None => Ok(l.tokens),
        }
    }
}

/// The game trees of a token list, as index ranges, from position `k` on;
/// `depth` counts the open parentheses and `start` is where the current tree began.
pub open spec fn split_from(
    toks: Seq<TokenView>,
    k: int,
    depth: int,
    start: int,
    acc: Seq<(int, int)>,
    lenient: bool,
) -> Result<Seq<(int, int)>, SgfParseError>
    decreases toks.len() - k,
{
    if k < 0 || k >= toks.len() {
        if depth != 0 {
            if lenient {
                Ok(acc.push((start, toks.len() as int)))
            } else {
                Err(SgfParseError::UnexpectedEndOfData)
            }
        } else {
            Ok(acc)
        }
    } else {
        match toks[k] {
            TokenView::StartGameTree => split_from(toks, k + 1, depth + 1, start, acc, lenient),
            TokenView::EndGameTree => if depth == 0 {
                if lenient {
                    Ok(acc)
                } else {
                    Err(SgfParseError::UnexpectedGameTreeEnd)
                }
            } else if depth == 1 {
                split_from(toks, k + 1, 0, k + 1, acc.push((start, k + 1)), lenient)
            } else {
                split_from(toks, k + 1, depth - 1, start, acc, lenient)
            },
            _ => if depth == 0 {
                if lenient {
                    Ok(acc)
                } else {
                    Err(SgfParseError::UnexpectedEndOfData)
                }
            } else {
                split_from(toks, k + 1, depth, start, acc, lenient)
            },
        }
    }
}

/// The game trees of a token list, each a range of token indices ending
/// where its outermost parenthesis closes. Strictly, an unmatched parenthesis
/// or a token outside every tree fails; leniently, reading stops at an
/// unmatched `)` or a token outside every tree, and an unclosed tree runs to
/// the end.
pub open spec fn split_trees(toks: Seq<TokenView>, lenient: bool) -> Result<
    Seq<(int, int)>,
    SgfParseError,
> {
    split_from(toks, 0, 0, 0, Seq::empty(), lenient)
}

/// The indices of the `GM` properties among the property tokens that follow
/// position `k` without a break, up to `hi`.
pub open spec fn gm_hits(toks: Seq<TokenView>, k: int, hi: int) -> Seq<int>
    decreases hi - k,
{
    if k < 0 || k >= hi || k >= toks.len() {
        Seq::empty()
    } else {
        match toks[k] {
            TokenView::Property(id, _) => if id == seq!['G', 'M'] {
                seq![k] + gm_hits(toks, k + 1, hi)
            } else {
                gm_hits(toks, k + 1, hi)
            },
            _ => Seq::empty(),
        }
    }
}

/// The game of the tree in tokens `lo..hi`, from the `GM` properties of its
/// first node (read from the third token on): none or `GM[1]` is Go, any
/// other single value or a list of values is another game, and two `GM`
/// properties fail.
pub open spec fn game_type_of(toks: Seq<TokenView>, lo: int, hi: int) -> Result<
    GameType,
    SgfParseError,
> {
    let h = gm_hits(toks, lo + 2, hi);
    if h.len() == 0 {
        Ok(GameType::Go)
    } else if h.len() > 1 {
        Err(SgfParseError::UnexpectedProperty)
    } else {
        match toks[h[0]] {
            TokenView::Property(_, vals) => if vals.len() == 1 && vals[0] == seq!['1'] {
                Ok(GameType::Go)
            } else {
                Ok(GameType::Unknown)
            },
            _ => Ok(GameType::Unknown),
        }
    }
}

/// The game and raw root of each tree from the `k`-th on; the first error,
/// in document order, if there is one. Leniently, reading stops before a
/// tree whose game cannot be told.
pub open spec fn trees_from(
    toks: Seq<TokenView>,
    sl: Seq<(int, int)>,
    k: int,
    convert: bool,
    lenient: bool,
) -> Result<Seq<(GameType, RawNode)>, SgfParseError>
    decreases sl.len() - k,
{
    if k < 0 || k >= sl.len() {
        Ok(Seq::empty())
    } else {
        match game_type_of(toks, sl[k].0, sl[k].1) {
            Err(e) => if lenient {
                Ok(Seq::empty())
            } else {
                Err(e)
            },
            Ok(g) => match assemble(toks, sl[k].0, sl[k].1, convert, lenient) {
                Err(e) => Err(e),
                Ok(n) => match trees_from(toks, sl, k + 1, convert, lenient) {
                    Err(e) => Err(e),
                    Ok(rest) => Ok(seq![(g, n)] + rest),
                },
            },
        }
    }
}

/// What parsing `text` gives: the game and raw root of each tree, or the
/// first error. A text without any game tree fails strictly; leniently,
/// when no tree could be read, it gives one Go tree with an empty root.
pub open spec fn parse_outcome(text: Seq<char>, convert: bool, lenient: bool) -> Result<
    Seq<(GameType, RawNode)>,
    SgfParseError,
> {
    match tokens_of(text, lenient) {
        Err(e) => Err(e),
        Ok(toks) => match split_trees(toks, lenient) {
            Err(e) => Err(e),
            Ok(sl) => match trees_from(toks, sl, 0, convert, lenient) {
                Err(e) => Err(e),
                Ok(ts) => if ts.len() > 0 {
                    Ok(ts)
                } else if lenient {
                    Ok(seq![(GameType::Go, RawNode { props: Seq::empty(), children: Seq::empty() })])
                } else {
                    Err(SgfParseError::UnexpectedEndOfData)
                },
            },
        },
    }
}

proof fn lemma_split_lenient_ok(
    toks: Seq<TokenView>,
    k: int,
    depth: int,
    start: int,
    acc: Seq<(int, int)>,
)
    ensures
        split_from(toks, k, depth, start, acc, true) is Ok,
    decreases toks.len() - k,
{
    if 0 <= k < toks.len() {
        lemma_split_lenient_ok(toks, k + 1, depth + 1, start, acc);
        lemma_split_lenient_ok(toks, k + 1, 0, k + 1, acc.push((start, k + 1)));
        lemma_split_lenient_ok(toks, k + 1, depth - 1, start, acc);
        lemma_split_lenient_ok(toks, k + 1, depth, start, acc);
    }
}

proof fn lemma_trees_lenient_ok(toks: Seq<TokenView>, sl: Seq<(int, int)>, k: int, convert: bool)
    ensures
        trees_from(toks, sl, k, convert, true) is Ok,
    decreases sl.len() - k,
{
    if 0 <= k < sl.len() {
        crate::assemble::lemma_assemble_lenient_ok(toks, sl[k].0, sl[k].1, convert);
        lemma_trees_lenient_ok(toks, sl, k + 1, convert);
    }
}

/// Lenient parsing never fails.
pub proof fn lemma_lenient_never_fails(text: Seq<char>, convert: bool)
    ensures
        parse_outcome(text, convert, true) is Ok,
{
    let toks = lex(trimmed(text)).tokens;
    lemma_split_lenient_ok(toks, 0, 0, 0, Seq::empty());
    lemma_trees_lenient_ok(toks, split_trees(toks, true)->Ok_0, 0, convert);
}

/// Whether the game tree `t` is a tree of game `g` whose root reads as `r`.
pub open spec fn tree_matches(t: GameTree, g: GameType, r: RawNode) -> bool {
    match t {
        GameTree::GoGame(n) => g == GameType::Go && root_matches::<go::Prop>(n, r),
        GameTree::Unknown(n) => g == GameType::Unknown && root_matches::<unknown_game::Prop>(n, r),
    }
}

/// Whether the parsed trees `ts` are those of `expected`, one for one.
pub open spec fn trees_match(ts: Seq<GameTree>, expected: Seq<(GameType, RawNode)>) -> bool {
    ts.len() == expected.len() && forall|i: int|
        0 <= i < ts.len() ==> tree_matches(#[trigger] ts[i], expected[i].0, expected[i].1)
}

/// Whether the index ranges `v` are `sl`, each within `0..n`.
pub open spec fn slices_match(v: Seq<(usize, usize)>, sl: Seq<(int, int)>, n: int) -> bool {
    v.len() == sl.len() && forall|i: int|
        0 <= i < sl.len() ==> (#[trigger] v[i]).0 as int == sl[i].0 && v[i].1 as int == sl[i].1
            && sl[i].0 <= sl[i].1 <= n
}

fn split_by_gametree(toks: &Vec<Token>, lenient: bool) -> (r: Result<
    Vec<(usize, usize)>,
    SgfParseError,
>)
    ensures
        match split_trees(token_views(toks@), lenient) {
            Err(e) => r == Err::<Vec<(usize, usize)>, SgfParseError>(e),
            Ok(sl) => r matches Ok(v) && slices_match(v@, sl, toks@.len() as int),
        },
{
    let ghost tv = token_views(toks@);
    let mut out: Vec<(usize, usize)> = Vec::new();
    let mut depth: usize = 0;
    let mut start: usize = 0;
    let mut k: usize = 0;
    let ghost mut acc: Seq<(int, int)> = Seq::empty();
    while k < toks.len()
        invariant
            tv == token_views(toks@),
            tv.len() == toks@.len(),
            k <= toks@.len(),
            depth <= k,
            start <= k,
            out@.len() == acc.len(),
            forall|i: int|
                0 <= i < acc.len() ==> (#[trigger] out@[i]).0 as int == acc[i].0 && out@[i].1 as int
                    == acc[i].1 && acc[i].0 <= acc[i].1 <= toks@.len(),
            split_from(tv, k as int, depth as int, start as int, acc, lenient) == split_trees(
                tv,
                lenient,
            ),
        decreases toks.len() - k,
    {
        assert(tv[k as int] == toks@[k as int]@);
        match &toks[k] {
            Token::StartGameTree => {
                depth = depth + 1;
            },
            Token::EndGameTree => {
                if depth == 0 {
                    if lenient {
                        assert(split_trees(tv, lenient) == Ok::<Seq<(int, int)>, SgfParseError>(
                            acc,
                        ));
                        return Ok(out);
                    } else {
                        return Err(SgfParseError::UnexpectedGameTreeEnd);
                    }
                }
                depth = depth - 1;
                if depth == 0 {
                    let ghost ob = out@;
                    out.push((start, k + 1));
                    proof {
                        let acc2 = acc.push((start as int, k + 1));
                        assert forall|i: int| 0 <= i < acc2.len() implies (#[trigger] out@[i]).0 as int
                            == acc2[i].0 && out@[i].1 as int == acc2[i].1 && acc2[i].0 <= acc2[i].1
                            <= toks@.len() by {
                            if i < ob.len() {
                                assert(out@[i] == ob[i]);
                            }
                        }
                        acc = acc2;
                    }
                    start = k + 1;
                }
            },
            _ => {
                if depth == 0 {
                    if lenient {
                        assert(split_trees(tv, lenient) == Ok::<Seq<(int, int)>, SgfParseError>(
                            acc,
                        ));
                        assert(slices_match(out@, acc, toks@.len() as int));
                        return Ok(out);
                    } else {
                        return Err(SgfParseError::UnexpectedEndOfData);
                    }
                }
            },
        }
        k = k + 1;
    }
    assert(split_from(tv, k as int, depth as int, start as int, acc, lenient) == if depth != 0 {
        if lenient {
            Ok(acc.push((start as int, tv.len() as int)))
        } else {
            Err(SgfParseError::UnexpectedEndOfData)
        }
    } else {
        Ok::<Seq<(int, int)>, SgfParseError>(acc)
    });
    if depth != 0 {
        if lenient {
            let ghost ob = out@;
            out.push((start, toks.len()));
            proof {
                let acc2 = acc.push((start as int, toks@.len() as int));
                assert forall|i: int| 0 <= i < acc2.len() implies (#[trigger] out@[i]).0 as int
                    == acc2[i].0 && out@[i].1 as int == acc2[i].1 && acc2[i].0 <= acc2[i].1
                    <= toks@.len() by {
                    if i < ob.len() {
                        assert(out@[i] == ob[i]);
                    }
                }
                acc = acc2;
            }
        } else {
            return Err(SgfParseError::UnexpectedEndOfData);
        }
    }
    assert(split_trees(tv, lenient) == Ok::<Seq<(int, int)>, SgfParseError>(acc));
    assert(split_trees(token_views(toks@), lenient)->Ok_0 == acc);
    assert(slices_match(out@, acc, toks@.len() as int));
    Ok(out)
}

fn is_gm(id: &String) -> (r: bool)
    ensures
        r == (id@ == seq!['G', 'M']),
{
    let cs = chars_of(id.as_str());
    let r = cs.len() == 2 && cs[0] == 'G' && cs[1] == 'M';
    if r {
        assert(cs@ =~= seq!['G', 'M']);
    }
    r
}

fn is_one(vals: &Vec<String>) -> (r: bool)
    ensures
        r == (vals@.len() == 1 && vals@[0]@ == seq!['1']),
{
    if vals.len() != 1 {
        return false;
    }
    let cs = chars_of(vals[0].as_str());
    let r = cs.len() == 1 && cs[0] == '1';
    if r {
        assert(cs@ =~= seq!['1']);
    }
    r
}

/// The game of the tree in tokens `lo..hi`.
fn find_gametype(toks: &Vec<Token>, lo: usize, hi: usize) -> (r: Result<GameType, SgfParseError>)
    requires
        lo <= hi <= toks@.len(),
    ensures
        r == game_type_of(token_views(toks@), lo as int, hi as int),
{
    let ghost tv = token_views(toks@);
    let mut count: usize = 0;
    let mut first: usize = 0;
    let mut k: usize = if hi - lo >= 2 {
        lo + 2
    } else {
        hi
    };
    let ghost mut found: Seq<int> = Seq::empty();
    assert(gm_hits(tv, lo + 2, hi as int) == found + gm_hits(tv, k as int, hi as int));
    let mut done = false;
    while k < hi && !done
        invariant
            tv == token_views(toks@),
            k <= hi <= toks@.len(),
            gm_hits(tv, lo + 2, hi as int) == found + if done {
                Seq::<int>::empty()
            } else {
                gm_hits(tv, k as int, hi as int)
            },
            count as int == found.len(),
            count <= k,
            forall|i: int| 0 <= i < found.len() ==> 0 <= #[trigger] found[i] < hi,
            count > 0 ==> found[0] == first as int,
        decreases hi - k + if done {
            0int
        } else {
            1int
        },
    {
        assert(tv[k as int] == toks@[k as int]@);
        match &toks[k] {
            Token::Property(p) => {
                if is_gm(&p.0) {
                    if count == 0 {
                        first = k;
                    }
                    count = count + 1;
                    proof {
                        assert(found + gm_hits(tv, k as int, hi as int) =~= found.push(k as int)
                            + gm_hits(tv, k + 1, hi as int));
                        found = found.push(k as int);
                    }
                }
                k = k + 1;
            },
            _ => {
                assert(gm_hits(tv, k as int, hi as int) =~= Seq::<int>::empty());
                done = true;
            },
        }
    }
    proof {
        if !done {
            assert(gm_hits(tv, k as int, hi as int) =~= Seq::<int>::empty());
        }
        assert(gm_hits(tv, lo + 2, hi as int) =~= found);
    }
    if count == 0 {
        Ok(GameType::Go)
    } else if count > 1 {
        Err(SgfParseError::UnexpectedProperty)
    } else {
        assert(tv[first as int] == toks@[first as int]@);
        match &toks[first] {
            Token::Property(p) => {
                if is_one(&p.1) {
                    Ok(GameType::Go)
                } else {
                    Ok(GameType::Unknown)
                }
            },
            _ => Ok(GameType::Unknown),
        }
    }
}

/// Parses `text` into game trees with the given options.
///
/// The text is trimmed and tokenized; the tokens are split into game trees;
/// the game of each is read from its root's `GM` property, and the tree is
/// assembled with that game's property catalog.
pub fn parse_with_options(text: &str, options: &ParseOptions) -> (r: Result<
    Vec<GameTree>,
    SgfParseError,
>)
    ensures
        match parse_outcome(
            text@,
            options.convert_mixed_case_identifiers,
            options.lenient,
        ) {
            Err(e) => r == Err::<Vec<GameTree>, SgfParseError>(e),
            Ok(ts) => r matches Ok(v) && trees_match(v@, ts),
        },
        options.lenient ==> r is Ok,
{
    proof {
        lemma_lenient_never_fails(text@, options.convert_mixed_case_identifiers);
    }
    let convert = options.convert_mixed_case_identifiers;
    let lenient = options.lenient;
    let trimmed_text = string_of(&trim_chars(&chars_of(text)));
    let (tokens, _spans, err) = tokenize(trimmed_text.as_str());
    if !lenient {
        if let Some(e) = err {
            return Err(SgfParseError::LexerError(e));
        }
    }
    let ghost tv = token_views(tokens@);
    assert(tokens_of(text@, lenient) == Ok::<Seq<TokenView>, SgfParseError>(tv));
    let slices = match split_by_gametree(&tokens, lenient) {
        Ok(v) => v,
        Err(e) => {
            return Err(e);
        },
    };
    let ghost sl = split_trees(tv, lenient)->Ok_0;
    let mut out: Vec<GameTree> = Vec::new();
    let ghost mut pre: Seq<(GameType, RawNode)> = Seq::empty();
    let mut k: usize = 0;
    let mut stopped = false;
    while k < slices.len() && !stopped
        invariant
            tv == token_views(tokens@),
            k <= slices@.len() == sl.len(),
            forall|i: int|
                0 <= i < sl.len() ==> (#[trigger] slices@[i]).0 as int == sl[i].0 && slices@[i].1 as int
                    == sl[i].1 && sl[i].0 <= sl[i].1 <= tokens@.len(),
            trees_match(out@, pre),
            parse_outcome(text@, convert, lenient) == match trees_from(tv, sl, 0, convert, lenient) {
                Err(e) => Err(e),
                Ok(ts) => if ts.len() > 0 {
                    Ok(ts)
                } else if lenient {
                    Ok(seq![(GameType::Go, RawNode { props: Seq::empty(), children: Seq::empty() })])
                } else {
                    Err(SgfParseError::UnexpectedEndOfData)
                },
            },
            stopped ==> lenient && trees_from(tv, sl, 0, convert, lenient) == Ok::<
                Seq<(GameType, RawNode)>,
                SgfParseError,
            >(pre),
            convert == options.convert_mixed_case_identifiers,
            lenient == options.lenient,
            !stopped ==> trees_from(tv, sl, 0, convert, lenient) == match trees_from(
                tv,
                sl,
                k as int,
                convert,
                lenient,
            ) {
                Err(e) => Err(e),
                Ok(rest) => Ok(pre + rest),
            },
        decreases slices.len() - k + if stopped {
            0int
        } else {
            1int
        },
    {
        let (lo, hi) = slices[k];
        let g = match find_gametype(&tokens, lo, hi) {
            Ok(g) => g,
            Err(e) => {
                if lenient {
                    assert(pre + Seq::<(GameType, RawNode)>::empty() =~= pre);
                    stopped = true;
                    continue;
                }
                return Err(e);
            },
        };
        let ghost raw = assemble(tv, lo as int, hi as int, convert, lenient);
        proof {
            if lenient {
                crate::assemble::lemma_assemble_lenient_ok(tv, lo as int, hi as int, convert);
            }
        }
        let tree = match g {
            GameType::Go => {
                match parse_gametree::<go::Prop>(&tokens, lo, hi, convert, lenient) {
                    Ok(n) => GameTree::GoGame(n),
                    Err(e) => {
                        return Err(e);
                    },
                }
            },
            GameType::Unknown => {
                match parse_gametree::<unknown_game::Prop>(&tokens, lo, hi, convert, lenient) {
                    Ok(n) => GameTree::Unknown(n),
                    Err(e) => {
                        return Err(e);
                    },
                }
            },
        };
        let ghost before = out@;
        out.push(tree);
        proof {
            let x = (g, raw->Ok_0);
            assert(tree_matches(tree, x.0, x.1));
            let pre2 = pre.push(x);
            assert forall|i: int| 0 <= i < out@.len() implies tree_matches(
                #[trigger] out@[i],
                pre2[i].0,
                pre2[i].1,
            ) by {
                if i < before.len() {
                    assert(out@[i] == before[i]);
                }
            }
            match trees_from(tv, sl, k + 1, convert, lenient) {
                Err(e) => {},
                Ok(rest) => {
                    assert(pre + (seq![x] + rest) =~= pre2 + rest);
                },
            }
            pre = pre2;
        }
        k = k + 1;
    }
    assert(pre + Seq::<(GameType, RawNode)>::empty() =~= pre);
    assert(trees_from(tv, sl, 0, convert, lenient) == Ok::<Seq<(GameType, RawNode)>, SgfParseError>(
        pre,
    ));
    if out.len() == 0 {
        if lenient {
            let root: crate::sgf_node::SgfNode<go::Prop> = crate::sgf_node::SgfNode::new(
                Vec::new(),
                Vec::new(),
                true,
            );
            out.push(GameTree::GoGame(root));
            proof {
                let er = RawNode { props: Seq::empty(), children: Seq::empty() };
                assert(root_matches::<go::Prop>(root, er));
                assert(trees_match(out@, seq![(GameType::Go, er)]));
            }
        } else {
            return Err(SgfParseError::UnexpectedEndOfData);
        }
    }
    Ok(out)
}

/// Parses `text` into game trees with the default options: mixed-case
/// identifiers are converted and parsing is strict.
pub fn parse(text: &str) -> (r: Result<Vec<GameTree>, SgfParseError>)
    ensures
        match parse_outcome(text@, true, false) {
            Err(e) => r == Err::<Vec<GameTree>, SgfParseError>(e),
            Ok(ts) => r matches Ok(v) && trees_match(v@, ts),
        },
{
    parse_with_options(text, &ParseOptions::default())
}

} // verus!
