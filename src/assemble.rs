//! Tree assembly: a game tree built from its tokens without recursion, with
//! an explicit path of open nodes and a stack of the depths at which
//! variations were opened.
use vstd::prelude::*;
use crate::lexer::{Token, TokenView};
use crate::parser::SgfParseError;
use crate::props::parse::raw_view;
use crate::props::sgf_prop::SgfProp;
use crate::sgf_node::SgfNode;
use crate::text::chars_of;

verus! {

/// A property as read from the text: its identifier and raw values.
pub type RawProp = (Seq<char>, Seq<Seq<char>>);

/// The shape of a node as the tokens give it: its properties, untyped, and
/// its children.
pub struct RawNode {
    pub props: Seq<RawProp>,
    pub children: Seq<RawNode>,
}

/// The state of assembly: the finished top-level nodes, the path of open
/// nodes (each one the last child of the one before), the path depths saved
/// at each open variation, and the properties of a node still being read
/// (with whether the rest of them are being skipped).
pub struct Asm {
    pub top: Seq<RawNode>,
    pub path: Seq<RawNode>,
    pub saved: Seq<int>,
    pub pending: Option<Seq<RawProp>>,
    pub skipping: bool,
}

/// What one token does to assembly.
pub enum AsmStep {
    Continue(Asm),
    Stop(Asm),
    Fail(SgfParseError),
}

pub open spec fn is_upper(c: char) -> bool {
    'A' <= c && c <= 'Z'
}

/// The upper-case ASCII letters of `s`, in order.
pub open spec fn upper_only(s: Seq<char>) -> Seq<char>
    decreases s.len(),
{
    if s.len() == 0 {
        Seq::empty()
    } else {
        upper_only(s.drop_last()) + if is_upper(s.last()) {
            seq![s.last()]
        } else {
            Seq::empty()
        }
    }
}

/// The identifier to use for `id`: itself when it is all upper-case letters,
/// else, when mixed case may be converted, its upper-case letters.
pub open spec fn converted(id: Seq<char>, convert: bool) -> Option<Seq<char>> {
    if forall|i: int| 0 <= i < id.len() ==> is_upper(#[trigger] id[i]) {
        Some(id)
    } else if convert {
        Some(upper_only(id))
    } else {
        None
    }
}

pub open spec fn empty_asm() -> Asm {
    Asm { top: Seq::empty(), path: Seq::empty(), saved: Seq::empty(), pending: None, skipping: false }
}

/// Ends the node being read: it joins the path.
pub open spec fn flush(st: Asm) -> Asm {
    match st.pending {
        Some(ps) => Asm {
            path: st.path.push(RawNode { props: ps, children: Seq::empty() }),
            pending: None,
            skipping: false,
            ..st
        },
        None => st,
    }
}

/// Closes the last open node: it becomes the last child of the node before
/// it, or a top-level node.
pub open spec fn attach_last(st: Asm) -> Asm {
    let n = st.path.last();
    let rest = st.path.drop_last();
    if rest.len() == 0 {
        Asm { top: st.top.push(n), path: rest, ..st }
    } else {
        let p = rest.last();
        Asm {
            path: rest.update(
                rest.len() - 1,
                RawNode { props: p.props, children: p.children.push(n) },
            ),
            ..st
        }
    }
}

/// Closes open nodes until the path has length `d`.
pub open spec fn fold_to(st: Asm, d: int) -> Asm
    decreases st.path.len() - d,
{
    if d < 0 || st.path.len() <= d {
        st
    } else {
        fold_to(attach_last(st), d)
    }
}

/// Whether the list of nodes at depth `d` (the top level for 0, else the
/// children of the `d`-th open node) is still empty.
pub open spec fn list_empty(st: Asm, d: int) -> bool {
    st.path.len() == d && if d == 0 {
        st.top.len() == 0
    } else {
        st.path[d - 1].children.len() == 0
    }
}

/// One token of assembly.
pub open spec fn asm_step(st: Asm, t: TokenView, convert: bool, lenient: bool) -> AsmStep {
    match t {
        TokenView::Property(id, vals) => match st.pending {
            Some(ps) => if st.skipping {
                AsmStep::Continue(st)
            } else {
                match converted(id, convert) {
                    Some(i) => AsmStep::Continue(Asm { pending: Some(ps.push((i, vals))), ..st }),
                    None => if lenient {
                        AsmStep::Continue(Asm { skipping: true, ..st })
                    } else {
                        AsmStep::Fail(SgfParseError::InvalidFF4Property)
                    },
                }
            },
            None => if lenient {
                AsmStep::Stop(st)
            } else {
                AsmStep::Fail(SgfParseError::UnexpectedProperty)
            },
        },
        TokenView::StartNode => AsmStep::Continue(
            Asm { pending: Some(Seq::empty()), skipping: false, ..flush(st) },
        ),
        TokenView::StartGameTree => {
            let s = flush(st);
            if s.saved.len() > 0 && list_empty(s, s.saved.last()) {
                if lenient {
                    AsmStep::Stop(s)
                } else {
                    AsmStep::Fail(SgfParseError::UnexpectedGameTreeStart)
                }
            } else {
                AsmStep::Continue(Asm { saved: s.saved.push(s.path.len() as int), ..s })
            }
        },
        TokenView::EndGameTree => {
            let s = flush(st);
            if s.saved.len() == 0 {
                if lenient {
                    AsmStep::Stop(s)
                } else {
                    AsmStep::Fail(SgfParseError::UnexpectedGameTreeEnd)
                }
            } else {
                AsmStep::Continue(
                    Asm { saved: s.saved.drop_last(), ..fold_to(s, s.saved.last()) },
                )
            }
        },
    }
}

/// Assembly of tokens `lo..hi`: the state where it stopped, or its error.
pub open spec fn asm_run(toks: Seq<TokenView>, lo: int, hi: int, convert: bool, lenient: bool) -> Result<
    Asm,
    SgfParseError,
>
    decreases hi - lo,
{
    asm_from(toks, lo, hi, empty_asm(), convert, lenient)
}

pub open spec fn asm_from(
    toks: Seq<TokenView>,
    k: int,
    hi: int,
    st: Asm,
    convert: bool,
    lenient: bool,
) -> Result<Asm, SgfParseError>
    decreases hi - k,
{
    if k >= hi || k < 0 || k >= toks.len() {
        Ok(flush(st))
    } else {
        match asm_step(st, toks[k], convert, lenient) {
            AsmStep::Continue(s) => asm_from(toks, k + 1, hi, s, convert, lenient),
            AsmStep::Stop(s) => Ok(flush(s)),
            AsmStep::Fail(e) => Err(e),
        }
    }
}

/// The root that tokens `lo..hi` assemble into. Strictly, every variation
/// must be closed and exactly one top-level node made; leniently, the first
/// top-level node is taken, or an empty one when there is none.
pub open spec fn assemble(toks: Seq<TokenView>, lo: int, hi: int, convert: bool, lenient: bool) -> Result<
    RawNode,
    SgfParseError,
> {
    match asm_run(toks, lo, hi, convert, lenient) {
        Err(e) => Err(e),
        Ok(st) => {
            let f = fold_to(Asm { saved: Seq::empty(), ..st }, 0);
            if !lenient && (st.saved.len() > 0 || f.top.len() != 1) {
                Err(SgfParseError::UnexpectedEndOfData)
            } else if f.top.len() == 0 {
                Ok(RawNode { props: Seq::empty(), children: Seq::empty() })
            } else {
                Ok(f.top[0])
            }
        },
    }
}

/// Whether the typed node `n` (below the root) is the raw node `r` read with
/// the game's catalog.
pub open spec fn node_matches<Pr: SgfProp>(n: SgfNode<Pr>, r: RawNode) -> bool
    decreases r,
{
    &&& n.properties@.len() == r.props.len()
    &&& forall|j: int|
        0 <= j < r.props.len() ==> Pr::spec_parsed(
            r.props[j].0,
            r.props[j].1,
            #[trigger] n.properties@[j],
        )
    &&& n.children@.len() == r.children.len()
    &&& forall|i: int|
        0 <= i < r.children.len() ==> !(#[trigger] n.children@[i]).is_root && node_matches(
            n.children@[i],
            r.children[i],
        )
}

/// Whether `root` is the root that tokens `lo..hi` assemble into.
pub open spec fn root_matches<Pr: SgfProp>(root: SgfNode<Pr>, r: RawNode) -> bool {
    root.is_root && node_matches(root, r)
}

pub open spec fn nodes_match<Pr: SgfProp>(ns: Seq<SgfNode<Pr>>, rs: Seq<RawNode>) -> bool {
    ns.len() == rs.len() && forall|i: int|
        0 <= i < rs.len() ==> !(#[trigger] ns[i]).is_root && node_matches(ns[i], rs[i])
}

pub open spec fn props_match<Pr: SgfProp>(ps: Seq<Pr>, rs: Seq<RawProp>) -> bool {
    ps.len() == rs.len() && forall|j: int|
        0 <= j < rs.len() ==> Pr::spec_parsed(rs[j].0, rs[j].1, #[trigger] ps[j])
}

/// The working state of assembly.
struct Builder<Pr> {
    top: Vec<SgfNode<Pr>>,
    path: Vec<SgfNode<Pr>>,
    saved: Vec<usize>,
    pending: Option<Vec<Pr>>,
    skipping: bool,
}

impl<Pr: SgfProp> Builder<Pr> {
    spec fn matches(&self, st: Asm) -> bool {
        &&& nodes_match(self.top@, st.top)
        &&& nodes_match(self.path@, st.path)
        &&& self.saved@.len() == st.saved.len()
        &&& forall|i: int| 0 <= i < st.saved.len() ==> (#[trigger] self.saved@[i]) as int == st.saved[i]
        &&& forall|i: int| 0 <= i < st.saved.len() ==> 0 <= #[trigger] st.saved[i] <= st.path.len()
        &&& forall|i: int, j: int| 0 <= i < j < st.saved.len() ==> st.saved[i] <= st.saved[j]
        &&& self.skipping == st.skipping
        &&& match (self.pending, st.pending) {
            (Some(ps), Some(rs)) => props_match(ps@, rs),
            (None, None) => true,
            _ => false,
        }
    }

    fn flush(&mut self, Ghost(st): Ghost<Asm>)
        requires
            old(self).matches(st),
        ensures
            final(self).matches(flush(st)),
            final(self).pending is None,
    {
        let mut pending: Option<Vec<Pr>> = None;
        std::mem::swap(&mut pending, &mut self.pending);
        if let Some(ps) = pending {
            self.skipping = false;
            let ghost rs = st.pending->0;
            let node = SgfNode { properties: ps, children: Vec::new(), is_root: false };
            let ghost r = RawNode { props: rs, children: Seq::empty() };
            assert(node_matches(node, r));
            let ghost before = self.path@;
            self.path.push(node);
            assert(self.path@ == before.push(node));
            assert(nodes_match(self.path@, flush(st).path)) by {
                assert forall|i: int| 0 <= i < flush(st).path.len() implies !(
                #[trigger] self.path@[i]).is_root && node_matches(self.path@[i], flush(st).path[i]) by {
                    if i < before.len() {
                        assert(self.path@[i] == before[i]);
                    }
                }
            }
        }
    }

    fn attach_last(&mut self, Ghost(st): Ghost<Asm>)
        requires
            old(self).matches(st),
            st.path.len() > 0,
            forall|i: int| 0 <= i < st.saved.len() ==> #[trigger] st.saved[i] < st.path.len(),
        ensures
            final(self).matches(attach_last(st)),
    {
        let n = self.path.pop().unwrap();
        let ghost rn = st.path.last();
        assert(node_matches(n, rn) && !n.is_root);
        if self.path.len() == 0 {
            let ghost before = self.top@;
            self.top.push(n);
            assert(nodes_match(self.top@, attach_last(st).top)) by {
                assert forall|i: int| 0 <= i < attach_last(st).top.len() implies !(
                #[trigger] self.top@[i]).is_root && node_matches(self.top@[i], attach_last(st).top[i]) by {
                    if i < before.len() {
                        assert(self.top@[i] == before[i]);
                    }
                }
            }
            assert(nodes_match(self.path@, attach_last(st).path));
        } else {
            let mut p = self.path.pop().unwrap();
            let ghost rest = st.path.drop_last();
            let ghost rp = rest.last();
            assert(node_matches(p, rp));
            let ghost old_children = p.children@;
            p.children.push(n);
            let ghost rp2 = RawNode { props: rp.props, children: rp.children.push(rn) };
            assert(node_matches(p, rp2)) by {
                assert forall|i: int| 0 <= i < rp2.children.len() implies !(
                #[trigger] p.children@[i]).is_root && node_matches(p.children@[i], rp2.children[i]) by {
                    if i < old_children.len() {
                        assert(p.children@[i] == old_children[i]);
                    }
                }
            }
            let ghost mid = self.path@;
            self.path.push(p);
            assert(nodes_match(self.path@, attach_last(st).path)) by {
                assert forall|i: int| 0 <= i < attach_last(st).path.len() implies !(
                #[trigger] self.path@[i]).is_root && node_matches(
                    self.path@[i],
                    attach_last(st).path[i],
                ) by {
                    if i < mid.len() {
                        assert(self.path@[i] == mid[i]);
                    }
                }
            }
        }
    }

    fn fold_to(&mut self, d: usize, Ghost(st): Ghost<Asm>)
        requires
            old(self).matches(st),
            forall|i: int| 0 <= i < st.saved.len() ==> #[trigger] st.saved[i] <= d,
        ensures
            final(self).matches(fold_to(st, d as int)),
    {
        let ghost mut cur = st;
        while self.path.len() > d
            invariant
                self.matches(cur),
                fold_to(cur, d as int) == fold_to(st, d as int),
                cur.saved == st.saved,
                forall|i: int| 0 <= i < st.saved.len() ==> #[trigger] st.saved[i] <= d,
            decreases self.path@.len(),
        {
            self.attach_last(Ghost(cur));
            proof {
                cur = attach_last(cur);
            }
        }
    }
}

/// How assembly goes on after one token.
pub enum Flow {
    Go,
    Halt,
    Error(SgfParseError),
}

/// A copy of a list of strings.
pub fn copy_strings(v: &Vec<String>) -> (r: Vec<String>)
    ensures
        raw_view(r@) == raw_view(v@),
{
    let mut out: Vec<String> = Vec::new();
    let mut i: usize = 0;
    while i < v.len()
        invariant
            i <= v@.len(),
            raw_view(out@) == raw_view(v@.subrange(0, i as int)),
        decreases v.len() - i,
    {
        let ghost before = raw_view(out@);
        out.push(crate::text::owned(v[i].as_str()));
        assert(raw_view(out@) =~= before.push(v@[i as int]@));
        assert(raw_view(v@.subrange(0, i + 1)) =~= raw_view(v@.subrange(0, i as int)).push(
            v@[i as int]@,
        ));
        i = i + 1;
    }
    assert(v@.subrange(0, v@.len() as int) =~= v@);
    out
}

/// The identifier to use for `id`, as `converted` says.
pub fn convert_identifier(id: &String, convert: bool) -> (r: Option<String>)
    ensures
        r matches Some(s) ==> converted(id@, convert) == Some(s@),
        r is None ==> converted(id@, convert) is None,
{
    let cs = chars_of(id.as_str());
    let mut all_upper = true;
    let mut out: Vec<char> = Vec::new();
    let mut i: usize = 0;
    while i < cs.len()
        invariant
            i <= cs@.len(),
            cs@ == id@,
            all_upper == (forall|k: int| 0 <= k < i ==> is_upper(#[trigger] cs@[k])),
            out@ == upper_only(cs@.subrange(0, i as int)),
        decreases cs.len() - i,
    {
        let c = cs[i];
        assert(cs@.subrange(0, i + 1).drop_last() =~= cs@.subrange(0, i as int));
        if 'A' <= c && c <= 'Z' {
            out.push(c);
        } else {
            all_upper = false;
        }
        assert(out@ =~= upper_only(cs@.subrange(0, i + 1)));
        i = i + 1;
    }
    assert(cs@.subrange(0, cs@.len() as int) =~= cs@);
    if all_upper {
        Some(crate::text::string_of(&cs))
    } else if convert {
        Some(crate::text::string_of(&out))
    } else {
        None
    }
}

impl<Pr: SgfProp> Builder<Pr> {
    fn new() -> (r: Self)
        ensures
            r.matches(empty_asm()),
    {
        Builder { top: Vec::new(), path: Vec::new(), saved: Vec::new(), pending: None, skipping: false }
    }

    fn step(&mut self, t: &Token, convert: bool, lenient: bool, Ghost(st): Ghost<Asm>) -> (r: Flow)
        requires
            old(self).matches(st),
        ensures
            match asm_step(st, t@, convert, lenient) {
                AsmStep::Continue(s) => r is Go && final(self).matches(s),
                AsmStep::Stop(s) => r is Halt && final(self).matches(s),
                AsmStep::Fail(e) => r == Flow::Error(e),
            },
    {
        match t {
            Token::Property(p) => {
                if self.pending.is_none() {
                    return if lenient {
                        Flow::Halt
                    } else {
                        Flow::Error(SgfParseError::UnexpectedProperty)
                    };
                }
                if self.skipping {
                    return Flow::Go;
                }
                match convert_identifier(&p.0, convert) {
                    Some(id) => {
                        let prop = Pr::new(id, copy_strings(&p.1));
                        let mut pending: Option<Vec<Pr>> = None;
                        std::mem::swap(&mut pending, &mut self.pending);
                        let mut ps = pending.unwrap();
                        let ghost before = ps@;
                        ps.push(prop);
                        proof {
                            let rs = st.pending->0;
                            let rs2 = rs.push((converted(p.0@, convert)->0, raw_view(p.1@)));
                            assert forall|j: int| 0 <= j < rs2.len() implies Pr::spec_parsed(
                                rs2[j].0,
                                rs2[j].1,
                                #[trigger] ps@[j],
                            ) by {
                                if j < before.len() {
                                    assert(ps@[j] == before[j]);
                                }
                            }
                        }
                        self.pending = Some(ps);
                        Flow::Go
                    },
                    None => {
                        if lenient {
                            self.skipping = true;
                            Flow::Go
                        } else {
                            Flow::Error(SgfParseError::InvalidFF4Property)
                        }
                    },
                }
            },
            Token::StartNode => {
                self.flush(Ghost(st));
                self.pending = Some(Vec::new());
                self.skipping = false;
                Flow::Go
            },
            Token::StartGameTree => {
                self.flush(Ghost(st));
                let ghost s = flush(st);
                let n = self.saved.len();
                if n > 0 {
                    let d = self.saved[n - 1];
                    let empty = self.path.len() == d && if d == 0 {
                        self.top.len() == 0
                    } else {
                        self.path[d - 1].children.len() == 0
                    };
                    if empty {
                        return if lenient {
                            Flow::Halt
                        } else {
                            Flow::Error(SgfParseError::UnexpectedGameTreeStart)
                        };
                    }
                }
                let depth = self.path.len();
                let ghost sv = self.saved@;
                self.saved.push(depth);
                proof {
                    let s2 = Asm { saved: s.saved.push(s.path.len() as int), ..s };
                    assert forall|i: int| 0 <= i < s2.saved.len() implies (
                    #[trigger] self.saved@[i]) as int == s2.saved[i] by {
                        if i < sv.len() {
                            assert(self.saved@[i] == sv[i]);
                        }
                    }
                    assert(self.matches(s2));
                }
                Flow::Go
            },
            Token::EndGameTree => {
                self.flush(Ghost(st));
                let ghost s = flush(st);
                let n = self.saved.len();
                if n == 0 {
                    return if lenient {
                        Flow::Halt
                    } else {
                        Flow::Error(SgfParseError::UnexpectedGameTreeEnd)
                    };
                }
                let d = self.saved[n - 1];
                assert(d as int == s.saved.last());
                proof {
                    lemma_fold_to(s, d as int);
                }
                self.fold_to(d, Ghost(s));
                let ghost sv = self.saved@;
                self.saved.pop();
                proof {
                    let f = fold_to(s, d as int);
                    let s2 = Asm { saved: s.saved.drop_last(), ..f };
                    assert forall|i: int| 0 <= i < s2.saved.len() implies (
                    #[trigger] self.saved@[i]) as int == s2.saved[i] by {
                        assert(self.saved@[i] == sv[i]);
                    }
                    assert forall|i: int| 0 <= i < s2.saved.len() implies 0 <= #[trigger] s2.saved[i]
                        <= s2.path.len() by {
                        assert(s.saved[i] <= s.saved.last());
                    }
                    assert(self.matches(s2));
                }
                Flow::Go
            },
        }
    }
}

/// Assembles the game tree of tokens `lo..hi` and reads its properties with
/// the game's catalog. The tree is built with an explicit path of open nodes,
/// never by recursion, so deep or long trees cannot exhaust the stack.
pub fn parse_gametree<Pr: SgfProp>(
    toks: &Vec<Token>,
    lo: usize,
    hi: usize,
    convert: bool,
    lenient: bool,
) -> (r: Result<SgfNode<Pr>, SgfParseError>)
    requires
        lo <= hi <= toks@.len(),
    ensures
        match assemble(crate::lexer::token_views(toks@), lo as int, hi as int, convert, lenient) {
            Err(e) => r == Err::<SgfNode<Pr>, SgfParseError>(e),
            Ok(raw) => r matches Ok(n) && root_matches(n, raw),
        },
{
    let ghost tv = crate::lexer::token_views(toks@);
    let mut b: Builder<Pr> = Builder::new();
    let ghost mut st = empty_asm();
    let mut k = lo;
    let mut halted = false;
    while k < hi && !halted
        invariant
            lo <= k <= hi <= toks@.len(),
            tv == crate::lexer::token_views(toks@),
            b.matches(st),
            !halted ==> asm_from(tv, k as int, hi as int, st, convert, lenient) == asm_run(
                tv,
                lo as int,
                hi as int,
                convert,
                lenient,
            ),
            halted ==> Ok::<Asm, SgfParseError>(flush(st)) == asm_run(
                tv,
                lo as int,
                hi as int,
                convert,
                lenient,
            ),
        decreases hi - k,
    {
        assert(tv[k as int] == toks@[k as int]@);
        let ghost before = st;
        match b.step(&toks[k], convert, lenient, Ghost(st)) {
            Flow::Go => {
                proof {
                    st = asm_step(before, tv[k as int], convert, lenient)->Continue_0;
                }
            },
            Flow::Halt => {
                proof {
                    st = asm_step(before, tv[k as int], convert, lenient)->Stop_0;
                }
                halted = true;
            },
            Flow::Error(e) => {
                return Err(e);
            },
        }
        k = k + 1;
    }
    proof {
        if !halted {
            assert(asm_from(tv, k as int, hi as int, st, convert, lenient) == Ok::<
                Asm,
                SgfParseError,
            >(flush(st)));
        }
    }
    b.flush(Ghost(st));
    let ghost fin = flush(st);
    assert(asm_run(tv, lo as int, hi as int, convert, lenient) == Ok::<Asm, SgfParseError>(fin));
    let open_variations = b.saved.len();
    b.saved = Vec::new();
    let ghost cleared = Asm { saved: Seq::empty(), ..fin };
    assert(b.matches(cleared));
    b.fold_to(0, Ghost(cleared));
    let ghost f = fold_to(cleared, 0);
    if !lenient && (open_variations > 0 || b.top.len() != 1) {
        return Err(SgfParseError::UnexpectedEndOfData);
    }
    let mut root = if b.top.len() == 0 {
        SgfNode { properties: Vec::new(), children: Vec::new(), is_root: false }
    } else {
        let mut top = b.top;
        top.swap_remove(0)
    };
    assert(node_matches(root, if f.top.len() == 0 {
        RawNode { props: Seq::empty(), children: Seq::empty() }
    } else {
        f.top[0]
    }));
    root.is_root = true;
    Ok(root)
}

proof fn lemma_fold_to(st: Asm, d: int)
    requires
        0 <= d <= st.path.len(),
    ensures
        fold_to(st, d).path.len() == d,
        fold_to(st, d).saved == st.saved,
    decreases st.path.len() - d,
{
    if st.path.len() > d {
        lemma_fold_to(attach_last(st), d);
    }
}

/// The tokens that a raw node is written as: a node start, its properties,
/// then its children: a lone child follows directly, several children each
/// come in parentheses.
pub open spec fn node_tokens(r: RawNode) -> Seq<TokenView>
    decreases r, 1nat, 0nat,
{
    seq![TokenView::StartNode] + props_tokens(r.props) + if r.children.len() == 1 {
        node_tokens(r.children[0])
    } else if r.children.len() == 0 {
        Seq::empty()
    } else {
        variation_tokens(r, r.children.len() as int)
    }
}

/// The tokens of the first `k` children of `r`, each in parentheses.
pub open spec fn variation_tokens(r: RawNode, k: int) -> Seq<TokenView>
    decreases r, 0nat, k,
{
    if k <= 0 || k > r.children.len() {
        Seq::empty()
    } else {
        variation_tokens(r, k - 1) + seq![TokenView::StartGameTree] + node_tokens(r.children[k - 1])
            + seq![TokenView::EndGameTree]
    }
}

/// The property tokens of raw properties.
pub open spec fn props_tokens(ps: Seq<RawProp>) -> Seq<TokenView> {
    ps.map_values(|p: RawProp| TokenView::Property(p.0, p.1))
}

/// Whether every identifier in the subtree at `r` is all upper-case letters.
pub open spec fn plain_ids(r: RawNode) -> bool
    decreases r,
{
    &&& forall|j: int|
        0 <= j < r.props.len() ==> forall|i: int|
            0 <= i < (#[trigger] r.props[j]).0.len() ==> is_upper(#[trigger] r.props[j].0[i])
    &&& forall|c: int| 0 <= c < r.children.len() ==> plain_ids(#[trigger] r.children[c])
}

/// Assembly of the tokens `ts` from state `st`, as long as every token lets
/// it go on.
pub open spec fn asm_seq(st: Asm, ts: Seq<TokenView>, convert: bool, lenient: bool) -> Option<Asm>
    decreases ts.len(),
{
    if ts.len() == 0 {
        Some(st)
    } else {
        match asm_seq(st, ts.drop_last(), convert, lenient) {
            Some(s) => match asm_step(s, ts.last(), convert, lenient) {
                AsmStep::Continue(s2) => Some(s2),
                _ => None,
            },
            None => None,
        }
    }
}

proof fn lemma_asm_seq_concat(st: Asm, a: Seq<TokenView>, b: Seq<TokenView>, convert: bool, lenient: bool)
    ensures
        asm_seq(st, a + b, convert, lenient) == match asm_seq(st, a, convert, lenient) {
            Some(s) => asm_seq(s, b, convert, lenient),
            None => None::<Asm>,
        },
    decreases b.len(),
{
    if b.len() == 0 {
        assert(a + b =~= a);
    } else {
        lemma_asm_seq_concat(st, a, b.drop_last(), convert, lenient);
        assert((a + b).drop_last() =~= a + b.drop_last());
    }
}

proof fn lemma_asm_seq_one(st: Asm, t: TokenView, convert: bool, lenient: bool)
    ensures
        asm_seq(st, seq![t], convert, lenient) == match asm_step(st, t, convert, lenient) {
            AsmStep::Continue(s2) => Some(s2),
            _ => None::<Asm>,
        },
{
    assert(seq![t].drop_last() =~= Seq::<TokenView>::empty());
    assert(asm_seq(st, Seq::<TokenView>::empty(), convert, lenient) == Some(st));
}

/// `r` made the last child of the last open node of `st`, or a top-level node.
pub open spec fn attached(st: Asm, r: RawNode) -> Asm {
    attach_last(Asm { path: st.path.push(r), ..st })
}

proof fn lemma_props_run(s: Asm, ps: Seq<RawProp>, convert: bool, lenient: bool)
    requires
        s.pending is Some,
        !s.skipping,
        forall|j: int|
            0 <= j < ps.len() ==> forall|i: int|
                0 <= i < (#[trigger] ps[j]).0.len() ==> is_upper(#[trigger] ps[j].0[i]),
    ensures
        asm_seq(s, props_tokens(ps), convert, lenient) == Some(
            Asm { pending: Some(s.pending->0 + ps), ..s },
        ),
    decreases ps.len(),
{
    if ps.len() == 0 {
        assert(props_tokens(ps) =~= Seq::<TokenView>::empty());
        assert(s.pending->0 + ps =~= s.pending->0);
    } else {
        let last = ps.last();
        assert(props_tokens(ps) =~= props_tokens(ps.drop_last()) + seq![
            TokenView::Property(last.0, last.1),
        ]);
        assert forall|j: int| 0 <= j < ps.drop_last().len() implies forall|i: int|
            0 <= i < (#[trigger] ps.drop_last()[j]).0.len() ==> is_upper(
                #[trigger] ps.drop_last()[j].0[i],
            ) by {
            assert(ps.drop_last()[j] == ps[j]);
        }
        lemma_props_run(s, ps.drop_last(), convert, lenient);
        lemma_asm_seq_concat(s, props_tokens(ps.drop_last()), seq![TokenView::Property(last.0, last.1)], convert, lenient);
        let mid = Asm { pending: Some(s.pending->0 + ps.drop_last()), ..s };
        lemma_asm_seq_one(mid, TokenView::Property(last.0, last.1), convert, lenient);
        assert(ps[ps.len() - 1] == last);
        assert(converted(last.0, convert) == Some(last.0));
        assert((s.pending->0 + ps.drop_last()).push((last.0, last.1)) =~= s.pending->0 + ps);
    }
}

proof fn lemma_fold_twice(st: Asm, d: int)
    requires
        0 <= d,
        st.path.len() >= d + 1,
    ensures
        fold_to(st, d) == fold_to(fold_to(st, d + 1), d),
    decreases st.path.len() - d,
{
    if st.path.len() > d + 1 {
        lemma_fold_twice(attach_last(st), d);
    }
}

proof fn lemma_first_not_property(st: Asm, ts: Seq<TokenView>, convert: bool, lenient: bool)
    requires
        ts.len() > 0,
        !(ts[0] is Property),
    ensures
        asm_seq(st, ts, convert, lenient) == asm_seq(flush(st), ts, convert, lenient),
{
    let t = ts[0];
    let rest = ts.subrange(1, ts.len() as int);
    assert(ts =~= seq![t] + rest);
    lemma_asm_seq_concat(st, seq![t], rest, convert, lenient);
    lemma_asm_seq_concat(flush(st), seq![t], rest, convert, lenient);
    lemma_asm_seq_one(st, t, convert, lenient);
    lemma_asm_seq_one(flush(st), t, convert, lenient);
    assert(flush(flush(st)) == flush(st));
    assert(asm_step(st, t, convert, lenient) == asm_step(flush(st), t, convert, lenient));
}

/// The state after `k` of the variations of `r`, all closed again.
pub open spec fn after_variations(base: Asm, r: RawNode, k: int) -> Asm {
    Asm { path: base.path.push(RawNode { props: r.props, children: r.children.subrange(0, k) }), ..base }
}

proof fn lemma_node_run(st: Asm, r: RawNode, convert: bool, lenient: bool)
    requires
        st.pending is None,
        !st.skipping,
        forall|i: int| 0 <= i < st.saved.len() ==> 0 <= #[trigger] st.saved[i] <= st.path.len(),
        plain_ids(r),
    ensures
        asm_seq(st, node_tokens(r), convert, lenient) is Some,
        ({
            let s2 = asm_seq(st, node_tokens(r), convert, lenient)->0;
            &&& fold_to(flush(s2), st.path.len() as int) == attached(st, r)
            &&& s2.saved == st.saved
            &&& flush(s2).path.len() >= st.path.len() + 1
            &&& !flush(s2).skipping
        }),
    decreases r, 1nat, 0nat,
{
    let start = seq![TokenView::StartNode];
    let pt = props_tokens(r.props);
    let opened = Asm { pending: Some(Seq::empty()), skipping: false, ..st };
    lemma_asm_seq_one(st, TokenView::StartNode, convert, lenient);
    assert(flush(st) == st);
    assert(asm_seq(st, start, convert, lenient) == Some(opened));
    lemma_props_run(opened, r.props, convert, lenient);
    assert(Seq::<RawProp>::empty() + r.props =~= r.props);
    let sp = Asm { pending: Some(r.props), ..opened };
    lemma_asm_seq_concat(st, start, pt, convert, lenient);
    assert(asm_seq(st, start + pt, convert, lenient) == Some(sp));
    let n0 = RawNode { props: r.props, children: Seq::empty() };
    let base = flush(sp);
    assert(base == Asm { path: st.path.push(n0), pending: None, skipping: false, ..st });
    let n = r.children.len();
    if n == 0 {
        assert(node_tokens(r) =~= start + pt);
        assert(n0 =~= r) by {
            assert(r.children =~= Seq::<RawNode>::empty());
        }
        let d = st.path.len() as int;
        assert(base == Asm { path: st.path.push(r), ..st });
        assert(fold_to(base, d) == fold_to(attach_last(base), d));
        assert(attach_last(base).path.len() == d);
        assert(fold_to(attach_last(base), d) == attach_last(base));
        assert(asm_seq(st, node_tokens(r), convert, lenient) == Some(sp));
        assert(fold_to(flush(sp), d) == attached(st, r));
    } else if n == 1 {
        let c = r.children[0];
        let ct = node_tokens(c);
        assert(node_tokens(r) == start + pt + ct);
        lemma_asm_seq_concat(st, start + pt, ct, convert, lenient);
        lemma_first_not_property(sp, ct, convert, lenient);
        assert(plain_ids(c));
        lemma_node_run(base, c, convert, lenient);
        let s2 = asm_seq(base, ct, convert, lenient)->0;
        let d = st.path.len() as int;
        lemma_fold_twice(flush(s2), d);
        assert(attached(base, c).path == st.path.push(r)) by {
            assert(seq![c] =~= r.children);
        }
        let done = Asm { path: st.path.push(r), pending: None, skipping: false, ..st };
        assert(attached(base, c) == done);
        assert(fold_to(done, d) == fold_to(attach_last(done), d));
        assert(attach_last(done).path.len() == d);
        assert(fold_to(attach_last(done), d) == attach_last(done));
        assert(done == Asm { path: st.path.push(r), ..st });
        assert(asm_seq(st, node_tokens(r), convert, lenient) == Some(s2));
        assert(fold_to(flush(s2), d) == attached(st, r));
    } else {
        let vt = variation_tokens(r, n as int);
        assert(node_tokens(r) == start + pt + vt);
        lemma_asm_seq_concat(st, start + pt, vt, convert, lenient);
        lemma_variations_run(base, r, n as int, convert, lenient);
        lemma_variation_tokens_start(r, n as int);
        lemma_first_not_property(sp, vt, convert, lenient);
        let fin = after_variations(Asm { path: base.path.drop_last(), ..base }, r, n as int);
        assert(r.children.subrange(0, n as int) =~= r.children);
        assert(RawNode { props: r.props, children: r.children.subrange(0, n as int) } == r);
        let d = st.path.len() as int;
        assert(base.path.drop_last() =~= st.path);
        assert(fin == Asm { path: st.path.push(r), ..st });
        assert(fold_to(fin, d) == fold_to(attach_last(fin), d));
        assert(attach_last(fin).path.len() == d);
        assert(fold_to(attach_last(fin), d) == attach_last(fin));
        assert(asm_seq(st, node_tokens(r), convert, lenient) == Some(fin));
        assert(flush(fin) == fin);
        assert(fold_to(flush(fin), d) == attached(st, r));
    }
}

proof fn lemma_variation_tokens_start(r: RawNode, k: int)
    requires
        1 <= k <= r.children.len(),
    ensures
        variation_tokens(r, k).len() > 0,
        variation_tokens(r, k)[0] == TokenView::StartGameTree,
    decreases k,
{
    if k > 1 {
        lemma_variation_tokens_start(r, k - 1);
    } else {
        assert(variation_tokens(r, 0) =~= Seq::<TokenView>::empty());
    }
}

proof fn lemma_variations_run(base: Asm, r: RawNode, k: int, convert: bool, lenient: bool)
    requires
        0 <= k <= r.children.len(),
        base.pending is None,
        !base.skipping,
        base.path.len() >= 1,
        base.path.last() == (RawNode { props: r.props, children: Seq::empty() }),
        forall|i: int| 0 <= i < base.saved.len() ==> 0 <= #[trigger] base.saved[i] < base.path.len(),
        plain_ids(r),
    ensures
        asm_seq(base, variation_tokens(r, k), convert, lenient) == Some(
            after_variations(Asm { path: base.path.drop_last(), ..base }, r, k),
        ),
    decreases r, 0nat, k,
{
    let p = base.path.drop_last();
    let b0 = Asm { path: p, ..base };
    if k == 0 {
        assert(variation_tokens(r, 0) =~= Seq::<TokenView>::empty());
        assert(r.children.subrange(0, 0) =~= Seq::<RawNode>::empty());
        assert(base.path =~= p.push(RawNode { props: r.props, children: Seq::empty() }));
    } else {
        lemma_variations_run(base, r, k - 1, convert, lenient);
        let sk = after_variations(b0, r, k - 1);
        let c = r.children[k - 1];
        assert(plain_ids(c));
        let open = seq![TokenView::StartGameTree];
        let close = seq![TokenView::EndGameTree];
        let ct = node_tokens(c);
        let vprev = variation_tokens(r, k - 1);
        assert(variation_tokens(r, k) == vprev + open + ct + close);
        lemma_asm_seq_concat(base, vprev, open, convert, lenient);
        lemma_asm_seq_concat(base, vprev + open, ct, convert, lenient);
        lemma_asm_seq_concat(base, vprev + open + ct, close, convert, lenient);
        // the variation opens
        lemma_asm_seq_one(sk, TokenView::StartGameTree, convert, lenient);
        assert(flush(sk) == sk);
        assert(sk.path.len() == p.len() + 1);
        assert(sk.saved == base.saved);
        let depth = sk.path.len() as int;
        let so = Asm { saved: sk.saved.push(depth), ..sk };
        if sk.saved.len() > 0 {
            assert(sk.saved.last() == sk.saved[sk.saved.len() - 1]);
            assert(!list_empty(sk, sk.saved.last()));
        }
        assert(asm_step(sk, TokenView::StartGameTree, convert, lenient) == AsmStep::Continue(so));
        // the child's tokens
        assert forall|i: int| 0 <= i < so.saved.len() implies 0 <= #[trigger] so.saved[i] <= so.path.len() by {
            if i < sk.saved.len() {
                assert(so.saved[i] == sk.saved[i]);
            }
        }
        lemma_node_run(so, c, convert, lenient);
        let s2 = asm_seq(so, ct, convert, lenient)->0;
        // the variation closes
        lemma_asm_seq_one(s2, TokenView::EndGameTree, convert, lenient);
        assert(flush(s2).saved == so.saved);
        assert(flush(s2).saved.last() == depth);
        let folded = fold_to(flush(s2), depth);
        assert(folded == attached(so, c));
        let nk = RawNode { props: r.props, children: r.children.subrange(0, k - 1) };
        assert(so.path == p.push(nk));
        assert(so.path.push(c).drop_last() =~= so.path);
        assert(r.children.subrange(0, k - 1).push(c) =~= r.children.subrange(0, k));
        assert(attached(so, c).path =~= p.push(RawNode { props: r.props, children: r.children.subrange(0, k) }));
        assert(so.saved.drop_last() =~= base.saved);
        assert(Asm { saved: folded.saved.drop_last(), ..folded } == after_variations(b0, r, k));
    }
}

proof fn lemma_seq_to_from(toks: Seq<TokenView>, k: int, hi: int, st: Asm, convert: bool, lenient: bool)
    requires
        0 <= k <= hi <= toks.len(),
        asm_seq(st, toks.subrange(k, hi), convert, lenient) is Some,
    ensures
        asm_from(toks, k, hi, st, convert, lenient) == Ok::<Asm, SgfParseError>(
            flush(asm_seq(st, toks.subrange(k, hi), convert, lenient)->0),
        ),
    decreases hi - k,
{
    if k < hi {
        let t = toks[k];
        let rest = toks.subrange(k + 1, hi);
        assert(toks.subrange(k, hi) =~= seq![t] + rest);
        lemma_asm_seq_concat(st, seq![t], rest, convert, lenient);
        lemma_asm_seq_one(st, t, convert, lenient);
        let s1 = asm_step(st, t, convert, lenient)->Continue_0;
        lemma_seq_to_from(toks, k + 1, hi, s1, convert, lenient);
    } else {
        assert(toks.subrange(k, hi) =~= Seq::<TokenView>::empty());
    }
}

/// Assembly reads back what is written: the tokens that a tree is written
/// as (`(`, the tokens of its root, `)`), taken anywhere from a token list,
/// assemble into that same tree, strictly or leniently, when its identifiers
/// are plain upper-case letters.
pub proof fn lemma_assembly_reads_back(
    r: RawNode,
    toks: Seq<TokenView>,
    lo: int,
    hi: int,
    convert: bool,
    lenient: bool,
)
    requires
        plain_ids(r),
        0 <= lo <= hi <= toks.len(),
        toks.subrange(lo, hi) == seq![TokenView::StartGameTree] + node_tokens(r) + seq![
            TokenView::EndGameTree,
        ],
    ensures
        assemble(toks, lo, hi, convert, lenient) == Ok::<RawNode, SgfParseError>(r),
{
    let e = empty_asm();
    let open = seq![TokenView::StartGameTree];
    let close = seq![TokenView::EndGameTree];
    let nt = node_tokens(r);
    lemma_asm_seq_one(e, TokenView::StartGameTree, convert, lenient);
    let a1 = Asm { saved: seq![0int], ..e };
    assert(e.saved.push(0int) =~= seq![0int]);
    assert(asm_seq(e, open, convert, lenient) == Some(a1));
    lemma_asm_seq_concat(e, open, nt, convert, lenient);
    lemma_asm_seq_concat(e, open + nt, close, convert, lenient);
    lemma_node_run(a1, r, convert, lenient);
    let s2 = asm_seq(a1, nt, convert, lenient)->0;
    lemma_asm_seq_one(s2, TokenView::EndGameTree, convert, lenient);
    let folded = fold_to(flush(s2), 0);
    assert(folded == attached(a1, r));
    assert(seq![0int].drop_last() =~= Seq::<int>::empty());
    let fin = Asm { saved: Seq::empty(), ..folded };
    assert(asm_seq(e, open + nt + close, convert, lenient) == Some(fin));
    lemma_seq_to_from(toks, lo, hi, e, convert, lenient);
    assert(flush(fin) == fin);
    assert(Seq::<RawNode>::empty().push(r).drop_last() =~= Seq::<RawNode>::empty());
    assert(fin.path.len() == 0);
    assert(fin.top =~= seq![r]);
    assert(Asm { saved: Seq::empty(), ..fin } == fin);
}

proof fn lemma_asm_lenient_ok(toks: Seq<TokenView>, k: int, hi: int, st: Asm, convert: bool)
    ensures
        asm_from(toks, k, hi, st, convert, true) is Ok,
    decreases hi - k,
{
    if !(k >= hi || k < 0 || k >= toks.len()) {
        match asm_step(st, toks[k], convert, true) {
            AsmStep::Continue(s) => lemma_asm_lenient_ok(toks, k + 1, hi, s, convert),
            _ => {},
        }
    }
}

/// Lenient assembly never fails.
pub proof fn lemma_assemble_lenient_ok(toks: Seq<TokenView>, lo: int, hi: int, convert: bool)
    ensures
        assemble(toks, lo, hi, convert, true) is Ok,
{
    lemma_asm_lenient_ok(toks, lo, hi, empty_asm(), convert);
}

} // verus!
