//! A node of an SGF game tree, its queries, its validation and its text.
use vstd::prelude::*;
use crate::props::rules::Violation;
use crate::props::sgf_prop::{props_string, props_text, SgfProp};
use crate::text::push_all;
use crate::values::PropertyType;

verus! {

/// A node of an SGF game tree: its properties in document order, its
/// children (the first is the main variation), and whether it is the root
/// of its tree.
#[derive(Debug, PartialEq)]
pub struct SgfNode<Prop> {
    pub properties: Vec<Prop>,
    pub children: Vec<SgfNode<Prop>>,
    pub is_root: bool,
}

/// Error for a node that breaks a rule of the format; it carries the SGF text
/// of the offending properties.
#[derive(Debug, Clone, PartialEq, Eq)]
pub enum InvalidNodeError {
    UnexpectedRootProperties(String),
    UnexpectedGameInfo(String),
    RepeatedMarkup(String),
    MultipleMoves(String),
    RepeatedIdentifier(String),
    SetupAndMove(String),
    KoWithoutMove(String),
    MultipleMoveAnnotations(String),
    UnexpectedMoveAnnotation(String),
    MultipleExclusiveAnnotations(String),
    InvalidProperty(String),
}

impl InvalidNodeError {
    /// The rule that the error reports.
    pub open spec fn violation(&self) -> Violation {
        match self {
            InvalidNodeError::UnexpectedRootProperties(_) => Violation::UnexpectedRootProperties,
            InvalidNodeError::UnexpectedGameInfo(_) => Violation::UnexpectedGameInfo,
            InvalidNodeError::RepeatedMarkup(_) => Violation::RepeatedMarkup,
            InvalidNodeError::MultipleMoves(_) => Violation::MultipleMoves,
            InvalidNodeError::RepeatedIdentifier(_) => Violation::RepeatedIdentifier,
            InvalidNodeError::SetupAndMove(_) => Violation::SetupAndMove,
            InvalidNodeError::KoWithoutMove(_) => Violation::KoWithoutMove,
            InvalidNodeError::MultipleMoveAnnotations(_) => Violation::MultipleMoveAnnotations,
            InvalidNodeError::UnexpectedMoveAnnotation(_) => Violation::UnexpectedMoveAnnotation,
            InvalidNodeError::MultipleExclusiveAnnotations(_) => {
                Violation::MultipleExclusiveAnnotations
            },
            InvalidNodeError::InvalidProperty(_) => Violation::InvalidProperty,
        }
    }

    /// A message that describes the error, with its context.
    pub fn message(&self) -> (r: String)
        ensures
            r@ == node_error_prefix(self.violation()) + self.context()@,
    {
        let (prefix, context) = match self {
            InvalidNodeError::UnexpectedRootProperties(c) => ("Root properties in non-root node: ", c),
            InvalidNodeError::UnexpectedGameInfo(c) => ("GameInfo properties in node and a child: ", c),
            InvalidNodeError::RepeatedMarkup(c) => ("Multiple markup properties on same point: ", c),
            InvalidNodeError::MultipleMoves(c) => ("B and W moves in same node: ", c),
            InvalidNodeError::RepeatedIdentifier(c) => ("Identifier repeated in node: ", c),
            InvalidNodeError::SetupAndMove(c) => ("Setup and move properties in same node: ", c),
            InvalidNodeError::KoWithoutMove(c) => ("Ko in node without B or W: ", c),
            InvalidNodeError::MultipleMoveAnnotations(c) => ("Multiple move annotations in same node: ", c),
            InvalidNodeError::UnexpectedMoveAnnotation(c) => ("Move annotation without move in node: ", c),
            InvalidNodeError::MultipleExclusiveAnnotations(c) => (
                "Multiple DM, UC, GW or GB properties in node: ",
                c,
            ),
            InvalidNodeError::InvalidProperty(c) => ("Invalid property: ", c),
        };
        let mut out = crate::text::owned(prefix);
        push_all(&mut out, context.as_str());
        out
    }

    /// The SGF text of the properties that the error is about.
    pub open spec fn context(&self) -> String {
        match self {
            InvalidNodeError::UnexpectedRootProperties(c) | InvalidNodeError::UnexpectedGameInfo(c)
            | InvalidNodeError::RepeatedMarkup(c) | InvalidNodeError::MultipleMoves(c)
            | InvalidNodeError::RepeatedIdentifier(c) | InvalidNodeError::SetupAndMove(c)
            | InvalidNodeError::KoWithoutMove(c) | InvalidNodeError::MultipleMoveAnnotations(c)
            | InvalidNodeError::UnexpectedMoveAnnotation(c)
            | InvalidNodeError::MultipleExclusiveAnnotations(c) | InvalidNodeError::InvalidProperty(c) => *c,
        }
    }

    /// The error for rule `v`, with `context` for diagnostics.
    pub fn new(v: Violation, context: String) -> (r: InvalidNodeError)
        ensures
            r.violation() == v,
            r.context() == context,
    {
        match v {
            Violation::UnexpectedRootProperties => InvalidNodeError::UnexpectedRootProperties(
                context,
            ),
            Violation::UnexpectedGameInfo => InvalidNodeError::UnexpectedGameInfo(context),
            Violation::RepeatedMarkup => InvalidNodeError::RepeatedMarkup(context),
            Violation::MultipleMoves => InvalidNodeError::MultipleMoves(context),
            Violation::RepeatedIdentifier => InvalidNodeError::RepeatedIdentifier(context),
            Violation::SetupAndMove => InvalidNodeError::SetupAndMove(context),
            Violation::KoWithoutMove => InvalidNodeError::KoWithoutMove(context),
            Violation::MultipleMoveAnnotations => InvalidNodeError::MultipleMoveAnnotations(
                context,
            ),
            Violation::UnexpectedMoveAnnotation => InvalidNodeError::UnexpectedMoveAnnotation(
                context,
            ),
            Violation::MultipleExclusiveAnnotations => {
                InvalidNodeError::MultipleExclusiveAnnotations(context)
            },
            Violation::InvalidProperty => InvalidNodeError::InvalidProperty(context),
        }
    }
}

/// The start of the message for a broken node rule.
pub open spec fn node_error_prefix(v: Violation) -> Seq<char> {
    match v {
        Violation::UnexpectedRootProperties => "Root properties in non-root node: "@,
        Violation::UnexpectedGameInfo => "GameInfo properties in node and a child: "@,
        Violation::RepeatedMarkup => "Multiple markup properties on same point: "@,
        Violation::MultipleMoves => "B and W moves in same node: "@,
        Violation::RepeatedIdentifier => "Identifier repeated in node: "@,
        Violation::SetupAndMove => "Setup and move properties in same node: "@,
        Violation::KoWithoutMove => "Ko in node without B or W: "@,
        Violation::MultipleMoveAnnotations => "Multiple move annotations in same node: "@,
        Violation::UnexpectedMoveAnnotation => "Move annotation without move in node: "@,
        Violation::MultipleExclusiveAnnotations => "Multiple DM, UC, GW or GB properties in node: "@,
        Violation::InvalidProperty => "Invalid property: "@,
    }
}

/// The index of the first property of `ps` with identifier `id`, or -1.
pub open spec fn first_with_identifier<Pr: SgfProp>(ps: Seq<Pr>, id: Seq<char>) -> int
    decreases ps.len(),
{
    if ps.len() == 0 {
        -1
    } else if first_with_identifier(ps.drop_last(), id) >= 0 {
        first_with_identifier(ps.drop_last(), id)
    } else if ps.last().spec_identifier() == id {
        ps.len() - 1
    } else {
        -1
    }
}

/// The index of the first property of `ps` of category Move, or -1.
pub open spec fn first_move<Pr: SgfProp>(ps: Seq<Pr>) -> int
    decreases ps.len(),
{
    if ps.len() == 0 {
        -1
    } else if first_move(ps.drop_last()) >= 0 {
        first_move(ps.drop_last())
    } else if ps.last().spec_property_type() == Some(PropertyType::Move) {
        ps.len() - 1
    } else {
        -1
    }
}

/// Whether some property of `ps` is of category GameInfo.
pub open spec fn has_game_info_props<Pr: SgfProp>(ps: Seq<Pr>) -> bool {
    exists|i: int|
        0 <= i < ps.len() && (#[trigger] ps[i]).spec_property_type() == Some(PropertyType::GameInfo)
}

/// The SGF text of a node: `;`, its properties, then its children: nothing
/// for none, the child's own text for one, each child in parentheses for more.
pub open spec fn node_text<Pr: SgfProp>(n: SgfNode<Pr>) -> Seq<char>
    decreases n, 1nat, 0nat,
{
    seq![';'] + props_text(n.properties@) + if n.children@.len() == 1 {
        node_text(n.children@[0])
    } else if n.children@.len() == 0 {
        Seq::empty()
    } else {
        variations_text(n, n.children@.len() as int)
    }
}

/// The first `k` children of `n`, each in parentheses.
pub open spec fn variations_text<Pr: SgfProp>(n: SgfNode<Pr>, k: int) -> Seq<char>
    decreases n, 0nat, k,
{
    if k <= 0 || k > n.children@.len() {
        Seq::empty()
    } else {
        variations_text(n, k - 1) + seq!['('] + node_text(n.children@[k - 1]) + seq![')']
    }
}

/// The outcome of validating the subtree at `n`: the first rule broken, in
/// document order, or whether the subtree carries game info. A node with game
/// info may not have game info anywhere below it.
pub open spec fn tree_check<Pr: SgfProp>(n: SgfNode<Pr>) -> Result<bool, Violation>
    decreases n, 1nat, 0nat,
{
    match Pr::spec_violation(n.properties@, n.is_root) {
        Some(v) => Err(v),
        None => match children_check(n, n.children@.len() as int) {
            Err(v) => Err(v),
            Ok(below) => {
                let here = has_game_info_props(n.properties@);
                if here && below {
                    Err(Violation::UnexpectedGameInfo)
                } else {
                    Ok(here || below)
                }
            },
        },
    }
}

/// The outcome of validating the first `k` children of `n`, left to right.
pub open spec fn children_check<Pr: SgfProp>(n: SgfNode<Pr>, k: int) -> Result<bool, Violation>
    decreases n, 0nat, k,
{
    if k <= 0 || k > n.children@.len() {
        Ok(false)
    } else {
        match children_check(n, k - 1) {
            Err(v) => Err(v),
            Ok(g) => match tree_check(n.children@[k - 1]) {
                Err(v) => Err(v),
                Ok(h) => Ok(g || h),
            },
        }
    }
}

impl<Prop: SgfProp> Default for SgfNode<Prop> {
    /// An empty node that is not a root.
    fn default() -> (r: Self)
        ensures
            r.properties@.len() == 0,
            r.children@.len() == 0,
            !r.is_root,
    {
        SgfNode { properties: Vec::new(), children: Vec::new(), is_root: false }
    }
}

impl<Prop: SgfProp> Clone for SgfNode<Prop> {
    fn clone(&self) -> Self {
        self.duplicate()
    }
}

impl<Prop: SgfProp> SgfNode<Prop> {
    /// A copy of the node and its subtree.
    pub fn duplicate(&self) -> (r: Self)
        ensures
            r.properties@.len() == self.properties@.len(),
            r.children@.len() == self.children@.len(),
            r.is_root == self.is_root,
        decreases *self,
    {
        let mut properties: Vec<Prop> = Vec::new();
        let mut i: usize = 0;
        while i < self.properties.len()
            invariant
                i <= self.properties@.len(),
                properties@.len() == i,
            decreases self.properties.len() - i,
        {
            properties.push(self.properties[i].duplicate());
            i = i + 1;
        }
        let mut children: Vec<SgfNode<Prop>> = Vec::new();
        let mut k: usize = 0;
        while k < self.children.len()
            invariant
                k <= self.children@.len(),
                children@.len() == k,
            decreases self.children.len() - k,
        {
            children.push(self.children[k].duplicate());
            k = k + 1;
        }
        SgfNode { properties, children, is_root: self.is_root }
    }

    /// A node with the given properties, children and root flag.
    pub fn new(properties: Vec<Prop>, children: Vec<SgfNode<Prop>>, is_root: bool) -> (r: Self)
        ensures
            r.properties == properties,
            r.children == children,
            r.is_root == is_root,
    {
        SgfNode { properties, children, is_root }
    }

    /// The first property with the given identifier.
    pub fn get_property(&self, identifier: &str) -> (r: Option<&Prop>)
        ensures
            r is None <==> first_with_identifier(self.properties@, identifier@) == -1,
            r matches Some(p) ==> *p == self.properties@[first_with_identifier(
                self.properties@,
                identifier@,
            )],
    {
        let mut i: usize = 0;
        while i < self.properties.len()
            invariant
                i <= self.properties@.len(),
                first_with_identifier(self.properties@.subrange(0, i as int), identifier@) == -1,
            decreases self.properties.len() - i,
        {
            let ps = &self.properties;
            assert(ps@.subrange(0, i + 1).drop_last() =~= ps@.subrange(0, i as int));
            let id = ps[i].identifier();
            if id.eq(&crate::text::owned(identifier)) {
                proof {
                    lemma_first_prefix(ps@, i + 1, identifier@);
                }
                return Some(&ps[i]);
            }
            i = i + 1;
        }
        assert(self.properties@.subrange(0, self.properties@.len() as int) =~= self.properties@);
        None
    }

    /// The children of the node, in document order.
    pub fn children(&self) -> (r: &[SgfNode<Prop>])
        ensures
            r@ == self.children@,
    {
        self.children.as_slice()
    }

    /// The properties of the node, in document order.
    pub fn properties(&self) -> (r: &[Prop])
        ensures
            r@ == self.properties@,
    {
        self.properties.as_slice()
    }

    /// The first property of category Move (`B` or `W` in a valid node).
    pub fn get_move(&self) -> (r: Option<&Prop>)
        ensures
            r is None <==> first_move(self.properties@) == -1,
            r matches Some(p) ==> *p == self.properties@[first_move(self.properties@)],
    {
        let mut i: usize = 0;
        while i < self.properties.len()
            invariant
                i <= self.properties@.len(),
                first_move(self.properties@.subrange(0, i as int)) == -1,
            decreases self.properties.len() - i,
        {
            let ps = &self.properties;
            assert(ps@.subrange(0, i + 1).drop_last() =~= ps@.subrange(0, i as int));
            if ps[i].property_type() == Some(PropertyType::Move) {
                proof {
                    lemma_first_move_prefix(ps@, i + 1);
                }
                return Some(&ps[i]);
            }
            i = i + 1;
        }
        assert(self.properties@.subrange(0, self.properties@.len() as int) =~= self.properties@);
        None
    }

    /// Whether the node has a property of category GameInfo.
    pub fn has_game_info(&self) -> (r: bool)
        ensures
            r == has_game_info_props(self.properties@),
    {
        let mut i: usize = 0;
        while i < self.properties.len()
            invariant
                i <= self.properties@.len(),
                forall|k: int|
                    0 <= k < i ==> (#[trigger] self.properties@[k]).spec_property_type() != Some(
                        PropertyType::GameInfo,
                    ),
            decreases self.properties.len() - i,
        {
            if self.properties[i].property_type() == Some(PropertyType::GameInfo) {
                return true;
            }
            i = i + 1;
        }
        false
    }

    /// Writes the node and its subtree as SGF, without enclosing parentheses.
    pub fn node_string(&self) -> (r: String)
        ensures
            r@ == node_text(*self),
        decreases *self, 1nat, 0nat,
    {
        let mut out = String::new();
        out.push(';');
        let ps = props_string(&self.properties);
        push_all(&mut out, ps.as_str());
        let n = self.children.len();
        if n == 1 {
            let c = self.children[0].node_string();
            push_all(&mut out, c.as_str());
        } else if n > 1 {
            let c = self.variations_string(n);
            push_all(&mut out, c.as_str());
        }
        assert(out@ =~= node_text(*self));
        out
    }

    /// Writes the first `k` children, each in parentheses.
    fn variations_string(&self, k: usize) -> (r: String)
        requires
            k <= self.children@.len(),
        ensures
            r@ == variations_text(*self, k as int),
        decreases *self, 0nat, k,
    {
        if k == 0 {
            return String::new();
        }
        let mut out = self.variations_string(k - 1);
        out.push('(');
        let c = self.children[k - 1].node_string();
        push_all(&mut out, c.as_str());
        out.push(')');
        assert(out@ =~= variations_text(*self, k as int));
        out
    }

    /// The node's subtree as a complete SGF game tree: its text in parentheses.
    pub fn serialize(&self) -> (r: String)
        ensures
            r@ == seq!['('] + node_text(*self) + seq![')'],
    {
        let mut out = String::new();
        out.push('(');
        let t = self.node_string();
        push_all(&mut out, t.as_str());
        out.push(')');
        assert(out@ =~= seq!['('] + node_text(*self) + seq![')']);
        out
    }

    /// Checks the node and its whole subtree against the rules of the
    /// format: each node's own rules, then that game info appears at most once
    /// on any path from this node down to a leaf. The walk keeps its own
    /// stack, so deep trees do not exhaust the call stack.
    pub fn validate(&self) -> (r: Result<(), InvalidNodeError>)
        ensures
            r is Ok <==> tree_check(*self) is Ok,
            r matches Err(e) ==> tree_check(*self) == Err::<bool, Violation>(e.violation()),
    {
        if let Err(e) = Prop::validate_properties(&self.properties, self.is_root) {
            return Err(e);
        }
        // each frame: a node, how many of its children are done, and whether
        // game info was found below it so far
        let mut stack: Vec<(&SgfNode<Prop>, usize, bool)> = Vec::new();
        stack.push((self, 0, false));
        proof {
            lemma_kids_le(*self, 0);
            reveal(stack_ok);
            assert(stack@.drop_last() =~= Seq::<(&SgfNode<Prop>, usize, bool)>::empty());
        }
        loop
            invariant
                stack_ok(stack@, *self),
            decreases work(stack@), stack@.len(),
        {
            proof {
                lemma_stack_facts(stack@, *self);
            }
            let m = stack.len();
            let (n, k, below) = stack[m - 1];
            assert(stack@[m - 1] == stack@.last());
            if k < n.children.len() {
                let c = &n.children[k];
                proof {
                    lemma_kids_step(*n, k as int);
                    lemma_kids_le(*n, k + 1);
                    lemma_kids_le(*c, 0);
                    lemma_kids_total(*c);
                }
                if let Err(e) = Prop::validate_properties(&c.properties, c.is_root) {
                    proof {
                        lemma_child_fails(*n, k as int, e.violation());
                        lemma_error_rises(stack@, m - 1, e.violation(), *self);
                    }
                    return Err(e);
                }
                let ghost before = stack@;
                stack.push((c, 0, false));
                proof {
                    lemma_work_enter(before, *c);
                    lemma_stack_push(before, *self, *c);
                    assert(stack@ == before.push((c, 0usize, false)));
                    assert(work(stack@) < work(before));
                    lemma_stack_facts(stack@, *self);
                }
            } else {
                let here = n.has_game_info();
                if here && below {
                    proof {
                        lemma_error_rises(stack@, m - 1, Violation::UnexpectedGameInfo, *self);
                    }
                    return Err(
                        InvalidNodeError::new(Violation::UnexpectedGameInfo, props_string(&n.properties)),
                    );
                }
                let ghost before = stack@;
                stack.pop();
                if stack.len() == 0 {
                    assert(tree_check(*self) == Ok::<bool, Violation>(here || below));
                    return Ok(());
                }
                assert(before[m - 2] == stack@.last());
                let (p, pk, pb) = stack.pop().unwrap();
                let plen = p.children.len();
                assert(pk < plen);
                let np = (p, pk + 1, pb || here || below);
                stack.push(np);
                proof {
                    assert(stack@ =~= before.drop_last().drop_last().push(np));
                    lemma_stack_finish(before, *self, np);
                    assert(work(stack@) == work(before));
                    assert(stack@.len() < before.len());
                }
            }
        }
    }

    /// The nodes of the main variation: this node, then each first child in turn.
    pub fn main_variation(&self) -> (r: Vec<&SgfNode<Prop>>)
        ensures
            r@.len() >= 1,
            *r@[0] == *self,
            forall|i: int|
                0 <= i < r@.len() - 1 ==> r@[i].children@.len() > 0 && *r@[i + 1]
                    == r@[i].children@[0],
            r@.last().children@.len() == 0,
    {
        let mut out: Vec<&SgfNode<Prop>> = Vec::new();
        out.push(self);
        let mut cur: &SgfNode<Prop> = self;
        while cur.children.len() > 0
            invariant
                out@.len() >= 1,
                *out@[0] == *self,
                *out@.last() == *cur,
                forall|i: int|
                    0 <= i < out@.len() - 1 ==> out@[i].children@.len() > 0 && *out@[i + 1]
                        == out@[i].children@[0],
            decreases *cur,
        {
            let next = &cur.children[0];
            out.push(next);
            cur = next;
        }
        out
    }
}

proof fn lemma_first_prefix<Pr: SgfProp>(ps: Seq<Pr>, j: int, id: Seq<char>)
    requires
        0 < j <= ps.len(),
        first_with_identifier(ps.subrange(0, j), id) >= 0,
    ensures
        first_with_identifier(ps, id) == first_with_identifier(ps.subrange(0, j), id),
        0 <= first_with_identifier(ps, id) < j,
        ps[first_with_identifier(ps, id)].spec_identifier() == id,
    decreases ps.len() - j,
{
    if j < ps.len() {
        assert(ps.subrange(0, j + 1).drop_last() =~= ps.subrange(0, j));
        lemma_first_bounds(ps.subrange(0, j), id);
        lemma_first_prefix(ps, j + 1, id);
    } else {
        assert(ps.subrange(0, j) =~= ps);
        lemma_first_bounds(ps, id);
    }
}

proof fn lemma_first_bounds<Pr: SgfProp>(ps: Seq<Pr>, id: Seq<char>)
    ensures
        -1 <= first_with_identifier(ps, id) < ps.len(),
        first_with_identifier(ps, id) >= 0 ==> ps[first_with_identifier(ps, id)].spec_identifier()
            == id,
    decreases ps.len(),
{
    if ps.len() > 0 {
        lemma_first_bounds(ps.drop_last(), id);
    }
}

proof fn lemma_first_move_prefix<Pr: SgfProp>(ps: Seq<Pr>, j: int)
    requires
        0 < j <= ps.len(),
        first_move(ps.subrange(0, j)) >= 0,
    ensures
        first_move(ps) == first_move(ps.subrange(0, j)),
        0 <= first_move(ps) < j,
    decreases ps.len() - j,
{
    if j < ps.len() {
        assert(ps.subrange(0, j + 1).drop_last() =~= ps.subrange(0, j));
        lemma_first_move_bounds(ps.subrange(0, j));
        lemma_first_move_prefix(ps, j + 1);
    } else {
        assert(ps.subrange(0, j) =~= ps);
        lemma_first_move_bounds(ps);
    }
}

proof fn lemma_first_move_bounds<Pr: SgfProp>(ps: Seq<Pr>)
    ensures
        -1 <= first_move(ps) < ps.len(),
    decreases ps.len(),
{
    if ps.len() > 0 {
        lemma_first_move_bounds(ps.drop_last());
    }
}

/// The number of nodes in the subtree at `n`.
pub open spec fn size<Pr: SgfProp>(n: SgfNode<Pr>) -> nat
    decreases n, 1nat, 0nat,
{
    1 + kids_size(n, n.children@.len() as int)
}

/// The number of nodes in the subtrees of the first `k` children of `n`.
pub open spec fn kids_size<Pr: SgfProp>(n: SgfNode<Pr>, k: int) -> nat
    decreases n, 0nat, k,
{
    if k <= 0 || k > n.children@.len() {
        0
    } else {
        kids_size(n, k - 1) + size(n.children@[k - 1])
    }
}

/// The number of nodes below `n` in its children from the `k`-th on.
pub open spec fn rest_of<Pr: SgfProp>(n: SgfNode<Pr>, k: int) -> int {
    kids_size(n, n.children@.len() as int) - kids_size(n, k)
}

/// The nodes that a validation walk with stack `fs` has still to enter: the
/// children after the one in progress, for each frame under the top, and the
/// children not yet done of the top frame.
pub open spec fn work<Pr: SgfProp>(fs: Seq<(&SgfNode<Pr>, usize, bool)>) -> int {
    if fs.len() == 0 {
        0
    } else {
        lower_work(fs.drop_last()) + rest_of(*fs.last().0, fs.last().1 as int)
    }
}

pub open spec fn lower_work<Pr: SgfProp>(fs: Seq<(&SgfNode<Pr>, usize, bool)>) -> int
    decreases fs.len(),
{
    if fs.len() == 0 {
        0
    } else {
        lower_work(fs.drop_last()) + rest_of(*fs.last().0, fs.last().1 + 1)
    }
}

/// The stack of a validation walk from `root`: each frame's node keeps its
/// own rules and has the outcome so far recorded for its done children; each
/// frame but the top is working on the child that the next frame holds.
#[verifier::opaque]
pub open spec fn stack_ok<Pr: SgfProp>(fs: Seq<(&SgfNode<Pr>, usize, bool)>, root: SgfNode<Pr>) -> bool {
    &&& fs.len() > 0
    &&& *fs[0].0 == root
    &&& forall|j: int|
        0 <= j < fs.len() ==> {
            let f = #[trigger] fs[j];
            &&& Pr::spec_violation(f.0.properties@, f.0.is_root) is None
            &&& f.1 <= f.0.children@.len()
            &&& children_check(*f.0, f.1 as int) == Ok::<bool, Violation>(f.2)
            &&& 0 <= kids_size(*f.0, f.1 as int) <= kids_size(*f.0, f.0.children@.len() as int)
        }
    &&& forall|j: int|
        0 <= j < fs.len() - 1 ==> {
            let f = #[trigger] fs[j];
            &&& f.1 < f.0.children@.len()
            &&& *fs[j + 1].0 == f.0.children@[f.1 as int]
            &&& kids_size(*f.0, f.1 + 1) <= kids_size(*f.0, f.0.children@.len() as int)
        }
}

proof fn lemma_lower_work_nonneg<Pr: SgfProp>(fs: Seq<(&SgfNode<Pr>, usize, bool)>)
    requires
        forall|j: int|
            0 <= j < fs.len() ==> kids_size(*(#[trigger] fs[j]).0, fs[j].1 + 1) <= kids_size(
                *fs[j].0,
                fs[j].0.children@.len() as int,
            ),
    ensures
        lower_work(fs) >= 0,
    decreases fs.len(),
{
    if fs.len() > 0 {
        let d = fs.drop_last();
        assert forall|j: int| 0 <= j < d.len() implies kids_size(*(#[trigger] d[j]).0, d[j].1 + 1)
            <= kids_size(*d[j].0, d[j].0.children@.len() as int) by {
            assert(d[j] == fs[j]);
        }
        lemma_lower_work_nonneg(d);
        assert(fs.last() == fs[fs.len() - 1]);
    }
}

proof fn lemma_stack_facts<Pr: SgfProp>(fs: Seq<(&SgfNode<Pr>, usize, bool)>, root: SgfNode<Pr>)
    requires
        stack_ok(fs, root),
    ensures
        fs.len() > 0,
        fs.last().1 <= fs.last().0.children@.len(),
        Pr::spec_violation(fs.last().0.properties@, fs.last().0.is_root) is None,
        children_check(*fs.last().0, fs.last().1 as int) == Ok::<bool, Violation>(fs.last().2),
        fs.len() >= 2 ==> fs[fs.len() - 2].1 < fs[fs.len() - 2].0.children@.len(),
        fs.len() == 1 ==> *fs[0].0 == root,
        work(fs) >= 0,
{
    reveal(stack_ok);
    let t = fs.last();
    assert(t == fs[fs.len() - 1]);
    let d = fs.drop_last();
    assert forall|j: int| 0 <= j < d.len() implies kids_size(*(#[trigger] d[j]).0, d[j].1 + 1)
        <= kids_size(*d[j].0, d[j].0.children@.len() as int) by {
        assert(d[j] == fs[j]);
    }
    lemma_lower_work_nonneg(d);
}

proof fn lemma_kids_step<Pr: SgfProp>(n: SgfNode<Pr>, k: int)
    requires
        0 <= k < n.children@.len(),
    ensures
        kids_size(n, k + 1) == kids_size(n, k) + size(n.children@[k]),
{
}

proof fn lemma_kids_le<Pr: SgfProp>(n: SgfNode<Pr>, k: int)
    requires
        0 <= k <= n.children@.len(),
    ensures
        kids_size(n, k) <= kids_size(n, n.children@.len() as int),
    decreases n.children@.len() - k,
{
    if k < n.children@.len() {
        lemma_kids_le(n, k + 1);
    }
}

proof fn lemma_kids_total<Pr: SgfProp>(n: SgfNode<Pr>)
    ensures
        size(n) == 1 + kids_size(n, n.children@.len() as int),
{
}

proof fn lemma_children_err_stays<Pr: SgfProp>(n: SgfNode<Pr>, k: int, v: Violation)
    requires
        0 <= k <= n.children@.len(),
        children_check(n, k) == Err::<bool, Violation>(v),
    ensures
        children_check(n, n.children@.len() as int) == Err::<bool, Violation>(v),
    decreases n.children@.len() - k,
{
    if k < n.children@.len() {
        lemma_children_err_stays(n, k + 1, v);
    }
}

proof fn lemma_child_fails<Pr: SgfProp>(n: SgfNode<Pr>, k: int, v: Violation)
    requires
        0 <= k < n.children@.len(),
        children_check(n, k) is Ok,
        Pr::spec_violation(n.children@[k].properties@, n.children@[k].is_root) == Some(v),
        Pr::spec_violation(n.properties@, n.is_root) is None,
    ensures
        tree_check(n) == Err::<bool, Violation>(v),
{
    assert(tree_check(n.children@[k]) == Err::<bool, Violation>(v));
    assert(children_check(n, k + 1) == Err::<bool, Violation>(v));
    lemma_children_err_stays(n, k + 1, v);
}

/// An error in the subtree of the node of frame `j` is the error of the root.
proof fn lemma_error_rises<Pr: SgfProp>(
    fs: Seq<(&SgfNode<Pr>, usize, bool)>,
    j: int,
    v: Violation,
    root: SgfNode<Pr>,
)
    requires
        stack_ok(fs, root),
        0 <= j < fs.len(),
        tree_check(*fs[j].0) == Err::<bool, Violation>(v),
    ensures
        tree_check(root) == Err::<bool, Violation>(v),
    decreases j,
{
    reveal(stack_ok);
    if j > 0 {
        let p = fs[j - 1];
        let f = fs[j];
        assert(*f.0 == p.0.children@[p.1 as int]);
        assert(children_check(*p.0, p.1 + 1) == Err::<bool, Violation>(v));
        lemma_children_err_stays(*p.0, p.1 + 1, v);
        lemma_error_rises(fs, j - 1, v, root);
    }
}

proof fn lemma_lower_work_push<Pr: SgfProp>(
    fs: Seq<(&SgfNode<Pr>, usize, bool)>,
    f: (&SgfNode<Pr>, usize, bool),
)
    ensures
        lower_work(fs.push(f)) == lower_work(fs) + rest_of(*f.0, f.1 + 1),
{
    assert(fs.push(f).drop_last() =~= fs);
}

proof fn lemma_work_enter<Pr: SgfProp>(fs: Seq<(&SgfNode<Pr>, usize, bool)>, c: SgfNode<Pr>)
    requires
        fs.len() > 0,
        fs.last().1 < fs.last().0.children@.len(),
        c == fs.last().0.children@[fs.last().1 as int],
    ensures
        work(fs.push((&c, 0usize, false))) < work(fs),
{
    let t = fs.last();
    lemma_kids_step(*t.0, t.1 as int);
    lemma_lower_work_push(fs.drop_last(), t);
    assert(fs.drop_last().push(t) =~= fs);
    assert(fs.push((&c, 0usize, false)).drop_last() =~= fs);
    lemma_kids_total(c);
}

proof fn lemma_stack_push<Pr: SgfProp>(fs: Seq<(&SgfNode<Pr>, usize, bool)>, root: SgfNode<Pr>, c: SgfNode<Pr>)
    requires
        stack_ok(fs, root),
        fs.last().1 < fs.last().0.children@.len(),
        c == fs.last().0.children@[fs.last().1 as int],
        Pr::spec_violation(c.properties@, c.is_root) is None,
    ensures
        stack_ok(fs.push((&c, 0usize, false)), root),
{
    reveal(stack_ok);
    let g = fs.push((&c, 0usize, false));
    let t = fs.last();
    lemma_kids_le(c, 0);
    lemma_kids_le(*t.0, t.1 + 1);
    assert(g.drop_last() =~= fs);
    lemma_lower_work_push(fs.drop_last(), t);
    assert(fs.drop_last().push(t) =~= fs);
    lemma_kids_step(*t.0, t.1 as int);
    assert forall|j: int| 0 <= j < g.len() - 1 implies {
        let f = #[trigger] g[j];
        &&& f.1 < f.0.children@.len()
        &&& *g[j + 1].0 == f.0.children@[f.1 as int]
        &&& kids_size(*f.0, f.1 + 1) <= kids_size(*f.0, f.0.children@.len() as int)
    } by {
        if j < fs.len() - 1 {
            assert(g[j] == fs[j]);
            assert(g[j + 1] == fs[j + 1]);
        } else {
            assert(g[j] == t);
        }
    }
    assert forall|j: int| 0 <= j < g.len() implies {
        let f = #[trigger] g[j];
        &&& Pr::spec_violation(f.0.properties@, f.0.is_root) is None
        &&& f.1 <= f.0.children@.len()
        &&& children_check(*f.0, f.1 as int) == Ok::<bool, Violation>(f.2)
        &&& 0 <= kids_size(*f.0, f.1 as int) <= kids_size(*f.0, f.0.children@.len() as int)
    } by {
        if j < fs.len() {
            assert(g[j] == fs[j]);
        }
    }
}

proof fn lemma_stack_finish<Pr: SgfProp>(
    fs: Seq<(&SgfNode<Pr>, usize, bool)>,
    root: SgfNode<Pr>,
    np: (&SgfNode<Pr>, usize, bool),
)
    requires
        stack_ok(fs, root),
        fs.len() >= 2,
        fs.last().1 == fs.last().0.children@.len(),
        !(has_game_info_props(fs.last().0.properties@) && fs.last().2),
        np.0 == fs[fs.len() - 2].0,
        np.1 == fs[fs.len() - 2].1 + 1,
        np.2 == (fs[fs.len() - 2].2 || has_game_info_props(fs.last().0.properties@) || fs.last().2),
    ensures
        stack_ok(fs.drop_last().drop_last().push(np), root),
        work(fs.drop_last().drop_last().push(np)) == work(fs),
{
    reveal(stack_ok);
    let t = fs.last();
    let m = fs.len();
    let p = fs[m - 2];
    let base = fs.drop_last().drop_last();
    let g = base.push(np);
    assert(t == fs[m - 1]);
    assert(*t.0 == p.0.children@[p.1 as int]);
    assert(tree_check(*t.0) == Ok::<bool, Violation>(has_game_info_props(t.0.properties@) || t.2));
    assert(children_check(*p.0, p.1 + 1) == Ok::<bool, Violation>(np.2));
    assert(g.drop_last() =~= base);
    assert(fs.drop_last().drop_last().push(p) =~= fs.drop_last());
    lemma_lower_work_push(base, p);
    lemma_kids_le(*p.0, p.1 + 1);
    assert forall|j: int| 0 <= j < g.len() implies {
        let f = #[trigger] g[j];
        &&& Pr::spec_violation(f.0.properties@, f.0.is_root) is None
        &&& f.1 <= f.0.children@.len()
        &&& children_check(*f.0, f.1 as int) == Ok::<bool, Violation>(f.2)
        &&& 0 <= kids_size(*f.0, f.1 as int) <= kids_size(*f.0, f.0.children@.len() as int)
    } by {
        if j < m - 2 {
            assert(g[j] == fs[j]);
        } else {
            assert(g[j] == np);
            assert(fs[m - 2] == p);
        }
    }
    assert forall|j: int| 0 <= j < g.len() - 1 implies {
        let f = #[trigger] g[j];
        &&& f.1 < f.0.children@.len()
        &&& *g[j + 1].0 == f.0.children@[f.1 as int]
        &&& kids_size(*f.0, f.1 + 1) <= kids_size(*f.0, f.0.children@.len() as int)
    } by {
        assert(g[j] == fs[j]);
        if j + 1 < m - 2 {
            assert(g[j + 1] == fs[j + 1]);
        } else {
            assert(g[j + 1] == np);
        }
    }
    if m - 2 == 0 {
        assert(g[0] == np);
    } else {
        assert(g[0] == fs[0]);
    }
}

/// Validation is repeatable: two validations of the same node, each with the
/// outcome that `validate` promises, agree. A valid node is valid the second
/// time too, and an invalid one fails again with the same rule.
pub proof fn lemma_validation_repeatable<Pr: SgfProp>(
    n: SgfNode<Pr>,
    first: Result<(), InvalidNodeError>,
    second: Result<(), InvalidNodeError>,
)
    requires
        first is Ok <==> tree_check(n) is Ok,
        first matches Err(e) ==> tree_check(n) == Err::<bool, Violation>(e.violation()),
        second is Ok <==> tree_check(n) is Ok,
        second matches Err(e) ==> tree_check(n) == Err::<bool, Violation>(e.violation()),
    ensures
        first is Ok <==> second is Ok,
        first matches Err(e1) ==> (second matches Err(e2) && e1.violation() == e2.violation()),
{
}

} // verus!
