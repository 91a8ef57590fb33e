//! The property interface that nodes and the parser work through, and its
//! two instances: Go's catalog and the general one for other games.
use vstd::prelude::*;
use crate::go;
use crate::props::parse::raw_view;
use crate::props::rules::{find_violation, list_string, list_text, node_violation, Violation};
use crate::props::Prop;
use crate::sgf_node::InvalidNodeError;
use crate::unknown_game;
use crate::values::PropertyType;

verus! {

/// A property type that a node can hold.
pub trait SgfProp: Sized {
    /// Whether `p` is the property read from identifier `id` with raw values `vals`.
    spec fn spec_parsed(id: Seq<char>, vals: Seq<Seq<char>>, p: Self) -> bool;

    /// The property's identifier.
    spec fn spec_identifier(&self) -> Seq<char>;

    /// The property's category.
    spec fn spec_property_type(&self) -> Option<PropertyType>;

    /// The property's SGF text, `ID[value]`.
    spec fn spec_text(&self) -> Seq<char>;

    /// The SGF text of `props`, one after the other.
    spec fn spec_list_text(props: Seq<Self>) -> Seq<char>;

    /// The first node rule that `props` break, for a root node or not.
    spec fn spec_violation(props: Seq<Self>, is_root: bool) -> Option<Violation>;

    /// Reads a property from its identifier and raw values. This never
    /// fails: an unknown identifier or a malformed value is kept as data.
    fn new(identifier: String, values: Vec<String>) -> (r: Self)
        ensures
            Self::spec_parsed(identifier@, raw_view(values@), r),
    ;

    fn identifier(&self) -> (r: String)
        ensures
            r@ == self.spec_identifier(),
    ;

    fn property_type(&self) -> (r: Option<PropertyType>)
        ensures
            r == self.spec_property_type(),
    ;

    /// A copy of the property.
    fn duplicate(&self) -> Self;

    /// Writes the property as SGF.
    fn to_sgf_string(&self) -> (r: String)
        ensures
            r@ == self.spec_text(),
    ;

    /// Checks the rules that the properties of one node must keep. An error
    /// carries the SGF text of the properties.
    fn validate_properties(properties: &Vec<Self>, is_root: bool) -> (r: Result<(), InvalidNodeError>)
        ensures
            r is Ok <==> Self::spec_violation(properties@, is_root) is None,
            r matches Err(e) ==> Self::spec_violation(properties@, is_root) == Some(e.violation()),
            r matches Err(e) ==> e.context()@ == Self::spec_list_text(properties@),
    ;
}

/// The text of a list of properties, one after the other.
pub open spec fn props_text<Pr: SgfProp>(ps: Seq<Pr>) -> Seq<char>
    decreases ps.len(),
{
    if ps.len() == 0 {
        Seq::empty()
    } else {
        props_text(ps.drop_last()) + ps.last().spec_text()
    }
}

/// Writes a list of properties, one after the other.
pub fn props_string<Pr: SgfProp>(ps: &Vec<Pr>) -> (r: String)
    ensures
        r@ == props_text(ps@),
{
    let mut out = String::new();
    let mut i: usize = 0;
    while i < ps.len()
        invariant
            i <= ps@.len(),
            out@ == props_text(ps@.subrange(0, i as int)),
        decreases ps.len() - i,
    {
        let t = ps[i].to_sgf_string();
        crate::text::push_all(&mut out, t.as_str());
        assert(ps@.subrange(0, i + 1).drop_last() =~= ps@.subrange(0, i as int));
        i = i + 1;
    }
    assert(ps@.subrange(0, ps@.len() as int) =~= ps@);
    out
}

fn check(found: Option<Violation>, context: String) -> (r: Result<(), InvalidNodeError>)
    ensures
        r is Ok <==> found is None,
        r matches Err(e) ==> found == Some(e.violation()),
        r matches Err(e) ==> e.context() == context,
{
    match found {
        None => Ok(()),
        Some(v) => Err(InvalidNodeError::new(v, context)),
    }
}

impl SgfProp for go::Prop {
    open spec fn spec_parsed(id: Seq<char>, vals: Seq<Seq<char>>, p: Self) -> bool {
        Prop::parsed_from(id, vals, p, true)
    }

    open spec fn spec_identifier(&self) -> Seq<char> {
        self.id_text()
    }

    open spec fn spec_property_type(&self) -> Option<PropertyType> {
        self.category()
    }

    open spec fn spec_text(&self) -> Seq<char> {
        self.prop_text()
    }

    open spec fn spec_violation(props: Seq<Self>, is_root: bool) -> Option<Violation> {
        node_violation(props, is_root)
    }

    open spec fn spec_list_text(props: Seq<Self>) -> Seq<char> {
        list_text(props)
    }

    fn new(identifier: String, values: Vec<String>) -> (r: Self) {
        Prop::parse_prop(identifier, values, true)
    }

    fn identifier(&self) -> (r: String) {
        self.identifier_string()
    }

    fn property_type(&self) -> (r: Option<PropertyType>) {
        self.category_of()
    }

    fn duplicate(&self) -> Self {
        self.clone()
    }

    fn to_sgf_string(&self) -> (r: String) {
        self.text_string()
    }

    fn validate_properties(properties: &Vec<Self>, is_root: bool) -> (r: Result<(), InvalidNodeError>) {
        let found = find_violation(properties, is_root);
        let context = if found.is_some() {
            list_string(properties)
        } else {
            String::new()
        };
        check(found, context)
    }
}

impl SgfProp for unknown_game::Prop {
    open spec fn spec_parsed(id: Seq<char>, vals: Seq<Seq<char>>, p: Self) -> bool {
        Prop::parsed_from(id, vals, p, false)
    }

    open spec fn spec_identifier(&self) -> Seq<char> {
        self.id_text()
    }

    open spec fn spec_property_type(&self) -> Option<PropertyType> {
        self.category()
    }

    open spec fn spec_text(&self) -> Seq<char> {
        self.prop_text()
    }

    open spec fn spec_violation(props: Seq<Self>, is_root: bool) -> Option<Violation> {
        node_violation(props, is_root)
    }

    open spec fn spec_list_text(props: Seq<Self>) -> Seq<char> {
        list_text(props)
    }

    fn new(identifier: String, values: Vec<String>) -> (r: Self) {
        Prop::parse_prop(identifier, values, false)
    }

    fn identifier(&self) -> (r: String) {
        self.identifier_string()
    }

    fn property_type(&self) -> (r: Option<PropertyType>) {
        self.category_of()
    }

    fn duplicate(&self) -> Self {
        self.clone()
    }

    fn to_sgf_string(&self) -> (r: String) {
        self.text_string()
    }

    fn validate_properties(properties: &Vec<Self>, is_root: bool) -> (r: Result<(), InvalidNodeError>) {
        let found = find_violation(properties, is_root);
        let context = if found.is_some() {
            list_string(properties)
        } else {
            String::new()
        };
        check(found, context)
    }
}

/// For Go properties, the text that a validation error carries is the
/// properties' SGF text.
pub proof fn lemma_go_list_text(ps: Seq<go::Prop>)
    ensures
        <go::Prop as SgfProp>::spec_list_text(ps) == props_text(ps),
    decreases ps.len(),
{
    if ps.len() > 0 {
        lemma_go_list_text(ps.drop_last());
    }
}

/// For properties of other games, the text that a validation error carries
/// is the properties' SGF text.
pub proof fn lemma_unknown_list_text(ps: Seq<unknown_game::Prop>)
    ensures
        <unknown_game::Prop as SgfProp>::spec_list_text(ps) == props_text(ps),
    decreases ps.len(),
{
    if ps.len() > 0 {
        lemma_unknown_list_text(ps.drop_last());
    }
}

} // verus!
