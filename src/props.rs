//! The SGF property catalog: every known identifier, the type of its value,
//! its category, and how a property is read from and written to text.
use vstd::prelude::*;
use crate::props::parse::{composed_pairs, elist_points, figure_parse, labels_parse, list_points,
    parse_application, parse_elist, parse_figure, parse_labels, parse_list, parse_list_composed,
    parse_single_value, parse_size, raw_view, verify_empty, is_empty_value, single_parse, single_tuple, size_parse, views,
    FromCompressedList};
use crate::text::{chars_of, owned, push_all};
use crate::values::{Color, Double, FromSgf, PropertyType, Real, SimpleText, Text, ToSgf};

pub mod parse;
pub mod rules;
pub mod sgf_prop;

verus! {

/// An identifier of the catalog.
#[derive(Debug, Clone, Copy, PartialEq, Eq, Structural)]
pub enum Ident {
    B,
    KO,
    MN,
    W,
    AB,
    AE,
    AW,
    PL,
    C,
    DM,
    GB,
    GW,
    HO,
    N,
    UC,
    V,
    BM,
    DO,
    IT,
    TE,
    AR,
    CR,
    DD,
    LB,
    LN,
    MA,
    SL,
    SQ,
    TR,
    AP,
    CA,
    FF,
    GM,
    ST,
    SZ,
    AN,
    BR,
    BT,
    CP,
    DT,
    EV,
    GN,
    GC,
    ON,
    OT,
    PB,
    PC,
    PW,
    RE,
    RO,
    RU,
    SO,
    TM,
    US,
    WR,
    WT,
    BL,
    OB,
    OW,
    WL,
    FG,
    PM,
    VW,
    HA,
    KM,
    TB,
    TW,
}

impl Ident {
    /// The identifier's text.
    pub open spec fn text(self) -> Seq<char> {
        match self {
            Ident::B => seq!['B'],
            Ident::KO => seq!['K', 'O'],
            Ident::MN => seq!['M', 'N'],
            Ident::W => seq!['W'],
            Ident::AB => seq!['A', 'B'],
            Ident::AE => seq!['A', 'E'],
            Ident::AW => seq!['A', 'W'],
            Ident::PL => seq!['P', 'L'],
            Ident::C => seq!['C'],
            Ident::DM => seq!['D', 'M'],
            Ident::GB => seq!['G', 'B'],
            Ident::GW => seq!['G', 'W'],
            Ident::HO => seq!['H', 'O'],
            Ident::N => seq!['N'],
            Ident::UC => seq!['U', 'C'],
            Ident::V => seq!['V'],
            Ident::BM => seq!['B', 'M'],
            Ident::DO => seq!['D', 'O'],
            Ident::IT => seq!['I', 'T'],
            Ident::TE => seq!['T', 'E'],
            Ident::AR => seq!['A', 'R'],
            Ident::CR => seq!['C', 'R'],
            Ident::DD => seq!['D', 'D'],
            Ident::LB => seq!['L', 'B'],
            Ident::LN => seq!['L', 'N'],
            Ident::MA => seq!['M', 'A'],
            Ident::SL => seq!['S', 'L'],
            Ident::SQ => seq!['S', 'Q'],
            Ident::TR => seq!['T', 'R'],
            Ident::AP => seq!['A', 'P'],
            Ident::CA => seq!['C', 'A'],
            Ident::FF => seq!['F', 'F'],
            Ident::GM => seq!['G', 'M'],
            Ident::ST => seq!['S', 'T'],
            Ident::SZ => seq!['S', 'Z'],
            Ident::AN => seq!['A', 'N'],
            Ident::BR => seq!['B', 'R'],
            Ident::BT => seq!['B', 'T'],
            Ident::CP => seq!['C', 'P'],
            Ident::DT => seq!['D', 'T'],
            Ident::EV => seq!['E', 'V'],
            Ident::GN => seq!['G', 'N'],
            Ident::GC => seq!['G', 'C'],
            Ident::ON => seq!['O', 'N'],
            Ident::OT => seq!['O', 'T'],
            Ident::PB => seq!['P', 'B'],
            Ident::PC => seq!['P', 'C'],
            Ident::PW => seq!['P', 'W'],
            Ident::RE => seq!['R', 'E'],
            Ident::RO => seq!['R', 'O'],
            Ident::RU => seq!['R', 'U'],
            Ident::SO => seq!['S', 'O'],
            Ident::TM => seq!['T', 'M'],
            Ident::US => seq!['U', 'S'],
            Ident::WR => seq!['W', 'R'],
            Ident::WT => seq!['W', 'T'],
            Ident::BL => seq!['B', 'L'],
            Ident::OB => seq!['O', 'B'],
            Ident::OW => seq!['O', 'W'],
            Ident::WL => seq!['W', 'L'],
            Ident::FG => seq!['F', 'G'],
            Ident::PM => seq!['P', 'M'],
            Ident::VW => seq!['V', 'W'],
            Ident::HA => seq!['H', 'A'],
            Ident::KM => seq!['K', 'M'],
            Ident::TB => seq!['T', 'B'],
            Ident::TW => seq!['T', 'W'],
        }
    }

    /// Whether the identifier belongs to Go alone.
    pub open spec fn go_only(self) -> bool {
        match self {
            Ident::HA | Ident::KM | Ident::TB | Ident::TW => true,
            _ => false,
        }
    }

    /// The identifier's category.
    pub open spec fn kind(self) -> Option<PropertyType> {
        match self {
            Ident::B | Ident::KO | Ident::MN | Ident::W | Ident::BM | Ident::DO | Ident::IT | Ident::TE | Ident::BL | Ident::OB | Ident::OW | Ident::WL => Some(PropertyType::Move),
            Ident::AB | Ident::AE | Ident::AW | Ident::PL => Some(PropertyType::Setup),
            Ident::AP | Ident::CA | Ident::FF | Ident::GM | Ident::ST | Ident::SZ => Some(PropertyType::Root),
            Ident::AN | Ident::BR | Ident::BT | Ident::CP | Ident::DT | Ident::EV | Ident::GN | Ident::GC | Ident::ON | Ident::OT | Ident::PB | Ident::PC | Ident::PW | Ident::RE | Ident::RO | Ident::RU | Ident::SO | Ident::TM | Ident::US | Ident::WR | Ident::WT | Ident::HA | Ident::KM => Some(PropertyType::GameInfo),
            Ident::DD | Ident::PM | Ident::VW => Some(PropertyType::Inherit),
            _ => None,
        }
    }

    /// Writes the identifier.
    pub fn to_text(self) -> (r: String)
        ensures
            r@ == self.text(),
    {
        let mut s = String::new();
        match self {
            Ident::B => {s.push('B');},
            Ident::KO => {s.push('K'); s.push('O');},
            Ident::MN => {s.push('M'); s.push('N');},
            Ident::W => {s.push('W');},
            Ident::AB => {s.push('A'); s.push('B');},
            Ident::AE => {s.push('A'); s.push('E');},
            Ident::AW => {s.push('A'); s.push('W');},
            Ident::PL => {s.push('P'); s.push('L');},
            Ident::C => {s.push('C');},
            Ident::DM => {s.push('D'); s.push('M');},
            Ident::GB => {s.push('G'); s.push('B');},
            Ident::GW => {s.push('G'); s.push('W');},
            Ident::HO => {s.push('H'); s.push('O');},
            Ident::N => {s.push('N');},
            Ident::UC => {s.push('U'); s.push('C');},
            Ident::V => {s.push('V');},
            Ident::BM => {s.push('B'); s.push('M');},
            Ident::DO => {s.push('D'); s.push('O');},
            Ident::IT => {s.push('I'); s.push('T');},
            Ident::TE => {s.push('T'); s.push('E');},
            Ident::AR => {s.push('A'); s.push('R');},
            Ident::CR => {s.push('C'); s.push('R');},
            Ident::DD => {s.push('D'); s.push('D');},
            Ident::LB => {s.push('L'); s.push('B');},
            Ident::LN => {s.push('L'); s.push('N');},
            Ident::MA => {s.push('M'); s.push('A');},
            Ident::SL => {s.push('S'); s.push('L');},
            Ident::SQ => {s.push('S'); s.push('Q');},
            Ident::TR => {s.push('T'); s.push('R');},
            Ident::AP => {s.push('A'); s.push('P');},
            Ident::CA => {s.push('C'); s.push('A');},
            Ident::FF => {s.push('F'); s.push('F');},
            Ident::GM => {s.push('G'); s.push('M');},
            Ident::ST => {s.push('S'); s.push('T');},
            Ident::SZ => {s.push('S'); s.push('Z');},
            Ident::AN => {s.push('A'); s.push('N');},
            Ident::BR => {s.push('B'); s.push('R');},
            Ident::BT => {s.push('B'); s.push('T');},
            Ident::CP => {s.push('C'); s.push('P');},
            Ident::DT => {s.push('D'); s.push('T');},
            Ident::EV => {s.push('E'); s.push('V');},
            Ident::GN => {s.push('G'); s.push('N');},
            Ident::GC => {s.push('G'); s.push('C');},
            Ident::ON => {s.push('O'); s.push('N');},
            Ident::OT => {s.push('O'); s.push('T');},
            Ident::PB => {s.push('P'); s.push('B');},
            Ident::PC => {s.push('P'); s.push('C');},
            Ident::PW => {s.push('P'); s.push('W');},
            Ident::RE => {s.push('R'); s.push('E');},
            Ident::RO => {s.push('R'); s.push('O');},
            Ident::RU => {s.push('R'); s.push('U');},
            Ident::SO => {s.push('S'); s.push('O');},
            Ident::TM => {s.push('T'); s.push('M');},
            Ident::US => {s.push('U'); s.push('S');},
            Ident::WR => {s.push('W'); s.push('R');},
            Ident::WT => {s.push('W'); s.push('T');},
            Ident::BL => {s.push('B'); s.push('L');},
            Ident::OB => {s.push('O'); s.push('B');},
            Ident::OW => {s.push('O'); s.push('W');},
            Ident::WL => {s.push('W'); s.push('L');},
            Ident::FG => {s.push('F'); s.push('G');},
            Ident::PM => {s.push('P'); s.push('M');},
            Ident::VW => {s.push('V'); s.push('W');},
            Ident::HA => {s.push('H'); s.push('A');},
            Ident::KM => {s.push('K'); s.push('M');},
            Ident::TB => {s.push('T'); s.push('B');},
            Ident::TW => {s.push('T'); s.push('W');},
        }
        assert(s@ =~= self.text());
        s
    }

    /// The identifier's category.
    pub fn property_type(self) -> (r: Option<PropertyType>)
        ensures
            r == self.kind(),
    {
        match self {
            Ident::B | Ident::KO | Ident::MN | Ident::W | Ident::BM | Ident::DO | Ident::IT | Ident::TE | Ident::BL | Ident::OB | Ident::OW | Ident::WL => Some(PropertyType::Move),
            Ident::AB | Ident::AE | Ident::AW | Ident::PL => Some(PropertyType::Setup),
            Ident::AP | Ident::CA | Ident::FF | Ident::GM | Ident::ST | Ident::SZ => Some(PropertyType::Root),
            Ident::AN | Ident::BR | Ident::BT | Ident::CP | Ident::DT | Ident::EV | Ident::GN | Ident::GC | Ident::ON | Ident::OT | Ident::PB | Ident::PC | Ident::PW | Ident::RE | Ident::RO | Ident::RU | Ident::SO | Ident::TM | Ident::US | Ident::WR | Ident::WT | Ident::HA | Ident::KM => Some(PropertyType::GameInfo),
            Ident::DD | Ident::PM | Ident::VW => Some(PropertyType::Inherit),
            _ => None,
        }
    }
}

/// The identifier of the catalog that `s` spells, if any.
pub open spec fn ident_of(s: Seq<char>) -> Option<Ident> {
    if s.len() == 1 {
        match s[0] {
            'B' => Some(Ident::B),
            'W' => Some(Ident::W),
            'C' => Some(Ident::C),
            'N' => Some(Ident::N),
            'V' => Some(Ident::V),
            _ => None,
        }
    } else if s.len() == 2 {
        match (s[0], s[1]) {
            ('K', 'O') => Some(Ident::KO),
            ('M', 'N') => Some(Ident::MN),
            ('A', 'B') => Some(Ident::AB),
            ('A', 'E') => Some(Ident::AE),
            ('A', 'W') => Some(Ident::AW),
            ('P', 'L') => Some(Ident::PL),
            ('D', 'M') => Some(Ident::DM),
            ('G', 'B') => Some(Ident::GB),
            ('G', 'W') => Some(Ident::GW),
            ('H', 'O') => Some(Ident::HO),
            ('U', 'C') => Some(Ident::UC),
            ('B', 'M') => Some(Ident::BM),
            ('D', 'O') => Some(Ident::DO),
            ('I', 'T') => Some(Ident::IT),
            ('T', 'E') => Some(Ident::TE),
            ('A', 'R') => Some(Ident::AR),
            ('C', 'R') => Some(Ident::CR),
            ('D', 'D') => Some(Ident::DD),
            ('L', 'B') => Some(Ident::LB),
            ('L', 'N') => Some(Ident::LN),
            ('M', 'A') => Some(Ident::MA),
            ('S', 'L') => Some(Ident::SL),
            ('S', 'Q') => Some(Ident::SQ),
            ('T', 'R') => Some(Ident::TR),
            ('A', 'P') => Some(Ident::AP),
            ('C', 'A') => Some(Ident::CA),
            ('F', 'F') => Some(Ident::FF),
            ('G', 'M') => Some(Ident::GM),
            ('S', 'T') => Some(Ident::ST),
            ('S', 'Z') => Some(Ident::SZ),
            ('A', 'N') => Some(Ident::AN),
            ('B', 'R') => Some(Ident::BR),
            ('B', 'T') => Some(Ident::BT),
            ('C', 'P') => Some(Ident::CP),
            ('D', 'T') => Some(Ident::DT),
            ('E', 'V') => Some(Ident::EV),
            ('G', 'N') => Some(Ident::GN),
            ('G', 'C') => Some(Ident::GC),
            ('O', 'N') => Some(Ident::ON),
            ('O', 'T') => Some(Ident::OT),
            ('P', 'B') => Some(Ident::PB),
            ('P', 'C') => Some(Ident::PC),
            ('P', 'W') => Some(Ident::PW),
            ('R', 'E') => Some(Ident::RE),
            ('R', 'O') => Some(Ident::RO),
            ('R', 'U') => Some(Ident::RU),
            ('S', 'O') => Some(Ident::SO),
            ('T', 'M') => Some(Ident::TM),
            ('U', 'S') => Some(Ident::US),
            ('W', 'R') => Some(Ident::WR),
            ('W', 'T') => Some(Ident::WT),
            ('B', 'L') => Some(Ident::BL),
            ('O', 'B') => Some(Ident::OB),
            ('O', 'W') => Some(Ident::OW),
            ('W', 'L') => Some(Ident::WL),
            ('F', 'G') => Some(Ident::FG),
            ('P', 'M') => Some(Ident::PM),
            ('V', 'W') => Some(Ident::VW),
            ('H', 'A') => Some(Ident::HA),
            ('K', 'M') => Some(Ident::KM),
            ('T', 'B') => Some(Ident::TB),
            ('T', 'W') => Some(Ident::TW),
            _ => None,
        }
    } else {
        None
    }
}

/// Looks an identifier up in the catalog.
pub fn ident_code(cs: &Vec<char>) -> (r: Option<Ident>)
    ensures
        r == ident_of(cs@),
{
    if cs.len() == 1 {
        match cs[0] {
            'B' => Some(Ident::B),
            'W' => Some(Ident::W),
            'C' => Some(Ident::C),
            'N' => Some(Ident::N),
            'V' => Some(Ident::V),
            _ => None,
        }
    } else if cs.len() == 2 {
        match (cs[0], cs[1]) {
            ('K', 'O') => Some(Ident::KO),
            ('M', 'N') => Some(Ident::MN),
            ('A', 'B') => Some(Ident::AB),
            ('A', 'E') => Some(Ident::AE),
            ('A', 'W') => Some(Ident::AW),
            ('P', 'L') => Some(Ident::PL),
            ('D', 'M') => Some(Ident::DM),
            ('G', 'B') => Some(Ident::GB),
            ('G', 'W') => Some(Ident::GW),
            ('H', 'O') => Some(Ident::HO),
            ('U', 'C') => Some(Ident::UC),
            ('B', 'M') => Some(Ident::BM),
            ('D', 'O') => Some(Ident::DO),
            ('I', 'T') => Some(Ident::IT),
            ('T', 'E') => Some(Ident::TE),
            ('A', 'R') => Some(Ident::AR),
            ('C', 'R') => Some(Ident::CR),
            ('D', 'D') => Some(Ident::DD),
            ('L', 'B') => Some(Ident::LB),
            ('L', 'N') => Some(Ident::LN),
            ('M', 'A') => Some(Ident::MA),
            ('S', 'L') => Some(Ident::SL),
            ('S', 'Q') => Some(Ident::SQ),
            ('T', 'R') => Some(Ident::TR),
            ('A', 'P') => Some(Ident::AP),
            ('C', 'A') => Some(Ident::CA),
            ('F', 'F') => Some(Ident::FF),
            ('G', 'M') => Some(Ident::GM),
            ('S', 'T') => Some(Ident::ST),
            ('S', 'Z') => Some(Ident::SZ),
            ('A', 'N') => Some(Ident::AN),
            ('B', 'R') => Some(Ident::BR),
            ('B', 'T') => Some(Ident::BT),
            ('C', 'P') => Some(Ident::CP),
            ('D', 'T') => Some(Ident::DT),
            ('E', 'V') => Some(Ident::EV),
            ('G', 'N') => Some(Ident::GN),
            ('G', 'C') => Some(Ident::GC),
            ('O', 'N') => Some(Ident::ON),
            ('O', 'T') => Some(Ident::OT),
            ('P', 'B') => Some(Ident::PB),
            ('P', 'C') => Some(Ident::PC),
            ('P', 'W') => Some(Ident::PW),
            ('R', 'E') => Some(Ident::RE),
            ('R', 'O') => Some(Ident::RO),
            ('R', 'U') => Some(Ident::RU),
            ('S', 'O') => Some(Ident::SO),
            ('T', 'M') => Some(Ident::TM),
            ('U', 'S') => Some(Ident::US),
            ('W', 'R') => Some(Ident::WR),
            ('W', 'T') => Some(Ident::WT),
            ('B', 'L') => Some(Ident::BL),
            ('O', 'B') => Some(Ident::OB),
            ('O', 'W') => Some(Ident::OW),
            ('W', 'L') => Some(Ident::WL),
            ('F', 'G') => Some(Ident::FG),
            ('P', 'M') => Some(Ident::PM),
            ('V', 'W') => Some(Ident::VW),
            ('H', 'A') => Some(Ident::HA),
            ('K', 'M') => Some(Ident::KM),
            ('T', 'B') => Some(Ident::TB),
            ('T', 'W') => Some(Ident::TW),
            _ => None,
        }
    } else {
        None
    }
}

/// The identifier that `s` spells in the catalog of a game: Go's, or the
/// general one, which lacks the Go properties.
pub open spec fn catalog_of(s: Seq<char>, go: bool) -> Option<Ident> {
    match ident_of(s) {
        Some(i) => if go || !i.go_only() {
            Some(i)
        } else {
            None
        },
        None => None,
    }
}

/// An SGF property: an identifier with its value, read as the catalog says.
/// `P` is the game's point (and stone) type, `M` its move type.
///
/// A known identifier whose values do not read as its type gives `Invalid`;
/// an identifier outside the catalog gives `Unknown`. Both keep the raw
/// values, so nothing of the document is lost.
#[derive(Debug, PartialEq)]
pub enum Prop<P, M> {
    B(M),
    KO,
    MN(i64),
    W(M),
    AB(Vec<P>),
    AE(Vec<P>),
    AW(Vec<P>),
    PL(Color),
    C(Text),
    DM(Double),
    GB(Double),
    GW(Double),
    HO(Double),
    N(SimpleText),
    UC(Double),
    V(Real),
    BM(Double),
    DO,
    IT,
    TE(Double),
    AR(Vec<(P, P)>),
    CR(Vec<P>),
    DD(Vec<P>),
    LB(Vec<(P, SimpleText)>),
    LN(Vec<(P, P)>),
    MA(Vec<P>),
    SL(Vec<P>),
    SQ(Vec<P>),
    TR(Vec<P>),
    AP((SimpleText, SimpleText)),
    CA(SimpleText),
    FF(i64),
    GM(i64),
    ST(i64),
    SZ((u8, u8)),
    AN(SimpleText),
    BR(SimpleText),
    BT(SimpleText),
    CP(SimpleText),
    DT(SimpleText),
    EV(SimpleText),
    GN(SimpleText),
    GC(Text),
    ON(SimpleText),
    OT(SimpleText),
    PB(SimpleText),
    PC(SimpleText),
    PW(SimpleText),
    RE(SimpleText),
    RO(SimpleText),
    RU(SimpleText),
    SO(SimpleText),
    TM(Real),
    US(SimpleText),
    WR(SimpleText),
    WT(SimpleText),
    BL(Real),
    OB(i64),
    OW(i64),
    WL(Real),
    FG(Option<(i64, SimpleText)>),
    PM(i64),
    VW(Vec<P>),
    HA(i64),
    KM(Real),
    TB(Vec<P>),
    TW(Vec<P>),
    Unknown(String, Vec<String>),
    Invalid(String, Vec<String>),
}

impl<P: FromCompressedList, M: FromSgf + ToSgf> Prop<P, M> {
    /// The catalog identifier of a typed property.
    pub open spec fn spec_ident(&self) -> Option<Ident> {
        match self {
            Prop::B(_) => Some(Ident::B),
            Prop::KO => Some(Ident::KO),
            Prop::MN(_) => Some(Ident::MN),
            Prop::W(_) => Some(Ident::W),
            Prop::AB(_) => Some(Ident::AB),
            Prop::AE(_) => Some(Ident::AE),
            Prop::AW(_) => Some(Ident::AW),
            Prop::PL(_) => Some(Ident::PL),
            Prop::C(_) => Some(Ident::C),
            Prop::DM(_) => Some(Ident::DM),
            Prop::GB(_) => Some(Ident::GB),
            Prop::GW(_) => Some(Ident::GW),
            Prop::HO(_) => Some(Ident::HO),
            Prop::N(_) => Some(Ident::N),
            Prop::UC(_) => Some(Ident::UC),
            Prop::V(_) => Some(Ident::V),
            Prop::BM(_) => Some(Ident::BM),
            Prop::DO => Some(Ident::DO),
            Prop::IT => Some(Ident::IT),
            Prop::TE(_) => Some(Ident::TE),
            Prop::AR(_) => Some(Ident::AR),
            Prop::CR(_) => Some(Ident::CR),
            Prop::DD(_) => Some(Ident::DD),
            Prop::LB(_) => Some(Ident::LB),
            Prop::LN(_) => Some(Ident::LN),
            Prop::MA(_) => Some(Ident::MA),
            Prop::SL(_) => Some(Ident::SL),
            Prop::SQ(_) => Some(Ident::SQ),
            Prop::TR(_) => Some(Ident::TR),
            Prop::AP(_) => Some(Ident::AP),
            Prop::CA(_) => Some(Ident::CA),
            Prop::FF(_) => Some(Ident::FF),
            Prop::GM(_) => Some(Ident::GM),
            Prop::ST(_) => Some(Ident::ST),
            Prop::SZ(_) => Some(Ident::SZ),
            Prop::AN(_) => Some(Ident::AN),
            Prop::BR(_) => Some(Ident::BR),
            Prop::BT(_) => Some(Ident::BT),
            Prop::CP(_) => Some(Ident::CP),
            Prop::DT(_) => Some(Ident::DT),
            Prop::EV(_) => Some(Ident::EV),
            Prop::GN(_) => Some(Ident::GN),
            Prop::GC(_) => Some(Ident::GC),
            Prop::ON(_) => Some(Ident::ON),
            Prop::OT(_) => Some(Ident::OT),
            Prop::PB(_) => Some(Ident::PB),
            Prop::PC(_) => Some(Ident::PC),
            Prop::PW(_) => Some(Ident::PW),
            Prop::RE(_) => Some(Ident::RE),
            Prop::RO(_) => Some(Ident::RO),
            Prop::RU(_) => Some(Ident::RU),
            Prop::SO(_) => Some(Ident::SO),
            Prop::TM(_) => Some(Ident::TM),
            Prop::US(_) => Some(Ident::US),
            Prop::WR(_) => Some(Ident::WR),
            Prop::WT(_) => Some(Ident::WT),
            Prop::BL(_) => Some(Ident::BL),
            Prop::OB(_) => Some(Ident::OB),
            Prop::OW(_) => Some(Ident::OW),
            Prop::WL(_) => Some(Ident::WL),
            Prop::FG(_) => Some(Ident::FG),
            Prop::PM(_) => Some(Ident::PM),
            Prop::VW(_) => Some(Ident::VW),
            Prop::HA(_) => Some(Ident::HA),
            Prop::KM(_) => Some(Ident::KM),
            Prop::TB(_) => Some(Ident::TB),
            Prop::TW(_) => Some(Ident::TW),
            Prop::Unknown(..) | Prop::Invalid(..) => None,
        }
    }

    /// The property's identifier text.
    pub open spec fn id_text(&self) -> Seq<char> {
        match self {
            Prop::Unknown(id, _) | Prop::Invalid(id, _) => id@,
            _ => self.spec_ident()->0.text(),
        }
    }

    /// The property's category; none for `Unknown` and `Invalid`.
    pub open spec fn category(&self) -> Option<PropertyType> {
        match self.spec_ident() {
            Some(i) => i.kind(),
            None => None,
        }
    }

    /// Whether the raw values `vals` read as a value for identifier `i`.
    pub open spec fn accepts(i: Ident, vals: Seq<Seq<char>>) -> bool {
        match i {
            Ident::B => single_parse::<M>(vals) is Some,
            Ident::KO => is_empty_value(vals),
            Ident::MN => single_parse::<i64>(vals) is Some,
            Ident::W => single_parse::<M>(vals) is Some,
            Ident::AB => list_points::<P>(vals) is Some,
            Ident::AE => list_points::<P>(vals) is Some,
            Ident::AW => list_points::<P>(vals) is Some,
            Ident::PL => single_parse::<Color>(vals) is Some,
            Ident::C => single_parse::<Text>(vals) is Some,
            Ident::DM => single_parse::<Double>(vals) is Some,
            Ident::GB => single_parse::<Double>(vals) is Some,
            Ident::GW => single_parse::<Double>(vals) is Some,
            Ident::HO => single_parse::<Double>(vals) is Some,
            Ident::N => single_parse::<SimpleText>(vals) is Some,
            Ident::UC => single_parse::<Double>(vals) is Some,
            Ident::V => single_parse::<Real>(vals) is Some,
            Ident::BM => single_parse::<Double>(vals) is Some,
            Ident::DO => is_empty_value(vals),
            Ident::IT => is_empty_value(vals),
            Ident::TE => single_parse::<Double>(vals) is Some,
            Ident::AR => composed_pairs::<P>(vals) is Some,
            Ident::CR => list_points::<P>(vals) is Some,
            Ident::DD => elist_points::<P>(vals) is Some,
            Ident::LB => labels_parse::<P>(vals) is Some,
            Ident::LN => composed_pairs::<P>(vals) is Some,
            Ident::MA => list_points::<P>(vals) is Some,
            Ident::SL => list_points::<P>(vals) is Some,
            Ident::SQ => list_points::<P>(vals) is Some,
            Ident::TR => list_points::<P>(vals) is Some,
            Ident::AP => single_tuple::<SimpleText, SimpleText>(vals) is Some,
            Ident::CA => single_parse::<SimpleText>(vals) is Some,
            Ident::FF => match single_parse::<i64>(vals) { Some(x) => 0 <= x && x <= 4, None => false },
            Ident::GM => single_parse::<i64>(vals) is Some,
            Ident::ST => match single_parse::<i64>(vals) { Some(x) => 0 <= x && x <= 3, None => false },
            Ident::SZ => size_parse(vals) is Some,
            Ident::AN => single_parse::<SimpleText>(vals) is Some,
            Ident::BR => single_parse::<SimpleText>(vals) is Some,
            Ident::BT => single_parse::<SimpleText>(vals) is Some,
            Ident::CP => single_parse::<SimpleText>(vals) is Some,
            Ident::DT => single_parse::<SimpleText>(vals) is Some,
            Ident::EV => single_parse::<SimpleText>(vals) is Some,
            Ident::GN => single_parse::<SimpleText>(vals) is Some,
            Ident::GC => single_parse::<Text>(vals) is Some,
            Ident::ON => single_parse::<SimpleText>(vals) is Some,
            Ident::OT => single_parse::<SimpleText>(vals) is Some,
            Ident::PB => single_parse::<SimpleText>(vals) is Some,
            Ident::PC => single_parse::<SimpleText>(vals) is Some,
            Ident::PW => single_parse::<SimpleText>(vals) is Some,
            Ident::RE => single_parse::<SimpleText>(vals) is Some,
            Ident::RO => single_parse::<SimpleText>(vals) is Some,
            Ident::RU => single_parse::<SimpleText>(vals) is Some,
            Ident::SO => single_parse::<SimpleText>(vals) is Some,
            Ident::TM => single_parse::<Real>(vals) is Some,
            Ident::US => single_parse::<SimpleText>(vals) is Some,
            Ident::WR => single_parse::<SimpleText>(vals) is Some,
            Ident::WT => single_parse::<SimpleText>(vals) is Some,
            Ident::BL => single_parse::<Real>(vals) is Some,
            Ident::OB => single_parse::<i64>(vals) is Some,
            Ident::OW => single_parse::<i64>(vals) is Some,
            Ident::WL => single_parse::<Real>(vals) is Some,
            Ident::FG => figure_parse(vals) is Some,
            Ident::PM => match single_parse::<i64>(vals) { Some(x) => 1 <= x && x <= 2, None => false },
            Ident::VW => elist_points::<P>(vals) is Some,
            Ident::HA => match single_parse::<i64>(vals) { Some(x) => 2 <= x, None => false },
            Ident::KM => single_parse::<Real>(vals) is Some,
            Ident::TB => elist_points::<P>(vals) is Some,
            Ident::TW => elist_points::<P>(vals) is Some,
        }
    }

    /// Whether this property's value is what `vals` reads as.
    pub open spec fn value_from(&self, vals: Seq<Seq<char>>) -> bool {
        match self {
            Prop::B(x) => single_parse::<M>(vals) == Some(x@),
            Prop::KO => is_empty_value(vals),
            Prop::MN(x) => single_parse::<i64>(vals) == Some(*x),
            Prop::W(x) => single_parse::<M>(vals) == Some(x@),
            Prop::AB(x) => list_points::<P>(vals) == Some(views(x@)),
            Prop::AE(x) => list_points::<P>(vals) == Some(views(x@)),
            Prop::AW(x) => list_points::<P>(vals) == Some(views(x@)),
            Prop::PL(x) => single_parse::<Color>(vals) == Some(x@),
            Prop::C(x) => single_parse::<Text>(vals) == Some(x@),
            Prop::DM(x) => single_parse::<Double>(vals) == Some(x@),
            Prop::GB(x) => single_parse::<Double>(vals) == Some(x@),
            Prop::GW(x) => single_parse::<Double>(vals) == Some(x@),
            Prop::HO(x) => single_parse::<Double>(vals) == Some(x@),
            Prop::N(x) => single_parse::<SimpleText>(vals) == Some(x@),
            Prop::UC(x) => single_parse::<Double>(vals) == Some(x@),
            Prop::V(x) => single_parse::<Real>(vals) == Some(x@),
            Prop::BM(x) => single_parse::<Double>(vals) == Some(x@),
            Prop::DO => is_empty_value(vals),
            Prop::IT => is_empty_value(vals),
            Prop::TE(x) => single_parse::<Double>(vals) == Some(x@),
            Prop::AR(x) => composed_pairs::<P>(vals) == Some(views(x@)),
            Prop::CR(x) => list_points::<P>(vals) == Some(views(x@)),
            Prop::DD(x) => elist_points::<P>(vals) == Some(views(x@)),
            Prop::LB(x) => labels_parse::<P>(vals) == Some(views(x@)),
            Prop::LN(x) => composed_pairs::<P>(vals) == Some(views(x@)),
            Prop::MA(x) => list_points::<P>(vals) == Some(views(x@)),
            Prop::SL(x) => list_points::<P>(vals) == Some(views(x@)),
            Prop::SQ(x) => list_points::<P>(vals) == Some(views(x@)),
            Prop::TR(x) => list_points::<P>(vals) == Some(views(x@)),
            Prop::AP(x) => single_tuple::<SimpleText, SimpleText>(vals) == Some(x@),
            Prop::CA(x) => single_parse::<SimpleText>(vals) == Some(x@),
            Prop::FF(x) => single_parse::<i64>(vals) == Some(*x),
            Prop::GM(x) => single_parse::<i64>(vals) == Some(*x),
            Prop::ST(x) => single_parse::<i64>(vals) == Some(*x),
            Prop::SZ(x) => size_parse(vals) == Some(*x),
            Prop::AN(x) => single_parse::<SimpleText>(vals) == Some(x@),
            Prop::BR(x) => single_parse::<SimpleText>(vals) == Some(x@),
            Prop::BT(x) => single_parse::<SimpleText>(vals) == Some(x@),
            Prop::CP(x) => single_parse::<SimpleText>(vals) == Some(x@),
            Prop::DT(x) => single_parse::<SimpleText>(vals) == Some(x@),
            Prop::EV(x) => single_parse::<SimpleText>(vals) == Some(x@),
            Prop::GN(x) => single_parse::<SimpleText>(vals) == Some(x@),
            Prop::GC(x) => single_parse::<Text>(vals) == Some(x@),
            Prop::ON(x) => single_parse::<SimpleText>(vals) == Some(x@),
            Prop::OT(x) => single_parse::<SimpleText>(vals) == Some(x@),
            Prop::PB(x) => single_parse::<SimpleText>(vals) == Some(x@),
            Prop::PC(x) => single_parse::<SimpleText>(vals) == Some(x@),
            Prop::PW(x) => single_parse::<SimpleText>(vals) == Some(x@),
            Prop::RE(x) => single_parse::<SimpleText>(vals) == Some(x@),
            Prop::RO(x) => single_parse::<SimpleText>(vals) == Some(x@),
            Prop::RU(x) => single_parse::<SimpleText>(vals) == Some(x@),
            Prop::SO(x) => single_parse::<SimpleText>(vals) == Some(x@),
            Prop::TM(x) => single_parse::<Real>(vals) == Some(x@),
            Prop::US(x) => single_parse::<SimpleText>(vals) == Some(x@),
            Prop::WR(x) => single_parse::<SimpleText>(vals) == Some(x@),
            Prop::WT(x) => single_parse::<SimpleText>(vals) == Some(x@),
            Prop::BL(x) => single_parse::<Real>(vals) == Some(x@),
            Prop::OB(x) => single_parse::<i64>(vals) == Some(*x),
            Prop::OW(x) => single_parse::<i64>(vals) == Some(*x),
            Prop::WL(x) => single_parse::<Real>(vals) == Some(x@),
            Prop::FG(x) => figure_parse(vals) == Some(match x { Some(p) => Some(p@), None => None }),
            Prop::PM(x) => single_parse::<i64>(vals) == Some(*x),
            Prop::VW(x) => elist_points::<P>(vals) == Some(views(x@)),
            Prop::HA(x) => single_parse::<i64>(vals) == Some(*x),
            Prop::KM(x) => single_parse::<Real>(vals) == Some(x@),
            Prop::TB(x) => elist_points::<P>(vals) == Some(views(x@)),
            Prop::TW(x) => elist_points::<P>(vals) == Some(views(x@)),
            Prop::Unknown(_, v) | Prop::Invalid(_, v) => raw_view(v@) == vals,
        }
    }

    /// Whether `p` is the property that identifier `id` with raw values
    /// `vals` reads as, in Go's catalog (`go`) or in the general one.
    pub open spec fn parsed_from(id: Seq<char>, vals: Seq<Seq<char>>, p: Self, go: bool) -> bool {
        match catalog_of(id, go) {
            None => match p {
                Prop::Unknown(i, v) => i@ == id && raw_view(v@) == vals,
                _ => false,
            },
            Some(i) => if Self::accepts(i, vals) {
                p.spec_ident() == Some(i) && p.value_from(vals)
            } else {
                match p {
                    Prop::Invalid(n, v) => n@ == id && raw_view(v@) == vals,
                    _ => false,
                }
            },
        }
    }

    /// The text of the property's value, its raw values joined by `][`.
    pub open spec fn value_text(&self) -> Seq<char> {
        match self {
            Prop::B(x) => <M as ToSgf>::sgf_text(x@),
            Prop::KO => Seq::empty(),
            Prop::MN(x) => <i64 as ToSgf>::sgf_text(x@),
            Prop::W(x) => <M as ToSgf>::sgf_text(x@),
            Prop::AB(x) => <Vec<P> as ToSgf>::sgf_text(x@),
            Prop::AE(x) => <Vec<P> as ToSgf>::sgf_text(x@),
            Prop::AW(x) => <Vec<P> as ToSgf>::sgf_text(x@),
            Prop::PL(x) => <Color as ToSgf>::sgf_text(x@),
            Prop::C(x) => <Text as ToSgf>::sgf_text(x@),
            Prop::DM(x) => <Double as ToSgf>::sgf_text(x@),
            Prop::GB(x) => <Double as ToSgf>::sgf_text(x@),
            Prop::GW(x) => <Double as ToSgf>::sgf_text(x@),
            Prop::HO(x) => <Double as ToSgf>::sgf_text(x@),
            Prop::N(x) => <SimpleText as ToSgf>::sgf_text(x@),
            Prop::UC(x) => <Double as ToSgf>::sgf_text(x@),
            Prop::V(x) => <Real as ToSgf>::sgf_text(x@),
            Prop::BM(x) => <Double as ToSgf>::sgf_text(x@),
            Prop::DO => Seq::empty(),
            Prop::IT => Seq::empty(),
            Prop::TE(x) => <Double as ToSgf>::sgf_text(x@),
            Prop::AR(x) => <Vec<(P, P)> as ToSgf>::sgf_text(x@),
            Prop::CR(x) => <Vec<P> as ToSgf>::sgf_text(x@),
            Prop::DD(x) => <Vec<P> as ToSgf>::sgf_text(x@),
            Prop::LB(x) => <Vec<(P, SimpleText)> as ToSgf>::sgf_text(x@),
            Prop::LN(x) => <Vec<(P, P)> as ToSgf>::sgf_text(x@),
            Prop::MA(x) => <Vec<P> as ToSgf>::sgf_text(x@),
            Prop::SL(x) => <Vec<P> as ToSgf>::sgf_text(x@),
            Prop::SQ(x) => <Vec<P> as ToSgf>::sgf_text(x@),
            Prop::TR(x) => <Vec<P> as ToSgf>::sgf_text(x@),
            Prop::AP(x) => <(SimpleText, SimpleText) as ToSgf>::sgf_text(x@),
            Prop::CA(x) => <SimpleText as ToSgf>::sgf_text(x@),
            Prop::FF(x) => <i64 as ToSgf>::sgf_text(x@),
            Prop::GM(x) => <i64 as ToSgf>::sgf_text(x@),
            Prop::ST(x) => <i64 as ToSgf>::sgf_text(x@),
            Prop::SZ(x) => <(u8, u8) as ToSgf>::sgf_text(x@),
            Prop::AN(x) => <SimpleText as ToSgf>::sgf_text(x@),
            Prop::BR(x) => <SimpleText as ToSgf>::sgf_text(x@),
            Prop::BT(x) => <SimpleText as ToSgf>::sgf_text(x@),
            Prop::CP(x) => <SimpleText as ToSgf>::sgf_text(x@),
            Prop::DT(x) => <SimpleText as ToSgf>::sgf_text(x@),
            Prop::EV(x) => <SimpleText as ToSgf>::sgf_text(x@),
            Prop::GN(x) => <SimpleText as ToSgf>::sgf_text(x@),
            Prop::GC(x) => <Text as ToSgf>::sgf_text(x@),
            Prop::ON(x) => <SimpleText as ToSgf>::sgf_text(x@),
            Prop::OT(x) => <SimpleText as ToSgf>::sgf_text(x@),
            Prop::PB(x) => <SimpleText as ToSgf>::sgf_text(x@),
            Prop::PC(x) => <SimpleText as ToSgf>::sgf_text(x@),
            Prop::PW(x) => <SimpleText as ToSgf>::sgf_text(x@),
            Prop::RE(x) => <SimpleText as ToSgf>::sgf_text(x@),
            Prop::RO(x) => <SimpleText as ToSgf>::sgf_text(x@),
            Prop::RU(x) => <SimpleText as ToSgf>::sgf_text(x@),
            Prop::SO(x) => <SimpleText as ToSgf>::sgf_text(x@),
            Prop::TM(x) => <Real as ToSgf>::sgf_text(x@),
            Prop::US(x) => <SimpleText as ToSgf>::sgf_text(x@),
            Prop::WR(x) => <SimpleText as ToSgf>::sgf_text(x@),
            Prop::WT(x) => <SimpleText as ToSgf>::sgf_text(x@),
            Prop::BL(x) => <Real as ToSgf>::sgf_text(x@),
            Prop::OB(x) => <i64 as ToSgf>::sgf_text(x@),
            Prop::OW(x) => <i64 as ToSgf>::sgf_text(x@),
            Prop::WL(x) => <Real as ToSgf>::sgf_text(x@),
            Prop::FG(x) => <Option<(i64, SimpleText)> as ToSgf>::sgf_text(x@),
            Prop::PM(x) => <i64 as ToSgf>::sgf_text(x@),
            Prop::VW(x) => <Vec<P> as ToSgf>::sgf_text(x@),
            Prop::HA(x) => <i64 as ToSgf>::sgf_text(x@),
            Prop::KM(x) => <Real as ToSgf>::sgf_text(x@),
            Prop::TB(x) => <Vec<P> as ToSgf>::sgf_text(x@),
            Prop::TW(x) => <Vec<P> as ToSgf>::sgf_text(x@),
            Prop::Unknown(_, v) | Prop::Invalid(_, v) => <Vec<String> as ToSgf>::sgf_text(v@),
        }
    }

    /// The SGF text of the property: `ID[value]`.
    pub open spec fn prop_text(&self) -> Seq<char> {
        self.id_text() + seq!['['] + self.value_text() + seq![']']
    }

    /// Reads a property in the catalog of Go (`go`) or in the general one.
    pub fn parse_prop(identifier: String, values: Vec<String>, go: bool) -> (r: Self)
        ensures
            Self::parsed_from(identifier@, raw_view(values@), r, go),
    {
        let cs = chars_of(identifier.as_str());
        let code = match ident_code(&cs) {
            Some(i) => if go || !(matches!(i, Ident::HA | Ident::KM | Ident::TB | Ident::TW)) {
                Some(i)
            } else {
                None
            },
            None => None,
        };
        assert(code == catalog_of(identifier@, go));
        let ghost vals = raw_view(values@);
        match code {
            None => Prop::Unknown(identifier, values),
            Some(i) => match i {
                Ident::B => match parse_single_value::<M>(&values) {
                    Ok(x) => Prop::B(x),
                    Err(_) => Prop::Invalid(identifier, values),
                },
                Ident::KO => match verify_empty(&values) {
                    Ok(()) => Prop::KO,
                    Err(_) => Prop::Invalid(identifier, values),
                },
                Ident::MN => match parse_single_value::<i64>(&values) {
                    Ok(x) => Prop::MN(x),
                    Err(_) => Prop::Invalid(identifier, values),
                },
                Ident::W => match parse_single_value::<M>(&values) {
                    Ok(x) => Prop::W(x),
                    Err(_) => Prop::Invalid(identifier, values),
                },
                Ident::AB => match parse_list::<P>(&values) {
                    Ok(x) => Prop::AB(x),
                    Err(_) => Prop::Invalid(identifier, values),
                },
                Ident::AE => match parse_list::<P>(&values) {
                    Ok(x) => Prop::AE(x),
                    Err(_) => Prop::Invalid(identifier, values),
                },
                Ident::AW => match parse_list::<P>(&values) {
                    Ok(x) => Prop::AW(x),
                    Err(_) => Prop::Invalid(identifier, values),
                },
                Ident::PL => match parse_single_value::<Color>(&values) {
                    Ok(x) => Prop::PL(x),
                    Err(_) => Prop::Invalid(identifier, values),
                },
                Ident::C => match parse_single_value::<Text>(&values) {
                    Ok(x) => Prop::C(x),
                    Err(_) => Prop::Invalid(identifier, values),
                },
                Ident::DM => match parse_single_value::<Double>(&values) {
                    Ok(x) => Prop::DM(x),
                    Err(_) => Prop::Invalid(identifier, values),
                },
                Ident::GB => match parse_single_value::<Double>(&values) {
                    Ok(x) => Prop::GB(x),
                    Err(_) => Prop::Invalid(identifier, values),
                },
                Ident::GW => match parse_single_value::<Double>(&values) {
                    Ok(x) => Prop::GW(x),
                    Err(_) => Prop::Invalid(identifier, values),
                },
                Ident::HO => match parse_single_value::<Double>(&values) {
                    Ok(x) => Prop::HO(x),
                    Err(_) => Prop::Invalid(identifier, values),
                },
                Ident::N => match parse_single_value::<SimpleText>(&values) {
                    Ok(x) => Prop::N(x),
                    Err(_) => Prop::Invalid(identifier, values),
                },
                Ident::UC => match parse_single_value::<Double>(&values) {
                    Ok(x) => Prop::UC(x),
                    Err(_) => Prop::Invalid(identifier, values),
                },
                Ident::V => match parse_single_value::<Real>(&values) {
                    Ok(x) => Prop::V(x),
                    Err(_) => Prop::Invalid(identifier, values),
                },
                Ident::BM => match parse_single_value::<Double>(&values) {
                    Ok(x) => Prop::BM(x),
                    Err(_) => Prop::Invalid(identifier, values),
                },
                Ident::DO => match verify_empty(&values) {
                    Ok(()) => Prop::DO,
                    Err(_) => Prop::Invalid(identifier, values),
                },
                Ident::IT => match verify_empty(&values) {
                    Ok(()) => Prop::IT,
                    Err(_) => Prop::Invalid(identifier, values),
                },
                Ident::TE => match parse_single_value::<Double>(&values) {
                    Ok(x) => Prop::TE(x),
                    Err(_) => Prop::Invalid(identifier, values),
                },
                Ident::AR => match parse_list_composed::<P>(&values) {
                    Ok(x) => Prop::AR(x),
                    Err(_) => Prop::Invalid(identifier, values),
                },
                Ident::CR => match parse_list::<P>(&values) {
                    Ok(x) => Prop::CR(x),
                    Err(_) => Prop::Invalid(identifier, values),
                },
                Ident::DD => match parse_elist::<P>(&values) {
                    Ok(x) => Prop::DD(x),
                    Err(_) => Prop::Invalid(identifier, values),
                },
                Ident::LB => match parse_labels::<P>(&values) {
                    Ok(x) => Prop::LB(x),
                    Err(_) => Prop::Invalid(identifier, values),
                },
                Ident::LN => match parse_list_composed::<P>(&values) {
                    Ok(x) => Prop::LN(x),
                    Err(_) => Prop::Invalid(identifier, values),
                },
                Ident::MA => match parse_list::<P>(&values) {
                    Ok(x) => Prop::MA(x),
                    Err(_) => Prop::Invalid(identifier, values),
                },
                Ident::SL => match parse_list::<P>(&values) {
                    Ok(x) => Prop::SL(x),
                    Err(_) => Prop::Invalid(identifier, values),
                },
                Ident::SQ => match parse_list::<P>(&values) {
                    Ok(x) => Prop::SQ(x),
                    Err(_) => Prop::Invalid(identifier, values),
                },
                Ident::TR => match parse_list::<P>(&values) {
                    Ok(x) => Prop::TR(x),
                    Err(_) => Prop::Invalid(identifier, values),
                },
                Ident::AP => match parse_application(&values) {
                    Ok(x) => Prop::AP(x),
                    Err(_) => Prop::Invalid(identifier, values),
                },
                Ident::CA => match parse_single_value::<SimpleText>(&values) {
                    Ok(x) => Prop::CA(x),
                    Err(_) => Prop::Invalid(identifier, values),
                },
                Ident::FF => match parse_single_value::<i64>(&values) {
                    Ok(x) => if 0 <= x && x <= 4 {
                        Prop::FF(x)
                    } else {
                        Prop::Invalid(identifier, values)
                    },
                    Err(_) => Prop::Invalid(identifier, values),
                },
                Ident::GM => match parse_single_value::<i64>(&values) {
                    Ok(x) => Prop::GM(x),
                    Err(_) => Prop::Invalid(identifier, values),
                },
                Ident::ST => match parse_single_value::<i64>(&values) {
                    Ok(x) => if 0 <= x && x <= 3 {
                        Prop::ST(x)
                    } else {
                        Prop::Invalid(identifier, values)
                    },
                    Err(_) => Prop::Invalid(identifier, values),
                },
                Ident::SZ => match parse_size(&values) {
                    Ok(x) => Prop::SZ(x),
                    Err(_) => Prop::Invalid(identifier, values),
                },
                Ident::AN => match parse_single_value::<SimpleText>(&values) {
                    Ok(x) => Prop::AN(x),
                    Err(_) => Prop::Invalid(identifier, values),
                },
                Ident::BR => match parse_single_value::<SimpleText>(&values) {
                    Ok(x) => Prop::BR(x),
                    Err(_) => Prop::Invalid(identifier, values),
                },
                Ident::BT => match parse_single_value::<SimpleText>(&values) {
                    Ok(x) => Prop::BT(x),
                    Err(_) => Prop::Invalid(identifier, values),
                },
                Ident::CP => match parse_single_value::<SimpleText>(&values) {
                    Ok(x) => Prop::CP(x),
                    Err(_) => Prop::Invalid(identifier, values),
                },
                Ident::DT => match parse_single_value::<SimpleText>(&values) {
                    Ok(x) => Prop::DT(x),
                    Err(_) => Prop::Invalid(identifier, values),
                },
                Ident::EV => match parse_single_value::<SimpleText>(&values) {
                    Ok(x) => Prop::EV(x),
                    Err(_) => Prop::Invalid(identifier, values),
                },
                Ident::GN => match parse_single_value::<SimpleText>(&values) {
                    Ok(x) => Prop::GN(x),
                    Err(_) => Prop::Invalid(identifier, values),
                },
                Ident::GC => match parse_single_value::<Text>(&values) {
                    Ok(x) => Prop::GC(x),
                    Err(_) => Prop::Invalid(identifier, values),
                },
                Ident::ON => match parse_single_value::<SimpleText>(&values) {
                    Ok(x) => Prop::ON(x),
                    Err(_) => Prop::Invalid(identifier, values),
                },
                Ident::OT => match parse_single_value::<SimpleText>(&values) {
                    Ok(x) => Prop::OT(x),
                    Err(_) => Prop::Invalid(identifier, values),
                },
                Ident::PB => match parse_single_value::<SimpleText>(&values) {
                    Ok(x) => Prop::PB(x),
                    Err(_) => Prop::Invalid(identifier, values),
                },
                Ident::PC => match parse_single_value::<SimpleText>(&values) {
                    Ok(x) => Prop::PC(x),
                    Err(_) => Prop::Invalid(identifier, values),
                },
                Ident::PW => match parse_single_value::<SimpleText>(&values) {
                    Ok(x) => Prop::PW(x),
                    Err(_) => Prop::Invalid(identifier, values),
                },
                Ident::RE => match parse_single_value::<SimpleText>(&values) {
                    Ok(x) => Prop::RE(x),
                    Err(_) => Prop::Invalid(identifier, values),
                },
                Ident::RO => match parse_single_value::<SimpleText>(&values) {
                    Ok(x) => Prop::RO(x),
                    Err(_) => Prop::Invalid(identifier, values),
                },
                Ident::RU => match parse_single_value::<SimpleText>(&values) {
                    Ok(x) => Prop::RU(x),
                    Err(_) => Prop::Invalid(identifier, values),
                },
                Ident::SO => match parse_single_value::<SimpleText>(&values) {
                    Ok(x) => Prop::SO(x),
                    Err(_) => Prop::Invalid(identifier, values),
                },
                Ident::TM => match parse_single_value::<Real>(&values) {
                    Ok(x) => Prop::TM(x),
                    Err(_) => Prop::Invalid(identifier, values),
                },
                Ident::US => match parse_single_value::<SimpleText>(&values) {
                    Ok(x) => Prop::US(x),
                    Err(_) => Prop::Invalid(identifier, values),
                },
                Ident::WR => match parse_single_value::<SimpleText>(&values) {
                    Ok(x) => Prop::WR(x),
                    Err(_) => Prop::Invalid(identifier, values),
                },
                Ident::WT => match parse_single_value::<SimpleText>(&values) {
                    Ok(x) => Prop::WT(x),
                    Err(_) => Prop::Invalid(identifier, values),
                },
                Ident::BL => match parse_single_value::<Real>(&values) {
                    Ok(x) => Prop::BL(x),
                    Err(_) => Prop::Invalid(identifier, values),
                },
                Ident::OB => match parse_single_value::<i64>(&values) {
                    Ok(x) => Prop::OB(x),
                    Err(_) => Prop::Invalid(identifier, values),
                },
                Ident::OW => match parse_single_value::<i64>(&values) {
                    Ok(x) => Prop::OW(x),
                    Err(_) => Prop::Invalid(identifier, values),
                },
                Ident::WL => match parse_single_value::<Real>(&values) {
                    Ok(x) => Prop::WL(x),
                    Err(_) => Prop::Invalid(identifier, values),
                },
                Ident::FG => match parse_figure(&values) {
                    Ok(x) => Prop::FG(x),
                    Err(_) => Prop::Invalid(identifier, values),
                },
                Ident::PM => match parse_single_value::<i64>(&values) {
                    Ok(x) => if 1 <= x && x <= 2 {
                        Prop::PM(x)
                    } else {
                        Prop::Invalid(identifier, values)
                    },
                    Err(_) => Prop::Invalid(identifier, values),
                },
                Ident::VW => match parse_elist::<P>(&values) {
                    Ok(x) => Prop::VW(x),
                    Err(_) => Prop::Invalid(identifier, values),
                },
                Ident::HA => match parse_single_value::<i64>(&values) {
                    Ok(x) => if 2 <= x {
                        Prop::HA(x)
                    } else {
                        Prop::Invalid(identifier, values)
                    },
                    Err(_) => Prop::Invalid(identifier, values),
                },
                Ident::KM => match parse_single_value::<Real>(&values) {
                    Ok(x) => Prop::KM(x),
                    Err(_) => Prop::Invalid(identifier, values),
                },
                Ident::TB => match parse_elist::<P>(&values) {
                    Ok(x) => Prop::TB(x),
                    Err(_) => Prop::Invalid(identifier, values),
                },
                Ident::TW => match parse_elist::<P>(&values) {
                    Ok(x) => Prop::TW(x),
                    Err(_) => Prop::Invalid(identifier, values),
                },
            },
        }
    }

    /// The catalog identifier of a typed property.
    pub fn ident(&self) -> (r: Option<Ident>)
        ensures
            r == self.spec_ident(),
    {
        match self {
            Prop::B(_) => Some(Ident::B),
            Prop::KO => Some(Ident::KO),
            Prop::MN(_) => Some(Ident::MN),
            Prop::W(_) => Some(Ident::W),
            Prop::AB(_) => Some(Ident::AB),
            Prop::AE(_) => Some(Ident::AE),
            Prop::AW(_) => Some(Ident::AW),
            Prop::PL(_) => Some(Ident::PL),
            Prop::C(_) => Some(Ident::C),
            Prop::DM(_) => Some(Ident::DM),
            Prop::GB(_) => Some(Ident::GB),
            Prop::GW(_) => Some(Ident::GW),
            Prop::HO(_) => Some(Ident::HO),
            Prop::N(_) => Some(Ident::N),
            Prop::UC(_) => Some(Ident::UC),
            Prop::V(_) => Some(Ident::V),
            Prop::BM(_) => Some(Ident::BM),
            Prop::DO => Some(Ident::DO),
            Prop::IT => Some(Ident::IT),
            Prop::TE(_) => Some(Ident::TE),
            Prop::AR(_) => Some(Ident::AR),
            Prop::CR(_) => Some(Ident::CR),
            Prop::DD(_) => Some(Ident::DD),
            Prop::LB(_) => Some(Ident::LB),
            Prop::LN(_) => Some(Ident::LN),
            Prop::MA(_) => Some(Ident::MA),
            Prop::SL(_) => Some(Ident::SL),
            Prop::SQ(_) => Some(Ident::SQ),
            Prop::TR(_) => Some(Ident::TR),
            Prop::AP(_) => Some(Ident::AP),
            Prop::CA(_) => Some(Ident::CA),
            Prop::FF(_) => Some(Ident::FF),
            Prop::GM(_) => Some(Ident::GM),
            Prop::ST(_) => Some(Ident::ST),
            Prop::SZ(_) => Some(Ident::SZ),
            Prop::AN(_) => Some(Ident::AN),
            Prop::BR(_) => Some(Ident::BR),
            Prop::BT(_) => Some(Ident::BT),
            Prop::CP(_) => Some(Ident::CP),
            Prop::DT(_) => Some(Ident::DT),
            Prop::EV(_) => Some(Ident::EV),
            Prop::GN(_) => Some(Ident::GN),
            Prop::GC(_) => Some(Ident::GC),
            Prop::ON(_) => Some(Ident::ON),
            Prop::OT(_) => Some(Ident::OT),
            Prop::PB(_) => Some(Ident::PB),
            Prop::PC(_) => Some(Ident::PC),
            Prop::PW(_) => Some(Ident::PW),
            Prop::RE(_) => Some(Ident::RE),
            Prop::RO(_) => Some(Ident::RO),
            Prop::RU(_) => Some(Ident::RU),
            Prop::SO(_) => Some(Ident::SO),
            Prop::TM(_) => Some(Ident::TM),
            Prop::US(_) => Some(Ident::US),
            Prop::WR(_) => Some(Ident::WR),
            Prop::WT(_) => Some(Ident::WT),
            Prop::BL(_) => Some(Ident::BL),
            Prop::OB(_) => Some(Ident::OB),
            Prop::OW(_) => Some(Ident::OW),
            Prop::WL(_) => Some(Ident::WL),
            Prop::FG(_) => Some(Ident::FG),
            Prop::PM(_) => Some(Ident::PM),
            Prop::VW(_) => Some(Ident::VW),
            Prop::HA(_) => Some(Ident::HA),
            Prop::KM(_) => Some(Ident::KM),
            Prop::TB(_) => Some(Ident::TB),
            Prop::TW(_) => Some(Ident::TW),
            Prop::Unknown(..) | Prop::Invalid(..) => None,
        }
    }

    /// Writes the property's identifier.
    pub fn identifier_string(&self) -> (r: String)
        ensures
            r@ == self.id_text(),
    {
        match self {
            Prop::Unknown(id, _) | Prop::Invalid(id, _) => owned(id.as_str()),
            _ => self.ident().unwrap().to_text(),
        }
    }

    /// The property's category.
    pub fn category_of(&self) -> (r: Option<PropertyType>)
        ensures
            r == self.category(),
    {
        match self.ident() {
            Some(i) => i.property_type(),
            None => None,
        }
    }

    /// Writes the property as SGF: `ID[value]`.
    pub fn text_string(&self) -> (r: String)
        ensures
            r@ == self.prop_text(),
    {
        let mut out = self.identifier_string();
        out.push('[');
        let v = self.value_string();
        push_all(&mut out, v.as_str());
        out.push(']');
        assert(out@ =~= self.prop_text());
        out
    }

    /// Writes the text of the property's value.
    pub fn value_string(&self) -> (r: String)
        ensures
            r@ == self.value_text(),
    {
        match self {
            Prop::B(x) => x.to_sgf(),
            Prop::KO => String::new(),
            Prop::MN(x) => x.to_sgf(),
            Prop::W(x) => x.to_sgf(),
            Prop::AB(x) => x.to_sgf(),
            Prop::AE(x) => x.to_sgf(),
            Prop::AW(x) => x.to_sgf(),
            Prop::PL(x) => x.to_sgf(),
            Prop::C(x) => x.to_sgf(),
            Prop::DM(x) => x.to_sgf(),
            Prop::GB(x) => x.to_sgf(),
            Prop::GW(x) => x.to_sgf(),
            Prop::HO(x) => x.to_sgf(),
            Prop::N(x) => x.to_sgf(),
            Prop::UC(x) => x.to_sgf(),
            Prop::V(x) => x.to_sgf(),
            Prop::BM(x) => x.to_sgf(),
            Prop::DO => String::new(),
            Prop::IT => String::new(),
            Prop::TE(x) => x.to_sgf(),
            Prop::AR(x) => x.to_sgf(),
            Prop::CR(x) => x.to_sgf(),
            Prop::DD(x) => x.to_sgf(),
            Prop::LB(x) => x.to_sgf(),
            Prop::LN(x) => x.to_sgf(),
            Prop::MA(x) => x.to_sgf(),
            Prop::SL(x) => x.to_sgf(),
            Prop::SQ(x) => x.to_sgf(),
            Prop::TR(x) => x.to_sgf(),
            Prop::AP(x) => x.to_sgf(),
            Prop::CA(x) => x.to_sgf(),
            Prop::FF(x) => x.to_sgf(),
            Prop::GM(x) => x.to_sgf(),
            Prop::ST(x) => x.to_sgf(),
            Prop::SZ(x) => x.to_sgf(),
            Prop::AN(x) => x.to_sgf(),
            Prop::BR(x) => x.to_sgf(),
            Prop::BT(x) => x.to_sgf(),
            Prop::CP(x) => x.to_sgf(),
            Prop::DT(x) => x.to_sgf(),
            Prop::EV(x) => x.to_sgf(),
            Prop::GN(x) => x.to_sgf(),
            Prop::GC(x) => x.to_sgf(),
            Prop::ON(x) => x.to_sgf(),
            Prop::OT(x) => x.to_sgf(),
            Prop::PB(x) => x.to_sgf(),
            Prop::PC(x) => x.to_sgf(),
            Prop::PW(x) => x.to_sgf(),
            Prop::RE(x) => x.to_sgf(),
            Prop::RO(x) => x.to_sgf(),
            Prop::RU(x) => x.to_sgf(),
            Prop::SO(x) => x.to_sgf(),
            Prop::TM(x) => x.to_sgf(),
            Prop::US(x) => x.to_sgf(),
            Prop::WR(x) => x.to_sgf(),
            Prop::WT(x) => x.to_sgf(),
            Prop::BL(x) => x.to_sgf(),
            Prop::OB(x) => x.to_sgf(),
            Prop::OW(x) => x.to_sgf(),
            Prop::WL(x) => x.to_sgf(),
            Prop::FG(x) => x.to_sgf(),
            Prop::PM(x) => x.to_sgf(),
            Prop::VW(x) => x.to_sgf(),
            Prop::HA(x) => x.to_sgf(),
            Prop::KM(x) => x.to_sgf(),
            Prop::TB(x) => x.to_sgf(),
            Prop::TW(x) => x.to_sgf(),
            Prop::Unknown(_, v) | Prop::Invalid(_, v) => v.to_sgf(),
        }
    }
}

impl<P: Clone, M: Clone> Clone for Prop<P, M> {
    fn clone(&self) -> Self {
        match self {
            Prop::B(x) => Prop::B(x.clone()),
            Prop::KO => Prop::KO,
            Prop::MN(x) => Prop::MN(x.clone()),
            Prop::W(x) => Prop::W(x.clone()),
            Prop::AB(x) => Prop::AB(x.clone()),
            Prop::AE(x) => Prop::AE(x.clone()),
            Prop::AW(x) => Prop::AW(x.clone()),
            Prop::PL(x) => Prop::PL(x.clone()),
            Prop::C(x) => Prop::C(x.clone()),
            Prop::DM(x) => Prop::DM(x.clone()),
            Prop::GB(x) => Prop::GB(x.clone()),
            Prop::GW(x) => Prop::GW(x.clone()),
            Prop::HO(x) => Prop::HO(x.clone()),
            Prop::N(x) => Prop::N(x.clone()),
            Prop::UC(x) => Prop::UC(x.clone()),
            Prop::V(x) => Prop::V(x.clone()),
            Prop::BM(x) => Prop::BM(x.clone()),
            Prop::DO => Prop::DO,
            Prop::IT => Prop::IT,
            Prop::TE(x) => Prop::TE(x.clone()),
            Prop::AR(x) => Prop::AR(x.clone()),
            Prop::CR(x) => Prop::CR(x.clone()),
            Prop::DD(x) => Prop::DD(x.clone()),
            Prop::LB(x) => Prop::LB(x.clone()),
            Prop::LN(x) => Prop::LN(x.clone()),
            Prop::MA(x) => Prop::MA(x.clone()),
            Prop::SL(x) => Prop::SL(x.clone()),
            Prop::SQ(x) => Prop::SQ(x.clone()),
            Prop::TR(x) => Prop::TR(x.clone()),
            Prop::AP(x) => Prop::AP((x.0.clone(), x.1.clone())),
            Prop::CA(x) => Prop::CA(x.clone()),
            Prop::FF(x) => Prop::FF(x.clone()),
            Prop::GM(x) => Prop::GM(x.clone()),
            Prop::ST(x) => Prop::ST(x.clone()),
            Prop::SZ(x) => Prop::SZ((x.0.clone(), x.1.clone())),
            Prop::AN(x) => Prop::AN(x.clone()),
            Prop::BR(x) => Prop::BR(x.clone()),
            Prop::BT(x) => Prop::BT(x.clone()),
            Prop::CP(x) => Prop::CP(x.clone()),
            Prop::DT(x) => Prop::DT(x.clone()),
            Prop::EV(x) => Prop::EV(x.clone()),
            Prop::GN(x) => Prop::GN(x.clone()),
            Prop::GC(x) => Prop::GC(x.clone()),
            Prop::ON(x) => Prop::ON(x.clone()),
            Prop::OT(x) => Prop::OT(x.clone()),
            Prop::PB(x) => Prop::PB(x.clone()),
            Prop::PC(x) => Prop::PC(x.clone()),
            Prop::PW(x) => Prop::PW(x.clone()),
            Prop::RE(x) => Prop::RE(x.clone()),
            Prop::RO(x) => Prop::RO(x.clone()),
            Prop::RU(x) => Prop::RU(x.clone()),
            Prop::SO(x) => Prop::SO(x.clone()),
            Prop::TM(x) => Prop::TM(x.clone()),
            Prop::US(x) => Prop::US(x.clone()),
            Prop::WR(x) => Prop::WR(x.clone()),
            Prop::WT(x) => Prop::WT(x.clone()),
            Prop::BL(x) => Prop::BL(x.clone()),
            Prop::OB(x) => Prop::OB(x.clone()),
            Prop::OW(x) => Prop::OW(x.clone()),
            Prop::WL(x) => Prop::WL(x.clone()),
            Prop::FG(x) => Prop::FG(match x { Some(p) => Some((p.0, p.1.clone())), None => None }),
            Prop::PM(x) => Prop::PM(x.clone()),
            Prop::VW(x) => Prop::VW(x.clone()),
            Prop::HA(x) => Prop::HA(x.clone()),
            Prop::KM(x) => Prop::KM(x.clone()),
            Prop::TB(x) => Prop::TB(x.clone()),
            Prop::TW(x) => Prop::TW(x.clone()),
            Prop::Unknown(i, v) => Prop::Unknown(i.clone(), v.clone()),
            Prop::Invalid(i, v) => Prop::Invalid(i.clone(), v.clone()),
        }
    }
}

} // verus!
