//! Display lines for ranked candidates, with optional symbol-kind glyphs.
use crate::rank::{CandidateView, ScoredCandidate};
use crate::text::{compare_text, folded, lemma_lex_cmp_antisym};
use ansi_term::Colour;
use vstd::prelude::*;

verus! {

/// The symbol kinds that have a glyph; `Other` stands for any other kind.
#[derive(Clone, Copy, Debug, PartialEq, Eq, Structural)]
pub enum Kind {
    Guide,
    Section,
    Function,
    Method,
    Class,
    Struct,
    Enum,
    Constant,
    Property,
    Macro,
    Interface,
    TypeAlias,
    Attribute,
    Event,
    Variable,
    Module,
    Constructor,
    Other,
}

/// The terminal colours that glyphs are painted in.
#[derive(Clone, Copy, Debug, PartialEq, Eq, Structural)]
pub enum Tint {
    Red,
    Green,
    Yellow,
    Blue,
    Purple,
    Cyan,
}

/// `kind` spells `word` up to ASCII case.
pub open spec fn spells(kind: Seq<char>, word: &str) -> bool {
    folded(kind) == folded(word@)
}

/// The kind that a kind string names, up to ASCII case.
pub open spec fn kind_of(k: Seq<char>) -> Kind {
    if spells(k, "guide") {
        Kind::Guide
    } else if spells(k, "section") {
        Kind::Section
    } else if spells(k, "function") {
        Kind::Function
    } else if spells(k, "method") {
        Kind::Method
    } else if spells(k, "class") {
        Kind::Class
    } else if spells(k, "struct") || spells(k, "_struct") {
        Kind::Struct
    } else if spells(k, "enum") {
        Kind::Enum
    } else if spells(k, "constant") {
        Kind::Constant
    } else if spells(k, "property") {
        Kind::Property
    } else if spells(k, "macro") {
        Kind::Macro
    } else if spells(k, "interface") {
        Kind::Interface
    } else if spells(k, "typedef") || spells(k, "type") {
        Kind::TypeAlias
    } else if spells(k, "attribute") {
        Kind::Attribute
    } else if spells(k, "event") {
        Kind::Event
    } else if spells(k, "variable") {
        Kind::Variable
    } else if spells(k, "module") {
        Kind::Module
    } else if spells(k, "constructor") {
        Kind::Constructor
    } else {
        Kind::Other
    }
}

/// The glyph table: each known kind's colour and symbol.
pub open spec fn glyph_spec(k: Kind) -> Option<(Tint, &'static str)> {
    match k {
        Kind::Guide => Some((Tint::Green, "\u{f05da}")),
        Kind::Section => Some((Tint::Yellow, "\u{a7}")),
        Kind::Function => Some((Tint::Cyan, "\u{192}")),
        Kind::Method => Some((Tint::Blue, "m")),
        Kind::Class => Some((Tint::Purple, "\u{1f152}")),
        Kind::Struct => Some((Tint::Red, "\u{1f162}")),
        Kind::Enum => Some((Tint::Purple, "\u{1f134}")),
        Kind::Constant => Some((Tint::Blue, "\u{1d46a}")),
        Kind::Property => Some((Tint::Yellow, "\u{f084}")),
        Kind::Macro => Some((Tint::Cyan, "\u{3bc}")),
        Kind::Interface => Some((Tint::Purple, "\u{1f138}")),
        Kind::TypeAlias => Some((Tint::Cyan, "\u{1d64f}")),
        Kind::Attribute => Some((Tint::Yellow, "\u{f04f9}")),
        Kind::Event => Some((Tint::Cyan, "\u{ea86}")),
        Kind::Variable => Some((Tint::Blue, "\u{1d69f}")),
        Kind::Module => Some((Tint::Yellow, "\u{f03d6}")),
        Kind::Constructor => Some((Tint::Red, "\u{f135}")),
        Kind::Other => None,
    }
}

/// The ANSI foreground code of a tint.
pub open spec fn tint_code(t: Tint) -> Seq<char> {
    match t {
        Tint::Red => seq!['3', '1'],
        Tint::Green => seq!['3', '2'],
        Tint::Yellow => seq!['3', '3'],
        Tint::Blue => seq!['3', '4'],
        Tint::Purple => seq!['3', '5'],
        Tint::Cyan => seq!['3', '6'],
    }
}

/// `text` between the escape sequence that selects the tint as foreground
/// colour and the one that resets the style.
pub open spec fn painted(t: Tint, text: Seq<char>) -> Seq<char> {
    seq!['\u{1b}', '['] + tint_code(t) + seq!['m'] + text + seq!['\u{1b}', '[', '0', 'm']
}

/// The decoration of a kind string: its painted glyph, or the kind itself
/// when the table has none.
pub open spec fn decoration_of(kind: Seq<char>) -> Seq<char> {
    match glyph_spec(kind_of(kind)) {
        Some((t, g)) => painted(t, g@),
        None => kind,
    }
}

/// Relies on ansi_term's `Colour::paint` and its `Display`: a style with a
/// foreground colour alone writes "\x1b[" + the colour's code + "m", the
/// text, then "\x1b[0m".
#[verifier::external_body]
fn paint(tint: Tint, text: &str) -> (r: String)
    ensures
        r@ == painted(tint, text@),
{
    let colour = match tint {
        Tint::Red => Colour::Red,
        Tint::Green => Colour::Green,
        Tint::Yellow => Colour::Yellow,
        Tint::Blue => Colour::Blue,
        Tint::Purple => Colour::Purple,
        Tint::Cyan => Colour::Cyan,
    };
    colour.paint(text).to_string()
}

fn spells_word(kind: &str, word: &str) -> (r: bool)
    ensures
        r == spells(kind@, word),
{
    let c = compare_text(kind, word, true);
    proof {
        lemma_lex_cmp_antisym(folded(kind@), folded(word@));
    }
    c == 0
}

impl Kind {
    /// The kind that a kind string names, compared up to ASCII case.
    pub fn from_name(kind: &str) -> (r: Kind)
        ensures
            r == kind_of(kind@),
    {
        if spells_word(kind, "guide") {
            Kind::Guide
        } else if spells_word(kind, "section") {
            Kind::Section
        } else if spells_word(kind, "function") {
            Kind::Function
        } else if spells_word(kind, "method") {
            Kind::Method
        } else if spells_word(kind, "class") {
            Kind::Class
        } else if spells_word(kind, "struct") || spells_word(kind, "_struct") {
            Kind::Struct
        } else if spells_word(kind, "enum") {
            Kind::Enum
        } else if spells_word(kind, "constant") {
            Kind::Constant
        } else if spells_word(kind, "property") {
            Kind::Property
        } else if spells_word(kind, "macro") {
            Kind::Macro
        } else if spells_word(kind, "interface") {
            Kind::Interface
        } else if spells_word(kind, "typedef") || spells_word(kind, "type") {
            Kind::TypeAlias
        } else if spells_word(kind, "attribute") {
            Kind::Attribute
        } else if spells_word(kind, "event") {
            Kind::Event
        } else if spells_word(kind, "variable") {
            Kind::Variable
        } else if spells_word(kind, "module") {
            Kind::Module
        } else if spells_word(kind, "constructor") {
            Kind::Constructor
        } else {
            Kind::Other
        }
    }

    /// The colour and symbol of this kind, if the table has one.
    pub fn glyph(self) -> (r: Option<(Tint, &'static str)>)
        ensures
            r == glyph_spec(self),
    {
        match self {
            Kind::Guide => Some((Tint::Green, "\u{f05da}")),
            Kind::Section => Some((Tint::Yellow, "\u{a7}")),
            Kind::Function => Some((Tint::Cyan, "\u{192}")),
            Kind::Method => Some((Tint::Blue, "m")),
            Kind::Class => Some((Tint::Purple, "\u{1f152}")),
            Kind::Struct => Some((Tint::Red, "\u{1f162}")),
            Kind::Enum => Some((Tint::Purple, "\u{1f134}")),
            Kind::Constant => Some((Tint::Blue, "\u{1d46a}")),
            Kind::Property => Some((Tint::Yellow, "\u{f084}")),
            Kind::Macro => Some((Tint::Cyan, "\u{3bc}")),
            Kind::Interface => Some((Tint::Purple, "\u{1f138}")),
            Kind::TypeAlias => Some((Tint::Cyan, "\u{1d64f}")),
            Kind::Attribute => Some((Tint::Yellow, "\u{f04f9}")),
            Kind::Event => Some((Tint::Cyan, "\u{ea86}")),
            Kind::Variable => Some((Tint::Blue, "\u{1d69f}")),
            Kind::Module => Some((Tint::Yellow, "\u{f03d6}")),
            Kind::Constructor => Some((Tint::Red, "\u{f135}")),
            Kind::Other => None,
        }
    }
}

/// The decoration of a kind string: its painted glyph, or the kind string
/// unchanged when the table has no glyph for it.
pub fn type_icon(kind: &str) -> (r: String)
    ensures
        r@ == decoration_of(kind@),
{
    match Kind::from_name(kind).glyph() {
        Some((t, g)) => paint(t, g),
        None => String::from_str(kind),
    }
}

/// The tab-separated fields of a display line: name, kind, location.
pub open spec fn line_fields(c: CandidateView) -> Seq<char> {
    c.record.name + seq!['\t'] + c.record.kind + seq!['\t'] + c.resolved
}

/// The display line of a candidate: the decoration or nothing, then a tab
/// and the fields.
pub open spec fn display_line(c: CandidateView, decorate: bool) -> Seq<char> {
    (if decorate {
        decoration_of(c.record.kind)
    } else {
        Seq::<char>::empty()
    }) + seq!['\t'] + line_fields(c)
}

/// Formats one ranked candidate as a display line.
pub fn format_line(c: &ScoredCandidate, decorate: bool) -> (r: String)
    ensures
        r@ == display_line(c@, decorate),
{
    let mut r = if decorate {
        type_icon(c.record.kind.as_str())
    } else {
        String::new()
    };
    proof {
        reveal_strlit("\t");
    }
    r.append("\t");
    r.append(c.record.name.as_str());
    r.append("\t");
    r.append(c.record.kind.as_str());
    r.append("\t");
    r.append(c.resolved_path.as_str());
    assert(r@ =~= display_line(c@, decorate));
    r
}

/// The display lines of a ranking, in order.
pub fn format_lines(ranked: &Vec<ScoredCandidate>, decorate: bool) -> (r: Vec<String>)
    ensures
        r.len() == ranked.len(),
        forall|k: int| 0 <= k < r.len() ==> #[trigger] r[k]@ == display_line(ranked[k]@, decorate),
{
    let mut r: Vec<String> = Vec::new();
    let mut i: usize = 0;
    while i < ranked.len()
        invariant
            i <= ranked.len(),
            r.len() == i,
            forall|k: int| 0 <= k < i ==> #[trigger] r[k]@ == display_line(ranked[k]@, decorate),
        decreases ranked.len() - i,
    {
        r.push(format_line(&ranked[i], decorate));
        i = i + 1;
    }
    r
}

} // verus!
