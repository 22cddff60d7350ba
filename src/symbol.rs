use vstd::prelude::*;

verus! {

/// Lexical stress carried by a vowel phoneme.
#[derive(Debug, PartialEq, Eq, Structural, Clone, Copy)]
pub enum Stress {
    Unstressed,
    Primary,
    Secondary,
}

/// The stress that a digit stands for: `0`, `1` and `2`, in that order.
pub open spec fn stress_of_digit(c: char) -> Option<Stress> {
    if c == '0' {
        Some(Stress::Unstressed)
    } else if c == '1' {
        Some(Stress::Primary)
    } else if c == '2' {
        Some(Stress::Secondary)
    } else {
        None
    }
}

/// The digit that marks stress `s`.
pub open spec fn stress_digit(s: Stress) -> char {
    match s {
        Stress::Unstressed => '0',
        Stress::Primary => '1',
        Stress::Secondary => '2',
    }
}

impl Stress {
    /// The digit that marks this stress in the dictionary's text.
    pub fn to_string(&self) -> (r: String)
        ensures
            r@ == seq![stress_digit(*self)],
    {
        let r = match self {
            Stress::Unstressed => String::from_str("0"),
            Stress::Primary => String::from_str("1"),
            Stress::Secondary => String::from_str("2"),
        };
        proof {
            reveal_strlit("0");
            reveal_strlit("1");
            reveal_strlit("2");
        }
        assert(r@ =~= seq![stress_digit(*self)]);
        r
    }
}


/// One ARPAbet phoneme. Each variant keeps the token it was read from;
/// the vowels also keep their stress.
#[derive(Debug, PartialEq, Clone)]
pub enum Symbol {
    AA(String, Stress),
    AE(String, Stress),
    AH(String, Stress),
    AO(String, Stress),
    AW(String, Stress),
    AY(String, Stress),
    B(String),
    CH(String),
    D(String),
    DH(String),
    EH(String, Stress),
    ER(String, Stress),
    EY(String, Stress),
    F(String),
    G(String),
    HH(String),
    IH(String, Stress),
    IY(String, Stress),
    JH(String),
    K(String),
    L(String),
    M(String),
    N(String),
    NG(String),
    OW(String, Stress),
    OY(String, Stress),
    P(String),
    R(String),
    S(String),
    SH(String),
    T(String),
    TH(String),
    UH(String, Stress),
    UW(String, Stress),
    V(String),
    W(String),
    Y(String),
    Z(String),
    ZH(String),
}

/// What a symbol is: the letters that name its phoneme, the token it was
/// read from, and, for a vowel, its stress.
pub struct SymbolView {
    pub name: Seq<char>,
    pub text: Seq<char>,
    pub stress: Option<Stress>,
}

impl View for Symbol {
    type V = SymbolView;

    open spec fn view(&self) -> SymbolView {
        match self {
            Symbol::AA(t, s) => SymbolView { name: seq!['A', 'A'], text: t@, stress: Some(*s) },
            Symbol::AE(t, s) => SymbolView { name: seq!['A', 'E'], text: t@, stress: Some(*s) },
            Symbol::AH(t, s) => SymbolView { name: seq!['A', 'H'], text: t@, stress: Some(*s) },
            Symbol::AO(t, s) => SymbolView { name: seq!['A', 'O'], text: t@, stress: Some(*s) },
            Symbol::AW(t, s) => SymbolView { name: seq!['A', 'W'], text: t@, stress: Some(*s) },
            Symbol::AY(t, s) => SymbolView { name: seq!['A', 'Y'], text: t@, stress: Some(*s) },
            Symbol::B(t) => SymbolView { name: seq!['B'], text: t@, stress: None },
            Symbol::CH(t) => SymbolView { name: seq!['C', 'H'], text: t@, stress: None },
            Symbol::D(t) => SymbolView { name: seq!['D'], text: t@, stress: None },
            Symbol::DH(t) => SymbolView { name: seq!['D', 'H'], text: t@, stress: None },
            Symbol::EH(t, s) => SymbolView { name: seq!['E', 'H'], text: t@, stress: Some(*s) },
            Symbol::ER(t, s) => SymbolView { name: seq!['E', 'R'], text: t@, stress: Some(*s) },
            Symbol::EY(t, s) => SymbolView { name: seq!['E', 'Y'], text: t@, stress: Some(*s) },
            Symbol::F(t) => SymbolView { name: seq!['F'], text: t@, stress: None },
            Symbol::G(t) => SymbolView { name: seq!['G'], text: t@, stress: None },
            Symbol::HH(t) => SymbolView { name: seq!['H', 'H'], text: t@, stress: None },
            Symbol::IH(t, s) => SymbolView { name: seq!['I', 'H'], text: t@, stress: Some(*s) },
            Symbol::IY(t, s) => SymbolView { name: seq!['I', 'Y'], text: t@, stress: Some(*s) },
            Symbol::JH(t) => SymbolView { name: seq!['J', 'H'], text: t@, stress: None },
            Symbol::K(t) => SymbolView { name: seq!['K'], text: t@, stress: None },
            Symbol::L(t) => SymbolView { name: seq!['L'], text: t@, stress: None },
            Symbol::M(t) => SymbolView { name: seq!['M'], text: t@, stress: None },
            Symbol::N(t) => SymbolView { name: seq!['N'], text: t@, stress: None },
            Symbol::NG(t) => SymbolView { name: seq!['N', 'G'], text: t@, stress: None },
            Symbol::OW(t, s) => SymbolView { name: seq!['O', 'W'], text: t@, stress: Some(*s) },
            Symbol::OY(t, s) => SymbolView { name: seq!['O', 'Y'], text: t@, stress: Some(*s) },
            Symbol::P(t) => SymbolView { name: seq!['P'], text: t@, stress: None },
            Symbol::R(t) => SymbolView { name: seq!['R'], text: t@, stress: None },
            Symbol::S(t) => SymbolView { name: seq!['S'], text: t@, stress: None },
            Symbol::SH(t) => SymbolView { name: seq!['S', 'H'], text: t@, stress: None },
            Symbol::T(t) => SymbolView { name: seq!['T'], text: t@, stress: None },
            Symbol::TH(t) => SymbolView { name: seq!['T', 'H'], text: t@, stress: None },
            Symbol::UH(t, s) => SymbolView { name: seq!['U', 'H'], text: t@, stress: Some(*s) },
            Symbol::UW(t, s) => SymbolView { name: seq!['U', 'W'], text: t@, stress: Some(*s) },
            Symbol::V(t) => SymbolView { name: seq!['V'], text: t@, stress: None },
            Symbol::W(t) => SymbolView { name: seq!['W'], text: t@, stress: None },
            Symbol::Y(t) => SymbolView { name: seq!['Y'], text: t@, stress: None },
            Symbol::Z(t) => SymbolView { name: seq!['Z'], text: t@, stress: None },
            Symbol::ZH(t) => SymbolView { name: seq!['Z', 'H'], text: t@, stress: None },
        }
    }
}

/// The error of every parse: it carries the token or line that was refused.
#[derive(Debug, PartialEq, Clone)]
pub enum Error {
    ParseError(String),
}

impl View for Error {
    type V = Seq<char>;

    /// The text that was refused.
    open spec fn view(&self) -> Seq<char> {
        match self {
            Error::ParseError(t) => t@,
        }
    }
}

impl Error {
    /// The text that was refused.
    pub fn description(&self) -> (r: &str)
        ensures
            r@ == self@,
    {
        match self {
            Error::ParseError(t) => t.as_str(),
        }
    }

    /// The name of the error's kind.
    pub fn to_string(&self) -> (r: String)
        ensures
            r@ == "ParseError"@,
    {
        String::from_str("ParseError")
    }
}

/// The fifteen vowels: `AA AE AH AO AW AY EH ER EY IH IY OW OY UH UW`.
pub open spec fn is_vowel_pair(a: char, b: char) -> bool {
    (a == 'A' && (b == 'A' || b == 'E' || b == 'H' || b == 'O' || b == 'W' || b == 'Y'))
        || (a == 'E' && (b == 'H' || b == 'R' || b == 'Y'))
        || (a == 'I' && (b == 'H' || b == 'Y'))
        || (a == 'O' && (b == 'W' || b == 'Y'))
        || (a == 'U' && (b == 'H' || b == 'W'))
}

/// Consonants of one letter that no other phoneme begins with.
pub open spec fn is_plain_consonant(a: char) -> bool {
    a == 'B' || a == 'F' || a == 'G' || a == 'K' || a == 'L' || a == 'M' || a == 'P' || a == 'R'
        || a == 'V' || a == 'W' || a == 'Y'
}

/// Consonants of two letters: `CH DH HH JH NG SH TH ZH`.
pub open spec fn is_digraph_consonant(a: char, b: char) -> bool {
    (b == 'H' && (a == 'C' || a == 'D' || a == 'H' || a == 'J' || a == 'S' || a == 'T' || a == 'Z'))
        || (a == 'N' && b == 'G')
}

/// Consonants of one letter that also begin a two-letter consonant.
pub open spec fn is_short_consonant(a: char) -> bool {
    a == 'D' || a == 'N' || a == 'S' || a == 'T' || a == 'Z'
}

/// The consonant named by a token that starts with `a`, followed by `b`
/// (`None` when the token has one character). A plain consonant ignores
/// what follows it, a two-letter one what follows its second letter; a
/// short one stands only alone.
pub open spec fn consonant_name(a: char, b: Option<char>) -> Option<Seq<char>> {
    if is_plain_consonant(a) {
        Some(seq![a])
    } else if b is Some && is_digraph_consonant(a, b->Some_0) {
        Some(seq![a, b->Some_0])
    } else if b is None && is_short_consonant(a) {
        Some(seq![a])
    } else {
        None
    }
}

/// The symbol that token `t` reads as, or `None` where it is refused.
/// A vowel takes its stress from the character after its two letters,
/// which must be `0`, `1` or `2`; a vowel with nothing after it is unstressed.
pub open spec fn symbol_of(t: Seq<char>) -> Option<SymbolView> {
    if t.len() >= 2 && is_vowel_pair(t[0], t[1]) {
        let st = if t.len() == 2 {
            Some(Stress::Unstressed)
        } else {
            stress_of_digit(t[2])
        };
        match st {
            Some(s) => Some(SymbolView { name: t.take(2), text: t, stress: Some(s) }),
            None => None,
        }
    } else if t.len() >= 1 {
        let b = if t.len() >= 2 {
            Some(t[1])
        } else {
            None
        };
        match consonant_name(t[0], b) {
            Some(name) => Some(SymbolView { name, text: t, stress: None }),
            None => None,
        }
    } else {
        None
    }
}

fn vowel_letters(a: char, b: char) -> (r: bool)
    ensures
        r == is_vowel_pair(a, b),
{
    match (a, b) {
        ('A', 'A') | ('A', 'E') | ('A', 'H') | ('A', 'O') | ('A', 'W') | ('A', 'Y') => true,
        ('E', 'H') | ('E', 'R') | ('E', 'Y') => true,
        ('I', 'H') | ('I', 'Y') => true,
        ('O', 'W') | ('O', 'Y') => true,
        ('U', 'H') | ('U', 'W') => true,
        _ => false,
    }
}

fn digit_stress(c: char) -> (r: Option<Stress>)
    ensures
        r == stress_of_digit(c),
{
    match c {
        '0' => Some(Stress::Unstressed),
        '1' => Some(Stress::Primary),
        '2' => Some(Stress::Secondary),
        _ => None,
    }
}

/// Builds the vowel named by `a` and `b`, if those letters name one.
fn vowel_symbol(a: char, b: char, text: String, st: Stress) -> (r: Option<Symbol>)
    ensures
        r is Some <==> is_vowel_pair(a, b),
        r matches Some(sym) ==> sym@ == (SymbolView { name: seq![a, b], text: text@, stress: Some(st) }),
{
    match (a, b) {
        ('A', 'A') => Some(Symbol::AA(text, st)),
        ('A', 'E') => Some(Symbol::AE(text, st)),
        ('A', 'H') => Some(Symbol::AH(text, st)),
        ('A', 'O') => Some(Symbol::AO(text, st)),
        ('A', 'W') => Some(Symbol::AW(text, st)),
        ('A', 'Y') => Some(Symbol::AY(text, st)),
        ('E', 'H') => Some(Symbol::EH(text, st)),
        ('E', 'R') => Some(Symbol::ER(text, st)),
        ('E', 'Y') => Some(Symbol::EY(text, st)),
        ('I', 'H') => Some(Symbol::IH(text, st)),
        ('I', 'Y') => Some(Symbol::IY(text, st)),
        ('O', 'W') => Some(Symbol::OW(text, st)),
        ('O', 'Y') => Some(Symbol::OY(text, st)),
        ('U', 'H') => Some(Symbol::UH(text, st)),
        ('U', 'W') => Some(Symbol::UW(text, st)),
        _ => None,
    }
}

/// Builds the consonant that a token starting with `a`, then `b`, names.
fn consonant_symbol(a: char, b: Option<char>, text: String) -> (r: Option<Symbol>)
    ensures
        r is Some <==> consonant_name(a, b) is Some,
        r matches Some(sym) ==> sym@ == (SymbolView {
            name: consonant_name(a, b)->Some_0,
            text: text@,
            stress: None,
        }),
{
    match a {
        'B' => Some(Symbol::B(text)),
        'F' => Some(Symbol::F(text)),
        'G' => Some(Symbol::G(text)),
        'K' => Some(Symbol::K(text)),
        'L' => Some(Symbol::L(text)),
        'M' => Some(Symbol::M(text)),
        'P' => Some(Symbol::P(text)),
        'R' => Some(Symbol::R(text)),
        'V' => Some(Symbol::V(text)),
        'W' => Some(Symbol::W(text)),
        'Y' => Some(Symbol::Y(text)),
        'C' => match b {
            Some('H') => Some(Symbol::CH(text)),
            _ => None,
        },
        'H' => match b {
            Some('H') => Some(Symbol::HH(text)),
            _ => None,
        },
        'J' => match b {
            Some('H') => Some(Symbol::JH(text)),
            _ => None,
        },
        'D' => match b {
            Some('H') => Some(Symbol::DH(text)),
            None => Some(Symbol::D(text)),
            _ => None,
        },
        'N' => match b {
            Some('G') => Some(Symbol::NG(text)),
            None => Some(Symbol::N(text)),
            _ => None,
        },
        'S' => match b {
            Some('H') => Some(Symbol::SH(text)),
            None => Some(Symbol::S(text)),
            _ => None,
        },
        'T' => match b {
            Some('H') => Some(Symbol::TH(text)),
            None => Some(Symbol::T(text)),
            _ => None,
        },
        'Z' => match b {
            Some('H') => Some(Symbol::ZH(text)),
            None => Some(Symbol::Z(text)),
            _ => None,
        },
        _ => None,
    }
}

/// Reads one ARPAbet token. Succeeds exactly where `symbol_of` gives a
/// symbol, and then returns it; otherwise the error carries the token.
pub fn parse_symbol(s: &str) -> (r: Result<Symbol, Error>)
    ensures
        match r {
            Ok(sym) => symbol_of(s@) == Some(sym@),
            Err(e) => symbol_of(s@) is None && e@ == s@,
        },
{
    let n = s.unicode_len();
    if n == 0 {
        return Err(Error::ParseError(String::from_str(s)));
    }
    let a = s.get_char(0);
    if n >= 2 && vowel_letters(a, s.get_char(1)) {
        let st = if n == 2 {
            Some(Stress::Unstressed)
        } else {
            digit_stress(s.get_char(2))
        };
        match st {
            Some(st) => match vowel_symbol(a, s.get_char(1), String::from_str(s), st) {
                Some(sym) => {
                    assert(s@.take(2) =~= seq![a, s@[1]]);
                    Ok(sym)
                },
                None => Err(Error::ParseError(String::from_str(s))),
            },
            None => Err(Error::ParseError(String::from_str(s))),
        }
    } else {
        let b = if n >= 2 {
            Some(s.get_char(1))
        } else {
            None
        };
        match consonant_symbol(a, b, String::from_str(s)) {
            Some(sym) => Ok(sym),
            None => Err(Error::ParseError(String::from_str(s))),
        }
    }
}

/// No spec-level value of the conversion: a `Symbol` holds a `String`, which
/// spec code cannot build. What `try_from` returns is stated on its own
/// `ensures` instead.
impl<'a> vstd::std_specs::convert::TryFromSpecImpl<&'a str> for Symbol {
    open spec fn obeys_try_from_spec() -> bool {
        false
    }

    open spec fn try_from_spec(v: &'a str) -> Result<Symbol, Error> {
        arbitrary()
    }
}

/// Reads one ARPAbet token, as `parse_symbol` does.
impl<'a> TryFrom<&'a str> for Symbol {
    type Error = Error;

    fn try_from(s: &'a str) -> (r: Result<Symbol, Error>)
        ensures
            match r {
                Ok(sym) => symbol_of(s@) == Some(sym@),
                Err(e) => symbol_of(s@) is None && e@ == s@,
            },
    {
        parse_symbol(s)
    }
}

impl Symbol {
    /// The symbol written back as text: the token it was read from.
    pub fn to_string(&self) -> (r: String)
        ensures
            r@ == self@.text,
    {
        match self {
            Symbol::AA(t, _) => t.clone(),
            Symbol::AE(t, _) => t.clone(),
            Symbol::AH(t, _) => t.clone(),
            Symbol::AO(t, _) => t.clone(),
            Symbol::AW(t, _) => t.clone(),
            Symbol::AY(t, _) => t.clone(),
            Symbol::B(t) => t.clone(),
            Symbol::CH(t) => t.clone(),
            Symbol::D(t) => t.clone(),
            Symbol::DH(t) => t.clone(),
            Symbol::EH(t, _) => t.clone(),
            Symbol::ER(t, _) => t.clone(),
            Symbol::EY(t, _) => t.clone(),
            Symbol::F(t) => t.clone(),
            Symbol::G(t) => t.clone(),
            Symbol::HH(t) => t.clone(),
            Symbol::IH(t, _) => t.clone(),
            Symbol::IY(t, _) => t.clone(),
            Symbol::JH(t) => t.clone(),
            Symbol::K(t) => t.clone(),
            Symbol::L(t) => t.clone(),
            Symbol::M(t) => t.clone(),
            Symbol::N(t) => t.clone(),
            Symbol::NG(t) => t.clone(),
            Symbol::OW(t, _) => t.clone(),
            Symbol::OY(t, _) => t.clone(),
            Symbol::P(t) => t.clone(),
            Symbol::R(t) => t.clone(),
            Symbol::S(t) => t.clone(),
            Symbol::SH(t) => t.clone(),
            Symbol::T(t) => t.clone(),
            Symbol::TH(t) => t.clone(),
            Symbol::UH(t, _) => t.clone(),
            Symbol::UW(t, _) => t.clone(),
            Symbol::V(t) => t.clone(),
            Symbol::W(t) => t.clone(),
            Symbol::Y(t) => t.clone(),
            Symbol::Z(t) => t.clone(),
            Symbol::ZH(t) => t.clone(),
        }
    }
}

/// Every consonant token, one of `B CH D DH F G HH JH K L M N NG P R S SH T
/// TH V W Y Z ZH`, reads as the consonant of the same name, without stress.
pub proof fn lemma_consonant_tokens(t: Seq<char>)
    requires
        (t.len() == 1 && (is_plain_consonant(t[0]) || is_short_consonant(t[0]))) || (t.len() == 2
            && is_digraph_consonant(t[0], t[1])),
    ensures
        symbol_of(t) == Some(SymbolView { name: t, text: t, stress: None }),
{
    if t.len() == 1 {
        assert(seq![t[0]] =~= t);
    } else {
        assert(seq![t[0], t[1]] =~= t);
    }
}

/// A vowel followed by a digit `0`, `1` or `2` reads as that vowel with the
/// digit's stress; a vowel without digit reads as with digit `0`.
pub proof fn lemma_vowel_tokens(a: char, b: char, d: char)
    requires
        is_vowel_pair(a, b),
        d == '0' || d == '1' || d == '2',
    ensures
        symbol_of(seq![a, b, d]) == Some(
            SymbolView { name: seq![a, b], text: seq![a, b, d], stress: stress_of_digit(d) },
        ),
        d == '0' ==> symbol_of(seq![a, b, d]) == Some(
            SymbolView { name: seq![a, b], text: seq![a, b, d], stress: Some(Stress::Unstressed) },
        ),
        d == '1' ==> symbol_of(seq![a, b, d]) == Some(
            SymbolView { name: seq![a, b], text: seq![a, b, d], stress: Some(Stress::Primary) },
        ),
        d == '2' ==> symbol_of(seq![a, b, d]) == Some(
            SymbolView { name: seq![a, b], text: seq![a, b, d], stress: Some(Stress::Secondary) },
        ),
        symbol_of(seq![a, b]) == Some(
            SymbolView {
                name: seq![a, b],
                text: seq![a, b],
                stress: symbol_of(seq![a, b, '0'])->Some_0.stress,
            },
        ),
{
    assert(seq![a, b, d].take(2) =~= seq![a, b]);
    assert(seq![a, b].take(2) =~= seq![a, b]);
    assert(seq![a, b, '0'].take(2) =~= seq![a, b]);
}

/// A symbol read from a token is written back as exactly that token: the
/// letters of its phoneme, then, for a vowel read with a digit, the digit
/// of its stress.
pub proof fn lemma_display_round_trip(t: Seq<char>)
    requires
        symbol_of(t) is Some,
    ensures
        symbol_of(t)->Some_0.text == t,
        t.take(symbol_of(t)->Some_0.name.len() as int) == symbol_of(t)->Some_0.name,
        symbol_of(t)->Some_0.stress is Some && t.len() == 3 ==> t == symbol_of(t)->Some_0.name.push(
            stress_digit(symbol_of(t)->Some_0.stress->Some_0),
        ),
{
    let v = symbol_of(t)->Some_0;
    if v.name.len() == 1 {
        assert(t.take(1) =~= seq![t[0]]);
    } else {
        assert(t.take(2) =~= seq![t[0], t[1]]);
    }
    if v.stress is Some && t.len() == 3 {
        assert(t =~= t.take(2).push(t[2]));
    }
}

} // verus!
