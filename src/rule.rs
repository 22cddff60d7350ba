use vstd::prelude::*;

use crate::symbol::{parse_symbol, symbol_of, Error, Symbol, SymbolView};

verus! {

/// Characters with the Unicode `White_Space` property, the set that
/// `char::is_whitespace` tests for.
pub open spec fn is_space(c: char) -> bool {
    let u = c as u32;
    (0x9 <= u && u <= 0xD) || u == 0x20 || u == 0x85 || u == 0xA0 || u == 0x1680 || (0x2000 <= u
        && u <= 0x200A) || u == 0x2028 || u == 0x2029 || u == 0x202F || u == 0x205F || u == 0x3000
}

fn space_char(c: char) -> (r: bool)
    ensures
        r == is_space(c),
{
    let u = c as u32;
    (0x9 <= u && u <= 0xD) || u == 0x20 || u == 0x85 || u == 0xA0 || u == 0x1680 || (0x2000 <= u
        && u <= 0x200A) || u == 0x2028 || u == 0x2029 || u == 0x202F || u == 0x205F || u == 0x3000
}

/// Length of the run of non-space characters that `s` starts with.
pub open spec fn word_len(s: Seq<char>) -> nat
    decreases s.len(),
{
    if s.len() == 0 || is_space(s[0]) {
        0
    } else {
        1 + word_len(s.drop_first())
    }
}

proof fn lemma_word_len_bounds(s: Seq<char>)
    ensures
        word_len(s) <= s.len(),
        s.len() > 0 && !is_space(s[0]) ==> word_len(s) > 0,
    decreases s.len(),
{
    if s.len() > 0 && !is_space(s[0]) {
        lemma_word_len_bounds(s.drop_first());
    }
}

/// The non-empty runs of non-space characters of `s`, in order.
pub open spec fn fields(s: Seq<char>) -> Seq<Seq<char>>
    decreases s.len(),
    via fields_decreases
{
    if s.len() == 0 {
        seq![]
    } else if is_space(s[0]) {
        fields(s.drop_first())
    } else {
        let n = word_len(s) as int;
        seq![s.take(n)] + fields(s.skip(n))
    }
}

#[via_fn]
proof fn fields_decreases(s: Seq<char>) {
    lemma_word_len_bounds(s);
}

/// A run of `k` non-space characters, ended by a space or by the end of
/// `s`, is the word that `s` starts with.
proof fn lemma_word_len(s: Seq<char>, k: int)
    requires
        0 <= k <= s.len(),
        forall|j: int| 0 <= j < k ==> !is_space(#[trigger] s[j]),
        k == s.len() || is_space(s[k]),
    ensures
        word_len(s) == k,
    decreases k,
{
    if k > 0 {
        let t = s.drop_first();
        assert forall|j: int| 0 <= j < k - 1 implies !is_space(#[trigger] t[j]) by {
            assert(t[j] == s[j + 1]);
        }
        lemma_word_len(t, k - 1);
    }
}

/// Splits a line into its fields: the runs of characters between spaces.
pub fn split_fields(line: &str) -> (r: Vec<String>)
    ensures
        r@.map_values(|f: String| f@) == fields(line@),
{
    let n = line.unicode_len();
    let mut out: Vec<String> = Vec::new();
    let mut i: usize = 0;
    assert(line@.skip(0) =~= line@);
    assert(out@.map_values(|f: String| f@) + fields(line@) =~= fields(line@));
    while i < n
        invariant
            i <= n,
            n == line@.len(),
            out@.map_values(|f: String| f@) + fields(line@.skip(i as int)) == fields(line@),
        decreases n - i,
    {
        let ghost rest = line@.skip(i as int);
        let c = line.get_char(i);
        if space_char(c) {
            assert(rest.drop_first() =~= line@.skip(i + 1));
            i = i + 1;
        } else {
            let mut j: usize = i + 1;
            while j < n
                invariant
                    i < j <= n,
                    n == line@.len(),
                    forall|m: int| i <= m < j ==> !is_space(#[trigger] line@[m]),
                ensures
                    i < j <= n,
                    forall|m: int| i <= m < j ==> !is_space(#[trigger] line@[m]),
                    j == n || is_space(line@[j as int]),
                decreases n - j,
            {
                if space_char(line.get_char(j)) {
                    break;
                }
                j = j + 1;
            }
            let word = line.substring_char(i, j).to_owned();
            proof {
                assert forall|m: int| 0 <= m < j - i implies !is_space(#[trigger] rest[m]) by {
                    assert(rest[m] == line@[i + m]);
                }
                lemma_word_len(rest, j - i);
                assert(rest.take(j - i) =~= word@);
                assert(rest.skip(j - i) =~= line@.skip(j as int));
                assert(out@.push(word).map_values(|f: String| f@) =~= out@.map_values(
                    |f: String| f@,
                ).push(word@));
            }
            out.push(word);
            i = j;
        }
    }
    assert(line@.skip(n as int) =~= seq![]);
    assert(out@.map_values(|f: String| f@) + seq![] =~= out@.map_values(|f: String| f@));
    out
}

/// One dictionary entry: a label and the phonemes it is spoken as.
#[derive(Debug, PartialEq)]
pub struct Rule {
    label: String,
    pronunciation: Vec<Symbol>,
}

/// What a rule is: its label and its phonemes, in the order spoken.
pub struct RuleView {
    pub label: Seq<char>,
    pub pronunciation: Seq<SymbolView>,
}

impl View for Rule {
    type V = RuleView;

    closed spec fn view(&self) -> RuleView {
        RuleView {
            label: self.label@,
            pronunciation: self.pronunciation@.map_values(|s: Symbol| s@),
        }
    }
}

impl Rule {
    /// A rule of `label` spoken as `pronunciation`.
    pub fn new(label: String, pronunciation: Vec<Symbol>) -> (r: Rule)
        ensures
            r@ == (RuleView {
                label: label@,
                pronunciation: pronunciation@.map_values(|s: Symbol| s@),
            }),
    {
        Rule { label, pronunciation }
    }

    /// The label, with any homograph suffix it has.
    pub fn label(&self) -> (r: &str)
        ensures
            r@ == self@.label,
    {
        self.label.as_str()
    }

    /// The phonemes, in the order spoken.
    pub fn pronunciation(&self) -> (r: &[Symbol])
        ensures
            r@.map_values(|s: Symbol| s@) == self@.pronunciation,
    {
        self.pronunciation.as_slice()
    }
}

/// The symbols that tokens `ts` read as, or the first token that is refused.
pub open spec fn parse_tokens(ts: Seq<Seq<char>>) -> Result<Seq<SymbolView>, Seq<char>>
    decreases ts.len(),
{
    if ts.len() == 0 {
        Ok(seq![])
    } else {
        match parse_tokens(ts.drop_last()) {
            Err(e) => Err(e),
            Ok(p) => match symbol_of(ts.last()) {
                Some(v) => Ok(p.push(v)),
                None => Err(ts.last()),
            },
        }
    }
}

/// The rule that `line` reads as: its first field is the label, the others
/// are phoneme tokens. A line without fields is refused as a whole; else
/// the first token that is refused is the error.
pub open spec fn rule_of(line: Seq<char>) -> Result<RuleView, Seq<char>> {
    let f = fields(line);
    if f.len() == 0 {
        Err(line)
    } else {
        match parse_tokens(f.drop_first()) {
            Ok(p) => Ok(RuleView { label: f[0], pronunciation: p }),
            Err(e) => Err(e),
        }
    }
}

/// Reads one dictionary line. Succeeds exactly where `rule_of` gives a rule,
/// and returns it; otherwise the error carries what `rule_of` refused.
pub fn parse_rule(line: &str) -> (r: Result<Rule, Error>)
    ensures
        match r {
            Ok(rule) => rule_of(line@) == Ok::<RuleView, Seq<char>>(rule@),
            Err(e) => rule_of(line@) == Err::<RuleView, Seq<char>>(e@),
        },
{
    let fs = split_fields(line);
    let ghost f = fields(line@);
    assert(fs@.len() == f.len());
    if fs.len() == 0 {
        return Err(Error::ParseError(line.to_owned()));
    }
    let ghost toks = f.drop_first();
    let mut syms: Vec<Symbol> = Vec::new();
    let mut k: usize = 1;
    assert(toks.take(0) =~= seq![]);
    assert(syms@.map_values(|s: Symbol| s@) =~= seq![]);
    while k < fs.len()
        invariant
            1 <= k <= fs@.len(),
            f == fields(line@),
            fs@.map_values(|g: String| g@) == f,
            toks == f.drop_first(),
            parse_tokens(toks.take(k - 1)) == Ok::<Seq<SymbolView>, Seq<char>>(
                syms@.map_values(|s: Symbol| s@),
            ),
        decreases fs@.len() - k,
    {
        let ghost pre = toks.take(k - 1);
        let ghost next = toks.take(k as int);
        assert(next.drop_last() =~= pre);
        assert(f[k as int] == fs@[k as int]@);
        assert(next.last() == fs@[k as int]@);
        match parse_symbol(fs[k].as_str()) {
            Ok(sym) => {
                assert(syms@.push(sym).map_values(|s: Symbol| s@) =~= syms@.map_values(
                    |s: Symbol| s@,
                ).push(sym@));
                syms.push(sym);
            },
            Err(e) => {
                proof {
                    assert(parse_tokens(next) == Err::<Seq<SymbolView>, Seq<char>>(next.last()));
                    lemma_parse_tokens_prefix_err(toks, k as int);
                }
                return Err(e);
            },
        }
        k = k + 1;
    }
    assert(toks.take(k - 1) =~= toks);
    Ok(Rule { label: fs[0].clone(), pronunciation: syms })
}

/// No spec-level value of the conversion: a `Rule` holds `String`s, which
/// spec code cannot build. What `try_from` returns is stated on its own
/// `ensures` instead.
impl<'a> vstd::std_specs::convert::TryFromSpecImpl<&'a str> for Rule {
    open spec fn obeys_try_from_spec() -> bool {
        false
    }

    open spec fn try_from_spec(v: &'a str) -> Result<Rule, Error> {
        arbitrary()
    }
}

/// Reads one dictionary line, as `parse_rule` does.
impl<'a> TryFrom<&'a str> for Rule {
    type Error = Error;

    fn try_from(line: &'a str) -> (r: Result<Rule, Error>)
        ensures
            match r {
                Ok(rule) => rule_of(line@) == Ok::<RuleView, Seq<char>>(rule@),
                Err(e) => rule_of(line@) == Err::<RuleView, Seq<char>>(e@),
            },
    {
        parse_rule(line)
    }
}

/// Once a prefix of the tokens is refused, so are all the tokens, with the
/// same error.
proof fn lemma_parse_tokens_prefix_err(ts: Seq<Seq<char>>, k: int)
    requires
        0 <= k <= ts.len(),
        parse_tokens(ts.take(k)) is Err,
    ensures
        parse_tokens(ts) == parse_tokens(ts.take(k)),
    decreases ts.len() - k,
{
    if k < ts.len() {
        assert(ts.take(k + 1).drop_last() =~= ts.take(k));
        lemma_parse_tokens_prefix_err(ts, k + 1);
    } else {
        assert(ts.take(k) =~= ts);
    }
}

} // verus!
