use vstd::prelude::*;

use crate::key::{key_of, normalize};
use crate::rule::{parse_rule, rule_of, Rule, RuleView};
use crate::symbol::Error;

verus! {

/// An index's contents: each key with its rules, keys in the order in which
/// they first came, rules in the order in which they were added.
pub type Entries = Seq<(Seq<char>, Seq<RuleView>)>;

/// No key occurs twice.
pub open spec fn keys_distinct(es: Entries) -> bool {
    forall|i: int, j: int| 0 <= i < j < es.len() ==> #[trigger] es[i].0 != #[trigger] es[j].0
}

/// The rules stored under key `k`, if any.
pub open spec fn lookup(es: Entries, k: Seq<char>) -> Option<Seq<RuleView>> {
    if exists|i: int| 0 <= i < es.len() && #[trigger] es[i].0 == k {
        Some(es[choose|i: int| 0 <= i < es.len() && #[trigger] es[i].0 == k].1)
    } else {
        None
    }
}

/// `es` with rule `r` appended under key `k`; a new key comes last.
pub open spec fn add_rule(es: Entries, k: Seq<char>, r: RuleView) -> Entries {
    if exists|i: int| 0 <= i < es.len() && #[trigger] es[i].0 == k {
        let i = choose|i: int| 0 <= i < es.len() && #[trigger] es[i].0 == k;
        es.update(i, (k, es[i].1.push(r)))
    } else {
        es.push((k, seq![r]))
    }
}

/// The index built from `lines`: each line read as a rule and added under
/// the key of its label, in order; or the error of the first line refused.
pub open spec fn index_of(lines: Seq<Seq<char>>) -> Result<Entries, Seq<char>>
    decreases lines.len(),
{
    if lines.len() == 0 {
        Ok(seq![])
    } else {
        match index_of(lines.drop_last()) {
            Err(e) => Err(e),
            Ok(es) => match rule_of(lines.last()) {
                Err(e) => Err(e),
                Ok(r) => Ok(add_rule(es, key_of(r.label), r)),
            },
        }
    }
}

/// The lines that a build with `limit` reads: the first `limit` of them, or
/// all where there is no limit.
pub open spec fn lines_within(lines: Seq<Seq<char>>, limit: Option<usize>) -> Seq<Seq<char>> {
    match limit {
        Some(m) => if m < lines.len() {
            lines.take(m as int)
        } else {
            lines
        },
        None => lines,
    }
}

/// Dictionary entries grouped under their normalised keys.
pub struct Index {
    entries: Vec<(String, Vec<Rule>)>,
}

/// What one stored entry is: its key and its rules.
pub open spec fn entry_view(e: (String, Vec<Rule>)) -> (Seq<char>, Seq<RuleView>) {
    (e.0@, e.1@.map_values(|r: Rule| r@))
}

impl View for Index {
    type V = Entries;

    closed spec fn view(&self) -> Entries {
        self.entries@.map_values(|e: (String, Vec<Rule>)| entry_view(e))
    }
}

impl Index {
    /// An index without entries.
    pub fn new() -> (r: Index)
        ensures
            r@ == Seq::<(Seq<char>, Seq<RuleView>)>::empty(),
            keys_distinct(r@),
    {
        let r = Index { entries: Vec::new() };
        assert(r@ =~= Seq::<(Seq<char>, Seq<RuleView>)>::empty());
        r
    }

    /// Number of distinct keys.
    pub fn len(&self) -> (r: usize)
        ensures
            r == self@.len(),
    {
        self.entries.len()
    }

    /// The entries, each key with its rules, keys in the order they came.
    pub fn into_entries(self) -> (r: Vec<(String, Vec<Rule>)>)
        ensures
            r@.map_values(|e: (String, Vec<Rule>)| entry_view(e)) == self@,
    {
        self.entries
    }

    /// Appends `rule` under `key`.
    pub fn add(&mut self, key: String, rule: Rule)
        requires
            keys_distinct(old(self)@),
        ensures
            keys_distinct(final(self)@),
            final(self)@ == add_rule(old(self)@, key@, rule@),
    {
        let ghost es = self@;
        let n = self.entries.len();
        let mut i: usize = 0;
        while i < n
            invariant
                i <= n,
                n == self.entries@.len(),
                es == self@,
                es == old(self)@,
                keys_distinct(es),
                forall|j: int| 0 <= j < i ==> es[j].0 != key@,
            decreases n - i,
        {
            assert(es[i as int] == entry_view(self.entries@[i as int]));
            if self.entries[i].0 == key {
                assert(es[i as int].0 == key@);
                let ghost c = choose|j: int| 0 <= j < es.len() && #[trigger] es[j].0 == key@;
                assert(c == i);
                assert(add_rule(es, key@, rule@) == es.update(
                    i as int,
                    (key@, es[i as int].1.push(rule@)),
                ));
                let (k, mut rules) = self.entries.remove(i);
                let ghost before = rules@;
                rules.push(rule);
                assert(rules@.map_values(|r: Rule| r@) =~= before.map_values(|r: Rule| r@).push(
                    rule@,
                ));
                self.entries.insert(i, (k, rules));
                assert(self@ =~= es.update(i as int, (key@, es[i as int].1.push(rule@))));
                assert forall|a: int, b: int| 0 <= a < b < self@.len() implies #[trigger] self@[a].0
                    != #[trigger] self@[b].0 by {
                    assert(self@[a].0 == es[a].0);
                    assert(self@[b].0 == es[b].0);
                }
                return;
            }
            i = i + 1;
        }
        self.entries.push((key, vec![rule]));
        proof {
            assert(!exists|j: int| 0 <= j < es.len() && #[trigger] es[j].0 == key@);
            let last = self.entries@[n as int];
            assert(last.1@.map_values(|r: Rule| r@) =~= seq![rule@]);
            assert(self@ =~= es.push((key@, seq![rule@])));
        }
    }

    /// The rules stored under `key`, in the order they were added.
    pub fn get(&self, key: &str) -> (r: Option<&[Rule]>)
        requires
            keys_distinct(self@),
        ensures
            match r {
                Some(rs) => lookup(self@, key@) == Some(rs@.map_values(|x: Rule| x@)),
                None => lookup(self@, key@) is None,
            },
    {
        let ghost es = self@;
        let wanted = key.to_owned();
        let n = self.entries.len();
        let mut i: usize = 0;
        while i < n
            invariant
                i <= n,
                n == self.entries@.len(),
                es == self@,
                wanted@ == key@,
                keys_distinct(es),
                forall|j: int| 0 <= j < i ==> es[j].0 != key@,
            decreases n - i,
        {
            assert(es[i as int] == entry_view(self.entries@[i as int]));
            if self.entries[i].0 == wanted {
                assert(es[i as int].0 == key@);
                let ghost c = choose|j: int| 0 <= j < es.len() && #[trigger] es[j].0 == key@;
                assert(c == i);
                return Some(self.entries[i].1.as_slice());
            }
            i = i + 1;
        }
        None
    }
}

/// Once a prefix of the lines is refused, so are all the lines, with the
/// same error.
proof fn lemma_index_prefix_err(lines: Seq<Seq<char>>, k: int)
    requires
        0 <= k <= lines.len(),
        index_of(lines.take(k)) is Err,
    ensures
        index_of(lines) == index_of(lines.take(k)),
    decreases lines.len() - k,
{
    if k < lines.len() {
        assert(lines.take(k + 1).drop_last() =~= lines.take(k));
        lemma_index_prefix_err(lines, k + 1);
    } else {
        assert(lines.take(k) =~= lines);
    }
}

/// Builds the index of `lines`, reading at most `limit` of them (all when
/// `limit` is `None`). Fails with the error of the first line that is
/// refused, and then returns no index.
pub fn build_index(lines: &[&str], limit: Option<usize>) -> (r: Result<Index, Error>)
    ensures
        ({
            let used = lines_within(lines@.map_values(|l: &str| l@), limit);
            match r {
                Ok(ix) => index_of(used) == Ok::<Entries, Seq<char>>(ix@) && keys_distinct(ix@),
                Err(e) => index_of(used) == Err::<Entries, Seq<char>>(e@),
            }
        }),
{
    let ghost all = lines@.map_values(|l: &str| l@);
    let ghost used = lines_within(all, limit);
    let n = match limit {
        Some(m) => if m < lines.len() {
            m
        } else {
            lines.len()
        },
        None => lines.len(),
    };
    assert(used =~= all.take(n as int));
    let mut ix = Index::new();
    let mut i: usize = 0;
    assert(used.take(0) =~= seq![]);
    while i < n
        invariant
            i <= n <= lines@.len(),
            all == lines@.map_values(|l: &str| l@),
            used == all.take(n as int),
            used == lines_within(all, limit),
            index_of(used.take(i as int)) == Ok::<Entries, Seq<char>>(ix@),
            keys_distinct(ix@),
        decreases n - i,
    {
        let ghost next = used.take(i + 1);
        assert(next.drop_last() =~= used.take(i as int));
        assert(next.last() == lines@[i as int]@);
        match parse_rule(lines[i]) {
            Ok(rule) => {
                let key = normalize(rule.label());
                ix.add(key, rule);
            },
            Err(e) => {
                proof {
                    assert(index_of(next) == Err::<Entries, Seq<char>>(e@));
                    lemma_index_prefix_err(used, i + 1);
                }
                return Err(e);
            },
        }
        i = i + 1;
    }
    assert(used.take(n as int) =~= used);
    Ok(ix)
}

} // verus!
