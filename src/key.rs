use vstd::prelude::*;

verus! {

/// Whether `c` has the Unicode `Alphabetic` property.
pub uninterp spec fn alphabetic(c: char) -> bool;

/// Whether `c` has a Unicode numeric general category.
pub uninterp spec fn numeric(c: char) -> bool;

/// Relies on `char::is_alphabetic`, whose answer depends on `c` alone.
#[verifier::external_body]
fn is_alphabetic_char(c: char) -> (r: bool)
    ensures
        r == alphabetic(c),
{
    c.is_alphabetic()
}

/// Relies on `char::is_numeric`, whose answer depends on `c` alone.
#[verifier::external_body]
fn is_numeric_char(c: char) -> (r: bool)
    ensures
        r == numeric(c),
{
    c.is_numeric()
}

/// Number of leading `true`s in `flags`.
pub open spec fn run_len(flags: Seq<bool>) -> nat
    decreases flags.len(),
{
    if flags.len() == 0 || !flags[0] {
        0
    } else {
        1 + run_len(flags.drop_first())
    }
}

proof fn lemma_run_len(flags: Seq<bool>, k: int)
    requires
        0 <= k <= flags.len(),
        forall|j: int| 0 <= j < k ==> #[trigger] flags[j],
        k == flags.len() || !flags[k],
    ensures
        run_len(flags) == k,
    decreases k,
{
    if k > 0 {
        let t = flags.drop_first();
        assert forall|j: int| 0 <= j < k - 1 implies #[trigger] t[j] by {
            assert(t[j] == flags[j + 1]);
        }
        lemma_run_len(t, k - 1);
    }
}

/// The key of `label`, where `alpha[i]` tells whether `label[i]` is
/// alphabetic and `first_numeric` whether the first character is numeric.
/// A label that starts alphanumeric and ends with `)` keeps what precedes
/// its first `(`; one that starts with neither keeps its leading run of
/// non-alphabetic characters; any other stays as it is.
pub open spec fn key_from(label: Seq<char>, alpha: Seq<bool>, first_numeric: bool) -> Seq<char> {
    if label.len() > 0 && (alpha[0] || first_numeric) && label.last() == ')' {
        label.take(run_len(label.map_values(|c: char| c != '(')) as int)
    } else if label.len() > 0 && !alpha[0] && !first_numeric {
        label.take(run_len(alpha.map_values(|b: bool| !b)) as int)
    } else {
        label
    }
}

/// The key of `label` under the Unicode classification of its characters.
pub open spec fn key_of(label: Seq<char>) -> Seq<char> {
    key_from(
        label,
        Seq::new(label.len(), |i: int| alphabetic(label[i])),
        label.len() > 0 && numeric(label[0]),
    )
}

/// The index key of `label`, given for each of its characters whether it is
/// alphabetic and whether its first character is numeric.
pub fn normalize_classified(label: &str, alpha: &Vec<bool>, first_numeric: bool) -> (r: String)
    requires
        alpha@.len() == label@.len(),
    ensures
        r@ == key_from(label@, alpha@, first_numeric),
{
    let n = label.unicode_len();
    if n > 0 && (alpha[0] || first_numeric) && label.get_char(n - 1) == ')' {
        let ghost flags = label@.map_values(|c: char| c != '(');
        let mut k: usize = 0;
        while k < n && label.get_char(k) != '('
            invariant
                k <= n,
                n == label@.len(),
                flags == label@.map_values(|c: char| c != '('),
                forall|j: int| 0 <= j < k ==> #[trigger] flags[j],
            decreases n - k,
        {
            k = k + 1;
        }
        proof {
            lemma_run_len(flags, k as int);
        }
        label.substring_char(0, k).to_owned()
    } else if n > 0 && !alpha[0] && !first_numeric {
        let ghost flags = alpha@.map_values(|b: bool| !b);
        let mut k: usize = 0;
        while k < n && !alpha[k]
            invariant
                k <= n,
                n == label@.len(),
                n == alpha@.len(),
                flags == alpha@.map_values(|b: bool| !b),
                forall|j: int| 0 <= j < k ==> #[trigger] flags[j],
            decreases n - k,
        {
            k = k + 1;
        }
        proof {
            lemma_run_len(flags, k as int);
        }
        label.substring_char(0, k).to_owned()
    } else {
        label.to_owned()
    }
}

/// The index key of `label`: its homograph suffix such as `(1)` removed, or,
/// for a label led by punctuation, that leading punctuation alone.
pub fn normalize(label: &str) -> (r: String)
    ensures
        r@ == key_of(label@),
{
    let n = label.unicode_len();
    let mut alpha: Vec<bool> = Vec::new();
    let mut i: usize = 0;
    while i < n
        invariant
            i <= n,
            n == label@.len(),
            alpha@.len() == i,
            forall|j: int| 0 <= j < i ==> alpha@[j] == alphabetic(#[trigger] label@[j]),
        decreases n - i,
    {
        alpha.push(is_alphabetic_char(label.get_char(i)));
        i = i + 1;
    }
    let first_numeric = n > 0 && is_numeric_char(label.get_char(0));
    assert(alpha@ =~= Seq::new(label@.len(), |j: int| alphabetic(label@[j])));
    normalize_classified(label, &alpha, first_numeric)
}

} // verus!
