//! Building the text of a diagnostic.
use itertools::Itertools;
use vstd::prelude::*;
use vstd::string::*;

verus! {

/// The items of `items`, in order, with `sep` between each two neighbours.
pub open spec fn joined(items: Seq<Seq<char>>, sep: Seq<char>) -> Seq<char>
    decreases items.len(),
{
    if items.len() == 0 {
        Seq::empty()
    } else if items.len() == 1 {
        items[0]
    } else {
        joined(items.drop_last(), sep) + sep + items.last()
    }
}

/// `part` occurs in `message` as a run of neighbouring characters.
pub open spec fn mentions(message: Seq<char>, part: Seq<char>) -> bool {
    exists|i: int, j: int| 0 <= i <= j <= message.len() && #[trigger] message.subrange(i, j) == part
}

/// What occurs in a text occurs in every text that holds it.
pub proof fn lemma_mentions_inside(
    before: Seq<char>,
    message: Seq<char>,
    after: Seq<char>,
    part: Seq<char>,
)
    requires
        mentions(message, part),
    ensures
        mentions(before + message + after, part),
{
    let (i, j) = choose|i: int, j: int|
        0 <= i <= j <= message.len() && #[trigger] message.subrange(i, j) == part;
    let whole = before + message + after;
    assert(whole.subrange(before.len() + i, before.len() + j) =~= message.subrange(i, j));
}

/// Every item occurs in the joined text.
pub proof fn lemma_joined_mentions(items: Seq<Seq<char>>, sep: Seq<char>, k: int)
    requires
        0 <= k < items.len(),
    ensures
        mentions(joined(items, sep), items[k]),
    decreases items.len(),
{
    let whole = joined(items, sep);
    if items.len() == 1 {
        assert(whole.subrange(0, whole.len() as int) =~= items[0]);
    } else if k == items.len() - 1 {
        let start = whole.len() - items.last().len();
        assert(whole.subrange(start, whole.len() as int) =~= items.last());
    } else {
        lemma_joined_mentions(items.drop_last(), sep, k);
        assert(items.drop_last()[k] == items[k]);
        lemma_mentions_inside(
            Seq::empty(),
            joined(items.drop_last(), sep),
            sep + items.last(),
            items[k],
        );
        assert(Seq::<char>::empty() + joined(items.drop_last(), sep) + (sep + items.last())
            =~= whole);
    }
}

/// The character sequences of a sequence of strings.
pub open spec fn texts(items: Seq<String>) -> Seq<Seq<char>> {
    items.map_values(|s: String| s@)
}

/// Calls `Itertools::join` on the strings of `items`.
///
/// Trusted: the result is taken to be the items in order, each written as it
/// is, with `sep` between each two neighbours, and the empty string when there
/// is no item. `join` writes every item through `Display`, which for a
/// `String` writes its characters unchanged. It reserves room for one
/// separator per item before it writes; a separator of at most two
/// characters keeps that size within what a list in memory allows.
#[verifier::external_body]
pub(crate) fn join(items: &Vec<String>, sep: &str) -> (out: String)
    requires
        sep@.len() <= 2,
    ensures
        out@ == joined(texts(items@), sep@),
{
    items.iter().join(sep)
}

/// `a` followed by `b`.
pub fn concat2(a: &str, b: &str) -> (out: String)
    ensures
        out@ == a@ + b@,
{
    let mut out = String::from_str(a);
    out.append(b);
    out
}

/// `a`, `b` and `c` in a row.
pub fn concat3(a: &str, b: &str, c: &str) -> (out: String)
    ensures
        out@ == a@ + b@ + c@,
{
    let mut out = String::from_str(a);
    out.append(b);
    out.append(c);
    out
}

/// `a`, `b`, `c`, `d` and `e` in a row.
pub fn concat5(a: &str, b: &str, c: &str, d: &str, e: &str) -> (out: String)
    ensures
        out@ == a@ + b@ + c@ + d@ + e@,
{
    let mut out = String::from_str(a);
    out.append(b);
    out.append(c);
    out.append(d);
    out.append(e);
    out
}

/// Whether two string slices hold the same characters.
pub fn str_eq(a: &str, b: &str) -> (same: bool)
    ensures
        same == (a@ == b@),
{
    let x = String::from_str(a);
    let y = String::from_str(b);
    x == y
}

/// A copy of a list of strings.
pub fn copy_strings(items: &Vec<String>) -> (out: Vec<String>)
    ensures
        out@ == items@,
{
    let mut out: Vec<String> = Vec::new();
    let mut i: usize = 0;
    while i < items.len()
        invariant
            i <= items.len(),
            out@ == items@.take(i as int),
        decreases items.len() - i,
    {
        out.push(items[i].clone());
        assert(out@ =~= items@.take(i as int + 1));
        i += 1;
    }
    assert(items@.take(items.len() as int) =~= items@);
    out
}

/// Whether two lists of strings hold the same texts in the same order.
pub fn strings_eq(a: &Vec<String>, b: &Vec<String>) -> (same: bool)
    ensures
        same == (texts(a@) == texts(b@)),
{
    if a.len() != b.len() {
        assert(texts(a@).len() != texts(b@).len());
        return false;
    }
    let mut i: usize = 0;
    while i < a.len()
        invariant
            i <= a.len(),
            a.len() == b.len(),
            forall|j: int| 0 <= j < i ==> a@[j]@ == b@[j]@,
        decreases a.len() - i,
    {
        if a[i] != b[i] {
            assert(texts(a@)[i as int] != texts(b@)[i as int]);
            return false;
        }
        i += 1;
    }
    assert(texts(a@) =~= texts(b@));
    true
}

} // verus!
