//! General-purpose counting capabilities.
//!
//! Counting is done by the `counter` crate's `Counter`, whose contents are
//! described here as a multiset of names ([`counted`]).

use crate::filter::string_views;
use crate::text::{chars_of, lowercased, to_lowercase};
use crate::thing::HasSubreddit;
use counter::Counter;
use itertools::Itertools;
use std::cmp::Ordering;
use vstd::multiset::Multiset;
use vstd::prelude::*;

verus! {

broadcast use vstd::string::group_string_axioms;

#[verifier::external_type_specification]
#[verifier::external_body]
#[verifier::reject_recursive_types(T)]
#[verifier::reject_recursive_types(N)]
#[verifier::reject_recursive_types(S)]
pub struct ExCounter<T, N, S>(Counter<T, N, S>);

/// The names a counter has counted, each as often as it was counted.
pub uninterp spec fn counted(c: Counter<String>) -> Multiset<Seq<char>>;

/// The names of a sequence of (name, count) pairs.
pub open spec fn names(v: Seq<(String, usize)>) -> Seq<Seq<char>> {
    v.map_values(|p: (String, usize)| p.0@)
}

/// True if `a` comes before `b` in lexicographic order of characters (the
/// order of `String`'s `Ord`, since UTF-8 keeps the order of code points).
pub open spec fn lex_lt(a: Seq<char>, b: Seq<char>) -> bool
    decreases a.len(),
{
    if a.len() == 0 {
        b.len() > 0
    } else if b.len() == 0 {
        false
    } else if a[0] != b[0] {
        a[0] < b[0]
    } else {
        lex_lt(a.skip(1), b.skip(1))
    }
}

/// True if `a` comes before `b` once both are in lowercase.
pub open spec fn name_lt(a: Seq<char>, b: Seq<char>) -> bool {
    lex_lt(lowercased(a), lowercased(b))
}

/// Counts `names` (`Iterator::collect` into a `counter::Counter`).
///
/// Claimed: the counter has counted each name of `names` once.
#[verifier::external_body]
fn counter_of(names: Vec<String>) -> (c: Counter<String>)
    ensures
        counted(c) == string_views(names@).to_multiset(),
{
    names.into_iter().collect()
}

/// The names a counter has counted, in no particular order (the keys of
/// the `HashMap` that `counter::Counter` dereferences to).
///
/// Claimed: every counted name occurs once. Not stated: the order, which
/// is the map's hash order.
#[verifier::external_body]
fn counter_keys(c: &Counter<String>) -> (keys: Vec<String>)
    ensures
        string_views(keys@).to_multiset() == Multiset::from_set(counted(*c).dom()),
{
    c.keys().cloned().collect()
}

/// How often a counter has counted `name` (`HashMap::get` on the map that
/// `counter::Counter` dereferences to).
///
/// Claimed: `None` for a name that was never counted, else the number of
/// times it was.
#[verifier::external_body]
fn counter_get(c: &Counter<String>, name: &str) -> (n: Option<usize>)
    ensures
        n is Some <==> counted(*c).count(name@) > 0,
        n matches Some(k) ==> k == counted(*c).count(name@),
{
    c.get(name).copied()
}

/// The length of the longest common prefix of `a` and `b`, with what it
/// tells of their lexicographic order.
fn mismatch(a: &Vec<char>, b: &Vec<char>) -> (i: usize)
    ensures
        i <= a@.len(),
        i <= b@.len(),
        i < a@.len() && i < b@.len() ==> {
            &&& a@[i as int] != b@[i as int]
            &&& a@ != b@
            &&& lex_lt(a@, b@) == (a@[i as int] < b@[i as int])
            &&& lex_lt(b@, a@) == (b@[i as int] < a@[i as int])
        },
        i == a@.len() && i < b@.len() ==> lex_lt(a@, b@) && !lex_lt(b@, a@) && a@ != b@,
        i == b@.len() && i < a@.len() ==> lex_lt(b@, a@) && !lex_lt(a@, b@) && a@ != b@,
        i == a@.len() && i == b@.len() ==> a@ == b@ && !lex_lt(a@, b@),
{
    let mut i: usize = 0;
    assert(a@.skip(0) =~= a@);
    assert(b@.skip(0) =~= b@);
    while i < a.len() && i < b.len() && a[i] == b[i]
        invariant
            i <= a@.len(),
            i <= b@.len(),
            a@.take(i as int) == b@.take(i as int),
            lex_lt(a@, b@) == lex_lt(a@.skip(i as int), b@.skip(i as int)),
            lex_lt(b@, a@) == lex_lt(b@.skip(i as int), a@.skip(i as int)),
        decreases a.len() - i,
    {
        proof {
            assert(a@.skip(i as int).skip(1) =~= a@.skip(i + 1));
            assert(b@.skip(i as int).skip(1) =~= b@.skip(i + 1));
            assert(a@.take(i + 1) =~= a@.take(i as int).push(a@[i as int]));
            assert(b@.take(i + 1) =~= b@.take(i as int).push(b@[i as int]));
        }
        i += 1;
    }
    proof {
        if i < a@.len() && i < b@.len() {
            assert(a@.skip(i as int)[0] == a@[i as int]);
            assert(b@.skip(i as int)[0] == b@[i as int]);
        } else if i == a@.len() && i == b@.len() {
            assert(a@ =~= a@.take(i as int));
            assert(b@ =~= b@.take(i as int));
            assert(a@.skip(i as int).len() == 0);
        } else if i == a@.len() {
            assert(a@.skip(i as int).len() == 0);
        } else {
            assert(b@.skip(i as int).len() == 0);
        }
    }
    i
}

/// Compares `a` and `b` in lexicographic order of characters.
fn compare_chars(a: &Vec<char>, b: &Vec<char>) -> (o: Ordering)
    ensures
        (o == Ordering::Less) == lex_lt(a@, b@),
        (o == Ordering::Greater) == lex_lt(b@, a@),
        (o == Ordering::Equal) == (a@ == b@),
{
    let i = mismatch(a, b);
    if i < a.len() && i < b.len() {
        if a[i] < b[i] {
            Ordering::Less
        } else {
            Ordering::Greater
        }
    } else if i < b.len() {
        Ordering::Less
    } else if i < a.len() {
        Ordering::Greater
    } else {
        Ordering::Equal
    }
}

/// Compares two names once both are in lowercase.
fn compare_lowercase(a: &String, b: &String) -> (o: Ordering)
    ensures
        (o == Ordering::Less) == name_lt(a@, b@),
        (o == Ordering::Greater) == name_lt(b@, a@),
        (o == Ordering::Equal) == (lowercased(a@) == lowercased(b@)),
{
    let la = chars_of(to_lowercase(a.as_str()).as_str());
    let lb = chars_of(to_lowercase(b.as_str()).as_str());
    compare_chars(&la, &lb)
}

/// The counted names with their counts, most common first, names with the
/// same count in lowercase alphabetical order
/// (`counter::Counter::most_common_tiebreaker` with [`compare_lowercase`]).
///
/// Claimed: every counted name occurs once, with its count, and the list is
/// sorted by count, largest first, then by name. `most_common_tiebreaker`
/// sorts the map's entries with `sort_unstable_by` on that order. Not
/// stated: the order of names that are equal in lowercase.
#[verifier::external_body]
fn most_common_by_name(c: &Counter<String>) -> (r: Vec<(String, usize)>)
    ensures
        names(r@).to_multiset() == Multiset::from_set(counted(*c).dom()),
        forall|i: int| 0 <= i < r@.len() ==> #[trigger] r@[i].1 == counted(*c).count(r@[i].0@),
        forall|i: int, j: int|
            0 <= i < j < r@.len() ==> #[trigger] r@[i].1 > #[trigger] r@[j].1 || (r@[i].1 == r@[j].1
                && !name_lt(r@[j].0@, r@[i].0@)),
{
    c.most_common_tiebreaker(|a, b| compare_lowercase(a, b))
}

/// `names` in lowercase alphabetical order (`itertools::Itertools::sorted_by`
/// with [`compare_lowercase`], a stable sort).
///
/// Claimed: the result holds the names of `names`, as often as they occur
/// there, in lowercase alphabetical order.
#[verifier::external_body]
fn sorted_by_name(names: Vec<String>) -> (r: Vec<String>)
    ensures
        string_views(r@).to_multiset() == string_views(names@).to_multiset(),
        forall|i: int, j: int|
            0 <= i < j < r@.len() ==> !name_lt(#[trigger] r@[j]@, #[trigger] r@[i]@),
{
    names.into_iter().sorted_by(|a, b| compare_lowercase(a, b)).collect()
}

/// Differentiates between the different sorting algorithms used to return
/// subreddit counts.
#[derive(PartialEq, Eq, Structural, Clone, Copy, Debug)]
pub enum SortAlgorithm {
    /// Sort counts by name of subreddit.
    Lexicographically,
    /// Sort counts by number of comments or submissions in each subreddit.
    Numerically,
}

impl Default for SortAlgorithm {
    /// Counts are sorted by name by default.
    fn default() -> (a: Self)
        ensures
            a == SortAlgorithm::Lexicographically,
    {
        SortAlgorithm::Lexicographically
    }
}

/// A pair of subreddit name and count.
pub type SubredditCount = (String, usize);

/// The subreddits of `things`, in order.
pub open spec fn subreddits_of<A: HasSubreddit>(things: Seq<A>) -> Seq<Seq<char>> {
    things.map_values(|a: A| a.subreddit_view())
}

/// True if `r` lists each name of `counts` once, with its count.
pub open spec fn lists_counts(r: Seq<(String, usize)>, counts: Multiset<Seq<char>>) -> bool {
    &&& names(r).to_multiset() == Multiset::from_set(counts.dom())
    &&& forall|i: int| 0 <= i < r.len() ==> #[trigger] r[i].1 == counts.count(r[i].0@)
}

/// True if `r` is sorted as `algo` asks: by name in lowercase, or by count,
/// largest first, and then by name.
pub open spec fn sorted_as(r: Seq<(String, usize)>, algo: SortAlgorithm) -> bool {
    match algo {
        SortAlgorithm::Lexicographically => forall|i: int, j: int|
            0 <= i < j < r.len() ==> !name_lt(#[trigger] r[j].0@, #[trigger] r[i].0@),
        SortAlgorithm::Numerically => forall|i: int, j: int|
            0 <= i < j < r.len() ==> #[trigger] r[i].1 > #[trigger] r[j].1 || (r[i].1 == r[j].1
                && !name_lt(r[j].0@, r[i].0@)),
    }
}

/// Groups Reddit comments and submissions by subreddit and provides a count
/// of the number of items in each subreddit.
pub struct SubredditCounter {
    counts: Counter<String>,
}

impl SubredditCounter {
    /// The subreddits counted, each as often as an item was in it.
    pub closed spec fn counts_view(&self) -> Multiset<Seq<char>> {
        counted(self.counts)
    }

    /// Groups and counts comments and submissions by subreddit.
    pub fn from_iter<A: HasSubreddit>(things: Vec<A>) -> (c: Self)
        ensures
            c.counts_view() == subreddits_of(things@).to_multiset(),
    {
        let mut subreddits: Vec<String> = Vec::new();
        for i in 0..things.len()
            invariant
                string_views(subreddits@) == subreddits_of(things@.take(i as int)),
        {
            let s = String::from_str(things[i].subreddit());
            let ghost before = subreddits@;
            subreddits.push(s);
            proof {
                assert(things@.take(i as int + 1) =~= things@.take(i as int).push(things@[i as int]));
                assert(subreddits_of(things@.take(i as int + 1)) =~= subreddits_of(things@.take(i as int)).push(
                    things@[i as int].subreddit_view(),
                ));
                assert(string_views(subreddits@) =~= string_views(before).push(s@));
            }
        }
        assert(things@.take(things@.len() as int) =~= things@);
        SubredditCounter { counts: counter_of(subreddits) }
    }

    /// How many items were in the subreddit `name`; `None` if none were.
    pub fn get(&self, name: &str) -> (n: Option<usize>)
        ensures
            n is Some <==> self.counts_view().count(name@) > 0,
            n matches Some(k) ==> k == self.counts_view().count(name@),
    {
        counter_get(&self.counts, name)
    }

    /// Sorts the subreddit counts by subreddit name or the count of items
    /// in the subreddit.
    ///
    /// Returns a vector of (subreddit name, count) pairs.
    pub fn sort_by(&self, algo: &SortAlgorithm) -> (r: Vec<SubredditCount>)
        ensures
            lists_counts(r@, self.counts_view()),
            sorted_as(r@, *algo),
    {
        match algo {
            SortAlgorithm::Numerically => self.sort_numerically(),
            SortAlgorithm::Lexicographically => self.sort_lexicographically(),
        }
    }

    fn sort_numerically(&self) -> (r: Vec<SubredditCount>)
        ensures
            lists_counts(r@, self.counts_view()),
            sorted_as(r@, SortAlgorithm::Numerically),
    {
        most_common_by_name(&self.counts)
    }

    fn sort_lexicographically(&self) -> (r: Vec<SubredditCount>)
        ensures
            lists_counts(r@, self.counts_view()),
            sorted_as(r@, SortAlgorithm::Lexicographically),
    {
        let keys = counter_keys(&self.counts);
        let sorted = sorted_by_name(keys);
        let mut r: Vec<SubredditCount> = Vec::new();
        for i in 0..sorted.len()
            invariant
                string_views(sorted@).to_multiset() == Multiset::from_set(counted(self.counts).dom()),
                forall|a: int, b: int|
                    0 <= a < b < sorted@.len() ==> !name_lt(#[trigger] sorted@[b]@, #[trigger] sorted@[a]@),
                r@.len() == i,
                forall|k: int| 0 <= k < i ==> (#[trigger] r@[k]).0@ == sorted@[k]@,
                forall|k: int| 0 <= k < i ==> #[trigger] r@[k].1 == counted(self.counts).count(r@[k].0@),
        {
            let name = sorted[i].clone();
            proof {
                broadcast use vstd::seq_lib::group_to_multiset_ensures;
                broadcast use vstd::multiset::group_multiset_axioms;
                assert(string_views(sorted@)[i as int] == sorted@[i as int]@);
                assert(string_views(sorted@).contains(sorted@[i as int]@));
                assert(string_views(sorted@).to_multiset().contains(sorted@[i as int]@));
                let x = sorted@[i as int]@;
                let d = counted(self.counts).dom();
                let m = Map::new(|k: Seq<char>| d.contains(k), |k: Seq<char>| 1nat);
                assert(Multiset::from_set(d) == Multiset::from_map(m));
                assert(m.dom() =~= d);
                assert(d.finite());
                assert(Multiset::from_map(m).count(x) > 0);
                if !m.dom().contains(x) {
                    assert(Multiset::from_map(m).count(x) == 0);
                }
                assert(d.contains(x));
            }
            let n = counter_get(&self.counts, name.as_str());
            match n {
                Some(count) => r.push((name, count)),
                None => {
                    assert(false);
                },
            }
        }
        assert(names(r@) =~= string_views(sorted@));
        r
    }
}

/// The sum of the counts of `r`.
pub open spec fn sum_counts(r: Seq<(String, usize)>) -> nat
    decreases r.len(),
{
    if r.len() == 0 {
        0
    } else {
        sum_counts(r.drop_last()) + r.last().1 as nat
    }
}

/// `n` copies of `k`.
spec fn copies(k: Seq<char>, n: nat) -> Multiset<Seq<char>>
    decreases n,
{
    if n == 0 {
        Multiset::empty()
    } else {
        copies(k, (n - 1) as nat).insert(k)
    }
}

proof fn lemma_copies(k: Seq<char>, n: nat)
    ensures
        copies(k, n).len() == n,
        copies(k, n).count(k) == n,
        forall|v: Seq<char>| v != k ==> #[trigger] copies(k, n).count(v) == 0,
    decreases n,
{
    broadcast use vstd::multiset::group_multiset_axioms;
    if n > 0 {
        lemma_copies(k, (n - 1) as nat);
    }
}

/// A multiset whose domain is empty is empty.
proof fn lemma_empty_dom(m: Multiset<Seq<char>>)
    requires
        m.dom() =~= Set::empty(),
    ensures
        m.len() == 0,
{
    broadcast use vstd::multiset::group_multiset_axioms;
    assert forall|v: Seq<char>| m.count(v) == Multiset::<Seq<char>>::empty().count(v) by {
        if m.count(v) > 0 {
            assert(m.dom().contains(v));
        }
    }
    assert(m =~= Multiset::empty());
}

/// How often `v` is in the multiset made of the set `d`.
proof fn lemma_from_set_count(d: Set<Seq<char>>, v: Seq<char>)
    requires
        d.finite(),
    ensures
        Multiset::from_set(d).count(v) == if d.contains(v) { 1nat } else { 0nat },
{
    broadcast use vstd::multiset::group_multiset_axioms;
    let m = Map::new(|k: Seq<char>| d.contains(k), |k: Seq<char>| 1nat);
    assert(m.dom() =~= d);
}

/// The counts of a tally add up to the number of things counted: a list of
/// each name of `m` once, with its count, sums to the size of `m`.
pub proof fn lemma_counts_add_up(r: Seq<(String, usize)>, m: Multiset<Seq<char>>)
    requires
        lists_counts(r, m),
    ensures
        sum_counts(r) == m.len(),
    decreases r.len(),
{
    broadcast use vstd::multiset::group_multiset_axioms;
    broadcast use vstd::seq_lib::group_to_multiset_ensures;
    let d = m.dom();
    assert(d.finite());
    if r.len() == 0 {
        assert(names(r) =~= Seq::<Seq<char>>::empty());
        assert forall|v: Seq<char>| !d.contains(v) by {
            lemma_from_set_count(d, v);
            assert(names(r).to_multiset().count(v) == 0);
        }
        assert(d =~= Set::empty());
        lemma_empty_dom(m);
    } else {
        let rest = r.drop_last();
        let k = r.last().0@;
        let c = r.last().1 as nat;
        assert(names(r) =~= names(rest).push(k));
        let x = names(rest).to_multiset();
        assert(x.insert(k) =~= Multiset::from_set(d));
        lemma_from_set_count(d, k);
        assert(d.contains(k));
        assert(c == m.count(k));
        lemma_copies(k, c);
        let m2 = m.sub(copies(k, c));
        assert(copies(k, c).subset_of(m));
        assert(m2.len() == m.len() - c);
        let d2 = d.remove(k);
        assert forall|v: Seq<char>| x.count(v) == Multiset::from_set(d2).count(v) by {
            lemma_from_set_count(d, v);
            lemma_from_set_count(d2, v);
            assert(x.insert(k).count(v) == Multiset::from_set(d).count(v));
        }
        assert(x =~= Multiset::from_set(d2));
        assert(m2.dom() =~= d2) by {
            assert forall|v: Seq<char>| m2.dom().contains(v) <==> d2.contains(v) by {
                if v == k {
                    assert(m2.count(v) == 0);
                } else {
                    assert(m2.count(v) == m.count(v));
                }
            }
        }
        assert forall|i: int| 0 <= i < rest.len() implies #[trigger] rest[i].1 == m2.count(rest[i].0@) by {
            assert(rest[i] == r[i]);
            assert(names(rest)[i] == rest[i].0@);
            assert(names(rest).contains(rest[i].0@));
            if rest[i].0@ == k {
                assert(x.count(k) > 0);
                lemma_from_set_count(d2, k);
            }
        }
        lemma_counts_add_up(rest, m2);
    }
}

/// A tally of things lists as many things as there are: its counts add up
/// to the number of things.
pub proof fn lemma_tally_adds_up<A: HasSubreddit>(things: Seq<A>, r: Seq<(String, usize)>)
    requires
        lists_counts(r, subreddits_of(things).to_multiset()),
    ensures
        sum_counts(r) == things.len(),
{
    broadcast use vstd::seq_lib::group_to_multiset_ensures;
    lemma_counts_add_up(r, subreddits_of(things).to_multiset());
    assert(subreddits_of(things).len() == things.len());
}

/// A tally of things, as [`SubredditCounter::sort_by`] gives it, lists each
/// subreddit of the things exactly once, with the number of things in it
/// (at least one, the counts adding up to the number of things); sorted by
/// name, the names rise in lowercase.
pub proof fn lemma_tally_lists_each_subreddit_once<A: HasSubreddit>(
    things: Seq<A>,
    r: Seq<(String, usize)>,
)
    requires
        lists_counts(r, subreddits_of(things).to_multiset()),
    ensures
        names(r).no_duplicates(),
        forall|k: int| 0 <= k < things.len() ==> names(r).contains(#[trigger] things[k].subreddit_view()),
        forall|i: int|
            0 <= i < r.len() ==> {
                &&& subreddits_of(things).contains(#[trigger] r[i].0@)
                &&& r[i].1 >= 1
                &&& r[i].1 == subreddits_of(things).to_multiset().count(r[i].0@)
            },
        sum_counts(r) == things.len(),
        sorted_as(r, SortAlgorithm::Lexicographically) ==> forall|i: int, j: int|
            0 <= i < j < r.len() ==> !lex_lt(lowercased(#[trigger] r[j].0@), lowercased(#[trigger] r[i].0@)),
{
    broadcast use vstd::multiset::group_multiset_axioms;
    broadcast use vstd::seq_lib::group_to_multiset_ensures;
    let subs = subreddits_of(things);
    let m = subs.to_multiset();
    let ns = names(r);
    assert(m.dom().finite());
    assert forall|x: Seq<char>| ns.to_multiset().contains(x) implies ns.to_multiset().count(x) == 1 by {
        lemma_from_set_count(m.dom(), x);
    }
    ns.lemma_multiset_has_no_duplicates_conv();
    assert forall|k: int| 0 <= k < things.len() implies ns.contains(#[trigger] things[k].subreddit_view()) by {
        let x = things[k].subreddit_view();
        assert(subs[k] == x);
        assert(subs.contains(x));
        assert(m.count(x) > 0);
        assert(m.dom().contains(x));
        lemma_from_set_count(m.dom(), x);
        assert(ns.to_multiset().count(x) > 0);
    }
    assert forall|i: int| 0 <= i < r.len() implies {
        &&& subs.contains(#[trigger] r[i].0@)
        &&& r[i].1 >= 1
        &&& r[i].1 == m.count(r[i].0@)
    } by {
        let x = r[i].0@;
        assert(ns[i] == x);
        assert(ns.contains(x));
        assert(ns.to_multiset().count(x) > 0);
        lemma_from_set_count(m.dom(), x);
        assert(m.dom().contains(x));
        assert(m.count(x) > 0);
    }
    lemma_tally_adds_up(things, r);
}

} // verus!
