//! General-purpose search utilities.

use crate::text::{
    chars_of, contains_chars, contains_seq, lowercased, replace_seq, replaced, split_chars, lemma_split_without_separator,
    split_on, string_of, to_lowercase,
};
use crate::thing::HasSubreddit;
use vstd::prelude::*;

verus! {

/// What `regex::Regex::new(pattern)` and `Regex::is_match(haystack)` give:
/// `None` if `Regex::new` refuses `pattern` (it is not a valid regular
/// expression, or too large), else whether it matches somewhere in
/// `haystack`.
pub uninterp spec fn regex_finds(pattern: Seq<char>, haystack: Seq<char>) -> Option<bool>;

/// Compiles `pattern` with `regex::Regex::new` and, if it is valid, tests it
/// against `haystack` with `Regex::is_match`.
///
/// Claimed: the result is `regex_finds(pattern, haystack)`, a function of
/// the two strings alone; the regex language is not restated here.
#[verifier::external_body]
fn regex_is_match(pattern: &str, haystack: &str) -> (r: Option<bool>)
    ensures
        r == regex_finds(pattern@, haystack@),
{
    match regex::Regex::new(pattern) {
        Ok(re) => Some(re.is_match(haystack)),
        Err(_) => None,
    }
}

/// True if `pattern` matches `text` case-insensitively as a regular
/// expression, or, if `pattern` is not a valid regular expression, if it
/// occurs as a fixed string in `text`, both lowercased.
pub open spec fn pattern_matches(text: Seq<char>, pattern: Seq<char>) -> bool {
    match regex_finds(seq!['(', '?', 'i', ')'] + pattern, text) {
        Some(found) => found,
        None => contains_seq(lowercased(text), lowercased(pattern)),
    }
}

/// A thing that can be searched.
pub trait Searchable {
    /// The text that is searched.
    spec fn search_view(&self) -> Seq<char>;

    /// The haystack that can be searched for a needle.
    fn search_text(&self) -> (r: String)
        ensures
            r@ == self.search_view(),
    ;

    /// True if the search pattern can be found in the [`Searchable::search_text()`].
    ///
    /// The search is case-insensitive. `pattern` can be a regular
    /// expression; if it is not a valid one, it is searched for as a fixed
    /// string.
    fn matches(&self, pattern: &str) -> (b: bool)
        ensures
            b == pattern_matches(self.search_view(), pattern@),
    {
        let text = self.search_text();
        let mut full: Vec<char> = vec!['(', '?', 'i', ')'];
        crate::text::push_str(&mut full, pattern);
        let full = string_of(&full);
        match regex_is_match(full.as_str(), text.as_str()) {
            Some(found) => found,
            None => {
                let text = to_lowercase(text.as_str());
                let pattern = to_lowercase(pattern);
                contains_chars(&chars_of(text.as_str()), &chars_of(pattern.as_str()))
            },
        }
    }
}

/// The items of `s` for which `keep` holds, in order.
pub open spec fn kept<T>(s: Seq<T>, keep: spec_fn(T) -> bool) -> Seq<T>
    decreases s.len(),
{
    if s.len() == 0 {
        seq![]
    } else if keep(s.last()) {
        kept(s.drop_last(), keep).push(s.last())
    } else {
        kept(s.drop_last(), keep)
    }
}

/// Keeping items keeps a property that every item has, and keeps no more
/// items than there are.
pub proof fn lemma_kept_all<T>(s: Seq<T>, keep: spec_fn(T) -> bool, p: spec_fn(T) -> bool)
    requires
        forall|i: int| 0 <= i < s.len() ==> #[trigger] p(s[i]),
    ensures
        kept(s, keep).len() <= s.len(),
        forall|i: int| 0 <= i < kept(s, keep).len() ==> #[trigger] p(kept(s, keep)[i]),
    decreases s.len(),
{
    if s.len() > 0 {
        let rest = s.drop_last();
        assert forall|i: int| 0 <= i < rest.len() implies #[trigger] p(rest[i]) by {
            assert(rest[i] == s[i]);
        }
        lemma_kept_all(rest, keep, p);
        assert(p(s[s.len() - 1]));
        if keep(s.last()) {
            let k = kept(s, keep);
            assert forall|i: int| 0 <= i < k.len() implies #[trigger] p(k[i]) by {
                if i < k.len() - 1 {
                    assert(k[i] == kept(rest, keep)[i]);
                }
            }
        }
    }
}

/// The pattern of an optional needle.
pub open spec fn needle_view(needle: &Option<String>) -> Option<Seq<char>> {
    match needle {
        Some(s) => Some(s@),
        None => None,
    }
}

/// True if an item with searchable text `text` is kept by a grep for `needle`.
pub open spec fn grep_keeps(needle: Option<Seq<char>>, text: Seq<char>) -> bool {
    match needle {
        None => true,
        Some(pattern) => pattern_matches(text, pattern),
    }
}

/// A container for filtering Reddit things.
pub struct RedditFilter<T> {
    things: Vec<T>,
}

impl<T: Searchable + HasSubreddit> RedditFilter<T> {
    /// The things in the filter, in order.
    pub closed spec fn items(&self) -> Seq<T> {
        self.things@
    }

    /// Creates a new `RedditFilter` holding `things`.
    pub fn new(things: Vec<T>) -> (f: Self)
        ensures
            f.items() == things@,
    {
        RedditFilter { things }
    }

    /// The number of items in the filter.
    fn length(&self) -> (n: usize)
        ensures
            n == self.items().len(),
    {
        self.things.len()
    }

    /// Returns the first `limit` items, or all items if `limit` is `None`
    /// or exceeds their number.
    pub fn take(self, limit: &Option<u32>) -> (f: Self)
        ensures
            f.items() == match limit {
                Some(n) => if (*n as int) < self.items().len() {
                    self.items().take(*n as int)
                } else {
                    self.items()
                },
                None => self.items(),
            },
    {
        let n: usize = match limit {
            Some(n) => *n as usize,
            None => self.length(),
        };
        let mut things = self.things;
        if n < things.len() {
            things.truncate(n);
        }
        RedditFilter { things }
    }

    /// Returns all items with searchable text that matches the given needle.
    ///
    /// If `needle` is `None`, all items are returned.
    pub fn grep(self, needle: &Option<String>) -> (f: Self)
        ensures
            f.items() == kept(self.items(), |t: T| grep_keeps(needle_view(needle), t.search_view())),
    {
        let ghost items = self.things@;
        let ghost keep = |t: T| grep_keeps(needle_view(needle), t.search_view());
        let mut out: Vec<T> = Vec::new();
        for thing in it: self.things.into_iter()
            invariant
                it.seq() == items,
                keep == (|t: T| grep_keeps(needle_view(needle), t.search_view())),
                out@ == kept(items.take(it.index() as int), keep),
        {
            proof {
                assert(items.take(it.index() + 1).drop_last() =~= items.take(it.index() as int));
                assert(items.take(it.index() + 1).last() == thing);
            }
            let keep_it = match needle {
                None => true,
                Some(pattern) => thing.matches(pattern.as_str()),
            };
            if keep_it {
                out.push(thing);
            }
        }
        assert(items.take(items.len() as int) =~= items);
        RedditFilter { things: out }
    }

    /// Returns all items with subreddits matching the given set of subreddits.
    ///
    /// If `subreddits` is empty, all items are returned.
    pub fn filter(self, subreddits: &StringSet) -> (f: Self)
        ensures
            f.items() == kept(self.items(), |t: T| subreddits.admits(t.subreddit_view())),
    {
        let ghost items = self.things@;
        let ghost keep = |t: T| subreddits.admits(t.subreddit_view());
        let mut out: Vec<T> = Vec::new();
        for thing in it: self.things.into_iter()
            invariant
                it.seq() == items,
                keep == (|t: T| subreddits.admits(t.subreddit_view())),
                out@ == kept(items.take(it.index() as int), keep),
        {
            proof {
                assert(items.take(it.index() + 1).drop_last() =~= items.take(it.index() as int));
                assert(items.take(it.index() + 1).last() == thing);
            }
            if subreddits.is_empty() || subreddits.contains(thing.subreddit()) {
                out.push(thing);
            }
        }
        assert(items.take(items.len() as int) =~= items);
        RedditFilter { things: out }
    }

    /// Collects all items into a vector.
    pub fn collect(self) -> (v: Vec<T>)
        ensures
            v@ == self.items(),
    {
        self.things
    }
}

// String sets
// --------------------------------------------------------------------------

/// `s` without any spaces.
pub open spec fn without_spaces(s: Seq<char>) -> Seq<char> {
    replaced(s, seq![' '], seq![])
}

/// The strings given, with spaces removed and comma-separated lists split
/// into their elements.
pub open spec fn flattened(strings: Seq<Seq<char>>) -> Seq<Seq<char>>
    decreases strings.len(),
{
    if strings.len() == 0 {
        seq![]
    } else {
        flattened(strings.drop_last()) + split_on(without_spaces(strings.last()), ',')
    }
}

/// True if `s` is negated, that is, prefixed with `-`.
pub open spec fn is_negated_string(s: Seq<char>) -> bool {
    s.len() > 0 && s[0] == '-'
}

/// True if every string of `strings` is negated.
pub open spec fn all_negated(strings: Seq<Seq<char>>) -> bool {
    forall|i: int| 0 <= i < strings.len() ==> is_negated_string(#[trigger] strings[i])
}

/// True if no string of `strings` is negated.
pub open spec fn none_negated(strings: Seq<Seq<char>>) -> bool {
    forall|i: int| 0 <= i < strings.len() ==> !is_negated_string(#[trigger] strings[i])
}

/// `s` without its leading `-` characters.
pub open spec fn without_dashes(s: Seq<char>) -> Seq<char>
    decreases s.len(),
{
    if s.len() > 0 && s[0] == '-' {
        without_dashes(s.skip(1))
    } else {
        s
    }
}

/// The members of the set built from `strings`: each without its leading
/// dashes, in lowercase.
pub open spec fn set_members(strings: Seq<Seq<char>>) -> Set<Seq<char>> {
    Set::new(|m: Seq<char>| exists|i: int| 0 <= i < strings.len() && m == lowercased(without_dashes(#[trigger] strings[i])))
}

/// The views of the strings of `v`.
pub open spec fn string_views(v: Seq<String>) -> Seq<Seq<char>> {
    Seq::new(v.len(), |i: int| v[i]@)
}

/// No two strings of `v` are equal.
pub open spec fn distinct_views(v: Seq<String>) -> bool {
    forall|a: int, b: int| 0 <= a < b < v.len() ==> (#[trigger] v[a])@ != (#[trigger] v[b])@
}

/// The set of the views of the strings of `v`.
pub open spec fn view_set(v: Seq<String>) -> Set<Seq<char>> {
    Set::new(|m: Seq<char>| exists|i: int| 0 <= i < v.len() && m == #[trigger] v[i]@)
}

/// A set of strings.
///
/// This set can function like a normal set, but it can also store _negated_
/// strings, meaning that [`StringSet::contains()`] will return `true` if the test
/// string is _not_ contained in the set.
pub struct StringSet {
    kind: StringSetKind,
}

impl StringSet {
    /// The lowercased strings held by the set.
    pub closed spec fn members(&self) -> Set<Seq<char>> {
        match self.kind {
            StringSetKind::Positive(v) => view_set(v@),
            StringSetKind::Negative(v) => view_set(v@),
        }
    }

    /// True if the set holds negated strings.
    pub closed spec fn negated(&self) -> bool {
        self.kind is Negative
    }

    /// True if `needle` is accepted: a member of a set of non-negated
    /// strings, or not a member of a set of negated strings.
    pub open spec fn accepts(&self, needle: Seq<char>) -> bool {
        if self.negated() {
            !self.members().contains(lowercased(needle))
        } else {
            self.members().contains(lowercased(needle))
        }
    }

    /// True if a thing in the subreddit `subreddit` passes a filter on this
    /// set: the set is empty or accepts the subreddit.
    pub open spec fn admits(&self, subreddit: Seq<char>) -> bool {
        self.members().is_empty() || self.accepts(subreddit)
    }

    /// Converts a list of strings into a `StringSet`.
    ///
    /// Strings can be negated by prefixing them with a `-`; for example,
    /// `-string` will match any needles that are _not_ `"string"`. Spaces are
    /// removed and comma-separated lists are split.
    ///
    /// All strings passed in must either be negated or not negated.
    /// If strings are mixed, `None` is returned.
    pub fn from(strings: &[&str]) -> (r: Option<Self>)
        ensures
            ({
                let flat = flattened(strings@.map_values(|s: &str| s@));
                &&& r is Some <==> (none_negated(flat) || all_negated(flat))
                &&& r matches Some(set) ==> {
                    &&& set.negated() == !none_negated(flat)
                    &&& set.members() == set_members(flat)
                }
            }),
    {
        let validator = StringSetValidator::from(strings);
        if !validator.is_valid() {
            None
        } else {
            let all_positive = validator.all_positive();
            let set = validator.into_set();
            let kind = if all_positive {
                StringSetKind::Positive(set)
            } else {
                StringSetKind::Negative(set)
            };
            Some(StringSet { kind })
        }
    }

    /// True if the set contains the `needle`.
    ///
    /// If there are only non-negated strings in the set, this means that
    /// `needle` is a member of the set (ignoring case). If there are only
    /// _negated_ strings in the set, this means that `needle` is _not_
    /// contained in the set.
    pub fn contains(&self, needle: &str) -> (b: bool)
        ensures
            b == self.accepts(needle@),
    {
        let needle = to_lowercase(needle);
        match &self.kind {
            StringSetKind::Negative(set) => !contains_string(set, &needle),
            StringSetKind::Positive(set) => contains_string(set, &needle),
        }
    }

    /// True if the set contains no items.
    pub fn is_empty(&self) -> (b: bool)
        ensures
            b == self.members().is_empty(),
    {
        match &self.kind {
            StringSetKind::Negative(set) | StringSetKind::Positive(set) => {
                if set.len() > 0 {
                    assert(view_set(set@).contains(set@[0]@));
                } else {
                    assert(view_set(set@) =~= Set::<Seq<char>>::empty());
                }
                set.len() == 0
            },
        }
    }

    /// True if the set contains _negated_ strings.
    ///
    /// As a set must contain only negated or only non-negated strings,
    /// this means that every single string in the set is negated if
    /// this method returns true; conversely, it means that no string
    /// in the set is negated if this method returns false.
    pub fn is_negated(&self) -> (b: bool)
        ensures
            b == self.negated(),
    {
        self.kind.is_negated()
    }
}

/// True if a string of `v` equals `needle`.
fn contains_string(v: &Vec<String>, needle: &String) -> (b: bool)
    ensures
        b == view_set(v@).contains(needle@),
{
    for i in 0..v.len()
        invariant
            forall|k: int| 0 <= k < i ==> v@[k]@ != needle@,
    {
        if v[i] == *needle {
            assert(view_set(v@).contains(needle@)) by {
                assert(v@[i as int]@ == needle@);
            }
            return true;
        }
    }
    false
}

/// Indicates whether a set is negated or not.
pub enum StringSetKind {
    Positive(Vec<String>),
    Negative(Vec<String>),
}

impl StringSetKind {
    /// True if the set is negated.
    pub fn is_negated(&self) -> (b: bool)
        ensures
            b == (self is Negative),
    {
        match self {
            StringSetKind::Negative(_) => true,
            StringSetKind::Positive(_) => false,
        }
    }
}

/// Processes a list of strings into a flattened list and checks
/// it for validity.
pub struct StringSetValidator {
    strings: Vec<String>,
}

impl StringSetValidator {
    /// The flattened strings.
    pub closed spec fn flat(&self) -> Seq<Seq<char>> {
        string_views(self.strings@)
    }

    /// Flattens a list of strings and returns a new validator.
    ///
    /// Some or all of the elements of `strings` may be comma-separated;
    /// `from()` will remove spaces and flatten them into a single list.
    pub fn from(strings: &[&str]) -> (v: Self)
        ensures
            v.flat() == flattened(strings@.map_values(|s: &str| s@)),
    {
        let ghost given = strings@.map_values(|s: &str| s@);
        let mut fields: Vec<Vec<char>> = Vec::new();
        let space = vec![' '];
        let nothing: Vec<char> = Vec::new();
        assert(space@ =~= seq![' ']);
        assert(nothing@ =~= Seq::<char>::empty());
        for i in 0..strings.len()
            invariant
                given == strings@.map_values(|s: &str| s@),
                space@ == seq![' '],
                nothing@ == Seq::<char>::empty(),
                Seq::new(fields@.len(), |k: int| fields@[k]@) == flattened(given.take(i as int)),
        {
            let ghost before = fields@;
            let squeezed = replace_seq(&chars_of(strings[i]), &space, &nothing);
            split_chars(&squeezed, ',', &mut fields);
            proof {
                assert(given.take(i + 1).drop_last() =~= given.take(i as int));
                assert(given.take(i + 1).last() == strings@[i as int]@);
                assert(Seq::new(fields@.len(), |k: int| fields@[k]@) =~= Seq::new(
                    before.len(),
                    |k: int| before[k]@,
                ) + split_on(without_spaces(strings@[i as int]@), ','));
            }
        }
        assert(given.take(strings.len() as int) =~= given);
        let mut out: Vec<String> = Vec::new();
        for k in 0..fields.len()
            invariant
                out@.len() == k,
                forall|j: int| 0 <= j < k ==> (#[trigger] out@[j])@ == fields@[j]@,
        {
            out.push(string_of(&fields[k]));
        }
        assert(string_views(out@) =~= Seq::new(fields@.len(), |j: int| fields@[j]@));
        StringSetValidator { strings: out }
    }

    /// Returns true if either all strings are positive (not prefixed with
    /// `-`) or all strings are negative (prefixed with `-`).
    pub fn is_valid(&self) -> (b: bool)
        ensures
            b == (none_negated(self.flat()) || all_negated(self.flat())),
    {
        self.all_positive() || self.all_negative()
    }

    /// True if every string is prefixed with `-`.
    pub fn all_negative(&self) -> (b: bool)
        ensures
            b == all_negated(self.flat()),
    {
        for i in 0..self.strings.len()
            invariant
                forall|k: int| 0 <= k < i ==> is_negated_string(#[trigger] self.flat()[k]),
        {
            if !starts_with_dash(&self.strings[i]) {
                assert(!is_negated_string(self.flat()[i as int]));
                return false;
            }
        }
        true
    }

    /// True if none of the strings are prefixed with `-`.
    pub fn all_positive(&self) -> (b: bool)
        ensures
            b == none_negated(self.flat()),
    {
        for i in 0..self.strings.len()
            invariant
                forall|k: int| 0 <= k < i ==> !is_negated_string(#[trigger] self.flat()[k]),
        {
            if starts_with_dash(&self.strings[i]) {
                assert(is_negated_string(self.flat()[i as int]));
                return false;
            }
        }
        true
    }

    /// Converts the internally stored strings into a set of their
    /// lowercased forms without leading dashes, consuming the validator in
    /// the process. Each member occurs once, in the order it first appears.
    pub fn into_set(self) -> (set: Vec<String>)
        ensures
            view_set(set@) == set_members(self.flat()),
            distinct_views(set@),
    {
        let ghost flat = self.flat();
        let mut out: Vec<String> = Vec::new();
        for i in 0..self.strings.len()
            invariant
                flat == string_views(self.strings@),
                view_set(out@) == set_members(flat.take(i as int)),
                distinct_views(out@),
        {
            let trimmed = string_of(&trim_dashes(&chars_of(self.strings[i].as_str())));
            let lowered = to_lowercase(trimmed.as_str());
            let ghost before = out@;
            let seen = contains_string(&out, &lowered);
            if !seen {
                out.push(lowered);
            }
            proof {
                let m_i = lowercased(without_dashes(flat[i as int]));
                assert(lowered@ == m_i);
                assert(flat.take(i + 1).drop_last() =~= flat.take(i as int));
                assert forall|m: Seq<char>| #[trigger] view_set(out@).contains(m) implies set_members(
                    flat.take(i + 1),
                ).contains(m) by {
                    let k = choose|k: int| 0 <= k < out@.len() && m == #[trigger] out@[k]@;
                    if k < before.len() {
                        assert(out@[k] == before[k]);
                        assert(view_set(before).contains(m));
                        let j = choose|j: int|
                            0 <= j < flat.take(i as int).len() && m == lowercased(
                                without_dashes(#[trigger] flat.take(i as int)[j]),
                            );
                        assert(flat.take(i + 1)[j] == flat.take(i as int)[j]);
                    } else {
                        assert(flat.take(i + 1)[i as int] == flat[i as int]);
                    }
                }
                assert forall|m: Seq<char>| #[trigger] set_members(flat.take(i + 1)).contains(m) implies view_set(
                    out@,
                ).contains(m) by {
                    let j = choose|j: int|
                        0 <= j < flat.take(i + 1).len() && m == lowercased(
                            without_dashes(#[trigger] flat.take(i + 1)[j]),
                        );
                    if j < i {
                        assert(flat.take(i as int)[j] == flat.take(i + 1)[j]);
                        assert(set_members(flat.take(i as int)).contains(m));
                        assert(view_set(before).contains(m));
                        let k = choose|k: int| 0 <= k < before.len() && m == #[trigger] before[k]@;
                        assert(out@[k] == before[k]);
                    } else {
                        assert(flat.take(i + 1)[j] == flat[i as int]);
                        if seen {
                            let k = choose|k: int| 0 <= k < before.len() && m == #[trigger] before[k]@;
                            assert(out@[k] == before[k]);
                        } else {
                            assert(out@[before.len() as int]@ == m);
                        }
                    }
                }
                assert(view_set(out@) =~= set_members(flat.take(i + 1)));
                if !seen {
                    assert forall|a: int, b: int| 0 <= a < b < out@.len() implies (#[trigger] out@[a])@
                        != (#[trigger] out@[b])@ by {
                        if b == before.len() {
                            assert(out@[a] == before[a]);
                            assert(!view_set(before).contains(lowered@));
                        } else {
                            assert(out@[a] == before[a]);
                            assert(out@[b] == before[b]);
                        }
                    }
                }
            }
        }
        assert(flat.take(self.strings.len() as int) =~= flat);
        out
    }
}

/// True if `s` begins with `-`.
fn starts_with_dash(s: &String) -> (b: bool)
    ensures
        b == is_negated_string(s@),
{
    let v = chars_of(s.as_str());
    v.len() > 0 && v[0] == '-'
}

/// `s` without its leading `-` characters.
fn trim_dashes(s: &Vec<char>) -> (r: Vec<char>)
    ensures
        r@ == without_dashes(s@),
{
    let mut a: usize = 0;
    assert(s@.skip(0) =~= s@);
    while a < s.len() && s[a] == '-'
        invariant
            a <= s.len(),
            without_dashes(s@.skip(a as int)) == without_dashes(s@),
        decreases s.len() - a,
    {
        assert(s@.skip(a as int).skip(1) =~= s@.skip(a + 1));
        a += 1;
    }
    let mut r: Vec<char> = Vec::new();
    let mut i = a;
    while i < s.len()
        invariant
            a <= i <= s.len(),
            r@ == s@.subrange(a as int, i as int),
        decreases s.len() - i,
    {
        r.push(s[i]);
        i += 1;
        assert(r@ =~= s@.subrange(a as int, i as int));
    }
    assert(s@.skip(a as int) =~= s@.subrange(a as int, s.len() as int));
    r
}

/// Negating every string of a filter keeps its members and flips what it
/// accepts: `-string` matches any needle that is not `string`.
pub proof fn lemma_negation_complements(strings: Seq<Seq<char>>)
    requires
        none_negated(strings),
    ensures
        all_negated(strings.map_values(|s: Seq<char>| seq!['-'] + s)),
        set_members(strings.map_values(|s: Seq<char>| seq!['-'] + s)) == set_members(strings),
{
    let negated = strings.map_values(|s: Seq<char>| seq!['-'] + s);
    assert forall|i: int| 0 <= i < negated.len() implies is_negated_string(#[trigger] negated[i]) by {
        assert(negated[i] == seq!['-'] + strings[i]);
    }
    assert forall|i: int| 0 <= i < strings.len() implies without_dashes(#[trigger] negated[i])
        == without_dashes(strings[i]) by {
        let n = negated[i];
        assert(n == seq!['-'] + strings[i]);
        assert(n.skip(1) =~= strings[i]);
    }
    assert forall|m: Seq<char>| set_members(negated).contains(m) implies set_members(strings).contains(m) by {
        let k = choose|k: int| 0 <= k < negated.len() && m == lowercased(without_dashes(#[trigger] negated[k]));
        assert(m == lowercased(without_dashes(strings[k])));
    }
    assert forall|m: Seq<char>| set_members(strings).contains(m) implies set_members(negated).contains(m) by {
        let k = choose|k: int| 0 <= k < strings.len() && m == lowercased(without_dashes(#[trigger] strings[k]));
        assert(without_dashes(negated[k]) == without_dashes(strings[k]));
        assert(m == lowercased(without_dashes(negated[k])));
    }
    assert(set_members(negated) =~= set_members(strings));
}

/// A negated set accepts exactly the needles that a set of the same members
/// that is not negated rejects.
pub proof fn lemma_negated_set_accepts_the_rest(positive: StringSet, negative: StringSet, needle: Seq<char>)
    requires
        positive.members() == negative.members(),
        !positive.negated(),
        negative.negated(),
    ensures
        negative.accepts(needle) == !positive.accepts(needle),
{
}

/// Keeping the items that every item passes keeps them all.
proof fn lemma_kept_everything<T>(s: Seq<T>, keep: spec_fn(T) -> bool)
    requires
        forall|i: int| 0 <= i < s.len() ==> #[trigger] keep(s[i]),
    ensures
        kept(s, keep) == s,
    decreases s.len(),
{
    if s.len() > 0 {
        let rest = s.drop_last();
        assert forall|i: int| 0 <= i < rest.len() implies #[trigger] keep(rest[i]) by {
            assert(rest[i] == s[i]);
        }
        lemma_kept_everything(rest, keep);
        assert(keep(s[s.len() - 1]));
        assert(rest.push(s.last()) =~= s);
    }
}

/// Filtering on an empty set of subreddits returns all items.
pub proof fn lemma_filter_on_nothing_keeps_all<T: HasSubreddit>(items: Seq<T>, subreddits: StringSet)
    requires
        subreddits.members().is_empty(),
    ensures
        kept(items, |t: T| subreddits.admits(t.subreddit_view())) == items,
{
    lemma_kept_everything(items, |t: T| subreddits.admits(t.subreddit_view()));
}

/// Grepping for no needle returns all items.
pub proof fn lemma_grep_for_nothing_keeps_all<T: Searchable>(items: Seq<T>)
    ensures
        kept(items, |t: T| grep_keeps(None, t.search_view())) == items,
{
    lemma_kept_everything(items, |t: T| grep_keeps(None, t.search_view()));
}

/// True if `s` holds neither a space nor a comma, so that it passes through
/// [`flattened`] as one string.
pub open spec fn plain_token(s: Seq<char>) -> bool {
    forall|i: int| 0 <= i < s.len() ==> #[trigger] s[i] != ' ' && s[i] != ','
}

/// A string without spaces has none to remove.
proof fn lemma_no_spaces_to_remove(s: Seq<char>)
    requires
        forall|i: int| 0 <= i < s.len() ==> #[trigger] s[i] != ' ',
    ensures
        without_spaces(s) == s,
    decreases s.len(),
{
    if s.len() > 0 {
        let rest = s.skip(1);
        assert forall|i: int| 0 <= i < rest.len() implies #[trigger] rest[i] != ' ' by {
            assert(rest[i] == s[i + 1]);
        }
        lemma_no_spaces_to_remove(rest);
        assert(s.take(1) =~= seq![s[0]]);
        assert(seq![s[0]] + rest =~= s);
    }
}

/// Plain tokens flatten to themselves.
proof fn lemma_plain_tokens_flatten_to_themselves(toks: Seq<Seq<char>>)
    requires
        forall|i: int| 0 <= i < toks.len() ==> plain_token(#[trigger] toks[i]),
    ensures
        flattened(toks) == toks,
    decreases toks.len(),
{
    if toks.len() > 0 {
        let rest = toks.drop_last();
        assert forall|i: int| 0 <= i < rest.len() implies plain_token(#[trigger] rest[i]) by {
            assert(rest[i] == toks[i]);
        }
        lemma_plain_tokens_flatten_to_themselves(rest);
        let last = toks.last();
        assert(plain_token(toks[toks.len() - 1]));
        assert forall|i: int| 0 <= i < last.len() implies #[trigger] last[i] != ' ' by {
            assert(plain_token(last));
        }
        lemma_no_spaces_to_remove(last);
        assert forall|i: int| 0 <= i < last.len() implies #[trigger] last[i] != ',' by {
            assert(plain_token(last));
        }
        lemma_split_without_separator(last, ',', seq![]);
        assert(Seq::<char>::empty() + last =~= last);
        assert(rest.push(last) =~= toks);
    }
}

/// A set built from plain tokens, none negated, is valid and accepts a needle
/// exactly when some token equals it ignoring case; the set built from the
/// same tokens each prefixed with `-` is valid too and accepts exactly the
/// other needles. `positive` and `negative` stand for what
/// [`StringSet::from`] gives for the two lists.
pub proof fn lemma_negated_tokens_accept_the_rest(
    toks: Seq<Seq<char>>,
    positive: StringSet,
    negative: StringSet,
    needle: Seq<char>,
)
    requires
        forall|i: int| 0 <= i < toks.len() ==> plain_token(#[trigger] toks[i]),
        forall|i: int| 0 <= i < toks.len() ==> !is_negated_string(#[trigger] toks[i]),
        positive.negated() == !none_negated(flattened(toks)),
        positive.members() == set_members(flattened(toks)),
        negative.negated() == !none_negated(
            flattened(toks.map_values(|s: Seq<char>| seq!['-'] + s)),
        ),
        negative.members() == set_members(
            flattened(toks.map_values(|s: Seq<char>| seq!['-'] + s)),
        ),
    ensures
        none_negated(flattened(toks)),
        all_negated(flattened(toks.map_values(|s: Seq<char>| seq!['-'] + s))),
        positive.accepts(needle) <==> exists|i: int|
            0 <= i < toks.len() && lowercased(#[trigger] toks[i]) == lowercased(needle),
        toks.len() > 0 ==> (negative.accepts(needle) <==> !positive.accepts(needle)),
{
    let negs = toks.map_values(|s: Seq<char>| seq!['-'] + s);
    lemma_plain_tokens_flatten_to_themselves(toks);
    assert forall|i: int| 0 <= i < negs.len() implies plain_token(#[trigger] negs[i]) by {
        assert(negs[i] == seq!['-'] + toks[i]);
        assert(plain_token(toks[i]));
        assert forall|j: int| 0 <= j < negs[i].len() implies #[trigger] negs[i][j] != ' ' && negs[i][j]
            != ',' by {
            if j > 0 {
                assert(negs[i][j] == toks[i][j - 1]);
            }
        }
    }
    lemma_plain_tokens_flatten_to_themselves(negs);
    lemma_negation_complements(toks);
    assert forall|i: int| 0 <= i < toks.len() implies without_dashes(#[trigger] toks[i]) == toks[i] by {
        assert(!is_negated_string(toks[i]));
    }
    if positive.accepts(needle) {
        assert(positive.members().contains(lowercased(needle)));
        let i = choose|i: int|
            0 <= i < toks.len() && lowercased(needle) == lowercased(without_dashes(#[trigger] toks[i]));
        assert(lowercased(toks[i]) == lowercased(needle));
    }
    if exists|i: int| 0 <= i < toks.len() && lowercased(#[trigger] toks[i]) == lowercased(needle) {
        let i = choose|i: int| 0 <= i < toks.len() && lowercased(#[trigger] toks[i]) == lowercased(needle);
        assert(without_dashes(toks[i]) == toks[i]);
        assert(set_members(toks).contains(lowercased(needle)));
    }
    if toks.len() > 0 {
        assert(!none_negated(negs)) by {
            assert(is_negated_string(negs[0]));
        }
    }
}

} // verus!
