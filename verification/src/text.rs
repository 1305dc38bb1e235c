//! Helpful utilities for working with text.
//!
//! Text is handled here as sequences of characters: `chars_of` and
//! `string_of` move between `str`/`String` and `Vec<char>`, and the
//! remaining functions compute on `Vec<char>` with contracts over `Seq<char>`.

use vstd::prelude::*;

verus! {

broadcast use vstd::string::group_string_axioms;

/// The characters of `s`, in order.
pub fn chars_of(s: &str) -> (r: Vec<char>)
    ensures
        r@ == s@,
{
    let mut r: Vec<char> = Vec::new();
    for c in it: s.chars()
        invariant
            it.seq() == s@,
            r@ == s@.take(it.index() as int),
    {
        r.push(c);
        assert(r@ =~= s@.take(it.index() as int + 1));
    }
    assert(r@ =~= s@);
    r
}

/// Appends one character to a string (std's `String::push`).
#[verifier::external_body]
fn string_push(s: &mut String, c: char)
    ensures
        final(s)@ == old(s)@.push(c),
{
    s.push(c);
}

/// A string holding the characters of `v`, in order.
pub fn string_of(v: &Vec<char>) -> (r: String)
    ensures
        r@ == v@,
{
    let mut r = String::new();
    for i in 0..v.len()
        invariant
            r@ == v@.take(i as int),
    {
        string_push(&mut r, v[i]);
        assert(r@ =~= v@.take(i as int + 1));
    }
    assert(v@.take(v.len() as int) =~= v@);
    r
}

/// Appends all of `s` to `out`.
pub fn push_all(out: &mut Vec<char>, s: &Vec<char>)
    ensures
        final(out)@ == old(out)@ + s@,
{
    let ghost start = out@;
    for i in 0..s.len()
        invariant
            out@ == start + s@.take(i as int),
    {
        out.push(s[i]);
        assert(out@ =~= start + s@.take(i as int + 1));
    }
    assert(s@.take(s.len() as int) =~= s@);
}

/// Appends all characters of `s` to `out`.
pub fn push_str(out: &mut Vec<char>, s: &str)
    ensures
        final(out)@ == old(out)@ + s@,
{
    let v = chars_of(s);
    push_all(out, &v);
}

/// `s` with every non-overlapping occurrence of `pat`, scanning from the
/// left, replaced by `rep`; an empty `pat` matches before every character
/// and at the end (the behaviour of `str::replace`).
pub open spec fn replaced(s: Seq<char>, pat: Seq<char>, rep: Seq<char>) -> Seq<char>
    decreases s.len(),
{
    if pat.len() == 0 {
        if s.len() == 0 {
            rep
        } else {
            rep + seq![s[0]] + replaced(s.skip(1), pat, rep)
        }
    } else if s.len() < pat.len() {
        s
    } else if s.take(pat.len() as int) == pat {
        rep + replaced(s.skip(pat.len() as int), pat, rep)
    } else {
        seq![s[0]] + replaced(s.skip(1), pat, rep)
    }
}

/// True if `pat` occurs in `s` at position `i`.
pub fn matches_at(s: &Vec<char>, i: usize, pat: &Vec<char>) -> (b: bool)
    requires
        i <= s.len(),
    ensures
        b == (pat.len() <= s.len() - i && s@.subrange(i as int, i + pat.len()) == pat@),
{
    if pat.len() > s.len() - i {
        return false;
    }
    let mut j: usize = 0;
    while j < pat.len()
        invariant
            j <= pat.len(),
            pat.len() <= s.len() - i,
            forall|k: int| 0 <= k < j ==> s@[i + k] == pat@[k],
        decreases pat.len() - j,
    {
        if s[i + j] != pat[j] {
            assert(s@.subrange(i as int, i + pat.len())[j as int] != pat@[j as int]);
            return false;
        }
        j += 1;
    }
    assert(s@.subrange(i as int, i + pat.len()) =~= pat@);
    true
}

/// Replaces every occurrence of `pat` in `s` with `rep`, as `str::replace` does.
pub fn replace_seq(s: &Vec<char>, pat: &Vec<char>, rep: &Vec<char>) -> (r: Vec<char>)
    ensures
        r@ == replaced(s@, pat@, rep@),
{
    let mut out: Vec<char> = Vec::new();
    let mut i: usize = 0;
    assert(s@.skip(0) =~= s@);
    assert(out@ + replaced(s@, pat@, rep@) =~= replaced(s@, pat@, rep@));
    if pat.len() == 0 {
        while i < s.len()
            invariant
                pat@.len() == 0,
                i <= s.len(),
                out@ + replaced(s@.skip(i as int), pat@, rep@) == replaced(s@, pat@, rep@),
            decreases s.len() - i,
        {
            assert(s@.skip(i as int).skip(1) =~= s@.skip(i + 1));
            push_all(&mut out, rep);
            out.push(s[i]);
            i += 1;
            assert(out@ + replaced(s@.skip(i as int), pat@, rep@) =~= replaced(s@, pat@, rep@));
        }
        push_all(&mut out, rep);
        assert(s@.skip(i as int) =~= Seq::<char>::empty());
    } else {
        while i < s.len()
            invariant
                pat@.len() > 0,
                i <= s.len(),
                out@ + replaced(s@.skip(i as int), pat@, rep@) == replaced(s@, pat@, rep@),
            decreases s.len() - i,
        {
            let ghost t = s@.skip(i as int);
            if matches_at(s, i, pat) {
                assert(t.take(pat.len() as int) =~= s@.subrange(i as int, i + pat.len()));
                assert(t.skip(pat.len() as int) =~= s@.skip(i + pat.len()));
                push_all(&mut out, rep);
                i += pat.len();
                assert(out@ + replaced(s@.skip(i as int), pat@, rep@) =~= replaced(s@, pat@, rep@));
            } else {
                proof {
                    if t.len() >= pat@.len() {
                        assert(t.take(pat.len() as int) =~= s@.subrange(i as int, i + pat.len()));
                    } else {
                        assert(t.skip(1).len() < pat@.len());
                        assert(replaced(t.skip(1), pat@, rep@) == t.skip(1));
                        assert(t =~= seq![t[0]] + t.skip(1));
                    }
                }
                assert(t.skip(1) =~= s@.skip(i + 1));
                out.push(s[i]);
                i += 1;
                assert(out@ + replaced(s@.skip(i as int), pat@, rep@) =~= replaced(s@, pat@, rep@));
            }
        }
        assert(s@.skip(i as int) =~= Seq::<char>::empty());
    }
    assert(out@ =~= out@ + Seq::<char>::empty());
    out
}


/// True for the characters with the Unicode `White_Space` property, which
/// is what `char::is_whitespace` tests.
pub open spec fn is_whitespace(c: char) -> bool {
    ||| c == ' '
    ||| ('\t' <= c && c <= '\r')
    ||| c == '\u{85}'
    ||| c == '\u{a0}'
    ||| c == '\u{1680}'
    ||| ('\u{2000}' <= c && c <= '\u{200a}')
    ||| c == '\u{2028}'
    ||| c == '\u{2029}'
    ||| c == '\u{202f}'
    ||| c == '\u{205f}'
    ||| c == '\u{3000}'
}

/// The characters removed by a trim: newlines only, or all whitespace.
pub open spec fn trim_char(c: char, newlines_only: bool) -> bool {
    if newlines_only {
        c == '\n'
    } else {
        is_whitespace(c)
    }
}

/// `s` without its leading trim characters.
pub open spec fn trim_start_by(s: Seq<char>, newlines_only: bool) -> Seq<char>
    decreases s.len(),
{
    if s.len() > 0 && trim_char(s[0], newlines_only) {
        trim_start_by(s.skip(1), newlines_only)
    } else {
        s
    }
}

/// `s` without its trailing trim characters.
pub open spec fn trim_end_by(s: Seq<char>, newlines_only: bool) -> Seq<char>
    decreases s.len(),
{
    if s.len() > 0 && trim_char(s.last(), newlines_only) {
        trim_end_by(s.drop_last(), newlines_only)
    } else {
        s
    }
}

/// `s` without leading and trailing whitespace (`str::trim`).
pub open spec fn trimmed(s: Seq<char>) -> Seq<char> {
    trim_end_by(trim_start_by(s, false), false)
}

/// `s` without leading and trailing newlines (`str::trim_matches('\n')`).
pub open spec fn trimmed_newlines(s: Seq<char>) -> Seq<char> {
    trim_end_by(trim_start_by(s, true), true)
}

/// True if `c` is a character that a trim removes.
pub fn is_trim_char(c: char, newlines_only: bool) -> (b: bool)
    ensures
        b == trim_char(c, newlines_only),
{
    if newlines_only {
        c == '\n'
    } else {
        c == ' ' || ('\t' <= c && c <= '\r') || c == '\u{85}' || c == '\u{a0}' || c == '\u{1680}'
            || ('\u{2000}' <= c && c <= '\u{200a}') || c == '\u{2028}' || c == '\u{2029}'
            || c == '\u{202f}' || c == '\u{205f}' || c == '\u{3000}'
    }
}

proof fn lemma_trim_start(s: Seq<char>, nl: bool, a: int)
    requires
        0 <= a <= s.len(),
        forall|k: int| 0 <= k < a ==> trim_char(#[trigger] s[k], nl),
        a < s.len() ==> !trim_char(s[a], nl),
    ensures
        trim_start_by(s, nl) == s.skip(a),
    decreases a,
{
    if a > 0 {
        assert forall|k: int| 0 <= k < a - 1 implies trim_char(#[trigger] s.skip(1)[k], nl) by {
            assert(s.skip(1)[k] == s[k + 1]);
        }
        lemma_trim_start(s.skip(1), nl, a - 1);
        assert(s.skip(1).skip(a - 1) =~= s.skip(a));
    } else {
        assert(s.skip(0) =~= s);
    }
}

proof fn lemma_trim_end(s: Seq<char>, nl: bool, b: int)
    requires
        0 <= b <= s.len(),
        forall|k: int| b <= k < s.len() ==> trim_char(#[trigger] s[k], nl),
        b > 0 ==> !trim_char(s[b - 1], nl),
    ensures
        trim_end_by(s, nl) == s.take(b),
    decreases s.len() - b,
{
    if b < s.len() {
        assert forall|k: int| b <= k < s.drop_last().len() implies trim_char(#[trigger] s.drop_last()[k], nl) by {
            assert(s.drop_last()[k] == s[k]);
        }
        lemma_trim_end(s.drop_last(), nl, b);
        assert(s.drop_last().take(b) =~= s.take(b));
    } else {
        assert(s.take(b) =~= s);
    }
}

/// Trimming leaves no trim character at either end.
pub proof fn lemma_trimmed_edges(s: Seq<char>, newlines_only: bool)
    ensures
        ({
            let t = trim_end_by(trim_start_by(s, newlines_only), newlines_only);
            t.len() > 0 ==> !trim_char(t[0], newlines_only) && !trim_char(t.last(), newlines_only)
        }),
{
    lemma_trim_start_edge(s, newlines_only);
    lemma_trim_end_keeps_start(trim_start_by(s, newlines_only), newlines_only);
}

proof fn lemma_trim_start_edge(s: Seq<char>, nl: bool)
    ensures
        trim_start_by(s, nl).len() > 0 ==> !trim_char(trim_start_by(s, nl)[0], nl),
    decreases s.len(),
{
    if s.len() > 0 && trim_char(s[0], nl) {
        lemma_trim_start_edge(s.skip(1), nl);
    }
}

proof fn lemma_trim_end_keeps_start(s: Seq<char>, nl: bool)
    requires
        s.len() > 0 ==> !trim_char(s[0], nl),
    ensures
        ({
            let t = trim_end_by(s, nl);
            t.len() > 0 ==> t[0] == s[0] && !trim_char(t.last(), nl)
        }),
    decreases s.len(),
{
    if s.len() > 0 && trim_char(s.last(), nl) {
        let d = s.drop_last();
        if d.len() > 0 {
            assert(d[0] == s[0]);
        }
        lemma_trim_end_keeps_start(d, nl);
    }
}

/// `s` without leading and trailing trim characters.
pub fn trim_by(s: &Vec<char>, newlines_only: bool) -> (r: Vec<char>)
    ensures
        r@ == trim_end_by(trim_start_by(s@, newlines_only), newlines_only),
{
    let mut a: usize = 0;
    while a < s.len() && is_trim_char(s[a], newlines_only)
        invariant
            a <= s.len(),
            forall|k: int| 0 <= k < a ==> trim_char(#[trigger] s@[k], newlines_only),
        decreases s.len() - a,
    {
        a += 1;
    }
    let mut b: usize = s.len();
    while b > a && is_trim_char(s[b - 1], newlines_only)
        invariant
            a <= b <= s.len(),
            forall|k: int| b <= k < s.len() ==> trim_char(#[trigger] s@[k], newlines_only),
        decreases b,
    {
        b -= 1;
    }
    let mut r: Vec<char> = Vec::new();
    let mut i = a;
    while i < b
        invariant
            a <= i <= b <= s.len(),
            r@ == s@.subrange(a as int, i as int),
        decreases b - i,
    {
        r.push(s[i]);
        i += 1;
        assert(r@ =~= s@.subrange(a as int, i as int));
    }
    proof {
        lemma_trim_start(s@, newlines_only, a as int);
        let t = s@.skip(a as int);
        assert forall|k: int| b - a <= k < t.len() implies trim_char(#[trigger] t[k], newlines_only) by {
            assert(t[k] == s@[k + a]);
        }
        if b > a {
            assert(t[b - a - 1] == s@[b - 1]);
        }
        lemma_trim_end(t, newlines_only, b - a);
        assert(t.take(b - a) =~= s@.subrange(a as int, b as int));
    }
    r
}

/// `s` without trailing trim characters (`str::trim_end` when
/// `newlines_only` is false).
pub fn trim_end_chars(s: &Vec<char>, newlines_only: bool) -> (r: Vec<char>)
    ensures
        r@ == trim_end_by(s@, newlines_only),
{
    let mut b: usize = s.len();
    while b > 0 && is_trim_char(s[b - 1], newlines_only)
        invariant
            b <= s.len(),
            forall|k: int| b <= k < s.len() ==> trim_char(#[trigger] s@[k], newlines_only),
        decreases b,
    {
        b -= 1;
    }
    let mut r: Vec<char> = Vec::new();
    for i in 0..b
        invariant
            b <= s.len(),
            r@ == s@.take(i as int),
    {
        r.push(s[i]);
        assert(r@ =~= s@.take(i as int + 1));
    }
    proof {
        lemma_trim_end(s@, newlines_only, b as int);
    }
    r
}

/// True if `c` occurs in `s`.
pub fn contains_char(s: &Vec<char>, c: char) -> (b: bool)
    ensures
        b == s@.contains(c),
{
    for i in 0..s.len()
        invariant
            forall|k: int| 0 <= k < i ==> s@[k] != c,
    {
        if s[i] == c {
            assert(s@[i as int] == c);
            return true;
        }
    }
    false
}


/// What `discount::text::convert_html_entities` returns for `text`: HTML
/// entities decoded and surrounding whitespace trimmed.
pub uninterp spec fn html_entities_converted(text: Seq<char>) -> Seq<char>;

/// Converts HTML entities into their single-character equivalents
/// (`discount::text::convert_html_entities`), trimming leading and trailing
/// whitespace.
///
/// Claimed: the result is `html_entities_converted(text)`, a function of
/// `text` alone; the decoding itself is not restated here.
#[verifier::external_body]
pub fn convert_html_entities(text: &str) -> (r: String)
    ensures
        r@ == html_entities_converted(text@),
{
    discount::text::convert_html_entities(text)
}


/// What `textwrap::fill` returns for `text` with `textwrap::Options::new(width)`
/// and the given first-line and subsequent-line indents.
pub uninterp spec fn filled(
    text: Seq<char>,
    width: usize,
    initial_indent: Seq<char>,
    subsequent_indent: Seq<char>,
) -> Seq<char>;

/// Wraps `text` to `width` columns (`textwrap::fill` with
/// `Options::new(width)` and the given indents).
///
/// Claimed: the result is `filled(text, width, initial_indent,
/// subsequent_indent)`, a function of the arguments alone; how lines are
/// broken is not restated here.
#[verifier::external_body]
pub(crate) fn fill(text: &str, width: usize, initial_indent: &str, subsequent_indent: &str) -> (r: String)
    ensures
        r@ == filled(text@, width, initial_indent@, subsequent_indent@),
{
    let options = textwrap::Options::new(width)
        .initial_indent(initial_indent)
        .subsequent_indent(subsequent_indent);
    textwrap::fill(text, options)
}

/// `items` joined with `sep` between consecutive items.
pub open spec fn joined(items: Seq<Seq<char>>, sep: Seq<char>) -> Seq<char>
    decreases items.len(),
{
    if items.len() == 0 {
        seq![]
    } else if items.len() == 1 {
        items[0]
    } else {
        joined(items.drop_last(), sep) + sep + items.last()
    }
}

/// `n` spaces.
pub open spec fn spaces(n: nat) -> Seq<char> {
    Seq::new(n, |i: int| ' ')
}

/// The decimal digit character for `d < 10`.
pub open spec fn digit_char(d: nat) -> char {
    (d + 48) as char
}

/// The decimal representation of `n`, without leading zeros.
pub open spec fn decimal(n: nat) -> Seq<char>
    decreases n,
{
    if n < 10 {
        seq![digit_char(n)]
    } else {
        decimal(n / 10) + seq![digit_char(n % 10)]
    }
}

/// `s` right-aligned in a field of `width` characters, padded with spaces.
pub open spec fn pad_left(s: Seq<char>, width: nat) -> Seq<char> {
    if s.len() >= width {
        s
    } else {
        spaces((width - s.len()) as nat) + s
    }
}


/// The decimal digit character for `d`.
pub fn digit(d: u128) -> (c: char)
    requires
        d < 10,
    ensures
        c == digit_char(d as nat),
{
    if d == 0 {
        '0'
    } else if d == 1 {
        '1'
    } else if d == 2 {
        '2'
    } else if d == 3 {
        '3'
    } else if d == 4 {
        '4'
    } else if d == 5 {
        '5'
    } else if d == 6 {
        '6'
    } else if d == 7 {
        '7'
    } else if d == 8 {
        '8'
    } else {
        '9'
    }
}

/// The decimal representation of `n`.
pub fn decimal_chars(n: u128) -> (r: Vec<char>)
    ensures
        r@ == decimal(n as nat),
    decreases n,
{
    if n < 10 {
        vec![digit(n)]
    } else {
        let mut r = decimal_chars(n / 10);
        r.push(digit(n % 10));
        r
    }
}

/// The decimal representation of `i`, with a leading `-` if it is negative
/// (`format!("{}", i)`).
pub open spec fn signed_decimal(i: int) -> Seq<char> {
    if i < 0 {
        seq!['-'] + decimal((-i) as nat)
    } else {
        decimal(i as nat)
    }
}

/// The decimal representation of `i` with its sign, `+` or `-`, always
/// shown (`format!("{:+}", i)`).
pub open spec fn plus_signed_decimal(i: int) -> Seq<char> {
    if i < 0 {
        seq!['-'] + decimal((-i) as nat)
    } else {
        seq!['+'] + decimal(i as nat)
    }
}

/// The decimal representation of `i`.
pub fn signed_decimal_chars(i: i64) -> (r: Vec<char>)
    ensures
        r@ == signed_decimal(i as int),
{
    if i < 0 {
        let magnitude: i128 = -(i as i128);
        let mut r = vec!['-'];
        push_all(&mut r, &decimal_chars(magnitude as u128));
        r
    } else {
        decimal_chars(i as u128)
    }
}

/// The decimal representation of `i` with its sign always shown.
pub fn plus_signed_decimal_chars(i: i64) -> (r: Vec<char>)
    ensures
        r@ == plus_signed_decimal(i as int),
{
    let magnitude: i128 = if i < 0 { -(i as i128) } else { i as i128 };
    let mut r = if i < 0 { vec!['-'] } else { vec!['+'] };
    push_all(&mut r, &decimal_chars(magnitude as u128));
    r
}

/// The number of bytes that `c` takes in UTF-8.
pub open spec fn utf8_width(c: char) -> nat {
    if (c as u32) < 0x80 {
        1
    } else if (c as u32) < 0x800 {
        2
    } else if (c as u32) < 0x10000 {
        3
    } else {
        4
    }
}

/// The number of bytes that `s` takes in UTF-8 (`str::len`).
pub open spec fn utf8_len(s: Seq<char>) -> nat
    decreases s.len(),
{
    if s.len() == 0 {
        0
    } else {
        utf8_len(s.drop_last()) + utf8_width(s.last())
    }
}

/// The length of `s` in bytes (std's `str::len`).
///
/// Claimed: the length is that of the UTF-8 encoding of `s@`, one to four
/// bytes per character as [`utf8_width`] says; `str` is documented to be
/// UTF-8 and `len` to count bytes.
#[verifier::external_body]
pub(crate) fn utf8_len_of(s: &str) -> (n: usize)
    ensures
        n == utf8_len(s@),
{
    s.len()
}

/// `s` left-aligned in a field of `width` characters, padded with spaces
/// (`format!("{:width$}", s)`).
pub open spec fn pad_right(s: Seq<char>, width: nat) -> Seq<char> {
    if s.len() >= width {
        s
    } else {
        s + spaces((width - s.len()) as nat)
    }
}

/// `s` left-aligned in a field of `width` characters.
pub fn pad_right_chars(s: &Vec<char>, width: usize) -> (r: Vec<char>)
    ensures
        r@ == pad_right(s@, width as nat),
{
    let mut r: Vec<char> = Vec::new();
    push_all(&mut r, s);
    if s.len() < width {
        push_repeated(&mut r, ' ', width - s.len());
        assert(Seq::new((width - s.len()) as nat, |i: int| ' ') =~= spaces((width - s.len()) as nat));
    }
    assert(r@ =~= pad_right(s@, width as nat));
    r
}

/// Appends `n` copies of `c` to `out`.
pub fn push_repeated(out: &mut Vec<char>, c: char, n: usize)
    ensures
        final(out)@ == old(out)@ + Seq::new(n as nat, |i: int| c),
{
    let ghost start = out@;
    for i in 0..n
        invariant
            out@ == start + Seq::new(i as nat, |k: int| c),
    {
        out.push(c);
        assert(out@ =~= start + Seq::new((i + 1) as nat, |k: int| c));
    }
}

/// `s` right-aligned in a field of `width` characters.
pub fn pad_left_chars(s: &Vec<char>, width: usize) -> (r: Vec<char>)
    ensures
        r@ == pad_left(s@, width as nat),
{
    let mut r: Vec<char> = Vec::new();
    if s.len() < width {
        push_repeated(&mut r, ' ', width - s.len());
        assert(Seq::new((width - s.len()) as nat, |i: int| ' ') =~= spaces((width - s.len()) as nat));
    }
    push_all(&mut r, s);
    assert(r@ =~= pad_left(s@, width as nat));
    r
}

/// The views of a sequence of character vectors.
pub open spec fn views(v: Seq<Vec<char>>) -> Seq<Seq<char>> {
    Seq::new(v.len(), |i: int| v[i]@)
}

/// The first `n` of `items` joined with `sep` between consecutive items
/// (`join` on a slice of strings).
pub fn join_chars(items: &Vec<Vec<char>>, n: usize, sep: &Vec<char>) -> (r: Vec<char>)
    requires
        n <= items@.len(),
    ensures
        r@ == joined(views(items@).take(n as int), sep@),
{
    let ghost all = views(items@);
    let mut r: Vec<char> = Vec::new();
    for k in 0..n
        invariant
            n <= items@.len(),
            all == views(items@),
            r@ == joined(all.take(k as int), sep@),
    {
        proof {
            lemma_joined_step(all, sep@, k as int);
        }
        if k > 0 {
            push_all(&mut r, sep);
        }
        push_all(&mut r, &items[k]);
        assert(all[k as int] == items@[k as int]@);
    }
    r
}

/// Holds of every `k` below the length of `items`: joining the first `k + 1`
/// items appends `sep` and item `k` to joining the first `k`.
pub proof fn lemma_joined_step(items: Seq<Seq<char>>, sep: Seq<char>, k: int)
    requires
        0 <= k < items.len(),
    ensures
        joined(items.take(k + 1), sep) == if k == 0 {
            items[0]
        } else {
            joined(items.take(k), sep) + sep + items[k]
        },
{
    assert(items.take(k + 1).drop_last() =~= items.take(k));
}


/// What `str::to_lowercase` returns for `s`: its lowercase equivalent
/// under the Unicode `Lowercase` property.
pub uninterp spec fn lowercased(s: Seq<char>) -> Seq<char>;

/// The lowercase equivalent of `s` (std's `str::to_lowercase`).
///
/// Claimed: the result is `lowercased(s)`, a function of `s` alone.
#[verifier::external_body]
pub(crate) fn to_lowercase(s: &str) -> (r: String)
    ensures
        r@ == lowercased(s@),
{
    s.to_lowercase()
}

/// True if `needle` occurs in `haystack` (`str::contains` with a string
/// pattern; an empty needle occurs everywhere).
pub open spec fn contains_seq(haystack: Seq<char>, needle: Seq<char>) -> bool {
    exists|i: int|
        0 <= i && i + needle.len() <= haystack.len() && #[trigger] haystack.subrange(i, i + needle.len())
            == needle
}

/// True if `needle` occurs in `haystack`.
pub fn contains_chars(haystack: &Vec<char>, needle: &Vec<char>) -> (b: bool)
    ensures
        b == contains_seq(haystack@, needle@),
{
    if needle.len() == 0 {
        assert(haystack@.subrange(0int, 0int + needle@.len()) =~= needle@);
        return true;
    }
    if needle.len() > haystack.len() {
        return false;
    }
    let last = haystack.len() - needle.len();
    let mut i: usize = 0;
    while i <= last
        invariant
            last == haystack@.len() - needle@.len(),
            needle@.len() >= 1,
            last < usize::MAX,
            i <= last + 1,
            forall|k: int|
                0 <= k < i && k + needle@.len() <= haystack@.len() ==> #[trigger] haystack@.subrange(
                    k,
                    k + needle@.len(),
                ) != needle@,
        decreases last + 1 - i,
    {
        if matches_at(haystack, i, needle) {
            return true;
        }
        i += 1;
    }
    proof {
        assert forall|k: int|
            0 <= k && k + needle@.len() <= haystack@.len() implies #[trigger] haystack@.subrange(
                k,
                k + needle@.len(),
            ) != needle@ by {
            assert(k < i);
        }
    }
    false
}

/// The fields of `s` separated by `sep`, after the field `current` that is
/// already open; there is always at least one field (`str::split` with a
/// `char` pattern).
pub open spec fn split_from(s: Seq<char>, sep: char, current: Seq<char>) -> Seq<Seq<char>>
    decreases s.len(),
{
    if s.len() == 0 {
        seq![current]
    } else if s[0] == sep {
        seq![current] + split_from(s.skip(1), sep, seq![])
    } else {
        split_from(s.skip(1), sep, current.push(s[0]))
    }
}

/// The fields of `s` separated by `sep` (`str::split` with a `char`).
pub open spec fn split_on(s: Seq<char>, sep: char) -> Seq<Seq<char>> {
    split_from(s, sep, seq![])
}

/// A string without the separator is one field.
pub proof fn lemma_split_without_separator(s: Seq<char>, sep: char, current: Seq<char>)
    requires
        forall|i: int| 0 <= i < s.len() ==> #[trigger] s[i] != sep,
    ensures
        split_from(s, sep, current) == seq![current + s],
    decreases s.len(),
{
    if s.len() > 0 {
        let rest = s.skip(1);
        assert forall|i: int| 0 <= i < rest.len() implies #[trigger] rest[i] != sep by {
            assert(rest[i] == s[i + 1]);
        }
        lemma_split_without_separator(rest, sep, current.push(s[0]));
        assert(current.push(s[0]) + rest =~= current + s);
    }
}

/// Splitting at a separator splits each side: the fields of `x`, the last
/// one closed by the separator, then the fields of `y`.
pub proof fn lemma_split_across(x: Seq<char>, y: Seq<char>, sep: char, current: Seq<char>)
    ensures
        split_from(x + seq![sep] + y, sep, current) == split_from(x, sep, current) + split_from(
            y,
            sep,
            seq![],
        ),
    decreases x.len(),
{
    let whole = x + seq![sep] + y;
    if x.len() == 0 {
        assert(whole =~= seq![sep] + y);
        assert(whole.skip(1) =~= y);
    } else {
        assert(whole.skip(1) =~= x.skip(1) + seq![sep] + y);
        assert(whole[0] == x[0]);
        if x[0] == sep {
            lemma_split_across(x.skip(1), y, sep, seq![]);
            assert(seq![current] + split_from(x.skip(1), sep, seq![]) + split_from(y, sep, seq![])
                =~= seq![current] + (split_from(x.skip(1), sep, seq![]) + split_from(y, sep, seq![])));
        } else {
            lemma_split_across(x.skip(1), y, sep, current.push(x[0]));
        }
    }
}

/// Splitting after an open field only lengthens that first field: the
/// other fields are those of splitting with nothing open.
pub proof fn lemma_split_open_field(s: Seq<char>, sep: char, current: Seq<char>)
    ensures
        split_from(s, sep, current).len() == split_from(s, sep, seq![]).len(),
        split_from(s, sep, current).len() >= 1,
        split_from(s, sep, current)[0] == current + split_from(s, sep, seq![])[0],
        split_from(s, sep, current).skip(1) == split_from(s, sep, seq![]).skip(1),
    decreases s.len(),
{
    if s.len() == 0 {
        assert(current + Seq::<char>::empty() =~= current);
    } else if s[0] == sep {
        assert(current + Seq::<char>::empty() =~= current);
        assert(split_from(s, sep, current).skip(1) =~= split_from(s.skip(1), sep, seq![]));
        assert(split_from(s, sep, seq![]).skip(1) =~= split_from(s.skip(1), sep, seq![]));
    } else {
        let rest = s.skip(1);
        lemma_split_open_field(rest, sep, current.push(s[0]));
        lemma_split_open_field(rest, sep, seq![s[0]]);
        assert(Seq::<char>::empty().push(s[0]) =~= seq![s[0]]);
        assert(current.push(s[0]) + split_from(rest, sep, seq![])[0] =~= current + (seq![s[0]]
            + split_from(rest, sep, seq![])[0]));
    }
}

/// Characters other than the separator before a text join the field that
/// is open.
pub proof fn lemma_split_after_prefix(a: Seq<char>, x: Seq<char>, sep: char, current: Seq<char>)
    requires
        forall|i: int| 0 <= i < a.len() ==> #[trigger] a[i] != sep,
    ensures
        split_from(a + x, sep, current) == split_from(x, sep, current + a),
    decreases a.len(),
{
    if a.len() == 0 {
        assert(a + x =~= x);
        assert(current + a =~= current);
    } else {
        let rest = a.skip(1);
        assert forall|i: int| 0 <= i < rest.len() implies #[trigger] rest[i] != sep by {
            assert(rest[i] == a[i + 1]);
        }
        assert((a + x)[0] == a[0]);
        assert((a + x).skip(1) =~= rest + x);
        lemma_split_after_prefix(rest, x, sep, current.push(a[0]));
        assert(current.push(a[0]) + rest =~= current + a);
    }
}

/// Lines joined by a separator that none of them holds split back into
/// those lines.
pub proof fn lemma_split_joined(items: Seq<Seq<char>>, sep: char)
    requires
        items.len() > 0,
        forall|i: int, j: int| 0 <= i < items.len() && 0 <= j < items[i].len() ==> #[trigger] items[i][j] != sep,
    ensures
        split_on(joined(items, seq![sep]), sep) == items,
    decreases items.len(),
{
    let last = items.last();
    assert forall|j: int| 0 <= j < last.len() implies #[trigger] last[j] != sep by {
        assert(items[items.len() - 1][j] != sep);
    }
    lemma_split_without_separator(last, sep, seq![]);
    assert(Seq::<char>::empty() + last =~= last);
    if items.len() == 1 {
        assert(seq![last] =~= items);
    } else {
        let init = items.drop_last();
        assert forall|i: int, j: int| 0 <= i < init.len() && 0 <= j < init[i].len() implies #[trigger] init[i][j] != sep by {
            assert(init[i] == items[i]);
        }
        lemma_split_joined(init, sep);
        lemma_split_across(joined(init, seq![sep]), last, sep, seq![]);
        assert(init + seq![last] =~= items);
    }
}

/// Splits `s` on `sep`, appending the fields to `out`.
pub fn split_chars(s: &Vec<char>, sep: char, out: &mut Vec<Vec<char>>)
    ensures
        final(out)@.len() == old(out)@.len() + split_on(s@, sep).len(),
        forall|i: int| 0 <= i < old(out)@.len() ==> #[trigger] final(out)@[i] == old(out)@[i],
        forall|i: int|
            old(out)@.len() <= i < final(out)@.len() ==> (#[trigger] final(out)@[i])@ == split_on(
                s@,
                sep,
            )[i - old(out)@.len()],
{
    let ghost start = out@;
    let ghost fields: Seq<Seq<char>> = seq![];
    let mut current: Vec<char> = Vec::new();
    let mut i: usize = 0;
    assert(s@.skip(0) =~= s@);
    while i < s.len()
        invariant
            i <= s.len(),
            out@.len() == start.len() + fields.len(),
            forall|k: int| 0 <= k < start.len() ==> #[trigger] out@[k] == start[k],
            forall|k: int| start.len() <= k < out@.len() ==> (#[trigger] out@[k])@ == fields[k - start.len()],
            fields + split_from(s@.skip(i as int), sep, current@) == split_on(s@, sep),
        decreases s.len() - i,
    {
        assert(s@.skip(i as int).skip(1) =~= s@.skip(i + 1));
        if s[i] == sep {
            proof {
                assert(fields + seq![current@] + split_from(s@.skip(i + 1), sep, seq![]) =~= fields
                    + split_from(s@.skip(i as int), sep, current@));
                fields = fields + seq![current@];
            }
            out.push(current);
            current = Vec::new();
            assert(current@ =~= Seq::<char>::empty());
        } else {
            current.push(s[i]);
        }
        i += 1;
    }
    proof {
        assert(s@.skip(i as int) =~= Seq::<char>::empty());
        assert(fields + seq![current@] =~= split_on(s@, sep));
    }
    out.push(current);
}


/// What `regex::Regex::new(pattern)` followed by `Regex::replace_all(haystack,
/// rep)` gives: `None` if `Regex::new` refuses `pattern` (it is not a valid
/// regular expression, or too large), else `haystack` with every
/// non-overlapping match replaced by `rep` (in which `$name` and `${name}`
/// stand for capture groups).
pub uninterp spec fn regex_all_replaced(pattern: Seq<char>, haystack: Seq<char>, rep: Seq<char>) -> Option<Seq<char>>;

/// Compiles `pattern` with `regex::Regex::new` and, if it is valid, replaces
/// all of its matches in `haystack` with `rep` (`Regex::replace_all`).
///
/// Claimed: the result is `regex_all_replaced(pattern, haystack, rep)`, a
/// function of the three strings alone; the regex language is not restated.
#[verifier::external_body]
fn regex_replace_all(pattern: &str, haystack: &str, rep: &str) -> (r: Option<String>)
    ensures
        r matches Some(s) ==> regex_all_replaced(pattern@, haystack@, rep@) == Some(s@),
        r is None ==> regex_all_replaced(pattern@, haystack@, rep@) is None,
{
    match regex::Regex::new(pattern) {
        Ok(re) => Some(re.replace_all(haystack, rep).to_string()),
        Err(_) => None,
    }
}

/// The text that [`RegexReplaceable::replace_all`] makes of `s`: the regex
/// replacement when `needle` is a valid regular expression, else a plain
/// replacement of every occurrence of `needle` (as `str::replace` does).
pub open spec fn regex_or_plain_replaced(s: Seq<char>, needle: Seq<char>, repl: Seq<char>) -> Seq<char> {
    match regex_all_replaced(needle, s, repl) {
        Some(r) => r,
        None => replaced(s, needle, repl),
    }
}

/// A string-like structure with parts that can be matched against a
/// regex and replaced.
pub trait RegexReplaceable: Sized {
    /// Search the target for `needle` and replace matches with `repl`,
    /// returning a new version of the target.
    fn replace_all(&self, needle: &str, repl: &str) -> Self;
}

impl RegexReplaceable for String {
    /// Search the string for `needle` and replace matches with `repl`,
    /// returning a new string with the replaced text.
    ///
    /// `needle` is a regular expression; if it is not a valid one, every
    /// occurrence of it as a fixed string is replaced instead.
    fn replace_all(&self, needle: &str, repl: &str) -> (r: String)
        ensures
            r@ == regex_or_plain_replaced(self@, needle@, repl@),
    {
        match regex_replace_all(needle, self.as_str(), repl) {
            Some(r) => r,
            None => {
                let s = chars_of(self.as_str());
                let pat = chars_of(needle);
                let rep = chars_of(repl);
                string_of(&replace_seq(&s, &pat, &rep))
            },
        }
    }
}

} // verus!
