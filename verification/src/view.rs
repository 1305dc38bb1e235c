//! Formats viewable objects for display in a terminal.
//!
//! Parts of the output are coloured with the `colored` crate, which leaves
//! text plain when colours are switched off (no terminal, `NO_COLOR`, ...).
//! Whether a part is coloured is therefore stated as either of the two
//! ([`shown`]), and the output as the parts put together.

use crate::cli::DateFormat;
use crate::client::{cell, Redditor, Timeline, DAYS_PER_WEEK, HOURS_PER_DAY};
use crate::clock::{
    relative_age_text, representable, wall_clock_formatted, HasAge, LocalTime,
};
use crate::markdown::terminal::sgr;
use crate::text::{
    chars_of, decimal, decimal_chars, digit_char, join_chars, joined, lemma_split_across,
    lemma_split_joined, lemma_split_without_separator, pad_left, pad_left_chars, pad_right,
    pad_right_chars, plus_signed_decimal, plus_signed_decimal_chars, push_all, push_str, replaced,
    signed_decimal, signed_decimal_chars, split_chars, split_on, string_of, trim_end_by,
    trim_end_chars, trimmed, trim_by, utf8_len, utf8_len_of, views,
};
use crate::thing::{Comment, Submission};
use colored::Colorize;
use vstd::prelude::*;

verus! {

broadcast use vstd::string::group_string_axioms;

/// The escape sequence that ends a coloured part.
pub open spec fn reset() -> Seq<char> {
    sgr(seq!['0'])
}

/// `s` in the colour with SGR code `code`, as `colored` prints it: the
/// colour's escape sequence, `s` with the colour renewed after every reset
/// inside it, and a reset.
pub open spec fn painted(s: Seq<char>, code: Seq<char>) -> Seq<char> {
    sgr(code) + replaced(s, reset(), reset() + sgr(code)) + reset()
}

/// True if `r` is `s` either plain or painted in the colour `code`.
pub open spec fn shown(s: Seq<char>, code: Seq<char>, r: Seq<char>) -> bool {
    r == s || r == painted(s, code)
}

/// The SGR code of green.
pub open spec fn green() -> Seq<char> {
    seq!['3', '2']
}

/// The SGR code of yellow.
pub open spec fn yellow() -> Seq<char> {
    seq!['3', '3']
}

/// The SGR code of blue.
pub open spec fn blue() -> Seq<char> {
    seq!['3', '4']
}

/// The SGR code of magenta.
pub open spec fn magenta() -> Seq<char> {
    seq!['3', '5']
}

/// The SGR code of cyan.
pub open spec fn cyan() -> Seq<char> {
    seq!['3', '6']
}

/// Paints `s` green (`colored::Colorize::green`, printed).
///
/// Claimed: the text is `s`, plain or painted green; which of the two
/// depends on the environment and the terminal.
#[verifier::external_body]
fn paint_green(s: &str) -> (r: String)
    ensures
        shown(s@, green(), r@),
{
    s.green().to_string()
}

/// Paints `s` yellow (`colored::Colorize::yellow`, printed).
///
/// Claimed: the text is `s`, plain or painted yellow.
#[verifier::external_body]
fn paint_yellow(s: &str) -> (r: String)
    ensures
        shown(s@, yellow(), r@),
{
    s.yellow().to_string()
}

/// Paints `s` blue (`colored::Colorize::blue`, printed).
///
/// Claimed: the text is `s`, plain or painted blue.
#[verifier::external_body]
fn paint_blue(s: &str) -> (r: String)
    ensures
        shown(s@, blue(), r@),
{
    s.blue().to_string()
}

/// Paints `s` magenta (`colored::Colorize::magenta`, printed).
///
/// Claimed: the text is `s`, plain or painted magenta.
#[verifier::external_body]
fn paint_magenta(s: &str) -> (r: String)
    ensures
        shown(s@, magenta(), r@),
{
    s.magenta().to_string()
}

/// Paints `s` cyan (`colored::Colorize::cyan`, printed).
///
/// Claimed: the text is `s`, plain or painted cyan.
#[verifier::external_body]
fn paint_cyan(s: &str) -> (r: String)
    ensures
        shown(s@, cyan(), r@),
{
    s.cyan().to_string()
}

/// View renderer options.
///
/// `ViewOptions` follows a builder pattern, allowing callers to build up a
/// set of options from the default set, starting with
/// [`ViewOptions::default()`].
pub struct ViewOptions {
    date_format: DateFormat,
    oneline: bool,
    raw: bool,
}

impl Default for ViewOptions {
    /// Relative dates, full output, formatted bodies.
    fn default() -> (o: Self)
        ensures
            o.date_format_view() == DateFormat::Relative,
            !o.oneline_view(),
            !o.raw_view(),
    {
        ViewOptions { date_format: DateFormat::Relative, oneline: false, raw: false }
    }
}

impl ViewOptions {
    /// The date format option.
    pub closed spec fn date_format_view(&self) -> DateFormat {
        self.date_format
    }

    /// The "oneline" option.
    pub closed spec fn oneline_view(&self) -> bool {
        self.oneline
    }

    /// The "raw" option.
    pub closed spec fn raw_view(&self) -> bool {
        self.raw
    }

    /// Sets the date format option to relative or absolute.
    pub fn date_format(self, date_format: DateFormat) -> (o: Self)
        ensures
            o.date_format_view() == date_format,
            o.oneline_view() == self.oneline_view(),
            o.raw_view() == self.raw_view(),
    {
        ViewOptions { date_format, ..self }
    }

    /// Sets the "oneline" option to true or false.
    pub fn oneline(self, oneline: bool) -> (o: Self)
        ensures
            o.date_format_view() == self.date_format_view(),
            o.oneline_view() == oneline,
            o.raw_view() == self.raw_view(),
    {
        ViewOptions { oneline, ..self }
    }

    /// Sets the "raw" option to true or false.
    pub fn raw(self, raw: bool) -> (o: Self)
        ensures
            o.date_format_view() == self.date_format_view(),
            o.oneline_view() == self.oneline_view(),
            o.raw_view() == raw,
    {
        ViewOptions { raw, ..self }
    }

    /// True if output is printed one item per line.
    pub fn is_oneline(&self) -> (b: bool)
        ensures
            b == self.oneline_view(),
    {
        self.oneline
    }

    /// True if comment bodies are printed raw.
    pub fn is_raw(&self) -> (b: bool)
        ensures
            b == self.raw_view(),
    {
        self.raw
    }

    /// The format dates are printed in.
    pub fn chosen_date_format(&self) -> (f: DateFormat)
        ensures
            f == self.date_format_view(),
    {
        self.date_format
    }
}

/// Marks an item that can be converted into a string for display on a
/// terminal.
pub trait Viewable {
    /// True if the item can be viewed at the instant `now`.
    spec fn viewable(&self, now: i64) -> bool;

    /// Converts the item into a string for display on a terminal.
    ///
    /// `opts` control the formatting; `now` is the current time (usually
    /// what a [`Clock`](crate::clock::Clock) says), from which ages are
    /// derived.
    fn view(&self, opts: &ViewOptions, now: i64) -> String
        requires
            self.viewable(now),
    ;
}

/// A line break.
pub open spec fn nl() -> Seq<char> {
    seq!['\n']
}

/// The bullet between a comment's age and its score.
pub open spec fn bullet() -> Seq<char> {
    seq!['\u{2022}']
}

/// The absolute date of the local time `l`, such as "Thu, 17 Apr 2025, 8:44 PM".
pub open spec fn absolute_date(l: LocalTime) -> Seq<char> {
    let wall = (l.utc + l.offset) as i64;
    wall_clock_formatted(wall, "%a, %-d %b %Y"@) + seq![',', ' '] + trimmed(
        wall_clock_formatted(wall, "%l:%M %p"@),
    )
}

/// True if `d` is the date of something created at the instant `created`,
/// in format `format`, at the instant `now`.
pub open spec fn date_shown(created: i64, format: DateFormat, now: i64, d: Seq<char>) -> bool {
    match format {
        DateFormat::Relative => d == relative_age_text(now - created),
        DateFormat::Absolute => exists|l: LocalTime|
            l.utc == created && l.wf() && #[trigger] absolute_date(l) == d,
    }
}

/// True if `r` is the full view of comment `c`: subreddit, permalink, post
/// title, date and score on lines of their own, then a blank line and the
/// body.
pub open spec fn comment_full(c: Comment, format: DateFormat, now: i64, r: Seq<char>) -> bool {
    exists|sub: Seq<char>, link: Seq<char>, title: Seq<char>, date: Seq<char>, age: Seq<char>, dot: Seq<char>, score: Seq<char>|
        #![trigger shown(c.subreddit@, green(), sub), shown(c.permalink@, yellow(), link), shown(c.link_title@, magenta(), title), shown(date, blue(), age), shown(bullet(), cyan(), dot), shown(plus_signed_decimal(c.score as int), blue(), score)]
        shown(c.subreddit@, green(), sub) && shown(c.permalink@, yellow(), link) && shown(
            c.link_title@,
            magenta(),
            title,
        ) && date_shown(c.created_utc, format, now, date) && shown(date, blue(), age) && shown(
            bullet(),
            cyan(),
            dot,
        ) && shown(plus_signed_decimal(c.score as int), blue(), score) && r == sub + nl() + link
            + nl() + title + nl() + age + seq![' '] + dot + seq![' '] + score + nl() + nl()
            + c.body@
}

/// True if `r` is the one-line view of comment `c`: its subreddit and the
/// title of the post it was made on.
pub open spec fn comment_oneline(c: Comment, r: Seq<char>) -> bool {
    exists|sub: Seq<char>|
        #![trigger shown(c.subreddit@, green(), sub)]
        shown(c.subreddit@, green(), sub) && r == sub + seq![' '] + c.link_title@
}

impl Comment {
    /// The date the comment was made, as an absolute date in local time.
    pub fn format_absolute_date(&self) -> (r: String)
        requires
            self.wf(),
        ensures
            exists|l: LocalTime| l.utc == self.created_utc && l.wf() && #[trigger] absolute_date(l) == r@,
    {
        let local = LocalTime::of(self.created_utc);
        let date_part = local.format("%a, %-d %b %Y");
        let time_part = chars_of(local.format("%l:%M %p").as_str());
        let time_part = trim_by(&time_part, false);
        let mut r = chars_of(date_part.as_str());
        r.push(',');
        r.push(' ');
        push_all(&mut r, &time_part);
        assert(r@ =~= absolute_date(local));
        string_of(&r)
    }

    /// The date the comment was made, in the format the options ask for.
    fn format_date(&self, opts: &ViewOptions, now: i64) -> (r: String)
        requires
            self.wf(),
            representable(now as int),
        ensures
            date_shown(self.created_utc, opts.date_format_view(), now, r@),
    {
        match opts.date_format {
            DateFormat::Relative => self.relative_age(now),
            DateFormat::Absolute => self.format_absolute_date(),
        }
    }

    /// The comment on several lines, body included.
    fn view_full(&self, opts: &ViewOptions, now: i64) -> (r: String)
        requires
            self.wf(),
            representable(now as int),
        ensures
            comment_full(*self, opts.date_format_view(), now, r@),
    {
        let date = self.format_date(opts, now);
        let sub = paint_green(self.subreddit.as_str());
        let link = paint_yellow(self.permalink.as_str());
        let title = paint_magenta(self.link_title.as_str());
        let age = paint_blue(date.as_str());
        let dot = paint_cyan("\u{2022}");
        let score_text = string_of(&plus_signed_decimal_chars(self.score));
        let score = paint_blue(score_text.as_str());
        let mut r: Vec<char> = Vec::new();
        push_str(&mut r, sub.as_str());
        r.push('\n');
        push_str(&mut r, link.as_str());
        r.push('\n');
        push_str(&mut r, title.as_str());
        r.push('\n');
        push_str(&mut r, age.as_str());
        r.push(' ');
        push_str(&mut r, dot.as_str());
        r.push(' ');
        push_str(&mut r, score.as_str());
        r.push('\n');
        r.push('\n');
        push_str(&mut r, self.body.as_str());
        proof {
            reveal_strlit("\u{2022}");
            assert("\u{2022}"@ =~= bullet());
            assert(r@ =~= sub@ + nl() + link@ + nl() + title@ + nl() + age@ + seq![' '] + dot@
                + seq![' '] + score@ + nl() + nl() + self.body@);
        }
        string_of(&r)
    }

    /// The comment on one line.
    fn view_oneline(&self) -> (r: String)
        ensures
            comment_oneline(*self, r@),
    {
        let sub = paint_green(self.subreddit.as_str());
        let mut r: Vec<char> = Vec::new();
        push_str(&mut r, sub.as_str());
        r.push(' ');
        push_str(&mut r, self.link_title.as_str());
        assert(r@ =~= sub@ + seq![' '] + self.link_title@);
        string_of(&r)
    }
}

impl Viewable for Comment {
    open spec fn viewable(&self, now: i64) -> bool {
        self.wf() && representable(now as int)
    }

    /// The comment on one line if the options ask for it, else in full.
    fn view(&self, opts: &ViewOptions, now: i64) -> (r: String)
        ensures
            opts.oneline_view() ==> comment_oneline(*self, r@),
            !opts.oneline_view() ==> comment_full(*self, opts.date_format_view(), now, r@),
    {
        if opts.oneline {
            self.view_oneline()
        } else {
            self.view_full(opts, now)
        }
    }
}

/// The path of a post without its last segment and the title slug before
/// it: the fields of `permalink` separated by `/`, without the last two,
/// joined with `/` again.
pub open spec fn short_link(permalink: Seq<char>) -> Seq<char> {
    let parts = split_on(permalink, '/');
    let n = if parts.len() >= 2 { parts.len() - 2 } else { 0 };
    joined(parts.take(n), seq!['/'])
}

/// What a post links to: nothing for a self post, else its URL.
pub open spec fn link_target(p: Submission) -> Seq<char> {
    if p.is_self {
        seq![]
    } else {
        p.url@
    }
}

/// True if `r` is the full view of post `p`: subreddit, short permalink,
/// title, age and link on lines of their own, with trailing whitespace
/// removed (the link is empty for self posts).
pub open spec fn submission_full(p: Submission, now: i64, r: Seq<char>) -> bool {
    exists|sub: Seq<char>, link: Seq<char>, title: Seq<char>, age: Seq<char>|
        #![trigger shown(p.subreddit@, green(), sub), shown(short_link(p.permalink@), yellow(), link), shown(p.title@, magenta(), title), shown(relative_age_text(now - p.created_utc), blue(), age)]
        shown(p.subreddit@, green(), sub) && shown(short_link(p.permalink@), yellow(), link)
            && shown(p.title@, magenta(), title) && shown(
            relative_age_text(now - p.created_utc),
            blue(),
            age,
        ) && r == trim_end_by(
            sub + nl() + link + nl() + title + nl() + age + nl() + link_target(p),
            false,
        )
}

/// True if `r` is the one-line view of post `p`: its subreddit and title.
pub open spec fn submission_oneline(p: Submission, r: Seq<char>) -> bool {
    exists|sub: Seq<char>|
        #![trigger shown(p.subreddit@, green(), sub)]
        shown(p.subreddit@, green(), sub) && r == sub + seq![' '] + p.title@
}

impl Submission {
    /// The post's permalink without its title slug.
    pub fn short_permalink(&self) -> (r: String)
        ensures
            r@ == short_link(self.permalink@),
    {
        let chars = chars_of(self.permalink.as_str());
        let mut parts: Vec<Vec<char>> = Vec::new();
        split_chars(&chars, '/', &mut parts);
        proof {
            assert(views(parts@) =~= split_on(self.permalink@, '/'));
        }
        let len: usize = if parts.len() >= 2 { parts.len() - 2 } else { 0 };
        let sep = vec!['/'];
        assert(sep@ =~= seq!['/']);
        string_of(&join_chars(&parts, len, &sep))
    }

    /// What the post links to: nothing for a self post, else its URL.
    pub fn link_uri(&self) -> (r: &str)
        ensures
            r@ == link_target(*self),
    {
        if self.is_self {
            proof {
                reveal_strlit("");
            }
            ""
        } else {
            self.url.as_str()
        }
    }

    /// The post on several lines.
    fn view_full(&self, now: i64) -> (r: String)
        requires
            self.wf(),
            representable(now as int),
        ensures
            submission_full(*self, now, r@),
    {
        let sub = paint_green(self.subreddit.as_str());
        let short = self.short_permalink();
        let link = paint_yellow(short.as_str());
        let title = paint_magenta(self.title.as_str());
        let age_text = self.relative_age(now);
        let age = paint_blue(age_text.as_str());
        let mut r: Vec<char> = Vec::new();
        push_str(&mut r, sub.as_str());
        r.push('\n');
        push_str(&mut r, link.as_str());
        r.push('\n');
        push_str(&mut r, title.as_str());
        r.push('\n');
        push_str(&mut r, age.as_str());
        r.push('\n');
        push_str(&mut r, self.link_uri());
        assert(r@ =~= sub@ + nl() + link@ + nl() + title@ + nl() + age@ + nl() + link_target(*self));
        string_of(&trim_end_chars(&r, false))
    }

    /// The post on one line.
    fn view_oneline(&self) -> (r: String)
        ensures
            submission_oneline(*self, r@),
    {
        let sub = paint_green(self.subreddit.as_str());
        let mut r: Vec<char> = Vec::new();
        push_str(&mut r, sub.as_str());
        r.push(' ');
        push_str(&mut r, self.title.as_str());
        assert(r@ =~= sub@ + seq![' '] + self.title@);
        string_of(&r)
    }
}

impl Viewable for Submission {
    open spec fn viewable(&self, now: i64) -> bool {
        self.wf() && representable(now as int)
    }

    /// The post on one line if the options ask for it, else in full.
    fn view(&self, opts: &ViewOptions, now: i64) -> (r: String)
        ensures
            opts.oneline_view() ==> submission_oneline(*self, r@),
            !opts.oneline_view() ==> submission_full(*self, now, r@),
    {
        if opts.oneline {
            self.view_oneline()
        } else {
            self.view_full(now)
        }
    }
}

/// True if `r` is the account summary of `user` at the instant `now`: when
/// the account was created, in local time and relative to `now`, and its
/// karma.
pub open spec fn redditor_info(user: Redditor, now: i64, r: Seq<char>) -> bool {
    let about = user.user_view().about_view();
    exists|l: LocalTime|
        l.utc == about.created_utc && l.wf() && r == "Created: "@ + #[trigger] wall_clock_formatted(
            (l.utc + l.offset) as i64,
            "%b %d, %Y %H:%M %p"@,
        ) + seq![' ', '('] + relative_age_text(now - about.created_utc) + seq![')', '\n']
            + "Link Karma: "@ + signed_decimal(about.link_karma as int) + nl() + "Comment Karma: "@
            + signed_decimal(about.comment_karma as int)
}

impl Viewable for Redditor {
    open spec fn viewable(&self, now: i64) -> bool {
        self.wf() && representable(now as int)
    }

    /// The account's creation date, age and karma.
    fn view(&self, opts: &ViewOptions, now: i64) -> (r: String)
        ensures
            redditor_info(*self, now, r@),
    {
        let created = self.created_at();
        let local = LocalTime::of(created);
        let date = local.format("%b %d, %Y %H:%M %p");
        let age = self.relative_age(now);
        let mut r: Vec<char> = Vec::new();
        push_str(&mut r, "Created: ");
        push_str(&mut r, date.as_str());
        r.push(' ');
        r.push('(');
        push_str(&mut r, age.as_str());
        r.push(')');
        r.push('\n');
        push_str(&mut r, "Link Karma: ");
        push_all(&mut r, &signed_decimal_chars(self.link_karma()));
        r.push('\n');
        push_str(&mut r, "Comment Karma: ");
        push_all(&mut r, &signed_decimal_chars(self.comment_karma()));
        assert(r@ =~= "Created: "@ + wall_clock_formatted(
            (local.utc + local.offset) as i64,
            "%b %d, %Y %H:%M %p"@,
        ) + seq![' ', '('] + age@ + seq![')', '\n'] + "Link Karma: "@ + signed_decimal(
            self.user_view().about_view().link_karma as int,
        ) + nl() + "Comment Karma: "@ + signed_decimal(
            self.user_view().about_view().comment_karma as int,
        ));
        string_of(&r)
    }
}

/// The widest name of `counts`, in bytes; zero if there are none.
pub open spec fn name_width(counts: Seq<(String, usize)>) -> nat
    decreases counts.len(),
{
    if counts.len() == 0 {
        0
    } else {
        let rest = name_width(counts.drop_last());
        let last = utf8_len(counts.last().0@);
        if last > rest {
            last
        } else {
            rest
        }
    }
}

/// The line of a subreddit and its count in a tally: the name left-aligned
/// in a field of `width`, two spaces, and the count right-aligned in three.
pub open spec fn tally_line(name: Seq<char>, count: usize, width: nat) -> Seq<char> {
    pad_right(name, width) + seq![' ', ' '] + pad_left(decimal(count as nat), 3)
}

/// Each line of a tally followed by a line break.
pub open spec fn tally_lines(counts: Seq<(String, usize)>, width: nat) -> Seq<char>
    decreases counts.len(),
{
    if counts.len() == 0 {
        seq![]
    } else {
        tally_lines(counts.drop_last(), width) + tally_line(counts.last().0@, counts.last().1, width)
            + nl()
    }
}

/// A tally of subreddits and counts, one per line, names aligned, without
/// trailing whitespace.
pub open spec fn tally_text(counts: Seq<(String, usize)>) -> Seq<char> {
    trim_end_by(tally_lines(counts, name_width(counts)), false)
}

/// The width of the widest name of `counts`, in bytes.
fn widest_name(counts: &Vec<(String, usize)>) -> (w: usize)
    ensures
        w == name_width(counts@),
{
    let ghost cs = counts@;
    let mut w: usize = 0;
    for i in 0..counts.len()
        invariant
            cs == counts@,
            w == name_width(cs.take(i as int)),
    {
        let n = utf8_len_of(counts[i].0.as_str());
        assert(cs.take(i as int + 1).drop_last() =~= cs.take(i as int));
        if n > w {
            w = n;
        }
    }
    assert(cs.take(cs.len() as int) =~= cs);
    w
}

/// Subreddits and the number of comments or posts in each, in the order
/// they are shown.
pub struct Tally(pub Vec<(String, usize)>);

impl Viewable for Tally {
    open spec fn viewable(&self, now: i64) -> bool {
        true
    }

    /// The subreddits and their counts, one per line, names aligned.
    fn view(&self, opts: &ViewOptions, now: i64) -> (r: String)
        ensures
            r@ == tally_text(self.0@),
    {
        let counts = &self.0;
        let ghost cs = counts@;
        let width = widest_name(counts);
        let mut s: Vec<char> = Vec::new();
        for i in 0..counts.len()
            invariant
                cs == counts@,
                width == name_width(cs),
                s@ == tally_lines(cs.take(i as int), width as nat),
        {
            let name = chars_of(counts[i].0.as_str());
            let mut line = pad_right_chars(&name, width);
            line.push(' ');
            line.push(' ');
            push_all(&mut line, &pad_left_chars(&decimal_chars(counts[i].1 as u128), 3));
            assert(line@ =~= tally_line(cs[i as int].0@, cs[i as int].1, width as nat));
            push_all(&mut s, &line);
            s.push('\n');
            assert(cs.take(i as int + 1).drop_last() =~= cs.take(i as int));
        }
        assert(cs.take(cs.len() as int) =~= cs);
        string_of(&trim_end_chars(&s, false))
    }
}

/// The header of a timeline: a space, then the hours 0 to `n - 1`, each
/// right-aligned in three columns.
pub open spec fn hours_header(n: nat) -> Seq<char>
    decreases n,
{
    if n == 0 {
        seq![' ']
    } else {
        hours_header((n - 1) as nat) + pad_left(decimal((n - 1) as nat), 3)
    }
}

/// The initial of day `d` of the week, Monday (0) to Sunday (6), as
/// `chrono::Weekday` names them.
pub open spec fn weekday_initial(d: int) -> char {
    if d == 0 {
        'M'
    } else if d == 1 || d == 3 {
        'T'
    } else if d == 2 {
        'W'
    } else if d == 4 {
        'F'
    } else {
        'S'
    }
}

/// The mark of a cell: `*` if anything happened then, else a space.
pub open spec fn mark(count: nat) -> char {
    if count > 0 {
        '*'
    } else {
        ' '
    }
}

/// The row of day `d` in a timeline with counts `counts`, up to hour `n`:
/// the day's initial, then each hour's mark right-aligned in three columns.
pub open spec fn day_row(counts: Seq<nat>, d: int, n: nat) -> Seq<char>
    decreases n,
{
    if n == 0 {
        seq![weekday_initial(d)]
    } else {
        day_row(counts, d, (n - 1) as nat) + seq![' ', ' ', mark(counts[cell(d, n - 1)])]
    }
}

/// The rows of the days of a timeline.
pub open spec fn day_rows(counts: Seq<nat>) -> Seq<Seq<char>> {
    Seq::new(DAYS_PER_WEEK as nat, |d: int| day_row(counts, d, HOURS_PER_DAY as nat))
}

/// A timeline drawn as a grid: the hours across, the days down, and a `*`
/// where the user commented.
pub open spec fn timeline_text(counts: Seq<nat>) -> Seq<char> {
    hours_header(HOURS_PER_DAY as nat) + nl() + joined(day_rows(counts), nl())
}

/// Each hour label is three columns wide and holds no line break.
proof fn lemma_hours_header_shape(n: nat)
    requires
        n <= 100,
    ensures
        hours_header(n).len() == 1 + 3 * n,
        forall|i: int| 0 <= i < hours_header(n).len() ==> #[trigger] hours_header(n)[i] != '\n',
    decreases n,
{
    if n > 0 {
        let k = (n - 1) as nat;
        lemma_hours_header_shape(k);
        let d = decimal(k);
        if k < 10 {
            assert(d == seq![digit_char(k)]);
        } else {
            assert(decimal(k / 10) == seq![digit_char(k / 10)]);
            assert(d == seq![digit_char(k / 10), digit_char(k % 10)]);
        }
        assert(forall|j: int| 0 <= j < d.len() ==> #[trigger] d[j] != '\n');
        let label = pad_left(d, 3);
        assert(label.len() == 3);
        assert forall|j: int| 0 <= j < label.len() implies #[trigger] label[j] != '\n' by {
            if d.len() < 3 && j < 3 - d.len() {
                assert(label[j] == ' ');
            } else if d.len() < 3 {
                assert(label[j] == d[j - (3 - d.len())]);
            }
        }
        let h = hours_header(n);
        assert(h == hours_header(k) + label);
        assert forall|i: int| 0 <= i < h.len() implies #[trigger] h[i] != '\n' by {
            if i < hours_header(k).len() {
                assert(h[i] == hours_header(k)[i]);
            } else {
                assert(h[i] == label[i - hours_header(k).len()]);
            }
        }
    }
}

/// Day `d`'s row is its initial followed by three columns per hour: two
/// spaces and the hour's mark.
proof fn lemma_day_row_shape(counts: Seq<nat>, d: int, n: nat)
    ensures
        day_row(counts, d, n).len() == 1 + 3 * n,
        day_row(counts, d, n)[0] == weekday_initial(d),
        forall|h: int|
            0 <= h < n ==> {
                &&& #[trigger] day_row(counts, d, n)[1 + 3 * h] == ' '
                &&& day_row(counts, d, n)[2 + 3 * h] == ' '
                &&& day_row(counts, d, n)[3 + 3 * h] == mark(counts[cell(d, h)])
            },
        forall|i: int| 0 <= i < day_row(counts, d, n).len() ==> #[trigger] day_row(counts, d, n)[i] != '\n',
    decreases n,
{
    if n > 0 {
        let k = (n - 1) as nat;
        lemma_day_row_shape(counts, d, k);
        let prev = day_row(counts, d, k);
        let r = day_row(counts, d, n);
        assert(r == prev + seq![' ', ' ', mark(counts[cell(d, k as int)])]);
        assert forall|h: int| 0 <= h < n implies {
            &&& #[trigger] r[1 + 3 * h] == ' '
            &&& r[2 + 3 * h] == ' '
            &&& r[3 + 3 * h] == mark(counts[cell(d, h)])
        } by {
            if h < k {
                assert(prev[1 + 3 * h] == ' ');
            }
        }
        assert forall|i: int| 0 <= i < r.len() implies #[trigger] r[i] != '\n' by {
            if i < prev.len() {
                assert(r[i] == prev[i]);
            }
        }
        assert(weekday_initial(d) != '\n');
    } else {
        assert(weekday_initial(d) != '\n');
    }
}

/// A timeline's text has eight lines: the header, with each hour 0 to 23
/// right-aligned in three columns after a space, and one row per day from
/// Monday to Sunday. Every line is 73 columns wide; a day's row starts with
/// the day's initial, and the three columns of hour `h` hold two spaces and
/// a `*` if anything happened then, else a space.
pub proof fn lemma_timeline_layout(counts: Seq<nat>)
    ensures
        split_on(timeline_text(counts), '\n') == seq![hours_header(HOURS_PER_DAY as nat)] + day_rows(counts),
        hours_header(HOURS_PER_DAY as nat).len() == 73,
        day_rows(counts).len() == 7,
        forall|d: int|
            0 <= d < 7 ==> {
                &&& (#[trigger] day_rows(counts)[d]).len() == 73
                &&& day_rows(counts)[d][0] == weekday_initial(d)
            },
        forall|d: int, h: int|
            0 <= d < 7 && 0 <= h < 24 ==> {
                &&& #[trigger] day_rows(counts)[d][1 + 3 * h] == ' '
                &&& day_rows(counts)[d][2 + 3 * h] == ' '
                &&& day_rows(counts)[d][3 + 3 * h] == mark(counts[#[trigger] cell(d, h)])
            },
{
    let rows = day_rows(counts);
    let header = hours_header(HOURS_PER_DAY as nat);
    lemma_hours_header_shape(HOURS_PER_DAY as nat);
    assert forall|d: int| 0 <= d < 7 implies {
        &&& (#[trigger] rows[d]).len() == 73
        &&& rows[d][0] == weekday_initial(d)
        &&& forall|h: int|
            0 <= h < 24 ==> {
                &&& #[trigger] rows[d][1 + 3 * h] == ' '
                &&& rows[d][2 + 3 * h] == ' '
                &&& rows[d][3 + 3 * h] == mark(counts[cell(d, h)])
            }
        &&& forall|j: int| 0 <= j < rows[d].len() ==> #[trigger] rows[d][j] != '\n'
    } by {
        lemma_day_row_shape(counts, d, HOURS_PER_DAY as nat);
    }
    assert forall|i: int, j: int| 0 <= i < rows.len() && 0 <= j < rows[i].len() implies #[trigger] rows[i][j]
        != '\n' by {
        lemma_day_row_shape(counts, i, HOURS_PER_DAY as nat);
    }
    lemma_split_joined(rows, '\n');
    lemma_split_without_separator(header, '\n', seq![]);
    assert(Seq::<char>::empty() + header =~= header);
    lemma_split_across(header, joined(rows, nl()), '\n', seq![]);
    assert(timeline_text(counts) == header + seq!['\n'] + joined(rows, seq!['\n']));
}

/// The initial of day `d` of the week.
fn weekday_initial_of(d: usize) -> (c: char)
    ensures
        c == weekday_initial(d as int),
{
    if d == 0 {
        'M'
    } else if d == 1 || d == 3 {
        'T'
    } else if d == 2 {
        'W'
    } else if d == 4 {
        'F'
    } else {
        'S'
    }
}

impl Viewable for Timeline {
    open spec fn viewable(&self, now: i64) -> bool {
        self.wf()
    }

    /// The timeline drawn as a grid of days and hours.
    fn view(&self, opts: &ViewOptions, now: i64) -> (r: String)
        ensures
            r@ == timeline_text(self.counts()),
    {
        let mut s: Vec<char> = vec![' '];
        for i in 0..HOURS_PER_DAY
            invariant
                s@ == hours_header(i as nat),
        {
            push_all(&mut s, &pad_left_chars(&decimal_chars(i as u128), 3));
        }
        s.push('\n');
        let days = self.days();
        let mut rows: Vec<Vec<char>> = Vec::new();
        for d in 0..DAYS_PER_WEEK
            invariant
                self.wf(),
                days@.len() == DAYS_PER_WEEK,
                forall|e: int|
                    0 <= e < DAYS_PER_WEEK ==> {
                        &&& (#[trigger] days@[e]).0 == e
                        &&& days@[e].1@.len() == HOURS_PER_DAY
                        &&& forall|h: int|
                            0 <= h < HOURS_PER_DAY ==> #[trigger] days@[e].1@[h] as nat
                                == self.counts()[cell(e, h)]
                    },
                rows@.len() == d,
                forall|e: int| 0 <= e < d ==> (#[trigger] rows@[e])@ == day_row(self.counts(), e, HOURS_PER_DAY as nat),
        {
            let counts = &days[d].1;
            assert(counts@.len() == HOURS_PER_DAY);
            let mut row: Vec<char> = vec![weekday_initial_of(d)];
            for h in 0..HOURS_PER_DAY
                invariant
                    counts@.len() == HOURS_PER_DAY,
                    forall|k: int|
                        0 <= k < HOURS_PER_DAY ==> #[trigger] counts@[k] as nat == self.counts()[cell(d as int, k)],
                    row@ == day_row(self.counts(), d as int, h as nat),
            {
                let c = if counts[h] > 0 { '*' } else { ' ' };
                assert(counts@[h as int] as nat == self.counts()[cell(d as int, h as int)]);
                row.push(' ');
                row.push(' ');
                row.push(c);
            }
            rows.push(row);
        }
        let sep = vec!['\n'];
        assert(sep@ =~= nl());
        let body = join_chars(&rows, DAYS_PER_WEEK, &sep);
        assert(views(rows@).take(DAYS_PER_WEEK as int) =~= day_rows(self.counts()));
        push_all(&mut s, &body);
        string_of(&s)
    }
}

} // verus!
