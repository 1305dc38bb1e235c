//! The command-line program's options and what it prints for them.
//!
//! Parsing the command line, fetching data and paging output happen outside
//! this library; the choices they lead to are made here.

use crate::ai::client::AIModel;
use crate::client::Redditor;
use crate::clock::representable;
use crate::count::{lists_counts, sorted_as, subreddits_of, SortAlgorithm, SubredditCounter};
use crate::filter::{
    all_negated, flattened, grep_keeps, kept, needle_view, none_negated, set_members, RedditFilter,
    Searchable, StringSet,
};
use crate::text::{join_chars, joined, lowercased, push_str, string_of, views};
use crate::thing::{Comment, HasSubreddit, Submission};
use crate::view::{
    comment_full, comment_oneline, redditor_info, submission_full, submission_oneline,
    tally_text, timeline_text, Tally, ViewOptions, Viewable,
};
use vstd::prelude::*;

verus! {

broadcast use vstd::string::group_string_axioms;

/// Determines if dates should be displayed as an absolute date ("January 1,
/// 2025") or relative to the current time ("5 months ago").
#[derive(PartialEq, Eq, Structural, Clone, Copy, Debug)]
pub enum DateFormat {
    /// Display dates as an absolute date ("January 1, 2025").
    Absolute,
    /// Display dates relative to the current time ("5 months ago").
    Relative,
}

impl Default for DateFormat {
    /// Dates are relative by default.
    fn default() -> (f: Self)
        ensures
            f == DateFormat::Relative,
    {
        DateFormat::Relative
    }
}

impl DateFormat {
    /// The name of the format on the command line: "absolute" or "relative".
    pub open spec fn name(self) -> Seq<char> {
        match self {
            DateFormat::Absolute => "absolute"@,
            DateFormat::Relative => "relative"@,
        }
    }

    /// The name of the format on the command line.
    pub fn to_string(&self) -> (s: String)
        ensures
            s@ == self.name(),
    {
        match self {
            DateFormat::Absolute => String::from_str("absolute"),
            DateFormat::Relative => String::from_str("relative"),
        }
    }
}

/// Determines the qualities of the AI model used for summarization.
#[derive(PartialEq, Eq, Structural, Clone, Copy, Debug)]
pub enum AIModelClass {
    /// Use the AI service's flagship model.
    ///
    /// This is the model that a particular AI service promotes as their
    /// standard or "default" model.
    Flagship,
    /// Use the AI service's "best" model.
    ///
    /// Each AI provider determines what it calls its "best" model, but
    /// generally it is one that provides the best price/performance ratio.
    Best,
    /// Use the AI service's least expensive model.
    Cheapest,
    /// Use the AI service's fastest model.
    Fastest,
}

impl Default for AIModelClass {
    /// The fastest model is used by default.
    fn default() -> (c: Self)
        ensures
            c == AIModelClass::Fastest,
    {
        AIModelClass::Fastest
    }
}

impl AIModelClass {
    /// The name of the class on the command line.
    pub open spec fn name(self) -> Seq<char> {
        match self {
            AIModelClass::Flagship => "flagship"@,
            AIModelClass::Best => "best"@,
            AIModelClass::Cheapest => "cheapest"@,
            AIModelClass::Fastest => "fastest"@,
        }
    }

    /// The name of the class on the command line: "flagship", "best",
    /// "cheapest" or "fastest".
    pub fn to_string(&self) -> (s: String)
        ensures
            s@ == self.name(),
    {
        match self {
            AIModelClass::Flagship => String::from_str("flagship"),
            AIModelClass::Best => String::from_str("best"),
            AIModelClass::Cheapest => String::from_str("cheapest"),
            AIModelClass::Fastest => String::from_str("fastest"),
        }
    }

    /// The model of a service's models that this class selects.
    pub open spec fn selects<T: AIModel>(self) -> T {
        match self {
            AIModelClass::Flagship => T::flagship_model(),
            AIModelClass::Best => T::best_model(),
            AIModelClass::Cheapest => T::cheapest_model(),
            AIModelClass::Fastest => T::fastest_model(),
        }
    }

    /// Returns the AI model corresponding to the model selected by the
    /// command-line flags.
    pub fn model<T: AIModel>(&self) -> (m: T)
        ensures
            m == self.selects::<T>(),
    {
        match self {
            AIModelClass::Flagship => T::flagship(),
            AIModelClass::Best => T::best(),
            AIModelClass::Cheapest => T::cheapest(),
            AIModelClass::Fastest => T::fastest(),
        }
    }
}

/// Options of the `tally` commands.
pub struct TallyConfig {
    /// Reddit username.
    pub username: String,
    /// Sort output by number of items instead of alphabetically by subreddit.
    pub sort_by_count: bool,
}

impl TallyConfig {
    /// How the tally is sorted: by count if asked, else by name.
    pub fn sort_algorithm(&self) -> (a: SortAlgorithm)
        ensures
            a == if self.sort_by_count {
                SortAlgorithm::Numerically
            } else {
                SortAlgorithm::Lexicographically
            },
    {
        if self.sort_by_count {
            SortAlgorithm::Numerically
        } else {
            SortAlgorithm::Lexicographically
        }
    }
}

/// The subcommands of `posts`.
pub enum PostSubcommand {
    /// Show a user's submitted posts.
    Log { username: String, subreddits: Vec<String>, oneline: bool, date: DateFormat },
    /// Tally a user's posts by subreddit.
    Tally(TallyConfig),
}

impl PostSubcommand {
    /// The Reddit username the subcommand is about.
    pub open spec fn username_view(&self) -> Seq<char> {
        match self {
            PostSubcommand::Log { username, .. } => username@,
            PostSubcommand::Tally(config) => config.username@,
        }
    }

    /// The Reddit username the subcommand is about.
    pub fn username(&self) -> (u: &str)
        ensures
            u@ == self.username_view(),
    {
        match self {
            PostSubcommand::Log { username, .. } => username.as_str(),
            PostSubcommand::Tally(config) => config.username.as_str(),
        }
    }
}

/// Options of the `posts` command.
pub struct PostCommandConfig {
    /// The subcommand.
    pub command: PostSubcommand,
}

/// The commands of the program.
pub enum Command {
    /// Retrieve a user's account information.
    Info { username: String },
    /// Display a user's comments.
    Log {
        username: String,
        subreddits: Vec<String>,
        date: DateFormat,
        grep: Option<String>,
        limit: Option<u32>,
        oneline: bool,
        raw: bool,
    },
    /// Display a user's submitted posts.
    Posts(PostCommandConfig),
    /// Summarize a user's posting history.
    Summary { username: String, model: AIModelClass },
    /// Tally a user's comments by subreddit.
    Tally(TallyConfig),
    /// Display a user's activity by day of week and hour.
    Timeline { username: String },
}

impl Command {
    /// The Reddit username the command is about.
    pub open spec fn username_view(&self) -> Seq<char> {
        match self {
            Command::Info { username } => username@,
            Command::Log { username, .. } => username@,
            Command::Posts(config) => config.command.username_view(),
            Command::Summary { username, .. } => username@,
            Command::Tally(config) => config.username@,
            Command::Timeline { username } => username@,
        }
    }

    /// The Reddit username the command is about.
    pub fn username(&self) -> (u: &str)
        ensures
            u@ == self.username_view(),
    {
        match self {
            Command::Info { username } => username.as_str(),
            Command::Log { username, .. } => username.as_str(),
            Command::Posts(config) => config.command.username(),
            Command::Summary { username, .. } => username.as_str(),
            Command::Tally(config) => config.username.as_str(),
            Command::Timeline { username } => username.as_str(),
        }
    }
}

/// True if a thing in `subreddit` passes a filter on the subreddits given
/// on the command line, once flattened into `flat`: no subreddits were
/// given, or the subreddit (in lowercase) is among them, or, if they were
/// all negated, it is not.
pub open spec fn filter_admits(flat: Seq<Seq<char>>, subreddit: Seq<char>) -> bool {
    let members = set_members(flat);
    members.is_empty() || if none_negated(flat) {
        members.contains(lowercased(subreddit))
    } else {
        !members.contains(lowercased(subreddit))
    }
}

/// The first `limit` of `items`, or all of them.
pub open spec fn limited<T>(items: Seq<T>, limit: Option<u32>) -> Seq<T> {
    match limit {
        Some(n) => if (n as int) < items.len() {
            items.take(n as int)
        } else {
            items
        },
        None => items,
    }
}

/// The subreddits given on the command line, with comma-separated lists
/// split and spaces removed.
pub open spec fn flat_subreddits(subreddits: Seq<String>) -> Seq<Seq<char>> {
    flattened(subreddits.map_values(|s: String| s@))
}

/// True if the subreddits given on the command line make a valid filter:
/// all negated or none.
pub open spec fn valid_filter(subreddits: Seq<String>) -> bool {
    none_negated(flat_subreddits(subreddits)) || all_negated(flat_subreddits(subreddits))
}

/// The error for subreddits that do not make a valid filter.
pub open spec fn invalid_filter_message(subreddits: Seq<String>) -> Seq<char> {
    "invalid subreddit filter: "@ + joined(subreddits.map_values(|s: String| s@), seq![' '])
}

/// The comments that `log` shows: the first `limit`, those matching `grep`,
/// those in the subreddits asked for.
pub open spec fn selected_comments(
    comments: Seq<Comment>,
    subreddits: Seq<String>,
    grep: Option<Seq<char>>,
    limit: Option<u32>,
) -> Seq<Comment> {
    selected_comments_flat(comments, flat_subreddits(subreddits), grep, limit)
}

/// What separates items in a log: a line break for one-line output, else
/// two blank lines.
pub open spec fn log_joiner(oneline: bool) -> Seq<char> {
    if oneline {
        seq!['\n']
    } else {
        seq!['\n', '\n', '\n']
    }
}

/// True if `r` is the view of comment `c` with the given options.
pub open spec fn comment_view(c: Comment, oneline: bool, format: DateFormat, now: i64, r: Seq<char>) -> bool {
    if oneline {
        comment_oneline(c, r)
    } else {
        comment_full(c, format, now, r)
    }
}

/// True if `r` is the view of post `p` with the given options.
pub open spec fn submission_view(p: Submission, oneline: bool, now: i64, r: Seq<char>) -> bool {
    if oneline {
        submission_oneline(p, r)
    } else {
        submission_full(p, now, r)
    }
}

/// True if `r` is the views of `comments`, separated by the joiner of the
/// output style.
pub open spec fn comments_log(comments: Seq<Comment>, oneline: bool, format: DateFormat, now: i64, r: Seq<char>) -> bool {
    exists|parts: Seq<Seq<char>>|
        #![trigger joined(parts, log_joiner(oneline))]
        parts.len() == comments.len() && (forall|i: int|
            0 <= i < parts.len() ==> comment_view(comments[i], oneline, format, now, #[trigger] parts[i]))
            && r == joined(parts, log_joiner(oneline))
}

/// True if `r` is the views of `posts`, separated by the joiner of the
/// output style.
pub open spec fn posts_log(posts: Seq<Submission>, oneline: bool, now: i64, r: Seq<char>) -> bool {
    exists|parts: Seq<Seq<char>>|
        #![trigger joined(parts, log_joiner(oneline))]
        parts.len() == posts.len() && (forall|i: int|
            0 <= i < parts.len() ==> submission_view(posts[i], oneline, now, #[trigger] parts[i]))
            && r == joined(parts, log_joiner(oneline))
}

/// The strings of `v`, borrowed.
fn borrowed<'a>(v: &'a Vec<String>) -> (r: Vec<&'a str>)
    ensures
        r@.map_values(|s: &str| s@) == v@.map_values(|s: String| s@),
{
    let mut r: Vec<&'a str> = Vec::new();
    for i in 0..v.len()
        invariant
            r@.len() == i,
            forall|k: int| 0 <= k < i ==> (#[trigger] r@[k])@ == v@[k]@,
    {
        r.push(v[i].as_str());
    }
    assert(r@.map_values(|s: &str| s@) =~= v@.map_values(|s: String| s@));
    r
}

/// The subreddit filter for `subreddits`, or the error message if they do
/// not make a valid one.
fn subreddit_filter(subreddits: &Vec<String>) -> (r: Result<StringSet, String>)
    ensures
        r is Ok <==> valid_filter(subreddits@),
        r matches Err(e) ==> e@ == invalid_filter_message(subreddits@),
        r matches Ok(set) ==> forall|s: Seq<char>|
            #[trigger] set.admits(s) == filter_admits(flat_subreddits(subreddits@), s),
{
    let strs = borrowed(subreddits);
    match StringSet::from(strs.as_slice()) {
        Some(set) => Ok(set),
        None => {
            let mut parts: Vec<Vec<char>> = Vec::new();
            for i in 0..subreddits.len()
                invariant
                    parts@.len() == i,
                    forall|k: int| 0 <= k < i ==> (#[trigger] parts@[k])@ == subreddits@[k]@,
            {
                let mut p: Vec<char> = Vec::new();
                push_str(&mut p, subreddits[i].as_str());
                parts.push(p);
            }
            let sep = vec![' '];
            assert(sep@ =~= seq![' ']);
            let joined_names = join_chars(&parts, parts.len(), &sep);
            assert(views(parts@).take(parts@.len() as int) =~= subreddits@.map_values(|s: String| s@));
            let mut message: Vec<char> = Vec::new();
            push_str(&mut message, "invalid subreddit filter: ");
            crate::text::push_all(&mut message, &joined_names);
            Err(string_of(&message))
        },
    }
}

/// The text of a log of comments: each comment's view, separated as the
/// output style asks.
fn join_comment_views(comments: &Vec<Comment>, opts: &ViewOptions, now: i64) -> (r: String)
    requires
        forall|i: int| 0 <= i < comments@.len() ==> #[trigger] comments@[i].wf(),
        representable(now as int),
    ensures
        comments_log(comments@, opts.oneline_view(), opts.date_format_view(), now, r@),
{
    let mut parts: Vec<Vec<char>> = Vec::new();
    for i in 0..comments.len()
        invariant
            forall|k: int| 0 <= k < comments@.len() ==> #[trigger] comments@[k].wf(),
            representable(now as int),
            parts@.len() == i,
            forall|k: int|
                0 <= k < i ==> comment_view(
                    comments@[k],
                    opts.oneline_view(),
                    opts.date_format_view(),
                    now,
                    #[trigger] views(parts@)[k],
                ),
    {
        assert(comments@[i as int].wf());
        let v = comments[i].view(opts, now);
        let mut p: Vec<char> = Vec::new();
        push_str(&mut p, v.as_str());
        let ghost before = parts@;
        parts.push(p);
        proof {
            assert forall|k: int| 0 <= k < i + 1 implies comment_view(
                comments@[k],
                opts.oneline_view(),
                opts.date_format_view(),
                now,
                #[trigger] views(parts@)[k],
            ) by {
                if k < i {
                    assert(views(parts@)[k] == views(before)[k]);
                }
            }
        }
    }
    let sep: Vec<char> = if opts.is_oneline() { vec!['\n'] } else { vec!['\n', '\n', '\n'] };
    assert(sep@ =~= log_joiner(opts.oneline_view()));
    let r = join_chars(&parts, parts.len(), &sep);
    assert(views(parts@).take(parts@.len() as int) =~= views(parts@));
    assert(comments_log(comments@, opts.oneline_view(), opts.date_format_view(), now, r@)) by {
        assert(joined(views(parts@), log_joiner(opts.oneline_view())) == r@);
    }
    string_of(&r)
}

/// The text of a log of posts: each post's view, separated as the output
/// style asks.
fn join_post_views(posts: &Vec<Submission>, opts: &ViewOptions, now: i64) -> (r: String)
    requires
        forall|i: int| 0 <= i < posts@.len() ==> #[trigger] posts@[i].wf(),
        representable(now as int),
    ensures
        posts_log(posts@, opts.oneline_view(), now, r@),
{
    let mut parts: Vec<Vec<char>> = Vec::new();
    for i in 0..posts.len()
        invariant
            forall|k: int| 0 <= k < posts@.len() ==> #[trigger] posts@[k].wf(),
            representable(now as int),
            parts@.len() == i,
            forall|k: int|
                0 <= k < i ==> submission_view(posts@[k], opts.oneline_view(), now, #[trigger] views(parts@)[k]),
    {
        assert(posts@[i as int].wf());
        let v = posts[i].view(opts, now);
        let mut p: Vec<char> = Vec::new();
        push_str(&mut p, v.as_str());
        let ghost before = parts@;
        parts.push(p);
        proof {
            assert forall|k: int| 0 <= k < i + 1 implies submission_view(
                posts@[k],
                opts.oneline_view(),
                now,
                #[trigger] views(parts@)[k],
            ) by {
                if k < i {
                    assert(views(parts@)[k] == views(before)[k]);
                }
            }
        }
    }
    let sep: Vec<char> = if opts.is_oneline() { vec!['\n'] } else { vec!['\n', '\n', '\n'] };
    assert(sep@ =~= log_joiner(opts.oneline_view()));
    let r = join_chars(&parts, parts.len(), &sep);
    assert(views(parts@).take(parts@.len() as int) =~= views(parts@));
    assert(posts_log(posts@, opts.oneline_view(), now, r@)) by {
        assert(joined(views(parts@), log_joiner(opts.oneline_view())) == r@);
    }
    string_of(&r)
}

/// What `log` prints for `user`'s comments at the instant `now`: the
/// comments selected by `limit`, `grep` and `subreddits`, viewed as the
/// options ask; or an error if the subreddits do not make a valid filter.
pub fn log_output(
    user: &Redditor,
    subreddits: &Vec<String>,
    date_format: DateFormat,
    grep: &Option<String>,
    limit: &Option<u32>,
    oneline: bool,
    raw: bool,
    now: i64,
) -> (r: Result<String, String>)
    requires
        user.wf(),
        representable(now as int),
    ensures
        r is Ok <==> valid_filter(subreddits@),
        r matches Err(e) ==> e@ == invalid_filter_message(subreddits@),
        r matches Ok(s) ==> comments_log(
            selected_comments(user.user_view().comments_view(), subreddits@, needle_view(grep), *limit),
            oneline,
            date_format,
            now,
            s@,
        ),
{
    let opts = ViewOptions::default().oneline(oneline).raw(raw).date_format(date_format);
    let filter = match subreddit_filter(subreddits) {
        Ok(f) => f,
        Err(e) => return Err(e),
    };
    let comments = RedditFilter::new(user.comments()).take(limit).grep(grep).filter(&filter).collect();
    proof {
        let flat = flat_subreddits(subreddits@);
        let all = user.user_view().comments_view();
        assert((|c: Comment| grep_keeps(needle_view(grep), c.search_view())) =~= (|c: Comment|
            grep_keeps(needle_view(grep), c.body@)));
        assert((|c: Comment| filter.admits(c.subreddit_view())) =~= (|c: Comment|
            filter_admits(flat, c.subreddit@)));
        lemma_kept_wf(all, *limit, needle_view(grep), flat);
        assert(comments@ == selected_comments_flat(all, flat, needle_view(grep), *limit));
    }
    Ok(join_comment_views(&comments, &opts, now))
}

/// Every comment that `log` selects can be shown in local time, if every
/// comment of the user can.
proof fn lemma_kept_wf(all: Seq<Comment>, limit: Option<u32>, grep: Option<Seq<char>>, flat: Seq<Seq<char>>)
    requires
        forall|i: int| 0 <= i < all.len() ==> #[trigger] all[i].wf(),
    ensures
        forall|i: int|
            0 <= i < selected_comments_flat(all, flat, grep, limit).len() ==> #[trigger] selected_comments_flat(
                all,
                flat,
                grep,
                limit,
            )[i].wf(),
{
    let l = limited(all, limit);
    let p = |c: Comment| c.wf();
    let f1 = |c: Comment| grep_keeps(grep, c.body@);
    let f2 = |c: Comment| filter_admits(flat, c.subreddit@);
    assert forall|i: int| 0 <= i < l.len() implies #[trigger] p(l[i]) by {
        assert(l[i] == all[i]);
    }
    let g = kept(l, f1);
    crate::filter::lemma_kept_all(l, f1, p);
    crate::filter::lemma_kept_all(g, f2, p);
    let sel = kept(g, f2);
    assert(sel == selected_comments_flat(all, flat, grep, limit));
    assert forall|i: int| 0 <= i < sel.len() implies #[trigger] sel[i].wf() by {
        assert(p(sel[i]));
    }
}

/// [`selected_comments`] with the subreddits already flattened.
pub open spec fn selected_comments_flat(
    comments: Seq<Comment>,
    flat: Seq<Seq<char>>,
    grep: Option<Seq<char>>,
    limit: Option<u32>,
) -> Seq<Comment> {
    kept(
        kept(limited(comments, limit), |c: Comment| grep_keeps(grep, c.body@)),
        |c: Comment| filter_admits(flat, c.subreddit@),
    )
}

/// The posts that `posts log` shows: those in the subreddits asked for.
pub open spec fn selected_posts(posts: Seq<Submission>, subreddits: Seq<String>) -> Seq<Submission> {
    kept(posts, |p: Submission| filter_admits(flat_subreddits(subreddits), p.subreddit@))
}

/// What `posts log` prints for `user`'s posts at the instant `now`: the
/// posts in the subreddits asked for, viewed as the options ask; or an error
/// if the subreddits do not make a valid filter.
pub fn posts_log_output(
    user: &Redditor,
    subreddits: &Vec<String>,
    date_format: DateFormat,
    oneline: bool,
    now: i64,
) -> (r: Result<String, String>)
    requires
        user.wf(),
        representable(now as int),
    ensures
        r is Ok <==> valid_filter(subreddits@),
        r matches Err(e) ==> e@ == invalid_filter_message(subreddits@),
        r matches Ok(s) ==> posts_log(
            selected_posts(user.user_view().submissions_view(), subreddits@),
            oneline,
            now,
            s@,
        ),
{
    let opts = ViewOptions::default().oneline(oneline).date_format(date_format);
    let filter = match subreddit_filter(subreddits) {
        Ok(f) => f,
        Err(e) => return Err(e),
    };
    let posts = RedditFilter::new(user.submissions()).filter(&filter).collect();
    proof {
        let flat = flat_subreddits(subreddits@);
        let all = user.user_view().submissions_view();
        let p = |x: Submission| x.wf();
        let f = |x: Submission| filter_admits(flat, x.subreddit@);
        assert((|x: Submission| filter.admits(x.subreddit_view())) =~= f);
        assert forall|i: int| 0 <= i < all.len() implies #[trigger] p(all[i]) by {}
        crate::filter::lemma_kept_all(all, f, p);
        assert(posts@ == kept(all, f));
        assert forall|i: int| 0 <= i < posts@.len() implies #[trigger] posts@[i].wf() by {
            assert(p(posts@[i]));
        }
    }
    Ok(join_post_views(&posts, &opts, now))
}

/// True if `r` is a tally of the subreddits of `things`, sorted as `algo`
/// asks, as a [`Tally`] shows it.
pub open spec fn tally_of_things(things: Seq<Seq<char>>, algo: SortAlgorithm, r: Seq<char>) -> bool {
    exists|counts: Seq<(String, usize)>|
        #![trigger tally_text(counts)]
        lists_counts(counts, things.to_multiset()) && sorted_as(counts, algo) && r == tally_text(counts)
}

/// The tally of the subreddits of `things`, sorted as `algo` asks.
fn tally_text_of<A: crate::thing::HasSubreddit>(things: Vec<A>, algo: &SortAlgorithm) -> (r: String)
    ensures
        tally_of_things(subreddits_of(things@), *algo, r@),
{
    let counter = SubredditCounter::from_iter(things);
    let counts = counter.sort_by(algo);
    let tally = Tally(counts);
    let r = tally.view(&ViewOptions::default(), 0);
    assert(r@ == tally_text(tally.0@));
    r
}

/// The message for a user with nothing of a kind, such as "mipadi has no
/// comments.".
pub open spec fn nothing_message(username: Seq<char>, what: Seq<char>) -> Seq<char> {
    username + " has no "@ + what + seq!['.']
}

/// `username`, " has no ", `what` and a full stop.
fn nothing_text(username: &str, what: &str) -> (r: String)
    ensures
        r@ == nothing_message(username@, what@),
{
    let mut r: Vec<char> = Vec::new();
    push_str(&mut r, username);
    push_str(&mut r, " has no ");
    push_str(&mut r, what);
    r.push('.');
    string_of(&r)
}

/// What `tally` prints for `user`: the tally of the subreddits of the user's
/// comments, sorted as `algo` asks, or a message if there are none.
pub fn tally_output(user: &Redditor, algo: &SortAlgorithm) -> (r: String)
    ensures
        user.user_view().comments_view().len() > 0 ==> tally_of_things(
            subreddits_of(user.user_view().comments_view()),
            *algo,
            r@,
        ),
        user.user_view().comments_view().len() == 0 ==> r@ == nothing_message(
            user.username_view(),
            "comments"@,
        ),
{
    if user.has_comments() {
        tally_text_of(user.comments(), algo)
    } else {
        nothing_text(user.username().as_str(), "comments")
    }
}

/// What `posts tally` prints for `user`: the tally of the subreddits of the
/// user's posts, sorted as `algo` asks, or a message if there are none.
pub fn posts_tally_output(user: &Redditor, algo: &SortAlgorithm) -> (r: String)
    ensures
        user.user_view().submissions_view().len() > 0 ==> tally_of_things(
            subreddits_of(user.user_view().submissions_view()),
            *algo,
            r@,
        ),
        user.user_view().submissions_view().len() == 0 ==> r@ == nothing_message(
            user.username_view(),
            "posts"@,
        ),
{
    if user.has_submissions() {
        tally_text_of(user.submissions(), algo)
    } else {
        nothing_text(user.username().as_str(), "posts")
    }
}

/// What `timeline` prints for `user`: the grid of the days and hours at
/// which the user commented, in local time, or a message if there are no
/// comments.
pub fn timeline_output(user: &Redditor) -> (r: String)
    requires
        user.wf(),
        user.user_view().comments_view().len() <= u32::MAX,
    ensures
        user.user_view().comments_view().len() > 0 ==> exists|slots: Seq<(u32, u32)>|
            crate::client::local_slots(user.user_view().comments_view(), slots) && r@ == timeline_text(
                #[trigger] crate::client::tallied(slots),
            ),
        user.user_view().comments_view().len() == 0 ==> r@ == nothing_message(
            user.username_view(),
            "comments"@,
        ),
{
    if user.has_comments() {
        let timeline = user.timeline();
        timeline.view(&ViewOptions::default(), 0)
    } else {
        nothing_text(user.username().as_str(), "comments")
    }
}

/// What `info` prints for `user` at the instant `now`: when the account was
/// created and its karma.
pub fn info_output(user: &Redditor, now: i64) -> (r: String)
    requires
        user.wf(),
        representable(now as int),
    ensures
        redditor_info(*user, now, r@),
{
    user.view(&ViewOptions::default(), now)
}

} // verus!
