//! A "thing" in the Reddit sense.
//!
//! Historically in the Reddit API and its old source code, a "Thing" was
//! any element of the Reddit system: users, posts, comments, etc. This
//! module holds the data of those things; times are Unix timestamps in
//! seconds.

use crate::clock::{localizable, HasAge};
use crate::filter::Searchable;
use vstd::prelude::*;

verus! {

/// Marks a thing that belongs to a subreddit.
pub trait HasSubreddit {
    /// The name of the subreddit.
    spec fn subreddit_view(&self) -> Seq<char>;

    /// The name of the subreddit the thing was posted to.
    fn subreddit(&self) -> (r: &str)
        ensures
            r@ == self.subreddit_view(),
    ;
}

/// Reddit user account data.
pub struct About {
    pub name: String,
    pub id: String,
    pub created_utc: i64,
    pub link_karma: i64,
    pub comment_karma: i64,
}

impl About {
    /// True if the account's creation time can be shown in local time.
    pub open spec fn wf(&self) -> bool {
        localizable(self.created_utc as int)
    }

    /// The date on which the account was created, as a Unix timestamp.
    pub fn created_at(&self) -> (t: i64)
        ensures
            t == self.created_utc,
    {
        self.created_utc
    }

    /// User's current karma for submissions.
    pub fn link_karma(&self) -> (k: i64)
        ensures
            k == self.link_karma,
    {
        self.link_karma
    }

    /// User's current karma for comments.
    pub fn comment_karma(&self) -> (k: i64)
        ensures
            k == self.comment_karma,
    {
        self.comment_karma
    }
}

/// A Reddit comment.
pub struct Comment {
    pub id: String,
    pub name: String,
    pub subreddit_id: String,
    pub subreddit: String,
    pub link_title: String,
    pub link_id: String,
    pub permalink: String,
    pub created_utc: i64,
    pub body: String,
    pub ups: i64,
    pub downs: i64,
    pub score: i64,
}

impl Clone for Comment {
    fn clone(&self) -> (c: Self)
        ensures
            c == *self,
    {
        Comment {
            id: self.id.clone(),
            name: self.name.clone(),
            subreddit_id: self.subreddit_id.clone(),
            subreddit: self.subreddit.clone(),
            link_title: self.link_title.clone(),
            link_id: self.link_id.clone(),
            permalink: self.permalink.clone(),
            created_utc: self.created_utc,
            body: self.body.clone(),
            ups: self.ups,
            downs: self.downs,
            score: self.score,
        }
    }
}

impl Comment {
    /// True if the comment's creation time can be shown in local time.
    pub open spec fn wf(&self) -> bool {
        localizable(self.created_utc as int)
    }

    /// The comment body, as raw Markdown text.
    pub fn body(&self) -> (b: &str)
        ensures
            b@ == self.body@,
    {
        self.body.as_str()
    }

    /// The title of the post the comment was made on.
    pub fn link_title(&self) -> (t: &str)
        ensures
            t@ == self.link_title@,
    {
        self.link_title.as_str()
    }

    /// The path of the comment on Reddit.
    pub fn permalink(&self) -> (p: &str)
        ensures
            p@ == self.permalink@,
    {
        self.permalink.as_str()
    }

    /// The comment's score.
    pub fn score(&self) -> (s: i64)
        ensures
            s == self.score,
    {
        self.score
    }
}

impl HasSubreddit for Comment {
    open spec fn subreddit_view(&self) -> Seq<char> {
        self.subreddit@
    }

    fn subreddit(&self) -> (r: &str) {
        self.subreddit.as_str()
    }
}

impl HasAge for Comment {
    open spec fn created_view(&self) -> i64 {
        self.created_utc
    }

    /// The time the comment was created, as a Unix timestamp.
    fn created_utc(&self) -> (t: i64) {
        self.created_utc
    }
}

impl Searchable for Comment {
    /// A comment is searched by its body.
    open spec fn search_view(&self) -> Seq<char> {
        self.body@
    }

    fn search_text(&self) -> (r: String) {
        self.body.clone()
    }
}

/// A Reddit Post.
pub struct Submission {
    pub id: String,
    pub name: String,
    pub permalink: String,
    pub author: String,
    pub domain: String,
    pub subreddit_id: String,
    pub subreddit: String,
    pub url: String,
    pub title: String,
    pub selftext: String,
    pub is_self: bool,
    pub created_utc: i64,
    pub num_comments: u64,
    pub ups: i64,
    pub downs: i64,
    pub score: i64,
}

impl Clone for Submission {
    fn clone(&self) -> (c: Self)
        ensures
            c == *self,
    {
        Submission {
            id: self.id.clone(),
            name: self.name.clone(),
            permalink: self.permalink.clone(),
            author: self.author.clone(),
            domain: self.domain.clone(),
            subreddit_id: self.subreddit_id.clone(),
            subreddit: self.subreddit.clone(),
            url: self.url.clone(),
            title: self.title.clone(),
            selftext: self.selftext.clone(),
            is_self: self.is_self,
            created_utc: self.created_utc,
            num_comments: self.num_comments,
            ups: self.ups,
            downs: self.downs,
            score: self.score,
        }
    }
}

impl Submission {
    /// True if the post's creation time can be shown in local time.
    pub open spec fn wf(&self) -> bool {
        localizable(self.created_utc as int)
    }

    /// The post's title.
    pub fn title(&self) -> (t: &str)
        ensures
            t@ == self.title@,
    {
        self.title.as_str()
    }

    /// The path of the post on Reddit.
    pub fn permalink(&self) -> (p: &str)
        ensures
            p@ == self.permalink@,
    {
        self.permalink.as_str()
    }

    /// The URL the post links to.
    pub fn url(&self) -> (u: &str)
        ensures
            u@ == self.url@,
    {
        self.url.as_str()
    }

    /// True if the post is a self (text) post rather than a link.
    pub fn is_self(&self) -> (b: bool)
        ensures
            b == self.is_self,
    {
        self.is_self
    }
}

impl HasSubreddit for Submission {
    open spec fn subreddit_view(&self) -> Seq<char> {
        self.subreddit@
    }

    fn subreddit(&self) -> (r: &str) {
        self.subreddit.as_str()
    }
}

impl HasAge for Submission {
    open spec fn created_view(&self) -> i64 {
        self.created_utc
    }

    /// The time the post was created, as a Unix timestamp.
    fn created_utc(&self) -> (t: i64) {
        self.created_utc
    }
}

impl Searchable for Submission {
    /// A post is searched by its title.
    open spec fn search_view(&self) -> Seq<char> {
        self.title@
    }

    fn search_text(&self) -> (r: String) {
        self.title.clone()
    }
}

/// Copies of the comments of `v`.
fn clone_comments(v: &Vec<Comment>) -> (r: Vec<Comment>)
    ensures
        r@ == v@,
{
    let mut r: Vec<Comment> = Vec::new();
    for i in 0..v.len()
        invariant
            r@ == v@.take(i as int),
    {
        r.push(v[i].clone());
        assert(r@ =~= v@.take(i as int + 1));
    }
    assert(v@.take(v.len() as int) =~= v@);
    r
}

/// Copies of the submissions of `v`.
fn clone_submissions(v: &Vec<Submission>) -> (r: Vec<Submission>)
    ensures
        r@ == v@,
{
    let mut r: Vec<Submission> = Vec::new();
    for i in 0..v.len()
        invariant
            r@ == v@.take(i as int),
    {
        r.push(v[i].clone());
        assert(r@ =~= v@.take(i as int + 1));
    }
    assert(v@.take(v.len() as int) =~= v@);
    r
}

/// A Reddit user account.
pub struct User {
    about: About,
    comments: Vec<Comment>,
    submissions: Vec<Submission>,
}

impl User {
    /// True if every time of the account, its comments and its posts can be
    /// shown in local time.
    pub open spec fn wf(&self) -> bool {
        &&& self.about_view().wf()
        &&& forall|i: int| 0 <= i < self.comments_view().len() ==> #[trigger] self.comments_view()[i].wf()
        &&& forall|i: int| 0 <= i < self.submissions_view().len() ==> #[trigger] self.submissions_view()[i].wf()
    }

    /// The account data of the user.
    pub closed spec fn about_view(&self) -> About {
        self.about
    }

    /// The user's comments.
    pub closed spec fn comments_view(&self) -> Seq<Comment> {
        self.comments@
    }

    /// The user's submissions.
    pub closed spec fn submissions_view(&self) -> Seq<Submission> {
        self.submissions@
    }

    /// Assembles a user from its account data, comments and submissions,
    /// each parsed from the corresponding response of the Reddit API.
    ///
    /// Parsing can fail: the user is `None` if any of the parts is.
    pub fn parse(about: Option<About>, comments: Option<Vec<Comment>>, submissions: Option<Vec<Submission>>) -> (u: Option<Self>)
        ensures
            u is Some <==> (about is Some && comments is Some && submissions is Some),
            u matches Some(user) ==> {
                &&& user.about_view() == about->0
                &&& user.comments_view() == comments->0@
                &&& user.submissions_view() == submissions->0@
            },
    {
        let about = about?;
        let comments = comments?;
        let submissions = submissions?;
        Some(User { about, comments, submissions })
    }

    /// Returns account data for the user.
    pub fn about(&self) -> (a: &About)
        ensures
            *a == self.about_view(),
    {
        &self.about
    }

    /// User's comments.
    pub fn comments(&self) -> (c: Vec<Comment>)
        ensures
            c@ == self.comments_view(),
    {
        clone_comments(&self.comments)
    }

    /// User's submissions.
    pub fn submissions(&self) -> (s: Vec<Submission>)
        ensures
            s@ == self.submissions_view(),
    {
        clone_submissions(&self.submissions)
    }
}

} // verus!
