//! Addresses and answers of the Reddit API.
//!
//! Requests are made outside this library; what to ask for, and whether an
//! answer can be used, is decided here.

use crate::text::{chars_of, push_str, string_of};
use vstd::prelude::*;

verus! {

broadcast use vstd::string::group_string_axioms;

/// The query string for a resource of a user: comments and posts are
/// fetched a hundred at a time, other resources as they are.
pub open spec fn query_for(resource: Seq<char>) -> Seq<char> {
    if resource == "comments"@ || resource == "submitted"@ {
        "?limit=100"@
    } else {
        seq![]
    }
}

/// The address of a resource of a user.
pub open spec fn uri_for(username: Seq<char>, resource: Seq<char>) -> Seq<char> {
    "https://www.reddit.com/user/"@ + username + seq!['/'] + resource + ".json"@ + query_for(resource)
}

/// What the Content-Type header of an answer held.
pub enum ContentTypeHeader {
    /// The answer had no Content-Type header.
    Missing,
    /// The header's value was not visible ASCII.
    Invalid,
    /// The header's value.
    Value(String),
}

/// Why an answer of the Reddit API cannot be used.
#[derive(PartialEq, Eq, Structural, Clone, Copy, Debug)]
pub enum ResponseProblem {
    /// The answer had an unsuccessful HTTP status code.
    Http,
    /// The answer had no Content-Type header.
    MissingContentType,
    /// The Content-Type header's value was not visible ASCII.
    InvalidContentType,
    /// The Content-Type was not JSON.
    UnexpectedContentType,
}

/// True if `s` starts with `prefix`.
pub open spec fn starts_with(s: Seq<char>, prefix: Seq<char>) -> bool {
    prefix.len() <= s.len() && s.subrange(0, prefix.len() as int) == prefix
}

/// What is wrong with an answer whose status was successful or not and
/// whose Content-Type header was `content_type`; `None` if nothing is.
pub open spec fn problem_of(success: bool, content_type: ContentTypeHeader) -> Option<ResponseProblem> {
    if !success {
        Some(ResponseProblem::Http)
    } else {
        match content_type {
            ContentTypeHeader::Missing => Some(ResponseProblem::MissingContentType),
            ContentTypeHeader::Invalid => Some(ResponseProblem::InvalidContentType),
            ContentTypeHeader::Value(v) => if starts_with(v@, "application/json"@) {
                None
            } else {
                Some(ResponseProblem::UnexpectedContentType)
            },
        }
    }
}

/// A service that contacts the Reddit API directly to retrieve information.
pub struct RedditService;

impl RedditService {
    /// Creates a new Reddit service.
    pub fn new() -> (s: Self) {
        RedditService
    }

    /// The query string for `resource`: `?limit=100` for comments and posts
    /// (`submitted`), nothing for other resources.
    pub fn query_string(&self, resource: &str) -> (q: &'static str)
        ensures
            q@ == query_for(resource@),
    {
        let r = chars_of(resource);
        proof {
            reveal_strlit("comments");
            reveal_strlit("submitted");
            reveal_strlit("");
        }
        let is_comments = r.len() == 8 && r[0] == 'c' && r[1] == 'o' && r[2] == 'm' && r[3] == 'm'
            && r[4] == 'e' && r[5] == 'n' && r[6] == 't' && r[7] == 's';
        let is_submitted = r.len() == 9 && r[0] == 's' && r[1] == 'u' && r[2] == 'b' && r[3] == 'm'
            && r[4] == 'i' && r[5] == 't' && r[6] == 't' && r[7] == 'e' && r[8] == 'd';
        assert(is_comments == (r@ == "comments"@)) by {
            if r@ == "comments"@ {
                assert(r@[0] == 'c' && r@[1] == 'o' && r@[2] == 'm' && r@[3] == 'm');
                assert(r@[4] == 'e' && r@[5] == 'n' && r@[6] == 't' && r@[7] == 's');
            }
            if is_comments {
                assert(r@ =~= "comments"@);
            }
        }
        assert(is_submitted == (r@ == "submitted"@)) by {
            if r@ == "submitted"@ {
                assert(r@[0] == 's' && r@[1] == 'u' && r@[2] == 'b' && r@[3] == 'm');
                assert(r@[4] == 'i' && r@[5] == 't' && r@[6] == 't' && r@[7] == 'e' && r@[8] == 'd');
            }
            if is_submitted {
                assert(r@ =~= "submitted"@);
            }
        }
        if is_comments || is_submitted {
            "?limit=100"
        } else {
            ""
        }
    }

    /// The address of `resource` (`about`, `comments` or `submitted`) of
    /// the user `username`.
    pub fn uri(&self, username: &str, resource: &str) -> (u: String)
        ensures
            u@ == uri_for(username@, resource@),
    {
        let qs = self.query_string(resource);
        let mut u: Vec<char> = Vec::new();
        push_str(&mut u, "https://www.reddit.com/user/");
        push_str(&mut u, username);
        u.push('/');
        push_str(&mut u, resource);
        push_str(&mut u, ".json");
        push_str(&mut u, qs);
        assert(u@ =~= uri_for(username@, resource@));
        string_of(&u)
    }

    /// Checks an answer: its status must be successful and its Content-Type
    /// JSON.
    pub fn check_response(&self, success: bool, content_type: &ContentTypeHeader) -> (r: Result<(), ResponseProblem>)
        ensures
            r matches Ok(_) <==> problem_of(success, *content_type) is None,
            r matches Err(p) ==> problem_of(success, *content_type) == Some(p),
    {
        if !success {
            return Err(ResponseProblem::Http);
        }
        match content_type {
            ContentTypeHeader::Missing => Err(ResponseProblem::MissingContentType),
            ContentTypeHeader::Invalid => Err(ResponseProblem::InvalidContentType),
            ContentTypeHeader::Value(v) => {
                let chars = chars_of(v.as_str());
                let prefix = chars_of("application/json");
                if prefix.len() <= chars.len() && crate::text::matches_at(&chars, 0, &prefix) {
                    Ok(())
                } else {
                    Err(ResponseProblem::UnexpectedContentType)
                }
            },
        }
    }
}

/// The message for a user that the Reddit API does not know: the answer's
/// HTTP status was 404 (Not Found).
pub open spec fn unknown_user_message(status: u16, username: Seq<char>) -> Option<Seq<char>> {
    if status == 404 {
        Some("no such user: "@ + username)
    } else {
        None
    }
}

/// "no such user: `username`" if an answer's HTTP status says that the user
/// does not exist, else `None`.
pub fn no_such_user(status: u16, username: &str) -> (m: Option<String>)
    ensures
        m matches Some(s) ==> unknown_user_message(status, username@) == Some(s@),
        m is None ==> unknown_user_message(status, username@) is None,
{
    if status == 404 {
        let mut message: Vec<char> = Vec::new();
        push_str(&mut message, "no such user: ");
        push_str(&mut message, username);
        Some(string_of(&message))
    } else {
        None
    }
}

/// The address of a permalink: the Reddit API gives permalinks as paths
/// (starting with `/`), which live on `https://www.reddit.com`; anything
/// else is already an address.
pub open spec fn permalink_address(permalink: Seq<char>) -> Seq<char> {
    if permalink.len() > 0 && permalink[0] == '/' {
        "https://www.reddit.com"@ + permalink
    } else {
        permalink
    }
}

/// The address of the permalink `permalink`.
pub fn permalink_url(permalink: &str) -> (u: String)
    ensures
        u@ == permalink_address(permalink@),
{
    let chars = chars_of(permalink);
    if chars.len() > 0 && chars[0] == '/' {
        let mut u: Vec<char> = Vec::new();
        push_str(&mut u, "https://www.reddit.com");
        crate::text::push_all(&mut u, &chars);
        string_of(&u)
    } else {
        String::from_str(permalink)
    }
}

} // verus!
