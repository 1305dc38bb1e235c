//! Choosing and configuring the pager that output is shown in.
//!
//! The environment is read outside this library: a [`PagerEnv`] holds the
//! values that `$PAGER` and `$LESS` had (`None` where a variable is unset),
//! and running the pager happens outside too.

use crate::text::{chars_of, contains_char, string_of};
use vstd::prelude::*;

verus! {

broadcast use vstd::string::group_string_axioms;

/// An environmental variable consisting of a name-value pair.
pub type EnvVar = (String, String);

/// The pager used when `$PAGER` is not set.
pub open spec fn default_pager() -> Seq<char> {
    "/usr/bin/less"@
}

/// The options of `less` when `$LESS` is not set.
pub open spec fn default_less() -> Seq<char> {
    "FSRX"@
}

/// The value given to `$LESS` for the pager: the user's `$LESS`, or
/// `FSRX` if it is unset, with `R` appended if it is missing (colours are
/// always shown) and, for one-line output, `S` appended if it is missing
/// (long lines are chopped, not wrapped).
pub open spec fn less_value(less: Option<Seq<char>>, oneline: bool) -> Seq<char> {
    let base = match less {
        Some(v) => v,
        None => default_less(),
    };
    let with_r = if base.contains('R') {
        base
    } else {
        base.push('R')
    };
    if oneline && !with_r.contains('S') {
        with_r.push('S')
    } else {
        with_r
    }
}

/// The view of an optional string.
pub open spec fn opt_view(s: Option<String>) -> Option<Seq<char>> {
    match s {
        Some(v) => Some(v@),
        None => None,
    }
}

/// Appends `R`, and for one-line output `S`, to `less` where missing.
pub fn less_flags(less: &str, oneline: bool) -> (r: String)
    ensures
        r@ == less_value(Some(less@), oneline),
{
    let mut v = chars_of(less);
    if !contains_char(&v, 'R') {
        v.push('R');
    }
    if oneline && !contains_char(&v, 'S') {
        v.push('S');
    }
    string_of(&v)
}

/// Retrieves the pager and pager configuration from the environment.
pub struct PagerEnv {
    oneline: bool,
    pager_var: Option<String>,
    less_var: Option<String>,
}

impl Default for PagerEnv {
    /// Multi-line output, with `$PAGER` and `$LESS` unset.
    fn default() -> (e: Self)
        ensures
            !e.oneline_view(),
            e.pager_var_view() is None,
            e.less_var_view() is None,
    {
        PagerEnv { oneline: false, pager_var: None, less_var: None }
    }
}

impl PagerEnv {
    /// True if output is printed one item per line.
    pub closed spec fn oneline_view(&self) -> bool {
        self.oneline
    }

    /// The value of `$PAGER`, if it is set.
    pub closed spec fn pager_var_view(&self) -> Option<Seq<char>> {
        opt_view(self.pager_var)
    }

    /// The value of `$LESS`, if it is set.
    pub closed spec fn less_var_view(&self) -> Option<Seq<char>> {
        opt_view(self.less_var)
    }

    /// The pager configuration for the environment in which `$PAGER` and
    /// `$LESS` have the given values (`None` where unset).
    pub fn with_env(pager_var: Option<String>, less_var: Option<String>) -> (e: Self)
        ensures
            !e.oneline_view(),
            e.pager_var_view() == opt_view(pager_var),
            e.less_var_view() == opt_view(less_var),
    {
        PagerEnv { oneline: false, pager_var, less_var }
    }

    /// Controls whether the pager is outputting single-line output or not,
    /// which may alter aspects of its configuration or behavior.
    ///
    /// Pass true if the `--oneline` option was specified on the command line.
    pub fn oneline(self, oneline: bool) -> (e: Self)
        ensures
            e.oneline_view() == oneline,
            e.pager_var_view() == self.pager_var_view(),
            e.less_var_view() == self.less_var_view(),
    {
        PagerEnv { oneline, ..self }
    }

    /// The program that should be used for paginating output: `$PAGER`, or
    /// `/usr/bin/less` if it is not set.
    pub fn pager(&self) -> (p: String)
        ensures
            p@ == match self.pager_var_view() {
                Some(v) => v,
                None => default_pager(),
            },
    {
        match &self.pager_var {
            Some(v) => v.clone(),
            None => String::from_str("/usr/bin/less"),
        }
    }

    /// The name and value of the environment variable to pass to the pager:
    /// `LESS`, with the value [`less_value`] describes.
    pub fn pager_env(&self) -> (e: Option<EnvVar>)
        ensures
            e matches Some(var) && var.0@ == "LESS"@ && var.1@ == less_value(
                self.less_var_view(),
                self.oneline_view(),
            ),
    {
        let value = match &self.less_var {
            Some(v) => less_flags(v.as_str(), self.oneline),
            None => less_flags("FSRX", self.oneline),
        };
        Some((String::from_str("LESS"), value))
    }
}

/// True if `command` is `cat`, by name or by a path ending in `/cat`.
pub open spec fn names_cat(command: Seq<char>) -> bool {
    command == "cat"@ || (command.len() >= 4 && command.subrange(command.len() - 4, command.len() as int)
        == seq!['/', 'c', 'a', 't'])
}

/// A pager for output, configured from the environment.
pub struct Pager {
    pager_env: PagerEnv,
}

impl Pager {
    /// The configuration of the pager.
    pub closed spec fn env_view(&self) -> PagerEnv {
        self.pager_env
    }

    /// Creates a new pager from the pager env.
    pub fn new(pager_env: PagerEnv) -> (p: Self)
        ensures
            p.env_view() == pager_env,
    {
        Pager { pager_env }
    }

    /// The program used for pagination.
    pub fn command(&self) -> (c: String)
        ensures
            c@ == match self.env_view().pager_var_view() {
                Some(v) => v,
                None => default_pager(),
            },
    {
        self.pager_env.pager()
    }

    /// Name and value of the environment variable used to control aspects of
    /// the pager's behavior.
    pub fn env(&self) -> (e: Option<EnvVar>)
        ensures
            e matches Some(var) && var.0@ == "LESS"@ && var.1@ == less_value(
                self.env_view().less_var_view(),
                self.env_view().oneline_view(),
            ),
    {
        self.pager_env.pager_env()
    }

    /// True if the pager is `cat`, such as `cat`, `/bin/cat` or
    /// `/usr/bin/cat`, in which case output goes straight to stdout.
    pub fn is_cat(&self) -> (b: bool)
        ensures
            b == names_cat(
                match self.env_view().pager_var_view() {
                    Some(v) => v,
                    None => default_pager(),
                },
            ),
    {
        let command = chars_of(self.command().as_str());
        let n = command.len();
        proof {
            reveal_strlit("cat");
        }
        let is_cat_name = n == 3 && command[0] == 'c' && command[1] == 'a' && command[2] == 't';
        assert(is_cat_name ==> command@ =~= "cat"@);
        assert(command@ == "cat"@ ==> is_cat_name);
        let ends_in_cat = n >= 4 && command[n - 4] == '/' && command[n - 3] == 'c' && command[n - 2]
            == 'a' && command[n - 1] == 't';
        assert(ends_in_cat ==> command@.subrange(n - 4, n as int) =~= seq!['/', 'c', 'a', 't']);
        assert(n >= 4 && command@.subrange(n - 4, n as int) == seq!['/', 'c', 'a', 't'] ==> ends_in_cat) by {
            if n >= 4 && command@.subrange(n - 4, n as int) == seq!['/', 'c', 'a', 't'] {
                assert(command@.subrange(n - 4, n as int)[0] == command@[n - 4]);
                assert(command@.subrange(n - 4, n as int)[1] == command@[n - 3]);
                assert(command@.subrange(n - 4, n as int)[2] == command@[n - 2]);
                assert(command@.subrange(n - 4, n as int)[3] == command@[n - 1]);
            }
        }
        is_cat_name || ends_in_cat
    }
}

/// The pager always shows colours: the value given to `$LESS` holds `R`,
/// and for one-line output `S` too.
pub proof fn lemma_less_has_required_flags(less: Option<Seq<char>>, oneline: bool)
    ensures
        less_value(less, oneline).contains('R'),
        oneline ==> less_value(less, oneline).contains('S'),
{
    let base = match less {
        Some(v) => v,
        None => default_less(),
    };
    let with_r = if base.contains('R') { base } else { base.push('R') };
    if !base.contains('R') {
        assert(with_r[with_r.len() - 1] == 'R');
    }
    if oneline && !with_r.contains('S') {
        let r = with_r.push('S');
        let k = choose|k: int| 0 <= k < with_r.len() && with_r[k] == 'R';
        assert(r[k] == 'R');
        assert(r[r.len() - 1] == 'S');
    }
}

/// The user's `$LESS` is kept: its flags come first, in order, and at most
/// `R` and `S` are added after them.
pub proof fn lemma_less_extends_user_flags(less: Seq<char>, oneline: bool)
    ensures
        less_value(Some(less), oneline).len() <= less.len() + 2,
        less_value(Some(less), oneline).subrange(0, less.len() as int) == less,
{
    let with_r = if less.contains('R') { less } else { less.push('R') };
    assert(with_r.subrange(0, less.len() as int) =~= less);
    if oneline && !with_r.contains('S') {
        assert(with_r.push('S').subrange(0, less.len() as int) =~= less);
    }
}

/// Configuring the pager twice changes nothing: a `$LESS` that was already
/// configured is passed on as it is.
pub proof fn lemma_less_idempotent(less: Option<Seq<char>>, oneline: bool)
    ensures
        less_value(Some(less_value(less, oneline)), oneline) == less_value(less, oneline),
{
    lemma_less_has_required_flags(less, oneline);
}

} // verus!
