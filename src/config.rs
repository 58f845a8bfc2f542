//! Configuration values the engine reads: the GitHub settings that shape branch names and
//! merge messages, and the activity-feed window.

use vstd::prelude::*;
use vstd::string::*;
use crate::strings::{ascii_upper, is_ascii_text, to_uppercase, trim_spec, trim_ws, upper_of, CharClass};
use crate::textops::{replace_spec, replace_text};

verus! {

#[derive(Clone, Debug)]
pub struct GitHubConfig {
    pub pat: Option<String>,
    pub oauth_token: Option<String>,
    pub username: Option<String>,
    pub primary_email: Option<String>,
    pub default_pr_base: Option<String>,
    pub branch_prefix: Option<String>,
    pub merge_commit_message_suffix: Option<String>,
}

/// The merge-commit suffix for a template: `None` when blank; else the template with
/// `{short_id}`, `{SHORT_ID}`, `{task_id}` and `{TASK_ID}` replaced, in that order.
pub open spec fn merge_suffix_spec(template: Seq<char>, short_id: Seq<char>, task_id: Seq<char>) -> Option<Seq<char>> {
    if trim_spec(template, CharClass::Whitespace).len() == 0 {
        None
    } else {
        let a = replace_spec(template, "{short_id}"@, short_id);
        let b = replace_spec(a, "{SHORT_ID}"@, upper_of(short_id));
        let c = replace_spec(b, "{task_id}"@, task_id);
        Some(replace_spec(c, "{TASK_ID}"@, upper_of(task_id)))
    }
}

/// `merge_suffix_spec` for ASCII ids, where uppercasing maps `a`-`z` to `A`-`Z`.
pub open spec fn merge_suffix_ascii(template: Seq<char>, short_id: Seq<char>, task_id: Seq<char>) -> Option<Seq<char>> {
    if trim_spec(template, CharClass::Whitespace).len() == 0 {
        None
    } else {
        let a = replace_spec(template, "{short_id}"@, short_id);
        let b = replace_spec(a, "{SHORT_ID}"@, ascii_upper(short_id));
        let c = replace_spec(b, "{task_id}"@, task_id);
        Some(replace_spec(c, "{TASK_ID}"@, ascii_upper(task_id)))
    }
}

impl GitHubConfig {
    pub const DEFAULT_BRANCH_PREFIX: &'static str = "vk/";

    pub const DEFAULT_MERGE_COMMIT_SUFFIX: &'static str = "(vibe-kanban {short_id})";

    /// The personal access token, else the OAuth token.
    pub fn token(&self) -> (r: Option<String>)
        ensures
            match self.pat {
                Some(p) => r == Some(p),
                None => r == self.oauth_token,
            },
    {
        match &self.pat {
            Some(p) => Some(p.clone()),
            None => match &self.oauth_token {
                Some(t) => Some(t.clone()),
                None => None,
            },
        }
    }

    /// The configured branch prefix, trimmed (an empty one stays empty); `vk/` when unset.
    pub fn resolved_branch_prefix(&self) -> (r: String)
        ensures
            match self.branch_prefix {
                Some(raw) => r@ == trim_spec(raw@, CharClass::Whitespace),
                None => r@ == Self::DEFAULT_BRANCH_PREFIX@,
            },
    {
        match &self.branch_prefix {
            Some(raw) => trim_ws(raw.as_str()),
            None => String::from_str(Self::DEFAULT_BRANCH_PREFIX),
        }
    }

    /// The suffix for merge commits of a task, from the configured template.
    pub fn format_merge_commit_suffix(&self, short_id: &str, task_id: &str) -> (r: Option<String>)
        ensures
            match self.merge_commit_message_suffix {
                Some(t) => match merge_suffix_spec(t@, short_id@, task_id@) {
                    Some(v) => r is Some && r.unwrap()@ == v,
                    None => r.is_none(),
                },
                None => r.is_none(),
            },
            is_ascii_text(short_id@) && is_ascii_text(task_id@) ==> match self.merge_commit_message_suffix {
                Some(t) => match merge_suffix_ascii(t@, short_id@, task_id@) {
                    Some(v) => r is Some && r.unwrap()@ == v,
                    None => r.is_none(),
                },
                None => r.is_none(),
            },
    {
        let template = match &self.merge_commit_message_suffix {
            Some(t) => t,
            None => return None,
        };
        if trim_ws(template.as_str()).as_str().unicode_len() == 0 {
            return None;
        }
        proof {
            reveal_strlit("{short_id}");
            reveal_strlit("{SHORT_ID}");
            reveal_strlit("{task_id}");
            reveal_strlit("{TASK_ID}");
        }
        let a = replace_text(template.as_str(), "{short_id}", short_id);
        let b = replace_text(a.as_str(), "{SHORT_ID}", to_uppercase(short_id).as_str());
        let c = replace_text(b.as_str(), "{task_id}", task_id);
        Some(replace_text(c.as_str(), "{TASK_ID}", to_uppercase(task_id).as_str()))
    }
}

impl Default for GitHubConfig {
    fn default() -> (r: Self)
        ensures
            r.pat.is_none(),
            r.oauth_token.is_none(),
            r.username.is_none(),
            r.primary_email.is_none(),
            r.default_pr_base is Some && r.default_pr_base.unwrap()@ == "main"@,
            r.branch_prefix is Some && r.branch_prefix.unwrap()@ == Self::DEFAULT_BRANCH_PREFIX@,
            r.merge_commit_message_suffix is Some && r.merge_commit_message_suffix.unwrap()@
                == Self::DEFAULT_MERGE_COMMIT_SUFFIX@,
    {
        GitHubConfig {
            pat: None,
            oauth_token: None,
            username: None,
            primary_email: None,
            default_pr_base: Some(String::from_str("main")),
            branch_prefix: Some(String::from_str(Self::DEFAULT_BRANCH_PREFIX)),
            merge_commit_message_suffix: Some(String::from_str(Self::DEFAULT_MERGE_COMMIT_SUFFIX)),
        }
    }
}

/// Whether the activity feed is on and how many days it covers.
#[derive(Clone, Copy, Debug, PartialEq, Eq, Structural)]
pub struct ActivityFeedConfig {
    pub enabled: bool,
    pub window_days: u16,
}

impl ActivityFeedConfig {
    pub const DEFAULT_WINDOW_DAYS: u16 = 21;

    pub fn default_window() -> (r: u16)
        ensures
            r == Self::DEFAULT_WINDOW_DAYS,
    {
        Self::DEFAULT_WINDOW_DAYS
    }
}

impl Default for ActivityFeedConfig {
    fn default() -> (r: Self)
        ensures
            r.enabled,
            r.window_days == Self::DEFAULT_WINDOW_DAYS,
    {
        ActivityFeedConfig { enabled: true, window_days: Self::DEFAULT_WINDOW_DAYS }
    }
}

} // verus!
