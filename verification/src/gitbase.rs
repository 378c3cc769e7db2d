//! The diff baseline a review runs against, and which files' diffs are
//! worth showing the model.

use vstd::prelude::*;

use crate::text;
use crate::text::{contains_sub, ends_with, lower, starts_with};

verus! {

/// The empty-tree object every repository shares; diffing against it
/// shows every file in full.
pub fn git_empty_tree() -> (r: &'static str)
    ensures
        r@ == "4b825dc642cb6eb9a060e54bf8d69288fbee4904"@,
{
    "4b825dc642cb6eb9a060e54bf8d69288fbee4904"
}

/// The base reference a review compares against.
pub enum Base {
    /// Review all files in the repository.
    Root,
    /// Review changes against a commit reference.
    Commit(String),
}

impl Base {
    /// The value of a base: nothing, or the reference text.
    pub open spec fn view(&self) -> Option<Seq<char>> {
        match self {
            Base::Root => None,
            Base::Commit(s) => Some(s@),
        }
    }

    /// Resolves the base text: `ROOT` reviews the whole repository, `^`
    /// or `~` prefixes hang off `HEAD`, anything else is a reference as
    /// written.  An empty base was already resolved by the caller from
    /// whether uncommitted changes exist: `HEAD` if so, one commit back
    /// if not.
    pub fn parse(diff_base: &str, has_uncommitted: bool) -> (r: Base)
        ensures
            r@ == parse_spec(diff_base@, has_uncommitted),
    {
        let base: &str = if diff_base.unicode_len() == 0 {
            if has_uncommitted {
                "HEAD"
            } else {
                "^"
            }
        } else {
            diff_base
        };
        if text::str_eq(base, "ROOT") {
            proof {
                reveal_strlit("ROOT");
                reveal_strlit("HEAD");
                reveal_strlit("^");
            }
            Base::Root
        } else if text::starts_with_str(base, "~") || text::starts_with_str(base, "^") {
            let mut s = String::from_str("HEAD");
            text::append_str(&mut s, base);
            proof {
                reveal_strlit("ROOT");
                reveal_strlit("HEAD");
                reveal_strlit("^");
                reveal_strlit("~");
            }
            Base::Commit(s)
        } else {
            proof {
                reveal_strlit("ROOT");
                reveal_strlit("HEAD");
                reveal_strlit("^");
                reveal_strlit("~");
            }
            Base::Commit(String::from_str(base))
        }
    }

    /// The commit reference, absent for a whole-repository review.
    pub fn as_commit_ref(&self) -> (r: Option<&String>)
        ensures
            r.deep_view() == self@,
    {
        match self {
            Base::Root => None,
            Base::Commit(s) => Some(s),
        }
    }

    /// What `git diff` compares against: the commit, or the empty tree
    /// for a whole-repository review.
    pub fn as_diff_base(&self) -> (r: &str)
        ensures
            r@ == match self@ {
                None => "4b825dc642cb6eb9a060e54bf8d69288fbee4904"@,
                Some(s) => s,
            },
    {
        match self {
            Base::Root => git_empty_tree(),
            Base::Commit(s) => s.as_str(),
        }
    }
}

/// What `parse` resolves a base text to.
pub open spec fn parse_spec(diff_base: Seq<char>, has_uncommitted: bool) -> Option<Seq<char>> {
    let base = if diff_base.len() == 0 {
        if has_uncommitted {
            "HEAD"@
        } else {
            "^"@
        }
    } else {
        diff_base
    };
    if base == "ROOT"@ {
        None
    } else if starts_with(base, "~"@) || starts_with(base, "^"@) {
        Some("HEAD"@ + base)
    } else {
        Some(base)
    }
}

/// Whether a file's diff is included in review context: lock files and
/// generated artifacts are excluded, judged on the lower-cased path.
pub open spec fn should_include_diff_spec(file: Seq<char>) -> bool {
    let low = lower(file);
    &&& !ends_with(low, ".lock"@)
    &&& !contains_sub(low, "lock."@)
    &&& !contains_sub(low, "generated"@)
    &&& !ends_with(low, "-lock.json"@)
    &&& !contains_sub(low, ".min."@)
    &&& !contains_sub(low, "/dist/"@)
    &&& !contains_sub(low, "/build/"@)
    &&& !contains_sub(low, "/target/"@)
    &&& !contains_sub(low, "/.next/"@)
    &&& !contains_sub(low, "/node_modules/"@)
}

/// Decides whether a file's diff is included, excluding lock files and
/// generated artifacts by their path.
pub fn should_include_diff(file: &str) -> (r: bool)
    ensures
        r == should_include_diff_spec(file@),
{
    let low_string = text::to_lower(file);
    let low = low_string.as_str();
    if text::ends_with_str(low, ".lock") || text::contains_str(low, "lock.") {
        return false;
    }
    if text::contains_str(low, "generated") {
        return false;
    }
    if text::ends_with_str(low, "-lock.json") || text::contains_str(low, ".min.")
        || text::contains_str(low, "/dist/") || text::contains_str(low, "/build/")
        || text::contains_str(low, "/target/") || text::contains_str(low, "/.next/")
        || text::contains_str(low, "/node_modules/") {
        return false;
    }
    true
}

} // verus!
