//! The stateful built-in tools a review task carries: the diff store the
//! model reads from, and the accumulators the report and suggest tools
//! write into.

use vstd::prelude::*;

use crate::gitbase;
use crate::rule::RuleBody;
use crate::text;
use crate::text::join_sep;
use crate::types::Violation;

verus! {

/// One file's pre-fetched diff text.
#[derive(Clone)]
pub struct DiffEntry {
    pub path: String,
    pub text: String,
}

/// The mathematical value of a diff entry.
#[verifier::ext_equal]
pub struct DiffEntrySpec {
    pub path: Seq<char>,
    pub text: Seq<char>,
}

impl View for DiffEntry {
    type V = DiffEntrySpec;

    open spec fn view(&self) -> DiffEntrySpec {
        DiffEntrySpec { path: self.path@, text: self.text@ }
    }
}

impl DeepView for DiffEntry {
    type V = DiffEntrySpec;

    open spec fn deep_view(&self) -> DiffEntrySpec {
        self@
    }
}

/// The diff on record for a path: the first entry that carries it.
pub open spec fn diff_lookup(entries: Seq<DiffEntrySpec>, path: Seq<char>) -> Option<Seq<char>>
    decreases entries.len(),
{
    if entries.len() == 0 {
        None
    } else if entries[0].path == path {
        Some(entries[0].text)
    } else {
        diff_lookup(entries.drop_first(), path)
    }
}

/// Tool for retrieving git diffs of changed files.
pub struct Diff {
    pub diffs: Vec<DiffEntry>,
}

/// What asking for one file's diff answers.
pub open spec fn diff_one_spec(
    entries: Seq<DiffEntrySpec>,
    path: Seq<char>,
    force: bool,
) -> Seq<char> {
    if !force && !gitbase::should_include_diff_spec(path) {
        "Skipped '"@ + path
            + "':\nFile is excluded.\nThese files are usually large and not meaningful to review.\nUse force_read=true to override if necessary."@
    } else {
        match diff_lookup(entries, path) {
            Some(d) => d,
            None => "No diff available for file: "@ + path,
        }
    }
}

impl Diff {
    /// A diff tool over the run's pre-fetched diffs.
    pub fn new(diffs: Vec<DiffEntry>) -> (r: Diff)
        ensures
            r.diffs.deep_view() == diffs.deep_view(),
    {
        Diff { diffs }
    }

    /// One file's diff, or why it is withheld: excluded files are
    /// skipped unless forced, unknown files answer so.
    pub fn diff_one(&self, path: &str, force_read: Option<bool>) -> (r: String)
        ensures
            r@ == diff_one_spec(
                self.diffs.deep_view(),
                path@,
                force_read == Some(true),
            ),
    {
        let force = match force_read {
            Some(b) => b,
            None => false,
        };
        if !force && !gitbase::should_include_diff(path) {
            let mut out = String::from_str("Skipped '");
            text::append_str(&mut out, path);
            text::append_str(
                &mut out,
                "':\nFile is excluded.\nThese files are usually large and not meaningful to review.\nUse force_read=true to override if necessary.",
            );
            proof {
                assert(out@ =~= diff_one_spec(
                    self.diffs.deep_view(),
                    path@,
                    force_read == Some(true),
                ));
            }
            return out;
        }
        let ghost ddv = self.diffs.deep_view();
        let mut i: usize = 0;
        proof {
            assert(ddv.skip(0) =~= ddv);
        }
        while i < self.diffs.len()
            invariant
                ddv == self.diffs.deep_view(),
                i <= self.diffs.len(),
                force == (force_read == Some(true)),
                force || gitbase::should_include_diff_spec(path@),
                diff_lookup(ddv, path@) == diff_lookup(ddv.skip(i as int), path@),
            decreases self.diffs.len() - i,
        {
            proof {
                assert(self.diffs@[i as int]@ == ddv[i as int]);
                assert(ddv.skip(i as int)[0] == ddv[i as int]);
                assert(ddv.skip(i as int).drop_first() =~= ddv.skip(i + 1));
            }
            if text::str_eq(self.diffs[i].path.as_str(), path) {
                proof {
                    assert(diff_lookup(ddv.skip(i as int), path@) == Some(
                        ddv[i as int].text,
                    ));
                }
                return self.diffs[i].text.clone();
            }
            i += 1;
        }
        proof {
            assert(ddv.skip(ddv.len() as int) =~= Seq::<DiffEntrySpec>::empty());
        }
        let mut out = String::from_str("No diff available for file: ");
        text::append_str(&mut out, path);
        proof {
            assert(out@ =~= "No diff available for file: "@ + path@);
        }
        out
    }

    /// The diff on record for one path, if any.
    pub fn lookup<'a>(&'a self, path: &str) -> (r: Option<&'a String>)
        ensures
            r matches Some(d) ==> diff_lookup(self.diffs.deep_view(), path@) == Some(d@),
            r is None ==> diff_lookup(self.diffs.deep_view(), path@) is None,
    {
        let ghost ddv = self.diffs.deep_view();
        let mut i: usize = 0;
        proof {
            assert(ddv.skip(0) =~= ddv);
        }
        while i < self.diffs.len()
            invariant
                ddv == self.diffs.deep_view(),
                i <= self.diffs.len(),
                diff_lookup(ddv, path@) == diff_lookup(ddv.skip(i as int), path@),
            decreases self.diffs.len() - i,
        {
            proof {
                assert(self.diffs@[i as int]@ == ddv[i as int]);
                assert(ddv.skip(i as int)[0] == ddv[i as int]);
                assert(ddv.skip(i as int).drop_first() =~= ddv.skip(i + 1));
            }
            if text::str_eq(self.diffs[i].path.as_str(), path) {
                return Some(&self.diffs[i].text);
            }
            i += 1;
        }
        proof {
            assert(ddv.skip(ddv.len() as int) =~= Seq::<DiffEntrySpec>::empty());
        }
        None
    }

    /// What asking for several files' diffs answers: a single file's
    /// diff plain, several each under a `=== path ===` banner.
    pub open spec fn diff_spec(
        entries: Seq<DiffEntrySpec>,
        paths: Seq<Seq<char>>,
        force: bool,
    ) -> Seq<char> {
        if paths.len() == 1 {
            diff_one_spec(entries, paths[0], force)
        } else {
            join_sep(
                paths.map_values(
                    |p: Seq<char>| "=== "@ + p + " ===\n"@ + diff_one_spec(entries, p, force),
                ),
                "\n\n"@,
            )
        }
    }

    /// Get git diff for files.
    pub fn diff(&self, path: Vec<String>, force_read: Option<bool>) -> (r: String)
        ensures
            r@ == Diff::diff_spec(
                self.diffs.deep_view(),
                path.deep_view(),
                force_read == Some(true),
            ),
    {
        let ghost pdv = path.deep_view();
        if path.len() == 1 {
            return self.diff_one(path[0].as_str(), force_read);
        }
        let mut parts: Vec<String> = Vec::new();
        let mut i: usize = 0;
        let ghost f = |p: Seq<char>| "=== "@ + p + " ===\n"@ + diff_one_spec(
            self.diffs.deep_view(),
            p,
            force_read == Some(true),
        );
        proof {
            assert(parts@.map_values(|x: String| x@) =~= pdv.take(0).map_values(f));
        }
        while i < path.len()
            invariant
                pdv == path.deep_view(),
                f == (|p: Seq<char>| "=== "@ + p + " ===\n"@ + diff_one_spec(
                    self.diffs.deep_view(),
                    p,
                    force_read == Some(true),
                )),
                i <= path.len(),
                parts@.map_values(|x: String| x@) == pdv.take(i as int).map_values(f),
            decreases path.len() - i,
        {
            let ghost prev = parts@;
            let mut piece = String::from_str("=== ");
            text::append_str(&mut piece, path[i].as_str());
            text::append_str(&mut piece, " ===\n");
            let d = self.diff_one(path[i].as_str(), force_read);
            text::append_str(&mut piece, d.as_str());
            parts.push(piece);
            proof {
                assert(path@[i as int]@ == pdv[i as int]);
                assert(parts@.map_values(|x: String| x@) =~= prev.map_values(
                    |x: String| x@,
                ).push(f(pdv[i as int])));
                assert(parts@.map_values(|x: String| x@) =~= pdv.take(i + 1).map_values(f));
            }
            i += 1;
        }
        proof {
            assert(pdv.take(path@.len() as int) =~= pdv);
        }
        text::join_strings(&parts, "\n\n")
    }
}

/// Tool for reporting rule violations found during code review.
pub struct Report {
    pub violations: Vec<Violation>,
}

impl Report {
    /// A report tool with an empty accumulator.
    pub fn new() -> (r: Report)
        ensures
            r.violations@.len() == 0,
    {
        Report { violations: Vec::new() }
    }

    /// Report rule violations found during review: a non-empty list
    /// joins the task's accumulator and is acknowledged; an empty list
    /// is rejected with an error result and accumulates nothing.
    pub fn report(&mut self, violations: Vec<Violation>) -> (r: String)
        ensures
            violations@.len() > 0 ==> final(self).violations.deep_view() =~= old(
                self,
            ).violations.deep_view() + violations.deep_view() && r@ == "OK"@,
            violations@.len() == 0 ==> final(self).violations == old(self).violations && r@
                == "At least 1 violation is required"@,
    {
        if violations.len() == 0 {
            return String::from_str("At least 1 violation is required");
        }
        let ghost incoming = violations.deep_view();
        let mut violations = violations;
        let ghost mut moved: int = 0;
        while violations.len() > 0
            invariant
                0 <= moved <= incoming.len(),
                violations.deep_view() == incoming.skip(moved),
                self.violations.deep_view() == old(self).violations.deep_view()
                    + incoming.take(moved),
            decreases violations.len(),
        {
            let ghost before = violations.deep_view();
            let v = violations.remove(0);
            proof {
                assert(violations.deep_view() =~= before.drop_first());
                assert(before.drop_first() =~= incoming.skip(moved).drop_first());
                assert(incoming.skip(moved).drop_first() =~= incoming.skip(moved + 1));
                assert(v@ == before[0]);
                assert(before[0] == incoming.skip(moved)[0]);
                assert(incoming.skip(moved)[0] == incoming[moved]);
            }
            let ghost prev = self.violations.deep_view();
            self.violations.push(v);
            proof {
                assert(self.violations.deep_view() =~= prev.push(incoming[moved]));
                assert(self.violations.deep_view() =~= old(self).violations.deep_view()
                    + incoming.take(moved + 1));
                moved = moved + 1;
            }
        }
        proof {
            assert(incoming.take(incoming.len() as int) =~= incoming);
        }
        String::from_str("OK")
    }
}

/// Tool for suggesting new review rules based on code changes.
pub struct Suggest {
    pub rules: Vec<RuleBody>,
}

impl Suggest {
    /// A suggest tool with an empty accumulator.
    pub fn new() -> (r: Suggest)
        ensures
            r.rules@.len() == 0,
    {
        Suggest { rules: Vec::new() }
    }

    /// Suggest new review rules: they join the accumulator, and the
    /// model is acknowledged.
    pub fn suggest(&mut self, rules: Vec<RuleBody>) -> (r: String)
        ensures
            final(self).rules@.map_values(|x: RuleBody| x@) =~= old(self).rules@.map_values(
                |x: RuleBody| x@,
            ) + rules@.map_values(|x: RuleBody| x@),
            r@ == "OK"@,
    {
        let ghost incoming = rules@.map_values(|x: RuleBody| x@);
        let mut rules = rules;
        let ghost mut moved: int = 0;
        while rules.len() > 0
            invariant
                0 <= moved <= incoming.len(),
                rules@.map_values(|x: RuleBody| x@) == incoming.skip(moved),
                self.rules@.map_values(|x: RuleBody| x@) == old(self).rules@.map_values(
                    |x: RuleBody| x@,
                ) + incoming.take(moved),
            decreases rules.len(),
        {
            let ghost braw = rules@;
            let ghost before = rules@.map_values(|x: RuleBody| x@);
            let v = rules.remove(0);
            proof {
                assert(rules@ =~= braw.drop_first());
                assert(rules@.map_values(|x: RuleBody| x@) =~= before.drop_first());
                assert(before.drop_first() =~= incoming.skip(moved).drop_first());
                assert(incoming.skip(moved).drop_first() =~= incoming.skip(moved + 1));
                assert(v@ == before[0]);
                assert(before[0] == incoming.skip(moved)[0]);
                assert(incoming.skip(moved)[0] == incoming[moved]);
            }
            let ghost prev = self.rules@.map_values(|x: RuleBody| x@);
            self.rules.push(v);
            proof {
                assert(self.rules@.map_values(|x: RuleBody| x@) =~= prev.push(incoming[moved]));
                assert(self.rules@.map_values(|x: RuleBody| x@) =~= old(
                    self,
                ).rules@.map_values(|x: RuleBody| x@) + incoming.take(moved + 1));
                moved = moved + 1;
            }
        }
        proof {
            assert(incoming.take(incoming.len() as int) =~= incoming);
        }
        String::from_str("OK")
    }
}

/// Arguments of the shell tool.
pub struct ShArgs {
    /// Shell command string.
    pub command: String,
    /// Optional start character index; reading starts at the beginning
    /// when absent.
    pub start_char: Option<usize>,
    /// Optional number of characters to return.
    pub num_chars: Option<usize>,
    /// Optional timeout in seconds.
    pub timeout_secs: Option<u64>,
}

/// Arguments of the embedded-script tool.
pub struct LuaArgs {
    /// Script to execute.
    pub script: String,
    /// Optional start character index.
    pub start_char: Option<usize>,
    /// Optional number of characters to return.
    pub num_chars: Option<usize>,
}

} // verus!
