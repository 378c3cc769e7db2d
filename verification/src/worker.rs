//! One review worker: the outcome it hands back, and the deterministic
//! assembly of the conversation it opens with.

use vstd::prelude::*;

use crate::agent::{ToolInfo, ToolInfoSpec};
use crate::render::{TimedMessage, TimedMessageSpec};
use crate::gitbase;
use crate::text;
use crate::text::{join_sep, starts_with, trim_spec};
use crate::tools::{diff_lookup, DiffEntrySpec};
use crate::types::{Violation, ViolationSpec};

verus! {

/// How a started task ended.
#[derive(PartialEq, Eq, Structural, Clone, Copy, Debug)]
pub enum WorkerStatus {
    /// The model answered without tool calls; the task ran to its end.
    Completed,
    /// Shutdown struck first; partial results were kept.
    Cancelled,
    /// A task-level error (for one, a provider transport failure) ended it.
    Failed,
}

/// The mathematical value of a worker result.
#[verifier::ext_equal]
pub struct WorkerResultSpec {
    pub worker_id: Seq<char>,
    pub rule_name: Seq<char>,
    pub rule_instruction: Seq<char>,
    pub files: Seq<Seq<char>>,
    pub blocking: bool,
    pub violations: Seq<ViolationSpec>,
    pub messages: Option<Seq<TimedMessageSpec>>,
    pub tools: Option<Seq<ToolInfoSpec>>,
    pub tip: Option<Seq<char>>,
    pub elapsed_centis: u64,
    pub status: WorkerStatus,
}

/// What one worker hands back: the violations it accumulated, the
/// conversation trace when tracing was on, and how it ended.  Cancelled
/// and failed tasks still carry whatever they had accumulated.
pub struct WorkerResult {
    pub worker_id: String,
    pub rule_name: String,
    pub rule_instruction: String,
    pub files: Vec<String>,
    pub blocking: bool,
    pub violations: Vec<Violation>,
    pub messages: Option<Vec<TimedMessage>>,
    pub tools: Option<Vec<ToolInfo>>,
    pub tip: Option<String>,
    /// Elapsed wall time in hundredths of a second.
    pub elapsed_centis: u64,
    pub status: WorkerStatus,
}

impl View for WorkerResult {
    type V = WorkerResultSpec;

    open spec fn view(&self) -> WorkerResultSpec {
        WorkerResultSpec {
            worker_id: self.worker_id@,
            rule_name: self.rule_name@,
            rule_instruction: self.rule_instruction@,
            files: self.files.deep_view(),
            blocking: self.blocking,
            violations: self.violations.deep_view(),
            messages: self.messages.deep_view(),
            tools: self.tools.deep_view(),
            tip: self.tip.deep_view(),
            elapsed_centis: self.elapsed_centis,
            status: self.status,
        }
    }
}

impl DeepView for WorkerResult {
    type V = WorkerResultSpec;

    open spec fn deep_view(&self) -> WorkerResultSpec {
        self@
    }
}

impl WorkerResult {
    /// Assembles one started task's outcome from its rule and what the
    /// run accumulated.  The result carries the rule's identity,
    /// instruction and tip as planned, and its blocking flag mirrors the
    /// rule's.
    pub fn from_task(
        worker_id: String,
        rule: &crate::rule::RuleBody,
        files: Vec<String>,
        violations: Vec<Violation>,
        messages: Option<Vec<TimedMessage>>,
        tools: Option<Vec<ToolInfo>>,
        elapsed_centis: u64,
        status: WorkerStatus,
    ) -> (r: WorkerResult)
        ensures
            r@.worker_id == worker_id@,
            r@.rule_name == rule@.name,
            r@.rule_instruction == rule@.instruction,
            r@.files == files.deep_view(),
            r@.blocking == rule@.blocking,
            r@.violations == violations.deep_view(),
            r@.messages == messages.deep_view(),
            r@.tools == tools.deep_view(),
            r@.tip == rule@.tip,
            r@.elapsed_centis == elapsed_centis,
            r@.status == status,
    {
        let tip: Option<String> = match &rule.tip {
            Some(t) => Some(t.clone()),
            None => None,
        };
        proof {
            assert(tip.deep_view() =~= rule@.tip);
        }
        WorkerResult {
            worker_id,
            rule_name: rule.name.clone(),
            rule_instruction: rule.instruction.clone(),
            files,
            blocking: rule.blocking,
            violations,
            messages,
            tools,
            tip,
            elapsed_centis,
            status,
        }
    }
}

/// Code-point order on strings, the order `str` comparison uses.
pub open spec fn lex_le(a: Seq<char>, b: Seq<char>) -> bool
    decreases a.len(),
{
    if a.len() == 0 {
        true
    } else if b.len() == 0 {
        false
    } else if (a[0] as u32) == (b[0] as u32) {
        lex_le(a.drop_first(), b.drop_first())
    } else {
        (a[0] as u32) < (b[0] as u32)
    }
}

pub proof fn lemma_lex_le_refl(a: Seq<char>)
    ensures
        lex_le(a, a),
    decreases a.len(),
{
    if a.len() > 0 {
        lemma_lex_le_refl(a.drop_first());
    }
}

pub proof fn lemma_lex_le_total(a: Seq<char>, b: Seq<char>)
    ensures
        lex_le(a, b) || lex_le(b, a),
    decreases a.len(),
{
    if a.len() == 0 || b.len() == 0 {
    } else if (a[0] as u32) == (b[0] as u32) {
        lemma_lex_le_total(a.drop_first(), b.drop_first());
    }
}

pub proof fn lemma_lex_le_trans(a: Seq<char>, b: Seq<char>, c: Seq<char>)
    requires
        lex_le(a, b),
        lex_le(b, c),
    ensures
        lex_le(a, c),
    decreases a.len(),
{
    if a.len() == 0 {
    } else if b.len() == 0 {
    } else if c.len() == 0 {
    } else if (a[0] as u32) == (b[0] as u32) && (b[0] as u32) == (c[0] as u32) {
        lemma_lex_le_trans(a.drop_first(), b.drop_first(), c.drop_first());
    }
}

fn lex_le_from(a: &str, b: &str, i: usize) -> (r: bool)
    requires
        i <= a@.len() <= usize::MAX,
        i <= b@.len() <= usize::MAX,
    ensures
        r == lex_le(a@.skip(i as int), b@.skip(i as int)),
    decreases a@.len() - i,
{
    if i == a.unicode_len() {
        return true;
    }
    if i == b.unicode_len() {
        return false;
    }
    let ca = a.get_char(i);
    let cb = b.get_char(i);
    proof {
        assert(a@.skip(i as int)[0] == a@[i as int]);
        assert(b@.skip(i as int)[0] == b@[i as int]);
        assert(a@.skip(i as int).drop_first() =~= a@.skip(i + 1));
        assert(b@.skip(i as int).drop_first() =~= b@.skip(i + 1));
    }
    if (ca as u32) == (cb as u32) {
        lex_le_from(a, b, i + 1)
    } else {
        (ca as u32) < (cb as u32)
    }
}

/// String comparison in code-point order.
pub fn str_le(a: &str, b: &str) -> (r: bool)
    ensures
        r == lex_le(a@, b@),
{
    let _na = a.unicode_len();
    let _nb = b.unicode_len();
    let r = lex_le_from(a, b, 0);
    proof {
        assert(a@.skip(0) =~= a@);
        assert(b@.skip(0) =~= b@);
    }
    r
}

/// Whether a list of strings is in code-point order.
pub open spec fn sorted_le(s: Seq<Seq<char>>) -> bool {
    forall|i: int, j: int| 0 <= i < j < s.len() ==> lex_le(s[i], s[j])
}

/// Sorts strings into code-point order, keeping exactly the same
/// collection of elements.
pub fn sort_strings(items: Vec<String>) -> (r: Vec<String>)
    ensures
        sorted_le(r.deep_view()),
        r.deep_view().to_multiset() == items.deep_view().to_multiset(),
{
    broadcast use vstd::seq_lib::group_to_multiset_ensures;
    broadcast use vstd::seq_lib::to_multiset_insert;
    broadcast use vstd::multiset::group_multiset_axioms;

    let ghost idv = items.deep_view();
    let mut items = items;
    let mut out: Vec<String> = Vec::new();
    let ghost mut moved: int = 0;
    proof {
        assert(out.deep_view() =~= Seq::<Seq<char>>::empty());
        assert(out.deep_view().to_multiset() =~= idv.take(0).to_multiset());
    }
    while items.len() > 0
        invariant
            0 <= moved <= idv.len(),
            items.deep_view() == idv.skip(moved),
            sorted_le(out.deep_view()),
            out.deep_view().to_multiset() == idv.take(moved).to_multiset(),
        decreases items.len(),
    {
        let ghost braw = items.deep_view();
        let x = items.remove(0);
        proof {
            assert(items.deep_view() =~= braw.drop_first());
            assert(braw.drop_first() =~= idv.skip(moved + 1));
            assert(x@ == braw[0]);
            assert(braw[0] == idv.skip(moved)[0]);
            assert(idv.skip(moved)[0] == idv[moved]);
        }
        // find the first place whose entry is strictly after x
        let mut p: usize = 0;
        while p < out.len() && str_le(&out[p], x.as_str())
            invariant
                p <= out.len(),
                x@ == idv[moved],
                sorted_le(out.deep_view()),
                forall|q: int| 0 <= q < p ==> lex_le(#[trigger] out.deep_view()[q], x@),
            decreases out.len() - p,
        {
            proof {
                assert(out.deep_view()[p as int] == out@[p as int]@);
            }
            p += 1;
        }
        let ghost oprev = out.deep_view();
        proof {
            if p < out.len() {
                assert(out.deep_view()[p as int] == out@[p as int]@);
                lemma_lex_le_total(oprev[p as int], x@);
            }
        }
        out.insert(p, x);
        proof {
            assert(out.deep_view() =~= oprev.insert(p as int, idv[moved]));
            assert forall|i: int, j: int|
                0 <= i < j < out.deep_view().len() implies lex_le(
                out.deep_view()[i],
                out.deep_view()[j],
            ) by {
                let s = out.deep_view();
                if j < p {
                    assert(s[i] == oprev[i] && s[j] == oprev[j]);
                } else if i > p {
                    assert(s[i] == oprev[i - 1] && s[j] == oprev[j - 1]);
                } else if i == p {
                    assert(s[i] == idv[moved] && s[j] == oprev[j - 1]);
                    if j - 1 == p {
                        assert(lex_le(idv[moved], oprev[p as int]));
                    } else {
                        lemma_lex_le_trans(idv[moved], oprev[p as int], oprev[j - 1]);
                    }
                } else if j == p {
                    assert(s[i] == oprev[i] && s[j] == idv[moved]);
                } else {
                    // i < p < j
                    assert(s[i] == oprev[i] && s[j] == oprev[j - 1]);
                    if j - 1 == p {
                        assert(lex_le(oprev[i], oprev[p as int]));
                    } else {
                        lemma_lex_le_trans(oprev[i], oprev[p as int], oprev[j - 1]);
                    }
                }
            }
            assert(idv.take(moved + 1) =~= idv.take(moved).push(idv[moved]));
            idv.take(moved).to_multiset_ensures();
            vstd::seq_lib::to_multiset_insert(oprev, p as int, idv[moved]);
            assert(out.deep_view().to_multiset() =~= idv.take(moved + 1).to_multiset());
            moved = moved + 1;
        }
    }
    proof {
        assert(idv.take(idv.len() as int) =~= idv);
    }
    out
}

proof fn lemma_dedup_contains(s: Seq<Seq<char>>, x: Seq<char>)
    ensures
        crate::aggregate::dedup_keys(s).contains(x) == s.contains(x),
    decreases s.len(),
{
    let d = crate::aggregate::dedup_keys(s);
    if s.len() == 0 {
    } else {
        lemma_dedup_contains(s.drop_last(), x);
        let dd = crate::aggregate::dedup_keys(s.drop_last());
        if s.contains(x) {
            let i = choose|i: int| 0 <= i < s.len() && s[i] == x;
            if i < s.len() - 1 {
                assert(s.drop_last().contains(x)) by {
                    assert(s.drop_last()[i] == x);
                }
                if !dd.contains(s.last()) {
                    assert(d.contains(x)) by {
                        let k = choose|k: int| 0 <= k < dd.len() && dd[k] == x;
                        assert(d[k] == x);
                    }
                }
            } else {
                if dd.contains(s.last()) {
                    assert(d.contains(x));
                } else {
                    assert(d.last() == x);
                }
            }
        }
        if d.contains(x) {
            let k = choose|k: int| 0 <= k < d.len() && d[k] == x;
            if dd.contains(s.last()) {
                assert(dd.contains(x));
                let q = choose|q: int| 0 <= q < s.drop_last().len() && s.drop_last()[q] == x;
                assert(s[q] == x);
            } else {
                if k < d.len() - 1 {
                    assert(dd[k] == x);
                    let q = choose|q: int|
                        0 <= q < s.drop_last().len() && s.drop_last()[q] == x;
                    assert(s[q] == x);
                } else {
                    assert(s.last() == x);
                }
            }
        }
    }
}

proof fn lemma_dedup_sorted(s: Seq<Seq<char>>)
    requires
        sorted_le(s),
    ensures
        sorted_le(crate::aggregate::dedup_keys(s)),
        forall|i: int, j: int|
            0 <= i < j < crate::aggregate::dedup_keys(s).len()
                ==> crate::aggregate::dedup_keys(s)[i] != crate::aggregate::dedup_keys(s)[j],
    decreases s.len(),
{
    let d = crate::aggregate::dedup_keys(s);
    if s.len() == 0 {
    } else {
        assert(sorted_le(s.drop_last())) by {
            assert(forall|i: int|
                0 <= i < s.drop_last().len() ==> s.drop_last()[i] == s[i]);
        }
        lemma_dedup_sorted(s.drop_last());
        let dd = crate::aggregate::dedup_keys(s.drop_last());
        if !dd.contains(s.last()) {
            // every kept key comes from the prefix, so the last is largest
            assert forall|k: int| 0 <= k < dd.len() implies lex_le(dd[k], s.last()) by {
                assert(dd.contains(dd[k]));
                lemma_dedup_contains(s.drop_last(), dd[k]);
                let q = choose|q: int|
                    0 <= q < s.drop_last().len() && s.drop_last()[q] == dd[k];
                if q < s.len() - 1 {
                    assert(lex_le(s[q], s.last()));
                } else {
                    lemma_lex_le_refl(s.last());
                }
            }
            assert(sorted_le(d)) by {
                assert(forall|i: int| 0 <= i < dd.len() ==> d[i] == dd[i]);
                assert(d.last() == s.last());
            }
            assert forall|i: int, j: int| 0 <= i < j < d.len() implies d[i] != d[j] by {
                if j < d.len() - 1 {
                    assert(d[i] == dd[i] && d[j] == dd[j]);
                } else {
                    assert(d[j] == s.last());
                    assert(d[i] == dd[i]);
                    assert(dd.contains(dd[i]));
                }
            }
        }
    }
}

/// The supplementary resources of one task: the global list and the
/// rule's own, in deterministic sorted order, each named once.
pub fn prepare_resources(global_resources: &Vec<String>, rule_resources: &Vec<String>) -> (r:
    Vec<String>)
    ensures
        sorted_le(r.deep_view()),
        forall|i: int, j: int|
            0 <= i < j < r.deep_view().len() ==> r.deep_view()[i] != r.deep_view()[j],
        forall|x: Seq<char>|
            #[trigger] r.deep_view().contains(x) == (global_resources.deep_view()
                + rule_resources.deep_view()).contains(x),
{
    broadcast use vstd::seq_lib::group_to_multiset_ensures;

    let ghost gdv = global_resources.deep_view();
    let ghost rdv = rule_resources.deep_view();
    let mut all: Vec<String> = Vec::new();
    let mut i: usize = 0;
    proof {
        assert(all.deep_view() =~= gdv.take(0));
    }
    while i < global_resources.len()
        invariant
            gdv == global_resources.deep_view(),
            i <= global_resources.len(),
            all.deep_view() == gdv.take(i as int),
        decreases global_resources.len() - i,
    {
        let ghost prev = all.deep_view();
        all.push(global_resources[i].clone());
        proof {
            assert(global_resources@[i as int]@ == gdv[i as int]);
            assert(all.deep_view() =~= prev.push(gdv[i as int]));
            assert(all.deep_view() =~= gdv.take(i + 1));
        }
        i += 1;
    }
    proof {
        assert(gdv.take(global_resources@.len() as int) =~= gdv);
    }
    let mut j: usize = 0;
    while j < rule_resources.len()
        invariant
            gdv == global_resources.deep_view(),
            rdv == rule_resources.deep_view(),
            j <= rule_resources.len(),
            all.deep_view() == gdv + rdv.take(j as int),
        decreases rule_resources.len() - j,
    {
        let ghost prev = all.deep_view();
        all.push(rule_resources[j].clone());
        proof {
            assert(rule_resources@[j as int]@ == rdv[j as int]);
            assert(all.deep_view() =~= prev.push(rdv[j as int]));
            assert(all.deep_view() =~= gdv + rdv.take(j + 1));
        }
        j += 1;
    }
    proof {
        assert(rdv.take(rule_resources@.len() as int) =~= rdv);
        assert(all.deep_view() =~= gdv + rdv);
    }
    let ghost combined = all.deep_view();
    let sorted = sort_strings(all);
    let deduped = crate::aggregate::dedup_strings(&sorted);
    proof {
        lemma_dedup_sorted(sorted.deep_view());
        sorted.deep_view().to_multiset_ensures();
        combined.to_multiset_ensures();
        assert forall|x: Seq<char>|
            #[trigger] deduped.deep_view().contains(x) == combined.contains(x) by {
            lemma_dedup_contains(sorted.deep_view(), x);
            assert(sorted.deep_view().contains(x) == (sorted.deep_view().to_multiset().count(x)
                > 0));
            assert(combined.contains(x) == (combined.to_multiset().count(x) > 0));
        }
    }
    deduped
}

/// What a resource pattern resolves to: a base directory and the glob
/// relative to it.  `~/` hangs off the home directory when one is known,
/// an absolute pattern off the root, anything else off the working
/// directory.
pub open spec fn resolve_path_spec(pattern: Seq<char>, home: Option<Seq<char>>) -> (
    Seq<char>,
    Seq<char>,
) {
    if starts_with(pattern, "~/"@) && home is Some {
        (home->0, pattern.skip(2))
    } else if starts_with(pattern, "/"@) {
        ("/"@, pattern.skip(1))
    } else {
        ("."@, pattern)
    }
}

/// Resolves a resource pattern against the home directory.
pub fn resolve_path(pattern: &str, home: Option<&str>) -> (r: (String, String))
    ensures
        (r.0@, r.1@) == resolve_path_spec(
            pattern@,
            match home {
                Some(h) => Some(h@),
                None => None,
            },
        ),
{
    let n = pattern.unicode_len();
    if text::starts_with_str(pattern, "~/") {
        match home {
            Some(h) => {
                proof {
                    reveal_strlit("~/");
                    assert(("~/"@).len() == 2);
                }
                let rest = pattern.substring_char(2, n);
                proof {
                    assert(pattern@.subrange(2, n as int) =~= pattern@.skip(2));
                }
                return (String::from_str(h), String::from_str(rest));
            },
            None => {},
        }
    }
    if text::starts_with_str(pattern, "/") {
        proof {
            reveal_strlit("/");
            assert(("/"@).len() == 1);
        }
        let rest = pattern.substring_char(1, n);
        proof {
            assert(pattern@.subrange(1, n as int) =~= pattern@.skip(1));
            reveal_strlit("/");
            reveal_strlit("~/");
        }
        (String::from_str("/"), String::from_str(rest))
    } else {
        proof {
            reveal_strlit("/");
            reveal_strlit("~/");
        }
        (String::from_str("."), String::from_str(pattern))
    }
}

/// What kind of resource a reference names, with the rest of the
/// reference after its scheme.
pub enum ResourceKind {
    /// `file://` — files matched by a glob, included verbatim.
    FilePattern(String),
    /// `skill://` — Markdown files whose front matter is summarized.
    SkillPattern(String),
    /// `sh://` — a command whose output is included.
    ShellCommand(String),
    /// Anything else is reported and skipped.
    Unknown,
}

/// The value of a classified resource.
pub open spec fn classify_resource_spec(r: Seq<char>) -> Option<(int, Seq<char>)> {
    if starts_with(r, "file://"@) {
        Some((0, r.skip(7)))
    } else if starts_with(r, "skill://"@) {
        Some((1, r.skip(8)))
    } else if starts_with(r, "sh://"@) {
        Some((2, r.skip(5)))
    } else {
        None
    }
}

/// Splits a resource reference into its kind and payload.
pub fn classify_resource(resource: &str) -> (r: ResourceKind)
    ensures
        match r {
            ResourceKind::FilePattern(p) => classify_resource_spec(resource@) == Some(
                (0int, p@),
            ),
            ResourceKind::SkillPattern(p) => classify_resource_spec(resource@) == Some(
                (1int, p@),
            ),
            ResourceKind::ShellCommand(p) => classify_resource_spec(resource@) == Some(
                (2int, p@),
            ),
            ResourceKind::Unknown => classify_resource_spec(resource@) is None,
        },
{
    let n = resource.unicode_len();
    if text::starts_with_str(resource, "file://") {
        proof {
            reveal_strlit("file://");
            assert(("file://"@).len() == 7);
        }
        let rest = resource.substring_char(7, n);
        proof {
            assert(resource@.subrange(7, n as int) =~= resource@.skip(7));
        }
        ResourceKind::FilePattern(String::from_str(rest))
    } else if text::starts_with_str(resource, "skill://") {
        proof {
            reveal_strlit("skill://");
            assert(("skill://"@).len() == 8);
        }
        let rest = resource.substring_char(8, n);
        proof {
            assert(resource@.subrange(8, n as int) =~= resource@.skip(8));
        }
        ResourceKind::SkillPattern(String::from_str(rest))
    } else if text::starts_with_str(resource, "sh://") {
        proof {
            reveal_strlit("sh://");
            assert(("sh://"@).len() == 5);
        }
        let rest = resource.substring_char(5, n);
        proof {
            assert(resource@.subrange(5, n as int) =~= resource@.skip(5));
        }
        ResourceKind::ShellCommand(String::from_str(rest))
    } else {
        ResourceKind::Unknown
    }
}

/// One loaded resource, under a banner naming where it came from.
pub open spec fn resource_section_spec(name: Seq<char>, content: Seq<char>) -> Seq<char> {
    "\n--- "@ + name + " ---\n"@ + content + "\n"@
}

/// Renders one loaded resource under its banner.
pub fn resource_section(name: &str, content: &str) -> (r: String)
    ensures
        r@ == resource_section_spec(name@, content@),
{
    let mut out = String::from_str("\n--- ");
    text::append_str(&mut out, name);
    text::append_str(&mut out, " ---\n");
    text::append_str(&mut out, content);
    text::append_str(&mut out, "\n");
    proof {
        assert(out@ =~= resource_section_spec(name@, content@));
    }
    out
}

/// The summary of a skill file from its front matter: title as heading,
/// then description.
pub open spec fn skill_markdown_spec(
    title: Option<Seq<char>>,
    description: Option<Seq<char>>,
) -> Seq<char> {
    (match title {
        Some(t) => "# "@ + t + "\n\n"@,
        None => Seq::empty(),
    }) + (match description {
        Some(d) => d + "\n"@,
        None => Seq::empty(),
    })
}

/// Summarizes a skill file from its front-matter fields.
pub fn skill_markdown(title: Option<&str>, description: Option<&str>) -> (r: String)
    ensures
        r@ == skill_markdown_spec(
            match title {
                Some(t) => Some(t@),
                None => None,
            },
            match description {
                Some(d) => Some(d@),
                None => None,
            },
        ),
{
    let mut out = String::new();
    match title {
        Some(t) => {
            text::append_str(&mut out, "# ");
            text::append_str(&mut out, t);
            text::append_str(&mut out, "\n\n");
        },
        None => {},
    }
    match description {
        Some(d) => {
            text::append_str(&mut out, d);
            text::append_str(&mut out, "\n");
        },
        None => {},
    }
    proof {
        assert(out@ =~= skill_markdown_spec(
            match title {
                Some(t) => Some(t@),
                None => None,
            },
            match description {
                Some(d) => Some(d@),
                None => None,
            },
        ));
    }
    out
}

/// The fenced diffs of the focused files whose diffs are includable.
pub open spec fn diffs_content_spec(
    files: Seq<Seq<char>>,
    entries: Seq<DiffEntrySpec>,
) -> Seq<char>
    decreases files.len(),
{
    if files.len() == 0 {
        Seq::empty()
    } else {
        diffs_content_spec(files.drop_last(), entries) + (
        if gitbase::should_include_diff_spec(files.last()) && diff_lookup(
            entries,
            files.last(),
        ) is Some {
            "```diff\n"@ + diff_lookup(entries, files.last())->0 + "\n```\n\n"@
        } else {
            Seq::empty()
        })
    }
}

/// The diffs section of the opening user message: the focused files'
/// pre-fetched diffs, or nothing when none is includable.
pub open spec fn diffs_section_spec(
    files: Seq<Seq<char>>,
    entries: Seq<DiffEntrySpec>,
) -> Seq<char> {
    let content = diffs_content_spec(files, entries);
    if content.len() == 0 {
        Seq::empty()
    } else {
        "Here are diffs of focused files (no need to call diff tool on them):\n\n"@ + trim_spec(
            content,
        ) + "\n\n"@
    }
}

/// Builds the diffs section for the focused files from the pre-fetched
/// diffs, excluding files whose diffs are withheld.
pub fn build_diffs_section(files: &Vec<String>, diffs: &crate::tools::Diff) -> (r: String)
    ensures
        r@ == diffs_section_spec(files.deep_view(), diffs.diffs.deep_view()),
{
    let ghost fdv = files.deep_view();
    let ghost edv = diffs.diffs.deep_view();
    let mut content = String::new();
    let mut i: usize = 0;
    proof {
        assert(content@ =~= diffs_content_spec(fdv.take(0), edv));
    }
    while i < files.len()
        invariant
            fdv == files.deep_view(),
            edv == diffs.diffs.deep_view(),
            i <= files.len(),
            content@ == diffs_content_spec(fdv.take(i as int), edv),
        decreases files.len() - i,
    {
        proof {
            assert(files@[i as int]@ == fdv[i as int]);
            assert(fdv.take(i + 1).drop_last() =~= fdv.take(i as int));
            assert(fdv.take(i + 1).last() == fdv[i as int]);
        }
        if gitbase::should_include_diff(files[i].as_str()) {
            match diffs.lookup(files[i].as_str()) {
                Some(d) => {
                    text::append_str(&mut content, "```diff\n");
                    text::append_str(&mut content, d.as_str());
                    text::append_str(&mut content, "\n```\n\n");
                },
                None => {},
            }
        }
        proof {
            assert(content@ =~= diffs_content_spec(fdv.take(i + 1), edv));
        }
        i += 1;
    }
    proof {
        assert(fdv.take(files@.len() as int) =~= fdv);
    }
    if content.as_str().unicode_len() == 0 {
        proof {
            assert(content@ =~= Seq::<char>::empty());
        }
        String::new()
    } else {
        let mut out = String::from_str(
            "Here are diffs of focused files (no need to call diff tool on them):\n\n",
        );
        let trimmed = text::trim(content.as_str());
        text::append_str(&mut out, trimmed);
        text::append_str(&mut out, "\n\n");
        proof {
            assert(out@ =~= diffs_section_spec(fdv, edv));
        }
        out
    }
}

/// The commit-messages section, omitted for whole-repository reviews and
/// when there are no commit subjects.
pub open spec fn commits_section_spec(commits: Seq<char>, is_root: bool) -> Seq<char> {
    if is_root || commits.len() == 0 {
        Seq::empty()
    } else {
        "Commit messages:\n\n"@ + commits + "\n\n"@
    }
}

/// The rule block of the opening user message.
pub open spec fn rule_block_spec(instruction: Seq<char>) -> Seq<char> {
    "Rule:\n\n<rule>\n\n"@ + trim_spec(instruction) + "\n\n</rule>\n\n"@
}

/// The opening user message of one task: commit subjects, the changed
/// and focused file lists (the full list only when the focus is a strict
/// subset), the rule, the focused files' diffs, and resource text.
pub open spec fn user_message_spec(
    instruction: Seq<char>,
    files: Seq<Seq<char>>,
    all_files: Seq<Seq<char>>,
    commits: Seq<char>,
    is_root: bool,
    diffs_section: Seq<char>,
    resources: Seq<char>,
) -> Seq<char> {
    if files == all_files {
        if is_root {
            rule_block_spec(instruction) + diffs_section + resources
        } else {
            commits_section_spec(commits, is_root) + "Changed files:\n\n- "@ + join_sep(
                files,
                "\n- "@,
            ) + "\n\n"@ + rule_block_spec(instruction) + diffs_section + resources
        }
    } else {
        if is_root {
            "Focus on these files:\n\n- "@ + join_sep(files, "\n- "@)
                + "\n\nNote: For most cases, only read the focused files.\n\n"@ + rule_block_spec(
                instruction,
            ) + diffs_section + resources
        } else {
            commits_section_spec(commits, is_root) + "All changed files:\n\n- "@ + join_sep(
                all_files,
                "\n- "@,
            ) + "\n\nFocus on these files:\n\n- "@ + join_sep(files, "\n- "@)
                + "\n\nNote: For most cases, only read the focused files.\n\n"@ + rule_block_spec(
                instruction,
            ) + diffs_section + resources
        }
    }
}

fn vec_str_eq(a: &Vec<String>, b: &Vec<String>) -> (r: bool)
    ensures
        r == (a.deep_view() == b.deep_view()),
{
    if a.len() != b.len() {
        proof {
            assert(a.deep_view().len() == a@.len());
            assert(b.deep_view().len() == b@.len());
        }
        return false;
    }
    let mut i: usize = 0;
    while i < a.len()
        invariant
            a@.len() == b@.len(),
            i <= a@.len(),
            forall|j: int| 0 <= j < i ==> a.deep_view()[j] == b.deep_view()[j],
        decreases a.len() - i,
    {
        proof {
            assert(a.deep_view()[i as int] == a@[i as int]@);
            assert(b.deep_view()[i as int] == b@[i as int]@);
        }
        if !text::str_eq(a[i].as_str(), b[i].as_str()) {
            return false;
        }
        i += 1;
    }
    proof {
        assert(a.deep_view() =~= b.deep_view());
    }
    true
}

/// Assembles the opening user message of one task.
pub fn build_user_message(
    instruction: &str,
    files: &Vec<String>,
    all_files: &Vec<String>,
    commits: &str,
    is_root: bool,
    diffs_section: &str,
    resources: &str,
) -> (r: String)
    ensures
        r@ == user_message_spec(
            instruction@,
            files.deep_view(),
            all_files.deep_view(),
            commits@,
            is_root,
            diffs_section@,
            resources@,
        ),
{
    let mut out = String::new();
    let same = vec_str_eq(files, all_files);
    if !is_root && commits.unicode_len() > 0 {
        text::append_str(&mut out, "Commit messages:\n\n");
        text::append_str(&mut out, commits);
        text::append_str(&mut out, "\n\n");
    }
    if same {
        if !is_root {
            text::append_str(&mut out, "Changed files:\n\n- ");
            let fl = text::join_strings(files, "\n- ");
            text::append_str(&mut out, fl.as_str());
            text::append_str(&mut out, "\n\n");
        }
    } else {
        if !is_root {
            text::append_str(&mut out, "All changed files:\n\n- ");
            let al = text::join_strings(all_files, "\n- ");
            text::append_str(&mut out, al.as_str());
            text::append_str(&mut out, "\n\nFocus on these files:\n\n- ");
        } else {
            text::append_str(&mut out, "Focus on these files:\n\n- ");
        }
        let fl = text::join_strings(files, "\n- ");
        text::append_str(&mut out, fl.as_str());
        text::append_str(&mut out, "\n\nNote: For most cases, only read the focused files.\n\n");
    }
    let ghost head = out@;
    text::append_str(&mut out, "Rule:\n\n<rule>\n\n");
    let ti = text::trim(instruction);
    text::append_str(&mut out, ti);
    text::append_str(&mut out, "\n\n</rule>\n\n");
    text::append_str(&mut out, diffs_section);
    text::append_str(&mut out, resources);
    proof {
        assert(files@.map_values(|l: String| l@) =~= files.deep_view());
        assert(all_files@.map_values(|l: String| l@) =~= all_files.deep_view());
        let fdv = files.deep_view();
        let adv = all_files.deep_view();
        let goal = user_message_spec(
            instruction@,
            fdv,
            adv,
            commits@,
            is_root,
            diffs_section@,
            resources@,
        );
        if same {
            if is_root {
                assert(goal == rule_block_spec(instruction@) + diffs_section@ + resources@);
                assert(out@ =~= goal);
            } else {
                assert(goal == commits_section_spec(commits@, is_root)
                    + "Changed files:\n\n- "@ + join_sep(fdv, "\n- "@) + "\n\n"@
                    + rule_block_spec(instruction@) + diffs_section@ + resources@);
                assert(out@ =~= goal);
            }
        } else {
            if is_root {
                assert(goal == "Focus on these files:\n\n- "@ + join_sep(fdv, "\n- "@)
                    + "\n\nNote: For most cases, only read the focused files.\n\n"@
                    + rule_block_spec(instruction@) + diffs_section@ + resources@);
                assert(out@ =~= goal);
            } else {
                assert(goal == commits_section_spec(commits@, is_root)
                    + "All changed files:\n\n- "@ + join_sep(adv, "\n- "@)
                    + "\n\nFocus on these files:\n\n- "@ + join_sep(fdv, "\n- "@)
                    + "\n\nNote: For most cases, only read the focused files.\n\n"@
                    + rule_block_spec(instruction@) + diffs_section@ + resources@);
                assert(head =~= commits_section_spec(commits@, is_root)
                    + "All changed files:\n\n- "@ + join_sep(adv, "\n- "@)
                    + "\n\nFocus on these files:\n\n- "@ + join_sep(fdv, "\n- "@)
                    + "\n\nNote: For most cases, only read the focused files.\n\n"@);
                assert(out@ =~= head + rule_block_spec(instruction@) + diffs_section@
                    + resources@);
                assert(out@ =~= goal);
            }
        }
    }
    out
}

} // verus!
