//! Merging worker results: violations grouped by file, then by rule,
//! blocking bookkeeping, and the process exit policy.
//!
//! Workers finish in no particular order, so everything here is
//! order-independent by construction: what lands under a file and rule is
//! a filter of the flat result entries, and as a collection it does not
//! depend on the order the entries arrived in.

use vstd::prelude::*;
use vstd::multiset::Multiset;

use crate::types::{Violation, ViolationSpec};

verus! {

/// One reported violation together with the rule that reported it.
pub struct Entry {
    pub rule_name: String,
    pub violation: Violation,
}

/// The mathematical value of an entry.
#[verifier::ext_equal]
pub struct EntrySpec {
    pub rule_name: Seq<char>,
    pub violation: ViolationSpec,
}

impl View for Entry {
    type V = EntrySpec;

    open spec fn view(&self) -> EntrySpec {
        EntrySpec { rule_name: self.rule_name@, violation: self.violation@ }
    }
}

impl DeepView for Entry {
    type V = EntrySpec;

    open spec fn deep_view(&self) -> EntrySpec {
        self@
    }
}

/// Whether an entry belongs under `file` and `rule`.
pub open spec fn entry_key_is(e: EntrySpec, file: Seq<char>, rule: Seq<char>) -> bool {
    e.violation.file == file && e.rule_name == rule
}

/// The entries grouped under one file and rule, in arrival order.
pub open spec fn grouped_entries(entries: Seq<EntrySpec>, file: Seq<char>, rule: Seq<char>)
    -> Seq<EntrySpec> {
    entries.filter(|e: EntrySpec| entry_key_is(e, file, rule))
}

proof fn lemma_filter_to_multiset<A>(s: Seq<A>, p: spec_fn(A) -> bool)
    ensures
        s.filter(p).to_multiset() == s.to_multiset().filter(p),
    decreases s.len(),
{
    broadcast use vstd::seq_lib::group_to_multiset_ensures;
    broadcast use vstd::multiset::group_multiset_axioms;

    reveal_with_fuel(Seq::filter, 2);
    if s.len() == 0 {
        assert(s.to_multiset() =~= Multiset::<A>::empty());
        assert(s.filter(p).to_multiset() =~= s.to_multiset().filter(p));
    } else {
        let d = s.drop_last();
        let x = s.last();
        lemma_filter_to_multiset(d, p);
        assert(s =~= d.push(x));
        assert(d.push(x).to_multiset() =~= d.to_multiset().insert(x));
        if p(x) {
            assert(s.filter(p) == d.filter(p).push(x));
            assert(d.filter(p).push(x).to_multiset() =~= d.filter(p).to_multiset().insert(x));
            assert(d.to_multiset().insert(x).filter(p) =~= d.to_multiset().filter(p).insert(x));
        } else {
            assert(s.filter(p) == d.filter(p));
            assert(d.to_multiset().insert(x).filter(p) =~= d.to_multiset().filter(p));
        }
    }
}

/// Aggregation is commutative: two arrival orders of the same collection
/// of result entries group identically — under every file and rule, the
/// same collection of violations.
pub proof fn lemma_aggregation_commutative(e1: Seq<EntrySpec>, e2: Seq<EntrySpec>)
    requires
        e1.to_multiset() == e2.to_multiset(),
    ensures
        forall|file: Seq<char>, rule: Seq<char>|
            #[trigger] grouped_entries(e1, file, rule).to_multiset() == grouped_entries(
                e2,
                file,
                rule,
            ).to_multiset(),
{
    assert forall|file: Seq<char>, rule: Seq<char>|
        #[trigger] grouped_entries(e1, file, rule).to_multiset() == grouped_entries(
            e2,
            file,
            rule,
        ).to_multiset() by {
        let p = |e: EntrySpec| entry_key_is(e, file, rule);
        lemma_filter_to_multiset(e1, p);
        lemma_filter_to_multiset(e2, p);
    }
}

/// The keys of a list, first occurrence first, later repeats dropped.
pub open spec fn dedup_keys(s: Seq<Seq<char>>) -> Seq<Seq<char>>
    decreases s.len(),
{
    if s.len() == 0 {
        Seq::empty()
    } else {
        let d = dedup_keys(s.drop_last());
        if d.contains(s.last()) {
            d
        } else {
            d.push(s.last())
        }
    }
}

/// Keeps the first occurrence of each string, dropping later repeats.
pub fn dedup_strings(items: &Vec<String>) -> (r: Vec<String>)
    ensures
        r.deep_view() == dedup_keys(items.deep_view()),
{
    let ghost idv = items.deep_view();
    let mut out: Vec<String> = Vec::new();
    let mut i: usize = 0;
    proof {
        assert(out.deep_view() =~= dedup_keys(idv.take(0)));
    }
    while i < items.len()
        invariant
            idv == items.deep_view(),
            i <= items.len(),
            out.deep_view() == dedup_keys(idv.take(i as int)),
        decreases items.len() - i,
    {
        let mut seen = false;
        let mut j: usize = 0;
        while j < out.len()
            invariant
                j <= out.len(),
                idv == items.deep_view(),
                i < items.len(),
                seen == (exists|q: int| 0 <= q < j && out.deep_view()[q] == idv[i as int]),
            decreases out.len() - j,
        {
            if out[j].eq(&items[i]) {
                proof {
                    assert(out.deep_view()[j as int] == idv[i as int]);
                }
                seen = true;
            }
            proof {
                assert(out.deep_view()[j as int] == out@[j as int]@);
                assert(idv[i as int] == items@[i as int]@);
            }
            j += 1;
        }
        proof {
            assert(seen == out.deep_view().contains(idv[i as int]));
            assert(idv.take(i + 1).drop_last() =~= idv.take(i as int));
            assert(idv.take(i + 1).last() == idv[i as int]);
        }
        if !seen {
            let ghost prev = out.deep_view();
            out.push(items[i].clone());
            proof {
                assert(out.deep_view() =~= prev.push(idv[i as int]));
            }
        }
        i += 1;
    }
    proof {
        assert(idv.take(items@.len() as int) =~= idv);
    }
    out
}

/// The violations one rule reported for one file, in arrival order.
pub open spec fn group_violations(entries: Seq<EntrySpec>, file: Seq<char>, rule: Seq<char>)
    -> Seq<ViolationSpec> {
    grouped_entries(entries, file, rule).map_values(|e: EntrySpec| e.violation)
}

/// The violations of one rule within one file group.
pub struct RuleViolations {
    pub rule_name: String,
    pub violations: Vec<Violation>,
}

/// One file's groups, one per rule that reported on it.
pub struct FileViolations {
    pub file: String,
    pub rules: Vec<RuleViolations>,
}

/// The rule names under one file, first reporter first.
pub open spec fn file_rule_keys(entries: Seq<EntrySpec>, file: Seq<char>) -> Seq<Seq<char>> {
    dedup_keys(
        entries.filter(|e: EntrySpec| e.violation.file == file).map_values(
            |e: EntrySpec| e.rule_name,
        ),
    )
}

/// The file names of all entries, first reporter first.
pub open spec fn file_keys(entries: Seq<EntrySpec>) -> Seq<Seq<char>> {
    dedup_keys(entries.map_values(|e: EntrySpec| e.violation.file))
}

/// The mathematical value of one rule's group.
#[verifier::ext_equal]
pub struct RuleViolationsSpec {
    pub rule_name: Seq<char>,
    pub violations: Seq<ViolationSpec>,
}

impl View for RuleViolations {
    type V = RuleViolationsSpec;

    open spec fn view(&self) -> RuleViolationsSpec {
        RuleViolationsSpec {
            rule_name: self.rule_name@,
            violations: self.violations.deep_view(),
        }
    }
}

impl DeepView for RuleViolations {
    type V = RuleViolationsSpec;

    open spec fn deep_view(&self) -> RuleViolationsSpec {
        self@
    }
}

/// The mathematical value of one file's groups.
#[verifier::ext_equal]
pub struct FileViolationsSpec {
    pub file: Seq<char>,
    pub rules: Seq<RuleViolationsSpec>,
}

impl View for FileViolations {
    type V = FileViolationsSpec;

    open spec fn view(&self) -> FileViolationsSpec {
        FileViolationsSpec { file: self.file@, rules: self.rules.deep_view() }
    }
}

impl DeepView for FileViolations {
    type V = FileViolationsSpec;

    open spec fn deep_view(&self) -> FileViolationsSpec {
        self@
    }
}

/// One file's groups: for each rule that reported on it, in first-seen
/// order, the violations it reported, in arrival order.
pub open spec fn file_group_spec(entries: Seq<EntrySpec>, file: Seq<char>) -> FileViolationsSpec {
    FileViolationsSpec {
        file,
        rules: file_rule_keys(entries, file).map_values(
            |r: Seq<char>|
                RuleViolationsSpec { rule_name: r, violations: group_violations(entries, file, r) },
        ),
    }
}

/// The whole grouping: one group per file, files in first-seen order.
pub open spec fn grouped_spec(entries: Seq<EntrySpec>) -> Seq<FileViolationsSpec> {
    file_keys(entries).map_values(|f: Seq<char>| file_group_spec(entries, f))
}

fn entry_files(entries: &Vec<Entry>) -> (r: Vec<String>)
    ensures
        r.deep_view() == entries.deep_view().map_values(|e: EntrySpec| e.violation.file),
{
    let ghost edv = entries.deep_view();
    let mut out: Vec<String> = Vec::new();
    let mut i: usize = 0;
    while i < entries.len()
        invariant
            edv == entries.deep_view(),
            i <= entries.len(),
            out.deep_view() == edv.take(i as int).map_values(|e: EntrySpec| e.violation.file),
        decreases entries.len() - i,
    {
        let ghost prev = out.deep_view();
        out.push(entries[i].violation.file.clone());
        proof {
            assert(entries@[i as int]@ == edv[i as int]);
            assert(out.deep_view() =~= prev.push(edv[i as int].violation.file));
            assert(out.deep_view() =~= edv.take(i + 1).map_values(
                |e: EntrySpec| e.violation.file,
            ));
        }
        i += 1;
    }
    proof {
        assert(edv.take(entries@.len() as int) =~= edv);
    }
    out
}

fn rules_of_file(entries: &Vec<Entry>, file: &String) -> (r: Vec<String>)
    ensures
        r.deep_view() == entries.deep_view().filter(
            |e: EntrySpec| e.violation.file == file@,
        ).map_values(|e: EntrySpec| e.rule_name),
{
    let ghost edv = entries.deep_view();
    let ghost p = |e: EntrySpec| e.violation.file == file@;
    let mut out: Vec<String> = Vec::new();
    let mut i: usize = 0;
    proof {
        reveal_with_fuel(Seq::filter, 2);
        assert(out.deep_view() =~= edv.take(0).filter(p).map_values(
            |e: EntrySpec| e.rule_name,
        ));
    }
    while i < entries.len()
        invariant
            edv == entries.deep_view(),
            p == (|e: EntrySpec| e.violation.file == file@),
            i <= entries.len(),
            out.deep_view() == edv.take(i as int).filter(p).map_values(
                |e: EntrySpec| e.rule_name,
            ),
        decreases entries.len() - i,
    {
        let ghost prev = out.deep_view();
        if entries[i].violation.file.eq(file) {
            out.push(entries[i].rule_name.clone());
        }
        proof {
            reveal_with_fuel(Seq::filter, 2);
            assert(entries@[i as int]@ == edv[i as int]);
            assert(edv.take(i + 1) =~= edv.take(i as int) + seq![edv[i as int]]);
            Seq::filter_distributes_over_add(edv.take(i as int), seq![edv[i as int]], p);
            if p(edv[i as int]) {
                assert(seq![edv[i as int]].filter(p) =~= seq![edv[i as int]]);
                assert(out.deep_view() =~= prev.push(edv[i as int].rule_name));
            } else {
                assert(seq![edv[i as int]].filter(p) =~= Seq::<EntrySpec>::empty());
            }
            assert(out.deep_view() =~= edv.take(i + 1).filter(p).map_values(
                |e: EntrySpec| e.rule_name,
            ));
        }
        i += 1;
    }
    proof {
        assert(edv.take(entries@.len() as int) =~= edv);
    }
    out
}

fn violations_for(entries: &Vec<Entry>, file: &String, rule: &String) -> (r: Vec<Violation>)
    ensures
        r.deep_view() == group_violations(entries.deep_view(), file@, rule@),
{
    let ghost edv = entries.deep_view();
    let ghost p = |e: EntrySpec| entry_key_is(e, file@, rule@);
    let mut out: Vec<Violation> = Vec::new();
    let mut i: usize = 0;
    proof {
        reveal_with_fuel(Seq::filter, 2);
        assert(out.deep_view() =~= edv.take(0).filter(p).map_values(
            |e: EntrySpec| e.violation,
        ));
    }
    while i < entries.len()
        invariant
            edv == entries.deep_view(),
            p == (|e: EntrySpec| entry_key_is(e, file@, rule@)),
            i <= entries.len(),
            out.deep_view() == edv.take(i as int).filter(p).map_values(
                |e: EntrySpec| e.violation,
            ),
        decreases entries.len() - i,
    {
        let ghost prev = out.deep_view();
        if entries[i].violation.file.eq(file) && entries[i].rule_name.eq(rule) {
            let v = entries[i].violation.duplicate();
            out.push(v);
        }
        proof {
            reveal_with_fuel(Seq::filter, 2);
            assert(entries@[i as int]@ == edv[i as int]);
            assert(edv.take(i + 1) =~= edv.take(i as int) + seq![edv[i as int]]);
            Seq::filter_distributes_over_add(edv.take(i as int), seq![edv[i as int]], p);
            if p(edv[i as int]) {
                assert(seq![edv[i as int]].filter(p) =~= seq![edv[i as int]]);
                assert(out.deep_view() =~= prev.push(edv[i as int].violation));
            } else {
                assert(seq![edv[i as int]].filter(p) =~= Seq::<EntrySpec>::empty());
            }
            assert(out.deep_view() =~= edv.take(i + 1).filter(p).map_values(
                |e: EntrySpec| e.violation,
            ));
        }
        i += 1;
    }
    proof {
        assert(edv.take(entries@.len() as int) =~= edv);
    }
    out
}

/// Groups flat result entries by file, then by rule, first-seen order at
/// both levels and arrival order within a group.  The content under any
/// file and rule is a pure filter of the entries, so as a collection it
/// does not depend on the order workers finished in.
pub fn group_entries(entries: &Vec<Entry>) -> (r: Vec<FileViolations>)
    ensures
        r.deep_view() == grouped_spec(entries.deep_view()),
{
    let ghost edv = entries.deep_view();
    let all_files = entry_files(entries);
    let files = dedup_strings(&all_files);
    let ghost fkeys = file_keys(edv);
    proof {
        assert(files.deep_view() == fkeys);
    }
    let mut out: Vec<FileViolations> = Vec::new();
    let mut i: usize = 0;
    proof {
        assert(out.deep_view() =~= fkeys.take(0).map_values(
            |f: Seq<char>| file_group_spec(edv, f),
        ));
    }
    while i < files.len()
        invariant
            edv == entries.deep_view(),
            fkeys == file_keys(edv),
            files.deep_view() == fkeys,
            i <= files.len(),
            out.deep_view() == fkeys.take(i as int).map_values(
                |f: Seq<char>| file_group_spec(edv, f),
            ),
        decreases files.len() - i,
    {
        let file = &files[i];
        proof {
            assert(files@[i as int]@ == fkeys[i as int]);
        }
        let all_rules = rules_of_file(entries, file);
        let rules = dedup_strings(&all_rules);
        let ghost rkeys = file_rule_keys(edv, file@);
        proof {
            assert(rules.deep_view() == rkeys);
        }
        let mut groups: Vec<RuleViolations> = Vec::new();
        let mut j: usize = 0;
        proof {
            assert(groups.deep_view() =~= rkeys.take(0).map_values(
                |rk: Seq<char>|
                    RuleViolationsSpec {
                        rule_name: rk,
                        violations: group_violations(edv, file@, rk),
                    },
            ));
        }
        while j < rules.len()
            invariant
                edv == entries.deep_view(),
                rkeys == file_rule_keys(edv, file@),
                rules.deep_view() == rkeys,
                j <= rules.len(),
                groups.deep_view() == rkeys.take(j as int).map_values(
                    |rk: Seq<char>|
                        RuleViolationsSpec {
                            rule_name: rk,
                            violations: group_violations(edv, file@, rk),
                        },
                ),
            decreases rules.len() - j,
        {
            let ghost gprev = groups.deep_view();
            let vs = violations_for(entries, file, &rules[j]);
            proof {
                assert(rules@[j as int]@ == rkeys[j as int]);
            }
            groups.push(RuleViolations { rule_name: rules[j].clone(), violations: vs });
            proof {
                assert(groups.deep_view() =~= gprev.push(
                    RuleViolationsSpec {
                        rule_name: rkeys[j as int],
                        violations: group_violations(edv, file@, rkeys[j as int]),
                    },
                ));
                assert(groups.deep_view() =~= rkeys.take(j + 1).map_values(
                    |rk: Seq<char>|
                        RuleViolationsSpec {
                            rule_name: rk,
                            violations: group_violations(edv, file@, rk),
                        },
                ));
            }
            j += 1;
        }
        let ghost oprev = out.deep_view();
        proof {
            assert(rkeys.take(rules@.len() as int) =~= rkeys);
        }
        out.push(FileViolations { file: file.clone(), rules: groups });
        proof {
            assert(out.deep_view() =~= oprev.push(file_group_spec(edv, fkeys[i as int])));
            assert(out.deep_view() =~= fkeys.take(i + 1).map_values(
                |f: Seq<char>| file_group_spec(edv, f),
            ));
        }
        i += 1;
    }
    proof {
        assert(fkeys.take(files@.len() as int) =~= fkeys);
    }
    out
}

/// What one worker result contributes to aggregation: its violations,
/// each tagged with the reporting rule.
pub open spec fn result_entries(w: crate::worker::WorkerResultSpec) -> Seq<EntrySpec> {
    w.violations.map_values(|v: ViolationSpec| EntrySpec { rule_name: w.rule_name, violation: v })
}

/// The flat entries of a run, in the order results were collected.
pub open spec fn collected_entries(results: Seq<crate::worker::WorkerResultSpec>) -> Seq<
    EntrySpec,
>
    decreases results.len(),
{
    if results.len() == 0 {
        Seq::empty()
    } else {
        collected_entries(results.drop_last()) + result_entries(results.last())
    }
}

/// Flattens collected worker results into (rule, violation) entries.  No
/// path discards accumulated state: cancelled and failed results
/// contribute like completed ones.
pub fn collect_entries(results: &Vec<crate::worker::WorkerResult>) -> (r: Vec<Entry>)
    ensures
        r.deep_view() == collected_entries(results.deep_view()),
{
    let ghost rdv = results.deep_view();
    let mut out: Vec<Entry> = Vec::new();
    let mut i: usize = 0;
    proof {
        assert(out.deep_view() =~= collected_entries(rdv.take(0)));
    }
    while i < results.len()
        invariant
            rdv == results.deep_view(),
            i <= results.len(),
            out.deep_view() == collected_entries(rdv.take(i as int)),
        decreases results.len() - i,
    {
        let w = &results[i];
        let ghost wspec = rdv[i as int];
        proof {
            assert(results@[i as int]@ == wspec);
        }
        let ghost before = out.deep_view();
        let mut t: usize = 0;
        while t < w.violations.len()
            invariant
                wspec == w.deep_view(),
                t <= w.violations@.len(),
                out.deep_view() == before + result_entries(wspec).take(t as int),
            decreases w.violations.len() - t,
        {
            let ghost prev = out.deep_view();
            let v = w.violations[t].duplicate();
            out.push(Entry { rule_name: w.rule_name.clone(), violation: v });
            proof {
                assert(w.violations@[t as int]@ == wspec.violations[t as int]);
                assert(out.deep_view() =~= prev.push(
                    EntrySpec {
                        rule_name: wspec.rule_name,
                        violation: wspec.violations[t as int],
                    },
                ));
                assert(result_entries(wspec)[t as int] == EntrySpec {
                    rule_name: wspec.rule_name,
                    violation: wspec.violations[t as int],
                });
                assert(result_entries(wspec).take(t + 1) =~= result_entries(wspec).take(
                    t as int,
                ).push(result_entries(wspec)[t as int]));
                assert(out.deep_view() =~= before + result_entries(wspec).take(t + 1));
            }
            t += 1;
        }
        proof {
            assert(result_entries(wspec).take(wspec.violations.len() as int) =~= result_entries(
                wspec,
            ));
            assert(rdv.take(i + 1).drop_last() =~= rdv.take(i as int));
            assert(rdv.take(i + 1).last() == wspec);
            assert(out.deep_view() =~= collected_entries(rdv.take(i + 1)));
        }
        i += 1;
    }
    proof {
        assert(rdv.take(results@.len() as int) =~= rdv);
    }
    out
}

/// The blocking rules that produced at least one violation, first-seen
/// order, each once.
pub fn blocking_rules_with_violations(results: &Vec<crate::worker::WorkerResult>) -> (r: Vec<
    String,
>)
    ensures
        r.deep_view() == dedup_keys(
            results.deep_view().filter(
                |w: crate::worker::WorkerResultSpec| w.blocking && w.violations.len() > 0,
            ).map_values(|w: crate::worker::WorkerResultSpec| w.rule_name),
        ),
{
    let ghost rdv = results.deep_view();
    let ghost p = |w: crate::worker::WorkerResultSpec| w.blocking && w.violations.len() > 0;
    let mut names: Vec<String> = Vec::new();
    let mut i: usize = 0;
    proof {
        reveal_with_fuel(Seq::filter, 2);
        assert(names.deep_view() =~= rdv.take(0).filter(p).map_values(
            |w: crate::worker::WorkerResultSpec| w.rule_name,
        ));
    }
    while i < results.len()
        invariant
            rdv == results.deep_view(),
            p == (|w: crate::worker::WorkerResultSpec| w.blocking && w.violations.len() > 0),
            i <= results.len(),
            names.deep_view() == rdv.take(i as int).filter(p).map_values(
                |w: crate::worker::WorkerResultSpec| w.rule_name,
            ),
        decreases results.len() - i,
    {
        let ghost prev = names.deep_view();
        if results[i].blocking && results[i].violations.len() > 0 {
            names.push(results[i].rule_name.clone());
        }
        proof {
            reveal_with_fuel(Seq::filter, 2);
            assert(results@[i as int]@ == rdv[i as int]);
            assert(rdv.take(i + 1) =~= rdv.take(i as int) + seq![rdv[i as int]]);
            Seq::filter_distributes_over_add(rdv.take(i as int), seq![rdv[i as int]], p);
            if p(rdv[i as int]) {
                assert(seq![rdv[i as int]].filter(p) =~= seq![rdv[i as int]]);
                assert(names.deep_view() =~= prev.push(rdv[i as int].rule_name));
            } else {
                assert(seq![rdv[i as int]].filter(p)
                    =~= Seq::<crate::worker::WorkerResultSpec>::empty());
            }
            assert(names.deep_view() =~= rdv.take(i + 1).filter(p).map_values(
                |w: crate::worker::WorkerResultSpec| w.rule_name,
            ));
        }
        i += 1;
    }
    proof {
        assert(rdv.take(results@.len() as int) =~= rdv);
    }
    dedup_strings(&names)
}

/// A rule's remediation tip, paired with the rule.
pub struct RuleTip {
    pub rule_name: String,
    pub tip: String,
}

/// The mathematical value of a tip entry.
#[verifier::ext_equal]
pub struct RuleTipSpec {
    pub rule_name: Seq<char>,
    pub tip: Seq<char>,
}

impl View for RuleTip {
    type V = RuleTipSpec;

    open spec fn view(&self) -> RuleTipSpec {
        RuleTipSpec { rule_name: self.rule_name@, tip: self.tip@ }
    }
}

impl DeepView for RuleTip {
    type V = RuleTipSpec;

    open spec fn deep_view(&self) -> RuleTipSpec {
        self@
    }
}

/// The tip on record for a rule: the latest one collected, as later
/// results overwrite earlier ones.
pub open spec fn tip_lookup(tips: Seq<RuleTipSpec>, rule: Seq<char>) -> Option<Seq<char>>
    decreases tips.len(),
{
    if tips.len() == 0 {
        None
    } else if tips.last().rule_name == rule {
        Some(tips.last().tip)
    } else {
        tip_lookup(tips.drop_last(), rule)
    }
}

/// Finds the tip on record for a rule, if any.
pub fn find_tip<'a>(tips: &'a Vec<RuleTip>, rule: &String) -> (r: Option<&'a String>)
    ensures
        r matches Some(t) ==> tip_lookup(tips.deep_view(), rule@) == Some(t@),
        r is None ==> tip_lookup(tips.deep_view(), rule@) is None,
{
    let ghost tdv = tips.deep_view();
    let mut i: usize = tips.len();
    proof {
        assert(tdv.take(tips@.len() as int) =~= tdv);
    }
    while i > 0
        invariant
            tdv == tips.deep_view(),
            i <= tips.len(),
            tip_lookup(tdv, rule@) == tip_lookup(tdv.take(i as int), rule@),
        decreases i,
    {
        i = i - 1;
        proof {
            assert(tips@[i as int]@ == tdv[i as int]);
            assert(tdv.take(i + 1).last() == tdv[i as int]);
            assert(tdv.take(i + 1).drop_last() =~= tdv.take(i as int));
        }
        if tips[i].rule_name.eq(rule) {
            return Some(&tips[i].tip);
        }
    }
    proof {
        assert(tdv.take(0) =~= Seq::<RuleTipSpec>::empty());
    }
    None
}

/// The tips the results carry, in collection order.
pub fn collect_tips(results: &Vec<crate::worker::WorkerResult>) -> (r: Vec<RuleTip>)
    ensures
        r.deep_view() == tips_spec(results.deep_view()),
{
    let ghost rdv = results.deep_view();
    let mut out: Vec<RuleTip> = Vec::new();
    let mut i: usize = 0;
    proof {
        assert(out.deep_view() =~= tips_spec(rdv.take(0)));
    }
    while i < results.len()
        invariant
            rdv == results.deep_view(),
            i <= results.len(),
            out.deep_view() == tips_spec(rdv.take(i as int)),
        decreases results.len() - i,
    {
        let ghost prev = out.deep_view();
        match &results[i].tip {
            Some(t) => {
                out.push(
                    RuleTip { rule_name: results[i].rule_name.clone(), tip: t.clone() },
                );
            },
            None => {},
        }
        proof {
            assert(results@[i as int]@ == rdv[i as int]);
            assert(rdv.take(i + 1).drop_last() =~= rdv.take(i as int));
            assert(rdv.take(i + 1).last() == rdv[i as int]);
            match rdv[i as int].tip {
                Some(t) => {
                    assert(out.deep_view() =~= prev.push(
                        RuleTipSpec { rule_name: rdv[i as int].rule_name, tip: t },
                    ));
                },
                None => {},
            }
            assert(out.deep_view() =~= tips_spec(rdv.take(i + 1)));
        }
        i += 1;
    }
    proof {
        assert(rdv.take(results@.len() as int) =~= rdv);
    }
    out
}

/// The tip entries a run of results carries, in order.
pub open spec fn tips_spec(results: Seq<crate::worker::WorkerResultSpec>) -> Seq<RuleTipSpec>
    decreases results.len(),
{
    if results.len() == 0 {
        Seq::empty()
    } else {
        let rest = tips_spec(results.drop_last());
        match results.last().tip {
            Some(t) => rest.push(RuleTipSpec { rule_name: results.last().rule_name, tip: t }),
            None => rest,
        }
    }
}

/// The process exit status: non-zero exactly when a blocking rule has
/// violations or a task failed outright (cancellation alone is not a
/// failure).  The report is always written first.
pub fn compute_exit_code(any_blocking_violation: bool, failed_tasks: usize) -> (r: i32)
    ensures
        r == 1 <==> (any_blocking_violation || failed_tasks > 0),
        r == 0 || r == 1,
{
    if any_blocking_violation || failed_tasks > 0 {
        1
    } else {
        0
    }
}

} // verus!
